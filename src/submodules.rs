//! Resolution of the upstream project's submodules: the queries to the
//! repository-hosting API, the decoding of the `.gitmodules` file, the join of
//! its path-to-URL map with the pinned gitlink entries of the tree, and the
//! commands that materialize each submodule.
use vstd::prelude::*;
use vstd::utf8::{decode_utf8, valid_utf8};

use base64::Engine;

use crate::text::{chars_of, concat, is_prefix, join_path, joined, owned, starts_with, sub_string};
use crate::BuildError;

verus! {

#[verifier::external_type_specification]
#[verifier::external_body]
pub struct ExDecodeError(base64::DecodeError);

/// What the standard base64 engine decodes a text to; `None` when it refuses it.
pub uninterp spec fn base64_decoded(s: Seq<char>) -> Option<Seq<u8>>;

/// Relies on `base64::engine::general_purpose::STANDARD.decode`: decoding depends
/// on the text alone, and fails exactly where the engine refuses the text.
#[verifier::external_body]
fn decode_base64(s: &str) -> (r: Result<Vec<u8>, base64::DecodeError>)
    ensures
        match base64_decoded(s@) {
            Some(b) => r matches Ok(v) && v@ == b,
            None => r is Err,
        },
{
    base64::engine::general_purpose::STANDARD.decode(s)
}

/// Relies on `String::from_utf8`: it accepts exactly the valid UTF-8 byte
/// sequences, and the string holds the characters they encode.
#[verifier::external_body]
fn utf8_string(b: Vec<u8>) -> (r: Option<String>)
    ensures
        match r {
            Some(s) => valid_utf8(b@) && s@ == decode_utf8(b@),
            None => !valid_utf8(b@),
        },
{
    String::from_utf8(b).ok()
}

/// One entry of the recursive tree of a commit.
#[derive(Debug, Clone, PartialEq, Eq)]
pub struct TreeEntry {
    pub path: String,
    pub mode: String,
    pub sha: String,
}

/// A submodule: where it goes, the commit it is pinned to, where it comes from.
#[derive(Debug, Clone, PartialEq, Eq)]
pub struct SubmoduleRecord {
    pub path: String,
    pub sha: String,
    pub url: String,
}

/// The mode of a tree entry that refers to another repository.
pub open spec fn gitlink_mode() -> Seq<char> {
    "160000"@
}

/// The characters Unicode calls white space.
pub open spec fn is_ws(c: char) -> bool {
    c == '\t' || c == '\n' || c == '\x0B' || c == '\x0C' || c == '\r' || c == ' ' || c
        == '\u{85}' || c == '\u{A0}' || c == '\u{1680}' || ('\u{2000}' <= c <= '\u{200A}') || c
        == '\u{2028}' || c == '\u{2029}' || c == '\u{202F}' || c == '\u{205F}' || c == '\u{3000}'
}

pub open spec fn trim_start(s: Seq<char>) -> Seq<char>
    decreases s.len(),
{
    if s.len() > 0 && is_ws(s[0]) {
        trim_start(s.subrange(1, s.len() as int))
    } else {
        s
    }
}

pub open spec fn trim_end(s: Seq<char>) -> Seq<char>
    decreases s.len(),
{
    if s.len() > 0 && is_ws(s.last()) {
        trim_end(s.drop_last())
    } else {
        s
    }
}

/// `s` without leading and trailing white space.
pub open spec fn trim(s: Seq<char>) -> Seq<char> {
    trim_end(trim_start(s))
}

/// The state of a pass over the lines of a `.gitmodules` file: the path of the
/// section being read, and the (path, url) pairs met so far, in order.
pub open spec fn modules_state(ls: Seq<Seq<char>>) -> (Seq<char>, Seq<(Seq<char>, Seq<char>)>)
    decreases ls.len(),
{
    if ls.len() == 0 {
        (Seq::empty(), Seq::empty())
    } else {
        let (cur, pairs) = modules_state(ls.drop_last());
        let t = trim(ls.last());
        if is_prefix("[submodule"@, t) {
            (Seq::empty(), pairs)
        } else if is_prefix("path = "@, t) {
            (t.subrange(7, t.len() as int), pairs)
        } else if is_prefix("url = "@, t) {
            (cur, pairs.push((cur, t.subrange(6, t.len() as int))))
        } else {
            (cur, pairs)
        }
    }
}

/// The URL that the pairs give a path: the last one given.
pub open spec fn url_of(pairs: Seq<(Seq<char>, Seq<char>)>, path: Seq<char>) -> Option<Seq<char>>
    decreases pairs.len(),
{
    if pairs.len() == 0 {
        None
    } else if pairs.last().0 == path {
        Some(pairs.last().1)
    } else {
        url_of(pairs.drop_last(), path)
    }
}

/// The lines of a text, as the resolver reads them.
pub open spec fn text_lines(s: Seq<char>) -> Seq<Seq<char>> {
    crate::crt_patch::lines_of(s)
}

/// The submodules of a tree: its gitlink entries in order, each with the URL
/// that the `.gitmodules` text gives its path, or an empty one.
pub open spec fn records_of(tree: Seq<TreeEntry>, modules: Seq<char>) -> Seq<
    (Seq<char>, Seq<char>, Seq<char>),
>
    decreases tree.len(),
{
    if tree.len() == 0 {
        Seq::empty()
    } else {
        let rest = records_of(tree.drop_last(), modules);
        let e = tree.last();
        if e.mode@ == gitlink_mode() {
            rest.push(
                (
                    e.path@,
                    e.sha@,
                    match url_of(modules_state(text_lines(modules)).1, e.path@) {
                        Some(u) => u,
                        None => Seq::empty(),
                    },
                ),
            )
        } else {
            rest
        }
    }
}

pub open spec fn record_view(r: SubmoduleRecord) -> (Seq<char>, Seq<char>, Seq<char>) {
    (r.path@, r.sha@, r.url@)
}

/// `s` without its newline characters.
pub open spec fn without_newlines(s: Seq<char>) -> Seq<char>
    decreases s.len(),
{
    if s.len() == 0 {
        s
    } else if s.last() == '\n' {
        without_newlines(s.drop_last())
    } else {
        without_newlines(s.drop_last()).push(s.last())
    }
}

/// The text of the `.gitmodules` file from the API's base64 content, which the
/// API breaks into lines; `None` when it does not decode to UTF-8 text.
pub open spec fn modules_text(content: Seq<char>) -> Option<Seq<char>> {
    match base64_decoded(without_newlines(content)) {
        Some(b) => if valid_utf8(b) {
            Some(decode_utf8(b))
        } else {
            None
        },
        None => None,
    }
}

fn is_ws_exec(c: char) -> (r: bool)
    ensures
        r == is_ws(c),
{
    c == '\t' || c == '\n' || c == '\x0B' || c == '\x0C' || c == '\r' || c == ' ' || c == '\u{85}'
        || c == '\u{A0}' || c == '\u{1680}' || ('\u{2000}' <= c && c <= '\u{200A}') || c
        == '\u{2028}' || c == '\u{2029}' || c == '\u{202F}' || c == '\u{205F}' || c == '\u{3000}'
}

/// `s` without leading and trailing white space.
pub fn trim_chars(s: &Vec<char>) -> (r: Vec<char>)
    ensures
        r@ == trim(s@),
{
    let mut i: usize = 0;
    assert(s@.subrange(0, s.len() as int) =~= s@);
    while i < s.len() && is_ws_exec(s[i])
        invariant
            i <= s.len(),
            trim_start(s@) == trim_start(s@.subrange(i as int, s.len() as int)),
        decreases s.len() - i,
    {
        assert(s@.subrange(i as int, s.len() as int).subrange(1, s.len() - i) =~= s@.subrange(
            i + 1,
            s.len() as int,
        ));
        i = i + 1;
    }
    let ghost ts = s@.subrange(i as int, s.len() as int);
    assert(trim_start(s@) == ts);
    let mut j: usize = s.len();
    assert(ts.subrange(0, (j - i) as int) =~= ts);
    while j > i && is_ws_exec(s[j - 1])
        invariant
            i <= j <= s.len(),
            ts == s@.subrange(i as int, s.len() as int),
            trim_end(ts) == trim_end(ts.subrange(0, j - i)),
        decreases j,
    {
        assert(ts.subrange(0, j - i).drop_last() =~= ts.subrange(0, j - i - 1));
        j = j - 1;
    }
    let mut out: Vec<char> = Vec::new();
    let mut k: usize = i;
    while k < j
        invariant
            i <= k <= j <= s.len(),
            out@ == s@.subrange(i as int, k as int),
        decreases j - k,
    {
        out.push(s[k]);
        k = k + 1;
        assert(out@ =~= s@.subrange(i as int, k as int));
    }
    assert(ts.subrange(0, j - i) =~= s@.subrange(i as int, j as int));
    out
}

fn without_newlines_exec(s: &str) -> (r: String)
    ensures
        r@ == without_newlines(s@),
{
    let c = chars_of(s);
    let mut out: Vec<char> = Vec::new();
    let mut i: usize = 0;
    while i < c.len()
        invariant
            i <= c.len(),
            c@ == s@,
            out@ == without_newlines(c@.take(i as int)),
        decreases c.len() - i,
    {
        assert(c@.take(i + 1).drop_last() =~= c@.take(i as int));
        if c[i] != '\n' {
            out.push(c[i]);
        }
        i = i + 1;
    }
    assert(c@.take(c.len() as int) =~= c@);
    crate::text::string_of(&out)
}

/// Decodes the `.gitmodules` content that the API returns (base64, broken into
/// lines). Fails with `SubmoduleResolutionError` when it is not base64 of UTF-8
/// text.
pub fn decode_modules_file(content: &str) -> (r: Result<String, BuildError>)
    ensures
        match modules_text(content@) {
            Some(t) => r matches Ok(s) && s@ == t,
            None => r == Err::<String, BuildError>(BuildError::SubmoduleResolutionError),
        },
{
    let joined_content = without_newlines_exec(content);
    match decode_base64(joined_content.as_str()) {
        Ok(bytes) => match utf8_string(bytes) {
            Some(s) => Ok(s),
            None => Err(BuildError::SubmoduleResolutionError),
        },
        Err(_) => Err(BuildError::SubmoduleResolutionError),
    }
}

fn lookup_url(pairs: &Vec<(String, String)>, path: &String) -> (r: Option<String>)
    ensures
        match url_of(pairs@.map_values(|p: (String, String)| (p.0@, p.1@)), path@) {
            Some(u) => r matches Some(s) && s@ == u,
            None => r is None,
        },
{
    let ghost ps = pairs@.map_values(|p: (String, String)| (p.0@, p.1@));
    let mut i: usize = pairs.len();
    assert(ps.take(pairs.len() as int) =~= ps);
    while i > 0
        invariant
            i <= pairs.len(),
            ps == pairs@.map_values(|p: (String, String)| (p.0@, p.1@)),
            url_of(ps, path@) == url_of(ps.take(i as int), path@),
        decreases i,
    {
        assert(ps.take(i as int).drop_last() =~= ps.take(i - 1));
        if pairs[i - 1].0 == *path {
            return Some(pairs[i - 1].1.clone());
        }
        i = i - 1;
    }
    None
}

/// The (path, url) pairs of a `.gitmodules` text, in order.
pub fn module_pairs(text: &str) -> (r: Vec<(String, String)>)
    ensures
        r@.map_values(|p: (String, String)| (p.0@, p.1@)) == modules_state(text_lines(text@)).1,
{
    let chars = chars_of(text);
    let lines = crate::crt_patch::split_lines(&chars);
    let section = chars_of("[submodule");
    let path_key = chars_of("path = ");
    let url_key = chars_of("url = ");
    proof {
        reveal_strlit("path = ");
        reveal_strlit("url = ");
    }
    let ghost ls = text_lines(text@);
    let mut cur: Vec<char> = Vec::new();
    let mut pairs: Vec<(String, String)> = Vec::new();
    let mut i: usize = 0;
    while i < lines.len()
        invariant
            i <= lines.len(),
            crate::crt_patch::line_views(lines@) == ls,
            section@ == "[submodule"@,
            path_key@ == "path = "@,
            url_key@ == "url = "@,
            path_key@.len() == 7,
            url_key@.len() == 6,
            modules_state(ls.take(i as int)) == (cur@, pairs@.map_values(
                |p: (String, String)| (p.0@, p.1@),
            )),
        decreases lines.len() - i,
    {
        assert(ls.take(i + 1).drop_last() =~= ls.take(i as int));
        assert(lines@[i as int]@ == ls[i as int]);
        let t = trim_chars(&lines[i]);
        if starts_with(&t, &section) {
            cur = Vec::new();
        } else if starts_with(&t, &path_key) {
            let p = sub_string(&t, 7, t.len());
            cur = chars_of(p.as_str());
        } else if starts_with(&t, &url_key) {
            let u = sub_string(&t, 6, t.len());
            let ghost before = pairs@;
            pairs.push((crate::text::string_of(&cur), u));
            assert(pairs@.map_values(|p: (String, String)| (p.0@, p.1@)) =~= before.map_values(
                |p: (String, String)| (p.0@, p.1@),
            ).push((cur@, t@.subrange(6, t@.len() as int))));
        }
        i = i + 1;
    }
    assert(ls.take(lines.len() as int) =~= ls);
    pairs
}

/// The submodules of a tree, from its entries and the decoded `.gitmodules`
/// text: each gitlink entry, in order, with the URL the text gives its path
/// (empty when it gives none).
pub fn get_submodules(tree: &Vec<TreeEntry>, modules: &str) -> (r: Vec<SubmoduleRecord>)
    ensures
        r@.map_values(|x: SubmoduleRecord| record_view(x)) == records_of(tree@, modules@),
{
    let pairs = module_pairs(modules);
    let mode = owned("160000");
    let mut out: Vec<SubmoduleRecord> = Vec::new();
    let mut i: usize = 0;
    while i < tree.len()
        invariant
            i <= tree.len(),
            mode@ == gitlink_mode(),
            pairs@.map_values(|p: (String, String)| (p.0@, p.1@)) == modules_state(
                text_lines(modules@),
            ).1,
            out@.map_values(|x: SubmoduleRecord| record_view(x)) == records_of(
                tree@.take(i as int),
                modules@,
            ),
        decreases tree.len() - i,
    {
        assert(tree@.take(i + 1).drop_last() =~= tree@.take(i as int));
        let e = &tree[i];
        if e.mode == mode {
            let url = match lookup_url(&pairs, &e.path) {
                Some(u) => u,
                None => String::new(),
            };
            let ghost before = out@;
            out.push(SubmoduleRecord { path: e.path.clone(), sha: e.sha.clone(), url });
            assert(out@.map_values(|x: SubmoduleRecord| record_view(x)) =~= before.map_values(
                |x: SubmoduleRecord| record_view(x),
            ).push(record_view(out@.last())));
        }
        i = i + 1;
    }
    assert(tree@.take(tree.len() as int) =~= tree@);
    out
}

/// The API query that resolves a tag to its commit.
pub fn ref_url(owner: &str, repo: &str, tag: &str) -> (r: String)
    ensures
        r@ == "https://api.github.com/repos/"@ + owner@ + "/"@ + repo@ + "/git/ref/tags/"@ + tag@,
{
    let u = concat("https://api.github.com/repos/", owner);
    let u = concat(u.as_str(), "/");
    let u = concat(u.as_str(), repo);
    let u = concat(u.as_str(), "/git/ref/tags/");
    let u = concat(u.as_str(), tag);
    assert(u@ =~= "https://api.github.com/repos/"@ + owner@ + "/"@ + repo@ + "/git/ref/tags/"@
        + tag@);
    u
}

/// The API query for the recursive tree of a commit.
pub fn tree_url(owner: &str, repo: &str, commit: &str) -> (r: String)
    ensures
        r@ == "https://api.github.com/repos/"@ + owner@ + "/"@ + repo@ + "/git/trees/"@ + commit@
            + "?recursive=1"@,
{
    let u = concat("https://api.github.com/repos/", owner);
    let u = concat(u.as_str(), "/");
    let u = concat(u.as_str(), repo);
    let u = concat(u.as_str(), "/git/trees/");
    let u = concat(u.as_str(), commit);
    let u = concat(u.as_str(), "?recursive=1");
    assert(u@ =~= "https://api.github.com/repos/"@ + owner@ + "/"@ + repo@ + "/git/trees/"@
        + commit@ + "?recursive=1"@);
    u
}

/// The API query for the `.gitmodules` file at a tag.
pub fn gitmodules_url(owner: &str, repo: &str, tag: &str) -> (r: String)
    ensures
        r@ == "https://api.github.com/repos/"@ + owner@ + "/"@ + repo@
            + "/contents/.gitmodules?ref="@ + tag@,
{
    let u = concat("https://api.github.com/repos/", owner);
    let u = concat(u.as_str(), "/");
    let u = concat(u.as_str(), repo);
    let u = concat(u.as_str(), "/contents/.gitmodules?ref=");
    let u = concat(u.as_str(), tag);
    assert(u@ =~= "https://api.github.com/repos/"@ + owner@ + "/"@ + repo@
        + "/contents/.gitmodules?ref="@ + tag@);
    u
}

/// The marker file whose presence means the submodules of a source tree are in
/// place.
pub fn submodules_marker(source_dir: &str) -> (r: String)
    ensures
        r@ == joined(source_dir@, "submodules_downloaded"@),
{
    join_path(source_dir, "submodules_downloaded")
}

/// The arguments of the `git` command that clones a submodule into its place
/// under `source_dir` without checking anything out.
pub fn clone_args(record: &SubmoduleRecord, source_dir: &str) -> (r: Vec<String>)
    ensures
        r@.map_values(|s: String| s@) == seq![
            "clone"@,
            "--no-checkout"@,
            record.url@,
            joined(source_dir@, record.path@),
        ],
{
    let r = vec![
        owned("clone"),
        owned("--no-checkout"),
        record.url.clone(),
        join_path(source_dir, record.path.as_str()),
    ];
    assert(r@.map_values(|s: String| s@) =~= seq![
        "clone"@,
        "--no-checkout"@,
        record.url@,
        joined(source_dir@, record.path@),
    ]);
    r
}

/// The arguments of the `git` command, run inside the clone, that checks out the
/// pinned commit.
pub fn checkout_args(record: &SubmoduleRecord) -> (r: Vec<String>)
    ensures
        r@.map_values(|s: String| s@) == seq!["checkout"@, record.sha@],
{
    let r = vec![owned("checkout"), record.sha.clone()];
    assert(r@.map_values(|s: String| s@) =~= seq!["checkout"@, record.sha@]);
    r
}

/// Whether to wait for a concurrent clone of a submodule directory: it does not
/// exist yet, or holds fewer than two entries.
pub fn must_wait_for_clone(present: bool, entries: usize) -> (r: bool)
    ensures
        r == (!present || entries < 2),
{
    !present || entries < 2
}

} // verus!
