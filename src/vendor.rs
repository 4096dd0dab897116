//! The prebuilt ("vendor") path and its fallback: the bundle's URL, which of its
//! files are dynamic libraries to copy next to the output, the search paths
//! taken from the environment, and the choice between the bundle and a build
//! from source.
use vstd::prelude::*;

use crate::fetch::{run_fetch, Response};
use crate::linking::{Directive, search, views};
use crate::text::{chars_of, concat, join_path, joined};
use crate::{Arch, BuildError, Os};

verus! {

/// The upstream release built by default.
pub const DEFAULT_RELEASE: &'static str = "4.6.0";

/// The name of an operating system in bundle names; `None` for an unknown one.
pub open spec fn os_label(os: Os) -> Option<Seq<char>> {
    match os {
        Os::Win => Some("windows"@),
        Os::Mac => Some("macos"@),
        Os::Linux => Some("linux"@),
        Os::Unknown => None,
    }
}

pub open spec fn arch_label(arch: Arch) -> Seq<char> {
    match arch {
        Arch::Aarch64 => "arm64"@,
        Arch::X86_64 => "x86_64"@,
    }
}

/// The URL of the prebuilt bundle for a platform, linkage and C runtime.
pub open spec fn download_link(
    os: Os,
    version: Seq<char>,
    arch: Arch,
    shared: bool,
    crt_dyn: bool,
) -> Option<Seq<char>> {
    match os_label(os) {
        None => None,
        Some(name) => Some(
            "https://github.com/frederik-uni/ctranslate2-src/releases/download/v"@ + version
                + "/ctranslate2-"@ + (if shared {
                "shared"@
            } else {
                "static"@
            }) + (if crt_dyn && os == Os::Win {
                "-crt"@
            } else {
                Seq::empty()
            }) + "-"@ + name + "-"@ + arch_label(arch) + ".tar.gz"@,
        ),
    }
}

/// The URL of the prebuilt bundle for a platform; `None` for an unknown
/// operating system, which has no bundle.
pub fn get_download_link(os: Os, version: &str, arch: Arch, shared: bool, crt_dyn: bool) -> (r:
    Option<String>)
    ensures
        match download_link(os, version@, arch, shared, crt_dyn) {
            Some(u) => r matches Some(s) && s@ == u,
            None => r is None,
        },
{
    let os_name = match os {
        Os::Win => "windows",
        Os::Mac => "macos",
        Os::Linux => "linux",
        Os::Unknown => {
            return None;
        },
    };
    let url = concat(
        "https://github.com/frederik-uni/ctranslate2-src/releases/download/v",
        version,
    );
    let url = concat(url.as_str(), "/ctranslate2-");
    let url = concat(
        url.as_str(),
        if shared {
            "shared"
        } else {
            "static"
        },
    );
    let url = if crt_dyn && os == Os::Win {
        concat(url.as_str(), "-crt")
    } else {
        url
    };
    let url = concat(url.as_str(), "-");
    let url = concat(url.as_str(), os_name);
    let url = concat(url.as_str(), "-");
    let url = concat(
        url.as_str(),
        match arch {
            Arch::Aarch64 => "arm64",
            Arch::X86_64 => "x86_64",
        },
    );
    let url = concat(url.as_str(), ".tar.gz");
    assert(url@ =~= download_link(os, version@, arch, shared, crt_dyn).unwrap());
    Some(url)
}

/// The URL of the source archive of an upstream release.
pub fn source_archive_url(release: &str) -> (r: String)
    ensures
        r@ == "https://github.com/OpenNMT/CTranslate2/archive/refs/tags/v"@ + release@
            + ".tar.gz"@,
{
    let url = concat("https://github.com/OpenNMT/CTranslate2/archive/refs/tags/v", release);
    concat(url.as_str(), ".tar.gz")
}

/// The name of the directory the source archive of a release unpacks to.
pub fn source_dir_name(release: &str) -> (r: String)
    ensures
        r@ == "CTranslate2-"@ + release@,
{
    concat("CTranslate2-", release)
}

/// The index of the last `.` in `s`, or -1.
pub open spec fn last_dot(s: Seq<char>) -> int
    decreases s.len(),
{
    if s.len() == 0 {
        -1
    } else if s.last() == '.' {
        s.len() - 1
    } else {
        last_dot(s.drop_last())
    }
}

/// The extension of a file name: what follows its last `.`, unless that dot
/// starts the name.
pub open spec fn extension(name: Seq<char>) -> Option<Seq<char>> {
    let k = last_dot(name);
    if k <= 0 {
        None
    } else {
        Some(name.subrange(k + 1, name.len() as int))
    }
}

/// `c` is the lower-case character `w`, or its ASCII upper-case form.
pub open spec fn same_letter(c: char, w: char) -> bool {
    c == w || ('A' <= c <= 'Z' && (c as u32) + 32 == (w as u32))
}

/// `s` equals the lower-case word `w`, ignoring the case of ASCII letters.
pub open spec fn eq_ignore_case(s: Seq<char>, w: Seq<char>) -> bool {
    s.len() == w.len() && forall|i: int| 0 <= i < s.len() ==> same_letter(#[trigger] s[i], w[i])
}

/// Whether a file of the unpacked bundle is a dynamic library, by its extension
/// in any case.
pub open spec fn is_bundle_dylib(name: Seq<char>) -> bool {
    match extension(name) {
        Some(e) => eq_ignore_case(e, "dll"@) || eq_ignore_case(e, "so"@) || eq_ignore_case(
            e,
            "dylib"@,
        ),
        None => false,
    }
}

fn find_last_dot(s: &Vec<char>) -> (r: Option<usize>)
    ensures
        match r {
            Some(k) => k == last_dot(s@) && k < s.len(),
            None => last_dot(s@) == -1,
        },
{
    let mut i: usize = s.len();
    assert(s@.take(s.len() as int) =~= s@);
    while i > 0
        invariant
            i <= s.len(),
            last_dot(s@) == last_dot(s@.take(i as int)),
        decreases i,
    {
        assert(s@.take(i as int).drop_last() =~= s@.take(i - 1));
        if s[i - 1] == '.' {
            return Some(i - 1);
        }
        i = i - 1;
    }
    None
}

fn same_letter_exec(c: char, w: char) -> (r: bool)
    ensures
        r == same_letter(c, w),
{
    c == w || ('A' <= c && c <= 'Z' && (c as u32) + 32 == (w as u32))
}

fn matches_word(s: &Vec<char>, from: usize, w: &str) -> (r: bool)
    requires
        from <= s.len(),
    ensures
        r == eq_ignore_case(s@.subrange(from as int, s.len() as int), w@),
{
    let wc = chars_of(w);
    if s.len() - from != wc.len() {
        return false;
    }
    let ghost e = s@.subrange(from as int, s.len() as int);
    let mut i: usize = 0;
    while i < wc.len()
        invariant
            s.len() - from == wc.len(),
            wc@ == w@,
            e == s@.subrange(from as int, s.len() as int),
            i <= wc.len(),
            forall|j: int| 0 <= j < i ==> same_letter(#[trigger] e[j], wc@[j]),
        decreases wc.len() - i,
    {
        if !same_letter_exec(s[from + i], wc[i]) {
            assert(!same_letter(e[i as int], w@[i as int]));
            return false;
        }
        i = i + 1;
    }
    true
}

/// Whether a file of the unpacked bundle is a dynamic library to copy next to the
/// output: its extension is `dll`, `so` or `dylib`, in any case.
pub fn is_bundle_dynamic_library(name: &str) -> (r: bool)
    ensures
        r == is_bundle_dylib(name@),
{
    let n = chars_of(name);
    let from = match find_last_dot(&n) {
        Some(k) => if k == 0 {
            return false;
        } else {
            k + 1
        },
        None => {
            return false;
        },
    };
    matches_word(&n, from, "dll") || matches_word(&n, from, "so") || matches_word(&n, from, "dylib")
}

/// The files of the unpacked bundle that are dynamic libraries, in order.
pub open spec fn bundle_dylibs(names: Seq<String>) -> Seq<Seq<char>>
    decreases names.len(),
{
    if names.len() == 0 {
        Seq::empty()
    } else {
        let rest = bundle_dylibs(names.drop_last());
        if is_bundle_dylib(names.last()@) {
            rest.push(names.last()@)
        } else {
            rest
        }
    }
}

/// The dynamic libraries among the files of the unpacked bundle, to be copied
/// next to the output so that the loader finds them.
pub fn vendor_dylibs(names: &Vec<String>) -> (r: Vec<String>)
    ensures
        r@.map_values(|s: String| s@) == bundle_dylibs(names@),
{
    let mut r: Vec<String> = Vec::new();
    let mut i: usize = 0;
    while i < names.len()
        invariant
            i <= names.len(),
            r@.map_values(|s: String| s@) == bundle_dylibs(names@.take(i as int)),
        decreases names.len() - i,
    {
        assert(names@.take(i + 1).drop_last() =~= names@.take(i as int));
        if is_bundle_dynamic_library(names[i].as_str()) {
            let ghost before = r@;
            r.push(names[i].clone());
            assert(r@.map_values(|s: String| s@) =~= before.map_values(|s: String| s@).push(
                names@[i as int]@,
            ));
        }
        i = i + 1;
    }
    assert(names@.take(names.len() as int) =~= names@);
    r
}

/// Where the bundle lives under the output root.
pub struct VendorLayout {
    /// The directory the bundle unpacks into.
    pub root: String,
    /// Its directory of dynamic libraries.
    pub dyn_dir: String,
    /// Its directory of static libraries, which discovery walks.
    pub lib_dir: String,
}

/// The layout of the bundle under the output root `main_dir`.
pub fn vendor_layout(main_dir: &str) -> (r: VendorLayout)
    ensures
        r.root@ == joined(main_dir@, "ctranslate2-vendor"@),
        r.dyn_dir@ == joined(r.root@, "dyn"@),
        r.lib_dir@ == joined(r.root@, "lib"@),
{
    let root = join_path(main_dir, "ctranslate2-vendor");
    let dyn_dir = join_path(root.as_str(), "dyn");
    let lib_dir = join_path(root.as_str(), "lib");
    VendorLayout { root, dyn_dir, lib_dir }
}

/// The separator of a search-path list on a platform.
pub open spec fn path_separator(os: Os) -> char {
    if os == Os::Win {
        ';'
    } else {
        ':'
    }
}

/// One search directive per non-empty entry of `ps`, in order.
pub open spec fn search_entries(ps: Seq<Seq<char>>) -> Seq<crate::linking::DirectiveView>
    decreases ps.len(),
{
    if ps.len() == 0 {
        Seq::empty()
    } else if ps.last().len() == 0 {
        search_entries(ps.drop_last())
    } else {
        search_entries(ps.drop_last()).push(search(ps.last()))
    }
}

fn push_entry(out: &mut Vec<Directive>, cur: &Vec<char>, ghost_done: Ghost<Seq<Seq<char>>>)
    requires
        views(old(out)@) == search_entries(ghost_done@),
    ensures
        views(final(out)@) == search_entries(ghost_done@.push(cur@)),
{
    assert(ghost_done@.push(cur@).drop_last() =~= ghost_done@);
    if cur.len() > 0 {
        let path = crate::text::string_of(cur);
        let ghost before = out@;
        out.push(Directive::Search { path, native: false });
        assert(views(out@) =~= views(before).push(search(cur@)));
    }
}

/// The search directives of a search-path list taken from the environment: one
/// per non-empty entry, split at the platform's separator.
pub fn search_paths_from_env(value: &str, os: Os) -> (r: Vec<Directive>)
    ensures
        views(r@) == search_entries(crate::text::split_on(value@, path_separator(os))),
{
    let sep = if os == Os::Win {
        ';'
    } else {
        ':'
    };
    let s = chars_of(value);
    let mut out: Vec<Directive> = Vec::new();
    let mut cur: Vec<char> = Vec::new();
    let ghost mut done: Seq<Seq<char>> = Seq::empty();
    let mut i: usize = 0;
    while i < s.len()
        invariant
            i <= s.len(),
            s@ == value@,
            sep == path_separator(os),
            crate::text::split_on(s@.take(i as int), sep) == done.push(cur@),
            views(out@) == search_entries(done),
        decreases s.len() - i,
    {
        let ghost before = s@.take(i as int);
        assert(s@.take(i + 1).drop_last() =~= before);
        if s[i] == sep {
            push_entry(&mut out, &cur, Ghost(done));
            proof {
                done = done.push(cur@);
            }
            cur = Vec::new();
        } else {
            cur.push(s[i]);
            let ghost r = crate::text::split_on(before, sep);
            assert(r.update(r.len() - 1, r.last().push(s@[i as int])) =~= done.push(cur@));
        }
        i = i + 1;
    }
    assert(s@.take(s.len() as int) =~= s@);
    push_entry(&mut out, &cur, Ghost(done));
    out
}

/// Where the library comes from.
#[derive(Debug, Clone, Copy, PartialEq, Eq, Structural)]
pub enum LibrarySource {
    /// The prebuilt bundle was fetched.
    Vendor,
    /// The bundle is unavailable: build from source.
    FromSource,
}

/// The source chosen after the bundle fetch (`None`: the platform has no
/// bundle). A missing bundle, or one that could not be downloaded, sends the
/// build to the source path; any other failure is fatal.
pub open spec fn source_after_fetch(fetched: Option<Result<(), BuildError>>) -> Result<
    LibrarySource,
    BuildError,
> {
    match fetched {
        None => Ok(LibrarySource::FromSource),
        Some(Ok(())) => Ok(LibrarySource::Vendor),
        Some(Err(BuildError::NotFound)) => Ok(LibrarySource::FromSource),
        Some(Err(BuildError::NetworkError { .. })) => Ok(LibrarySource::FromSource),
        Some(Err(e)) => Err(e),
    }
}

/// Chooses between the fetched bundle and a build from source.
pub fn choose_source(fetched: Option<Result<(), BuildError>>) -> (r: Result<
    LibrarySource,
    BuildError,
>)
    ensures
        r == source_after_fetch(fetched),
{
    match fetched {
        None => Ok(LibrarySource::FromSource),
        Some(Ok(())) => Ok(LibrarySource::Vendor),
        Some(Err(BuildError::NotFound)) => Ok(LibrarySource::FromSource),
        Some(Err(BuildError::NetworkError { .. })) => Ok(LibrarySource::FromSource),
        Some(Err(e)) => Err(e),
    }
}

/// A bundle fetch that the server answers with 404 does not fail the build: it
/// sends it to the source path.
pub proof fn lemma_vendor_not_found_falls_back(
    dest_exists: bool,
    rs: Seq<Response>,
    extract_ok: bool,
)
    requires
        !dest_exists,
        rs.len() > 0,
        rs[0] == Response::Status(404),
    ensures
        source_after_fetch(Some(run_fetch(true, dest_exists, rs, extract_ok).1)) == Ok::<
            LibrarySource,
            BuildError,
        >(LibrarySource::FromSource),
{
    crate::fetch::lemma_not_found_is_terminal(true, dest_exists, rs, extract_ok);
}

} // verus!
