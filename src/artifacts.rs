//! Discovery of the libraries a build produced: classification of file names
//! by each platform's convention, and the ordered link plan.
use vstd::prelude::*;

use crate::linking::{Directive, DirectiveView, LinkKind, lib, search, views};
use crate::text::{chars_of, ends_with, is_prefix, is_suffix, starts_with, sub_string};
use crate::Os;

verus! {

/// Whether an artifact is linked statically or loaded at run time.
#[derive(Debug, Clone, Copy, PartialEq, Eq, Structural)]
pub enum ArtifactKind {
    Static,
    Dynamic,
}

/// A regular file met by the traversal of a build tree: its directory and its
/// name.
#[derive(Debug, Clone, PartialEq, Eq)]
pub struct FileEntry {
    pub dir: String,
    pub name: String,
}

/// A library found in a build tree.
#[derive(Debug, Clone, PartialEq, Eq)]
pub struct LibraryArtifact {
    pub dir: String,
    pub file_name: String,
    pub kind: ArtifactKind,
    /// The name the linker knows the library by.
    pub link_name: String,
}

/// The ordered directives of a discovery pass and the artifacts it found.
#[derive(Debug, Clone, PartialEq, Eq)]
pub struct LinkPlan {
    pub directives: Vec<Directive>,
    pub artifacts: Vec<LibraryArtifact>,
}

/// The canonical name of a static library file, or `None` when the name does not
/// follow the platform's convention: `lib<name>.a`, or `<name>.lib` on Windows.
pub open spec fn static_link_name(os: Os, file: Seq<char>) -> Option<Seq<char>> {
    if os == Os::Win {
        if is_suffix(".lib"@, file) && !is_prefix("."@, file) {
            Some(file.subrange(0, file.len() - 4))
        } else {
            None
        }
    } else if is_prefix("lib"@, file) && is_suffix(".a"@, file) {
        Some(file.subrange(3, file.len() - 2))
    } else {
        None
    }
}

/// The canonical name of a dynamic library file, or `None`: `lib<name>.dylib` on
/// macOS, `<name>.lib` (the import library) on Windows, `lib<name>.so` elsewhere.
pub open spec fn dynamic_link_name(os: Os, file: Seq<char>) -> Option<Seq<char>> {
    if os == Os::Win {
        static_link_name(os, file)
    } else if os == Os::Mac {
        if is_prefix("lib"@, file) && is_suffix(".dylib"@, file) {
            Some(file.subrange(3, file.len() - 6))
        } else {
            None
        }
    } else if is_prefix("lib"@, file) && is_suffix(".so"@, file) {
        Some(file.subrange(3, file.len() - 3))
    } else {
        None
    }
}

pub open spec fn link_name_of(os: Os, kind: ArtifactKind, file: Seq<char>) -> Option<Seq<char>> {
    match kind {
        ArtifactKind::Static => static_link_name(os, file),
        ArtifactKind::Dynamic => dynamic_link_name(os, file),
    }
}

pub open spec fn link_kind_of(kind: ArtifactKind) -> LinkKind {
    match kind {
        ArtifactKind::Static => LinkKind::Static,
        ArtifactKind::Dynamic => LinkKind::Dylib,
    }
}

/// The directory of the last library among `es`, if any.
pub open spec fn last_lib_dir(es: Seq<FileEntry>, os: Os, kind: ArtifactKind) -> Option<Seq<char>>
    decreases es.len(),
{
    if es.len() == 0 {
        None
    } else if link_name_of(os, kind, es.last().name@) is Some {
        Some(es.last().dir@)
    } else {
        last_lib_dir(es.drop_last(), os, kind)
    }
}

/// The directives of a discovery pass over `es`: for each library, a search path
/// when its directory differs from that of the library just before it, then the
/// library itself.
pub open spec fn plan_directives(es: Seq<FileEntry>, os: Os, kind: ArtifactKind) -> Seq<
    DirectiveView,
>
    decreases es.len(),
{
    if es.len() == 0 {
        Seq::empty()
    } else {
        let prev = plan_directives(es.drop_last(), os, kind);
        let e = es.last();
        match link_name_of(os, kind, e.name@) {
            None => prev,
            Some(n) => (if last_lib_dir(es.drop_last(), os, kind) == Some(e.dir@) {
                prev
            } else {
                prev.push(search(e.dir@))
            }).push(lib(link_kind_of(kind), n)),
        }
    }
}

/// An artifact as (directory, file name, canonical name).
pub open spec fn artifact_view(a: LibraryArtifact) -> (Seq<char>, Seq<char>, Seq<char>) {
    (a.dir@, a.file_name@, a.link_name@)
}

/// The libraries among `es`, in order.
pub open spec fn plan_artifacts(es: Seq<FileEntry>, os: Os, kind: ArtifactKind) -> Seq<
    (Seq<char>, Seq<char>, Seq<char>),
>
    decreases es.len(),
{
    if es.len() == 0 {
        Seq::empty()
    } else {
        let prev = plan_artifacts(es.drop_last(), os, kind);
        let e = es.last();
        match link_name_of(os, kind, e.name@) {
            None => prev,
            Some(n) => prev.push((e.dir@, e.name@, n)),
        }
    }
}

/// A prefix and a suffix of `s` whose first character the prefix does not hold
/// cannot overlap.
proof fn lemma_prefix_suffix_apart(s: Seq<char>, p: Seq<char>, q: Seq<char>)
    requires
        is_prefix(p, s),
        is_suffix(q, s),
        q.len() > 0,
        forall|i: int| 0 <= i < p.len() ==> p[i] != q[0],
    ensures
        p.len() + q.len() <= s.len(),
{
    let k = s.len() - q.len();
    assert(s.subrange(k, s.len() as int)[0] == q[0]);
    if k < p.len() {
        assert(s.subrange(0, p.len() as int)[k] == p[k]);
    }
}

proof fn lemma_name_lengths(file: Seq<char>)
    ensures
        is_prefix("lib"@, file) && is_suffix(".a"@, file) ==> file.len() >= 5,
        is_prefix("lib"@, file) && is_suffix(".so"@, file) ==> file.len() >= 6,
        is_prefix("lib"@, file) && is_suffix(".dylib"@, file) ==> file.len() >= 9,
        is_suffix(".lib"@, file) ==> file.len() >= 4,
{
    reveal_strlit("lib");
    reveal_strlit(".a");
    reveal_strlit(".so");
    reveal_strlit(".dylib");
    reveal_strlit(".lib");
    if is_prefix("lib"@, file) && is_suffix(".a"@, file) {
        lemma_prefix_suffix_apart(file, "lib"@, ".a"@);
    }
    if is_prefix("lib"@, file) && is_suffix(".so"@, file) {
        lemma_prefix_suffix_apart(file, "lib"@, ".so"@);
    }
    if is_prefix("lib"@, file) && is_suffix(".dylib"@, file) {
        lemma_prefix_suffix_apart(file, "lib"@, ".dylib"@);
    }
}

/// Whether `name` is a static library by the platform's convention.
pub fn is_library(os: Os, name: &str) -> (r: bool)
    ensures
        r == static_link_name(os, name@) is Some,
{
    let n = chars_of(name);
    if os == Os::Win {
        let dot = chars_of(".");
        let suffix = chars_of(".lib");
        ends_with(&n, &suffix) && !starts_with(&n, &dot)
    } else {
        let prefix = chars_of("lib");
        let suffix = chars_of(".a");
        starts_with(&n, &prefix) && ends_with(&n, &suffix)
    }
}

/// The canonical name of a static library file.
pub fn library_name(os: Os, name: &str) -> (r: String)
    requires
        static_link_name(os, name@) is Some,
    ensures
        r@ == static_link_name(os, name@).unwrap(),
{
    proof {
        lemma_name_lengths(name@);
    }
    let n = chars_of(name);
    if os == Os::Win {
        sub_string(&n, 0, n.len() - 4)
    } else {
        sub_string(&n, 3, n.len() - 2)
    }
}

/// Whether `name` is a dynamic library by the platform's convention.
pub fn is_dynamic_library(os: Os, name: &str) -> (r: bool)
    ensures
        r == dynamic_link_name(os, name@) is Some,
{
    if os == Os::Win {
        return is_library(os, name);
    }
    let n = chars_of(name);
    let prefix = chars_of("lib");
    let suffix = if os == Os::Mac {
        chars_of(".dylib")
    } else {
        chars_of(".so")
    };
    starts_with(&n, &prefix) && ends_with(&n, &suffix)
}

/// The canonical name of a dynamic library file.
pub fn dynamic_library_name(os: Os, name: &str) -> (r: String)
    requires
        dynamic_link_name(os, name@) is Some,
    ensures
        r@ == dynamic_link_name(os, name@).unwrap(),
{
    if os == Os::Win {
        return library_name(os, name);
    }
    proof {
        lemma_name_lengths(name@);
    }
    let n = chars_of(name);
    if os == Os::Mac {
        sub_string(&n, 3, n.len() - 6)
    } else {
        sub_string(&n, 3, n.len() - 3)
    }
}

fn classify(os: Os, kind: ArtifactKind, name: &str) -> (r: Option<String>)
    ensures
        match link_name_of(os, kind, name@) {
            Some(n) => r matches Some(s) && s@ == n,
            None => r is None,
        },
{
    match kind {
        ArtifactKind::Static => if is_library(os, name) {
            Some(library_name(os, name))
        } else {
            None
        },
        ArtifactKind::Dynamic => if is_dynamic_library(os, name) {
            Some(dynamic_library_name(os, name))
        } else {
            None
        },
    }
}

/// One discovery pass over the files of a build tree, in traversal order: each
/// library of the given kind gives a link directive, preceded by a search-path
/// directive whenever its directory differs from that of the library just
/// before it. Directories are not deduplicated beyond that.
pub fn discover(entries: &Vec<FileEntry>, os: Os, kind: ArtifactKind) -> (r: LinkPlan)
    ensures
        views(r.directives@) == plan_directives(entries@, os, kind),
        r.artifacts@.map_values(|a: LibraryArtifact| artifact_view(a)) == plan_artifacts(
            entries@,
            os,
            kind,
        ),
        forall|i: int| 0 <= i < r.artifacts.len() ==> (#[trigger] r.artifacts@[i]).kind == kind,
{
    let mut directives: Vec<Directive> = Vec::new();
    let mut artifacts: Vec<LibraryArtifact> = Vec::new();
    let mut current: Option<String> = None;
    let mut i: usize = 0;
    while i < entries.len()
        invariant
            i <= entries.len(),
            views(directives@) == plan_directives(entries@.take(i as int), os, kind),
            artifacts@.map_values(|a: LibraryArtifact| artifact_view(a)) == plan_artifacts(
                entries@.take(i as int),
                os,
                kind,
            ),
            forall|j: int| 0 <= j < artifacts.len() ==> (#[trigger] artifacts@[j]).kind == kind,
            match current {
                Some(d) => last_lib_dir(entries@.take(i as int), os, kind) == Some(d@),
                None => last_lib_dir(entries@.take(i as int), os, kind) is None,
            },
        decreases entries.len() - i,
    {
        let ghost prefix = entries@.take(i as int);
        assert(entries@.take(i + 1).drop_last() =~= prefix);
        let e = &entries[i];
        match classify(os, kind, e.name.as_str()) {
            Some(link_name) => {
                let same = match &current {
                    Some(d) => *d == e.dir,
                    None => false,
                };
                let ghost before = directives@;
                if !same {
                    directives.push(Directive::Search { path: e.dir.clone(), native: false });
                    assert(views(directives@) =~= views(before).push(search(e.dir@)));
                    current = Some(e.dir.clone());
                }
                let ghost mid = directives@;
                directives.push(Directive::Link { kind: link_kind_of_exec(kind), name: link_name.clone() });
                assert(views(directives@) =~= views(mid).push(lib(link_kind_of(kind), link_name@)));
                let ghost arts = artifacts@;
                artifacts.push(
                    LibraryArtifact {
                        dir: e.dir.clone(),
                        file_name: e.name.clone(),
                        kind,
                        link_name,
                    },
                );
                assert(artifacts@.map_values(|a: LibraryArtifact| artifact_view(a)) =~= arts.map_values(
                    |a: LibraryArtifact| artifact_view(a),
                ).push((e.dir@, e.name@, link_name_of(os, kind, e.name@).unwrap())));
            },
            None => {},
        }
        i = i + 1;
    }
    assert(entries@.take(entries.len() as int) =~= entries@);
    LinkPlan { directives, artifacts }
}

fn link_kind_of_exec(kind: ArtifactKind) -> (r: LinkKind)
    ensures
        r == link_kind_of(kind),
{
    match kind {
        ArtifactKind::Static => LinkKind::Static,
        ArtifactKind::Dynamic => LinkKind::Dylib,
    }
}

/// The static libraries of a build tree and the directives that link them.
pub fn link_libraries(entries: &Vec<FileEntry>, os: Os) -> (r: LinkPlan)
    ensures
        views(r.directives@) == plan_directives(entries@, os, ArtifactKind::Static),
        r.artifacts@.map_values(|a: LibraryArtifact| artifact_view(a)) == plan_artifacts(
            entries@,
            os,
            ArtifactKind::Static,
        ),
        forall|i: int| 0 <= i < r.artifacts.len() ==> (#[trigger] r.artifacts@[i]).kind == ArtifactKind::Static,
{
    discover(entries, os, ArtifactKind::Static)
}

/// The dynamic libraries of a build tree and the directives that link them.
pub fn link_dynamic_libraries(entries: &Vec<FileEntry>, os: Os) -> (r: LinkPlan)
    ensures
        views(r.directives@) == plan_directives(entries@, os, ArtifactKind::Dynamic),
        r.artifacts@.map_values(|a: LibraryArtifact| artifact_view(a)) == plan_artifacts(
            entries@,
            os,
            ArtifactKind::Dynamic,
        ),
        forall|i: int| 0 <= i < r.artifacts.len() ==> (#[trigger] r.artifacts@[i]).kind == ArtifactKind::Dynamic,
{
    discover(entries, os, ArtifactKind::Dynamic)
}

/// The file name that each platform's convention gives a static library.
pub open spec fn static_file_name(os: Os, name: Seq<char>) -> Seq<char> {
    if os == Os::Win {
        name + ".lib"@
    } else {
        "lib"@ + name + ".a"@
    }
}

/// The file name that each platform's convention gives a dynamic library.
pub open spec fn dynamic_file_name(os: Os, name: Seq<char>) -> Seq<char> {
    if os == Os::Win {
        name + ".lib"@
    } else if os == Os::Mac {
        "lib"@ + name + ".dylib"@
    } else {
        "lib"@ + name + ".so"@
    }
}

/// A file named by the platform's convention for a library is classified as that
/// kind of library, and its canonical name is the name it was made from (on
/// Windows, any name that does not start with a dot).
pub proof fn lemma_canonical_name_round_trip(os: Os, name: Seq<char>)
    requires
        os == Os::Win ==> !is_prefix("."@, name + ".lib"@),
    ensures
        static_link_name(os, static_file_name(os, name)) == Some(name),
        dynamic_link_name(os, dynamic_file_name(os, name)) == Some(name),
{
    reveal_strlit("lib");
    reveal_strlit(".lib");
    reveal_strlit(".a");
    reveal_strlit(".so");
    reveal_strlit(".dylib");
    let s = static_file_name(os, name);
    let d = dynamic_file_name(os, name);
    if os == Os::Win {
        assert(s.subrange(s.len() - 4, s.len() as int) =~= ".lib"@);
        assert(s.subrange(0, s.len() - 4) =~= name);
    } else {
        assert(s.subrange(0, 3) =~= "lib"@);
        assert(s.subrange(s.len() - 2, s.len() as int) =~= ".a"@);
        assert(s.subrange(3, s.len() - 2) =~= name);
        assert(d.subrange(0, 3) =~= "lib"@);
        if os == Os::Mac {
            assert(d.subrange(d.len() - 6, d.len() as int) =~= ".dylib"@);
            assert(d.subrange(3, d.len() - 6) =~= name);
        } else {
            assert(d.subrange(d.len() - 3, d.len() as int) =~= ".so"@);
            assert(d.subrange(3, d.len() - 3) =~= name);
        }
    }
}

/// Search paths are emitted by adjacency, not deduplicated: three libraries in
/// directories d0, d1, d2, each differing from the one before, give three search
/// paths in that order, even when d2 is d0.
pub proof fn lemma_search_paths_by_adjacency(es: Seq<FileEntry>, os: Os, kind: ArtifactKind)
    requires
        es.len() == 3,
        forall|i: int| 0 <= i < 3 ==> (#[trigger] link_name_of(os, kind, es[i].name@)) is Some,
        es[0].dir@ != es[1].dir@,
        es[1].dir@ != es[2].dir@,
    ensures
        plan_directives(es, os, kind) == seq![
            search(es[0].dir@),
            lib(link_kind_of(kind), link_name_of(os, kind, es[0].name@).unwrap()),
            search(es[1].dir@),
            lib(link_kind_of(kind), link_name_of(os, kind, es[1].name@).unwrap()),
            search(es[2].dir@),
            lib(link_kind_of(kind), link_name_of(os, kind, es[2].name@).unwrap()),
        ],
{
    let e1 = es.take(1);
    let e2 = es.take(2);
    assert(es.drop_last() =~= e2);
    assert(e2.drop_last() =~= e1);
    assert(e1.drop_last() =~= Seq::<FileEntry>::empty());
    assert(plan_directives(e1.drop_last(), os, kind) =~= Seq::<DirectiveView>::empty());
    assert(last_lib_dir(e1.drop_last(), os, kind) is None);
    assert(link_name_of(os, kind, es[0].name@) is Some);
    assert(link_name_of(os, kind, es[1].name@) is Some);
    assert(link_name_of(os, kind, es[2].name@) is Some);
    assert(e1.last() == es[0]);
    assert(e2.last() == es[1]);
    assert(last_lib_dir(e1, os, kind) == Some(es[0].dir@));
    assert(last_lib_dir(e2, os, kind) == Some(es[1].dir@));
    assert(plan_directives(e1, os, kind) =~= seq![
        search(es[0].dir@),
        lib(link_kind_of(kind), link_name_of(os, kind, es[0].name@).unwrap()),
    ]);
    assert(plan_directives(e2, os, kind) =~= seq![
        search(es[0].dir@),
        lib(link_kind_of(kind), link_name_of(os, kind, es[0].name@).unwrap()),
        search(es[1].dir@),
        lib(link_kind_of(kind), link_name_of(os, kind, es[1].name@).unwrap()),
    ]);
    assert(plan_directives(es, os, kind) =~= seq![
        search(es[0].dir@),
        lib(link_kind_of(kind), link_name_of(os, kind, es[0].name@).unwrap()),
        search(es[1].dir@),
        lib(link_kind_of(kind), link_name_of(os, kind, es[1].name@).unwrap()),
        search(es[2].dir@),
        lib(link_kind_of(kind), link_name_of(os, kind, es[2].name@).unwrap()),
    ]);
}

/// Off Windows each conventional file name belongs to one kind only: the
/// static library's name is no dynamic library, and the other way round.
pub proof fn lemma_kinds_distinct(os: Os, name: Seq<char>)
    requires
        os != Os::Win,
    ensures
        dynamic_link_name(os, static_file_name(os, name)) is None,
        static_link_name(os, dynamic_file_name(os, name)) is None,
{
    reveal_strlit("lib");
    reveal_strlit(".a");
    reveal_strlit(".so");
    reveal_strlit(".dylib");
    let st = static_file_name(os, name);
    let dy = dynamic_file_name(os, name);
    assert(st.last() == 'a');
    if os == Os::Mac {
        assert(dy.last() == 'b');
        if is_suffix(".dylib"@, st) {
            assert(st.subrange(st.len() - 6, st.len() as int)[5] == st.last());
        }
    } else {
        assert(dy.last() == 'o');
        if is_suffix(".so"@, st) {
            assert(st.subrange(st.len() - 3, st.len() as int)[2] == st.last());
        }
    }
    if is_suffix(".a"@, dy) {
        assert(dy.subrange(dy.len() - 2, dy.len() as int)[1] == dy.last());
    }
}

} // verus!
