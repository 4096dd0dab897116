use ctranslate2_src_build_support::artifacts::{
    dynamic_library_name, is_dynamic_library, is_library, library_name, link_dynamic_libraries,
    link_libraries, ArtifactKind, FileEntry,
};
use ctranslate2_src_build_support::linking::{Directive, LinkKind};
use ctranslate2_src_build_support::Os;

fn entry(dir: &str, name: &str) -> FileEntry {
    FileEntry { dir: dir.to_string(), name: name.to_string() }
}

fn search(p: &str) -> Directive {
    Directive::Search { path: p.to_string(), native: false }
}

fn link(kind: LinkKind, n: &str) -> Directive {
    Directive::Link { kind, name: n.to_string() }
}

#[test]
fn classification_per_platform() {
    assert!(is_library(Os::Linux, "libfoo.a"));
    assert_eq!(library_name(Os::Linux, "libfoo.a"), "foo");
    assert!(!is_library(Os::Linux, "libfoo.so"));
    assert!(!is_library(Os::Linux, "foo.lib"));
    assert!(is_dynamic_library(Os::Linux, "libfoo.so"));
    assert_eq!(dynamic_library_name(Os::Linux, "libfoo.so"), "foo");
    assert!(!is_dynamic_library(Os::Linux, "libfoo.dylib"));
    assert!(is_dynamic_library(Os::Mac, "libfoo.dylib"));
    assert_eq!(dynamic_library_name(Os::Mac, "libfoo.dylib"), "foo");
    assert!(is_library(Os::Mac, "libfoo.a"));
    assert!(is_library(Os::Win, "foo.lib"));
    assert_eq!(library_name(Os::Win, "foo.lib"), "foo");
    assert!(is_dynamic_library(Os::Win, "foo.lib"));
    assert_eq!(dynamic_library_name(Os::Win, "foo.lib"), "foo");
    assert!(!is_library(Os::Win, ".lib"));
    assert!(!is_library(Os::Win, "libfoo.a"));
    assert!(!is_library(Os::Linux, "lib.a.txt"));
    assert_eq!(library_name(Os::Linux, "lib.a"), "");
}

#[test]
fn discovery_on_mixed_directory() {
    let es = vec![entry("/out", "libfoo.a"), entry("/out", "libfoo.so"), entry("/out", "foo.lib"), entry("/out", "README")];
    let s = link_libraries(&es, Os::Linux);
    assert_eq!(s.directives, vec![search("/out"), link(LinkKind::Static, "foo")]);
    assert_eq!(s.artifacts.len(), 1);
    assert_eq!(s.artifacts[0].file_name, "libfoo.a");
    assert_eq!(s.artifacts[0].kind, ArtifactKind::Static);
    let d = link_dynamic_libraries(&es, Os::Linux);
    assert_eq!(d.directives, vec![search("/out"), link(LinkKind::Dylib, "foo")]);
    assert_eq!(d.artifacts[0].kind, ArtifactKind::Dynamic);
    let w = link_libraries(&es, Os::Win);
    assert_eq!(w.directives, vec![search("/out"), link(LinkKind::Static, "foo")]);
    assert_eq!(w.artifacts[0].file_name, "foo.lib");
}

#[test]
fn alternating_directories_repeat_search_paths() {
    let es = vec![entry("A", "liba.a"), entry("B", "libb.a"), entry("A", "libc.a")];
    let plan = link_libraries(&es, Os::Linux);
    assert_eq!(
        plan.directives,
        vec![
            search("A"),
            link(LinkKind::Static, "a"),
            search("B"),
            link(LinkKind::Static, "b"),
            search("A"),
            link(LinkKind::Static, "c"),
        ]
    );
    let searches = plan.directives.iter().filter(|d| matches!(d, Directive::Search { .. })).count();
    assert_eq!(searches, 3);
}

#[test]
fn same_directory_emits_one_search_path_and_keeps_duplicates() {
    let es = vec![entry("A", "liba.a"), entry("A", "notes.txt"), entry("A", "libb.a"), entry("B", "liba.a")];
    let plan = link_libraries(&es, Os::Linux);
    assert_eq!(
        plan.directives,
        vec![
            search("A"),
            link(LinkKind::Static, "a"),
            link(LinkKind::Static, "b"),
            search("B"),
            link(LinkKind::Static, "a"),
        ]
    );
    assert_eq!(plan.artifacts.len(), 3);
}

#[test]
fn empty_tree_gives_empty_plan() {
    let plan = link_libraries(&Vec::new(), Os::Mac);
    assert!(plan.directives.is_empty());
    assert!(plan.artifacts.is_empty());
}
