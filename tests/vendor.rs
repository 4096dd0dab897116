use ctranslate2_src_build_support::fetch::{fetch_after_response, fetch_start, FetchAction, Response};
use ctranslate2_src_build_support::linking::Directive;
use ctranslate2_src_build_support::vendor::{
    choose_source, get_download_link, is_bundle_dynamic_library, search_paths_from_env,
    source_archive_url, source_dir_name, vendor_dylibs, vendor_layout, LibrarySource,
    DEFAULT_RELEASE,
};
use ctranslate2_src_build_support::{Arch, BuildError, Os};

#[test]
fn bundle_urls() {
    assert_eq!(
        get_download_link(Os::Win, "4.6.0", Arch::X86_64, false, true).unwrap(),
        "https://github.com/frederik-uni/ctranslate2-src/releases/download/v4.6.0/ctranslate2-static-crt-windows-x86_64.tar.gz"
    );
    assert_eq!(
        get_download_link(Os::Linux, DEFAULT_RELEASE, Arch::X86_64, false, true).unwrap(),
        "https://github.com/frederik-uni/ctranslate2-src/releases/download/v4.6.0/ctranslate2-static-linux-x86_64.tar.gz"
    );
    assert_eq!(
        get_download_link(Os::Mac, "4.6.0", Arch::Aarch64, true, false).unwrap(),
        "https://github.com/frederik-uni/ctranslate2-src/releases/download/v4.6.0/ctranslate2-shared-macos-arm64.tar.gz"
    );
    assert_eq!(get_download_link(Os::Unknown, "4.6.0", Arch::X86_64, false, false), None);
}

#[test]
fn source_names() {
    assert_eq!(source_archive_url("4.5.0"), "https://github.com/OpenNMT/CTranslate2/archive/refs/tags/v4.5.0.tar.gz");
    assert_eq!(source_dir_name("4.5.0"), "CTranslate2-4.5.0");
}

#[test]
fn bundle_dynamic_libraries_by_extension() {
    assert!(is_bundle_dynamic_library("ctranslate2.dll"));
    assert!(is_bundle_dynamic_library("libctranslate2.SO"));
    assert!(is_bundle_dynamic_library("libx.Dylib"));
    assert!(!is_bundle_dynamic_library(".so"));
    assert!(!is_bundle_dynamic_library("libx.so.4"));
    assert!(!is_bundle_dynamic_library("x.dl"));
    assert!(!is_bundle_dynamic_library("dll"));
    assert!(is_bundle_dynamic_library("..so"));
    let names = vec!["a.dll".to_string(), "a.lib".to_string(), "b.so".to_string(), "README".to_string()];
    assert_eq!(vendor_dylibs(&names), vec!["a.dll".to_string(), "b.so".to_string()]);
}

#[test]
fn layout_under_output_root() {
    let l = vendor_layout("/target");
    assert_eq!(l.root, "/target/ctranslate2-vendor");
    assert_eq!(l.dyn_dir, "/target/ctranslate2-vendor/dyn");
    assert_eq!(l.lib_dir, "/target/ctranslate2-vendor/lib");
}

#[test]
fn environment_search_paths() {
    let ds = search_paths_from_env("/a::/b:", Os::Linux);
    assert_eq!(
        ds,
        vec![
            Directive::Search { path: "/a".to_string(), native: false },
            Directive::Search { path: "/b".to_string(), native: false },
        ]
    );
    let ds = search_paths_from_env("C:\\x;;D:\\y", Os::Win);
    assert_eq!(ds.len(), 2);
    assert_eq!(search_paths_from_env("C:\\x;D:\\y", Os::Linux).len(), 3);
    assert!(search_paths_from_env("", Os::Mac).is_empty());
}

#[test]
fn fallback_decisions() {
    assert_eq!(choose_source(None), Ok(LibrarySource::FromSource));
    assert_eq!(choose_source(Some(Ok(()))), Ok(LibrarySource::Vendor));
    assert_eq!(choose_source(Some(Err(BuildError::NotFound))), Ok(LibrarySource::FromSource));
    assert_eq!(
        choose_source(Some(Err(BuildError::NetworkError { status: Some(500) }))),
        Ok(LibrarySource::FromSource)
    );
    assert_eq!(choose_source(Some(Err(BuildError::ExtractionError))), Err(BuildError::ExtractionError));
}

#[test]
fn vendor_not_found_goes_to_source_build() {
    let mut calls = 0u32;
    let mut action = fetch_start(true, false);
    let result = loop {
        match action {
            FetchAction::Request => {
                calls += 1;
                action = fetch_after_response(calls, Response::Status(404));
            }
            FetchAction::Extract => panic!("nothing to unpack"),
            FetchAction::Finish(r) => break r,
        }
    };
    assert_eq!(calls, 1);
    assert_eq!(choose_source(Some(result)), Ok(LibrarySource::FromSource));
}
