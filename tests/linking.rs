use ctranslate2_src_build_support::linking::{link, link_vendor, Directive, LinkKind};
use ctranslate2_src_build_support::profile::Features;
use ctranslate2_src_build_support::{Arch, BuildError, Os};

fn lines(ds: &[Directive]) -> Vec<String> {
    ds.iter().map(|d| d.to_line()).collect()
}

#[test]
fn static_gpu_links() {
    let f = Features { cuda: true, cudnn: true, openmp_comp: true, ..Features::none() };
    let ds = link(Os::Linux, &f, Some("/cuda"), false);
    assert_eq!(
        lines(&ds),
        vec![
            "cargo:rustc-link-search=/cuda/lib",
            "cargo:rustc-link-search=/cuda/lib64",
            "cargo:rustc-link-search=/cuda/lib/x64",
            "cargo:rustc-link-lib=static=cudart_static",
            "cargo:rustc-link-lib=cudnn",
            "cargo:rustc-link-lib=static=cublas_static",
            "cargo:rustc-link-lib=static=cublasLt_static",
            "cargo:rustc-link-lib=static=culibos",
            "cargo:rustc-link-lib=gomp",
        ]
    );
}

#[test]
fn windows_gpu_and_intel_openmp() {
    let f = Features { cuda: true, openmp_intel: true, openblas: true, ..Features::none() };
    let ds = link(Os::Win, &f, None, false);
    assert_eq!(
        lines(&ds),
        vec![
            "cargo:rustc-link-lib=static=cudart_static",
            "cargo:rustc-link-lib=static=cublas",
            "cargo:rustc-link-lib=static=cublasLt",
            "cargo:rustc-link-lib=static=openblas",
            "cargo:rustc-link-lib=dylib=libiomp5md",
        ]
    );
    let ds = link(Os::Mac, &Features { openmp_intel: true, ..Features::none() }, None, false);
    assert_eq!(lines(&ds), vec!["cargo:rustc-link-lib=iomp5"]);
}

#[test]
fn shared_build_links_only_frameworks() {
    let f = Features { cuda: true, openblas: true, accelerate: true, openmp_comp: true, ..Features::none() };
    let ds = link(Os::Mac, &f, Some("/c"), true);
    assert_eq!(ds, vec![Directive::Link { kind: LinkKind::Framework, name: "Accelerate".to_string() }]);
}

#[test]
fn vendor_links_per_platform() {
    assert_eq!(
        lines(&link_vendor(Os::Win, Arch::X86_64, false).unwrap()),
        vec![
            "cargo:rustc-link-lib=static=cudart_static",
            "cargo:rustc-link-lib=cudnn",
            "cargo:rustc-link-lib=dylib=libiomp5md",
        ]
    );
    assert_eq!(
        lines(&link_vendor(Os::Linux, Arch::Aarch64, false).unwrap()),
        vec!["cargo:rustc-link-lib=static=openblas", "cargo:rustc-link-lib=gomp"]
    );
    assert!(link_vendor(Os::Linux, Arch::X86_64, true).unwrap().is_empty());
    assert_eq!(link_vendor(Os::Win, Arch::Aarch64, false), Err(BuildError::UnsupportedPlatform));
    assert_eq!(link_vendor(Os::Unknown, Arch::X86_64, false), Err(BuildError::UnsupportedPlatform));
}

#[test]
fn directive_lines() {
    let d = Directive::Search { path: "/v/dyn".to_string(), native: true };
    assert_eq!(d.to_line(), "cargo:rustc-link-search=native=/v/dyn");
}
