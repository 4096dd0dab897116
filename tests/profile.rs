use ctranslate2_src_build_support::profile::{
    platform_defaults, resolve_profile, BuildOptions, Features,
};
use ctranslate2_src_build_support::{Arch, BuildError, Os};

fn options() -> BuildOptions {
    BuildOptions { flash_attention: false, cuda_small_binary: false, shared: false, crt_dynamic: false }
}

fn everything() -> Features {
    Features {
        cuda: true,
        cudnn: true,
        cuda_dynamic_loading: true,
        mkl: true,
        openblas: true,
        ruy: true,
        accelerate: true,
        tensor_parallel: true,
        dnnl: true,
        openmp_comp: true,
        openmp_intel: true,
        msse4_1: true,
    }
}

#[test]
fn linux_x86_64_defaults_row() {
    let p = resolve_profile(Os::Linux, Arch::X86_64, Features::none(), options(), true).unwrap();
    let f = p.features;
    assert!(f.cuda && f.cudnn && f.cuda_dynamic_loading);
    assert!(f.dnnl && f.tensor_parallel && f.msse4_1 && f.openmp_comp);
    assert!(f.mkl);
    assert!(!f.openblas && !f.accelerate && !f.ruy && !f.openmp_intel);
    assert_eq!(p.os, Os::Linux);
    assert_eq!(p.arch, Arch::X86_64);
}

#[test]
fn defaults_ignore_requested_toggles() {
    for (os, arch) in [
        (Os::Win, Arch::X86_64),
        (Os::Mac, Arch::Aarch64),
        (Os::Mac, Arch::X86_64),
        (Os::Linux, Arch::Aarch64),
        (Os::Linux, Arch::X86_64),
    ] {
        let a = resolve_profile(os, arch, Features::none(), options(), true).unwrap();
        let b = resolve_profile(os, arch, everything(), options(), true).unwrap();
        assert_eq!(a, b);
        assert_eq!(a.features, platform_defaults(os, arch).unwrap());
    }
}

#[test]
fn defaults_rows_exact() {
    let mac_arm = platform_defaults(Os::Mac, Arch::Aarch64).unwrap();
    assert_eq!(mac_arm, Features { ruy: true, accelerate: true, ..Features::none() });
    let mac_x86 = platform_defaults(Os::Mac, Arch::X86_64).unwrap();
    assert_eq!(mac_x86, Features { mkl: true, dnnl: true, openmp_intel: true, ..Features::none() });
    let linux_arm = platform_defaults(Os::Linux, Arch::Aarch64).unwrap();
    assert_eq!(
        linux_arm,
        Features { openblas: true, ruy: true, openmp_comp: true, ..Features::none() }
    );
    let win = platform_defaults(Os::Win, Arch::X86_64).unwrap();
    assert_eq!(
        win,
        Features {
            cuda: true,
            cudnn: true,
            cuda_dynamic_loading: true,
            mkl: true,
            dnnl: true,
            ..Features::none()
        }
    );
}

#[test]
fn unsupported_platform_is_refused() {
    assert_eq!(
        resolve_profile(Os::Win, Arch::Aarch64, everything(), options(), true),
        Err(BuildError::UnsupportedPlatform)
    );
    assert_eq!(
        resolve_profile(Os::Unknown, Arch::X86_64, Features::none(), options(), true),
        Err(BuildError::UnsupportedPlatform)
    );
    assert_eq!(platform_defaults(Os::Unknown, Arch::Aarch64), None);
}

#[test]
fn without_defaults_requested_set_is_kept() {
    let req = Features { cuda: true, ruy: true, ..Features::none() };
    let p = resolve_profile(Os::Win, Arch::Aarch64, req, options(), false).unwrap();
    assert_eq!(p.features, req);
}

#[test]
fn dnnl_on_linux_infers_compiler_openmp() {
    let req = Features { dnnl: true, ..Features::none() };
    let p = resolve_profile(Os::Linux, Arch::X86_64, req, options(), false).unwrap();
    assert!(p.features.openmp_comp);
    let p = resolve_profile(Os::Mac, Arch::X86_64, req, options(), false).unwrap();
    assert!(!p.features.openmp_comp);
    let req = Features { dnnl: true, openmp_intel: true, ..Features::none() };
    let p = resolve_profile(Os::Linux, Arch::X86_64, req, options(), false).unwrap();
    assert!(!p.features.openmp_comp);
}

#[test]
fn options_pass_through() {
    let o = BuildOptions { flash_attention: true, cuda_small_binary: true, shared: true, crt_dynamic: true };
    let p = resolve_profile(Os::Mac, Arch::Aarch64, Features::none(), o, true).unwrap();
    assert_eq!(p.options, o);
}
