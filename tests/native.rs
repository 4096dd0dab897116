use ctranslate2_src_build_support::native::{
    build_native, cuda_env_vars, cuda_header_path, cuda_root, cuda_root_candidates, CmakeVar,
    NativeConfig,
};
use ctranslate2_src_build_support::profile::{resolve_profile, BuildOptions, Features};
use ctranslate2_src_build_support::{Arch, BuildError, Os};

fn value(c: &NativeConfig, v: CmakeVar) -> Option<String> {
    c.defines.iter().rev().find(|(k, _)| *k == v).map(|(_, x)| x.clone())
}

fn opts(shared: bool) -> BuildOptions {
    BuildOptions { flash_attention: false, cuda_small_binary: false, shared, crt_dynamic: false }
}

#[test]
fn linux_defaults_configuration() {
    let p = resolve_profile(Os::Linux, Arch::X86_64, Features::none(), opts(false), true).unwrap();
    let c = build_native(&p, Some("/usr/local/cuda"), "").unwrap();
    let keys: Vec<String> = c.defines.iter().map(|(k, v)| format!("{}={}", k.name(), v)).collect();
    assert_eq!(
        keys,
        vec![
            "BUILD_CLI=OFF",
            "BUILD_SHARED_LIBS=OFF",
            "WITH_MKL=OFF",
            "OPENMP_RUNTIME=NONE",
            "CMAKE_POLICY_VERSION_MINIMUM=3.5",
            "CMAKE_POSITION_INDEPENDENT_CODE=ON",
            "WITH_CUDA=ON",
            "CUDA_TOOLKIT_ROOT_DIR=/usr/local/cuda",
            "CUDA_ARCH_LIST=5.3;6.0;6.2;7.0;7.2;7.5;8.0;8.6;8.9;9.0",
            "CUDA_NVCC_FLAGS=-Xcompiler=-fPIC",
            "WITH_CUDNN=ON",
            "CUDA_DYNAMIC_LOADING=ON",
            "WITH_MKL=ON",
            "WITH_TENSOR_PARALLEL=ON",
            "CMAKE_CXX_FLAGS=-msse4.1",
            "WITH_DNNL=ON",
            "OPENMP_RUNTIME=COMP",
        ]
    );
    assert_eq!(value(&c, CmakeVar::WithMkl), Some("ON".to_string()));
    assert_eq!(value(&c, CmakeVar::OpenmpRuntime), Some("COMP".to_string()));
    assert!(!c.static_crt && !c.release_profile);
    assert!(c.cxxflags.is_empty() && c.link_args.is_empty() && c.warnings.is_empty());
}

#[test]
fn missing_toolkit_is_fatal() {
    let p = resolve_profile(Os::Linux, Arch::X86_64, Features::none(), opts(false), true).unwrap();
    assert!(matches!(build_native(&p, None, ""), Err(BuildError::ToolkitNotFound)));
    let p = resolve_profile(Os::Linux, Arch::Aarch64, Features::none(), opts(false), true).unwrap();
    assert!(build_native(&p, None, "").is_ok());
}

#[test]
fn windows_runtime_settings() {
    let p = resolve_profile(Os::Win, Arch::X86_64, Features::none(), opts(true), true).unwrap();
    let c = build_native(&p, Some("C:/CUDA"), "-C\u{1f}target-feature=+crt-static").unwrap();
    assert!(c.static_crt && c.release_profile);
    assert!(c.warnings.is_empty());
    assert_eq!(c.cxxflags, vec!["/EHsc".to_string()]);
    assert_eq!(c.link_args, vec!["/FORCE:MULTIPLE".to_string()]);
    assert_eq!(value(&c, CmakeVar::BuildSharedLibs), Some("ON".to_string()));
    assert_eq!(value(&c, CmakeVar::PositionIndependentCode), None);
    let c = build_native(&p, Some("C:/CUDA"), "").unwrap();
    assert!(!c.static_crt);
    assert_eq!(c.warnings.len(), 1);
}

#[test]
fn mac_arm_and_options() {
    let o = BuildOptions { flash_attention: true, cuda_small_binary: true, shared: false, crt_dynamic: false };
    let p = resolve_profile(Os::Mac, Arch::Aarch64, Features { cuda: true, ..Features::none() }, o, false).unwrap();
    let c = build_native(&p, Some("/opt/cuda"), "").unwrap();
    assert_eq!(value(&c, CmakeVar::OsxArchitectures), Some("arm64".to_string()));
    assert_eq!(value(&c, CmakeVar::WithFlashAttn), Some("ON".to_string()));
    assert_eq!(value(&c, CmakeVar::CudaNvccFlags), Some("-Xfatbin=-compress-all -Xcompiler=-fPIC".to_string()));
    assert_eq!(value(&c, CmakeVar::WithCudnn), None);
    let p = resolve_profile(Os::Mac, Arch::X86_64, Features { openmp_intel: true, ..Features::none() }, o, false).unwrap();
    let c = build_native(&p, None, "").unwrap();
    assert_eq!(value(&c, CmakeVar::OpenmpRuntime), Some("INTEL".to_string()));
    assert_eq!(value(&c, CmakeVar::OsxArchitectures), None);
}

#[test]
fn toolkit_root_search() {
    assert_eq!(cuda_env_vars(), vec!["CUDA_PATH", "CUDA_ROOT", "CUDA_TOOLKIT_ROOT_DIR", "CUDNN_LIB"]);
    let c = cuda_root_candidates(&vec![None, Some("/x".to_string()), None, None]);
    assert_eq!(c[0], "/x");
    assert_eq!(c[1], "/usr");
    assert_eq!(c.len(), 7);
    assert_eq!(c[6], "C:/CUDA");
    let found = cuda_root(&c, &vec![false, false, true, true, false, false, false]);
    assert_eq!(found, Some("/usr/local/cuda".to_string()));
    assert_eq!(cuda_root(&c, &vec![false; 7]), None);
    assert_eq!(cuda_header_path("/opt/cuda").len(), "/opt/cuda/".len() + 7 + "/cuda.h".len());
    assert!(cuda_header_path("/opt/cuda/").starts_with("/opt/cuda/"));
    assert!(cuda_header_path("/opt/cuda").ends_with("/cuda.h"));
}
