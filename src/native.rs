//! The configuration of the from-source build: the option matrix handed to the
//! external build tool, derived from the platform profile alone, and the search
//! for a GPU toolkit root.
use vstd::prelude::*;

use crate::profile::PlatformProfile;
use crate::text::{
    chars_of, contains, contains_seq, headers_dir, headers_dir_name, join_path, joined, owned,
};
use crate::{Arch, BuildError, Os};

verus! {

/// A variable of the native build's configuration.
#[derive(Debug, Clone, Copy, PartialEq, Eq, Structural)]
pub enum CmakeVar {
    BuildCli,
    BuildSharedLibs,
    WithMkl,
    OpenmpRuntime,
    PolicyVersionMinimum,
    PositionIndependentCode,
    WithCuda,
    CudaToolkitRootDir,
    CudaArchList,
    CudaNvccFlags,
    WithCudnn,
    CudaDynamicLoading,
    OsxArchitectures,
    WithOpenblas,
    WithRuy,
    WithAccelerate,
    WithTensorParallel,
    CxxFlags,
    WithDnnl,
    WithFlashAttn,
}

/// The name of a configuration variable as the build tool knows it.
pub open spec fn var_name(v: CmakeVar) -> Seq<char> {
    match v {
        CmakeVar::BuildCli => "BUILD_CLI"@,
        CmakeVar::BuildSharedLibs => "BUILD_SHARED_LIBS"@,
        CmakeVar::WithMkl => "WITH_MKL"@,
        CmakeVar::OpenmpRuntime => "OPENMP_RUNTIME"@,
        CmakeVar::PolicyVersionMinimum => "CMAKE_POLICY_VERSION_MINIMUM"@,
        CmakeVar::PositionIndependentCode => "CMAKE_POSITION_INDEPENDENT_CODE"@,
        CmakeVar::WithCuda => "WITH_CUDA"@,
        CmakeVar::CudaToolkitRootDir => "CUDA_TOOLKIT_ROOT_DIR"@,
        CmakeVar::CudaArchList => "CUDA_ARCH_LIST"@,
        CmakeVar::CudaNvccFlags => "CUDA_NVCC_FLAGS"@,
        CmakeVar::WithCudnn => "WITH_CUDNN"@,
        CmakeVar::CudaDynamicLoading => "CUDA_DYNAMIC_LOADING"@,
        CmakeVar::OsxArchitectures => "CMAKE_OSX_ARCHITECTURES"@,
        CmakeVar::WithOpenblas => "WITH_OPENBLAS"@,
        CmakeVar::WithRuy => "WITH_RUY"@,
        CmakeVar::WithAccelerate => "WITH_ACCELERATE"@,
        CmakeVar::WithTensorParallel => "WITH_TENSOR_PARALLEL"@,
        CmakeVar::CxxFlags => "CMAKE_CXX_FLAGS"@,
        CmakeVar::WithDnnl => "WITH_DNNL"@,
        CmakeVar::WithFlashAttn => "WITH_FLASH_ATTN"@,
    }
}

impl CmakeVar {
    /// The name of the variable as the build tool knows it.
    pub fn name(&self) -> (r: String)
        ensures
            r@ == var_name(*self),
    {
        match self {
            CmakeVar::BuildCli => owned("BUILD_CLI"),
            CmakeVar::BuildSharedLibs => owned("BUILD_SHARED_LIBS"),
            CmakeVar::WithMkl => owned("WITH_MKL"),
            CmakeVar::OpenmpRuntime => owned("OPENMP_RUNTIME"),
            CmakeVar::PolicyVersionMinimum => owned("CMAKE_POLICY_VERSION_MINIMUM"),
            CmakeVar::PositionIndependentCode => owned("CMAKE_POSITION_INDEPENDENT_CODE"),
            CmakeVar::WithCuda => owned("WITH_CUDA"),
            CmakeVar::CudaToolkitRootDir => owned("CUDA_TOOLKIT_ROOT_DIR"),
            CmakeVar::CudaArchList => owned("CUDA_ARCH_LIST"),
            CmakeVar::CudaNvccFlags => owned("CUDA_NVCC_FLAGS"),
            CmakeVar::WithCudnn => owned("WITH_CUDNN"),
            CmakeVar::CudaDynamicLoading => owned("CUDA_DYNAMIC_LOADING"),
            CmakeVar::OsxArchitectures => owned("CMAKE_OSX_ARCHITECTURES"),
            CmakeVar::WithOpenblas => owned("WITH_OPENBLAS"),
            CmakeVar::WithRuy => owned("WITH_RUY"),
            CmakeVar::WithAccelerate => owned("WITH_ACCELERATE"),
            CmakeVar::WithTensorParallel => owned("WITH_TENSOR_PARALLEL"),
            CmakeVar::CxxFlags => owned("CMAKE_CXX_FLAGS"),
            CmakeVar::WithDnnl => owned("WITH_DNNL"),
            CmakeVar::WithFlashAttn => owned("WITH_FLASH_ATTN"),
        }
    }
}

/// The value a list of definitions gives a variable: the build tool reads them
/// in order, so the last definition of a variable wins.
pub open spec fn define_value(ds: Seq<(CmakeVar, String)>, v: CmakeVar) -> Option<Seq<char>>
    decreases ds.len(),
{
    if ds.len() == 0 {
        None
    } else if ds.last().0 == v {
        Some(ds.last().1@)
    } else {
        define_value(ds.drop_last(), v)
    }
}

/// The compute capabilities the GPU code is built for.
pub open spec fn cuda_arch_list() -> Seq<char> {
    "5.3;6.0;6.2;7.0;7.2;7.5;8.0;8.6;8.9;9.0"@
}

/// The flags handed to the GPU compiler.
pub open spec fn nvcc_flags(small_binary: bool) -> Seq<char> {
    if small_binary {
        "-Xfatbin=-compress-all -Xcompiler=-fPIC"@
    } else {
        "-Xcompiler=-fPIC"@
    }
}

pub open spec fn on_if(b: bool) -> Option<Seq<char>> {
    if b {
        Some("ON"@)
    } else {
        None
    }
}

/// The value that the build configuration gives each variable for a profile.
pub open spec fn expected_define(p: PlatformProfile, cuda_root: Seq<char>, v: CmakeVar) -> Option<
    Seq<char>,
> {
    let f = p.features;
    match v {
        CmakeVar::BuildCli => Some("OFF"@),
        CmakeVar::BuildSharedLibs => Some(
            if p.options.shared {
                "ON"@
            } else {
                "OFF"@
            },
        ),
        CmakeVar::WithMkl => Some(
            if f.mkl {
                "ON"@
            } else {
                "OFF"@
            },
        ),
        CmakeVar::OpenmpRuntime => Some(
            if f.openmp_comp {
                "COMP"@
            } else if f.openmp_intel {
                "INTEL"@
            } else {
                "NONE"@
            },
        ),
        CmakeVar::PolicyVersionMinimum => Some("3.5"@),
        CmakeVar::PositionIndependentCode => on_if(p.os == Os::Linux),
        CmakeVar::WithCuda => on_if(f.cuda),
        CmakeVar::CudaToolkitRootDir => if f.cuda {
            Some(cuda_root)
        } else {
            None
        },
        CmakeVar::CudaArchList => if f.cuda {
            Some(cuda_arch_list())
        } else {
            None
        },
        CmakeVar::CudaNvccFlags => if f.cuda {
            Some(nvcc_flags(p.options.cuda_small_binary))
        } else {
            None
        },
        CmakeVar::WithCudnn => on_if(f.cuda && f.cudnn),
        CmakeVar::CudaDynamicLoading => on_if(f.cuda && f.cuda_dynamic_loading),
        CmakeVar::OsxArchitectures => if p.os == Os::Mac && p.arch == Arch::Aarch64 {
            Some("arm64"@)
        } else {
            None
        },
        CmakeVar::WithOpenblas => on_if(f.openblas),
        CmakeVar::WithRuy => on_if(f.ruy),
        CmakeVar::WithAccelerate => on_if(f.accelerate),
        CmakeVar::WithTensorParallel => on_if(f.tensor_parallel),
        CmakeVar::CxxFlags => if f.msse4_1 {
            Some("-msse4.1"@)
        } else {
            None
        },
        CmakeVar::WithDnnl => on_if(f.dnnl),
        CmakeVar::WithFlashAttn => on_if(p.options.flash_attention),
    }
}

/// The advice given on Windows when the Rust flags do not link the C runtime
/// statically.
pub open spec fn crt_warning() -> Seq<char> {
    "For Windows compilation, setting the environment variable `RUSTFLAGS=-C target-feature=+crt-static` might be required."@
}

/// What the Rust flags must request for the C runtime to be linked statically.
pub open spec fn crt_static_marker() -> Seq<char> {
    "target-feature=+crt-static"@
}

/// The configuration of the native build.
pub struct NativeConfig {
    /// Variable definitions, in the order they are handed to the build tool.
    pub defines: Vec<(CmakeVar, String)>,
    /// Link the C runtime statically (Windows only).
    pub static_crt: bool,
    /// Build the release profile explicitly (Windows only).
    pub release_profile: bool,
    /// Extra flags of the C++ compiler.
    pub cxxflags: Vec<String>,
    /// Extra arguments of the final link.
    pub link_args: Vec<String>,
    /// Advice for the user; never fatal.
    pub warnings: Vec<String>,
}

fn define(ds: &mut Vec<(CmakeVar, String)>, v: CmakeVar, value: &str)
    ensures
        forall|w: CmakeVar| #[trigger]
            define_value(final(ds)@, w) == if w == v {
                Some(value@)
            } else {
                define_value(old(ds)@, w)
            },
{
    ds.push((v, owned(value)));
    assert(final(ds)@.drop_last() =~= old(ds)@);
}

/// `new` where it gives a value, else `old`.
pub open spec fn overlay(new: Option<Seq<char>>, old: Option<Seq<char>>) -> Option<Seq<char>> {
    if new is Some {
        new
    } else {
        old
    }
}

/// The definitions made before any platform or feature is looked at.
pub open spec fn core_value(p: PlatformProfile, v: CmakeVar) -> Option<Seq<char>> {
    match v {
        CmakeVar::BuildCli => Some("OFF"@),
        CmakeVar::BuildSharedLibs => Some(
            if p.options.shared {
                "ON"@
            } else {
                "OFF"@
            },
        ),
        CmakeVar::WithMkl => Some("OFF"@),
        CmakeVar::OpenmpRuntime => Some("NONE"@),
        CmakeVar::PolicyVersionMinimum => Some("3.5"@),
        _ => None,
    }
}

/// The definitions of the GPU toolkit.
pub open spec fn cuda_value(p: PlatformProfile, cuda_root: Seq<char>, v: CmakeVar) -> Option<
    Seq<char>,
> {
    match v {
        CmakeVar::WithCuda | CmakeVar::CudaToolkitRootDir | CmakeVar::CudaArchList
        | CmakeVar::CudaNvccFlags | CmakeVar::WithCudnn | CmakeVar::CudaDynamicLoading => {
            expected_define(p, cuda_root, v)
        },
        _ => None,
    }
}

/// The definitions of the math backends, runtimes and optional kernels.
pub open spec fn backend_value(p: PlatformProfile, v: CmakeVar) -> Option<Seq<char>> {
    let f = p.features;
    match v {
        CmakeVar::WithMkl => on_if(f.mkl),
        CmakeVar::OpenmpRuntime => if f.openmp_comp {
            Some("COMP"@)
        } else if f.openmp_intel {
            Some("INTEL"@)
        } else {
            None
        },
        CmakeVar::WithOpenblas | CmakeVar::WithRuy | CmakeVar::WithAccelerate
        | CmakeVar::WithTensorParallel | CmakeVar::CxxFlags | CmakeVar::WithDnnl
        | CmakeVar::WithFlashAttn => expected_define(p, Seq::empty(), v),
        _ => None,
    }
}

fn core_defines(profile: &PlatformProfile, ds: &mut Vec<(CmakeVar, String)>)
    ensures
        forall|v: CmakeVar| #[trigger]
            define_value(final(ds)@, v) == overlay(
                core_value(*profile, v),
                define_value(old(ds)@, v),
            ),
{
    define(ds, CmakeVar::BuildCli, "OFF");
    define(ds, CmakeVar::BuildSharedLibs, "OFF");
    define(ds, CmakeVar::WithMkl, "OFF");
    define(ds, CmakeVar::OpenmpRuntime, "NONE");
    define(ds, CmakeVar::PolicyVersionMinimum, "3.5");
    if profile.options.shared {
        define(ds, CmakeVar::BuildSharedLibs, "ON");
    }
}

fn cuda_defines(profile: &PlatformProfile, root: &str, ds: &mut Vec<(CmakeVar, String)>)
    ensures
        forall|v: CmakeVar| #[trigger]
            define_value(final(ds)@, v) == overlay(
                cuda_value(*profile, root@, v),
                define_value(old(ds)@, v),
            ),
{
    let f = profile.features;
    if f.cuda {
        define(ds, CmakeVar::WithCuda, "ON");
        define(ds, CmakeVar::CudaToolkitRootDir, root);
        define(ds, CmakeVar::CudaArchList, "5.3;6.0;6.2;7.0;7.2;7.5;8.0;8.6;8.9;9.0");
        if profile.options.cuda_small_binary {
            define(ds, CmakeVar::CudaNvccFlags, "-Xfatbin=-compress-all -Xcompiler=-fPIC");
        } else {
            define(ds, CmakeVar::CudaNvccFlags, "-Xcompiler=-fPIC");
        }
        if f.cudnn {
            define(ds, CmakeVar::WithCudnn, "ON");
        }
        if f.cuda_dynamic_loading {
            define(ds, CmakeVar::CudaDynamicLoading, "ON");
        }
    }
}

fn backend_defines(profile: &PlatformProfile, ds: &mut Vec<(CmakeVar, String)>)
    ensures
        forall|v: CmakeVar| #[trigger]
            define_value(final(ds)@, v) == overlay(
                backend_value(*profile, v),
                define_value(old(ds)@, v),
            ),
{
    let f = profile.features;
    if f.mkl {
        define(ds, CmakeVar::WithMkl, "ON");
    }
    if f.openblas {
        define(ds, CmakeVar::WithOpenblas, "ON");
    }
    if f.ruy {
        define(ds, CmakeVar::WithRuy, "ON");
    }
    if f.accelerate {
        define(ds, CmakeVar::WithAccelerate, "ON");
    }
    if f.tensor_parallel {
        define(ds, CmakeVar::WithTensorParallel, "ON");
    }
    if f.msse4_1 {
        define(ds, CmakeVar::CxxFlags, "-msse4.1");
    }
    if f.dnnl {
        define(ds, CmakeVar::WithDnnl, "ON");
    }
    if f.openmp_comp {
        define(ds, CmakeVar::OpenmpRuntime, "COMP");
    } else if f.openmp_intel {
        define(ds, CmakeVar::OpenmpRuntime, "INTEL");
    }
    if profile.options.flash_attention {
        define(ds, CmakeVar::WithFlashAttn, "ON");
    }
}

/// Whether the Rust flags request a statically linked C runtime.
pub fn requests_static_crt(rustflags: &str) -> (r: bool)
    ensures
        r == contains_seq(rustflags@, crt_static_marker()),
{
    let flags = chars_of(rustflags);
    let marker = chars_of("target-feature=+crt-static");
    contains(&flags, &marker)
}

/// Derives the native build's configuration from the profile. `cuda_root` is the
/// GPU toolkit root that was found, if any; `rustflags` are the encoded Rust
/// flags of the build. Fails with `ToolkitNotFound` exactly when GPU acceleration
/// is on and no toolkit root was found.
pub fn build_native(profile: &PlatformProfile, cuda_root: Option<&str>, rustflags: &str) -> (r:
    Result<NativeConfig, BuildError>)
    ensures
        r is Err <==> (profile.features.cuda && cuda_root is None),
        r is Err ==> r == Err::<NativeConfig, BuildError>(BuildError::ToolkitNotFound),
        r matches Ok(c) ==> {
            &&& forall|v: CmakeVar| #[trigger]
                define_value(c.defines@, v) == expected_define(
                    *profile,
                    match cuda_root {
                        Some(s) => s@,
                        None => Seq::empty(),
                    },
                    v,
                )
            &&& c.static_crt == (profile.os == Os::Win && contains_seq(
                rustflags@,
                crt_static_marker(),
            ))
            &&& c.release_profile == (profile.os == Os::Win)
            &&& c.cxxflags@.map_values(|s: String| s@) == if profile.os == Os::Win {
                seq!["/EHsc"@]
            } else {
                Seq::empty()
            }
            &&& c.link_args@.map_values(|s: String| s@) == if profile.os == Os::Win {
                seq!["/FORCE:MULTIPLE"@]
            } else {
                Seq::empty()
            }
            &&& c.warnings@.map_values(|s: String| s@) == if profile.os == Os::Win
                && !contains_seq(rustflags@, crt_static_marker()) {
                seq![crt_warning()]
            } else {
                Seq::empty()
            }
        },
{
    if profile.features.cuda && cuda_root.is_none() {
        return Err(BuildError::ToolkitNotFound);
    }
    let root = match cuda_root {
        Some(s) => s,
        None => "",
    };
    let ghost root_seq = match cuda_root {
        Some(s) => s@,
        None => Seq::<char>::empty(),
    };
    assert(profile.features.cuda ==> root@ == root_seq);
    let mut ds: Vec<(CmakeVar, String)> = Vec::new();
    let ghost d0 = ds@;
    core_defines(profile, &mut ds);
    let ghost d1 = ds@;
    let mut static_crt = false;
    let mut release_profile = false;
    let mut cxxflags: Vec<String> = Vec::new();
    let mut link_args: Vec<String> = Vec::new();
    let mut warnings: Vec<String> = Vec::new();
    if profile.os == Os::Win {
        if !requests_static_crt(rustflags) {
            warnings.push(
                owned(
                    "For Windows compilation, setting the environment variable `RUSTFLAGS=-C target-feature=+crt-static` might be required.",
                ),
            );
        } else {
            static_crt = true;
        }
        link_args.push(owned("/FORCE:MULTIPLE"));
        release_profile = true;
        cxxflags.push(owned("/EHsc"));
    } else if profile.os == Os::Linux {
        define(&mut ds, CmakeVar::PositionIndependentCode, "ON");
    }
    let ghost d2 = ds@;
    cuda_defines(profile, root, &mut ds);
    let ghost d3 = ds@;
    if profile.os == Os::Mac && profile.arch == Arch::Aarch64 {
        define(&mut ds, CmakeVar::OsxArchitectures, "arm64");
    }
    let ghost d4 = ds@;
    backend_defines(profile, &mut ds);
    assert forall|v: CmakeVar| #[trigger]
        define_value(ds@, v) == expected_define(*profile, root_seq, v) by {
        assert(define_value(d0, v) is None);
        assert(define_value(d2, v) == overlay(
            if v == CmakeVar::PositionIndependentCode && profile.os == Os::Linux {
                Some("ON"@)
            } else {
                None
            },
            define_value(d1, v),
        ));
        assert(define_value(d4, v) == overlay(
            if v == CmakeVar::OsxArchitectures && profile.os == Os::Mac && profile.arch
                == Arch::Aarch64 {
                Some("arm64"@)
            } else {
                None
            },
            define_value(d3, v),
        ));
    }
    assert(cxxflags@.map_values(|s: String| s@) =~= if profile.os == Os::Win {
        seq!["/EHsc"@]
    } else {
        Seq::empty()
    });
    assert(link_args@.map_values(|s: String| s@) =~= if profile.os == Os::Win {
        seq!["/FORCE:MULTIPLE"@]
    } else {
        Seq::empty()
    });
    assert(warnings@.map_values(|s: String| s@) =~= if profile.os == Os::Win && !contains_seq(
        rustflags@,
        crt_static_marker(),
    ) {
        seq![crt_warning()]
    } else {
        Seq::empty()
    });
    Ok(
        NativeConfig {
            defines: ds,
            static_crt,
            release_profile,
            cxxflags,
            link_args,
            warnings,
        },
    )
}

/// The environment variables that may name the GPU toolkit root, in the order
/// they are consulted.
pub open spec fn cuda_env_var_names() -> Seq<Seq<char>> {
    seq!["CUDA_PATH"@, "CUDA_ROOT"@, "CUDA_TOOLKIT_ROOT_DIR"@, "CUDNN_LIB"@]
}

/// The conventional install locations of the GPU toolkit, consulted after the
/// environment.
pub open spec fn cuda_install_roots() -> Seq<Seq<char>> {
    seq![
        "/usr"@,
        "/usr/local/cuda"@,
        "/opt/cuda"@,
        "/usr/lib/cuda"@,
        "C:/Program Files/NVIDIA GPU Computing Toolkit"@,
        "C:/CUDA"@,
    ]
}

/// The values of the set variables, in order.
pub open spec fn set_values(vals: Seq<Option<String>>) -> Seq<Seq<char>>
    decreases vals.len(),
{
    if vals.len() == 0 {
        Seq::empty()
    } else {
        let rest = set_values(vals.drop_last());
        match vals.last() {
            Some(s) => rest.push(s@),
            None => rest,
        }
    }
}

/// The environment variables that may name the GPU toolkit root.
pub fn cuda_env_vars() -> (r: Vec<String>)
    ensures
        r@.map_values(|s: String| s@) == cuda_env_var_names(),
{
    let r = vec![
        owned("CUDA_PATH"),
        owned("CUDA_ROOT"),
        owned("CUDA_TOOLKIT_ROOT_DIR"),
        owned("CUDNN_LIB"),
    ];
    assert(r@.map_values(|s: String| s@) =~= cuda_env_var_names());
    r
}

/// The candidate toolkit roots: the values of the variables of `cuda_env_vars`
/// that are set (`env_values` holds them in that order), then the conventional
/// install locations.
pub fn cuda_root_candidates(env_values: &Vec<Option<String>>) -> (r: Vec<String>)
    ensures
        r@.map_values(|s: String| s@) == set_values(env_values@) + cuda_install_roots(),
{
    let mut r: Vec<String> = Vec::new();
    let mut i: usize = 0;
    while i < env_values.len()
        invariant
            i <= env_values.len(),
            r@.map_values(|s: String| s@) == set_values(env_values@.take(i as int)),
        decreases env_values.len() - i,
    {
        assert(env_values@.take(i + 1).drop_last() =~= env_values@.take(i as int));
        match &env_values[i] {
            Some(s) => {
                r.push(s.clone());
                assert(r@.map_values(|s: String| s@) =~= set_values(env_values@.take(i + 1)));
            },
            None => {},
        }
        i = i + 1;
    }
    assert(env_values@.take(env_values.len() as int) =~= env_values@);
    let roots = vec![
        owned("/usr"),
        owned("/usr/local/cuda"),
        owned("/opt/cuda"),
        owned("/usr/lib/cuda"),
        owned("C:/Program Files/NVIDIA GPU Computing Toolkit"),
        owned("C:/CUDA"),
    ];
    assert(roots@.map_values(|s: String| s@) =~= cuda_install_roots());
    let ghost before = r@;
    let mut j: usize = 0;
    while j < roots.len()
        invariant
            j <= roots.len(),
            r@ =~= before + roots@.take(j as int),
        decreases roots.len() - j,
    {
        r.push(roots[j].clone());
        j = j + 1;
    }
    assert(roots@.take(roots.len() as int) =~= roots@);
    assert(r@.map_values(|s: String| s@) =~= before.map_values(|s: String| s@) + roots@.map_values(
        |s: String| s@,
    ));
    r
}

/// The header whose presence marks a toolkit root.
pub fn cuda_header_path(root: &str) -> (r: String)
    ensures
        r@ == joined(joined(root@, headers_dir()), "cuda.h"@),
{
    let dir = headers_dir_name();
    let headers = join_path(root, dir.as_str());
    join_path(headers.as_str(), "cuda.h")
}

/// The first candidate whose header is present (`has_header[i]` tells of
/// `candidates[i]`); `None` when there is none.
pub fn cuda_root(candidates: &Vec<String>, has_header: &Vec<bool>) -> (r: Option<String>)
    requires
        candidates.len() == has_header.len(),
    ensures
        r is None <==> forall|i: int| 0 <= i < has_header.len() ==> !has_header@[i],
        r matches Some(s) ==> exists|i: int|
            0 <= i < candidates.len() && has_header@[i] && s == candidates@[i] && forall|j: int|
                0 <= j < i ==> !has_header@[j],
{
    let mut i: usize = 0;
    while i < candidates.len()
        invariant
            candidates.len() == has_header.len(),
            i <= candidates.len(),
            forall|j: int| 0 <= j < i ==> !has_header@[j],
        decreases candidates.len() - i,
    {
        if has_header[i] {
            return Some(candidates[i].clone());
        }
        i = i + 1;
    }
    None
}

} // verus!
