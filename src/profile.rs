//! Resolution of the platform profile: the feature set that drives every
//! later decision of a build.
use vstd::prelude::*;

use crate::{Arch, BuildError, Os};

verus! {

/// The capability toggles that the platform-defaults table decides.
#[derive(Debug, Clone, Copy, PartialEq, Eq, Structural)]
pub struct Features {
    pub cuda: bool,
    pub cudnn: bool,
    pub cuda_dynamic_loading: bool,
    pub mkl: bool,
    pub openblas: bool,
    pub ruy: bool,
    pub accelerate: bool,
    pub tensor_parallel: bool,
    pub dnnl: bool,
    pub openmp_comp: bool,
    pub openmp_intel: bool,
    pub msse4_1: bool,
}

/// Build options that no platform default touches.
#[derive(Debug, Clone, Copy, PartialEq, Eq, Structural)]
pub struct BuildOptions {
    pub flash_attention: bool,
    pub cuda_small_binary: bool,
    pub shared: bool,
    pub crt_dynamic: bool,
}

/// The resolved profile of one build invocation.
#[derive(Debug, Clone, Copy, PartialEq, Eq, Structural)]
pub struct PlatformProfile {
    pub os: Os,
    pub arch: Arch,
    pub features: Features,
    pub options: BuildOptions,
}

/// A feature set with every toggle off.
pub open spec fn no_features() -> Features {
    Features {
        cuda: false,
        cudnn: false,
        cuda_dynamic_loading: false,
        mkl: false,
        openblas: false,
        ruy: false,
        accelerate: false,
        tensor_parallel: false,
        dnnl: false,
        openmp_comp: false,
        openmp_intel: false,
        msse4_1: false,
    }
}

/// The platform-defaults table; `None` for a pair that has no row.
pub open spec fn defaults_row(os: Os, arch: Arch) -> Option<Features> {
    match (os, arch) {
        (Os::Win, Arch::X86_64) => Some(
            Features {
                cuda: true,
                cudnn: true,
                cuda_dynamic_loading: true,
                mkl: true,
                dnnl: true,
                ..no_features()
            },
        ),
        (Os::Mac, Arch::Aarch64) => Some(Features { ruy: true, accelerate: true, ..no_features() }),
        (Os::Mac, Arch::X86_64) => Some(
            Features { mkl: true, dnnl: true, openmp_intel: true, ..no_features() },
        ),
        (Os::Linux, Arch::Aarch64) => Some(
            Features { openblas: true, ruy: true, openmp_comp: true, ..no_features() },
        ),
        (Os::Linux, Arch::X86_64) => Some(
            Features {
                cuda: true,
                cudnn: true,
                cuda_dynamic_loading: true,
                mkl: true,
                tensor_parallel: true,
                dnnl: true,
                openmp_comp: true,
                msse4_1: true,
                ..no_features()
            },
        ),
        _ => None,
    }
}

/// The requested toggles, with the one inferred default: on Linux, oneDNN with no
/// OpenMP runtime chosen gets the compiler's runtime.
pub open spec fn infer_features(os: Os, requested: Features) -> Features {
    if !requested.openmp_intel && !requested.openmp_comp && requested.dnnl && os == Os::Linux {
        Features { openmp_comp: true, ..requested }
    } else {
        requested
    }
}

/// What resolving a profile yields.
pub open spec fn resolved(
    os: Os,
    arch: Arch,
    requested: Features,
    options: BuildOptions,
    apply_defaults: bool,
) -> Result<PlatformProfile, BuildError> {
    if apply_defaults {
        match defaults_row(os, arch) {
            Some(row) => Ok(PlatformProfile { os, arch, features: row, options }),
            None => Err(BuildError::UnsupportedPlatform),
        }
    } else {
        Ok(PlatformProfile { os, arch, features: infer_features(os, requested), options })
    }
}

impl Features {
    /// A feature set with every toggle off.
    pub fn none() -> (r: Features)
        ensures
            r == no_features(),
    {
        Features {
            cuda: false,
            cudnn: false,
            cuda_dynamic_loading: false,
            mkl: false,
            openblas: false,
            ruy: false,
            accelerate: false,
            tensor_parallel: false,
            dnnl: false,
            openmp_comp: false,
            openmp_intel: false,
            msse4_1: false,
        }
    }
}

/// Looks up the platform-defaults row of an (os, arch) pair.
pub fn platform_defaults(os: Os, arch: Arch) -> (r: Option<Features>)
    ensures
        r == defaults_row(os, arch),
{
    let none = Features::none();
    match (os, arch) {
        (Os::Win, Arch::X86_64) => Some(
            Features {
                cuda: true,
                cudnn: true,
                cuda_dynamic_loading: true,
                mkl: true,
                dnnl: true,
                ..none
            },
        ),
        (Os::Mac, Arch::Aarch64) => Some(Features { ruy: true, accelerate: true, ..none }),
        (Os::Mac, Arch::X86_64) => Some(
            Features { mkl: true, dnnl: true, openmp_intel: true, ..none },
        ),
        (Os::Linux, Arch::Aarch64) => Some(
            Features { openblas: true, ruy: true, openmp_comp: true, ..none },
        ),
        (Os::Linux, Arch::X86_64) => Some(
            Features {
                cuda: true,
                cudnn: true,
                cuda_dynamic_loading: true,
                mkl: true,
                tensor_parallel: true,
                dnnl: true,
                openmp_comp: true,
                msse4_1: true,
                ..none
            },
        ),
        _ => None,
    }
}

/// Resolves the profile of a build. With `apply_defaults` the feature set is the
/// platform's row of the defaults table, whatever was requested, and a pair
/// without a row is refused; without it the requested set is kept, save the
/// inferred OpenMP runtime for oneDNN on Linux.
pub fn resolve_profile(
    os: Os,
    arch: Arch,
    requested: Features,
    options: BuildOptions,
    apply_defaults: bool,
) -> (r: Result<PlatformProfile, BuildError>)
    ensures
        r == resolved(os, arch, requested, options, apply_defaults),
{
    if apply_defaults {
        match platform_defaults(os, arch) {
            Some(row) => Ok(PlatformProfile { os, arch, features: row, options }),
            None => Err(BuildError::UnsupportedPlatform),
        }
    } else {
        let mut features = requested;
        if !requested.openmp_intel && !requested.openmp_comp && requested.dnnl && os == Os::Linux {
            features.openmp_comp = true;
        }
        Ok(PlatformProfile { os, arch, features, options })
    }
}

/// With platform defaults applied, a pair that has a row resolves to exactly that
/// row, and two resolutions with any requested toggles agree.
pub proof fn lemma_defaults_ignore_requested(
    os: Os,
    arch: Arch,
    requested1: Features,
    requested2: Features,
    options: BuildOptions,
)
    requires
        defaults_row(os, arch) is Some,
    ensures
        resolved(os, arch, requested1, options, true) == resolved(
            os,
            arch,
            requested2,
            options,
            true,
        ),
        resolved(os, arch, requested1, options, true) == Ok::<PlatformProfile, BuildError>(
            PlatformProfile { os, arch, features: defaults_row(os, arch).unwrap(), options },
        ),
{
}

/// With platform defaults applied, a pair without a row is refused, and no
/// profile at all comes back.
pub proof fn lemma_unsupported_platform(
    os: Os,
    arch: Arch,
    requested: Features,
    options: BuildOptions,
)
    requires
        defaults_row(os, arch) is None,
    ensures
        resolved(os, arch, requested, options, true) == Err::<PlatformProfile, BuildError>(
            BuildError::UnsupportedPlatform,
        ),
{
}

/// The table has rows for exactly five pairs: every pair with an unknown
/// operating system, and Windows on Aarch64, have none.
pub proof fn lemma_table_rows(os: Os, arch: Arch)
    ensures
        defaults_row(os, arch) is Some <==> (os != Os::Unknown && !(os == Os::Win && arch
            == Arch::Aarch64)),
{
}

/// Without platform defaults, at most one OpenMP runtime is on whenever at most one
/// was requested.
pub proof fn lemma_openmp_exclusive(os: Os, requested: Features)
    requires
        !(requested.openmp_comp && requested.openmp_intel),
    ensures
        !(infer_features(os, requested).openmp_comp && infer_features(os, requested).openmp_intel),
{
}

} // verus!
