//! Native dependency acquisition and linking for the CTranslate2 inference library.
//!
//! Every decision of the build orchestration is a pure, verified function here:
//! resolving the platform profile, planning and retrying downloads, resolving
//! submodules, deriving the native build configuration, classifying artifacts
//! into a link plan, planning the export bundle and patching the runtime flags of
//! the generated build file. Performing the I/O is left to the caller.
use vstd::prelude::*;

pub mod artifacts;
pub mod config;
pub mod crt_patch;
pub mod export;
pub mod fetch;
pub mod linking;
pub mod native;
pub mod profile;
pub mod submodules;
pub mod text;
pub mod tokenizer;
pub mod vendor;

verus! {

/// Operating system family of the build target.
#[derive(Debug, Clone, Copy, PartialEq, Eq, Structural)]
pub enum Os {
    Win,
    Mac,
    Linux,
    Unknown,
}

/// CPU architecture of the build target.
#[derive(Debug, Clone, Copy, PartialEq, Eq, Structural)]
pub enum Arch {
    X86_64,
    Aarch64,
}

/// The ways a build step can fail.
#[derive(Debug, Clone, Copy, PartialEq, Eq, Structural)]
pub enum BuildError {
    /// No platform-defaults row exists for the (os, arch) pair.
    UnsupportedPlatform,
    /// Every attempt failed; carries the last status seen, if a response came.
    NetworkError { status: Option<u16> },
    /// The server answered 404: the resource does not exist, use another path.
    NotFound,
    /// The archive could not be decompressed or unpacked.
    ExtractionError,
    /// GPU acceleration was requested and no toolkit root was found.
    ToolkitNotFound,
    /// A remote query, a clone or a checkout of a submodule failed.
    SubmoduleResolutionError,
    /// The external build tool failed.
    BuildToolFailure,
}

} // verus!
