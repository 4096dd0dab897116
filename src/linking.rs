//! Link directives: the search paths and libraries handed to the linker, and the
//! directives that the enabled features require.
use vstd::prelude::*;

use crate::profile::{Features, no_features};
use crate::text::{concat, join_path, joined, owned};
use crate::{Arch, BuildError, Os};

verus! {

/// How a library is linked.
#[derive(Debug, Clone, Copy, PartialEq, Eq, Structural)]
pub enum LinkKind {
    Static,
    Dylib,
    Framework,
    /// The linker's own choice.
    Default,
}

/// One instruction to the linker.
#[derive(Debug, Clone, PartialEq, Eq)]
pub enum Directive {
    /// Add a directory to the library search path; `native` restricts it to
    /// native libraries.
    Search { path: String, native: bool },
    /// Link a library by its canonical name.
    Link { kind: LinkKind, name: String },
}

/// A directive, with its strings as character sequences.
pub enum DirectiveView {
    Search { path: Seq<char>, native: bool },
    Link { kind: LinkKind, name: Seq<char> },
}

impl View for Directive {
    type V = DirectiveView;

    open spec fn view(&self) -> DirectiveView {
        match self {
            Directive::Search { path, native } => DirectiveView::Search { path: path@, native: *native },
            Directive::Link { kind, name } => DirectiveView::Link { kind: *kind, name: name@ },
        }
    }
}

/// The views of a list of directives.
pub open spec fn views(ds: Seq<Directive>) -> Seq<DirectiveView> {
    ds.map_values(|d: Directive| d@)
}

pub open spec fn search(path: Seq<char>) -> DirectiveView {
    DirectiveView::Search { path, native: false }
}

pub open spec fn lib(kind: LinkKind, name: Seq<char>) -> DirectiveView {
    DirectiveView::Link { kind, name }
}

/// The search paths under a GPU toolkit root.
pub open spec fn cuda_search_paths(root: Option<Seq<char>>) -> Seq<DirectiveView> {
    match root {
        Some(r) => seq![
            search(joined(r, "lib"@)),
            search(joined(r, "lib64"@)),
            search(joined(r, "lib/x64"@)),
        ],
        None => Seq::empty(),
    }
}

/// The GPU libraries a static build links.
pub open spec fn cuda_links(os: Os, f: Features, root: Option<Seq<char>>, shared: bool) -> Seq<
    DirectiveView,
> {
    if f.cuda && !shared {
        cuda_search_paths(root) + seq![lib(LinkKind::Static, "cudart_static"@)] + (if f.cudnn {
            seq![lib(LinkKind::Default, "cudnn"@)]
        } else {
            Seq::empty()
        }) + (if f.cuda_dynamic_loading {
            Seq::empty()
        } else if os == Os::Win {
            seq![lib(LinkKind::Static, "cublas"@), lib(LinkKind::Static, "cublasLt"@)]
        } else {
            seq![
                lib(LinkKind::Static, "cublas_static"@),
                lib(LinkKind::Static, "cublasLt_static"@),
                lib(LinkKind::Static, "culibos"@),
            ]
        })
    } else {
        Seq::empty()
    }
}

/// The OpenMP runtime a static build links.
pub open spec fn openmp_links(os: Os, f: Features, shared: bool) -> Seq<DirectiveView> {
    if f.openmp_comp && !shared {
        seq![lib(LinkKind::Default, "gomp"@)]
    } else if f.openmp_intel && !shared {
        if os == Os::Win {
            seq![lib(LinkKind::Dylib, "libiomp5md"@)]
        } else {
            seq![lib(LinkKind::Default, "iomp5"@)]
        }
    } else {
        Seq::empty()
    }
}

/// The directives that the enabled features require.
pub open spec fn feature_links(os: Os, f: Features, root: Option<Seq<char>>, shared: bool) -> Seq<
    DirectiveView,
> {
    cuda_links(os, f, root, shared) + (if f.openblas && !shared {
        seq![lib(LinkKind::Static, "openblas"@)]
    } else {
        Seq::empty()
    }) + (if f.accelerate {
        seq![lib(LinkKind::Framework, "Accelerate"@)]
    } else {
        Seq::empty()
    }) + openmp_links(os, f, shared)
}

/// The features that the published prebuilt bundle of each platform was built
/// with, and so must be linked with; `None` for a platform without a bundle.
/// These rows describe the released archives, not the platform defaults of a
/// build from source (`profile::defaults_row`), and differ from them where the
/// bundles were built otherwise.
pub open spec fn vendor_features(os: Os, arch: Arch) -> Option<Features> {
    match (os, arch) {
        (Os::Win, Arch::X86_64) => Some(
            Features {
                cuda: true,
                cudnn: true,
                cuda_dynamic_loading: true,
                dnnl: true,
                openmp_intel: true,
                ..no_features()
            },
        ),
        (Os::Mac, Arch::Aarch64) => Some(Features { accelerate: true, ..no_features() }),
        (Os::Linux, Arch::Aarch64) => Some(
            Features { openblas: true, openmp_comp: true, ..no_features() },
        ),
        (Os::Mac, Arch::X86_64) => Some(
            Features { dnnl: true, openmp_intel: true, ..no_features() },
        ),
        (Os::Linux, Arch::X86_64) => Some(
            Features {
                cuda: true,
                cudnn: true,
                cuda_dynamic_loading: true,
                openmp_comp: true,
                ..no_features()
            },
        ),
        _ => None,
    }
}

fn push_link(ds: &mut Vec<Directive>, kind: LinkKind, name: &str)
    ensures
        views(final(ds)@) == views(old(ds)@).push(lib(kind, name@)),
{
    ds.push(Directive::Link { kind, name: owned(name) });
    assert(views(final(ds)@) =~= views(old(ds)@).push(lib(kind, name@)));
}

fn push_search(ds: &mut Vec<Directive>, path: String)
    ensures
        views(final(ds)@) == views(old(ds)@).push(search(path@)),
{
    ds.push(Directive::Search { path, native: false });
    assert(views(final(ds)@) =~= views(old(ds)@).push(search(path@)));
}

fn cuda_directives(
    ds: &mut Vec<Directive>,
    os: Os,
    features: &Features,
    cuda_root: Option<&str>,
    shared: bool,
)
    ensures
        views(final(ds)@) == views(old(ds)@) + cuda_links(
            os,
            *features,
            match cuda_root {
                Some(r) => Some(r@),
                None => None,
            },
            shared,
        ),
{
    let ghost start = views(ds@);
    if features.cuda && !shared {
        match cuda_root {
            Some(root) => {
                push_search(ds, join_path(root, "lib"));
                push_search(ds, join_path(root, "lib64"));
                push_search(ds, join_path(root, "lib/x64"));
            },
            None => {},
        }
        push_link(ds, LinkKind::Static, "cudart_static");
        if features.cudnn {
            push_link(ds, LinkKind::Default, "cudnn");
        }
        if !features.cuda_dynamic_loading {
            if os == Os::Win {
                push_link(ds, LinkKind::Static, "cublas");
                push_link(ds, LinkKind::Static, "cublasLt");
            } else {
                push_link(ds, LinkKind::Static, "cublas_static");
                push_link(ds, LinkKind::Static, "cublasLt_static");
                push_link(ds, LinkKind::Static, "culibos");
            }
        }
    }
    assert(views(ds@) =~= start + cuda_links(
        os,
        *features,
        match cuda_root {
            Some(r) => Some(r@),
            None => None,
        },
        shared,
    ));
}

/// The directives that the enabled features require: the GPU libraries (with the
/// search paths under `cuda_root`, when it is known), a math backend and an
/// OpenMP runtime, the latter only for a static build.
pub fn link(os: Os, features: &Features, cuda_root: Option<&str>, shared: bool) -> (r: Vec<
    Directive,
>)
    ensures
        views(r@) == feature_links(
            os,
            *features,
            match cuda_root {
                Some(s) => Some(s@),
                None => None,
            },
            shared,
        ),
{
    let mut ds: Vec<Directive> = Vec::new();
    cuda_directives(&mut ds, os, features, cuda_root, shared);
    let ghost after_cuda = views(ds@);
    if features.openblas && !shared {
        push_link(&mut ds, LinkKind::Static, "openblas");
    }
    if features.accelerate {
        push_link(&mut ds, LinkKind::Framework, "Accelerate");
    }
    let ghost before_openmp = views(ds@);
    if features.openmp_comp && !shared {
        push_link(&mut ds, LinkKind::Default, "gomp");
    } else if features.openmp_intel && !shared {
        if os == Os::Win {
            push_link(&mut ds, LinkKind::Dylib, "libiomp5md");
        } else {
            push_link(&mut ds, LinkKind::Default, "iomp5");
        }
    }
    assert(views(ds@) =~= before_openmp + openmp_links(os, *features, shared));
    assert(views(ds@) =~= feature_links(
        os,
        *features,
        match cuda_root {
            Some(s) => Some(s@),
            None => None,
        },
        shared,
    ));
    ds
}

/// The directives that a prebuilt bundle for the platform requires. A platform
/// without a bundle is refused.
pub fn link_vendor(os: Os, arch: Arch, shared: bool) -> (r: Result<Vec<Directive>, BuildError>)
    ensures
        match vendor_features(os, arch) {
            Some(f) => r matches Ok(ds) && views(ds@) == feature_links(os, f, None, shared),
            None => r == Err::<Vec<Directive>, BuildError>(BuildError::UnsupportedPlatform),
        },
{
    let none = crate::profile::Features::none();
    let features = match (os, arch) {
        (Os::Win, Arch::X86_64) => Features {
            cuda: true,
            cudnn: true,
            cuda_dynamic_loading: true,
            dnnl: true,
            openmp_intel: true,
            ..none
        },
        (Os::Mac, Arch::Aarch64) => Features { accelerate: true, ..none },
        (Os::Linux, Arch::Aarch64) => Features { openblas: true, openmp_comp: true, ..none },
        (Os::Mac, Arch::X86_64) => Features { dnnl: true, openmp_intel: true, ..none },
        (Os::Linux, Arch::X86_64) => Features {
            cuda: true,
            cudnn: true,
            cuda_dynamic_loading: true,
            openmp_comp: true,
            ..none
        },
        _ => {
            return Err(BuildError::UnsupportedPlatform);
        },
    };
    assert(vendor_features(os, arch) == Some(features));
    Ok(link(os, &features, None, shared))
}

/// The text of a directive in the build script protocol.
pub open spec fn directive_text(d: DirectiveView) -> Seq<char> {
    match d {
        DirectiveView::Search { path, native } => if native {
            "cargo:rustc-link-search=native="@ + path
        } else {
            "cargo:rustc-link-search="@ + path
        },
        DirectiveView::Link { kind, name } => match kind {
            LinkKind::Static => "cargo:rustc-link-lib=static="@ + name,
            LinkKind::Dylib => "cargo:rustc-link-lib=dylib="@ + name,
            LinkKind::Framework => "cargo:rustc-link-lib=framework="@ + name,
            LinkKind::Default => "cargo:rustc-link-lib="@ + name,
        },
    }
}

impl Directive {
    /// The line that hands this directive to the build system.
    pub fn to_line(&self) -> (r: String)
        ensures
            r@ == directive_text(self@),
    {
        match self {
            Directive::Search { path, native } => if *native {
                concat("cargo:rustc-link-search=native=", path.as_str())
            } else {
                concat("cargo:rustc-link-search=", path.as_str())
            },
            Directive::Link { kind, name } => match kind {
                LinkKind::Static => concat("cargo:rustc-link-lib=static=", name.as_str()),
                LinkKind::Dylib => concat("cargo:rustc-link-lib=dylib=", name.as_str()),
                LinkKind::Framework => concat("cargo:rustc-link-lib=framework=", name.as_str()),
                LinkKind::Default => concat("cargo:rustc-link-lib=", name.as_str()),
            },
        }
    }
}

} // verus!
