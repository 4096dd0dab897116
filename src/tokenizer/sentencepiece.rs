//! A tokenizer made of two SentencePiece processors: one encodes the source
//! language, the other decodes the target language. The caller opens the model
//! files, which the processor type reads.
use vstd::prelude::*;

use crate::text::{join_path, joined};

verus! {

/// Two processors: `enc` for the source language, `dec` for the target.
pub struct Tokenizer<P> {
    pub enc: P,
    pub dec: P,
}

/// The model files of a tokenizer directory: `source.spm` and `target.spm`.
pub fn model_paths(path: &str) -> (r: (String, String))
    ensures
        r.0@ == joined(path@, "source.spm"@),
        r.1@ == joined(path@, "target.spm"@),
{
    (join_path(path, "source.spm"), join_path(path, "target.spm"))
}

impl<P> Tokenizer<P> {
    /// The tokenizer of the opened source and target models; when either failed
    /// to open, the source model's error comes first.
    pub fn from_file<E>(src: Result<P, E>, target: Result<P, E>) -> (r: Result<Self, E>)
        ensures
            match (src, target) {
                (Ok(a), Ok(b)) => r == Ok::<Self, E>(Tokenizer { enc: a, dec: b }),
                (Err(e), _) => r == Err::<Self, E>(e),
                (Ok(_), Err(e)) => r == Err::<Self, E>(e),
            },
    {
        let enc = match src {
            Ok(p) => p,
            Err(e) => {
                return Err(e);
            },
        };
        let dec = match target {
            Ok(p) => p,
            Err(e) => {
                return Err(e);
            },
        };
        Ok(Tokenizer { enc, dec })
    }
}

} // verus!
