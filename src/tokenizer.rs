//! Tokenizers that turn text into the tokens a translation model reads, and
//! tokens back into text.
use vstd::prelude::*;

pub mod spm_model;
pub mod sentencepiece;

verus! {

#[verifier::external_type_specification]
#[verifier::external_body]
pub struct ExAnyhowError(anyhow::Error);

/// A tokenizer, implemented by users for their own models.
pub trait Tokenizer {
    /// Encodes a given string into a sequence of tokens.
    fn encode(&self, input: &str) -> Result<Vec<String>, anyhow::Error>;

    /// Decodes a given sequence of tokens back into a single string.
    fn decode(&self, tokens: Vec<String>) -> Result<String, anyhow::Error>;
}

/// Encodes every source in order; fails with the first error a source gives.
pub fn encode_all<T: Tokenizer>(tokenizer: &T, sources: &Vec<String>) -> (r: Result<
    Vec<Vec<String>>,
    anyhow::Error,
>)
    ensures
        r matches Ok(v) ==> v.len() == sources.len(),
{
    let mut out: Vec<Vec<String>> = Vec::new();
    let mut i: usize = 0;
    while i < sources.len()
        invariant
            i <= sources.len(),
            out.len() == i,
        decreases sources.len() - i,
    {
        match tokenizer.encode(sources[i].as_str()) {
            Ok(tokens) => out.push(tokens),
            Err(e) => {
                return Err(e);
            },
        }
        i = i + 1;
    }
    Ok(out)
}

} // verus!
