//! A tokenizer backed by a SentencePiece model read by the `rust_tokenizers`
//! crate.
use vstd::prelude::*;

use rust_tokenizers::tokenizer::Tokenizer as _;

use crate::submodules::{trim, trim_chars};
use crate::text::{chars_of, string_of};

verus! {

#[verifier::external_type_specification]
#[verifier::external_body]
pub struct ExSentencePieceTokenizer(rust_tokenizers::tokenizer::SentencePieceTokenizer);

/// Relies on `Tokenizer::tokenize` of `rust_tokenizers::tokenizer::SentencePieceTokenizer`: the pieces of
/// the text by the model.
#[verifier::external_body]
fn tokenize(spp: &rust_tokenizers::tokenizer::SentencePieceTokenizer, input: &str) -> (r: Vec<String>) {
    spp.tokenize(input)
}

/// The text of one piece: the model's word marker `▁` stands for a space.
pub open spec fn piece_text(p: Seq<char>) -> Seq<char> {
    p.map_values(|c: char| if c == '\u{2581}' { ' ' } else { c })
}

/// The pieces' texts, concatenated.
pub open spec fn pieces_text(ps: Seq<String>) -> Seq<char>
    decreases ps.len(),
{
    if ps.len() == 0 {
        Seq::empty()
    } else {
        pieces_text(ps.drop_last()) + piece_text(ps.last()@)
    }
}

/// Relies on `rust_tokenizers::tokenizer::SentencePieceTokenizer::convert_tokens_to_string`: each token with
/// `▁` replaced by a space, concatenated.
#[verifier::external_body]
fn detokenize(spp: &rust_tokenizers::tokenizer::SentencePieceTokenizer, tokens: Vec<String>) -> (r: String)
    ensures
        r@ == pieces_text(tokens@),
{
    spp.convert_tokens_to_string(tokens)
}

/// The token that ends every encoded sentence.
pub open spec fn end_token() -> Seq<char> {
    "</s>"@
}

/// A SentencePiece tokenizer whose encoded sentences end with `</s>`.
pub struct SentenceTokenizer {
    spp: rust_tokenizers::tokenizer::SentencePieceTokenizer,
}

impl SentenceTokenizer {
    /// A tokenizer over a SentencePiece model that the caller has loaded.
    pub fn new(spp: rust_tokenizers::tokenizer::SentencePieceTokenizer) -> (r: Self) {
        SentenceTokenizer { spp }
    }

    /// The model's pieces of `input`, followed by the end token.
    pub fn encode_tokens(&self, input: &str) -> (r: Vec<String>)
        ensures
            r.len() > 0,
            r@.last()@ == end_token(),
    {
        let mut tokens = tokenize(&self.spp, input);
        tokens.push(crate::text::owned("</s>"));
        tokens
    }

    /// The text of the tokens, without leading or trailing white space.
    pub fn decode_tokens(&self, tokens: Vec<String>) -> (r: String)
        ensures
            r@ == trim(pieces_text(tokens@)),
    {
        let text = detokenize(&self.spp, tokens);
        let chars = chars_of(text.as_str());
        let trimmed = trim_chars(&chars);
        string_of(&trimmed)
    }
}

impl crate::tokenizer::Tokenizer for SentenceTokenizer {
    fn encode(&self, input: &str) -> Result<Vec<String>, anyhow::Error> {
        Ok(self.encode_tokens(input))
    }

    fn decode(&self, tokens: Vec<String>) -> Result<String, anyhow::Error> {
        Ok(self.decode_tokens(tokens))
    }
}

} // verus!
