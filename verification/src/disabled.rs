//! The encoder of a build without the fast path.
//!
//! It has the shape of the real encoder, so that callers need no branches on
//! the build: the fast path is never requested, no encoder is ever made, and
//! the encoder type has no values.

use std::convert::Infallible;
use tokenizers::Tokenizer;
use vstd::prelude::*;

verus! {

/// Whether the fast path is requested: never in this build.
pub fn fast_path_requested(_setting: Option<&str>) -> (requested: bool)
    ensures
        !requested,
{
    false
}

/// An encoder that cannot be made.
pub struct GigatokenEncoder {
    never: Infallible,
}

impl GigatokenEncoder {
    /// An encoder for a tokenizer: none in this build.
    pub fn try_new(_file_path: &str, _hf: &Tokenizer) -> (encoder: Option<GigatokenEncoder>)
        ensures
            encoder is None,
    {
        None
    }

    /// Unreachable: no value of this type can be made.
    pub fn encode(&self, _input: &str) -> (ids: Option<Vec<u32>>)
        ensures
            ids is None,
    {
        None
    }

    /// Unreachable: no value of this type can be made.
    pub fn encode_batch(&self, _inputs: &[&str]) -> (rows: Option<Vec<Vec<u32>>>)
        ensures
            rows is None,
    {
        None
    }
}

} // verus!
