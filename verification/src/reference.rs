//! The HuggingFace tokenizer, as the self-check reads it.

use tokenizers::Tokenizer;
use vstd::prelude::*;

verus! {

/// `tokenizers::Tokenizer`, opaque here.
#[verifier::external_type_specification]
#[verifier::external_body]
pub struct ExTokenizer(Tokenizer);

/// Whether a tokenizer has truncation parameters set.
pub uninterp spec fn truncation_configured(hf: Tokenizer) -> bool;

/// Whether a tokenizer has padding parameters set.
pub uninterp spec fn padding_configured(hf: Tokenizer) -> bool;

/// Whether `outcome` is a possible outcome of encoding `text`: the token ids,
/// or the text of an error. A tokenizer has more than one possible outcome only
/// where its model draws random numbers, as byte-pair dropout does. It has none
/// where the call does not return.
pub uninterp spec fn reference_can_yield(
    hf: Tokenizer,
    text: Seq<char>,
    add_special_tokens: bool,
    outcome: Result<Seq<u32>, Seq<char>>,
) -> bool;

/// Whether encoding `text` returns, with ids or with an error.
pub open spec fn reference_returns(
    hf: Tokenizer,
    text: Seq<char>,
    add_special_tokens: bool,
) -> bool {
    exists|outcome: Result<Seq<u32>, Seq<char>>| #[trigger]
        reference_can_yield(hf, text, add_special_tokens, outcome)
}

/// The view of the outcome of an encoding: its ids, or the text of the error.
pub open spec fn reading_view(reading: Result<Vec<u32>, String>) -> Result<Seq<u32>, Seq<char>> {
    match reading {
        Ok(ids) => Ok(ids@),
        Err(error) => Err(error@),
    }
}

/// Calls `TokenizerImpl::get_truncation`.
///
/// Believed of it: whether it returns parameters depends on the tokenizer
/// alone.
#[verifier::external_body]
pub(crate) fn has_truncation(hf: &Tokenizer) -> (set: bool)
    ensures
        set == truncation_configured(*hf),
{
    hf.get_truncation().is_some()
}

/// Calls `TokenizerImpl::get_padding`.
///
/// Believed of it: whether it returns parameters depends on the tokenizer
/// alone.
#[verifier::external_body]
pub(crate) fn has_padding(hf: &Tokenizer) -> (set: bool)
    ensures
        set == padding_configured(*hf),
{
    hf.get_padding().is_some()
}

/// Calls `TokenizerImpl::encode` on one raw text and reads the ids of the
/// encoding, or the text of the error.
///
/// Believed of it: the outcome is one of those that are possible for this
/// tokenizer, text and flag. Nothing is said of which one, since a model may
/// draw random numbers. A call that may not return is ruled out. With
/// truncation set, the call subtracts the number of added tokens from the
/// maximum length without a check. It panics where a post-processor template
/// names a second sequence or an undeclared special token, where a second
/// template in a chain of post-processors meets more pieces than it was made
/// for, and where a pre-tokenizer cuts pieces of length zero.
#[verifier::external_body]
pub(crate) fn encode_reference(hf: &Tokenizer, text: &str, add_special_tokens: bool) -> (reading:
    Result<Vec<u32>, String>)
    requires
        !truncation_configured(*hf),
        exists|outcome: Result<Seq<u32>, Seq<char>>| #[trigger]
            reference_can_yield(*hf, text@, add_special_tokens, outcome),
    ensures
        reference_can_yield(*hf, text@, add_special_tokens, reading_view(reading)),
{
    match hf.encode(text, add_special_tokens) {
        Ok(encoding) => Ok(encoding.get_ids().to_vec()),
        Err(error) => Err(error.to_string()),
    }
}

/// A reading is seen as it is: its ids, all of them, or the whole text of its
/// error.
pub proof fn readings_are_seen_as_they_are(ids: Vec<u32>, error: String)
    ensures
        reading_view(Ok(ids)) == Ok::<Seq<u32>, Seq<char>>(ids@),
        reading_view(Err(error)) == Err::<Seq<u32>, Seq<char>>(error@),
{
}

} // verus!
