//! The build without the fast path.

use gigatoken_fastpath::disabled::{fast_path_requested, GigatokenEncoder};
use tokenizers::models::bpe::BPE;
use tokenizers::Tokenizer;

#[test]
fn the_fast_path_is_never_requested() {
    assert!(!fast_path_requested(None));
    assert!(!fast_path_requested(Some("gigatoken")));
}

#[test]
fn no_encoder_is_ever_made() {
    let hf = Tokenizer::new(BPE::default());
    assert!(GigatokenEncoder::try_new("tokenizer.json", &hf).is_none());
}
