//! The decisions behind an optional fast path for prompt encoding.
//!
//! A gateway that serves a HuggingFace tokenizer may route prompt encoding to
//! a second, faster tokenizer. This crate decides whether that tokenizer may
//! serve at all, which of its pooled instances serves a call, how a ragged
//! batch result is cut into rows, and when latency is reported. The failure
//! mode is always to fall back to the HuggingFace tokenizer, never to serve
//! different tokens.
//!
//! The faster tokenizer itself is a type parameter: the callers hand in the
//! functions that fork it and run it.

pub mod disabled;
pub mod encoder;
pub mod instance;
pub mod parity;
pub mod ragged;
pub mod reference;
pub mod ring;
pub mod serving;
pub mod settings;
pub mod slots;
pub mod timing;
