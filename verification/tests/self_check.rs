//! What the self-check lets through and what it refuses.

use gigatoken_fastpath::encoder::{GigatokenEncoder, VocabularyLoad};
use gigatoken_fastpath::instance::{encode_step, Instance};
use gigatoken_fastpath::parity::{
    compare_probe, compare_readings, self_check, Refusal, PARITY_PROBES,
};
use tokenizers::Tokenizer;

/// The characters that byte-level vocabularies use for the 256 bytes.
fn byte_chars() -> Vec<char> {
    let mut chars = Vec::new();
    let mut next = 256u32;
    for byte in 0u32..256 {
        let printable = (33..=126).contains(&byte)
            || (161..=172).contains(&byte)
            || (174..=255).contains(&byte);
        let code = if printable {
            byte
        } else {
            next += 1;
            next - 1
        };
        chars.push(char::from_u32(code).expect("a scalar value"));
    }
    chars
}

/// A `tokenizer.json` with one token per byte; byte `b` has id `b`.
fn byte_level_json(truncation: &str, padding: &str, post_processor: &str) -> String {
    let mut vocab = String::new();
    for (id, c) in byte_chars().iter().enumerate() {
        if id > 0 {
            vocab.push(',');
        }
        let key = match c {
            '"' => "\\\"".to_string(),
            '\\' => "\\\\".to_string(),
            other => other.to_string(),
        };
        vocab.push_str(&format!("\"{key}\":{id}"));
    }
    let pre_tokenizer = r#"{"type":"ByteLevel","add_prefix_space":false,"trim_offsets":true,"use_regex":false}"#;
    let model = format!(
        r#"{{"type":"BPE","dropout":null,"unk_token":null,"continuing_subword_prefix":null,"end_of_word_suffix":null,"fuse_unk":false,"byte_fallback":false,"ignore_merges":false,"vocab":{{{vocab}}},"merges":[]}}"#
    );
    format!(
        r#"{{"version":"1.0","truncation":{truncation},"padding":{padding},"added_tokens":[],"normalizer":null,"pre_tokenizer":{pre_tokenizer},"post_processor":{post_processor},"decoder":null,"model":{model}}}"#
    )
}

const ADDS_BOS: &str = r#"{"type":"TemplateProcessing","single":[{"SpecialToken":{"id":"<s>","type_id":0}},{"Sequence":{"id":"A","type_id":0}}],"pair":[{"Sequence":{"id":"A","type_id":0}},{"Sequence":{"id":"B","type_id":1}}],"special_tokens":{"<s>":{"id":"<s>","ids":[300],"tokens":["<s>"]}}}"#;

fn tokenizer(json: &str) -> Tokenizer {
    Tokenizer::from_bytes(json.as_bytes()).expect("a tokenizer")
}

fn reference_ids(hf: &Tokenizer, text: &str, add_special_tokens: bool) -> Vec<u32> {
    hf.encode(text, add_special_tokens)
        .expect("reference encode")
        .get_ids()
        .to_vec()
}

/// A fast tokenizer for the byte-level vocabulary, written independently.
struct Bytes {
    calls: u64,
}

fn fork(_base: &Bytes) -> Bytes {
    Bytes { calls: 0 }
}

fn run(instance: Instance<'_, Bytes>, text: &str) -> Vec<u32> {
    instance.0.calls += 1;
    text.bytes().map(u32::from).collect()
}

fn no_batch(_workers: &(), _proto: &Bytes, _inputs: &[&str]) -> (Vec<u32>, Vec<i64>) {
    (Vec::new(), Vec::new())
}

fn plain() -> Tokenizer {
    tokenizer(&byte_level_json("null", "null", "null"))
}

#[test]
fn agreeing_tokenizers_pass() {
    let base = Bytes { calls: 0 };
    assert_eq!(self_check(&plain(), &base, &fork, &run), Ok(()));
    assert_eq!(base.calls, 0);
}

#[test]
fn reference_tokens_are_the_bytes_of_each_probe() {
    let hf = plain();
    for probe in PARITY_PROBES {
        let bytes: Vec<u32> = probe.bytes().map(u32::from).collect();
        assert_eq!(reference_ids(&hf, probe, true), bytes);
        assert_eq!(reference_ids(&hf, probe, false), bytes);
    }
}

#[test]
fn there_are_thirteen_probes_and_the_first_two_are_blank() {
    assert_eq!(PARITY_PROBES.len(), 13);
    assert_eq!(PARITY_PROBES[0], "");
    assert_eq!(PARITY_PROBES[1], " ");
    assert_eq!(PARITY_PROBES[12], "<tool_call>{\"name\": \"get_weather\"}</tool_call>");
}

#[test]
fn truncation_is_refused_outright() {
    let truncation =
        r#"{"direction":"Right","max_length":100000,"strategy":"LongestFirst","stride":0}"#;
    let hf = tokenizer(&byte_level_json(truncation, "null", "null"));
    let refused = self_check(&hf, &Bytes { calls: 0 }, &fork, &run);
    assert_eq!(refused, Err(Refusal::TruncationOrPadding));
}

#[test]
fn padding_is_refused_outright() {
    let padding = r#"{"strategy":"BatchLongest","direction":"Right","pad_to_multiple_of":null,"pad_id":0,"pad_type_id":0,"pad_token":"[PAD]"}"#;
    let hf = tokenizer(&byte_level_json("null", padding, "null"));
    let refused = self_check(&hf, &Bytes { calls: 0 }, &fork, &run);
    assert_eq!(refused, Err(Refusal::TruncationOrPadding));
}

#[test]
fn added_special_tokens_are_refused() {
    let hf = tokenizer(&byte_level_json("null", "null", ADDS_BOS));
    let refused = self_check(&hf, &Bytes { calls: 0 }, &fork, &run);
    assert_eq!(refused, Err(Refusal::SpecialTokensAdded { probe: 0 }));
}

#[test]
fn failing_reference_is_refused_at_the_probe_it_fails_on() {
    let json = r#"{"version":"1.0","truncation":null,"padding":null,"added_tokens":[],"normalizer":null,"pre_tokenizer":{"type":"Whitespace"},"post_processor":null,"decoder":null,"model":{"type":"WordLevel","vocab":{"a":0},"unk_token":"[UNK]"}}"#;
    let hf = tokenizer(json);
    let nothing = |_instance: Instance<'_, Bytes>, _text: &str| -> Vec<u32> { Vec::new() };
    let refused = self_check(&hf, &Bytes { calls: 0 }, &fork, &nothing);
    let error = hf.encode(PARITY_PROBES[2], true).expect_err("fails").to_string();
    assert!(error.contains("[UNK]"));
    assert_eq!(refused, Err(Refusal::ReferenceFailed { probe: 2, error }));
}

#[test]
fn differing_tokens_are_refused_at_the_first_probe_that_differs() {
    let drops_non_ascii = |_instance: Instance<'_, Bytes>, text: &str| -> Vec<u32> {
        text.bytes().filter(u8::is_ascii).map(u32::from).collect()
    };
    let refused = self_check(&plain(), &Bytes { calls: 0 }, &fork, &drops_non_ascii);
    assert_eq!(
        refused,
        Err(Refusal::ParityFailed {
            probe: 6,
            reference_len: 39,
            fast_len: 0,
        })
    );

    let one_off = |_instance: Instance<'_, Bytes>, text: &str| -> Vec<u32> {
        text.bytes().map(|b| u32::from(b) + 1).collect()
    };
    let refused = self_check(&plain(), &Bytes { calls: 0 }, &fork, &one_off);
    assert_eq!(
        refused,
        Err(Refusal::ParityFailed {
            probe: 1,
            reference_len: 1,
            fast_len: 1,
        })
    );
}

#[test]
fn one_instance_runs_all_probes() {
    let counts_calls = |instance: Instance<'_, Bytes>, text: &str| -> Vec<u32> {
        assert_eq!(text, PARITY_PROBES[instance.0.calls as usize]);
        instance.0.calls += 1;
        text.bytes().map(u32::from).collect()
    };
    assert_eq!(self_check(&plain(), &Bytes { calls: 0 }, &fork, &counts_calls), Ok(()));
}

#[test]
fn vocabularies_that_were_not_loaded_are_refused() {
    let hf = plain();
    let cases = [
        (VocabularyLoad::Unreadable, Refusal::Unreadable),
        (VocabularyLoad::NotLoaded, Refusal::NotLoaded),
        (VocabularyLoad::SentencePiece, Refusal::SentencePiece),
    ];
    for (load, refusal) in cases {
        let made = GigatokenEncoder::try_new(load, &hf, fork, run, no_batch, (), None);
        assert_eq!(made.err(), Some(refusal));
    }
}

#[test]
fn a_refusal_by_the_self_check_leaves_no_encoder() {
    let hf = tokenizer(&byte_level_json("null", "null", ADDS_BOS));
    let load = VocabularyLoad::Bpe(Bytes { calls: 0 });
    let made = GigatokenEncoder::try_new(load, &hf, fork, run, no_batch, (), None);
    assert_eq!(made.err(), Some(Refusal::SpecialTokensAdded { probe: 0 }));
}

#[test]
fn readings_have_to_agree() {
    assert_eq!(compare_readings(3, &vec![1, 2], &vec![1, 2]), Ok(()));
    assert_eq!(compare_readings(3, &vec![], &vec![]), Ok(()));
    for with_special in [vec![9, 1, 2], vec![1, 3], vec![]] {
        assert_eq!(
            compare_readings(3, &with_special, &vec![1, 2]),
            Err(Refusal::SpecialTokensAdded { probe: 3 })
        );
    }
}

#[test]
fn one_probe_holds_composed_letters_and_combining_marks() {
    assert_eq!(PARITY_PROBES[8], "combining: éé àà ñ e\u{301} a\u{300} n\u{303}");
    assert!(PARITY_PROBES[8].starts_with("combining: \u{e9}\u{e9} \u{e0}\u{e0} \u{f1}"));
    // A tokenizer that composes them first is told apart.
    let composes = |_instance: Instance<'_, Bytes>, text: &str| -> Vec<u32> {
        let composed = text
            .replace("e\u{301}", "\u{e9}")
            .replace("a\u{300}", "\u{e0}")
            .replace("n\u{303}", "\u{f1}");
        composed.bytes().map(u32::from).collect()
    };
    let refused = self_check(&plain(), &Bytes { calls: 0 }, &fork, &composes);
    assert_eq!(
        refused,
        Err(Refusal::ParityFailed {
            probe: 8,
            reference_len: 35,
            fast_len: 32,
        })
    );
    // So is one that takes composed letters apart.
    let decomposes = |_instance: Instance<'_, Bytes>, text: &str| -> Vec<u32> {
        text.replace("\u{f1}", "n\u{303}").bytes().map(u32::from).collect()
    };
    let refused = self_check(&plain(), &Bytes { calls: 0 }, &fork, &decomposes);
    assert_eq!(
        refused,
        Err(Refusal::ParityFailed {
            probe: 8,
            reference_len: 35,
            fast_len: 36,
        })
    );
}

#[test]
fn an_instance_that_goes_wrong_later_is_refused_there() {
    let tires = |instance: Instance<'_, Bytes>, text: &str| -> Vec<u32> {
        instance.0.calls += 1;
        if instance.0.calls > 5 {
            return vec![];
        }
        text.bytes().map(u32::from).collect()
    };
    let refused = self_check(&plain(), &Bytes { calls: 0 }, &fork, &tires);
    assert_eq!(
        refused,
        Err(Refusal::ParityFailed {
            probe: 5,
            reference_len: 25,
            fast_len: 0,
        })
    );
}

#[test]
fn the_loaded_vocabulary_decides() {
    // The fork hands on what was loaded; a vocabulary that is off by one is
    // refused, the other one engages.
    let copy = |base: &Bytes| -> Bytes { Bytes { calls: base.calls } };
    let shifted = |instance: Instance<'_, Bytes>, text: &str| -> Vec<u32> {
        text.bytes()
            .map(|b| u32::from(b) + instance.0.calls as u32)
            .collect()
    };
    assert_eq!(self_check(&plain(), &Bytes { calls: 0 }, &copy, &shifted), Ok(()));
    assert_eq!(
        self_check(&plain(), &Bytes { calls: 1 }, &copy, &shifted),
        Err(Refusal::ParityFailed {
            probe: 1,
            reference_len: 1,
            fast_len: 1,
        })
    );
}

#[test]
fn a_step_gives_the_instance_back_as_the_call_left_it() {
    let (ids, after) = encode_step(&run, Bytes { calls: 4 }, "ab");
    assert_eq!(ids, [97, 98]);
    assert_eq!(after.calls, 5);
}

#[test]
fn probes_are_served_the_reference_tokens() {
    let hf = plain();
    let load = VocabularyLoad::Bpe(Bytes { calls: 0 });
    let made = GigatokenEncoder::try_new(load, &hf, fork, run, no_batch, (), Some("2"));
    let encoder = made.ok().expect("engaged");
    for probe in PARITY_PROBES {
        let ids = encoder.encode(probe).expect("served");
        assert_eq!(ids, reference_ids(&hf, probe, true));
        assert_eq!(ids, reference_ids(&hf, probe, false));
    }
}

#[test]
fn a_probe_passes_only_on_equal_ids() {
    assert_eq!(compare_probe(4, &vec![1, 2], &vec![1, 2]), Ok(()));
    assert_eq!(
        compare_probe(4, &vec![1, 2], &vec![1]),
        Err(Refusal::ParityFailed {
            probe: 4,
            reference_len: 2,
            fast_len: 1,
        })
    );
}
