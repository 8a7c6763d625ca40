//! The contract of the fast path against real HuggingFace tokenizers: tokens
//! are identical to the HuggingFace tokenizer, always, whether or not the fast
//! path engaged, and it refuses to engage where it cannot be shown equivalent.

use gigatoken_fastpath::encoder::{GigatokenEncoder, VocabularyLoad};
use gigatoken_fastpath::instance::Instance;
use gigatoken_fastpath::parity::Refusal;
use gigatoken_fastpath::settings::fast_path_requested;
use tokenizers::Tokenizer;

/// The characters that byte-level vocabularies use for the 256 bytes.
fn byte_chars() -> Vec<char> {
    let mut chars = Vec::new();
    let mut next = 256u32;
    for byte in 0u32..256 {
        let printable = (33..=126).contains(&byte)
            || (161..=172).contains(&byte)
            || (174..=255).contains(&byte);
        let code = if printable {
            byte
        } else {
            next += 1;
            next - 1
        };
        chars.push(char::from_u32(code).expect("a scalar value"));
    }
    chars
}

/// A `tokenizer.json` with one token per byte; byte `b` has id `b`.
fn byte_level_json(truncation: &str, padding: &str, post_processor: &str) -> String {
    let mut vocab = String::new();
    for (id, c) in byte_chars().iter().enumerate() {
        if id > 0 {
            vocab.push(',');
        }
        let key = match c {
            '"' => "\\\"".to_string(),
            '\\' => "\\\\".to_string(),
            other => other.to_string(),
        };
        vocab.push_str(&format!("\"{key}\":{id}"));
    }
    let pre_tokenizer = r#"{"type":"ByteLevel","add_prefix_space":false,"trim_offsets":true,"use_regex":false}"#;
    let model = format!(
        r#"{{"type":"BPE","dropout":null,"unk_token":null,"continuing_subword_prefix":null,"end_of_word_suffix":null,"fuse_unk":false,"byte_fallback":false,"ignore_merges":false,"vocab":{{{vocab}}},"merges":[]}}"#
    );
    format!(
        r#"{{"version":"1.0","truncation":{truncation},"padding":{padding},"added_tokens":[],"normalizer":null,"pre_tokenizer":{pre_tokenizer},"post_processor":{post_processor},"decoder":null,"model":{model}}}"#
    )
}

const ADDS_BOS: &str = r#"{"type":"TemplateProcessing","single":[{"SpecialToken":{"id":"<s>","type_id":0}},{"Sequence":{"id":"A","type_id":0}}],"pair":[{"Sequence":{"id":"A","type_id":0}},{"Sequence":{"id":"B","type_id":1}}],"special_tokens":{"<s>":{"id":"<s>","ids":[300],"tokens":["<s>"]}}}"#;

fn tokenizer(json: &str) -> Tokenizer {
    Tokenizer::from_bytes(json.as_bytes()).expect("a tokenizer")
}

fn reference_ids(hf: &Tokenizer, text: &str, add_special_tokens: bool) -> Vec<u32> {
    hf.encode(text, add_special_tokens)
        .expect("reference encode")
        .get_ids()
        .to_vec()
}

/// A fast tokenizer for the byte-level vocabulary, written independently.
struct Bytes {
    calls: u64,
}

fn fork(_base: &Bytes) -> Bytes {
    Bytes { calls: 0 }
}

fn run(instance: Instance<'_, Bytes>, text: &str) -> Vec<u32> {
    instance.0.calls += 1;
    text.bytes().map(u32::from).collect()
}

/// Encodes each document in turn into one flat buffer.
fn ragged(_workers: &(), _proto: &Bytes, inputs: &[&str]) -> (Vec<u32>, Vec<i64>) {
    let mut ids = Vec::new();
    let mut lens = Vec::new();
    for input in inputs {
        ids.extend(input.bytes().map(u32::from));
        lens.push(input.len() as i64);
    }
    (ids, lens)
}

/// Inputs chosen to hit the places byte-level BPE implementations disagree:
/// empty/whitespace, control bytes, the ASCII/non-ASCII boundary the scan hops
/// over, multi-codepoint grapheme clusters, RTL, combining marks, and
/// chat-template markers (added tokens, not ordinary merges).
fn corpus() -> Vec<String> {
    let mut v: Vec<String> = [
        "",
        " ",
        "\n",
        "\t\t\n\r\n  ",
        "a",
        "Hello, world!",
        "fn main() { let x: Vec<u32> = vec![1, 2, 3]; }",
        "  \t\n\n   trailing and   repeated   whitespace \n",
        "0123456789 1234 99999 007 3.14159 1e-9 0xDEADBEEF",
        "日本語のテキストと中文混排とハングル한국어",
        "emoji: 👨‍👩‍👧‍👦 🇯🇵 🏳️‍🌈 🚀🚀🚀",
        "combining: éé àà ñ ǅǆ ﬁﬂ",
        "עברית وعربي RTL text mixed with LTR",
        "<|system|>\nYou are helpful.<|user|>\nhi<|assistant|>\n",
        "[gMASK]<sop><|user|>\nwrite a haiku<|assistant|>\n<think>",
        "<tool_call>{\"name\": \"get_weather\"}</tool_call>",
        "control\u{0}bytes\u{1}and\u{1f}del\u{7f}here",
        "\u{feff}BOM-prefixed text",
        "replacement chars: \u{fffd}\u{fffd}\u{fffd}",
    ]
    .iter()
    .map(|s| (*s).to_owned())
    .collect();

    // Length sweep across the 16- and 32-byte scan windows and well past them,
    // including exact multiples and one-off from multiples.
    for n in [1usize, 15, 16, 17, 31, 32, 33, 63, 64, 255, 4096, 65_536] {
        v.push("a".repeat(n));
        v.push("あ".repeat(n));
        v.push(format!("{} tail", "word ".repeat(n)));
    }
    v
}

type Run = fn(Instance<'_, Bytes>, &str) -> Vec<u32>;
type Ragged = fn(&(), &Bytes, &[&str]) -> (Vec<u32>, Vec<i64>);
type Encoder = GigatokenEncoder<Bytes, (), Run, Ragged>;

/// An encoder over the byte-level fast tokenizer.
fn engage(hf: &Tokenizer) -> Result<Encoder, Refusal> {
    let load = VocabularyLoad::Bpe(Bytes { calls: 0 });
    GigatokenEncoder::try_new(load, hf, fork, run as Run, ragged as Ragged, (), None)
}

/// A HuggingFace tokenizer, with the fast path in front where the setting asks
/// for it and the self-check lets it.
struct Routed {
    hf: Tokenizer,
    fast: Option<Encoder>,
}

fn load(json: &str, backend: Option<&str>) -> Routed {
    let hf = tokenizer(json);
    let fast = if fast_path_requested(backend) {
        engage(&hf).ok()
    } else {
        None
    };
    Routed { hf, fast }
}

impl Routed {
    fn encode(&self, text: &str, add_special_tokens: bool) -> Vec<u32> {
        let served = self.fast.as_ref().and_then(|fast| fast.encode(text));
        served.unwrap_or_else(|| reference_ids(&self.hf, text, add_special_tokens))
    }

    fn encode_batch(&self, texts: &[&str]) -> Vec<Vec<u32>> {
        let served = self
            .fast
            .as_ref()
            .and_then(|fast| fast.encode_batch(texts));
        served.unwrap_or_else(|| {
            texts
                .iter()
                .map(|text| reference_ids(&self.hf, text, false))
                .collect()
        })
    }
}

fn load_pair(json: &str) -> (Routed, Routed) {
    (load(json, None), load(json, Some("gigatoken")))
}

fn assert_parity(reference: &Routed, candidate: &Routed, label: &str) {
    for (i, case) in corpus().iter().enumerate() {
        for add_special in [false, true] {
            assert_eq!(
                reference.encode(case, add_special),
                candidate.encode(case, add_special),
                "[{label}] token mismatch on case {i} (len {}, add_special_tokens={add_special})",
                case.len()
            );
        }
    }
}

/// The post-processor adds a first token here, so the fast path is refused and
/// every call falls back.
#[test]
fn tokens_match_huggingface_on_cached_tokenizer() {
    let json = byte_level_json("null", "null", ADDS_BOS);
    let (reference, candidate) = load_pair(&json);
    assert!(candidate.fast.is_none());
    assert_eq!(candidate.encode("ab", true), vec![300, 97, 98]);
    assert_eq!(candidate.encode("ab", false), vec![97, 98]);
    assert_parity(&reference, &candidate, "adds a first token");
}

/// The fast path engages here.
#[test]
fn tokens_match_huggingface_on_opt_in_tokenizer() {
    let json = byte_level_json("null", "null", "null");
    let (reference, candidate) = load_pair(&json);
    assert!(candidate.fast.is_some());
    assert_parity(&reference, &candidate, "opt-in");
}

/// More threads than slots, and every thread gets the reference answer.
#[test]
fn concurrent_encode_is_correct_under_contention() {
    let json = byte_level_json("null", "null", "null");
    let (reference, candidate) = load_pair(&json);
    let fast = candidate.fast.expect("engaged");
    let cases = corpus();
    let expected: Vec<Vec<u32>> = cases.iter().map(|c| reference.encode(c, false)).collect();
    let threads = rayon::ThreadPoolBuilder::new()
        .num_threads(64)
        .build()
        .expect("threads");
    threads.scope(|scope| {
        for _ in 0..64 {
            scope.spawn(|_| {
                for (case, want) in cases.iter().zip(&expected) {
                    let got = fast.encode(case).expect("served");
                    assert_eq!(&got, want, "concurrent mismatch (len {})", case.len());
                }
            });
        }
    });
}

#[test]
fn absent_env_var_leaves_the_huggingface_path_untouched() {
    let json = byte_level_json("null", "null", "null");
    let (reference, _) = load_pair(&json);
    let plain = load(&json, None);
    assert!(plain.fast.is_none());
    for case in corpus() {
        assert_eq!(reference.encode(&case, true), plain.encode(&case, true));
    }
}

#[test]
fn unknown_backend_name_falls_back_cleanly() {
    let json = byte_level_json("null", "null", "null");
    let reference = load(&json, None);
    let candidate = load(&json, Some("definitely-not-a-backend"));
    assert!(candidate.fast.is_none());
    for case in corpus() {
        assert_eq!(reference.encode(&case, true), candidate.encode(&case, true));
    }
}

#[test]
fn batch_encode_matches_single_encode_and_huggingface() {
    let json = byte_level_json("null", "null", "null");
    let (reference, candidate) = load_pair(&json);
    assert!(candidate.fast.is_some());
    let cases = corpus();

    for batch_len in [1usize, 2, 3, 8, 64, cases.len()] {
        let batch: Vec<&str> = cases.iter().take(batch_len).map(String::as_str).collect();
        let got = candidate.encode_batch(&batch);
        assert_eq!(got.len(), batch.len(), "batch length changed");
        for (i, (ids, case)) in got.iter().zip(&batch).enumerate() {
            assert_eq!(
                ids,
                &reference.encode(case, false),
                "batch[{i}] of {batch_len} disagrees with HuggingFace (len {})",
                case.len()
            );
            assert_eq!(
                ids,
                &candidate.encode(case, false),
                "batch[{i}] of {batch_len} disagrees with its own single-encode path"
            );
        }
    }

    let mut rev: Vec<&str> = cases.iter().map(String::as_str).collect();
    rev.reverse();
    let got = candidate.encode_batch(&rev);
    for (ids, case) in got.iter().zip(&rev) {
        assert_eq!(ids, &reference.encode(case, false), "order-dependent batch result");
    }
}

/// The refusal behind the fallback names the first probe.
#[test]
fn added_first_token_is_refused_on_the_first_probe() {
    let hf = tokenizer(&byte_level_json("null", "null", ADDS_BOS));
    assert_eq!(engage(&hf).err(), Some(Refusal::SpecialTokensAdded { probe: 0 }));
}
