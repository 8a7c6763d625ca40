//! What callers of the encoder can rely on, whatever slot serves them.

use gigatoken_fastpath::encoder::{GigatokenEncoder, VocabularyLoad};
use gigatoken_fastpath::instance::Instance;
use gigatoken_fastpath::parity::PARITY_PROBES;
use tokenizers::Tokenizer;

/// A vocabulary without words: any text but the empty one is the unknown token.
const UNKNOWN_ONLY: &str = r#"{"version":"1.0","truncation":null,"padding":null,"added_tokens":[],"normalizer":null,"pre_tokenizer":null,"post_processor":null,"decoder":null,"model":{"type":"WordLevel","vocab":{"[UNK]":5},"unk_token":"[UNK]"}}"#;

/// Keeps the texts it has encoded, as a cache would.
struct Caching {
    seen: Vec<String>,
}

type Run = fn(Instance<'_, Caching>, &str) -> Vec<u32>;
type Batch = fn(&(), &Caching, &[&str]) -> (Vec<u32>, Vec<i64>);
type Encoder = GigatokenEncoder<Caching, (), Run, Batch>;

/// The probes as the reference has them; any other text by its bytes.
fn vocabulary(text: &str) -> Vec<u32> {
    if text.is_empty() {
        vec![]
    } else if PARITY_PROBES.contains(&text) {
        vec![5]
    } else {
        text.bytes().map(u32::from).collect()
    }
}

fn run(instance: Instance<'_, Caching>, text: &str) -> Vec<u32> {
    instance.0.seen.push(text.to_string());
    vocabulary(text)
}

fn fork(_base: &Caching) -> Caching {
    Caching { seen: Vec::new() }
}

fn ragged(_workers: &(), proto: &Caching, inputs: &[&str]) -> (Vec<u32>, Vec<i64>) {
    assert!(proto.seen.is_empty());
    let rows: Vec<Vec<u32>> = inputs.iter().map(|input| vocabulary(input)).collect();
    let lens = rows.iter().map(|row| row.len() as i64).collect();
    (rows.concat(), lens)
}

fn encoder(slots: &str) -> Encoder {
    let hf = Tokenizer::from_bytes(UNKNOWN_ONLY.as_bytes()).expect("a tokenizer");
    let load = VocabularyLoad::Bpe(Caching { seen: Vec::new() });
    let made =
        GigatokenEncoder::try_new(load, &hf, fork, run as Run, ragged as Batch, (), Some(slots));
    made.ok().expect("engaged")
}

#[test]
fn the_same_text_is_served_the_same_ids() {
    let encoder = encoder("3");
    let texts = ["abc", "", "b", "abc", "\u{e9}", "abc", "b", "abc"];
    for text in texts {
        assert_eq!(encoder.encode(text), Some(vocabulary(text)));
    }
    assert_eq!(encoder.encode("abc"), Some(vec![97, 98, 99]));
}

#[test]
fn calls_at_the_same_time_are_served_the_same_ids() {
    let encoder = encoder("2");
    let threads = rayon::ThreadPoolBuilder::new()
        .num_threads(8)
        .build()
        .expect("threads");
    threads.scope(|scope| {
        for _ in 0..32 {
            scope.spawn(|_| {
                for text in ["abc", "", "b", "longer than that"] {
                    assert_eq!(encoder.encode(text), Some(vocabulary(text)));
                }
            });
        }
    });
}

#[test]
fn a_batch_of_one_is_a_single_encode() {
    let encoder = encoder("2");
    for text in ["abc", "", "b"] {
        let single = encoder.encode(text);
        assert_eq!(encoder.encode_batch(&[text]), single.map(|ids| vec![ids]));
    }
}

#[test]
fn reordered_inputs_give_reordered_rows() {
    let encoder = encoder("2");
    let inputs = ["a", "", "bcd", "a", "ef"];
    let rows = encoder.encode_batch(&inputs).expect("served");
    assert_eq!(rows[2], [98, 99, 100]);
    for order in [[4usize, 3, 2, 1, 0], [1, 0, 3, 4, 2]] {
        let reordered = order.map(|at| inputs[at]);
        let reordered_rows = encoder.encode_batch(&reordered).expect("served");
        for (row, at) in reordered_rows.iter().zip(order) {
            assert_eq!(row, &rows[at]);
        }
    }
}

#[test]
fn a_batch_that_is_cut_in_two_gives_the_same_rows() {
    let encoder = encoder("2");
    let inputs = ["a", "", "bcd", "a", "ef"];
    let rows = encoder.encode_batch(&inputs).expect("served");
    for cut in 0..=inputs.len() {
        let front = encoder.encode_batch(&inputs[..cut]).expect("served");
        let back = encoder.encode_batch(&inputs[cut..]).expect("served");
        assert_eq!([front, back].concat(), rows);
    }
}
