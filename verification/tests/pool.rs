//! The pooled encoder: which instance serves, and what becomes of a panic.

use gigatoken_fastpath::encoder::{GigatokenEncoder, VocabularyLoad};
use gigatoken_fastpath::instance::Instance;
use gigatoken_fastpath::slots::{try_take, wait_take};
use std::cell::Cell;
use std::sync::mpsc::{channel, Sender};
use std::sync::{Arc, Barrier, Mutex};
use tokenizers::Tokenizer;

/// A vocabulary without words: any text but the empty one is the unknown token.
const UNKNOWN_ONLY: &str = r#"{"version":"1.0","truncation":null,"padding":null,"added_tokens":[],"normalizer":null,"pre_tokenizer":null,"post_processor":null,"decoder":null,"model":{"type":"WordLevel","vocab":{"[UNK]":5},"unk_token":"[UNK]"}}"#;

/// An instance that knows its place in the order of forking.
struct Numbered {
    number: u32,
    hold: Arc<Barrier>,
}

type Run = fn(Instance<'_, Numbered>, &str) -> Vec<u32>;
type Batch = fn(&u8, &Numbered, &[&str]) -> (Vec<u32>, Vec<i64>);
type Encoder = GigatokenEncoder<Numbered, u8, Run, Batch>;

/// What the reference gives: nothing for the empty text, the unknown token for
/// any other; but a few texts ask for something else.
fn run(instance: Instance<'_, Numbered>, text: &str) -> Vec<u32> {
    match text {
        "" => vec![],
        "number" => vec![instance.0.number],
        "hold" => {
            instance.0.hold.wait();
            instance.0.hold.wait();
            vec![instance.0.number]
        }
        "break" => panic!("encode broke half-way"),
        _ => vec![5],
    }
}

fn not_for_batches(_: &u8, _: &Numbered, _: &[&str]) -> (Vec<u32>, Vec<i64>) {
    panic!("no batch is expected")
}

fn reference() -> Tokenizer {
    Tokenizer::from_bytes(UNKNOWN_ONLY.as_bytes()).expect("a tokenizer")
}

/// The first fork runs the probes; the pool holds the forks from number one.
fn pool(slots: &str, batch: Batch) -> (Encoder, Arc<Barrier>) {
    let hold = Arc::new(Barrier::new(2));
    let forks = Cell::new(0u32);
    let fork = |base: &Numbered| -> Numbered {
        forks.set(forks.get() + 1);
        Numbered {
            number: forks.get() - 1,
            hold: Arc::clone(&base.hold),
        }
    };
    let load = VocabularyLoad::Bpe(Numbered {
        number: 1000,
        hold: Arc::clone(&hold),
    });
    let made = GigatokenEncoder::try_new(load, &reference(), fork, run as Run, batch, 7, Some(slots));
    (made.ok().expect("engaged"), hold)
}

fn served(encoder: &Encoder, calls: usize) -> Vec<u32> {
    (0..calls)
        .map(|_| encoder.encode("number").expect("served")[0])
        .collect()
}

#[test]
fn calls_go_round_the_ring_of_slots() {
    let (encoder, _) = pool("3", not_for_batches);
    assert_eq!(served(&encoder, 7), [1, 2, 3, 1, 2, 3, 1]);
}

#[test]
fn the_pool_has_as_many_instances_as_asked_for() {
    for (setting, slots) in [(None, 8), (Some("3"), 3), (Some("0"), 1), (Some("many"), 8)] {
        let hold = Arc::new(Barrier::new(2));
        let forks = Cell::new(0u32);
        let fork = |base: &Numbered| -> Numbered {
            forks.set(forks.get() + 1);
            Numbered {
                number: 0,
                hold: Arc::clone(&base.hold),
            }
        };
        let load = VocabularyLoad::Bpe(Numbered { number: 0, hold });
        let made =
            GigatokenEncoder::try_new(load, &reference(), fork, run, not_for_batches, 7, setting);
        assert!(made.is_ok());
        assert_eq!(forks.get(), 1 + slots);
    }
}

#[test]
fn the_encoder_can_be_shared_between_threads() {
    fn shared<T: Send + Sync>(_: &T) {}
    shared(&pool("1", not_for_batches).0);
}

#[test]
fn a_slot_that_is_in_use_is_passed_over() {
    let (encoder, hold) = pool("3", not_for_batches);
    let threads = rayon::ThreadPoolBuilder::new()
        .num_threads(1)
        .build()
        .expect("threads");
    threads.in_place_scope(|scope| {
        scope.spawn(|_| {
            assert_eq!(encoder.encode("hold"), Some(vec![1]));
        });
        hold.wait();
        // Slot one is held: its turn goes to slot two.
        assert_eq!(served(&encoder, 5), [2, 3, 2, 2, 3]);
        hold.wait();
    });
}

#[test]
fn a_call_waits_where_every_slot_is_in_use() {
    let (encoder, hold) = pool("1", not_for_batches);
    let threads = rayon::ThreadPoolBuilder::new()
        .num_threads(2)
        .build()
        .expect("threads");
    threads.in_place_scope(|scope| {
        scope.spawn(|_| {
            assert_eq!(encoder.encode("hold"), Some(vec![1]));
        });
        hold.wait();
        scope.spawn(|_| {
            assert_eq!(encoder.encode("number"), Some(vec![1]));
        });
        hold.wait();
    });
}

#[test]
fn contended_calls_wait_instead_of_failing() {
    let (encoder, _) = pool("1", not_for_batches);
    let threads = rayon::ThreadPoolBuilder::new()
        .num_threads(16)
        .build()
        .expect("threads");
    threads.scope(|scope| {
        for _ in 0..64 {
            scope.spawn(|_| {
                assert_eq!(served(&encoder, 50), [1; 50]);
            });
        }
    });
}

/// Lets a panic escape from an encode on another thread.
fn break_next_slot(encoder: &Arc<Encoder>) {
    let threads = rayon::ThreadPoolBuilder::new()
        .num_threads(1)
        .panic_handler(|_| {})
        .build()
        .expect("threads");
    let (done, wait) = channel::<()>();
    let shared = Arc::clone(encoder);
    threads.spawn(move || {
        let _signal: Sender<()> = done;
        let _ = shared.encode("break");
    });
    assert!(wait.recv().is_err());
}

#[test]
fn an_instance_that_a_panic_escaped_from_is_never_reused() {
    let encoder = Arc::new(pool("3", not_for_batches).0);
    break_next_slot(&encoder);
    // Slot one is out of service: its turn goes to slot two.
    assert_eq!(served(&encoder, 5), [2, 3, 2, 2, 3]);
}

#[test]
fn one_healthy_slot_is_enough_for_calls_and_batches() {
    let encoder = Arc::new(pool("3", |_, _, _| (vec![1], vec![])).0);
    break_next_slot(&encoder);
    break_next_slot(&encoder);
    assert_eq!(served(&encoder, 4), [3; 4]);
    assert_eq!(encoder.encode_batch(&["x"]), Some(vec![vec![5]]));
    assert_eq!(encoder.encode_batch(&["x", ""]), Some(vec![vec![5], vec![]]));
}

#[test]
fn with_every_instance_out_of_service_no_call_is_served() {
    let encoder = Arc::new(pool("2", |_, _, _| (vec![1], vec![])).0);
    break_next_slot(&encoder);
    break_next_slot(&encoder);
    assert_eq!(encoder.encode("number"), None);
    assert_eq!(encoder.encode("number"), None);
    assert_eq!(encoder.encode_batch(&["x", "y"]), None);
    assert_eq!(encoder.encode_batch(&["x"]), None);
    assert_eq!(encoder.encode_batch(&[]), Some(vec![]));
}

#[test]
fn the_batch_encoder_gets_the_workers_the_prototype_and_the_inputs() {
    let (encoder, _) = pool("2", |workers, proto, inputs| {
        assert_eq!(*workers, 7);
        assert_eq!(proto.number, 1000);
        assert_eq!(inputs, ["x", "", "y"]);
        (vec![10, 11, 12], vec![2, 0, 1])
    });
    assert_eq!(
        encoder.encode_batch(&["x", "", "y"]),
        Some(vec![vec![10, 11], vec![], vec![12]])
    );
}

#[test]
fn fewer_than_two_inputs_skip_the_batch_encoder() {
    let (encoder, _) = pool("2", not_for_batches);
    assert_eq!(encoder.encode_batch(&[]), Some(vec![]));
    assert_eq!(encoder.encode_batch(&["x"]), Some(vec![vec![5]]));
}

#[test]
fn an_unsound_batch_is_encoded_input_by_input() {
    let unsound: [Batch; 5] = [
        |_, _, _| (vec![1, 2], vec![1, 2]),
        |_, _, _| (vec![1, 2], vec![1]),
        |_, _, _| (vec![1, 2], vec![1, 1, 0]),
        |_, _, _| (vec![1], vec![2, -1]),
        |_, _, _| (vec![], vec![i64::MAX, i64::MAX]),
    ];
    for batch in unsound {
        let (encoder, _) = pool("2", batch);
        assert_eq!(encoder.encode_batch(&["x", ""]), Some(vec![vec![5], vec![]]));
    }
}

#[test]
fn a_lock_is_taken_while_it_is_free_and_healthy() {
    let lock = Arc::new(Mutex::new(4));
    *wait_take(&lock, 0).expect("free") += 1;
    let guard = try_take(&lock, 1).expect("free");
    assert_eq!(*guard, 5);
    assert!(try_take(&lock, 2).is_err());
    drop(guard);
    assert!(try_take(&lock, 2).is_ok());

    let threads = rayon::ThreadPoolBuilder::new()
        .num_threads(1)
        .panic_handler(|_| {})
        .build()
        .expect("threads");
    let (done, wait) = channel::<()>();
    let shared = Arc::clone(&lock);
    threads.spawn(move || {
        let _signal: Sender<()> = done;
        let _guard = wait_take(&shared, 3);
        panic!("with the lock held");
    });
    assert!(wait.recv().is_err());
    for ticket in 4..7 {
        assert!(try_take(&lock, ticket).is_err());
        assert!(wait_take(&lock, ticket).is_err());
    }
}
