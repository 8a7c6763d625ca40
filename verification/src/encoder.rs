//! The pooled encoder.
//!
//! Encoding needs exclusive access to an instance of the fast tokenizer, so a
//! pool of forked instances stands behind one shared encoder.

use crate::instance::{forked, ran, runs_on, Instance};
use crate::parity::{
    probes_outcome, reference_returns_on_probes, self_check, self_check_outcome, Refusal,
};
use crate::ragged::{ragged_rows, ragged_sound, row_views, split_ragged};
use crate::reference::{padding_configured, truncation_configured};
use crate::settings::{parsed_usize, requested_slots, slot_count};
use crate::slots::{
    all_retired_for, encode_held, encoded_by, lock_made, out_of_service, scan_gave, scan_slots,
};
use std::sync::atomic::{AtomicUsize, Ordering};
use std::sync::{Mutex, MutexGuard};
use tokenizers::Tokenizer;
use vstd::prelude::*;

verus! {

/// What became of loading a tokenizer file into the fast tokenizer.
pub enum VocabularyLoad<T> {
    /// The file could not be read.
    Unreadable,
    /// The fast tokenizer rejected its contents.
    NotLoaded,
    /// It holds a SentencePiece vocabulary.
    SentencePiece,
    /// It holds a byte-pair vocabulary, loaded into this instance.
    Bpe(T),
}

/// An encoder that is safe to share between threads. `T` is the fast tokenizer
/// and `W` the worker pool of its batch encoder; `E` encodes one text with an
/// instance, and `R` encodes a batch.
#[verifier::reject_recursive_types(T)]
#[verifier::reject_recursive_types(W)]
#[verifier::reject_recursive_types(E)]
#[verifier::reject_recursive_types(R)]
pub struct GigatokenEncoder<
    T,
    W,
    E: Fn(Instance<'_, T>, &str) -> Vec<u32>,
    R: Fn(&W, &T, &[&str]) -> (Vec<u32>, Vec<i64>),
> {
    slots: Vec<Mutex<T>>,
    cursor: AtomicUsize,
    /// Prototype for the batch encoder. It stays as it was loaded: the worker
    /// pool forks its workers from it on first use and never compares them
    /// with it again. Single encodes go through `slots`.
    proto: T,
    workers: W,
    run: E,
    batch: R,
    /// The HuggingFace tokenizer that the self-check compared with.
    reference: Ghost<Tokenizer>,
    /// The fork of the loaded instance that the self-check started with.
    probed: Ghost<T>,
}

/// Whether `lock` was made to hold a fork of `base`.
pub open spec fn holds_fork<T, F: Fn(&T) -> T>(fork: F, base: T, lock: Mutex<T>) -> bool {
    exists|made: T| #[trigger] forked(fork, base, made) && lock_made(made, lock)
}

/// Whether `cursor` was made at zero.
pub open spec fn cursor_at_zero(cursor: AtomicUsize) -> bool {
    call_ensures(AtomicUsize::new, (0usize,), cursor)
}

/// Whether a call drew `ticket` from `cursor`.
pub open spec fn ticket_drawn(cursor: AtomicUsize, ticket: usize) -> bool {
    call_ensures(AtomicUsize::fetch_add, (&cursor, 1usize, Ordering::Relaxed), ticket)
}

/// Whether a call for a slot of `pool` ended with `guard`: it drew `ticket` from
/// `cursor`, and the scan for that ticket gave the guard.
pub open spec fn acquired<'a, T>(
    cursor: AtomicUsize,
    pool: Seq<Mutex<T>>,
    ticket: usize,
    guard: Option<MutexGuard<'a, T>>,
) -> bool {
    ticket_drawn(cursor, ticket) && scan_gave(pool, ticket, guard)
}

/// Whether the batch encoder can return `out` for these inputs.
pub open spec fn ran_batch<T, W, R: Fn(&W, &T, &[&str]) -> (Vec<u32>, Vec<i64>)>(
    batch: R,
    workers: W,
    proto: T,
    inputs: &[&str],
    out: (Vec<u32>, Vec<i64>),
) -> bool {
    call_ensures(batch, (&workers, &proto, inputs), out)
}

/// The ids of an encode, if it was served.
pub open spec fn served_view(ids: Option<Vec<u32>>) -> Option<Seq<u32>> {
    match ids {
        Some(ids) => Some(ids@),
        None => None,
    }
}

/// The rows of a batch, if it was served.
pub open spec fn batch_view(rows: Option<Vec<Vec<u32>>>) -> Option<Seq<Seq<u32>>> {
    match rows {
        Some(rows) => Some(row_views(rows@)),
        None => None,
    }
}

impl<
    T,
    W,
    E: Fn(Instance<'_, T>, &str) -> Vec<u32>,
    R: Fn(&W, &T, &[&str]) -> (Vec<u32>, Vec<i64>),
> GigatokenEncoder<T, W, E, R> {
    /// The pool is never empty, and the self-check has passed.
    #[verifier::type_invariant]
    spec fn ready(self) -> bool {
        &&& self.slots@.len() > 0
        &&& forall|text: &str| #[trigger] runs_on::<T, E>(self.run, text)
        &&& forall|workers: &W, proto: &T, inputs: &[&str]|
            call_requires(self.batch, (workers, proto, inputs))
        &&& self.passed()
    }

    /// The counter that calls draw their tickets from.
    pub closed spec fn cursor(self) -> AtomicUsize {
        self.cursor
    }

    /// The slots of the pool.
    pub closed spec fn pool(self) -> Seq<Mutex<T>> {
        self.slots@
    }

    /// The instance that the batch encoder forks its workers from.
    pub closed spec fn prototype(self) -> T {
        self.proto
    }

    /// The worker pool of the batch encoder.
    pub closed spec fn worker_pool(self) -> W {
        self.workers
    }

    /// The function that encodes one text.
    pub closed spec fn run(self) -> E {
        self.run
    }

    /// The function that encodes a batch.
    pub closed spec fn batch(self) -> R {
        self.batch
    }

    /// The HuggingFace tokenizer that the self-check compared with.
    pub closed spec fn reference(self) -> Tokenizer {
        self.reference@
    }

    /// The fork of the loaded instance that the self-check started with.
    pub closed spec fn probed(self) -> T {
        self.probed@
    }

    /// Whether the HuggingFace tokenizer neither truncates nor pads, and every
    /// probe passed.
    pub open spec fn passed(self) -> bool {
        &&& !truncation_configured(self.reference())
        &&& !padding_configured(self.reference())
        &&& probes_outcome(self.reference(), self.run(), self.probed(), Ok(()))
    }

    /// Whether the call with `ticket` can have this outcome when it encodes
    /// `input`: it gets hold of some slot and the instance behind it gives the
    /// ids, or it gets hold of none.
    pub open spec fn call_can_yield(
        self,
        ticket: usize,
        input: &str,
        outcome: Option<Seq<u32>>,
    ) -> bool {
        exists|guard: Option<MutexGuard<'_, T>>|
            {
                &&& #[trigger] acquired(self.cursor(), self.pool(), ticket, guard)
                &&& match (guard, outcome) {
                    (Some(guard), Some(ids)) => encoded_by(guard, self.run(), input, ids),
                    (None, None) => true,
                    _ => false,
                }
            }
    }

    /// Whether some call can have this outcome when it encodes `input`.
    pub open spec fn encode_can_yield(self, input: &str, outcome: Option<Seq<u32>>) -> bool {
        exists|ticket: usize| #[trigger] self.call_can_yield(ticket, input, outcome)
    }

    /// Whether encoding each input on its own can give these rows, one per
    /// input and in the order of the inputs.
    pub open spec fn rows_can_be_served(self, inputs: Seq<&str>, rows: Seq<Seq<u32>>) -> bool {
        &&& rows.len() == inputs.len()
        &&& forall|i: int|
            0 <= i < rows.len() ==> self.encode_can_yield(inputs[i], Some(#[trigger] rows[i]))
    }

    /// Whether encoding each input on its own can have this outcome: all are
    /// served, or some input is the first that is not.
    pub open spec fn each_can_yield(
        self,
        inputs: Seq<&str>,
        outcome: Option<Seq<Seq<u32>>>,
    ) -> bool {
        match outcome {
            Some(rows) => self.rows_can_be_served(inputs, rows),
            None => exists|stop: int, rows: Seq<Seq<u32>>|
                {
                    &&& 0 <= stop < inputs.len()
                    &&& #[trigger] self.rows_can_be_served(inputs.take(stop), rows)
                    &&& self.encode_can_yield(inputs[stop], None)
                },
        }
    }

    /// Whether encoding a batch can have this outcome. Fewer than two inputs,
    /// and those for which the batch encoder's result is not sound, are encoded
    /// each on its own.
    pub open spec fn batch_can_yield(
        self,
        inputs: &[&str],
        outcome: Option<Seq<Seq<u32>>>,
    ) -> bool {
        if inputs@.len() < 2 {
            self.each_can_yield(inputs@, outcome)
        } else {
            exists|out: (Vec<u32>, Vec<i64>)|
                {
                    &&& #[trigger] ran_batch(
                        self.batch(),
                        self.worker_pool(),
                        self.prototype(),
                        inputs,
                        out,
                    )
                    &&& if ragged_sound(inputs@.len(), out.0@, out.1@) {
                        outcome == Some(ragged_rows(out.0@, out.1@))
                    } else {
                        self.each_can_yield(inputs@, outcome)
                    }
                }
        }
    }

    /// An encoder for a loaded vocabulary, or the reason why the fast path
    /// stays off: the vocabulary was not loaded, or the self-check refused.
    ///
    /// `fork` makes an instance from another; `run` encodes a text with an
    /// instance; `batch` encodes a batch with `workers` and the loaded
    /// instance; `slots` is the value of `SMG_GIGATOKEN_SLOTS`.
    pub fn try_new<F: Fn(&T) -> T>(
        load: VocabularyLoad<T>,
        hf: &Tokenizer,
        fork: F,
        run: E,
        batch: R,
        workers: W,
        slots: Option<&str>,
    ) -> (encoder: Result<GigatokenEncoder<T, W, E, R>, Refusal>)
        requires
            load is Bpe ==> truncation_configured(*hf) || padding_configured(*hf)
                || reference_returns_on_probes(*hf),
            load matches VocabularyLoad::Bpe(base) ==> call_requires(fork, (&base,)),
            forall|text: &str| #[trigger] runs_on::<T, E>(run, text),
            forall|workers: &W, proto: &T, inputs: &[&str]|
                call_requires(batch, (workers, proto, inputs)),
        ensures
            match load {
                VocabularyLoad::Unreadable => encoder == Err::<Self, Refusal>(Refusal::Unreadable),
                VocabularyLoad::NotLoaded => encoder == Err::<Self, Refusal>(Refusal::NotLoaded),
                VocabularyLoad::SentencePiece => encoder == Err::<Self, Refusal>(
                    Refusal::SentencePiece,
                ),
                VocabularyLoad::Bpe(base) => match encoder {
                    Ok(made) => {
                        &&& self_check_outcome(*hf, base, fork, run, Ok(()))
                        &&& forked(fork, base, made.probed())
                        &&& made.passed()
                        &&& made.pool().len() == requested_slots(slots)
                        &&& slots is None ==> made.pool().len() == 8
                        &&& slots matches Some(text) ==> match parsed_usize(text@) {
                            Some(number) => {
                                &&& number >= 1 ==> made.pool().len() == number
                                &&& number == 0 ==> made.pool().len() == 1
                            },
                            None => made.pool().len() == 8,
                        }
                        &&& forall|i: int|
                            0 <= i < made.pool().len() ==> holds_fork(
                                fork,
                                base,
                                #[trigger] made.pool()[i],
                            )
                        &&& forall|i: int|
                            #![trigger made.pool()[i]]
                            0 <= i < made.pool().len() ==> exists|instance: T|
                                {
                                    &&& #[trigger] forked(fork, base, instance)
                                    &&& call_ensures(fork, (&base,), instance)
                                    &&& call_ensures(
                                        Mutex::<T>::new,
                                        (instance,),
                                        made.pool()[i],
                                    )
                                }
                        &&& cursor_at_zero(made.cursor())
                        &&& call_ensures(AtomicUsize::new, (0usize,), made.cursor())
                        &&& made.prototype() == base
                        &&& made.worker_pool() == workers
                        &&& made.run() == run
                        &&& made.batch() == batch
                        &&& made.reference() == *hf
                    },
                    Err(refusal) => self_check_outcome(*hf, base, fork, run, Err(refusal)),
                },
            },
    {
        let base = match load {
            VocabularyLoad::Unreadable => {
                return Err(Refusal::Unreadable);
            },
            VocabularyLoad::NotLoaded => {
                return Err(Refusal::NotLoaded);
            },
            VocabularyLoad::SentencePiece => {
                return Err(Refusal::SentencePiece);
            },
            VocabularyLoad::Bpe(base) => base,
        };
        match self_check(hf, &base, &fork, &run) {
            Ok(()) => {},
            Err(refusal) => {
                return Err(refusal);
            },
        }
        let ghost probed = choose|first: T| #[trigger]
            forked(fork, base, first) && probes_outcome(*hf, run, first, Ok(()));
        let wanted: usize = slot_count(slots);
        let mut pool: Vec<Mutex<T>> = Vec::new();
        while pool.len() < wanted
            invariant
                call_requires(fork, (&base,)),
                pool@.len() <= wanted,
                forall|i: int|
                    0 <= i < pool@.len() ==> holds_fork(fork, base, #[trigger] pool@[i]),
            decreases wanted - pool@.len(),
        {
            let instance = fork(&base);
            let ghost made = instance;
            let lock = Mutex::new(instance);
            assert(forked(fork, base, made) && lock_made(made, lock));
            pool.push(lock);
        }
        Ok(
            GigatokenEncoder {
                slots: pool,
                cursor: AtomicUsize::new(0),
                proto: base,
                workers,
                run,
                batch,
                reference: Ghost(*hf),
                probed: Ghost(probed),
            },
        )
    }

    /// Gets hold of a pooled instance: draws a ticket and scans the slots from
    /// there.
    fn acquire(&self) -> (guard: Option<MutexGuard<'_, T>>)
        ensures
            exists|ticket: usize|
                {
                    &&& #[trigger] acquired(self.cursor(), self.pool(), ticket, guard)
                    &&& guard is None ==> out_of_service(self.pool(), ticket)
                    &&& all_retired_for(self.pool(), ticket) ==> guard is None
                },
    {
        proof {
            use_type_invariant(self);
        }
        let ticket: usize = self.cursor.fetch_add(1, Ordering::Relaxed);
        let guard = scan_slots(&self.slots, ticket);
        assert(acquired(self.cursor(), self.pool(), ticket, guard));
        guard
    }

    /// Encodes `input` with a pooled instance. `None` means that no slot could
    /// serve it, and the caller falls back to the HuggingFace tokenizer. A slot
    /// that is retired when the call comes is not used, and with all of them
    /// retired the outcome is `None`.
    pub fn encode(&self, input: &str) -> (ids: Option<Vec<u32>>)
        ensures
            self.passed(),
            exists|ticket: usize|
                {
                    &&& #[trigger] self.call_can_yield(ticket, input, served_view(ids))
                    &&& ids matches Some(ids) ==> self.call_can_yield(ticket, input, Some(ids@))
                    &&& ids is None ==> self.call_can_yield(ticket, input, None)
                    &&& ids is None ==> out_of_service(self.pool(), ticket)
                    &&& all_retired_for(self.pool(), ticket) ==> ids is None
                },
            ids matches Some(ids) ==> exists|instance: Instance<'_, T>, out: Vec<u32>|
                {
                    &&& #[trigger] ran(self.run(), instance, input, out)
                    &&& call_ensures(self.run(), (instance, input), out)
                    &&& out@ == ids@
                },
    {
        proof {
            use_type_invariant(self);
        }
        let guard = self.acquire();
        let ghost ticket = choose|ticket: usize|
            {
                &&& #[trigger] acquired(self.cursor(), self.pool(), ticket, guard)
                &&& guard is None ==> out_of_service(self.pool(), ticket)
                &&& all_retired_for(self.pool(), ticket) ==> guard is None
            };
        let ids = match guard {
            Some(guard) => Some(encode_held(guard, &self.run, input)),
            None => None,
        };
        assert(self.call_can_yield(ticket, input, served_view(ids)));
        ids
    }

    /// Encodes each input on its own; `None` as soon as one cannot be served.
    fn encode_each(&self, inputs: &[&str]) -> (rows: Option<Vec<Vec<u32>>>)
        ensures
            self.each_can_yield(inputs@, batch_view(rows)),
            rows matches Some(rows) ==> self.each_can_yield(
                inputs@,
                Some(Seq::new(rows@.len(), |i: int| rows@[i]@)),
            ),
            rows is None ==> self.each_can_yield(inputs@, None),
            rows is None ==> exists|ticket: usize| #[trigger] out_of_service(self.pool(), ticket),
    {
        let mut rows: Vec<Vec<u32>> = Vec::new();
        let mut i: usize = 0;
        while i < inputs.len()
            invariant
                i <= inputs@.len(),
                rows@.len() == i,
                forall|k: int|
                    0 <= k < i ==> self.encode_can_yield(
                        inputs@[k],
                        Some((#[trigger] rows@[k])@),
                    ),
            decreases inputs@.len() - i,
        {
            match self.encode(inputs[i]) {
                Some(ids) => rows.push(ids),
                None => {
                    let ghost before = row_views(rows@);
                    assert(self.rows_can_be_served(inputs@.take(i as int), before));
                    return None;
                },
            }
            i = i + 1;
        }
        Some(rows)
    }

    /// Encodes a batch, one row per input. Two or more inputs go through the
    /// batch encoder; its result is cut into rows where it is sound. Otherwise
    /// each input is encoded on its own, and `None` means that one of them
    /// could not be served.
    pub fn encode_batch(&self, inputs: &[&str]) -> (rows: Option<Vec<Vec<u32>>>)
        ensures
            self.passed(),
            self.batch_can_yield(inputs, batch_view(rows)),
            rows matches Some(rows) ==> self.batch_can_yield(
                inputs,
                Some(Seq::new(rows@.len(), |i: int| rows@[i]@)),
            ),
            rows is None ==> self.batch_can_yield(inputs, None),
            rows is None ==> exists|ticket: usize| #[trigger] out_of_service(self.pool(), ticket),
    {
        proof {
            use_type_invariant(self);
        }
        if inputs.len() < 2 {
            return self.encode_each(inputs);
        }
        let batch = &self.batch;
        let out = batch(&self.workers, &self.proto, inputs);
        assert(ran_batch(self.batch(), self.worker_pool(), self.prototype(), inputs, out));
        match split_ragged(inputs.len(), &out.0, &out.1) {
            Some(rows) => {
                assert(Seq::new(rows@.len(), |i: int| rows@[i]@) =~= row_views(rows@));
                Some(rows)
            },
            None => self.encode_each(inputs),
        }
    }
}

/// A ticket is what adding one to the cursor gave back.
pub proof fn tickets_are_drawn_by_adding_one(cursor: AtomicUsize, ticket: usize)
    requires
        ticket_drawn(cursor, ticket),
    ensures
        call_ensures(AtomicUsize::fetch_add, (&cursor, 1usize, Ordering::Relaxed), ticket),
{
}

} // verus!
