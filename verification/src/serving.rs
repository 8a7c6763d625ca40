//! What callers of the encoder can rely on.
//!
//! A call can be served by any slot, and the instance there may have encoded
//! anything before. Where the pooled instances agree on what a text encodes to,
//! none of that shows: not the slot, not the calls before, not those at the
//! same time.

use crate::encoder::{acquired, ran_batch, ticket_drawn, GigatokenEncoder};
use crate::instance::{
    descends, encode_step, forked, forks_encode_as, ran, ran_on, stepped, Instance,
};
use crate::parity::{
    lemma_forks_give_the_vocabularys_ids, passing_means_parity, probes_outcome,
    probes_pass_one_by_one, self_check_outcome, PARITY_PROBES,
};
use crate::ragged::{
    faithful_batch_splits_into_singles, ragged_rows, ragged_sound, rows_concatenate_to_ids,
    sound_means_rows_exist,
};
use crate::reference::{padding_configured, reference_can_yield, truncation_configured};
use crate::ring::Attempt;
use crate::slots::{
    all_failed, all_retired_for, attempt_failed, attempt_gave, encoded_by, gave, out_of_service,
    plan_of, retired_for, scan_gave, scan_fails_only_if_every_slot_does, scan_of_retired_pool_fails,
    scan_passes_over_retired_slots, scan_waits_only_if_no_slot_is_free,
};
use std::sync::MutexGuard;
use tokenizers::Tokenizer;
use vstd::prelude::*;

verus! {

/// What `vocabulary` says of each input.
pub open spec fn vocabulary_rows(
    inputs: Seq<&str>,
    vocabulary: spec_fn(Seq<char>) -> Seq<u32>,
) -> Seq<Seq<u32>> {
    Seq::new(inputs.len(), |i: int| vocabulary(inputs[i]@))
}

/// Whether a batch result holds these rows: their ids one after the other, and
/// how many there are in each.
pub open spec fn batch_holds(out: (Vec<u32>, Vec<i64>), rows: Seq<Seq<u32>>) -> bool {
    &&& out.0@ == rows.flatten()
    &&& out.1@.len() == rows.len()
    &&& forall|i: int| 0 <= i < rows.len() ==> #[trigger] out.1@[i] == rows[i].len()
}

impl<
    T,
    W,
    E: Fn(Instance<'_, T>, &str) -> Vec<u32>,
    R: Fn(&W, &T, &[&str]) -> (Vec<u32>, Vec<i64>),
> GigatokenEncoder<T, W, E, R> {
    /// Whether every instance that a slot gives encodes every text to what
    /// `vocabulary` says.
    pub open spec fn pool_encodes_as(self, vocabulary: spec_fn(Seq<char>) -> Seq<u32>) -> bool {
        forall|
            ticket: usize,
            attempt: Attempt,
            guard: MutexGuard<'_, T>,
            instance: Instance<'_, T>,
            text: &str,
            ids: Vec<u32>,
        |
            #![trigger
                attempt_gave(self.pool(), ticket, attempt, guard),
                gave(guard, *instance.0),
                call_ensures(self.run(), (instance, text), ids)]
            attempt_gave(self.pool(), ticket, attempt, guard) && gave(guard, *instance.0)
                && call_ensures(self.run(), (instance, text), ids) ==> ids@ == vocabulary(text@)
    }

    /// Whether every instance that a slot gives is a fork of `base` that has
    /// encoded some texts since. Each slot is made with such a fork, and only
    /// encoding changes it; that a lock gives back what was left in it is how
    /// `std` documents locks.
    pub open spec fn pool_descends<F: Fn(&T) -> T>(self, base: T, fork: F) -> bool {
        forall|ticket: usize, attempt: Attempt, guard: MutexGuard<'_, T>, value: T|
            #![trigger attempt_gave(self.pool(), ticket, attempt, guard), gave(guard, value)]
            attempt_gave(self.pool(), ticket, attempt, guard) && gave(guard, value)
                ==> exists|texts: Seq<&str>| #[trigger]
                descends(fork, base, self.run(), texts, value)
    }

    /// A pool of forks encodes as the forks do, whatever they have encoded
    /// before.
    pub proof fn pool_of_forks_encodes_as_the_forks<F: Fn(&T) -> T>(
        self,
        base: T,
        fork: F,
        vocabulary: spec_fn(Seq<char>) -> Seq<u32>,
    )
        requires
            self.pool_descends(base, fork),
            forks_encode_as(fork, base, self.run(), vocabulary),
        ensures
            self.pool_encodes_as(vocabulary),
    {
    }

    /// Whether the batch encoder gives what `vocabulary` says of each input.
    pub open spec fn batch_encodes_as(self, vocabulary: spec_fn(Seq<char>) -> Seq<u32>) -> bool {
        forall|inputs: &[&str], out: (Vec<u32>, Vec<i64>)| #[trigger]
            call_ensures(self.batch(), (&self.worker_pool(), &self.prototype(), inputs), out)
                ==> batch_holds(out, vocabulary_rows(inputs@, vocabulary))
    }

    /// What is served for a text is what the vocabulary says of it, whichever
    /// slot served it.
    pub proof fn served_ids_are_the_vocabularys(
        self,
        vocabulary: spec_fn(Seq<char>) -> Seq<u32>,
        input: &str,
        ids: Seq<u32>,
    )
        requires
            self.pool_encodes_as(vocabulary),
            self.encode_can_yield(input, Some(ids)),
        ensures
            ids == vocabulary(input@),
    {
        let ticket = choose|ticket: usize| #[trigger]
            self.call_can_yield(ticket, input, Some(ids));
        let guard = self.serving_guard(ticket, input, ids);
        let value = choose|value: T| #[trigger]
            gave(guard, value) && ran_on(self.run(), value, input, ids);
        let (instance, out) = choose|instance: Instance<'_, T>, out: Vec<u32>| #[trigger]
            ran(self.run(), instance, input, out) && *instance.0 == value && out@ == ids;
        assert(exists|attempt: Attempt| #[trigger]
            attempt_gave(self.pool(), ticket, attempt, guard));
        assert(gave(guard, *instance.0));
        assert(call_ensures(self.run(), (instance, input), out));
    }

    /// One text, one answer: two calls with the same text that are served are
    /// served the same ids, whatever other calls came before, between or at the
    /// same time.
    pub proof fn same_text_is_served_the_same_ids(
        self,
        vocabulary: spec_fn(Seq<char>) -> Seq<u32>,
        input: &str,
        other: &str,
        ids: Seq<u32>,
        other_ids: Seq<u32>,
    )
        requires
            self.pool_encodes_as(vocabulary),
            input@ == other@,
            self.encode_can_yield(input, Some(ids)),
            self.encode_can_yield(other, Some(other_ids)),
        ensures
            ids == other_ids,
    {
        self.served_ids_are_the_vocabularys(vocabulary, input, ids);
        self.served_ids_are_the_vocabularys(vocabulary, other, other_ids);
    }

    /// On the probes an encoder serves the HuggingFace tokens, with special
    /// tokens asked for or not, where its pool encodes like the forks of the
    /// instance that was loaded.
    pub proof fn probes_are_served_reference_tokens<F: Fn(&T) -> T>(
        self,
        base: T,
        fork: F,
        vocabulary: spec_fn(Seq<char>) -> Seq<u32>,
        probe: int,
        ids: Seq<u32>,
        add_special_tokens: bool,
    )
        requires
            self.passed(),
            forked(fork, base, self.probed()),
            forks_encode_as(fork, base, self.run(), vocabulary),
            self.pool_encodes_as(vocabulary),
            0 <= probe < PARITY_PROBES@.len(),
            self.encode_can_yield(PARITY_PROBES@[probe], Some(ids)),
        ensures
            reference_can_yield(
                self.reference(),
                PARITY_PROBES@[probe]@,
                add_special_tokens,
                Ok(ids),
            ),
    {
        self.served_ids_are_the_vocabularys(vocabulary, PARITY_PROBES@[probe], ids);
        assert(self_check_outcome(self.reference(), base, fork, self.run(), Ok(())));
        passing_means_parity(self.reference(), base, fork, self.run(), probe);
        let text = PARITY_PROBES@[probe];
        let (state, probed) = choose|state: T, probed: Seq<u32>|
            {
                &&& #[trigger] ran_on(self.run(), state, text, probed)
                &&& descends(fork, base, self.run(), PARITY_PROBES@.take(probe), state)
                &&& reference_can_yield(self.reference(), text@, true, Ok(probed))
                &&& reference_can_yield(self.reference(), text@, false, Ok(probed))
            };
        lemma_forks_give_the_vocabularys_ids(
            base,
            fork,
            self.run(),
            vocabulary,
            PARITY_PROBES@.take(probe),
            state,
            text,
            probed,
        );
    }

    /// Whatever is served for a text are the HuggingFace tokens, where the
    /// vocabulary agrees with the HuggingFace tokenizer on that text.
    pub proof fn agreeing_encode_serves_reference_tokens(
        self,
        hf: Tokenizer,
        add_special_tokens: bool,
        vocabulary: spec_fn(Seq<char>) -> Seq<u32>,
        input: &str,
        ids: Seq<u32>,
    )
        requires
            self.pool_encodes_as(vocabulary),
            reference_can_yield(hf, input@, add_special_tokens, Ok(vocabulary(input@))),
            self.encode_can_yield(input, Some(ids)),
        ensures
            reference_can_yield(hf, input@, add_special_tokens, Ok(ids)),
    {
        self.served_ids_are_the_vocabularys(vocabulary, input, ids);
    }

    /// The guard that a served call got hold of.
    proof fn serving_guard<'a>(self, ticket: usize, input: &str, ids: Seq<u32>) -> (guard:
        MutexGuard<'a, T>)
        requires
            self.call_can_yield(ticket, input, Some(ids)),
        ensures
            acquired(self.cursor(), self.pool(), ticket, Some(guard)),
            encoded_by(guard, self.run(), input, ids),
    {
        let guard = choose|guard: Option<MutexGuard<'a, T>>|
            {
                &&& #[trigger] acquired(self.cursor(), self.pool(), ticket, guard)
                &&& guard is Some
                &&& encoded_by(guard->Some_0, self.run(), input, ids)
            };
        guard->Some_0
    }

    /// Whether what the call with `ticket` was served can come from the instance
    /// of a slot other than `slot`.
    pub open spec fn served_elsewhere(
        self,
        ticket: usize,
        slot: usize,
        input: &str,
        ids: Seq<u32>,
    ) -> bool {
        exists|attempt: Attempt, guard: MutexGuard<'_, T>|
            {
                &&& #[trigger] attempt_gave(self.pool(), ticket, attempt, guard)
                &&& attempt.slot() != slot
                &&& encoded_by(guard, self.run(), input, ids)
            }
    }

    /// A slot that is retired when a call comes, as it is once its lock was
    /// poisoned, is not used: what the call is served comes from the instance
    /// of another slot, whatever guards the slot gave to calls before.
    pub proof fn retired_slot_serves_nothing(
        self,
        ticket: usize,
        slot: usize,
        input: &str,
        ids: Seq<u32>,
    )
        requires
            retired_for(self.pool(), ticket, slot),
            self.call_can_yield(ticket, input, Some(ids)),
        ensures
            self.served_elsewhere(ticket, slot, input, ids),
    {
        let guard = self.serving_guard(ticket, input, ids);
        scan_passes_over_retired_slots(self.pool(), ticket, guard, slot);
    }

    /// A slot that is retired for all calls of a sequence, as a poisoned one is
    /// for all that come after, is used by none of them. The calls are given by
    /// their tickets, inputs and the ids they were served.
    pub proof fn retired_slot_is_never_used_again(
        self,
        slot: usize,
        calls: Seq<(usize, &str, Seq<u32>)>,
    )
        requires
            forall|i: int|
                #![trigger calls[i]]
                0 <= i < calls.len() ==> retired_for(self.pool(), calls[i].0, slot)
                    && self.call_can_yield(calls[i].0, calls[i].1, Some(calls[i].2)),
        ensures
            forall|i: int|
                #![trigger calls[i]]
                0 <= i < calls.len() ==> self.served_elsewhere(
                    calls[i].0,
                    slot,
                    calls[i].1,
                    calls[i].2,
                ),
    {
        assert forall|i: int|
            #![trigger calls[i]]
            0 <= i < calls.len() implies self.served_elsewhere(
            calls[i].0,
            slot,
            calls[i].1,
            calls[i].2,
        ) by {
            self.retired_slot_serves_nothing(calls[i].0, slot, calls[i].1, calls[i].2);
        }
    }

    /// A call that comes when every slot is retired is not served, and falls
    /// back.
    pub proof fn retired_pool_serves_nothing(
        self,
        ticket: usize,
        input: &str,
        outcome: Option<Seq<u32>>,
    )
        requires
            0 < self.pool().len() <= usize::MAX,
            all_retired_for(self.pool(), ticket),
            self.call_can_yield(ticket, input, outcome),
        ensures
            outcome is None,
    {
        if let Some(ids) = outcome {
            let guard = self.serving_guard(ticket, input, ids);
            scan_of_retired_pool_fails(self.pool(), ticket, Some(guard));
        }
    }

    /// A call is not served exactly where every slot is retired when it comes,
    /// as long as no slot is poisoned while it runs: a slot that it waited for
    /// in vain was retired before.
    pub proof fn call_is_unserved_exactly_where_all_slots_are_retired(
        self,
        ticket: usize,
        input: &str,
        outcome: Option<Seq<u32>>,
    )
        requires
            0 < self.pool().len() <= usize::MAX,
            forall|slot: usize|
                slot < self.pool().len() && #[trigger] attempt_failed(
                    self.pool(),
                    ticket,
                    Attempt::Lock(slot),
                ) ==> retired_for(self.pool(), ticket, slot),
            self.call_can_yield(ticket, input, outcome),
        ensures
            outcome is None <==> all_retired_for(self.pool(), ticket),
    {
        if outcome is None {
            self.unserved_call_found_no_slot(ticket, input);
            assert forall|slot: usize| slot < self.pool().len() implies #[trigger] retired_for(
                self.pool(),
                ticket,
                slot,
            ) by {
                assert(attempt_failed(self.pool(), ticket, Attempt::TryLock(slot)));
            }
        }
        if all_retired_for(self.pool(), ticket) {
            self.retired_pool_serves_nothing(ticket, input, outcome);
        }
    }

    /// A call does not wait while a slot is free for it: it is served in the
    /// first round, where no attempt waits, however many other slots are in use
    /// or retired and wherever the free one stands in the ring.
    pub proof fn call_does_not_wait_while_a_slot_is_free(
        self,
        ticket: usize,
        free: usize,
        input: &str,
        outcome: Option<Seq<u32>>,
    )
        requires
            free < self.pool().len() <= usize::MAX,
            !attempt_failed(self.pool(), ticket, Attempt::TryLock(free)),
            self.call_can_yield(ticket, input, outcome),
        ensures
            outcome matches Some(ids) && exists|k: int, guard: MutexGuard<'_, T>|
                {
                    let plan = plan_of(ticket, self.pool().len());
                    &&& 0 <= k < self.pool().len()
                    &&& #[trigger] self.attempt_served(ticket, k, guard)
                    &&& encoded_by(guard, self.run(), input, ids)
                    &&& forall|j: int| 0 <= j <= k ==> (#[trigger] plan[j]) is TryLock
                },
    {
        match outcome {
            Some(ids) => {
                let guard = self.serving_guard(ticket, input, ids);
                scan_waits_only_if_no_slot_is_free(self.pool(), ticket, free, Some(guard));
                let plan = plan_of(ticket, self.pool().len());
                let k = choose|k: int|
                    {
                        &&& 0 <= k < self.pool().len()
                        &&& #[trigger] attempt_gave(self.pool(), ticket, plan[k], guard)
                        &&& all_failed(self.pool(), ticket, plan.take(k))
                        &&& forall|j: int| 0 <= j <= k ==> (#[trigger] plan[j]) is TryLock
                    };
                assert(self.attempt_served(ticket, k, guard));
            },
            None => {
                self.unserved_call_found_no_slot(ticket, input);
                assert(attempt_failed(self.pool(), ticket, Attempt::TryLock(free)));
            },
        }
    }

    /// Whether attempt `k` of the plan of the call with `ticket` gave `guard`,
    /// after all attempts before it had failed.
    pub open spec fn attempt_served(
        self,
        ticket: usize,
        k: int,
        guard: MutexGuard<'_, T>,
    ) -> bool {
        let plan = plan_of(ticket, self.pool().len());
        &&& attempt_gave(self.pool(), ticket, plan[k], guard)
        &&& all_failed(self.pool(), ticket, plan.take(k))
    }

    /// One slot that does not turn a waiting call down is enough for that call:
    /// it is served, however busy or retired the other slots are, and with what
    /// the vocabulary says of its text.
    pub proof fn healthy_slot_is_enough(
        self,
        vocabulary: spec_fn(Seq<char>) -> Seq<u32>,
        ticket: usize,
        slot: usize,
        input: &str,
        outcome: Option<Seq<u32>>,
    )
        requires
            slot < self.pool().len() <= usize::MAX,
            !attempt_failed(self.pool(), ticket, Attempt::Lock(slot)),
            self.pool_encodes_as(vocabulary),
            self.call_can_yield(ticket, input, outcome),
        ensures
            outcome == Some(vocabulary(input@)),
    {
        match outcome {
            Some(ids) => self.served_ids_are_the_vocabularys(vocabulary, input, ids),
            None => {
                self.unserved_call_found_no_slot(ticket, input);
                assert(attempt_failed(self.pool(), ticket, Attempt::TryLock(slot)));
            },
        }
    }

    /// A call is not served only where every slot turned it down.
    pub proof fn unserved_call_found_no_slot(self, ticket: usize, input: &str)
        requires
            0 < self.pool().len() <= usize::MAX,
            self.call_can_yield(ticket, input, None),
        ensures
            out_of_service(self.pool(), ticket),
    {
        scan_fails_only_if_every_slot_does(self.pool(), ticket);
    }

    /// A batch that was served has one row per input.
    pub proof fn served_batch_has_one_row_per_input(self, inputs: &[&str], rows: Seq<Seq<u32>>)
        requires
            self.batch_can_yield(inputs, Some(rows)),
        ensures
            rows.len() == inputs@.len(),
    {
    }

    /// A batch without inputs is always served.
    pub proof fn empty_batch_is_served(self, inputs: &[&str], outcome: Option<Seq<Seq<u32>>>)
        requires
            self.batch_can_yield(inputs, outcome),
            inputs@.len() == 0,
        ensures
            outcome == Some(Seq::<Seq<u32>>::empty()),
    {
        assert(outcome->Some_0 =~= Seq::<Seq<u32>>::empty());
    }

    /// A batch of one input has exactly the outcomes of encoding that input:
    /// its ids as the only row, or none.
    pub proof fn batch_of_one_is_a_single_encode(
        self,
        inputs: &[&str],
        outcome: Option<Seq<Seq<u32>>>,
    )
        requires
            inputs@.len() == 1,
        ensures
            self.batch_can_yield(inputs, outcome) <==> match outcome {
                Some(rows) => rows.len() == 1 && self.encode_can_yield(inputs@[0], Some(rows[0])),
                None => self.encode_can_yield(inputs@[0], None),
            },
    {
        let none = Seq::<Seq<u32>>::empty();
        assert(self.rows_can_be_served(inputs@.take(0), none));
    }

    /// A batch fails only with one of its inputs: one that encoding on its own
    /// can fail to serve as well, with no slot left in service.
    pub proof fn unserved_batch_has_an_unserved_input(self, inputs: &[&str])
        requires
            0 < self.pool().len() <= usize::MAX,
            self.batch_can_yield(inputs, None),
        ensures
            exists|i: int|
                0 <= i < inputs@.len() && self.encode_can_yield(#[trigger] inputs@[i], None),
            exists|ticket: usize| #[trigger] out_of_service(self.pool(), ticket),
    {
        assert(self.each_can_yield(inputs@, None));
        let unserved = choose|stop: int, rows: Seq<Seq<u32>>|
            {
                &&& 0 <= stop < inputs@.len()
                &&& #[trigger] self.rows_can_be_served(inputs@.take(stop), rows)
                &&& self.encode_can_yield(inputs@[stop], None)
            };
        let input = inputs@[unserved.0];
        let ticket = choose|ticket: usize| #[trigger] self.call_can_yield(ticket, input, None);
        self.unserved_call_found_no_slot(ticket, input);
    }

    /// A batch result that is not sound is never cut: what comes out of the
    /// batch then comes out of encoding each input on its own.
    pub proof fn unsound_batch_falls_back_to_single_encodes(
        self,
        inputs: &[&str],
        outcome: Option<Seq<Seq<u32>>>,
    )
        requires
            self.batch_can_yield(inputs, outcome),
            forall|out: (Vec<u32>, Vec<i64>)| #[trigger]
                ran_batch(self.batch(), self.worker_pool(), self.prototype(), inputs, out)
                    ==> !ragged_sound(inputs@.len(), out.0@, out.1@),
        ensures
            self.each_can_yield(inputs@, outcome),
    {
    }

    /// Where the batch encoder appends what each input encodes to on its own
    /// and notes how many ids there were, a batch is token- and
    /// order-identical to encoding each input on its own; with two or more
    /// inputs it is always served.
    pub proof fn batch_agrees_with_single_encodes(
        self,
        inputs: &[&str],
        outcome: Option<Seq<Seq<u32>>>,
        singles: Seq<Seq<u32>>,
    )
        requires
            self.batch_can_yield(inputs, outcome),
            singles.len() == inputs@.len(),
            forall|i: int, ids: Seq<u32>|
                0 <= i < inputs@.len() && #[trigger] self.encode_can_yield(inputs@[i], Some(ids))
                    ==> ids == singles[i],
            forall|out: (Vec<u32>, Vec<i64>)| #[trigger]
                ran_batch(self.batch(), self.worker_pool(), self.prototype(), inputs, out)
                    ==> batch_holds(out, singles),
        ensures
            outcome matches Some(rows) ==> rows == singles,
            inputs@.len() >= 2 ==> outcome == Some(singles),
    {
        if inputs@.len() < 2 {
            if let Some(rows) = outcome {
                assert forall|i: int| 0 <= i < rows.len() implies rows[i] == singles[i] by {
                    assert(self.encode_can_yield(inputs@[i], Some(rows[i])));
                }
                assert(rows =~= singles);
            }
        } else {
            let out = choose|out: (Vec<u32>, Vec<i64>)| #[trigger]
                ran_batch(self.batch(), self.worker_pool(), self.prototype(), inputs, out) && (
                ragged_sound(inputs@.len(), out.0@, out.1@) ==> outcome == Some(
                    ragged_rows(out.0@, out.1@),
                ));
            faithful_batch_splits_into_singles(singles, out.1@);
        }
    }

    /// Every row of a batch is what the vocabulary says of its input; with two
    /// or more inputs the batch is always served.
    pub proof fn batch_rows_are_the_vocabularys(
        self,
        vocabulary: spec_fn(Seq<char>) -> Seq<u32>,
        inputs: &[&str],
        outcome: Option<Seq<Seq<u32>>>,
    )
        requires
            self.pool_encodes_as(vocabulary),
            self.batch_encodes_as(vocabulary),
            self.batch_can_yield(inputs, outcome),
        ensures
            outcome matches Some(rows) ==> rows == vocabulary_rows(inputs@, vocabulary),
            inputs@.len() >= 2 ==> outcome == Some(vocabulary_rows(inputs@, vocabulary)),
    {
        let singles = vocabulary_rows(inputs@, vocabulary);
        assert forall|i: int, ids: Seq<u32>|
            0 <= i < inputs@.len() && #[trigger] self.encode_can_yield(
                inputs@[i],
                Some(ids),
            ) implies ids == singles[i] by {
            self.served_ids_are_the_vocabularys(vocabulary, inputs@[i], ids);
        }
        self.batch_agrees_with_single_encodes(inputs, outcome, singles);
    }

    /// With one slot that turns no waiting call down every batch is served,
    /// on either side of the length from which on the batch encoder is used.
    pub proof fn healthy_slot_is_enough_for_batches(
        self,
        vocabulary: spec_fn(Seq<char>) -> Seq<u32>,
        slot: usize,
        inputs: &[&str],
        outcome: Option<Seq<Seq<u32>>>,
    )
        requires
            slot < self.pool().len() <= usize::MAX,
            forall|ticket: usize|
                !#[trigger] attempt_failed(self.pool(), ticket, Attempt::Lock(slot)),
            self.pool_encodes_as(vocabulary),
            self.batch_encodes_as(vocabulary),
            self.batch_can_yield(inputs, outcome),
        ensures
            outcome == Some(vocabulary_rows(inputs@, vocabulary)),
    {
        self.batch_rows_are_the_vocabularys(vocabulary, inputs, outcome);
        if outcome is None {
            self.unserved_batch_has_an_unserved_input(inputs);
            let ticket = choose|ticket: usize| #[trigger] out_of_service(self.pool(), ticket);
            assert(attempt_failed(self.pool(), ticket, Attempt::TryLock(slot)));
        }
    }

    /// The order of a batch makes no difference to what its inputs encode to:
    /// inputs in another order give the rows in that order. `order` says at
    /// which place of the first batch an input of the second one stands.
    pub proof fn reordered_inputs_give_reordered_rows(
        self,
        vocabulary: spec_fn(Seq<char>) -> Seq<u32>,
        inputs: &[&str],
        reordered: &[&str],
        order: Seq<int>,
        rows: Seq<Seq<u32>>,
        reordered_rows: Seq<Seq<u32>>,
    )
        requires
            self.pool_encodes_as(vocabulary),
            self.batch_encodes_as(vocabulary),
            order.len() == reordered@.len(),
            forall|i: int|
                0 <= i < order.len() ==> 0 <= #[trigger] order[i] < inputs@.len()
                    && reordered@[i]@ == inputs@[order[i]]@,
            self.batch_can_yield(inputs, Some(rows)),
            self.batch_can_yield(reordered, Some(reordered_rows)),
        ensures
            reordered_rows == Seq::new(order.len(), |i: int| rows[order[i]]),
    {
        self.batch_rows_are_the_vocabularys(vocabulary, inputs, Some(rows));
        self.batch_rows_are_the_vocabularys(vocabulary, reordered, Some(reordered_rows));
        assert(reordered_rows =~= Seq::new(order.len(), |i: int| rows[order[i]]));
    }

    /// A batch that is cut in two gives the same rows.
    pub proof fn split_batch_gives_the_same_rows(
        self,
        vocabulary: spec_fn(Seq<char>) -> Seq<u32>,
        inputs: &[&str],
        front: &[&str],
        back: &[&str],
        rows: Seq<Seq<u32>>,
        front_rows: Seq<Seq<u32>>,
        back_rows: Seq<Seq<u32>>,
    )
        requires
            self.pool_encodes_as(vocabulary),
            self.batch_encodes_as(vocabulary),
            inputs@ == front@ + back@,
            self.batch_can_yield(inputs, Some(rows)),
            self.batch_can_yield(front, Some(front_rows)),
            self.batch_can_yield(back, Some(back_rows)),
        ensures
            rows == front_rows + back_rows,
    {
        self.batch_rows_are_the_vocabularys(vocabulary, inputs, Some(rows));
        self.batch_rows_are_the_vocabularys(vocabulary, front, Some(front_rows));
        self.batch_rows_are_the_vocabularys(vocabulary, back, Some(back_rows));
        assert(rows =~= front_rows + back_rows);
    }

    /// Where single encodes and the batch encoder agree with the HuggingFace
    /// tokenizer on the inputs, every row that is served holds the HuggingFace
    /// tokens of its input.
    pub proof fn agreeing_batch_serves_reference_tokens(
        self,
        hf: Tokenizer,
        add_special_tokens: bool,
        inputs: &[&str],
        rows: Seq<Seq<u32>>,
        row: int,
    )
        requires
            self.batch_can_yield(inputs, Some(rows)),
            forall|i: int, ids: Seq<u32>|
                0 <= i < inputs@.len() && #[trigger] self.encode_can_yield(inputs@[i], Some(ids))
                    ==> reference_can_yield(hf, inputs@[i]@, add_special_tokens, Ok(ids)),
            forall|out: (Vec<u32>, Vec<i64>), i: int|
                0 <= i < inputs@.len() && ran_batch(
                    self.batch(),
                    self.worker_pool(),
                    self.prototype(),
                    inputs,
                    out,
                ) && ragged_sound(inputs@.len(), out.0@, out.1@) ==> reference_can_yield(
                    hf,
                    inputs@[i]@,
                    add_special_tokens,
                    Ok(#[trigger] ragged_rows(out.0@, out.1@)[i]),
                ),
            0 <= row < rows.len(),
        ensures
            reference_can_yield(hf, inputs@[row]@, add_special_tokens, Ok(rows[row])),
    {
        if self.each_can_yield(inputs@, Some(rows)) {
            assert(self.encode_can_yield(inputs@[row], Some(rows[row])));
        } else {
            let out = choose|out: (Vec<u32>, Vec<i64>)| #[trigger]
                ran_batch(self.batch(), self.worker_pool(), self.prototype(), inputs, out)
                    && ragged_sound(inputs@.len(), out.0@, out.1@) && rows == ragged_rows(
                    out.0@,
                    out.1@,
                );
            assert(rows[row] == ragged_rows(out.0@, out.1@)[row]);
        }
    }

    /// A call draws its ticket, goes round the slots for it, and is served
    /// exactly where it gets hold of one. What it is served is then what a call
    /// of the encoding function returned for the input, all of it, made on the
    /// instance that the guard gives access to.
    pub proof fn call_is_served_what_the_encoding_function_returned(
        self,
        ticket: usize,
        input: &str,
        outcome: Option<Seq<u32>>,
    )
        requires
            self.call_can_yield(ticket, input, outcome),
        ensures
            ticket_drawn(self.cursor(), ticket),
            outcome is None ==> scan_gave(self.pool(), ticket, None),
            outcome matches Some(ids) ==> exists|
                guard: MutexGuard<'_, T>,
                instance: Instance<'_, T>,
                out: Vec<u32>,
            |
                {
                    &&& #[trigger] acquired(self.cursor(), self.pool(), ticket, Some(guard))
                    &&& scan_gave(self.pool(), ticket, Some(guard))
                    &&& encoded_by(guard, self.run(), input, ids)
                    &&& gave(guard, *instance.0)
                    &&& #[trigger] ran(self.run(), instance, input, out)
                    &&& call_ensures(self.run(), (instance, input), out)
                    &&& out@ == ids
                },
    {
        if let Some(ids) = outcome {
            let guard = self.serving_guard(ticket, input, ids);
            let value = choose|value: T| #[trigger]
                gave(guard, value) && ran_on(self.run(), value, input, ids);
            let (instance, out) = choose|instance: Instance<'_, T>, out: Vec<u32>| #[trigger]
                ran(self.run(), instance, input, out) && *instance.0 == value && out@ == ids;
            assert(acquired(self.cursor(), self.pool(), ticket, Some(guard)));
            assert(ran(self.run(), instance, input, out));
        }
    }

    /// Encoding a text is a call with some ticket.
    pub proof fn encoding_is_a_call(self, input: &str, outcome: Option<Seq<u32>>)
        requires
            self.encode_can_yield(input, outcome),
        ensures
            exists|ticket: usize| #[trigger] self.call_can_yield(ticket, input, outcome),
    {
    }

    /// Where every call of the encoding function returns what `vocabulary` says
    /// of its text, a text that is served is served all of that: nothing is cut
    /// off, added or moved, however long it is.
    pub proof fn served_ids_are_all_that_the_text_encodes_to(
        self,
        vocabulary: spec_fn(Seq<char>) -> Seq<u32>,
        input: &str,
        ids: Seq<u32>,
    )
        requires
            forall|instance: Instance<'_, T>, text: &str, out: Vec<u32>| #[trigger]
                call_ensures(self.run(), (instance, text), out) ==> out@ == vocabulary(text@),
            self.encode_can_yield(input, Some(ids)),
        ensures
            ids == vocabulary(input@),
    {
        let ticket = choose|ticket: usize| #[trigger]
            self.call_can_yield(ticket, input, Some(ids));
        self.call_is_served_what_the_encoding_function_returned(ticket, input, Some(ids));
    }

    /// Encoding each input on its own gives the rows of encoding each, in their
    /// order; or nothing, where some input can fail to be served after those
    /// before it were `served`.
    pub proof fn encoding_each_is_encoding_one_by_one(
        self,
        inputs: Seq<&str>,
        outcome: Option<Seq<Seq<u32>>>,
    ) -> (served: Seq<Seq<u32>>)
        requires
            self.each_can_yield(inputs, outcome),
        ensures
            outcome matches Some(rows) ==> rows == served && rows.len() == inputs.len(),
            outcome is None ==> served.len() < inputs.len() && self.encode_can_yield(
                inputs[served.len() as int],
                None,
            ),
            forall|i: int|
                0 <= i < served.len() ==> self.encode_can_yield(
                    inputs[i],
                    Some(#[trigger] served[i]),
                ),
    {
        match outcome {
            Some(rows) => rows,
            None => {
                let unserved = choose|stop: int, rows: Seq<Seq<u32>>|
                    {
                        &&& 0 <= stop < inputs.len()
                        &&& #[trigger] self.rows_can_be_served(inputs.take(stop), rows)
                        &&& self.encode_can_yield(inputs[stop], None)
                    };
                let served = unserved.1;
                assert forall|i: int| 0 <= i < served.len() implies self.encode_can_yield(
                    inputs[i],
                    Some(#[trigger] served[i]),
                ) by {
                    assert(inputs.take(unserved.0)[i] == inputs[i]);
                }
                served
            },
        }
    }

    /// Two or more inputs are handed to the batch encoder as they are. Where its
    /// result was put together from rows, one per input and as long as the
    /// lengths say, those rows are what the batch gives: one after the other
    /// they are the ids that came back. Where there are no such rows, and with
    /// fewer inputs, each input is encoded on its own.
    pub proof fn batch_gives_the_rows_that_came_back(
        self,
        inputs: &[&str],
        outcome: Option<Seq<Seq<u32>>>,
    )
        requires
            self.batch_can_yield(inputs, outcome),
        ensures
            inputs@.len() < 2 ==> self.each_can_yield(inputs@, outcome),
            inputs@.len() >= 2 ==> exists|out: (Vec<u32>, Vec<i64>)|
                {
                    &&& #[trigger] ran_batch(
                        self.batch(),
                        self.worker_pool(),
                        self.prototype(),
                        inputs,
                        out,
                    )
                    &&& call_ensures(
                        self.batch(),
                        (&self.worker_pool(), &self.prototype(), inputs),
                        out,
                    )
                    &&& (exists|parts: Seq<Seq<u32>>|
                        {
                            &&& #[trigger] parts.flatten() == out.0@
                            &&& parts.len() == inputs@.len()
                            &&& out.1@.len() == parts.len()
                            &&& forall|i: int|
                                0 <= i < parts.len() ==> #[trigger] out.1@[i] == parts[i].len()
                        }) ==> outcome is Some && {
                        let rows = outcome->Some_0;
                        &&& rows.flatten() == out.0@
                        &&& rows.len() == inputs@.len()
                        &&& out.1@.len() == rows.len()
                        &&& forall|i: int|
                            0 <= i < rows.len() ==> #[trigger] out.1@[i] == rows[i].len()
                    }
                    &&& !(exists|parts: Seq<Seq<u32>>|
                        {
                            &&& #[trigger] parts.flatten() == out.0@
                            &&& parts.len() == inputs@.len()
                            &&& out.1@.len() == parts.len()
                            &&& forall|i: int|
                                0 <= i < parts.len() ==> #[trigger] out.1@[i] == parts[i].len()
                        }) ==> self.each_can_yield(inputs@, outcome)
                },
    {
        if inputs@.len() >= 2 {
            let out = choose|out: (Vec<u32>, Vec<i64>)|
                {
                    &&& #[trigger] ran_batch(
                        self.batch(),
                        self.worker_pool(),
                        self.prototype(),
                        inputs,
                        out,
                    )
                    &&& if ragged_sound(inputs@.len(), out.0@, out.1@) {
                        outcome == Some(ragged_rows(out.0@, out.1@))
                    } else {
                        self.each_can_yield(inputs@, outcome)
                    }
                };
            sound_means_rows_exist(inputs@.len(), out.0@, out.1@);
            if ragged_sound(inputs@.len(), out.0@, out.1@) {
                rows_concatenate_to_ids(inputs@.len(), out.0@, out.1@);
                let rows = outcome->Some_0;
                assert forall|i: int| 0 <= i < rows.len() implies #[trigger] out.1@[i]
                    == rows[i].len() by {
                    assert(ragged_rows(out.0@, out.1@)[i].len() == out.1@[i]);
                }
                assert(rows.flatten() == out.0@);
            } else if exists|parts: Seq<Seq<u32>>|
                {
                    &&& #[trigger] parts.flatten() == out.0@
                    &&& parts.len() == inputs@.len()
                    &&& out.1@.len() == parts.len()
                    &&& forall|i: int|
                        0 <= i < parts.len() ==> #[trigger] out.1@[i] == parts[i].len()
                } {
                let parts = choose|parts: Seq<Seq<u32>>|
                    {
                        &&& #[trigger] parts.flatten() == out.0@
                        &&& parts.len() == inputs@.len()
                        &&& out.1@.len() == parts.len()
                        &&& forall|i: int|
                            0 <= i < parts.len() ==> #[trigger] out.1@[i] == parts[i].len()
                    };
                faithful_batch_splits_into_singles(parts, out.1@);
            }
        }
    }

    /// Where every call of the encoding function, and for each of its inputs
    /// every call of the batch encoder, returns what `vocabulary` says, the rows
    /// of a batch are what `vocabulary` says of the inputs, each in its place,
    /// whatever the length of the batch; and two or more inputs are always
    /// served.
    pub proof fn batch_rows_are_all_that_the_inputs_encode_to(
        self,
        vocabulary: spec_fn(Seq<char>) -> Seq<u32>,
        inputs: &[&str],
        outcome: Option<Seq<Seq<u32>>>,
    )
        requires
            forall|instance: Instance<'_, T>, text: &str, out: Vec<u32>| #[trigger]
                call_ensures(self.run(), (instance, text), out) ==> out@ == vocabulary(text@),
            forall|inputs: &[&str], out: (Vec<u32>, Vec<i64>)| #[trigger]
                call_ensures(self.batch(), (&self.worker_pool(), &self.prototype(), inputs), out)
                    ==> {
                    &&& out.0@ == Seq::new(
                        inputs@.len(),
                        |i: int| vocabulary(inputs@[i]@),
                    ).flatten()
                    &&& out.1@.len() == inputs@.len()
                    &&& forall|i: int|
                        0 <= i < inputs@.len() ==> #[trigger] out.1@[i] == vocabulary(
                            inputs@[i]@,
                        ).len()
                },
            self.batch_can_yield(inputs, outcome),
        ensures
            outcome matches Some(rows) ==> rows.len() == inputs@.len() && forall|i: int|
                0 <= i < rows.len() ==> #[trigger] rows[i] == vocabulary(inputs@[i]@),
            inputs@.len() >= 2 ==> outcome is Some,
    {
        assert forall|inputs: &[&str], out: (Vec<u32>, Vec<i64>)| #[trigger]
            call_ensures(
                self.batch(),
                (&self.worker_pool(), &self.prototype(), inputs),
                out,
            ) implies batch_holds(out, vocabulary_rows(inputs@, vocabulary)) by {
            assert(vocabulary_rows(inputs@, vocabulary) =~= Seq::new(
                inputs@.len(),
                |i: int| vocabulary(inputs@[i]@),
            ));
        }
        self.batch_rows_are_the_vocabularys(vocabulary, inputs, outcome);
    }

    /// An encoder has passed the self-check: the HuggingFace tokenizer neither
    /// truncates nor pads, and the probes pass from the fork that was probed.
    pub proof fn encoder_has_passed(self) -> (states: Seq<T>)
        requires
            self.passed(),
        ensures
            !truncation_configured(self.reference()),
            !padding_configured(self.reference()),
            probes_outcome(self.reference(), self.run(), self.probed(), Ok(())),
            states.len() == PARITY_PROBES@.len() + 1,
            states[0] == self.probed(),
            forall|k: int|
                #![trigger PARITY_PROBES@[k]]
                0 <= k < PARITY_PROBES@.len() ==> exists|ids: Vec<u32>|
                    {
                        &&& #[trigger] stepped(
                            self.run(),
                            states[k],
                            PARITY_PROBES@[k],
                            ids,
                            states[k + 1],
                        )
                        &&& call_ensures(
                            encode_step::<T, E>,
                            (&self.run(), states[k], PARITY_PROBES@[k]),
                            (ids, states[k + 1]),
                        )
                        &&& reference_can_yield(
                            self.reference(),
                            PARITY_PROBES@[k]@,
                            true,
                            Ok(ids@),
                        )
                        &&& reference_can_yield(
                            self.reference(),
                            PARITY_PROBES@[k]@,
                            false,
                            Ok(ids@),
                        )
                    },
    {
        probes_pass_one_by_one(self.reference(), self.run(), self.probed())
    }
}

} // verus!
