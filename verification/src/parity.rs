//! The load-time self-check.
//!
//! The fast tokenizer ignores `add_special_tokens`, truncation and padding, so
//! it may serve only where those make no difference, and only where it
//! reproduces the HuggingFace tokenizer on every probe text.

use crate::instance::{
    descends, encode_step, forked, forks_encode_as, ran, ran_on, runs_on, stepped, Instance,
};
use crate::reference::{
    encode_reference, has_padding, has_truncation, padding_configured, reference_can_yield,
    reference_returns, truncation_configured,
};
use tokenizers::Tokenizer;
use vstd::prelude::*;

verus! {

/// Probe texts the fast path must reproduce exactly before it may serve:
/// ASCII prose, code punctuation, CJK, emoji (multi-codepoint), composed and
/// combining accents, whitespace runs, digit groups, right-to-left scripts, and
/// chat markers so that the added-token path is covered too.
pub const PARITY_PROBES: [&'static str; 13] = [
    "",
    " ",
    "Hello, world!",
    "fn main() { let x: Vec<u32> = vec![1, 2, 3]; }",
    "  \t\n\n   trailing and   repeated   whitespace \n",
    "0123456789 1234 99999 007",
    "日本語のテキストと中文混排",
    "emoji: 👨‍👩‍👧‍👦 🇯🇵 🏳️‍🌈",
    "combining: éé àà ñ e\u{301} a\u{300} n\u{303}",
    "עברית وعربي RTL text",
    "<|system|>\nYou are helpful.<|user|>\nhi<|assistant|>\n",
    "[gMASK]<sop><|user|>\nwrite a haiku<|assistant|>\n<think>",
    "<tool_call>{\"name\": \"get_weather\"}</tool_call>",
];

/// Why the fast path stays off.
#[derive(Debug, PartialEq, Eq)]
pub enum Refusal {
    /// The tokenizer file could not be read.
    Unreadable,
    /// The fast tokenizer could not load the vocabulary.
    NotLoaded,
    /// The vocabulary is a SentencePiece one, which is not wired in.
    SentencePiece,
    /// The HuggingFace tokenizer truncates or pads.
    TruncationOrPadding,
    /// The HuggingFace tokenizer failed on a probe, with this error.
    ReferenceFailed { probe: usize, error: String },
    /// The post-processor adds special tokens to a probe.
    SpecialTokensAdded { probe: usize },
    /// The two tokenizers disagree on a probe.
    ParityFailed { probe: usize, reference_len: usize, fast_len: usize },
}

/// Whether two id vectors hold the same ids.
fn same_ids(a: &Vec<u32>, b: &Vec<u32>) -> (same: bool)
    ensures
        same == (a@ == b@),
{
    if a.len() != b.len() {
        return false;
    }
    let mut i: usize = 0;
    while i < a.len()
        invariant
            i <= a@.len(),
            a@.len() == b@.len(),
            forall|j: int| 0 <= j < i ==> a@[j] == b@[j],
        decreases a@.len() - i,
    {
        if a[i] != b[i] {
            return false;
        }
        i = i + 1;
    }
    proof {
        assert(a@ =~= b@);
    }
    true
}

/// Compares the readings of the HuggingFace tokenizer on a probe, with special
/// tokens asked for and without.
pub fn compare_readings(
    probe: usize,
    with_special: &Vec<u32>,
    without_special: &Vec<u32>,
) -> (verdict: Result<(), Refusal>)
    ensures
        verdict == readings_verdict(probe as int, with_special@, without_special@),
        with_special@ == without_special@ ==> verdict == Ok::<(), Refusal>(()),
        with_special@ != without_special@ ==> verdict == Err::<(), Refusal>(
            Refusal::SpecialTokensAdded { probe },
        ),
{
    if same_ids(with_special, without_special) {
        Ok(())
    } else {
        Err(Refusal::SpecialTokensAdded { probe })
    }
}

/// The verdict on a probe once the HuggingFace tokenizer has been read twice.
pub open spec fn readings_verdict(
    probe: int,
    with_special: Seq<u32>,
    without_special: Seq<u32>,
) -> Result<(), Refusal> {
    if with_special == without_special {
        Ok(())
    } else {
        Err(Refusal::SpecialTokensAdded { probe: probe as usize })
    }
}

/// Compares the fast tokenizer's ids on a probe with the reference ids.
pub fn compare_probe(probe: usize, reference: &Vec<u32>, fast: &Vec<u32>) -> (verdict: Result<
    (),
    Refusal,
>)
    ensures
        verdict == parity_verdict(probe as int, reference@, fast@),
        fast@ == reference@ ==> verdict == Ok::<(), Refusal>(()),
        fast@ != reference@ ==> verdict == Err::<(), Refusal>(
            Refusal::ParityFailed {
                probe,
                reference_len: reference@.len() as usize,
                fast_len: fast@.len() as usize,
            },
        ),
{
    if same_ids(fast, reference) {
        Ok(())
    } else {
        Err(
            Refusal::ParityFailed { probe, reference_len: reference.len(), fast_len: fast.len() },
        )
    }
}

/// The verdict on a probe once both tokenizers have encoded it.
pub open spec fn parity_verdict(probe: int, reference: Seq<u32>, fast: Seq<u32>) -> Result<
    (),
    Refusal,
> {
    if fast == reference {
        Ok(())
    } else {
        Err(
            Refusal::ParityFailed {
                probe: probe as usize,
                reference_len: reference.len() as usize,
                fast_len: fast.len() as usize,
            },
        )
    }
}

/// Whether probe `probe` can pass with an instance that is `before`, and leave
/// it as `after`: the instance encodes the probe to ids that the HuggingFace
/// tokenizer gives too, with special tokens and without.
pub open spec fn probe_passed<T, E: Fn(Instance<'_, T>, &str) -> Vec<u32>>(
    hf: Tokenizer,
    run: E,
    probe: int,
    before: T,
    after: T,
) -> bool {
    exists|ids: Vec<u32>|
        {
            &&& #[trigger] stepped(run, before, PARITY_PROBES@[probe], ids, after)
            &&& reference_can_yield(hf, PARITY_PROBES@[probe]@, true, Ok(ids@))
            &&& reference_can_yield(hf, PARITY_PROBES@[probe]@, false, Ok(ids@))
        }
}

/// Whether the HuggingFace tokenizer can fail on `text` with this error. It is
/// asked for special tokens first, and without them only if that succeeded.
pub open spec fn reference_can_fail(hf: Tokenizer, text: Seq<char>, error: Seq<char>) -> bool {
    ||| reference_can_yield(hf, text, true, Err(error))
    ||| exists|ids: Seq<u32>| #[trigger]
        reference_can_yield(hf, text, true, Ok(ids)) && reference_can_yield(
            hf,
            text,
            false,
            Err(error),
        )
}

/// Whether the HuggingFace tokenizer can be read on `text` this way, with
/// special tokens and without.
pub open spec fn readings_possible(
    hf: Tokenizer,
    text: Seq<char>,
    with_special: Seq<u32>,
    without_special: Seq<u32>,
) -> bool {
    &&& reference_can_yield(hf, text, true, Ok(with_special))
    &&& reference_can_yield(hf, text, false, Ok(without_special))
}

/// Whether probe `probe` can be refused this way with an instance that is
/// `before`.
pub open spec fn probe_refused<T, E: Fn(Instance<'_, T>, &str) -> Vec<u32>>(
    hf: Tokenizer,
    run: E,
    probe: int,
    before: T,
    refusal: Refusal,
) -> bool {
    let text = PARITY_PROBES@[probe];
    match refusal {
        Refusal::ReferenceFailed { probe: at, error } => at == probe && reference_can_fail(
            hf,
            text@,
            error@,
        ),
        Refusal::SpecialTokensAdded { .. } => exists|
            with_special: Seq<u32>,
            without_special: Seq<u32>,
        |
            {
                &&& #[trigger] readings_possible(hf, text@, with_special, without_special)
                &&& readings_verdict(probe, with_special, without_special) == Err::<(), Refusal>(
                    refusal,
                )
            },
        Refusal::ParityFailed { .. } => exists|
            reference: Seq<u32>,
            fast: Vec<u32>,
            after: T,
        |
            {
                &&& #[trigger] readings_possible(hf, text@, reference, reference)
                &&& #[trigger] stepped(run, before, text, fast, after)
                &&& parity_verdict(probe, reference, fast@) == Err::<(), Refusal>(refusal)
            },
        _ => false,
    }
}

/// Whether probe `probe` can pass with the instance at `states[probe]`, and
/// leave it as the next of `states`.
pub open spec fn advanced<T, E: Fn(Instance<'_, T>, &str) -> Vec<u32>>(
    hf: Tokenizer,
    run: E,
    states: Seq<T>,
    probe: int,
) -> bool {
    probe_passed(hf, run, probe, states[probe], states[probe + 1])
}

/// Whether the probes, run one after the other with one instance, can take it
/// through `states`. All probes but the one at the last state have passed.
pub open spec fn went_through<T, E: Fn(Instance<'_, T>, &str) -> Vec<u32>>(
    hf: Tokenizer,
    run: E,
    states: Seq<T>,
) -> bool {
    &&& 0 < states.len() <= PARITY_PROBES@.len() + 1
    &&& forall|probe: int|
        0 <= probe < states.len() - 1 ==> #[trigger] advanced(hf, run, states, probe)
}

/// Whether the probes can have this outcome with an instance that is `first`:
/// all of them pass, or the first that does not gives the refusal.
pub open spec fn probes_outcome<T, E: Fn(Instance<'_, T>, &str) -> Vec<u32>>(
    hf: Tokenizer,
    run: E,
    first: T,
    outcome: Result<(), Refusal>,
) -> bool {
    exists|states: Seq<T>|
        {
            &&& #[trigger] went_through(hf, run, states)
            &&& states[0] == first
            &&& match outcome {
                Ok(()) => states.len() == PARITY_PROBES@.len() + 1,
                Err(refusal) => states.len() <= PARITY_PROBES@.len() && probe_refused(
                    hf,
                    run,
                    states.len() - 1,
                    states.last(),
                    refusal,
                ),
            }
        }
}

/// Whether the self-check can have this outcome: a tokenizer that truncates or
/// pads is refused outright, and for any other a fork of `base` goes through
/// the probes.
pub open spec fn self_check_outcome<
    T,
    F: Fn(&T) -> T,
    E: Fn(Instance<'_, T>, &str) -> Vec<u32>,
>(hf: Tokenizer, base: T, fork: F, run: E, outcome: Result<(), Refusal>) -> bool {
    if truncation_configured(hf) || padding_configured(hf) {
        outcome == Err::<(), Refusal>(Refusal::TruncationOrPadding)
    } else {
        exists|first: T| #[trigger]
            forked(fork, base, first) && probes_outcome(hf, run, first, outcome)
    }
}

/// Whether `run` may be called on every probe.
pub open spec fn runs_on_probes<T, E: Fn(Instance<'_, T>, &str) -> Vec<u32>>(run: E) -> bool {
    forall|k: int|
        0 <= k < PARITY_PROBES@.len() ==> runs_on::<T, E>(run, #[trigger] PARITY_PROBES@[k])
}

/// Whether the HuggingFace tokenizer returns on every probe, with special
/// tokens and without.
pub open spec fn reference_returns_on_probes(hf: Tokenizer) -> bool {
    forall|k: int, add_special_tokens: bool|
        0 <= k < PARITY_PROBES@.len() ==> #[trigger] reference_returns(
            hf,
            PARITY_PROBES@[k]@,
            add_special_tokens,
        )
}

/// Runs one probe through both tokenizers. A probe that passes gives the
/// instance back.
fn check_probe<T, E: Fn(Instance<'_, T>, &str) -> Vec<u32>>(
    hf: &Tokenizer,
    state: T,
    run: &E,
    probe: usize,
) -> (verdict: Result<T, Refusal>)
    requires
        !truncation_configured(*hf),
        reference_returns_on_probes(*hf),
        probe < PARITY_PROBES@.len(),
        runs_on_probes::<T, E>(*run),
    ensures
        match verdict {
            Ok(after) => probe_passed(*hf, *run, probe as int, state, after),
            Err(refusal) => probe_refused(*hf, *run, probe as int, state, refusal),
        },
{
    let text: &str = PARITY_PROBES[probe];
    assert(reference_returns(*hf, PARITY_PROBES@[probe as int]@, true));
    let with_special = match encode_reference(hf, text, true) {
        Ok(ids) => ids,
        Err(error) => {
            return Err(Refusal::ReferenceFailed { probe, error });
        },
    };
    assert(reference_returns(*hf, PARITY_PROBES@[probe as int]@, false));
    let without_special = match encode_reference(hf, text, false) {
        Ok(ids) => ids,
        Err(error) => {
            return Err(Refusal::ReferenceFailed { probe, error });
        },
    };
    assert(readings_possible(*hf, text@, with_special@, without_special@));
    match compare_readings(probe, &with_special, &without_special) {
        Ok(()) => {},
        Err(refusal) => {
            return Err(refusal);
        },
    }
    let (fast, after) = encode_step(run, state, text);
    assert(stepped(*run, state, text, fast, after));
    match compare_probe(probe, &with_special, &fast) {
        Ok(()) => Ok(after),
        Err(refusal) => Err(refusal),
    }
}

/// Runs every probe through both tokenizers and stops at the first that does
/// not pass.
fn run_probes<T, E: Fn(Instance<'_, T>, &str) -> Vec<u32>>(
    hf: &Tokenizer,
    first: T,
    run: &E,
) -> (outcome: Result<(), Refusal>)
    requires
        !truncation_configured(*hf),
        reference_returns_on_probes(*hf),
        runs_on_probes::<T, E>(*run),
    ensures
        probes_outcome(*hf, *run, first, outcome),
{
    let ghost mut states: Seq<T> = seq![first];
    let mut state = first;
    let mut probe: usize = 0;
    while probe < PARITY_PROBES.len()
        invariant
            !truncation_configured(*hf),
            reference_returns_on_probes(*hf),
            runs_on_probes::<T, E>(*run),
            probe <= PARITY_PROBES@.len(),
            states.len() == probe + 1,
            states[0] == first,
            states.last() == state,
            went_through(*hf, *run, states),
        decreases PARITY_PROBES@.len() - probe,
    {
        match check_probe(hf, state, run, probe) {
            Ok(after) => {
                proof {
                    let longer = states.push(after);
                    assert forall|k: int| 0 <= k < longer.len() - 1 implies #[trigger] advanced(
                        *hf,
                        *run,
                        longer,
                        k,
                    ) by {
                        if k < probe {
                            assert(advanced(*hf, *run, states, k));
                        }
                    }
                    states = longer;
                }
                state = after;
            },
            Err(refusal) => {
                return Err(refusal);
            },
        }
        probe = probe + 1;
    }
    Ok(())
}

/// Decides whether the fast tokenizer may stand in for the HuggingFace one.
/// `fork` makes an instance to probe with; `run` encodes a text with an
/// instance.
pub fn self_check<T, F: Fn(&T) -> T, E: Fn(Instance<'_, T>, &str) -> Vec<u32>>(
    hf: &Tokenizer,
    base: &T,
    fork: &F,
    run: &E,
) -> (outcome: Result<(), Refusal>)
    requires
        truncation_configured(*hf) || padding_configured(*hf) || reference_returns_on_probes(*hf),
        call_requires(*fork, (base,)),
        runs_on_probes::<T, E>(*run),
    ensures
        self_check_outcome(*hf, *base, *fork, *run, outcome),
{
    if has_truncation(hf) || has_padding(hf) {
        return Err(Refusal::TruncationOrPadding);
    }
    let first = fork(base);
    assert(forked(*fork, *base, first));
    run_probes(hf, first, run)
}

/// A probing instance is a fork of `base` that has encoded the probes so far.
proof fn lemma_states_descend<T, F: Fn(&T) -> T, E: Fn(Instance<'_, T>, &str) -> Vec<u32>>(
    hf: Tokenizer,
    base: T,
    fork: F,
    run: E,
    states: Seq<T>,
    probe: int,
)
    requires
        went_through(hf, run, states),
        forked(fork, base, states[0]),
        0 <= probe < states.len(),
    ensures
        descends(fork, base, run, PARITY_PROBES@.take(probe), states[probe]),
    decreases probe,
{
    let texts = PARITY_PROBES@.take(probe);
    if probe > 0 {
        lemma_states_descend(hf, base, fork, run, states, probe - 1);
        assert(advanced(hf, run, states, probe - 1));
        let ids = choose|ids: Vec<u32>| #[trigger]
            stepped(run, states[probe - 1], PARITY_PROBES@[probe - 1], ids, states[probe]);
        assert(texts.drop_last() =~= PARITY_PROBES@.take(probe - 1));
        assert(stepped(run, states[probe - 1], texts.last(), ids, states[probe]));
    }
}

/// A vocabulary that passed reproduces the HuggingFace tokenizer on every
/// probe, whether or not special tokens are asked for: a fork of it that had
/// encoded the probes before that one gave those ids. The HuggingFace
/// tokenizer neither truncates nor pads.
pub proof fn passing_means_parity<T, F: Fn(&T) -> T, E: Fn(Instance<'_, T>, &str) -> Vec<u32>>(
    hf: Tokenizer,
    base: T,
    fork: F,
    run: E,
    probe: int,
)
    requires
        self_check_outcome(hf, base, fork, run, Ok(())),
        0 <= probe < PARITY_PROBES@.len(),
    ensures
        !truncation_configured(hf),
        !padding_configured(hf),
        exists|state: T, ids: Seq<u32>|
            {
                &&& #[trigger] ran_on(run, state, PARITY_PROBES@[probe], ids)
                &&& descends(fork, base, run, PARITY_PROBES@.take(probe), state)
                &&& reference_can_yield(hf, PARITY_PROBES@[probe]@, true, Ok(ids))
                &&& reference_can_yield(hf, PARITY_PROBES@[probe]@, false, Ok(ids))
            },
{
    let first = choose|first: T| #[trigger]
        forked(fork, base, first) && probes_outcome(hf, run, first, Ok(()));
    let states = choose|states: Seq<T>|
        {
            &&& #[trigger] went_through(hf, run, states)
            &&& states[0] == first
            &&& states.len() == PARITY_PROBES@.len() + 1
        };
    lemma_states_descend(hf, base, fork, run, states, probe);
    assert(advanced(hf, run, states, probe));
    let ids = choose|ids: Vec<u32>|
        {
            &&& #[trigger] stepped(
                run,
                states[probe],
                PARITY_PROBES@[probe],
                ids,
                states[probe + 1],
            )
            &&& reference_can_yield(hf, PARITY_PROBES@[probe]@, true, Ok(ids@))
            &&& reference_can_yield(hf, PARITY_PROBES@[probe]@, false, Ok(ids@))
        };
    assert(ran_on(run, states[probe], PARITY_PROBES@[probe], ids@));
}

/// A tokenizer whose special tokens show on some probe is refused.
pub proof fn special_tokens_are_refused<
    T,
    F: Fn(&T) -> T,
    E: Fn(Instance<'_, T>, &str) -> Vec<u32>,
>(hf: Tokenizer, base: T, fork: F, run: E, probe: int, outcome: Result<(), Refusal>)
    requires
        self_check_outcome(hf, base, fork, run, outcome),
        0 <= probe < PARITY_PROBES@.len(),
        forall|ids: Seq<u32>|
            !(#[trigger] reference_can_yield(hf, PARITY_PROBES@[probe]@, true, Ok(ids))
                && reference_can_yield(hf, PARITY_PROBES@[probe]@, false, Ok(ids))),
    ensures
        outcome is Err,
{
    if outcome is Ok {
        passing_means_parity(hf, base, fork, run, probe);
    }
}

/// A vocabulary that differs from the HuggingFace tokenizer on some probe is
/// refused: one whose forks, after the probes before it, encode that probe
/// only to ids that the HuggingFace tokenizer does not give.
pub proof fn differing_tokens_are_refused<
    T,
    F: Fn(&T) -> T,
    E: Fn(Instance<'_, T>, &str) -> Vec<u32>,
>(
    hf: Tokenizer,
    base: T,
    fork: F,
    run: E,
    probe: int,
    add_special_tokens: bool,
    outcome: Result<(), Refusal>,
)
    requires
        self_check_outcome(hf, base, fork, run, outcome),
        0 <= probe < PARITY_PROBES@.len(),
        forall|state: T, ids: Seq<u32>| #[trigger]
            ran_on(run, state, PARITY_PROBES@[probe], ids) && descends(
                fork,
                base,
                run,
                PARITY_PROBES@.take(probe),
                state,
            ) ==> !reference_can_yield(hf, PARITY_PROBES@[probe]@, add_special_tokens, Ok(ids)),
    ensures
        outcome is Err,
{
    if outcome is Ok {
        passing_means_parity(hf, base, fork, run, probe);
    }
}

/// A vocabulary that agrees with the HuggingFace tokenizer on every probe is
/// never refused, where that tokenizer neither truncates nor pads.
pub proof fn agreement_engages<T, F: Fn(&T) -> T, E: Fn(Instance<'_, T>, &str) -> Vec<u32>>(
    hf: Tokenizer,
    base: T,
    fork: F,
    run: E,
    expected: Seq<Seq<u32>>,
    outcome: Result<(), Refusal>,
)
    requires
        self_check_outcome(hf, base, fork, run, outcome),
        !truncation_configured(hf),
        !padding_configured(hf),
        forall|k: int, add_special_tokens: bool, reading: Result<Seq<u32>, Seq<char>>|
            0 <= k < PARITY_PROBES@.len() && #[trigger] reference_can_yield(
                hf,
                PARITY_PROBES@[k]@,
                add_special_tokens,
                reading,
            ) ==> reading == Ok::<Seq<u32>, Seq<char>>(expected[k]),
        forall|k: int, state: T, ids: Seq<u32>|
            0 <= k < PARITY_PROBES@.len() && #[trigger] ran_on(run, state, PARITY_PROBES@[k], ids)
                && descends(fork, base, run, PARITY_PROBES@.take(k), state) ==> ids == expected[k],
    ensures
        outcome is Ok,
{
    if let Err(refusal) = outcome {
        let first = choose|first: T| #[trigger]
            forked(fork, base, first) && probes_outcome(hf, run, first, outcome);
        let states = choose|states: Seq<T>|
            {
                &&& #[trigger] went_through(hf, run, states)
                &&& states[0] == first
                &&& states.len() <= PARITY_PROBES@.len()
                &&& probe_refused(hf, run, states.len() - 1, states.last(), refusal)
            };
        let stop = states.len() - 1;
        lemma_states_descend(hf, base, fork, run, states, stop);
        let text = PARITY_PROBES@[stop];
        if let Refusal::ParityFailed { .. } = refusal {
            let (reference, fast, after) = choose|reference: Seq<u32>, fast: Vec<u32>, after: T|
                {
                    &&& #[trigger] readings_possible(hf, text@, reference, reference)
                    &&& #[trigger] stepped(run, states.last(), text, fast, after)
                    &&& parity_verdict(stop, reference, fast@) == Err::<(), Refusal>(refusal)
                };
            assert(ran_on(run, states.last(), text, fast@));
        }
    }
}

/// The fast path engages exactly where it may: where the HuggingFace tokenizer
/// neither truncates nor pads and gives on every probe, with special tokens
/// and without, the ids of the loaded vocabulary. `vocabulary` says what the
/// forks of the loaded instance encode a text to, and `reading` what the
/// HuggingFace tokenizer makes of it.
pub proof fn engages_exactly_on_agreement<
    T,
    F: Fn(&T) -> T,
    E: Fn(Instance<'_, T>, &str) -> Vec<u32>,
>(
    hf: Tokenizer,
    base: T,
    fork: F,
    run: E,
    vocabulary: spec_fn(Seq<char>) -> Seq<u32>,
    reading: spec_fn(Seq<char>, bool) -> Result<Seq<u32>, Seq<char>>,
    outcome: Result<(), Refusal>,
)
    requires
        self_check_outcome(hf, base, fork, run, outcome),
        forks_encode_as(fork, base, run, vocabulary),
        forall|text: Seq<char>, add_special_tokens: bool, outcome: Result<Seq<u32>, Seq<char>>|
         #[trigger]
            reference_can_yield(hf, text, add_special_tokens, outcome) ==> outcome == reading(
                text,
                add_special_tokens,
            ),
    ensures
        outcome is Ok <==> {
            &&& !truncation_configured(hf)
            &&& !padding_configured(hf)
            &&& forall|k: int, add_special_tokens: bool|
                0 <= k < PARITY_PROBES@.len() ==> #[trigger] reading(
                    PARITY_PROBES@[k]@,
                    add_special_tokens,
                ) == Ok::<Seq<u32>, Seq<char>>(vocabulary(PARITY_PROBES@[k]@))
        },
{
    if outcome is Ok {
        assert forall|k: int, add_special_tokens: bool|
            0 <= k < PARITY_PROBES@.len() implies #[trigger] reading(
            PARITY_PROBES@[k]@,
            add_special_tokens,
        ) == Ok::<Seq<u32>, Seq<char>>(vocabulary(PARITY_PROBES@[k]@)) by {
            passing_means_parity(hf, base, fork, run, k);
            let (state, ids) = choose|state: T, ids: Seq<u32>|
                {
                    &&& #[trigger] ran_on(run, state, PARITY_PROBES@[k], ids)
                    &&& descends(fork, base, run, PARITY_PROBES@.take(k), state)
                    &&& reference_can_yield(hf, PARITY_PROBES@[k]@, true, Ok(ids))
                    &&& reference_can_yield(hf, PARITY_PROBES@[k]@, false, Ok(ids))
                };
            lemma_forks_give_the_vocabularys_ids(
                base,
                fork,
                run,
                vocabulary,
                PARITY_PROBES@.take(k),
                state,
                PARITY_PROBES@[k],
                ids,
            );
        }
        passing_means_parity(hf, base, fork, run, 0);
    } else if !truncation_configured(hf) && !padding_configured(hf) && forall|
        k: int,
        add_special_tokens: bool,
    |
        0 <= k < PARITY_PROBES@.len() ==> #[trigger] reading(PARITY_PROBES@[k]@, add_special_tokens)
            == Ok::<Seq<u32>, Seq<char>>(vocabulary(PARITY_PROBES@[k]@)) {
        let expected = Seq::new(PARITY_PROBES@.len(), |k: int| vocabulary(PARITY_PROBES@[k]@));
        assert forall|k: int, state: T, ids: Seq<u32>|
            0 <= k < PARITY_PROBES@.len() && #[trigger] ran_on(run, state, PARITY_PROBES@[k], ids)
                && descends(fork, base, run, PARITY_PROBES@.take(k), state) implies ids
            == expected[k] by {
            lemma_forks_give_the_vocabularys_ids(
                base,
                fork,
                run,
                vocabulary,
                PARITY_PROBES@.take(k),
                state,
                PARITY_PROBES@[k],
                ids,
            );
        }
        agreement_engages(hf, base, fork, run, expected, outcome);
    }
}

/// A fork encodes to what the vocabulary says.
pub(crate) proof fn lemma_forks_give_the_vocabularys_ids<
    T,
    F: Fn(&T) -> T,
    E: Fn(Instance<'_, T>, &str) -> Vec<u32>,
>(
    base: T,
    fork: F,
    run: E,
    vocabulary: spec_fn(Seq<char>) -> Seq<u32>,
    texts: Seq<&str>,
    state: T,
    text: &str,
    ids: Seq<u32>,
)
    requires
        forks_encode_as(fork, base, run, vocabulary),
        descends(fork, base, run, texts, state),
        ran_on(run, state, text, ids),
    ensures
        ids == vocabulary(text@),
{
    let (instance, out) = choose|instance: Instance<'_, T>, out: Vec<u32>| #[trigger]
        ran(run, instance, text, out) && *instance.0 == state && out@ == ids;
    assert(descends(fork, base, run, texts, *instance.0));
    assert(call_ensures(run, (instance, text), out));
}

/// Where `run` encodes every text to what `vocabulary` says of it, and
/// `reading` is what the HuggingFace tokenizer makes of a text, the fast path
/// engages exactly where that tokenizer neither truncates nor pads and both say
/// the same of every probe.
pub proof fn engages_exactly_where_both_say_the_same<
    T,
    F: Fn(&T) -> T,
    E: Fn(Instance<'_, T>, &str) -> Vec<u32>,
>(
    hf: Tokenizer,
    base: T,
    fork: F,
    run: E,
    vocabulary: spec_fn(Seq<char>) -> Seq<u32>,
    reading: spec_fn(Seq<char>, bool) -> Result<Seq<u32>, Seq<char>>,
    outcome: Result<(), Refusal>,
)
    requires
        self_check_outcome(hf, base, fork, run, outcome),
        forall|instance: Instance<'_, T>, text: &str, out: Vec<u32>| #[trigger]
            call_ensures(run, (instance, text), out) ==> out@ == vocabulary(text@),
        forall|text: Seq<char>, add_special_tokens: bool, outcome: Result<Seq<u32>, Seq<char>>|
         #[trigger]
            reference_can_yield(hf, text, add_special_tokens, outcome) ==> outcome == reading(
                text,
                add_special_tokens,
            ),
    ensures
        outcome is Ok <==> {
            &&& !truncation_configured(hf)
            &&& !padding_configured(hf)
            &&& forall|k: int, add_special_tokens: bool|
                0 <= k < PARITY_PROBES@.len() ==> #[trigger] reading(
                    PARITY_PROBES@[k]@,
                    add_special_tokens,
                ) == Ok::<Seq<u32>, Seq<char>>(vocabulary(PARITY_PROBES@[k]@))
        },
{
    engages_exactly_on_agreement(hf, base, fork, run, vocabulary, reading, outcome);
}

/// A vocabulary that passed was run on every probe, with one fork of it and in
/// order: on each the call returned exactly the ids that the HuggingFace
/// tokenizer gives, with special tokens and without. `states` are the forms the
/// fork went through.
pub proof fn passing_runs_every_probe<
    T,
    F: Fn(&T) -> T,
    E: Fn(Instance<'_, T>, &str) -> Vec<u32>,
>(hf: Tokenizer, base: T, fork: F, run: E) -> (states: Seq<T>)
    requires
        self_check_outcome(hf, base, fork, run, Ok(())),
    ensures
        !truncation_configured(hf),
        !padding_configured(hf),
        states.len() == PARITY_PROBES@.len() + 1,
        call_ensures(fork, (&base,), states[0]),
        forall|k: int|
            #![trigger PARITY_PROBES@[k]]
            0 <= k < PARITY_PROBES@.len() ==> exists|ids: Vec<u32>|
                {
                    &&& #[trigger] stepped(run, states[k], PARITY_PROBES@[k], ids, states[k + 1])
                    &&& call_ensures(encode_step::<T, E>, (&run, states[k], PARITY_PROBES@[k]), (
                        ids,
                        states[k + 1],
                    ))
                    &&& reference_can_yield(hf, PARITY_PROBES@[k]@, true, Ok(ids@))
                    &&& reference_can_yield(hf, PARITY_PROBES@[k]@, false, Ok(ids@))
                },
{
    let first = choose|first: T| #[trigger]
        forked(fork, base, first) && probes_outcome(hf, run, first, Ok(()));
    probes_pass_one_by_one(hf, run, first)
}

/// Probes that all passed from `first` on were run in order, and on each the
/// call returned exactly the ids that the HuggingFace tokenizer gives, with
/// special tokens and without.
pub proof fn probes_pass_one_by_one<T, E: Fn(Instance<'_, T>, &str) -> Vec<u32>>(
    hf: Tokenizer,
    run: E,
    first: T,
) -> (states: Seq<T>)
    requires
        probes_outcome(hf, run, first, Ok(())),
    ensures
        states.len() == PARITY_PROBES@.len() + 1,
        states[0] == first,
        forall|k: int|
            #![trigger PARITY_PROBES@[k]]
            0 <= k < PARITY_PROBES@.len() ==> exists|ids: Vec<u32>|
                {
                    &&& #[trigger] stepped(run, states[k], PARITY_PROBES@[k], ids, states[k + 1])
                    &&& call_ensures(encode_step::<T, E>, (&run, states[k], PARITY_PROBES@[k]), (
                        ids,
                        states[k + 1],
                    ))
                    &&& reference_can_yield(hf, PARITY_PROBES@[k]@, true, Ok(ids@))
                    &&& reference_can_yield(hf, PARITY_PROBES@[k]@, false, Ok(ids@))
                },
{
    let states = choose|states: Seq<T>|
        {
            &&& #[trigger] went_through(hf, run, states)
            &&& states[0] == first
            &&& states.len() == PARITY_PROBES@.len() + 1
        };
    assert forall|k: int|
        #![trigger PARITY_PROBES@[k]]
        0 <= k < PARITY_PROBES@.len() implies exists|ids: Vec<u32>|
        {
            &&& #[trigger] stepped(run, states[k], PARITY_PROBES@[k], ids, states[k + 1])
            &&& call_ensures(
                encode_step::<T, E>,
                (&run, states[k], PARITY_PROBES@[k]),
                (ids, states[k + 1]),
            )
            &&& reference_can_yield(hf, PARITY_PROBES@[k]@, true, Ok(ids@))
            &&& reference_can_yield(hf, PARITY_PROBES@[k]@, false, Ok(ids@))
        } by {
        assert(advanced(hf, run, states, k));
    }
    states
}

/// Truncation or padding is refused if and only if it is set. Any other refusal
/// comes from a probe that is reached with one fork of the vocabulary, after
/// the probes before it have passed.
pub proof fn refusal_comes_from_the_first_probe_that_fails<
    T,
    F: Fn(&T) -> T,
    E: Fn(Instance<'_, T>, &str) -> Vec<u32>,
>(hf: Tokenizer, base: T, fork: F, run: E, refusal: Refusal) -> (states: Seq<T>)
    requires
        self_check_outcome(hf, base, fork, run, Err(refusal)),
    ensures
        truncation_configured(hf) || padding_configured(hf) <==> refusal is TruncationOrPadding,
        !(refusal is TruncationOrPadding) ==> {
            &&& 0 < states.len() <= PARITY_PROBES@.len()
            &&& call_ensures(fork, (&base,), states[0])
            &&& probe_refused(hf, run, states.len() - 1, states.last(), refusal)
            &&& forall|k: int|
                #![trigger PARITY_PROBES@[k]]
                0 <= k < states.len() - 1 ==> exists|ids: Vec<u32>|
                    {
                        &&& #[trigger] stepped(
                            run,
                            states[k],
                            PARITY_PROBES@[k],
                            ids,
                            states[k + 1],
                        )
                        &&& call_ensures(
                            encode_step::<T, E>,
                            (&run, states[k], PARITY_PROBES@[k]),
                            (ids, states[k + 1]),
                        )
                        &&& reference_can_yield(hf, PARITY_PROBES@[k]@, true, Ok(ids@))
                        &&& reference_can_yield(hf, PARITY_PROBES@[k]@, false, Ok(ids@))
                    }
        },
{
    let first = choose|first: T| #[trigger]
        forked(fork, base, first) && probes_outcome(hf, run, first, Err(refusal));
    let states = choose|states: Seq<T>|
        {
            &&& #[trigger] went_through(hf, run, states)
            &&& states[0] == first
            &&& states.len() <= PARITY_PROBES@.len()
            &&& probe_refused(hf, run, states.len() - 1, states.last(), refusal)
        };
    if !truncation_configured(hf) && !padding_configured(hf) {
        assert forall|k: int| #![trigger PARITY_PROBES@[k]] 0 <= k < states.len()
            - 1 implies exists|ids: Vec<u32>|
            {
                &&& #[trigger] stepped(run, states[k], PARITY_PROBES@[k], ids, states[k + 1])
                &&& call_ensures(
                    encode_step::<T, E>,
                    (&run, states[k], PARITY_PROBES@[k]),
                    (ids, states[k + 1]),
                )
                &&& reference_can_yield(hf, PARITY_PROBES@[k]@, true, Ok(ids@))
                &&& reference_can_yield(hf, PARITY_PROBES@[k]@, false, Ok(ids@))
            } by {
            assert(advanced(hf, run, states, k));
        }
    }
    states
}

/// A probe is refused only for a cause that shows on its text: the HuggingFace
/// tokenizer failed on it with this error, or gave other ids without special
/// tokens than with them, or gave ids other than those that the call returned;
/// and the refusal names that probe.
pub proof fn refused_probe_has_its_cause<T, E: Fn(Instance<'_, T>, &str) -> Vec<u32>>(
    hf: Tokenizer,
    run: E,
    probe: int,
    text: &str,
    before: T,
    refusal: Refusal,
)
    requires
        0 <= probe < PARITY_PROBES@.len(),
        text == PARITY_PROBES@[probe],
        probe_refused(hf, run, probe, before, refusal),
    ensures
        match refusal {
            Refusal::ReferenceFailed { probe: at, error } => at == probe && {
                ||| reference_can_yield(hf, text@, true, Err(error@))
                ||| exists|ids: Seq<u32>| #[trigger]
                    reference_can_yield(hf, text@, true, Ok(ids)) && reference_can_yield(
                        hf,
                        text@,
                        false,
                        Err(error@),
                    )
            },
            Refusal::SpecialTokensAdded { probe: at } => at == probe && exists|
                with_special: Seq<u32>,
                without_special: Seq<u32>,
            | #[trigger]
                reference_can_yield(hf, text@, true, Ok(with_special)) && #[trigger]
                reference_can_yield(hf, text@, false, Ok(without_special)) && with_special
                    != without_special,
            Refusal::ParityFailed { probe: at, reference_len, fast_len } => at == probe && exists|
                reference: Seq<u32>,
                fast: Vec<u32>,
                after: T,
            |
                {
                    &&& #[trigger] reference_can_yield(hf, text@, true, Ok(reference))
                    &&& reference_can_yield(hf, text@, false, Ok(reference))
                    &&& #[trigger] stepped(run, before, text, fast, after)
                    &&& call_ensures(encode_step::<T, E>, (&run, before, text), (fast, after))
                    &&& fast@ != reference
                    &&& reference_len == reference.len() as usize
                    &&& fast_len == fast@.len() as usize
                },
            _ => false,
        },
{
    match refusal {
        Refusal::SpecialTokensAdded { .. } => {
            let (with_special, without_special) = choose|
                with_special: Seq<u32>,
                without_special: Seq<u32>,
            |
                {
                    &&& #[trigger] readings_possible(hf, text@, with_special, without_special)
                    &&& readings_verdict(probe, with_special, without_special) == Err::<
                        (),
                        Refusal,
                    >(refusal)
                };
            assert(reference_can_yield(hf, text@, true, Ok(with_special)));
            assert(reference_can_yield(hf, text@, false, Ok(without_special)));
        },
        Refusal::ParityFailed { .. } => {
            let (reference, fast, after) = choose|reference: Seq<u32>, fast: Vec<u32>, after: T|
                {
                    &&& #[trigger] readings_possible(hf, text@, reference, reference)
                    &&& #[trigger] stepped(run, before, text, fast, after)
                    &&& parity_verdict(probe, reference, fast@) == Err::<(), Refusal>(refusal)
                };
            assert(reference_can_yield(hf, text@, true, Ok(reference)));
            assert(stepped(run, before, text, fast, after));
        },
        _ => {},
    }
}

/// The probes are these texts, in this order.
pub proof fn probes_are_these_texts()
    ensures
        PARITY_PROBES@ == seq![
            "",
            " ",
            "Hello, world!",
            "fn main() { let x: Vec<u32> = vec![1, 2, 3]; }",
            "  \t\n\n   trailing and   repeated   whitespace \n",
            "0123456789 1234 99999 007",
            "日本語のテキストと中文混排",
            "emoji: 👨‍👩‍👧‍👦 🇯🇵 🏳️‍🌈",
            "combining: éé àà ñ e\u{301} a\u{300} n\u{303}",
            "עברית وعربي RTL text",
            "<|system|>\nYou are helpful.<|user|>\nhi<|assistant|>\n",
            "[gMASK]<sop><|user|>\nwrite a haiku<|assistant|>\n<think>",
            "<tool_call>{\"name\": \"get_weather\"}</tool_call>",
        ],
{
}

} // verus!
