//! Running the fast tokenizer.
//!
//! The fast tokenizer is a type parameter. Callers hand in the function that
//! makes an instance from another and the function that encodes a text with an
//! instance; the crate speaks of what those functions can return.
//!
//! Encoding may change the instance, which keeps caches. So an instance is
//! described by where it comes from: the one it was forked from, and the texts
//! it has encoded since.

use vstd::prelude::*;

verus! {

/// Exclusive access to one instance of the fast tokenizer.
pub struct Instance<'a, T>(pub &'a mut T);

/// Whether `fork` can make `made` from `base`.
pub open spec fn forked<T, F: Fn(&T) -> T>(fork: F, base: T, made: T) -> bool {
    call_ensures(fork, (&base,), made)
}

/// Whether `run` can encode `text` to `out` with this access to an instance.
pub open spec fn ran<T, E: Fn(Instance<'_, T>, &str) -> Vec<u32>>(
    run: E,
    instance: Instance<'_, T>,
    text: &str,
    out: Vec<u32>,
) -> bool {
    call_ensures(run, (instance, text), out)
}

/// Whether `run` can encode `text` to `ids` with an instance that is `value`
/// when the call is made.
pub open spec fn ran_on<T, E: Fn(Instance<'_, T>, &str) -> Vec<u32>>(
    run: E,
    value: T,
    text: &str,
    ids: Seq<u32>,
) -> bool {
    exists|instance: Instance<'_, T>, out: Vec<u32>| #[trigger]
        ran(run, instance, text, out) && *instance.0 == value && out@ == ids
}

/// Whether `run` may be called with any instance on `text`.
pub open spec fn runs_on<T, E: Fn(Instance<'_, T>, &str) -> Vec<u32>>(run: E, text: &str) -> bool {
    forall|instance: Instance<'_, T>| call_requires(run, (instance, text))
}

/// Encodes `text` with an instance.
pub(crate) fn encode_with<T, E: Fn(Instance<'_, T>, &str) -> Vec<u32>>(
    run: &E,
    state: &mut T,
    text: &str,
) -> (ids: Vec<u32>)
    requires
        runs_on::<T, E>(*run, text),
    ensures
        ran_on(*run, *old(state), text, ids@),
        exists|instance: Instance<'_, T>|
            {
                &&& #[trigger] ran(*run, instance, text, ids)
                &&& call_ensures(*run, (instance, text), ids)
                &&& *instance.0 == *old(state)
                &&& *final(instance.0) == *final(state)
            },
{
    let instance = Instance(state);
    let ghost held = instance;
    let ids = run(instance, text);
    assert(ran(*run, held, text, ids));
    ids
}

/// Encodes `text` with an instance, and gives the instance back as the call
/// left it.
pub fn encode_step<T, E: Fn(Instance<'_, T>, &str) -> Vec<u32>>(
    run: &E,
    state: T,
    text: &str,
) -> (step: (Vec<u32>, T))
    requires
        runs_on::<T, E>(*run, text),
    ensures
        ran_on(*run, state, text, step.0@),
        exists|instance: Instance<'_, T>|
            {
                &&& #[trigger] ran(*run, instance, text, step.0)
                &&& call_ensures(*run, (instance, text), step.0)
                &&& *instance.0 == state
                &&& *final(instance.0) == step.1
            },
{
    let mut state = state;
    let ghost before = state;
    let ids = encode_with(run, &mut state, text);
    let ghost instance = choose|instance: Instance<'_, T>|
        {
            &&& #[trigger] ran(*run, instance, text, ids)
            &&& *instance.0 == before
            &&& *final(instance.0) == state
        };
    let step = (ids, state);
    assert(ran(*run, instance, text, step.0));
    step
}

/// Whether encoding `text` with an instance that is `before` can give `ids`
/// and leave it as `after`.
pub open spec fn stepped<T, E: Fn(Instance<'_, T>, &str) -> Vec<u32>>(
    run: E,
    before: T,
    text: &str,
    ids: Vec<u32>,
    after: T,
) -> bool {
    call_ensures(encode_step::<T, E>, (&run, before, text), (ids, after))
}

/// Whether `state` can be a fork of `base` that has encoded `texts`, in that
/// order and nothing else.
pub open spec fn descends<T, F: Fn(&T) -> T, E: Fn(Instance<'_, T>, &str) -> Vec<u32>>(
    fork: F,
    base: T,
    run: E,
    texts: Seq<&str>,
    state: T,
) -> bool
    decreases texts.len(),
{
    if texts.len() == 0 {
        forked(fork, base, state)
    } else {
        exists|before: T, ids: Vec<u32>|
            {
                &&& #[trigger] stepped(run, before, texts.last(), ids, state)
                &&& descends(fork, base, run, texts.drop_last(), before)
            }
    }
}

/// Whether every fork of `base` encodes every text to what `vocabulary` says,
/// whatever it has encoded before.
pub open spec fn forks_encode_as<T, F: Fn(&T) -> T, E: Fn(Instance<'_, T>, &str) -> Vec<u32>>(
    fork: F,
    base: T,
    run: E,
    vocabulary: spec_fn(Seq<char>) -> Seq<u32>,
) -> bool {
    forall|texts: Seq<&str>, instance: Instance<'_, T>, text: &str, ids: Vec<u32>|
        #![trigger
            descends(fork, base, run, texts, *instance.0),
            call_ensures(run, (instance, text), ids)]
        descends(fork, base, run, texts, *instance.0) && call_ensures(run, (instance, text), ids)
            ==> ids@ == vocabulary(text@)
}

/// What `run` encodes a text to are the ids that a call of it returned, all of
/// them and nothing else; the instance was `value` when the call was made.
pub proof fn encoding_is_what_the_call_returned<T, E: Fn(Instance<'_, T>, &str) -> Vec<u32>>(
    run: E,
    value: T,
    text: &str,
    ids: Seq<u32>,
)
    requires
        ran_on(run, value, text, ids),
    ensures
        exists|instance: Instance<'_, T>, out: Vec<u32>|
            {
                &&& #[trigger] ran(run, instance, text, out)
                &&& call_ensures(run, (instance, text), out)
                &&& *instance.0 == value
                &&& out@ == ids
            },
{
}

/// A step is a call of `run`: it gives the ids that the call returned, and
/// leaves the instance as the call left it.
pub proof fn step_is_one_call<T, E: Fn(Instance<'_, T>, &str) -> Vec<u32>>(
    run: E,
    before: T,
    text: &str,
    ids: Vec<u32>,
    after: T,
)
    requires
        stepped(run, before, text, ids, after),
    ensures
        call_ensures(encode_step::<T, E>, (&run, before, text), (ids, after)),
        exists|instance: Instance<'_, T>|
            {
                &&& #[trigger] ran(run, instance, text, ids)
                &&& call_ensures(run, (instance, text), ids)
                &&& *instance.0 == before
                &&& *final(instance.0) == after
            },
{
}

/// A fork that has encoded nothing is one that `fork` made. One that has
/// encoded texts was left by a call on the last of them, made on a fork that
/// had encoded the others.
pub proof fn forks_change_by_encoding_only<
    T,
    F: Fn(&T) -> T,
    E: Fn(Instance<'_, T>, &str) -> Vec<u32>,
>(fork: F, base: T, run: E, texts: Seq<&str>, state: T)
    requires
        descends(fork, base, run, texts, state),
    ensures
        texts.len() == 0 ==> call_ensures(fork, (&base,), state),
        texts.len() > 0 ==> exists|before: T, ids: Vec<u32>|
            {
                &&& #[trigger] stepped(run, before, texts.last(), ids, state)
                &&& call_ensures(encode_step::<T, E>, (&run, before, texts.last()), (ids, state))
                &&& descends(fork, base, run, texts.drop_last(), before)
            },
{
}

} // verus!
