//! Pool slots: instances of the fast tokenizer behind locks.
//!
//! Whether a lock can be taken depends on the other threads, so nothing is
//! claimed of what taking it returns. Contracts speak of the calls that were
//! made and of what came back from them.
//!
//! An instance that a panic escaped from may be half-way through an update of
//! its caches. Its lock is poisoned then: taking it fails from there on, and
//! the instance is never given out again.
//!
//! Every attempt carries the ticket of the call that makes it. So what a slot
//! does to one call says nothing of what it does to another: a slot can give
//! its guard to the calls up to some point, and to none after that.

use crate::instance::{encode_with, ran, ran_on, runs_on, Instance};
use crate::ring::{
    attempt_plan, plan_covers_every_slot_in_both_rounds, ring_slot, step_of, Attempt, RingScan,
};
use std::ops::DerefMut;
use std::sync::{LockResult, Mutex, MutexGuard, PoisonError, TryLockError, TryLockResult};
use vstd::prelude::*;

verus! {

/// `std::sync::Mutex`, opaque here.
#[verifier::external_type_specification]
#[verifier::external_body]
#[verifier::reject_recursive_types(T)]
pub struct ExMutex<T: ?Sized>(Mutex<T>);

/// `std::sync::MutexGuard`, opaque here.
#[verifier::external_type_specification]
#[verifier::external_body]
#[verifier::reject_recursive_types(T)]
pub struct ExMutexGuard<'a, T: ?Sized + 'a>(MutexGuard<'a, T>);

/// `std::sync::PoisonError`, opaque here.
#[verifier::external_type_specification]
#[verifier::external_body]
#[verifier::reject_recursive_types(T)]
pub struct ExPoisonError<T>(PoisonError<T>);

/// `std::sync::TryLockError`, opaque here.
#[verifier::external_type_specification]
#[verifier::external_body]
#[verifier::reject_recursive_types(T)]
pub struct ExTryLockError<T>(TryLockError<T>);

/// `Mutex::new`. Nothing is claimed of the lock it returns.
pub assume_specification<T>[ Mutex::<T>::new ](value: T) -> Mutex<T>;

/// `Mutex::try_lock`. Nothing is claimed of the outcome. The call returns an
/// error where the lock is held, and where it is poisoned.
pub assume_specification<'a, T: ?Sized>[ Mutex::<T>::try_lock ](
    lock: &'a Mutex<T>,
) -> TryLockResult<MutexGuard<'a, T>>;

/// `Mutex::lock`. Nothing is claimed of the outcome. The call waits while the
/// lock is held, and returns an error where it is poisoned.
pub assume_specification<'a, T: ?Sized>[ Mutex::<T>::lock ](
    lock: &'a Mutex<T>,
) -> LockResult<MutexGuard<'a, T>>;

/// Calls `DerefMut::deref_mut` on a guard: access to what the lock holds.
/// Nothing is claimed of the value.
#[verifier::external_body]
pub(crate) fn held_by<'g, 'a, T>(guard: &'g mut MutexGuard<'a, T>) -> (held: &'g mut T) {
    guard.deref_mut()
}

/// Whether a guard can give access to an instance that is `value`: whether the
/// access that [`held_by`] calls for can be to that value.
pub closed spec fn gave<T>(guard: MutexGuard<'_, T>, value: T) -> bool {
    exists|access: &mut MutexGuard<'_, T>, held: &mut T|
        {
            &&& #[trigger] call_ensures(held_by::<T>, (access,), held)
            &&& *access == guard
            &&& *held == value
        }
}

/// Whether `run` can encode `text` to `ids` with the instance behind `guard`.
pub open spec fn encoded_by<T, E: Fn(Instance<'_, T>, &str) -> Vec<u32>>(
    guard: MutexGuard<'_, T>,
    run: E,
    text: &str,
    ids: Seq<u32>,
) -> bool {
    exists|value: T| #[trigger] gave(guard, value) && ran_on(run, value, text, ids)
}

/// Encodes `text` with the instance behind a guard, and lets go of it.
pub(crate) fn encode_held<T, E: Fn(Instance<'_, T>, &str) -> Vec<u32>>(
    guard: MutexGuard<'_, T>,
    run: &E,
    text: &str,
) -> (ids: Vec<u32>)
    requires
        runs_on::<T, E>(*run, text),
    ensures
        encoded_by(guard, *run, text, ids@),
        exists|access: &mut MutexGuard<'_, T>, held: &mut T, instance: Instance<'_, T>|
            {
                &&& #[trigger] call_ensures(held_by::<T>, (access,), held)
                &&& *access == guard
                &&& #[trigger] ran(*run, instance, text, ids)
                &&& call_ensures(*run, (instance, text), ids)
                &&& *instance.0 == *held
            },
{
    let mut guard_now = guard;
    let held = held_by(&mut guard_now);
    let ghost value = *held;
    assert(gave(guard, value));
    encode_with(run, held, text)
}

/// Whether `Mutex::new` gave `lock` for `value`.
pub open spec fn lock_made<T>(value: T, lock: Mutex<T>) -> bool {
    call_ensures(Mutex::<T>::new, (value,), lock)
}

/// Whether `Mutex::try_lock` gave `outcome`.
pub open spec fn try_lock_gave<'a, T>(
    lock: &'a Mutex<T>,
    outcome: TryLockResult<MutexGuard<'a, T>>,
) -> bool {
    call_ensures(Mutex::<T>::try_lock, (lock,), outcome)
}

/// Whether `Mutex::lock` gave `outcome`.
pub open spec fn lock_gave<'a, T>(
    lock: &'a Mutex<T>,
    outcome: LockResult<MutexGuard<'a, T>>,
) -> bool {
    call_ensures(Mutex::<T>::lock, (lock,), outcome)
}

/// Takes a lock if it is free right now. The ticket says for which call.
pub fn try_take<'a, T>(lock: &'a Mutex<T>, _ticket: usize) -> (outcome: TryLockResult<
    MutexGuard<'a, T>,
>)
    ensures
        try_lock_gave(lock, outcome),
        call_ensures(Mutex::<T>::try_lock, (lock,), outcome),
{
    lock.try_lock()
}

/// Waits for a lock and takes it. The ticket says for which call.
pub fn wait_take<'a, T>(lock: &'a Mutex<T>, _ticket: usize) -> (outcome: LockResult<
    MutexGuard<'a, T>,
>)
    ensures
        lock_gave(lock, outcome),
        call_ensures(Mutex::<T>::lock, (lock,), outcome),
{
    lock.lock()
}

/// Whether taking a lock right away gave `outcome` to the call with `ticket`.
pub open spec fn try_gave_to<'a, T>(
    lock: &'a Mutex<T>,
    ticket: usize,
    outcome: TryLockResult<MutexGuard<'a, T>>,
) -> bool {
    call_ensures(try_take::<T>, (lock, ticket), outcome)
}

/// Whether waiting for a lock gave `outcome` to the call with `ticket`.
pub open spec fn wait_gave_to<'a, T>(
    lock: &'a Mutex<T>,
    ticket: usize,
    outcome: LockResult<MutexGuard<'a, T>>,
) -> bool {
    call_ensures(wait_take::<T>, (lock, ticket), outcome)
}

/// Whether an attempt to get hold of a slot of `pool` gave `guard` to the call
/// with `ticket`.
pub open spec fn attempt_gave<'a, T>(
    pool: Seq<Mutex<T>>,
    ticket: usize,
    attempt: Attempt,
    guard: MutexGuard<'a, T>,
) -> bool {
    match attempt {
        Attempt::TryLock(slot) => try_gave_to(&pool[slot as int], ticket, Ok(guard)),
        Attempt::Lock(slot) => wait_gave_to(&pool[slot as int], ticket, Ok(guard)),
    }
}

/// Whether an attempt to get hold of a slot of `pool` failed for the call with
/// `ticket`.
pub open spec fn attempt_failed<T>(pool: Seq<Mutex<T>>, ticket: usize, attempt: Attempt) -> bool {
    match attempt {
        Attempt::TryLock(slot) => exists|error: TryLockError<MutexGuard<'_, T>>| #[trigger]
            try_gave_to(&pool[slot as int], ticket, Err(error)),
        Attempt::Lock(slot) => exists|error: PoisonError<MutexGuard<'_, T>>| #[trigger]
            wait_gave_to(&pool[slot as int], ticket, Err(error)),
    }
}

/// The slot at which a call with `ticket` starts.
pub open spec fn start_of(ticket: usize, slots: nat) -> int {
    ticket as int % slots as int
}

/// All attempts that a call with `ticket` makes, in order.
pub open spec fn plan_of(ticket: usize, slots: nat) -> Seq<Attempt> {
    attempt_plan(start_of(ticket, slots), slots as int)
}

/// Whether the scan of `pool` for the call with `ticket` ended with `guard`:
/// the attempt that gave it was the first of the plan that did not fail; or
/// with nothing, where all attempts of the plan failed.
pub open spec fn scan_gave<'a, T>(
    pool: Seq<Mutex<T>>,
    ticket: usize,
    guard: Option<MutexGuard<'a, T>>,
) -> bool {
    match guard {
        Some(guard) => exists|k: int|
            {
                &&& 0 <= k < plan_of(ticket, pool.len()).len()
                &&& #[trigger] attempt_gave(pool, ticket, plan_of(ticket, pool.len())[k], guard)
                &&& all_failed(pool, ticket, plan_of(ticket, pool.len()).take(k))
            },
        None => all_failed(pool, ticket, plan_of(ticket, pool.len())),
    }
}

/// Whether all these attempts failed for the call with `ticket`.
pub open spec fn all_failed<T>(
    pool: Seq<Mutex<T>>,
    ticket: usize,
    attempts: Seq<Attempt>,
) -> bool {
    forall|j: int| 0 <= j < attempts.len() ==> attempt_failed(pool, ticket, #[trigger] attempts[j])
}

/// Whether every slot of `pool` turned the call with `ticket` down, both right
/// away and after it waited.
pub open spec fn out_of_service<T>(pool: Seq<Mutex<T>>, ticket: usize) -> bool {
    forall|slot: usize|
        slot < pool.len() ==> #[trigger] attempt_failed(pool, ticket, Attempt::TryLock(slot))
            && attempt_failed(pool, ticket, Attempt::Lock(slot))
}

/// Whether a slot is retired when the call with `ticket` comes: no attempt on
/// it gives that call a guard. `std` documents this of a lock that was poisoned
/// before the call.
pub open spec fn retired_for<T>(pool: Seq<Mutex<T>>, ticket: usize, slot: usize) -> bool {
    forall|attempt: Attempt, guard: MutexGuard<'_, T>|
        attempt.slot() == slot ==> !#[trigger] attempt_gave(pool, ticket, attempt, guard)
}

/// Whether every slot of `pool` is retired when the call with `ticket` comes.
pub open spec fn all_retired_for<T>(pool: Seq<Mutex<T>>, ticket: usize) -> bool {
    forall|slot: usize| slot < pool.len() ==> #[trigger] retired_for(pool, ticket, slot)
}

/// Makes one attempt to get hold of a slot.
fn take<T>(slots: &Vec<Mutex<T>>, ticket: usize, attempt: Attempt) -> (guard: Option<
    MutexGuard<'_, T>,
>)
    requires
        attempt.slot() < slots@.len(),
    ensures
        match guard {
            Some(guard) => attempt_gave(slots@, ticket, attempt, guard),
            None => attempt_failed(slots@, ticket, attempt),
        },
{
    match attempt {
        Attempt::TryLock(slot) => match try_take(&slots[slot], ticket) {
            Ok(guard) => Some(guard),
            Err(error) => {
                assert(try_gave_to(&slots@[slot as int], ticket, Err(error)));
                None
            },
        },
        Attempt::Lock(slot) => match wait_take(&slots[slot], ticket) {
            Ok(guard) => Some(guard),
            Err(error) => {
                assert(wait_gave_to(&slots@[slot as int], ticket, Err(error)));
                None
            },
        },
    }
}

/// Gets hold of a slot: makes the attempts of [`RingScan`] from the slot of
/// `ticket` until one succeeds. `None` means that all of them failed.
pub(crate) fn scan_slots<T>(slots: &Vec<Mutex<T>>, ticket: usize) -> (guard: Option<
    MutexGuard<'_, T>,
>)
    requires
        slots@.len() > 0,
    ensures
        scan_gave(slots@, ticket, guard),
        guard is None ==> out_of_service(slots@, ticket),
        all_retired_for(slots@, ticket) ==> guard is None,
{
    let ghost pool = slots@;
    let ghost plan = plan_of(ticket, pool.len());
    let ghost mut made: int = 0;
    let mut scan = RingScan::new(ticket, slots.len());
    assert(plan.skip(0) =~= plan);
    loop
        invariant
            pool == slots@,
            0 < pool.len() <= usize::MAX,
            plan == plan_of(ticket, pool.len()),
            scan.well_formed(),
            scan.ring_size() == slots.len(),
            0 <= made <= plan.len(),
            scan.remaining() == plan.skip(made),
            all_failed(pool, ticket, plan.take(made)),
        decreases plan.len() - made,
    {
        let attempt = match scan.next_attempt() {
            Some(attempt) => attempt,
            None => {
                proof {
                    assert(plan.take(made) =~= plan);
                    scan_fails_only_if_every_slot_does(pool, ticket);
                }
                return None;
            },
        };
        assert(attempt == plan[made]);
        match take(slots, ticket, attempt) {
            Some(guard) => {
                proof {
                    assert(attempt_gave(pool, ticket, plan[made], guard));
                    assert(!retired_for(pool, ticket, attempt.slot()));
                }
                return Some(guard);
            },
            None => {
                scan.reject();
                proof {
                    assert(plan.take(made + 1) =~= plan.take(made).push(plan[made]));
                    assert(plan.skip(made).skip(1) =~= plan.skip(made + 1));
                    made = made + 1;
                }
            },
        }
    }
}

/// A call gets no slot only where every slot has turned it down, right away
/// and after waiting. So one slot that waiting can get hold of is enough for
/// the call to be served, however busy the pool is.
pub proof fn scan_fails_only_if_every_slot_does<T>(pool: Seq<Mutex<T>>, ticket: usize)
    requires
        0 < pool.len() <= usize::MAX,
        scan_gave(pool, ticket, None),
    ensures
        out_of_service(pool, ticket),
{
    let plan = plan_of(ticket, pool.len());
    let slots = pool.len() as usize;
    let start = (ticket % slots) as usize;
    assert forall|slot: usize| slot < pool.len() implies #[trigger] attempt_failed(
        pool,
        ticket,
        Attempt::TryLock(slot),
    ) && attempt_failed(pool, ticket, Attempt::Lock(slot)) by {
        plan_covers_every_slot_in_both_rounds(start, slots, slot);
        let step = step_of(start as int, slot as int, slots as int);
        assert(attempt_failed(pool, ticket, plan[step]));
        assert(attempt_failed(pool, ticket, plan[slots + step]));
    }
}

/// A call waits for a slot only after every slot has turned that call down
/// right away: where one of them did not, the attempt that served the call came
/// in the first round, and so did all attempts before it.
pub proof fn scan_waits_only_if_no_slot_is_free<'a, T>(
    pool: Seq<Mutex<T>>,
    ticket: usize,
    free: usize,
    guard: Option<MutexGuard<'a, T>>,
)
    requires
        free < pool.len() <= usize::MAX,
        scan_gave(pool, ticket, guard),
        !attempt_failed(pool, ticket, Attempt::TryLock(free)),
    ensures
        guard matches Some(guard) && exists|k: int|
            {
                &&& 0 <= k < pool.len()
                &&& #[trigger] attempt_gave(pool, ticket, plan_of(ticket, pool.len())[k], guard)
                &&& all_failed(pool, ticket, plan_of(ticket, pool.len()).take(k))
                &&& forall|j: int|
                    0 <= j <= k ==> (#[trigger] plan_of(ticket, pool.len())[j]) is TryLock
            },
{
    let plan = plan_of(ticket, pool.len());
    let slots = pool.len() as usize;
    let start = (ticket % slots) as usize;
    plan_covers_every_slot_in_both_rounds(start, slots, free);
    let step = step_of(start as int, free as int, slots as int);
    assert(plan[step] == Attempt::TryLock(free));
    match guard {
        Some(given) => {
            let k = choose|k: int|
                {
                    &&& 0 <= k < plan.len()
                    &&& #[trigger] attempt_gave(pool, ticket, plan[k], given)
                    &&& all_failed(pool, ticket, plan.take(k))
                };
            if k > step {
                assert(plan.take(k)[step] == plan[step]);
            }
            assert(k < pool.len());
        },
        None => {
            assert(attempt_failed(pool, ticket, plan[step]));
        },
    }
}

/// A call never gets hold of a slot that is retired when it comes: its guard
/// comes from another one.
pub proof fn scan_passes_over_retired_slots<'a, T>(
    pool: Seq<Mutex<T>>,
    ticket: usize,
    guard: MutexGuard<'a, T>,
    slot: usize,
)
    requires
        scan_gave(pool, ticket, Some(guard)),
        retired_for(pool, ticket, slot),
    ensures
        exists|attempt: Attempt| #[trigger]
            attempt_gave(pool, ticket, attempt, guard) && attempt.slot() != slot,
{
}

/// A call that comes when every slot is retired gets no slot.
pub proof fn scan_of_retired_pool_fails<'a, T>(
    pool: Seq<Mutex<T>>,
    ticket: usize,
    guard: Option<MutexGuard<'a, T>>,
)
    requires
        0 < pool.len() <= usize::MAX,
        scan_gave(pool, ticket, guard),
        all_retired_for(pool, ticket),
    ensures
        guard is None,
{
    if let Some(given) = guard {
        let start = start_of(ticket, pool.len());
        let plan = plan_of(ticket, pool.len());
        let k = choose|k: int|
            {
                &&& 0 <= k < plan.len()
                &&& #[trigger] attempt_gave(pool, ticket, plan[k], given)
                &&& all_failed(pool, ticket, plan.take(k))
            };
        vstd::arithmetic::div_mod::lemma_mod_bound(start + k, pool.len() as int);
        vstd::arithmetic::div_mod::lemma_mod_bound(start + k - pool.len(), pool.len() as int);
        assert(retired_for(pool, ticket, plan[k].slot()));
    }
}

/// What is encoded behind a guard is what a call of `run` returned, all of it,
/// and the call was made on the instance that the guard gives access to.
pub(crate) proof fn guard_encodes_with_its_instance<
    T,
    E: Fn(Instance<'_, T>, &str) -> Vec<u32>,
>(guard: MutexGuard<'_, T>, run: E, text: &str, ids: Seq<u32>)
    requires
        encoded_by(guard, run, text, ids),
    ensures
        exists|
            access: &mut MutexGuard<'_, T>,
            held: &mut T,
            instance: Instance<'_, T>,
            out: Vec<u32>,
        |
            {
                &&& #[trigger] call_ensures(held_by::<T>, (access,), held)
                &&& *access == guard
                &&& #[trigger] ran(run, instance, text, out)
                &&& call_ensures(run, (instance, text), out)
                &&& *instance.0 == *held
                &&& out@ == ids
            },
{
}

/// A call goes round the ring twice, from the slot of its ticket: in the first
/// round it takes each lock only if it is free right away, in the second it
/// waits for each. It ends with the first lock that it got, after `made`
/// attempts that failed, or with nothing where all of them failed.
pub proof fn call_goes_round_the_ring_twice<'a, T>(
    pool: Seq<Mutex<T>>,
    ticket: usize,
    guard: Option<MutexGuard<'a, T>>,
) -> (made: int)
    requires
        0 < pool.len() <= usize::MAX,
        scan_gave(pool, ticket, guard),
    ensures
        0 <= made <= 2 * pool.len(),
        guard is None <==> made == 2 * pool.len(),
        guard matches Some(given) ==> {
            let lock = &pool[(ticket + made) % (pool.len() as int)];
            &&& made < pool.len() ==> call_ensures(try_take::<T>, (lock, ticket), Ok(given))
            &&& made >= pool.len() ==> call_ensures(wait_take::<T>, (lock, ticket), Ok(given))
        },
        forall|j: int|
            0 <= j < made && j < pool.len()
                ==> (#[trigger] plan_of(ticket, pool.len())[j]) is TryLock && exists|
                error: TryLockError<MutexGuard<'_, T>>,
            | #[trigger]
                try_gave_to(&pool[(ticket + j) % (pool.len() as int)], ticket, Err(error))
                    && call_ensures(
                    try_take::<T>,
                    (&pool[(ticket + j) % (pool.len() as int)], ticket),
                    Err(error),
                ),
        forall|j: int|
            pool.len() <= j < made ==> (#[trigger] plan_of(ticket, pool.len())[j]) is Lock
                && exists|error: PoisonError<MutexGuard<'_, T>>| #[trigger]
                wait_gave_to(&pool[(ticket + j) % (pool.len() as int)], ticket, Err(error))
                    && call_ensures(
                    wait_take::<T>,
                    (&pool[(ticket + j) % (pool.len() as int)], ticket),
                    Err(error),
                ),
{
    let n = pool.len() as int;
    let plan = plan_of(ticket, pool.len());
    lemma_plan_at(ticket, pool.len(), 0);
    let made = match guard {
        Some(given) => choose|k: int|
            {
                &&& 0 <= k < plan.len()
                &&& #[trigger] attempt_gave(pool, ticket, plan[k], given)
                &&& all_failed(pool, ticket, plan.take(k))
            },
        None => 2 * n,
    };
    if made < 2 * n {
        lemma_plan_at(ticket, pool.len(), made);
    }
    assert forall|j: int| 0 <= j < made implies attempt_failed(
        pool,
        ticket,
        #[trigger] plan[j],
    ) by {
        assert(guard is Some ==> plan.take(made)[j] == plan[j]);
    }
    assert forall|j: int|
        0 <= j < made && j
            < pool.len() implies (#[trigger] plan_of(ticket, pool.len())[j]) is TryLock
        && exists|error: TryLockError<MutexGuard<'_, T>>| #[trigger]
        try_gave_to(&pool[(ticket + j) % (pool.len() as int)], ticket, Err(error))
            && call_ensures(
            try_take::<T>,
            (&pool[(ticket + j) % (pool.len() as int)], ticket),
            Err(error),
        ) by {
        lemma_plan_at(ticket, pool.len(), j);
        assert(attempt_failed(pool, ticket, plan[j]));
        let error = choose|error: TryLockError<MutexGuard<'_, T>>| #[trigger]
            try_gave_to(&pool[plan[j].slot() as int], ticket, Err(error));
        assert(try_gave_to(&pool[(ticket + j) % n], ticket, Err(error)));
    }
    assert forall|j: int|
        pool.len() <= j < made implies (#[trigger] plan_of(ticket, pool.len())[j]) is Lock
        && exists|error: PoisonError<MutexGuard<'_, T>>| #[trigger]
        wait_gave_to(&pool[(ticket + j) % (pool.len() as int)], ticket, Err(error))
            && call_ensures(
            wait_take::<T>,
            (&pool[(ticket + j) % (pool.len() as int)], ticket),
            Err(error),
        ) by {
        lemma_plan_at(ticket, pool.len(), j);
        assert(attempt_failed(pool, ticket, plan[j]));
        let error = choose|error: PoisonError<MutexGuard<'_, T>>| #[trigger]
            wait_gave_to(&pool[plan[j].slot() as int], ticket, Err(error));
        assert(wait_gave_to(&pool[(ticket + j) % n], ticket, Err(error)));
    }
    made
}

/// The attempts of a plan, one by one.
proof fn lemma_plan_at(ticket: usize, slots: nat, j: int)
    requires
        0 < slots <= usize::MAX,
        0 <= j < 2 * slots,
    ensures
        plan_of(ticket, slots).len() == 2 * slots,
        0 <= ((ticket + j) % (slots as int)) < slots,
        j < slots ==> plan_of(ticket, slots)[j] == Attempt::TryLock(
            ((ticket + j) % slots as int) as usize,
        ),
        j >= slots ==> plan_of(ticket, slots)[j] == Attempt::Lock(
            ((ticket + j) % slots as int) as usize,
        ),
{
    let n = slots as int;
    let start = start_of(ticket, slots);
    vstd::arithmetic::div_mod::lemma_mod_bound(ticket + j, n);
    if j < n {
        vstd::arithmetic::div_mod::lemma_add_mod_noop_right(j, ticket as int, n);
        assert(ring_slot(start, j, n) == (ticket + j) % n);
    } else {
        vstd::arithmetic::div_mod::lemma_add_mod_noop_right(j - n, ticket as int, n);
        vstd::arithmetic::div_mod::lemma_mod_sub_multiples_vanish(ticket + j, n);
        assert(ring_slot(start, j - n, n) == (ticket + j) % n);
    }
}

/// A call to which no lock of the pool gives a guard ends with nothing.
pub proof fn call_without_a_guard_gets_nothing<'a, T>(
    pool: Seq<Mutex<T>>,
    ticket: usize,
    guard: Option<MutexGuard<'a, T>>,
)
    requires
        0 < pool.len() <= usize::MAX,
        scan_gave(pool, ticket, guard),
        forall|slot: int, given: MutexGuard<'_, T>|
            #![trigger try_gave_to(&pool[slot], ticket, Ok(given))]
            #![trigger wait_gave_to(&pool[slot], ticket, Ok(given))]
            0 <= slot < pool.len() ==> {
                &&& !call_ensures(try_take::<T>, (&pool[slot], ticket), Ok(given))
                &&& !call_ensures(wait_take::<T>, (&pool[slot], ticket), Ok(given))
            },
    ensures
        guard is None,
{
    if guard is Some {
        let made = call_goes_round_the_ring_twice(pool, ticket, guard);
        vstd::arithmetic::div_mod::lemma_mod_bound(ticket + made, pool.len() as int);
        let slot = (ticket + made) % (pool.len() as int);
        assert(!try_gave_to(&pool[slot], ticket, Ok(guard->Some_0)));
    }
}

/// Where every slot turned a call down, each lock failed for that call, right
/// away and after waiting.
pub proof fn out_of_service_means_every_lock_failed<T>(
    pool: Seq<Mutex<T>>,
    ticket: usize,
    slot: usize,
)
    requires
        out_of_service(pool, ticket),
        slot < pool.len(),
    ensures
        exists|error: TryLockError<MutexGuard<'_, T>>| #[trigger]
            try_gave_to(&pool[slot as int], ticket, Err(error)) && call_ensures(
                try_take::<T>,
                (&pool[slot as int], ticket),
                Err(error),
            ),
        exists|error: PoisonError<MutexGuard<'_, T>>| #[trigger]
            wait_gave_to(&pool[slot as int], ticket, Err(error)) && call_ensures(
                wait_take::<T>,
                (&pool[slot as int], ticket),
                Err(error),
            ),
{
    assert(attempt_failed(pool, ticket, Attempt::TryLock(slot)));
}

} // verus!
