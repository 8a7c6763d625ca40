//! The order in which a call looks for a free pool slot.
//!
//! A call draws a ticket and starts at that slot of the ring. It first tries
//! every slot once without blocking. If none was free it goes round once more
//! and blocks on each slot in turn; a blocking attempt fails only on a slot
//! that is out of service. When that round fails too, no slot can serve.

use vstd::prelude::*;

verus! {

/// One way to get hold of a slot.
#[derive(Clone, Copy, Debug, PartialEq, Eq, Structural)]
pub enum Attempt {
    /// Take the slot if it is free right now.
    TryLock(usize),
    /// Wait until the slot is free.
    Lock(usize),
}

impl Attempt {
    /// The slot that the attempt is made on.
    pub open spec fn slot(self) -> usize {
        match self {
            Attempt::TryLock(slot) => slot,
            Attempt::Lock(slot) => slot,
        }
    }
}

/// The `step`-th slot of the ring of `slots` slots, counted from `start`.
pub open spec fn ring_slot(start: int, step: int, slots: int) -> int {
    (start + step) % slots
}

/// All attempts that a call starting at slot `start` makes, in order.
pub open spec fn attempt_plan(start: int, slots: int) -> Seq<Attempt> {
    Seq::new(slots as nat, |step: int| Attempt::TryLock(ring_slot(start, step, slots) as usize))
        + Seq::new(slots as nat, |step: int| Attempt::Lock(ring_slot(start, step, slots) as usize))
}

/// How often a call has failed to get hold of a slot, and what it does next.
pub struct RingScan {
    start: usize,
    slots: usize,
    step: usize,
    blocking: bool,
}

impl RingScan {
    /// Whether the position lies on the ring.
    pub closed spec fn well_formed(self) -> bool {
        &&& self.start < self.slots
        &&& self.step <= self.slots
        &&& self.step == self.slots ==> self.blocking
    }

    /// The number of slots in the ring.
    pub closed spec fn ring_size(self) -> nat {
        self.slots as nat
    }

    /// The attempts that are still to be made, in order.
    pub closed spec fn remaining(self) -> Seq<Attempt> {
        attempt_plan(self.start as int, self.slots as int).skip(
            self.step + (if self.blocking { self.slots as int } else { 0 }),
        )
    }

    /// A scan of `slots` slots that starts at the slot of `ticket`.
    pub fn new(ticket: usize, slots: usize) -> (scan: RingScan)
        requires
            slots > 0,
        ensures
            scan.well_formed(),
            scan.ring_size() == slots,
            scan.remaining() == attempt_plan((ticket % slots) as int, slots as int),
    {
        let scan = RingScan { start: ticket % slots, slots, step: 0, blocking: false };
        proof {
            assert(scan.remaining() =~= attempt_plan((ticket % slots) as int, slots as int));
        }
        scan
    }

    /// The next attempt, or `None` where every attempt has failed.
    pub fn next_attempt(&self) -> (attempt: Option<Attempt>)
        requires
            self.well_formed(),
        ensures
            match attempt {
                Some(next) => {
                    &&& self.remaining().len() > 0
                    &&& next == self.remaining()[0]
                    &&& next.slot() < self.ring_size()
                },
                None => self.remaining().len() == 0,
            },
    {
        if self.step == self.slots {
            return None;
        }
        let to_end: usize = self.slots - self.start;
        let slot: usize = if self.step < to_end {
            self.start + self.step
        } else {
            self.step - to_end
        };
        proof {
            lemma_ring_slot(self.start as int, self.step as int, self.slots as int);
        }
        if self.blocking {
            Some(Attempt::Lock(slot))
        } else {
            Some(Attempt::TryLock(slot))
        }
    }

    /// Notes that the next attempt failed.
    pub fn reject(&mut self)
        requires
            old(self).well_formed(),
            old(self).remaining().len() > 0,
        ensures
            final(self).well_formed(),
            final(self).ring_size() == old(self).ring_size(),
            final(self).remaining() == old(self).remaining().skip(1),
    {
        let ghost before = self.remaining();
        self.step = self.step + 1;
        if self.step == self.slots && !self.blocking {
            self.step = 0;
            self.blocking = true;
        }
        proof {
            assert(self.remaining() =~= before.skip(1));
        }
    }
}

/// Going round the ring wraps at most once.
proof fn lemma_ring_slot(start: int, step: int, slots: int)
    requires
        0 <= start < slots,
        0 <= step < slots,
    ensures
        ring_slot(start, step, slots) == (if start + step < slots {
            start + step
        } else {
            start + step - slots
        }),
{
    if start + step < slots {
        vstd::arithmetic::div_mod::lemma_small_mod((start + step) as nat, slots as nat);
    } else {
        vstd::arithmetic::div_mod::lemma_mod_sub_multiples_vanish(start + step, slots);
        vstd::arithmetic::div_mod::lemma_small_mod((start + step - slots) as nat, slots as nat);
    }
}

/// The step at which a round that starts at `start` reaches `slot`.
pub open spec fn step_of(start: int, slot: int, slots: int) -> int {
    if slot >= start {
        slot - start
    } else {
        slot - start + slots
    }
}

/// A call gives up only after it has tried every slot exactly once without
/// blocking and then waited for every slot exactly once, in the same order.
pub proof fn plan_covers_every_slot_in_both_rounds(start: usize, slots: usize, slot: usize)
    requires
        start < slots,
        slot < slots,
    ensures
        attempt_plan(start as int, slots as int).len() == 2 * slots,
        0 <= step_of(start as int, slot as int, slots as int) < slots,
        forall|k: int|
            #![trigger attempt_plan(start as int, slots as int)[k]]
            0 <= k < 2 * slots ==> {
                &&& attempt_plan(start as int, slots as int)[k] == Attempt::TryLock(slot)
                    <==> k == step_of(start as int, slot as int, slots as int)
                &&& attempt_plan(start as int, slots as int)[k] == Attempt::Lock(slot)
                    <==> k == slots + step_of(start as int, slot as int, slots as int)
            },
{
    let plan = attempt_plan(start as int, slots as int);
    let step = step_of(start as int, slot as int, slots as int);
    lemma_ring_slot(start as int, step, slots as int);
    assert forall|k: int| 0 <= k < 2 * slots implies {
        &&& (#[trigger] plan[k] == Attempt::TryLock(slot) <==> k == step)
        &&& (plan[k] == Attempt::Lock(slot) <==> k == slots + step)
    } by {
        if k < slots {
            lemma_ring_slot(start as int, k, slots as int);
            assert(plan[k] == Attempt::TryLock(
                ring_slot(start as int, k, slots as int) as usize,
            ));
        } else {
            lemma_ring_slot(start as int, k - slots, slots as int);
            assert(plan[k] == Attempt::Lock(
                ring_slot(start as int, k - slots, slots as int) as usize,
            ));
        }
    }
}

/// The plan goes round the ring twice in the same order, from slot `start` on
/// and one slot further each time: first without blocking, then blocking.
pub proof fn plan_goes_round_the_ring_twice(start: usize, slots: usize, k: int)
    requires
        start < slots,
        0 <= k < 2 * slots,
    ensures
        attempt_plan(start as int, slots as int).len() == 2 * slots,
        k < slots ==> attempt_plan(start as int, slots as int)[k] == Attempt::TryLock(
            ((start + k) % (slots as int)) as usize,
        ),
        k >= slots ==> attempt_plan(start as int, slots as int)[k] == Attempt::Lock(
            ((start + k) % (slots as int)) as usize,
        ),
{
    if k >= slots {
        vstd::arithmetic::div_mod::lemma_mod_sub_multiples_vanish(start + k, slots as int);
    }
}

} // verus!
