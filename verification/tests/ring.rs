//! The order of attempts.

use gigatoken_fastpath::ring::{Attempt, RingScan};

fn all_attempts(ticket: usize, slots: usize) -> Vec<Attempt> {
    let mut scan = RingScan::new(ticket, slots);
    let mut attempts = Vec::new();
    while let Some(attempt) = scan.next_attempt() {
        attempts.push(attempt);
        scan.reject();
    }
    attempts
}

#[test]
fn every_slot_is_tried_and_then_waited_for() {
    assert_eq!(
        all_attempts(1, 3),
        [
            Attempt::TryLock(1),
            Attempt::TryLock(2),
            Attempt::TryLock(0),
            Attempt::Lock(1),
            Attempt::Lock(2),
            Attempt::Lock(0),
        ]
    );
}

#[test]
fn the_ticket_names_a_slot_of_the_ring() {
    assert_eq!(all_attempts(8, 3), all_attempts(2, 3));
    assert_eq!(all_attempts(usize::MAX, 2)[0], Attempt::TryLock(1));
    assert_eq!(all_attempts(5, 1), [Attempt::TryLock(0), Attempt::Lock(0)]);
}

#[test]
fn both_rounds_cover_every_slot_once() {
    for slots in 1..6usize {
        for start in 0..slots {
            let attempts = all_attempts(start, slots);
            assert_eq!(attempts.len(), 2 * slots);
            for slot in 0..slots {
                let tries = attempts.iter().filter(|a| **a == Attempt::TryLock(slot));
                assert_eq!(tries.count(), 1);
                let waits = attempts.iter().filter(|a| **a == Attempt::Lock(slot));
                assert_eq!(waits.count(), 1);
            }
        }
    }
}

#[test]
fn a_free_slot_is_taken_before_any_is_waited_for() {
    let mut scan = RingScan::new(2, 4);
    let free = 1;
    let mut rejected = 0;
    while scan.next_attempt() != Some(Attempt::TryLock(free)) {
        scan.reject();
        rejected += 1;
    }
    assert_eq!(rejected, 3);
}

#[test]
fn a_huge_ring_does_not_overflow() {
    let mut scan = RingScan::new(usize::MAX - 1, usize::MAX);
    assert_eq!(scan.next_attempt(), Some(Attempt::TryLock(usize::MAX - 1)));
    scan.reject();
    assert_eq!(scan.next_attempt(), Some(Attempt::TryLock(0)));
}
