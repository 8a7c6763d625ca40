//! Backend-agnostic encode latency accounting.
//!
//! Both tokenizers are timed through the same code path, so that the two legs
//! of a comparison are directly comparable. The counters are shared between
//! threads; what a call reads back from them depends on the calls that run
//! beside it. Contracts speak of the counter operations that were performed
//! and of what came back from them.

use crate::settings::{setting_is, timing_requested};
use std::sync::atomic::{AtomicU64, Ordering};
use std::time::{Duration, Instant};
use vstd::prelude::*;

verus! {

/// A report is made once in this many calls. Reporting each call would itself
/// perturb what is being measured.
pub const REPORT_INTERVAL: u64 = 256;

/// The counters' values at one moment.
#[derive(Clone, Copy, Debug, PartialEq, Eq, Structural)]
pub struct Counters {
    pub calls: u64,
    pub total_ns: u64,
    pub total_bytes: u64,
}

/// Cumulative figures, ready to be logged.
#[derive(Clone, Copy, Debug)]
pub struct TimingReport<'a> {
    pub backend: &'a str,
    pub calls: u64,
    pub total_ns: u64,
    pub total_bytes: u64,
    pub max_ns: u64,
}

/// `total` after `added` more, on a counter that wraps around at its limit.
pub open spec fn wrapped_total(total: u64, added: u64) -> u64 {
    (if total + added > u64::MAX {
        total + added - u64::MAX - 1
    } else {
        total + added
    }) as u64
}

/// The counters after one more call.
pub open spec fn counters_after(before: Counters, elapsed_ns: u64, input_bytes: u64) -> Counters {
    Counters {
        calls: wrapped_total(before.calls, 1),
        total_ns: wrapped_total(before.total_ns, elapsed_ns),
        total_bytes: wrapped_total(before.total_bytes, input_bytes),
    }
}

/// The report that is due once the counters stand at `after`, if one is.
pub open spec fn report_at<'a>(backend: &'a str, after: Counters, max_ns: u64) -> Option<
    TimingReport<'a>,
> {
    if after.calls % REPORT_INTERVAL == 0 {
        Some(figures(backend, after, max_ns))
    } else {
        None
    }
}

/// The figures of the counters and the longest call.
pub open spec fn figures<'a>(backend: &'a str, counters: Counters, max_ns: u64) -> TimingReport<
    'a,
> {
    TimingReport {
        backend,
        calls: counters.calls,
        total_ns: counters.total_ns,
        total_bytes: counters.total_bytes,
        max_ns,
    }
}

impl Counters {
    /// The counters after one more call that took `elapsed_ns` on an input of
    /// `input_bytes`.
    pub fn after_call(self, elapsed_ns: u64, input_bytes: u64) -> (after: Counters)
        ensures
            after == counters_after(self, elapsed_ns, input_bytes),
            after.calls == (self.calls + 1) % 0x1_0000_0000_0000_0000,
            after.total_ns == (self.total_ns + elapsed_ns) % 0x1_0000_0000_0000_0000,
            after.total_bytes == (self.total_bytes + input_bytes) % 0x1_0000_0000_0000_0000,
    {
        Counters {
            calls: self.calls.wrapping_add(1),
            total_ns: self.total_ns.wrapping_add(elapsed_ns),
            total_bytes: self.total_bytes.wrapping_add(input_bytes),
        }
    }

    /// Whether a report is due at these counters.
    pub fn report_due(self) -> (due: bool)
        ensures
            due == (self.calls % REPORT_INTERVAL == 0),
            due <==> self.calls % 256 == 0,
    {
        self.calls % REPORT_INTERVAL == 0
    }

    /// The figures of these counters and the longest call.
    pub fn report<'a>(self, backend: &'a str, max_ns: u64) -> (report: TimingReport<'a>)
        ensures
            report == figures(backend, self, max_ns),
            report.backend == backend,
            report.calls == self.calls,
            report.total_ns == self.total_ns,
            report.total_bytes == self.total_bytes,
            report.max_ns == max_ns,
    {
        TimingReport {
            backend,
            calls: self.calls,
            total_ns: self.total_ns,
            total_bytes: self.total_bytes,
            max_ns,
        }
    }
}

/// Whether `counter` was made at zero.
pub open spec fn made_at_zero(counter: AtomicU64) -> bool {
    call_ensures(AtomicU64::new, (0u64,), counter)
}

/// Whether adding `added` to `counter` gave back `before`.
pub open spec fn added_to(counter: AtomicU64, added: u64, before: u64) -> bool {
    call_ensures(AtomicU64::fetch_add, (&counter, added, Ordering::Relaxed), before)
}

/// Whether `counter` was raised to at least `value`, and gave back `before`.
pub open spec fn raised_to(counter: AtomicU64, value: u64, before: u64) -> bool {
    call_ensures(AtomicU64::fetch_max, (&counter, value, Ordering::Relaxed), before)
}

/// Whether reading `counter` gave `value`.
pub open spec fn read_from(counter: AtomicU64, value: u64) -> bool {
    call_ensures(AtomicU64::load, (&counter, Ordering::Relaxed), value)
}

/// Reads a counter once it has been raised. Taking what raising it gave back as
/// an argument fixes that order.
pub fn read_raised(counter: &AtomicU64, _before: u64) -> (value: u64)
    ensures
        read_from(*counter, value),
        call_ensures(AtomicU64::load, (counter, Ordering::Relaxed), value),
{
    counter.load(Ordering::Relaxed)
}

/// Whether reading `counter` gave `value`, after raising it gave back `before`.
pub open spec fn read_raised_from(counter: AtomicU64, before: u64, value: u64) -> bool {
    call_ensures(read_raised, (&counter, before), value)
}

/// One recorded call: how long it took and how long its input was.
pub struct Recorded {
    pub elapsed_ns: u64,
    pub input_bytes: u64,
}

/// The counters at zero.
pub open spec fn zero_counters() -> Counters {
    Counters { calls: 0, total_ns: 0, total_bytes: 0 }
}

/// The counters after the calls of `history`, from `start`.
pub open spec fn counters_over(start: Counters, history: Seq<Recorded>) -> Counters
    decreases history.len(),
{
    if history.len() == 0 {
        start
    } else {
        let last = history.last();
        counters_after(counters_over(start, history.drop_last()), last.elapsed_ns, last.input_bytes)
    }
}

/// The number of reports that are due in the course of `history`, from `start`.
pub open spec fn reports_over(start: Counters, history: Seq<Recorded>) -> int
    decreases history.len(),
{
    if history.len() == 0 {
        0
    } else {
        reports_over(start, history.drop_last()) + if report_at(
            "",
            counters_over(start, history),
            0,
        ) is Some {
            1int
        } else {
            0
        }
    }
}

/// The nanoseconds of all calls of `history` together.
pub open spec fn sum_ns(history: Seq<Recorded>) -> int
    decreases history.len(),
{
    if history.len() == 0 {
        0
    } else {
        sum_ns(history.drop_last()) + history.last().elapsed_ns
    }
}

/// The input bytes of all calls of `history` together.
pub open spec fn sum_bytes(history: Seq<Recorded>) -> int
    decreases history.len(),
{
    if history.len() == 0 {
        0
    } else {
        sum_bytes(history.drop_last()) + history.last().input_bytes
    }
}

/// The counters are cumulative, and a report is due at every
/// [`REPORT_INTERVAL`]th call and at no other: also past the point where a
/// counter wraps around.
pub proof fn reports_are_cumulative_and_periodic<'a>(
    start: Counters,
    history: Seq<Recorded>,
    backend: &'a str,
    max_ns: u64,
)
    ensures
        counters_over(start, history).calls == (start.calls + history.len())
            % 0x1_0000_0000_0000_0000,
        counters_over(start, history).total_ns == (start.total_ns + sum_ns(history))
            % 0x1_0000_0000_0000_0000,
        counters_over(start, history).total_bytes == (start.total_bytes + sum_bytes(history))
            % 0x1_0000_0000_0000_0000,
        report_at(backend, counters_over(start, history), max_ns) is Some <==> (start.calls
            + history.len()) % REPORT_INTERVAL as int == 0,
        reports_over(start, history) == (start.calls + history.len()) / REPORT_INTERVAL as int
            - start.calls as int / REPORT_INTERVAL as int,
    decreases history.len(),
{
    if history.len() > 0 {
        let front = history.drop_last();
        reports_are_cumulative_and_periodic(start, front, backend, max_ns);
        let before = counters_over(start, front);
        let last = history.last();
        lemma_wrapped_total(before.calls, 1, start.calls + front.len());
        lemma_wrapped_total(before.total_ns, last.elapsed_ns, start.total_ns + sum_ns(front));
        lemma_wrapped_total(
            before.total_bytes,
            last.input_bytes,
            start.total_bytes + sum_bytes(front),
        );
    }
}

/// The nanoseconds of the longest call of `history`; zero where there is none.
pub open spec fn longest_ns(history: Seq<Recorded>) -> int
    decreases history.len(),
{
    if history.len() == 0 {
        0
    } else {
        longer(longest_ns(history.drop_last()), history.last().elapsed_ns as int)
    }
}

/// The longer of two times.
pub open spec fn longer(a: int, b: int) -> int {
    if a < b {
        b
    } else {
        a
    }
}

/// The longest call of a history is one of its calls, and none took longer. No
/// call took longer than all together, and they did not take longer than that
/// many calls of the longest kind.
pub proof fn longest_call_bounds_the_total(history: Seq<Recorded>)
    ensures
        forall|i: int|
            0 <= i < history.len() ==> (#[trigger] history[i]).elapsed_ns <= longest_ns(history),
        history.len() > 0 ==> exists|i: int|
            0 <= i < history.len() && (#[trigger] history[i]).elapsed_ns == longest_ns(history),
        longest_ns(history) <= sum_ns(history) <= history.len() * longest_ns(history),
    decreases history.len(),
{
    if history.len() > 0 {
        let before = history.drop_last();
        longest_call_bounds_the_total(before);
        let last = history.last().elapsed_ns as int;
        let long = longest_ns(before);
        let all = longest_ns(history);
        assert forall|i: int| 0 <= i < history.len() implies (#[trigger] history[i]).elapsed_ns
            <= all by {
            if i < before.len() {
                assert(before[i].elapsed_ns <= long);
            }
        }
        if last >= long {
            assert(history[before.len() as int].elapsed_ns == all);
        } else {
            let i = choose|i: int|
                0 <= i < before.len() && (#[trigger] before[i]).elapsed_ns == long;
            assert(history[i].elapsed_ns == all);
        }
        assert(before.len() * long + last <= history.len() * all) by (nonlinear_arith)
            requires
                history.len() == before.len() + 1,
                0 <= long <= all,
                last <= all,
        ;
    }
}

/// The figures of a report fit together as long as no counter has wrapped
/// around: the longest call took no longer than all calls together, and these
/// no longer than that many calls of the longest kind.
pub proof fn reported_maximum_bounds_the_reported_total<'a>(
    history: Seq<Recorded>,
    backend: &'a str,
    max_ns: u64,
)
    requires
        history.len() <= u64::MAX,
        sum_ns(history) <= u64::MAX,
        max_ns == longest_ns(history),
    ensures
        ({
            let report = figures(backend, counters_over(zero_counters(), history), max_ns);
            report.max_ns <= report.total_ns <= report.calls * report.max_ns
        }),
{
    longest_call_bounds_the_total(history);
    reports_are_cumulative_and_periodic(zero_counters(), history, backend, max_ns);
}

/// The order in which calls are recorded makes no difference: from the same
/// counters and the same longest call, two histories of the same calls end with
/// the same counters and the same longest call, and as many reports were due.
pub proof fn order_of_calls_makes_no_difference(
    start: Counters,
    longest: int,
    history: Seq<Recorded>,
    other: Seq<Recorded>,
)
    requires
        history.to_multiset() == other.to_multiset(),
    ensures
        counters_over(start, history) == counters_over(start, other),
        longer(longest, longest_ns(history)) == longer(longest, longest_ns(other)),
        reports_over(start, history) == reports_over(start, other),
{
    lemma_same_calls_same_sums(history, other);
    reports_are_cumulative_and_periodic(start, history, "", 0);
    reports_are_cumulative_and_periodic(start, other, "", 0);
}

/// The counters as call `i` of `history` leaves them, from those it found.
pub open spec fn counters_of(
    history: Seq<Recorded>,
    before: Seq<Counters>,
    i: int,
) -> Counters {
    counters_after(before[i], history[i].elapsed_ns, history[i].input_bytes)
}

/// Whether a report is due to some call of `history` when the number of calls
/// is `count`.
pub open spec fn some_call_reports(
    history: Seq<Recorded>,
    before: Seq<Counters>,
    count: u64,
) -> bool {
    exists|i: int|
        {
            &&& 0 <= i < before.len()
            &&& (#[trigger] counters_of(history, before, i)).calls == count
            &&& report_at("", counters_of(history, before, i), 0) is Some
        }
}

/// Calls that run beside each other share the counters, and each reads back
/// what it found there. Where the numbers of calls that they found are those
/// from zero up, in any order, as atomic additions of one give them: a report
/// is due at each multiple of [`REPORT_INTERVAL`] up to the number of calls, to
/// exactly one of them, and at nothing else.
pub proof fn interleaved_calls_report_each_interval_once(
    history: Seq<Recorded>,
    before: Seq<Counters>,
)
    requires
        history.len() == before.len() <= u64::MAX,
        before.map_values(|found: Counters| found.calls).to_multiset() == Seq::new(
            before.len(),
            |i: int| i as u64,
        ).to_multiset(),
    ensures
        forall|i: int|
            0 <= i < before.len() ==> 0 < (#[trigger] counters_of(history, before, i)).calls
                <= before.len(),
        forall|i: int, j: int|
            0 <= i < j < before.len() ==> (#[trigger] counters_of(history, before, i)).calls != (
            #[trigger] counters_of(history, before, j)).calls,
        forall|count: u64|
            0 < count <= before.len() && count % REPORT_INTERVAL == 0
                ==> #[trigger] some_call_reports(history, before, count),
{
    let found = before.map_values(|found: Counters| found.calls);
    let all = Seq::new(before.len(), |i: int| i as u64);
    found.to_multiset_ensures();
    all.to_multiset_ensures();
    assert(all.no_duplicates());
    all.lemma_multiset_has_no_duplicates();
    found.lemma_multiset_has_no_duplicates_conv();
    assert forall|i: int| 0 <= i < before.len() implies 0 < (#[trigger] counters_of(
        history,
        before,
        i,
    )).calls <= before.len() by {
        assert(found.contains(found[i]));
        assert(all.to_multiset().count(found[i]) > 0);
    }
    assert forall|i: int, j: int| 0 <= i < j < before.len() implies (#[trigger] counters_of(
        history,
        before,
        i,
    )).calls != (#[trigger] counters_of(history, before, j)).calls by {
        assert(found.contains(found[i]) && found.contains(found[j]));
        assert(all.to_multiset().count(found[i]) > 0 && all.to_multiset().count(found[j]) > 0);
        assert(found[i] != found[j]);
    }
    assert forall|count: u64|
        0 < count <= before.len() && count % REPORT_INTERVAL
            == 0 implies #[trigger] some_call_reports(history, before, count) by {
        let number = (count - 1) as u64;
        assert(all[count - 1] == number);
        assert(all.contains(number));
        assert(found.to_multiset().count(number) > 0);
        let i = choose|i: int| 0 <= i < found.len() && found[i] == number;
        assert(counters_of(history, before, i).calls == count);
    }
}

/// Histories of the same calls are equally long, and agree in what is summed up
/// over them.
proof fn lemma_same_calls_same_sums(history: Seq<Recorded>, other: Seq<Recorded>)
    requires
        history.to_multiset() == other.to_multiset(),
    ensures
        history.len() == other.len(),
        sum_ns(history) == sum_ns(other),
        sum_bytes(history) == sum_bytes(other),
        longest_ns(history) == longest_ns(other),
    decreases history.len(),
{
    history.to_multiset_ensures();
    other.to_multiset_ensures();
    if history.len() > 0 {
        let last = history.last();
        let end = history.len() - 1;
        assert(other.to_multiset().contains(last));
        let at = choose|at: int| 0 <= at < other.len() && other[at] == last;
        assert(history.remove(end) =~= history.drop_last());
        lemma_same_calls_same_sums(history.drop_last(), other.remove(at));
        lemma_one_call_apart(other, at);
    }
}

/// What one call of a history adds to what is summed up over it.
proof fn lemma_one_call_apart(history: Seq<Recorded>, at: int)
    requires
        0 <= at < history.len(),
    ensures
        sum_ns(history) == sum_ns(history.remove(at)) + history[at].elapsed_ns,
        sum_bytes(history) == sum_bytes(history.remove(at)) + history[at].input_bytes,
        longest_ns(history) == longer(
            longest_ns(history.remove(at)),
            history[at].elapsed_ns as int,
        ),
    decreases history.len(),
{
    let end = history.len() - 1;
    if at == end {
        assert(history.remove(at) =~= history.drop_last());
    } else {
        lemma_one_call_apart(history.drop_last(), at);
        assert(history.remove(at).drop_last() =~= history.drop_last().remove(at));
        assert(history.remove(at).last() == history.last());
    }
}

/// Wrapping addition keeps a counter at the true total, modulo its range.
proof fn lemma_wrapped_total(total: u64, added: u64, exact: int)
    requires
        total == exact % 0x1_0000_0000_0000_0000,
    ensures
        wrapped_total(total, added) == (exact + added) % 0x1_0000_0000_0000_0000,
{
}

/// Rolling encode-latency counters.
pub struct EncodeTiming {
    enabled: bool,
    calls: AtomicU64,
    total_ns: AtomicU64,
    total_bytes: AtomicU64,
    max_ns: AtomicU64,
}

/// A length as a 64-bit counter value; the library's targets have no wider
/// `usize`.
fn byte_count(len: usize) -> (count: u64)
    ensures
        count == len,
{
    len as u64
}

impl EncodeTiming {
    /// Whether calls are recorded.
    pub closed spec fn is_enabled(self) -> bool {
        self.enabled
    }

    /// The number of recorded calls.
    pub closed spec fn calls(self) -> AtomicU64 {
        self.calls
    }

    /// The nanoseconds of all recorded calls.
    pub closed spec fn total_ns(self) -> AtomicU64 {
        self.total_ns
    }

    /// The input bytes of all recorded calls.
    pub closed spec fn total_bytes(self) -> AtomicU64 {
        self.total_bytes
    }

    /// The nanoseconds of the longest recorded call.
    pub closed spec fn max_ns(self) -> AtomicU64 {
        self.max_ns
    }

    /// Whether all counters were made at zero.
    pub open spec fn at_zero(self) -> bool {
        &&& made_at_zero(self.calls())
        &&& made_at_zero(self.total_ns())
        &&& made_at_zero(self.total_bytes())
        &&& made_at_zero(self.max_ns())
    }

    /// Whether a call was counted: each counter was advanced by the call's
    /// figures and the longest call was raised to this one. `before` is what
    /// the totals gave back, and `longest` what the longest call did.
    pub open spec fn counted(
        self,
        elapsed_ns: u64,
        input_bytes: usize,
        before: Counters,
        longest: u64,
    ) -> bool {
        &&& added_to(self.calls(), 1, before.calls)
        &&& added_to(self.total_ns(), elapsed_ns, before.total_ns)
        &&& added_to(self.total_bytes(), input_bytes as u64, before.total_bytes)
        &&& raised_to(self.max_ns(), elapsed_ns, longest)
    }

    /// Whether recording a call ended with `report`: the call was counted, and
    /// a report was made if and only if one was due at the totals after it,
    /// with those totals and the longest call as read after it was raised.
    pub open spec fn recorded<'a>(
        self,
        elapsed_ns: u64,
        input_bytes: usize,
        backend: &'a str,
        report: Option<TimingReport<'a>>,
    ) -> bool {
        exists|before: Counters, longest: u64, max_ns: u64|
            {
                &&& #[trigger] self.counted(elapsed_ns, input_bytes, before, longest)
                &&& report == #[trigger] report_at(
                    backend,
                    counters_after(before, elapsed_ns, input_bytes as u64),
                    max_ns,
                )
                &&& report is Some ==> read_raised_from(self.max_ns(), longest, max_ns)
            }
    }

    /// Counters at zero, recording where the value of `SMG_TOKENIZER_TIMING`
    /// asks for it.
    pub fn from_env(setting: Option<&str>) -> (timing: EncodeTiming)
        ensures
            timing.is_enabled() == (setting_is(setting, "1"@) || setting_is(setting, "true"@)),
            timing.is_enabled() <==> setting is Some && (setting->Some_0@ == "1"@
                || setting->Some_0@ == "true"@),
            timing.at_zero(),
            call_ensures(AtomicU64::new, (0u64,), timing.calls()),
            call_ensures(AtomicU64::new, (0u64,), timing.total_ns()),
            call_ensures(AtomicU64::new, (0u64,), timing.total_bytes()),
            call_ensures(AtomicU64::new, (0u64,), timing.max_ns()),
    {
        EncodeTiming {
            enabled: timing_requested(setting),
            calls: AtomicU64::new(0),
            total_ns: AtomicU64::new(0),
            total_bytes: AtomicU64::new(0),
            max_ns: AtomicU64::new(0),
        }
    }

    /// Whether calls are recorded.
    pub fn enabled(&self) -> (enabled: bool)
        ensures
            enabled == self.is_enabled(),
    {
        self.enabled
    }

    /// Records one encode and returns a cumulative report every
    /// [`REPORT_INTERVAL`] calls. The counters are advanced without a lock.
    pub fn record<'a>(&self, elapsed_ns: u64, input_bytes: usize, backend: &'a str) -> (report:
        Option<TimingReport<'a>>)
        ensures
            self.recorded(elapsed_ns, input_bytes, backend, report),
    {
        let bytes: u64 = byte_count(input_bytes);
        let before = Counters {
            calls: self.calls.fetch_add(1, Ordering::Relaxed),
            total_ns: self.total_ns.fetch_add(elapsed_ns, Ordering::Relaxed),
            total_bytes: self.total_bytes.fetch_add(bytes, Ordering::Relaxed),
        };
        let longest: u64 = self.max_ns.fetch_max(elapsed_ns, Ordering::Relaxed);
        assert(self.counted(elapsed_ns, input_bytes, before, longest));
        let after = before.after_call(elapsed_ns, bytes);
        if after.report_due() {
            let max_ns: u64 = read_raised(&self.max_ns, longest);
            assert(report_at(backend, after, max_ns) is Some);
            Some(after.report(backend, max_ns))
        } else {
            assert(report_at(backend, after, 0) is None);
            None
        }
    }
}

impl Default for EncodeTiming {
    /// Counters at zero, not recording.
    fn default() -> (timing: EncodeTiming)
        ensures
            !timing.is_enabled(),
            timing.at_zero(),
    {
        EncodeTiming::from_env(None)
    }
}

/// `std::time::Instant`, opaque here.
#[verifier::external_type_specification]
#[verifier::external_body]
pub struct ExInstant(Instant);

/// The whole nanoseconds in a duration.
pub uninterp spec fn duration_nanos(duration: Duration) -> u128;

/// `Instant::now`. Nothing is claimed of the moment it returns.
pub assume_specification[ Instant::now ]() -> Instant;

/// `Instant::elapsed`. Nothing is claimed of how long it took.
pub assume_specification[ Instant::elapsed ](instant: &Instant) -> Duration;

/// `Duration::as_nanos`. The number depends on the duration alone.
pub assume_specification[ Duration::as_nanos ](duration: &Duration) -> (nanos: u128)
    ensures
        nanos == duration_nanos(*duration),
;

/// Runs `f` once the clock has been read at `start`. Taking the reading as an
/// argument and giving it back fixes that order.
pub fn run_from<T, F: FnOnce() -> T>(start: Instant, f: F) -> (out: (Instant, T))
    requires
        call_requires(f, ()),
    ensures
        out.0 == start,
        call_ensures(f, (), out.1),
{
    let value = f();
    (start, value)
}

/// Asks how much time has passed since `start` once `value` is there. Taking
/// the value as an argument and giving it back fixes that order.
pub fn stop<T>(start: Instant, value: T) -> (out: (T, Duration))
    ensures
        out.0 == value,
        call_ensures(Instant::elapsed, (&start,), out.1),
{
    let elapsed = start.elapsed();
    (value, elapsed)
}

/// Whether a run of `f` that gave `value` lies between two readings of the
/// clock: `f` was run from `start` on, and `elapsed` had passed when the value
/// was there.
pub open spec fn clock_enclosed<T, F: FnOnce() -> T>(
    f: F,
    start: Instant,
    value: T,
    elapsed: Duration,
) -> bool {
    &&& call_ensures(Instant::now, (), start)
    &&& call_ensures(run_from::<T, F>, (start, f), (start, value))
    &&& call_ensures(stop::<T>, (start, value), (value, elapsed))
}

/// Runs `f`, and records how long it took where timing is enabled: the low 64
/// bits of the nanoseconds between two clock readings that enclose the run.
/// Both tokenizers are timed this way.
pub fn timed<'a, T, F: FnOnce() -> T>(
    timing: &EncodeTiming,
    backend: &'a str,
    input_len: usize,
    f: F,
) -> (out: (T, Option<TimingReport<'a>>))
    requires
        call_requires(f, ()),
    ensures
        call_ensures(f, (), out.0),
        !timing.is_enabled() ==> out.1 is None,
        timing.is_enabled() ==> exists|start: Instant, elapsed: Duration, elapsed_ns: u64|
            {
                &&& #[trigger] clock_enclosed(f, start, out.0, elapsed)
                &&& call_ensures(Instant::now, (), start)
                &&& call_ensures(run_from::<T, F>, (start, f), (start, out.0))
                &&& call_ensures(stop::<T>, (start, out.0), (out.0, elapsed))
                &&& elapsed_ns == duration_nanos(elapsed) % 0x1_0000_0000_0000_0000
                &&& #[trigger] timing.recorded(elapsed_ns, input_len, backend, out.1)
            },
{
    if !timing.enabled() {
        return (f(), None);
    }
    let (start, value) = run_from(Instant::now(), f);
    let (value, elapsed) = stop(start, value);
    let elapsed_ns: u64 = truncated_nanos(elapsed.as_nanos());
    let report = timing.record(elapsed_ns, input_len, backend);
    let out = (value, report);
    assert(clock_enclosed(f, start, out.0, elapsed));
    out
}

/// The low 64 bits of a number of nanoseconds.
fn truncated_nanos(nanos: u128) -> (low: u64)
    ensures
        low == nanos % 0x1_0000_0000_0000_0000,
{
    assert(nanos as u64 == nanos % 0x1_0000_0000_0000_0000) by (bit_vector);
    #[verifier::truncate]
    (nanos as u64)
}

/// Recording a call adds one to the calls, its time to the total time and its
/// length to the total length, and raises the longest call to it. It reports at
/// every 256th call and at no other: the totals as they are after this call,
/// and the longest call as read after it was raised. `bytes` is the length of
/// the input.
pub proof fn recording_advances_each_counter_by_the_call<'a>(
    timing: EncodeTiming,
    elapsed_ns: u64,
    input_bytes: usize,
    bytes: u64,
    backend: &'a str,
    report: Option<TimingReport<'a>>,
)
    requires
        timing.recorded(elapsed_ns, input_bytes, backend, report),
        bytes == input_bytes,
    ensures
        exists|before: Counters, longest: u64|
            {
                &&& #[trigger] timing.counted(elapsed_ns, input_bytes, before, longest)
                &&& call_ensures(
                    AtomicU64::fetch_add,
                    (&timing.calls(), 1u64, Ordering::Relaxed),
                    before.calls,
                )
                &&& call_ensures(
                    AtomicU64::fetch_add,
                    (&timing.total_ns(), elapsed_ns, Ordering::Relaxed),
                    before.total_ns,
                )
                &&& call_ensures(
                    AtomicU64::fetch_add,
                    (&timing.total_bytes(), bytes, Ordering::Relaxed),
                    before.total_bytes,
                )
                &&& call_ensures(
                    AtomicU64::fetch_max,
                    (&timing.max_ns(), elapsed_ns, Ordering::Relaxed),
                    longest,
                )
                &&& report is Some <==> (before.calls + 1) % 256 == 0
                &&& report matches Some(report) ==> {
                    &&& report.backend == backend
                    &&& report.calls == (before.calls + 1) % 0x1_0000_0000_0000_0000
                    &&& report.total_ns == (before.total_ns + elapsed_ns)
                        % 0x1_0000_0000_0000_0000
                    &&& report.total_bytes == (before.total_bytes + bytes)
                        % 0x1_0000_0000_0000_0000
                    &&& call_ensures(read_raised, (&timing.max_ns(), longest), report.max_ns)
                }
            },
{
}

/// What a history sums up to grows with each call by what that call took, and
/// starts from nothing.
pub proof fn sums_grow_by_each_call(start: Counters, history: Seq<Recorded>, call: Recorded)
    ensures
        sum_ns(Seq::empty()) == 0,
        sum_bytes(Seq::empty()) == 0,
        sum_ns(history.push(call)) == sum_ns(history) + call.elapsed_ns,
        sum_bytes(history.push(call)) == sum_bytes(history) + call.input_bytes,
        counters_over(start, Seq::empty()) == start,
        counters_over(start, history.push(call)).calls == (counters_over(start, history).calls + 1)
            % 0x1_0000_0000_0000_0000,
        counters_over(start, history.push(call)).total_ns == (counters_over(
            start,
            history,
        ).total_ns + call.elapsed_ns) % 0x1_0000_0000_0000_0000,
        counters_over(start, history.push(call)).total_bytes == (counters_over(
            start,
            history,
        ).total_bytes + call.input_bytes) % 0x1_0000_0000_0000_0000,
{
    assert(history.push(call).drop_last() =~= history);
}

/// Calls that are recorded one after the other, from counters at zero that
/// nothing else changes, report cumulative figures: where a call found the
/// counters as the history before it leaves them, and reads the longest call as
/// the history with it has it, its report counts every call of the history and
/// names a time that no call of it exceeds and one of them took.
pub proof fn sequential_reports_cover_the_whole_history<'a>(
    history: Seq<Recorded>,
    call: Recorded,
    backend: &'a str,
    max_ns: u64,
    report: TimingReport<'a>,
)
    requires
        max_ns == longest_ns(history.push(call)),
        report_at(
            backend,
            counters_after(
                counters_over(zero_counters(), history),
                call.elapsed_ns,
                call.input_bytes,
            ),
            max_ns,
        ) == Some(report),
    ensures
        (history.len() + 1) % 256 == 0,
        report.backend == backend,
        report.calls == (history.len() + 1) % 0x1_0000_0000_0000_0000,
        report.total_ns == (sum_ns(history) + call.elapsed_ns) % 0x1_0000_0000_0000_0000,
        report.total_bytes == (sum_bytes(history) + call.input_bytes) % 0x1_0000_0000_0000_0000,
        call.elapsed_ns <= report.max_ns,
        forall|i: int|
            0 <= i < history.len() ==> (#[trigger] history[i]).elapsed_ns <= report.max_ns,
        report.max_ns == call.elapsed_ns || exists|i: int|
            0 <= i < history.len() && (#[trigger] history[i]).elapsed_ns == report.max_ns,
{
    let all = history.push(call);
    reports_are_cumulative_and_periodic(zero_counters(), all, backend, max_ns);
    sums_grow_by_each_call(zero_counters(), history, call);
    longest_call_bounds_the_total(all);
    assert(all.drop_last() =~= history);
    assert(all[history.len() as int] == call);
    assert forall|i: int| 0 <= i < history.len() implies (#[trigger] history[i]).elapsed_ns
        <= report.max_ns by {
        assert(all[i] == history[i]);
    }
    let longest = choose|i: int|
        0 <= i < all.len() && (#[trigger] all[i]).elapsed_ns == longest_ns(all);
    if longest < history.len() {
        assert(history[longest].elapsed_ns == report.max_ns);
    }
}

} // verus!
