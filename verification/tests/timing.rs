//! Latency accounting.

use gigatoken_fastpath::timing::{
    read_raised, run_from, stop, timed, Counters, EncodeTiming, REPORT_INTERVAL,
};
use std::sync::atomic::AtomicU64;
use std::sync::mpsc::{channel, Sender};
use std::sync::{Arc, Mutex};
use std::time::{Duration, Instant};

#[test]
fn timing_is_off_unless_asked_for() {
    assert!(!EncodeTiming::default().enabled());
    assert!(!EncodeTiming::from_env(None).enabled());
    assert!(!EncodeTiming::from_env(Some("yes")).enabled());
    assert!(EncodeTiming::from_env(Some("1")).enabled());
    assert!(EncodeTiming::from_env(Some("true")).enabled());
}

#[test]
fn every_256th_call_reports_cumulative_figures() {
    assert_eq!(REPORT_INTERVAL, 256);
    let timing = EncodeTiming::from_env(Some("1"));
    for call in 1..=1024u64 {
        let report = timing.record(call, 10, "huggingface");
        if call % 256 == 0 {
            let report = report.expect("due");
            assert_eq!(report.backend, "huggingface");
            assert_eq!(report.calls, call);
            assert_eq!(report.total_ns, call * (call + 1) / 2);
            assert_eq!(report.total_bytes, 10 * call);
            assert_eq!(report.max_ns, call);
        } else {
            assert!(report.is_none());
        }
    }
}

#[test]
fn the_maximum_is_kept() {
    let timing = EncodeTiming::from_env(Some("1"));
    assert!(timing.record(900, 1, "gigatoken").is_none());
    for _ in 0..254 {
        assert!(timing.record(3, 1, "gigatoken").is_none());
    }
    let report = timing.record(5, 1, "gigatoken").expect("due");
    assert_eq!(report.max_ns, 900);
    assert_eq!(report.total_ns, 900 + 254 * 3 + 5);
}

#[test]
fn counters_wrap_around() {
    let before = Counters {
        calls: u64::MAX,
        total_ns: u64::MAX - 1,
        total_bytes: 1,
    };
    let after = before.after_call(5, 6);
    assert_eq!(
        after,
        Counters {
            calls: 0,
            total_ns: 3,
            total_bytes: 7,
        }
    );
    assert!(after.report_due());
    assert!(!before.report_due());
    let report = after.report("gigatoken", 9);
    assert_eq!((report.calls, report.total_ns, report.total_bytes), (0, 3, 7));
    assert_eq!((report.backend, report.max_ns), ("gigatoken", 9));
}

#[test]
fn shared_counters_lose_no_call() {
    let timing = EncodeTiming::from_env(Some("1"));
    let threads = rayon::ThreadPoolBuilder::new()
        .num_threads(8)
        .build()
        .expect("threads");
    threads.scope(|scope| {
        for _ in 0..8 {
            scope.spawn(|_| {
                for _ in 0..95 {
                    timing.record(2, 3, "gigatoken");
                }
            });
        }
    });
    for _ in 0..7 {
        assert!(timing.record(2, 3, "gigatoken").is_none());
    }
    let report = timing.record(2, 3, "gigatoken").expect("due");
    assert_eq!((report.calls, report.total_ns, report.total_bytes), (768, 1536, 2304));
}

#[test]
fn timed_hands_the_result_through() {
    let off = EncodeTiming::default();
    for _ in 0..300 {
        let (out, report) = timed(&off, "huggingface", 7, || "ids".to_string());
        assert_eq!(out, "ids");
        assert!(report.is_none());
    }
}

#[test]
fn timed_records_when_enabled() {
    let on = EncodeTiming::from_env(Some("true"));
    let mut reports = Vec::new();
    for call in 0..512u64 {
        let (out, report) = timed(&on, "gigatoken", 7, || (0..1000u64).fold(call, u64::wrapping_add));
        assert_eq!(out, call + 499_500);
        reports.extend(report);
    }
    assert_eq!(reports.len(), 2);
    assert_eq!(reports[0].calls, 256);
    assert_eq!(reports[1].calls, 512);
    assert_eq!(reports[1].total_bytes, 512 * 7);
    assert!(reports[1].total_ns > 0);
    assert!(reports[1].max_ns <= reports[1].total_ns);
    assert!(reports[0].total_ns <= reports[1].total_ns);
}

#[test]
fn the_order_of_calls_makes_no_difference() {
    let calls: Vec<(u64, usize)> = (0..256u64).map(|i| (i * 37 % 101, i as usize % 7)).collect();
    let figures = |calls: &[(u64, usize)]| {
        let timing = EncodeTiming::from_env(Some("1"));
        let mut last = None;
        for &(elapsed_ns, input_bytes) in calls {
            last = timing.record(elapsed_ns, input_bytes, "gigatoken");
        }
        let report = last.expect("due");
        (report.calls, report.total_ns, report.total_bytes, report.max_ns)
    };
    let mut sorted = calls.clone();
    sorted.sort();
    let mut reversed = calls.clone();
    reversed.reverse();
    assert_eq!(figures(&calls), figures(&sorted));
    assert_eq!(figures(&calls), figures(&reversed));

    let (count, total_ns, _, max_ns) = figures(&calls);
    assert_eq!(max_ns, 100);
    assert!(max_ns <= total_ns && total_ns <= count * max_ns);
}

/// Keeps the clock running.
fn busy(duration: Duration) {
    let start = Instant::now();
    while start.elapsed() < duration {}
}

#[test]
fn the_recorded_time_covers_the_whole_run() {
    let timing = EncodeTiming::from_env(Some("1"));
    for _ in 0..255 {
        assert!(timing.record(0, 1, "gigatoken").is_none());
    }
    let (_, report) = timed(&timing, "gigatoken", 1, || busy(Duration::from_millis(3)));
    let report = report.expect("due");
    assert!(report.total_ns >= 3_000_000);
    // The longest call is the one that was just recorded.
    assert_eq!(report.max_ns, report.total_ns);
}

#[test]
fn a_call_is_recorded_after_it_ran() {
    let timing = EncodeTiming::from_env(Some("1"));
    for _ in 0..255 {
        assert!(timing.record(1, 1, "gigatoken").is_none());
    }
    let (inner, outer) = timed(&timing, "gigatoken", 1, || timing.record(1, 1, "huggingface"));
    let inner = inner.expect("due");
    assert_eq!((inner.calls, inner.total_ns, inner.backend), (256, 256, "huggingface"));
    assert!(outer.is_none());
}

#[test]
fn a_call_that_panics_is_not_recorded() {
    let timing = Arc::new(EncodeTiming::from_env(Some("1")));
    let threads = rayon::ThreadPoolBuilder::new()
        .num_threads(1)
        .panic_handler(|_| {})
        .build()
        .expect("threads");
    let (done, wait) = channel::<()>();
    let shared = Arc::clone(&timing);
    threads.spawn(move || {
        let _signal: Sender<()> = done;
        let _ = timed(&shared, "gigatoken", 1, || panic!("encode broke half-way"));
    });
    assert!(wait.recv().is_err());
    for _ in 0..255 {
        assert!(timing.record(2, 3, "gigatoken").is_none());
    }
    let report = timing.record(2, 3, "gigatoken").expect("due");
    assert_eq!((report.calls, report.total_ns, report.total_bytes), (256, 512, 768));
    assert_eq!(report.max_ns, 2);
}

#[test]
fn a_run_lies_between_its_clock_readings() {
    let before = Instant::now();
    let (start, ran) = run_from(before, Instant::now);
    assert_eq!(start, before);
    let (value, elapsed) = stop(start, ran);
    assert_eq!(value, ran);
    assert!(start <= value && value.duration_since(start) <= elapsed);
}

#[test]
fn a_raised_counter_is_read_as_it_stands() {
    assert_eq!(read_raised(&AtomicU64::new(9), 4), 9);
}

#[test]
fn interleaved_calls_report_each_interval_once() {
    let timing = EncodeTiming::from_env(Some("1"));
    let reported = Mutex::new(Vec::new());
    let threads = rayon::ThreadPoolBuilder::new()
        .num_threads(8)
        .build()
        .expect("threads");
    threads.scope(|scope| {
        for _ in 0..8 {
            scope.spawn(|_| {
                for _ in 0..200 {
                    if let Some(report) = timing.record(1, 1, "gigatoken") {
                        reported.lock().expect("reports").push(report.calls);
                    }
                }
            });
        }
    });
    let mut reported = reported.into_inner().expect("reports");
    reported.sort();
    assert_eq!(reported, [256, 512, 768, 1024, 1280, 1536]);
}
