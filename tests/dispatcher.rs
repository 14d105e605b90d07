use springd::dispatcher::{CountDispatcher, Dispatcher, DurationDispatcher, Progress};
use springd::limiter::Limiter;
use springd::statistics::{Message, Statistics};
use springd::task::{
    aggregator_step, count_position, create_dispatcher, duration_position, worker_next,
    AggregatorAction, BudgetError, WorkerStep,
};
use std::time::{Duration, Instant};

const SEC: u64 = 1_000_000_000;

/// Runs `workers` workers round-robin against a count dispatcher until each
/// has been turned away; returns the number of admissions.
fn drive_count(d: &mut CountDispatcher, workers: usize) -> u64 {
    let mut running = vec![true; workers];
    let mut in_flight: Vec<u32> = vec![0; workers];
    let mut admitted = 0u64;
    while running.iter().any(|r| *r) {
        for w in 0..workers {
            if !running[w] {
                continue;
            }
            if in_flight[w] > 0 {
                d.complete_job();
                in_flight[w] -= 1;
            }
            if d.is_open() && d.try_permit() && d.try_apply_job() {
                admitted += 1;
                in_flight[w] += 1;
            } else {
                running[w] = false;
            }
        }
    }
    for w in 0..workers {
        while in_flight[w] > 0 {
            d.complete_job();
            in_flight[w] -= 1;
        }
    }
    admitted
}

#[test]
fn count_dispatcher_admits_exactly_its_budget() {
    for workers in [1usize, 3, 50] {
        let mut d = CountDispatcher::new(1000, None);
        assert_eq!(drive_count(&mut d, workers), 1000);
        assert_eq!(d.applied(), 1000);
        assert!(!d.try_apply_job());
    }
}

#[test]
fn count_dispatcher_of_one_with_hundred_workers() {
    let mut d = CountDispatcher::new(1, None);
    assert_eq!(drive_count(&mut d, 100), 1);
}

#[test]
fn count_dispatcher_canceled_admits_at_most_budget() {
    let mut d = CountDispatcher::new(1_000_000, None);
    let mut admitted = 0u64;
    for _ in 0..10 {
        if d.try_apply_job() {
            admitted += 1;
        }
    }
    d.cancel();
    assert!(!d.is_open());
    for _ in 0..10 {
        assert!(!d.try_apply_job());
    }
    assert_eq!(admitted, 10);
    assert_eq!(d.applied(), 10);
    d.cancel();
    assert!(!d.try_apply_job());
}

#[test]
fn count_progress_reaches_one_after_all_completions() {
    let mut d = CountDispatcher::new(4, None);
    for _ in 0..4 {
        assert!(d.try_apply_job());
    }
    assert_eq!(d.get_process(), Progress { done: 0, of: 4 });
    d.complete_job();
    assert_eq!(d.get_process(), Progress { done: 1, of: 4 });
    for _ in 0..3 {
        d.complete_job();
    }
    let p = d.get_process();
    assert_eq!(p.done, p.of);
    assert!(!d.is_open());
}

#[test]
fn count_progress_of_empty_budget_is_full() {
    let d = CountDispatcher::new(0, None);
    let p = d.get_process();
    assert_eq!(p.done, p.of);
}

#[test]
fn duration_dispatcher_admits_within_its_time() {
    let start = 5 * SEC;
    let mut d = DurationDispatcher::new(3 * SEC, None, start);
    assert!(d.try_apply_job(start));
    assert!(d.try_apply_job(start + 3 * SEC - 1));
    assert!(!d.try_apply_job(start + 3 * SEC));
    assert_eq!(d.admitted(), 2);
    d.complete_job(start + SEC);
    assert!(d.is_open());
    d.complete_job(start + 3 * SEC);
    assert!(!d.is_open());
    assert!(!d.try_apply_job(start + SEC));
}

#[test]
fn duration_zero_admits_nothing() {
    let mut d = DurationDispatcher::new(0, None, 7);
    assert!(!d.try_apply_job(7));
    assert!(!d.try_apply_job(7 + SEC));
    assert_eq!(d.admitted(), 0);
}

#[test]
fn duration_cancel_is_idempotent() {
    let mut d = DurationDispatcher::new(10 * SEC, None, 0);
    d.cancel(2 * SEC);
    assert_eq!(d.canceled_at(), Some(2 * SEC));
    d.cancel(4 * SEC);
    assert_eq!(d.canceled_at(), Some(2 * SEC));
    assert!(!d.try_apply_job(3 * SEC));
    assert_eq!(d.get_process(9 * SEC), Progress { done: 2 * SEC, of: 10 * SEC });
}

#[test]
fn duration_progress_is_clamped() {
    let d = DurationDispatcher::new(4 * SEC, None, SEC);
    assert_eq!(d.get_process(SEC), Progress { done: 0, of: 4 * SEC });
    assert_eq!(d.get_process(3 * SEC), Progress { done: 2 * SEC, of: 4 * SEC });
    assert_eq!(d.get_process(100 * SEC), Progress { done: 4 * SEC, of: 4 * SEC });
}

#[test]
fn dispatcher_from_budget() {
    assert!(matches!(create_dispatcher(None, None, None, 0), Err(BudgetError::Missing)));
    assert!(matches!(
        create_dispatcher(Some(1), Some(SEC), None, 0),
        Err(BudgetError::Conflicting)
    ));
    assert!(matches!(create_dispatcher(Some(1), None, Some(0), 0), Err(BudgetError::ZeroRate)));
    let mut d = match create_dispatcher(Some(2), None, None, 0) {
        Ok(d) => d,
        Err(_) => panic!("a count budget makes a dispatcher"),
    };
    assert!(matches!(d, Dispatcher::Count(_)));
    assert!(d.try_apply_job(0));
    assert!(d.try_apply_job(0));
    assert!(!d.try_apply_job(0));
    let mut d = match create_dispatcher(None, Some(SEC), None, 10) {
        Ok(d) => d,
        Err(_) => panic!("a time budget makes a dispatcher"),
    };
    assert!(matches!(d, Dispatcher::Duration(_)));
    assert!(d.try_apply_job(10));
    assert!(!d.try_apply_job(10 + SEC));
    d.cancel(10 + SEC);
    assert!(!d.is_open());
}

#[test]
fn worker_steps() {
    assert_eq!(worker_next(WorkerStep::Admit, true), WorkerStep::Build);
    assert_eq!(worker_next(WorkerStep::Admit, false), WorkerStep::Exit);
    assert_eq!(worker_next(WorkerStep::Build, false), WorkerStep::Abort);
    assert_eq!(worker_next(WorkerStep::Build, true), WorkerStep::Execute);
    assert_eq!(worker_next(WorkerStep::Execute, false), WorkerStep::Report);
    assert_eq!(worker_next(WorkerStep::Report, true), WorkerStep::Admit);
    assert_eq!(worker_next(WorkerStep::Report, false), WorkerStep::Exit);
}

#[test]
fn aggregator_steps_and_positions() {
    assert_eq!(aggregator_step(true, true), AggregatorAction::Fold);
    assert_eq!(aggregator_step(false, true), AggregatorAction::Finish);
    assert_eq!(aggregator_step(false, false), AggregatorAction::Wait);
    assert_eq!(count_position(30, 20), 20);
    assert_eq!(count_position(7, 20), 7);
    assert_eq!(duration_position(3, 10), 3);
    assert_eq!(duration_position(12, 10), 10);
}

/// Counts the permits a limiter lets through while polling for `span`.
fn permits_within(limiter: &Limiter, span: Duration) -> u64 {
    let begin = Instant::now();
    let mut granted = 0u64;
    while begin.elapsed() < span {
        if limiter.try_acquire() {
            granted += 1;
        }
        std::hint::spin_loop();
    }
    granted
}

#[test]
fn limiter_keeps_to_its_rate() {
    let limiter = Limiter::new(20);
    assert_eq!(limiter.get_rate(), 20);
    let granted = permits_within(&limiter, Duration::from_millis(500));
    // R·Δ + R with R = 20 and Δ = 0.5 s.
    assert!(granted <= 30, "granted {granted}");
    assert!(granted >= 20, "granted {granted}");
}

#[test]
fn limiter_of_one_per_second() {
    let limiter = Limiter::new(1);
    // One permit at once, then one per second: 11 over 10.5 s.
    let granted = permits_within(&limiter, Duration::from_millis(10_500));
    assert!((10..=12).contains(&granted), "granted {granted}");
}

#[test]
fn rate_limited_count_dispatcher_waits_for_permits() {
    let mut d = CountDispatcher::new(100, Some(5));
    let begin = Instant::now();
    let mut admitted = 0u64;
    while begin.elapsed() < Duration::from_millis(1000) {
        if d.try_permit() && d.try_apply_job() {
            admitted += 1;
        }
        std::hint::spin_loop();
    }
    assert!(admitted >= 5 && admitted <= 11, "admitted {admitted}");
}

#[test]
fn duration_mode_with_rate() {
    let origin = Instant::now();
    let now = || origin.elapsed().as_nanos() as u64;
    let mut d = DurationDispatcher::new(3 * SEC, Some(50), now());
    let mut s = Statistics::new(now());
    let mut admitted = 0u64;
    let mut next_sample = now();
    loop {
        if now() >= next_sample {
            assert!(s.take_sample());
            next_sample += 2 * SEC;
        }
        if !d.is_open() {
            break;
        }
        if !d.try_permit() {
            std::hint::spin_loop();
            continue;
        }
        let req_at = now();
        if !d.try_apply_job(req_at) {
            break;
        }
        admitted += 1;
        let rsp_at = now();
        d.complete_job(rsp_at);
        s.handle_message(Message::new(Ok(200), req_at, rsp_at));
    }
    s.stop_timer(now());
    assert!(!s.take_sample());
    // R·D + R with R = 50 and D = 3 s.
    assert!(admitted <= 200, "admitted {admitted}");
    assert!(admitted >= 150, "admitted {admitted}");
    assert_eq!(s.total_success(), admitted);
    let windows = s.trimmed_per_second();
    assert!(!windows.is_empty() && windows.len() <= 2, "windows {windows:?}");
    s.summary(&vec![500_000]);
    assert!(s.max_req_per_second() > 0);
}
