use springd::dispatcher::CountDispatcher;
use springd::latency::{
    max_nanos, mean_nanos, percentile_latencies, prefix_mean_nanos, prefix_sum, stdev_nanos,
    trim_samples,
};
use springd::statistics::{Message, Statistics, TransportError};
use springd::status::{classify, StatusClass, StatusCounts};

const MS: u64 = 1_000_000;

fn ok(code: u16, req_at: u64, rsp_at: u64) -> Message {
    Message::new(Ok(code), req_at, rsp_at)
}

fn failed(kind: &str, status: Option<u16>, at: u64) -> Message {
    Message::new(Err(TransportError { kind: kind.to_string(), status }), at, at + MS)
}

fn error_total(s: &Statistics) -> u64 {
    s.errors().iter().map(|(_, c)| *c).sum()
}

#[test]
fn status_ranges() {
    assert_eq!(classify(100), StatusClass::Informational);
    assert_eq!(classify(199), StatusClass::Informational);
    assert_eq!(classify(200), StatusClass::Success);
    assert_eq!(classify(302), StatusClass::Redirection);
    assert_eq!(classify(404), StatusClass::ClientError);
    assert_eq!(classify(500), StatusClass::ServerError);
    assert_eq!(classify(511), StatusClass::ServerError);
    assert_eq!(classify(512), StatusClass::Other);
    assert_eq!(classify(99), StatusClass::Other);
    assert_eq!(classify(600), StatusClass::Other);
}

#[test]
fn status_record_moves_one_counter() {
    let mut c = StatusCounts::new();
    c.record(201);
    c.record(503);
    c.record(503);
    c.record(42);
    assert_eq!(c.count(StatusClass::Success), 1);
    assert_eq!(c.count(StatusClass::ServerError), 2);
    assert_eq!(c.count(StatusClass::Other), 1);
    assert_eq!(c.count(StatusClass::Informational), 0);
    assert_eq!(c.count(StatusClass::Redirection), 0);
    assert_eq!(c.count(StatusClass::ClientError), 0);
}

#[test]
fn count_mode_all_success() {
    let mut d = CountDispatcher::new(1000, None);
    let mut s = Statistics::new(0);
    let mut t = 0u64;
    while d.try_apply_job() {
        d.complete_job();
        s.handle_message(ok(200, t, t + 3 * MS));
        t += MS;
    }
    s.stop_timer(t);
    assert_eq!(s.get_total(), 1000);
    assert_eq!(s.total_success(), 1000);
    assert_eq!(s.status_count(StatusClass::Success), 1000);
    assert!(s.errors().is_empty());
    assert_eq!(s.elapsed_time().len(), 1000);
    s.summary(&vec![500_000, 750_000, 900_000, 990_000]);
    assert_eq!(s.avg_req_elapsed_time(), 3 * MS);
    assert!(s.avg_req_elapsed_time() > 0);
    assert_eq!(s.max_req_elapsed_time(), 3 * MS);
    assert_eq!(s.stdev_req_elapsed_time(), 0);
    assert!(s.elapsed_time().is_empty());
    assert_eq!(s.run_nanos(), Some(1000 * MS));
}

#[test]
fn count_mode_mixed_statuses() {
    let mut s = Statistics::new(0);
    for i in 1..=200u64 {
        let code = if i % 2 == 1 { 200 } else { 500 };
        s.handle_message(ok(code, i * MS, i * MS + MS));
    }
    assert_eq!(s.status_count(StatusClass::Success), 100);
    assert_eq!(s.status_count(StatusClass::ServerError), 100);
    assert_eq!(s.total_success(), 200);
    assert_eq!(s.get_total(), 200);
}

#[test]
fn transport_errors_only() {
    let mut s = Statistics::new(0);
    for i in 0..50u64 {
        s.handle_message(failed("error sending request: connection refused", None, i * MS));
    }
    s.stop_timer(50 * MS);
    assert_eq!(s.get_total(), 50);
    assert_eq!(s.total_success(), 0);
    assert_eq!(s.errors().len(), 1);
    assert_eq!(s.errors()[0].1, 50);
    let all: u64 = [
        StatusClass::Informational,
        StatusClass::Success,
        StatusClass::Redirection,
        StatusClass::ClientError,
        StatusClass::ServerError,
        StatusClass::Other,
    ]
    .iter()
    .map(|c| s.status_count(*c))
    .sum();
    assert_eq!(all, 0);
    s.summary(&vec![500_000, 900_000]);
    assert_eq!(s.avg_req_elapsed_time(), 0);
    assert_eq!(s.max_req_elapsed_time(), 0);
    assert_eq!(s.stdev_req_elapsed_time(), 0);
    assert!(s.latencies().is_empty());
}

#[test]
fn errors_with_status_count_in_their_range() {
    let mut s = Statistics::new(0);
    s.handle_message(failed("timeout", None, 0));
    s.handle_message(failed("bad gateway", Some(502), 0));
    s.handle_message(failed("timeout", None, 0));
    s.handle_message(ok(204, 0, MS));
    assert_eq!(s.status_count(StatusClass::ServerError), 1);
    assert_eq!(s.status_count(StatusClass::Success), 1);
    assert_eq!(s.errors().len(), 2);
    assert_eq!(s.errors()[0].0, "timeout");
    assert_eq!(s.errors()[0].1, 2);
    assert_eq!(s.errors()[1].0, "bad gateway");
    assert_eq!(s.errors()[1].1, 1);
    assert_eq!(s.get_total(), s.total_success() + error_total(&s));
    assert_eq!(s.elapsed_time().len() as u64, s.total_success());
}

#[test]
fn totals_balance_over_any_mix() {
    let mut s = Statistics::new(0);
    for i in 0..300u64 {
        match i % 5 {
            0 => s.handle_message(failed("reset", None, i)),
            1 => s.handle_message(failed("status", Some(429), i)),
            2 => s.handle_message(ok(302, i, i + 7)),
            _ => s.handle_message(ok(200, i, i + i)),
        }
        assert_eq!(s.get_total(), s.total_success() + error_total(&s));
        assert_eq!(s.elapsed_time().len() as u64, s.total_success());
    }
}

#[test]
fn percentile_prefix_means() {
    let mut s = Statistics::new(0);
    // Distinct latencies 1 ms ..= 1000 ms, folded in a scrambled order.
    for i in 0..1000u64 {
        let k = (i * 7919) % 1000 + 1;
        s.handle_message(ok(200, 0, k * MS));
    }
    s.summary(&vec![500_000, 900_000, 990_000]);
    let l = s.latencies();
    assert_eq!(l.len(), 3);
    // The mean of 1..=n ms is (n + 1) / 2 ms.
    assert_eq!(l[0], (500_000, 250_500_000));
    assert_eq!(l[1], (900_000, 450_500_000));
    assert_eq!(l[2], (990_000, 495_500_000));
    assert_eq!(s.max_req_elapsed_time(), 1000 * MS);
    assert_eq!(s.avg_req_elapsed_time(), 500_500_000);
    for w in l.windows(2) {
        assert!(w[0].0 <= w[1].0);
    }
    for (_, v) in l.iter() {
        assert!(*v <= s.max_req_elapsed_time());
    }
}

#[test]
fn empty_summary_keeps_zero_defaults() {
    let mut s = Statistics::new(0);
    s.summary(&vec![500_000, 750_000, 900_000, 990_000]);
    assert_eq!(s.avg_req_elapsed_time(), 0);
    assert_eq!(s.max_req_elapsed_time(), 0);
    assert_eq!(s.stdev_req_elapsed_time(), 0);
    assert_eq!(s.max_req_per_second(), 0);
    assert!(s.latencies().is_empty());
}

#[test]
fn sampler_windows_and_trim() {
    let mut s = Statistics::new(0);
    assert!(s.take_sample());
    for i in 0..7u64 {
        s.handle_message(ok(200, i, i + 1));
    }
    assert_eq!(s.current_cumulative(), 7);
    assert!(s.take_sample());
    assert_eq!(s.current_cumulative(), 0);
    for i in 0..3u64 {
        s.handle_message(ok(200, i, i + 1));
    }
    s.stop_timer(6_000 * MS);
    assert!(!s.take_sample());
    assert_eq!(s.req_per_second(), &vec![0, 7, 3]);
    assert_eq!(s.trimmed_per_second(), vec![7]);
    s.summary(&vec![]);
    assert_eq!(s.max_req_per_second(), 7);
}

#[test]
fn trim_rules() {
    assert_eq!(trim_samples(&vec![]), Vec::<u64>::new());
    assert_eq!(trim_samples(&vec![0]), Vec::<u64>::new());
    assert_eq!(trim_samples(&vec![5]), vec![5]);
    assert_eq!(trim_samples(&vec![0, 5]), vec![5]);
    assert_eq!(trim_samples(&vec![0, 5, 6]), vec![5]);
    assert_eq!(trim_samples(&vec![4, 5, 6]), vec![4, 5]);
    assert_eq!(trim_samples(&vec![0, 0, 6]), vec![0]);
}

#[test]
fn latency_formulas() {
    let v = vec![2u64, 4, 4, 4, 5, 5, 7, 9];
    assert_eq!(prefix_sum(&v, 3), 10);
    assert_eq!(mean_nanos(&v), 5);
    assert_eq!(max_nanos(&v), 9);
    // Population standard deviation of this set is exactly 2.
    assert_eq!(stdev_nanos(&v), 2);
    assert_eq!(stdev_nanos(&vec![1, 2]), 0);
    assert_eq!(stdev_nanos(&vec![0, 10]), 5);
    assert_eq!(stdev_nanos(&vec![]), 0);
    assert_eq!(prefix_mean_nanos(&v, 0), 0);
    assert_eq!(prefix_mean_nanos(&v, 2), 3);
    assert_eq!(mean_nanos(&vec![u64::MAX, u64::MAX]), u64::MAX);
    assert_eq!(stdev_nanos(&vec![0, u64::MAX]), u64::MAX / 2);
}

#[test]
fn percentiles_skip_and_round_down() {
    let v = vec![10u64, 20, 30];
    // ⌊3 · 0.5⌋ = 1, ⌊3 · 1.0⌋ = 3, ⌊3 · 0.1⌋ = 0, and 1.5 asks for too long a prefix.
    let l = percentile_latencies(&v, &vec![500_000, 1_000_000, 100_000, 1_500_000]);
    assert_eq!(l, vec![(500_000, 10), (1_000_000, 20), (100_000, 0)]);
    assert!(percentile_latencies(&vec![], &vec![500_000]).is_empty());
}

#[test]
fn summary_sorts_before_percentiles() {
    let mut s = Statistics::new(0);
    for k in [9u64, 1, 5, 3, 7] {
        s.handle_message(ok(200, 0, k));
    }
    s.summary(&vec![400_000, 600_000, 1_000_000]);
    assert_eq!(s.latencies(), &vec![(400_000, 2), (600_000, 3), (1_000_000, 5)]);
    assert_eq!(s.max_req_elapsed_time(), 9);
    assert_eq!(s.avg_req_elapsed_time(), 5);
    assert_eq!(s.stdev_req_elapsed_time(), 2);
}

#[test]
fn reset_start_moves_the_run_window() {
    let mut s = Statistics::new(5);
    s.reset_start_time(100);
    assert_eq!(s.started_at(), 100);
    assert_eq!(s.run_nanos(), None);
    s.stop_timer(400);
    assert_eq!(s.stopped_at(), Some(400));
    assert_eq!(s.run_nanos(), Some(300));
}
