use blitz_rs::bench::scheduler::{RequestResult, Scheduler};

fn ok(status: u16, ms: u128) -> RequestResult {
    RequestResult::Responded {
        status,
        latency_ns: ms * 1_000_000,
    }
}

#[test]
fn initial_wave_is_concurrency_capped_by_total() {
    let (s, n) = Scheduler::start(100, 5);
    assert_eq!(n, 5);
    assert_eq!(s.in_flight(), 5);
    let (_, n) = Scheduler::start(3, 10);
    assert_eq!(n, 3);
    let (_, n) = Scheduler::start(0, 10);
    assert_eq!(n, 0);
}

#[test]
fn pipeline_stays_full_until_all_are_sent() {
    let (mut s, n) = Scheduler::start(5, 2);
    assert_eq!(n, 2);
    // Three more requests are launched as results come back, then none.
    assert!(s.record(ok(200, 10)));
    assert_eq!(s.in_flight(), 2);
    assert!(s.record(ok(404, 20)));
    assert!(s.record(RequestResult::Failed));
    assert_eq!(s.in_flight(), 2);
    assert!(!s.record(ok(200, 5)));
    assert_eq!(s.in_flight(), 1);
    assert!(!s.record(ok(500, 7)));
    assert_eq!(s.in_flight(), 0);

    let outcome = s.finish(123);
    assert_eq!(outcome.total, 5);
    assert_eq!(outcome.errors, 1);
    assert_eq!(outcome.total_time_ns, 123);
    assert_eq!(
        outcome.latencies_ns,
        vec![10_000_000, 20_000_000, 5_000_000, 7_000_000]
    );
    assert_eq!(outcome.status_counts.len(), 3);
    assert_eq!(outcome.status_counts[&200], 2);
    assert_eq!(outcome.status_counts[&404], 1);
    assert_eq!(outcome.status_counts[&500], 1);
    assert_eq!(outcome.latencies_ns.len() as u64 + outcome.errors, outcome.total);
    assert_eq!(outcome.success_count(), 2);
}

#[test]
fn single_request_run() {
    let (mut s, n) = Scheduler::start(1, 1);
    assert_eq!(n, 1);
    assert!(!s.record(ok(204, 1)));
    let outcome = s.finish(0);
    assert_eq!(outcome.total, 1);
    assert_eq!(outcome.errors, 0);
    assert_eq!(outcome.success_count(), 1);
}

#[test]
fn zero_concurrency_sends_nothing() {
    let (s, n) = Scheduler::start(5, 0);
    assert_eq!(n, 0);
    assert_eq!(s.in_flight(), 0);
    let outcome = s.finish(0);
    assert_eq!(outcome.total, 5);
    assert!(outcome.latencies_ns.is_empty());
    assert!(outcome.status_counts.is_empty());
    assert_eq!(outcome.errors, 0);
}

#[test]
fn all_failures_are_counted_as_errors() {
    let (mut s, n) = Scheduler::start(4, 4);
    assert_eq!(n, 4);
    for _ in 0..4 {
        assert!(!s.record(RequestResult::Failed));
    }
    let outcome = s.finish(10);
    assert_eq!(outcome.errors, 4);
    assert!(outcome.latencies_ns.is_empty());
    assert_eq!(outcome.success_count(), 0);
}

#[test]
fn many_requests_never_exceed_concurrency() {
    let (mut s, n) = Scheduler::start(1000, 7);
    let mut in_flight = n;
    let mut sent = n;
    let mut done = 0u64;
    while in_flight > 0 {
        assert!(s.in_flight() <= 7);
        assert_eq!(s.in_flight(), std::cmp::min(7, 1000 - done));
        let status = if done % 3 == 0 { 500 } else { 200 };
        if s.record(ok(status, done as u128)) {
            sent += 1;
        } else {
            in_flight -= 1;
        }
        done += 1;
    }
    assert_eq!(sent, 1000);
    let outcome = s.finish(1);
    assert_eq!(outcome.latencies_ns.len(), 1000);
    let total: u64 = outcome.status_counts.values().sum();
    assert_eq!(total, 1000);
}
