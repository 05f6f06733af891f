use blitz_rs::bench::outcome::BenchmarkOutcome;
use blitz_rs::output::report::{status_codes_ascending, OutcomeReport, PercentileRanks};

fn ranks(n: usize) -> PercentileRanks {
    let r = |p: f64| ((p / 100.0) * n as f64).ceil() as usize;
    PercentileRanks { p50: r(50.0), p90: r(90.0), p99: r(99.0) }
}
use std::collections::HashMap;

#[test]
fn status_codes_come_out_by_ascending_code() {
    let mut m = HashMap::new();
    m.insert(500u16, 4u64);
    m.insert(200, 98);
    m.insert(404, 2);
    m.insert(0, 1);
    m.insert(65535, 3);
    assert_eq!(
        status_codes_ascending(&m),
        vec![(0, 1), (200, 98), (404, 2), (500, 4), (65535, 3)]
    );
    assert!(status_codes_ascending(&HashMap::new()).is_empty());
}

#[test]
fn report_figures() {
    let mut status_counts = HashMap::new();
    status_counts.insert(200u16, 8u64);
    status_counts.insert(404, 2);
    let latencies_ns: Vec<u128> = (1..=10).rev().map(|i| i * 10_000_000 + 500_000).collect();
    let outcome = BenchmarkOutcome {
        latencies_ns,
        total_time_ns: 2_000_000_000,
        status_counts,
        errors: 1,
        total: 11,
    };
    let r = OutcomeReport::of(&outcome, &ranks(outcome.latencies_ns.len()));
    assert_eq!(r.total_requests, 11);
    assert_eq!(r.successful_requests, 8);
    assert_eq!(r.errors, 1);
    assert_eq!(r.latency_ms.p50, 50);
    assert_eq!(r.latency_ms.p90, 90);
    assert_eq!(r.latency_ms.p99, 100);
    assert_eq!(r.latency_ms.max, 100);
    assert_eq!(r.status_codes, vec![(200, 8), (404, 2)]);
}

#[test]
fn report_without_responses() {
    let outcome = BenchmarkOutcome {
        latencies_ns: vec![],
        total_time_ns: 0,
        status_counts: HashMap::new(),
        errors: 3,
        total: 3,
    };
    let r = OutcomeReport::of(&outcome, &ranks(outcome.latencies_ns.len()));
    assert_eq!(r.latency_ms.p50, 0);
    assert_eq!(r.latency_ms.max, 0);
    assert_eq!(r.successful_requests, 0);
    assert!(r.status_codes.is_empty());
}
