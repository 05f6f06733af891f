use blitz_rs::bench::outcome::BenchmarkOutcome;
use std::collections::HashMap;

fn outcome_with(latencies_ns: Vec<u128>, counts: &[(u16, u64)]) -> BenchmarkOutcome {
    let mut status_counts = HashMap::new();
    for (c, n) in counts {
        status_counts.insert(*c, *n);
    }
    BenchmarkOutcome {
        latencies_ns,
        total_time_ns: 1_000_000_000,
        status_counts,
        errors: 0,
        total: 0,
    }
}

#[test]
fn latencies_are_converted_to_whole_ms_and_sorted() {
    let o = outcome_with(vec![3_500_000, 1_000_000, 2_999_999, 0, 999_999], &[]);
    assert_eq!(o.latencies_ms_sorted(), vec![0, 0, 1, 2, 3]);
}

#[test]
fn latencies_sort_matches_std_sort() {
    let mut ns: Vec<u128> = Vec::new();
    let mut x: u128 = 12345;
    for _ in 0..1000 {
        x = (x * 6364136223846793005 + 1442695040888963407) % (1u128 << 64);
        ns.push(x % 5_000_000_000);
    }
    let o = outcome_with(ns.clone(), &[]);
    let mut expected: Vec<u128> = ns.iter().map(|n| n / 1_000_000).collect();
    expected.sort_unstable();
    assert_eq!(o.latencies_ms_sorted(), expected);
}

#[test]
fn empty_latencies_give_empty_sorted_list() {
    let o = outcome_with(vec![], &[]);
    assert!(o.latencies_ms_sorted().is_empty());
}

/// The nearest rank of percentile `p` among `len` samples, in floating point.
fn rank(len: usize, p: f64) -> usize {
    ((p / 100.0) * len as f64).ceil() as usize
}

#[test]
fn no_samples_give_zero() {
    let o = outcome_with(vec![], &[]);
    assert_eq!(o.value_at_rank(&[], 5), 0);
    assert_eq!(o.value_at_rank(&[], 0), 0);
}

#[test]
fn percentiles_of_ten_samples() {
    let o = outcome_with(vec![], &[]);
    let sorted: Vec<u128> = (1..=10).map(|i| i * 10).collect();
    assert_eq!(o.value_at_rank(&sorted, rank(10, 50.0)), 50);
    assert_eq!(o.value_at_rank(&sorted, rank(10, 90.0)), 90);
    assert_eq!(o.value_at_rank(&sorted, rank(10, 99.0)), 100);
    assert_eq!(o.value_at_rank(&sorted, rank(10, 100.0)), 100);
    assert_eq!(o.value_at_rank(&sorted, rank(10, 0.0)), 10);
}

#[test]
fn ranks_are_clamped_to_the_samples() {
    let o = outcome_with(vec![], &[]);
    let sorted: Vec<u128> = vec![3, 4, 5];
    assert_eq!(o.value_at_rank(&sorted, 0), 3);
    assert_eq!(o.value_at_rank(&sorted, 1), 3);
    assert_eq!(o.value_at_rank(&sorted, 2), 4);
    assert_eq!(o.value_at_rank(&sorted, 3), 5);
    assert_eq!(o.value_at_rank(&sorted, 1000), 5);
    assert_eq!(o.value_at_rank(&sorted, usize::MAX), 5);
}

#[test]
fn fractional_percent_ranks_follow_floating_point() {
    // 7% of 100 samples: 0.07 * 100 is just above 7 in floating point, so
    // the rank rounds up to 8 and the eighth sample is picked.
    let o = outcome_with(vec![], &[]);
    let sorted: Vec<u128> = (0..100).collect();
    assert_eq!(rank(100, 7.0), 8);
    assert_eq!(o.value_at_rank(&sorted, rank(100, 7.0)), 7);
    assert_eq!(o.value_at_rank(&sorted, rank(100, 12.5)), 12);
}

#[test]
fn percentile_of_single_sample() {
    let o = outcome_with(vec![], &[]);
    assert_eq!(o.value_at_rank(&[42], rank(1, 50.0)), 42);
    assert_eq!(o.value_at_rank(&[42], rank(1, 99.0)), 42);
}

#[test]
fn higher_ranks_never_give_smaller_values() {
    let o = outcome_with(vec![], &[]);
    let sorted: Vec<u128> = vec![1, 1, 2, 3, 5, 8, 13, 21, 34];
    let mut last = 0;
    for r in 0..=20 {
        let v = o.value_at_rank(&sorted, r);
        assert!(v >= last);
        assert!(sorted.contains(&v));
        last = v;
    }
}

#[test]
fn success_count_sums_only_2xx() {
    let o = outcome_with(
        vec![],
        &[(200, 3), (201, 2), (299, 1), (300, 7), (404, 1), (500, 4), (199, 9)],
    );
    assert_eq!(o.success_count(), 6);
}

#[test]
fn success_count_without_responses_is_zero() {
    let o = outcome_with(vec![], &[]);
    assert_eq!(o.success_count(), 0);
}
