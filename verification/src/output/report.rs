use std::collections::HashMap;
use vstd::prelude::*;

use crate::bench::outcome::{
    lemma_rank_full_is_max, lemma_rank_monotone, sample_at_rank, sorted_latencies_ms,
    successes, BenchmarkOutcome,
};

verus! {

broadcast use vstd::std_specs::hash::group_hash_axioms;

/// Latency percentiles of a run, in whole milliseconds.
pub struct LatencyMs {
    pub p50: u128,
    pub p90: u128,
    pub p99: u128,
    pub max: u128,
}

/// The figures that both output formats report about a run.
pub struct OutcomeReport {
    /// Requests sent in all
    pub total_requests: u64,
    /// Responses with a 2xx status
    pub successful_requests: u64,
    /// Latency percentiles
    pub latency_ms: LatencyMs,
    /// Each status code that answered, with its count, by ascending code
    pub status_codes: Vec<(u16, u64)>,
    /// Requests that got no response
    pub errors: u64,
}

/// The status codes below `n` that `counts` records, with their counts, by
/// ascending code.
pub open spec fn status_table(counts: Map<u16, u64>, n: int) -> Seq<(u16, u64)>
    decreases n,
{
    if n <= 0 {
        Seq::empty()
    } else {
        let prev = status_table(counts, n - 1);
        let code = (n - 1) as u16;
        if counts.contains_key(code) {
            prev.push((code, counts[code]))
        } else {
            prev
        }
    }
}

/// The largest of ascending samples, 0 without samples.
pub open spec fn max_of(sorted: Seq<u128>) -> u128 {
    if sorted.len() == 0 {
        0
    } else {
        sorted.last()
    }
}

/// The status table lists codes in strictly ascending order, each code below
/// `n` that the counts record, with its count, and nothing else.
pub proof fn lemma_status_table(counts: Map<u16, u64>, n: int)
    requires
        0 <= n <= 65536,
    ensures
        forall|i: int, j: int|
            0 <= i < j < status_table(counts, n).len() ==> status_table(counts, n)[i].0
                < status_table(counts, n)[j].0,
        forall|i: int|
            0 <= i < status_table(counts, n).len() ==> {
                let e = #[trigger] status_table(counts, n)[i];
                &&& e.0 < n
                &&& counts.contains_key(e.0)
                &&& counts[e.0] == e.1
            },
        forall|code: u16|
            code < n && #[trigger] counts.contains_key(code) ==> status_table(counts, n).contains(
                (code, counts[code]),
            ),
    decreases n,
{
    if n > 0 {
        lemma_status_table(counts, n - 1);
        let prev = status_table(counts, n - 1);
        let code = (n - 1) as u16;
        if counts.contains_key(code) {
            let t = prev.push((code, counts[code]));
            assert(t[t.len() - 1] == (code, counts[code]));
            assert forall|c: u16| c < n && #[trigger] counts.contains_key(c) implies t.contains(
                (c, counts[c]),
            ) by {
                if c < n - 1 {
                    let k = choose|k: int| 0 <= k < prev.len() && prev[k] == (c, counts[c]);
                    assert(t[k] == prev[k]);
                } else {
                    assert(t[t.len() - 1] == (c, counts[c]));
                }
            }
        } else {
            assert forall|c: u16| c < n && #[trigger] counts.contains_key(c) implies prev.contains(
                (c, counts[c]),
            ) by {
                assert(c != code);
            }
        }
    }
}

/// The nearest ranks of the reported percentiles p50, p90 and p99.
pub struct PercentileRanks {
    pub p50: usize,
    pub p90: usize,
    pub p99: usize,
}

impl OutcomeReport {
    /// Compute the reported figures of a run, with the nearest ranks of its
    /// percentiles (computed from the latency count by the caller).
    pub fn of(outcome: &BenchmarkOutcome, ranks: &PercentileRanks) -> (r: OutcomeReport)
        requires
            successes(outcome.status_counts@) <= u64::MAX,
        ensures
            ({
                let sorted = sorted_latencies_ms(outcome.latencies_ns@);
                &&& r.latency_ms.p50 == sample_at_rank(sorted, ranks.p50 as int)
                &&& r.latency_ms.p90 == sample_at_rank(sorted, ranks.p90 as int)
                &&& r.latency_ms.p99 == sample_at_rank(sorted, ranks.p99 as int)
                &&& r.latency_ms.max == max_of(sorted)
            }),
            r.total_requests == outcome.total,
            r.successful_requests == successes(outcome.status_counts@),
            r.status_codes@ == status_table(outcome.status_counts@, 65536),
            r.errors == outcome.errors,
            r.latency_ms.p99 <= r.latency_ms.max,
            ranks.p50 <= ranks.p90 <= ranks.p99 ==> r.latency_ms.p50 <= r.latency_ms.p90
                <= r.latency_ms.p99,
    {
        let sorted = outcome.latencies_ms_sorted();
        proof {
            if ranks.p50 <= ranks.p90 <= ranks.p99 {
                lemma_rank_monotone(sorted@, ranks.p50 as int, ranks.p90 as int);
                lemma_rank_monotone(sorted@, ranks.p90 as int, ranks.p99 as int);
            }
            if sorted@.len() > 0 {
                let full = if ranks.p99 as int > sorted@.len() {
                    ranks.p99 as int
                } else {
                    sorted@.len() as int
                };
                lemma_rank_monotone(sorted@, ranks.p99 as int, full);
                lemma_rank_full_is_max(sorted@, full);
            }
        }
        let p50 = outcome.value_at_rank(sorted.as_slice(), ranks.p50);
        let p90 = outcome.value_at_rank(sorted.as_slice(), ranks.p90);
        let p99 = outcome.value_at_rank(sorted.as_slice(), ranks.p99);
        let max = if sorted.len() == 0 {
            0
        } else {
            sorted[sorted.len() - 1]
        };
        OutcomeReport {
            total_requests: outcome.total,
            successful_requests: outcome.success_count(),
            latency_ms: LatencyMs { p50, p90, p99, max },
            status_codes: status_codes_ascending(&outcome.status_counts),
            errors: outcome.errors,
        }
    }
}

/// Each status code that `counts` records, with its count, by ascending code.
pub fn status_codes_ascending(counts: &HashMap<u16, u64>) -> (r: Vec<(u16, u64)>)
    ensures
        r@ == status_table(counts@, 65536),
{
    let mut r: Vec<(u16, u64)> = Vec::new();
    let mut code: u32 = 0;
    while code < 65536
        invariant
            code <= 65536,
            r@ == status_table(counts@, code as int),
        decreases 65536 - code,
    {
        let c = code as u16;
        match counts.get(&c) {
            Some(n) => {
                r.push((c, *n));
            },
            None => {},
        }
        code = code + 1;
    }
    r
}

} // verus!
