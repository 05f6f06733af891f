use std::collections::HashMap;
use vstd::prelude::*;

use crate::bench::sort::{is_sorted, sort_ascending};

verus! {

broadcast use vstd::std_specs::hash::group_hash_axioms;

/// Holds all results from a single benchmark run.
#[derive(Clone)]
pub struct BenchmarkOutcome {
    /// Latency of each successful request, in nanoseconds
    pub latencies_ns: Vec<u128>,
    /// Total wall-clock time for the entire benchmark, in nanoseconds
    pub total_time_ns: u128,
    /// Count of responses grouped by HTTP status code
    pub status_counts: HashMap<u16, u64>,
    /// Number of requests that failed to get a response
    pub errors: u64,
    /// Total number of requests sent (successful + failed)
    pub total: u64,
}

/// Whole milliseconds in a span of `ns` nanoseconds (what `Duration::as_millis` gives).
pub open spec fn ns_to_ms(ns: u128) -> u128 {
    (ns / 1_000_000) as u128
}

/// The latencies of `ns`, each in whole milliseconds, in the order given.
pub open spec fn latencies_in_ms(ns: Seq<u128>) -> Seq<u128> {
    ns.map_values(|x: u128| ns_to_ms(x))
}

/// The latencies of `ns` in whole milliseconds, in ascending order.
pub open spec fn sorted_latencies_ms(ns: Seq<u128>) -> Seq<u128> {
    latencies_in_ms(ns).sort_by(|a: u128, b: u128| a <= b)
}

proof fn lemma_leq_total()
    ensures
        vstd::relations::total_ordering(|a: u128, b: u128| a <= b),
{
    let leq = |a: u128, b: u128| a <= b;
    assert(vstd::relations::reflexive(leq));
    assert(vstd::relations::antisymmetric(leq));
    assert(vstd::relations::transitive(leq));
    assert(vstd::relations::strongly_connected(leq));
}

/// An ascending sequence holding the millisecond latencies of `ns` is exactly
/// `sorted_latencies_ms(ns)`.
pub proof fn lemma_sorted_latencies_unique(s: Seq<u128>, ns: Seq<u128>)
    requires
        is_sorted(s),
        s.to_multiset() =~= latencies_in_ms(ns).to_multiset(),
    ensures
        s == sorted_latencies_ms(ns),
        is_sorted(sorted_latencies_ms(ns)),
{
    let leq = |a: u128, b: u128| a <= b;
    lemma_leq_total();
    latencies_in_ms(ns).lemma_sort_by_ensures(leq);
    let t = sorted_latencies_ms(ns);
    assert(vstd::relations::sorted_by(s, leq)) by {
        assert forall|i: int, j: int| 0 <= i < j < s.len() implies #[trigger] leq(s[i], s[j]) by {
        }
    }
    vstd::seq_lib::lemma_sorted_unique(s, t, leq);
    assert forall|i: int, j: int| 0 <= i <= j < t.len() implies t[i] <= t[j] by {
        if i < j {
            assert(leq(t[i], t[j]));
        }
    }
}

/// How many responses `counts` records for `code` (0 where the code is absent).
pub open spec fn count_of(counts: Map<u16, u64>, code: int) -> int {
    if counts.contains_key(code as u16) {
        counts[code as u16] as int
    } else {
        0
    }
}

/// The number of responses recorded in `counts` for the codes `lo..hi`.
pub open spec fn count_in_range(counts: Map<u16, u64>, lo: int, hi: int) -> int
    decreases hi - lo,
{
    if hi <= lo {
        0
    } else {
        count_in_range(counts, lo, hi - 1) + count_of(counts, hi - 1)
    }
}

/// The number of 2xx responses recorded in `counts`.
pub open spec fn successes(counts: Map<u16, u64>) -> int {
    count_in_range(counts, 200, 300)
}

/// The index that a (1-based) rank picks among `len >= 1` samples: the
/// rank's position, clamped to the samples.
pub open spec fn rank_index(len: int, rank: int) -> int {
    if rank < 1 {
        0
    } else if rank - 1 > len - 1 {
        len - 1
    } else {
        rank - 1
    }
}

/// The sample of the ascending samples `sorted` at the (1-based) rank `rank`,
/// clamped to the samples; 0 without samples. A percentile is the sample at
/// its nearest rank.
pub open spec fn sample_at_rank(sorted: Seq<u128>, rank: int) -> u128 {
    if sorted.len() == 0 {
        0
    } else {
        sorted[rank_index(sorted.len() as int, rank)]
    }
}

/// A count over a range never falls below zero and grows with the range.
pub proof fn lemma_count_in_range_monotone(counts: Map<u16, u64>, lo: int, mid: int, hi: int)
    requires
        lo <= mid <= hi,
    ensures
        0 <= count_in_range(counts, lo, mid) <= count_in_range(counts, lo, hi),
    decreases hi - mid,
{
    if mid < hi {
        lemma_count_in_range_monotone(counts, lo, mid, hi - 1);
    } else {
        lemma_count_in_range_nonneg(counts, lo, mid);
    }
}

proof fn lemma_count_in_range_insert(counts: Map<u16, u64>, code: u16, n: u64, lo: int, hi: int)
    requires
        0 <= lo,
        hi <= 65536,
    ensures
        count_in_range(counts.insert(code, n), lo, hi) == count_in_range(counts, lo, hi) + if lo
            <= code < hi {
            n - count_of(counts, code as int)
        } else {
            0
        },
    decreases hi - lo,
{
    if lo < hi {
        lemma_count_in_range_insert(counts, code, n, lo, hi - 1);
        let c = hi - 1;
        if c == code as int {
            assert(count_of(counts.insert(code, n), c) == n);
        } else {
            assert((c as u16) != code);
            assert(count_of(counts.insert(code, n), c) == count_of(counts, c));
        }
    }
}

proof fn lemma_count_in_range_empty(lo: int, hi: int)
    ensures
        count_in_range(Map::<u16, u64>::empty(), lo, hi) == 0,
    decreases hi - lo,
{
    if lo < hi {
        lemma_count_in_range_empty(lo, hi - 1);
    }
}

proof fn lemma_count_in_range_absent(counts: Map<u16, u64>, lo: int, hi: int)
    requires
        0 <= lo,
        hi <= 65536,
        forall|c: u16| lo <= c < hi ==> !#[trigger] counts.contains_key(c),
    ensures
        count_in_range(counts, lo, hi) == 0,
    decreases hi - lo,
{
    if lo < hi {
        lemma_count_in_range_absent(counts, lo, hi - 1);
        assert(!counts.contains_key((hi - 1) as u16));
    }
}

/// The success count counts exactly the 2xx responses: without any recorded
/// status it is 0; recording `n` responses for a code outside 200..=299 leaves
/// it unchanged; setting a 2xx code's count to `n` moves it by the change of
/// that code's count.
pub proof fn lemma_successes_are_the_2xx_counts(counts: Map<u16, u64>, code: u16, n: u64)
    ensures
        successes(Map::<u16, u64>::empty()) == 0,
        !(200 <= code < 300) ==> successes(counts.insert(code, n)) == successes(counts),
        200 <= code < 300 ==> successes(counts.insert(code, n)) == successes(counts) - count_of(
            counts,
            code as int,
        ) + n,
        (forall|c: u16| #[trigger] counts.contains_key(c) ==> !(200 <= c < 300)) ==> successes(
            counts,
        ) == 0,
{
    lemma_count_in_range_empty(200, 300);
    if forall|c: u16| #[trigger] counts.contains_key(c) ==> !(200 <= c < 300) {
        lemma_count_in_range_absent(counts, 200, 300);
    }
    lemma_count_in_range_insert(counts, code, n, 200, 300);
}

/// A count over `lo..hi` is the count over `lo..mid` plus the count over `mid..hi`.
pub proof fn lemma_count_in_range_split(counts: Map<u16, u64>, lo: int, mid: int, hi: int)
    requires
        lo <= mid <= hi,
    ensures
        count_in_range(counts, lo, hi) == count_in_range(counts, lo, mid) + count_in_range(
            counts,
            mid,
            hi,
        ),
    decreases hi - mid,
{
    if mid < hi {
        lemma_count_in_range_split(counts, lo, mid, hi - 1);
    }
}

proof fn lemma_count_in_range_nonneg(counts: Map<u16, u64>, lo: int, hi: int)
    ensures
        count_in_range(counts, lo, hi) >= 0,
    decreases hi - lo,
{
    if lo < hi {
        lemma_count_in_range_nonneg(counts, lo, hi - 1);
    }
}

/// The sample at any rank of a non-empty sample set is one of the samples.
pub proof fn lemma_rank_picks_a_sample(sorted: Seq<u128>, rank: int)
    requires
        sorted.len() > 0,
    ensures
        0 <= rank_index(sorted.len() as int, rank) < sorted.len(),
        sample_at_rank(sorted, rank) == sorted[rank_index(sorted.len() as int, rank)],
        sorted.contains(sample_at_rank(sorted, rank)),
{
    let idx = rank_index(sorted.len() as int, rank);
    assert(sorted[idx] == sample_at_rank(sorted, rank));
}

/// On ascending samples a higher rank (so a higher percentile) never gives a
/// smaller value.
pub proof fn lemma_rank_monotone(sorted: Seq<u128>, r1: int, r2: int)
    requires
        is_sorted(sorted),
        r1 <= r2,
    ensures
        sample_at_rank(sorted, r1) <= sample_at_rank(sorted, r2),
{
    if sorted.len() > 0 {
        lemma_rank_picks_a_sample(sorted, r1);
        lemma_rank_picks_a_sample(sorted, r2);
    }
}

/// A rank at or past the number of samples (percentile 100) picks the
/// maximum of non-empty ascending samples.
pub proof fn lemma_rank_full_is_max(sorted: Seq<u128>, rank: int)
    requires
        is_sorted(sorted),
        sorted.len() > 0,
        rank >= sorted.len(),
    ensures
        sample_at_rank(sorted, rank) == sorted.last(),
        forall|i: int| 0 <= i < sorted.len() ==> sorted[i] <= sample_at_rank(sorted, rank),
{
}

/// A rank of 1 or less (percentile 0) picks the minimum of non-empty
/// ascending samples.
pub proof fn lemma_rank_first_is_min(sorted: Seq<u128>, rank: int)
    requires
        is_sorted(sorted),
        sorted.len() > 0,
        rank <= 1,
    ensures
        sample_at_rank(sorted, rank) == sorted[0],
        forall|i: int| 0 <= i < sorted.len() ==> sample_at_rank(sorted, rank) <= sorted[i],
{
}

impl BenchmarkOutcome {
    /// Convert latencies to milliseconds and sort them.
    /// Needed for percentile calculations.
    pub fn latencies_ms_sorted(&self) -> (r: Vec<u128>)
        ensures
            r@ == sorted_latencies_ms(self.latencies_ns@),
            is_sorted(r@),
            r@.to_multiset() =~= latencies_in_ms(self.latencies_ns@).to_multiset(),
            r@.len() == self.latencies_ns@.len(),
    {
        let mut ms: Vec<u128> = Vec::new();
        let mut k: usize = 0;
        while k < self.latencies_ns.len()
            invariant
                k <= self.latencies_ns@.len(),
                ms@ =~= latencies_in_ms(self.latencies_ns@.take(k as int)),
            decreases self.latencies_ns@.len() - k,
        {
            ms.push(self.latencies_ns[k] / 1_000_000);
            k = k + 1;
        }
        assert(self.latencies_ns@.take(k as int) =~= self.latencies_ns@);
        let r = sort_ascending(&ms);
        proof {
            lemma_sorted_latencies_unique(r@, self.latencies_ns@);
        }
        r
    }

    /// The latency of a percentile from a sorted latency array, given the
    /// percentile's nearest rank (1-based; the percentile's share of the
    /// sample count, rounded up). Returns 0 if no latencies were recorded.
    pub fn value_at_rank(&self, sorted: &[u128], rank: usize) -> (r: u128)
        ensures
            r == sample_at_rank(sorted@, rank as int),
    {
        if sorted.len() == 0 {
            return 0;
        }
        let below: usize = if rank == 0 {
            0
        } else {
            rank - 1
        };
        let idx = if below < sorted.len() - 1 {
            below
        } else {
            sorted.len() - 1
        };
        sorted[idx]
    }

    /// Count of 2xx responses.
    pub fn success_count(&self) -> (r: u64)
        requires
            successes(self.status_counts@) <= u64::MAX,
        ensures
            r == successes(self.status_counts@),
            (forall|c: u16| #[trigger] self.status_counts@.contains_key(c) ==> !(200 <= c < 300))
                ==> r == 0,
    {
        proof {
            lemma_successes_are_the_2xx_counts(self.status_counts@, 200, 0);
        }
        let mut sum: u64 = 0;
        let mut code: u16 = 200;
        while code < 300
            invariant
                200 <= code <= 300,
                successes(self.status_counts@) <= u64::MAX,
                sum == count_in_range(self.status_counts@, 200, code as int),
            decreases 300 - code,
        {
            proof {
                lemma_count_in_range_monotone(self.status_counts@, 200, code + 1, 300);
            }
            match self.status_counts.get(&code) {
                Some(c) => {
                    sum = sum + *c;
                },
                None => {},
            }
            code = code + 1;
        }
        sum
    }
}

} // verus!
