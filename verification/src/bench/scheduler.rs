use std::collections::HashMap;
use vstd::prelude::*;

use crate::bench::outcome::{
    count_in_range, lemma_count_in_range_monotone, lemma_count_in_range_split, successes,
    BenchmarkOutcome,
};

verus! {

broadcast use vstd::std_specs::hash::group_hash_axioms;

/// What became of one request that a worker sent.
pub enum RequestResult {
    /// A response arrived with this status code after this many nanoseconds.
    Responded { status: u16, latency_ns: u128 },
    /// No response could be obtained.
    Failed,
}

/// The latencies of the responded requests of `h`, in completion order.
pub open spec fn responded_latencies(h: Seq<RequestResult>) -> Seq<u128>
    decreases h.len(),
{
    if h.len() == 0 {
        Seq::empty()
    } else {
        let prev = responded_latencies(h.drop_last());
        match h.last() {
            RequestResult::Responded { latency_ns, .. } => prev.push(latency_ns),
            RequestResult::Failed => prev,
        }
    }
}

/// How many requests of `h` were answered with status `code`.
pub open spec fn status_tally(h: Seq<RequestResult>, code: u16) -> nat
    decreases h.len(),
{
    if h.len() == 0 {
        0
    } else {
        let prev = status_tally(h.drop_last(), code);
        match h.last() {
            RequestResult::Responded { status, .. } => if status == code {
                prev + 1
            } else {
                prev
            },
            RequestResult::Failed => prev,
        }
    }
}

/// How many requests of `h` got no response.
pub open spec fn failure_count(h: Seq<RequestResult>) -> nat
    decreases h.len(),
{
    if h.len() == 0 {
        0
    } else {
        let prev = failure_count(h.drop_last());
        match h.last() {
            RequestResult::Responded { .. } => prev,
            RequestResult::Failed => prev + 1,
        }
    }
}

/// The number of requests sent at once when a run starts: the concurrency,
/// but never more than the requests to send.
pub open spec fn initial_wave(total: u64, concurrency: u64) -> u64 {
    if concurrency < total {
        concurrency
    } else {
        total
    }
}

/// The number of requests a full pipeline keeps in flight once `completed`
/// results are in: the concurrency, or the requests not yet answered if fewer.
pub open spec fn pipeline_target(total: u64, concurrency: u64, completed: int) -> int {
    if concurrency < total - completed {
        concurrency as int
    } else {
        total - completed
    }
}

/// One more result adds one to the tally of its own status code only.
pub proof fn lemma_tally_push(h: Seq<RequestResult>, r: RequestResult, code: u16)
    ensures
        status_tally(h.push(r), code) == status_tally(h, code) + match r {
            RequestResult::Responded { status, .. } => if status == code {
                1int
            } else {
                0int
            },
            RequestResult::Failed => 0int,
        },
{
    assert(h.push(r).drop_last() =~= h);
}

/// The status counts that a sequence of results gives: each status code that
/// answered at least one request, with the number of requests it answered.
pub open spec fn tallies_match(counts: Map<u16, u64>, h: Seq<RequestResult>) -> bool {
    forall|code: u16|
        #![trigger counts.contains_key(code)]
        #![trigger status_tally(h, code)]
        (counts.contains_key(code) <==> status_tally(h, code) > 0) && (counts.contains_key(code)
            ==> counts[code] == status_tally(h, code))
}

/// The decisions of a benchmark run: how many requests to send at once,
/// when to send the next one, and what the finished requests add up to.
pub struct Scheduler {
    total: u64,
    concurrency: u64,
    launched: u64,
    completed: u64,
    latencies_ns: Vec<u128>,
    status_counts: HashMap<u16, u64>,
    errors: u64,
    history: Ghost<Seq<RequestResult>>,
}

impl Scheduler {
    /// The number of requests the run sends in all.
    pub closed spec fn spec_total(&self) -> u64 {
        self.total
    }

    /// The concurrency the run was started with.
    pub closed spec fn spec_concurrency(&self) -> u64 {
        self.concurrency
    }

    /// The number of requests sent so far.
    pub closed spec fn spec_launched(&self) -> u64 {
        self.launched
    }

    /// The results recorded so far, in completion order.
    pub closed spec fn spec_history(&self) -> Seq<RequestResult> {
        self.history@
    }

    /// The number of requests sent whose result has not been recorded yet.
    pub open spec fn spec_in_flight(&self) -> int {
        self.spec_launched() - self.spec_history().len()
    }

    /// The scheduler's invariant, which every scheduler keeps.
    #[verifier::type_invariant]
    pub closed spec fn wf(&self) -> bool {
        let h = self.history@;
        let wave = initial_wave(self.total, self.concurrency);
        &&& self.completed == h.len()
        &&& h.len() <= self.launched <= self.total
        &&& self.launched - self.completed <= wave
        &&& self.launched < self.total ==> self.launched - self.completed == wave
        &&& self.latencies_ns@ == responded_latencies(h)
        &&& tallies_match(self.status_counts@, h)
        &&& self.errors == failure_count(h)
    }

    /// Start a run of `total` requests with `concurrency` requests at a time.
    /// Returns the scheduler and the number of requests to send right away.
    pub fn start(total: u64, concurrency: u64) -> (r: (Scheduler, u64))
        ensures
            r.0.wf(),
            r.0.spec_total() == total,
            r.0.spec_concurrency() == concurrency,
            r.0.spec_history() == Seq::<RequestResult>::empty(),
            r.1 == initial_wave(total, concurrency),
            r.0.spec_launched() == r.1,
    {
        let wave = if concurrency < total {
            concurrency
        } else {
            total
        };
        let s = Scheduler {
            total,
            concurrency,
            launched: wave,
            completed: 0,
            latencies_ns: Vec::new(),
            status_counts: HashMap::new(),
            errors: 0,
            history: Ghost(Seq::empty()),
        };
        assert(s.latencies_ns@ =~= responded_latencies(Seq::empty()));
        (s, wave)
    }

    /// The number of requests sent whose result has not been recorded yet.
    /// It never exceeds the concurrency or the request count, and until every
    /// request has been sent the first wave stays in flight in full.
    pub fn in_flight(&self) -> (r: u64)
        ensures
            r == self.spec_in_flight(),
            r <= self.spec_concurrency(),
            r <= self.spec_total(),
            self.spec_launched() <= self.spec_total(),
            self.spec_launched() < self.spec_total() ==> r == initial_wave(
                self.spec_total(),
                self.spec_concurrency(),
            ),
            r == pipeline_target(
                self.spec_total(),
                self.spec_concurrency(),
                self.spec_history().len() as int,
            ),
    {
        proof {
            use_type_invariant(self);
        }
        self.launched - self.completed
    }

    /// Record the result of one finished request. Returns whether one more
    /// request is to be sent in its place.
    pub fn record(&mut self, result: RequestResult) -> (launch: bool)
        requires
            old(self).spec_in_flight() > 0,
        ensures
            final(self).spec_total() == old(self).spec_total(),
            final(self).spec_concurrency() == old(self).spec_concurrency(),
            final(self).spec_history() == old(self).spec_history().push(result),
            launch == (old(self).spec_launched() < old(self).spec_total()),
            final(self).spec_launched() == old(self).spec_launched() + if launch {
                1int
            } else {
                0int
            },
            final(self).spec_in_flight() == pipeline_target(
                final(self).spec_total(),
                final(self).spec_concurrency(),
                final(self).spec_history().len() as int,
            ),
    {
        proof {
            use_type_invariant(&*self);
        }
        let mut cur_state = Scheduler::idle();
        std::mem::swap(self, &mut cur_state);
        let total = cur_state.total;
        let concurrency = cur_state.concurrency;
        let launched = cur_state.launched;
        let completed = cur_state.completed;
        let mut errors = cur_state.errors;
        let ghost h0 = cur_state.history@;
        let mut latencies_ns = cur_state.latencies_ns;
        let mut status_counts = cur_state.status_counts;
        let ghost h1 = h0.push(result);
        proof {
            assert(h1.drop_last() =~= h0);
            lemma_tally_bounded(h0);
        }
        match result {
            RequestResult::Responded { status, latency_ns } => {
                let cur: u64 = match status_counts.get(&status) {
                    Some(c) => *c,
                    None => 0,
                };
                proof {
                    assert(status_tally(h0, status) <= h0.len());
                }
                status_counts.insert(status, cur + 1);
                latencies_ns.push(latency_ns);
            },
            RequestResult::Failed => {
                errors = errors + 1;
            },
        }
        proof {
            assert forall|code: u16|
                #![trigger status_counts@.contains_key(code)]
                #![trigger status_tally(h1, code)]
                (status_counts@.contains_key(code) <==> status_tally(h1, code) > 0) && (
                status_counts@.contains_key(code) ==> status_counts@[code] == status_tally(
                    h1,
                    code,
                )) by {
                lemma_tally_push(h0, result, code);
            }
        }
        let launch = launched < total;
        let new_launched = if launch {
            launched + 1
        } else {
            launched
        };
        *self = Scheduler {
            total,
            concurrency,
            launched: new_launched,
            completed: completed + 1,
            latencies_ns,
            status_counts,
            errors,
            history: Ghost(h1),
        };
        launch
    }

    /// A scheduler with nothing to send.
    fn idle() -> (r: Scheduler) {
        let s = Scheduler {
            total: 0,
            concurrency: 0,
            launched: 0,
            completed: 0,
            latencies_ns: Vec::new(),
            status_counts: HashMap::new(),
            errors: 0,
            history: Ghost(Seq::empty()),
        };
        assert(s.latencies_ns@ =~= responded_latencies(Seq::empty()));
        s
    }

    /// End the run once no request is in flight, with the run's wall-clock time.
    pub fn finish(self, total_time_ns: u128) -> (outcome: BenchmarkOutcome)
        requires
            self.spec_in_flight() == 0,
        ensures
            outcome.latencies_ns@ == responded_latencies(self.spec_history()),
            tallies_match(outcome.status_counts@, self.spec_history()),
            outcome.errors == failure_count(self.spec_history()),
            outcome.total == self.spec_total(),
            outcome.total_time_ns == total_time_ns,
            initial_wave(self.spec_total(), self.spec_concurrency()) > 0
                ==> self.spec_history().len() == self.spec_total(),
            self.spec_concurrency() >= 1 || self.spec_total() == 0 ==> {
                &&& self.spec_history().len() == self.spec_total()
                &&& outcome.latencies_ns@.len() + outcome.errors == outcome.total
            },
            outcome.latencies_ns@.len() + outcome.errors == self.spec_history().len(),
            self.spec_history().len() <= outcome.total,
            count_in_range(outcome.status_counts@, 0, 65536) == outcome.latencies_ns@.len(),
            successes(outcome.status_counts@) <= outcome.latencies_ns@.len(),
    {
        proof {
            use_type_invariant(&self);
            lemma_results_partition(self.history@);
            lemma_status_counts_cover_responses(self.status_counts@, self.history@);
            lemma_successes_within_responses(self.status_counts@, self.history@);
        }
        BenchmarkOutcome {
            latencies_ns: self.latencies_ns,
            total_time_ns,
            status_counts: self.status_counts,
            errors: self.errors,
            total: self.total,
        }
    }
}

/// The number of requests of `h` answered with a status code in `lo..hi`.
pub open spec fn tally_in_range(h: Seq<RequestResult>, lo: int, hi: int) -> int
    decreases hi - lo,
{
    if hi <= lo {
        0
    } else {
        tally_in_range(h, lo, hi - 1) + status_tally(h, (hi - 1) as u16)
    }
}

/// Whether `r` is a response whose status code lies in `lo..hi`.
pub open spec fn responded_in_range(r: RequestResult, lo: int, hi: int) -> int {
    match r {
        RequestResult::Responded { status, .. } => if lo <= status < hi {
            1int
        } else {
            0int
        },
        RequestResult::Failed => 0int,
    }
}

proof fn lemma_tally_in_range_step(h: Seq<RequestResult>, lo: int, hi: int)
    requires
        h.len() > 0,
        0 <= lo,
        hi <= 65536,
    ensures
        tally_in_range(h, lo, hi) == tally_in_range(h.drop_last(), lo, hi) + responded_in_range(
            h.last(),
            lo,
            hi,
        ),
    decreases hi - lo,
{
    if lo < hi {
        lemma_tally_in_range_step(h, lo, hi - 1);
    }
}

proof fn lemma_tally_in_range_all(h: Seq<RequestResult>)
    ensures
        tally_in_range(h, 0, 65536) == responded_latencies(h).len(),
    decreases h.len(),
{
    if h.len() == 0 {
        lemma_tally_in_range_empty(h, 0, 65536);
    } else {
        lemma_tally_in_range_all(h.drop_last());
        lemma_tally_in_range_step(h, 0, 65536);
    }
}

proof fn lemma_tally_in_range_empty(h: Seq<RequestResult>, lo: int, hi: int)
    requires
        h.len() == 0,
    ensures
        tally_in_range(h, lo, hi) == 0,
    decreases hi - lo,
{
    if lo < hi {
        lemma_tally_in_range_empty(h, lo, hi - 1);
    }
}

proof fn lemma_counts_equal_tallies(counts: Map<u16, u64>, h: Seq<RequestResult>, lo: int, hi: int)
    requires
        tallies_match(counts, h),
        0 <= lo,
        hi <= 65536,
    ensures
        count_in_range(counts, lo, hi) == tally_in_range(h, lo, hi),
    decreases hi - lo,
{
    if lo < hi {
        lemma_counts_equal_tallies(counts, h, lo, hi - 1);
        let code = (hi - 1) as u16;
        assert(counts.contains_key(code) <==> status_tally(h, code) > 0);
    }
}

/// Status codes partition the responses: summed over every status code, the
/// status counts of a run give exactly the number of responses it recorded.
pub proof fn lemma_status_counts_cover_responses(counts: Map<u16, u64>, h: Seq<RequestResult>)
    requires
        tallies_match(counts, h),
    ensures
        count_in_range(counts, 0, 65536) == responded_latencies(h).len(),
{
    lemma_counts_equal_tallies(counts, h, 0, 65536);
    lemma_tally_in_range_all(h);
}

/// The 2xx responses of a run are among its responses, so their count fits
/// in the run's request count.
pub proof fn lemma_successes_within_responses(counts: Map<u16, u64>, h: Seq<RequestResult>)
    requires
        tallies_match(counts, h),
    ensures
        0 <= successes(counts) <= responded_latencies(h).len(),
{
    lemma_status_counts_cover_responses(counts, h);
    lemma_count_in_range_split(counts, 0, 200, 65536);
    lemma_count_in_range_split(counts, 200, 300, 65536);
    lemma_count_in_range_monotone(counts, 0, 0, 200);
    lemma_count_in_range_monotone(counts, 300, 300, 65536);
    lemma_count_in_range_monotone(counts, 200, 200, 300);
}

/// While a run is under way, no more requests are in flight than its
/// concurrency allows, and no more are sent than it was asked to send; until
/// every request has been sent, the first wave stays in flight in full.
pub proof fn lemma_in_flight_within_concurrency(s: &Scheduler)
    requires
        s.wf(),
    ensures
        0 <= s.spec_in_flight() <= s.spec_concurrency(),
        s.spec_in_flight() <= s.spec_total(),
        s.spec_launched() <= s.spec_total(),
        s.spec_launched() < s.spec_total() ==> s.spec_in_flight() == initial_wave(
            s.spec_total(),
            s.spec_concurrency(),
        ),
        s.spec_in_flight() == pipeline_target(
            s.spec_total(),
            s.spec_concurrency(),
            s.spec_history().len() as int,
        ),
{
}

/// Every recorded result is counted exactly once: as a response latency or
/// as a failure.
pub proof fn lemma_results_partition(h: Seq<RequestResult>)
    ensures
        responded_latencies(h).len() + failure_count(h) == h.len(),
{
    lemma_tally_bounded(h);
}

/// No status code answers more requests than were recorded, and the
/// failures are among them too.
pub proof fn lemma_tally_bounded(h: Seq<RequestResult>)
    ensures
        forall|code: u16| #[trigger] status_tally(h, code) <= h.len(),
        failure_count(h) <= h.len(),
        responded_latencies(h).len() + failure_count(h) == h.len(),
    decreases h.len(),
{
    if h.len() > 0 {
        lemma_tally_bounded(h.drop_last());
        assert forall|code: u16| #[trigger] status_tally(h, code) <= h.len() by {
            assert(status_tally(h.drop_last(), code) <= h.drop_last().len());
        }
    }
}

} // verus!
