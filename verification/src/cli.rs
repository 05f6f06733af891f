use std::time::Duration;
use vstd::prelude::*;

use crate::bench::scheduler::initial_wave;
use crate::error::AppError;
use crate::source::RequestSource;

verus! {

/// Output format for benchmark results.
#[derive(Clone, Copy, Debug, PartialEq, Eq)]
pub enum OutputFormat {
    /// Human-readable colored terminal output
    Terminal,
    /// Machine-readable JSON output
    Json,
}

impl Default for OutputFormat {
    fn default() -> (r: Self)
        ensures
            r == OutputFormat::Terminal,
    {
        OutputFormat::Terminal
    }
}

/// Command-line arguments for the benchmark tool.
pub struct CliArgs {
    /// The request to benchmark: a `.toml` configuration or a URL
    pub request_source: RequestSource,
    /// Total number of requests to send
    pub request_count: u64,
    /// Number of concurrent requests (auto-capped at request count)
    pub concurrency: Option<u64>,
    /// Output format
    pub format: OutputFormat,
    /// Timeout per request
    pub timeout: Option<Duration>,
}

/// The concurrency asked for: the given one, or 1.
pub open spec fn requested_concurrency(concurrency: Option<u64>) -> u64 {
    match concurrency {
        Some(c) => c,
        None => 1,
    }
}

/// The concurrency a run uses: the one asked for, at least 1 so that the
/// requests get sent, and capped at the request count.
pub open spec fn effective_concurrency(request_count: u64, concurrency: Option<u64>) -> u64 {
    let asked = requested_concurrency(concurrency);
    let con = if asked == 0 {
        1
    } else {
        asked
    };
    if con > request_count {
        request_count
    } else {
        con
    }
}

/// The effective concurrency, in terms of the request count `n` and the
/// asked concurrency: an asked value within `1..=n` is used as it is, a value
/// above `n` is capped at `n`, and no value (default 1) or 0 gives 1, capped
/// at `n`.
pub proof fn lemma_effective_concurrency(n: u64, concurrency: Option<u64>)
    ensures
        concurrency matches Some(c) ==> (1 <= c <= n ==> effective_concurrency(n, concurrency) == c),
        concurrency matches Some(c) ==> (c > n ==> effective_concurrency(n, concurrency) == n),
        (concurrency is None || concurrency == Some(0u64)) ==> effective_concurrency(
            n,
            concurrency,
        ) == if n >= 1 {
            1u64
        } else {
            0u64
        },
{
}

/// A run planned from any arguments with at least one request sends every
/// request: its first wave is not empty (so the scheduler's `finish` reports
/// every request as answered or failed) and never exceeds the request count.
pub proof fn lemma_planned_run_sends_every_request(request_count: u64, concurrency: Option<u64>)
    requires
        request_count >= 1,
    ensures
        initial_wave(request_count, effective_concurrency(request_count, concurrency)) >= 1,
        initial_wave(request_count, effective_concurrency(request_count, concurrency))
            == effective_concurrency(request_count, concurrency),
{
}

/// The message of the error for a URL given as request source.
pub open spec fn url_mode_message() -> Seq<char> {
    "URL mode not yet implemented, use a .toml config file instead"@
}

/// What a benchmark run from a configuration file is to do.
pub struct BenchmarkPlan {
    /// Path of the request configuration
    pub config_path: String,
    /// Total number of requests to send
    pub request_count: u64,
    /// Number of requests in flight at once
    pub concurrency: u64,
    /// Output format
    pub format: OutputFormat,
    /// Timeout per request
    pub timeout: Option<Duration>,
    /// When the asked concurrency exceeds the request count: (asked, capped to)
    pub concurrency_warning: Option<(u64, u64)>,
    /// Whether the run announces its request count and concurrency (more
    /// than one request at a time) rather than a single request
    pub announce_concurrency: bool,
}

impl CliArgs {
    /// Get the effective concurrency: the one asked for (1 by default, and
    /// at least 1), capped at the request count.
    pub fn concurrency(&self) -> (r: u64)
        ensures
            r == effective_concurrency(self.request_count, self.concurrency),
            r <= self.request_count,
            self.request_count >= 1 ==> 1 <= r,
            self.concurrency matches Some(c) ==> (1 <= c <= self.request_count ==> r == c),
            self.concurrency matches Some(c) ==> (c > self.request_count ==> r
                == self.request_count),
    {
        let asked = match self.concurrency {
            Some(c) => c,
            None => 1,
        };
        let con = if asked == 0 {
            1
        } else {
            asked
        };
        if con > self.request_count {
            return self.request_count;
        }
        con
    }

    /// When the concurrency asked for exceeds the request count, the asked
    /// concurrency and the count it is capped at.
    pub fn concurrency_warning(&self) -> (r: Option<(u64, u64)>)
        ensures
            r == (if requested_concurrency(self.concurrency) > self.request_count {
                Some((requested_concurrency(self.concurrency), self.request_count))
            } else {
                None::<(u64, u64)>
            }),
    {
        let con = match self.concurrency {
            Some(c) => c,
            None => 1,
        };
        if con > self.request_count {
            Some((con, self.request_count))
        } else {
            None
        }
    }

    /// Decide what a run with these arguments does: a URL source is refused,
    /// a configuration file gives the plan of the benchmark.
    pub fn plan(&self) -> (r: Result<BenchmarkPlan, AppError>)
        ensures
            match self.request_source {
                RequestSource::Url(_) => r matches Err(AppError::InvalidSource(m)) && m@
                    == url_mode_message(),
                RequestSource::ConfigFile(path) => r matches Ok(p) && {
                    &&& p.config_path@ == path@
                    &&& p.request_count == self.request_count
                    &&& p.concurrency == effective_concurrency(
                        self.request_count,
                        self.concurrency,
                    )
                    &&& p.concurrency <= p.request_count
                    &&& p.request_count >= 1 ==> 1 <= p.concurrency
                    &&& (self.concurrency matches Some(c) ==> (1 <= c <= self.request_count
                        ==> p.concurrency == c))
                    &&& p.format == self.format
                    &&& p.timeout == self.timeout
                    &&& p.concurrency_warning == (if requested_concurrency(self.concurrency)
                        > self.request_count {
                        Some((requested_concurrency(self.concurrency), self.request_count))
                    } else {
                        None::<(u64, u64)>
                    })
                    &&& p.announce_concurrency == (p.concurrency > 1)
                },
            },
    {
        match &self.request_source {
            RequestSource::Url(_) => {
                let m = "URL mode not yet implemented, use a .toml config file instead";
                Err(AppError::InvalidSource(m.to_owned()))
            },
            RequestSource::ConfigFile(path) => {
                let concurrency = self.concurrency();
                Ok(
                    BenchmarkPlan {
                        config_path: path.clone(),
                        request_count: self.request_count,
                        concurrency,
                        format: self.format,
                        timeout: self.timeout,
                        concurrency_warning: self.concurrency_warning(),
                        announce_concurrency: concurrency > 1,
                    },
                )
            },
        }
    }
}

} // verus!
