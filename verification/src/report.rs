//! The report of a finished run, and its assembly from the accumulated
//! metrics.
//!
//! A run that recorded at least one outcome has a report, whatever became of
//! its requests: failures are counted, they never stand in the way of the
//! report. The latencies are always summarised. The requests per second and
//! the response sizes are summarised where there are any: a run without a
//! full second, or without a response, has no such summary rather than one
//! made up of zeroes.

use vstd::prelude::*;
use std::time::SystemTime;
use crate::metrics::{MetricsAccumulator, MetricsView};
use crate::stats::{summarize, PerformanceStats, StatsError, StatsView};

verus! {

/// `std::time::SystemTime`, a reading of the wall clock. Nothing is claimed
/// of it; the report carries the two readings it is given.
#[verifier::external_type_specification]
#[verifier::external_body]
pub struct ExSystemTime(SystemTime);

/// The content of a summary that may be missing.
pub open spec fn content_of(stats: Option<PerformanceStats>) -> Option<StatsView> {
    match stats {
        Some(s) => Some(s@),
        None => None,
    }
}

/// The summary of a sequence that may be empty: none where it is empty.
pub open spec fn summary_if_any(s: Seq<u64>) -> Option<StatsView> {
    match summarize(s) {
        Ok(stats) => Some(stats),
        Err(_) => None,
    }
}

/// The mathematical content of a report.
pub struct ResultsView {
    pub title: Seq<char>,
    pub url: Seq<char>,
    pub requests_per_second: Option<StatsView>,
    pub requests: nat,
    pub latency: StatsView,
    pub throughput: Option<StatsView>,
    pub duration: nat,
    pub errors: nat,
    pub timeouts: nat,
    pub start: SystemTime,
    pub finish: SystemTime,
    pub connections: nat,
    pub non2xx: nat,
}

/// The report of one finished run.
#[derive(Debug)]
pub struct Results {
    /// Title of the run.
    title: String,
    /// The target of the requests.
    url: String,
    /// Summary of the requests started per second, if a second was sampled.
    requests_per_second: Option<PerformanceStats>,
    /// Number of responses received.
    requests: u64,
    /// Summary of the latencies.
    latency: PerformanceStats,
    /// Summary of the response sizes, if a response arrived.
    throughput: Option<PerformanceStats>,
    /// Configured length of the run, in seconds.
    duration: u32,
    /// Number of requests that failed.
    errors: u64,
    /// Number of requests that timed out.
    timeouts: u32,
    /// When the run started.
    start: SystemTime,
    /// When the run ended.
    finish: SystemTime,
    /// Configured concurrency.
    connections: u32,
    /// Number of responses with a status outside `200..300`.
    non2xx: u64,
}

impl View for Results {
    type V = ResultsView;

    closed spec fn view(&self) -> ResultsView {
        ResultsView {
            title: self.title@,
            url: self.url@,
            requests_per_second: content_of(self.requests_per_second),
            requests: self.requests as nat,
            latency: self.latency@,
            throughput: content_of(self.throughput),
            duration: self.duration as nat,
            errors: self.errors as nat,
            timeouts: self.timeouts as nat,
            start: self.start,
            finish: self.finish,
            connections: self.connections as nat,
            non2xx: self.non2xx as nat,
        }
    }
}

/// The report that the content `m` of an accumulator leads to. There is one
/// as soon as a latency was recorded, that is, as soon as a request ended,
/// well or not.
pub open spec fn assembled(
    title: Seq<char>,
    url: Seq<char>,
    m: MetricsView,
    duration: u32,
    start: SystemTime,
    finish: SystemTime,
    connections: u32,
) -> Result<ResultsView, StatsError> {
    match summarize(m.latencies) {
        Err(e) => Err(e),
        Ok(latency) => Ok(
            ResultsView {
                title,
                url,
                requests_per_second: summary_if_any(m.per_second),
                requests: m.requests,
                latency,
                throughput: summary_if_any(m.byte_lengths),
                duration: duration as nat,
                errors: m.errors,
                timeouts: 0,
                start,
                finish,
                connections: connections as nat,
                non2xx: m.non2xx,
            },
        ),
    }
}

impl Results {
    /// A report that holds what it is given.
    pub fn new(
        title: String,
        url: String,
        requests_per_second: Option<PerformanceStats>,
        requests: u64,
        latency: PerformanceStats,
        throughput: Option<PerformanceStats>,
        duration: u32,
        errors: u64,
        timeouts: u32,
        start: SystemTime,
        finish: SystemTime,
        connections: u32,
        non2xx: u64,
    ) -> (r: Results)
        ensures
            r@ == (ResultsView {
                title: title@,
                url: url@,
                requests_per_second: content_of(requests_per_second),
                requests: requests as nat,
                latency: latency@,
                throughput: content_of(throughput),
                duration: duration as nat,
                errors: errors as nat,
                timeouts: timeouts as nat,
                start,
                finish,
                connections: connections as nat,
                non2xx: non2xx as nat,
            }),
    {
        Results {
            title,
            url,
            requests_per_second,
            requests,
            latency,
            throughput,
            duration,
            errors,
            timeouts,
            start,
            finish,
            connections,
            non2xx,
        }
    }

    /// Assembles the report of a run that has drained. The latencies are
    /// summarised, and so are the per-second series and the response sizes
    /// where they hold anything; the summaries are put together with the
    /// counters, the configuration and the two readings of the wall clock.
    /// There is a report exactly where a latency was recorded: a run whose
    /// requests all failed has one, a run that recorded no outcome has none.
    pub fn assemble(
        title: String,
        url: String,
        metrics: MetricsAccumulator,
        duration: u32,
        start: SystemTime,
        finish: SystemTime,
        connections: u32,
    ) -> (r: Result<Results, StatsError>)
        ensures
            r is Ok <==> metrics@.latencies.len() > 0,
            match r {
                Ok(report) => assembled(
                    title@,
                    url@,
                    metrics@,
                    duration,
                    start,
                    finish,
                    connections,
                ) == Ok::<ResultsView, StatsError>(report@),
                Err(e) => assembled(title@, url@, metrics@, duration, start, finish, connections)
                    == Err::<ResultsView, StatsError>(e) && e == StatsError::EmptyDataset,
            },
    {
        let requests = metrics.requests();
        let errors = metrics.errors();
        let non2xx = metrics.non2xx();
        let (latencies, per_second, byte_lengths) = metrics.into_samples();
        let latency = match PerformanceStats::from_data(latencies) {
            Ok(stats) => stats,
            Err(e) => {
                return Err(e);
            },
        };
        let requests_per_second = Results::summarize_if_any(per_second);
        let throughput = Results::summarize_if_any(byte_lengths);
        Ok(
            Results::new(
                title,
                url,
                requests_per_second,
                requests,
                latency,
                throughput,
                duration,
                errors,
                0,
                start,
                finish,
                connections,
                non2xx,
            ),
        )
    }

    /// The summary of samples, none where there is no sample.
    fn summarize_if_any(samples: Vec<u64>) -> (r: Option<PerformanceStats>)
        ensures
            content_of(r) == summary_if_any(samples@),
    {
        match PerformanceStats::from_data(samples) {
            Ok(stats) => Some(stats),
            Err(_) => None,
        }
    }
}

impl Results {
    /// Title of the run.
    pub fn title(&self) -> (r: &String)
        ensures
            r@ == self@.title,
    {
        &self.title
    }

    /// The target of the requests.
    pub fn url(&self) -> (r: &String)
        ensures
            r@ == self@.url,
    {
        &self.url
    }

    /// Summary of the requests started per second, if a second was sampled.
    pub fn requests_per_second(&self) -> (r: Option<PerformanceStats>)
        ensures
            content_of(r) == self@.requests_per_second,
    {
        self.requests_per_second
    }

    /// Number of responses received.
    pub fn requests(&self) -> (n: u64)
        ensures
            n == self@.requests,
    {
        self.requests
    }

    /// Summary of the latencies.
    pub fn latency(&self) -> (r: PerformanceStats)
        ensures
            r@ == self@.latency,
    {
        self.latency
    }

    /// Summary of the response sizes, if a response arrived.
    pub fn throughput(&self) -> (r: Option<PerformanceStats>)
        ensures
            content_of(r) == self@.throughput,
    {
        self.throughput
    }

    /// Configured length of the run, in seconds.
    pub fn duration(&self) -> (n: u32)
        ensures
            n == self@.duration,
    {
        self.duration
    }

    /// Number of requests that failed.
    pub fn errors(&self) -> (n: u64)
        ensures
            n == self@.errors,
    {
        self.errors
    }

    /// Number of requests that timed out.
    pub fn timeouts(&self) -> (n: u32)
        ensures
            n == self@.timeouts,
    {
        self.timeouts
    }

    /// When the run started.
    pub fn start(&self) -> (t: SystemTime)
        ensures
            t == self@.start,
    {
        self.start
    }

    /// When the run ended.
    pub fn finish(&self) -> (t: SystemTime)
        ensures
            t == self@.finish,
    {
        self.finish
    }

    /// Configured concurrency.
    pub fn connections(&self) -> (n: u32)
        ensures
            n == self@.connections,
    {
        self.connections
    }

    /// Number of responses with a status outside `200..300`.
    pub fn non2xx(&self) -> (n: u64)
        ensures
            n == self@.non2xx,
    {
        self.non2xx
    }
}

/// A run whose requests all failed has a report: its failures are counted,
/// no response is, its latencies are summarised, and it has no summary of
/// response sizes.
pub proof fn lemma_failures_are_reported(
    title: Seq<char>,
    url: Seq<char>,
    m: MetricsView,
    duration: u32,
    start: SystemTime,
    finish: SystemTime,
    connections: u32,
)
    requires
        m.wf(),
        m.errors >= 1,
        m.requests == 0,
    ensures
        assembled(title, url, m, duration, start, finish, connections) matches Ok(report)
            && report.errors == m.errors && report.requests == 0 && report.non2xx == 0
            && summarize(m.latencies) == Ok::<StatsView, StatsError>(report.latency)
            && report.throughput is None,
{
}

/// A report is owed exactly to the runs that recorded an outcome, and each
/// summary in it is that of its own sequence.
pub proof fn lemma_report_is_owed(
    title: Seq<char>,
    url: Seq<char>,
    m: MetricsView,
    duration: u32,
    start: SystemTime,
    finish: SystemTime,
    connections: u32,
)
    ensures
        assembled(title, url, m, duration, start, finish, connections) is Ok
            <==> m.latencies.len() > 0,
        assembled(title, url, m, duration, start, finish, connections) matches Ok(report) ==> (
        report.requests_per_second is Some <==> m.per_second.len() > 0) && (
        report.throughput is Some <==> m.byte_lengths.len() > 0),
{
}

} // verus!
