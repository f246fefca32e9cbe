//! Metrics accumulation: the classified outcome of a request, the
//! append-only record of a run, and the live counter behind the
//! requests-per-second series.
//!
//! Latencies are whole nanoseconds and sizes are whole bytes. The types here
//! hold no lock: where several tasks share one of them, the caller guards it,
//! the accumulator and the live counter each by a lock of its own.

use vstd::prelude::*;
use crate::pacing::{clamp_instant, RateLimiter, RateLimiterView, NANOS_PER_SECOND};

verus! {

/// Why a request failed.
#[derive(Clone, Copy, Debug, PartialEq, Eq, Structural)]
pub enum ErrorKind {
    /// The permit source was shut down before a permit was granted.
    Admission,
    /// The request did not produce a readable response: connection, timeout,
    /// TLS, name resolution or an unparseable reply.
    Network,
}

/// The classified result of one dispatched request. Either way it carries the
/// latency that was measured for it.
#[derive(Clone, Copy, Debug, PartialEq, Eq, Structural)]
pub enum Outcome {
    /// A response arrived.
    Success { status_code: u16, byte_length: u64, latency: u64 },
    /// No response arrived.
    Failure { error_kind: ErrorKind, latency: u64 },
}

/// Whether a status code lies outside `200..300`.
pub open spec fn is_non2xx(status_code: u16) -> bool {
    status_code < 200 || status_code >= 300
}

impl Outcome {
    /// The latency measured for the request.
    pub open spec fn latency_spec(self) -> u64 {
        match self {
            Outcome::Success { latency, .. } => latency,
            Outcome::Failure { latency, .. } => latency,
        }
    }

    /// The latency measured for the request.
    #[verifier::when_used_as_spec(latency_spec)]
    pub fn latency(self) -> (l: u64)
        ensures
            l == self.latency_spec(),
    {
        match self {
            Outcome::Success { latency, .. } => latency,
            Outcome::Failure { latency, .. } => latency,
        }
    }

    /// Whether a response arrived whose status lies outside `200..300`.
    pub open spec fn counts_as_non2xx(self) -> bool {
        self matches Outcome::Success { status_code, .. } && is_non2xx(status_code)
    }
}

/// The mathematical content of an accumulator.
pub struct MetricsView {
    /// One latency per recorded outcome, in order of arrival.
    pub latencies: Seq<u64>,
    /// One size per recorded response, in order of arrival.
    pub byte_lengths: Seq<u64>,
    /// One count per elapsed second, in order of the ticks.
    pub per_second: Seq<u64>,
    /// Number of recorded responses.
    pub requests: nat,
    /// Number of recorded failures.
    pub errors: nat,
    /// Number of recorded responses with a status outside `200..300`.
    pub non2xx: nat,
}

impl MetricsView {
    /// The content of an accumulator at the start of a run.
    pub open spec fn empty() -> MetricsView {
        MetricsView {
            latencies: Seq::empty(),
            byte_lengths: Seq::empty(),
            per_second: Seq::empty(),
            requests: 0,
            errors: 0,
            non2xx: 0,
        }
    }

    /// The counters agree with the sequences.
    pub open spec fn wf(self) -> bool {
        &&& self.requests + self.errors == self.latencies.len()
        &&& self.byte_lengths.len() == self.requests
        &&& self.non2xx <= self.requests
    }

    /// The content after one outcome was recorded.
    pub open spec fn record(self, outcome: Outcome) -> MetricsView {
        match outcome {
            Outcome::Success { status_code, byte_length, latency } => MetricsView {
                latencies: self.latencies.push(latency),
                byte_lengths: self.byte_lengths.push(byte_length),
                requests: self.requests + 1,
                non2xx: if is_non2xx(status_code) {
                    self.non2xx + 1
                } else {
                    self.non2xx
                },
                ..self
            },
            Outcome::Failure { error_kind, latency } => MetricsView {
                latencies: self.latencies.push(latency),
                errors: self.errors + 1,
                ..self
            },
        }
    }

    /// The content after the count of one elapsed second was appended.
    pub open spec fn push_second(self, count: u64) -> MetricsView {
        MetricsView { per_second: self.per_second.push(count), ..self }
    }

    /// Whether `later` holds everything that `self` holds, in the same
    /// places, and possibly more behind it.
    pub open spec fn extended_by(self, later: MetricsView) -> bool {
        &&& self.latencies.is_prefix_of(later.latencies)
        &&& self.byte_lengths.is_prefix_of(later.byte_lengths)
        &&& self.per_second.is_prefix_of(later.per_second)
        &&& self.requests <= later.requests
        &&& self.errors <= later.errors
        &&& self.non2xx <= later.non2xx
    }
}

/// The record of a run: latency samples, response sizes, the per-second
/// series and the scalar counters. Nothing is ever removed from it.
#[derive(Debug)]
pub struct MetricsAccumulator {
    latencies: Vec<u64>,
    byte_lengths: Vec<u64>,
    per_second: Vec<u64>,
    requests: u64,
    errors: u64,
    non2xx: u64,
}

impl View for MetricsAccumulator {
    type V = MetricsView;

    closed spec fn view(&self) -> MetricsView {
        MetricsView {
            latencies: self.latencies@,
            byte_lengths: self.byte_lengths@,
            per_second: self.per_second@,
            requests: self.requests as nat,
            errors: self.errors as nat,
            non2xx: self.non2xx as nat,
        }
    }
}

impl MetricsAccumulator {
    #[verifier::type_invariant]
    spec fn inv(self) -> bool {
        self@.wf()
    }

    /// An accumulator that holds nothing yet.
    pub fn new() -> (r: MetricsAccumulator)
        ensures
            r@ == MetricsView::empty(),
    {
        MetricsAccumulator {
            latencies: Vec::new(),
            byte_lengths: Vec::new(),
            per_second: Vec::new(),
            requests: 0,
            errors: 0,
            non2xx: 0,
        }
    }

    /// Moves the content out and leaves an empty accumulator behind, so that
    /// the sequences can be extended while no accumulator is in a state
    /// between two consistent ones.
    fn take(&mut self) -> (r: MetricsAccumulator)
        ensures
            r@ == old(self)@,
            final(self)@ == MetricsView::empty(),
    {
        let mut content = MetricsAccumulator::new();
        core::mem::swap(self, &mut content);
        content
    }

    /// Records the outcome of one request. The latency is always appended. A
    /// response also appends its size and counts as a request, and as a
    /// non-2xx where its status lies outside `200..300`; a failure counts as
    /// an error.
    pub fn record(&mut self, outcome: Outcome)
        ensures
            final(self)@ == old(self)@.record(outcome),
            final(self)@.wf(),
    {
        let content = self.take();
        proof {
            use_type_invariant(&content);
        }
        let MetricsAccumulator {
            mut latencies,
            mut byte_lengths,
            per_second,
            mut requests,
            mut errors,
            mut non2xx,
        } = content;
        match outcome {
            Outcome::Success { status_code, byte_length, latency } => {
                latencies.push(latency);
                byte_lengths.push(byte_length);
                assert(latencies@.len() == latencies.len() <= usize::MAX);
                requests = requests + 1;
                if status_code < 200 || status_code >= 300 {
                    non2xx = non2xx + 1;
                }
            },
            Outcome::Failure { error_kind, latency } => {
                latencies.push(latency);
                assert(latencies@.len() == latencies.len() <= usize::MAX);
                errors = errors + 1;
            },
        }
        *self = MetricsAccumulator { latencies, byte_lengths, per_second, requests, errors, non2xx };
    }

    /// Appends the count of one elapsed second to the per-second series.
    pub fn push_second(&mut self, count: u64)
        ensures
            final(self)@ == old(self)@.push_second(count),
            final(self)@.wf(),
    {
        let content = self.take();
        proof {
            use_type_invariant(&content);
        }
        let MetricsAccumulator {
            latencies,
            byte_lengths,
            mut per_second,
            requests,
            errors,
            non2xx,
        } = content;
        per_second.push(count);
        *self = MetricsAccumulator { latencies, byte_lengths, per_second, requests, errors, non2xx };
    }

    /// Ends the accumulator's life and hands out its three sequences: the
    /// latency samples, the per-second series and the response sizes.
    pub fn into_samples(self) -> (r: (Vec<u64>, Vec<u64>, Vec<u64>))
        ensures
            r.0@ == self@.latencies,
            r.1@ == self@.per_second,
            r.2@ == self@.byte_lengths,
    {
        let MetricsAccumulator { latencies, byte_lengths, per_second, .. } = self;
        (latencies, per_second, byte_lengths)
    }

    /// The latency samples, in order of arrival.
    pub fn latencies(&self) -> (r: &Vec<u64>)
        ensures
            r@ == self@.latencies,
    {
        &self.latencies
    }

    /// The response sizes, in order of arrival.
    pub fn byte_lengths(&self) -> (r: &Vec<u64>)
        ensures
            r@ == self@.byte_lengths,
    {
        &self.byte_lengths
    }

    /// The per-second series, in order of the ticks.
    pub fn per_second(&self) -> (r: &Vec<u64>)
        ensures
            r@ == self@.per_second,
    {
        &self.per_second
    }

    /// Number of recorded responses; it is the number of recorded sizes.
    pub fn requests(&self) -> (n: u64)
        ensures
            n == self@.requests,
            n == self@.byte_lengths.len(),
    {
        proof {
            use_type_invariant(self);
        }
        self.requests
    }

    /// Number of recorded failures; with the responses they make up the
    /// latency samples.
    pub fn errors(&self) -> (n: u64)
        ensures
            n == self@.errors,
            self@.requests + n == self@.latencies.len(),
    {
        proof {
            use_type_invariant(self);
        }
        self.errors
    }

    /// Number of recorded responses with a status outside `200..300`.
    pub fn non2xx(&self) -> (n: u64)
        ensures
            n == self@.non2xx,
            n <= self@.requests,
    {
        proof {
            use_type_invariant(self);
        }
        self.non2xx
    }
}

/// The mathematical state of a live counter: the requests started since the
/// last tick.
pub struct LiveCounterView {
    pub count: nat,
}

impl LiveCounterView {
    /// The state after one more request was started. The count stops at the
    /// largest value the counter can hold.
    pub open spec fn increment(self) -> LiveCounterView {
        LiveCounterView {
            count: if self.count < u64::MAX {
                self.count + 1
            } else {
                self.count
            },
        }
    }
}

/// Counts the requests started within the current second.
#[derive(Debug)]
pub struct LiveCounter {
    count: u64,
}

impl View for LiveCounter {
    type V = LiveCounterView;

    closed spec fn view(&self) -> LiveCounterView {
        LiveCounterView { count: self.count as nat }
    }
}

impl LiveCounter {
    /// A counter at zero.
    pub fn new() -> (r: LiveCounter)
        ensures
            r@.count == 0,
    {
        LiveCounter { count: 0 }
    }

    /// Counts one started request.
    pub fn increment(&mut self)
        ensures
            final(self)@ == old(self)@.increment(),
    {
        self.count = self.count.saturating_add(1);
    }

    /// Hands out the requests counted since the last tick and starts again
    /// at zero.
    pub fn take(&mut self) -> (n: u64)
        ensures
            n == old(self)@.count,
            final(self)@.count == 0,
    {
        let n = self.count;
        self.count = 0;
        n
    }

    /// The requests counted since the last tick.
    pub fn count(&self) -> (n: u64)
        ensures
            n == self@.count,
    {
        self.count
    }
}

/// The cadence of the per-second sampler of a run that started at the
/// instant `started`: the first tick comes one second after the start, not at
/// the start, and one tick follows every second after that.
pub fn sampler_cadence(started: u64) -> (r: RateLimiter)
    ensures
        r@ == RateLimiterView::initial(
            clamp_instant(started as nat + NANOS_PER_SECOND as nat),
            Some(NANOS_PER_SECOND as nat),
        ),
{
    RateLimiter::every(started.saturating_add(NANOS_PER_SECOND), NANOS_PER_SECOND)
}

/// One tick of the per-second sampler: the count of the second that just
/// ended goes to the end of the per-second series and the live counter starts
/// again at zero, both in one step. The count is returned for the progress
/// notification.
pub fn sample_tick(counter: &mut LiveCounter, metrics: &mut MetricsAccumulator) -> (count: u64)
    ensures
        count == old(counter)@.count,
        final(counter)@.count == 0,
        final(metrics)@ == old(metrics)@.push_second(count),
        final(metrics)@.wf(),
{
    let count = counter.take();
    metrics.push_second(count);
    count
}

/// An accumulator is append-only: recording an outcome leaves every sample
/// that was there in its place and lowers no counter.
pub proof fn lemma_record_appends(v: MetricsView, outcome: Outcome)
    ensures
        v.extended_by(v.record(outcome)),
        v.record(outcome).latencies.len() == v.latencies.len() + 1,
        v.record(outcome).latencies.last() == outcome.latency_spec(),
        v.record(outcome).per_second == v.per_second,
{
}

/// A sampler tick is append-only too, and touches nothing but the
/// per-second series.
pub proof fn lemma_push_second_appends(v: MetricsView, count: u64)
    ensures
        v.extended_by(v.push_second(count)),
        v.push_second(count).per_second.len() == v.per_second.len() + 1,
        v.push_second(count).per_second.last() == count,
        v.push_second(count).latencies == v.latencies,
        v.push_second(count).byte_lengths == v.byte_lengths,
{
}

/// Recording keeps the counters in step with the sequences.
pub proof fn lemma_record_preserves_wf(v: MetricsView, outcome: Outcome)
    requires
        v.wf(),
    ensures
        v.record(outcome).wf(),
{
}

/// A response with a status outside `200..300` raises the non-2xx count and
/// leaves the error count alone; a failure raises the error count and leaves
/// the non-2xx and request counts alone. Either appends exactly one latency
/// sample.
pub proof fn lemma_outcome_accounting(v: MetricsView, outcome: Outcome)
    ensures
        v.record(outcome).latencies == v.latencies.push(outcome.latency_spec()),
        outcome is Success ==> v.record(outcome).errors == v.errors && v.record(outcome).requests
            == v.requests + 1,
        outcome.counts_as_non2xx() ==> v.record(outcome).non2xx == v.non2xx + 1,
        outcome is Success && !outcome.counts_as_non2xx() ==> v.record(outcome).non2xx
            == v.non2xx,
        outcome is Failure ==> v.record(outcome).errors == v.errors + 1 && v.record(
            outcome,
        ).non2xx == v.non2xx && v.record(outcome).requests == v.requests && v.record(
            outcome,
        ).byte_lengths == v.byte_lengths,
{
}

} // verus!
