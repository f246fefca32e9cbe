//! Rate limiting: a pacer that hands out the instants at which new requests
//! may be submitted, at a fixed cadence from a monotonic anchor.
//!
//! Instants are nanoseconds on a monotonic clock whose origin the caller
//! chooses. The pacer never sleeps: it names the instant, the caller waits
//! for it. An instant that lies in the past means "go ahead now", so a caller
//! that fell behind catches up while the grid of instants stays where it is.

use vstd::prelude::*;

verus! {

/// The number of nanoseconds in a second.
pub const NANOS_PER_SECOND: u64 = 1_000_000_000;

/// The mathematical state of a pacer.
pub struct RateLimiterView {
    /// Distance between two allowed instants; `None` for a pacer that does
    /// not limit.
    pub period: Option<nat>,
    /// The next allowed instant.
    pub next: nat,
}

/// The largest instant the clock can show.
pub open spec fn last_instant() -> nat {
    u64::MAX as nat
}

/// `t`, or the largest instant where `t` lies beyond it.
pub open spec fn clamp_instant(t: nat) -> nat {
    if t <= last_instant() {
        t
    } else {
        last_instant()
    }
}

impl RateLimiterView {
    /// A pacer whose first allowed instant is `anchor`.
    pub open spec fn initial(anchor: nat, period: Option<nat>) -> RateLimiterView {
        RateLimiterView { period, next: anchor }
    }

    /// The instant that the next call of `wait` names, if the pacer limits.
    pub open spec fn slot(self) -> Option<nat> {
        match self.period {
            Some(_) => Some(self.next),
            None => None,
        }
    }

    /// The state after one call of `wait`.
    pub open spec fn advance(self) -> RateLimiterView {
        match self.period {
            Some(p) => RateLimiterView { next: clamp_instant(self.next + p), ..self },
            None => self,
        }
    }

    /// The state after `k` calls of `wait`.
    pub open spec fn advance_by(self, k: nat) -> RateLimiterView
        decreases k,
    {
        if k == 0 {
            self
        } else {
            self.advance_by((k - 1) as nat).advance()
        }
    }
}

/// A pacer. With a period it allows one submission per period; without one it
/// allows every submission at once.
#[derive(Debug)]
pub struct RateLimiter {
    period: Option<u64>,
    next: u64,
}

impl View for RateLimiter {
    type V = RateLimiterView;

    closed spec fn view(&self) -> RateLimiterView {
        RateLimiterView {
            period: match self.period {
                Some(p) => Some(p as nat),
                None => None,
            },
            next: self.next as nat,
        }
    }
}

impl RateLimiter {
    #[verifier::type_invariant]
    spec fn inv(self) -> bool {
        self.period matches Some(p) ==> p >= 1
    }

    /// A pacer that does not limit: `wait` never names an instant.
    pub fn unlimited() -> (r: RateLimiter)
        ensures
            r@ == RateLimiterView::initial(0, None),
    {
        RateLimiter { period: None, next: 0 }
    }

    /// A pacer with one allowed instant every `period` nanoseconds, the
    /// first of them at `anchor`.
    pub fn every(anchor: u64, period: u64) -> (r: RateLimiter)
        requires
            period >= 1,
        ensures
            r@ == RateLimiterView::initial(anchor as nat, Some(period as nat)),
    {
        RateLimiter { period: Some(period), next: anchor }
    }

    /// The distance between two allowed instants, if the pacer limits.
    pub fn period(&self) -> (p: Option<u64>)
        ensures
            match p {
                Some(n) => self@.period == Some(n as nat) && n >= 1,
                None => self@.period is None,
            },
    {
        proof {
            use_type_invariant(self);
        }
        self.period
    }

    /// The same pacer with its grid moved: the first allowed instant is
    /// `anchor`.
    pub fn anchored_at(self, anchor: u64) -> (r: RateLimiter)
        ensures
            r@ == RateLimiterView::initial(anchor as nat, self@.period),
    {
        proof {
            use_type_invariant(&self);
        }
        RateLimiter { period: self.period, next: anchor }
    }

    /// Claims the next allowed instant. The caller proceeds once the clock
    /// has reached it, at once if it already has. `None` means that nothing
    /// is limited and the caller proceeds at once.
    pub fn wait(&mut self) -> (slot: Option<u64>)
        ensures
            final(self)@ == old(self)@.advance(),
            match slot {
                Some(t) => old(self)@.slot() == Some(t as nat),
                None => old(self)@.slot() is None,
            },
    {
        proof {
            use_type_invariant(&*self);
        }
        match self.period {
            Some(p) => {
                let t = self.next;
                self.next = t.saturating_add(p);
                Some(t)
            },
            None => None,
        }
    }
}

/// The allowed instants lie on a grid fixed by the anchor: the call of
/// `wait` that follows `k` earlier ones names `anchor + k * period`, whatever
/// the clock showed when the earlier calls were made (instants beyond the
/// clock's range are named as its last instant).
pub proof fn lemma_cadence_is_anchored(anchor: nat, period: nat, k: nat)
    requires
        anchor <= last_instant(),
        period >= 1,
    ensures
        RateLimiterView::initial(anchor, Some(period)).advance_by(k).slot() == Some(
            clamp_instant(anchor + k * period),
        ),
        RateLimiterView::initial(anchor, Some(period)).advance_by(k).period == Some(period),
    decreases k,
{
    if k > 0 {
        lemma_cadence_is_anchored(anchor, period, (k - 1) as nat);
        assert(anchor + k * period == anchor + (k - 1) * period + period) by (nonlinear_arith);
    }
}

/// A pacer without a period never names an instant, however often it is asked.
pub proof fn lemma_unlimited_never_waits(k: nat)
    ensures
        RateLimiterView::initial(0, None).advance_by(k).slot() is None,
        RateLimiterView::initial(0, None).advance_by(k) == RateLimiterView::initial(0, None),
    decreases k,
{
    if k > 0 {
        lemma_unlimited_never_waits((k - 1) as nat);
    }
}

} // verus!
