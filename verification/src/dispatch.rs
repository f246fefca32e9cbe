//! The dispatcher: the decisions of the main loop of a run.
//!
//! A run goes through four phases, `Idle`, `Running`, `Draining` and `Done`.
//! The dispatcher performs nothing itself. It names one [`Action`] at a time;
//! the caller performs it and reports the [`Event`] that answers it, and is
//! told the next action in return:
//!
//! | action           | answered by            |
//! |------------------|------------------------|
//! | `Start`          | `Started { now }`      |
//! | `StartSampler`   | `SamplerStarted`       |
//! | `ReadClock`      | `Clock { now }`        |
//! | `SleepUntil(t)`  | `Woke`                 |
//! | `Join`           | `Joined`               |
//! | `Spawn`          | `Spawned`              |
//! | `Finish`         | nothing: the run is over |
//!
//! While the clock reads less than the deadline, every round of the loop
//! waits for the pacer, joins one finished task first if as many tasks are
//! outstanding as the concurrency limit allows, and then spawns one task. The
//! bound on outstanding tasks is enforced here, at spawn time, whether or not
//! the tasks hold a permit yet. A round that has begun is carried through,
//! even if the join in it lasts beyond the deadline. Once the clock is read at
//! the deadline or later, nothing is spawned any more and the outstanding
//! tasks are joined one by one.
//!
//! A task that ended by an internal fault is joined like any other. It has
//! recorded no outcome, so it shows in neither the request nor the error
//! count.

use vstd::prelude::*;
use vstd::arithmetic::div_mod::{lemma_fundamental_div_mod, lemma_mod_bound};
use crate::pacing::{clamp_instant, RateLimiter, RateLimiterView, NANOS_PER_SECOND};

verus! {

/// The phase of a run.
#[derive(Clone, Copy, Debug, PartialEq, Eq, Structural)]
pub enum Phase {
    /// Nothing has started.
    Idle,
    /// Tasks are being spawned.
    Running,
    /// The deadline has passed; outstanding tasks are being joined.
    Draining,
    /// Every task has been joined.
    Done,
}

/// Where in its loop the dispatcher stands, that is, which answer it waits
/// for.
#[derive(Clone, Copy, Debug, PartialEq, Eq, Structural)]
pub enum Stage {
    /// Waiting for the run to be started.
    Idle,
    /// Waiting for the per-second sampler to be started.
    StartingSampler,
    /// Waiting for a reading of the clock.
    ReadingClock,
    /// Waiting for the pacer's instant to be reached.
    Pacing,
    /// Waiting for one task to be joined, to make room for the next.
    Joining,
    /// Waiting for one task to be spawned.
    Spawning,
    /// Waiting for one task to be joined, after the deadline.
    Draining,
    /// The run is over.
    Done,
}

/// What the caller is to do next.
#[derive(Clone, Copy, Debug, PartialEq, Eq, Structural)]
pub enum Action {
    /// Read the clock and report `Started`.
    Start,
    /// Start the per-second sampler, its first tick one second from now.
    StartSampler,
    /// Read the clock and report `Clock`.
    ReadClock,
    /// Suspend until the clock shows the given instant; return at once if it
    /// already does.
    SleepUntil(u64),
    /// Wait until one outstanding task has ended and join it.
    Join,
    /// Spawn one request task.
    Spawn,
    /// Stop the sampler and assemble the report.
    Finish,
}

/// What the caller reports back.
#[derive(Clone, Copy, Debug, PartialEq, Eq, Structural)]
pub enum Event {
    /// The run starts; the clock shows `now`.
    Started { now: u64 },
    /// The per-second sampler is running.
    SamplerStarted,
    /// The clock shows `now`.
    Clock { now: u64 },
    /// The instant named by `SleepUntil` has been reached.
    Woke,
    /// One task has been joined, whether it ended well or by a fault.
    Joined,
    /// One task has been spawned.
    Spawned,
}

/// The mathematical state of a dispatcher.
pub struct DispatcherView {
    /// Which answer is awaited.
    pub stage: Stage,
    /// The concurrency limit: the most tasks that may be outstanding.
    pub limit: nat,
    /// The length of the run in nanoseconds.
    pub duration: nat,
    /// The instant from which nothing is spawned any more.
    pub deadline: nat,
    /// The tasks that were spawned and not yet joined.
    pub outstanding: nat,
    /// The instant that a pending `SleepUntil` names.
    pub wake_at: nat,
    /// The pacer.
    pub pacer: RateLimiterView,
}

impl DispatcherView {
    /// The state before the run, for a limit, a length in seconds and the
    /// pacer's period.
    pub open spec fn initial(limit: nat, seconds: nat, period: Option<nat>) -> DispatcherView {
        DispatcherView {
            stage: Stage::Idle,
            limit,
            duration: seconds * (NANOS_PER_SECOND as nat),
            deadline: 0,
            outstanding: 0,
            wake_at: 0,
            pacer: RateLimiterView::initial(0, period),
        }
    }

    /// The phase that a stage belongs to.
    pub open spec fn phase(self) -> Phase {
        match self.stage {
            Stage::Idle => Phase::Idle,
            Stage::StartingSampler => Phase::Running,
            Stage::ReadingClock => Phase::Running,
            Stage::Pacing => Phase::Running,
            Stage::Joining => Phase::Running,
            Stage::Spawning => Phase::Running,
            Stage::Draining => Phase::Draining,
            Stage::Done => Phase::Done,
        }
    }

    /// The limit is at least one and bounds the outstanding tasks; there is
    /// room where a spawn is awaited, a task to join where a join is awaited,
    /// and none left at the end.
    pub open spec fn wf(self) -> bool {
        &&& self.limit >= 1
        &&& self.outstanding <= self.limit
        &&& self.stage == Stage::Idle ==> self.outstanding == 0
        &&& self.stage == Stage::Spawning ==> self.outstanding < self.limit
        &&& self.stage == Stage::Joining ==> self.outstanding >= 1
        &&& self.stage == Stage::Draining ==> self.outstanding >= 1
        &&& self.stage == Stage::Done ==> self.outstanding == 0
    }

    /// The action that is awaited an answer to.
    pub open spec fn pending(self) -> Action {
        match self.stage {
            Stage::Idle => Action::Start,
            Stage::StartingSampler => Action::StartSampler,
            Stage::ReadingClock => Action::ReadClock,
            Stage::Pacing => Action::SleepUntil(self.wake_at as u64),
            Stage::Joining => Action::Join,
            Stage::Spawning => Action::Spawn,
            Stage::Draining => Action::Join,
            Stage::Done => Action::Finish,
        }
    }

    /// Whether `event` answers the awaited action.
    pub open spec fn accepts(self, event: Event) -> bool {
        match (self.stage, event) {
            (Stage::Idle, Event::Started { .. }) => true,
            (Stage::StartingSampler, Event::SamplerStarted) => true,
            (Stage::ReadingClock, Event::Clock { .. }) => true,
            (Stage::Pacing, Event::Woke) => true,
            (Stage::Joining, Event::Joined) => true,
            (Stage::Spawning, Event::Spawned) => true,
            (Stage::Draining, Event::Joined) => true,
            _ => false,
        }
    }

    /// The run starts at `now`: the deadline is fixed, and the pacer is
    /// anchored at `now` with its first instant used up, so that the first
    /// request is paced like the others.
    pub open spec fn begin(self, now: u64) -> DispatcherView {
        DispatcherView {
            stage: Stage::StartingSampler,
            deadline: clamp_instant(now as nat + self.duration),
            pacer: RateLimiterView::initial(now as nat, self.pacer.period).advance(),
            ..self
        }
    }

    /// Back-pressure: with as many tasks outstanding as the limit allows, one
    /// is joined first; otherwise the next task is spawned.
    pub open spec fn make_room(self) -> DispatcherView {
        if self.outstanding >= self.limit {
            DispatcherView { stage: Stage::Joining, ..self }
        } else {
            DispatcherView { stage: Stage::Spawning, ..self }
        }
    }

    /// Pacing: a pacer that limits names the instant to wait for; one that
    /// does not lets the round go on to back-pressure at once.
    pub open spec fn pace(self) -> DispatcherView {
        match self.pacer.slot() {
            Some(t) => DispatcherView {
                stage: Stage::Pacing,
                wake_at: t,
                pacer: self.pacer.advance(),
                ..self
            },
            None => self.make_room(),
        }
    }

    /// Draining: as long as a task is outstanding it is joined; then the run
    /// is over.
    pub open spec fn drain(self) -> DispatcherView {
        if self.outstanding > 0 {
            DispatcherView { stage: Stage::Draining, ..self }
        } else {
            DispatcherView { stage: Stage::Done, ..self }
        }
    }

    /// The state after `event`. An event that does not answer the awaited
    /// action changes nothing.
    pub open spec fn next(self, event: Event) -> DispatcherView {
        match (self.stage, event) {
            (Stage::Idle, Event::Started { now }) => self.begin(now),
            (Stage::StartingSampler, Event::SamplerStarted) => DispatcherView {
                stage: Stage::ReadingClock,
                ..self
            },
            (Stage::ReadingClock, Event::Clock { now }) => if now < self.deadline {
                self.pace()
            } else {
                self.drain()
            },
            (Stage::Pacing, Event::Woke) => self.make_room(),
            (Stage::Joining, Event::Joined) => DispatcherView {
                stage: Stage::Spawning,
                outstanding: (self.outstanding - 1) as nat,
                ..self
            },
            (Stage::Spawning, Event::Spawned) => DispatcherView {
                stage: Stage::ReadingClock,
                outstanding: self.outstanding + 1,
                ..self
            },
            (Stage::Draining, Event::Joined) => DispatcherView {
                outstanding: (self.outstanding - 1) as nat,
                ..self
            }.drain(),
            _ => self,
        }
    }

    /// The state after a whole sequence of events, first to last.
    pub open spec fn run(self, events: Seq<Event>) -> DispatcherView
        decreases events.len(),
    {
        if events.len() == 0 {
            self
        } else {
            self.run(events.drop_last()).next(events.last())
        }
    }
}

/// The place of a phase in the order `Idle`, `Running`, `Draining`, `Done`.
pub open spec fn phase_rank(phase: Phase) -> nat {
    match phase {
        Phase::Idle => 0,
        Phase::Running => 1,
        Phase::Draining => 2,
        Phase::Done => 3,
    }
}

/// The decisions of the main loop of one run.
#[derive(Debug)]
pub struct Dispatcher {
    stage: Stage,
    limit: usize,
    duration: u64,
    deadline: u64,
    outstanding: usize,
    wake_at: u64,
    pacer: RateLimiter,
}

impl View for Dispatcher {
    type V = DispatcherView;

    closed spec fn view(&self) -> DispatcherView {
        DispatcherView {
            stage: self.stage,
            limit: self.limit as nat,
            duration: self.duration as nat,
            deadline: self.deadline as nat,
            outstanding: self.outstanding as nat,
            wake_at: self.wake_at as nat,
            pacer: self.pacer@,
        }
    }
}

impl Dispatcher {
    #[verifier::type_invariant]
    spec fn inv(self) -> bool {
        self@.wf()
    }

    /// A dispatcher for a run of `seconds` seconds with at most `limit`
    /// outstanding tasks, paced by `pacer`. There is none for a limit of
    /// zero.
    pub fn new(limit: usize, seconds: u32, pacer: RateLimiter) -> (r: Option<Dispatcher>)
        ensures
            r is Some <==> limit >= 1,
            r matches Some(d) ==> d@ == DispatcherView::initial(
                limit as nat,
                seconds as nat,
                pacer@.period,
            ) && d@.wf(),
    {
        if limit == 0 {
            None
        } else {
            let duration: u64 = (seconds as u64) * NANOS_PER_SECOND;
            Some(
                Dispatcher {
                    stage: Stage::Idle,
                    limit,
                    duration,
                    deadline: 0,
                    outstanding: 0,
                    wake_at: 0,
                    pacer: pacer.anchored_at(0),
                },
            )
        }
    }

    /// The phase of the run.
    pub fn phase(&self) -> (p: Phase)
        ensures
            p == self@.phase(),
    {
        match self.stage {
            Stage::Idle => Phase::Idle,
            Stage::StartingSampler => Phase::Running,
            Stage::ReadingClock => Phase::Running,
            Stage::Pacing => Phase::Running,
            Stage::Joining => Phase::Running,
            Stage::Spawning => Phase::Running,
            Stage::Draining => Phase::Draining,
            Stage::Done => Phase::Done,
        }
    }

    /// The tasks that were spawned and not yet joined; never more than the
    /// limit.
    pub fn outstanding(&self) -> (n: usize)
        ensures
            n == self@.outstanding,
            n <= self@.limit,
    {
        proof {
            use_type_invariant(self);
        }
        self.outstanding
    }

    /// The concurrency limit.
    pub fn limit(&self) -> (n: usize)
        ensures
            n == self@.limit,
            n >= 1,
    {
        proof {
            use_type_invariant(self);
        }
        self.limit
    }

    /// The instant from which nothing is spawned any more. It is set when
    /// the run starts.
    pub fn deadline(&self) -> (t: u64)
        ensures
            t == self@.deadline,
    {
        self.deadline
    }

    /// The action that the dispatcher awaits an answer to.
    pub fn pending(&self) -> (a: Action)
        ensures
            a == self@.pending(),
    {
        match self.stage {
            Stage::Idle => Action::Start,
            Stage::StartingSampler => Action::StartSampler,
            Stage::ReadingClock => Action::ReadClock,
            Stage::Pacing => Action::SleepUntil(self.wake_at),
            Stage::Joining => Action::Join,
            Stage::Spawning => Action::Spawn,
            Stage::Draining => Action::Join,
            Stage::Done => Action::Finish,
        }
    }

    /// Takes the answer to the awaited action and names the next action.
    /// An event that is no answer to the awaited action changes nothing, and
    /// the awaited action is named again.
    pub fn step(self, event: Event) -> (r: (Dispatcher, Action))
        ensures
            r.0@ == self@.next(event),
            r.1 == self@.next(event).pending(),
            r.0@.wf(),
    {
        proof {
            use_type_invariant(&self);
            lemma_next_preserves_wf(self@, event);
        }
        let Dispatcher { stage, limit, duration, deadline, outstanding, wake_at, pacer } = self;
        let next = match (stage, event) {
            (Stage::Idle, Event::Started { now }) => {
                let mut pacer = pacer.anchored_at(now);
                let _ = pacer.wait();
                Dispatcher {
                    stage: Stage::StartingSampler,
                    limit,
                    duration,
                    deadline: now.saturating_add(duration),
                    outstanding,
                    wake_at,
                    pacer,
                }
            },
            (Stage::StartingSampler, Event::SamplerStarted) => Dispatcher {
                stage: Stage::ReadingClock,
                limit,
                duration,
                deadline,
                outstanding,
                wake_at,
                pacer,
            },
            (Stage::ReadingClock, Event::Clock { now }) => {
                if now < deadline {
                    let mut pacer = pacer;
                    match pacer.wait() {
                        Some(t) => Dispatcher {
                            stage: Stage::Pacing,
                            limit,
                            duration,
                            deadline,
                            outstanding,
                            wake_at: t,
                            pacer,
                        },
                        None => Dispatcher {
                            stage: Self::make_room(outstanding, limit),
                            limit,
                            duration,
                            deadline,
                            outstanding,
                            wake_at,
                            pacer,
                        },
                    }
                } else {
                    Dispatcher {
                        stage: Self::drain(outstanding),
                        limit,
                        duration,
                        deadline,
                        outstanding,
                        wake_at,
                        pacer,
                    }
                }
            },
            (Stage::Pacing, Event::Woke) => Dispatcher {
                stage: Self::make_room(outstanding, limit),
                limit,
                duration,
                deadline,
                outstanding,
                wake_at,
                pacer,
            },
            (Stage::Joining, Event::Joined) => Dispatcher {
                stage: Stage::Spawning,
                limit,
                duration,
                deadline,
                outstanding: outstanding - 1,
                wake_at,
                pacer,
            },
            (Stage::Spawning, Event::Spawned) => Dispatcher {
                stage: Stage::ReadingClock,
                limit,
                duration,
                deadline,
                outstanding: outstanding + 1,
                wake_at,
                pacer,
            },
            (Stage::Draining, Event::Joined) => Dispatcher {
                stage: Self::drain(outstanding - 1),
                limit,
                duration,
                deadline,
                outstanding: outstanding - 1,
                wake_at,
                pacer,
            },
            _ => Dispatcher { stage, limit, duration, deadline, outstanding, wake_at, pacer },
        };
        let action = next.pending();
        (next, action)
    }

    /// The stage that back-pressure leads to.
    fn make_room(outstanding: usize, limit: usize) -> (s: Stage)
        ensures
            s == if outstanding >= limit {
                Stage::Joining
            } else {
                Stage::Spawning
            },
    {
        if outstanding >= limit {
            Stage::Joining
        } else {
            Stage::Spawning
        }
    }

    /// The stage that draining leads to.
    fn drain(outstanding: usize) -> (s: Stage)
        ensures
            s == if outstanding > 0 {
                Stage::Draining
            } else {
                Stage::Done
            },
    {
        if outstanding > 0 {
            Stage::Draining
        } else {
            Stage::Done
        }
    }
}

/// Every event keeps a well-formed dispatcher well-formed and leaves the
/// limit, the length of the run and the pacer's period alone.
pub proof fn lemma_next_preserves_wf(v: DispatcherView, event: Event)
    requires
        v.wf(),
    ensures
        v.next(event).wf(),
        v.next(event).limit == v.limit,
        v.next(event).duration == v.duration,
        v.next(event).pacer.period == v.pacer.period,
{
}

/// Whatever the caller reports, in whatever order, the tasks that are
/// spawned and not yet joined never exceed the concurrency limit: it holds
/// after every prefix of every sequence of events, from the start of a run
/// with `limit >= 1`.
pub proof fn lemma_outstanding_never_exceeds_limit(
    limit: nat,
    seconds: nat,
    period: Option<nat>,
    events: Seq<Event>,
)
    requires
        limit >= 1,
    ensures
        forall|k: int|
            0 <= k <= events.len() ==> (#[trigger] DispatcherView::initial(
                limit,
                seconds,
                period,
            ).run(events.take(k))).outstanding <= limit,
{
    let start = DispatcherView::initial(limit, seconds, period);
    assert forall|k: int| 0 <= k <= events.len() implies (#[trigger] start.run(
        events.take(k),
    )).outstanding <= limit by {
        lemma_run_preserves_wf(start, events.take(k));
    }
}

/// A whole sequence of events keeps a well-formed dispatcher well-formed and
/// leaves its limit alone.
pub proof fn lemma_run_preserves_wf(v: DispatcherView, events: Seq<Event>)
    requires
        v.wf(),
    ensures
        v.run(events).wf(),
        v.run(events).limit == v.limit,
    decreases events.len(),
{
    if events.len() > 0 {
        lemma_run_preserves_wf(v, events.drop_last());
        lemma_next_preserves_wf(v.run(events.drop_last()), events.last());
    }
}

/// The first request is paced like the others: a run that starts at `now`
/// with a pacer of the given period waits in its first round until one
/// period after `now`, and a run without a period waits for nothing.
pub proof fn lemma_first_round_is_paced(v: DispatcherView, now: u64)
    requires
        v.stage == Stage::Idle,
    ensures
        v.begin(now).pacer.slot() == match v.pacer.period {
            Some(period) => Some(clamp_instant(now as nat + period)),
            None => None,
        },
        v.begin(now).deadline == clamp_instant(now as nat + v.duration),
        v.next(Event::Started { now }) == v.begin(now),
{
}

/// An event that does not answer the awaited action changes nothing, so the
/// same action stays awaited.
pub proof fn lemma_event_out_of_turn(v: DispatcherView, event: Event)
    requires
        !v.accepts(event),
    ensures
        v.next(event) == v,
        v.next(event).pending() == v.pending(),
{
}

/// The phases are gone through in order: no event takes a run back to an
/// earlier phase.
pub proof fn lemma_phase_never_goes_back(v: DispatcherView, event: Event)
    ensures
        phase_rank(v.phase()) <= phase_rank(v.next(event).phase()),
{
}

/// Once a run is draining or done, no event makes the dispatcher name a
/// spawn again, the run stays draining or done, and the number of outstanding
/// tasks only falls.
pub proof fn lemma_nothing_spawned_after_deadline(v: DispatcherView, event: Event)
    requires
        v.wf(),
        v.phase() == Phase::Draining || v.phase() == Phase::Done,
    ensures
        v.next(event).pending() != Action::Spawn,
        v.next(event).phase() == Phase::Draining || v.next(event).phase() == Phase::Done,
        v.next(event).outstanding <= v.outstanding,
{
}

/// A reading of the clock at or after the deadline ends the running phase at
/// once: the run drains if a task is outstanding and is done if none is.
pub proof fn lemma_deadline_ends_running(v: DispatcherView, now: u64)
    requires
        v.stage == Stage::ReadingClock,
        now >= v.deadline,
    ensures
        v.next(Event::Clock { now }) == v.drain(),
        v.next(Event::Clock { now }).pending() == if v.outstanding > 0 {
            Action::Join
        } else {
            Action::Finish
        },
{
}

/// A spawn is only ever named while there is room for one more task.
pub proof fn lemma_spawn_has_room(v: DispatcherView, event: Event)
    requires
        v.wf(),
        v.next(event).pending() == Action::Spawn,
    ensures
        v.next(event).outstanding < v.limit,
{
}

/// The events of a run that is paced and otherwise left alone, up to the end
/// of its round `k`: the run starts at `start`, no task is ever in the way of
/// the next, and no time passes but in the pauses that the dispatcher names,
/// so that the clock of each round reads the instant that the round before
/// waited for.
pub open spec fn paced_rounds(start: u64, period: nat, k: nat) -> Seq<Event>
    decreases k,
{
    if k == 0 {
        seq![Event::Started { now: start }, Event::SamplerStarted]
    } else {
        paced_rounds(start, period, (k - 1) as nat) + seq![
            Event::Clock { now: (start + (k - 1) * period) as u64 },
            Event::Woke,
            Event::Spawned,
        ]
    }
}

/// Events that are reported one after the other have the effect of the first
/// sequence followed by that of the second.
pub proof fn lemma_run_in_two_parts(v: DispatcherView, first: Seq<Event>, second: Seq<Event>)
    ensures
        v.run(first + second) == v.run(first).run(second),
    decreases second.len(),
{
    if second.len() == 0 {
        assert(first + second =~= first);
    } else {
        lemma_run_in_two_parts(v, first, second.drop_last());
        assert((first + second).drop_last() =~= first + second.drop_last());
        assert((first + second).last() == second.last());
    }
}

/// The effect of three events is that of each in turn.
proof fn lemma_run_of_three(v: DispatcherView, a: Event, b: Event, c: Event)
    ensures
        v.run(seq![a, b, c]) == v.next(a).next(b).next(c),
{
    let s3 = seq![a, b, c];
    let s2 = seq![a, b];
    let s1 = seq![a];
    assert(s3.drop_last() =~= s2);
    assert(s2.drop_last() =~= s1);
    assert(s1.drop_last() =~= Seq::<Event>::empty());
    assert(v.run(Seq::<Event>::empty()) == v);
    assert(v.run(s1) == v.next(a));
    assert(v.run(s2) == v.next(a).next(b));
}

/// A paced run spawns one task in each round: where each of its first `k`
/// rounds begins before the deadline and the concurrency limit leaves room
/// for `k` tasks, the run has spawned `k` tasks by the end of round `k`,
/// joined none, and waits to read the clock again. Its round `k` has waited
/// for the instant `start + k * period`.
pub proof fn lemma_paced_run_spawns_each_round(
    limit: nat,
    seconds: nat,
    period: nat,
    start: u64,
    k: nat,
)
    requires
        period >= 1,
        1 <= limit,
        k <= limit,
        start + seconds * NANOS_PER_SECOND <= u64::MAX,
        k >= 1 ==> (k - 1) * period < seconds * NANOS_PER_SECOND,
    ensures
        ({
            let v = DispatcherView::initial(limit, seconds, Some(period)).run(
                paced_rounds(start, period, k),
            );
            &&& v.wf()
            &&& v.stage == Stage::ReadingClock
            &&& v.outstanding == k
            &&& v.limit == limit
            &&& v.deadline == start + seconds * NANOS_PER_SECOND
            &&& v.pacer == RateLimiterView::initial(start as nat, Some(period)).advance_by(k + 1)
            &&& k >= 1 ==> v.wake_at == clamp_instant(start as nat + k * period)
        }),
    decreases k,
{
    let v0 = DispatcherView::initial(limit, seconds, Some(period));
    let grid = RateLimiterView::initial(start as nat, Some(period));
    if k == 0 {
        let s = paced_rounds(start, period, 0);
        let a = Event::Started { now: start };
        assert(s.drop_last() =~= seq![a]);
        assert(seq![a].drop_last() =~= Seq::<Event>::empty());
        assert(v0.run(Seq::<Event>::empty()) == v0);
        assert(v0.run(seq![a]) == v0.next(a));
        assert(v0.run(s) == v0.next(a).next(Event::SamplerStarted));
        assert(grid.advance_by(0) == grid);
        assert(grid.advance_by(1) == grid.advance_by(0).advance());
        assert(v0.next(a) == v0.begin(start));
    } else {
        let j = (k - 1) as nat;
        if j >= 1 {
            assert((j - 1) * period < seconds * NANOS_PER_SECOND) by (nonlinear_arith)
                requires
                    j * period < seconds * NANOS_PER_SECOND,
                    period >= 1,
                    j >= 1,
            ;
        }
        lemma_paced_run_spawns_each_round(limit, seconds, period, start, j);
        let before = v0.run(paced_rounds(start, period, j));
        let now = (start + j * period) as u64;
        let clock = Event::Clock { now };
        let round = seq![clock, Event::Woke, Event::Spawned];
        lemma_run_in_two_parts(v0, paced_rounds(start, period, j), round);
        lemma_run_of_three(before, clock, Event::Woke, Event::Spawned);
        crate::pacing::lemma_cadence_is_anchored(start as nat, period, k);
        assert(grid.advance_by(k + 1) == grid.advance_by(k).advance());
        assert(now == start + j * period);
        assert(now < before.deadline);
    }
}

/// The number of tasks that a paced run spawns in its window. A run of
/// `seconds` seconds with one allowed instant every `period` nanoseconds,
/// left alone as `paced_rounds` describes, spawns a task in every round that
/// begins before the deadline and in no other: `k` tasks, where `k` is the
/// number of periods that it takes to cover the window. That is the length
/// of the window divided by the period, or one more where the period does
/// not divide it; the clock reading after round `k` ends the running phase
/// with `k` tasks to join and none to spawn.
pub proof fn lemma_spawns_in_a_window(
    limit: nat,
    seconds: nat,
    period: nat,
    start: u64,
    k: nat,
)
    requires
        period >= 1,
        1 <= limit,
        k <= limit,
        start + seconds * NANOS_PER_SECOND <= u64::MAX,
        start + k * period <= u64::MAX,
        k >= 1 ==> (k - 1) * period < seconds * NANOS_PER_SECOND,
        seconds * NANOS_PER_SECOND <= k * period,
    ensures
        (seconds * NANOS_PER_SECOND) / (period as int) <= k <= (seconds * NANOS_PER_SECOND) / (
        period as int) + 1,
        (seconds * NANOS_PER_SECOND) % (period as int) == 0 ==> k == (seconds
            * NANOS_PER_SECOND) / (period as int),
        ({
            let v = DispatcherView::initial(limit, seconds, Some(period)).run(
                paced_rounds(start, period, k),
            );
            let end = v.next(Event::Clock { now: (start + k * period) as u64 });
            &&& v.phase() == Phase::Running
            &&& v.outstanding == k
            &&& end.outstanding == k
            &&& end.pending() == if k > 0 {
                Action::Join
            } else {
                Action::Finish
            }
            &&& end.phase() == if k > 0 {
                Phase::Draining
            } else {
                Phase::Done
            }
        }),
{
    lemma_paced_run_spawns_each_round(limit, seconds, period, start, k);
    let d = seconds * NANOS_PER_SECOND;
    let p = period as int;
    let q = d / p;
    let r = d % p;
    lemma_fundamental_div_mod(d, p);
    lemma_mod_bound(d, p);
    assert(q <= k) by (nonlinear_arith)
        requires
            d == p * q + r,
            0 <= r,
            d <= k * p,
            p >= 1,
    ;
    assert(k <= q + 1) by (nonlinear_arith)
        requires
            d == p * q + r,
            r < p,
            k >= 1 ==> (k - 1) * p < d,
            p >= 1,
            q >= 0,
            k >= 0,
    ;
    if r == 0 && k == q + 1 {
        // Round `k` would begin at the deadline itself.
        assert((k - 1) * p == p * q) by (nonlinear_arith)
            requires
                k - 1 == q,
        ;
    }
}

} // verus!
