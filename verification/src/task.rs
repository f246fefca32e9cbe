//! The request task: the steps of one dispatched request.
//!
//! A task waits the fixed per-request delay if there is one, takes a permit,
//! counts itself on the live counter, sends the request and measures it,
//! gives the permit back, and records the classified outcome. Like the
//! dispatcher it performs nothing itself: it names one [`TaskAction`] at a
//! time and is told the [`TaskEvent`] that answers it.
//!
//! | action          | answered by                |
//! |-----------------|----------------------------|
//! | `Begin`         | `Begun`                    |
//! | `Sleep(ms)`     | `Slept`                    |
//! | `Acquire`       | `Admitted` or `Refused`    |
//! | `Count`         | `Counted`                  |
//! | `Send`          | `Replied` or `Failed`      |
//! | `Release`       | `Released`                 |
//! | `Record(o)`     | `Recorded`                 |
//! | `End`           | nothing: the task is over  |
//!
//! A task that is refused a permit, because the permit source was shut down,
//! sends nothing: it records a failure and ends, and the run goes on.

use vstd::prelude::*;
use crate::metrics::{ErrorKind, Outcome};

verus! {

/// Where a task stands, that is, which answer it waits for.
#[derive(Clone, Copy, Debug, PartialEq, Eq, Structural)]
pub enum TaskStage {
    /// Waiting to be begun.
    Created,
    /// Waiting for the delay to pass.
    Delaying,
    /// Waiting for a permit.
    Acquiring,
    /// Waiting for the live counter to be raised.
    Counting,
    /// Waiting for the response.
    Sending,
    /// Waiting for the permit to be given back.
    Releasing,
    /// Waiting for the outcome to be recorded.
    Recording,
    /// The task is over.
    Done,
}

/// What the caller is to do next.
#[derive(Clone, Copy, Debug, PartialEq, Eq, Structural)]
pub enum TaskAction {
    /// Report `Begun`.
    Begin,
    /// Suspend for the given number of milliseconds.
    Sleep(u64),
    /// Wait for a permit of the admission controller.
    Acquire,
    /// Raise the live per-second counter by one.
    Count,
    /// Send the request and measure the time until the response or the
    /// error.
    Send,
    /// Give the permit back.
    Release,
    /// Record the outcome in the metrics accumulator.
    Record(Outcome),
    /// End the task.
    End,
}

/// What the caller reports back.
#[derive(Clone, Copy, Debug, PartialEq, Eq, Structural)]
pub enum TaskEvent {
    /// The task has begun.
    Begun,
    /// The delay has passed.
    Slept,
    /// A permit is held.
    Admitted,
    /// No permit will be granted; `latency` is the time spent waiting.
    Refused { latency: u64 },
    /// The live counter has been raised.
    Counted,
    /// A response arrived after `latency`.
    Replied { status_code: u16, byte_length: u64, latency: u64 },
    /// The request failed after `latency`.
    Failed { latency: u64 },
    /// The permit has been given back.
    Released,
    /// The outcome has been recorded.
    Recorded,
}

/// The state of one request task.
#[derive(Clone, Copy, Debug, PartialEq, Eq, Structural)]
pub struct RequestTask {
    /// Which answer is awaited.
    pub stage: TaskStage,
    /// The delay before the request, in milliseconds, if there is one.
    pub delay: Option<u64>,
    /// The outcome, once it is known.
    pub outcome: Option<Outcome>,
}

impl RequestTask {
    /// Whether the task holds a permit at this stage.
    pub open spec fn holds_permit(self) -> bool {
        self.stage == TaskStage::Counting || self.stage == TaskStage::Sending || self.stage
            == TaskStage::Releasing
    }

    /// The outcome is known where it is about to be recorded or the permit
    /// about to be given back.
    pub open spec fn wf(self) -> bool {
        (self.stage == TaskStage::Releasing || self.stage == TaskStage::Recording)
            ==> self.outcome is Some
    }

    /// The action that is awaited an answer to.
    pub open spec fn pending_spec(self) -> TaskAction {
        match self.stage {
            TaskStage::Created => TaskAction::Begin,
            TaskStage::Delaying => match self.delay {
                Some(ms) => TaskAction::Sleep(ms),
                None => TaskAction::Sleep(0),
            },
            TaskStage::Acquiring => TaskAction::Acquire,
            TaskStage::Counting => TaskAction::Count,
            TaskStage::Sending => TaskAction::Send,
            TaskStage::Releasing => match self.outcome {
                Some(_) => TaskAction::Release,
                None => TaskAction::End,
            },
            TaskStage::Recording => match self.outcome {
                Some(outcome) => TaskAction::Record(outcome),
                None => TaskAction::End,
            },
            TaskStage::Done => TaskAction::End,
        }
    }

    /// The state after `event`. An event that does not answer the awaited
    /// action changes nothing.
    pub open spec fn next(self, event: TaskEvent) -> RequestTask {
        match (self.stage, event) {
            (TaskStage::Created, TaskEvent::Begun) => RequestTask {
                stage: if self.delay is Some {
                    TaskStage::Delaying
                } else {
                    TaskStage::Acquiring
                },
                ..self
            },
            (TaskStage::Delaying, TaskEvent::Slept) => RequestTask {
                stage: TaskStage::Acquiring,
                ..self
            },
            (TaskStage::Acquiring, TaskEvent::Admitted) => RequestTask {
                stage: TaskStage::Counting,
                ..self
            },
            (TaskStage::Acquiring, TaskEvent::Refused { latency }) => RequestTask {
                stage: TaskStage::Recording,
                outcome: Some(Outcome::Failure { error_kind: ErrorKind::Admission, latency }),
                ..self
            },
            (TaskStage::Counting, TaskEvent::Counted) => RequestTask {
                stage: TaskStage::Sending,
                ..self
            },
            (
                TaskStage::Sending,
                TaskEvent::Replied { status_code, byte_length, latency },
            ) => RequestTask {
                stage: TaskStage::Releasing,
                outcome: Some(Outcome::Success { status_code, byte_length, latency }),
                ..self
            },
            (TaskStage::Sending, TaskEvent::Failed { latency }) => RequestTask {
                stage: TaskStage::Releasing,
                outcome: Some(Outcome::Failure { error_kind: ErrorKind::Network, latency }),
                ..self
            },
            (TaskStage::Releasing, TaskEvent::Released) => RequestTask {
                stage: TaskStage::Recording,
                ..self
            },
            (TaskStage::Recording, TaskEvent::Recorded) => RequestTask {
                stage: TaskStage::Done,
                ..self
            },
            _ => self,
        }
    }

    /// The state after a whole sequence of events, first to last.
    pub open spec fn run(self, events: Seq<TaskEvent>) -> RequestTask
        decreases events.len(),
    {
        if events.len() == 0 {
            self
        } else {
            self.run(events.drop_last()).next(events.last())
        }
    }

    /// A task that has not begun, with its delay in milliseconds.
    pub fn new(delay: Option<u64>) -> (r: RequestTask)
        ensures
            r == (RequestTask { stage: TaskStage::Created, delay, outcome: None }),
            r.wf(),
    {
        RequestTask { stage: TaskStage::Created, delay, outcome: None }
    }

    /// The action that the task awaits an answer to.
    #[verifier::when_used_as_spec(pending_spec)]
    pub fn pending(self) -> (a: TaskAction)
        ensures
            a == self.pending_spec(),
    {
        match self.stage {
            TaskStage::Created => TaskAction::Begin,
            TaskStage::Delaying => match self.delay {
                Some(ms) => TaskAction::Sleep(ms),
                None => TaskAction::Sleep(0),
            },
            TaskStage::Acquiring => TaskAction::Acquire,
            TaskStage::Counting => TaskAction::Count,
            TaskStage::Sending => TaskAction::Send,
            TaskStage::Releasing => match self.outcome {
                Some(_) => TaskAction::Release,
                None => TaskAction::End,
            },
            TaskStage::Recording => match self.outcome {
                Some(outcome) => TaskAction::Record(outcome),
                None => TaskAction::End,
            },
            TaskStage::Done => TaskAction::End,
        }
    }

    /// Takes the answer to the awaited action and names the next action.
    /// An event that is no answer to the awaited action changes nothing, and
    /// the awaited action is named again.
    pub fn step(self, event: TaskEvent) -> (r: (RequestTask, TaskAction))
        ensures
            r.0 == self.next(event),
            r.1 == self.next(event).pending_spec(),
    {
        let next = match (self.stage, event) {
            (TaskStage::Created, TaskEvent::Begun) => RequestTask {
                stage: if self.delay.is_some() {
                    TaskStage::Delaying
                } else {
                    TaskStage::Acquiring
                },
                delay: self.delay,
                outcome: self.outcome,
            },
            (TaskStage::Delaying, TaskEvent::Slept) => RequestTask {
                stage: TaskStage::Acquiring,
                delay: self.delay,
                outcome: self.outcome,
            },
            (TaskStage::Acquiring, TaskEvent::Admitted) => RequestTask {
                stage: TaskStage::Counting,
                delay: self.delay,
                outcome: self.outcome,
            },
            (TaskStage::Acquiring, TaskEvent::Refused { latency }) => RequestTask {
                stage: TaskStage::Recording,
                delay: self.delay,
                outcome: Some(Outcome::Failure { error_kind: ErrorKind::Admission, latency }),
            },
            (TaskStage::Counting, TaskEvent::Counted) => RequestTask {
                stage: TaskStage::Sending,
                delay: self.delay,
                outcome: self.outcome,
            },
            (
                TaskStage::Sending,
                TaskEvent::Replied { status_code, byte_length, latency },
            ) => RequestTask {
                stage: TaskStage::Releasing,
                delay: self.delay,
                outcome: Some(Outcome::Success { status_code, byte_length, latency }),
            },
            (TaskStage::Sending, TaskEvent::Failed { latency }) => RequestTask {
                stage: TaskStage::Releasing,
                delay: self.delay,
                outcome: Some(Outcome::Failure { error_kind: ErrorKind::Network, latency }),
            },
            (TaskStage::Releasing, TaskEvent::Released) => RequestTask {
                stage: TaskStage::Recording,
                delay: self.delay,
                outcome: self.outcome,
            },
            (TaskStage::Recording, TaskEvent::Recorded) => RequestTask {
                stage: TaskStage::Done,
                delay: self.delay,
                outcome: self.outcome,
            },
            _ => self,
        };
        (next, next.pending())
    }
}

/// The place of a stage in the order of the steps.
pub open spec fn stage_rank(stage: TaskStage) -> nat {
    match stage {
        TaskStage::Created => 0,
        TaskStage::Delaying => 1,
        TaskStage::Acquiring => 2,
        TaskStage::Counting => 3,
        TaskStage::Sending => 4,
        TaskStage::Releasing => 5,
        TaskStage::Recording => 6,
        TaskStage::Done => 7,
    }
}

/// The number of `Record` actions that a task names on its way through a
/// sequence of events, counting each answer that leads to one.
pub open spec fn records_named(task: RequestTask, events: Seq<TaskEvent>) -> nat
    decreases events.len(),
{
    if events.len() == 0 {
        0
    } else {
        let before = task.run(events.drop_last());
        let after = before.next(events.last());
        records_named(task, events.drop_last()) + if after.stage == TaskStage::Recording
            && before.stage != TaskStage::Recording {
            1nat
        } else {
            0nat
        }
    }
}

/// The steps are gone through in order: no event takes a task back, and an
/// event keeps a well-formed task well-formed and its delay as it is.
pub proof fn lemma_task_moves_forward(task: RequestTask, event: TaskEvent)
    requires
        task.wf(),
    ensures
        stage_rank(task.stage) <= stage_rank(task.next(event).stage),
        task.next(event).wf(),
        task.next(event).delay == task.delay,
{
}

/// A permit is held exactly from the answer `Admitted` to the answer
/// `Released`: the counter is raised and the request sent only under a
/// permit, and the outcome is recorded only when the permit has been given
/// back or was never granted.
pub proof fn lemma_permit_is_scoped(task: RequestTask, event: TaskEvent)
    requires
        task.wf(),
    ensures
        !task.holds_permit() && task.next(event).holds_permit() ==> event == TaskEvent::Admitted,
        task.holds_permit() && !task.next(event).holds_permit() ==> event == TaskEvent::Released,
        task.next(event).pending_spec() == TaskAction::Count ==> task.next(event).holds_permit(),
        task.next(event).pending_spec() == TaskAction::Send ==> task.next(event).holds_permit(),
        task.next(event).pending_spec() is Record ==> !task.next(event).holds_permit(),
        task.next(event).pending_spec() == TaskAction::End ==> !task.next(event).holds_permit(),
{
}

/// A response is classified as a success with its status, size and latency,
/// a failed request as a network failure and a refused permit as an
/// admission failure, each with the latency that was reported.
pub proof fn lemma_outcome_is_classified(task: RequestTask, event: TaskEvent)
    requires
        task.wf(),
    ensures
        task.stage == TaskStage::Sending ==> (event matches TaskEvent::Replied {
            status_code,
            byte_length,
            latency,
        } ==> task.next(event).outcome == Some(
            Outcome::Success { status_code, byte_length, latency },
        )),
        task.stage == TaskStage::Sending ==> (event matches TaskEvent::Failed { latency }
            ==> task.next(event).outcome == Some(
            Outcome::Failure { error_kind: ErrorKind::Network, latency },
        )),
        task.stage == TaskStage::Acquiring ==> (event matches TaskEvent::Refused { latency }
            ==> task.next(event).outcome == Some(
            Outcome::Failure { error_kind: ErrorKind::Admission, latency },
        ) && task.next(event).pending_spec() == TaskAction::Record(
            Outcome::Failure { error_kind: ErrorKind::Admission, latency },
        )),
        task.stage != TaskStage::Sending && task.stage != TaskStage::Acquiring ==> task.next(
            event,
        ).outcome == task.outcome,
{
}

/// A whole sequence of events keeps a task that has not begun well-formed,
/// and never takes it back.
pub proof fn lemma_run_keeps_task_well_formed(delay: Option<u64>, events: Seq<TaskEvent>)
    ensures
        (RequestTask { stage: TaskStage::Created, delay, outcome: None }).run(events).wf(),
        (RequestTask { stage: TaskStage::Created, delay, outcome: None }).run(events).delay
            == delay,
    decreases events.len(),
{
    if events.len() > 0 {
        let start = RequestTask { stage: TaskStage::Created, delay, outcome: None };
        lemma_run_keeps_task_well_formed(delay, events.drop_last());
        lemma_task_moves_forward(start.run(events.drop_last()), events.last());
    }
}

/// Whatever is reported to a task, in whatever order, it names the recording
/// of an outcome at most once.
pub proof fn lemma_at_most_one_record(delay: Option<u64>, events: Seq<TaskEvent>)
    ensures
        records_named(
            RequestTask { stage: TaskStage::Created, delay, outcome: None },
            events,
        ) <= 1,
        records_named(RequestTask { stage: TaskStage::Created, delay, outcome: None }, events)
            == 1 <==> stage_rank(
            (RequestTask { stage: TaskStage::Created, delay, outcome: None }).run(events).stage,
        ) >= stage_rank(TaskStage::Recording),
    decreases events.len(),
{
    if events.len() > 0 {
        let start = RequestTask { stage: TaskStage::Created, delay, outcome: None };
        lemma_at_most_one_record(delay, events.drop_last());
        lemma_run_keeps_task_well_formed(delay, events.drop_last());
        lemma_task_moves_forward(start.run(events.drop_last()), events.last());
    }
}

} // verus!
