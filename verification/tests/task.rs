use gau_rs::metrics::{ErrorKind, Outcome};
use gau_rs::task::{RequestTask, TaskAction, TaskEvent, TaskStage};

/// Feeds the events to a fresh task and lists the actions it names.
fn actions(delay: Option<u64>, events: &[TaskEvent]) -> Vec<TaskAction> {
    let mut task = RequestTask::new(delay);
    let mut named = vec![task.pending()];
    for event in events {
        let (next, action) = task.step(*event);
        task = next;
        named.push(action);
    }
    named
}

#[test]
fn a_request_that_is_answered() {
    let reply = TaskEvent::Replied { status_code: 404, byte_length: 9, latency: 1_500 };
    let outcome = Outcome::Success { status_code: 404, byte_length: 9, latency: 1_500 };
    assert_eq!(
        actions(
            None,
            &[
                TaskEvent::Begun,
                TaskEvent::Admitted,
                TaskEvent::Counted,
                reply,
                TaskEvent::Released,
                TaskEvent::Recorded,
            ]
        ),
        vec![
            TaskAction::Begin,
            TaskAction::Acquire,
            TaskAction::Count,
            TaskAction::Send,
            TaskAction::Release,
            TaskAction::Record(outcome),
            TaskAction::End,
        ]
    );
}

#[test]
fn a_request_that_fails() {
    let named = actions(
        Some(20),
        &[
            TaskEvent::Begun,
            TaskEvent::Slept,
            TaskEvent::Admitted,
            TaskEvent::Counted,
            TaskEvent::Failed { latency: 77 },
            TaskEvent::Released,
            TaskEvent::Recorded,
        ],
    );
    assert_eq!(
        named,
        vec![
            TaskAction::Begin,
            TaskAction::Sleep(20),
            TaskAction::Acquire,
            TaskAction::Count,
            TaskAction::Send,
            TaskAction::Release,
            TaskAction::Record(Outcome::Failure { error_kind: ErrorKind::Network, latency: 77 }),
            TaskAction::End,
        ]
    );
}

#[test]
fn a_refused_permit_is_a_failed_request() {
    let named = actions(None, &[TaskEvent::Begun, TaskEvent::Refused { latency: 3 }, TaskEvent::Recorded]);
    assert_eq!(
        named,
        vec![
            TaskAction::Begin,
            TaskAction::Acquire,
            TaskAction::Record(Outcome::Failure { error_kind: ErrorKind::Admission, latency: 3 }),
            TaskAction::End,
        ]
    );
}

#[test]
fn an_event_out_of_turn_is_passed_over() {
    let task = RequestTask::new(None);
    let (task, action) = task.step(TaskEvent::Counted);
    assert_eq!(action, TaskAction::Begin);
    assert_eq!(task, RequestTask::new(None));
    let (task, _) = task.step(TaskEvent::Begun);
    let (task, action) = task.step(TaskEvent::Replied { status_code: 200, byte_length: 1, latency: 1 });
    assert_eq!(action, TaskAction::Acquire);
    assert_eq!(task.outcome, None);
    let (task, _) = task.step(TaskEvent::Admitted);
    let (task, action) = task.step(TaskEvent::Refused { latency: 1 });
    assert_eq!(action, TaskAction::Count);
    assert_eq!(task.stage, TaskStage::Counting);
    let (task, _) = task.step(TaskEvent::Counted);
    let (task, _) = task.step(TaskEvent::Failed { latency: 5 });
    let (task, action) = task.step(TaskEvent::Recorded);
    assert_eq!(action, TaskAction::Release);
    let (task, _) = task.step(TaskEvent::Released);
    let (task, action) = task.step(TaskEvent::Recorded);
    assert_eq!(action, TaskAction::End);
    let (task, action) = task.step(TaskEvent::Begun);
    assert_eq!(action, TaskAction::End);
    assert_eq!(task.stage, TaskStage::Done);
}

#[test]
fn a_delay_of_nothing_is_still_a_delay() {
    assert_eq!(
        actions(Some(0), &[TaskEvent::Begun, TaskEvent::Slept]),
        vec![TaskAction::Begin, TaskAction::Sleep(0), TaskAction::Acquire]
    );
}
