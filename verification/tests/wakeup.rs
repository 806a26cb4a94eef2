//! Announcing completed commands and waking the session.

use std::time::Duration;

use codex_surface::wakeup::{
    dispatch_exec_wakeups, CompletionWakeRegistration, CompletionWakeState, DispatchAction,
    DispatchEvent, DispatchState, EnqueueAction, EnqueueEvent, EnqueueState, ExecWakeupTimer,
    QueuedFollowUp, EXEC_WAKEUP_BATCH_WINDOW_SECS,
};

const TOOK: Duration = Duration::from_millis(1500);

#[test]
fn completion_is_announced_once_in_either_order() {
    let mut armed_first = CompletionWakeState::new();
    assert_eq!(armed_first.arm(), None);
    assert!(armed_first.complete(3, TOOK));
    assert_eq!(armed_first.arm(), None);

    let mut completed_first = CompletionWakeState::new();
    assert!(!completed_first.complete(3, TOOK));
    assert_eq!(completed_first.arm(), Some((3, TOOK)));
    assert_eq!(completed_first.arm(), None);
}

#[test]
fn observed_completion_is_not_announced() {
    let mut before_completion = CompletionWakeState::new();
    before_completion.arm();
    before_completion.observe();
    assert!(!before_completion.complete(0, TOOK));

    let mut after_completion = CompletionWakeState::new();
    after_completion.complete(0, TOOK);
    after_completion.observe();
    assert_eq!(after_completion.arm(), None);
    assert!(after_completion.completed.is_none());
}

fn registration() -> CompletionWakeRegistration<u8> {
    CompletionWakeRegistration::new(
        "call-1".to_string(),
        42,
        "make".to_string(),
        Some(100),
        7,
    )
}

#[test]
fn registration_builds_its_announcement() {
    let mut registration = registration();
    assert_eq!(registration.arm(), None);
    assert!(registration.complete(2, TOOK));
    let output =
        registration.completion_output("chunk".to_string(), 2, TOOK, vec![104, 105], 0);
    assert_eq!(output.event_call_id, "call-1");
    assert_eq!(output.chunk_id, "chunk");
    assert_eq!(output.wall_time, TOOK);
    assert_eq!(output.raw_output, b"hi");
    assert_eq!(output.truncation_policy, 7);
    assert_eq!(output.max_output_tokens, Some(100));
    assert_eq!(output.exit_code, Some(2));
    assert_eq!(output.process_id, None);
    assert_eq!(output.output_omitted_bytes, None);
    assert!(output.hook_command.is_none());
    let cut = registration.completion_output(String::new(), 2, TOOK, Vec::new(), 9);
    assert_eq!(cut.output_omitted_bytes, Some(9));

    let (key, announcement) = registration.announcement(2, TOOK, "hi".to_string());
    assert_eq!(key, 42);
    assert_eq!(announcement.call_id, "call-1");
    assert_eq!(announcement.process_id, 42);
    assert_eq!(announcement.command, "make");
    assert_eq!(announcement.exit_code, 2);
    assert_eq!(announcement.duration, TOOK);
    assert_eq!(announcement.output, "hi");
}

#[test]
fn announcement_seen_meanwhile_is_taken_out_again() {
    let mut registration = registration();
    assert_eq!(registration.queued(), QueuedFollowUp::ScheduleWakeup);
    assert_eq!(registration.observed(true), Some(42));
    assert_eq!(registration.queued(), QueuedFollowUp::Remove(42));
    assert_eq!(registration.observed(false), None);
}

fn announced_until_queued(registration: &CompletionWakeRegistration<u8>) -> EnqueueState {
    let start = EnqueueState::AskingSession;
    let (state, action) = registration.enqueue(2, TOOK, start, EnqueueEvent::Session(true));
    assert!(matches!(action, EnqueueAction::Drain));
    let drained = EnqueueEvent::Drained("chunk".to_string(), b"hi".to_vec(), 9);
    let (state, action) = registration.enqueue(2, TOOK, state, drained);
    match action {
        EnqueueAction::Render(output) => {
            assert_eq!(output.raw_output, b"hi");
            assert_eq!(output.output_omitted_bytes, Some(9));
            assert_eq!(output.exit_code, Some(2));
        }
        _ => panic!("expected the output"),
    }
    let rendered = EnqueueEvent::Rendered("seen".to_string());
    let (state, action) = registration.enqueue(2, TOOK, state, rendered);
    match action {
        EnqueueAction::Queue(key, completion) => {
            assert_eq!(key, 42);
            assert_eq!(completion.output, "seen");
            assert_eq!(completion.command, "make");
        }
        _ => panic!("expected the announcement"),
    }
    assert_eq!(state, EnqueueState::Queueing);
    state
}

#[test]
fn announcing_looks_for_observers_last() {
    let mut registration = registration();
    let state = announced_until_queued(&registration);
    let (done, action) = registration.enqueue(2, TOOK, state, EnqueueEvent::Queued);
    assert_eq!(done, EnqueueState::Done);
    assert!(matches!(action, EnqueueAction::ScheduleWakeup));

    let state = announced_until_queued(&registration);
    assert_eq!(registration.observed(true), Some(42));
    let (done, action) = registration.enqueue(2, TOOK, state, EnqueueEvent::Queued);
    assert_eq!(done, EnqueueState::Done);
    assert!(matches!(action, EnqueueAction::Remove(42)));
}

#[test]
fn nothing_is_announced_to_a_session_that_is_gone() {
    let start = EnqueueState::AskingSession;
    let (state, action) = registration().enqueue(2, TOOK, start, EnqueueEvent::Session(false));
    assert_eq!(state, EnqueueState::Done);
    assert!(matches!(action, EnqueueAction::Nothing));
    let (state, action) = registration().enqueue(2, TOOK, start, EnqueueEvent::Queued);
    assert_eq!(state, start);
    assert!(matches!(action, EnqueueAction::Nothing));
}

#[test]
fn one_timer_runs_at_a_time() {
    let mut timer = ExecWakeupTimer::new();
    assert_eq!(EXEC_WAKEUP_BATCH_WINDOW_SECS, 5);
    assert_eq!(timer.schedule_exec_wakeup(), Some(5));
    assert_eq!(timer.schedule_exec_wakeup(), None);
    timer.elapsed();
    assert_eq!(timer.schedule_exec_wakeup(), Some(5));
}

fn step(state: DispatchState, event: DispatchEvent<&'static str>) -> (DispatchState, String) {
    let (state, action) = dispatch_exec_wakeups(state, event);
    let action = match action {
        DispatchAction::Nothing => "nothing".to_string(),
        DispatchAction::AskTurn => "ask turn".to_string(),
        DispatchAction::AskMailbox => "ask mailbox".to_string(),
        DispatchAction::Drain => "drain".to_string(),
        DispatchAction::StartTurn(input) => format!("start {input:?}"),
        DispatchAction::Schedule => "schedule".to_string(),
        DispatchAction::RequeueAndSchedule(items) => format!("requeue {items:?}"),
    };
    (state, action)
}

#[test]
fn idle_session_starts_a_turn() {
    let (state, action) = step(DispatchState::AskingQueue, DispatchEvent::HasWakeups(true));
    assert_eq!(action, "ask turn");
    let (state, action) = step(state, DispatchEvent::TurnActive(false));
    assert_eq!(action, "ask mailbox");
    let (state, action) = step(state, DispatchEvent::HasTriggerItems(false));
    assert_eq!(action, "drain");
    let (state, action) = step(state, DispatchEvent::Drained(vec!["a", "b"]));
    assert_eq!(action, "start [\"a\", \"b\"]");
    let (state, action) = step(state, DispatchEvent::TurnStarted);
    assert_eq!(action, "nothing");
    assert_eq!(state, DispatchState::Done);
}

#[test]
fn busy_session_is_asked_again_later() {
    assert_eq!(
        step(DispatchState::AskingQueue, DispatchEvent::HasWakeups(false)),
        (DispatchState::Done, "nothing".to_string())
    );
    assert_eq!(
        step(DispatchState::AskingTurn, DispatchEvent::TurnActive(true)),
        (DispatchState::Done, "schedule".to_string())
    );
    assert_eq!(
        step(DispatchState::AskingMailbox, DispatchEvent::HasTriggerItems(true)),
        (DispatchState::Done, "schedule".to_string())
    );
    assert_eq!(
        step(DispatchState::AskingTurn, DispatchEvent::TurnStarted),
        (DispatchState::AskingTurn, "nothing".to_string())
    );
    assert_eq!(
        step(DispatchState::Done, DispatchEvent::HasWakeups(true)),
        (DispatchState::Done, "nothing".to_string())
    );
}

#[test]
fn refused_input_goes_back_in_order_before_everything_else() {
    assert_eq!(
        step(DispatchState::Starting, DispatchEvent::TurnRefused(vec!["a", "b", "c"])),
        (
            DispatchState::Done,
            "requeue [(-2147483648, \"a\"), (-2147483647, \"b\"), (-2147483646, \"c\")]"
                .to_string()
        )
    );
}
