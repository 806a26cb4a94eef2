//! What reaches the model of a completed command, and what becomes of input that cannot start a turn.

use std::time::Duration;

use vstd::prelude::*;

use crate::wakeup::{
    self, CompletionWakeRegistration, CompletionWakeState, DispatchEvent, DispatchState,
    EnqueueAction, EnqueueEvent, EnqueueState, ExecWakeupTimer, NextView, QueuedFollowUp,
    WakeEvent,
};

verus! {

/// What is announced of a completed command is the command itself, how it ended, how long it took, and
/// its output as the model sees it, unchanged; it is queued under the number of its process.
pub proof fn law_announcement_carries_everything<P: Copy>(
    registration: CompletionWakeRegistration<P>,
    exit_code: i32,
    duration: Duration,
    output: String,
    next: EnqueueState,
    action: EnqueueAction<P>,
)
    requires
        registration.enqueued(
            exit_code,
            duration,
            EnqueueState::Rendering,
            EnqueueEvent::Rendered(output),
            next,
            action,
        ),
    ensures
        next == EnqueueState::Queueing,
        action matches EnqueueAction::Queue(key, completion) && {
            &&& key == registration.process_id
            &&& completion.process_id == registration.process_id
            &&& completion.call_id@ == registration.call_id@
            &&& completion.command@ == registration.command@
            &&& completion.exit_code == exit_code
            &&& completion.duration == duration
            &&& completion.output@ == output@
        },
{
}

/// What the model's view is made from is everything that was left to read, with how much was left out of
/// it, under the limits of the command.
pub proof fn law_output_is_handed_on_whole<P: Copy>(
    registration: CompletionWakeRegistration<P>,
    exit_code: i32,
    duration: Duration,
    chunk_id: String,
    raw_output: Vec<u8>,
    omitted_bytes: usize,
    next: EnqueueState,
    action: EnqueueAction<P>,
)
    requires
        registration.enqueued(
            exit_code,
            duration,
            EnqueueState::Draining,
            EnqueueEvent::Drained(chunk_id, raw_output, omitted_bytes),
            next,
            action,
        ),
    ensures
        next == EnqueueState::Rendering,
        action matches EnqueueAction::Render(output) && {
            &&& output.raw_output@ == raw_output@
            &&& output.chunk_id@ == chunk_id@
            &&& output.event_call_id@ == registration.call_id@
            &&& output.exit_code == Some(exit_code)
            &&& output.wall_time == duration
            &&& output.truncation_policy == registration.truncation_policy
            &&& output.max_output_tokens == registration.max_output_tokens
            &&& omitted_bytes == 0 ==> output.output_omitted_bytes is None
            &&& omitted_bytes > 0 ==> output.output_omitted_bytes == Some(omitted_bytes)
            &&& output.process_id is None
            &&& output.original_token_count is None
            &&& output.hook_command is None
            &&& output.completion_notification is None
        },
{
}

/// An announcement that is in the queue wakes the session, unless it has been seen otherwise: then it is
/// taken out again, and it alone.
pub proof fn law_queued_announcement_is_followed_up<P: Copy>(
    registration: CompletionWakeRegistration<P>,
    exit_code: i32,
    duration: Duration,
    next: EnqueueState,
    action: EnqueueAction<P>,
)
    requires
        registration.enqueued(
            exit_code,
            duration,
            EnqueueState::Queueing,
            EnqueueEvent::Queued,
            next,
            action,
        ),
    ensures
        next == EnqueueState::Done,
        registration.state.observed ==> action == EnqueueAction::<P>::Remove(
            registration.process_id,
        ),
        !registration.state.observed ==> action is ScheduleWakeup,
        wakeup::follow_up(registration.state, registration.process_id)
            == QueuedFollowUp::ScheduleWakeup <==> !registration.state.observed,
{
}

/// Announcing goes on only with what was asked for: every other event leaves it where it is, and a
/// session that is gone ends it.
pub proof fn law_announcing_goes_step_by_step<P: Copy>(
    registration: CompletionWakeRegistration<P>,
    exit_code: i32,
    duration: Duration,
    state: EnqueueState,
    event: EnqueueEvent,
    next: EnqueueState,
    action: EnqueueAction<P>,
)
    requires
        registration.enqueued(exit_code, duration, state, event, next, action),
    ensures
        action is Drain <==> state == EnqueueState::AskingSession && event
            == EnqueueEvent::Session(true),
        action is Render <==> state == EnqueueState::Draining && event is Drained,
        action is Queue <==> state == EnqueueState::Rendering && event is Rendered,
        action is Remove || action is ScheduleWakeup <==> state == EnqueueState::Queueing
            && event is Queued,
        state == EnqueueState::AskingSession && event == EnqueueEvent::Session(false) ==> next
            == EnqueueState::Done && action is Nothing,
        next != state ==> {
            ||| state == EnqueueState::AskingSession && event is Session
            ||| state == EnqueueState::Draining && event is Drained
            ||| state == EnqueueState::Rendering && event is Rendered
            ||| state == EnqueueState::Queueing && event is Queued
        },
{
}

/// A completion of a command in the background is announced at once, with its exit code and the time it
/// took; one of a command that is not there yet waits until it is; one that has been seen is neither.
pub proof fn law_completions_wait_or_are_announced(
    state: CompletionWakeState,
    exit_code: i32,
    duration: Duration,
)
    ensures
        ({
            let event = WakeEvent::Complete(exit_code, duration);
            let after = state.after(event);
            &&& state.armed && !state.observed ==> state.announced(event) == Some(
                (exit_code, duration),
            ) && after == state
            &&& !state.armed && !state.observed ==> state.announced(event) is None
                && after.completed == Some((exit_code, duration))
            &&& state.observed ==> state.announced(event) is None && after == state
            &&& after.armed == state.armed && after.observed == state.observed
        }),
        ({
            let after = state.after(WakeEvent::Arm);
            &&& after.armed && after.completed is None && after.observed == state.observed
            &&& !state.observed ==> state.announced(WakeEvent::Arm) == state.completed
            &&& state.observed ==> state.announced(WakeEvent::Arm) is None
        }),
        ({
            let after = state.after(WakeEvent::Observe);
            &&& after.observed && after.armed == state.armed && after.completed == state.completed
            &&& state.announced(WakeEvent::Observe) is None
        }),
        !CompletionWakeState::initial().armed,
        !CompletionWakeState::initial().observed,
        CompletionWakeState::initial().completed is None,
{
}

/// Announcements are gathered for five seconds, from the first one on.
pub proof fn law_gathering_takes_five_seconds(timer: ExecWakeupTimer)
    ensures
        timer.delay() == if timer.running {
            None::<u64>
        } else {
            Some(5u64)
        },
        timer.scheduled().running,
        !timer.run_down().running,
{
}

/// Input that could not start a turn goes back into the queue: all of it, in its order, before
/// everything that processes announce, and another dispatch is asked for.
pub proof fn law_refused_input_is_not_lost<I>(input: Vec<I>)
    requires
        input.len() <= 0x8000_0000,
    ensures
        wakeup::dispatched(DispatchState::Starting, DispatchEvent::TurnRefused(input)).0
            == DispatchState::Done,
        wakeup::dispatched(
            DispatchState::Starting,
            DispatchEvent::TurnRefused(input),
        ).1 matches NextView::RequeueAndSchedule(items) && {
            &&& items.len() == input.len()
            &&& forall|i: int| 0 <= i < items.len() ==> (#[trigger] items[i]).1 == input@[i]
            &&& forall|i: int|
                0 <= i < items.len() ==> (#[trigger] items[i]).0 == -0x8000_0000 + i
        },
{
}

/// A dispatch asks one thing after another, and is over or asked for again where the session is busy.
pub proof fn law_dispatch_goes_step_by_step<I>(input: Vec<I>, yes: bool)
    ensures
        wakeup::dispatched::<I>(DispatchState::AskingQueue, DispatchEvent::HasWakeups(yes)) == if yes {
            (DispatchState::AskingTurn, NextView::<I>::AskTurn)
        } else {
            (DispatchState::Done, NextView::<I>::Nothing)
        },
        wakeup::dispatched::<I>(DispatchState::AskingTurn, DispatchEvent::TurnActive(yes)) == if yes {
            (DispatchState::Done, NextView::<I>::Schedule)
        } else {
            (DispatchState::AskingMailbox, NextView::<I>::AskMailbox)
        },
        wakeup::dispatched::<I>(
            DispatchState::AskingMailbox,
            DispatchEvent::HasTriggerItems(yes),
        ) == if yes {
            (DispatchState::Done, NextView::<I>::Schedule)
        } else {
            (DispatchState::Draining, NextView::<I>::Drain)
        },
        wakeup::dispatched(DispatchState::Draining, DispatchEvent::Drained(input)) == (
            DispatchState::Starting,
            NextView::StartTurn(input@),
        ),
        wakeup::dispatched::<I>(DispatchState::Starting, DispatchEvent::TurnStarted) == (
            DispatchState::Done,
            NextView::<I>::Nothing,
        ),
{
}

/// A dispatch that is not asked what it gets stays where it is.
pub proof fn law_dispatch_waits<I>(state: DispatchState, event: DispatchEvent<I>)
    ensures
        wakeup::dispatched(state, event).0 != state ==> {
            ||| state == DispatchState::AskingQueue && event is HasWakeups
            ||| state == DispatchState::AskingTurn && event is TurnActive
            ||| state == DispatchState::AskingMailbox && event is HasTriggerItems
            ||| state == DispatchState::Draining && event is Drained
            ||| state == DispatchState::Starting && (event is TurnStarted || event is TurnRefused)
        },
        wakeup::dispatched(state, event).0 == state ==> wakeup::dispatched(state, event).1
            is Nothing,
{
}


/// What is said of a step of a dispatch is what it is.
pub proof fn law_steps_as_made<I>(input: Vec<I>, items: Vec<(i32, I)>)
    ensures
        wakeup::DispatchAction::StartTurn(input)@ == NextView::StartTurn(input@),
        wakeup::DispatchAction::RequeueAndSchedule(items)@ == NextView::RequeueAndSchedule(items@),
        wakeup::DispatchAction::<I>::Schedule@ == NextView::<I>::Schedule,
        wakeup::DispatchAction::<I>::Nothing@ == NextView::<I>::Nothing,
        wakeup::DispatchAction::<I>::AskTurn@ == NextView::<I>::AskTurn,
        wakeup::DispatchAction::<I>::AskMailbox@ == NextView::<I>::AskMailbox,
        wakeup::DispatchAction::<I>::Drain@ == NextView::<I>::Drain,
{
}


/// Keys beyond those that tell items apart are the least.
pub proof fn law_keys_of_very_many_items(index: int)
    requires
        0x8000_0000 <= index < 0x1_0000_0000,
    ensures
        wakeup::requeue_key(index) == -0x8000_0000,
        wakeup::requeue_key(index + 0x1_0000_0000) == wakeup::requeue_key(index),
{
}

} // verus!
