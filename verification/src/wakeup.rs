//! Waking an idle session when a background command has completed.
//!
//! A command's completion is announced once, unless it has been observed otherwise. Announcements are
//! gathered for a short while, and then start a turn together if the session is idle.

use std::time::Duration;

use vstd::prelude::*;

verus! {

/// What is known of a command that may wake the session.
pub struct CompletionWakeState {
    /// The command has gone to the background, so its completion has to be announced.
    pub armed: bool,
    /// The exit code and the time taken, while they wait to be announced.
    pub completed: Option<(i32, Duration)>,
    /// The completion has been seen otherwise.
    pub observed: bool,
}

/// Something that happens to a command.
pub enum WakeEvent {
    Arm,
    Complete(i32, Duration),
    Observe,
}

impl CompletionWakeState {
    /// Nothing has happened to the command yet.
    pub open spec fn initial() -> CompletionWakeState {
        CompletionWakeState { armed: false, completed: None, observed: false }
    }

    /// The state after an event.
    pub open spec fn after(self, event: WakeEvent) -> CompletionWakeState {
        match event {
            WakeEvent::Arm => CompletionWakeState { armed: true, completed: None, ..self },
            WakeEvent::Complete(exit_code, duration) => if self.observed || self.armed {
                self
            } else {
                CompletionWakeState { completed: Some((exit_code, duration)), ..self }
            },
            WakeEvent::Observe => CompletionWakeState { observed: true, ..self },
        }
    }

    /// The completion that is announced at an event, if one is.
    pub open spec fn announced(self, event: WakeEvent) -> Option<(i32, Duration)> {
        match event {
            WakeEvent::Arm => if self.observed {
                None
            } else {
                self.completed
            },
            WakeEvent::Complete(exit_code, duration) => if self.armed && !self.observed {
                Some((exit_code, duration))
            } else {
                None
            },
            WakeEvent::Observe => None,
        }
    }

    /// Nothing has happened to the command yet.
    pub fn new() -> (state: CompletionWakeState)
        ensures
            state == CompletionWakeState::initial(),
    {
        CompletionWakeState { armed: false, completed: None, observed: false }
    }

    /// The command has gone to the background. A completion that waits to be announced is returned.
    pub fn arm(&mut self) -> (announced: Option<(i32, Duration)>)
        ensures
            *final(self) == old(self).after(WakeEvent::Arm),
            announced == old(self).announced(WakeEvent::Arm),
    {
        self.armed = true;
        let completed = self.completed;
        self.completed = None;
        if self.observed {
            None
        } else {
            completed
        }
    }

    /// The command has completed. Whether that has to be announced now is returned; else it waits for
    /// the command to go to the background.
    pub fn complete(&mut self, exit_code: i32, duration: Duration) -> (announce: bool)
        ensures
            *final(self) == old(self).after(WakeEvent::Complete(exit_code, duration)),
            announce == (old(self).announced(WakeEvent::Complete(exit_code, duration)) is Some),
    {
        if self.observed {
            false
        } else if self.armed {
            true
        } else {
            self.completed = Some((exit_code, duration));
            false
        }
    }

    /// The completion has been seen otherwise.
    pub fn observe(&mut self)
        ensures
            *final(self) == old(self).after(WakeEvent::Observe),
    {
        self.observed = true;
    }
}

/// A command that wakes the session when it completes.
pub struct CompletionWakeRegistration<P> {
    pub state: CompletionWakeState,
    pub call_id: String,
    pub process_id: i32,
    pub command: String,
    pub max_output_tokens: Option<usize>,
    pub truncation_policy: P,
}

/// The output of a command, as a tool reports it.
pub struct ExecCommandToolOutput<P> {
    pub event_call_id: String,
    pub chunk_id: String,
    pub wall_time: Duration,
    pub raw_output: Vec<u8>,
    pub truncation_policy: P,
    pub max_output_tokens: Option<usize>,
    pub process_id: Option<i32>,
    pub exit_code: Option<i32>,
    pub original_token_count: Option<usize>,
    /// How many bytes were left out, if any were.
    pub output_omitted_bytes: Option<usize>,
    pub hook_command: Option<String>,
    pub completion_notification: Option<String>,
}

/// The announcement of a completion.
pub struct ExecCommandCompletion {
    pub call_id: String,
    pub process_id: i32,
    pub command: String,
    pub exit_code: i32,
    pub duration: Duration,
    pub output: String,
}

/// How far the announcing of a completion has come.
#[derive(Clone, Copy, Debug, PartialEq, Eq, Structural)]
pub enum EnqueueState {
    /// It is asked whether the session is still there.
    AskingSession,
    /// What is left of the output is being read.
    Draining,
    /// The model's view of the output is being made.
    Rendering,
    /// The announcement is being put into the queue.
    Queueing,
    Done,
}

/// What has come of a step of announcing a completion.
pub enum EnqueueEvent {
    Session(bool),
    /// A new id for the output, the bytes left of it, and how many were left out of them.
    Drained(String, Vec<u8>, usize),
    Rendered(String),
    Queued,
}

/// The next step of announcing a completion.
pub enum EnqueueAction<P> {
    /// Nothing: the event does not belong here, or the announcing is over.
    Nothing,
    Drain,
    Render(ExecCommandToolOutput<P>),
    /// The announcement is to be put into the queue under its key.
    Queue(i32, ExecCommandCompletion),
    /// The process's announcement is to be taken out of the queue again.
    Remove(i32),
    ScheduleWakeup,
}

/// What is to be done once a completion has been put into the queue.
#[derive(Clone, Copy, Debug, PartialEq, Eq, Structural)]
pub enum QueuedFollowUp {
    /// It has been observed meanwhile: take the process's announcement out again.
    Remove(i32),
    /// The session is to be woken.
    ScheduleWakeup,
}

/// What is to be done once the announcement of a process has been put into the queue.
pub open spec fn follow_up(state: CompletionWakeState, process_id: i32) -> QueuedFollowUp {
    if state.observed {
        QueuedFollowUp::Remove(process_id)
    } else {
        QueuedFollowUp::ScheduleWakeup
    }
}

impl<P: Copy> CompletionWakeRegistration<P> {
    /// A command to which nothing has happened yet.
    pub fn new(
        call_id: String,
        process_id: i32,
        command: String,
        max_output_tokens: Option<usize>,
        truncation_policy: P,
    ) -> (registration: Self)
        ensures
            registration == (CompletionWakeRegistration {
                state: CompletionWakeState::initial(),
                call_id,
                process_id,
                command,
                max_output_tokens,
                truncation_policy,
            }),
    {
        CompletionWakeRegistration {
            state: CompletionWakeState::new(),
            call_id,
            process_id,
            command,
            max_output_tokens,
            truncation_policy,
        }
    }

    /// The command has gone to the background. A completion that has to be announced is returned.
    pub fn arm(&mut self) -> (announced: Option<(i32, Duration)>)
        ensures
            *final(self) == (CompletionWakeRegistration {
                state: old(self).state.after(WakeEvent::Arm),
                ..*old(self)
            }),
            announced == old(self).state.announced(WakeEvent::Arm),
    {
        self.state.arm()
    }

    /// The command has completed. Whether that has to be announced now is returned.
    pub fn complete(&mut self, exit_code: i32, duration: Duration) -> (announce: bool)
        ensures
            *final(self) == (CompletionWakeRegistration {
                state: old(self).state.after(WakeEvent::Complete(exit_code, duration)),
                ..*old(self)
            }),
            announce == (old(self).state.announced(
                WakeEvent::Complete(exit_code, duration),
            ) is Some),
    {
        self.state.complete(exit_code, duration)
    }

    /// The completion has been seen otherwise. The process whose announcement is to be taken out of
    /// the queue, where there is a session to do so, is returned.
    pub fn observed(&mut self, has_session: bool) -> (removed: Option<i32>)
        ensures
            *final(self) == (CompletionWakeRegistration {
                state: old(self).state.after(WakeEvent::Observe),
                ..*old(self)
            }),
            removed == if has_session {
                Some(old(self).process_id)
            } else {
                None
            },
    {
        self.state.observe();
        if has_session {
            Some(self.process_id)
        } else {
            None
        }
    }

    /// The output is that of the completed command.
    pub open spec fn reports(
        self,
        output: ExecCommandToolOutput<P>,
        chunk_id: String,
        exit_code: i32,
        duration: Duration,
        raw_output: Vec<u8>,
        omitted_bytes: usize,
    ) -> bool {
        &&& output.event_call_id@ == self.call_id@
        &&& output.chunk_id == chunk_id
        &&& output.wall_time == duration
        &&& output.raw_output == raw_output
        &&& output.truncation_policy == self.truncation_policy
        &&& output.max_output_tokens == self.max_output_tokens
        &&& output.process_id is None
        &&& output.exit_code == Some(exit_code)
        &&& output.original_token_count is None
        &&& output.output_omitted_bytes == if omitted_bytes > 0 {
            Some(omitted_bytes)
        } else {
            None
        }
        &&& output.hook_command is None
        &&& output.completion_notification is None
    }

    /// The output of the completed command, from what was left to read of it.
    pub fn completion_output(
        &self,
        chunk_id: String,
        exit_code: i32,
        duration: Duration,
        raw_output: Vec<u8>,
        omitted_bytes: usize,
    ) -> (output: ExecCommandToolOutput<P>)
        ensures
            self.reports(output, chunk_id, exit_code, duration, raw_output, omitted_bytes),
    {
        ExecCommandToolOutput {
            event_call_id: self.call_id.clone(),
            chunk_id,
            wall_time: duration,
            raw_output,
            truncation_policy: self.truncation_policy,
            max_output_tokens: self.max_output_tokens,
            process_id: None,
            exit_code: Some(exit_code),
            original_token_count: None,
            output_omitted_bytes: if omitted_bytes > 0 {
                Some(omitted_bytes)
            } else {
                None
            },
            hook_command: None,
            completion_notification: None,
        }
    }

    /// The announcement is that of the command's completion.
    pub open spec fn announces(
        self,
        completion: ExecCommandCompletion,
        exit_code: i32,
        duration: Duration,
        output: String,
    ) -> bool {
        &&& completion.call_id@ == self.call_id@
        &&& completion.process_id == self.process_id
        &&& completion.command@ == self.command@
        &&& completion.exit_code == exit_code
        &&& completion.duration == duration
        &&& completion.output == output
    }

    /// The announcement of the completion, with the output as the model sees it. It is queued under
    /// the number of the process.
    pub fn announcement(&self, exit_code: i32, duration: Duration, output: String) -> (r: (
        i32,
        ExecCommandCompletion,
    ))
        ensures
            r.0 == self.process_id,
            self.announces(r.1, exit_code, duration, output),
    {
        (
            self.process_id,
            ExecCommandCompletion {
                call_id: self.call_id.clone(),
                process_id: self.process_id,
                command: self.command.clone(),
                exit_code,
                duration,
                output,
            },
        )
    }

    /// What is to be done once the announcement has been put into the queue.
    pub fn queued(&self) -> (next: QueuedFollowUp)
        ensures
            next == follow_up(self.state, self.process_id),
    {
        if self.state.observed {
            QueuedFollowUp::Remove(self.process_id)
        } else {
            QueuedFollowUp::ScheduleWakeup
        }
    }

    /// What the announcing of a completion does next: where the session is still there, what is left
    /// of the output is read, the model's view of it is made, and the announcement is put into the
    /// queue; only then is it looked at whether the completion has been seen otherwise.
    pub open spec fn enqueued(
        self,
        exit_code: i32,
        duration: Duration,
        state: EnqueueState,
        event: EnqueueEvent,
        next: EnqueueState,
        action: EnqueueAction<P>,
    ) -> bool {
        match (state, event) {
            (EnqueueState::AskingSession, EnqueueEvent::Session(true)) => {
                &&& next == EnqueueState::Draining
                &&& action is Drain
            },
            (EnqueueState::AskingSession, EnqueueEvent::Session(false)) => {
                &&& next == EnqueueState::Done
                &&& action is Nothing
            },
            (
                EnqueueState::Draining,
                EnqueueEvent::Drained(chunk_id, raw_output, omitted_bytes),
            ) => {
                &&& next == EnqueueState::Rendering
                &&& action matches EnqueueAction::Render(output)
                &&& self.reports(output, chunk_id, exit_code, duration, raw_output, omitted_bytes)
            },
            (EnqueueState::Rendering, EnqueueEvent::Rendered(output)) => {
                &&& next == EnqueueState::Queueing
                &&& action matches EnqueueAction::Queue(key, completion)
                &&& key == self.process_id
                &&& self.announces(completion, exit_code, duration, output)
            },
            (EnqueueState::Queueing, EnqueueEvent::Queued) => {
                &&& next == EnqueueState::Done
                &&& match follow_up(self.state, self.process_id) {
                    QueuedFollowUp::Remove(process_id) => action
                        == EnqueueAction::<P>::Remove(process_id),
                    QueuedFollowUp::ScheduleWakeup => action is ScheduleWakeup,
                }
            },
            _ => {
                &&& next == state
                &&& action is Nothing
            },
        }
    }

    /// Takes the announcing of a completion on by one event.
    pub fn enqueue(
        &self,
        exit_code: i32,
        duration: Duration,
        state: EnqueueState,
        event: EnqueueEvent,
    ) -> (r: (EnqueueState, EnqueueAction<P>))
        ensures
            self.enqueued(exit_code, duration, state, event, r.0, r.1),
    {
        match state {
            EnqueueState::AskingSession => match event {
                EnqueueEvent::Session(true) => (EnqueueState::Draining, EnqueueAction::Drain),
                EnqueueEvent::Session(false) => (EnqueueState::Done, EnqueueAction::Nothing),
                _ => (state, EnqueueAction::Nothing),
            },
            EnqueueState::Draining => match event {
                EnqueueEvent::Drained(chunk_id, raw_output, omitted_bytes) => {
                    let output = self.completion_output(
                        chunk_id,
                        exit_code,
                        duration,
                        raw_output,
                        omitted_bytes,
                    );
                    (EnqueueState::Rendering, EnqueueAction::Render(output))
                },
                _ => (state, EnqueueAction::Nothing),
            },
            EnqueueState::Rendering => match event {
                EnqueueEvent::Rendered(output) => {
                    let (key, completion) = self.announcement(exit_code, duration, output);
                    (EnqueueState::Queueing, EnqueueAction::Queue(key, completion))
                },
                _ => (state, EnqueueAction::Nothing),
            },
            EnqueueState::Queueing => match event {
                EnqueueEvent::Queued => match self.queued() {
                    QueuedFollowUp::Remove(process_id) => (
                        EnqueueState::Done,
                        EnqueueAction::Remove(process_id),
                    ),
                    QueuedFollowUp::ScheduleWakeup => (
                        EnqueueState::Done,
                        EnqueueAction::ScheduleWakeup,
                    ),
                },
                _ => (state, EnqueueAction::Nothing),
            },
            EnqueueState::Done => (state, EnqueueAction::Nothing),
        }
    }
}

/// The seconds for which announcements are gathered.
pub const EXEC_WAKEUP_BATCH_WINDOW_SECS: u64 = 5;

/// The timer after which gathered announcements are dispatched.
#[derive(Clone, Copy, Debug, PartialEq, Eq, Structural)]
pub struct ExecWakeupTimer {
    pub running: bool,
}

impl ExecWakeupTimer {
    /// The timer after a dispatch has been asked for.
    pub open spec fn scheduled(self) -> ExecWakeupTimer {
        ExecWakeupTimer { running: true }
    }

    /// The seconds after which a dispatch that is asked for now is to happen, where no timer is
    /// running yet.
    pub open spec fn delay(self) -> Option<u64> {
        if self.running {
            None
        } else {
            Some(EXEC_WAKEUP_BATCH_WINDOW_SECS)
        }
    }

    /// The timer after it has run down.
    pub open spec fn run_down(self) -> ExecWakeupTimer {
        ExecWakeupTimer { running: false }
    }

    /// No timer is running.
    pub fn new() -> (timer: ExecWakeupTimer)
        ensures
            !timer.running,
    {
        ExecWakeupTimer { running: false }
    }

    /// Asks for a dispatch. The seconds after which it is to happen are returned where no timer is
    /// running yet.
    pub fn schedule_exec_wakeup(&mut self) -> (delay: Option<u64>)
        ensures
            *final(self) == old(self).scheduled(),
            delay == old(self).delay(),
    {
        if self.running {
            return None;
        }
        self.running = true;
        Some(EXEC_WAKEUP_BATCH_WINDOW_SECS)
    }

    /// The timer has run down; a dispatch follows.
    pub fn elapsed(&mut self)
        ensures
            *final(self) == old(self).run_down(),
    {
        self.running = false;
    }
}

/// How far a dispatch has come.
#[derive(Clone, Copy, Debug, PartialEq, Eq, Structural)]
pub enum DispatchState {
    /// The queue is asked whether it holds announcements.
    AskingQueue,
    /// The session is asked whether a turn is active.
    AskingTurn,
    /// The queue is asked whether other input is about to start a turn.
    AskingMailbox,
    /// The announcements are being taken out of the queue.
    Draining,
    /// A turn is being started with them.
    Starting,
    Done,
}

/// What has come of a step of a dispatch.
pub enum DispatchEvent<I> {
    HasWakeups(bool),
    TurnActive(bool),
    HasTriggerItems(bool),
    Drained(Vec<I>),
    TurnStarted,
    /// The session was not idle after all; the input is handed back.
    TurnRefused(Vec<I>),
}

/// The next step of a dispatch.
pub enum DispatchAction<I> {
    /// Nothing: the event does not belong here, or the dispatch is over.
    Nothing,
    AskTurn,
    AskMailbox,
    Drain,
    StartTurn(Vec<I>),
    /// Another dispatch is to be asked for.
    Schedule,
    /// The items are to be put back into the queue under their keys, and then another dispatch is to
    /// be asked for.
    RequeueAndSchedule(Vec<(i32, I)>),
}

/// The key under which a refused item goes back into the queue: the least number plus its position, as
/// far as a number of that width can count it.
pub open spec fn requeue_key(index: int) -> int {
    let low = index % 0x1_0000_0000;
    if low < 0x8000_0000 {
        i32::MIN + low
    } else {
        i32::MIN as int
    }
}

/// The items, each with its key.
pub open spec fn requeued<I>(items: Seq<I>) -> Seq<(i32, I)> {
    Seq::new(items.len(), |i: int| (requeue_key(i) as i32, items[i]))
}

/// The key under which a refused item goes back into the queue.
fn key_for(index: usize) -> (key: i32)
    ensures
        key == requeue_key(index as int),
{
    let low: u64 = (index as u64) % 0x1_0000_0000;
    if low < 0x8000_0000 {
        let key: i64 = i32::MIN as i64 + low as i64;
        key as i32
    } else {
        i32::MIN
    }
}

/// Gives each of some refused items its key.
fn requeue<I>(items: Vec<I>) -> (keyed: Vec<(i32, I)>)
    ensures
        keyed@ == requeued(items@),
{
    let ghost all = items@;
    let mut rest = items;
    let mut reversed: Vec<(i32, I)> = Vec::new();
    while rest.len() > 0
        invariant
            rest@ == all.take(rest.len() as int),
            rest.len() + reversed.len() == all.len(),
            forall|i: int|
                0 <= i < reversed.len() ==> #[trigger] reversed@[i] == requeued(all)[all.len() - 1
                    - i],
        decreases rest.len(),
    {
        let index: usize = rest.len() - 1;
        let item = rest.pop();
        if let Some(item) = item {
            reversed.push((key_for(index), item));
        }
        assert(rest@ =~= all.take(rest.len() as int));
    }
    let mut keyed: Vec<(i32, I)> = Vec::new();
    while reversed.len() > 0
        invariant
            keyed@ == requeued(all).take(keyed.len() as int),
            keyed.len() + reversed.len() == all.len(),
            forall|i: int|
                0 <= i < reversed.len() ==> #[trigger] reversed@[i] == requeued(all)[all.len() - 1
                    - i],
        decreases reversed.len(),
    {
        let ghost last = reversed@[reversed.len() - 1];
        let item = reversed.pop();
        if let Some(item) = item {
            keyed.push(item);
        }
        assert(keyed@ =~= requeued(all).take(keyed.len() as int));
    }
    assert(requeued(all).take(all.len() as int) =~= requeued(all));
    keyed
}

/// What a dispatch does next.
pub open spec fn dispatched<I>(state: DispatchState, event: DispatchEvent<I>) -> (
    DispatchState,
    NextView<I>,
) {
    match (state, event) {
        (DispatchState::AskingQueue, DispatchEvent::HasWakeups(true)) => (
            DispatchState::AskingTurn,
            NextView::AskTurn,
        ),
        (DispatchState::AskingQueue, DispatchEvent::HasWakeups(false)) => (
            DispatchState::Done,
            NextView::Nothing,
        ),
        (DispatchState::AskingTurn, DispatchEvent::TurnActive(false)) => (
            DispatchState::AskingMailbox,
            NextView::AskMailbox,
        ),
        (DispatchState::AskingTurn, DispatchEvent::TurnActive(true)) => (
            DispatchState::Done,
            NextView::Schedule,
        ),
        (DispatchState::AskingMailbox, DispatchEvent::HasTriggerItems(false)) => (
            DispatchState::Draining,
            NextView::Drain,
        ),
        (DispatchState::AskingMailbox, DispatchEvent::HasTriggerItems(true)) => (
            DispatchState::Done,
            NextView::Schedule,
        ),
        (DispatchState::Draining, DispatchEvent::Drained(input)) => (
            DispatchState::Starting,
            NextView::StartTurn(input@),
        ),
        (DispatchState::Starting, DispatchEvent::TurnStarted) => (
            DispatchState::Done,
            NextView::Nothing,
        ),
        (DispatchState::Starting, DispatchEvent::TurnRefused(input)) => (
            DispatchState::Done,
            NextView::RequeueAndSchedule(requeued(input@)),
        ),
        _ => (state, NextView::Nothing),
    }
}

/// The next step of a dispatch.
pub enum NextView<I> {
    Nothing,
    AskTurn,
    AskMailbox,
    Drain,
    StartTurn(Seq<I>),
    Schedule,
    RequeueAndSchedule(Seq<(i32, I)>),
}

impl<I> View for DispatchAction<I> {
    type V = NextView<I>;

    open spec fn view(&self) -> NextView<I> {
        match *self {
            DispatchAction::Nothing => NextView::Nothing,
            DispatchAction::AskTurn => NextView::AskTurn,
            DispatchAction::AskMailbox => NextView::AskMailbox,
            DispatchAction::Drain => NextView::Drain,
            DispatchAction::StartTurn(input) => NextView::StartTurn(input@),
            DispatchAction::Schedule => NextView::Schedule,
            DispatchAction::RequeueAndSchedule(items) => NextView::RequeueAndSchedule(items@),
        }
    }
}

/// Takes a dispatch on by one event: announcements start a turn if the session is idle; else they
/// stay in the queue, or go back into it, and another dispatch is asked for.
pub fn dispatch_exec_wakeups<I>(state: DispatchState, event: DispatchEvent<I>) -> (r: (
    DispatchState,
    DispatchAction<I>,
))
    ensures
        (r.0, r.1@) == dispatched(state, event),
{
    match state {
        DispatchState::AskingQueue => match event {
            DispatchEvent::HasWakeups(true) => (DispatchState::AskingTurn, DispatchAction::AskTurn),
            DispatchEvent::HasWakeups(false) => (DispatchState::Done, DispatchAction::Nothing),
            _ => (state, DispatchAction::Nothing),
        },
        DispatchState::AskingTurn => match event {
            DispatchEvent::TurnActive(false) => (
                DispatchState::AskingMailbox,
                DispatchAction::AskMailbox,
            ),
            DispatchEvent::TurnActive(true) => (DispatchState::Done, DispatchAction::Schedule),
            _ => (state, DispatchAction::Nothing),
        },
        DispatchState::AskingMailbox => match event {
            DispatchEvent::HasTriggerItems(false) => (
                DispatchState::Draining,
                DispatchAction::Drain,
            ),
            DispatchEvent::HasTriggerItems(true) => (DispatchState::Done, DispatchAction::Schedule),
            _ => (state, DispatchAction::Nothing),
        },
        DispatchState::Draining => match event {
            DispatchEvent::Drained(input) => (
                DispatchState::Starting,
                DispatchAction::StartTurn(input),
            ),
            _ => (state, DispatchAction::Nothing),
        },
        DispatchState::Starting => match event {
            DispatchEvent::TurnStarted => (DispatchState::Done, DispatchAction::Nothing),
            DispatchEvent::TurnRefused(input) => (
                DispatchState::Done,
                DispatchAction::RequeueAndSchedule(requeue(input)),
            ),
            _ => (state, DispatchAction::Nothing),
        },
        DispatchState::Done => (state, DispatchAction::Nothing),
    }
}


/// The state after some events.
pub open spec fn state_after(events: Seq<WakeEvent>) -> CompletionWakeState
    decreases events.len(),
{
    if events.len() == 0 {
        CompletionWakeState::initial()
    } else {
        state_after(events.drop_last()).after(events.last())
    }
}

/// The completions announced in the course of some events.
pub open spec fn announcements(events: Seq<WakeEvent>) -> Seq<(i32, Duration)>
    decreases events.len(),
{
    if events.len() == 0 {
        Seq::empty()
    } else {
        let before = announcements(events.drop_last());
        match state_after(events.drop_last()).announced(events.last()) {
            Some(completion) => before.push(completion),
            None => before,
        }
    }
}

/// The completions among some events.
pub open spec fn completions(events: Seq<WakeEvent>) -> Seq<(i32, Duration)>
    decreases events.len(),
{
    if events.len() == 0 {
        Seq::empty()
    } else {
        let before = completions(events.drop_last());
        match events.last() {
            WakeEvent::Complete(exit_code, duration) => before.push((exit_code, duration)),
            _ => before,
        }
    }
}

/// The command went to the background in the course of some events.
pub open spec fn has_armed(events: Seq<WakeEvent>) -> bool {
    exists|i: int| 0 <= i < events.len() && #[trigger] events[i] is Arm
}

/// The completion was seen otherwise in the course of some events.
pub open spec fn has_observed(events: Seq<WakeEvent>) -> bool {
    exists|i: int| 0 <= i < events.len() && #[trigger] events[i] is Observe
}

/// What the events leave of the flags.
proof fn lemma_flags(events: Seq<WakeEvent>)
    ensures
        state_after(events).armed == has_armed(events),
        state_after(events).observed == has_observed(events),
    decreases events.len(),
{
    if events.len() > 0 {
        let before = events.drop_last();
        lemma_flags(before);
        if has_armed(before) {
            let i = choose|i: int| 0 <= i < before.len() && #[trigger] before[i] is Arm;
            assert(events[i] is Arm);
        }
        if has_observed(before) {
            let i = choose|i: int| 0 <= i < before.len() && #[trigger] before[i] is Observe;
            assert(events[i] is Observe);
        }
        if has_armed(events) && !(events.last() is Arm) {
            let i = choose|i: int| 0 <= i < events.len() && #[trigger] events[i] is Arm;
            assert(before[i] is Arm);
        }
        if has_observed(events) && !(events.last() is Observe) {
            let i = choose|i: int| 0 <= i < events.len() && #[trigger] events[i] is Observe;
            assert(before[i] is Observe);
        }
        assert(events.last() == events[events.len() - 1]);
    }
}

/// No completion is announced twice: whatever happens, there are at most as many announcements as
/// completions.
pub proof fn law_announced_at_most_once(events: Seq<WakeEvent>)
    ensures
        announcements(events).len() <= completions(events).len(),
        state_after(events).completed is Some ==> announcements(events).len() < completions(
            events,
        ).len(),
    decreases events.len(),
{
    if events.len() > 0 {
        law_announced_at_most_once(events.drop_last());
    }
}

/// Once a completion has been seen otherwise, nothing is announced any more.
pub proof fn law_silent_once_observed(events: Seq<WakeEvent>, event: WakeEvent)
    requires
        has_observed(events),
    ensures
        announcements(events.push(event)) == announcements(events),
{
    lemma_flags(events);
    assert(events.push(event).drop_last() =~= events);
}

/// The one completion of a command that goes to the background is announced exactly once, whichever
/// of the two comes first, unless it is seen otherwise; until the command goes to the background it
/// is kept and not announced.
pub proof fn law_completion_is_announced(events: Seq<WakeEvent>)
    requires
        completions(events).len() == 1,
        !has_observed(events),
    ensures
        has_armed(events) ==> announcements(events) == completions(events),
        !has_armed(events) ==> announcements(events).len() == 0 && state_after(events).completed
            == Some(completions(events)[0]),
    decreases events.len(),
{
    let before = events.drop_last();
    lemma_flags(events);
    lemma_flags(before);
    if has_observed(before) {
        let i = choose|i: int| 0 <= i < before.len() && #[trigger] before[i] is Observe;
        assert(events[i] is Observe);
    }
    assert(events.last() == events[events.len() - 1]);
    if events.last() is Complete {
        lemma_nothing_completed(before);
        assert(completions(events) =~= seq![completions(events)[0]]);
        assert(announcements(before) =~= Seq::empty());
        if has_armed(events) {
            assert(announcements(events) =~= completions(events));
        }
    } else {
        law_completion_is_announced(before);
        if has_armed(before) {
            lemma_nothing_waits(before);
        } else if events.last() is Arm {
            assert(announcements(before) =~= Seq::empty());
            assert(announcements(events) =~= completions(events));
        }
    }
}

/// Nothing is announced, and nothing waits to be, before a completion.
proof fn lemma_nothing_completed(events: Seq<WakeEvent>)
    requires
        completions(events).len() == 0,
    ensures
        announcements(events).len() == 0,
        state_after(events).completed is None,
    decreases events.len(),
{
    if events.len() > 0 {
        lemma_nothing_completed(events.drop_last());
    }
}

/// Nothing waits to be announced once the command has gone to the background.
proof fn lemma_nothing_waits(events: Seq<WakeEvent>)
    requires
        has_armed(events),
    ensures
        state_after(events).completed is None,
    decreases events.len(),
{
    let before = events.drop_last();
    assert(events.last() == events[events.len() - 1]);
    if !(events.last() is Arm) {
        let i = choose|i: int| 0 <= i < events.len() && #[trigger] events[i] is Arm;
        assert(before[i] is Arm);
        lemma_flags(before);
        lemma_nothing_waits(before);
    }
}

/// How far the seeing of a completion otherwise has come.
#[derive(Clone, Copy, Debug, PartialEq, Eq, Structural)]
pub enum ObserverState {
    NotYet,
    /// The completion is marked as seen; its announcement has still to be taken out of the queue.
    Marked,
    Finished,
}

/// A completion that is being announced and seen otherwise at the same time.
pub struct Race<P> {
    pub registration: CompletionWakeRegistration<P>,
    pub completion: (i32, Duration),
    pub announcing: EnqueueState,
    /// The step of announcing that is to be carried out.
    pub pending: EnqueueAction<P>,
    pub observing: ObserverState,
    /// Whether the announcement is in the queue.
    pub queued: bool,
}

/// What happens next in a race.
pub enum RaceStep {
    /// The announcing is taken on by an event.
    Announce(EnqueueEvent),
    /// The pending step of announcing is carried out.
    CarryOut,
    /// `CompletionWakeRegistration::observed` marks the completion as seen.
    Mark,
    /// The announcement is taken out of the queue, as `CompletionWakeRegistration::observed` says.
    TakeOut,
}

impl<P: Copy> Race<P> {
    /// Neither side has done anything yet.
    pub open spec fn is_start(self) -> bool {
        &&& self.announcing == EnqueueState::AskingSession
        &&& self.pending is Nothing
        &&& self.observing == ObserverState::NotYet
        &&& !self.queued
    }

    /// Both sides are done.
    pub open spec fn is_over(self) -> bool {
        &&& self.announcing == EnqueueState::Done
        &&& self.pending is Nothing
        &&& self.observing == ObserverState::Finished
    }

    /// A step leads from this state to another one.
    pub open spec fn leads_to(self, step: RaceStep, after: Self) -> bool {
        match step {
            RaceStep::Announce(event) => {
                &&& self.pending is Nothing
                &&& self.registration.enqueued(
                    self.completion.0,
                    self.completion.1,
                    self.announcing,
                    event,
                    after.announcing,
                    after.pending,
                )
                &&& after == (Race {
                    announcing: after.announcing,
                    pending: after.pending,
                    ..self
                })
            },
            RaceStep::CarryOut => after == (Race {
                pending: EnqueueAction::Nothing,
                queued: match self.pending {
                    EnqueueAction::Queue(_, _) => true,
                    EnqueueAction::Remove(_) => false,
                    _ => self.queued,
                },
                ..self
            }),
            RaceStep::Mark => {
                &&& self.observing == ObserverState::NotYet
                &&& after == (Race {
                    registration: CompletionWakeRegistration {
                        state: self.registration.state.after(WakeEvent::Observe),
                        ..self.registration
                    },
                    observing: ObserverState::Marked,
                    ..self
                })
            },
            RaceStep::TakeOut => {
                &&& self.observing == ObserverState::Marked
                &&& after == (Race {
                    observing: ObserverState::Finished,
                    queued: false,
                    ..self
                })
            },
        }
    }

    /// What holds however the steps of the two sides fall.
    spec fn consistent(self) -> bool {
        &&& self.observing != ObserverState::NotYet ==> self.registration.state.observed
        &&& match self.announcing {
            EnqueueState::Queueing => self.pending is Nothing || self.pending is Queue,
            EnqueueState::Done => !(self.pending is Queue) && (self.observing
                == ObserverState::Finished && !(self.pending is Remove) ==> !self.queued),
            _ => !self.queued && !(self.pending is Queue) && !(self.pending is Remove),
        }
    }
}

/// A completion that is announced and seen otherwise at the same time does not stay in the queue: in
/// whichever order the steps of the two fall, the announcement is gone in the end.
pub proof fn law_observed_is_not_left_queued<P: Copy>(states: Seq<Race<P>>, steps: Seq<RaceStep>)
    requires
        states.len() == steps.len() + 1,
        states[0].is_start(),
        forall|k: int|
            0 <= k < steps.len() ==> (#[trigger] states[k]).leads_to(steps[k], states[k + 1]),
        states.last().is_over(),
    ensures
        !states.last().queued,
{
    lemma_race_consistent(states, steps);
}

/// Every state of a race is consistent.
proof fn lemma_race_consistent<P: Copy>(states: Seq<Race<P>>, steps: Seq<RaceStep>)
    requires
        states.len() == steps.len() + 1,
        states[0].is_start(),
        forall|k: int|
            0 <= k < steps.len() ==> (#[trigger] states[k]).leads_to(steps[k], states[k + 1]),
    ensures
        states.last().consistent(),
    decreases steps.len(),
{
    if steps.len() > 0 {
        let n = steps.len() - 1;
        assert forall|k: int| 0 <= k < n implies (#[trigger] states.drop_last()[k]).leads_to(
            steps.drop_last()[k],
            states.drop_last()[k + 1],
        ) by {
            assert(states[k].leads_to(steps[k], states[k + 1]));
        }
        lemma_race_consistent(states.drop_last(), steps.drop_last());
        assert(states[n].leads_to(steps[n], states[n + 1]));
    }
}

/// A completion that is not seen otherwise, in a session that is still there, is in the queue once its
/// announcing is over.
pub proof fn law_unobserved_is_queued<P: Copy>(states: Seq<Race<P>>, steps: Seq<RaceStep>)
    requires
        states.len() == steps.len() + 1,
        states[0].is_start(),
        !states[0].registration.state.observed,
        forall|k: int|
            0 <= k < steps.len() ==> (#[trigger] states[k]).leads_to(steps[k], states[k + 1]),
        forall|k: int|
            0 <= k < steps.len() ==> !(#[trigger] steps[k] is Mark) && steps[k]
                != RaceStep::Announce(EnqueueEvent::Session(false)),
    ensures
        states.last().announcing == EnqueueState::Done ==> states.last().queued,
        states.last().announcing == EnqueueState::Queueing && states.last().pending is Nothing
            ==> states.last().queued,
        !(states.last().pending is Remove),
        states.last().pending is Queue ==> states.last().announcing == EnqueueState::Queueing,
        !states.last().registration.state.observed,
        states.last().observing == ObserverState::NotYet,
        states.last().announcing == EnqueueState::Queueing ==> states.last().pending is Nothing
            || states.last().pending is Queue,
    decreases steps.len(),
{
    if steps.len() > 0 {
        let n = steps.len() - 1;
        assert forall|k: int| 0 <= k < n implies (#[trigger] states.drop_last()[k]).leads_to(
            steps.drop_last()[k],
            states.drop_last()[k + 1],
        ) by {
            assert(states[k].leads_to(steps[k], states[k + 1]));
        }
        assert forall|k: int| 0 <= k < n implies !(#[trigger] steps.drop_last()[k] is Mark)
            && steps.drop_last()[k] != RaceStep::Announce(EnqueueEvent::Session(false)) by {
            assert(!(steps[k] is Mark));
        }
        law_unobserved_is_queued(states.drop_last(), steps.drop_last());
        assert(states[n].leads_to(steps[n], states[n + 1]));
        assert(!(steps[n] is Mark));
    }
}

/// What happens to the timer.
pub enum TimerEvent {
    Schedule,
    Elapse,
}

/// The timer after some events, and how many timers are pending: those that were started and have
/// not run down.
pub open spec fn timers_after(events: Seq<TimerEvent>) -> (ExecWakeupTimer, int)
    decreases events.len(),
{
    if events.len() == 0 {
        (ExecWakeupTimer { running: false }, 0)
    } else {
        let (timer, pending) = timers_after(events.drop_last());
        match events.last() {
            TimerEvent::Schedule => (
                timer.scheduled(),
                if timer.delay() is Some {
                    pending + 1
                } else {
                    pending
                },
            ),
            TimerEvent::Elapse => (timer.run_down(), pending - 1),
        }
    }
}

/// Each timer that runs down is one that was pending.
pub open spec fn timers_consistent(events: Seq<TimerEvent>) -> bool {
    forall|i: int|
        0 <= i < events.len() && #[trigger] events[i] is Elapse ==> timers_after(events.take(i)).1 > 0
}

/// However often dispatches are asked for, at most one timer is pending, and exactly one where the
/// flag says so.
pub proof fn law_one_timer(events: Seq<TimerEvent>)
    requires
        timers_consistent(events),
    ensures
        timers_after(events).1 == if timers_after(events).0.running {
            1int
        } else {
            0int
        },
    decreases events.len(),
{
    if events.len() > 0 {
        let before = events.drop_last();
        assert forall|i: int| 0 <= i < before.len() && #[trigger] before[i] is Elapse implies timers_after(
            before.take(i),
        ).1 > 0 by {
            assert(events[i] is Elapse);
            assert(before.take(i) =~= events.take(i));
        }
        law_one_timer(before);
        assert(events.take(events.len() - 1) =~= before);
        assert(events.last() == events[events.len() - 1]);
    }
}

/// Refused items go back in their order: up to the number of items that the keys can tell apart, a
/// later item has a greater key, and every key is below those of processes, which are not negative.
pub proof fn law_requeue_keeps_order(i: int, j: int)
    requires
        0 <= i < j < 0x8000_0000,
    ensures
        requeue_key(i) < requeue_key(j) < 0,
{
}

/// A dispatch starts a turn only with what the queue held, and only where no turn is active and no
/// other input is about to start one.
pub proof fn law_turn_needs_idle_session<I>(
    has_wakeups: bool,
    turn_active: bool,
    has_trigger_items: bool,
    input: Vec<I>,
)
    ensures
        ({
            let (s1, _) = dispatched::<I>(
                DispatchState::AskingQueue,
                DispatchEvent::HasWakeups(has_wakeups),
            );
            let (s2, _) = dispatched::<I>(s1, DispatchEvent::TurnActive(turn_active));
            let (s3, _) = dispatched::<I>(s2, DispatchEvent::HasTriggerItems(has_trigger_items));
            let (_, action) = dispatched(s3, DispatchEvent::Drained(input));
            action == if has_wakeups && !turn_active && !has_trigger_items {
                NextView::StartTurn(input@)
            } else {
                NextView::Nothing
            }
        }),
{
}

} // verus!
