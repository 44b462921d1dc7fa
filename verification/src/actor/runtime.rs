//! Actor configuration, deadlines, and the decisions of an actor's run loop.
//!
//! The run loop waits for one event at a time, in this order of priority: the stop lane, the
//! system channel, finished restart attempts, deaths of children, finished forwarders, the
//! mailbox. Each event is handed to [`RunState::advance`], which says what the loop does next.

use vstd::prelude::*;
use crate::actor::supervision::{default_budget, SupervisionConfig};
use crate::error::ActorError;
use crate::time::{Duration, Instant};
use crate::types::{ActorStatus, RestartStrategy, StopReason};

verus! {

// ---------------------------------------------------------------------------
// Configuration
// ---------------------------------------------------------------------------

/// Configuration for the actor's mailbox.
#[derive(Debug, Clone, Copy, PartialEq, Eq, Structural)]
pub struct MailboxConfig {
    /// The maximum number of messages the mailbox can hold.
    pub capacity: usize,
}

impl Default for MailboxConfig {
    fn default() -> (config: Self)
        ensures
            config.capacity == 64,
    {
        MailboxConfig { capacity: 64 }
    }
}

impl MailboxConfig {
    /// Sets the mailbox capacity.
    pub fn with_capacity(self, capacity: usize) -> (config: Self)
        ensures
            config.capacity == capacity,
    {
        MailboxConfig { capacity }
    }
}

/// Configuration for spawning an actor.
#[derive(Debug)]
pub struct ActorConfig {
    /// Mailbox configuration.
    pub mailbox: MailboxConfig,
    /// Supervision configuration. `Some` if this actor is a supervisor.
    pub supervision: Option<SupervisionConfig>,
}

impl Clone for ActorConfig {
    fn clone(&self) -> (copy: Self)
        ensures
            copy == *self,
    {
        ActorConfig {
            mailbox: self.mailbox,
            supervision: match &self.supervision {
                Some(config) => Some(config.clone()),
                None => None,
            },
        }
    }
}

impl Default for ActorConfig {
    fn default() -> (config: Self)
        ensures
            config.mailbox.capacity == 64,
            config.supervision is None,
    {
        ActorConfig { mailbox: MailboxConfig::default(), supervision: None }
    }
}

impl<'a> From<&'a ActorConfig> for ActorConfig {
    fn from(value: &'a ActorConfig) -> (config: Self) {
        value.clone()
    }
}

impl<'a> vstd::std_specs::convert::FromSpecImpl<&'a ActorConfig> for ActorConfig {
    open spec fn obeys_from_spec() -> bool {
        true
    }

    open spec fn from_spec(value: &'a ActorConfig) -> Self {
        *value
    }
}

impl ActorConfig {
    /// Sets the mailbox capacity.
    pub fn with_mailbox_capacity(self, capacity: usize) -> (config: Self)
        ensures
            config == (ActorConfig { mailbox: MailboxConfig { capacity }, ..self }),
    {
        ActorConfig { mailbox: MailboxConfig { capacity }, ..self }
    }

    /// Sets the complete mailbox configuration.
    pub fn with_mailbox(self, mailbox: MailboxConfig) -> (config: Self)
        ensures
            config == (ActorConfig { mailbox, ..self }),
    {
        ActorConfig { mailbox, ..self }
    }

    /// Makes the actor a supervisor with the default configuration (OneForOne, 3 restarts within
    /// 5 seconds).
    pub fn supervisor(self) -> (config: Self)
        ensures
            config == (ActorConfig {
                supervision: Some(default_budget(RestartStrategy::OneForOne)),
                ..self
            }),
    {
        ActorConfig { supervision: Some(SupervisionConfig::default()), ..self }
    }

    /// Makes the actor a supervisor with a custom configuration.
    pub fn with_supervision(self, config: SupervisionConfig) -> (made: Self)
        ensures
            made == (ActorConfig { supervision: Some(config), ..self }),
    {
        ActorConfig { supervision: Some(config), ..self }
    }
}

// ---------------------------------------------------------------------------
// Deadlines
// ---------------------------------------------------------------------------

/// The point `span` after `base`, or the furthest representable point where that lies beyond it.
pub open spec fn deadline_after(base: Instant, span: Duration) -> Instant {
    if base.nanos + span.nanos <= u128::MAX {
        Instant { nanos: (base.nanos + span.nanos) as u128 }
    } else {
        Instant { nanos: u128::MAX }
    }
}

/// Adds `dur` to `base`, saturating at the furthest representable instant where the sum would
/// overflow. A saturated deadline is far enough in the future that it never fires.
pub fn saturating_deadline(base: Instant, dur: Duration) -> (deadline: Instant)
    ensures
        deadline == deadline_after(base, dur),
{
    match base.checked_add(dur) {
        Some(deadline) => deadline,
        None => Instant { nanos: u128::MAX },
    }
}

/// A deadline lies exactly the given time after its base, as far as the clock reaches, and at the end
/// of the clock beyond that; deadlines one after the other add up.
pub proof fn deadlines_are_exact(base: Instant, first: Duration, second: Duration)
    ensures
        base.nanos + first.nanos <= u128::MAX ==> deadline_after(base, first).nanos - base.nanos
            == first.nanos,
        base.nanos + first.nanos > u128::MAX ==> deadline_after(base, first).nanos == u128::MAX,
        first.nanos + second.nanos <= u128::MAX ==> deadline_after(
            deadline_after(base, first),
            second,
        ) == deadline_after(base, Duration { nanos: (first.nanos + second.nanos) as u128 }),
{
}

/// A deadline never lies before its base, and a longer wait never ends sooner.
pub proof fn deadlines_are_monotone(base: Instant, short: Duration, long: Duration)
    requires
        short.nanos <= long.nanos,
    ensures
        base.nanos <= deadline_after(base, short).nanos <= deadline_after(base, long).nanos,
{
}

// ---------------------------------------------------------------------------
// Run loop
// ---------------------------------------------------------------------------

/// How a callback of the actor ended that may fail.
#[derive(Debug)]
pub enum CallbackOutcome {
    /// It returned `Ok`.
    Done,
    /// It returned `Err`.
    Failed(ActorError),
    /// It panicked with the given message.
    Panicked(String),
}

/// What `pre_stop` had to say.
#[derive(Debug)]
pub enum PreStopOutcome {
    /// The actor may be stopped.
    Allowed,
    /// The actor rejects the stop.
    Vetoed,
    /// It panicked with the given message.
    Panicked(String),
}

/// The error that a callback ended with, if any. A panic is an error like one that is returned.
pub open spec fn callback_error(outcome: CallbackOutcome) -> Option<ActorError> {
    match outcome {
        CallbackOutcome::Done => None,
        CallbackOutcome::Failed(err) => Some(err),
        CallbackOutcome::Panicked(message) => Some(ActorError::Panic(message)),
    }
}

impl CallbackOutcome {
    /// The error that the callback ended with, if any.
    pub fn into_error(self) -> (err: Option<ActorError>)
        ensures
            err == callback_error(self),
    {
        match self {
            CallbackOutcome::Done => None,
            CallbackOutcome::Failed(err) => Some(err),
            CallbackOutcome::Panicked(message) => Some(ActorError::Panic(message)),
        }
    }
}

/// Where an actor is in its life.
#[derive(Debug)]
pub enum RunState {
    /// `pre_start` runs.
    PreStart,
    /// `on_started` runs.
    OnStarted,
    /// The message loop waits for an event.
    Looping,
    /// `pre_stop` runs for a stop with the given reason.
    Asking(StopReason),
    /// `on_stopped` runs for a stop with the given reason.
    Cleaning(StopReason),
    /// The actor stops for the given reason, and its children are being brought down.
    Closing {
        /// Why it stops.
        reason: StopReason,
        /// The error that its initialization failed with, if it did.
        init_error: Option<ActorError>,
    },
    /// The actor has stopped for the given reason.
    Ended(StopReason),
}

/// What the run loop learns.
#[derive(Debug)]
pub enum RunEvent {
    /// The running one of `pre_start`, `on_started` and `on_stopped` ended.
    Returned(CallbackOutcome),
    /// `pre_stop` ended.
    Answered(PreStopOutcome),
    /// The stop lane changed, and holds the given request.
    LaneChanged(Option<StopReason>),
    /// The stop lane, the system channel or the mailbox is closed: nobody can reach the actor.
    Unreachable,
    /// A status snapshot was requested.
    StatusRequested,
    /// A message or an event of the children was handled; the actor stops if a reason is given.
    Handled(Option<StopReason>),
    /// Every child was brought down, or dropped.
    ChildrenGone,
}

/// What the run loop does next.
#[derive(Debug)]
pub enum RunAction {
    /// Call `on_started`.
    CallOnStarted,
    /// Publish the given status.
    SetStatus(ActorStatus),
    /// Tell whoever spawned the actor that it is initialized.
    AckSuccess,
    /// Keep the given error as the actor's last one.
    RecordFailure(ActorError),
    /// Wait for the next event.
    NextEvent,
    /// Answer the request for a status snapshot.
    ReplyStatus,
    /// Ask `pre_stop` about a stop with the given reason.
    CallPreStop(StopReason),
    /// Call `on_stopped` with the given reason.
    CallOnStopped(StopReason),
    /// Close the system channel and the stop lane.
    CloseIntake,
    /// Stop the children, each as its shutdown policy says, and wait for them.
    StopChildren,
    /// Drop everything about the children at once, which kills them.
    DropChildren,
    /// Free the actor's name and registration.
    Unregister,
    /// Tell whoever spawned the actor that its initialization failed.
    AckFailure(ActorError),
    /// End the task with the given reason.
    Exit(StopReason),
}

/// Where an actor is after an event, and what it does.
pub struct RunStep {
    /// Where it is.
    pub state: RunState,
    /// What it does, in this order.
    pub actions: Seq<RunAction>,
}

/// How an actor begins to bring its children down, having stopped for the given reason.
pub open spec fn closing(reason: StopReason, init_error: Option<ActorError>) -> RunStep {
    RunStep {
        actions: seq![
            RunAction::CloseIntake,
            if reason is Kill {
                RunAction::DropChildren
            } else {
                RunAction::StopChildren
            },
        ],
        state: RunState::Closing { reason, init_error },
    }
}

/// How an actor leaves its message loop for the given reason: a killed one skips `on_stopped`.
pub open spec fn leaving(reason: StopReason) -> RunStep {
    if reason is Kill {
        closing(reason, None)
    } else {
        RunStep {
            state: RunState::Cleaning(reason),
            actions: seq![
                RunAction::SetStatus(ActorStatus::Stopping),
                RunAction::CallOnStopped(reason),
            ],
        }
    }
}

/// How an actor goes on with its message loop.
pub open spec fn looping() -> RunStep {
    RunStep { state: RunState::Looping, actions: seq![RunAction::NextEvent] }
}

/// How an actor stops whose initialization failed: it never enters its message loop, and
/// `on_stopped` is not called.
pub open spec fn init_failed(err: ActorError) -> RunStep {
    let close = closing(StopReason::Failure(err), Some(err));
    RunStep { actions: seq![RunAction::RecordFailure(err)] + close.actions, ..close }
}

/// The reason for which an actor has stopped once `on_stopped` has ended: an error that it returns
/// is the reason, a panic is so only where it does not mask a failure.
pub open spec fn reason_after_cleanup(
    reason: StopReason,
    outcome: CallbackOutcome,
) -> StopReason {
    match outcome {
        CallbackOutcome::Done => reason,
        CallbackOutcome::Failed(err) => StopReason::Failure(err),
        CallbackOutcome::Panicked(message) => if reason is Failure {
            reason
        } else {
            StopReason::Failure(ActorError::Panic(message))
        },
    }
}

/// What an actor does about an event. An event that it does not wait for changes nothing.
pub open spec fn advanced(state: RunState, event: RunEvent) -> RunStep {
    match (state, event) {
        (RunState::PreStart, RunEvent::Returned(outcome)) => match callback_error(outcome) {
            Some(err) => init_failed(err),
            None => RunStep {
                state: RunState::OnStarted,
                actions: seq![RunAction::CallOnStarted],
            },
        },
        (RunState::OnStarted, RunEvent::Returned(outcome)) => match callback_error(outcome) {
            Some(err) => init_failed(err),
            None => RunStep {
                state: RunState::Looping,
                actions: seq![
                    RunAction::SetStatus(ActorStatus::Running),
                    RunAction::AckSuccess,
                    RunAction::NextEvent,
                ],
            },
        },
        (RunState::Looping, RunEvent::LaneChanged(None)) => looping(),
        (RunState::Looping, RunEvent::LaneChanged(Some(reason))) => if reason is Graceful
            || reason is ParentRequest {
            RunStep {
                state: RunState::Asking(reason),
                actions: seq![RunAction::CallPreStop(reason)],
            }
        } else {
            leaving(reason)
        },
        (RunState::Looping, RunEvent::Unreachable) => leaving(StopReason::Graceful),
        (RunState::Looping, RunEvent::StatusRequested) => RunStep {
            state: RunState::Looping,
            actions: seq![RunAction::ReplyStatus, RunAction::NextEvent],
        },
        (RunState::Looping, RunEvent::Handled(None)) => looping(),
        (RunState::Looping, RunEvent::Handled(Some(reason))) => leaving(reason),
        (RunState::Asking(reason), RunEvent::Answered(PreStopOutcome::Allowed)) => leaving(reason),
        (RunState::Asking(_), RunEvent::Answered(PreStopOutcome::Vetoed)) => looping(),
        (RunState::Asking(_), RunEvent::Answered(PreStopOutcome::Panicked(message))) => leaving(
            StopReason::Failure(ActorError::Panic(message)),
        ),
        (RunState::Cleaning(reason), RunEvent::Returned(outcome)) => {
            let close = closing(reason_after_cleanup(reason, outcome), None);
            match outcome {
                CallbackOutcome::Panicked(message) => RunStep {
                    actions: seq![RunAction::RecordFailure(ActorError::Panic(message))]
                        + close.actions,
                    ..close
                },
                _ => close,
            }
        },
        (RunState::Closing { reason, init_error }, RunEvent::ChildrenGone) => RunStep {
            state: RunState::Ended(reason),
            actions: match init_error {
                Some(err) => seq![
                    RunAction::Unregister,
                    RunAction::SetStatus(ActorStatus::Stopped),
                    RunAction::AckFailure(err),
                    RunAction::Exit(reason),
                ],
                None => seq![
                    RunAction::Unregister,
                    RunAction::SetStatus(ActorStatus::Stopped),
                    RunAction::Exit(reason),
                ],
            },
        },
        (other, _) => RunStep { state: other, actions: Seq::empty() },
    }
}

/// Whether a state and a list of actions are those of a step.
pub open spec fn is_step(made: (RunState, Vec<RunAction>), step: RunStep) -> bool {
    made.0 == step.state && made.1@ == step.actions
}

/// How an actor begins to bring its children down.
fn close(reason: StopReason, init_error: Option<ActorError>) -> (made: (RunState, Vec<RunAction>))
    ensures
        is_step(made, closing(reason, init_error)),
{
    let mut actions: Vec<RunAction> = Vec::new();
    actions.push(RunAction::CloseIntake);
    if matches!(reason, StopReason::Kill) {
        actions.push(RunAction::DropChildren);
    } else {
        actions.push(RunAction::StopChildren);
    }
    assert(actions@ =~= closing(reason, init_error).actions);
    (RunState::Closing { reason, init_error }, actions)
}

/// How an actor begins to bring its children down, after the given error was kept.
fn close_recorded(err: ActorError, reason: StopReason, init_error: Option<ActorError>) -> (made: (
    RunState,
    Vec<RunAction>,
))
    ensures
        made.0 == closing(reason, init_error).state,
        made.1@ == seq![RunAction::RecordFailure(err)] + closing(reason, init_error).actions,
{
    let mut actions: Vec<RunAction> = Vec::new();
    actions.push(RunAction::RecordFailure(err));
    let (state, mut rest) = close(reason, init_error);
    actions.append(&mut rest);
    assert(actions@ =~= seq![RunAction::RecordFailure(err)] + closing(reason, init_error).actions);
    (state, actions)
}

/// How an actor leaves its message loop for the given reason.
fn leave(reason: StopReason) -> (made: (RunState, Vec<RunAction>))
    ensures
        is_step(made, leaving(reason)),
{
    if matches!(reason, StopReason::Kill) {
        return close(reason, None);
    }
    let mut actions: Vec<RunAction> = Vec::new();
    actions.push(RunAction::SetStatus(ActorStatus::Stopping));
    actions.push(RunAction::CallOnStopped(reason.clone()));
    assert(actions@ =~= leaving(reason).actions);
    (RunState::Cleaning(reason), actions)
}

/// How an actor goes on with its message loop.
fn proceed() -> (made: (RunState, Vec<RunAction>))
    ensures
        is_step(made, looping()),
{
    let mut actions: Vec<RunAction> = Vec::new();
    actions.push(RunAction::NextEvent);
    assert(actions@ =~= looping().actions);
    (RunState::Looping, actions)
}

impl RunState {
    /// What the actor does about an event, and where it is then.
    pub fn advance(self, event: RunEvent) -> (made: (RunState, Vec<RunAction>))
        ensures
            is_step(made, advanced(self, event)),
    {
        let mut actions: Vec<RunAction> = Vec::new();
        match (self, event) {
            (RunState::PreStart, RunEvent::Returned(outcome)) => match outcome.into_error() {
                Some(err) => {
                    close_recorded(err.clone(), StopReason::Failure(err.clone()), Some(err))
                },
                None => {
                    actions.push(RunAction::CallOnStarted);
                    assert(actions@ =~= advanced(self, event).actions);
                    (RunState::OnStarted, actions)
                },
            },
            (RunState::OnStarted, RunEvent::Returned(outcome)) => match outcome.into_error() {
                Some(err) => {
                    close_recorded(err.clone(), StopReason::Failure(err.clone()), Some(err))
                },
                None => {
                    actions.push(RunAction::SetStatus(ActorStatus::Running));
                    actions.push(RunAction::AckSuccess);
                    actions.push(RunAction::NextEvent);
                    assert(actions@ =~= advanced(self, event).actions);
                    (RunState::Looping, actions)
                },
            },
            (RunState::Looping, RunEvent::LaneChanged(None)) => proceed(),
            (RunState::Looping, RunEvent::LaneChanged(Some(reason))) => match reason {
                StopReason::Graceful | StopReason::ParentRequest => {
                    actions.push(RunAction::CallPreStop(reason.clone()));
                    assert(actions@ =~= advanced(self, event).actions);
                    (RunState::Asking(reason), actions)
                },
                _ => leave(reason),
            },
            (RunState::Looping, RunEvent::Unreachable) => leave(StopReason::Graceful),
            (RunState::Looping, RunEvent::StatusRequested) => {
                actions.push(RunAction::ReplyStatus);
                actions.push(RunAction::NextEvent);
                assert(actions@ =~= advanced(self, event).actions);
                (RunState::Looping, actions)
            },
            (RunState::Looping, RunEvent::Handled(None)) => proceed(),
            (RunState::Looping, RunEvent::Handled(Some(reason))) => leave(reason),
            (RunState::Asking(reason), RunEvent::Answered(outcome)) => match outcome {
                PreStopOutcome::Allowed => leave(reason),
                PreStopOutcome::Vetoed => proceed(),
                PreStopOutcome::Panicked(message) => {
                    leave(StopReason::Failure(ActorError::Panic(message)))
                },
            },
            (RunState::Cleaning(reason), RunEvent::Returned(outcome)) => match outcome {
                CallbackOutcome::Done => close(reason, None),
                CallbackOutcome::Failed(err) => close(StopReason::Failure(err), None),
                CallbackOutcome::Panicked(message) => {
                    let err: ActorError = ActorError::Panic(message);
                    let kept: StopReason = match reason {
                        StopReason::Failure(first) => StopReason::Failure(first),
                        _ => StopReason::Failure(err.clone()),
                    };
                    close_recorded(err, kept, None)
                },
            },
            (RunState::Closing { reason, init_error }, RunEvent::ChildrenGone) => {
                actions.push(RunAction::Unregister);
                actions.push(RunAction::SetStatus(ActorStatus::Stopped));
                if let Some(err) = init_error {
                    actions.push(RunAction::AckFailure(err));
                }
                actions.push(RunAction::Exit(reason.clone()));
                assert(actions@ =~= advanced(self, event).actions);
                (RunState::Ended(reason), actions)
            },
            (state, _) => {
                assert(actions@ =~= advanced(self, event).actions);
                (state, actions)
            },
        }
    }
}

} // verus!
