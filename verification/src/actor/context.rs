//! What an actor's context keeps: identity and status, children, timers and streams.

use std::collections::{HashMap, VecDeque};
use tokio_util::sync::CancellationToken;
use vstd::prelude::*;
use vstd::std_specs::iter::IteratorSpec;
use crate::actor::child_events::{
    handle_child_stopped, handle_restart_outcome, outcome_settled, presented, settle_report,
    stop_after_report, stops_view, unsupervised_death, DeathStep, MemberStop, RestartOutcome,
    RestartStep,
};
use crate::actor::lifecycle::ManualStop;
use crate::actor::management::ManualBegin;
use crate::actor::registry::{infos_of, listed, ChildSpec};
use crate::actor::runtime::ActorConfig;
use crate::actor::schedule::{RecurringScheduleBuilder, ScheduleBuilder};
use crate::actor::supervision::{
    attempt_view, deaths, Attempt, SupervisionConfig, SupervisionState, SupervisionView, KILL_GRACE,
    SUPERVISOR_KILL_GRACE,
};
use crate::error::{ActorError, SpawnError, StreamError, SupervisionError, TimerError};
use crate::time::{Duration, Instant};
use crate::types::{
    after_number, copy_name, name_text, ActorId, ActorStatus, ActorStatusInfo, ChildFate, ChildInfo,
    ChildStoppedInternal, MissPolicy, RecurringId, RecurringIdGenerator, RestartType, Shutdown, StopReason,
    StreamId, SupervisionAction,
};

verus! {

broadcast use vstd::std_specs::hash::group_hash_axioms;

// ---------------------------------------------------------------------------
// Outside items
// ---------------------------------------------------------------------------

/// `tokio_util::sync::CancellationToken`, the signal that ends a forwarder task.
#[verifier::external_type_specification]
#[verifier::external_body]
pub struct ExCancellationToken(tokio_util::sync::CancellationToken);

/// `tokio_util::sync::CancellationToken::new`: a token that nobody has cancelled. Whether a token
/// is cancelled is shared with its clones and not modelled, so nothing is claimed of the result.
pub assume_specification[ tokio_util::sync::CancellationToken::new ]() -> tokio_util::sync::CancellationToken;

/// `tokio_util::sync::CancellationToken::clone`: a token that is cancelled whenever the given one
/// is, and the other way round. A token is a shared reference and nothing else, so the clone is the
/// same value.
pub assume_specification[ <tokio_util::sync::CancellationToken as std::clone::Clone>::clone ](
    token: &tokio_util::sync::CancellationToken,
) -> (copy: tokio_util::sync::CancellationToken)
    ensures
        copy == *token,
;

/// Whether `tokio_util::sync::CancellationToken::cancel` is called on the token, or on a clone of it,
/// at one time or another. A token that was cancelled stays so for good.
pub uninterp spec fn ever_cancelled(token: CancellationToken) -> bool;

/// Calls `tokio_util::sync::CancellationToken::cancel`, which cancels the token and every clone of
/// it, and hands the token back.
#[verifier::external_body]
fn cancel_token(token: CancellationToken) -> (done: CancellationToken)
    ensures
        done == token,
        ever_cancelled(done),
{
    token.cancel();
    token
}

/// Whether a character is a digit or one of the letters `a` to `f`.
pub open spec fn is_lower_hex(c: char) -> bool {
    '0' <= c <= '9' || 'a' <= c <= 'f'
}

/// The text of a random identifier: 36 characters, hyphens at four places, lower-case hexadecimal
/// digits elsewhere, of which one tells that the identifier is random and one its variant.
pub open spec fn is_random_id(text: Seq<char>) -> bool {
    &&& text.len() == 36
    &&& forall|i: int|
        0 <= i < 36 ==> if i == 8 || i == 13 || i == 18 || i == 23 {
            #[trigger] text[i] == '-'
        } else {
            is_lower_hex(text[i])
        }
    &&& text[14] == '4'
    &&& text[19] == '8' || text[19] == '9' || text[19] == 'a' || text[19] == 'b'
}

/// Calls `uuid::Uuid::new_v4`, and `to_string` on its result: the hyphenated lower-case text of a
/// random identifier. That no two results are the same is not claimed, for chance decides it.
#[verifier::external_body]
fn random_id() -> (text: String)
    ensures
        is_random_id(text@),
{
    uuid::Uuid::new_v4().to_string()
}

/// The identifier of an actor: its name, or a random one for an actor without a name.
pub fn resolve_id(name: &Option<String>) -> (id: ActorId)
    ensures
        match *name {
            Some(text) => id@ == text@,
            None => is_random_id(id@),
        },
{
    match name {
        Some(text) => ActorId::from(text.clone()),
        None => ActorId::from(random_id()),
    }
}

// ---------------------------------------------------------------------------
// The context
// ---------------------------------------------------------------------------

/// Which registration a forwarder task belongs to.
#[derive(Debug, Clone, Copy, PartialEq, Eq, Structural)]
pub enum ForwarderKind {
    /// A timer.
    Timer(RecurringId),
    /// A stream.
    Stream(StreamId),
}

/// How a forwarder task ended.
#[derive(Debug)]
pub enum ForwarderEnd {
    /// It ran to its end.
    Finished,
    /// It panicked, with a message if there is one.
    Panicked(Option<String>),
    /// It was aborted.
    Aborted,
}

/// What an actor keeps about itself, its children, its timers and its streams.
#[derive(Debug)]
pub struct ActorContext {
    actor_id: ActorId,
    name: Option<String>,
    timers: HashMap<u64, CancellationToken>,
    streams: HashMap<u64, CancellationToken>,
    id_gen: RecurringIdGenerator,
    last_forwarder_error: Option<ActorError>,
    last_error: Option<ActorError>,
    status: ActorStatus,
    supervision: Option<SupervisionState>,
}

/// What an [`ActorContext`] holds.
pub struct ContextView {
    /// The actor's ID.
    pub actor_id: Seq<char>,
    /// The actor's registered name, if any.
    pub name: Option<Seq<char>>,
    /// The active timers: by its number, the token whose cancellation ends the forwarder of each.
    pub timers: Map<u64, CancellationToken>,
    /// The active streams: by its number, the token whose cancellation ends the forwarder of each.
    pub streams: Map<u64, CancellationToken>,
    /// The number that the next timer or stream gets.
    pub upcoming: u64,
    /// The last panic of a forwarder, if any.
    pub last_forwarder_error: Option<ActorError>,
    /// The last error that was recorded, if any.
    pub last_error: Option<ActorError>,
    /// The actor's status.
    pub status: ActorStatus,
    /// What the actor keeps about its children, if it is a supervisor.
    pub supervision: Option<SupervisionView>,
}

impl ContextView {
    /// The context of an actor that is about to be initialized.
    pub open spec fn fresh(
        actor_id: Seq<char>,
        name: Option<Seq<char>>,
        supervision: Option<SupervisionConfig>,
    ) -> ContextView {
        ContextView {
            actor_id,
            name,
            timers: Map::empty(),
            streams: Map::empty(),
            upcoming: 0,
            last_forwarder_error: None,
            last_error: None,
            status: ActorStatus::Initializing,
            supervision: match supervision {
                Some(config) => Some(SupervisionView::fresh(config)),
                None => None,
            },
        }
    }

    /// The context with one more timer, under the next number, whose forwarder the token ends.
    pub open spec fn with_timer(self, token: CancellationToken) -> ContextView {
        ContextView {
            timers: self.timers.insert(self.upcoming, token),
            upcoming: after_number(self.upcoming),
            ..self
        }
    }

    /// The context without the timer with the given number.
    pub open spec fn without_timer(self, number: u64) -> ContextView {
        ContextView { timers: self.timers.remove(number), ..self }
    }

    /// The context without timers.
    pub open spec fn without_timers(self) -> ContextView {
        ContextView { timers: Map::empty(), ..self }
    }

    /// The context with one more stream, under the next number, whose forwarder the token ends.
    pub open spec fn with_stream(self, token: CancellationToken) -> ContextView {
        ContextView {
            streams: self.streams.insert(self.upcoming, token),
            upcoming: after_number(self.upcoming),
            ..self
        }
    }

    /// The context without the stream with the given number.
    pub open spec fn without_stream(self, number: u64) -> ContextView {
        ContextView { streams: self.streams.remove(number), ..self }
    }

    /// The context without streams.
    pub open spec fn without_streams(self) -> ContextView {
        ContextView { streams: Map::empty(), ..self }
    }
}

/// A timer that is registered is kept under its number with its token until it is cancelled, and is
/// gone then; every other timer, every stream and everything else is left as it is. The next timer or
/// stream gets another number. To cancel all timers leaves none, and the streams alone.
pub proof fn timers_last_until_they_are_cancelled(
    ctx: ContextView,
    token: CancellationToken,
    other: u64,
)
    requires
        other != ctx.upcoming,
    ensures
        ({
            let with = ctx.with_timer(token);
            let number = ctx.upcoming;
            let gone = with.without_timer(number);
            &&& with.timers.dom().contains(number) && with.timers[number] == token
            &&& with.timers.dom().contains(other) == ctx.timers.dom().contains(other)
            &&& with.timers[other] == ctx.timers[other]
            &&& with.upcoming != number
            &&& !gone.timers.dom().contains(number)
            &&& gone.timers.dom().contains(other) == ctx.timers.dom().contains(other)
            &&& ctx.timers.dom().contains(other) ==> gone.timers[other] == ctx.timers[other]
            &&& forall|any: u64| !with.without_timers().timers.dom().contains(any)
            &&& with == (ContextView { timers: with.timers, upcoming: with.upcoming, ..ctx })
            &&& gone == (ContextView { timers: gone.timers, ..with })
            &&& with.without_timers() == (ContextView {
                timers: with.without_timers().timers,
                ..with
            })
        }),
{
}

/// The same of streams.
pub proof fn streams_last_until_they_are_cancelled(
    ctx: ContextView,
    token: CancellationToken,
    other: u64,
)
    requires
        other != ctx.upcoming,
    ensures
        ({
            let with = ctx.with_stream(token);
            let number = ctx.upcoming;
            let gone = with.without_stream(number);
            &&& with.streams.dom().contains(number) && with.streams[number] == token
            &&& with.streams.dom().contains(other) == ctx.streams.dom().contains(other)
            &&& with.streams[other] == ctx.streams[other]
            &&& with.upcoming != number
            &&& !gone.streams.dom().contains(number)
            &&& gone.streams.dom().contains(other) == ctx.streams.dom().contains(other)
            &&& ctx.streams.dom().contains(other) ==> gone.streams[other] == ctx.streams[other]
            &&& forall|any: u64| !with.without_streams().streams.dom().contains(any)
            &&& with == (ContextView { streams: with.streams, upcoming: with.upcoming, ..ctx })
            &&& gone == (ContextView { streams: gone.streams, ..with })
            &&& with.without_streams() == (ContextView {
                streams: with.without_streams().streams,
                ..with
            })
        }),
{
}

/// What an optional supervision state holds.
pub open spec fn supervision_view(state: Option<SupervisionState>) -> Option<SupervisionView> {
    match state {
        Some(sup) => Some(sup@),
        None => None,
    }
}

impl View for ActorContext {
    type V = ContextView;

    closed spec fn view(&self) -> ContextView {
        ContextView {
            actor_id: self.actor_id@,
            name: name_text(self.name),
            timers: self.timers@,
            streams: self.streams@,
            upcoming: self.id_gen.upcoming,
            last_forwarder_error: self.last_forwarder_error,
            last_error: self.last_error,
            status: self.status,
            supervision: supervision_view(self.supervision),
        }
    }
}

impl ActorContext {
    /// The context of an actor that is about to be initialized.
    pub fn new(actor_id: ActorId, name: Option<String>, supervision: Option<SupervisionConfig>) -> (ctx:
        Self)
        ensures
            ctx@ == ContextView::fresh(actor_id@, name_text(name), supervision),
    {
        let timers: HashMap<u64, CancellationToken> = HashMap::new();
        let streams: HashMap<u64, CancellationToken> = HashMap::new();
        ActorContext {
            actor_id,
            name,
            timers,
            streams,
            id_gen: RecurringIdGenerator::default(),
            last_forwarder_error: None,
            last_error: None,
            status: ActorStatus::Initializing,
            supervision: match supervision {
                Some(config) => Some(SupervisionState::new(config)),
                None => None,
            },
        }
    }

    /// Returns the unique identifier of this actor.
    pub fn actor_id(&self) -> (id: &ActorId)
        ensures
            id@ == self@.actor_id,
    {
        &self.actor_id
    }

    /// Returns the registered name of this actor, if any.
    pub fn actor_name(&self) -> (name: Option<&String>)
        ensures
            name is Some == self@.name is Some,
            name is Some ==> name->0@ == self@.name->0,
    {
        match &self.name {
            Some(text) => Some(text),
            None => None,
        }
    }

    /// Records a failure that occurred during message processing.
    pub fn record_failure(&mut self, error: ActorError)
        ensures
            final(self)@ == (ContextView { last_error: Some(error), ..old(self)@ }),
    {
        self.last_error = Some(error);
    }

    /// Returns the last error recorded by this actor, if any.
    pub fn last_error(&self) -> (error: Option<&ActorError>)
        ensures
            error is Some == self@.last_error is Some,
            error is Some ==> *error->0 == self@.last_error->0,
    {
        match &self.last_error {
            Some(error) => Some(error),
            None => None,
        }
    }

    /// Returns the most recent panic of a timer or stream forwarder, if any. A forwarder panic
    /// never stops the actor.
    pub fn last_forwarder_error(&self) -> (error: Option<&ActorError>)
        ensures
            error is Some == self@.last_forwarder_error is Some,
            error is Some ==> *error->0 == self@.last_forwarder_error->0,
    {
        match &self.last_forwarder_error {
            Some(error) => Some(error),
            None => None,
        }
    }

    /// Returns the current lifecycle status of the actor.
    pub fn status(&self) -> (status: ActorStatus)
        ensures
            status == self@.status,
    {
        self.status
    }

    /// Sets the lifecycle status of the actor.
    pub fn set_status(&mut self, status: ActorStatus)
        ensures
            final(self)@ == (ContextView { status, ..old(self)@ }),
    {
        self.status = status;
    }

    /// A snapshot of the actor's state. How full its mailbox is, and how large, is handed in.
    pub fn build_status_info(&self, mailbox_len: usize, mailbox_capacity: usize) -> (info:
        ActorStatusInfo)
        ensures
            info.id@ == self@.actor_id,
            name_text(info.name) == self@.name,
            info.status == self@.status,
            info.mailbox_len == mailbox_len,
            info.mailbox_capacity == mailbox_capacity,
            info.child_count == match self@.supervision {
                Some(sup) => sup.children.len(),
                None => 0,
            },
            info.timer_count == self@.timers.dom().len(),
            info.stream_count == self@.streams.dom().len(),
    {
        let child_count: usize = match &self.supervision {
            Some(sup) => sup.registry.len(),
            None => 0,
        };
        ActorStatusInfo {
            id: self.actor_id.clone(),
            name: copy_name(&self.name),
            status: self.status,
            mailbox_len,
            mailbox_capacity,
            child_count,
            timer_count: self.active_timer_count(),
            stream_count: self.active_stream_count(),
        }
    }

    // - Timers and streams -------------------------------------------------

    /// Begins to schedule a message. Nothing is registered before [`Self::register_timer`].
    pub fn schedule<M>(&self, message: M) -> (builder: ScheduleBuilder<M>)
        ensures
            builder.message == message,
    {
        ScheduleBuilder::new(message)
    }

    /// Begins to schedule a recurring timer whose messages are made by `factory`, one for each
    /// tick. Missed ticks are skipped unless something else is asked for.
    pub fn every_with<F>(&self, interval: Duration, factory: F) -> (schedule:
        RecurringScheduleBuilder<F>)
        ensures
            schedule.message == factory,
            schedule.interval == interval,
            schedule.miss_policy == MissPolicy::Skip,
    {
        ScheduleBuilder::new(factory).every(interval)
    }

    /// Registers a timer. Returns its ID, and the token whose cancellation ends its forwarder: the
    /// one that is kept under the ID.
    pub fn register_timer(&mut self) -> (registered: (RecurringId, CancellationToken))
        ensures
            registered.0.number == old(self)@.upcoming,
            final(self)@ == old(self)@.with_timer(registered.1),
    {
        let id: RecurringId = self.id_gen.next();
        let token: CancellationToken = CancellationToken::new();
        let watched: CancellationToken = token.clone();
        self.timers.insert(id.number, token);
        (id, watched)
    }

    /// Takes a timer out. Returns the token whose cancellation ends its forwarder.
    pub fn take_timer(&mut self, id: RecurringId) -> (taken: Option<CancellationToken>)
        ensures
            taken == if old(self)@.timers.dom().contains(id.number) {
                Some(old(self)@.timers[id.number])
            } else {
                None
            },
            final(self)@ == old(self)@.without_timer(id.number),
    {
        self.timers.remove(&id.number)
    }

    /// Takes every timer out. Returns the tokens whose cancellation ends their forwarders, each with
    /// the number of its timer, in any order.
    pub fn take_timers(&mut self) -> (taken: Vec<(u64, CancellationToken)>)
        ensures
            lists_tokens(taken@, old(self)@.timers),
            final(self)@ == old(self)@.without_timers(),
    {
        let taken: Vec<(u64, CancellationToken)> = kept_tokens(&self.timers);
        self.timers.clear();
        taken
    }

    /// Cancels a specific timer by its ID: the token of [`Self::take_timer`] is cancelled.
    pub fn cancel_timer(&mut self, id: RecurringId) -> (outcome: Result<(), TimerError>)
        ensures
            outcome == if old(self)@.timers.dom().contains(id.number) {
                Ok::<(), TimerError>(())
            } else {
                Err::<(), TimerError>(TimerError::NotFound)
            },
            old(self)@.timers.dom().contains(id.number) ==> ever_cancelled(
                old(self)@.timers[id.number],
            ),
            final(self)@ == old(self)@.without_timer(id.number),
    {
        match self.take_timer(id) {
            Some(token) => {
                cancel_token(token);
                Ok(())
            },
            None => Err(TimerError::NotFound),
        }
    }

    /// Cancels all active timers: every token of [`Self::take_timers`] is cancelled.
    pub fn cancel_all_timers(&mut self)
        ensures
            forall|number: u64| #[trigger]
                old(self)@.timers.dom().contains(number) ==> ever_cancelled(
                    old(self)@.timers[number],
                ),
            final(self)@ == old(self)@.without_timers(),
    {
        let taken: Vec<(u64, CancellationToken)> = self.take_timers();
        cancel_tokens(&taken);
        proof {
            all_are_cancelled(taken@, old(self)@.timers);
        }
    }

    /// Returns the number of active timers.
    pub fn active_timer_count(&self) -> (count: usize)
        ensures
            count == self@.timers.dom().len(),
    {
        self.timers.len()
    }

    /// Registers a stream. Returns its ID, and the token whose cancellation ends its forwarder: the
    /// one that is kept under the ID.
    pub fn add_stream(&mut self) -> (registered: (StreamId, CancellationToken))
        ensures
            registered.0.number == old(self)@.upcoming,
            final(self)@ == old(self)@.with_stream(registered.1),
    {
        let id: StreamId = self.id_gen.next_stream_id();
        let token: CancellationToken = CancellationToken::new();
        let watched: CancellationToken = token.clone();
        self.streams.insert(id.number, token);
        (id, watched)
    }

    /// Takes a stream out. Returns the token whose cancellation ends its forwarder.
    pub fn take_stream(&mut self, id: StreamId) -> (taken: Option<CancellationToken>)
        ensures
            taken == if old(self)@.streams.dom().contains(id.number) {
                Some(old(self)@.streams[id.number])
            } else {
                None
            },
            final(self)@ == old(self)@.without_stream(id.number),
    {
        self.streams.remove(&id.number)
    }

    /// Takes every stream out. Returns the tokens whose cancellation ends their forwarders, each with
    /// the number of its stream, in any order.
    pub fn take_streams(&mut self) -> (taken: Vec<(u64, CancellationToken)>)
        ensures
            lists_tokens(taken@, old(self)@.streams),
            final(self)@ == old(self)@.without_streams(),
    {
        let taken: Vec<(u64, CancellationToken)> = kept_tokens(&self.streams);
        self.streams.clear();
        taken
    }

    /// Cancels a specific stream by its ID: the token of [`Self::take_stream`] is cancelled.
    pub fn cancel_stream(&mut self, id: StreamId) -> (outcome: Result<(), StreamError>)
        ensures
            outcome == if old(self)@.streams.dom().contains(id.number) {
                Ok::<(), StreamError>(())
            } else {
                Err::<(), StreamError>(StreamError::NotFound)
            },
            old(self)@.streams.dom().contains(id.number) ==> ever_cancelled(
                old(self)@.streams[id.number],
            ),
            final(self)@ == old(self)@.without_stream(id.number),
    {
        match self.take_stream(id) {
            Some(token) => {
                cancel_token(token);
                Ok(())
            },
            None => Err(StreamError::NotFound),
        }
    }

    /// Cancels all active streams: every token of [`Self::take_streams`] is cancelled.
    pub fn cancel_all_streams(&mut self)
        ensures
            forall|number: u64| #[trigger]
                old(self)@.streams.dom().contains(number) ==> ever_cancelled(
                    old(self)@.streams[number],
                ),
            final(self)@ == old(self)@.without_streams(),
    {
        let taken: Vec<(u64, CancellationToken)> = self.take_streams();
        cancel_tokens(&taken);
        proof {
            all_are_cancelled(taken@, old(self)@.streams);
        }
    }

    /// Returns the number of active streams.
    pub fn active_stream_count(&self) -> (count: usize)
        ensures
            count == self@.streams.dom().len(),
    {
        self.streams.len()
    }

    /// Reaps a forwarder task that has ended: its registration goes, if it is still there, and a
    /// panic becomes the last forwarder error. The actor goes on in any case.
    pub fn reap_forwarder(&mut self, kind: Option<ForwarderKind>, end: ForwarderEnd)
        ensures
            final(self)@.timers == match kind {
                Some(ForwarderKind::Timer(id)) => old(self)@.timers.remove(id.number),
                _ => old(self)@.timers,
            },
            final(self)@.streams == match kind {
                Some(ForwarderKind::Stream(id)) => old(self)@.streams.remove(id.number),
                _ => old(self)@.streams,
            },
            match end {
                ForwarderEnd::Panicked(message) => {
                    &&& final(self)@.last_forwarder_error is Some
                    &&& is_panic_with(final(self)@.last_forwarder_error->0, message)
                },
                _ => final(self)@.last_forwarder_error == old(self)@.last_forwarder_error,
            },
            final(self)@ == (ContextView {
                timers: final(self)@.timers,
                streams: final(self)@.streams,
                last_forwarder_error: final(self)@.last_forwarder_error,
                ..old(self)@
            }),
    {
        match kind {
            Some(ForwarderKind::Timer(id)) => {
                self.timers.remove(&id.number);
            },
            Some(ForwarderKind::Stream(id)) => {
                self.streams.remove(&id.number);
            },
            None => {},
        }
        if let ForwarderEnd::Panicked(message) = end {
            self.last_forwarder_error = Some(task_panic(message));
        }
    }
}

// ---------------------------------------------------------------------------
// Children
// ---------------------------------------------------------------------------

/// What a supervised child is to be spawned with. Defaults: no name, `Permanent`, the default
/// shutdown policy, the default configuration, no bound on initialization.
#[derive(Debug)]
pub struct ChildSpawnBuilder {
    /// The child's name, which is its ID too.
    pub name: Option<String>,
    /// How the child is restarted.
    pub restart_type: RestartType,
    /// How the child is shut down.
    pub shutdown: Shutdown,
    /// The child's configuration, where it is not the default one.
    pub config: Option<ActorConfig>,
    /// Bounds the wait for the child's initialization during a restart.
    pub start_timeout: Option<Duration>,
}

impl ChildSpawnBuilder {
    /// Assigns a name to the child. The name also serves as the child's ID.
    pub fn named(self, name: String) -> (builder: Self)
        ensures
            builder == (ChildSpawnBuilder { name: Some(name), ..self }),
    {
        ChildSpawnBuilder { name: Some(name), ..self }
    }

    /// Sets how the child is restarted.
    pub fn restart_type(self, restart_type: RestartType) -> (builder: Self)
        ensures
            builder == (ChildSpawnBuilder { restart_type, ..self }),
    {
        ChildSpawnBuilder { restart_type, ..self }
    }

    /// Sets how the child is shut down.
    pub fn shutdown(self, shutdown: Shutdown) -> (builder: Self)
        ensures
            builder == (ChildSpawnBuilder { shutdown, ..self }),
    {
        ChildSpawnBuilder { shutdown, ..self }
    }

    /// Overrides the default configuration of the child.
    pub fn with_config(self, config: ActorConfig) -> (builder: Self)
        ensures
            builder == (ChildSpawnBuilder { config: Some(config), ..self }),
    {
        ChildSpawnBuilder { config: Some(config), ..self }
    }

    /// Bounds the supervisor's wait for the child's initialization during a restart. Initial
    /// spawning never awaits initialization.
    pub fn start_timeout(self, dur: Duration) -> (builder: Self)
        ensures
            builder == (ChildSpawnBuilder { start_timeout: Some(dur), ..self }),
    {
        ChildSpawnBuilder { start_timeout: Some(dur), ..self }
    }
}

/// Everything that a child is spawned with, now and at every restart.
#[derive(Debug)]
pub struct ChildPlan {
    /// The child's ID; every incarnation gets it.
    pub child_id: ActorId,
    /// The child's name, if any.
    pub name: Option<String>,
    /// The child's configuration.
    pub config: ActorConfig,
    /// How the child is supervised.
    pub spec: ChildSpec,
    /// How long a killed incarnation is given before its task is aborted.
    pub grace: Duration,
}

/// How long a killed child is given before its task is aborted: a supervisor needs time for its
/// own children.
pub open spec fn kill_grace(is_supervisor: bool) -> Duration {
    if is_supervisor {
        Duration { nanos: SUPERVISOR_KILL_GRACE }
    } else {
        Duration { nanos: KILL_GRACE }
    }
}

/// Whether a plan is the one for a child with the given ID and what was asked for.
pub open spec fn plans(plan: ChildPlan, id: Seq<char>, builder: ChildSpawnBuilder) -> bool {
    &&& plan.child_id@ == id
    &&& plan.name == builder.name
    &&& match builder.config {
        Some(config) => plan.config == config,
        None => plan.config.mailbox.capacity == 64 && plan.config.supervision is None,
    }
    &&& plan.spec == (ChildSpec {
        restart_type: builder.restart_type,
        shutdown: builder.shutdown,
        start_timeout: builder.start_timeout,
        is_supervisor: plan.config.supervision is Some,
    })
    &&& plan.grace == kill_grace(plan.config.supervision is Some)
}

impl ActorContext {
    /// What a supervised child is spawned with unless something else is asked for.
    pub fn spawn_child(&self) -> (builder: ChildSpawnBuilder)
        ensures
            builder == (ChildSpawnBuilder {
                name: None,
                restart_type: RestartType::Permanent,
                shutdown: Shutdown::Timeout(Duration { nanos: 5_000_000_000 }),
                config: None,
                start_timeout: None,
            }),
    {
        ChildSpawnBuilder {
            name: None,
            restart_type: RestartType::Permanent,
            shutdown: Shutdown::default(),
            config: None,
            start_timeout: None,
        }
    }

    /// Decides whether a child can be spawned under the given ID, before its factory is run: the
    /// actor must be a supervisor, and the ID must be taken neither by a live child nor by a spec
    /// that was kept.
    pub fn admit_child(&self, id: ActorId, builder: ChildSpawnBuilder) -> (answer: Result<
        ChildPlan,
        SpawnError,
    >)
        ensures
            match self@.supervision {
                None => answer == Err::<ChildPlan, SpawnError>(SpawnError::NotASupervisor),
                Some(sup) => if listed(sup.children, id@) {
                    answer == Err::<ChildPlan, SpawnError>(SpawnError::DuplicateChild(id))
                } else {
                    answer is Ok && plans(answer->Ok_0, id@, builder)
                },
            },
    {
        let duplicate: bool = match &self.supervision {
            Some(sup) => sup.registry.get(&id).is_some(),
            None => {
                return Err(SpawnError::NotASupervisor);
            },
        };
        if duplicate {
            return Err(SpawnError::DuplicateChild(id));
        }
        let config: ActorConfig = match builder.config {
            Some(config) => config,
            None => ActorConfig::default(),
        };
        let is_supervisor: bool = config.supervision.is_some();
        let grace: Duration = if is_supervisor {
            Duration { nanos: SUPERVISOR_KILL_GRACE }
        } else {
            Duration { nanos: KILL_GRACE }
        };
        Ok(
            ChildPlan {
                child_id: id,
                name: builder.name,
                config,
                spec: ChildSpec {
                    restart_type: builder.restart_type,
                    shutdown: builder.shutdown,
                    start_timeout: builder.start_timeout,
                    is_supervisor,
                },
                grace,
            },
        )
    }

    /// Decides whether the child that was asked for can be spawned. Its ID is its name, or a
    /// random one.
    pub fn spawn_child_internal(&self, builder: ChildSpawnBuilder) -> (answer: Result<
        ChildPlan,
        SpawnError,
    >)
        ensures
            self@.supervision is None ==> answer == Err::<ChildPlan, SpawnError>(
                SpawnError::NotASupervisor,
            ),
            self@.supervision is Some && builder.name is Some ==> if listed(
                self@.supervision->0.children,
                builder.name->0@,
            ) {
                answer is Err && answer->Err_0 is DuplicateChild
                    && answer->Err_0->DuplicateChild_0@ == builder.name->0@
            } else {
                answer is Ok && plans(answer->Ok_0, builder.name->0@, builder)
            },
            self@.supervision is Some && builder.name is None ==> match answer {
                Ok(plan) => is_random_id(plan.child_id@) && plans(plan, plan.child_id@, builder)
                    && !listed(self@.supervision->0.children, plan.child_id@),
                Err(err) => err is DuplicateChild && is_random_id(err->DuplicateChild_0@) && listed(
                    self@.supervision->0.children,
                    err->DuplicateChild_0@,
                ),
            },
    {
        let id: ActorId = resolve_id(&builder.name);
        self.admit_child(id, builder)
    }

    /// Takes up a child that was spawned as planned, live as the given incarnation.
    pub fn child_spawned(&mut self, plan: ChildPlan, incarnation: u64) -> (answer: Result<
        (),
        SpawnError,
    >)
        ensures
            match old(self)@.supervision {
                None => {
                    &&& answer == Err::<(), SpawnError>(SpawnError::NotASupervisor)
                    &&& final(self)@ == old(self)@
                },
                Some(sup) => if listed(sup.children, plan.child_id@) {
                    &&& answer == Err::<(), SpawnError>(SpawnError::DuplicateChild(plan.child_id))
                    &&& final(self)@ == old(self)@
                } else {
                    &&& answer == Ok::<(), SpawnError>(())
                    &&& final(self)@ == (ContextView {
                        supervision: Some(
                            sup.with_child(
                                plan.child_id@,
                                name_text(plan.name),
                                plan.spec,
                                incarnation,
                            ),
                        ),
                        ..old(self)@
                    })
                },
            },
    {
        match &mut self.supervision {
            Some(sup) => sup.add_child(plan.child_id, plan.name, plan.spec, incarnation),
            None => Err(SpawnError::NotASupervisor),
        }
    }

    /// Returns introspection info for all supervised children, in start order.
    pub fn children(&self) -> (infos: Vec<ChildInfo>)
        ensures
            match self@.supervision {
                Some(sup) => infos_of(infos@, sup.children),
                None => infos.len() == 0,
            },
    {
        match &self.supervision {
            Some(sup) => sup.registry.children_info(),
            None => Vec::new(),
        }
    }

    /// Begins to stop a child and let its policy restart it: a Permanent child is restarted free
    /// of charge, the others stay down. See [`Self::finish_manual_stop`] for how it ends.
    pub fn stop_child(&mut self, child: ActorId, died: bool) -> (answer: Result<
        ManualBegin,
        SupervisionError,
    >)
        ensures
            manual_stop_begun(old(self)@, child, ManualStop::Bounce, died, final(self)@, answer),
    {
        self.manual_stop_child(child, ManualStop::Bounce, died)
    }

    /// Begins to stop a child without restarting it. The child's spec is kept, unless the child is
    /// Temporary or the strategy is SimpleOneForOne. See [`Self::finish_manual_stop`] for how it
    /// ends.
    pub fn terminate_child(&mut self, child: ActorId, died: bool) -> (answer: Result<
        ManualBegin,
        SupervisionError,
    >)
        ensures
            manual_stop_begun(old(self)@, child, ManualStop::Terminate, died, final(self)@, answer),
    {
        self.manual_stop_child(child, ManualStop::Terminate, died)
    }

    /// Begins a manual stop of the given kind. `died` tells whether the fate of the child's live
    /// instance is known already.
    fn manual_stop_child(&mut self, id: ActorId, kind: ManualStop, died: bool) -> (answer: Result<
        ManualBegin,
        SupervisionError,
    >)
        ensures
            manual_stop_begun(old(self)@, id, kind, died, final(self)@, answer),
    {
        match &mut self.supervision {
            Some(sup) => sup.begin_manual_stop(id, kind, died),
            None => Err(SupervisionError::NotASupervisor),
        }
    }

    /// Finishes a manual stop with the fate of the incarnation that was stopped: the child is
    /// disposed of, and the event of its death is kept until the death itself arrives. Returns the
    /// restart attempt to start, if any.
    pub fn finish_manual_stop(
        &mut self,
        id: &ActorId,
        incarnation: u64,
        kind: ManualStop,
        fate: ChildFate,
        seq: u64,
    ) -> (attempt: Option<Attempt>)
        ensures
            match old(self)@.supervision {
                None => attempt is None && final(self)@ == old(self)@,
                Some(sup) => {
                    let reason = presented(fate.reason);
                    &&& attempt_view(attempt) == sup.classified_attempt(id@, kind, reason, seq)
                    &&& final(self)@ == (ContextView {
                        supervision: Some(sup.classified(id@, incarnation, kind, reason, seq)),
                        ..old(self)@
                    })
                },
            },
    {
        match &mut self.supervision {
            Some(sup) => sup.finish_manual_stop(id, incarnation, kind, fate, seq),
            None => None,
        }
    }

    /// Revives a child that was terminated. Returns the restart attempt to start.
    pub fn restart_child(&mut self, child: ActorId, seq: u64) -> (answer: Result<
        Option<Attempt>,
        SupervisionError,
    >)
        ensures
            match old(self)@.supervision {
                None => {
                    &&& answer == Err::<Option<Attempt>, SupervisionError>(
                        SupervisionError::NotASupervisor,
                    )
                    &&& final(self)@ == old(self)@
                },
                Some(sup) => match sup.free_spec(child) {
                    Ok(_) => {
                        &&& answer is Ok
                        &&& attempt_view(answer->Ok_0) == sup.started(child@, seq)
                        &&& final(self)@ == (ContextView {
                            supervision: Some(sup.initiated(child@, seq)),
                            ..old(self)@
                        })
                    },
                    Err(err) => {
                        &&& answer == Err::<Option<Attempt>, SupervisionError>(err)
                        &&& final(self)@ == old(self)@
                    },
                },
            },
    {
        match &mut self.supervision {
            Some(sup) => sup.restart_child(child, seq),
            None => Err(SupervisionError::NotASupervisor),
        }
    }

    /// Removes a stopped child's spec. The child must be neither running nor restarting.
    pub fn delete_child(&mut self, child: ActorId) -> (answer: Result<(), SupervisionError>)
        ensures
            match old(self)@.supervision {
                None => {
                    &&& answer == Err::<(), SupervisionError>(SupervisionError::NotASupervisor)
                    &&& final(self)@ == old(self)@
                },
                Some(sup) => {
                    &&& answer == sup.free_spec(child)
                    &&& final(self)@ == if answer is Ok {
                        ContextView { supervision: Some(sup.removed(child@)), ..old(self)@ }
                    } else {
                        old(self)@
                    }
                },
            },
    {
        match &mut self.supervision {
            Some(sup) => sup.delete_child(child),
            None => Err(SupervisionError::NotASupervisor),
        }
    }

    /// Deals with one death of a child (see [`handle_child_stopped`]).
    pub fn child_stopped(
        &mut self,
        ev: ChildStoppedInternal,
        work: &mut VecDeque<ChildStoppedInternal>,
        seq: u64,
        now: Instant,
    ) -> (step: DeathStep)
        ensures
            match old(self)@.supervision {
                Some(sup) => {
                    &&& final(self)@.supervision is Some
                    &&& step.realizes(
                        final(self)@.supervision->0,
                        deaths(final(work)@),
                        sup.decided(ev@, deaths(old(work)@), seq, now),
                    )
                    &&& final(self)@ == (ContextView {
                        supervision: final(self)@.supervision,
                        ..old(self)@
                    })
                },
                None => {
                    &&& final(self)@ == old(self)@
                    &&& unsupervised_death(step, ev@)
                    &&& deaths(final(work)@) == deaths(old(work)@)
                },
            },
    {
        handle_child_stopped(&mut self.supervision, ev, work, seq, now)
    }

    /// Decides how the actor goes on after an event was handed to `on_child_stopped` (see
    /// [`settle_report`]).
    pub fn child_reported(&mut self, action: SupervisionAction, panic: Option<String>) -> (stop:
        Option<StopReason>)
        ensures
            stop == stop_after_report(action, panic),
            final(self)@ == if panic is None && action == SupervisionAction::BudgetExhausted {
                ContextView {
                    last_error: Some(ActorError::Supervision(SupervisionError::BudgetExhausted)),
                    ..old(self)@
                }
            } else {
                old(self)@
            },
    {
        settle_report(action, panic, &mut self.last_error)
    }

    /// Deals with the outcome of a restart attempt (see [`handle_restart_outcome`]); without
    /// supervision there is nothing to deal with.
    pub fn restart_finished(&mut self, outcome: RestartOutcome, next_seq: u64) -> (step: Option<
        RestartStep,
    >)
        ensures
            match old(self)@.supervision {
                None => step is None && final(self)@ == old(self)@,
                Some(sup) => {
                    &&& step is Some
                    &&& final(self)@.supervision is Some
                    &&& outcome_settled(
                        sup,
                        outcome,
                        next_seq,
                        final(self)@.supervision->0,
                        step->0,
                    )
                    &&& final(self)@ == (ContextView {
                        supervision: final(self)@.supervision,
                        ..old(self)@
                    })
                },
            },
    {
        match &mut self.supervision {
            Some(sup) => Some(handle_restart_outcome(sup, outcome, next_seq)),
            None => None,
        }
    }

    /// Empties the supervisor and tells which children to bring down, one after the other: the
    /// live ones, the one that was started last first, each as its shutdown policy says.
    pub fn stop_all_children(&mut self) -> (stops: Vec<MemberStop>)
        ensures
            match old(self)@.supervision {
                None => stops.len() == 0 && final(self)@ == old(self)@,
                Some(sup) => {
                    &&& stops_view(stops@) == sup.live_reversed()
                    &&& final(self)@ == (ContextView {
                        supervision: Some(sup.emptied()),
                        ..old(self)@
                    })
                },
            },
    {
        match &mut self.supervision {
            Some(sup) => sup.stop_all_children(),
            None => Vec::new(),
        }
    }

    /// Forgets everything about the children. Used by a killed actor, which never waits for them.
    pub fn take_supervision(&mut self) -> (taken: Option<SupervisionState>)
        ensures
            supervision_view(taken) == old(self)@.supervision,
            final(self)@ == (ContextView { supervision: None, ..old(self)@ }),
    {
        self.supervision.take()
    }
}

/// Whether a manual stop of the given kind begins as it should: with the given answer, and with the
/// given context afterwards.
pub open spec fn manual_stop_begun(
    before: ContextView,
    id: ActorId,
    kind: ManualStop,
    died: bool,
    after: ContextView,
    answer: Result<ManualBegin, SupervisionError>,
) -> bool {
    match before.supervision {
        None => {
            &&& answer == Err::<ManualBegin, SupervisionError>(SupervisionError::NotASupervisor)
            &&& after == before
        },
        Some(sup) => {
            &&& answer == sup.manual_answer(id, kind, died)
            &&& after == (ContextView {
                supervision: Some(sup.manual_begun(id@, kind, died)),
                ..before
            })
        },
    }
}

/// Whether a list holds what a table of tokens holds, each number once, in any order.
pub open spec fn lists_tokens(
    list: Seq<(u64, CancellationToken)>,
    tokens: Map<u64, CancellationToken>,
) -> bool {
    &&& forall|i: int|
        0 <= i < list.len() ==> tokens.dom().contains((#[trigger] list[i]).0) && tokens[list[i].0]
            == list[i].1
    &&& forall|i: int, j: int|
        0 <= i < j < list.len() ==> (#[trigger] list[i]).0 != (#[trigger] list[j]).0
    &&& forall|number: u64| #[trigger]
        tokens.dom().contains(number) ==> list.contains((number, tokens[number]))
}

/// What a table of tokens holds.
fn kept_tokens(tokens: &HashMap<u64, CancellationToken>) -> (list: Vec<(u64, CancellationToken)>)
    ensures
        lists_tokens(list@, tokens@),
{
    let mut list: Vec<(u64, CancellationToken)> = Vec::new();
    let ghost all = tokens.iter().remaining();
    for (number, token) in entries: tokens.iter()
        invariant
            list.len() == entries.index(),
            entries.seq() == all,
            all.no_duplicates(),
            forall|i: int|
                0 <= i < list.len() ==> (#[trigger] list[i]).0 == *all[i].0 && list[i].1 == *all[i].1,
    {
        list.push((*number, token.clone()));
    }
    proof {
        assert forall|i: int| 0 <= i < list.len() implies tokens@.dom().contains(
            (#[trigger] list[i]).0,
        ) && tokens@[list[i].0] == list[i].1 by {
            assert(tokens@.contains_key(*all[i].0));
        }
        assert forall|i: int, j: int| 0 <= i < j < list.len() implies (#[trigger] list[i]).0 != (
        #[trigger] list[j]).0 by {
            assert(all[i] != all[j]);
        }
        assert forall|number: u64| #[trigger] tokens@.dom().contains(
            number,
        ) implies list@.contains((number, tokens@[number])) by {
            assert(tokens@.contains_key(number));
            let i = all.index_of((&number, &tokens@[number]));
            assert(list[i] == (number, tokens@[number]));
        }
    }
    list
}

/// Cancels every token of a list.
fn cancel_tokens(tokens: &Vec<(u64, CancellationToken)>)
    ensures
        forall|i: int| 0 <= i < tokens.len() ==> ever_cancelled((#[trigger] tokens[i]).1),
{
    let mut i: usize = 0;
    while i < tokens.len()
        invariant
            i <= tokens.len(),
            forall|j: int| 0 <= j < i ==> ever_cancelled((#[trigger] tokens[j]).1),
        decreases tokens.len() - i,
    {
        cancel_token(tokens[i].1.clone());
        i += 1;
    }
}

/// Where every token of a list is cancelled, so is every one of the table that it lists.
proof fn all_are_cancelled(
    list: Seq<(u64, CancellationToken)>,
    tokens: Map<u64, CancellationToken>,
)
    requires
        lists_tokens(list, tokens),
        forall|i: int| 0 <= i < list.len() ==> ever_cancelled((#[trigger] list[i]).1),
    ensures
        forall|number: u64| #[trigger]
            tokens.dom().contains(number) ==> ever_cancelled(tokens[number]),
{
    assert forall|number: u64| #[trigger] tokens.dom().contains(number) implies ever_cancelled(
        tokens[number],
    ) by {
        let i = list.index_of((number, tokens[number]));
        assert(list.contains((number, tokens[number])));
        assert(list[i] == (number, tokens[number]));
    }
}

/// Whether an error is the panic of a task with the given message. Where the message cannot be
/// had, a text says so.
pub open spec fn is_panic_with(err: ActorError, message: Option<String>) -> bool {
    match message {
        Some(text) => err == ActorError::Panic(text),
        None => err is Panic && err->Panic_0@ == "panic payload unavailable"@,
    }
}

/// The error that stands for the panic of a task.
pub fn task_panic(message: Option<String>) -> (err: ActorError)
    ensures
        is_panic_with(err, message),
{
    match message {
        Some(text) => ActorError::Panic(text),
        None => ActorError::Panic("panic payload unavailable".to_owned()),
    }
}

/// A child is planned as it was asked for: under the ID that it got, with the name, the restart type,
/// the shutdown policy, the bound on its initialization and the configuration that were asked for. It
/// is a supervisor exactly if its configuration makes it one, and a supervisor has longer between Kill
/// and the abort than any other child.
pub proof fn children_are_planned_as_asked(
    plan: ChildPlan,
    id: Seq<char>,
    builder: ChildSpawnBuilder,
)
    requires
        plans(plan, id, builder),
    ensures
        plan.child_id@ == id,
        plan.name == builder.name,
        plan.spec.restart_type == builder.restart_type,
        plan.spec.shutdown == builder.shutdown,
        plan.spec.start_timeout == builder.start_timeout,
        builder.config is Some ==> plan.config == builder.config->0,
        builder.config is None ==> plan.config.supervision is None && plan.config.mailbox.capacity
            == 64,
        plan.spec.is_supervisor <==> plan.config.supervision is Some,
        plan.grace.nanos == if plan.config.supervision is Some {
            SUPERVISOR_KILL_GRACE
        } else {
            KILL_GRACE
        },
        kill_grace(true).nanos > kill_grace(false).nanos,
{
}

/// An actor begins with its ID and its name, without timers, streams and errors, and is a supervisor
/// exactly if it was configured as one, without children then.
pub proof fn contexts_begin_empty(
    id: Seq<char>,
    name: Option<Seq<char>>,
    supervision: Option<SupervisionConfig>,
)
    ensures
        ({
            let ctx = ContextView::fresh(id, name, supervision);
            &&& ctx.actor_id == id
            &&& ctx.name == name
            &&& forall|number: u64|
                !ctx.timers.dom().contains(number) && !ctx.streams.dom().contains(number)
            &&& ctx.last_error is None
            &&& ctx.last_forwarder_error is None
            &&& ctx.status == ActorStatus::Initializing
            &&& ctx.supervision is Some <==> supervision is Some
            &&& supervision is Some ==> ctx.supervision->0.config == supervision->0
                && ctx.supervision->0.children.len() == 0
        }),
{
}

/// A manual stop that begins in the context of an actor is answered by what the actor keeps about its
/// children, and changes nothing else; an actor that keeps nothing about any is no supervisor.
pub proof fn manual_stops_begin_with_supervisors(
    before: ContextView,
    id: ActorId,
    kind: ManualStop,
    died: bool,
    after: ContextView,
    answer: Result<ManualBegin, SupervisionError>,
)
    requires
        manual_stop_begun(before, id, kind, died, after, answer),
    ensures
        before.supervision is None ==> after == before && answer == Err::<
            ManualBegin,
            SupervisionError,
        >(SupervisionError::NotASupervisor),
        before.supervision is Some ==> {
            &&& after.supervision == Some(before.supervision->0.manual_begun(id@, kind, died))
            &&& answer == before.supervision->0.manual_answer(id, kind, died)
            &&& after.timers == before.timers && after.streams == before.streams
            &&& after.actor_id == before.actor_id && after.name == before.name
            &&& after.status == before.status
            &&& after.last_error == before.last_error
        },
{
}

/// A panic of a task is told with its message, whatever that is.
pub proof fn panics_are_told_with_their_message(err: ActorError, message: String)
    ensures
        is_panic_with(err, Some(message)) <==> err == ActorError::Panic(message),
        is_panic_with(err, None) ==> err is Panic,
{
}

/// A list of the tokens of a table holds a token under a number exactly if the table does, and no number
/// twice.
pub proof fn token_lists_hold_what_is_kept(
    list: Seq<(u64, CancellationToken)>,
    tokens: Map<u64, CancellationToken>,
    number: u64,
    token: CancellationToken,
)
    requires
        lists_tokens(list, tokens),
    ensures
        list.contains((number, token)) <==> tokens.dom().contains(number) && tokens[number] == token,
        forall|i: int, j: int|
            0 <= i < list.len() && 0 <= j < list.len() && (#[trigger] list[i]).0 == (
            #[trigger] list[j]).0 ==> i == j,
{
    if list.contains((number, token)) {
        let i = list.index_of((number, token));
        assert(list[i].0 == number);
    }
}

} // verus!
