//! Shared type definitions used across the actor runtime.

use vstd::prelude::*;
use vstd::string::StringExecFns;
use crate::error::ActorError;
use crate::time::Duration;

pub mod stop_lane;

pub use stop_lane::{LaneChange, LaneState, StopLane, StopSeverity};

verus! {

/// Unique identifier assigned to each actor within the system.
///
/// Its model is the text that it holds; two identifiers are equal when their texts are.
#[derive(Debug, Hash)]
pub struct ActorId {
    text: String,
}

impl View for ActorId {
    type V = Seq<char>;

    closed spec fn view(&self) -> Seq<char> {
        self.text@
    }
}

impl ActorId {
    /// Returns the identifier as a string slice.
    pub fn as_str(&self) -> (text: &str)
        ensures
            text@ == self@,
    {
        self.text.as_str()
    }

    /// Returns the identifier as owned text.
    pub fn to_string(&self) -> (text: String)
        ensures
            text@ == self@,
    {
        self.text.clone()
    }
}

impl Clone for ActorId {
    fn clone(&self) -> (copy: Self)
        ensures
            copy == *self,
    {
        ActorId { text: self.text.clone() }
    }
}

impl PartialEq for ActorId {
    fn eq(&self, other: &Self) -> (same: bool) {
        self.text == other.text
    }
}

impl vstd::std_specs::cmp::PartialEqSpecImpl for ActorId {
    open spec fn obeys_eq_spec() -> bool {
        true
    }

    open spec fn eq_spec(&self, other: &Self) -> bool {
        self@ == other@
    }
}

impl Eq for ActorId {
}

impl From<String> for ActorId {
    fn from(value: String) -> (id: Self)
        ensures
            id@ == value@,
    {
        ActorId { text: value }
    }
}

impl vstd::std_specs::convert::FromSpecImpl<String> for ActorId {
    open spec fn obeys_from_spec() -> bool {
        false
    }

    open spec fn from_spec(value: String) -> Self {
        arbitrary()
    }
}

impl From<&str> for ActorId {
    fn from(value: &str) -> (id: Self)
        ensures
            id@ == value@,
    {
        ActorId { text: value.to_owned() }
    }
}

impl vstd::std_specs::convert::FromSpecImpl<&str> for ActorId {
    open spec fn obeys_from_spec() -> bool {
        false
    }

    open spec fn from_spec(value: &str) -> Self {
        arbitrary()
    }
}

// ---------------------------------------------------------------------------
// Timers and streams
// ---------------------------------------------------------------------------

/// Scheduling policies supported by actor timers.
#[derive(Debug, Clone, Copy)]
pub enum SchedulePolicy {
    /// Fire once at the specified time.
    Once,
    /// Fire repeatedly at the specified interval.
    Recurring {
        /// The interval between ticks.
        interval: Duration,
        /// The policy for handling missed ticks.
        miss_policy: MissPolicy,
    },
}

/// Strategy for handling timer drift when recurring timers miss their scheduled time.
#[derive(Debug, Clone, Copy, PartialEq, Eq, Structural)]
pub enum MissPolicy {
    /// Skip missed ticks and schedule the next tick at the next aligned interval.
    /// If a 1s timer is delayed by 3.5s, the next tick happens at 4s.
    Skip,
    /// Send all missed messages immediately (catch up), then resume the normal schedule.
    /// If a 1s timer is delayed by 3.5s, 3 messages are sent at once, and the next tick
    /// happens at 4s.
    CatchUp,
    /// Reset the timer to fire after one interval from now, ignoring the earlier schedule.
    /// If a 1s timer is delayed by 3.5s, the next tick happens at 4.5s.
    Delay,
}

/// Identifier used for recurring timers scheduled by an actor.
#[derive(Debug, Clone, Copy, PartialEq, Eq, Structural, Hash)]
pub struct RecurringId {
    /// The number drawn for this timer.
    pub number: u64,
}

impl RecurringId {
    /// The identifier with the given number.
    pub fn new(id: u64) -> (made: Self)
        ensures
            made.number == id,
    {
        RecurringId { number: id }
    }
}

/// Identifier for a stream attached to an actor.
#[derive(Debug, Clone, Copy, PartialEq, Eq, Structural, Hash)]
pub struct StreamId {
    /// The number drawn for this stream.
    pub number: u64,
}

impl StreamId {
    /// The identifier with the given number.
    pub fn new(id: u64) -> (made: Self)
        ensures
            made.number == id,
    {
        StreamId { number: id }
    }
}

/// Incrementing ID source for timers and streams. Both kinds draw from one counter, which wraps
/// around after the last number.
#[derive(Debug)]
pub struct RecurringIdGenerator {
    /// The number that the next identifier gets.
    pub upcoming: u64,
}

impl Default for RecurringIdGenerator {
    fn default() -> (fresh: Self)
        ensures
            fresh.upcoming == 0,
    {
        RecurringIdGenerator { upcoming: 0 }
    }
}

/// The number that a counter holds after `n` was drawn from it.
pub open spec fn after_number(n: u64) -> u64 {
    if n == u64::MAX {
        0
    } else {
        (n + 1) as u64
    }
}

impl RecurringIdGenerator {
    /// Draws the identifier of a new timer.
    pub fn next(&mut self) -> (id: RecurringId)
        ensures
            id.number == old(self).upcoming,
            final(self).upcoming == after_number(old(self).upcoming),
    {
        let id: u64 = self.upcoming;
        self.upcoming = id.wrapping_add(1);
        RecurringId::new(id)
    }

    /// Draws the identifier of a new stream.
    pub fn next_stream_id(&mut self) -> (id: StreamId)
        ensures
            id.number == old(self).upcoming,
            final(self).upcoming == after_number(old(self).upcoming),
    {
        let id: u64 = self.upcoming;
        self.upcoming = id.wrapping_add(1);
        StreamId::new(id)
    }
}

/// Event wrapper for items received from a stream attached to an actor: an item, or the end of
/// the stream.
#[derive(Debug, Clone, PartialEq, Eq)]
pub enum StreamEvent<T> {
    /// The stream yielded an item.
    Data(T),
    /// The stream is exhausted.
    Finished,
}

// ---------------------------------------------------------------------------
// Lifecycle
// ---------------------------------------------------------------------------

/// Reason describing why an actor stopped processing messages.
#[derive(Debug)]
pub enum StopReason {
    /// The actor stopped gracefully (e.g., finished its work).
    Graceful,
    /// The parent actor requested this actor to stop. Also the exit reason of a supervisor whose
    /// restart budget was exhausted.
    ParentRequest,
    /// The actor stopped due to a failure: a handler returned `Err`, or a callback panicked.
    Failure(ActorError),
    /// The actor's task was aborted.
    Cancelled,
    /// The actor was forcibly killed. Bypasses all lifecycle hooks.
    Kill,
}

impl Clone for StopReason {
    fn clone(&self) -> (copy: Self)
        ensures
            copy == *self,
    {
        match self {
            StopReason::Graceful => StopReason::Graceful,
            StopReason::ParentRequest => StopReason::ParentRequest,
            StopReason::Failure(err) => StopReason::Failure(err.clone()),
            StopReason::Cancelled => StopReason::Cancelled,
            StopReason::Kill => StopReason::Kill,
        }
    }
}

impl StopReason {
    /// The text shown for this reason.
    pub open spec fn text(self) -> Seq<char> {
        match self {
            StopReason::Graceful => "graceful"@,
            StopReason::ParentRequest => "parent requested"@,
            StopReason::Failure(err) => "failure: "@ + err.text(),
            StopReason::Cancelled => "cancelled"@,
            StopReason::Kill => "killed"@,
        }
    }

    /// Renders the text of this reason.
    pub fn to_string(&self) -> (text: String)
        ensures
            text@ == self.text(),
    {
        match self {
            StopReason::Graceful => "graceful".to_owned(),
            StopReason::ParentRequest => "parent requested".to_owned(),
            StopReason::Failure(err) => "failure: ".to_owned().concat(err.to_string().as_str()),
            StopReason::Cancelled => "cancelled".to_owned(),
            StopReason::Kill => "killed".to_owned(),
        }
    }
}

/// Lifecycle status for a running actor.
#[derive(Clone, Copy, Debug, PartialEq, Eq, Structural)]
pub enum ActorStatus {
    /// The actor is initializing.
    Initializing,
    /// The actor is running and processing messages.
    Running,
    /// The actor is stopping (running `on_stopped`).
    Stopping,
    /// The actor has stopped.
    Stopped,
}

// ---------------------------------------------------------------------------
// Supervision types
// ---------------------------------------------------------------------------

/// Strategy used by a supervisor to handle child failures.
#[derive(Debug, Clone, Copy, PartialEq, Eq, Structural)]
pub enum RestartStrategy {
    /// Restart only the failed child. Other children are unaffected.
    OneForOne,
    /// Restart all children when any one fails.
    OneForAll,
    /// Restart the failed child and all children started after it.
    RestForOne,
    /// Dynamic-only variant: per-child restart, no ordering guarantees.
    SimpleOneForOne,
}

/// Determines whether a child is restarted after stopping.
#[derive(Debug, Clone, Copy, PartialEq, Eq, Structural)]
pub enum RestartType {
    /// Always restart, even after a graceful stop.
    Permanent,
    /// Restart after an abnormal exit only; stay down after [`StopReason::Graceful`] and
    /// [`StopReason::ParentRequest`].
    Transient,
    /// Never restart. Removed from the registry on any stop.
    Temporary,
}

/// Policy for how long to wait when stopping a child.
#[derive(Debug, Clone, Copy, PartialEq, Eq, Structural)]
pub enum Shutdown {
    /// Force-kill immediately.
    Kill,
    /// Wait up to the given time for a graceful stop, then escalate to Kill.
    Timeout(Duration),
    /// Wait indefinitely for the child to stop.
    Infinity,
}

impl Default for Shutdown {
    fn default() -> (policy: Self)
        ensures
            policy == Shutdown::Timeout(Duration { nanos: 5_000_000_000 }),
    {
        Shutdown::Timeout(Duration::from_secs(5))
    }
}

/// Action taken by the supervision runtime in response to a child stopping.
#[derive(Debug, Clone, Copy, PartialEq, Eq, Structural)]
pub enum SupervisionAction {
    /// A restart has been initiated for the child; it completes asynchronously.
    RestartInitiated,
    /// The child was removed (temporary or graceful transient).
    Removed,
    /// The child was not supervised (no supervision config).
    NotSupervised,
    /// The restart budget was exhausted. The supervisor is stopping.
    BudgetExhausted,
}

/// The text that an optional name holds.
pub open spec fn name_text(name: Option<String>) -> Option<Seq<char>> {
    match name {
        Some(text) => Some(text@),
        None => None,
    }
}

/// A copy of an optional name.
pub fn copy_name(name: &Option<String>) -> (copy: Option<String>)
    ensures
        copy == *name,
{
    match name {
        Some(text) => Some(text.clone()),
        None => None,
    }
}

/// Event delivered to the parent actor when a supervised child stops.
#[derive(Debug)]
pub struct ChildEvent {
    /// The ID of the child that stopped.
    pub child_id: ActorId,
    /// The registered name of the child, if any.
    pub child_name: Option<String>,
    /// The reason the child stopped.
    pub reason: StopReason,
    /// The action taken by the supervision runtime.
    pub action: SupervisionAction,
}

/// What a [`ChildEvent`] tells.
pub struct ChildEventView {
    /// The ID of the child that stopped.
    pub child_id: Seq<char>,
    /// The registered name of the child, if any.
    pub child_name: Option<Seq<char>>,
    /// The reason the child stopped.
    pub reason: StopReason,
    /// The action taken by the supervision runtime.
    pub action: SupervisionAction,
}

impl View for ChildEvent {
    type V = ChildEventView;

    open spec fn view(&self) -> ChildEventView {
        ChildEventView {
            child_id: self.child_id@,
            child_name: name_text(self.child_name),
            reason: self.reason,
            action: self.action,
        }
    }
}

impl Clone for ChildEvent {
    fn clone(&self) -> (copy: Self)
        ensures
            copy == *self,
    {
        ChildEvent {
            child_id: self.child_id.clone(),
            child_name: copy_name(&self.child_name),
            reason: self.reason.clone(),
            action: self.action,
        }
    }
}

/// A child's death, as its watcher reports it to the parent.
#[derive(Debug)]
pub struct ChildStoppedInternal {
    /// The child that died.
    pub child_id: ActorId,
    /// Why it died.
    pub reason: StopReason,
    /// Which incarnation of the child died. A death whose incarnation is neither the child's
    /// current one nor the one that its pending restart is to get is stale and is ignored.
    pub incarnation: u64,
}

/// What a [`ChildStoppedInternal`] tells.
pub struct DeathView {
    /// The child that died.
    pub child_id: Seq<char>,
    /// Why it died.
    pub reason: StopReason,
    /// Which incarnation of the child died.
    pub incarnation: u64,
}

impl View for ChildStoppedInternal {
    type V = DeathView;

    open spec fn view(&self) -> DeathView {
        DeathView {
            child_id: self.child_id@,
            reason: self.reason,
            incarnation: self.incarnation,
        }
    }
}

impl Clone for ChildStoppedInternal {
    fn clone(&self) -> (copy: Self)
        ensures
            copy == *self,
    {
        ChildStoppedInternal {
            child_id: self.child_id.clone(),
            reason: self.reason.clone(),
            incarnation: self.incarnation,
        }
    }
}

/// The terminal outcome of one incarnation of a child.
#[derive(Debug)]
pub struct ChildFate {
    /// Why it died.
    pub reason: StopReason,
    /// Which incarnation died.
    pub incarnation: u64,
}

impl Clone for ChildFate {
    fn clone(&self) -> (copy: Self)
        ensures
            copy == *self,
    {
        ChildFate { reason: self.reason.clone(), incarnation: self.incarnation }
    }
}

/// Introspection snapshot of an actor's current state.
#[derive(Debug)]
pub struct ActorStatusInfo {
    /// The actor's unique ID.
    pub id: ActorId,
    /// The actor's registered name, if any.
    pub name: Option<String>,
    /// Current lifecycle status.
    pub status: ActorStatus,
    /// Current number of messages in the mailbox.
    pub mailbox_len: usize,
    /// Total mailbox capacity.
    pub mailbox_capacity: usize,
    /// Number of supervised children.
    pub child_count: usize,
    /// Number of active timers.
    pub timer_count: usize,
    /// Number of active streams.
    pub stream_count: usize,
}

impl Clone for ActorStatusInfo {
    fn clone(&self) -> (copy: Self)
        ensures
            copy == *self,
    {
        ActorStatusInfo {
            id: self.id.clone(),
            name: copy_name(&self.name),
            status: self.status,
            mailbox_len: self.mailbox_len,
            mailbox_capacity: self.mailbox_capacity,
            child_count: self.child_count,
            timer_count: self.timer_count,
            stream_count: self.stream_count,
        }
    }
}

/// Introspection snapshot of a supervised child.
#[derive(Debug)]
pub struct ChildInfo {
    /// The child's unique ID.
    pub id: ActorId,
    /// The child's registered name, if any.
    pub name: Option<String>,
    /// How the child is restarted.
    pub restart_type: RestartType,
    /// How the child is shut down.
    pub shutdown: Shutdown,
    /// Whether the child is currently alive.
    pub is_alive: bool,
    /// Whether a restart is pending for this child.
    pub restart_pending: bool,
}

impl Clone for ChildInfo {
    fn clone(&self) -> (copy: Self)
        ensures
            copy == *self,
    {
        ChildInfo {
            id: self.id.clone(),
            name: copy_name(&self.name),
            restart_type: self.restart_type,
            shutdown: self.shutdown,
            is_alive: self.is_alive,
            restart_pending: self.restart_pending,
        }
    }
}

// ---------------------------------------------------------------------------
// System shutdown types
// ---------------------------------------------------------------------------

/// Outcome of stopping a single root actor during a system shutdown.
#[derive(Debug, Clone, Copy, PartialEq, Eq, Structural)]
pub enum StopOutcome {
    /// The actor reached a terminal status within the per-actor window after
    /// [`StopReason::ParentRequest`].
    Graceful,
    /// The actor did not stop gracefully in time and needed [`StopReason::Kill`].
    Killed,
    /// The actor did not react to Kill in time and its task had to be aborted directly.
    Aborted,
    /// The actor survived even the grace window after the abort.
    Unresponsive,
}

/// A failure shows its error, whatever error it is.
pub proof fn failures_show_their_error(err: ActorError)
    ensures
        StopReason::Failure(err).text() == "failure: "@ + err.text(),
{
}

} // verus!
