//! The stop lane: the signal that delivers stop and kill requests to an actor.
//!
//! Every actor owns one lane. Raising it is synchronous and infallible, and the run loop observes
//! it ahead of everything else. It is the single transport for every stop or kill signal.

use tokio::sync::watch;
use vstd::prelude::*;
use crate::types::StopReason;

verus! {

/// Escalation tier of a stop request, derived from its [`StopReason`].
#[derive(Debug, Clone, Copy, PartialEq, Eq, Structural)]
pub enum StopSeverity {
    /// Vetoable via `pre_stop`: [`StopReason::Graceful`], [`StopReason::ParentRequest`].
    Requested,
    /// Non-vetoable, but `on_stopped` still runs: [`StopReason::Failure`],
    /// [`StopReason::Cancelled`].
    Forced,
    /// Bypasses every lifecycle hook: [`StopReason::Kill`].
    Kill,
}

/// The severity of a stop request with the given reason.
pub open spec fn severity(reason: StopReason) -> StopSeverity {
    match reason {
        StopReason::Graceful => StopSeverity::Requested,
        StopReason::ParentRequest => StopSeverity::Requested,
        StopReason::Failure(_) => StopSeverity::Forced,
        StopReason::Cancelled => StopSeverity::Forced,
        StopReason::Kill => StopSeverity::Kill,
    }
}

impl StopSeverity {
    /// The place of this severity in the order of severities.
    pub open spec fn level(self) -> int {
        match self {
            StopSeverity::Requested => 0,
            StopSeverity::Forced => 1,
            StopSeverity::Kill => 2,
        }
    }

    /// The severity of a stop request with the given reason.
    pub fn of(reason: &StopReason) -> (tier: Self)
        ensures
            tier == severity(*reason),
    {
        match reason {
            StopReason::Graceful | StopReason::ParentRequest => StopSeverity::Requested,
            StopReason::Failure(_) | StopReason::Cancelled => StopSeverity::Forced,
            StopReason::Kill => StopSeverity::Kill,
        }
    }

    /// Whether this severity is `other` or a higher one.
    pub fn at_least(self, other: StopSeverity) -> (reached: bool)
        ensures
            reached == (self.level() >= other.level()),
    {
        match (self, other) {
            (StopSeverity::Kill, _) => true,
            (StopSeverity::Forced, StopSeverity::Kill) => false,
            (StopSeverity::Forced, _) => true,
            (StopSeverity::Requested, StopSeverity::Requested) => true,
            (StopSeverity::Requested, _) => false,
        }
    }
}

/// Value carried by the stop lane: the highest-severity request raised so far, and a generation
/// counter bumped on every accepted raise. A raise at the severity already pending is accepted
/// too, so that the run loop observes it again (for example, to ask `pre_stop` once more after a
/// veto).
#[derive(Debug)]
pub struct LaneState {
    /// The pending request, if any was raised.
    pub reason: Option<StopReason>,
    /// How often a raise was accepted, modulo the counter's range.
    pub generation: u64,
}

impl Default for LaneState {
    fn default() -> (fresh: Self)
        ensures
            fresh.reason is None,
            fresh.generation == 0,
    {
        LaneState { reason: None, generation: 0 }
    }
}

impl Clone for LaneState {
    fn clone(&self) -> (copy: Self)
        ensures
            copy == *self,
    {
        LaneState {
            reason: match &self.reason {
                Some(reason) => Some(reason.clone()),
                None => None,
            },
            generation: self.generation,
        }
    }
}

impl LaneState {
    /// Whether a lane in this state takes a request with the given reason.
    pub open spec fn takes(self, reason: StopReason) -> bool {
        self.reason is None || severity(reason).level() >= severity(self.reason->0).level()
    }

    /// The state of the lane after a request with the given reason was raised on it.
    pub open spec fn raised(self, reason: StopReason) -> LaneState {
        if self.takes(reason) {
            LaneState {
                reason: Some(reason),
                generation: crate::types::after_number(self.generation),
            }
        } else {
            self
        }
    }

    /// Records a stop request, unless a strictly higher severity is already pending. Returns
    /// whether the request was recorded.
    pub fn accept(&mut self, reason: StopReason) -> (accepted: bool)
        ensures
            accepted == old(self).takes(reason),
            *final(self) == old(self).raised(reason),
    {
        let accepted: bool = match &self.reason {
            Some(current) => StopSeverity::of(&reason).at_least(StopSeverity::of(current)),
            None => true,
        };
        if accepted {
            self.reason = Some(reason);
            self.generation = self.generation.wrapping_add(1);
        }
        accepted
    }
}

/// The state of a lane after the given requests were raised on it, one after the other.
pub open spec fn raised_all(state: LaneState, requests: Seq<StopReason>) -> LaneState
    decreases requests.len(),
{
    if requests.len() == 0 {
        state
    } else {
        raised_all(state, requests.drop_last()).raised(requests.last())
    }
}

/// Severity only ever increases: whatever is raised on a lane, the request that it ends with is
/// at least as severe as the one that it began with.
pub proof fn severity_never_decreases(state: LaneState, requests: Seq<StopReason>)
    ensures
        state.reason is Some ==> {
            let end = raised_all(state, requests);
            end.reason is Some && severity(end.reason->0).level() >= severity(
                state.reason->0,
            ).level()
        },
    decreases requests.len(),
{
    if requests.len() > 0 {
        severity_never_decreases(state, requests.drop_last());
    }
}

/// A lane on which Kill was raised holds Kill from then on, in whatever order requests come.
pub proof fn kill_is_never_displaced(state: LaneState, requests: Seq<StopReason>)
    ensures
        requests.contains(StopReason::Kill) ==> raised_all(state, requests).reason == Some(
            StopReason::Kill,
        ),
        state.reason == Some(StopReason::Kill) ==> raised_all(state, requests).reason == Some(
            StopReason::Kill,
        ),
    decreases requests.len(),
{
    if requests.len() > 0 {
        let rest = requests.drop_last();
        kill_is_never_displaced(state, rest);
        if requests.contains(StopReason::Kill) && requests.last() != StopReason::Kill {
            let i = choose|i: int| 0 <= i < requests.len() && requests[i] == StopReason::Kill;
            assert(rest[i] == StopReason::Kill);
        }
    }
}

/// The lane holds a request of the highest severity raised on it, whatever the order: coalescing
/// loses no severity that was reached.
pub proof fn coalescing_keeps_the_highest_severity(requests: Seq<StopReason>, i: int)
    requires
        0 <= i < requests.len(),
    ensures
        ({
            let end = raised_all(LaneState { reason: None, generation: 0 }, requests);
            &&& end.reason is Some
            &&& severity(end.reason->0).level() >= severity(requests[i]).level()
            &&& requests.contains(end.reason->0)
        }),
    decreases requests.len(),
{
    let fresh = LaneState { reason: None, generation: 0 };
    let rest = requests.drop_last();
    let last = requests.last();
    let before = raised_all(fresh, rest);
    assert(raised_all(fresh, requests) == before.raised(last));
    assert(requests[requests.len() - 1] == last);
    if rest.len() > 0 {
        let j: int = if i < rest.len() {
            i
        } else {
            0
        };
        coalescing_keeps_the_highest_severity(rest, j);
        assert(rest[j] == requests[j]);
        let k = choose|k: int| 0 <= k < rest.len() && rest[k] == before.reason->0;
        assert(requests[k] == before.reason->0);
        if i < rest.len() {
            assert(rest[i] == requests[i]);
        }
    } else {
        assert(before == fresh);
    }
}

/// A rejected raise changes nothing; an accepted one changes the generation, so that the run loop
/// always sees it, even where it carries the very request that was pending.
pub proof fn accepted_raises_are_observable(state: LaneState, reason: StopReason)
    ensures
        !state.takes(reason) ==> state.raised(reason) == state,
        state.takes(reason) ==> {
            &&& state.raised(reason).reason == Some(reason)
            &&& state.raised(reason).generation != state.generation
        },
        state.reason == Some(reason) ==> state.takes(reason),
{
}

/// What a raise found on a lane, and what it left there.
#[derive(Debug)]
pub struct LaneChange {
    /// The state of the lane just before the raise.
    pub before: LaneState,
    /// The state of the lane just after the raise.
    pub after: LaneState,
}

/// Whether the given changes are those of raises with the given reasons on one lane, one after the
/// other, each of which found what the one before it left.
pub open spec fn successive(changes: Seq<LaneChange>, requests: Seq<StopReason>) -> bool {
    &&& changes.len() == requests.len()
    &&& forall|i: int|
        0 <= i < changes.len() ==> (#[trigger] changes[i]).after == changes[i].before.raised(
            requests[i],
        )
    &&& forall|i: int|
        0 <= i < changes.len() - 1 ==> (#[trigger] changes[i]).after == changes[i + 1].before
}

/// Over any sequence of raises on a lane, of whoever raises, the pending severity never decreases:
/// what a later raise leaves is at least as severe as what an earlier one found or left. A raise that
/// is accepted is what is pending then, and a lane is never cleared.
pub proof fn raises_never_lower_the_severity(
    changes: Seq<LaneChange>,
    requests: Seq<StopReason>,
    i: int,
    j: int,
)
    requires
        successive(changes, requests),
        0 <= i <= j < changes.len(),
    ensures
        changes[j].after.reason is Some,
        severity(changes[j].after.reason->0).level() >= severity(requests[i]).level(),
        changes[i].before.reason is Some ==> severity(changes[j].after.reason->0).level()
            >= severity(changes[i].before.reason->0).level(),
        changes[i].after.reason is Some && severity(changes[j].after.reason->0).level()
            >= severity(changes[i].after.reason->0).level(),
        changes[i].before.takes(requests[i]) ==> changes[i].after == (LaneState {
            reason: Some(requests[i]),
            generation: crate::types::after_number(changes[i].before.generation),
        }),
        !changes[i].before.takes(requests[i]) ==> changes[i].after == changes[i].before,
    decreases j - i,
{
    if i < j {
        raises_never_lower_the_severity(changes, requests, i, j - 1);
        assert(changes[j - 1].after == changes[j].before);
    }
    assert(changes[j].after == changes[j].before.raised(requests[j]));
}

/// A request is taken exactly if none is pending or if it is at least as severe as the pending one;
/// Kill is more severe than a failure or a cancellation, and these are more severe than a graceful
/// stop or a request of the parent. A request that is taken is the pending one then, and the
/// generation is one higher, back at zero behind its highest; one that is not changes nothing.
pub proof fn severity_decides_on_requests(state: LaneState, reason: StopReason)
    ensures
        ({
            let pending = state.reason->0;
            let mild = |r: StopReason| r is Graceful || r is ParentRequest;
            let refused = state.reason is Some && ((pending is Kill && !(reason is Kill)) || (!mild(
                pending,
            ) && mild(reason)));
            &&& state.takes(reason) <==> !refused
            &&& refused ==> state.raised(reason) == state
            &&& !refused ==> state.raised(reason).reason == Some(reason)
            &&& !refused && state.generation < u64::MAX ==> state.raised(reason).generation
                == state.generation + 1
            &&& !refused && state.generation == u64::MAX ==> state.raised(reason).generation == 0
        }),
{
}

/// `tokio::sync::watch::Sender`, the writing half of a watch cell.
#[verifier::external_type_specification]
#[verifier::external_body]
#[verifier::reject_recursive_types(T)]
pub struct ExWatchSender<T>(tokio::sync::watch::Sender<T>);

/// `tokio::sync::watch::Receiver`, the reading half of a watch cell.
#[verifier::external_type_specification]
#[verifier::external_body]
#[verifier::reject_recursive_types(T)]
pub struct ExWatchReceiver<T>(tokio::sync::watch::Receiver<T>);

/// `tokio::sync::watch::Sender::clone`: one more sender of the same cell. A sender is a shared
/// reference to its cell and nothing else, so the clone is the same value.
pub assume_specification<T>[ <tokio::sync::watch::Sender<T> as std::clone::Clone>::clone ](
    sender: &tokio::sync::watch::Sender<T>,
) -> (copy: tokio::sync::watch::Sender<T>)
    ensures
        copy == *sender,
;

/// What `tokio::sync::watch::channel` was given when it opened the cell that both halves belong to;
/// nothing where they belong to different cells. What the cell holds later on is another matter:
/// whoever has a sender of it can change that.
pub uninterp spec fn opened_with(
    tx: watch::Sender<LaneState>,
    rx: watch::Receiver<LaneState>,
) -> Option<LaneState>;

/// Calls `tokio::sync::watch::channel`: the two halves of one fresh cell, which was opened with
/// `state`. What the cell holds from then on is shared with every clone of its sender, so nothing is
/// claimed of that.
#[verifier::external_body]
fn open_cell(state: LaneState) -> (halves: (watch::Sender<LaneState>, watch::Receiver<LaneState>))
    ensures
        opened_with(halves.0, halves.1) == Some(state),
{
    watch::channel(state)
}

/// Records a stop request as [`LaneState::accept`] does, and notes what was found and left.
fn accept_noting(state: &mut LaneState, reason: StopReason, change: &mut Option<LaneChange>) -> (accepted:
    bool)
    ensures
        accepted == old(state).takes(reason),
        *final(state) == old(state).raised(reason),
        *final(change) == Some(LaneChange { before: *old(state), after: *final(state) }),
{
    let before: LaneState = state.clone();
    let accepted: bool = state.accept(reason);
    *change = Some(LaneChange { before, after: state.clone() });
    accepted
}

/// Whether the change is one that `tokio::sync::watch::Sender::send_if_modified` makes to the cell of
/// the given sender, at one time or another.
pub uninterp spec fn made_on(cell: watch::Sender<LaneState>, change: LaneChange) -> bool;

/// Calls `tokio::sync::watch::Sender::send_if_modified` with [`accept_noting`] as the change. The
/// change runs exactly once, on what the shared cell holds at that moment, while nobody else can
/// change the cell: the result is what the change found there and what it left, and it is made on
/// that cell. What it finds others decide, so nothing is claimed of that.
#[verifier::external_body]
fn update_cell(cell: &watch::Sender<LaneState>, reason: StopReason) -> (change: Option<LaneChange>)
    ensures
        change is Some,
        made_on(*cell, change->0),
        change->0.after == change->0.before.raised(reason),
{
    let mut change = None;
    cell.send_if_modified(|state| accept_noting(state, reason, &mut change));
    change
}

/// Calls `tokio::sync::watch::Sender::is_closed`: whether every receiver of the cell is gone,
/// which others decide, so nothing is claimed of the result here.
#[verifier::external_body]
fn cell_closed(cell: &watch::Sender<LaneState>) -> (closed: bool) {
    cell.is_closed()
}

/// Per-actor stop/kill signal.
///
/// Severity only ever increases: a Kill already raised is never displaced by a later request,
/// while a request at the same severity as the pending one still lands and bumps the generation.
/// Raises that land between two observations coalesce into the single latest state (see
/// [`LaneState::accept`], which every raise goes through).
#[derive(Debug)]
pub struct StopLane {
    tx: watch::Sender<LaneState>,
}

impl Clone for StopLane {
    fn clone(&self) -> (copy: Self)
        ensures
            copy == *self,
    {
        StopLane { tx: self.tx.clone() }
    }
}

impl StopLane {
    /// The state that the lane was opened with, where `rx` receives what is raised on it; nothing
    /// where `rx` receives from another lane.
    pub closed spec fn opened(self, rx: watch::Receiver<LaneState>) -> Option<LaneState> {
        opened_with(self.tx, rx)
    }

    /// Whether the change is one that is made to the lane, at one time or another.
    pub closed spec fn made(self, change: LaneChange) -> bool {
        made_on(self.tx, change)
    }

    /// Creates a fresh, unraised lane and the run loop's receiving half.
    pub fn new() -> (halves: (StopLane, watch::Receiver<LaneState>))
        ensures
            halves.0.opened(halves.1) == Some(LaneState { reason: None, generation: 0 }),
    {
        let (tx, rx) = open_cell(LaneState::default());
        (StopLane { tx }, rx)
    }

    /// Raises a stop request at `reason`'s severity. A no-op if a strictly higher severity is
    /// already pending, and harmless if the actor has already finished its message loop. Returns
    /// what was found on the lane and what was left there.
    pub fn raise(&self, reason: StopReason) -> (change: LaneChange)
        ensures
            self.made(change),
            change.after == change.before.raised(reason),
    {
        update_cell(&self.tx, reason).unwrap()
    }

    /// True once the actor has finished its message loop and stopped observing this lane.
    pub fn is_closed(&self) -> (closed: bool) {
        cell_closed(&self.tx)
    }
}

} // verus!
