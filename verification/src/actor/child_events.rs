//! What a supervisor does about the deaths and restarts of its children.
//!
//! A supervisor learns of a death, or of the outcome of a restart attempt, one at a time. Each is
//! decided here: the state of the supervisor is brought up to date, and what is left to do outside
//! (start a restart attempt, signal members of a group, call `on_child_stopped`) is handed back.

use std::collections::VecDeque;
use vstd::prelude::*;
use crate::actor::ids::{list_contains, texts, IdSet};
use crate::actor::lifecycle::{ChildLifecycle, ManualStop};
use crate::actor::registry::{child, downed, listed, with_lifecycle, ChildRegistry, ChildView};
use crate::actor::supervision::{
    advance_restart_chain, attempt_view, deaths, evaluate_strategy, live_sibling, Attempt,
    AttemptView, GroupPhase, GroupRestart, GroupRestartView, GroupView, OutcomeView,
    StrategyOutcome, SupervisionState, SupervisionView,
};
use crate::error::{ActorError, SpawnError, SupervisionError};
use crate::time::Instant;
use crate::types::{
    copy_name, ActorId, ChildEvent, ChildEventView, ChildStoppedInternal, DeathView,
    RestartStrategy, RestartType, Shutdown, StopReason, SupervisionAction,
};

verus! {

// ---------------------------------------------------------------------------
// Parts of a decision
// ---------------------------------------------------------------------------

impl SupervisionView {
    /// The state after the stop phase of a group restart took note of the child's death.
    pub open spec fn death_noted(self, id: Seq<char>) -> SupervisionView {
        match self.pending_group {
            Some(GroupView::Stopping(group)) => SupervisionView {
                pending_group: if self.chain_due(id) is Some {
                    None
                } else {
                    Some(
                        GroupView::Stopping(
                            GroupRestartView { awaiting: group.awaiting.remove(id), ..group },
                        ),
                    )
                },
                ..self
            },
            _ => self,
        }
    }

    /// The members to restart, where the child's death was the last one that the stop phase of a
    /// group restart waited for.
    pub open spec fn chain_due(self, id: Seq<char>) -> Option<Seq<Seq<char>>> {
        match self.pending_group {
            Some(GroupView::Stopping(group)) => if group.awaiting.contains(id)
                && group.awaiting.remove(id) == Set::<Seq<char>>::empty() {
                Some(group.chain())
            } else {
                None
            },
            _ => None,
        }
    }

    /// The state after the given chain, if any, was begun.
    pub open spec fn begun(self, chain: Option<Seq<Seq<char>>>, seq: u64) -> SupervisionView {
        match chain {
            Some(order) => self.chained(order).front_initiated(seq),
            None => self,
        }
    }

    /// The attempt that is started when the given chain, if any, is begun.
    pub open spec fn begun_attempt(
        self,
        chain: Option<Seq<Seq<char>>>,
        seq: u64,
    ) -> Option<AttemptView> {
        match chain {
            Some(order) => self.chained(order).front_started(seq),
            None => None,
        }
    }

    /// The queued deaths that are released when the given chain, if any, is begun.
    pub open spec fn begun_released(self, chain: Option<Seq<Seq<char>>>) -> Seq<DeathView> {
        match chain {
            Some(order) => self.chained(order).released(),
            None => Seq::empty(),
        }
    }

    /// Whether a failed restart attempt is what the given death reports.
    pub open spec fn attempt_failed(self, ev: DeathView) -> bool {
        listed(self.children, ev.child_id) && child(
            self.children,
            ev.child_id,
        ).lifecycle.awaits(ev.incarnation)
    }

    /// The name under which the child is registered.
    pub open spec fn name_of(self, id: Seq<char>) -> Option<Seq<char>> {
        if listed(self.children, id) {
            child(self.children, id).name
        } else {
            None
        }
    }
}

impl SupervisionState {
    /// Takes note of the child's death in the stop phase of a group restart. Returns the members
    /// to restart, in start order, where this was the last death that was waited for.
    fn note_group_death(&mut self, id: &ActorId) -> (due: Option<Vec<ActorId>>)
        ensures
            final(self)@ == old(self)@.death_noted(id@),
            due is Some == old(self)@.chain_due(id@) is Some,
            due is Some ==> texts(due->0@) == old(self)@.chain_due(id@)->0,
    {
        let mut due: Option<Vec<ActorId>> = None;
        if let Some(GroupPhase::Stopping(group)) = &mut self.pending_group {
            if group.awaiting.remove(id) && group.awaiting.is_empty() {
                due = Some(group.remaining_order());
            }
        }
        if due.is_some() {
            self.pending_group = None;
        }
        due
    }

    /// Whether the stop phase of a group restart awaits the child's death.
    pub fn group_stopping_awaiting(&self, id: &ActorId) -> (awaited: bool)
        ensures
            awaited == self@.awaits_death(id@),
    {
        match &self.pending_group {
            Some(GroupPhase::Stopping(group)) => group.awaiting.contains(id),
            _ => false,
        }
    }

    /// The name under which the child is registered.
    fn name_for(&self, id: &ActorId) -> (name: Option<String>)
        ensures
            crate::types::name_text(name) == self@.name_of(id@),
    {
        match self.registry.get(id) {
            Some(child) => copy_name(&child.name),
            None => None,
        }
    }

    /// Asks for a restart of the child with the token `seq`.
    fn initiate_restart(&mut self, child_id: &ActorId, seq: u64) -> (attempt: Option<Attempt>)
        ensures
            final(self)@ == old(self)@.initiated(child_id@, seq),
            attempt_view(attempt) == old(self)@.started(child_id@, seq),
    {
        if self.initiate(child_id, seq) {
            Some(Attempt { child_id: child_id.clone(), seq })
        } else {
            None
        }
    }

    /// Removes the child's spec if it goes as soon as the child is down for good: a Temporary one,
    /// and every one under SimpleOneForOne.
    pub fn prune_spec_if_needed(&mut self, child_id: &ActorId)
        ensures
            final(self)@ == old(self)@.pruned(child_id@),
    {
        let temporary: bool = match self.registry.get(child_id) {
            Some(child) => child.spec.restart_type == RestartType::Temporary,
            None => false,
        };
        if self.config.strategy == RestartStrategy::SimpleOneForOne || temporary {
            self.remove_spec(child_id);
        }
    }

    /// Removes the child's spec.
    fn remove_spec(&mut self, child_id: &ActorId)
        ensures
            final(self)@ == old(self)@.removed(child_id@),
    {
        self.registry.remove(child_id);
        self.restart_fns.remove(child_id);
    }
}

/// Settles a child from a restart attempt in flight back to `Down` when `ev` reports that exact
/// attempt's own failure. Returns whether it did.
fn settle_restarting_attempt(registry: &mut ChildRegistry, ev: &ChildStoppedInternal) -> (matched:
    bool)
    ensures
        matched == (listed(old(registry)@, ev@.child_id) && child(
            old(registry)@,
            ev@.child_id,
        ).lifecycle.awaits(ev.incarnation)),
        final(registry)@ == if matched {
            downed(old(registry)@, ev@.child_id)
        } else {
            old(registry)@
        },
{
    let matched: bool = match registry.get(&ev.child_id) {
        Some(child) => child.lifecycle.awaits_attempt(ev.incarnation),
        None => false,
    };
    if matched {
        registry.settle(&ev.child_id);
    }
    matched
}

/// Starts the sequential restart chain of a group whose stop phase is over. Members that are live
/// already are passed over; where every one is, the deaths queued meanwhile are released.
fn start_restart_chain(
    sup: &mut SupervisionState,
    order: Vec<ActorId>,
    work: &mut VecDeque<ChildStoppedInternal>,
    seq: u64,
) -> (attempt: Option<Attempt>)
    ensures
        final(sup)@ == old(sup)@.begun(Some(texts(order@)), seq),
        attempt_view(attempt) == old(sup)@.begun_attempt(Some(texts(order@)), seq),
        deaths(final(work)@) == deaths(old(work)@) + old(sup)@.begun_released(Some(texts(order@))),
{
    sup.pending_group = Some(GroupPhase::Restarting(order));
    match advance_restart_chain(sup, work) {
        Some(front) => sup.initiate_restart(&front, seq),
        None => None,
    }
}

// ---------------------------------------------------------------------------
// Manual stops
// ---------------------------------------------------------------------------

/// Whether a stop that was asked for turned out to be a crash that the restart strategy has to
/// deal with: a bounce of a child that failed.
pub open spec fn is_crash(kind: ManualStop, reason: StopReason) -> bool {
    kind == ManualStop::Bounce && reason is Failure
}

impl SupervisionView {
    /// Whether the child is restarted, free of charge, after a manual stop of the given kind.
    pub open spec fn bounces(self, id: Seq<char>, kind: ManualStop) -> bool {
        &&& kind == ManualStop::Bounce
        &&& self.config.strategy != RestartStrategy::SimpleOneForOne
        &&& listed(self.children, id)
        &&& child(self.children, id).spec.restart_type == RestartType::Permanent
    }

    /// The action that is reported for a manual stop of the given kind.
    pub open spec fn manual_action(self, id: Seq<char>, kind: ManualStop) -> SupervisionAction {
        if self.bounces(id, kind) {
            SupervisionAction::RestartInitiated
        } else {
            SupervisionAction::Removed
        }
    }

    /// The state after the child's spec was disposed of as a manual stop of the given kind asks.
    pub open spec fn disposed(self, id: Seq<char>, kind: ManualStop, seq: u64) -> SupervisionView {
        if self.bounces(id, kind) {
            self.initiated(id, seq)
        } else {
            self.pruned(id)
        }
    }

    /// The state in which the child, unless its restart is in flight, is down with its event
    /// pending.
    pub open spec fn left_down(self, id: Seq<char>, incarnation: u64) -> SupervisionView {
        if listed(self.children, id) && !(child(self.children, id).lifecycle is Restarting) {
            SupervisionView {
                children: with_lifecycle(
                    self.children,
                    id,
                    ChildLifecycle::Down { incarnation, event_pending: true },
                ),
                ..self
            }
        } else {
            self
        }
    }

    /// The event that a manual stop of the child is reported with.
    pub open spec fn manual_event(
        self,
        id: Seq<char>,
        kind: ManualStop,
        reason: StopReason,
    ) -> ChildEventView {
        ChildEventView {
            child_id: id,
            child_name: self.name_of(id),
            reason,
            action: self.manual_action(id, kind),
        }
    }

    /// The state after a manual stop was classified by the reason for which the child really
    /// stopped. A crash is left to the restart strategy; else the child's spec is disposed of and
    /// the event waits for the death to arrive. The budget is not touched.
    pub open spec fn classified(
        self,
        id: Seq<char>,
        incarnation: u64,
        kind: ManualStop,
        reason: StopReason,
        seq: u64,
    ) -> SupervisionView {
        if is_crash(kind, reason) {
            SupervisionView {
                children: with_lifecycle(
                    self.children,
                    id,
                    ChildLifecycle::Down { incarnation, event_pending: false },
                ),
                ..self
            }
        } else {
            SupervisionView {
                pending_manual_events: self.pending_manual_events.insert(
                    (id, incarnation),
                    self.manual_event(id, kind, reason),
                ),
                ..self.disposed(id, kind, seq).left_down(id, incarnation)
            }
        }
    }

    /// The attempt that is started when a manual stop is classified.
    pub open spec fn classified_attempt(
        self,
        id: Seq<char>,
        kind: ManualStop,
        reason: StopReason,
        seq: u64,
    ) -> Option<AttemptView> {
        if !is_crash(kind, reason) && self.bounces(id, kind) {
            self.started(id, seq)
        } else {
            None
        }
    }
}

impl SupervisionState {
    /// Classifies a manual stop by the reason for which the child really stopped, and keeps the
    /// event that the child's death is to be reported with. A bounce of a child that failed is no
    /// manual stop any more: it is left to be evaluated as an ordinary crash. Returns the restart
    /// attempt to start, if any.
    pub fn classify_manual_completion(
        &mut self,
        id: &ActorId,
        incarnation: u64,
        kind: ManualStop,
        reason: StopReason,
        seq: u64,
    ) -> (attempt: Option<Attempt>)
        ensures
            final(self)@ == old(self)@.classified(id@, incarnation, kind, reason, seq),
            attempt_view(attempt) == old(self)@.classified_attempt(id@, kind, reason, seq),
    {
        if kind == ManualStop::Bounce && matches!(reason, StopReason::Failure(_)) {
            self.registry.transition(id, ChildLifecycle::Down { incarnation, event_pending: false });
            return None;
        }
        let simple: bool = self.config.strategy == RestartStrategy::SimpleOneForOne;
        let permanent: bool = match self.registry.get(id) {
            Some(child) => child.spec.restart_type == RestartType::Permanent,
            None => false,
        };
        let child_name: Option<String> = self.name_for(id);
        let mut attempt: Option<Attempt> = None;
        let action: SupervisionAction = if kind == ManualStop::Bounce && !simple && permanent {
            attempt = self.initiate_restart(id, seq);
            SupervisionAction::RestartInitiated
        } else {
            self.prune_spec_if_needed(id);
            SupervisionAction::Removed
        };
        let in_flight: bool = match self.registry.get(id) {
            Some(child) => matches!(child.lifecycle, ChildLifecycle::Restarting { .. }),
            None => false,
        };
        if !in_flight {
            self.registry.transition(id, ChildLifecycle::Down { incarnation, event_pending: true });
        }
        let event: ChildEvent = ChildEvent { child_id: id.clone(), child_name, reason, action };
        self.pending_manual_events.insert(id.clone(), incarnation, event);
        attempt
    }
}

// ---------------------------------------------------------------------------
// Deaths
// ---------------------------------------------------------------------------

/// A member of a group that is to be told to stop, as its shutdown policy says.
#[derive(Debug)]
pub struct MemberStop {
    /// The member.
    pub child_id: ActorId,
    /// Its shutdown policy.
    pub shutdown: Shutdown,
}

/// What the given stops hold.
pub open spec fn stops_view(stops: Seq<MemberStop>) -> Seq<(Seq<char>, Shutdown)> {
    stops.map_values(|stop: MemberStop| (stop.child_id@, stop.shutdown))
}

/// The given members, each with its shutdown policy.
pub open spec fn stops_for(children: Seq<ChildView>, ids: Seq<Seq<char>>) -> Seq<
    (Seq<char>, Shutdown),
> {
    ids.map_values(|id: Seq<char>| (id, child(children, id).spec.shutdown))
}

/// What is left to do outside after one death was decided: start the attempt, tell the members to
/// stop in the given order, then hand the event to `on_child_stopped`.
#[derive(Debug)]
pub struct DeathStep {
    /// A restart attempt to start.
    pub attempt: Option<Attempt>,
    /// Members of a group to tell to stop, in this order.
    pub stops: Vec<MemberStop>,
    /// The event to report, if the death is to be reported.
    pub report: Option<ChildEvent>,
}

/// What a supervisor and its list of deaths to deal with look like after one death was decided,
/// and what is left to do outside.
pub struct StepView {
    /// The state of the supervisor.
    pub sup: SupervisionView,
    /// The deaths to deal with next.
    pub work: Seq<DeathView>,
    /// A restart attempt to start.
    pub attempt: Option<AttemptView>,
    /// Members of a group to tell to stop, in this order.
    pub stops: Seq<(Seq<char>, Shutdown)>,
    /// The event to report, if the death is to be reported.
    pub report: Option<ChildEventView>,
}

/// What an optional event tells.
pub open spec fn report_view(report: Option<ChildEvent>) -> Option<ChildEventView> {
    match report {
        Some(event) => Some(event@),
        None => None,
    }
}

/// An aborted child of a supervisor died by the supervisor's own Kill escalation, and is presented
/// as killed.
pub open spec fn presented(reason: StopReason) -> StopReason {
    if reason is Cancelled {
        StopReason::Kill
    } else {
        reason
    }
}

/// The reason as it is presented for a child of a supervisor.
pub fn present(reason: StopReason) -> (shown: StopReason)
    ensures
        shown == presented(reason),
{
    match reason {
        StopReason::Cancelled => StopReason::Kill,
        reason => reason,
    }
}

impl SupervisionView {
    /// The decision that leaves nothing to do outside.
    pub open spec fn quietly(self, work: Seq<DeathView>) -> StepView {
        StepView { sup: self, work, attempt: None, stops: Seq::empty(), report: None }
    }

    /// Whether the death is that of a manual stop whose event waits for it.
    pub open spec fn awaited_manually(self, ev: DeathView) -> bool {
        self.pending_manual_events.dom().contains((ev.child_id, ev.incarnation))
    }

    /// The state after the event of a manual stop was taken, and the child that it is about was
    /// marked as reported.
    pub open spec fn event_taken(self, ev: DeathView) -> SupervisionView {
        let id = ev.child_id;
        let lifecycle = child(self.children, id).lifecycle;
        let reported = ChildLifecycle::Down { incarnation: ev.incarnation, event_pending: false };
        SupervisionView {
            children: if listed(self.children, id) && lifecycle.own() == ev.incarnation && (
            self.awaits_death(id) || lifecycle == (ChildLifecycle::Down {
                incarnation: ev.incarnation,
                event_pending: true,
            })) {
                with_lifecycle(self.children, id, reported)
            } else {
                self.children
            },
            pending_manual_events: self.pending_manual_events.remove((id, ev.incarnation)),
            ..self
        }
    }

    /// The death of a manual stop whose event waits for it: that event is reported, and a group
    /// that waited for the death takes note of it.
    pub open spec fn manual_death(self, ev: DeathView, work: Seq<DeathView>, seq: u64) -> StepView {
        let noted = self.event_taken(ev).death_noted(ev.child_id);
        let chain = self.chain_due(ev.child_id);
        StepView {
            sup: noted.begun(chain, seq),
            work: work + noted.begun_released(chain),
            attempt: noted.begun_attempt(chain, seq),
            stops: Seq::empty(),
            report: Some(self.pending_manual_events[(ev.child_id, ev.incarnation)]),
        }
    }

    /// Whether the child is in the middle of a manual stop that nobody has classified yet, and this
    /// is its death.
    pub open spec fn unclassified(self, ev: DeathView) -> bool {
        let lifecycle = child(self.children, ev.child_id).lifecycle;
        listed(self.children, ev.child_id) && lifecycle is Stopping && lifecycle.own()
            == ev.incarnation
    }

    /// The death of a manual stop that nobody has classified yet: it is classified, as it is
    /// presented, and the death is dealt with once more.
    pub open spec fn unclassified_death(
        self,
        ev: DeathView,
        work: Seq<DeathView>,
        seq: u64,
    ) -> StepView {
        let kind = child(self.children, ev.child_id).lifecycle->Stopping_kind;
        StepView {
            sup: self.classified(ev.child_id, ev.incarnation, kind, presented(ev.reason), seq),
            work: seq![ev] + work,
            attempt: self.classified_attempt(ev.child_id, kind, presented(ev.reason), seq),
            stops: Seq::empty(),
            report: None,
        }
    }

    /// Whether the death is one of an instance that was replaced.
    pub open spec fn stale(self, ev: DeathView) -> bool {
        listed(self.children, ev.child_id) && !child(
            self.children,
            ev.child_id,
        ).lifecycle.accepts(ev.incarnation)
    }

    /// The death as it is presented.
    pub open spec fn presents(self, ev: DeathView) -> DeathView {
        if listed(self.children, ev.child_id) {
            DeathView { reason: presented(ev.reason), ..ev }
        } else {
            ev
        }
    }

    /// The state in which the child is down.
    pub open spec fn settled_down(self, id: Seq<char>) -> SupervisionView {
        SupervisionView { children: downed(self.children, id), ..self }
    }

    /// The members that the group restart in flight still means to restart.
    pub open spec fn group_members(self) -> Seq<Seq<char>> {
        match self.pending_group {
            Some(GroupView::Stopping(group)) => group.restart_order,
            Some(GroupView::Restarting(queue)) => queue,
            None => Seq::empty(),
        }
    }

    /// A death that a group restart in flight does not wait for. A restart attempt that it reports
    /// as failed is settled; the death itself is dropped if the group restarts the child anyway,
    /// and queued until the group is complete if not.
    pub open spec fn deferred(self, ev: DeathView) -> SupervisionView {
        let failed = self.attempt_failed(ev);
        SupervisionView {
            children: if failed {
                downed(self.children, ev.child_id)
            } else {
                self.children
            },
            queued_triggers: if failed && self.group_members().contains(ev.child_id) {
                self.queued_triggers
            } else {
                self.queued_triggers.push(ev)
            },
            ..self
        }
    }

    /// Whether the child was terminated while the stop phase of a group restart was in flight.
    pub open spec fn overridden(self, id: Seq<char>) -> bool {
        match self.pending_group {
            Some(GroupView::Stopping(group)) => group.manual_overrides.contains(id),
            _ => false,
        }
    }

    /// Whether a member of a group restart stays down once it has stopped with the group: it was
    /// terminated meanwhile, or it is Temporary.
    pub open spec fn drops_out(self, id: Seq<char>) -> bool {
        self.overridden(id) || (listed(self.children, id) && child(
            self.children,
            id,
        ).spec.restart_type == RestartType::Temporary)
    }

    /// A death that the stop phase of a group restart waits for. It is reported as a restart,
    /// unless the child was terminated meanwhile or is Temporary: then its spec is disposed of and
    /// it is reported as removed. The last such death begins the restart chain.
    pub open spec fn member_death(self, ev: DeathView, work: Seq<DeathView>, seq: u64) -> StepView {
        let noted = self.settled_down(ev.child_id).death_noted(ev.child_id);
        let chain = self.chain_due(ev.child_id);
        let begun = noted.begun(chain, seq);
        StepView {
            sup: if self.drops_out(ev.child_id) {
                begun.pruned(ev.child_id)
            } else {
                begun
            },
            work: work + noted.begun_released(chain),
            attempt: noted.begun_attempt(chain, seq),
            stops: Seq::empty(),
            report: Some(
                ChildEventView {
                    child_id: ev.child_id,
                    child_name: self.name_of(ev.child_id),
                    reason: ev.reason,
                    action: if self.drops_out(ev.child_id) {
                        SupervisionAction::Removed
                    } else {
                        SupervisionAction::RestartInitiated
                    },
                },
            ),
        }
    }

    /// Whether the child is the one whose restart the chain of a group restart waits for.
    pub open spec fn at_chain_front(self, id: Seq<char>) -> bool {
        match self.pending_group {
            Some(GroupView::Restarting(queue)) => queue.len() > 0 && queue[0] == id,
            _ => false,
        }
    }

    /// The death of the member whose restart the chain of a group restart waits for: it is
    /// restarted once more, charging the budget.
    pub open spec fn front_death(
        self,
        ev: DeathView,
        work: Seq<DeathView>,
        seq: u64,
        now: Instant,
    ) -> StepView {
        let down = self.settled_down(ev.child_id);
        let charged = SupervisionView { budget: down.budget.charged(now), ..down };
        let allowed = self.budget.allows(now);
        StepView {
            sup: if allowed {
                charged.initiated(ev.child_id, seq)
            } else {
                charged
            },
            work,
            attempt: if allowed {
                charged.started(ev.child_id, seq)
            } else {
                None
            },
            stops: Seq::empty(),
            report: Some(
                ChildEventView {
                    child_id: ev.child_id,
                    child_name: self.name_of(ev.child_id),
                    reason: ev.reason,
                    action: if allowed {
                        SupervisionAction::RestartInitiated
                    } else {
                        SupervisionAction::BudgetExhausted
                    },
                },
            ),
        }
    }

    /// The state in which the given members are told to stop before a group restart.
    pub open spec fn stopping(
        self,
        stop_reverse: Seq<Seq<char>>,
        restart_order: Seq<Seq<char>>,
    ) -> SupervisionView {
        SupervisionView {
            pending_group: Some(
                GroupView::Stopping(
                    GroupRestartView {
                        awaiting: Set::new(|id: Seq<char>| stop_reverse.contains(id)),
                        restart_order,
                        manual_overrides: Set::empty(),
                    },
                ),
            ),
            ..self
        }
    }

    /// A death outside of any group restart: the restart strategy decides.
    pub open spec fn ordinary_death(
        self,
        ev: DeathView,
        work: Seq<DeathView>,
        seq: u64,
        now: Instant,
    ) -> StepView {
        let id = ev.child_id;
        let down = self.settled_down(id);
        let outcome = down.evaluated(id, ev.reason, now);
        let judged = down.after_evaluation(id, ev.reason, now);
        let event = |action: SupervisionAction|
            Some(
                ChildEventView {
                    child_id: id,
                    child_name: self.name_of(id),
                    reason: ev.reason,
                    action,
                },
            );
        match outcome {
            OutcomeView::RestartOne(_) => StepView {
                sup: judged.initiated(id, seq),
                work,
                attempt: judged.started(id, seq),
                stops: Seq::empty(),
                report: event(SupervisionAction::RestartInitiated),
            },
            OutcomeView::RestartGroup { stop_reverse, restart_order } => if stop_reverse.len()
                == 0 {
                StepView {
                    sup: judged.begun(Some(restart_order), seq),
                    work: work + judged.begun_released(Some(restart_order)),
                    attempt: judged.begun_attempt(Some(restart_order), seq),
                    stops: Seq::empty(),
                    report: event(SupervisionAction::RestartInitiated),
                }
            } else {
                StepView {
                    sup: judged.stopping(stop_reverse, restart_order),
                    work,
                    attempt: None,
                    stops: stops_for(judged.children, stop_reverse),
                    report: event(SupervisionAction::RestartInitiated),
                }
            },
            OutcomeView::Remove => StepView {
                sup: judged.pruned(id),
                work,
                attempt: None,
                stops: Seq::empty(),
                report: event(SupervisionAction::Removed),
            },
            OutcomeView::BudgetExhausted => StepView {
                sup: judged,
                work,
                attempt: None,
                stops: Seq::empty(),
                report: event(SupervisionAction::BudgetExhausted),
            },
        }
    }

    /// What a supervisor does about one death.
    pub open spec fn decided(
        self,
        ev: DeathView,
        work: Seq<DeathView>,
        seq: u64,
        now: Instant,
    ) -> StepView {
        if self.awaited_manually(ev) {
            self.manual_death(ev, work, seq)
        } else if self.unclassified(ev) {
            self.unclassified_death(ev, work, seq)
        } else if self.stale(ev) {
            self.quietly(work)
        } else {
            let shown = self.presents(ev);
            if self.awaits_death(ev.child_id) {
                self.member_death(shown, work, seq)
            } else if self.at_chain_front(ev.child_id) {
                self.front_death(shown, work, seq, now)
            } else if self.pending_group is Some {
                self.deferred(shown).quietly(work)
            } else {
                self.ordinary_death(shown, work, seq, now)
            }
        }
    }
}

impl DeathStep {
    /// Whether this step, with the given state and list of deaths, is the given decision.
    pub open spec fn realizes(
        self,
        sup: SupervisionView,
        work: Seq<DeathView>,
        decision: StepView,
    ) -> bool {
        &&& sup == decision.sup
        &&& work == decision.work
        &&& attempt_view(self.attempt) == decision.attempt
        &&& stops_view(self.stops@) == decision.stops
        &&& report_view(self.report) == decision.report
    }

    /// A step that has nothing but an attempt and an event.
    fn new(attempt: Option<Attempt>, report: Option<ChildEvent>) -> (step: DeathStep)
        ensures
            step.attempt == attempt,
            stops_view(step.stops@) == Seq::<(Seq<char>, Shutdown)>::empty(),
            step.report == report,
    {
        let stops: Vec<MemberStop> = Vec::new();
        assert(stops_view(stops@) =~= Seq::<(Seq<char>, Shutdown)>::empty());
        DeathStep { attempt, stops, report }
    }
}

impl SupervisionState {
    /// Marks the child of a manual stop whose event was taken as reported.
    fn close_manual_event(&mut self, ev: &ChildStoppedInternal)
        ensures
            final(self)@ == (SupervisionView {
                pending_manual_events: old(self)@.pending_manual_events,
                ..old(self)@.event_taken(ev@)
            }),
    {
        let awaited: bool = self.group_stopping_awaiting(&ev.child_id);
        let closes: bool = match self.registry.get(&ev.child_id) {
            Some(child) => child.lifecycle.incarnation() == ev.incarnation && (awaited || matches!(
                child.lifecycle,
                ChildLifecycle::Down { event_pending: true, .. }
            )),
            None => false,
        };
        if closes {
            self.registry.transition(
                &ev.child_id,
                ChildLifecycle::Down { incarnation: ev.incarnation, event_pending: false },
            );
        }
    }

    /// Deals with the death of a manual stop whose event waited for it.
    fn deliver_manual_event(
        &mut self,
        ev: &ChildStoppedInternal,
        event: ChildEvent,
        work: &mut VecDeque<ChildStoppedInternal>,
        seq: u64,
    ) -> (step: DeathStep)
        requires
            !old(self)@.awaited_manually(ev@),
        ensures
            ({
                let before = SupervisionView {
                    pending_manual_events: old(self)@.pending_manual_events.insert(
                        (ev@.child_id, ev@.incarnation),
                        event@,
                    ),
                    ..old(self)@
                };
                step.realizes(
                    final(self)@,
                    deaths(final(work)@),
                    before.manual_death(ev@, deaths(old(work)@), seq),
                )
            }),
    {
        proof {
            let key = (ev@.child_id, ev@.incarnation);
            let kept = self@.pending_manual_events;
            assert(kept.insert(key, event@).remove(key) =~= kept);
            assert(kept.remove(key) =~= kept);
        }
        self.close_manual_event(ev);
        let due: Option<Vec<ActorId>> = self.note_group_death(&ev.child_id);
        let attempt: Option<Attempt> = match due {
            Some(order) => start_restart_chain(self, order, work, seq),
            None => None,
        };
        assert(deaths(old(work)@) + Seq::empty() =~= deaths(old(work)@));
        DeathStep::new(attempt, Some(event))
    }

    /// Deals with a death that the stop phase of a group restart waits for.
    fn settle_member(
        &mut self,
        ev: ChildStoppedInternal,
        work: &mut VecDeque<ChildStoppedInternal>,
        seq: u64,
    ) -> (step: DeathStep)
        ensures
            step.realizes(
                final(self)@,
                deaths(final(work)@),
                old(self)@.member_death(ev@, deaths(old(work)@), seq),
            ),
    {
        let overridden: bool = match &self.pending_group {
            Some(GroupPhase::Stopping(group)) => group.manual_overrides.contains(&ev.child_id),
            _ => false,
        };
        let temporary: bool = match self.registry.get(&ev.child_id) {
            Some(child) => child.spec.restart_type == RestartType::Temporary,
            None => false,
        };
        let child_name: Option<String> = self.name_for(&ev.child_id);
        self.registry.settle(&ev.child_id);
        let due: Option<Vec<ActorId>> = self.note_group_death(&ev.child_id);
        let attempt: Option<Attempt> = match due {
            Some(order) => start_restart_chain(self, order, work, seq),
            None => None,
        };
        assert(deaths(old(work)@) + Seq::empty() =~= deaths(old(work)@));
        let action: SupervisionAction = if overridden || temporary {
            self.prune_spec_if_needed(&ev.child_id);
            SupervisionAction::Removed
        } else {
            SupervisionAction::RestartInitiated
        };
        DeathStep::new(
            attempt,
            Some(ChildEvent { child_id: ev.child_id, child_name, reason: ev.reason, action }),
        )
    }

    /// Deals with the death of the member whose restart the chain of a group restart waits for.
    fn retry_front(&mut self, ev: ChildStoppedInternal, seq: u64, now: Instant) -> (step: DeathStep)
        ensures
            forall|work: Seq<DeathView>|
                #![trigger old(self)@.front_death(ev@, work, seq, now)]
                step.realizes(
                    final(self)@,
                    work,
                    old(self)@.front_death(ev@, work, seq, now),
                ),
    {
        let child_name: Option<String> = self.name_for(&ev.child_id);
        self.registry.settle(&ev.child_id);
        let mut attempt: Option<Attempt> = None;
        let action: SupervisionAction = if self.budget.check_and_record(now) {
            attempt = self.initiate_restart(&ev.child_id, seq);
            SupervisionAction::RestartInitiated
        } else {
            SupervisionAction::BudgetExhausted
        };
        DeathStep::new(
            attempt,
            Some(ChildEvent { child_id: ev.child_id, child_name, reason: ev.reason, action }),
        )
    }

    /// Deals with a death that a group restart in flight does not wait for.
    fn defer(&mut self, ev: ChildStoppedInternal)
        ensures
            final(self)@ == old(self)@.deferred(ev@),
    {
        let member: bool = match &self.pending_group {
            Some(GroupPhase::Stopping(group)) => {
                list_contains(&group.restart_order, &ev.child_id)
            },
            Some(GroupPhase::Restarting(queue)) => {
                list_contains(queue, &ev.child_id)
            },
            None => false,
        };
        let failed: bool = settle_restarting_attempt(&mut self.registry, &ev);
        if !(failed && member) {
            let ghost before = self.queued_triggers@;
            self.queued_triggers.push_back(ev);
            assert(deaths(self.queued_triggers@) =~= deaths(before).push(ev@));
        }
    }

    /// The given members, each with its shutdown policy.
    fn begin_group_stop(&self, stop_reverse: &Vec<ActorId>) -> (stops: Vec<MemberStop>)
        requires
            forall|i: int| 0 <= i < stop_reverse.len() ==> listed(self@.children, stop_reverse[i]@),
        ensures
            stops_view(stops@) == stops_for(self@.children, texts(stop_reverse@)),
    {
        let mut stops: Vec<MemberStop> = Vec::new();
        let mut i: usize = 0;
        while i < stop_reverse.len()
            invariant
                i <= stop_reverse.len(),
                forall|j: int|
                    0 <= j < stop_reverse.len() ==> listed(self@.children, stop_reverse[j]@),
                stops.len() == i,
                forall|j: int|
                    0 <= j < i ==> (#[trigger] stops[j]).child_id@ == stop_reverse[j]@
                        && stops[j].shutdown == child(
                        self@.children,
                        stop_reverse[j]@,
                    ).spec.shutdown,
            decreases stop_reverse.len() - i,
        {
            let id: &ActorId = &stop_reverse[i];
            assert(listed(self@.children, stop_reverse[i as int]@));
            if let Some(child) = self.registry.get(id) {
                stops.push(MemberStop { child_id: id.clone(), shutdown: child.spec.shutdown });
            }
            i += 1;
        }
        assert(stops_view(stops@) =~= stops_for(self@.children, texts(stop_reverse@)));
        stops
    }

    /// Deals with a death outside of any group restart.
    fn judge(
        &mut self,
        ev: ChildStoppedInternal,
        work: &mut VecDeque<ChildStoppedInternal>,
        seq: u64,
        now: Instant,
    ) -> (step: DeathStep)
        ensures
            step.realizes(
                final(self)@,
                deaths(final(work)@),
                old(self)@.ordinary_death(ev@, deaths(old(work)@), seq, now),
            ),
    {
        let child_name: Option<String> = self.name_for(&ev.child_id);
        self.registry.settle(&ev.child_id);
        let ghost down = self@;
        let outcome: StrategyOutcome = evaluate_strategy(self, &ev.child_id, &ev.reason, now);
        let mut attempt: Option<Attempt> = None;
        let mut stops: Vec<MemberStop> = Vec::new();
        assert(stops_view(stops@) =~= Seq::<(Seq<char>, Shutdown)>::empty());
        let action: SupervisionAction = match outcome {
            StrategyOutcome::RestartOne(id) => {
                attempt = self.initiate_restart(&id, seq);
                SupervisionAction::RestartInitiated
            },
            StrategyOutcome::RestartGroup { stop_reverse, restart_order } => {
                if stop_reverse.len() == 0 {
                    attempt = start_restart_chain(self, restart_order, work, seq);
                } else {
                    proof {
                        let live = live_sibling(down.children, ev@.child_id);
                        let members = down.affected(ev@.child_id);
                        assert forall|i: int| 0 <= i < stop_reverse.len() implies listed(
                            self@.children,
                            stop_reverse[i]@,
                        ) by {
                            let kept = members.filter(live);
                            assert(texts(stop_reverse@)[i] == stop_reverse[i]@);
                            assert(kept.reverse()[i] == kept[kept.len() - 1 - i]);
                            members.lemma_filter_contains_rev(live, stop_reverse[i]@);
                        }
                    }
                    stops = self.begin_group_stop(&stop_reverse);
                    let awaiting: IdSet = IdSet::from_list(&stop_reverse);
                    proof {
                        let ids = texts(stop_reverse@);
                        assert(awaiting@ =~= Set::new(|id: Seq<char>| ids.contains(id)));
                    }
                    self.pending_group = Some(
                        GroupPhase::Stopping(
                            GroupRestart { awaiting, restart_order, manual_overrides: IdSet::new() },
                        ),
                    );
                }
                SupervisionAction::RestartInitiated
            },
            StrategyOutcome::Remove => {
                self.prune_spec_if_needed(&ev.child_id);
                SupervisionAction::Removed
            },
            StrategyOutcome::BudgetExhausted => SupervisionAction::BudgetExhausted,
        };
        let report: ChildEvent = ChildEvent {
            child_id: ev.child_id,
            child_name,
            reason: ev.reason,
            action,
        };
        DeathStep { attempt, stops, report: Some(report) }
    }

    /// Decides one death: delivery of the event of a manual stop, classification of a manual stop
    /// that nobody classified, the filter for replaced instances, the bookkeeping of a group
    /// restart, or the restart strategy. `seq` is a token that no incarnation has got yet; it
    /// goes to the restart attempt, if one is started.
    pub fn decide_death(
        &mut self,
        ev: ChildStoppedInternal,
        work: &mut VecDeque<ChildStoppedInternal>,
        seq: u64,
        now: Instant,
    ) -> (step: DeathStep)
        ensures
            step.realizes(
                final(self)@,
                deaths(final(work)@),
                old(self)@.decided(ev@, deaths(old(work)@), seq, now),
            ),
    {
        let waiting: Option<ChildEvent> = self.pending_manual_events.remove(
            &ev.child_id,
            ev.incarnation,
        );
        proof {
            let key = (ev@.child_id, ev@.incarnation);
            let kept = old(self)@.pending_manual_events;
            if kept.dom().contains(key) {
                assert(kept.remove(key).insert(key, kept[key]) =~= kept);
            } else {
                assert(kept.remove(key) =~= kept);
            }
        }
        if let Some(event) = waiting {
            return self.deliver_manual_event(&ev, event, work, seq);
        }
        let unclassified: Option<ManualStop> = match self.registry.get(&ev.child_id) {
            Some(child) => match child.lifecycle {
                ChildLifecycle::Stopping { incarnation, kind } => if incarnation == ev.incarnation {
                    Some(kind)
                } else {
                    None
                },
                _ => None,
            },
            None => None,
        };
        if let Some(kind) = unclassified {
            let attempt: Option<Attempt> = self.classify_manual_completion(
                &ev.child_id,
                ev.incarnation,
                kind,
                present(ev.reason.clone()),
                seq,
            );
            let ghost before = work@;
            work.push_front(ev);
            assert(deaths(work@) =~= seq![ev@] + deaths(before));
            return DeathStep::new(attempt, None);
        }
        let known: bool = match self.registry.get(&ev.child_id) {
            Some(child) => {
                if !child.accepts_incarnation(ev.incarnation) {
                    return DeathStep::new(None, None);
                }
                true
            },
            None => false,
        };
        let reason: StopReason = if known {
            present(ev.reason)
        } else {
            ev.reason
        };
        let ev: ChildStoppedInternal = ChildStoppedInternal {
            child_id: ev.child_id,
            reason,
            incarnation: ev.incarnation,
        };
        if self.group_stopping_awaiting(&ev.child_id) {
            return self.settle_member(ev, work, seq);
        }
        let at_front: bool = match &self.pending_group {
            Some(GroupPhase::Restarting(queue)) => queue.len() > 0 && queue[0] == ev.child_id,
            _ => false,
        };
        if at_front {
            return self.retry_front(ev, seq, now);
        }
        if self.pending_group.is_some() {
            self.defer(ev);
            return DeathStep::new(None, None);
        }
        self.judge(ev, work, seq, now)
    }
}

/// Whether a step reports the given death, of a child of an actor that is no supervisor, and does
/// nothing else.
pub open spec fn unsupervised_death(step: DeathStep, ev: DeathView) -> bool {
    &&& step.attempt is None
    &&& step.stops.len() == 0
    &&& report_view(step.report) == Some(
        ChildEventView {
            child_id: ev.child_id,
            child_name: None,
            reason: ev.reason,
            action: SupervisionAction::NotSupervised,
        },
    )
}

/// Deals with one death of a child. An actor that is no supervisor does nothing about it but
/// report it.
pub fn handle_child_stopped(
    supervision: &mut Option<SupervisionState>,
    ev: ChildStoppedInternal,
    work: &mut VecDeque<ChildStoppedInternal>,
    seq: u64,
    now: Instant,
) -> (step: DeathStep)
    ensures
        match (*old(supervision), *final(supervision)) {
            (Some(before), Some(after)) => step.realizes(
                after@,
                deaths(final(work)@),
                before@.decided(ev@, deaths(old(work)@), seq, now),
            ),
            (None, None) => unsupervised_death(step, ev@) && deaths(final(work)@) == deaths(
                old(work)@,
            ),
            _ => false,
        },
{
    match supervision {
        Some(sup) => sup.decide_death(ev, work, seq, now),
        None => {
            let stops: Vec<MemberStop> = Vec::new();
            let report: ChildEvent = ChildEvent {
                child_id: ev.child_id,
                child_name: None,
                reason: ev.reason,
                action: SupervisionAction::NotSupervised,
            };
            DeathStep { attempt: None, stops, report: Some(report) }
        },
    }
}

/// Why the actor stops after an event was handed to `on_child_stopped`, if it does.
pub open spec fn stop_after_report(action: SupervisionAction, panic: Option<String>) -> Option<
    StopReason,
> {
    match panic {
        Some(message) => Some(StopReason::Failure(ActorError::Panic(message))),
        None => if action == SupervisionAction::BudgetExhausted {
            Some(StopReason::ParentRequest)
        } else {
            None
        },
    }
}

/// Decides how the actor goes on after an event was handed to `on_child_stopped`: a panic of the
/// callback stops it as a failure, and an exhausted budget, which is recorded as the actor's last
/// error, stops it as if its parent had asked for it. That stop cannot be vetoed.
pub fn settle_report(
    action: SupervisionAction,
    panic: Option<String>,
    last_error: &mut Option<ActorError>,
) -> (stop: Option<StopReason>)
    ensures
        stop == stop_after_report(action, panic),
        *final(last_error) == if panic is None && action == SupervisionAction::BudgetExhausted {
            Some(ActorError::Supervision(SupervisionError::BudgetExhausted))
        } else {
            *old(last_error)
        },
{
    match panic {
        Some(message) => Some(StopReason::Failure(ActorError::Panic(message))),
        None => if action == SupervisionAction::BudgetExhausted {
            *last_error = Some(ActorError::from(SupervisionError::BudgetExhausted));
            Some(StopReason::ParentRequest)
        } else {
            None
        },
    }
}

// ---------------------------------------------------------------------------
// Restart attempts
// ---------------------------------------------------------------------------

/// How a restart attempt went.
#[derive(Debug)]
pub enum AttemptResult {
    /// The factory panicked; nothing was spawned.
    FactoryPanicked(String),
    /// The spawn was refused.
    SpawnFailed(SpawnError),
    /// The fresh incarnation was initialized.
    Initialized,
    /// The initialization of the fresh incarnation failed.
    InitFailed(ActorError),
    /// The fresh incarnation ended before it could tell how its initialization went.
    AckLost,
    /// The initialization took longer than the child's start timeout.
    TimedOut,
}

/// Outcome of one restart attempt, as the supervisor gets to know it.
#[derive(Debug)]
pub enum RestartOutcome {
    /// The fresh incarnation is ready to become the child's live instance.
    Adopted {
        /// The child.
        child_id: ActorId,
        /// The token of the fresh incarnation.
        incarnation: u64,
    },
    /// The attempt produced no live instance.
    Failed {
        /// The child.
        child_id: ActorId,
        /// The token that the attempt had.
        incarnation: u64,
        /// Why it failed.
        reason: StopReason,
    },
}

/// Whether the given outcome is the one of an attempt that went as given.
pub open spec fn outcome_of(
    child_id: ActorId,
    seq: u64,
    result: AttemptResult,
    outcome: RestartOutcome,
) -> bool {
    match outcome {
        RestartOutcome::Adopted { child_id: id, incarnation } => {
            &&& result is Initialized
            &&& id == child_id
            &&& incarnation == seq
        },
        RestartOutcome::Failed { child_id: id, incarnation, reason } => {
            &&& id == child_id
            &&& incarnation == seq
            &&& match result {
                AttemptResult::Initialized => false,
                AttemptResult::FactoryPanicked(message) => reason == StopReason::Failure(
                    ActorError::Supervision(SupervisionError::FactoryFailed(message)),
                ),
                AttemptResult::SpawnFailed(err) => reason == StopReason::Failure(
                    ActorError::Spawn(err),
                ),
                AttemptResult::InitFailed(err) => reason == StopReason::Failure(err),
                AttemptResult::AckLost => reason is Failure && reason->Failure_0 is User
                    && reason->Failure_0->User_0@
                    == "restart ack channel closed before a reply arrived"@,
                AttemptResult::TimedOut => reason == StopReason::Failure(
                    ActorError::Spawn(SpawnError::StartTimeout),
                ),
            }
        },
    }
}

/// The outcome of an attempt with the token `seq` that went as given. What did not bring up a live
/// instance is a failure like any other death.
pub fn attempt_outcome(child_id: ActorId, seq: u64, result: AttemptResult) -> (outcome:
    RestartOutcome)
    ensures
        outcome_of(child_id, seq, result, outcome),
{
    let err: ActorError = match result {
        AttemptResult::Initialized => {
            return RestartOutcome::Adopted { child_id, incarnation: seq };
        },
        AttemptResult::FactoryPanicked(message) => {
            ActorError::from(SupervisionError::FactoryFailed(message))
        },
        AttemptResult::SpawnFailed(err) => ActorError::Spawn(err),
        AttemptResult::InitFailed(err) => err,
        AttemptResult::AckLost => {
            ActorError::user("restart ack channel closed before a reply arrived")
        },
        AttemptResult::TimedOut => ActorError::Spawn(SpawnError::StartTimeout),
    };
    RestartOutcome::Failed { child_id, incarnation: seq, reason: StopReason::Failure(err) }
}

/// What is left to do outside after the outcome of an attempt was decided.
#[derive(Debug)]
pub struct AdoptStep {
    /// Whether the fresh instance is the child's live one now. If not, a newer attempt is pending
    /// or the child's spec is gone, and the stray instance is to be killed.
    pub accepted: bool,
    /// The fresh instance is to be told to stop at once, with the group that it belongs to.
    pub stop: Option<MemberStop>,
    /// The next restart attempt of a chain, to be started.
    pub attempt: Option<Attempt>,
    /// The deaths that were queued while a group restart was in flight, to be dealt with now.
    pub drained: VecDeque<ChildStoppedInternal>,
}

impl AdoptStep {
    /// Whether this step is how the fresh instance with the token `seq` is offered as the child's
    /// live one, with the given state afterwards.
    pub open spec fn realizes(
        self,
        before: SupervisionView,
        id: Seq<char>,
        seq: u64,
        next_seq: u64,
        after: SupervisionView,
    ) -> bool {
        &&& after == before.after_adoption(id, seq, next_seq)
        &&& self.accepted == before.adopts(id, seq)
        &&& self.stop is Some == (self.accepted && before.stops_first(id))
        &&& self.stop is Some ==> {
            &&& self.stop->0.child_id@ == id
            &&& self.stop->0.shutdown == child(before.children, id).spec.shutdown
        }
        &&& attempt_view(self.attempt) == before.adoption_attempt(id, seq, next_seq)
        &&& deaths(self.drained@) == before.adoption_released(id, seq)
    }
}

impl SupervisionView {
    /// Whether the fresh instance with the token `seq` becomes the child's live one.
    pub open spec fn adopts(self, id: Seq<char>, seq: u64) -> bool {
        listed(self.children, id) && child(self.children, id).lifecycle.awaits(seq)
    }

    /// Whether the child is restarted by a group whose stop phase is in flight.
    pub open spec fn stops_first(self, id: Seq<char>) -> bool {
        match self.pending_group {
            Some(GroupView::Stopping(group)) => group.restart_order.contains(id),
            _ => false,
        }
    }

    /// The state in which the fresh instance is the child's live one.
    pub open spec fn live(self, id: Seq<char>, seq: u64) -> SupervisionView {
        SupervisionView {
            children: with_lifecycle(self.children, id, ChildLifecycle::Running(seq)),
            ..self
        }
    }

    /// The state in which the stop phase of a group restart awaits the child's death too.
    pub open spec fn also_awaiting(self, id: Seq<char>) -> SupervisionView {
        match self.pending_group {
            Some(GroupView::Stopping(group)) => SupervisionView {
                pending_group: Some(
                    GroupView::Stopping(
                        GroupRestartView { awaiting: group.awaiting.insert(id), ..group },
                    ),
                ),
                ..self
            },
            _ => self,
        }
    }

    /// The state in which the chain of a group restart is past its front.
    pub open spec fn past_front(self) -> SupervisionView {
        match self.pending_group {
            Some(GroupView::Restarting(queue)) => self.chained(queue.drop_first()),
            _ => self,
        }
    }

    /// The state after an instance with the token `seq` was offered as the child's live one.
    pub open spec fn after_adoption(self, id: Seq<char>, seq: u64, next_seq: u64) -> SupervisionView {
        if !self.adopts(id, seq) {
            self
        } else if self.stops_first(id) {
            self.live(id, seq).also_awaiting(id)
        } else if self.at_chain_front(id) {
            self.live(id, seq).past_front().front_initiated(next_seq)
        } else {
            self.live(id, seq)
        }
    }

    /// The attempt that is started when an instance is offered as the child's live one.
    pub open spec fn adoption_attempt(self, id: Seq<char>, seq: u64, next_seq: u64) -> Option<
        AttemptView,
    > {
        if self.adopts(id, seq) && self.at_chain_front(id) {
            self.live(id, seq).past_front().front_started(next_seq)
        } else {
            None
        }
    }

    /// The queued deaths that are released when an instance is offered as the child's live one.
    pub open spec fn adoption_released(self, id: Seq<char>, seq: u64) -> Seq<DeathView> {
        if self.adopts(id, seq) && self.at_chain_front(id) {
            self.live(id, seq).past_front().released()
        } else {
            Seq::empty()
        }
    }
}

impl SupervisionState {
    /// Offers the fresh instance with the token `seq` as the child's live one. It is taken only if
    /// the child's pending restart has that token. A group whose stop phase is in flight has it
    /// stopped again at once; a restart chain that waited for it goes on to its next member, whose
    /// attempt gets the token `next_seq`.
    pub fn adopt_restart(&mut self, child_id: ActorId, seq: u64, next_seq: u64) -> (step: AdoptStep)
        ensures
            step.realizes(old(self)@, child_id@, seq, next_seq, final(self)@),
    {
        let mut drained: VecDeque<ChildStoppedInternal> = VecDeque::new();
        assert(deaths(drained@) =~= Seq::empty());
        let shutdown: Shutdown = match self.registry.get(&child_id) {
            Some(child) => child.spec.shutdown,
            None => {
                return AdoptStep { accepted: false, stop: None, attempt: None, drained };
            },
        };
        if !self.registry.update_restarted(&child_id, seq) {
            return AdoptStep { accepted: false, stop: None, attempt: None, drained };
        }
        let mut stop: Option<MemberStop> = None;
        let mut attempt: Option<Attempt> = None;
        let mut advance: bool = false;
        match &mut self.pending_group {
            Some(GroupPhase::Stopping(group)) => {
                if list_contains(&group.restart_order, &child_id) {
                    group.awaiting.insert(child_id.clone());
                    stop = Some(MemberStop { child_id, shutdown });
                }
            },
            Some(GroupPhase::Restarting(queue)) => {
                if queue.len() > 0 && queue[0] == child_id {
                    let ghost before = queue@;
                    queue.remove(0);
                    assert(texts(queue@) =~= texts(before).drop_first());
                    advance = true;
                }
            },
            None => {},
        }
        if advance {
            attempt = match advance_restart_chain(self, &mut drained) {
                Some(front) => self.initiate_restart(&front, next_seq),
                None => None,
            };
            proof {
                let released = old(self)@.adoption_released(child_id@, seq);
                assert(Seq::<DeathView>::empty() + released =~= released);
            }
        }
        AdoptStep { accepted: true, stop, attempt, drained }
    }
}

/// What the supervisor does about the outcome of a restart attempt.
#[derive(Debug)]
pub enum RestartStep {
    /// The fresh instance was offered as the child's live one.
    Offered(AdoptStep),
    /// The attempt failed: this death is to be dealt with.
    Died(ChildStoppedInternal),
}

/// Whether the outcome of an attempt is dealt with as it should: by the given step, and with the
/// given state afterwards.
pub open spec fn outcome_settled(
    before: SupervisionView,
    outcome: RestartOutcome,
    next_seq: u64,
    after: SupervisionView,
    step: RestartStep,
) -> bool {
    match (outcome, step) {
        (RestartOutcome::Adopted { child_id, incarnation }, RestartStep::Offered(adopted)) => {
            adopted.realizes(before, child_id@, incarnation, next_seq, after)
        },
        (RestartOutcome::Failed { child_id, incarnation, reason }, RestartStep::Died(ev)) => {
            &&& after == before
            &&& ev == (ChildStoppedInternal { child_id, reason, incarnation })
        },
        _ => false,
    }
}

/// Deals with the outcome of a restart attempt: a fresh instance is offered as the child's live
/// one; a failure is a death like any other, of the incarnation that the attempt had.
pub fn handle_restart_outcome(sup: &mut SupervisionState, outcome: RestartOutcome, next_seq: u64) ->
    (step: RestartStep)
    ensures
        outcome_settled(old(sup)@, outcome, next_seq, final(sup)@, step),
{
    match outcome {
        RestartOutcome::Adopted { child_id, incarnation } => {
            RestartStep::Offered(sup.adopt_restart(child_id, incarnation, next_seq))
        },
        RestartOutcome::Failed { child_id, incarnation, reason } => {
            RestartStep::Died(ChildStoppedInternal { child_id, reason, incarnation })
        },
    }
}

} // verus!
