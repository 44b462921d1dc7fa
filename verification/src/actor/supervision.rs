//! Supervision configuration, the state that a supervisor keeps, and restart strategies.

use std::collections::VecDeque;
use vstd::prelude::*;
use crate::actor::budget::{BudgetView, RestartBudget};
use crate::actor::ids::{list_contains, list_reversed, texts, texts_push, DeathKey, IdSet, PendingEvents};
use crate::actor::lifecycle::ChildLifecycle;
use crate::actor::registry::{
    asked, child, ids_of, listed, running, slot, without, ChildRegistry, ChildView,
};
use crate::time::{Duration, Instant};
use crate::types::{
    ActorId, ChildEventView, ChildStoppedInternal, DeathView, RestartStrategy, RestartType,
    StopReason,
};

verus! {

/// Grace given to a cooperative Kill signal before the task is aborted, in nanoseconds.
pub const KILL_GRACE: u128 = 100_000_000;

/// Grace given to a child that is itself a supervisor before it is aborted: enough time for its
/// own cascade to reach every descendant. In nanoseconds.
pub const SUPERVISOR_KILL_GRACE: u128 = 500_000_000;

/// Configuration for an actor acting as a supervisor.
#[derive(Debug)]
pub struct SupervisionConfig {
    /// The restart strategy to use.
    pub strategy: RestartStrategy,
    /// Maximum number of restarts allowed within `restart_window`.
    pub max_restarts: u32,
    /// The sliding window for counting restarts.
    pub restart_window: Duration,
}

impl Clone for SupervisionConfig {
    fn clone(&self) -> (copy: Self)
        ensures
            copy == *self,
    {
        SupervisionConfig {
            strategy: self.strategy,
            max_restarts: self.max_restarts,
            restart_window: self.restart_window,
        }
    }
}

/// Three restarts within five seconds, under the given strategy.
pub open spec fn default_budget(strategy: RestartStrategy) -> SupervisionConfig {
    SupervisionConfig {
        strategy,
        max_restarts: 3,
        restart_window: Duration { nanos: 5_000_000_000 },
    }
}

impl Default for SupervisionConfig {
    fn default() -> (config: Self)
        ensures
            config == default_budget(RestartStrategy::OneForOne),
    {
        SupervisionConfig {
            strategy: RestartStrategy::OneForOne,
            max_restarts: 3,
            restart_window: Duration::from_secs(5),
        }
    }
}

impl SupervisionConfig {
    /// OneForOne strategy with default budget.
    pub fn one_for_one() -> (config: Self)
        ensures
            config == default_budget(RestartStrategy::OneForOne),
    {
        SupervisionConfig::default()
    }

    /// OneForAll strategy with default budget.
    pub fn one_for_all() -> (config: Self)
        ensures
            config == default_budget(RestartStrategy::OneForAll),
    {
        let base: SupervisionConfig = SupervisionConfig::default();
        SupervisionConfig { strategy: RestartStrategy::OneForAll, ..base }
    }

    /// RestForOne strategy with default budget.
    pub fn rest_for_one() -> (config: Self)
        ensures
            config == default_budget(RestartStrategy::RestForOne),
    {
        let base: SupervisionConfig = SupervisionConfig::default();
        SupervisionConfig { strategy: RestartStrategy::RestForOne, ..base }
    }

    /// SimpleOneForOne strategy with default budget.
    pub fn simple_one_for_one() -> (config: Self)
        ensures
            config == default_budget(RestartStrategy::SimpleOneForOne),
    {
        let base: SupervisionConfig = SupervisionConfig::default();
        SupervisionConfig { strategy: RestartStrategy::SimpleOneForOne, ..base }
    }

    /// Sets the restart budget (max restarts within a sliding window).
    pub fn max_restarts(self, max: u32, window: Duration) -> (config: Self)
        ensures
            config == (SupervisionConfig { max_restarts: max, restart_window: window, ..self }),
    {
        SupervisionConfig { max_restarts: max, restart_window: window, ..self }
    }
}

// ---------------------------------------------------------------------------
// Group restarts
// ---------------------------------------------------------------------------

/// The stop phase of a group restart: the live members were told to stop; once every awaited
/// death has arrived, the members are restarted one after the other.
#[derive(Debug)]
pub struct GroupRestart {
    /// Members whose deaths are still awaited.
    pub awaiting: IdSet,
    /// Members to restart, in start order, once nothing is awaited any more. Holds no Temporary
    /// child.
    pub restart_order: Vec<ActorId>,
    /// Members that were explicitly terminated while the stop phase was in flight: they stay down
    /// and are reported as removed.
    pub manual_overrides: IdSet,
}

/// Phase of an in-flight OneForAll or RestForOne group restart.
#[derive(Debug)]
pub enum GroupPhase {
    /// Affected members were told to stop; their deaths are awaited.
    Stopping(GroupRestart),
    /// Members are restarted one at a time, in start order. The front of the queue is the member
    /// whose restart is in flight; the next one is started only once that one is live.
    Restarting(Vec<ActorId>),
}

/// What a [`GroupRestart`] holds.
pub struct GroupRestartView {
    /// Members whose deaths are still awaited.
    pub awaiting: Set<Seq<char>>,
    /// Members to restart, in start order.
    pub restart_order: Seq<Seq<char>>,
    /// Members that were explicitly terminated meanwhile.
    pub manual_overrides: Set<Seq<char>>,
}

impl GroupRestartView {
    /// The members that the chain restarts once the stop phase is over, in start order.
    pub open spec fn chain(self) -> Seq<Seq<char>> {
        let overrides = self.manual_overrides;
        self.restart_order.filter(|id: Seq<char>| !overrides.contains(id))
    }
}

/// What a [`GroupPhase`] holds.
pub enum GroupView {
    /// Deaths are awaited.
    Stopping(GroupRestartView),
    /// Members are being restarted.
    Restarting(Seq<Seq<char>>),
}

impl View for GroupRestart {
    type V = GroupRestartView;

    open spec fn view(&self) -> GroupRestartView {
        GroupRestartView {
            awaiting: self.awaiting@,
            restart_order: texts(self.restart_order@),
            manual_overrides: self.manual_overrides@,
        }
    }
}

impl GroupRestart {
    /// The members to restart once the stop phase is over, in start order.
    pub fn remaining_order(&self) -> (order: Vec<ActorId>)
        ensures
            texts(order@) == self@.chain(),
    {
        let ghost overrides = self.manual_overrides@;
        let ghost kept = |id: Seq<char>| !overrides.contains(id);
        let mut order: Vec<ActorId> = Vec::new();
        let mut i: usize = 0;
        proof {
            reveal(Seq::filter);
            assert(texts(order@) =~= texts(self.restart_order@.take(0)).filter(kept));
        }
        while i < self.restart_order.len()
            invariant
                i <= self.restart_order.len(),
                overrides == self.manual_overrides@,
                kept == |id: Seq<char>| !overrides.contains(id),
                texts(order@) == texts(self.restart_order@.take(i as int)).filter(kept),
            decreases self.restart_order.len() - i,
        {
            let ghost before = order@;
            let ghost seen = self.restart_order@.take(i as int);
            let id: &ActorId = &self.restart_order[i];
            proof {
                reveal(Seq::filter);
                assert(self.restart_order@.take(i + 1) =~= seen.push(*id));
                texts_push(seen, *id);
                texts_push(before, *id);
                assert(texts(seen).push(id@).drop_last() =~= texts(seen));
            }
            if !self.manual_overrides.contains(id) {
                order.push(id.clone());
            }
            i += 1;
        }
        assert(self.restart_order@.take(i as int) =~= self.restart_order@);
        order
    }
}

/// What an optional group phase holds.
pub open spec fn group_view(phase: Option<GroupPhase>) -> Option<GroupView> {
    match phase {
        None => None,
        Some(GroupPhase::Stopping(group)) => Some(GroupView::Stopping(group@)),
        Some(GroupPhase::Restarting(queue)) => Some(GroupView::Restarting(texts(queue@))),
    }
}

// ---------------------------------------------------------------------------
// The state of a supervisor
// ---------------------------------------------------------------------------

/// What the given deaths tell.
pub open spec fn deaths(events: Seq<ChildStoppedInternal>) -> Seq<DeathView> {
    events.map_values(|event: ChildStoppedInternal| event@)
}

/// Everything that a supervisor keeps about its children.
#[derive(Debug)]
pub struct SupervisionState {
    /// The configuration that the supervisor was spawned with.
    pub config: SupervisionConfig,
    /// The children, in start order.
    pub registry: ChildRegistry,
    /// The restarts that were charged.
    pub budget: RestartBudget,
    /// The children for which a factory is stored that a restart can run.
    pub restart_fns: IdSet,
    /// In-flight group restart, if any.
    pub pending_group: Option<GroupPhase>,
    /// Deaths that arrived while a group restart was pending; evaluated in that order once the
    /// group is complete.
    pub queued_triggers: VecDeque<ChildStoppedInternal>,
    /// Events of manual stops that wait for the death that they report.
    pub pending_manual_events: PendingEvents,
}

/// What a [`SupervisionState`] holds.
pub struct SupervisionView {
    /// The configuration that the supervisor was spawned with.
    pub config: SupervisionConfig,
    /// The children, in start order.
    pub children: Seq<ChildView>,
    /// The restarts that were charged.
    pub budget: BudgetView,
    /// The children for which a factory is stored.
    pub restart_fns: Set<Seq<char>>,
    /// In-flight group restart, if any.
    pub pending_group: Option<GroupView>,
    /// Deaths that wait for the group to complete.
    pub queued_triggers: Seq<DeathView>,
    /// Events of manual stops that wait for the death that they report.
    pub pending_manual_events: Map<DeathKey, ChildEventView>,
}

impl View for SupervisionState {
    type V = SupervisionView;

    open spec fn view(&self) -> SupervisionView {
        SupervisionView {
            config: self.config,
            children: self.registry@,
            budget: self.budget@,
            restart_fns: self.restart_fns@,
            pending_group: group_view(self.pending_group),
            queued_triggers: deaths(self.queued_triggers@),
            pending_manual_events: self.pending_manual_events@,
        }
    }
}

/// What is done with a stopped child.
pub enum OutcomeView {
    /// Restart exactly this child.
    RestartOne(Seq<char>),
    /// Stop the live members, then restart the members in start order.
    RestartGroup {
        /// Live members to stop, in reverse start order.
        stop_reverse: Seq<Seq<char>>,
        /// Members to restart, in start order.
        restart_order: Seq<Seq<char>>,
    },
    /// The child is not restarted.
    Remove,
    /// The restart budget is exhausted; the supervisor must stop.
    BudgetExhausted,
}

/// Whether a child of the given type is restarted after it stopped for the given reason.
pub open spec fn wants_restart(restart_type: RestartType, reason: StopReason) -> bool {
    match restart_type {
        RestartType::Permanent => true,
        RestartType::Transient => !(reason is Graceful) && !(reason is ParentRequest),
        RestartType::Temporary => false,
    }
}

/// The live members of a group other than the one that failed.
pub open spec fn live_sibling(children: Seq<ChildView>, failed: Seq<char>) -> spec_fn(
    Seq<char>,
) -> bool {
    |id: Seq<char>| id != failed && running(children, id)
}

/// The members of a group that are restarted with it.
pub open spec fn restartable(children: Seq<ChildView>) -> spec_fn(Seq<char>) -> bool {
    |id: Seq<char>|
        listed(children, id) && child(children, id).spec.restart_type != RestartType::Temporary
}

/// What is left of a restart chain once its leading members that are live are passed over.
pub open spec fn stalled(children: Seq<ChildView>, queue: Seq<Seq<char>>) -> Seq<Seq<char>>
    decreases queue.len(),
{
    if queue.len() > 0 && running(children, queue[0]) {
        stalled(children, queue.drop_first())
    } else {
        queue
    }
}

impl SupervisionView {
    /// The state of a supervisor without children.
    pub open spec fn fresh(config: SupervisionConfig) -> SupervisionView {
        SupervisionView {
            config,
            children: Seq::empty(),
            budget: BudgetView {
                max_restarts: config.max_restarts,
                restart_window: config.restart_window,
                stamps: Seq::empty(),
            },
            restart_fns: Set::empty(),
            pending_group: None,
            queued_triggers: Seq::empty(),
            pending_manual_events: Map::empty(),
        }
    }

    /// Whether an attempt to restart the child can be started.
    pub open spec fn can_start(self, id: Seq<char>) -> bool {
        &&& listed(self.children, id)
        &&& !(child(self.children, id).lifecycle is Restarting)
        &&& self.restart_fns.contains(id)
    }

    /// The state after a restart of the child, with the token `seq`, was asked for.
    pub open spec fn initiated(self, id: Seq<char>, seq: u64) -> SupervisionView {
        SupervisionView {
            children: asked(
                self.children,
                id,
                ChildLifecycle::Restarting {
                    incarnation: child(self.children, id).lifecycle.own(),
                    next: seq,
                },
            ),
            ..self
        }
    }

    /// The attempt that is started when a restart of the child, with the token `seq`, is asked for.
    pub open spec fn started(self, id: Seq<char>, seq: u64) -> Option<AttemptView> {
        if self.can_start(id) {
            Some(AttemptView { child_id: id, seq })
        } else {
            None
        }
    }

    /// Whether the child is one of an in-flight group restart that has not been terminated.
    pub open spec fn in_group(self, id: Seq<char>) -> bool {
        match self.pending_group {
            Some(GroupView::Stopping(group)) => !group.manual_overrides.contains(id) && (
            group.awaiting.contains(id) || group.restart_order.contains(id)),
            Some(GroupView::Restarting(queue)) => queue.contains(id),
            None => false,
        }
    }

    /// Whether the stop phase of a group restart awaits the child's death.
    pub open spec fn awaits_death(self, id: Seq<char>) -> bool {
        match self.pending_group {
            Some(GroupView::Stopping(group)) => group.awaiting.contains(id),
            _ => false,
        }
    }

    /// The children that a failure of the given one concerns, in start order.
    pub open spec fn affected(self, failed: Seq<char>) -> Seq<Seq<char>> {
        match self.config.strategy {
            RestartStrategy::OneForAll => ids_of(self.children),
            RestartStrategy::RestForOne => ids_of(self.children).skip(slot(self.children, failed)),
            _ => seq![failed],
        }
    }

    /// Whether the death of the child calls for a restart.
    pub open spec fn calls_for_restart(self, failed: Seq<char>, reason: StopReason) -> bool {
        listed(self.children, failed) && wants_restart(
            child(self.children, failed).spec.restart_type,
            reason,
        )
    }

    /// What is done with the given child after it stopped for the given reason.
    pub open spec fn evaluated(
        self,
        failed: Seq<char>,
        reason: StopReason,
        now: Instant,
    ) -> OutcomeView {
        if !self.calls_for_restart(failed, reason) {
            OutcomeView::Remove
        } else if !self.budget.allows(now) {
            OutcomeView::BudgetExhausted
        } else {
            match self.config.strategy {
                RestartStrategy::OneForOne => OutcomeView::RestartOne(failed),
                RestartStrategy::SimpleOneForOne => OutcomeView::RestartOne(failed),
                _ => OutcomeView::RestartGroup {
                    stop_reverse: self.affected(failed).filter(
                        live_sibling(self.children, failed),
                    ).reverse(),
                    restart_order: self.affected(failed).filter(restartable(self.children)),
                },
            }
        }
    }

    /// The state after a death was evaluated: one restart is charged where the death calls for one,
    /// however many children it concerns.
    pub open spec fn after_evaluation(
        self,
        failed: Seq<char>,
        reason: StopReason,
        now: Instant,
    ) -> SupervisionView {
        if self.calls_for_restart(failed, reason) {
            SupervisionView { budget: self.budget.charged(now), ..self }
        } else {
            self
        }
    }

    /// What is left of the restart chain that is in flight.
    pub open spec fn chain_left(self) -> Seq<Seq<char>> {
        match self.pending_group {
            Some(GroupView::Restarting(queue)) => stalled(self.children, queue),
            _ => Seq::empty(),
        }
    }

    /// The member that a restart chain in flight waits for.
    pub open spec fn chain_front(self) -> Option<Seq<char>> {
        if self.pending_group is Some && self.pending_group->0 is Restarting
            && self.chain_left().len() > 0 {
            Some(self.chain_left()[0])
        } else {
            None
        }
    }

    /// Whether a restart chain is in flight of which every member is live.
    pub open spec fn chain_done(self) -> bool {
        self.pending_group is Some && self.pending_group->0 is Restarting
            && self.chain_left().len() == 0
    }

    /// The state after the restart chain in flight passed over its live members. A chain that is
    /// done is cleared, and the deaths that were queued meanwhile are released.
    pub open spec fn advanced(self) -> SupervisionView {
        if self.chain_done() {
            SupervisionView { pending_group: None, queued_triggers: Seq::empty(), ..self }
        } else if self.chain_front() is Some {
            SupervisionView {
                pending_group: Some(GroupView::Restarting(self.chain_left())),
                ..self
            }
        } else {
            self
        }
    }

    /// The queued deaths that are released when the restart chain in flight advances.
    pub open spec fn released(self) -> Seq<DeathView> {
        if self.chain_done() {
            self.queued_triggers
        } else {
            Seq::empty()
        }
    }

    /// The state in which the given members are restarted one after the other.
    pub open spec fn chained(self, order: Seq<Seq<char>>) -> SupervisionView {
        SupervisionView { pending_group: Some(GroupView::Restarting(order)), ..self }
    }

    /// The state after the chain in flight has advanced and the restart of its front was asked
    /// for.
    pub open spec fn front_initiated(self, seq: u64) -> SupervisionView {
        match self.chain_front() {
            Some(front) => self.advanced().initiated(front, seq),
            None => self.advanced(),
        }
    }

    /// The attempt that is started when the chain in flight advances.
    pub open spec fn front_started(self, seq: u64) -> Option<AttemptView> {
        match self.chain_front() {
            Some(front) => self.advanced().started(front, seq),
            None => None,
        }
    }

    /// Whether the child's spec goes as soon as the child is down for good.
    pub open spec fn prunes(self, id: Seq<char>) -> bool {
        self.config.strategy == RestartStrategy::SimpleOneForOne || (listed(self.children, id)
            && child(self.children, id).spec.restart_type == RestartType::Temporary)
    }

    /// The state without the child's spec.
    pub open spec fn removed(self, id: Seq<char>) -> SupervisionView {
        SupervisionView {
            children: without(self.children, id),
            restart_fns: self.restart_fns.remove(id),
            ..self
        }
    }

    /// The state after the child's spec was removed if it is to go.
    pub open spec fn pruned(self, id: Seq<char>) -> SupervisionView {
        if self.prunes(id) {
            self.removed(id)
        } else {
            self
        }
    }
}

/// An attempt to restart a child that is to be started: the child's stored factory is run for the
/// incarnation `seq`.
#[derive(Debug)]
pub struct Attempt {
    /// The child to restart.
    pub child_id: ActorId,
    /// The token of the fresh incarnation.
    pub seq: u64,
}

/// What an [`Attempt`] holds.
pub struct AttemptView {
    /// The child to restart.
    pub child_id: Seq<char>,
    /// The token of the fresh incarnation.
    pub seq: u64,
}

/// What an optional attempt holds.
pub open spec fn attempt_view(attempt: Option<Attempt>) -> Option<AttemptView> {
    match attempt {
        Some(started) => Some(AttemptView { child_id: started.child_id@, seq: started.seq }),
        None => None,
    }
}

impl SupervisionState {
    /// The state of a supervisor without children.
    pub fn new(config: SupervisionConfig) -> (state: Self)
        ensures
            state@ == SupervisionView::fresh(config),
    {
        let budget: RestartBudget = RestartBudget::new(config.max_restarts, config.restart_window);
        let queued_triggers: VecDeque<ChildStoppedInternal> = VecDeque::new();
        assert(deaths(queued_triggers@) =~= Seq::empty());
        SupervisionState {
            config,
            registry: ChildRegistry::new(),
            budget,
            restart_fns: IdSet::new(),
            pending_group: None,
            queued_triggers,
            pending_manual_events: PendingEvents::new(),
        }
    }

    /// Asks for a restart of the child with the token `seq`. Does not touch the budget. Returns
    /// whether an attempt is to be started: the child is known, no restart of it is in flight, and
    /// its factory is stored.
    pub fn initiate(&mut self, child_id: &ActorId, seq: u64) -> (started: bool)
        ensures
            started == old(self)@.can_start(child_id@),
            final(self)@ == old(self)@.initiated(child_id@, seq),
    {
        match self.registry.get(child_id) {
            Some(child) => {
                let incarnation: u64 = child.lifecycle.incarnation();
                let to: ChildLifecycle = ChildLifecycle::Restarting { incarnation, next: seq };
                if !self.registry.transition(child_id, to) {
                    return false;
                }
            },
            None => {
                return false;
            },
        }
        self.restart_fns.contains(child_id)
    }

    /// True if the child is a member of the in-flight group restart, in either phase, and was not
    /// terminated while its stop phase was in flight.
    pub fn in_pending_group(&self, child_id: &ActorId) -> (member: bool)
        ensures
            member == self@.in_group(child_id@),
    {
        match &self.pending_group {
            Some(GroupPhase::Stopping(group)) => {
                !group.manual_overrides.contains(child_id) && (group.awaiting.contains(child_id)
                    || list_contains(&group.restart_order, child_id))
            },
            Some(GroupPhase::Restarting(queue)) => list_contains(queue, child_id),
            None => false,
        }
    }
}

/// Result of applying a supervision strategy to a child's death.
#[derive(Debug)]
pub enum StrategyOutcome {
    /// Restart exactly this child (OneForOne and SimpleOneForOne).
    RestartOne(ActorId),
    /// Group restart (OneForAll and RestForOne): stop the live members, await their deaths, then
    /// restart the members in start order.
    RestartGroup {
        /// Live members to stop, in reverse start order, without the child that failed.
        stop_reverse: Vec<ActorId>,
        /// Members to restart, in start order, without Temporary ones.
        restart_order: Vec<ActorId>,
    },
    /// The child is not restarted (temporary, or transient after a clean stop).
    Remove,
    /// The restart budget is exhausted; the supervisor must stop.
    BudgetExhausted,
}

impl View for StrategyOutcome {
    type V = OutcomeView;

    open spec fn view(&self) -> OutcomeView {
        match self {
            StrategyOutcome::RestartOne(id) => OutcomeView::RestartOne(id@),
            StrategyOutcome::RestartGroup { stop_reverse, restart_order } => {
                OutcomeView::RestartGroup {
                    stop_reverse: texts(stop_reverse@),
                    restart_order: texts(restart_order@),
                }
            },
            StrategyOutcome::Remove => OutcomeView::Remove,
            StrategyOutcome::BudgetExhausted => OutcomeView::BudgetExhausted,
        }
    }
}

/// Determines what is done with a stopped child. Charges the budget once per death that calls for
/// a restart, regardless of group size.
pub fn evaluate_strategy(
    sup: &mut SupervisionState,
    failed_child_id: &ActorId,
    reason: &StopReason,
    now: Instant,
) -> (outcome: StrategyOutcome)
    ensures
        outcome@ == old(sup)@.evaluated(failed_child_id@, *reason, now),
        final(sup)@ == old(sup)@.after_evaluation(failed_child_id@, *reason, now),
{
    let restart_type: RestartType = match sup.registry.get(failed_child_id) {
        Some(child) => child.spec.restart_type,
        None => {
            return StrategyOutcome::Remove;
        },
    };
    let should_restart: bool = match restart_type {
        RestartType::Permanent => true,
        RestartType::Transient => !matches!(
            reason,
            StopReason::Graceful | StopReason::ParentRequest
        ),
        RestartType::Temporary => false,
    };
    if !should_restart {
        return StrategyOutcome::Remove;
    }
    if !sup.budget.check_and_record(now) {
        return StrategyOutcome::BudgetExhausted;
    }
    match sup.config.strategy {
        RestartStrategy::OneForOne | RestartStrategy::SimpleOneForOne => {
            StrategyOutcome::RestartOne(failed_child_id.clone())
        },
        RestartStrategy::OneForAll => {
            let members: Vec<ActorId> = sup.registry.all_ids();
            group_outcome(&sup.registry, &members, failed_child_id)
        },
        RestartStrategy::RestForOne => {
            let mut members: Vec<ActorId> = Vec::new();
            members.push(failed_child_id.clone());
            let mut later: Vec<ActorId> = sup.registry.children_after(failed_child_id);
            let ghost tail = later@;
            members.append(&mut later);
            proof {
                let ids = ids_of(sup.registry@);
                let at = slot(sup.registry@, failed_child_id@);
                assert(ids[at] == failed_child_id@);
                assert(texts(members@) =~= seq![failed_child_id@] + texts(tail));
                assert(texts(members@) =~= ids.skip(at));
            }
            group_outcome(&sup.registry, &members, failed_child_id)
        },
    }
}

/// Builds the group outcome from the affected members, given in start order.
fn group_outcome(
    registry: &ChildRegistry,
    members: &Vec<ActorId>,
    failed: &ActorId,
) -> (outcome: StrategyOutcome)
    ensures
        outcome@ == (OutcomeView::RestartGroup {
            stop_reverse: texts(members@).filter(live_sibling(registry@, failed@)).reverse(),
            restart_order: texts(members@).filter(restartable(registry@)),
        }),
{
    let ghost stops = live_sibling(registry@, failed@);
    let ghost restarts = restartable(registry@);
    let mut live: Vec<ActorId> = Vec::new();
    let mut restart_order: Vec<ActorId> = Vec::new();
    let mut i: usize = 0;
    proof {
        reveal(Seq::filter);
        assert(texts(live@) =~= texts(members@.take(0)).filter(stops));
        assert(texts(restart_order@) =~= texts(members@.take(0)).filter(restarts));
    }
    while i < members.len()
        invariant
            i <= members.len(),
            stops == live_sibling(registry@, failed@),
            restarts == restartable(registry@),
            texts(live@) == texts(members@.take(i as int)).filter(stops),
            texts(restart_order@) == texts(members@.take(i as int)).filter(restarts),
        decreases members.len() - i,
    {
        let ghost seen = members@.take(i as int);
        let id: &ActorId = &members[i];
        proof {
            reveal(Seq::filter);
            assert(members@.take(i + 1) =~= seen.push(*id));
            texts_push(seen, *id);
            texts_push(live@, *id);
            texts_push(restart_order@, *id);
            assert(texts(seen).push(id@).drop_last() =~= texts(seen));
        }
        if let Some(child) = registry.get(id) {
            if *id != *failed && matches!(child.lifecycle, ChildLifecycle::Running(_)) {
                live.push(id.clone());
            }
            if child.spec.restart_type != RestartType::Temporary {
                restart_order.push(id.clone());
            }
        }
        i += 1;
    }
    assert(members@.take(i as int) =~= members@);
    StrategyOutcome::RestartGroup { stop_reverse: list_reversed(&live), restart_order }
}

/// Advances an in-flight restart chain past every member that is live already. Returns the member
/// that the chain waits for: one to start, or one whose own restart is in flight, for which the
/// chain holds. Once every member is live the chain is cleared and the deaths queued meanwhile are
/// appended to `work`.
pub fn advance_restart_chain(
    sup: &mut SupervisionState,
    work: &mut VecDeque<ChildStoppedInternal>,
) -> (front: Option<ActorId>)
    ensures
        front is Some == old(sup)@.chain_front() is Some,
        front is Some ==> front->0@ == old(sup)@.chain_front()->0,
        final(sup)@ == old(sup)@.advanced(),
        deaths(final(work)@) == deaths(old(work)@) + old(sup)@.released(),
{
    let queue: Vec<ActorId> = match sup.pending_group.take() {
        Some(GroupPhase::Restarting(queue)) => queue,
        other => {
            sup.pending_group = other;
            assert(deaths(work@) =~= deaths(work@) + Seq::empty());
            return None;
        },
    };
    let mut queue: Vec<ActorId> = queue;
    let ghost left = old(sup)@.chain_left();
    while queue.len() > 0
        invariant
            stalled(sup@.children, texts(queue@)) == left,
            sup.registry == old(sup).registry,
        ensures
            left == texts(queue@),
        decreases queue.len(),
    {
        let fresh: bool = match sup.registry.get(&queue[0]) {
            Some(child) => matches!(child.lifecycle, ChildLifecycle::Running(_)),
            None => false,
        };
        assert(texts(queue@)[0] == queue[0]@);
        if !fresh {
            break;
        }
        let ghost before = queue@;
        queue.remove(0);
        assert(texts(queue@) =~= texts(before).drop_first());
    }
    if queue.len() > 0 {
        let front: ActorId = queue[0].clone();
        sup.pending_group = Some(GroupPhase::Restarting(queue));
        assert(deaths(work@) =~= deaths(work@) + Seq::empty());
        Some(front)
    } else {
        let ghost before = work@;
        let ghost queued = sup.queued_triggers@;
        work.append(&mut sup.queued_triggers);
        assert(deaths(work@) =~= deaths(before) + deaths(queued));
        assert(deaths(sup.queued_triggers@) =~= Seq::empty());
        None
    }
}

} // verus!
