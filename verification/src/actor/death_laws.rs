//! What a death leads to, told by the supervisor's strategy, the child's type and the budget.

use vstd::prelude::*;
use crate::actor::child_laws::{
    groups_concern_whom_they_should, groups_restart_in_start_order,
    groups_stop_in_reverse_start_order,
};
use crate::actor::lifecycle::{settled, ChildLifecycle};
use crate::actor::registry::{
    child, ids_of, lifecycle_changes_one_child, lifecycle_keeps_ids, listed,
    removal_takes_one_child, running, slot, unique, ChildView,
};
use crate::actor::supervision::{
    stalled, AttemptView, GroupView, OutcomeView, SupervisionConfig, SupervisionView,
};
use crate::time::Instant;
use crate::types::{
    DeathView, RestartStrategy, RestartType, StopReason, SupervisionAction,
};

verus! {

// ---------------------------------------------------------------------------
// The strategy
// ---------------------------------------------------------------------------

/// Whether a child of the given type is to come back after an end for the given reason: a Permanent
/// one always, a Transient one after any end but a clean one, a Temporary one never.
pub open spec fn comes_back(restart_type: RestartType, reason: StopReason) -> bool {
    restart_type == RestartType::Permanent || (restart_type == RestartType::Transient && (
    reason is Failure || reason is Cancelled || reason is Kill))
}

/// The strategy alone decides which kind of outcome comes. Where the death of a child calls for a
/// restart and the budget allows one, the outcome is a group restart exactly under OneForAll and
/// RestForOne, and a restart of exactly that child exactly under OneForOne and SimpleOneForOne,
/// whatever the type of the child and the reason of its death. Where the budget allows none, it is
/// exhausted, whatever the strategy is.
pub proof fn the_strategy_decides_the_outcome(
    sup: SupervisionView,
    id: Seq<char>,
    reason: StopReason,
    now: Instant,
)
    requires
        listed(sup.children, id),
        comes_back(child(sup.children, id).spec.restart_type, reason),
    ensures
        ({
            let strategy = sup.config.strategy;
            let outcome = sup.evaluated(id, reason, now);
            let group = strategy == RestartStrategy::OneForAll || strategy
                == RestartStrategy::RestForOne;
            let single = strategy == RestartStrategy::OneForOne || strategy
                == RestartStrategy::SimpleOneForOne;
            &&& sup.budget.allows(now) ==> (outcome is RestartGroup <==> group)
            &&& sup.budget.allows(now) ==> (outcome == OutcomeView::RestartOne(id) <==> single)
            &&& !sup.budget.allows(now) <==> outcome is BudgetExhausted
            &&& sup.after_evaluation(id, reason, now) == (SupervisionView {
                budget: sup.budget.charged(now),
                ..sup
            })
        }),
{
}

/// A death that calls for no restart leads to none under any strategy, and is not charged: that of a
/// child that is not there, of a Temporary one, and of a Transient one after a clean end.
pub proof fn the_strategy_revives_nobody_else(
    sup: SupervisionView,
    id: Seq<char>,
    reason: StopReason,
    now: Instant,
)
    requires
        listed(sup.children, id) ==> !comes_back(
            child(sup.children, id).spec.restart_type,
            reason,
        ),
    ensures
        sup.evaluated(id, reason, now) is Remove,
        sup.after_evaluation(id, reason, now) == sup,
{
}

/// A supervisor begins without children and with nothing charged, and holds its configuration.
pub proof fn supervisors_begin_as_configured(config: SupervisionConfig)
    ensures
        ({
            let sup = SupervisionView::fresh(config);
            &&& sup.config == config
            &&& sup.children.len() == 0
            &&& sup.budget.max_restarts == config.max_restarts
            &&& sup.budget.restart_window == config.restart_window
            &&& sup.budget.stamps.len() == 0
            &&& sup.pending_group is None
            &&& sup.queued_triggers.len() == 0
            &&& sup.pending_manual_events == Map::<
                crate::actor::ids::DeathKey,
                crate::types::ChildEventView,
            >::empty()
        }),
{
}

// ---------------------------------------------------------------------------
// Single deaths
// ---------------------------------------------------------------------------

/// Whether the death is one of the instance that the child is known by, or of the one that its
/// restart in flight is to bring, and no manual stop is concerned with it.
pub open spec fn plain_death(sup: SupervisionView, ev: DeathView) -> bool {
    &&& unique(sup.children)
    &&& listed(sup.children, ev.child_id)
    &&& !sup.pending_manual_events.dom().contains((ev.child_id, ev.incarnation))
    &&& match child(sup.children, ev.child_id).lifecycle {
        ChildLifecycle::Running(incarnation) => incarnation == ev.incarnation,
        ChildLifecycle::Down { incarnation, .. } => incarnation == ev.incarnation,
        ChildLifecycle::Restarting { incarnation, next } => incarnation == ev.incarnation || next
            == ev.incarnation,
        ChildLifecycle::Stopping { .. } => false,
    }
}

/// The reason as a supervisor sees it: only the supervisor itself aborts a child, after Kill.
pub open spec fn seen(reason: StopReason) -> StopReason {
    match reason {
        StopReason::Cancelled => StopReason::Kill,
        other => other,
    }
}

/// The incarnation that a child is known by.
pub open spec fn known_by(lifecycle: ChildLifecycle) -> u64 {
    match lifecycle {
        ChildLifecycle::Running(incarnation) => incarnation,
        ChildLifecycle::Stopping { incarnation, .. } => incarnation,
        ChildLifecycle::Restarting { incarnation, .. } => incarnation,
        ChildLifecycle::Down { incarnation, .. } => incarnation,
    }
}

/// What the settling of a child leaves.
pub(crate) proof fn settling(sup: SupervisionView, id: Seq<char>)
    requires
        listed(sup.children, id),
    ensures
        ({
            let down = sup.settled_down(id);
            let own = known_by(child(sup.children, id).lifecycle);
            &&& ids_of(down.children) == ids_of(sup.children)
            &&& child(down.children, id) == (ChildView {
                lifecycle: ChildLifecycle::Down { incarnation: own, event_pending: false },
                ..child(sup.children, id)
            })
            &&& forall|other: Seq<char>| #[trigger]
                listed(sup.children, other) && other != id ==> child(down.children, other) == child(
                    sup.children,
                    other,
                )
        }),
{
    let to = settled(child(sup.children, id).lifecycle);
    lifecycle_keeps_ids(sup.children, id, to);
    lifecycle_changes_one_child(sup.children, id, to, id);
    assert forall|other: Seq<char>| #[trigger] listed(sup.children, other) && other
        != id implies child(sup.settled_down(id).children, other) == child(sup.children, other) by {
        lifecycle_changes_one_child(sup.children, id, to, other);
    }
}

/// What asking for a restart of a child leaves.
pub(crate) proof fn asking(sup: SupervisionView, id: Seq<char>, seq: u64)
    requires
        listed(sup.children, id),
        !(child(sup.children, id).lifecycle is Restarting),
    ensures
        ({
            let after = sup.initiated(id, seq);
            &&& ids_of(after.children) == ids_of(sup.children)
            &&& child(after.children, id) == (ChildView {
                lifecycle: ChildLifecycle::Restarting {
                    incarnation: known_by(child(sup.children, id).lifecycle),
                    next: seq,
                },
                ..child(sup.children, id)
            })
            &&& forall|other: Seq<char>| #[trigger]
                listed(sup.children, other) && other != id ==> child(after.children, other) == child(
                    sup.children,
                    other,
                )
        }),
{
    let lifecycle = child(sup.children, id).lifecycle;
    let to = ChildLifecycle::Restarting { incarnation: known_by(lifecycle), next: seq };
    lifecycle_keeps_ids(sup.children, id, to);
    lifecycle_changes_one_child(sup.children, id, to, id);
    assert forall|other: Seq<char>| #[trigger] listed(sup.children, other) && other
        != id implies child(sup.initiated(id, seq).children, other) == child(
        sup.children,
        other,
    ) by {
        lifecycle_changes_one_child(sup.children, id, to, other);
    }
}

/// A request to restart a child that is there, and of which no restart is in flight, puts exactly that
/// restart in flight, and starts an attempt for that child with that token exactly if its factory is
/// stored. Nothing else of the supervisor changes.
pub proof fn restarts_are_asked_for_one_child(sup: SupervisionView, id: Seq<char>, seq: u64)
    requires
        listed(sup.children, id),
        !(child(sup.children, id).lifecycle is Restarting),
    ensures
        child(sup.initiated(id, seq).children, id).lifecycle == (ChildLifecycle::Restarting {
            incarnation: known_by(child(sup.children, id).lifecycle),
            next: seq,
        }),
        child(sup.initiated(id, seq).children, id).spec == child(sup.children, id).spec,
        forall|other: Seq<char>| #[trigger]
            listed(sup.children, other) && other != id ==> child(
                sup.initiated(id, seq).children,
                other,
            ) == child(sup.children, other),
        sup.initiated(id, seq) == (SupervisionView {
            children: sup.initiated(id, seq).children,
            ..sup
        }),
        sup.restart_fns.contains(id) <==> sup.started(id, seq) == Some(
            AttemptView { child_id: id, seq },
        ),
        !sup.restart_fns.contains(id) ==> sup.started(id, seq) is None,
{
    asking(sup, id, seq);
}

/// What a supervisor tells of a death outside of any group restart: the child, its name, the reason as
/// it is seen, and that a restart was begun, that the budget is exhausted, or that the child is gone.
/// The budget is charged exactly where the child is to come back; no other death is touched.
pub proof fn deaths_are_told_as_they_are(
    sup: SupervisionView,
    ev: DeathView,
    work: Seq<DeathView>,
    seq: u64,
    now: Instant,
)
    requires
        plain_death(sup, ev),
        sup.pending_group is None,
    ensures
        ({
            let step = sup.decided(ev, work, seq, now);
            let back = comes_back(
                child(sup.children, ev.child_id).spec.restart_type,
                seen(ev.reason),
            );
            &&& step.report is Some
            &&& step.report->0.child_id == ev.child_id
            &&& step.report->0.child_name == child(sup.children, ev.child_id).name
            &&& step.report->0.reason == seen(ev.reason)
            &&& step.report->0.action == if !back {
                SupervisionAction::Removed
            } else if sup.budget.allows(now) {
                SupervisionAction::RestartInitiated
            } else {
                SupervisionAction::BudgetExhausted
            }
            &&& step.sup.budget == if back {
                sup.budget.charged(now)
            } else {
                sup.budget
            }
            &&& step.sup.config == sup.config
            &&& step.sup.pending_manual_events == sup.pending_manual_events
        }),
{
    settling(sup, ev.child_id);
}

/// Under OneForOne and SimpleOneForOne the child that died is restarted alone: its restart is in
/// flight, with the token that was given, the attempt is its own, if its factory is stored, nobody is
/// told to stop, and every sibling is left as it was.
pub proof fn single_children_are_restarted_alone(
    sup: SupervisionView,
    ev: DeathView,
    work: Seq<DeathView>,
    seq: u64,
    now: Instant,
    other: Seq<char>,
)
    requires
        plain_death(sup, ev),
        sup.pending_group is None,
        sup.config.strategy == RestartStrategy::OneForOne || sup.config.strategy
            == RestartStrategy::SimpleOneForOne,
        comes_back(child(sup.children, ev.child_id).spec.restart_type, seen(ev.reason)),
        sup.budget.allows(now),
    ensures
        ({
            let id = ev.child_id;
            let step = sup.decided(ev, work, seq, now);
            &&& sup.restart_fns.contains(id) ==> step.attempt == Some(
                AttemptView { child_id: id, seq },
            )
            &&& !sup.restart_fns.contains(id) ==> step.attempt is None
            &&& step.stops.len() == 0
            &&& step.work == work
            &&& step.sup.pending_group is None
            &&& step.sup.queued_triggers == sup.queued_triggers
            &&& step.sup.restart_fns == sup.restart_fns
            &&& child(step.sup.children, id) == (ChildView {
                lifecycle: ChildLifecycle::Restarting {
                    incarnation: known_by(child(sup.children, id).lifecycle),
                    next: seq,
                },
                ..child(sup.children, id)
            })
            &&& listed(step.sup.children, id)
            &&& listed(sup.children, other) && other != id ==> listed(step.sup.children, other)
                && child(step.sup.children, other) == child(sup.children, other)
        }),
{
    let id = ev.child_id;
    let down = sup.settled_down(id);
    let judged = down.after_evaluation(id, seen(ev.reason), now);
    settling(sup, id);
    asking(judged, id, seq);
    assert(listed(judged.children, other) == listed(sup.children, other));
}

/// A child that is not to come back, or must not because the budget is exhausted, stays down: nothing
/// is attempted, nobody is told to stop, and every sibling is left as it was. Its spec is kept, unless
/// the child is Temporary or the strategy is SimpleOneForOne and it is not to come back: then it is
/// gone.
pub proof fn others_stay_down(
    sup: SupervisionView,
    ev: DeathView,
    work: Seq<DeathView>,
    seq: u64,
    now: Instant,
    other: Seq<char>,
)
    requires
        plain_death(sup, ev),
        sup.pending_group is None,
        !comes_back(child(sup.children, ev.child_id).spec.restart_type, seen(ev.reason))
            || !sup.budget.allows(now),
    ensures
        ({
            let id = ev.child_id;
            let step = sup.decided(ev, work, seq, now);
            let restart_type = child(sup.children, id).spec.restart_type;
            let gone = restart_type == RestartType::Temporary || (sup.config.strategy
                == RestartStrategy::SimpleOneForOne && !comes_back(restart_type, seen(ev.reason)));
            &&& step.attempt is None
            &&& step.stops.len() == 0
            &&& step.work == work
            &&& step.sup.pending_group is None
            &&& step.sup.queued_triggers == sup.queued_triggers
            &&& gone ==> !listed(step.sup.children, id) && !step.sup.restart_fns.contains(id)
            &&& !gone ==> step.sup.restart_fns == sup.restart_fns && listed(step.sup.children, id)
                && child(step.sup.children, id) == (ChildView {
                lifecycle: ChildLifecycle::Down {
                    incarnation: known_by(child(sup.children, id).lifecycle),
                    event_pending: false,
                },
                ..child(sup.children, id)
            })
            &&& listed(sup.children, other) && other != id ==> listed(step.sup.children, other)
                && child(step.sup.children, other) == child(sup.children, other)
            &&& sup.restart_fns.contains(other) && other != id ==> step.sup.restart_fns.contains(other)
        }),
{
    let id = ev.child_id;
    let down = sup.settled_down(id);
    settling(sup, id);
    assert(listed(down.children, other) == listed(sup.children, other));
    removal_takes_one_child(down.children, id, id);
    removal_takes_one_child(down.children, id, other);
}

/// A death of a child that a supervisor does not know is told as it is, and changes no child.
pub proof fn unknown_children_are_told_of(
    sup: SupervisionView,
    ev: DeathView,
    work: Seq<DeathView>,
    seq: u64,
    now: Instant,
)
    requires
        !listed(sup.children, ev.child_id),
        !sup.pending_manual_events.dom().contains((ev.child_id, ev.incarnation)),
        sup.pending_group is None,
    ensures
        ({
            let step = sup.decided(ev, work, seq, now);
            &&& step.report is Some
            &&& step.report->0.child_id == ev.child_id
            &&& step.report->0.child_name is None
            &&& step.report->0.reason == ev.reason
            &&& step.report->0.action == SupervisionAction::Removed
            &&& step.sup.children == sup.children
            &&& step.sup.budget == sup.budget
            &&& step.attempt is None
            &&& step.stops.len() == 0
            &&& step.work == work
        }),
{
}

/// A death of an instance that was replaced, which is neither the one that the child is known by nor
/// the one that its restart in flight is to bring, is as if it had not happened.
pub proof fn replaced_instances_are_forgotten(
    sup: SupervisionView,
    ev: DeathView,
    work: Seq<DeathView>,
    seq: u64,
    now: Instant,
)
    requires
        listed(sup.children, ev.child_id),
        known_by(child(sup.children, ev.child_id).lifecycle) != ev.incarnation,
        child(sup.children, ev.child_id).lifecycle is Restarting ==> child(
            sup.children,
            ev.child_id,
        ).lifecycle->next != ev.incarnation,
        !sup.pending_manual_events.dom().contains((ev.child_id, ev.incarnation)),
    ensures
        ({
            let step = sup.decided(ev, work, seq, now);
            &&& step.sup == sup
            &&& step.work == work
            &&& step.attempt is None
            &&& step.stops.len() == 0
            &&& step.report is None
        }),
{
}

// ---------------------------------------------------------------------------
// Group restarts
// ---------------------------------------------------------------------------

/// Whether the failure of one child is a matter of another one too: of every child under OneForAll,
/// of itself and of those started after it under RestForOne.
pub open spec fn shares_fate(sup: SupervisionView, failed: Seq<char>, id: Seq<char>) -> bool {
    &&& listed(sup.children, id)
    &&& sup.config.strategy == RestartStrategy::OneForAll || slot(sup.children, id) >= slot(
        sup.children,
        failed,
    )
}

/// What is known of the outcome of a death that leads to a group restart, told by the children as
/// they were before.
proof fn group_outcome_is_known(sup: SupervisionView, id: Seq<char>, reason: StopReason, now: Instant)
    requires
        unique(sup.children),
        listed(sup.children, id),
        sup.config.strategy == RestartStrategy::OneForAll || sup.config.strategy
            == RestartStrategy::RestForOne,
        comes_back(child(sup.children, id).spec.restart_type, reason),
        sup.budget.allows(now),
    ensures
        ({
            let outcome = sup.settled_down(id).evaluated(id, reason, now);
            let stops = outcome->stop_reverse;
            let order = outcome->restart_order;
            &&& outcome is RestartGroup
            &&& forall|other: Seq<char>| #[trigger]
                stops.contains(other) <==> shares_fate(sup, id, other) && running(
                    sup.children,
                    other,
                ) && other != id
            &&& forall|other: Seq<char>| #[trigger]
                order.contains(other) <==> shares_fate(sup, id, other) && child(
                    sup.children,
                    other,
                ).spec.restart_type != RestartType::Temporary
            &&& forall|i: int, j: int|
                0 <= i < j < stops.len() ==> slot(sup.children, #[trigger] stops[i]) > slot(
                    sup.children,
                    #[trigger] stops[j],
                )
            &&& forall|i: int, j: int|
                0 <= i < j < order.len() ==> slot(sup.children, #[trigger] order[i]) < slot(
                    sup.children,
                    #[trigger] order[j],
                )
        }),
{
    let down = sup.settled_down(id);
    let outcome = down.evaluated(id, reason, now);
    settling(sup, id);
    assert forall|other: Seq<char>| #[trigger]
        outcome->stop_reverse.contains(other) <==> shares_fate(sup, id, other) && running(
            sup.children,
            other,
        ) && other != id by {
        groups_concern_whom_they_should(down, id, reason, now, other);
        assert(listed(down.children, other) == listed(sup.children, other));
    }
    assert forall|other: Seq<char>| #[trigger]
        outcome->restart_order.contains(other) <==> shares_fate(sup, id, other) && child(
            sup.children,
            other,
        ).spec.restart_type != RestartType::Temporary by {
        groups_concern_whom_they_should(down, id, reason, now, other);
        assert(listed(down.children, other) == listed(sup.children, other));
    }
    assert forall|i: int, j: int| 0 <= i < j < outcome->stop_reverse.len() implies slot(
        sup.children,
        #[trigger] outcome->stop_reverse[i],
    ) > slot(sup.children, #[trigger] outcome->stop_reverse[j]) by {
        groups_stop_in_reverse_start_order(down, id, reason, now, i, j);
    }
    assert forall|i: int, j: int| 0 <= i < j < outcome->restart_order.len() implies slot(
        sup.children,
        #[trigger] outcome->restart_order[i],
    ) < slot(sup.children, #[trigger] outcome->restart_order[j]) by {
        groups_restart_in_start_order(down, id, reason, now, i, j);
    }
}

/// Under OneForAll and RestForOne a death that calls for a restart brings the whole group down: every
/// live sibling that shares the child's fate is told to stop, by its own shutdown policy, each once and
/// the one that was started last first, and nobody else is. Their deaths, and no others, are awaited;
/// the members to restart are those that share its fate and are not Temporary, in start order. Nothing
/// is attempted as long as a death is awaited.
pub proof fn groups_are_brought_down_as_a_whole(
    sup: SupervisionView,
    ev: DeathView,
    work: Seq<DeathView>,
    seq: u64,
    now: Instant,
    sibling: Seq<char>,
)
    requires
        plain_death(sup, ev),
        sup.pending_group is None,
        sup.config.strategy == RestartStrategy::OneForAll || sup.config.strategy
            == RestartStrategy::RestForOne,
        comes_back(child(sup.children, ev.child_id).spec.restart_type, seen(ev.reason)),
        sup.budget.allows(now),
        shares_fate(sup, ev.child_id, sibling),
        running(sup.children, sibling),
        sibling != ev.child_id,
    ensures
        ({
            let id = ev.child_id;
            let step = sup.decided(ev, work, seq, now);
            let group = step.sup.pending_group->0->Stopping_0;
            &&& step.stops.contains((sibling, child(sup.children, sibling).spec.shutdown))
            &&& forall|i: int|
                0 <= i < step.stops.len() ==> {
                    let (other, shutdown) = #[trigger] step.stops[i];
                    &&& shares_fate(sup, id, other)
                    &&& running(sup.children, other)
                    &&& other != id
                    &&& shutdown == child(sup.children, other).spec.shutdown
                }
            &&& forall|i: int, j: int|
                0 <= i < j < step.stops.len() ==> slot(
                    sup.children,
                    (#[trigger] step.stops[i]).0,
                ) > slot(sup.children, (#[trigger] step.stops[j]).0)
            &&& step.attempt is None
            &&& step.work == work
            &&& step.sup.pending_group is Some && step.sup.pending_group->0 is Stopping
            &&& forall|other: Seq<char>| #[trigger]
                group.awaiting.contains(other) <==> shares_fate(sup, id, other) && running(
                    sup.children,
                    other,
                ) && other != id
            &&& forall|other: Seq<char>| #[trigger]
                group.restart_order.contains(other) <==> shares_fate(sup, id, other) && child(
                    sup.children,
                    other,
                ).spec.restart_type != RestartType::Temporary
            &&& forall|i: int, j: int|
                0 <= i < j < group.restart_order.len() ==> slot(
                    sup.children,
                    #[trigger] group.restart_order[i],
                ) < slot(sup.children, #[trigger] group.restart_order[j])
            &&& forall|other: Seq<char>| !group.manual_overrides.contains(other)
            &&& step.sup.queued_triggers == sup.queued_triggers
            &&& step.sup.restart_fns == sup.restart_fns
            &&& child(step.sup.children, id).lifecycle is Down
            &&& child(step.sup.children, sibling) == child(sup.children, sibling)
        }),
{
    let id = ev.child_id;
    let down = sup.settled_down(id);
    let reason = seen(ev.reason);
    let outcome = down.evaluated(id, reason, now);
    let stops = outcome->stop_reverse;
    let step = sup.decided(ev, work, seq, now);
    settling(sup, id);
    group_outcome_is_known(sup, id, reason, now);
    assert(stops.contains(sibling));
    let at = stops.index_of(sibling);
    assert(step.stops[at] == (sibling, child(sup.children, sibling).spec.shutdown));
    assert forall|i: int| 0 <= i < step.stops.len() implies {
        let (other, shutdown) = #[trigger] step.stops[i];
        &&& shares_fate(sup, id, other)
        &&& running(sup.children, other)
        &&& other != id
        &&& shutdown == child(sup.children, other).spec.shutdown
    } by {
        assert(stops.contains(stops[i]));
        assert(step.stops[i].0 == stops[i]);
    }
    assert forall|i: int, j: int| 0 <= i < j < step.stops.len() implies slot(
        sup.children,
        (#[trigger] step.stops[i]).0,
    ) > slot(sup.children, (#[trigger] step.stops[j]).0) by {
        assert(step.stops[i].0 == stops[i] && step.stops[j].0 == stops[j]);
    }
}

/// Where no sibling that shares the child's fate is live, the members are restarted at once, one
/// after the other and in start order: those that share its fate and are not Temporary. The first of
/// them is attempted, unless a restart of it is in flight already.
pub proof fn groups_without_live_siblings_are_restarted_at_once(
    sup: SupervisionView,
    ev: DeathView,
    work: Seq<DeathView>,
    seq: u64,
    now: Instant,
)
    requires
        plain_death(sup, ev),
        sup.pending_group is None,
        sup.config.strategy == RestartStrategy::OneForAll || sup.config.strategy
            == RestartStrategy::RestForOne,
        comes_back(child(sup.children, ev.child_id).spec.restart_type, seen(ev.reason)),
        sup.budget.allows(now),
        forall|other: Seq<char>| #[trigger]
            shares_fate(sup, ev.child_id, other) && other != ev.child_id ==> !running(
                sup.children,
                other,
            ),
        forall|other: Seq<char>| #[trigger]
            listed(sup.children, other) ==> sup.restart_fns.contains(other),
    ensures
        ({
            let id = ev.child_id;
            let step = sup.decided(ev, work, seq, now);
            let queue = step.sup.pending_group->0->Restarting_0;
            &&& step.stops.len() == 0
            &&& step.work == work
            &&& step.sup.pending_group is Some && step.sup.pending_group->0 is Restarting
            &&& queue.len() > 0
            &&& forall|other: Seq<char>| #[trigger]
                queue.contains(other) <==> shares_fate(sup, id, other) && child(
                    sup.children,
                    other,
                ).spec.restart_type != RestartType::Temporary
            &&& forall|i: int, j: int|
                0 <= i < j < queue.len() ==> slot(sup.children, #[trigger] queue[i]) < slot(
                    sup.children,
                    #[trigger] queue[j],
                )
            &&& child(step.sup.children, queue[0]).lifecycle is Restarting
            &&& (queue[0] == id || !(child(sup.children, queue[0]).lifecycle is Restarting))
                ==> step.attempt == Some(AttemptView { child_id: queue[0], seq })
            &&& step.attempt is Some ==> step.attempt->0.child_id == queue[0]
        }),
{
    let id = ev.child_id;
    let down = sup.settled_down(id);
    let reason = seen(ev.reason);
    let outcome = down.evaluated(id, reason, now);
    let judged = down.after_evaluation(id, reason, now);
    let order = outcome->restart_order;
    settling(sup, id);
    group_outcome_is_known(sup, id, reason, now);
    if outcome->stop_reverse.len() > 0 {
        assert(outcome->stop_reverse.contains(outcome->stop_reverse[0]));
    }
    assert(order.contains(id));
    assert forall|k: int| 0 <= k < order.len() implies !running(
        judged.children,
        #[trigger] order[k],
    ) by {
        assert(order.contains(order[k]));
        assert(listed(sup.children, order[k]));
    }
    assert(stalled(judged.children, order) == order);
    let front = order[0];
    let chained = judged.chained(order);
    assert(chained.chain_front() == Some(front));
    assert(order.contains(front));
    assert(listed(judged.children, front));
    assert(work + Seq::empty() =~= work);
    if !(child(judged.children, front).lifecycle is Restarting) {
        asking(chained.advanced(), front, seq);
    } else {
        let kept = child(judged.children, front).lifecycle;
        lifecycle_changes_one_child(judged.children, front, kept, front);
    }
}

/// A restart chain passes over members that are live, and over no others: what is left of it is all of
/// it from the first member on that is not live.
pub proof fn chains_pass_over_live_members_only(
    children: Seq<ChildView>,
    queue: Seq<Seq<char>>,
    sup: SupervisionView,
)
    requires
        sup.children == children,
        sup.pending_group == Some(GroupView::Restarting(queue)),
    ensures
        ({
            let left = sup.chain_left();
            let passed = queue.len() - left.len();
            &&& 0 <= passed <= queue.len()
            &&& left == queue.skip(passed)
            &&& forall|i: int| 0 <= i < passed ==> running(children, #[trigger] queue[i])
            &&& left.len() > 0 ==> !running(children, queue[passed]) && sup.chain_front() == Some(
                queue[passed],
            )
            &&& left.len() == 0 <==> sup.chain_done()
            &&& left.len() > 0 ==> sup.advanced() == (SupervisionView {
                pending_group: Some(GroupView::Restarting(left)),
                ..sup
            }) && sup.released().len() == 0
            &&& left.len() == 0 ==> sup.advanced().pending_group is None && sup.released()
                == sup.queued_triggers && sup.chain_front() is None
        }),
    decreases queue.len(),
{
    if queue.len() > 0 && running(children, queue[0]) {
        let rest = queue.drop_first();
        let shorter = SupervisionView { pending_group: Some(GroupView::Restarting(rest)), ..sup };
        chains_pass_over_live_members_only(children, rest, shorter);
        let passed = queue.len() - sup.chain_left().len();
        assert(queue.skip(passed) =~= rest.skip(passed - 1));
        assert forall|i: int| 0 <= i < passed implies running(children, #[trigger] queue[i]) by {
            if i > 0 {
                assert(rest[i - 1] == queue[i]);
            }
        }
        if sup.chain_left().len() > 0 {
            assert(rest[passed - 1] == queue[passed]);
        }
    } else {
        assert(queue.skip(0) =~= queue);
    }
}

/// The death of a member that a group restart awaits is told with its name and the reason as it is
/// seen, and costs nothing. As long as another death is awaited, nothing is attempted and the group
/// awaits the rest.
pub proof fn groups_await_the_rest(
    sup: SupervisionView,
    ev: DeathView,
    work: Seq<DeathView>,
    seq: u64,
    now: Instant,
    other: Seq<char>,
)
    requires
        plain_death(sup, ev),
        sup.pending_group is Some,
        sup.pending_group->0 is Stopping,
        sup.pending_group->0->Stopping_0.awaiting.contains(ev.child_id),
        sup.pending_group->0->Stopping_0.awaiting.contains(other),
        other != ev.child_id,
    ensures
        ({
            let id = ev.child_id;
            let group = sup.pending_group->0->Stopping_0;
            let step = sup.decided(ev, work, seq, now);
            let after = step.sup.pending_group->0->Stopping_0;
            &&& step.report is Some
            &&& step.report->0.child_id == id
            &&& step.report->0.child_name == child(sup.children, id).name
            &&& step.report->0.reason == seen(ev.reason)
            &&& step.attempt is None
            &&& step.stops.len() == 0
            &&& step.work == work
            &&& step.sup.budget == sup.budget
            &&& step.sup.queued_triggers == sup.queued_triggers
            &&& step.sup.pending_manual_events == sup.pending_manual_events
            &&& step.sup.pending_group is Some && step.sup.pending_group->0 is Stopping
            &&& forall|member: Seq<char>| #[trigger]
                after.awaiting.contains(member) <==> group.awaiting.contains(member) && member != id
            &&& after.restart_order == group.restart_order
            &&& after.manual_overrides == group.manual_overrides
            &&& !running(step.sup.children, id)
        }),
{
    let id = ev.child_id;
    let group = sup.pending_group->0->Stopping_0;
    settling(sup, id);
    assert(group.awaiting.remove(id).contains(other));
    assert(group.awaiting.remove(id) != Set::<Seq<char>>::empty());
    removal_takes_one_child(sup.settled_down(id).children, id, id);
}

/// The last death that a group restart awaits begins the restart chain: the members that were to be
/// restarted and were not terminated meanwhile, in the order in which they were to be. The group then
/// waits for the first of them that is not live, which is attempted unless a restart of it is in
/// flight already. Where all are live, the group is over, and the deaths that were queued meanwhile
/// are dealt with next, in order.
pub proof fn the_last_death_begins_the_chain(
    sup: SupervisionView,
    ev: DeathView,
    work: Seq<DeathView>,
    seq: u64,
    now: Instant,
)
    requires
        plain_death(sup, ev),
        sup.pending_group is Some,
        sup.pending_group->0 is Stopping,
        sup.pending_group->0->Stopping_0.awaiting.contains(ev.child_id),
        forall|other: Seq<char>| #[trigger]
            sup.pending_group->0->Stopping_0.awaiting.contains(other) ==> other == ev.child_id,
        forall|other: Seq<char>| #[trigger]
            listed(sup.children, other) ==> sup.restart_fns.contains(other),
    ensures
        ({
            let id = ev.child_id;
            let group = sup.pending_group->0->Stopping_0;
            let order = group.restart_order.filter(
                |member: Seq<char>| !group.manual_overrides.contains(member),
            );
            let step = sup.decided(ev, work, seq, now);
            let all_live = forall|i: int|
                0 <= i < order.len() ==> running(sup.children, #[trigger] order[i]) && order[i]
                    != id;
            &&& step.stops.len() == 0
            &&& step.sup.budget == sup.budget
            &&& step.report is Some
            &&& step.report->0.child_id == id
            &&& step.report->0.reason == seen(ev.reason)
            &&& all_live ==> {
                &&& step.sup.pending_group is None
                &&& step.work == work + sup.queued_triggers
                &&& step.sup.queued_triggers.len() == 0
                &&& step.attempt is None
            }
            &&& !all_live ==> {
                let queue = step.sup.pending_group->0->Restarting_0;
                let passed = order.len() - queue.len();
                &&& step.sup.pending_group is Some && step.sup.pending_group->0 is Restarting
                &&& step.work == work
                &&& step.sup.queued_triggers == sup.queued_triggers
                &&& 0 <= passed < order.len()
                &&& queue == order.skip(passed)
                &&& forall|i: int|
                    0 <= i < passed ==> running(sup.children, #[trigger] order[i]) && order[i] != id
                &&& !running(sup.children, order[passed]) || order[passed] == id
                &&& step.attempt is Some ==> step.attempt->0 == (AttemptView {
                    child_id: order[passed],
                    seq,
                })
                &&& listed(sup.children, order[passed]) && (order[passed] == id || !(child(
                    sup.children,
                    order[passed],
                ).lifecycle is Restarting)) ==> step.attempt is Some
            }
        }),
{
    let id = ev.child_id;
    let group = sup.pending_group->0->Stopping_0;
    let overrides = group.manual_overrides;
    let order = group.restart_order.filter(|member: Seq<char>| !overrides.contains(member));
    let down = sup.settled_down(id);
    let noted = down.death_noted(id);
    let chained = noted.chained(order);
    settling(sup, id);
    assert(group.awaiting.remove(id) =~= Set::<Seq<char>>::empty());
    assert(sup.chain_due(id) == Some(order));
    chains_pass_over_live_members_only(noted.children, order, chained);
    assert forall|other: Seq<char>| #[trigger] running(noted.children, other) <==> running(
        sup.children,
        other,
    ) && other != id by {
        assert(listed(noted.children, other) == listed(sup.children, other));
    }
    let all_live = forall|i: int|
        0 <= i < order.len() ==> running(sup.children, #[trigger] order[i]) && order[i] != id;
    let left = chained.chain_left();
    let passed = order.len() - left.len();
    if left.len() > 0 {
        assert(!(running(sup.children, order[passed]) && order[passed] != id));
        assert(listed(sup.children, order[passed]) ==> sup.restart_fns.contains(order[passed]));
    } else {
        assert forall|i: int| 0 <= i < order.len() implies running(
            sup.children,
            #[trigger] order[i],
        ) && order[i] != id by {
            assert(running(noted.children, order[i]));
        }
        assert(all_live);
    }
}

/// The death of the member that a restart chain waits for, before it is live, is one more attempt, and
/// is charged as one. As long as the budget allows it, the member is restarted once more, with the
/// token that was given, and the chain goes on waiting for it; else the budget is exhausted and the
/// member stays down.
pub proof fn chains_retry_their_front(
    sup: SupervisionView,
    ev: DeathView,
    work: Seq<DeathView>,
    seq: u64,
    now: Instant,
)
    requires
        plain_death(sup, ev),
        sup.pending_group is Some,
        sup.pending_group->0 is Restarting,
        sup.pending_group->0->Restarting_0.len() > 0,
        sup.pending_group->0->Restarting_0[0] == ev.child_id,
    ensures
        ({
            let id = ev.child_id;
            let step = sup.decided(ev, work, seq, now);
            let own = known_by(child(sup.children, id).lifecycle);
            &&& step.report is Some
            &&& step.report->0.child_id == id
            &&& step.report->0.child_name == child(sup.children, id).name
            &&& step.report->0.reason == seen(ev.reason)
            &&& step.sup.budget == sup.budget.charged(now)
            &&& step.sup.pending_group == sup.pending_group
            &&& step.sup.queued_triggers == sup.queued_triggers
            &&& step.work == work
            &&& step.stops.len() == 0
            &&& sup.budget.allows(now) ==> {
                &&& step.report->0.action == SupervisionAction::RestartInitiated
                &&& sup.restart_fns.contains(id) ==> step.attempt == Some(
                    AttemptView { child_id: id, seq },
                )
                &&& !sup.restart_fns.contains(id) ==> step.attempt is None
                &&& child(step.sup.children, id).lifecycle == (ChildLifecycle::Restarting {
                    incarnation: own,
                    next: seq,
                })
            }
            &&& !sup.budget.allows(now) ==> {
                &&& step.report->0.action == SupervisionAction::BudgetExhausted
                &&& step.attempt is None
                &&& child(step.sup.children, id).lifecycle is Down
            }
        }),
{
    let id = ev.child_id;
    let down = sup.settled_down(id);
    settling(sup, id);
    asking(SupervisionView { budget: down.budget.charged(now), ..down }, id, seq);
}

/// A death that a group restart in flight neither awaits nor waits for the restart of is put off: it
/// is told of to nobody, starts nothing and costs nothing. It is queued, as it is seen, behind those
/// that were queued before, unless it is a failed attempt to restart a child which the group restarts
/// anyway; a failed attempt is settled at once.
pub proof fn other_deaths_wait_for_the_group(
    sup: SupervisionView,
    ev: DeathView,
    work: Seq<DeathView>,
    seq: u64,
    now: Instant,
)
    requires
        plain_death(sup, ev),
        sup.pending_group is Some,
        match sup.pending_group->0 {
            GroupView::Stopping(group) => !group.awaiting.contains(ev.child_id),
            GroupView::Restarting(queue) => queue.len() == 0 || queue[0] != ev.child_id,
        },
    ensures
        ({
            let id = ev.child_id;
            let step = sup.decided(ev, work, seq, now);
            let lifecycle = child(sup.children, id).lifecycle;
            let failed = lifecycle is Restarting && lifecycle->next == ev.incarnation;
            let member = match sup.pending_group->0 {
                GroupView::Stopping(group) => group.restart_order.contains(id),
                GroupView::Restarting(queue) => queue.contains(id),
            };
            &&& step.report is None
            &&& step.attempt is None
            &&& step.stops.len() == 0
            &&& step.work == work
            &&& step.sup.budget == sup.budget
            &&& step.sup.pending_group == sup.pending_group
            &&& step.sup.queued_triggers == if failed && member {
                sup.queued_triggers
            } else {
                sup.queued_triggers.push(DeathView { reason: seen(ev.reason), ..ev })
            }
            &&& failed ==> child(step.sup.children, id).lifecycle == (ChildLifecycle::Down {
                incarnation: known_by(lifecycle),
                event_pending: false,
            })
            &&& !failed ==> step.sup.children == sup.children
        }),
{
    settling(sup, ev.child_id);
}

} // verus!
