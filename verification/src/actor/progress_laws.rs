//! What a supervisor waits for is always on its way: no restart gets stuck.

use vstd::prelude::*;
use crate::actor::child_events::{is_crash, presented};
use crate::actor::child_laws::{
    classification_is_local, evolved, evolved_by_lifecycle, evolved_by_parts, evolved_by_removal,
    filter_contains, untouched,
};
use crate::actor::lifecycle::{moved, settled, ChildLifecycle, ManualStop};
use crate::actor::management::ManualBegin;
use crate::actor::registry::{
    child, lifecycle_changes_one_child, lifecycle_keeps_ids, listed, registration_appends,
    removal_takes_one_child, running, unique, with_lifecycle, without, ChildSpec, ChildView,
};
use crate::actor::supervision::{
    live_sibling, restartable, stalled, AttemptView, GroupRestartView, GroupView, OutcomeView,
    SupervisionConfig, SupervisionView,
};
use crate::error::SupervisionError;
use crate::time::Instant;
use crate::types::{
    ActorId, DeathView, RestartStrategy, RestartType, StopReason, SupervisionAction,
};

verus! {

impl SupervisionView {
    /// Whether the child can be restarted by a group.
    pub open spec fn revivable(self, id: Seq<char>) -> bool {
        listed(self.children, id) && child(self.children, id).spec.restart_type
            != RestartType::Temporary
    }

    /// Whether a death of the child is still to come: it is live, or the event of a manual stop waits
    /// for its death.
    pub open spec fn will_report(self, id: Seq<char>) -> bool {
        running(self.children, id) || exists|incarnation: u64|
            self.pending_manual_events.dom().contains((id, incarnation))
    }

    /// Whether the group restart in flight is to restart the child.
    pub open spec fn to_be_chained(self, id: Seq<char>) -> bool {
        match self.pending_group {
            Some(GroupView::Stopping(group)) => group.restart_order.contains(id)
                && !group.manual_overrides.contains(id),
            Some(GroupView::Restarting(queue)) => queue.contains(id),
            None => false,
        }
    }

    /// Whether a group restart in flight waits for something that is on its way: in its stop phase
    /// for deaths, at least one, of children that will report them; in its restart phase for the
    /// attempt to restart the front of its queue. Without one, no death is left in the queue.
    pub open spec fn group_moves(self) -> bool {
        match self.pending_group {
            None => self.queued_triggers.len() == 0,
            Some(GroupView::Stopping(group)) => {
                &&& exists|id: Seq<char>| group.awaiting.contains(id)
                &&& forall|id: Seq<char>| #[trigger]
                    group.awaiting.contains(id) ==> self.will_report(id)
            },
            Some(GroupView::Restarting(queue)) => {
                &&& queue.len() > 0
                &&& child(self.children, queue[0]).lifecycle is Restarting
            },
        }
    }

    /// What holds of a supervisor at all times: no two children share an ID, each can be restarted
    /// from its factory, every child that a group restart in flight is to restart is there, and the
    /// group restart waits for something that is on its way.
    pub open spec fn sound(self) -> bool {
        &&& unique(self.children)
        &&& forall|id: Seq<char>| #[trigger]
            listed(self.children, id) ==> self.restart_fns.contains(id)
        &&& self.pending_group is Some ==> self.config.strategy == RestartStrategy::OneForAll
            || self.config.strategy == RestartStrategy::RestForOne
        &&& forall|id: Seq<char>| #[trigger] self.to_be_chained(id) ==> self.revivable(id)
        &&& self.group_moves()
    }
}

/// A change that concerns one child keeps a supervisor sound, where that child still does what the
/// group restart in flight expects of it.
proof fn local_changes_are_sound(before: SupervisionView, after: SupervisionView, id: Seq<char>)
    requires
        before.sound(),
        evolved(before.children, after.children),
        forall|other: Seq<char>|
            other != id ==> #[trigger] untouched(before.children, after.children, other),
        after.config == before.config,
        after.pending_group == before.pending_group,
        after.pending_group is None ==> after.queued_triggers.len() == 0,
        forall|other: Seq<char>|
            other != id && #[trigger] before.restart_fns.contains(other)
                ==> after.restart_fns.contains(other),
        listed(after.children, id) ==> after.restart_fns.contains(id),
        forall|other: Seq<char>, incarnation: u64|
            other != id && #[trigger] before.pending_manual_events.dom().contains(
                (other, incarnation),
            ) ==> after.pending_manual_events.dom().contains((other, incarnation)),
        before.awaits_death(id) ==> after.will_report(id),
        before.to_be_chained(id) ==> after.revivable(id),
        before.at_chain_front(id) ==> child(after.children, id).lifecycle is Restarting,
    ensures
        after.sound(),
{
    assert forall|other: Seq<char>| #[trigger] after.to_be_chained(
        other,
    ) implies after.revivable(other) by {
        assert(before.to_be_chained(other));
        assert(other != id ==> untouched(before.children, after.children, other));
    }
    match before.pending_group {
        None => {},
        Some(GroupView::Stopping(group)) => {
            assert forall|other: Seq<char>| #[trigger]
                group.awaiting.contains(other) implies after.will_report(other) by {
                if other != id {
                    assert(untouched(before.children, after.children, other));
                    assert(before.will_report(other));
                    if !running(before.children, other) {
                        let incarnation = choose|incarnation: u64|
                            before.pending_manual_events.dom().contains((other, incarnation));
                        assert(after.pending_manual_events.dom().contains((other, incarnation)));
                    }
                }
            }
        },
        Some(GroupView::Restarting(queue)) => {
            let front = queue[0];
            assert(queue.contains(front));
            assert(before.to_be_chained(front));
            assert(front != id ==> untouched(before.children, after.children, front));
        },
    }
}

/// What a chain waits for is one of its members, and not live.
proof fn stalled_is_a_tail(children: Seq<ChildView>, queue: Seq<Seq<char>>)
    ensures
        forall|id: Seq<char>| #[trigger]
            stalled(children, queue).contains(id) ==> queue.contains(id),
        stalled(children, queue).len() > 0 ==> !running(children, stalled(children, queue)[0]),
    decreases queue.len(),
{
    if queue.len() > 0 && running(children, queue[0]) {
        let rest = queue.drop_first();
        stalled_is_a_tail(children, rest);
        assert forall|id: Seq<char>| #[trigger]
            stalled(children, queue).contains(id) implies queue.contains(id) by {
            let i = rest.index_of(id);
            assert(rest.contains(id));
            assert(queue[i + 1] == id);
        }
    }
}

/// A restart chain of children that are there is sound from its beginning on.
proof fn chains_begin_sound(sup: SupervisionView, order: Seq<Seq<char>>, seq: u64)
    requires
        unique(sup.children),
        forall|id: Seq<char>| #[trigger]
            listed(sup.children, id) ==> sup.restart_fns.contains(id),
        sup.config.strategy == RestartStrategy::OneForAll || sup.config.strategy
            == RestartStrategy::RestForOne,
        forall|id: Seq<char>| #[trigger] order.contains(id) ==> sup.revivable(id),
    ensures
        sup.begun(Some(order), seq).sound(),
{
    let chained = sup.chained(order);
    let after = sup.begun(Some(order), seq);
    stalled_is_a_tail(sup.children, order);
    if let Some(front) = chained.chain_front() {
        let left = chained.chain_left();
        let advanced = chained.advanced();
        assert(left.contains(front));
        assert(sup.revivable(front));
        evolved_by_parts(advanced, front, seq);
        let lifecycle = child(sup.children, front).lifecycle;
        let to = ChildLifecycle::Restarting { incarnation: lifecycle.own(), next: seq };
        lifecycle_changes_one_child(sup.children, front, moved(lifecycle, to), front);
        lifecycle_keeps_ids(sup.children, front, moved(lifecycle, to));
        assert forall|id: Seq<char>| #[trigger] after.to_be_chained(id) implies after.revivable(
            id,
        ) by {
            assert(left.contains(id));
            assert(order.contains(id));
            assert(sup.revivable(id));
            assert(listed(after.children, id));
        }
    }
}

/// A supervisor without children is sound: a new one, and one that brings its children down.
pub proof fn childless_supervisors_are_sound(config: SupervisionConfig, sup: SupervisionView)
    ensures
        SupervisionView::fresh(config).sound(),
        sup.emptied().sound(),
{
}

// ---------------------------------------------------------------------------
// Manual management
// ---------------------------------------------------------------------------

/// A new child keeps a supervisor sound.
pub proof fn new_children_keep_supervisors_sound(
    sup: SupervisionView,
    id: Seq<char>,
    name: Option<Seq<char>>,
    spec: ChildSpec,
    incarnation: u64,
)
    requires
        sup.sound(),
        !listed(sup.children, id),
    ensures
        sup.with_child(id, name, spec, incarnation).sound(),
{
    let after = sup.with_child(id, name, spec, incarnation);
    let new = ChildView { id, name, spec, lifecycle: ChildLifecycle::Running(incarnation) };
    registration_appends(sup.children, new, id);
    assert forall|other: Seq<char>| #[trigger] listed(
        after.children,
        other,
    ) implies after.restart_fns.contains(other) by {
        registration_appends(sup.children, new, other);
    }
    assert forall|other: Seq<char>| #[trigger] after.to_be_chained(
        other,
    ) implies after.revivable(other) by {
        assert(sup.to_be_chained(other));
        registration_appends(sup.children, new, other);
    }
    match sup.pending_group {
        None => {},
        Some(GroupView::Stopping(group)) => {
            assert forall|other: Seq<char>| #[trigger]
                group.awaiting.contains(other) implies after.will_report(other) by {
                assert(sup.will_report(other));
                registration_appends(sup.children, new, other);
                if !running(sup.children, other) {
                    let awaited = choose|awaited: u64|
                        sup.pending_manual_events.dom().contains((other, awaited));
                    assert(after.pending_manual_events.dom().contains((other, awaited)));
                }
            }
        },
        Some(GroupView::Restarting(queue)) => {
            assert(queue.contains(queue[0]));
            assert(sup.to_be_chained(queue[0]));
            registration_appends(sup.children, new, queue[0]);
        },
    }
}

/// To revive or to delete a child that is down keeps a supervisor sound.
pub proof fn idle_specs_can_be_used_soundly(sup: SupervisionView, id: ActorId, seq: u64)
    requires
        sup.sound(),
        sup.free_spec(id) == Ok::<(), SupervisionError>(()),
    ensures
        sup.initiated(id@, seq).sound(),
        sup.removed(id@).sound(),
{
    evolved_by_parts(sup, id@, seq);
    evolved_by_removal(sup.children, id@);
    removal_takes_one_child(sup.children, id@, id@);
    assert(sup.awaits_death(id@) ==> sup.will_report(id@));
    assert(sup.to_be_chained(id@) ==> sup.in_group(id@));
    if sup.at_chain_front(id@) {
        assert(sup.pending_group->0->Restarting_0.contains(id@));
    }
    let lifecycle = child(sup.children, id@).lifecycle;
    let to = ChildLifecycle::Restarting { incarnation: lifecycle.own(), next: seq };
    lifecycle_keeps_ids(sup.children, id@, moved(lifecycle, to));
    let again = sup.initiated(id@, seq);
    let gone = sup.removed(id@);
    if sup.awaits_death(id@) {
        let incarnation = choose|incarnation: u64|
            sup.pending_manual_events.dom().contains((id@, incarnation));
        assert(again.pending_manual_events.dom().contains((id@, incarnation)));
        assert(gone.pending_manual_events.dom().contains((id@, incarnation)));
    }
    local_changes_are_sound(sup, again, id@);
    local_changes_are_sound(sup, gone, id@);
}

/// A manual stop keeps a supervisor sound, from when it begins until after it is finished, and so
/// does one whose caller went away in between.
pub proof fn manual_stops_keep_supervisors_sound(
    sup: SupervisionView,
    id: ActorId,
    kind: ManualStop,
    died: bool,
    reason: StopReason,
    seq: u64,
)
    requires
        sup.sound(),
    ensures
        sup.manual_begun(id@, kind, died).sound(),
        match sup.manual_answer(id, kind, died) {
            Ok(ManualBegin::DiedFirst { incarnation }) => sup.manual_begun(
                id@,
                kind,
                died,
            ).classified(id@, incarnation, kind, reason, seq).sound(),
            Ok(ManualBegin::Committed { incarnation, .. }) => sup.manual_begun(
                id@,
                kind,
                died,
            ).classified(id@, incarnation, kind, reason, seq).sound(),
            _ => true,
        },
{
    let begun = sup.manual_begun(id@, kind, died);
    let own = child(sup.children, id@).lifecycle.own();
    if sup.overrides_group(id@, kind) {
        let group = sup.pending_group->0->Stopping_0;
        assert forall|other: Seq<char>| #[trigger] begun.to_be_chained(
            other,
        ) implies begun.revivable(other) by {
            assert(sup.to_be_chained(other));
        }
        assert forall|other: Seq<char>| #[trigger]
            group.awaiting.contains(other) implies begun.will_report(other) by {
            assert(sup.will_report(other));
            if !running(sup.children, other) {
                let incarnation = choose|incarnation: u64|
                    sup.pending_manual_events.dom().contains((other, incarnation));
                assert(begun.pending_manual_events.dom().contains((other, incarnation)));
            }
        }
        let awaited = choose|awaited: Seq<char>| group.awaiting.contains(awaited);
        assert(begun.pending_group->0->Stopping_0.awaiting.contains(awaited));
        assert(begun.group_moves());
        classification_is_sound(begun, id@, own, kind, reason, seq);
    } else if sup.stops_live_child(id@) {
        let to = if died {
            ChildLifecycle::Down { incarnation: own, event_pending: false }
        } else {
            ChildLifecycle::Stopping { incarnation: own, kind }
        };
        evolved_by_lifecycle(sup.children, id@, to);
        if sup.at_chain_front(id@) {
            assert(sup.pending_group->0->Restarting_0.contains(id@));
        }
        local_changes_are_sound(sup, begun, id@);
        classification_is_sound(begun, id@, own, kind, reason, seq);
    }
}

/// A manual stop of a child that no group restart in flight is to restart is finished soundly.
proof fn classification_is_sound(
    sup: SupervisionView,
    id: Seq<char>,
    incarnation: u64,
    kind: ManualStop,
    reason: StopReason,
    seq: u64,
)
    requires
        sup.sound(),
        sup.awaits_death(id) ==> !is_crash(kind, reason) || !running(sup.children, id),
        sup.to_be_chained(id) ==> child(sup.children, id).lifecycle is Stopping,
    ensures
        sup.classified(id, incarnation, kind, reason, seq).sound(),
{
    let after = sup.classified(id, incarnation, kind, reason, seq);
    classification_is_local(sup, id, incarnation, kind, reason, seq);
    if sup.at_chain_front(id) {
        assert(sup.pending_group->0->Restarting_0.contains(id));
    }
    if !is_crash(kind, reason) {
        assert(after.pending_manual_events.dom().contains((id, incarnation)));
    } else if sup.awaits_death(id) {
        let awaited = choose|awaited: u64| sup.pending_manual_events.dom().contains((id, awaited));
        assert(after.pending_manual_events.dom().contains((id, awaited)));
    }
    let down = ChildLifecycle::Down { incarnation, event_pending: false };
    let pending = ChildLifecycle::Down { incarnation, event_pending: true };
    lifecycle_keeps_ids(sup.children, id, down);
    lifecycle_keeps_ids(sup.children, id, pending);
    removal_takes_one_child(sup.children, id, id);
    let disposed = sup.disposed(id, kind, seq);
    lifecycle_keeps_ids(disposed.children, id, pending);
    evolved_by_parts(sup, id, seq);
    let lifecycle = child(sup.children, id).lifecycle;
    let next = ChildLifecycle::Restarting { incarnation: lifecycle.own(), next: seq };
    lifecycle_keeps_ids(sup.children, id, moved(lifecycle, next));
    if sup.to_be_chained(id) {
        assert(sup.revivable(id));
        assert(listed(disposed.children, id));
        assert(listed(after.children, id));
    }
    local_changes_are_sound(sup, after, id);
}

// ---------------------------------------------------------------------------
// Deaths
// ---------------------------------------------------------------------------

/// A death that a group restart takes note of leaves a sound supervisor, whether more deaths are
/// awaited or the restart chain begins.
proof fn noted_deaths_are_sound(
    sup: SupervisionView,
    changed: SupervisionView,
    id: Seq<char>,
    seq: u64,
)
    requires
        sup.sound(),
        evolved(sup.children, changed.children),
        forall|other: Seq<char>|
            other != id ==> #[trigger] untouched(sup.children, changed.children, other),
        changed.config == sup.config,
        changed.pending_group == sup.pending_group,
        changed.queued_triggers == sup.queued_triggers,
        changed.restart_fns == sup.restart_fns,
        forall|other: Seq<char>, incarnation: u64|
            other != id && #[trigger] sup.pending_manual_events.dom().contains(
                (other, incarnation),
            ) ==> changed.pending_manual_events.dom().contains((other, incarnation)),
        sup.to_be_chained(id) ==> changed.revivable(id),
        sup.at_chain_front(id) ==> child(changed.children, id).lifecycle is Restarting,
    ensures
        changed.death_noted(id).begun(sup.chain_due(id), seq).sound(),
{
    let noted = changed.death_noted(id);
    let chain = sup.chain_due(id);
    if !sup.awaits_death(id) {
        if let Some(GroupView::Stopping(group)) = sup.pending_group {
            assert(group.awaiting.remove(id) =~= group.awaiting);
        }
        assert(noted == changed);
        local_changes_are_sound(sup, changed, id);
    } else {
        let group = sup.pending_group->0->Stopping_0;
        let rest = group.awaiting.remove(id);
        let overrides = group.manual_overrides;
        assert forall|other: Seq<char>| group.restart_order.contains(other) && !overrides.contains(
            other,
        ) implies #[trigger] noted.revivable(other) by {
            assert(sup.to_be_chained(other));
            assert(other != id ==> untouched(sup.children, changed.children, other));
        }
        if chain is Some {
            let order = group.chain();
            assert forall|other: Seq<char>| #[trigger] order.contains(
                other,
            ) implies noted.revivable(other) by {
                filter_contains(
                    group.restart_order,
                    |member: Seq<char>| !overrides.contains(member),
                    other,
                );
            }
            chains_begin_sound(noted, order, seq);
        } else {
            assert(exists|other: Seq<char>| rest.contains(other)) by {
                if forall|other: Seq<char>| !rest.contains(other) {
                    assert(rest =~= Set::empty());
                }
            }
            assert forall|other: Seq<char>| #[trigger]
                rest.contains(other) implies noted.will_report(other) by {
                assert(group.awaiting.contains(other));
                assert(untouched(sup.children, changed.children, other));
                assert(sup.will_report(other));
                if !running(sup.children, other) {
                    let incarnation = choose|incarnation: u64|
                        sup.pending_manual_events.dom().contains((other, incarnation));
                    assert(noted.pending_manual_events.dom().contains((other, incarnation)));
                }
            }
            let awaited = choose|other: Seq<char>| rest.contains(other);
            assert(noted.pending_group == Some(
                GroupView::Stopping(GroupRestartView { awaiting: rest, ..group }),
            ));
            assert(noted.pending_group->0->Stopping_0.awaiting.contains(awaited));
            assert(noted.group_moves());
            assert forall|other: Seq<char>| #[trigger] noted.to_be_chained(
                other,
            ) implies noted.revivable(other) by {
                assert(group.restart_order.contains(other) && !overrides.contains(other));
            }
        }
    }
}

/// Every death leaves a sound supervisor, or one that stops because its budget is exhausted: as long
/// as a supervisor goes on, no group restart gets stuck, and no death is left in the queue once there
/// is none.
pub proof fn deaths_keep_supervisors_sound(
    sup: SupervisionView,
    ev: DeathView,
    work: Seq<DeathView>,
    seq: u64,
    now: Instant,
)
    requires
        sup.sound(),
    ensures
        ({
            let step = sup.decided(ev, work, seq, now);
            step.sup.sound() || (step.report is Some && step.report->0.action
                == SupervisionAction::BudgetExhausted)
        }),
{
    let id = ev.child_id;
    let step = sup.decided(ev, work, seq, now);
    if sup.at_chain_front(id) {
        assert(sup.pending_group->0->Restarting_0.contains(id));
        assert(sup.to_be_chained(id));
    }
    if sup.awaited_manually(ev) {
        let taken = sup.event_taken(ev);
        let reported = ChildLifecycle::Down { incarnation: ev.incarnation, event_pending: false };
        evolved_by_lifecycle(sup.children, id, reported);
        lifecycle_keeps_ids(sup.children, id, reported);
        noted_deaths_are_sound(sup, taken, id, seq);
    } else if sup.unclassified(ev) {
        unclassified_deaths_are_sound(sup, ev, seq);
    } else if !sup.stale(ev) {
        let shown = sup.presents(ev);
        evolved_by_parts(sup, id, seq);
        lifecycle_keeps_ids(sup.children, id, settled(child(sup.children, id).lifecycle));
        if sup.awaits_death(id) {
            member_deaths_are_sound(sup, shown, work, seq);
        } else if sup.at_chain_front(id) {
            front_deaths_are_sound(sup, shown, work, seq, now);
        } else if sup.pending_group is Some {
            local_changes_are_sound(sup, sup.deferred(shown), id);
        } else {
            ordinary_deaths_are_sound(sup, shown, work, seq, now);
        }
    }
}

proof fn unclassified_deaths_are_sound(sup: SupervisionView, ev: DeathView, seq: u64)
    requires
        sup.sound(),
        sup.unclassified(ev),
    ensures
        sup.unclassified_death(ev, Seq::empty(), seq).sup.sound(),
{
    let kind = child(sup.children, ev.child_id).lifecycle->Stopping_kind;
    classification_is_sound(sup, ev.child_id, ev.incarnation, kind, presented(ev.reason), seq);
}

proof fn member_deaths_are_sound(
    sup: SupervisionView,
    ev: DeathView,
    work: Seq<DeathView>,
    seq: u64,
)
    requires
        sup.sound(),
        sup.awaits_death(ev.child_id),
    ensures
        sup.member_death(ev, work, seq).sup.sound(),
{
    let id = ev.child_id;
    let down = sup.settled_down(id);
    let chain = sup.chain_due(id);
    evolved_by_parts(sup, id, seq);
    lifecycle_keeps_ids(sup.children, id, settled(child(sup.children, id).lifecycle));
    noted_deaths_are_sound(sup, down, id, seq);
    let begun = down.death_noted(id).begun(chain, seq);
    evolved_by_parts(begun, id, seq);
    removal_takes_one_child(begun.children, id, id);
    if begun.at_chain_front(id) {
        assert(begun.pending_group->0->Restarting_0.contains(id));
        assert(begun.to_be_chained(id));
    }
    assert(begun.to_be_chained(id) ==> begun.revivable(id));
    if begun.prunes(id) {
        local_changes_are_sound(begun, begun.pruned(id), id);
    }
}

proof fn front_deaths_are_sound(
    sup: SupervisionView,
    ev: DeathView,
    work: Seq<DeathView>,
    seq: u64,
    now: Instant,
)
    requires
        sup.sound(),
        sup.at_chain_front(ev.child_id),
    ensures
        ({
            let step = sup.front_death(ev, work, seq, now);
            step.sup.sound() || step.report->0.action == SupervisionAction::BudgetExhausted
        }),
{
    let id = ev.child_id;
    let down = sup.settled_down(id);
    let charged = SupervisionView { budget: down.budget.charged(now), ..down };
    assert(sup.pending_group->0->Restarting_0.contains(id));
    assert(sup.to_be_chained(id));
    let lifecycle = child(sup.children, id).lifecycle;
    evolved_by_parts(sup, id, seq);
    evolved_by_parts(charged, id, seq);
    lifecycle_changes_one_child(sup.children, id, settled(lifecycle), id);
    lifecycle_keeps_ids(sup.children, id, settled(lifecycle));
    let to = ChildLifecycle::Restarting { incarnation: lifecycle.own(), next: seq };
    lifecycle_changes_one_child(charged.children, id, to, id);
    lifecycle_keeps_ids(charged.children, id, to);
    let after = charged.initiated(id, seq);
    assert forall|other: Seq<char>| other != id implies #[trigger] untouched(
        sup.children,
        after.children,
        other,
    ) by {
        assert(untouched(sup.children, down.children, other));
        assert(untouched(charged.children, after.children, other));
    }
    local_changes_are_sound(sup, after, id);
}

proof fn ordinary_deaths_are_sound(
    sup: SupervisionView,
    ev: DeathView,
    work: Seq<DeathView>,
    seq: u64,
    now: Instant,
)
    requires
        sup.sound(),
        sup.pending_group is None,
    ensures
        sup.ordinary_death(ev, work, seq, now).sup.sound(),
{
    let id = ev.child_id;
    let down = sup.settled_down(id);
    let judged = down.after_evaluation(id, ev.reason, now);
    let after = sup.ordinary_death(ev, work, seq, now).sup;
    evolved_by_parts(sup, id, seq);
    lifecycle_keeps_ids(sup.children, id, settled(child(sup.children, id).lifecycle));
    local_changes_are_sound(sup, judged, id);
    evolved_by_parts(judged, id, seq);
    match down.evaluated(id, ev.reason, now) {
        OutcomeView::RestartOne(_) => {
            let lifecycle = child(judged.children, id).lifecycle;
            let to = ChildLifecycle::Restarting { incarnation: lifecycle.own(), next: seq };
            lifecycle_keeps_ids(judged.children, id, moved(lifecycle, to));
            local_changes_are_sound(judged, after, id);
        },
        OutcomeView::RestartGroup { stop_reverse, restart_order } => {
            let members = down.affected(id);
            let live = live_sibling(down.children, id);
            let again = restartable(down.children);
            assert forall|other: Seq<char>| #[trigger] restart_order.contains(
                other,
            ) implies judged.revivable(other) by {
                filter_contains(members, again, other);
            }
            if stop_reverse.len() == 0 {
                chains_begin_sound(judged, restart_order, seq);
            } else {
                let group = after.pending_group->0->Stopping_0;
                assert(stop_reverse.contains(stop_reverse[0]));
                assert(group.awaiting.contains(stop_reverse[0]));
                assert forall|other: Seq<char>| #[trigger]
                    group.awaiting.contains(other) implies after.will_report(other) by {
                    let kept = members.filter(live);
                    let i = stop_reverse.index_of(other);
                    assert(stop_reverse.contains(other));
                    assert(kept[kept.len() - 1 - i] == other);
                    filter_contains(members, live, other);
                }
                assert forall|other: Seq<char>| #[trigger] after.to_be_chained(
                    other,
                ) implies after.revivable(other) by {
                    assert(restart_order.contains(other));
                }
                assert(after.group_moves());
            }
        },
        OutcomeView::Remove => {
            removal_takes_one_child(judged.children, id, id);
            local_changes_are_sound(judged, after, id);
        },
        OutcomeView::BudgetExhausted => {},
    }
}

// ---------------------------------------------------------------------------
// Restarts
// ---------------------------------------------------------------------------

/// The offer of a fresh instance leaves a sound supervisor.
pub proof fn adoptions_keep_supervisors_sound(
    sup: SupervisionView,
    id: Seq<char>,
    seq: u64,
    next_seq: u64,
)
    requires
        sup.sound(),
    ensures
        sup.after_adoption(id, seq, next_seq).sound(),
{
    if sup.adopts(id, seq) {
        let live = sup.live(id, seq);
        let after = sup.after_adoption(id, seq, next_seq);
        let to = ChildLifecycle::Running(seq);
        evolved_by_lifecycle(sup.children, id, to);
        lifecycle_keeps_ids(sup.children, id, to);
        lifecycle_changes_one_child(sup.children, id, to, id);
        if sup.at_chain_front(id) && !sup.stops_first(id) {
            let queue = sup.pending_group->0->Restarting_0;
            let rest = queue.drop_first();
            assert forall|other: Seq<char>| #[trigger] rest.contains(
                other,
            ) implies live.revivable(other) by {
                let i = rest.index_of(other);
                assert(queue[i + 1] == other);
                assert(sup.to_be_chained(other));
                assert(other != id ==> untouched(sup.children, live.children, other));
            }
            chains_begin_sound(live, rest, next_seq);
            assert(after == live.begun(Some(rest), next_seq));
        } else {
            local_changes_are_sound(sup, live, id);
            if sup.stops_first(id) {
                let group = sup.pending_group->0->Stopping_0;
                let awaiting = after.pending_group->0->Stopping_0.awaiting;
                assert(awaiting.contains(id));
                assert forall|other: Seq<char>| #[trigger]
                    awaiting.contains(other) implies after.will_report(other) by {
                    if other != id {
                        assert(group.awaiting.contains(other));
                        assert(live.will_report(other));
                        if !running(live.children, other) {
                            let incarnation = choose|incarnation: u64|
                                live.pending_manual_events.dom().contains((other, incarnation));
                            assert(after.pending_manual_events.dom().contains(
                                (other, incarnation),
                            ));
                        }
                    }
                }
                assert forall|other: Seq<char>| #[trigger] after.to_be_chained(
                    other,
                ) implies after.revivable(other) by {
                    assert(live.to_be_chained(other));
                }
                assert(after.group_moves());
            }
        }
    }
}

// ---------------------------------------------------------------------------
// Attempts
// ---------------------------------------------------------------------------

/// Whether every restart that is in flight afterwards, but was not before, is the one of the given
/// attempt, and the given attempt, if any, is in flight afterwards.
pub open spec fn attempted(
    before: Seq<ChildView>,
    after: Seq<ChildView>,
    attempt: Option<AttemptView>,
) -> bool {
    &&& forall|id: Seq<char>| #[trigger]
        listed(after, id) && child(after, id).lifecycle is Restarting ==> (listed(before, id)
            && child(before, id).lifecycle == child(after, id).lifecycle) || attempt == Some(
            AttemptView { child_id: id, seq: child(after, id).lifecycle->next },
        )
    &&& attempt is Some ==> listed(after, attempt->0.child_id) && child(
        after,
        attempt->0.child_id,
    ).lifecycle.awaits(attempt->0.seq)
}

/// A change that puts no child into a restart leaves nothing to attempt.
proof fn calm_changes_attempt_nothing(children: Seq<ChildView>, id: Seq<char>, to: ChildLifecycle)
    requires
        unique(children),
    ensures
        !(to is Restarting) ==> attempted(children, with_lifecycle(children, id, to), None),
        attempted(children, without(children, id), None),
        attempted(children, children, None),
{
    let after = with_lifecycle(children, id, to);
    lifecycle_keeps_ids(children, id, to);
    assert forall|other: Seq<char>| #[trigger] listed(after, other) && child(
        after,
        other,
    ).lifecycle is Restarting && !(to is Restarting) implies child(children, other).lifecycle
        == child(after, other).lifecycle by {
        if listed(children, id) {
            lifecycle_changes_one_child(children, id, to, other);
        }
    }
    let less = without(children, id);
    assert forall|other: Seq<char>| #[trigger] listed(less, other) implies listed(children, other)
        && child(children, other) == child(less, other) by {
        removal_takes_one_child(children, id, other);
    }
}

/// A request to restart a child hands the attempt back that it puts in flight.
proof fn requests_are_attempted(sup: SupervisionView, id: Seq<char>, seq: u64)
    requires
        unique(sup.children),
        forall|other: Seq<char>| #[trigger]
            listed(sup.children, other) ==> sup.restart_fns.contains(other),
    ensures
        attempted(sup.children, sup.initiated(id, seq).children, sup.started(id, seq)),
{
    let after = sup.initiated(id, seq).children;
    let lifecycle = child(sup.children, id).lifecycle;
    let to = ChildLifecycle::Restarting { incarnation: lifecycle.own(), next: seq };
    lifecycle_keeps_ids(sup.children, id, moved(lifecycle, to));
    if listed(sup.children, id) {
        lifecycle_changes_one_child(sup.children, id, moved(lifecycle, to), id);
        assert forall|other: Seq<char>| #[trigger] listed(after, other) && other != id implies child(
            after,
            other,
        ) == child(sup.children, other) by {
            lifecycle_changes_one_child(sup.children, id, moved(lifecycle, to), other);
        }
    }
}

/// The beginning of a restart chain hands the attempt back that it puts in flight.
proof fn chains_are_attempted(sup: SupervisionView, chain: Option<Seq<Seq<char>>>, seq: u64)
    requires
        unique(sup.children),
        forall|other: Seq<char>| #[trigger]
            listed(sup.children, other) ==> sup.restart_fns.contains(other),
    ensures
        attempted(sup.children, sup.begun(chain, seq).children, sup.begun_attempt(chain, seq)),
{
    if let Some(order) = chain {
        let chained = sup.chained(order);
        if let Some(front) = chained.chain_front() {
            requests_are_attempted(chained.advanced(), front, seq);
        }
    }
}

/// Changes one after the other, of which only one hands an attempt back, hand back what they put in
/// flight.
proof fn attempts_add_up(
    first: Seq<ChildView>,
    second: Seq<ChildView>,
    third: Seq<ChildView>,
    attempt: Option<AttemptView>,
)
    ensures
        attempted(first, second, None) && attempted(second, third, attempt) ==> attempted(
            first,
            third,
            attempt,
        ),
{
}

/// Every restart that a death puts in flight is handed back as an attempt to start, and only such a
/// restart is: no child waits for a restart that nobody attempts.
pub proof fn deaths_attempt_what_they_promise(
    sup: SupervisionView,
    ev: DeathView,
    work: Seq<DeathView>,
    seq: u64,
    now: Instant,
)
    requires
        sup.sound(),
    ensures
        ({
            let step = sup.decided(ev, work, seq, now);
            attempted(sup.children, step.sup.children, step.attempt)
        }),
{
    let id = ev.child_id;
    let step = sup.decided(ev, work, seq, now);
    let chain = sup.chain_due(id);
    let own = child(sup.children, id).lifecycle;
    let reported = ChildLifecycle::Down { incarnation: ev.incarnation, event_pending: false };
    calm_changes_attempt_nothing(sup.children, id, settled(own));
    calm_changes_attempt_nothing(sup.children, id, reported);
    evolved_by_parts(sup, id, seq);
    evolved_by_lifecycle(sup.children, id, reported);
    lifecycle_keeps_ids(sup.children, id, settled(own));
    lifecycle_keeps_ids(sup.children, id, reported);
    if sup.awaited_manually(ev) {
        let noted = sup.event_taken(ev).death_noted(id);
        chains_are_attempted(noted, chain, seq);
        attempts_add_up(sup.children, noted.children, step.sup.children, step.attempt);
    } else if sup.unclassified(ev) {
        let kind = own->Stopping_kind;
        manual_stops_attempt_what_they_promise(
            sup,
            id,
            ev.incarnation,
            kind,
            presented(ev.reason),
            seq,
        );
    } else if !sup.stale(ev) {
        let shown = sup.presents(ev);
        let down = sup.settled_down(id);
        if sup.awaits_death(id) {
            let noted = down.death_noted(id);
            let begun = noted.begun(chain, seq);
            chains_are_attempted(noted, chain, seq);
            attempts_add_up(sup.children, noted.children, begun.children, step.attempt);
            member_removals_take_no_attempt(sup, shown, work, seq);
        } else if sup.at_chain_front(id) {
            let charged = SupervisionView { budget: down.budget.charged(now), ..down };
            requests_are_attempted(charged, id, seq);
            attempts_add_up(sup.children, charged.children, step.sup.children, step.attempt);
        } else if sup.pending_group is None {
            let judged = down.after_evaluation(id, shown.reason, now);
            requests_are_attempted(judged, id, seq);
            calm_changes_attempt_nothing(judged.children, id, reported);
            match down.evaluated(id, shown.reason, now) {
                OutcomeView::RestartGroup { stop_reverse, restart_order } => {
                    chains_are_attempted(judged, Some(restart_order), seq);
                },
                _ => {},
            }
            attempts_add_up(sup.children, judged.children, step.sup.children, step.attempt);
        }
    }
}

/// The removal of a member that stays down after its group was stopped does not concern the attempt
/// with which the restart chain of the group begins.
proof fn member_removals_take_no_attempt(
    sup: SupervisionView,
    ev: DeathView,
    work: Seq<DeathView>,
    seq: u64,
)
    requires
        sup.sound(),
        sup.awaits_death(ev.child_id),
        ({
            let noted = sup.settled_down(ev.child_id).death_noted(ev.child_id);
            let chain = sup.chain_due(ev.child_id);
            attempted(
                sup.children,
                noted.begun(chain, seq).children,
                noted.begun_attempt(chain, seq),
            )
        }),
    ensures
        attempted(
            sup.children,
            sup.member_death(ev, work, seq).sup.children,
            sup.member_death(ev, work, seq).attempt,
        ),
{
    let id = ev.child_id;
    let noted = sup.settled_down(id).death_noted(id);
    let chain = sup.chain_due(id);
    let begun = noted.begun(chain, seq);
    let attempt = noted.begun_attempt(chain, seq);
    let group = sup.pending_group->0->Stopping_0;
    evolved_by_parts(sup, id, seq);
    noted_deaths_are_sound_for_members(sup, id, seq);
    if sup.drops_out(id) {
        let overrides = group.manual_overrides;
        if attempt is Some {
            let front = attempt->0.child_id;
            stalled_is_a_tail(noted.children, group.chain());
            assert(stalled(noted.children, group.chain()).contains(front));
            filter_contains(
                group.restart_order,
                |member: Seq<char>| !overrides.contains(member),
                front,
            );
            assert(sup.to_be_chained(front));
            assert(sup.revivable(front));
            assert(front != id);
            removal_takes_one_child(begun.children, id, front);
        }
        let after = begun.pruned(id).children;
        assert forall|other: Seq<char>| #[trigger] listed(after, other) && child(
            after,
            other,
        ).lifecycle is Restarting implies listed(begun.children, other) && child(
            begun.children,
            other,
        ) == child(after, other) by {
            removal_takes_one_child(begun.children, id, other);
        }
    }
}

/// What [`noted_deaths_are_sound`] says of a death that a group restart waits for.
proof fn noted_deaths_are_sound_for_members(sup: SupervisionView, id: Seq<char>, seq: u64)
    requires
        sup.sound(),
        sup.awaits_death(id),
    ensures
        sup.settled_down(id).death_noted(id).begun(sup.chain_due(id), seq).sound(),
{
    let own = child(sup.children, id).lifecycle;
    evolved_by_parts(sup, id, seq);
    lifecycle_keeps_ids(sup.children, id, settled(own));
    noted_deaths_are_sound(sup, sup.settled_down(id), id, seq);
}

/// Every restart that a manual stop puts in flight is handed back as an attempt to start, and so is
/// the one that revives a child.
pub proof fn manual_stops_attempt_what_they_promise(
    sup: SupervisionView,
    id: Seq<char>,
    incarnation: u64,
    kind: ManualStop,
    reason: StopReason,
    seq: u64,
)
    requires
        sup.sound(),
    ensures
        attempted(
            sup.children,
            sup.classified(id, incarnation, kind, reason, seq).children,
            sup.classified_attempt(id, kind, reason, seq),
        ),
        attempted(sup.children, sup.initiated(id, seq).children, sup.started(id, seq)),
{
    let down = ChildLifecycle::Down { incarnation, event_pending: false };
    let pending = ChildLifecycle::Down { incarnation, event_pending: true };
    let disposed = sup.disposed(id, kind, seq);
    let after = sup.classified(id, incarnation, kind, reason, seq);
    requests_are_attempted(sup, id, seq);
    calm_changes_attempt_nothing(sup.children, id, down);
    evolved_by_parts(sup, id, seq);
    calm_changes_attempt_nothing(disposed.children, id, pending);
    if !is_crash(kind, reason) && !sup.bounces(id, kind) {
        attempts_add_up(sup.children, disposed.children, after.children, None);
    }
    if sup.bounces(id, kind) {
        let lifecycle = child(sup.children, id).lifecycle;
        let next = ChildLifecycle::Restarting { incarnation: lifecycle.own(), next: seq };
        lifecycle_changes_one_child(sup.children, id, moved(lifecycle, next), id);
    }
}

/// Every restart that the offer of a fresh instance puts in flight is handed back as an attempt to
/// start.
pub proof fn adoptions_attempt_what_they_promise(
    sup: SupervisionView,
    id: Seq<char>,
    seq: u64,
    next_seq: u64,
)
    requires
        sup.sound(),
    ensures
        attempted(
            sup.children,
            sup.after_adoption(id, seq, next_seq).children,
            sup.adoption_attempt(id, seq, next_seq),
        ),
{
    let to = ChildLifecycle::Running(seq);
    let live = sup.live(id, seq);
    let after = sup.after_adoption(id, seq, next_seq);
    calm_changes_attempt_nothing(sup.children, id, to);
    evolved_by_lifecycle(sup.children, id, to);
    lifecycle_keeps_ids(sup.children, id, to);
    if sup.adopts(id, seq) && !sup.stops_first(id) && sup.at_chain_front(id) {
        let rest = sup.pending_group->0->Restarting_0.drop_first();
        chains_are_attempted(live, Some(rest), next_seq);
        attempts_add_up(
            sup.children,
            live.children,
            after.children,
            sup.adoption_attempt(id, seq, next_seq),
        );
    }
}

} // verus!
