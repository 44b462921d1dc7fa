//! What the management of children by hand leads to: stops, revivals, deletions and new children.

use vstd::prelude::*;
use crate::actor::child_laws::{filter_contains, filter_keeps_order};
use crate::actor::death_laws::{asking, chains_pass_over_live_members_only, known_by, seen};
use crate::actor::lifecycle::{ChildLifecycle, ManualStop};
use crate::actor::management::ManualBegin;
use crate::actor::registry::{
    child, ids_of, lifecycle_changes_one_child, lifecycle_keeps_ids, listed,
    registration_appends, removal_takes_one_child, running, slot, slot_of_member, unique,
    ChildSpec, ChildView,
};
use crate::actor::supervision::{AttemptView, GroupView, SupervisionView};
use crate::error::{ActorError, SupervisionError};
use crate::time::Instant;
use crate::types::{
    ActorId, ChildEventView, DeathView, RestartStrategy, RestartType, Shutdown, StopReason,
    SupervisionAction,
};

verus! {

// ---------------------------------------------------------------------------
// Manual stops begin
// ---------------------------------------------------------------------------

/// Whether a group restart awaits the death of the child.
pub open spec fn awaited(sup: SupervisionView, id: Seq<char>) -> bool {
    sup.pending_group is Some && sup.pending_group->0 is Stopping
        && sup.pending_group->0->Stopping_0.awaiting.contains(id)
}

/// Whether a group restart in flight is to restart the child, or its restart chain still holds it.
pub open spec fn held(sup: SupervisionView, id: Seq<char>) -> bool {
    sup.pending_group is Some && match sup.pending_group->0 {
        GroupView::Stopping(group) => !group.manual_overrides.contains(id) && (
        group.restart_order.contains(id) || group.awaiting.contains(id)),
        GroupView::Restarting(queue) => queue.contains(id),
    }
}

/// A manual stop that is committed is carried out by the policy that the child was spawned with, on
/// the incarnation that the child is known by; it is committed only on a child that is there and that
/// is live, or whose death a group restart awaits.
pub proof fn committed_stops_follow_the_policy(
    sup: SupervisionView,
    id: ActorId,
    kind: ManualStop,
    died: bool,
    stopped: u64,
    policy: Shutdown,
)
    requires
        sup.manual_answer(id, kind, died) == Ok::<ManualBegin, SupervisionError>(
            ManualBegin::Committed { incarnation: stopped, shutdown: policy },
        ),
    ensures
        listed(sup.children, id@),
        policy == child(sup.children, id@).spec.shutdown,
        stopped == known_by(child(sup.children, id@).lifecycle),
        running(sup.children, id@) || awaited(sup, id@),
{
}

/// A child that was just added with a spec can be stopped by hand, by either call: the stop is
/// committed, with the policy of that very spec, on the incarnation that was added. One whose end is
/// known already is finished with that incarnation.
pub proof fn added_children_are_stopped_by_their_spec(
    sup: SupervisionView,
    id: ActorId,
    name: Option<Seq<char>>,
    spec: ChildSpec,
    incarnation: u64,
    kind: ManualStop,
)
    requires
        unique(sup.children),
        !listed(sup.children, id@),
        !awaited(sup, id@),
        !held(sup, id@),
    ensures
        ({
            let with = sup.with_child(id@, name, spec, incarnation);
            &&& with.manual_answer(id, kind, false) == Ok::<ManualBegin, SupervisionError>(
                ManualBegin::Committed { incarnation, shutdown: spec.shutdown },
            )
            &&& with.manual_answer(id, kind, true) == Ok::<ManualBegin, SupervisionError>(
                ManualBegin::DiedFirst { incarnation },
            )
        }),
{
    let new = ChildView { id: id@, name, spec, lifecycle: ChildLifecycle::Running(incarnation) };
    registration_appends(sup.children, new, id@);
}

/// How a manual stop is answered. A child whose death a group restart awaits can be terminated, not
/// bounced; one that a group restart is to restart can be neither; of the others, a live one is
/// stopped, one that is down is left so, one in between is reported as restarting, and one that is
/// not there as not found.
pub proof fn manual_stops_are_answered_by_the_state(
    sup: SupervisionView,
    id: ActorId,
    kind: ManualStop,
    died: bool,
)
    ensures
        ({
            let answer = sup.manual_answer(id, kind, died);
            let there = listed(sup.children, id@);
            let lifecycle = child(sup.children, id@).lifecycle;
            let free = !awaited(sup, id@) && !held(sup, id@);
            let restarting = Err::<ManualBegin, SupervisionError>(
                SupervisionError::ChildRestarting(id),
            );
            let missing = Err::<ManualBegin, SupervisionError>(
                SupervisionError::ChildNotFound(id),
            );
            &&& awaited(sup, id@) && kind == ManualStop::Bounce ==> answer == restarting
            &&& awaited(sup, id@) && kind == ManualStop::Terminate && there ==> answer is Ok
                && answer->Ok_0 is Committed
            &&& awaited(sup, id@) && kind == ManualStop::Terminate && !there ==> answer == missing
            &&& !awaited(sup, id@) && held(sup, id@) ==> answer == restarting
            &&& free && !there ==> answer == missing
            &&& free && there && lifecycle is Down ==> answer == Ok::<ManualBegin, SupervisionError>(
                ManualBegin::AlreadyDown,
            )
            &&& free && there && (lifecycle is Stopping || lifecycle is Restarting) ==> answer
                == restarting
            &&& free && there && lifecycle is Running && died ==> answer == Ok::<
                ManualBegin,
                SupervisionError,
            >(ManualBegin::DiedFirst { incarnation: known_by(lifecycle) })
            &&& free && there && lifecycle is Running && !died ==> answer is Ok
                && answer->Ok_0 is Committed
        }),
{
}

/// What a manual stop that begins changes. A live child that no group restart is concerned with is in
/// the middle of a stop of that kind then, or down where its end is known already; a member whose
/// death is awaited and that is terminated is left out of the restart; else nothing changes. Nothing
/// of any other child, of the budget, or of what is queued changes.
pub proof fn manual_stops_begin_as_asked(
    sup: SupervisionView,
    id: Seq<char>,
    kind: ManualStop,
    died: bool,
)
    requires
        listed(sup.children, id),
    ensures
        ({
            let after = sup.manual_begun(id, kind, died);
            let lifecycle = child(sup.children, id).lifecycle;
            let free = !awaited(sup, id) && !held(sup, id);
            let stops = free && lifecycle is Running;
            let overrides = awaited(sup, id) && kind == ManualStop::Terminate;
            &&& stops && !died ==> child(after.children, id).lifecycle == (
            ChildLifecycle::Stopping { incarnation: known_by(lifecycle), kind })
            &&& stops && died ==> child(after.children, id).lifecycle == (ChildLifecycle::Down {
                incarnation: known_by(lifecycle),
                event_pending: false,
            })
            &&& !stops ==> after.children == sup.children
            &&& overrides ==> {
                let before = sup.pending_group->0->Stopping_0;
                let group = after.pending_group->0->Stopping_0;
                &&& after.pending_group is Some && after.pending_group->0 is Stopping
                &&& group.awaiting == before.awaiting
                &&& group.restart_order == before.restart_order
                &&& forall|other: Seq<char>| #[trigger]
                    group.manual_overrides.contains(other) <==> before.manual_overrides.contains(
                        other,
                    ) || other == id
            }
            &&& !overrides ==> after.pending_group == sup.pending_group
            &&& after.budget == sup.budget
            &&& after.queued_triggers == sup.queued_triggers
            &&& after.restart_fns == sup.restart_fns
            &&& after.pending_manual_events == sup.pending_manual_events
            &&& after.config == sup.config
        }),
{
    let own = known_by(child(sup.children, id).lifecycle);
    lifecycle_changes_one_child(
        sup.children,
        id,
        ChildLifecycle::Stopping { incarnation: own, kind },
        id,
    );
    lifecycle_changes_one_child(
        sup.children,
        id,
        ChildLifecycle::Down { incarnation: own, event_pending: false },
        id,
    );
}

// ---------------------------------------------------------------------------
// Manual stops are finished
// ---------------------------------------------------------------------------

/// Whether the spec of a child of the given type does not outlast the child.
pub open spec fn short_lived(sup: SupervisionView, id: Seq<char>) -> bool {
    sup.config.strategy == RestartStrategy::SimpleOneForOne || child(
        sup.children,
        id,
    ).spec.restart_type == RestartType::Temporary
}

/// A manual stop that is finished without a restart leaves the child down, with the incarnation that
/// was stopped, its spec as it was, and the event pending; a spec that does not outlast its child is
/// gone. The event tells the child, its name, the reason it was given, and that the child was removed.
/// That is so for every termination, whatever the child died of, and for a bounce of a child that is
/// not Permanent. Nothing is attempted, and nothing else changes.
pub proof fn stops_without_restart_leave_the_child_down(
    sup: SupervisionView,
    id: Seq<char>,
    incarnation: u64,
    kind: ManualStop,
    reason: StopReason,
    seq: u64,
    other: Seq<char>,
)
    requires
        unique(sup.children),
        listed(sup.children, id),
        !(child(sup.children, id).lifecycle is Restarting),
        kind == ManualStop::Terminate || (!(reason is Failure) && (sup.config.strategy
            == RestartStrategy::SimpleOneForOne || child(sup.children, id).spec.restart_type
            != RestartType::Permanent)),
    ensures
        ({
            let after = sup.classified(id, incarnation, kind, reason, seq);
            &&& sup.classified_attempt(id, kind, reason, seq) is None
            &&& short_lived(sup, id) ==> !listed(after.children, id) && !after.restart_fns.contains(
                id,
            )
            &&& !short_lived(sup, id) ==> after.restart_fns == sup.restart_fns && listed(
                after.children,
                id,
            ) && child(after.children, id) == (ChildView {
                lifecycle: ChildLifecycle::Down { incarnation, event_pending: true },
                ..child(sup.children, id)
            })
            &&& after.pending_manual_events == sup.pending_manual_events.insert(
                (id, incarnation),
                ChildEventView {
                    child_id: id,
                    child_name: child(sup.children, id).name,
                    reason,
                    action: SupervisionAction::Removed,
                },
            )
            &&& listed(sup.children, other) && other != id ==> listed(after.children, other)
                && child(after.children, other) == child(sup.children, other)
            &&& after.budget == sup.budget
            &&& after.pending_group == sup.pending_group
            &&& after.queued_triggers == sup.queued_triggers
        }),
{
    let pending = ChildLifecycle::Down { incarnation, event_pending: true };
    let disposed = sup.disposed(id, kind, seq);
    removal_takes_one_child(sup.children, id, id);
    removal_takes_one_child(sup.children, id, other);
    lifecycle_changes_one_child(sup.children, id, pending, id);
    if listed(sup.children, other) {
        lifecycle_changes_one_child(sup.children, id, pending, other);
    }
    lifecycle_keeps_ids(sup.children, id, pending);
}

/// A bounce of a Permanent child that did not fail restarts the child: the restart is in flight, with
/// the token that was given, and is attempted, if its factory is stored; the event tells that a
/// restart was begun. The budget is not charged, and nothing else changes.
pub proof fn bounces_restart_the_child(
    sup: SupervisionView,
    id: Seq<char>,
    incarnation: u64,
    reason: StopReason,
    seq: u64,
    other: Seq<char>,
)
    requires
        unique(sup.children),
        listed(sup.children, id),
        !(child(sup.children, id).lifecycle is Restarting),
        child(sup.children, id).spec.restart_type == RestartType::Permanent,
        sup.config.strategy != RestartStrategy::SimpleOneForOne,
        !(reason is Failure),
    ensures
        ({
            let after = sup.classified(id, incarnation, ManualStop::Bounce, reason, seq);
            &&& sup.restart_fns.contains(id) ==> sup.classified_attempt(
                id,
                ManualStop::Bounce,
                reason,
                seq,
            ) == Some(AttemptView { child_id: id, seq })
            &&& !sup.restart_fns.contains(id) ==> sup.classified_attempt(
                id,
                ManualStop::Bounce,
                reason,
                seq,
            ) is None
            &&& child(after.children, id) == (ChildView {
                lifecycle: ChildLifecycle::Restarting {
                    incarnation: known_by(child(sup.children, id).lifecycle),
                    next: seq,
                },
                ..child(sup.children, id)
            })
            &&& after.pending_manual_events == sup.pending_manual_events.insert(
                (id, incarnation),
                ChildEventView {
                    child_id: id,
                    child_name: child(sup.children, id).name,
                    reason,
                    action: SupervisionAction::RestartInitiated,
                },
            )
            &&& listed(after.children, id)
            &&& listed(sup.children, other) && other != id ==> listed(after.children, other)
                && child(after.children, other) == child(sup.children, other)
            &&& after.restart_fns == sup.restart_fns
            &&& after.budget == sup.budget
            &&& after.pending_group == sup.pending_group
            &&& after.queued_triggers == sup.queued_triggers
        }),
{
    asking(sup, id, seq);
}

/// A child that failed while it was being bounced is left to the restart strategy: it is down, no event
/// is kept for it, so that its death is dealt with like any other, and nothing is attempted yet.
pub proof fn failed_bounces_are_crashes(
    sup: SupervisionView,
    id: Seq<char>,
    incarnation: u64,
    err: ActorError,
    seq: u64,
)
    requires
        listed(sup.children, id),
    ensures
        ({
            let reason = StopReason::Failure(err);
            let after = sup.classified(id, incarnation, ManualStop::Bounce, reason, seq);
            &&& sup.classified_attempt(id, ManualStop::Bounce, reason, seq) is None
            &&& child(after.children, id) == (ChildView {
                lifecycle: ChildLifecycle::Down { incarnation, event_pending: false },
                ..child(sup.children, id)
            })
            &&& after == (SupervisionView { children: after.children, ..sup })
        }),
{
    lifecycle_changes_one_child(
        sup.children,
        id,
        ChildLifecycle::Down { incarnation, event_pending: false },
        id,
    );
}

/// A death that the event of a manual stop waits for is told by that event, which is gone then, as no
/// other is. A child that waited for this with that incarnation waits no longer. Where no group
/// restart awaits the death, nothing else changes.
pub proof fn manual_events_are_delivered(
    sup: SupervisionView,
    ev: DeathView,
    work: Seq<DeathView>,
    seq: u64,
    now: Instant,
)
    requires
        sup.pending_manual_events.dom().contains((ev.child_id, ev.incarnation)),
        !awaited(sup, ev.child_id),
    ensures
        ({
            let id = ev.child_id;
            let step = sup.decided(ev, work, seq, now);
            let waiting = listed(sup.children, id) && child(sup.children, id).lifecycle == (
            ChildLifecycle::Down { incarnation: ev.incarnation, event_pending: true });
            &&& step.report == Some(sup.pending_manual_events[(id, ev.incarnation)])
            &&& step.sup.pending_manual_events == sup.pending_manual_events.remove(
                (id, ev.incarnation),
            )
            &&& waiting ==> child(step.sup.children, id) == (ChildView {
                lifecycle: ChildLifecycle::Down {
                    incarnation: ev.incarnation,
                    event_pending: false,
                },
                ..child(sup.children, id)
            })
            &&& !waiting ==> step.sup.children == sup.children
            &&& step.sup.pending_group == sup.pending_group
            &&& step.sup.budget == sup.budget
            &&& step.sup.queued_triggers == sup.queued_triggers
            &&& step.sup.restart_fns == sup.restart_fns
            &&& step.attempt is None
            &&& step.stops.len() == 0
            &&& step.work == work
        }),
{
    let id = ev.child_id;
    let reported = ChildLifecycle::Down { incarnation: ev.incarnation, event_pending: false };
    if listed(sup.children, id) {
        lifecycle_changes_one_child(sup.children, id, reported, id);
    }
    if let Some(GroupView::Stopping(group)) = sup.pending_group {
        assert(group.awaiting.remove(id) =~= group.awaiting);
    }
    assert(work + Seq::empty() =~= work);
}

/// The death of a member that was terminated while its group was being stopped is told by the event
/// that was kept for it, and is no longer awaited. As long as another death is, nothing is attempted;
/// the last one begins the restart chain, with the members that were to be restarted and were not
/// terminated, from the first one on that is not live, or ends the group where all are.
pub proof fn terminated_members_are_awaited_no_longer(
    sup: SupervisionView,
    ev: DeathView,
    work: Seq<DeathView>,
    seq: u64,
    now: Instant,
)
    requires
        sup.pending_manual_events.dom().contains((ev.child_id, ev.incarnation)),
        awaited(sup, ev.child_id),
        listed(sup.children, ev.child_id) ==> child(sup.children, ev.child_id).lifecycle is Down,
    ensures
        ({
            let id = ev.child_id;
            let before = sup.pending_group->0->Stopping_0;
            let order = before.restart_order.filter(
                |member: Seq<char>| !before.manual_overrides.contains(member),
            );
            let step = sup.decided(ev, work, seq, now);
            let last = forall|other: Seq<char>| #[trigger]
                before.awaiting.contains(other) ==> other == id;
            let all_live = forall|i: int|
                0 <= i < order.len() ==> running(sup.children, #[trigger] order[i]);
            &&& step.report == Some(sup.pending_manual_events[(id, ev.incarnation)])
            &&& step.sup.pending_manual_events == sup.pending_manual_events.remove(
                (id, ev.incarnation),
            )
            &&& step.sup.budget == sup.budget
            &&& step.stops.len() == 0
            &&& !last ==> {
                let group = step.sup.pending_group->0->Stopping_0;
                &&& step.sup.pending_group is Some && step.sup.pending_group->0 is Stopping
                &&& forall|other: Seq<char>| #[trigger]
                    group.awaiting.contains(other) <==> before.awaiting.contains(other) && other
                        != id
                &&& group.restart_order == before.restart_order
                &&& group.manual_overrides == before.manual_overrides
                &&& step.attempt is None
                &&& step.work == work
                &&& step.sup.queued_triggers == sup.queued_triggers
            }
            &&& last && all_live ==> {
                &&& step.sup.pending_group is None
                &&& step.work == work + sup.queued_triggers
                &&& step.attempt is None
            }
            &&& last && !all_live ==> {
                let queue = step.sup.pending_group->0->Restarting_0;
                let passed = order.len() - queue.len();
                &&& step.sup.pending_group is Some && step.sup.pending_group->0 is Restarting
                &&& 0 <= passed < order.len()
                &&& queue == order.skip(passed)
                &&& forall|i: int| 0 <= i < passed ==> running(sup.children, #[trigger] order[i])
                &&& !running(sup.children, order[passed])
                &&& step.work == work
                &&& step.sup.queued_triggers == sup.queued_triggers
                &&& step.attempt is Some ==> step.attempt->0 == (AttemptView {
                    child_id: order[passed],
                    seq,
                })
                &&& listed(sup.children, order[passed]) && sup.restart_fns.contains(order[passed])
                    && !(child(sup.children, order[passed]).lifecycle is Restarting)
                    ==> step.attempt is Some
            }
        }),
{
    let id = ev.child_id;
    let before = sup.pending_group->0->Stopping_0;
    let overrides = before.manual_overrides;
    let order = before.restart_order.filter(|member: Seq<char>| !overrides.contains(member));
    let taken = sup.event_taken(ev);
    let noted = taken.death_noted(id);
    let rest = before.awaiting.remove(id);
    let reported = ChildLifecycle::Down { incarnation: ev.incarnation, event_pending: false };
    lifecycle_keeps_ids(sup.children, id, reported);
    assert forall|other: Seq<char>| #[trigger] listed(sup.children, other) implies child(
        taken.children,
        other,
    ).lifecycle is Running == child(sup.children, other).lifecycle is Running && child(
        taken.children,
        other,
    ).lifecycle is Restarting == child(sup.children, other).lifecycle is Restarting by {
        if listed(sup.children, id) {
            lifecycle_changes_one_child(sup.children, id, reported, other);
        }
    }
    assert forall|other: Seq<char>| #[trigger] running(taken.children, other) <==> running(
        sup.children,
        other,
    ) by {
        assert(listed(taken.children, other) == listed(sup.children, other));
    }
    assert(work + Seq::empty() =~= work);
    let last = forall|other: Seq<char>| #[trigger] before.awaiting.contains(other) ==> other == id;
    if last {
        assert(rest =~= Set::<Seq<char>>::empty());
        let chained = noted.chained(order);
        chains_pass_over_live_members_only(noted.children, order, chained);
        let left = chained.chain_left();
        let passed = order.len() - left.len();
        if left.len() > 0 {
            assert(!running(sup.children, order[passed]));
            assert(listed(taken.children, order[passed]) == listed(sup.children, order[passed]));
        } else {
            assert forall|i: int| 0 <= i < order.len() implies running(
                sup.children,
                #[trigger] order[i],
            ) by {
                assert(running(noted.children, order[i]));
            }
        }
    } else {
        let other = choose|other: Seq<char>| #[trigger]
            before.awaiting.contains(other) && other != id;
        assert(rest.contains(other));
        assert(rest != Set::<Seq<char>>::empty());
    }
}

/// A death that arrives in the middle of a manual stop, which nobody has finished, finishes it: by the
/// kind of that stop and the reason as it is seen. It is told of when it is dealt with once more,
/// before every other death.
pub proof fn deaths_finish_manual_stops(
    sup: SupervisionView,
    ev: DeathView,
    work: Seq<DeathView>,
    seq: u64,
    now: Instant,
    kind: ManualStop,
)
    requires
        listed(sup.children, ev.child_id),
        child(sup.children, ev.child_id).lifecycle == (ChildLifecycle::Stopping {
            incarnation: ev.incarnation,
            kind,
        }),
        !sup.pending_manual_events.dom().contains((ev.child_id, ev.incarnation)),
    ensures
        ({
            let step = sup.decided(ev, work, seq, now);
            let reason = seen(ev.reason);
            &&& step.sup == sup.classified(ev.child_id, ev.incarnation, kind, reason, seq)
            &&& step.attempt == sup.classified_attempt(ev.child_id, kind, reason, seq)
            &&& step.report is None
            &&& step.stops.len() == 0
            &&& step.work == seq![ev] + work
        }),
{
}

// ---------------------------------------------------------------------------
// Specs
// ---------------------------------------------------------------------------

/// A child can be revived or deleted exactly while it is there and down and no group restart holds
/// it; else the answer says why: it is held or in between, it runs, or it is not there.
pub proof fn specs_are_free_while_the_child_is_down(sup: SupervisionView, id: ActorId)
    ensures
        ({
            let answer = sup.free_spec(id);
            let there = listed(sup.children, id@);
            let lifecycle = child(sup.children, id@).lifecycle;
            &&& answer == Ok::<(), SupervisionError>(()) <==> !held(sup, id@) && there
                && lifecycle is Down
            &&& answer == Err::<(), SupervisionError>(SupervisionError::ChildRestarting(id)) <==> held(
                sup,
                id@,
            ) || (there && (lifecycle is Stopping || lifecycle is Restarting))
            &&& answer == Err::<(), SupervisionError>(SupervisionError::ChildRunning(id)) <==> !held(
                sup,
                id@,
            ) && there && lifecycle is Running
            &&& answer == Err::<(), SupervisionError>(SupervisionError::ChildNotFound(id)) <==> !held(
                sup,
                id@,
            ) && !there
        }),
{
}

/// A new child comes last, with the name and the spec that it was given, live as the given
/// incarnation, and with its factory stored; nothing else changes.
pub proof fn new_children_come_last(
    sup: SupervisionView,
    id: Seq<char>,
    name: Option<Seq<char>>,
    spec: ChildSpec,
    incarnation: u64,
)
    ensures
        ({
            let after = sup.with_child(id, name, spec, incarnation);
            &&& after.children.len() == sup.children.len() + 1
            &&& after.children.last().id == id
            &&& after.children.last().name == name
            &&& after.children.last().spec == spec
            &&& after.children.last().lifecycle == ChildLifecycle::Running(incarnation)
            &&& after.children.drop_last() == sup.children
            &&& after.restart_fns.contains(id)
            &&& forall|other: Seq<char>| #[trigger]
                sup.restart_fns.contains(other) ==> after.restart_fns.contains(other)
            &&& after == (SupervisionView {
                children: after.children,
                restart_fns: after.restart_fns,
                ..sup
            })
        }),
{
    let after = sup.with_child(id, name, spec, incarnation);
    assert(after.children.drop_last() =~= sup.children);
}

/// A removed child is gone with its factory, and nothing else of the supervisor changes.
pub proof fn removals_take_the_factory_too(sup: SupervisionView, id: Seq<char>, other: Seq<char>)
    requires
        unique(sup.children),
        other != id,
    ensures
        ({
            let after = sup.removed(id);
            &&& !listed(after.children, id)
            &&& !after.restart_fns.contains(id)
            &&& listed(after.children, other) == listed(sup.children, other)
            &&& listed(sup.children, other) ==> child(after.children, other) == child(
                sup.children,
                other,
            )
            &&& after.restart_fns.contains(other) == sup.restart_fns.contains(other)
            &&& after == (SupervisionView {
                children: after.children,
                restart_fns: after.restart_fns,
                ..sup
            })
        }),
{
    removal_takes_one_child(sup.children, id, id);
    removal_takes_one_child(sup.children, id, other);
}

/// A supervisor that brings its children down stops every live child, each once, by its own shutdown
/// policy, the one that was started last first, and nobody else; it forgets its children, its
/// factories, its group restart and what is queued.
pub proof fn all_live_children_are_brought_down(sup: SupervisionView, id: Seq<char>)
    requires
        unique(sup.children),
    ensures
        ({
            let stops = sup.live_reversed();
            &&& running(sup.children, id) ==> stops.contains(
                (id, child(sup.children, id).spec.shutdown),
            )
            &&& forall|i: int|
                0 <= i < stops.len() ==> running(sup.children, (#[trigger] stops[i]).0)
                    && stops[i].1 == child(sup.children, stops[i].0).spec.shutdown
            &&& forall|i: int, j: int|
                0 <= i < j < stops.len() ==> slot(sup.children, (#[trigger] stops[i]).0) > slot(
                    sup.children,
                    (#[trigger] stops[j]).0,
                )
            &&& sup.emptied().children.len() == 0
            &&& sup.emptied().restart_fns == Set::<Seq<char>>::empty()
            &&& sup.emptied().pending_group is None
            &&& sup.emptied().queued_triggers.len() == 0
        }),
{
    let live = |child: ChildView| child.lifecycle is Running;
    let kept = sup.children.filter(live);
    let stop = |child: ChildView| (child.id, child.spec.shutdown);
    let stops = sup.live_reversed();
    let n = kept.len();
    assert(sup.children.no_duplicates()) by {
        assert forall|a: int, b: int| 0 <= a < sup.children.len() && 0 <= b < sup.children.len()
            && a != b implies sup.children[a] != sup.children[b] by {
            assert(ids_of(sup.children)[a] != ids_of(sup.children)[b]);
        }
    }
    assert forall|i: int| 0 <= i < n implies {
        let entry = #[trigger] kept[i];
        &&& entry.lifecycle is Running
        &&& sup.children.contains(entry)
        &&& child(sup.children, entry.id) == entry
        &&& listed(sup.children, entry.id)
        &&& slot(sup.children, entry.id) == sup.children.index_of(entry)
    } by {
        assert(kept.contains(kept[i]));
        filter_contains(sup.children, live, kept[i]);
        let at = sup.children.index_of(kept[i]);
        slot_of_member(sup.children, at);
    }
    assert forall|i: int| 0 <= i < stops.len() implies running(
        sup.children,
        (#[trigger] stops[i]).0,
    ) && stops[i].1 == child(sup.children, stops[i].0).spec.shutdown by {
        assert(stops[i] == stop(kept[n - 1 - i]));
    }
    assert forall|i: int, j: int| 0 <= i < j < stops.len() implies slot(
        sup.children,
        (#[trigger] stops[i]).0,
    ) > slot(sup.children, (#[trigger] stops[j]).0) by {
        assert(stops[i] == stop(kept[n - 1 - i]));
        assert(stops[j] == stop(kept[n - 1 - j]));
        filter_keeps_order(
            sup.children,
            live,
            n - 1 - j,
            n - 1 - i,
        );
    }
    if running(sup.children, id) {
        let entry = child(sup.children, id);
        assert(ids_of(sup.children)[slot(sup.children, id)] == id);
        assert(sup.children.contains(entry));
        filter_contains(sup.children, live, entry);
        let i = kept.index_of(entry);
        assert(stops[n - 1 - i] == stop(entry));
    }
}

} // verus!
