//! What becomes of restart attempts, and what a supervisor is told and left with.

use vstd::prelude::*;
use crate::actor::child_events::{
    outcome_of, outcome_settled, presented, stop_after_report, stops_view, unsupervised_death,
    AdoptStep, AttemptResult, DeathStep, RestartOutcome, RestartStep, StepView,
};
use crate::actor::death_laws::{asking, chains_pass_over_live_members_only, seen};
use crate::actor::lifecycle::ChildLifecycle;
use crate::actor::registry::{
    child, lifecycle_changes_one_child, lifecycle_keeps_ids, listed, running, unique, ChildView,
};
use crate::actor::supervision::{deaths, AttemptView, GroupView, SupervisionView};
use crate::error::{ActorError, SpawnError, SupervisionError};
use crate::types::{
    ActorId, ChildStoppedInternal, DeathView, StopReason, SupervisionAction,
};

verus! {

// ---------------------------------------------------------------------------
// Adoption
// ---------------------------------------------------------------------------

/// What the adoption of an instance leaves of the children.
proof fn adopting(sup: SupervisionView, id: Seq<char>, seq: u64)
    requires
        listed(sup.children, id),
    ensures
        ({
            let live = sup.live(id, seq);
            &&& child(live.children, id) == (ChildView {
                lifecycle: ChildLifecycle::Running(seq),
                ..child(sup.children, id)
            })
            &&& forall|other: Seq<char>| #[trigger]
                listed(live.children, other) == listed(sup.children, other)
            &&& forall|other: Seq<char>| #[trigger]
                listed(sup.children, other) && other != id ==> child(live.children, other) == child(
                    sup.children,
                    other,
                )
        }),
{
    let to = ChildLifecycle::Running(seq);
    lifecycle_keeps_ids(sup.children, id, to);
    lifecycle_changes_one_child(sup.children, id, to, id);
    assert forall|other: Seq<char>| #[trigger] listed(sup.children, other) && other
        != id implies child(sup.live(id, seq).children, other) == child(sup.children, other) by {
        lifecycle_changes_one_child(sup.children, id, to, other);
    }
}

/// An instance is adopted exactly if it has the token of the child's restart in flight; any other one
/// leaves everything as it was, and starts and releases nothing.
pub proof fn tokens_decide_on_adoption(
    sup: SupervisionView,
    id: Seq<char>,
    seq: u64,
    next_seq: u64,
)
    ensures
        ({
            let lifecycle = child(sup.children, id).lifecycle;
            let awaited = listed(sup.children, id) && lifecycle is Restarting && lifecycle->next
                == seq;
            &&& sup.adopts(id, seq) <==> awaited
            &&& !awaited ==> {
                &&& sup.after_adoption(id, seq, next_seq) == sup
                &&& sup.adoption_attempt(id, seq, next_seq) is None
                &&& sup.adoption_released(id, seq).len() == 0
            }
        }),
{
}

/// An adopted instance is the child's live one, with everything else of the child as it was. Outside
/// of a group restart that holds the child nothing else changes.
pub proof fn adopted_instances_are_live(
    sup: SupervisionView,
    id: Seq<char>,
    seq: u64,
    next_seq: u64,
    other: Seq<char>,
)
    requires
        sup.adopts(id, seq),
        match sup.pending_group {
            None => true,
            Some(GroupView::Stopping(group)) => !group.restart_order.contains(id),
            Some(GroupView::Restarting(queue)) => queue.len() == 0 || queue[0] != id,
        },
    ensures
        ({
            let after = sup.after_adoption(id, seq, next_seq);
            &&& child(after.children, id) == (ChildView {
                lifecycle: ChildLifecycle::Running(seq),
                ..child(sup.children, id)
            })
            &&& listed(after.children, id)
            &&& listed(sup.children, other) && other != id ==> listed(after.children, other)
                && child(after.children, other) == child(sup.children, other)
            &&& after == (SupervisionView { children: after.children, ..sup })
            &&& sup.adoption_attempt(id, seq, next_seq) is None
            &&& sup.adoption_released(id, seq).len() == 0
        }),
{
    adopting(sup, id, seq);
}

/// An instance that is adopted while its group is being stopped is live, and its death is awaited with
/// the others; nothing else of the group changes, and nothing is started.
pub proof fn late_instances_are_awaited(
    sup: SupervisionView,
    id: Seq<char>,
    seq: u64,
    next_seq: u64,
)
    requires
        sup.adopts(id, seq),
        sup.pending_group is Some,
        sup.pending_group->0 is Stopping,
        sup.pending_group->0->Stopping_0.restart_order.contains(id),
    ensures
        ({
            let before = sup.pending_group->0->Stopping_0;
            let after = sup.after_adoption(id, seq, next_seq);
            let group = after.pending_group->0->Stopping_0;
            &&& child(after.children, id).lifecycle == ChildLifecycle::Running(seq)
            &&& after.pending_group is Some && after.pending_group->0 is Stopping
            &&& forall|other: Seq<char>| #[trigger]
                group.awaiting.contains(other) <==> before.awaiting.contains(other) || other == id
            &&& group.restart_order == before.restart_order
            &&& group.manual_overrides == before.manual_overrides
            &&& after.budget == sup.budget
            &&& after.queued_triggers == sup.queued_triggers
            &&& sup.adoption_attempt(id, seq, next_seq) is None
            &&& sup.adoption_released(id, seq).len() == 0
        }),
{
    adopting(sup, id, seq);
}

/// A restart chain whose front is adopted goes on to the first member behind it that is not live,
/// passing over no other, and attempts it with the token that was given, unless a restart of it is in
/// flight already. Where all the others are live the group is over, and the deaths that were queued
/// meanwhile are handed back, all of them and in order.
pub proof fn chains_go_on_behind_their_front(
    sup: SupervisionView,
    id: Seq<char>,
    seq: u64,
    next_seq: u64,
    queue: Seq<Seq<char>>,
)
    requires
        unique(sup.children),
        sup.adopts(id, seq),
        sup.pending_group == Some(GroupView::Restarting(queue)),
        queue.len() > 0,
        queue[0] == id,
        forall|other: Seq<char>| #[trigger]
            listed(sup.children, other) ==> sup.restart_fns.contains(other),
    ensures
        ({
            let after = sup.after_adoption(id, seq, next_seq);
            let attempt = sup.adoption_attempt(id, seq, next_seq);
            let all_live = forall|i: int|
                1 <= i < queue.len() ==> running(sup.children, #[trigger] queue[i]) || queue[i]
                    == id;
            &&& child(after.children, id).lifecycle == ChildLifecycle::Running(seq)
            &&& after.budget == sup.budget
            &&& all_live ==> {
                &&& after.pending_group is None
                &&& after.queued_triggers.len() == 0
                &&& sup.adoption_released(id, seq) == sup.queued_triggers
                &&& attempt is None
            }
            &&& !all_live ==> {
                let left = after.pending_group->0->Restarting_0;
                let at = queue.len() - left.len();
                &&& after.pending_group is Some && after.pending_group->0 is Restarting
                &&& 1 <= at < queue.len()
                &&& left == queue.skip(at)
                &&& forall|i: int|
                    1 <= i < at ==> running(sup.children, #[trigger] queue[i]) || queue[i] == id
                &&& !running(sup.children, queue[at]) && queue[at] != id
                &&& after.queued_triggers == sup.queued_triggers
                &&& sup.adoption_released(id, seq).len() == 0
                &&& attempt is Some ==> attempt->0 == (AttemptView {
                    child_id: queue[at],
                    seq: next_seq,
                })
                &&& listed(sup.children, queue[at]) && !(child(
                    sup.children,
                    queue[at],
                ).lifecycle is Restarting) ==> attempt is Some
            }
        }),
{
    let live = sup.live(id, seq);
    let rest = queue.drop_first();
    let passed_front = live.past_front();
    let left = passed_front.chain_left();
    let passed = rest.len() - left.len();
    adopting(sup, id, seq);
    chains_pass_over_live_members_only(live.children, rest, passed_front);
    assert forall|other: Seq<char>| #[trigger] running(live.children, other) <==> running(
        sup.children,
        other,
    ) || other == id by {
        assert(listed(live.children, other) == listed(sup.children, other));
    }
    assert forall|i: int| 1 <= i <= passed implies running(sup.children, #[trigger] queue[i])
        || queue[i] == id by {
        assert(rest[i - 1] == queue[i]);
    }
    if left.len() > 0 {
        let front = rest[passed];
        assert(queue[passed + 1] == front);
        assert(!running(live.children, front));
        assert(left =~= queue.skip(passed + 1));
        let advanced = passed_front.advanced();
        if listed(live.children, front) && !(child(live.children, front).lifecycle is Restarting) {
            assert(listed(sup.children, front));
            asking(advanced, front, next_seq);
            assert(listed(advanced.children, id));
        } else if listed(live.children, front) {
            let kept = child(live.children, front).lifecycle;
            lifecycle_changes_one_child(live.children, front, kept, id);
        }
    }
}

/// What an adoption hands back is what was decided: whether the instance was taken; that it is to be
/// told to stop, by the child's own policy, exactly if it was taken and its group is being stopped;
/// and the deaths that were released.
pub proof fn adoption_steps_tell_what_was_decided(
    step: AdoptStep,
    before: SupervisionView,
    id: Seq<char>,
    seq: u64,
    next_seq: u64,
    after: SupervisionView,
)
    requires
        step.realizes(before, id, seq, next_seq, after),
    ensures
        ({
            let lifecycle = child(before.children, id).lifecycle;
            let taken = listed(before.children, id) && lifecycle is Restarting && lifecycle->next
                == seq;
            let stopping = before.pending_group is Some && before.pending_group->0 is Stopping
                && before.pending_group->0->Stopping_0.restart_order.contains(id);
            &&& step.accepted == taken
            &&& step.stop is Some == (taken && stopping)
            &&& step.stop is Some ==> step.stop->0.child_id@ == id && step.stop->0.shutdown == child(
                before.children,
                id,
            ).spec.shutdown
            &&& after == before.after_adoption(id, seq, next_seq)
            &&& match (step.attempt, before.adoption_attempt(id, seq, next_seq)) {
                (Some(started), Some(decided)) => started.child_id@ == decided.child_id
                    && started.seq == decided.seq,
                (None, None) => true,
                _ => false,
            }
            &&& step.drained@.len() == before.adoption_released(id, seq).len()
            &&& forall|i: int|
                0 <= i < step.drained@.len() ==> (#[trigger] step.drained@[i])@
                    == before.adoption_released(id, seq)[i]
        }),
{
    assert forall|i: int| 0 <= i < step.drained@.len() implies (#[trigger] step.drained@[i])@
        == before.adoption_released(id, seq)[i] by {
        assert(deaths(step.drained@)[i] == step.drained@[i]@);
    }
}

// ---------------------------------------------------------------------------
// Attempts
// ---------------------------------------------------------------------------

/// An attempt brings an instance up exactly if the fresh incarnation was initialized; else it fails,
/// as the child and with the token that it was for, and the failure tells why: the panic of the
/// factory, the error of the spawn, the error of the initialization, whatever error that is, or that
/// it took too long.
pub proof fn attempts_tell_how_they_went(
    id: ActorId,
    seq: u64,
    result: AttemptResult,
    outcome: RestartOutcome,
    message: String,
    spawn: SpawnError,
    init: ActorError,
)
    requires
        outcome_of(id, seq, result, outcome),
    ensures
        result is Initialized <==> outcome == (RestartOutcome::Adopted {
            child_id: id,
            incarnation: seq,
        }),
        !(result is Initialized) ==> {
            &&& outcome is Failed
            &&& outcome->Failed_child_id == id
            &&& outcome->Failed_incarnation == seq
            &&& outcome->Failed_reason is Failure
        },
        result == AttemptResult::FactoryPanicked(message) ==> outcome->Failed_reason
            == StopReason::Failure(
            ActorError::Supervision(SupervisionError::FactoryFailed(message)),
        ),
        result == AttemptResult::SpawnFailed(spawn) ==> outcome->Failed_reason
            == StopReason::Failure(ActorError::Spawn(spawn)),
        result == AttemptResult::InitFailed(init) ==> outcome->Failed_reason == StopReason::Failure(
            init,
        ),
        result is TimedOut ==> outcome->Failed_reason == StopReason::Failure(
            ActorError::Spawn(SpawnError::StartTimeout),
        ),
        result is AckLost ==> outcome->Failed_reason->Failure_0 is User,
{
}

/// A failed attempt is a death like any other, of the child, for the reason and of the incarnation
/// that the attempt had, and changes nothing by itself; a fresh instance is offered.
pub proof fn outcomes_are_deaths_or_offers(
    before: SupervisionView,
    outcome: RestartOutcome,
    next_seq: u64,
    after: SupervisionView,
    step: RestartStep,
)
    requires
        outcome_settled(before, outcome, next_seq, after, step),
    ensures
        outcome is Failed <==> step is Died,
        outcome is Failed ==> {
            &&& after == before
            &&& step->Died_0 == (ChildStoppedInternal {
                child_id: outcome->Failed_child_id,
                reason: outcome->Failed_reason,
                incarnation: outcome->Failed_incarnation,
            })
        },
        outcome is Adopted ==> step is Offered && step->Offered_0.realizes(
            before,
            outcome->Adopted_child_id@,
            outcome->Adopted_incarnation,
            next_seq,
            after,
        ),
{
}

// ---------------------------------------------------------------------------
// What a supervisor is told
// ---------------------------------------------------------------------------

/// What is handed back about a death is what was decided, in full: the attempt with its child and its
/// token, the members to stop with their policies and in their order, and the event with all that it
/// tells.
pub proof fn death_steps_tell_what_was_decided(
    step: DeathStep,
    sup: SupervisionView,
    work: Seq<DeathView>,
    decision: StepView,
)
    requires
        step.realizes(sup, work, decision),
    ensures
        sup == decision.sup,
        work == decision.work,
        match (step.attempt, decision.attempt) {
            (Some(started), Some(decided)) => started.child_id@ == decided.child_id && started.seq
                == decided.seq,
            (None, None) => true,
            _ => false,
        },
        step.stops.len() == decision.stops.len(),
        forall|i: int|
            0 <= i < step.stops.len() ==> (#[trigger] step.stops[i]).child_id@
                == decision.stops[i].0 && step.stops[i].shutdown == decision.stops[i].1,
        match (step.report, decision.report) {
            (Some(event), Some(decided)) => {
                &&& event.child_id@ == decided.child_id
                &&& event.child_name is Some == decided.child_name is Some
                &&& event.child_name is Some ==> event.child_name->0@ == decided.child_name->0
                &&& event.reason == decided.reason
                &&& event.action == decided.action
            },
            (None, None) => true,
            _ => false,
        },
{
    assert forall|i: int| 0 <= i < step.stops.len() implies (#[trigger] step.stops[i]).child_id@
        == decision.stops[i].0 && step.stops[i].shutdown == decision.stops[i].1 by {
        assert(stops_view(step.stops@)[i] == (step.stops[i].child_id@, step.stops[i].shutdown));
    }
}

/// A death is known by its child, its reason and its incarnation.
pub proof fn deaths_hold_all_there_is_to_tell(events: Seq<ChildStoppedInternal>, i: int)
    requires
        0 <= i < events.len(),
    ensures
        deaths(events).len() == events.len(),
        deaths(events)[i].child_id == events[i].child_id@,
        deaths(events)[i].reason == events[i].reason,
        deaths(events)[i].incarnation == events[i].incarnation,
{
}

/// An actor that is no supervisor tells of a death as it is and does nothing about it.
pub proof fn unsupervised_deaths_are_told(step: DeathStep, ev: DeathView)
    requires
        unsupervised_death(step, ev),
    ensures
        step.attempt is None,
        step.stops.len() == 0,
        step.report is Some,
        step.report->0.child_id@ == ev.child_id,
        step.report->0.child_name is None,
        step.report->0.reason == ev.reason,
        step.report->0.action == SupervisionAction::NotSupervised,
{
}

/// An actor stops after a death was told of exactly if its callback panicked, as failed with that
/// panic, or if its budget is exhausted, as if its parent had asked for it; the panic comes first.
pub proof fn reports_stop_the_actor_when_they_must(action: SupervisionAction, message: String)
    ensures
        stop_after_report(action, Some(message)) == Some(
            StopReason::Failure(ActorError::Panic(message)),
        ),
        stop_after_report(action, None) is Some <==> action == SupervisionAction::BudgetExhausted,
        stop_after_report(action, None) is Some ==> stop_after_report(action, None)
            == Some(StopReason::ParentRequest),
{
}

/// An aborted child is presented as killed, and no other reason is changed.
pub proof fn only_aborts_are_presented_otherwise(reason: StopReason)
    ensures
        presented(reason) == seen(reason),
        reason is Cancelled <==> presented(reason) != reason,
        !(presented(reason) is Cancelled),
{
}

} // verus!
