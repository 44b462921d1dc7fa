//! What holds of a supervisor, whatever becomes of its children.

use vstd::prelude::*;
use crate::actor::child_events::{is_crash, presented, stop_after_report};
use crate::actor::lifecycle::{ChildLifecycle, ManualStop};
use crate::actor::registry::{
    child, ids_of, lifecycle_changes_one_child, lifecycle_keeps_ids, listed,
    registration_appends, removal_takes_one_child, running, slot, unique,
    with_lifecycle, without, ChildSpec, ChildView,
};
use crate::actor::supervision::{
    live_sibling, restartable, OutcomeView, SupervisionView,
};
use crate::error::SupervisionError;
use crate::time::Instant;
use crate::types::{
    ActorId, DeathView, RestartStrategy, RestartType, StopReason, SupervisionAction,
};

verus! {

// ---------------------------------------------------------------------------
// Children keep what they were spawned with
// ---------------------------------------------------------------------------

/// Whether the children of the second list are children of the first one, with the names and specs
/// that they had there; no two of them share an ID.
pub open spec fn evolved(before: Seq<ChildView>, after: Seq<ChildView>) -> bool {
    unique(before) ==> {
        &&& unique(after)
        &&& forall|id: Seq<char>| #[trigger]
            listed(after, id) ==> {
                &&& listed(before, id)
                &&& child(after, id).name == child(before, id).name
                &&& child(after, id).spec == child(before, id).spec
            }
    }
}

/// Whether the child is the same in both lists, if it is in the first one.
pub open spec fn untouched(before: Seq<ChildView>, after: Seq<ChildView>, id: Seq<char>) -> bool {
    unique(before) && listed(before, id) ==> listed(after, id) && child(after, id) == child(
        before,
        id,
    )
}

pub(crate) proof fn evolved_by_lifecycle(children: Seq<ChildView>, id: Seq<char>, to: ChildLifecycle)
    ensures
        evolved(children, with_lifecycle(children, id, to)),
        forall|other: Seq<char>|
            other != id ==> #[trigger] untouched(children, with_lifecycle(children, id, to), other),
{
    let after = with_lifecycle(children, id, to);
    lifecycle_keeps_ids(children, id, to);
    if listed(children, id) {
        assert forall|other: Seq<char>| listed(children, other) implies {
            &&& child(after, other).name == child(children, other).name
            &&& child(after, other).spec == child(children, other).spec
            &&& other != id ==> child(after, other) == child(children, other)
        } by {
            lifecycle_changes_one_child(children, id, to, other);
        }
    }
}

pub(crate) proof fn evolved_by_removal(children: Seq<ChildView>, id: Seq<char>)
    ensures
        evolved(children, without(children, id)),
        forall|other: Seq<char>|
            other != id ==> #[trigger] untouched(children, without(children, id), other),
{
    if unique(children) {
        assert forall|other: Seq<char>| #[trigger] listed(without(children, id), other) implies {
            &&& listed(children, other)
            &&& child(without(children, id), other).name == child(children, other).name
            &&& child(without(children, id), other).spec == child(children, other).spec
        } by {
            removal_takes_one_child(children, id, other);
        }
        assert forall|other: Seq<char>| other != id implies #[trigger] untouched(
            children,
            without(children, id),
            other,
        ) by {
            removal_takes_one_child(children, id, other);
        }
        removal_takes_one_child(children, id, id);
    }
}

/// Asking for a restart, or removing a spec that is to go, changes one child.
pub(crate) proof fn evolved_by_parts(sup: SupervisionView, id: Seq<char>, seq: u64)
    ensures
        evolved(sup.children, sup.initiated(id, seq).children),
        evolved(sup.children, sup.pruned(id).children),
        evolved(sup.children, sup.settled_down(id).children),
        forall|other: Seq<char>|
            other != id ==> #[trigger] untouched(
                sup.children,
                sup.initiated(id, seq).children,
                other,
            ),
        forall|other: Seq<char>|
            other != id ==> #[trigger] untouched(sup.children, sup.pruned(id).children, other),
        forall|other: Seq<char>|
            other != id ==> #[trigger] untouched(
                sup.children,
                sup.settled_down(id).children,
                other,
            ),
{
    let lifecycle = child(sup.children, id).lifecycle;
    let to = ChildLifecycle::Restarting { incarnation: lifecycle.own(), next: seq };
    evolved_by_lifecycle(sup.children, id, crate::actor::lifecycle::moved(lifecycle, to));
    evolved_by_lifecycle(sup.children, id, crate::actor::lifecycle::settled(lifecycle));
    evolved_by_removal(sup.children, id);
}

/// Beginning a restart chain changes at most the member at its front.
proof fn evolved_by_chain(sup: SupervisionView, chain: Option<Seq<Seq<char>>>, seq: u64)
    ensures
        evolved(sup.children, sup.begun(chain, seq).children),
        forall|other: Seq<char>|
            !sup.begun(chain, seq).at_chain_front(other) || chain is None
                ==> #[trigger] untouched(sup.children, sup.begun(chain, seq).children, other),
{
    if let Some(order) = chain {
        let chained = sup.chained(order);
        if let Some(front) = chained.chain_front() {
            evolved_by_parts(chained.advanced(), front, seq);
        }
    }
}

/// Whatever is decided about a death, the children that are left have the names and specs that they
/// were spawned with, and no two share an ID.
pub proof fn deaths_keep_specs(
    sup: SupervisionView,
    ev: DeathView,
    work: Seq<DeathView>,
    seq: u64,
    now: Instant,
)
    ensures
        evolved(sup.children, sup.decided(ev, work, seq, now).sup.children),
{
    decision_is_local(sup, ev, work, seq, now);
}

/// A death concerns the child that died, and the child at the front of a restart chain; every other
/// child is left alone.
pub proof fn other_children_are_left_alone(
    sup: SupervisionView,
    ev: DeathView,
    work: Seq<DeathView>,
    seq: u64,
    now: Instant,
    other: Seq<char>,
)
    requires
        unique(sup.children),
        listed(sup.children, other),
        other != ev.child_id,
        !sup.decided(ev, work, seq, now).sup.at_chain_front(other),
    ensures
        ({
            let after = sup.decided(ev, work, seq, now).sup;
            listed(after.children, other) && child(after.children, other) == child(
                sup.children,
                other,
            )
        }),
{
    decision_is_local(sup, ev, work, seq, now);
    assert(untouched(sup.children, sup.decided(ev, work, seq, now).sup.children, other));
}

pub(crate) proof fn classification_is_local(
    sup: SupervisionView,
    id: Seq<char>,
    incarnation: u64,
    kind: ManualStop,
    reason: StopReason,
    seq: u64,
)
    ensures
        evolved(sup.children, sup.classified(id, incarnation, kind, reason, seq).children),
        forall|other: Seq<char>|
            other != id ==> #[trigger] untouched(
                sup.children,
                sup.classified(id, incarnation, kind, reason, seq).children,
                other,
            ),
{
    let after = sup.classified(id, incarnation, kind, reason, seq);
    let disposed = sup.disposed(id, kind, seq);
    evolved_by_lifecycle(
        sup.children,
        id,
        ChildLifecycle::Down { incarnation, event_pending: false },
    );
    evolved_by_parts(sup, id, seq);
    evolved_by_lifecycle(
        disposed.children,
        id,
        ChildLifecycle::Down { incarnation, event_pending: true },
    );
    assert forall|other: Seq<char>| other != id implies #[trigger] untouched(
        sup.children,
        after.children,
        other,
    ) by {
        assert(untouched(sup.children, sup.initiated(id, seq).children, other));
        assert(untouched(sup.children, sup.pruned(id).children, other));
        assert(untouched(
            disposed.children,
            with_lifecycle(
                disposed.children,
                id,
                ChildLifecycle::Down { incarnation, event_pending: true },
            ),
            other,
        ));
        assert(untouched(
            sup.children,
            with_lifecycle(
                sup.children,
                id,
                ChildLifecycle::Down { incarnation, event_pending: false },
            ),
            other,
        ));
    }
}

/// What [`deaths_keep_specs`] and [`other_children_are_left_alone`] say.
proof fn decision_is_local(
    sup: SupervisionView,
    ev: DeathView,
    work: Seq<DeathView>,
    seq: u64,
    now: Instant,
)
    ensures
        evolved(sup.children, sup.decided(ev, work, seq, now).sup.children),
        forall|other: Seq<char>|
            other != ev.child_id && !sup.decided(ev, work, seq, now).sup.at_chain_front(other)
                ==> #[trigger] untouched(
                sup.children,
                sup.decided(ev, work, seq, now).sup.children,
                other,
            ),
{
    let id = ev.child_id;
    let after = sup.decided(ev, work, seq, now).sup;
    let chain = sup.chain_due(id);
    if sup.awaited_manually(ev) {
        let taken = sup.event_taken(ev);
        let noted = taken.death_noted(id);
        evolved_by_lifecycle(
            sup.children,
            id,
            ChildLifecycle::Down { incarnation: ev.incarnation, event_pending: false },
        );
        evolved_by_chain(noted, chain, seq);
        assert forall|other: Seq<char>| other != id && !after.at_chain_front(
            other,
        ) implies #[trigger] untouched(sup.children, after.children, other) by {
            assert(untouched(
                sup.children,
                with_lifecycle(
                    sup.children,
                    id,
                    ChildLifecycle::Down { incarnation: ev.incarnation, event_pending: false },
                ),
                other,
            ));
            assert(untouched(noted.children, after.children, other));
        }
    } else if sup.unclassified(ev) {
        let kind = child(sup.children, id).lifecycle->Stopping_kind;
        classification_is_local(sup, id, ev.incarnation, kind, presented(ev.reason), seq);
        assert forall|other: Seq<char>| other != id implies #[trigger] untouched(
            sup.children,
            after.children,
            other,
        ) by {
            assert(untouched(
                sup.children,
                sup.classified(id, ev.incarnation, kind, presented(ev.reason), seq).children,
                other,
            ));
        }
    } else if !sup.stale(ev) {
        let shown = sup.presents(ev);
        let down = sup.settled_down(id);
        evolved_by_parts(sup, id, seq);
        if sup.awaits_death(id) {
            let noted = down.death_noted(id);
            let begun = noted.begun(chain, seq);
            evolved_by_chain(noted, chain, seq);
            evolved_by_parts(begun, id, seq);
            assert forall|other: Seq<char>| other != id && !after.at_chain_front(
                other,
            ) implies #[trigger] untouched(sup.children, after.children, other) by {
                assert(untouched(sup.children, down.children, other));
                assert(untouched(noted.children, begun.children, other));
                assert(untouched(begun.children, begun.pruned(id).children, other));
            }
        } else if sup.at_chain_front(id) {
            let charged = SupervisionView { budget: down.budget.charged(now), ..down };
            evolved_by_parts(charged, id, seq);
            assert forall|other: Seq<char>| other != id implies #[trigger] untouched(
                sup.children,
                after.children,
                other,
            ) by {
                assert(untouched(sup.children, down.children, other));
                assert(untouched(charged.children, charged.initiated(id, seq).children, other));
            }
        } else if sup.pending_group is Some {
            assert forall|other: Seq<char>| other != id implies #[trigger] untouched(
                sup.children,
                after.children,
                other,
            ) by {
                assert(untouched(sup.children, down.children, other));
            }
        } else {
            let judged = down.after_evaluation(id, shown.reason, now);
            evolved_by_parts(judged, id, seq);
            match down.evaluated(id, shown.reason, now) {
                OutcomeView::RestartGroup { stop_reverse, restart_order } => {
                    evolved_by_chain(judged, Some(restart_order), seq);
                    assert forall|other: Seq<char>| other != id && !after.at_chain_front(
                        other,
                    ) implies #[trigger] untouched(sup.children, after.children, other) by {
                        assert(untouched(sup.children, down.children, other));
                        if stop_reverse.len() == 0 {
                            assert(untouched(
                                judged.children,
                                judged.begun(Some(restart_order), seq).children,
                                other,
                            ));
                        }
                    }
                },
                _ => {
                    assert forall|other: Seq<char>| other != id implies #[trigger] untouched(
                        sup.children,
                        after.children,
                        other,
                    ) by {
                        assert(untouched(sup.children, down.children, other));
                        assert(untouched(
                            judged.children,
                            judged.initiated(id, seq).children,
                            other,
                        ));
                        assert(untouched(judged.children, judged.pruned(id).children, other));
                    }
                },
            }
        }
    }
}

/// Adopting a fresh instance keeps the names and specs of all children, and leaves every child
/// alone but the adopted one and the one that a restart chain goes on to.
pub proof fn adoption_keeps_specs(
    sup: SupervisionView,
    id: Seq<char>,
    seq: u64,
    next_seq: u64,
    other: Seq<char>,
)
    ensures
        evolved(sup.children, sup.after_adoption(id, seq, next_seq).children),
        other != id && !sup.after_adoption(id, seq, next_seq).at_chain_front(other) ==> untouched(
            sup.children,
            sup.after_adoption(id, seq, next_seq).children,
            other,
        ),
{
    let live = sup.live(id, seq);
    evolved_by_lifecycle(sup.children, id, ChildLifecycle::Running(seq));
    assert(other != id ==> untouched(sup.children, live.children, other));
    if sup.adopts(id, seq) && !sup.stops_first(id) && sup.at_chain_front(id) {
        let passed = live.past_front();
        if let Some(front) = passed.chain_front() {
            evolved_by_parts(passed.advanced(), front, next_seq);
            assert(other != front ==> untouched(
                passed.children,
                passed.advanced().initiated(front, next_seq).children,
                other,
            ));
        }
    }
}

// ---------------------------------------------------------------------------
// The budget
// ---------------------------------------------------------------------------

/// A death charges the budget at most once, however many children are restarted because of it; a
/// manual stop and the death that it leads to charge nothing, nor does a replaced instance.
pub proof fn one_charge_per_death(
    sup: SupervisionView,
    ev: DeathView,
    work: Seq<DeathView>,
    seq: u64,
    now: Instant,
)
    ensures
        ({
            let after = sup.decided(ev, work, seq, now).sup;
            &&& after.budget == sup.budget || after.budget == sup.budget.charged(now)
            &&& sup.awaited_manually(ev) || sup.unclassified(ev) || sup.stale(ev)
                || sup.awaits_death(ev.child_id) ==> after.budget == sup.budget
        }),
{
}

/// Manual child management never touches the budget.
pub proof fn manual_management_is_free(
    sup: SupervisionView,
    id: Seq<char>,
    incarnation: u64,
    kind: ManualStop,
    died: bool,
    reason: StopReason,
    seq: u64,
)
    ensures
        sup.manual_begun(id, kind, died).budget == sup.budget,
        sup.classified(id, incarnation, kind, reason, seq).budget == sup.budget,
        sup.initiated(id, seq).budget == sup.budget,
        sup.removed(id).budget == sup.budget,
{
}

/// Manual child management concerns one child: no sibling is stopped or restarted because of it.
pub proof fn manual_management_touches_no_sibling(
    sup: SupervisionView,
    id: Seq<char>,
    incarnation: u64,
    kind: ManualStop,
    died: bool,
    reason: StopReason,
    seq: u64,
    other: Seq<char>,
)
    requires
        other != id,
    ensures
        untouched(sup.children, sup.manual_begun(id, kind, died).children, other),
        untouched(
            sup.children,
            sup.classified(id, incarnation, kind, reason, seq).children,
            other,
        ),
        untouched(sup.children, sup.initiated(id, seq).children, other),
        untouched(sup.children, sup.removed(id).children, other),
        sup.classified(id, incarnation, kind, reason, seq).pending_group == sup.pending_group,
        sup.classified_attempt(id, kind, reason, seq) is Some ==> sup.classified_attempt(
            id,
            kind,
            reason,
            seq,
        )->0.child_id == id,
{
    let own = child(sup.children, id).lifecycle.own();
    evolved_by_lifecycle(
        sup.children,
        id,
        ChildLifecycle::Down { incarnation: own, event_pending: false },
    );
    evolved_by_lifecycle(sup.children, id, ChildLifecycle::Stopping { incarnation: own, kind });
    assert(untouched(
        sup.children,
        with_lifecycle(
            sup.children,
            id,
            ChildLifecycle::Down { incarnation: own, event_pending: false },
        ),
        other,
    ));
    assert(untouched(
        sup.children,
        with_lifecycle(sup.children, id, ChildLifecycle::Stopping { incarnation: own, kind }),
        other,
    ));
    classification_is_local(sup, id, incarnation, kind, reason, seq);
    evolved_by_parts(sup, id, seq);
    evolved_by_removal(sup.children, id);
    assert(untouched(sup.children, without(sup.children, id), other));
    assert(untouched(sup.children, sup.initiated(id, seq).children, other));
    assert(untouched(
        sup.children,
        sup.classified(id, incarnation, kind, reason, seq).children,
        other,
    ));
}

/// A supervisor reports an exhausted budget only where a restart was called for and the budget
/// allows none; nothing is started and nobody is told to stop then.
pub proof fn exhaustion_starts_nothing(
    sup: SupervisionView,
    ev: DeathView,
    work: Seq<DeathView>,
    seq: u64,
    now: Instant,
)
    requires
        !sup.awaited_manually(ev),
        sup.decided(ev, work, seq, now).report is Some,
        sup.decided(ev, work, seq, now).report->0.action == SupervisionAction::BudgetExhausted,
    ensures
        !sup.budget.allows(now),
        sup.decided(ev, work, seq, now).attempt is None,
        sup.decided(ev, work, seq, now).stops.len() == 0,
{
}

// ---------------------------------------------------------------------------
// Replaced instances
// ---------------------------------------------------------------------------

/// The death of an instance that was replaced changes nothing and is not reported.
pub proof fn stale_deaths_are_ignored(
    sup: SupervisionView,
    ev: DeathView,
    work: Seq<DeathView>,
    seq: u64,
    now: Instant,
)
    requires
        sup.stale(ev),
        !sup.awaited_manually(ev),
    ensures
        sup.decided(ev, work, seq, now) == sup.quietly(work),
{
}

/// A fresh instance becomes the live one of a child only while no instance of the child is live, and
/// only if it is the one that the child's pending restart is to bring; else nothing changes.
pub proof fn no_two_live_instances(
    sup: SupervisionView,
    id: Seq<char>,
    seq: u64,
    next_seq: u64,
)
    ensures
        sup.adopts(id, seq) ==> !running(sup.children, id) && child(
            sup.children,
            id,
        ).lifecycle.awaits(seq),
        !sup.adopts(id, seq) ==> sup.after_adoption(id, seq, next_seq) == sup,
{
}

/// Of two attempts to restart a child only the one that was asked for can be adopted: a restart in
/// flight is not replaced by a second request, and only its own token is accepted.
pub proof fn only_the_pending_attempt_is_adopted(
    sup: SupervisionView,
    id: Seq<char>,
    first: u64,
    second: u64,
    offered: u64,
)
    requires
        listed(sup.children, id),
        !(child(sup.children, id).lifecycle is Restarting),
    ensures
        sup.initiated(id, first).initiated(id, second) == sup.initiated(id, first),
        sup.initiated(id, first).started(id, second) is None,
        sup.initiated(id, first).adopts(id, offered) == (offered == first),
{
    let to = ChildLifecycle::Restarting {
        incarnation: child(sup.children, id).lifecycle.own(),
        next: first,
    };
    lifecycle_changes_one_child(sup.children, id, to, id);
    lifecycle_keeps_ids(sup.children, id, to);
    let once = sup.initiated(id, first);
    let again = once.initiated(id, second);
    let at = slot(once.children, id);
    assert(once.children[at] == child(once.children, id));
    assert(again.children =~= once.children);
}

// ---------------------------------------------------------------------------
// Restart types
// ---------------------------------------------------------------------------

/// A Temporary child is never restarted by its own death, and its spec goes with it. A Permanent
/// one always is, unless the budget is exhausted. A Transient one is restarted after an abnormal
/// end, Kill included; after a clean one it stays down with its spec.
pub proof fn restart_types_are_honored(
    sup: SupervisionView,
    id: Seq<char>,
    reason: StopReason,
    now: Instant,
)
    requires
        listed(sup.children, id),
    ensures
        ({
            let restart_type = child(sup.children, id).spec.restart_type;
            let clean = reason is Graceful || reason is ParentRequest;
            let outcome = sup.evaluated(id, reason, now);
            &&& restart_type == RestartType::Temporary ==> outcome is Remove && sup.prunes(id)
            &&& restart_type == RestartType::Permanent ==> !(outcome is Remove)
            &&& restart_type == RestartType::Transient ==> (outcome is Remove <==> clean)
            &&& restart_type == RestartType::Transient && sup.config.strategy
                != RestartStrategy::SimpleOneForOne ==> !sup.prunes(id)
            &&& !(outcome is Remove) ==> (outcome is BudgetExhausted <==> !sup.budget.allows(now))
        }),
{
}

/// A Temporary child is removed on any stop, also on one with its group: its death is reported as a
/// removal, and its spec goes, so that its ID is free. A member of any other type that was not
/// terminated meanwhile is kept, and its death is reported as a restart.
pub proof fn groups_honor_restart_types(
    sup: SupervisionView,
    ev: DeathView,
    work: Seq<DeathView>,
    seq: u64,
    now: Instant,
)
    requires
        unique(sup.children),
        listed(sup.children, ev.child_id),
        sup.awaits_death(ev.child_id),
        !sup.awaited_manually(ev),
        !sup.unclassified(ev),
        !sup.stale(ev),
    ensures
        ({
            let id = ev.child_id;
            let step = sup.decided(ev, work, seq, now);
            let temporary = child(sup.children, id).spec.restart_type == RestartType::Temporary;
            &&& step.report is Some
            &&& temporary ==> {
                &&& step.report->0.action == SupervisionAction::Removed
                &&& !listed(step.sup.children, id)
                &&& !step.sup.restart_fns.contains(id)
            }
            &&& !temporary && !sup.overridden(id) ==> {
                &&& step.report->0.action == SupervisionAction::RestartInitiated
                &&& listed(step.sup.children, id)
            }
            &&& step.report->0.child_id == id && step.report->0.child_name == sup.name_of(id)
        }),
{
    let id = ev.child_id;
    let noted = sup.settled_down(id).death_noted(id);
    let chain = sup.chain_due(id);
    let begun = noted.begun(chain, seq);
    let own = child(sup.children, id).lifecycle;
    lifecycle_keeps_ids(sup.children, id, crate::actor::lifecycle::settled(own));
    lifecycle_changes_one_child(sup.children, id, crate::actor::lifecycle::settled(own), id);
    evolved_by_parts(sup, id, seq);
    evolved_by_chain(noted, chain, seq);
    chains_keep_children(noted, chain, seq, id);
    removal_takes_one_child(begun.children, id, id);
}

/// The beginning of a restart chain removes nobody.
proof fn chains_keep_children(
    sup: SupervisionView,
    chain: Option<Seq<Seq<char>>>,
    seq: u64,
    id: Seq<char>,
)
    requires
        listed(sup.children, id),
    ensures
        listed(sup.begun(chain, seq).children, id),
{
    if let Some(order) = chain {
        let chained = sup.chained(order);
        if let Some(front) = chained.chain_front() {
            let lifecycle = child(sup.children, front).lifecycle;
            let to = ChildLifecycle::Restarting { incarnation: lifecycle.own(), next: seq };
            lifecycle_keeps_ids(
                sup.children,
                front,
                crate::actor::lifecycle::moved(lifecycle, to),
            );
        }
    }
}

/// A supervisor whose budget is exhausted stops as if its own parent had asked for it, so that a
/// parent that keeps it as a Transient child does not restart it.
pub proof fn exhausted_supervisors_stay_down(above: SupervisionView, id: Seq<char>, now: Instant)
    requires
        listed(above.children, id),
        child(above.children, id).spec.restart_type == RestartType::Transient,
    ensures
        ({
            let stop = stop_after_report(SupervisionAction::BudgetExhausted, None);
            &&& stop == Some(StopReason::ParentRequest)
            &&& above.evaluated(id, stop->0, now) is Remove
            &&& above.after_evaluation(id, stop->0, now) == above
        }),
{
}

/// After a death that is evaluated, retried or awaited by a group, no live instance of the child is
/// on record any more.
pub proof fn dead_children_are_not_live(
    sup: SupervisionView,
    ev: DeathView,
    work: Seq<DeathView>,
    seq: u64,
    now: Instant,
)
    requires
        unique(sup.children),
        !sup.awaited_manually(ev),
        !sup.unclassified(ev),
        !sup.stale(ev),
        sup.decided(ev, work, seq, now).report is Some,
    ensures
        !running(sup.decided(ev, work, seq, now).sup.children, ev.child_id),
{
    let id = ev.child_id;
    let shown = sup.presents(ev);
    let down = sup.settled_down(id);
    evolved_by_parts(sup, id, seq);
    if listed(sup.children, id) {
        lifecycle_changes_one_child(
            sup.children,
            id,
            crate::actor::lifecycle::settled(child(sup.children, id).lifecycle),
            id,
        );
    }
    assert(!running(down.children, id));
    if sup.awaits_death(id) {
        let noted = down.death_noted(id);
        let chain = sup.chain_due(id);
        evolved_by_chain(noted, chain, seq);
        chains_start_nobody(noted, chain, seq, id);
        removals_start_nobody(noted.begun(chain, seq), id);
    } else if sup.at_chain_front(id) {
        let charged = SupervisionView { budget: down.budget.charged(now), ..down };
        requests_start_nobody(charged, id, seq, id);
    } else {
        let judged = down.after_evaluation(id, shown.reason, now);
        requests_start_nobody(judged, id, seq, id);
        removals_start_nobody(judged, id);
        match down.evaluated(id, shown.reason, now) {
            OutcomeView::RestartGroup { stop_reverse, restart_order } => {
                chains_start_nobody(judged, Some(restart_order), seq, id);
            },
            _ => {},
        }
    }
}

/// A request to restart a child makes no instance live.
proof fn requests_start_nobody(sup: SupervisionView, id: Seq<char>, seq: u64, other: Seq<char>)
    requires
        !running(sup.children, other),
    ensures
        !running(sup.initiated(id, seq).children, other),
{
    let lifecycle = child(sup.children, id).lifecycle;
    let to = ChildLifecycle::Restarting { incarnation: lifecycle.own(), next: seq };
    let moved_to = crate::actor::lifecycle::moved(lifecycle, to);
    lifecycle_keeps_ids(sup.children, id, moved_to);
    if listed(sup.children, id) && listed(sup.children, other) {
        lifecycle_changes_one_child(sup.children, id, moved_to, other);
    }
}

/// The removal of a spec makes no instance live.
proof fn removals_start_nobody(sup: SupervisionView, id: Seq<char>)
    requires
        unique(sup.children),
        !running(sup.children, id),
    ensures
        !running(sup.pruned(id).children, id),
{
    removal_takes_one_child(sup.children, id, id);
}

/// The beginning of a restart chain makes no instance live.
proof fn chains_start_nobody(
    sup: SupervisionView,
    chain: Option<Seq<Seq<char>>>,
    seq: u64,
    other: Seq<char>,
)
    requires
        !running(sup.children, other),
    ensures
        !running(sup.begun(chain, seq).children, other),
{
    if let Some(order) = chain {
        let chained = sup.chained(order);
        if let Some(front) = chained.chain_front() {
            requests_start_nobody(chained.advanced(), front, seq, other);
        }
    }
}

// ---------------------------------------------------------------------------
// Groups
// ---------------------------------------------------------------------------

/// What a filter keeps stands in the order in which it stood.
pub(crate) proof fn filter_keeps_order<T>(list: Seq<T>, keep: spec_fn(T) -> bool, i: int, j: int)
    requires
        list.no_duplicates(),
        0 <= i < j < list.filter(keep).len(),
    ensures
        list.contains(list.filter(keep)[i]),
        list.contains(list.filter(keep)[j]),
        list.index_of(list.filter(keep)[i]) < list.index_of(list.filter(keep)[j]),
    decreases list.len(),
{
    reveal(Seq::filter);
    let kept = list.filter(keep);
    let rest = list.drop_last();
    let front = rest.filter(keep);
    broadcast use vstd::seq_lib::group_filter_ensures;

    assert(rest.no_duplicates()) by {
        assert forall|a: int, b: int| 0 <= a < rest.len() && 0 <= b < rest.len() && a
            != b implies rest[a] != rest[b] by {
            assert(list[a] != list[b]);
        }
    }
    assert(rest.contains(front[i])) by {
        assert(front.contains(front[i]));
        rest.lemma_filter_contains_rev(keep, front[i]);
    }
    let a = rest.index_of(front[i]);
    assert(list[a] == kept[i]);
    places_are_unique(list, a);
    if j < front.len() {
        filter_keeps_order(rest, keep, i, j);
        let b = rest.index_of(front[j]);
        assert(list[b] == kept[j]);
        places_are_unique(list, b);
    } else {
        assert(kept[j] == list.last());
        places_are_unique(list, list.len() - 1);
    }
}

/// In a list that holds nothing twice, the place of an item is where it stands.
proof fn places_are_unique<T>(list: Seq<T>, i: int)
    requires
        list.no_duplicates(),
        0 <= i < list.len(),
    ensures
        list.contains(list[i]),
        list.index_of(list[i]) == i,
{
    let j = list.index_of(list[i]);
    assert(list.contains(list[i]));
    assert(list[j] == list[i]);
}

/// The members of a group stand in start order, and no member twice.
proof fn affected_in_order(sup: SupervisionView, failed: Seq<char>, i: int, j: int)
    requires
        unique(sup.children),
        listed(sup.children, failed),
        0 <= i < j < sup.affected(failed).len(),
    ensures
        listed(sup.children, sup.affected(failed)[i]),
        listed(sup.children, sup.affected(failed)[j]),
        slot(sup.children, sup.affected(failed)[i]) < slot(sup.children, sup.affected(failed)[j]),
{
    let ids = ids_of(sup.children);
    let base: int = if sup.config.strategy == RestartStrategy::RestForOne {
        slot(sup.children, failed)
    } else {
        0
    };
    places_are_unique(ids, base + i);
    places_are_unique(ids, base + j);
}

/// The members of a group are each one child, and none twice.
proof fn affected_once(sup: SupervisionView, failed: Seq<char>)
    requires
        unique(sup.children),
        listed(sup.children, failed),
    ensures
        sup.affected(failed).no_duplicates(),
{
    let members = sup.affected(failed);
    assert forall|a: int, b: int| 0 <= a < members.len() && 0 <= b < members.len() && a
        != b implies members[a] != members[b] by {
        if a < b {
            affected_in_order(sup, failed, a, b);
        } else {
            affected_in_order(sup, failed, b, a);
        }
    }
}

/// The place of an item that stands at a place of the list of members.
proof fn member_slots_follow_places(sup: SupervisionView, failed: Seq<char>, a: Seq<char>, b: Seq<char>)
    requires
        unique(sup.children),
        listed(sup.children, failed),
        sup.affected(failed).contains(a),
        sup.affected(failed).contains(b),
        sup.affected(failed).index_of(a) < sup.affected(failed).index_of(b),
    ensures
        slot(sup.children, a) < slot(sup.children, b),
{
    let members = sup.affected(failed);
    affected_in_order(sup, failed, members.index_of(a), members.index_of(b));
}

/// A group restart stops its live members in reverse start order.
pub proof fn groups_stop_in_reverse_start_order(
    sup: SupervisionView,
    failed: Seq<char>,
    reason: StopReason,
    now: Instant,
    i: int,
    j: int,
)
    requires
        unique(sup.children),
        sup.evaluated(failed, reason, now) is RestartGroup,
        0 <= i < j < sup.evaluated(failed, reason, now)->stop_reverse.len(),
    ensures
        ({
            let stops = sup.evaluated(failed, reason, now)->stop_reverse;
            slot(sup.children, stops[i]) > slot(sup.children, stops[j])
        }),
{
    let members = sup.affected(failed);
    let keep = live_sibling(sup.children, failed);
    let kept = members.filter(keep);
    let n = kept.len();
    affected_once(sup, failed);
    filter_keeps_order(members, keep, n - 1 - j, n - 1 - i);
    member_slots_follow_places(sup, failed, kept[n - 1 - j], kept[n - 1 - i]);
}

/// A group restart restarts its members in start order.
pub proof fn groups_restart_in_start_order(
    sup: SupervisionView,
    failed: Seq<char>,
    reason: StopReason,
    now: Instant,
    i: int,
    j: int,
)
    requires
        unique(sup.children),
        sup.evaluated(failed, reason, now) is RestartGroup,
        0 <= i < j < sup.evaluated(failed, reason, now)->restart_order.len(),
    ensures
        ({
            let order = sup.evaluated(failed, reason, now)->restart_order;
            slot(sup.children, order[i]) < slot(sup.children, order[j])
        }),
{
    let members = sup.affected(failed);
    let keep = restartable(sup.children);
    let kept = members.filter(keep);
    affected_once(sup, failed);
    filter_keeps_order(members, keep, i, j);
    member_slots_follow_places(sup, failed, kept[i], kept[j]);
}

/// Whether the failure of one child concerns another one.
pub open spec fn concerns(sup: SupervisionView, failed: Seq<char>, id: Seq<char>) -> bool {
    listed(sup.children, id) && (sup.config.strategy == RestartStrategy::OneForAll || slot(
        sup.children,
        id,
    ) >= slot(sup.children, failed))
}

/// Under OneForAll a failure concerns every child, under RestForOne the child that failed and those
/// started after it. A group restart stops every child concerned that is live, the failed one
/// excepted, and restarts every child concerned that is not Temporary; no other child is stopped or
/// restarted.
pub proof fn groups_concern_whom_they_should(
    sup: SupervisionView,
    failed: Seq<char>,
    reason: StopReason,
    now: Instant,
    id: Seq<char>,
)
    requires
        unique(sup.children),
        sup.evaluated(failed, reason, now) is RestartGroup,
    ensures
        ({
            let outcome = sup.evaluated(failed, reason, now);
            &&& outcome->stop_reverse.contains(id) <==> concerns(sup, failed, id) && running(
                sup.children,
                id,
            ) && id != failed
            &&& outcome->restart_order.contains(id) <==> concerns(sup, failed, id) && child(
                sup.children,
                id,
            ).spec.restart_type != RestartType::Temporary
        }),
{
    broadcast use vstd::seq_lib::group_filter_ensures;

    let ids = ids_of(sup.children);
    let members = sup.affected(failed);
    let live = live_sibling(sup.children, failed);
    let again = restartable(sup.children);
    let base: int = if sup.config.strategy == RestartStrategy::RestForOne {
        slot(sup.children, failed)
    } else {
        0
    };
    assert(members.contains(id) <==> concerns(sup, failed, id)) by {
        if members.contains(id) {
            let i = members.index_of(id);
            assert(ids[base + i] == id);
            places_are_unique(ids, base + i);
        }
        if concerns(sup, failed, id) {
            let i = slot(sup.children, id);
            assert(ids[i] == id);
            assert(members[i - base] == id);
        }
    }
    filter_contains(members, live, id);
    filter_contains(members, again, id);
    let kept = members.filter(live);
    assert(kept.reverse().contains(id) <==> kept.contains(id)) by {
        if kept.contains(id) {
            let i = kept.index_of(id);
            assert(kept.reverse()[kept.len() - 1 - i] == id);
        }
        if kept.reverse().contains(id) {
            let i = kept.reverse().index_of(id);
            assert(kept[kept.len() - 1 - i] == id);
        }
    }
}

/// A filter keeps what it should, and nothing else.
pub(crate) proof fn filter_contains<T>(list: Seq<T>, keep: spec_fn(T) -> bool, item: T)
    ensures
        list.filter(keep).contains(item) <==> list.contains(item) && keep(item),
{
    broadcast use vstd::seq_lib::group_filter_ensures;

    if list.filter(keep).contains(item) {
        list.lemma_filter_contains_rev(keep, item);
        let i = list.filter(keep).index_of(item);
        list.lemma_filter_pred(keep, i);
    }
    if list.contains(item) && keep(item) {
        let i = list.index_of(item);
        list.lemma_filter_contains(keep, i);
    }
}

/// All members of a group are down before any is started: as long as the stop phase of a group
/// restart is not over, no death starts an attempt, unless it is that of a manual stop that nobody
/// has classified yet.
pub proof fn all_stopped_before_any_started(
    sup: SupervisionView,
    ev: DeathView,
    work: Seq<DeathView>,
    seq: u64,
    now: Instant,
)
    requires
        sup.pending_group is Some,
        sup.pending_group->0 is Stopping,
        !sup.unclassified(ev) || sup.awaited_manually(ev),
        sup.decided(ev, work, seq, now).attempt is Some,
    ensures
        sup.chain_due(ev.child_id) is Some,
        ({
            let after = sup.decided(ev, work, seq, now).sup;
            after.pending_group is Some && after.pending_group->0 is Restarting
        }),
{
    let id = ev.child_id;
    let chain = sup.chain_due(id);
    let noted = if sup.awaited_manually(ev) {
        sup.event_taken(ev).death_noted(id)
    } else {
        sup.settled_down(id).death_noted(id)
    };
    assert(noted.begun_attempt(chain, seq) is Some);
}

/// A restart chain is sequential: when it is begun, the only attempt is that of the member which it
/// waits for then.
pub proof fn chains_start_their_front_only(sup: SupervisionView, order: Seq<Seq<char>>, seq: u64)
    requires
        sup.begun_attempt(Some(order), seq) is Some,
    ensures
        sup.begun(Some(order), seq).at_chain_front(sup.begun_attempt(Some(order), seq)->0.child_id),
        sup.begun_attempt(Some(order), seq)->0.seq == seq,
{
}

/// A restart chain goes on only once the member that it waits for is live: an adoption starts an
/// attempt only where it is the adoption of that member, and the attempt is that of the member which
/// the chain waits for next.
pub proof fn chains_wait_for_their_front(
    sup: SupervisionView,
    id: Seq<char>,
    seq: u64,
    next_seq: u64,
)
    requires
        sup.adoption_attempt(id, seq, next_seq) is Some,
    ensures
        sup.adopts(id, seq),
        sup.at_chain_front(id),
        sup.after_adoption(id, seq, next_seq).at_chain_front(
            sup.adoption_attempt(id, seq, next_seq)->0.child_id,
        ),
{
}

/// A restart chain is over exactly when every member is live, and the deaths that were queued
/// meanwhile are released then, all of them and in order.
pub proof fn chains_end_when_all_are_live(sup: SupervisionView, order: Seq<Seq<char>>)
    ensures
        sup.chained(order).chain_done() <==> forall|i: int|
            0 <= i < order.len() ==> running(sup.children, #[trigger] order[i]),
        sup.chained(order).chain_done() ==> {
            &&& sup.chained(order).released() == sup.queued_triggers
            &&& sup.chained(order).advanced().pending_group is None
            &&& sup.chained(order).advanced().queued_triggers.len() == 0
        },
    decreases order.len(),
{
    if order.len() > 0 && running(sup.children, order[0]) {
        let rest = order.drop_first();
        chains_end_when_all_are_live(sup, rest);
        let all_rest = forall|k: int|
            0 <= k < rest.len() ==> running(sup.children, #[trigger] rest[k]);
        if all_rest {
            assert forall|i: int| 0 <= i < order.len() implies running(
                sup.children,
                #[trigger] order[i],
            ) by {
                if i > 0 {
                    assert(rest[i - 1] == order[i]);
                }
            }
        } else {
            let k = choose|k: int|
                0 <= k < rest.len() && !running(sup.children, #[trigger] rest[k]);
            assert(order[k + 1] == rest[k]);
        }
    }
}

/// A member that is terminated while its group is being stopped stays down: it is no part of the
/// restart chain, and its death is reported as a removal.
pub proof fn termination_overrides_the_group(
    sup: SupervisionView,
    id: Seq<char>,
    ev: DeathView,
    work: Seq<DeathView>,
    seq: u64,
)
    requires
        sup.overrides_group(id, ManualStop::Terminate),
        ev.child_id == id,
    ensures
        ({
            let begun = sup.manual_begun(id, ManualStop::Terminate, false);
            &&& begun.overridden(id)
            &&& begun.pending_group is Some && begun.pending_group->0 is Stopping
            &&& !begun.pending_group->0->Stopping_0.chain().contains(id)
            &&& begun.member_death(ev, work, seq).report->0.action == SupervisionAction::Removed
            &&& !begun.in_group(id)
        }),
{
    let begun = sup.manual_begun(id, ManualStop::Terminate, false);
    let group = begun.pending_group->0->Stopping_0;
    let overrides = group.manual_overrides;
    filter_contains(group.restart_order, |other: Seq<char>| !overrides.contains(other), id);
}

/// A fresh instance of a member whose group is being stopped is not left running among its dying
/// siblings: its death is awaited with theirs.
pub proof fn late_members_stop_with_their_group(
    sup: SupervisionView,
    id: Seq<char>,
    seq: u64,
    next_seq: u64,
)
    requires
        sup.adopts(id, seq),
        sup.stops_first(id),
    ensures
        sup.after_adoption(id, seq, next_seq).awaits_death(id),
        sup.adoption_attempt(id, seq, next_seq) is None,
{
}

/// A death that a group restart does not wait for is never lost: it is queued, unless it reports
/// that the restart of a child failed which the group restarts anyway. Either way no child is left
/// with a restart in flight that nobody will report on.
pub proof fn deferred_deaths_are_kept(sup: SupervisionView, ev: DeathView)
    requires
        unique(sup.children),
    ensures
        sup.deferred(ev).queued_triggers == sup.queued_triggers.push(ev) || (sup.attempt_failed(ev)
            && sup.group_members().contains(ev.child_id) && sup.deferred(ev).queued_triggers
            == sup.queued_triggers),
        sup.attempt_failed(ev) ==> child(sup.deferred(ev).children, ev.child_id).lifecycle is Down,
{
    if sup.attempt_failed(ev) {
        lifecycle_changes_one_child(
            sup.children,
            ev.child_id,
            crate::actor::lifecycle::settled(child(sup.children, ev.child_id).lifecycle),
            ev.child_id,
        );
    }
}

/// No death is lost. It is reported, or dealt with once more after its manual stop was classified,
/// or queued until a group restart is complete; else it is that of an instance that was replaced, or
/// of an attempt that failed to restart a child which a group restarts anyway.
pub proof fn no_death_is_lost(
    sup: SupervisionView,
    ev: DeathView,
    work: Seq<DeathView>,
    seq: u64,
    now: Instant,
)
    ensures
        ({
            let step = sup.decided(ev, work, seq, now);
            ||| step.report is Some
            ||| step.work == seq![ev] + work && !step.sup.unclassified(ev)
            ||| step.sup.queued_triggers == sup.queued_triggers.push(sup.presents(ev))
            ||| sup.stale(ev)
            ||| sup.attempt_failed(ev) && sup.group_members().contains(ev.child_id)
        }),
{
    if !sup.awaited_manually(ev) && sup.unclassified(ev) {
        let id = ev.child_id;
        let kind = child(sup.children, id).lifecycle->Stopping_kind;
        let reason = presented(ev.reason);
        let down = ChildLifecycle::Down { incarnation: ev.incarnation, event_pending: false };
        let pending = ChildLifecycle::Down { incarnation: ev.incarnation, event_pending: true };
        lifecycle_changes_one_child(sup.children, id, down, id);
        let disposed = sup.disposed(id, kind, seq);
        if listed(disposed.children, id) {
            lifecycle_changes_one_child(disposed.children, id, pending, id);
        }
    }
}

/// An aborted child of a supervisor is presented as killed: no death of a listed child is reported
/// as cancelled. (The events that manual stops keep are presented when they are kept.)
pub proof fn aborted_children_are_presented_as_killed(
    sup: SupervisionView,
    ev: DeathView,
    work: Seq<DeathView>,
    seq: u64,
    now: Instant,
)
    requires
        listed(sup.children, ev.child_id),
        !sup.awaited_manually(ev),
        sup.decided(ev, work, seq, now).report is Some,
    ensures
        !(sup.decided(ev, work, seq, now).report->0.reason is Cancelled),
        ev.reason is Cancelled ==> sup.decided(ev, work, seq, now).report->0.reason is Kill,
{
}

// ---------------------------------------------------------------------------
// Manual stops
// ---------------------------------------------------------------------------

/// The death that a manual stop leads to is reported once, with the event that was kept when the
/// stop was finished: when the death arrives that event is reported and gone.
pub proof fn manual_stops_are_reported_once(
    sup: SupervisionView,
    id: Seq<char>,
    incarnation: u64,
    kind: ManualStop,
    reason: StopReason,
    seq: u64,
    death: StopReason,
    work: Seq<DeathView>,
    later: u64,
    now: Instant,
)
    requires
        !is_crash(kind, reason),
    ensures
        ({
            let finished = sup.classified(id, incarnation, kind, reason, seq);
            let ev = DeathView { child_id: id, reason: death, incarnation };
            let step = finished.decided(ev, work, later, now);
            &&& finished.awaited_manually(ev)
            &&& step.report == Some(sup.manual_event(id, kind, reason))
            &&& !step.sup.awaited_manually(ev)
        }),
{
}

/// A manual stop whose caller went away is finished by the death that it leads to: the death is
/// classified, dealt with once more, and then reported as it would have been.
pub proof fn abandoned_manual_stops_are_finished(
    sup: SupervisionView,
    ev: DeathView,
    work: Seq<DeathView>,
    seq: u64,
    later: u64,
    now: Instant,
)
    requires
        !sup.awaited_manually(ev),
        sup.unclassified(ev),
        !is_crash(child(sup.children, ev.child_id).lifecycle->Stopping_kind, ev.reason),
    ensures
        ({
            let kind = child(sup.children, ev.child_id).lifecycle->Stopping_kind;
            let first = sup.decided(ev, work, seq, now);
            let second = first.sup.decided(first.work[0], first.work.drop_first(), later, now);
            &&& first.report is None
            &&& first.work[0] == ev
            &&& first.work.drop_first() == work
            &&& second.report == Some(sup.manual_event(ev.child_id, kind, presented(ev.reason)))
        }),
{
    let kind = child(sup.children, ev.child_id).lifecycle->Stopping_kind;
    let first = sup.decided(ev, work, seq, now);
    assert(first.work.drop_first() =~= work);
}

/// A terminated child stays down: no attempt is started, and nothing but the removal is reported,
/// whatever the child died of. A child that crashed while it was being bounced is left to the
/// restart strategy, which charges the budget.
pub proof fn termination_restarts_nothing(
    sup: SupervisionView,
    id: Seq<char>,
    incarnation: u64,
    reason: StopReason,
    seq: u64,
)
    ensures
        sup.classified_attempt(id, ManualStop::Terminate, reason, seq) is None,
        sup.manual_event(id, ManualStop::Terminate, reason).action == SupervisionAction::Removed,
        reason is Failure ==> sup.classified_attempt(id, ManualStop::Bounce, reason, seq) is None
            && sup.classified(id, incarnation, ManualStop::Bounce, reason, seq)
            == (SupervisionView {
            children: with_lifecycle(
                sup.children,
                id,
                ChildLifecycle::Down { incarnation, event_pending: false },
            ),
            ..sup
        }),
{
}

/// A bounced Permanent child is restarted free of charge; every other one stays down.
pub proof fn bounces_restart_permanent_children(
    sup: SupervisionView,
    id: Seq<char>,
    incarnation: u64,
    reason: StopReason,
    seq: u64,
)
    requires
        !(reason is Failure),
        sup.config.strategy != RestartStrategy::SimpleOneForOne,
        listed(sup.children, id),
        sup.restart_fns.contains(id),
        !(child(sup.children, id).lifecycle is Restarting),
    ensures
        ({
            let attempt = sup.classified_attempt(id, ManualStop::Bounce, reason, seq);
            let permanent = child(sup.children, id).spec.restart_type == RestartType::Permanent;
            &&& attempt is Some <==> permanent
            &&& permanent ==> attempt->0.child_id == id && attempt->0.seq == seq
            &&& sup.classified(id, incarnation, ManualStop::Bounce, reason, seq).budget
                == sup.budget
        }),
{
}

/// The spec of a terminated child is kept, unless it is Temporary or the strategy is
/// SimpleOneForOne: the child is listed and down. It can then be restarted, or deleted.
pub proof fn terminated_specs_are_kept(
    sup: SupervisionView,
    id: ActorId,
    incarnation: u64,
    reason: StopReason,
    seq: u64,
)
    requires
        unique(sup.children),
        listed(sup.children, id@),
        !(child(sup.children, id@).lifecycle is Restarting),
        !sup.in_group(id@),
        child(sup.children, id@).spec.restart_type != RestartType::Temporary,
        sup.config.strategy != RestartStrategy::SimpleOneForOne,
    ensures
        ({
            let after = sup.classified(id@, incarnation, ManualStop::Terminate, reason, seq);
            &&& listed(after.children, id@)
            &&& child(after.children, id@).lifecycle is Down
            &&& after.free_spec(id) == Ok::<(), SupervisionError>(())
            &&& sup.restart_fns.contains(id@) ==> after.started(id@, seq) is Some
        }),
{
    let to = ChildLifecycle::Down { incarnation, event_pending: true };
    lifecycle_changes_one_child(sup.children, id@, to, id@);
    lifecycle_keeps_ids(sup.children, id@, to);
}

/// A deleted child is gone: it can be neither restarted nor deleted once more, and its ID is free
/// for a new child, which comes last.
pub proof fn deleted_children_are_gone(
    sup: SupervisionView,
    id: ActorId,
    name: Option<Seq<char>>,
    spec: ChildSpec,
    incarnation: u64,
)
    requires
        unique(sup.children),
        sup.free_spec(id) == Ok::<(), SupervisionError>(()),
    ensures
        ({
            let after = sup.removed(id@);
            let again = after.with_child(id@, name, spec, incarnation);
            &&& !listed(after.children, id@)
            &&& after.free_spec(id) == Err::<(), SupervisionError>(
                SupervisionError::ChildNotFound(id),
            )
            &&& running(again.children, id@)
            &&& again.children.last().id == id@
            &&& unique(again.children)
        }),
{
    let after = sup.removed(id@);
    removal_takes_one_child(sup.children, id@, id@);
    registration_appends(
        after.children,
        ChildView { id: id@, name, spec, lifecycle: ChildLifecycle::Running(incarnation) },
        id@,
    );
}

/// A child can be deleted or restarted only while it is down and no group restart is concerned with
/// it: a live one is reported as running, one in between as restarting.
pub proof fn only_idle_specs_are_free(sup: SupervisionView, id: ActorId)
    ensures
        sup.free_spec(id) is Ok <==> !sup.in_group(id@) && listed(sup.children, id@) && child(
            sup.children,
            id@,
        ).lifecycle is Down,
{
}

// ---------------------------------------------------------------------------
// Progress
// ---------------------------------------------------------------------------

/// How many children are in the middle of a manual stop that nobody has classified.
pub open spec fn stopping_count(children: Seq<ChildView>) -> nat {
    children.filter(|child: ChildView| child.lifecycle is Stopping).len()
}

/// Taking one item out of a list lowers the number of items that a filter keeps by one, if it keeps
/// that item.
proof fn filter_counts_removal<T>(list: Seq<T>, keep: spec_fn(T) -> bool, at: int)
    requires
        0 <= at < list.len(),
    ensures
        list.remove(at).filter(keep).len() == list.filter(keep).len() - if keep(list[at]) {
            1int
        } else {
            0
        },
{
    let front = list.take(at);
    let one = seq![list[at]];
    let back = list.skip(at + 1);
    reveal(Seq::filter);
    assert(list =~= front + one + back);
    assert(list.remove(at) =~= front + back);
    Seq::filter_distributes_over_add(front + one, back, keep);
    Seq::filter_distributes_over_add(front, one, keep);
    Seq::filter_distributes_over_add(front, back, keep);
    assert(one.drop_last() =~= Seq::empty());
    assert(one.drop_last().filter(keep) =~= Seq::empty());
}

/// Changing one item of a list to one that a filter does not keep lowers the number of items that
/// the filter keeps by one, if it kept the item.
proof fn filter_counts_update<T>(list: Seq<T>, keep: spec_fn(T) -> bool, at: int, item: T)
    requires
        0 <= at < list.len(),
        !keep(item),
    ensures
        list.update(at, item).filter(keep).len() == list.filter(keep).len() - if keep(list[at]) {
            1int
        } else {
            0
        },
{
    let updated = list.update(at, item);
    filter_counts_removal(list, keep, at);
    filter_counts_removal(updated, keep, at);
    assert(updated.remove(at) =~= list.remove(at));
}

/// Classifying a manual stop leaves one child less in the middle of one.
proof fn classification_settles_one(
    sup: SupervisionView,
    id: Seq<char>,
    incarnation: u64,
    kind: ManualStop,
    reason: StopReason,
    seq: u64,
)
    requires
        listed(sup.children, id),
        child(sup.children, id).lifecycle is Stopping,
    ensures
        stopping_count(sup.classified(id, incarnation, kind, reason, seq).children)
            < stopping_count(sup.children),
{
    let keep = |child: ChildView| child.lifecycle is Stopping;
    let at = slot(sup.children, id);
    let state = child(sup.children, id);
    assert(ids_of(sup.children)[at] == id);
    let down = ChildLifecycle::Down { incarnation, event_pending: false };
    let pending = ChildLifecycle::Down { incarnation, event_pending: true };
    let next = ChildLifecycle::Restarting { incarnation: state.lifecycle.own(), next: seq };
    filter_counts_update(sup.children, keep, at, ChildView { lifecycle: down, ..state });
    filter_counts_update(sup.children, keep, at, ChildView { lifecycle: pending, ..state });
    filter_counts_update(sup.children, keep, at, ChildView { lifecycle: next, ..state });
    filter_counts_removal(sup.children, keep, at);
    let disposed = sup.disposed(id, kind, seq);
    if !is_crash(kind, reason) {
        if sup.bounces(id, kind) {
            lifecycle_changes_one_child(sup.children, id, next, id);
        } else if sup.prunes(id) {
            let after = disposed.left_down(id, incarnation);
            if listed(disposed.children, id) {
                let again = slot(disposed.children, id);
                assert(ids_of(disposed.children)[again] == id);
                let other = child(disposed.children, id);
                filter_counts_update(
                    disposed.children,
                    keep,
                    again,
                    ChildView { lifecycle: pending, ..other },
                );
            }
        }
    }
}

/// Dealing with deaths comes to an end: every death that is dealt with leaves fewer deaths in all,
/// or as many in all but fewer to deal with next, or as many of both but fewer children in the middle
/// of a manual stop.
pub proof fn dealing_with_deaths_ends(
    sup: SupervisionView,
    ev: DeathView,
    work: Seq<DeathView>,
    seq: u64,
    now: Instant,
)
    ensures
        ({
            let step = sup.decided(ev, work, seq, now);
            let before = work.len() + 1 + sup.queued_triggers.len();
            let after = step.work.len() + step.sup.queued_triggers.len();
            ||| after < before
            ||| after == before && step.work.len() < work.len() + 1
            ||| after == before && step.work.len() == work.len() + 1 && stopping_count(
                step.sup.children,
            ) < stopping_count(sup.children)
        }),
{
    if !sup.awaited_manually(ev) && sup.unclassified(ev) {
        classification_settles_one(
            sup,
            ev.child_id,
            ev.incarnation,
            child(sup.children, ev.child_id).lifecycle->Stopping_kind,
            presented(ev.reason),
            seq,
        );
    }
}

} // verus!
