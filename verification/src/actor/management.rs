//! Manual child management: stopping, terminating, restarting and deleting children by hand, and
//! adding new ones.

use vstd::prelude::*;
use crate::actor::child_events::{present, presented, stops_view, MemberStop};
use crate::actor::lifecycle::{ChildLifecycle, ManualStop};
use crate::actor::registry::{
    child, listed, running, with_lifecycle, ChildSpec, ChildState, ChildView,
};
use crate::actor::supervision::{
    attempt_view, Attempt, GroupPhase, GroupRestartView, GroupView, SupervisionState,
    SupervisionView,
};
use crate::error::{SpawnError, SupervisionError};
use crate::types::{name_text, ActorId, ChildFate, Shutdown};

verus! {

// ---------------------------------------------------------------------------
// Stopping
// ---------------------------------------------------------------------------

/// How a manual stop begins.
#[derive(Debug, Clone, Copy, PartialEq, Eq, Structural)]
pub enum ManualBegin {
    /// The child is down already; nothing is to be done.
    AlreadyDown,
    /// The given incarnation has died on its own; the stop is to be finished with its fate.
    DiedFirst {
        /// The incarnation that died.
        incarnation: u64,
    },
    /// The stop is committed: the given incarnation is to be brought down as the policy says, and
    /// the stop is to be finished with its fate.
    Committed {
        /// The incarnation to bring down.
        incarnation: u64,
        /// The child's shutdown policy.
        shutdown: Shutdown,
    },
}

impl SupervisionView {
    /// Whether a manual stop ends the life of a live child that no group restart is concerned
    /// with.
    pub open spec fn stops_live_child(self, id: Seq<char>) -> bool {
        &&& !self.awaits_death(id)
        &&& !self.in_group(id)
        &&& running(self.children, id)
    }

    /// Whether a manual stop overrides the restart of a child whose death a group restart awaits.
    pub open spec fn overrides_group(self, id: Seq<char>, kind: ManualStop) -> bool {
        &&& self.awaits_death(id)
        &&& kind == ManualStop::Terminate
        &&& listed(self.children, id)
    }

    /// The answer to a manual stop of the given kind. `died` tells whether the fate of the child's
    /// live instance is known already.
    pub open spec fn manual_answer(self, id: ActorId, kind: ManualStop, died: bool) -> Result<
        ManualBegin,
        SupervisionError,
    > {
        let state = child(self.children, id@);
        if self.awaits_death(id@) && kind != ManualStop::Terminate {
            Err(SupervisionError::ChildRestarting(id))
        } else if !self.awaits_death(id@) && self.in_group(id@) {
            Err(SupervisionError::ChildRestarting(id))
        } else if !listed(self.children, id@) {
            Err(SupervisionError::ChildNotFound(id))
        } else if self.awaits_death(id@) {
            Ok(
                ManualBegin::Committed {
                    incarnation: state.lifecycle.own(),
                    shutdown: state.spec.shutdown,
                },
            )
        } else {
            match state.lifecycle {
                ChildLifecycle::Running(incarnation) => if died {
                    Ok(ManualBegin::DiedFirst { incarnation })
                } else {
                    Ok(ManualBegin::Committed { incarnation, shutdown: state.spec.shutdown })
                },
                ChildLifecycle::Down { .. } => Ok(ManualBegin::AlreadyDown),
                _ => Err(SupervisionError::ChildRestarting(id)),
            }
        }
    }

    /// The state after a manual stop of the given kind has begun.
    pub open spec fn manual_begun(self, id: Seq<char>, kind: ManualStop, died: bool) -> SupervisionView {
        let incarnation = child(self.children, id).lifecycle.own();
        if self.overrides_group(id, kind) {
            self.overriding(id)
        } else if self.stops_live_child(id) {
            SupervisionView {
                children: with_lifecycle(
                    self.children,
                    id,
                    if died {
                        ChildLifecycle::Down { incarnation, event_pending: false }
                    } else {
                        ChildLifecycle::Stopping { incarnation, kind }
                    },
                ),
                ..self
            }
        } else {
            self
        }
    }

    /// The state in which the group restart in flight leaves the child down.
    pub open spec fn overriding(self, id: Seq<char>) -> SupervisionView {
        match self.pending_group {
            Some(GroupView::Stopping(group)) => SupervisionView {
                pending_group: Some(
                    GroupView::Stopping(
                        GroupRestartView {
                            manual_overrides: group.manual_overrides.insert(id),
                            ..group
                        },
                    ),
                ),
                ..self
            },
            _ => self,
        }
    }
}

impl SupervisionState {
    /// Begins a manual stop. `died` tells whether the fate of the child's live instance is known
    /// already. A stop that is committed stays so, whatever becomes of the caller.
    pub fn begin_manual_stop(&mut self, id: ActorId, kind: ManualStop, died: bool) -> (answer: Result<
        ManualBegin,
        SupervisionError,
    >)
        ensures
            answer == old(self)@.manual_answer(id, kind, died),
            final(self)@ == old(self)@.manual_begun(id@, kind, died),
    {
        if self.group_stopping_awaiting(&id) {
            if kind != ManualStop::Terminate {
                return Err(SupervisionError::ChildRestarting(id));
            }
            let begun: ManualBegin = match self.registry.get(&id) {
                Some(child) => ManualBegin::Committed {
                    incarnation: child.lifecycle.incarnation(),
                    shutdown: child.spec.shutdown,
                },
                None => {
                    return Err(SupervisionError::ChildNotFound(id));
                },
            };
            if let Some(GroupPhase::Stopping(group)) = &mut self.pending_group {
                group.manual_overrides.insert(id);
            }
            return Ok(begun);
        }
        if self.in_pending_group(&id) {
            return Err(SupervisionError::ChildRestarting(id));
        }
        let (lifecycle, shutdown) = match self.registry.get(&id) {
            Some(child) => (child.lifecycle, child.spec.shutdown),
            None => {
                return Err(SupervisionError::ChildNotFound(id));
            },
        };
        match lifecycle {
            ChildLifecycle::Running(incarnation) => if died {
                self.registry.transition(
                    &id,
                    ChildLifecycle::Down { incarnation, event_pending: false },
                );
                Ok(ManualBegin::DiedFirst { incarnation })
            } else {
                self.registry.transition(&id, ChildLifecycle::Stopping { incarnation, kind });
                Ok(ManualBegin::Committed { incarnation, shutdown })
            },
            ChildLifecycle::Down { .. } => Ok(ManualBegin::AlreadyDown),
            _ => Err(SupervisionError::ChildRestarting(id)),
        }
    }

    /// Finishes a manual stop with the fate of the incarnation that was stopped. An aborted child
    /// is presented as killed. Returns the restart attempt to start, if any.
    pub fn finish_manual_stop(
        &mut self,
        id: &ActorId,
        incarnation: u64,
        kind: ManualStop,
        fate: ChildFate,
        seq: u64,
    ) -> (attempt: Option<Attempt>)
        ensures
            final(self)@ == old(self)@.classified(
                id@,
                incarnation,
                kind,
                presented(fate.reason),
                seq,
            ),
            attempt_view(attempt) == old(self)@.classified_attempt(
                id@,
                kind,
                presented(fate.reason),
                seq,
            ),
    {
        self.classify_manual_completion(id, incarnation, kind, present(fate.reason), seq)
    }
}

// ---------------------------------------------------------------------------
// Restarting and deleting
// ---------------------------------------------------------------------------

impl SupervisionView {
    /// Whether the child's spec is at hand and free: `Ok` for a child that is down and that no
    /// group restart is concerned with.
    pub open spec fn free_spec(self, id: ActorId) -> Result<(), SupervisionError> {
        if self.in_group(id@) {
            Err(SupervisionError::ChildRestarting(id))
        } else if !listed(self.children, id@) {
            Err(SupervisionError::ChildNotFound(id))
        } else {
            match child(self.children, id@).lifecycle {
                ChildLifecycle::Running(_) => Err(SupervisionError::ChildRunning(id)),
                ChildLifecycle::Down { .. } => Ok(()),
                _ => Err(SupervisionError::ChildRestarting(id)),
            }
        }
    }
}

impl SupervisionState {
    /// Whether the child's spec is at hand and free.
    fn check_free(&self, id: &ActorId) -> (answer: Result<(), SupervisionError>)
        ensures
            answer == self@.free_spec(*id),
    {
        if self.in_pending_group(id) {
            return Err(SupervisionError::ChildRestarting(id.clone()));
        }
        match self.registry.get(id) {
            None => Err(SupervisionError::ChildNotFound(id.clone())),
            Some(child) => match child.lifecycle {
                ChildLifecycle::Running(_) => Err(SupervisionError::ChildRunning(id.clone())),
                ChildLifecycle::Down { .. } => Ok(()),
                _ => Err(SupervisionError::ChildRestarting(id.clone())),
            },
        }
    }

    /// Revives a child that is down. Returns the restart attempt to start, if its factory is
    /// stored.
    pub fn restart_child(&mut self, id: ActorId, seq: u64) -> (answer: Result<
        Option<Attempt>,
        SupervisionError,
    >)
        ensures
            match old(self)@.free_spec(id) {
                Ok(_) => {
                    &&& answer is Ok
                    &&& attempt_view(answer->Ok_0) == old(self)@.started(id@, seq)
                    &&& final(self)@ == old(self)@.initiated(id@, seq)
                },
                Err(err) => {
                    &&& answer == Err::<Option<Attempt>, SupervisionError>(err)
                    &&& final(self)@ == old(self)@
                },
            },
    {
        match self.check_free(&id) {
            Ok(_) => {
                let started: bool = self.initiate(&id, seq);
                if started {
                    Ok(Some(Attempt { child_id: id, seq }))
                } else {
                    Ok(None)
                }
            },
            Err(err) => Err(err),
        }
    }

    /// Removes the spec of a child that is down.
    pub fn delete_child(&mut self, id: ActorId) -> (answer: Result<(), SupervisionError>)
        ensures
            answer == old(self)@.free_spec(id),
            final(self)@ == if answer is Ok {
                old(self)@.removed(id@)
            } else {
                old(self)@
            },
    {
        match self.check_free(&id) {
            Ok(_) => {
                self.registry.remove(&id);
                self.restart_fns.remove(&id);
                Ok(())
            },
            Err(err) => Err(err),
        }
    }
}

// ---------------------------------------------------------------------------
// Adding, and bringing all down
// ---------------------------------------------------------------------------

impl SupervisionView {
    /// The state with one more child, live as the given incarnation, whose factory is stored.
    pub open spec fn with_child(
        self,
        id: Seq<char>,
        name: Option<Seq<char>>,
        spec: ChildSpec,
        incarnation: u64,
    ) -> SupervisionView {
        SupervisionView {
            children: self.children.push(
                ChildView { id, name, spec, lifecycle: ChildLifecycle::Running(incarnation) },
            ),
            restart_fns: self.restart_fns.insert(id),
            ..self
        }
    }

    /// The live children, each with its shutdown policy, the one that was started last first.
    pub open spec fn live_reversed(self) -> Seq<(Seq<char>, Shutdown)> {
        self.children.filter(|child: ChildView| child.lifecycle is Running).map_values(
            |child: ChildView| (child.id, child.spec.shutdown),
        ).reverse()
    }

    /// The state of a supervisor that brings its children down.
    pub open spec fn emptied(self) -> SupervisionView {
        SupervisionView {
            children: Seq::empty(),
            restart_fns: Set::empty(),
            pending_group: None,
            queued_triggers: Seq::empty(),
            ..self
        }
    }
}

impl SupervisionState {
    /// Adds a child that has just been spawned, behind those that are there. A child under an ID
    /// that is taken, by a live child or by a spec that was kept, is refused.
    pub fn add_child(
        &mut self,
        id: ActorId,
        name: Option<String>,
        spec: ChildSpec,
        incarnation: u64,
    ) -> (answer: Result<(), SpawnError>)
        ensures
            answer == if listed(old(self)@.children, id@) {
                Err::<(), SpawnError>(SpawnError::DuplicateChild(id))
            } else {
                Ok::<(), SpawnError>(())
            },
            final(self)@ == if answer is Ok {
                old(self)@.with_child(id@, name_text(name), spec, incarnation)
            } else {
                old(self)@
            },
    {
        if self.registry.get(&id).is_some() {
            return Err(SpawnError::DuplicateChild(id));
        }
        self.restart_fns.insert(id.clone());
        self.registry.register(
            ChildState { id, name, spec, lifecycle: ChildLifecycle::Running(incarnation) },
        );
        Ok(())
    }

    /// Empties the supervisor and tells which children to bring down, one after the other: the
    /// live ones, the one that was started last first, each as its shutdown policy says.
    pub fn stop_all_children(&mut self) -> (stops: Vec<MemberStop>)
        ensures
            stops_view(stops@) == old(self)@.live_reversed(),
            final(self)@ == old(self)@.emptied(),
    {
        self.restart_fns.clear();
        self.pending_group = None;
        self.queued_triggers.clear();
        assert(crate::actor::supervision::deaths(self.queued_triggers@) =~= Seq::empty());
        let children: Vec<ChildState> = self.registry.drain_all();
        let ghost views = children@.map_values(|child: ChildState| child@);
        let ghost live = |child: ChildView| child.lifecycle is Running;
        let ghost stop = |child: ChildView| (child.id, child.spec.shutdown);
        let mut stops: Vec<MemberStop> = Vec::new();
        let mut i: usize = children.len();
        proof {
            assert(views.skip(i as int) =~= Seq::empty());
            reveal(Seq::filter);
            assert(stops_view(stops@) =~= views.skip(i as int).filter(live).map_values(
                stop,
            ).reverse());
        }
        while i > 0
            invariant
                i <= children.len(),
                views == children@.map_values(|child: ChildState| child@),
                live == |child: ChildView| child.lifecycle is Running,
                stop == |child: ChildView| (child.id, child.spec.shutdown),
                stops_view(stops@) == views.skip(i as int).filter(live).map_values(stop).reverse(),
            decreases i,
        {
            let ghost before = stops@;
            i -= 1;
            let child: &ChildState = &children[i];
            proof {
                let rest = views.skip(i + 1);
                let one = seq![child@];
                assert(views.skip(i as int) =~= one + rest);
                Seq::filter_distributes_over_add(one, rest, live);
                reveal(Seq::filter);
                assert(one.drop_last() =~= Seq::empty());
                assert(one.drop_last().filter(live) =~= Seq::empty());
                if live(child@) {
                    assert(one.filter(live) =~= one);
                    assert((one + rest.filter(live)).map_values(stop).reverse()
                        =~= rest.filter(live).map_values(stop).reverse().push(stop(child@)));
                } else {
                    assert(one.filter(live) =~= Seq::empty());
                    assert(Seq::empty() + rest.filter(live) =~= rest.filter(live));
                }
            }
            if matches!(child.lifecycle, ChildLifecycle::Running(_)) {
                stops.push(
                    MemberStop { child_id: child.id.clone(), shutdown: child.spec.shutdown },
                );
                assert(stops_view(stops@) =~= stops_view(before).push(
                    (child.id@, child.spec.shutdown),
                ));
            }
        }
        assert(views.skip(0) =~= views);
        stops
    }
}

} // verus!
