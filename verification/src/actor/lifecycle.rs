//! The lifecycle of a supervised child.

use vstd::prelude::*;

verus! {

/// How a manual stop was requested, recorded on the child so that its death bypasses strategy
/// evaluation (manual stops are never failures).
#[derive(Debug, Clone, Copy, PartialEq, Eq, Structural)]
pub enum ManualStop {
    /// `stop_child`: restart per policy afterwards, budget-free.
    Bounce,
    /// `terminate_child`: stay down until `restart_child` or `delete_child`.
    Terminate,
}

/// The lifecycle of one child spec inside its supervisor's registry.
#[derive(Debug, Clone, Copy, PartialEq, Eq, Structural)]
pub enum ChildLifecycle {
    /// The child's current incarnation is live and processing messages.
    Running(u64),
    /// A manual stop has been committed and this incarnation's fate is awaited.
    Stopping {
        /// The incarnation that is being stopped.
        incarnation: u64,
        /// What happens once its fate is observed.
        kind: ManualStop,
    },
    /// A restart is in flight.
    Restarting {
        /// The dead instance that this spec last held.
        incarnation: u64,
        /// The token of the fresh instance.
        next: u64,
    },
    /// The spec is retained but no instance is running.
    Down {
        /// The instance that this spec last held.
        incarnation: u64,
        /// Whether the event of a manual stop still waits for this instance's death to arrive.
        event_pending: bool,
    },
}

impl ChildLifecycle {
    /// The incarnation that this state considers its own.
    pub open spec fn own(self) -> u64 {
        match self {
            ChildLifecycle::Running(incarnation) => incarnation,
            ChildLifecycle::Stopping { incarnation, .. } => incarnation,
            ChildLifecycle::Restarting { incarnation, .. } => incarnation,
            ChildLifecycle::Down { incarnation, .. } => incarnation,
        }
    }

    /// Whether a restart is in flight whose fresh instance has the token `seq`.
    pub open spec fn awaits(self, seq: u64) -> bool {
        self is Restarting && self->Restarting_next == seq
    }

    /// Whether a death reported for `incarnation` is one of this child.
    pub open spec fn accepts(self, incarnation: u64) -> bool {
        self.own() == incarnation || self.awaits(incarnation)
    }

    /// Whether a child may move from one state to the other. What is not listed is not allowed.
    pub open spec fn legal(from: ChildLifecycle, to: ChildLifecycle) -> bool {
        match from {
            ChildLifecycle::Running(_) => to is Stopping || to is Down || to is Restarting,
            ChildLifecycle::Stopping { .. } => to is Down || to is Restarting,
            ChildLifecycle::Down { .. } => to is Restarting || to is Down,
            ChildLifecycle::Restarting { .. } => to is Running || to is Down,
        }
    }

    /// The incarnation that this state considers its own: the live one while running, the awaited
    /// one while stopping, the dead one while restarting, the retained one while down.
    pub fn incarnation(&self) -> (incarnation: u64)
        ensures
            incarnation == self.own(),
    {
        match self {
            ChildLifecycle::Running(incarnation) => *incarnation,
            ChildLifecycle::Stopping { incarnation, .. } => *incarnation,
            ChildLifecycle::Restarting { incarnation, .. } => *incarnation,
            ChildLifecycle::Down { incarnation, .. } => *incarnation,
        }
    }

    /// Whether a restart is in flight whose fresh instance has the token `seq`.
    pub fn awaits_attempt(&self, seq: u64) -> (awaited: bool)
        ensures
            awaited == self.awaits(seq),
    {
        match self {
            ChildLifecycle::Restarting { next, .. } => *next == seq,
            _ => false,
        }
    }

    /// True if a death reported for `incarnation` belongs to the instance that this state treats
    /// as live or in flight: its own, or the one that a restart in flight is to bring.
    pub fn accepts_incarnation(&self, incarnation: u64) -> (accepted: bool)
        ensures
            accepted == self.accepts(incarnation),
    {
        self.incarnation() == incarnation || self.awaits_attempt(incarnation)
    }

    /// Whether a child may move from one state to the other.
    pub fn is_legal(from: &ChildLifecycle, to: &ChildLifecycle) -> (allowed: bool)
        ensures
            allowed == ChildLifecycle::legal(*from, *to),
    {
        match (from, to) {
            (ChildLifecycle::Running(_), ChildLifecycle::Stopping { .. }) => true,
            (ChildLifecycle::Running(_), ChildLifecycle::Down { .. }) => true,
            (ChildLifecycle::Running(_), ChildLifecycle::Restarting { .. }) => true,
            (ChildLifecycle::Stopping { .. }, ChildLifecycle::Down { .. }) => true,
            (ChildLifecycle::Stopping { .. }, ChildLifecycle::Restarting { .. }) => true,
            (ChildLifecycle::Down { .. }, ChildLifecycle::Restarting { .. }) => true,
            (ChildLifecycle::Down { .. }, ChildLifecycle::Down { .. }) => true,
            (ChildLifecycle::Restarting { .. }, ChildLifecycle::Running(_)) => true,
            (ChildLifecycle::Restarting { .. }, ChildLifecycle::Down { .. }) => true,
            _ => false,
        }
    }
}

/// The state that a child is in after it was asked to move to `to`.
pub open spec fn moved(from: ChildLifecycle, to: ChildLifecycle) -> ChildLifecycle {
    if ChildLifecycle::legal(from, to) {
        to
    } else {
        from
    }
}

/// Down with the incarnation that the state had, no event pending.
pub open spec fn settled(from: ChildLifecycle) -> ChildLifecycle {
    ChildLifecycle::Down { incarnation: from.own(), event_pending: false }
}

/// A child becomes live only by the completion of a restart in flight: no other state leads to
/// `Running`.
pub proof fn only_a_restart_leads_to_running(from: ChildLifecycle, to: ChildLifecycle)
    requires
        ChildLifecycle::legal(from, to),
        to is Running,
    ensures
        from is Restarting,
{
}

/// A restart in flight is never started a second time, a manual stop is never committed on a
/// child that is not running, and a running child is never made running again.
pub proof fn repeated_moves_are_rejected(from: ChildLifecycle, to: ChildLifecycle)
    ensures
        from is Restarting && to is Restarting ==> !ChildLifecycle::legal(from, to),
        to is Stopping && !(from is Running) ==> !ChildLifecycle::legal(from, to),
        from is Running && to is Running ==> !ChildLifecycle::legal(from, to),
        from is Down && to is Running ==> !ChildLifecycle::legal(from, to),
{
}

/// Every state can be settled to `Down`.
pub proof fn every_state_can_settle(from: ChildLifecycle, incarnation: u64, event_pending: bool)
    ensures
        ChildLifecycle::legal(from, ChildLifecycle::Down { incarnation, event_pending }),
{
}

/// Every state but a restart in flight can begin one; a restart in flight can become live; a live child
/// can be stopped by hand. These, and the moves to `Down`, are all the moves that there are.
pub proof fn lifecycle_moves(from: ChildLifecycle, to: ChildLifecycle)
    ensures
        to is Restarting ==> (ChildLifecycle::legal(from, to) <==> !(from is Restarting)),
        to is Running ==> (ChildLifecycle::legal(from, to) <==> from is Restarting),
        to is Stopping ==> (ChildLifecycle::legal(from, to) <==> from is Running),
        to is Down ==> ChildLifecycle::legal(from, to),
        ChildLifecycle::legal(from, to) ==> moved(from, to) == to,
        !ChildLifecycle::legal(from, to) ==> moved(from, to) == from,
{
}

/// A death is one of a child exactly if it is that of the incarnation that the child is known by, or of
/// the one that its restart in flight is to bring. A child that is settled is down, known by the same
/// incarnation, with no event pending.
pub proof fn incarnations_tell_deaths_apart(incarnation: u64, other: u64, next: u64, kind: ManualStop)
    ensures
        ChildLifecycle::Running(incarnation).accepts(other) <==> other == incarnation,
        (ChildLifecycle::Stopping { incarnation, kind }).accepts(other) <==> other == incarnation,
        (ChildLifecycle::Restarting { incarnation, next }).accepts(other) <==> other == incarnation
            || other == next,
        forall|event_pending: bool|
            (#[trigger] (ChildLifecycle::Down { incarnation, event_pending }).accepts(other))
                <==> other == incarnation,
        (ChildLifecycle::Restarting { incarnation, next }).awaits(other) <==> other == next,
        forall|state: ChildLifecycle| #[trigger] state.awaits(other) ==> state is Restarting,
        forall|state: ChildLifecycle| #[trigger]
            settled(state) == (ChildLifecycle::Down {
                incarnation: state.own(),
                event_pending: false,
            }),
        ChildLifecycle::Running(incarnation).own() == incarnation,
        (ChildLifecycle::Stopping { incarnation, kind }).own() == incarnation,
        (ChildLifecycle::Restarting { incarnation, next }).own() == incarnation,
        forall|event_pending: bool|
            (#[trigger] (ChildLifecycle::Down { incarnation, event_pending }).own()) == incarnation,
{
}

} // verus!
