//! The escalation ladder: how a child is brought down, step by step.
//!
//! A child is signalled once, by its shutdown policy. As long as its fate is not observed within
//! the time that a rung allows, the next rung is climbed: Kill is raised, then the task is
//! aborted, then the child is given up.

use vstd::prelude::*;
use crate::actor::supervision::KILL_GRACE;
use crate::error::SupervisionError;
use crate::time::Duration;
use crate::types::{ActorId, ChildFate, Shutdown, StopReason};

verus! {

/// A rung of the ladder: what the child was told last, while its fate is awaited.
#[derive(Debug, Clone, Copy, PartialEq, Eq, Structural)]
pub enum LadderRung {
    /// The child was asked to stop and has the given time to do so.
    Asked(Duration),
    /// The child was asked to stop and has all the time that it needs.
    AskedForever,
    /// Kill was raised on the child.
    Killed,
    /// The child's task was aborted.
    Aborted,
}

/// What is done when the time of a rung is over and the child's fate is still unknown.
#[derive(Debug, Clone, Copy, PartialEq, Eq, Structural)]
pub enum Escalation {
    /// Raise Kill on the child's stop lane.
    RaiseKill,
    /// Abort the child's task.
    Abort,
    /// Stop waiting: nothing is left that could be done. Only a task that never yields survives an
    /// abort.
    GiveUp,
}

/// The signal that a child is stopped with, by its shutdown policy.
pub open spec fn first_signal(shutdown: Shutdown) -> StopReason {
    match shutdown {
        Shutdown::Kill => StopReason::Kill,
        _ => StopReason::ParentRequest,
    }
}

/// The rung on which a child is after its first signal.
pub open spec fn first_rung(shutdown: Shutdown) -> LadderRung {
    match shutdown {
        Shutdown::Kill => LadderRung::Killed,
        Shutdown::Timeout(after) => LadderRung::Asked(after),
        Shutdown::Infinity => LadderRung::AskedForever,
    }
}

impl LadderRung {
    /// How long the child's fate is awaited on this rung; without a bound, forever.
    pub open spec fn bound(self) -> Option<Duration> {
        match self {
            LadderRung::Asked(after) => Some(after),
            LadderRung::AskedForever => None,
            LadderRung::Killed => Some(Duration { nanos: KILL_GRACE }),
            LadderRung::Aborted => Some(Duration { nanos: KILL_GRACE }),
        }
    }

    /// What is done when the time of this rung is over, or when the child's fate cannot be learnt
    /// any more.
    pub open spec fn then_does(self) -> Escalation {
        match self {
            LadderRung::Asked(_) => Escalation::RaiseKill,
            LadderRung::AskedForever => Escalation::GiveUp,
            LadderRung::Killed => Escalation::Abort,
            LadderRung::Aborted => Escalation::GiveUp,
        }
    }

    /// The rung above this one, if there is one.
    pub open spec fn above(self) -> Option<LadderRung> {
        match self.then_does() {
            Escalation::RaiseKill => Some(LadderRung::Killed),
            Escalation::Abort => Some(LadderRung::Aborted),
            Escalation::GiveUp => None,
        }
    }

    /// How many rungs there are above this one.
    pub open spec fn height(self) -> nat {
        match self {
            LadderRung::Asked(_) => 2,
            LadderRung::AskedForever => 0,
            LadderRung::Killed => 1,
            LadderRung::Aborted => 0,
        }
    }

    /// How long it takes at most, from this rung on, until the child is given up.
    pub open spec fn patience(self) -> Option<int>
        decreases self.height(),
    {
        match (self.bound(), self.above()) {
            (None, _) => None,
            (Some(wait), None) => Some(wait.nanos as int),
            (Some(wait), Some(next)) => match next.patience() {
                Some(rest) => Some(wait.nanos + rest),
                None => None,
            },
        }
    }

    /// The rung on which a child is after its first signal.
    pub fn start(shutdown: Shutdown) -> (rung: LadderRung)
        ensures
            rung == first_rung(shutdown),
    {
        match shutdown {
            Shutdown::Kill => LadderRung::Killed,
            Shutdown::Timeout(after) => LadderRung::Asked(after),
            Shutdown::Infinity => LadderRung::AskedForever,
        }
    }

    /// How long the child's fate is awaited on this rung; without a bound, forever.
    pub fn wait_bound(&self) -> (bound: Option<Duration>)
        ensures
            bound == self.bound(),
    {
        match self {
            LadderRung::Asked(after) => Some(*after),
            LadderRung::AskedForever => None,
            LadderRung::Killed | LadderRung::Aborted => Some(Duration { nanos: KILL_GRACE }),
        }
    }

    /// What is done when the time of this rung is over, and the rung that the child is on then.
    pub fn climb(&self) -> (next: (Escalation, Option<LadderRung>))
        ensures
            next.0 == self.then_does(),
            next.1 == self.above(),
    {
        match self {
            LadderRung::Asked(_) => (Escalation::RaiseKill, Some(LadderRung::Killed)),
            LadderRung::Killed => (Escalation::Abort, Some(LadderRung::Aborted)),
            LadderRung::AskedForever | LadderRung::Aborted => (Escalation::GiveUp, None),
        }
    }
}

/// The signal that a child is stopped with: a function of its shutdown policy alone.
pub fn initial_signal(shutdown: Shutdown) -> (signal: StopReason)
    ensures
        signal == first_signal(shutdown),
{
    match shutdown {
        Shutdown::Kill => StopReason::Kill,
        Shutdown::Timeout(_) | Shutdown::Infinity => StopReason::ParentRequest,
    }
}

/// What a manual stop has to say after the ladder was climbed: the child's fate, or that the child
/// is unresponsive even to an abort.
pub fn ladder_result(id: &ActorId, fate: Option<ChildFate>) -> (result: Result<
    ChildFate,
    SupervisionError,
>)
    ensures
        result == match fate {
            Some(fate) => Ok::<ChildFate, SupervisionError>(fate),
            None => Err::<ChildFate, SupervisionError>(SupervisionError::ChildUnresponsive(*id)),
        },
{
    match fate {
        Some(fate) => Ok(fate),
        None => Err(SupervisionError::ChildUnresponsive(id.clone())),
    }
}

/// How a member of a group is stopped while the supervisor goes on with its work: the signal to
/// raise now, how long after it Kill is raised, and how long after Kill, the first or the second
/// signal, its task is aborted.
#[derive(Debug)]
pub struct GroupStopPlan {
    /// The signal to raise now.
    pub signal: StopReason,
    /// When to raise Kill, counted from now.
    pub kill_after: Option<Duration>,
    /// When to abort the task, counted from Kill.
    pub abort_after: Option<Duration>,
}

/// How a member of a group is stopped, by its shutdown policy.
pub open spec fn group_plan(shutdown: Shutdown) -> GroupStopPlan {
    GroupStopPlan {
        signal: first_signal(shutdown),
        kill_after: match shutdown {
            Shutdown::Timeout(after) => Some(after),
            _ => None,
        },
        abort_after: match shutdown {
            Shutdown::Infinity => None,
            _ => Some(Duration { nanos: KILL_GRACE }),
        },
    }
}

/// How a member of a group is stopped, by its shutdown policy. Raising a signal on a member that
/// has stopped already, and aborting its task, are harmless.
pub fn stop_group_member(shutdown: Shutdown) -> (plan: GroupStopPlan)
    ensures
        plan == group_plan(shutdown),
{
    match shutdown {
        Shutdown::Kill => GroupStopPlan {
            signal: StopReason::Kill,
            kill_after: None,
            abort_after: Some(Duration { nanos: KILL_GRACE }),
        },
        Shutdown::Timeout(after) => GroupStopPlan {
            signal: StopReason::ParentRequest,
            kill_after: Some(after),
            abort_after: Some(Duration { nanos: KILL_GRACE }),
        },
        Shutdown::Infinity => GroupStopPlan {
            signal: StopReason::ParentRequest,
            kill_after: None,
            abort_after: None,
        },
    }
}

/// Bringing a child down is bounded under every policy but `Infinity`: a child that does not
/// react is given up after its own time and two graces, or after two graces where it is killed at
/// once.
pub proof fn ladder_is_bounded(shutdown: Shutdown)
    ensures
        first_rung(shutdown).patience() == match shutdown {
            Shutdown::Kill => Some(2 * KILL_GRACE as int),
            Shutdown::Timeout(after) => Some(after.nanos + 2 * KILL_GRACE),
            Shutdown::Infinity => None::<int>,
        },
{
    assert(LadderRung::Aborted.patience() == Some(KILL_GRACE as int));
    assert(LadderRung::Killed.patience() == Some(2 * KILL_GRACE as int));
}

/// A child that is not killed at once is asked first; Kill comes before the abort, and the abort
/// before the child is given up. A child that has all the time that it needs is asked and nothing
/// else.
pub proof fn ladder_escalates_in_order(shutdown: Shutdown)
    ensures
        first_signal(shutdown) == StopReason::Kill <==> first_rung(shutdown)
            == LadderRung::Killed,
        first_rung(shutdown) != LadderRung::Killed ==> first_signal(shutdown)
            == StopReason::ParentRequest,
        shutdown is Timeout ==> {
            &&& first_rung(shutdown).then_does() == Escalation::RaiseKill
            &&& first_rung(shutdown).above() == Some(LadderRung::Killed)
        },
        shutdown is Infinity ==> {
            &&& first_rung(shutdown).bound() is None
            &&& first_rung(shutdown).then_does() == Escalation::GiveUp
            &&& first_rung(shutdown).above() is None
        },
        LadderRung::Killed.then_does() == Escalation::Abort,
        LadderRung::Killed.above() == Some(LadderRung::Aborted),
        LadderRung::Aborted.then_does() == Escalation::GiveUp,
        LadderRung::Aborted.above() is None,
{
}

/// A child's own policy decides how it is brought down, for every policy: one to be killed is killed at
/// once, one with a time is asked and has exactly that time, and one without a bound is asked and
/// waited for.
pub proof fn policies_decide_on_the_first_rung(shutdown: Shutdown, time: Duration)
    ensures
        shutdown == Shutdown::Timeout(time) <==> first_rung(shutdown) == LadderRung::Asked(time),
        shutdown == Shutdown::Timeout(time) ==> first_rung(shutdown).bound() == Some(time),
        shutdown is Kill <==> first_rung(shutdown) == LadderRung::Killed,
        shutdown is Infinity <==> first_rung(shutdown) == LadderRung::AskedForever,
        shutdown is Kill <==> first_signal(shutdown) is Kill,
        !(shutdown is Kill) <==> first_signal(shutdown) is ParentRequest,
        LadderRung::Killed.bound() == Some(Duration { nanos: KILL_GRACE }),
        LadderRung::Aborted.bound() == Some(Duration { nanos: KILL_GRACE }),
{
}

/// A member of a group is brought down by the same signals and after the same times as a child that is
/// stopped alone: the first signal is the same, Kill comes after the time of the first rung, and the
/// abort after the time of Kill; a member without a bound is asked and nothing else.
pub proof fn groups_are_stopped_as_single_children_are(shutdown: Shutdown)
    ensures
        ({
            let plan = group_plan(shutdown);
            &&& plan.signal == first_signal(shutdown)
            &&& plan.kill_after == if shutdown is Timeout {
                first_rung(shutdown).bound()
            } else {
                None
            }
            &&& plan.abort_after == if shutdown is Infinity {
                None
            } else {
                LadderRung::Killed.bound()
            }
            &&& shutdown is Timeout ==> plan.kill_after == Some(shutdown->Timeout_0)
        }),
{
}

} // verus!
