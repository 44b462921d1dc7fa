//! What the panics and the ends of tasks are turned into.

use vstd::prelude::*;
use crate::actor::context::{is_panic_with, task_panic};
use crate::error::ActorError;
use crate::types::StopReason;

verus! {

/// The text that is shown for a panic: the one that it carries, or a placeholder where it carries
/// something else.
pub fn payload_into_string(text: Option<String>) -> (shown: String)
    ensures
        match text {
            Some(carried) => shown == carried,
            None => shown@ == "non-string panic payload"@,
        },
{
    match text {
        Some(carried) => carried,
        None => "non-string panic payload".to_owned(),
    }
}

/// How the task of an actor ended.
#[derive(Debug)]
pub enum TaskEnd {
    /// It returned the reason for which the actor stopped.
    Returned(StopReason),
    /// It panicked outside of every callback, with a message if there is one.
    Panicked(Option<String>),
    /// It was aborted.
    Aborted,
}

/// Whether an actor stopped for the given reason, by how its task ended.
pub open spec fn died_of(end: TaskEnd, reason: StopReason) -> bool {
    match end {
        TaskEnd::Returned(given) => reason == given,
        TaskEnd::Panicked(message) => reason is Failure && is_panic_with(
            reason->Failure_0,
            message,
        ),
        TaskEnd::Aborted => reason is Cancelled,
    }
}

/// A task that returned died of the reason that it returned, whatever that is; one that panicked, of
/// that panic; an aborted one was cancelled, and no other one is told to be.
pub proof fn tasks_die_of_what_ended_them(
    end: TaskEnd,
    reason: StopReason,
    given: StopReason,
    message: String,
)
    requires
        died_of(end, reason),
    ensures
        end == TaskEnd::Returned(given) ==> reason == given,
        end == TaskEnd::Panicked(Some(message)) ==> reason == StopReason::Failure(
            ActorError::Panic(message),
        ),
        end is Panicked ==> reason is Failure && reason->Failure_0 is Panic,
        end is Aborted ==> reason is Cancelled,
{
}

/// The reason for which an actor stopped, by how its task ended.
pub fn death_reason(end: TaskEnd) -> (reason: StopReason)
    ensures
        died_of(end, reason),
{
    match end {
        TaskEnd::Returned(given) => given,
        TaskEnd::Panicked(message) => StopReason::Failure(task_panic(message)),
        TaskEnd::Aborted => StopReason::Cancelled,
    }
}

} // verus!
