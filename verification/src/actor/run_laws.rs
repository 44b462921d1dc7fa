//! What holds of the whole life of an actor, whatever happens to it.

use vstd::prelude::*;
use crate::actor::runtime::{
    advanced, callback_error, leaving, reason_after_cleanup, CallbackOutcome, PreStopOutcome,
    RunAction, RunEvent, RunState, RunStep,
};
use crate::error::ActorError;
use crate::types::stop_lane::{severity, StopSeverity};
use crate::types::{ActorStatus, StopReason};

verus! {

/// Where an actor is after the given events, and everything that it has done. It begins with a
/// call of `pre_start`.
pub open spec fn lived(events: Seq<RunEvent>) -> RunStep
    decreases events.len(),
{
    if events.len() == 0 {
        RunStep { state: RunState::PreStart, actions: Seq::empty() }
    } else {
        let before = lived(events.drop_last());
        let step = advanced(before.state, events.last());
        RunStep { state: step.state, actions: before.actions + step.actions }
    }
}

/// Whether one of the actions is of the given kind.
pub open spec fn did(actions: Seq<RunAction>, kind: spec_fn(RunAction) -> bool) -> bool
    decreases actions.len(),
{
    actions.len() > 0 && (kind(actions.last()) || did(actions.drop_last(), kind))
}

/// Whether one of the actions is a call of `on_started`.
pub open spec fn called_on_started(actions: Seq<RunAction>) -> bool {
    did(actions, |action: RunAction| action is CallOnStarted)
}

/// Whether one of the actions is a call of `pre_stop`.
pub open spec fn called_pre_stop(actions: Seq<RunAction>) -> bool {
    did(actions, |action: RunAction| action is CallPreStop)
}

/// Whether one of the actions is a call of `on_stopped`.
pub open spec fn called_on_stopped(actions: Seq<RunAction>) -> bool {
    did(actions, |action: RunAction| action is CallOnStopped)
}

/// Whether the message loop waited for an event.
pub open spec fn looped(actions: Seq<RunAction>) -> bool {
    did(actions, |action: RunAction| action is NextEvent)
}

/// Whether the actor was reported as initialized.
pub open spec fn acked_success(actions: Seq<RunAction>) -> bool {
    did(actions, |action: RunAction| action is AckSuccess)
}

/// Whether the actor's initialization was reported as failed.
pub open spec fn acked_failure(actions: Seq<RunAction>) -> bool {
    did(actions, |action: RunAction| action is AckFailure)
}

/// Whether the children were stopped as their shutdown policies say.
pub open spec fn stopped_children(actions: Seq<RunAction>) -> bool {
    did(actions, |action: RunAction| action is StopChildren)
}

/// Whether the children were dropped.
pub open spec fn dropped_children(actions: Seq<RunAction>) -> bool {
    did(actions, |action: RunAction| action is DropChildren)
}

/// Whether the actor's name and registration were freed.
pub open spec fn unregistered(actions: Seq<RunAction>) -> bool {
    did(actions, |action: RunAction| action is Unregister)
}

/// Whether the actor was published as stopped.
pub open spec fn published_stopped(actions: Seq<RunAction>) -> bool {
    did(actions, |action: RunAction| action == RunAction::SetStatus(ActorStatus::Stopped))
}

/// Whether the actor's task ended.
pub open spec fn exited(actions: Seq<RunAction>) -> bool {
    did(actions, |action: RunAction| action is Exit)
}

/// Two lists of actions hold an action of a kind if one of them does.
proof fn did_either(first: Seq<RunAction>, second: Seq<RunAction>, kind: spec_fn(RunAction) -> bool)
    ensures
        did(first + second, kind) == (did(first, kind) || did(second, kind)),
    decreases second.len(),
{
    if second.len() == 0 {
        assert(first + second =~= first);
    } else {
        assert((first + second).drop_last() =~= first + second.drop_last());
        did_either(first, second.drop_last(), kind);
    }
}

/// What [`did_either`] says, of every kind of action.
proof fn all_kinds(first: Seq<RunAction>, second: Seq<RunAction>)
    ensures
        called_on_started(first + second) == (called_on_started(first) || called_on_started(second)),
        called_pre_stop(first + second) == (called_pre_stop(first) || called_pre_stop(second)),
        called_on_stopped(first + second) == (called_on_stopped(first) || called_on_stopped(second)),
        looped(first + second) == (looped(first) || looped(second)),
        acked_success(first + second) == (acked_success(first) || acked_success(second)),
        acked_failure(first + second) == (acked_failure(first) || acked_failure(second)),
        stopped_children(first + second) == (stopped_children(first) || stopped_children(second)),
        dropped_children(first + second) == (dropped_children(first) || dropped_children(second)),
        unregistered(first + second) == (unregistered(first) || unregistered(second)),
        published_stopped(first + second) == (published_stopped(first) || published_stopped(second)),
        exited(first + second) == (exited(first) || exited(second)),
{
    did_either(first, second, |action: RunAction| action is CallOnStarted);
    did_either(first, second, |action: RunAction| action is CallPreStop);
    did_either(first, second, |action: RunAction| action is CallOnStopped);
    did_either(first, second, |action: RunAction| action is NextEvent);
    did_either(first, second, |action: RunAction| action is AckSuccess);
    did_either(first, second, |action: RunAction| action is AckFailure);
    did_either(first, second, |action: RunAction| action is StopChildren);
    did_either(first, second, |action: RunAction| action is DropChildren);
    did_either(first, second, |action: RunAction| action is Unregister);
    did_either(
        first,
        second,
        |action: RunAction| action == RunAction::SetStatus(ActorStatus::Stopped),
    );
    did_either(first, second, |action: RunAction| action is Exit);
}

/// What an actor that is in the given state has done, and has not done, so far.
spec fn on_record(step: RunStep) -> bool {
    let actions = step.actions;
    let open = !stopped_children(actions) && !dropped_children(actions);
    let here = !unregistered(actions) && !published_stopped(actions) && !exited(actions)
        && !acked_failure(actions);
    match step.state {
        RunState::PreStart => {
            &&& open && here
            &&& !acked_success(actions) && !looped(actions)
            &&& !called_on_started(actions)
            &&& !called_pre_stop(actions) && !called_on_stopped(actions)
        },
        RunState::OnStarted => {
            &&& open && here
            &&& !acked_success(actions) && !looped(actions)
            &&& called_on_started(actions)
            &&& !called_pre_stop(actions) && !called_on_stopped(actions)
        },
        RunState::Looping => {
            &&& open && here
            &&& acked_success(actions) && called_on_started(actions)
            &&& !called_on_stopped(actions)
        },
        RunState::Asking(reason) => {
            &&& open && here
            &&& acked_success(actions) && called_on_started(actions)
            &&& !called_on_stopped(actions)
            &&& reason is Graceful || reason is ParentRequest
        },
        RunState::Cleaning(reason) => {
            &&& open && here
            &&& acked_success(actions) && called_on_started(actions)
            &&& called_on_stopped(actions)
            &&& !(reason is Kill)
        },
        RunState::Closing { reason, init_error } => {
            &&& here
            &&& stopped_children(actions) == !(reason is Kill)
            &&& dropped_children(actions) == (reason is Kill)
            &&& acked_success(actions) == (init_error is None)
            &&& init_error is None ==> called_on_stopped(actions) == !(reason is Kill)
            &&& init_error is None ==> called_on_started(actions)
            &&& init_error is Some ==> {
                &&& reason == StopReason::Failure(init_error->0)
                &&& !looped(actions)
                &&& !called_pre_stop(actions)
                &&& !called_on_stopped(actions)
            }
        },
        RunState::Ended(reason) => {
            &&& unregistered(actions) && published_stopped(actions) && exited(actions)
            &&& stopped_children(actions) == !(reason is Kill)
            &&& dropped_children(actions) == (reason is Kill)
            &&& acked_success(actions) == !acked_failure(actions)
            &&& acked_success(actions) ==> called_on_stopped(actions) == !(reason is Kill)
            &&& acked_success(actions) ==> called_on_started(actions)
            &&& acked_failure(actions) ==> {
                &&& reason is Failure
                &&& !looped(actions)
                &&& !called_pre_stop(actions)
                &&& !called_on_stopped(actions)
            }
        },
    }
}

/// What an actor does in one step, by where it is before and after.
proof fn step_kinds(state: RunState, event: RunEvent)
    ensures
        ({
            let step = advanced(state, event);
            let closes = step.state is Closing && !(state is Closing);
            let ends = step.state is Ended && state is Closing;
            &&& called_on_started(step.actions) == (state is PreStart && step.state is OnStarted)
            &&& called_pre_stop(step.actions) == (state is Looping && step.state is Asking)
            &&& called_on_stopped(step.actions) == (step.state is Cleaning && !(state is Cleaning))
            &&& looped(step.actions) ==> step.state is Looping
            &&& acked_success(step.actions) == (state is OnStarted && step.state is Looping)
            &&& acked_failure(step.actions) == (ends && state->init_error is Some)
            &&& stopped_children(step.actions) == (closes && !(step.state->Closing_reason is Kill))
            &&& dropped_children(step.actions) == (closes && step.state->Closing_reason is Kill)
            &&& unregistered(step.actions) == ends
            &&& published_stopped(step.actions) == ends
            &&& exited(step.actions) == ends
        }),
{
    reveal_with_fuel(did, 6);
}

/// The record is right at every moment of an actor's life.
proof fn record_is_kept(events: Seq<RunEvent>)
    ensures
        on_record(lived(events)),
    decreases events.len(),
{
    if events.len() > 0 {
        let before = lived(events.drop_last());
        record_is_kept(events.drop_last());
        let step = advanced(before.state, events.last());
        all_kinds(before.actions, step.actions);
        step_kinds(before.state, events.last());
    }
}

/// An actor whose initialization is reported as failed was never reported as initialized, never
/// waited for a message, and neither `pre_stop` nor `on_stopped` was called.
pub proof fn failed_init_never_runs(events: Seq<RunEvent>)
    ensures
        acked_failure(lived(events).actions) ==> {
            &&& !acked_success(lived(events).actions)
            &&& !looped(lived(events).actions)
            &&& !called_pre_stop(lived(events).actions)
            &&& !called_on_stopped(lived(events).actions)
        },
{
    record_is_kept(events);
}

/// The message loop is entered only after both hooks of the initialization were called and the
/// actor was reported as initialized.
pub proof fn loop_follows_init(events: Seq<RunEvent>)
    ensures
        looped(lived(events).actions) ==> {
            &&& called_on_started(lived(events).actions)
            &&& acked_success(lived(events).actions)
        },
{
    record_is_kept(events);
}

/// Whoever spawned an actor is told once how its initialization went: never both ways, and in one
/// of the two once the actor has ended.
pub proof fn init_is_acked_once(events: Seq<RunEvent>)
    ensures
        !(acked_success(lived(events).actions) && acked_failure(lived(events).actions)),
        lived(events).state is Ended ==> acked_success(lived(events).actions) || acked_failure(
            lived(events).actions,
        ),
{
    record_is_kept(events);
}

/// Kill bypasses every hook: an actor that ends as killed never ran `on_stopped`, and its children
/// are dropped, not stopped one by one.
pub proof fn kill_bypasses_hooks(events: Seq<RunEvent>)
    ensures
        lived(events).state == RunState::Ended(StopReason::Kill) ==> {
            &&& !called_on_stopped(lived(events).actions)
            &&& dropped_children(lived(events).actions)
            &&& !stopped_children(lived(events).actions)
        },
{
    record_is_kept(events);
}

/// An actor that was initialized and ends for any other reason ran `on_stopped` and stopped its
/// children as their shutdown policies say; one whose initialization failed stopped its children
/// too.
pub proof fn every_other_end_cleans_up(events: Seq<RunEvent>, reason: StopReason)
    requires
        lived(events).state == RunState::Ended(reason),
        !(reason is Kill),
    ensures
        acked_success(lived(events).actions) ==> called_on_stopped(lived(events).actions),
        stopped_children(lived(events).actions),
        !dropped_children(lived(events).actions),
{
    record_is_kept(events);
}

/// An actor's name is free before the actor is published as stopped, and before its failed
/// initialization is reported: whoever learns of either can use the name at once.
pub proof fn name_is_free_before_the_end_shows(events: Seq<RunEvent>, i: int)
    requires
        0 <= i < lived(events).actions.len(),
        lived(events).actions[i] is AckFailure || lived(events).actions[i] is Exit
            || lived(events).actions[i] == RunAction::SetStatus(ActorStatus::Stopped),
    ensures
        unregistered(lived(events).actions.take(i)),
    decreases events.len(),
{
    let before = lived(events.drop_last());
    let step = advanced(before.state, events.last());
    let actions = lived(events).actions;
    if i < before.actions.len() {
        name_is_free_before_the_end_shows(events.drop_last(), i);
        assert(actions.take(i) =~= before.actions.take(i));
    } else {
        let j = i - before.actions.len();
        let earlier = step.actions.take(j);
        assert(actions.take(i) =~= before.actions + earlier);
        did_either(before.actions, earlier, |action: RunAction| action is Unregister);
        assert(step.actions[j] == actions[i]);
        assert(j > 0 && step.actions[0] is Unregister);
        assert(earlier =~= seq![step.actions[0]] + step.actions.subrange(1, j));
        did_either(
            seq![step.actions[0]],
            step.actions.subrange(1, j),
            |action: RunAction| action is Unregister,
        );
        reveal_with_fuel(did, 2);
    }
}

/// How many of the actions are calls of `on_stopped`.
pub open spec fn on_stopped_calls(actions: Seq<RunAction>) -> nat {
    actions.filter(|action: RunAction| action is CallOnStopped).len()
}

/// A step calls `on_stopped` last, if at all, and only when the actor leaves its message loop.
proof fn step_calls_on_stopped_last(state: RunState, event: RunEvent)
    ensures
        advanced(state, event).actions.len() > 0 ==> !called_on_stopped(
            advanced(state, event).actions.drop_last(),
        ),
        called_on_stopped(advanced(state, event).actions) ==> state is Looping || state is Asking,
{
    reveal_with_fuel(did, 6);
}

/// `on_stopped` is called at most once in an actor's life.
pub proof fn on_stopped_is_called_at_most_once(events: Seq<RunEvent>)
    ensures
        on_stopped_calls(lived(events).actions) <= 1,
    decreases events.len(),
{
    if events.len() > 0 {
        let before = lived(events.drop_last());
        let step = advanced(before.state, events.last());
        on_stopped_is_called_at_most_once(events.drop_last());
        record_is_kept(events.drop_last());
        step_calls_on_stopped_last(before.state, events.last());
        Seq::filter_distributes_over_add(
            before.actions,
            step.actions,
            |action: RunAction| action is CallOnStopped,
        );
        calls_are_counted(before.actions);
        calls_are_counted(step.actions);
    } else {
        calls_are_counted(lived(events).actions);
    }
}

/// A list of actions of which the last is the only one that may be a call of `on_stopped` counts
/// at most one such call.
proof fn calls_are_counted(actions: Seq<RunAction>)
    ensures
        !called_on_stopped(actions) ==> on_stopped_calls(actions) == 0,
        actions.len() == 0 || !called_on_stopped(actions.drop_last()) ==> on_stopped_calls(actions)
            <= 1,
    decreases actions.len(),
{
    reveal(Seq::filter);
    if actions.len() > 0 {
        calls_are_counted(actions.drop_last());
    }
}

/// An actor that has ended does nothing any more.
pub proof fn the_end_is_final(reason: StopReason, event: RunEvent)
    ensures
        advanced(RunState::Ended(reason), event).state == RunState::Ended(reason),
        advanced(RunState::Ended(reason), event).actions.len() == 0,
{
}

/// A panic of `on_stopped` never masks the failure that the actor stops for.
pub proof fn cleanup_panic_masks_no_failure(err: ActorError, message: String)
    ensures
        reason_after_cleanup(StopReason::Failure(err), CallbackOutcome::Panicked(message))
            == StopReason::Failure(err),
{
}

/// A forced stop is not vetoable: `pre_stop` is asked about graceful stops and requests of the
/// parent only.
pub proof fn forced_stops_are_not_vetoable(reason: StopReason)
    requires
        !(reason is Graceful),
        !(reason is ParentRequest),
    ensures
        advanced(RunState::Looping, RunEvent::LaneChanged(Some(reason))) == leaving(reason),
        !called_pre_stop(leaving(reason).actions),
{
    reveal_with_fuel(did, 4);
}

/// A vetoed stop leaves the actor in its message loop, where the next request asks `pre_stop`
/// again.
pub proof fn a_veto_is_asked_again(reason: StopReason, again: StopReason)
    requires
        again is Graceful || again is ParentRequest,
    ensures
        ({
            let vetoed = advanced(
                RunState::Asking(reason),
                RunEvent::Answered(PreStopOutcome::Vetoed),
            );
            &&& vetoed.state == RunState::Looping
            &&& advanced(vetoed.state, RunEvent::LaneChanged(Some(again))).actions
                == seq![RunAction::CallPreStop(again)]
        }),
{
}

// ---------------------------------------------------------------------------
// Initialization
// ---------------------------------------------------------------------------

/// Whether `pre_start`, and after it `on_started`, returned `Ok` in the course of the given events.
pub open spec fn hooks_succeeded(events: Seq<RunEvent>) -> bool {
    exists|i: int, j: int|
        {
            &&& 0 <= i < j < events.len()
            &&& #[trigger] lived(events.take(i)).state is PreStart
            &&& events[i] == RunEvent::Returned(CallbackOutcome::Done)
            &&& #[trigger] lived(events.take(j)).state is OnStarted
            &&& events[j] == RunEvent::Returned(CallbackOutcome::Done)
        }
}

/// Whether the event at the given place is the end of `pre_start` or of `on_started`, which failed
/// with the given error: the one that it returned, or the panic of the hook.
pub open spec fn hook_failed_at(events: Seq<RunEvent>, i: int, err: ActorError) -> bool {
    &&& 0 <= i < events.len()
    &&& lived(events.take(i)).state is PreStart || lived(events.take(i)).state is OnStarted
    &&& events[i] is Returned
    &&& callback_error(events[i]->Returned_0) == Some(err)
}

/// Whether `pre_start` or `on_started` failed with the given error in the course of the given events.
pub open spec fn hook_failed(events: Seq<RunEvent>, err: ActorError) -> bool {
    exists|i: int| hook_failed_at(events, i, err)
}

/// Whether the actor's initialization was reported as failed with the given error.
pub open spec fn acked_failure_with(actions: Seq<RunAction>, err: ActorError) -> bool {
    actions.contains(RunAction::AckFailure(err))
}

/// An action that is there was done.
proof fn contained_was_done(
    actions: Seq<RunAction>,
    action: RunAction,
    kind: spec_fn(RunAction) -> bool,
)
    requires
        actions.contains(action),
        kind(action),
    ensures
        did(actions, kind),
    decreases actions.len(),
{
    if actions.last() != action {
        let i = actions.index_of(action);
        assert(actions.drop_last()[i] == action);
        contained_was_done(actions.drop_last(), action, kind);
    }
}

/// What happened before the last event happened in the course of all of them.
proof fn earlier_events_count(events: Seq<RunEvent>)
    requires
        events.len() > 0,
    ensures
        hooks_succeeded(events.drop_last()) ==> hooks_succeeded(events),
        forall|err: ActorError|
            hook_failed(events.drop_last(), err) ==> #[trigger] hook_failed(events, err),
{
    let earlier = events.drop_last();
    if hooks_succeeded(earlier) {
        let (i, j) = choose|i: int, j: int|
            {
                &&& 0 <= i < j < earlier.len()
                &&& #[trigger] lived(earlier.take(i)).state is PreStart
                &&& earlier[i] == RunEvent::Returned(CallbackOutcome::Done)
                &&& #[trigger] lived(earlier.take(j)).state is OnStarted
                &&& earlier[j] == RunEvent::Returned(CallbackOutcome::Done)
            };
        assert(events.take(i) =~= earlier.take(i));
        assert(events.take(j) =~= earlier.take(j));
        assert(lived(events.take(i)).state is PreStart && lived(events.take(j)).state is OnStarted);
    }
    assert forall|err: ActorError| hook_failed(earlier, err) implies #[trigger] hook_failed(
        events,
        err,
    ) by {
        let i = choose|i: int| hook_failed_at(earlier, i, err);
        assert(events.take(i) =~= earlier.take(i));
        assert(hook_failed_at(events, i, err));
    }
}

/// `on_started` runs only after `pre_start` returned `Ok`.
proof fn on_started_follows_pre_start(events: Seq<RunEvent>)
    ensures
        lived(events).state is OnStarted ==> exists|i: int|
            {
                &&& 0 <= i < events.len()
                &&& #[trigger] lived(events.take(i)).state is PreStart
                &&& events[i] == RunEvent::Returned(CallbackOutcome::Done)
            },
    decreases events.len(),
{
    if events.len() > 0 && lived(events).state is OnStarted {
        let earlier = events.drop_last();
        let n = events.len() - 1;
        on_started_follows_pre_start(earlier);
        assert(events.take(n) =~= earlier);
        if lived(earlier).state is OnStarted {
            let i = choose|i: int|
                {
                    &&& 0 <= i < earlier.len()
                    &&& #[trigger] lived(earlier.take(i)).state is PreStart
                    &&& earlier[i] == RunEvent::Returned(CallbackOutcome::Done)
                };
            assert(events.take(i) =~= earlier.take(i));
            assert(lived(events.take(i)).state is PreStart);
        } else {
            assert(lived(events.take(n)).state is PreStart);
        }
    }
}

/// An actor is reported as initialized only after `pre_start` and then `on_started` returned `Ok`.
pub proof fn success_is_acked_after_both_hooks(events: Seq<RunEvent>)
    ensures
        acked_success(lived(events).actions) ==> hooks_succeeded(events),
    decreases events.len(),
{
    if events.len() > 0 && acked_success(lived(events).actions) {
        let earlier = events.drop_last();
        let before = lived(earlier);
        let step = advanced(before.state, events.last());
        success_is_acked_after_both_hooks(earlier);
        all_kinds(before.actions, step.actions);
        earlier_events_count(events);
        if !acked_success(before.actions) {
            step_kinds(before.state, events.last());
            let n = events.len() - 1;
            on_started_follows_pre_start(earlier);
            let i = choose|i: int|
                {
                    &&& 0 <= i < earlier.len()
                    &&& #[trigger] lived(earlier.take(i)).state is PreStart
                    &&& earlier[i] == RunEvent::Returned(CallbackOutcome::Done)
                };
            assert(events.take(i) =~= earlier.take(i));
            assert(events.take(n) =~= earlier);
            assert(lived(events.take(i)).state is PreStart && lived(
                events.take(n),
            ).state is OnStarted);
        }
    }
}

/// The initialization of an actor is reported as failed only with the error that one of its hooks
/// failed with.
pub proof fn failure_is_acked_with_the_error_of_a_hook(events: Seq<RunEvent>, err: ActorError)
    ensures
        acked_failure_with(lived(events).actions, err) ==> hook_failed(events, err),
        lived(events).state is Closing && lived(events).state->init_error == Some(err)
            ==> hook_failed(events, err),
    decreases events.len(),
{
    if events.len() > 0 {
        let earlier = events.drop_last();
        let before = lived(earlier);
        let step = advanced(before.state, events.last());
        let n = events.len() - 1;
        failure_is_acked_with_the_error_of_a_hook(earlier, err);
        earlier_events_count(events);
        assert(events.take(n) =~= earlier);
        if acked_failure_with(lived(events).actions, err) && !acked_failure_with(
            before.actions,
            err,
        ) {
            let k = lived(events).actions.index_of(RunAction::AckFailure(err));
            assert(k >= before.actions.len()) by {
                if k < before.actions.len() {
                    assert(before.actions[k] == RunAction::AckFailure(err));
                }
            }
            assert(step.actions[k - before.actions.len()] == RunAction::AckFailure(err));
        }
        if step.state is Closing && step.state->init_error == Some(err) && !(before.state is Closing) {
            assert(hook_failed_at(events, n, err));
        }
    }
}

/// An actor one of whose hooks failed during its initialization is never reported as initialized, and
/// its failure is reported with no other error.
pub proof fn failed_hooks_are_acked_as_such(events: Seq<RunEvent>, err: ActorError)
    requires
        hook_failed(events, err),
    ensures
        !acked_success(lived(events).actions),
        forall|other: ActorError|
            acked_failure_with(lived(events).actions, other) ==> other == err,
        lived(events).state is Closing && lived(events).state->init_error == Some(err)
            || lived(events).state is Ended,
    decreases events.len(),
{
    let i = choose|i: int| hook_failed_at(events, i, err);
    let earlier = events.drop_last();
    let before = lived(earlier);
    let step = advanced(before.state, events.last());
    let actions = lived(events).actions;
    all_kinds(before.actions, step.actions);
    step_kinds(before.state, events.last());
    if i == events.len() - 1 {
        assert(events.take(i) =~= earlier);
        record_is_kept(earlier);
        assert forall|other: ActorError| acked_failure_with(actions, other) implies other == err by {
            contained_was_done(
                actions,
                RunAction::AckFailure(other),
                |action: RunAction| action is AckFailure,
            );
        }
    } else {
        assert(earlier.take(i) =~= events.take(i));
        assert(hook_failed_at(earlier, i, err));
        failed_hooks_are_acked_as_such(earlier, err);
        assert forall|other: ActorError| acked_failure_with(actions, other) implies other == err by {
            let k = actions.index_of(RunAction::AckFailure(other));
            if k < before.actions.len() {
                assert(before.actions[k] == RunAction::AckFailure(other));
                assert(acked_failure_with(before.actions, other));
            } else {
                assert(step.actions[k - before.actions.len()] == RunAction::AckFailure(other));
            }
        }
    }
}

/// An actor that was not reported as initialized never ran `on_stopped`.
pub proof fn uninitialized_actors_never_clean_up(events: Seq<RunEvent>)
    ensures
        !acked_success(lived(events).actions) ==> !called_on_stopped(lived(events).actions),
{
    record_is_kept(events);
}

/// An actor whose initialization was reported as failed had given its name back before.
pub proof fn failed_actors_are_unregistered(events: Seq<RunEvent>, err: ActorError)
    requires
        acked_failure_with(lived(events).actions, err),
    ensures
        unregistered(lived(events).actions),
        acked_failure(lived(events).actions),
{
    let actions = lived(events).actions;
    let i = actions.index_of(RunAction::AckFailure(err));
    name_is_free_before_the_end_shows(events, i);
    assert(actions =~= actions.take(i) + actions.skip(i));
    did_either(actions.take(i), actions.skip(i), |action: RunAction| action is Unregister);
    contained_was_done(
        actions,
        RunAction::AckFailure(err),
        |action: RunAction| action is AckFailure,
    );
}

// ---------------------------------------------------------------------------
// Single steps
// ---------------------------------------------------------------------------

/// A list of at most four actions holds an action exactly if it is one of the four.
proof fn few_actions(actions: Seq<RunAction>, action: RunAction)
    requires
        actions.len() <= 4,
    ensures
        actions.contains(action) <==> {
            ||| actions.len() > 0 && actions[0] == action
            ||| actions.len() > 1 && actions[1] == action
            ||| actions.len() > 2 && actions[2] == action
            ||| actions.len() > 3 && actions[3] == action
        },
{
    if actions.contains(action) {
        let i = actions.index_of(action);
        assert(0 <= i < 4);
    }
}

/// No step has more than four actions.
proof fn steps_are_short(state: RunState, event: RunEvent)
    ensures
        advanced(state, event).actions.len() <= 4,
{
}

/// `pre_stop` is asked exactly about graceful stops and requests of the parent that the stop lane
/// brings to an actor in its message loop, and about the very reason that was raised; the actor then
/// waits for the answer.
pub proof fn pre_stop_is_asked_about_what_was_raised(
    state: RunState,
    event: RunEvent,
    reason: StopReason,
)
    ensures
        advanced(state, event).actions.contains(RunAction::CallPreStop(reason)) <==> {
            &&& state is Looping
            &&& event == RunEvent::LaneChanged(Some(reason))
            &&& reason is Graceful || reason is ParentRequest
        },
        advanced(state, event).actions.contains(RunAction::CallPreStop(reason)) ==> advanced(
            state,
            event,
        ).state == RunState::Asking(reason),
{
    steps_are_short(state, event);
    few_actions(advanced(state, event).actions, RunAction::CallPreStop(reason));
}

/// `on_stopped` is called exactly when an actor leaves its message loop for a reason other than Kill,
/// and with that very reason: the one that was raised, where it is forced; the one that `pre_stop`
/// allowed; the panic of `pre_stop`; the one that handling a message or an event of the children gave;
/// or a graceful one, where nobody can reach the actor any more.
pub proof fn on_stopped_is_called_with_the_reason(
    state: RunState,
    event: RunEvent,
    reason: StopReason,
)
    ensures
        advanced(state, event).actions.contains(RunAction::CallOnStopped(reason)) <==> !(reason is Kill)
            && {
            ||| state is Looping && event == RunEvent::Handled(Some(reason))
            ||| state is Looping && event is Unreachable && reason is Graceful
            ||| state is Looping && event == RunEvent::LaneChanged(Some(reason)) && (reason is Failure
                || reason is Cancelled)
            ||| state == RunState::Asking(reason) && event == RunEvent::Answered(
                PreStopOutcome::Allowed,
            )
            ||| state is Asking && event is Answered && event->Answered_0 is Panicked && reason
                == StopReason::Failure(ActorError::Panic(event->Answered_0->Panicked_0))
        },
        advanced(state, event).actions.contains(RunAction::CallOnStopped(reason)) ==> advanced(
            state,
            event,
        ).state == RunState::Cleaning(reason),
{
    steps_are_short(state, event);
    few_actions(advanced(state, event).actions, RunAction::CallOnStopped(reason));
}

/// A killed actor brings nothing to an end but itself: it closes its intake and drops its children,
/// and no hook is called.
pub proof fn kill_takes_effect_at_once(event: RunEvent)
    requires
        event == RunEvent::LaneChanged(Some(StopReason::Kill)) || event == RunEvent::Handled(
            Some(StopReason::Kill),
        ),
    ensures
        ({
            let step = advanced(RunState::Looping, event);
            &&& step.state == (RunState::Closing { reason: StopReason::Kill, init_error: None })
            &&& step.actions.len() == 2
            &&& step.actions[0] is CloseIntake
            &&& step.actions[1] is DropChildren
        }),
{
}

/// An actor whose initialization fails keeps the error as its last one, closes its intake, stops its
/// children as their policies say, and is to end as failed with that error, for every error and for a
/// panic alike.
pub proof fn failed_hooks_bring_the_actor_down(
    state: RunState,
    outcome: CallbackOutcome,
    err: ActorError,
)
    requires
        state is PreStart || state is OnStarted,
        outcome == CallbackOutcome::Failed(err) || (outcome is Panicked && err == ActorError::Panic(
            outcome->Panicked_0,
        )),
    ensures
        ({
            let step = advanced(state, RunEvent::Returned(outcome));
            &&& step.state == (RunState::Closing {
                reason: StopReason::Failure(err),
                init_error: Some(err),
            })
            &&& step.actions.len() == 3
            &&& step.actions[0] == RunAction::RecordFailure(err)
            &&& step.actions[1] is CloseIntake
            &&& step.actions[2] is StopChildren
        }),
{
}

/// An actor is initialized by both hooks, `pre_start` first: then it is published as running, reported
/// as initialized, and waits for its first event, in this order.
pub proof fn both_hooks_initialize_the_actor()
    ensures
        ({
            let done = RunEvent::Returned(CallbackOutcome::Done);
            let first = advanced(RunState::PreStart, done);
            let second = advanced(first.state, done);
            &&& first.actions.len() == 1 && first.actions[0] is CallOnStarted
            &&& second.state is Looping
            &&& second.actions.len() == 3
            &&& second.actions[0] == RunAction::SetStatus(ActorStatus::Running)
            &&& second.actions[1] is AckSuccess
            &&& second.actions[2] is NextEvent
        }),
{
}

/// What `on_stopped` returns decides what an actor ends with: the reason that it was called with
/// where it returns `Ok`, its error where it returns one, and its panic unless that would mask a
/// failure. The actor closes its intake and stops its children first; only a panic of `on_stopped` is
/// kept as its last error.
pub proof fn cleanup_decides_the_end(reason: StopReason, err: ActorError, message: String)
    requires
        !(reason is Kill),
    ensures
        ({
            let done = advanced(
                RunState::Cleaning(reason),
                RunEvent::Returned(CallbackOutcome::Done),
            );
            let failed = advanced(
                RunState::Cleaning(reason),
                RunEvent::Returned(CallbackOutcome::Failed(err)),
            );
            let panicked = advanced(
                RunState::Cleaning(reason),
                RunEvent::Returned(CallbackOutcome::Panicked(message)),
            );
            &&& done.state == (RunState::Closing { reason, init_error: None })
            &&& failed.state == (RunState::Closing {
                reason: StopReason::Failure(err),
                init_error: None,
            })
            &&& reason is Failure ==> panicked.state == (RunState::Closing {
                reason,
                init_error: None,
            })
            &&& !(reason is Failure) ==> panicked.state == (RunState::Closing {
                reason: StopReason::Failure(ActorError::Panic(message)),
                init_error: None,
            })
            &&& done.actions.len() == 2
            &&& done.actions[0] is CloseIntake && done.actions[1] is StopChildren
            &&& failed.actions.len() == 2
            &&& failed.actions[0] is CloseIntake && failed.actions[1] is StopChildren
            &&& panicked.actions.len() == 3
            &&& panicked.actions[0] == RunAction::RecordFailure(ActorError::Panic(message))
            &&& panicked.actions[1] is CloseIntake && panicked.actions[2] is StopChildren
        }),
{
}

/// Once its children are gone an actor gives its name back, is published as stopped, reports the
/// error that its initialization failed with, if it did, and ends with the reason that it was to end
/// with, in this order.
pub proof fn actors_end_in_order(reason: StopReason, init_error: Option<ActorError>)
    ensures
        ({
            let step = advanced(RunState::Closing { reason, init_error }, RunEvent::ChildrenGone);
            let n = step.actions.len();
            &&& step.state == RunState::Ended(reason)
            &&& n == if init_error is Some {
                4int
            } else {
                3
            }
            &&& step.actions[0] is Unregister
            &&& step.actions[1] == RunAction::SetStatus(ActorStatus::Stopped)
            &&& init_error is Some ==> step.actions[2] == RunAction::AckFailure(init_error->0)
            &&& step.actions[n - 1] == RunAction::Exit(reason)
        }),
{
}

/// An actor goes on with its message loop after whatever does not stop it: a lane without a request, a
/// vetoed stop, a message or an event that was handled, and a request for its status, which is
/// answered. It waits for the next event each time.
pub proof fn the_loop_goes_on(reason: StopReason)
    ensures
        ({
            let unraised = advanced(RunState::Looping, RunEvent::LaneChanged(None));
            let handled = advanced(RunState::Looping, RunEvent::Handled(None));
            let vetoed = advanced(
                RunState::Asking(reason),
                RunEvent::Answered(PreStopOutcome::Vetoed),
            );
            let asked = advanced(RunState::Looping, RunEvent::StatusRequested);
            &&& unraised.state is Looping && unraised.actions == seq![RunAction::NextEvent]
            &&& handled.state is Looping && handled.actions == seq![RunAction::NextEvent]
            &&& vetoed.state is Looping && vetoed.actions == seq![RunAction::NextEvent]
            &&& asked.state is Looping && asked.actions == seq![
                RunAction::ReplyStatus,
                RunAction::NextEvent,
            ]
        }),
{
}

/// What an actor does not wait for changes nothing: the end of a hook that is not running, an answer
/// of `pre_stop` that was not asked, an event of the message loop outside of it, and the end of
/// children that it is not bringing down.
pub proof fn unexpected_events_change_nothing(state: RunState, event: RunEvent)
    requires
        match event {
            RunEvent::Returned(_) => state is Looping || state is Asking || state is Closing
                || state is Ended,
            RunEvent::Answered(_) => !(state is Asking),
            RunEvent::ChildrenGone => !(state is Closing),
            _ => !(state is Looping),
        },
    ensures
        advanced(state, event).state == state,
        advanced(state, event).actions.len() == 0,
{
}

/// What is published of an actor: that it runs, exactly when its initialization is done; that it
/// stops, exactly when `on_stopped` is called; that it has stopped, exactly when it ends.
pub proof fn statuses_follow_the_life(state: RunState, event: RunEvent, status: ActorStatus)
    ensures
        ({
            let step = advanced(state, event);
            step.actions.contains(RunAction::SetStatus(status)) <==> {
                ||| status == ActorStatus::Running && state is OnStarted && step.state is Looping
                ||| status == ActorStatus::Stopping && step.state is Cleaning && !(state is Cleaning)
                ||| status == ActorStatus::Stopped && step.state is Ended && !(state is Ended)
            }
        }),
{
    steps_are_short(state, event);
    few_actions(advanced(state, event).actions, RunAction::SetStatus(status));
}

// ---------------------------------------------------------------------------
// The reason of the end
// ---------------------------------------------------------------------------

/// What an actor does about the event at the given place.
pub open spec fn done_at(events: Seq<RunEvent>, i: int) -> Seq<RunAction> {
    advanced(lived(events.take(i)).state, events[i]).actions
}

/// An actor's task ends with a reason exactly if the actor has ended with that reason.
pub proof fn exits_carry_the_reason(events: Seq<RunEvent>, reason: StopReason)
    ensures
        lived(events).actions.contains(RunAction::Exit(reason)) <==> lived(events).state
            == RunState::Ended(reason),
    decreases events.len(),
{
    if events.len() > 0 {
        let before = lived(events.drop_last());
        let step = advanced(before.state, events.last());
        let all = lived(events).actions;
        let exit = RunAction::Exit(reason);
        exits_carry_the_reason(events.drop_last(), reason);
        steps_are_short(before.state, events.last());
        few_actions(step.actions, exit);
        assert(all.contains(exit) <==> before.actions.contains(exit) || step.actions.contains(exit))
            by {
            if before.actions.contains(exit) {
                let i = before.actions.index_of(exit);
                assert(all[i] == exit);
            }
            if step.actions.contains(exit) {
                let i = step.actions.index_of(exit);
                assert(all[before.actions.len() + i] == exit);
            }
            if all.contains(exit) {
                let i = all.index_of(exit);
                if i < before.actions.len() {
                    assert(before.actions[i] == exit);
                } else {
                    assert(step.actions[i - before.actions.len()] == exit);
                }
            }
        }
    }
}

/// An actor that is to end with a reason ends with that reason and no other, whatever happens.
pub proof fn the_end_is_settled(events: Seq<RunEvent>, i: int, reason: StopReason)
    requires
        0 <= i <= events.len(),
        lived(events.take(i)).state is Closing,
        lived(events.take(i)).state->Closing_reason == reason,
    ensures
        lived(events).state == lived(events.take(i)).state || lived(events).state
            == RunState::Ended(reason),
    decreases events.len() - i,
{
    if i == events.len() {
        assert(events.take(i) =~= events);
    } else {
        let next = events.take(i + 1);
        assert(next.drop_last() =~= events.take(i));
        assert(next.last() == events[i]);
        if lived(next).state is Ended {
            ended_stays_ended(events, i + 1, reason);
        } else {
            the_end_is_settled(events, i + 1, reason);
        }
    }
}

/// An actor that has ended stays so.
proof fn ended_stays_ended(events: Seq<RunEvent>, i: int, reason: StopReason)
    requires
        0 <= i <= events.len(),
        lived(events.take(i)).state == RunState::Ended(reason),
    ensures
        lived(events).state == RunState::Ended(reason),
    decreases events.len() - i,
{
    if i == events.len() {
        assert(events.take(i) =~= events);
    } else {
        let next = events.take(i + 1);
        assert(next.drop_last() =~= events.take(i));
        ended_stays_ended(events, i + 1, reason);
    }
}

/// An actor in its cleanup waits for the end of `on_stopped`, whatever else happens.
proof fn cleanup_waits(events: Seq<RunEvent>, i: int, j: int, reason: StopReason)
    requires
        0 <= i <= j <= events.len(),
        lived(events.take(i)).state == RunState::Cleaning(reason),
        forall|k: int| i <= k < j ==> !(#[trigger] events[k] is Returned),
    ensures
        lived(events.take(j)).state == RunState::Cleaning(reason),
    decreases j - i,
{
    if i < j {
        let next = events.take(i + 1);
        assert(next.drop_last() =~= events.take(i));
        assert(next.last() == events[i]);
        assert(!(events[i] is Returned));
        cleanup_waits(events, i + 1, j, reason);
    }
}

/// An actor ends with the reason that it left its message loop for. Whenever `on_stopped` was called
/// with a reason and has returned `Ok`, the actor ends with that very reason, and its task with it,
/// whatever the reason and its error are. Where `on_stopped` returned an error, the actor ends as
/// failed with that error; where it panicked, with the failure that it was called with, or else as
/// failed with the panic.
pub proof fn actors_end_with_the_reason_they_stopped_for(
    events: Seq<RunEvent>,
    i: int,
    j: int,
    reason: StopReason,
    end: StopReason,
)
    requires
        0 <= i < j < events.len(),
        done_at(events, i).contains(RunAction::CallOnStopped(reason)),
        events[j] is Returned,
        forall|k: int| i < k < j ==> !(#[trigger] events[k] is Returned),
        lived(events).state == RunState::Ended(end) || lived(events).actions.contains(
            RunAction::Exit(end),
        ),
    ensures
        match events[j]->Returned_0 {
            CallbackOutcome::Done => end == reason,
            CallbackOutcome::Failed(err) => end == StopReason::Failure(err),
            CallbackOutcome::Panicked(message) => if reason is Failure {
                end == reason
            } else {
                end == StopReason::Failure(ActorError::Panic(message))
            },
        },
{
    let at_i = events.take(i + 1);
    let at_j = events.take(j + 1);
    assert(at_i.drop_last() =~= events.take(i));
    assert(at_i.last() == events[i]);
    on_stopped_is_called_with_the_reason(lived(events.take(i)).state, events[i], reason);
    cleanup_waits(events, i + 1, j, reason);
    assert(at_j.drop_last() =~= events.take(j));
    assert(at_j.last() == events[j]);
    let settled = lived(at_j).state->Closing_reason;
    the_end_is_settled(events, j + 1, settled);
    exits_carry_the_reason(events, end);
}

/// A failure of a handler is never lost: an actor whose handling of a message gave a reason other
/// than Kill, and whose `on_stopped` then returns `Ok`, is published as stopped and ends with that
/// reason once its children are gone.
pub proof fn failures_reach_the_end(events: Seq<RunEvent>, reason: StopReason)
    requires
        lived(events).state is Looping,
        !(reason is Kill),
    ensures
        lived(
            events.push(RunEvent::Handled(Some(reason))).push(
                RunEvent::Returned(CallbackOutcome::Done),
            ).push(RunEvent::ChildrenGone),
        ).state == RunState::Ended(reason),
{
    let one = events.push(RunEvent::Handled(Some(reason)));
    let two = one.push(RunEvent::Returned(CallbackOutcome::Done));
    let three = two.push(RunEvent::ChildrenGone);
    assert(one.drop_last() =~= events);
    assert(two.drop_last() =~= one);
    assert(three.drop_last() =~= two);
    assert(lived(one).state == RunState::Cleaning(reason));
    assert(lived(two).state is Closing);
}

/// The tiers of stops and the hooks agree: a requested stop is asked about, a forced one goes to
/// `on_stopped` at once, and Kill bypasses both, for every reason of its severity.
pub proof fn tiers_decide_on_the_hooks(reason: StopReason)
    ensures
        ({
            let step = advanced(RunState::Looping, RunEvent::LaneChanged(Some(reason)));
            &&& severity(reason) == StopSeverity::Requested <==> step.state == RunState::Asking(
                reason,
            )
            &&& severity(reason) == StopSeverity::Forced <==> step.state == RunState::Cleaning(
                reason,
            )
            &&& severity(reason) == StopSeverity::Kill <==> step.state is Closing
            &&& severity(reason) == StopSeverity::Kill <==> reason is Kill
        }),
{
}

} // verus!
