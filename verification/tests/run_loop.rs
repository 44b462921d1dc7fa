use tokio_actors::actor::handle::{
    ask_outcome, counts_as_stopped, dispatch, enqueue_error, notify_outcome, stop_outcome,
    stop_request, time_left, try_notify_outcome, ActorHandle, EnqueueOutcome, HandlerOutcome,
    ReplyOutcome,
};
use tokio_actors::actor::panic::{death_reason, payload_into_string, TaskEnd};
use tokio_actors::actor::runtime::{
    saturating_deadline, CallbackOutcome, PreStopOutcome, RunAction, RunEvent, RunState,
};
use tokio_actors::types::StopLane;
use tokio_actors::{
    ActorConfig, ActorError, ActorId, ActorStatus, AskError, Duration, Instant, MailboxConfig,
    RestartStrategy, SendError, StopReason, SupervisionConfig, TrySendError,
};

const LONGEST: Duration = Duration { nanos: u128::MAX };

#[test]
fn saturating_deadline_matches_plain_addition_within_range() {
    let base = Instant { nanos: 1_000 };
    let dur = Duration::from_secs(5);
    assert_eq!(
        saturating_deadline(base, dur),
        Instant {
            nanos: 5_000_001_000
        }
    );
}

#[test]
fn deadlines_a_thousand_years_ahead_are_exact() {
    let base = Instant { nanos: 1_000 };
    let millennium = Duration::from_secs(1_000 * 365 * 24 * 60 * 60);
    assert_eq!(
        saturating_deadline(base, millennium).nanos,
        base.nanos + millennium.nanos
    );
    let longest = Duration::new(u64::MAX, 999_999_999);
    assert_eq!(
        saturating_deadline(base, longest).nanos,
        base.nanos + longest.nanos
    );
}

#[test]
fn saturating_deadline_saturates_instead_of_panicking() {
    let base = Instant { nanos: 1_000 };
    let deadline = saturating_deadline(base, Duration::new(u64::MAX, 999_999_999));
    assert!(deadline.nanos > base.nanos);
    let saturated = saturating_deadline(base, LONGEST);
    assert_eq!(saturated, Instant { nanos: u128::MAX });
}

#[test]
fn saturating_deadline_zero_duration_is_a_no_op() {
    let base = Instant { nanos: 77 };
    assert_eq!(saturating_deadline(base, Duration::zero()), base);
}

/// Names what is done, in order.
fn names(actions: &[RunAction]) -> Vec<String> {
    actions
        .iter()
        .map(|action| match action {
            RunAction::CallOnStarted => "on_started".to_string(),
            RunAction::SetStatus(status) => format!("status {status:?}"),
            RunAction::AckSuccess => "ack ok".to_string(),
            RunAction::RecordFailure(err) => format!("record {}", err.to_string()),
            RunAction::NextEvent => "next".to_string(),
            RunAction::ReplyStatus => "reply status".to_string(),
            RunAction::CallPreStop(reason) => format!("pre_stop {}", reason.to_string()),
            RunAction::CallOnStopped(reason) => format!("on_stopped {}", reason.to_string()),
            RunAction::CloseIntake => "close".to_string(),
            RunAction::StopChildren => "stop children".to_string(),
            RunAction::DropChildren => "drop children".to_string(),
            RunAction::Unregister => "unregister".to_string(),
            RunAction::AckFailure(err) => format!("ack {}", err.to_string()),
            RunAction::Exit(reason) => format!("exit {}", reason.to_string()),
        })
        .collect()
}

/// Lets an actor live through the given events.
fn live(events: Vec<RunEvent>) -> Vec<String> {
    let mut state = RunState::PreStart;
    let mut done = Vec::new();
    for event in events {
        let (next, actions) = state.advance(event);
        state = next;
        done.extend(names(&actions));
    }
    done
}

fn returned() -> RunEvent {
    RunEvent::Returned(CallbackOutcome::Done)
}

fn initialized(mut rest: Vec<RunEvent>) -> Vec<RunEvent> {
    let mut events = vec![returned(), returned()];
    events.append(&mut rest);
    events
}

#[test]
fn lifecycle_hooks_fire_without_supervision() {
    let done = live(initialized(vec![
        RunEvent::Handled(None),
        RunEvent::LaneChanged(Some(StopReason::Graceful)),
        RunEvent::Answered(PreStopOutcome::Allowed),
        returned(),
        RunEvent::ChildrenGone,
    ]));
    assert_eq!(
        done,
        vec![
            "on_started",
            "status Running",
            "ack ok",
            "next",
            "next",
            "pre_stop graceful",
            "status Stopping",
            "on_stopped graceful",
            "close",
            "stop children",
            "unregister",
            "status Stopped",
            "exit graceful",
        ]
    );
}

#[test]
fn pre_start_failure_prevents_startup() {
    let done = live(vec![
        RunEvent::Returned(CallbackOutcome::Failed(ActorError::user(
            "pre_start validation failed",
        ))),
        RunEvent::ChildrenGone,
    ]);
    assert_eq!(
        done,
        vec![
            "record actor logic error: pre_start validation failed",
            "close",
            "stop children",
            "unregister",
            "status Stopped",
            "ack actor logic error: pre_start validation failed",
            "exit failure: actor logic error: pre_start validation failed",
        ]
    );
}

#[test]
fn on_started_panic_surfaces_as_spawn_error_init_and_skips_on_stopped() {
    let done = live(vec![
        returned(),
        RunEvent::Returned(CallbackOutcome::Panicked("on_started always panics".into())),
        RunEvent::ChildrenGone,
    ]);
    assert_eq!(
        done,
        vec![
            "on_started",
            "record actor panicked: on_started always panics",
            "close",
            "stop children",
            "unregister",
            "status Stopped",
            "ack actor panicked: on_started always panics",
            "exit failure: actor panicked: on_started always panics",
        ]
    );
}

#[test]
fn pre_stop_rejection_keeps_actor_alive() {
    let done = live(initialized(vec![
        RunEvent::LaneChanged(Some(StopReason::Graceful)),
        RunEvent::Answered(PreStopOutcome::Vetoed),
        RunEvent::Handled(None),
        RunEvent::LaneChanged(Some(StopReason::Graceful)),
        RunEvent::Answered(PreStopOutcome::Vetoed),
    ]));
    assert_eq!(
        done[4..],
        [
            "pre_stop graceful",
            "next",
            "next",
            "pre_stop graceful",
            "next"
        ]
    );
}

#[test]
fn forced_stop_bypasses_pre_stop() {
    let done = live(initialized(vec![
        RunEvent::LaneChanged(Some(StopReason::Cancelled)),
        returned(),
        RunEvent::ChildrenGone,
    ]));
    assert_eq!(
        done[4..],
        [
            "status Stopping",
            "on_stopped cancelled",
            "close",
            "stop children",
            "unregister",
            "status Stopped",
            "exit cancelled"
        ]
    );
}

#[test]
fn kill_bypasses_all_callbacks() {
    let done = live(initialized(vec![
        RunEvent::LaneChanged(Some(StopReason::Kill)),
        RunEvent::ChildrenGone,
    ]));
    assert_eq!(
        done[4..],
        [
            "close",
            "drop children",
            "unregister",
            "status Stopped",
            "exit killed"
        ]
    );
}

#[test]
fn graceful_stop_calls_callbacks() {
    let done = live(initialized(vec![
        RunEvent::LaneChanged(Some(StopReason::ParentRequest)),
        RunEvent::Answered(PreStopOutcome::Allowed),
        returned(),
    ]));
    assert_eq!(
        done[4..],
        [
            "pre_stop parent requested",
            "status Stopping",
            "on_stopped parent requested",
            "close",
            "stop children"
        ]
    );
}

#[test]
fn panic_in_on_stopped_preserves_original_reason() {
    let done = live(initialized(vec![
        RunEvent::Handled(Some(StopReason::Failure(ActorError::Panic(
            "original handle panic".into(),
        )))),
        RunEvent::Returned(CallbackOutcome::Panicked("secondary on_stopped panic".into())),
        RunEvent::ChildrenGone,
    ]));
    assert!(done.contains(&"record actor panicked: secondary on_stopped panic".to_string()));
    assert_eq!(
        done.last().unwrap(),
        "exit failure: actor panicked: original handle panic"
    );
}

#[test]
fn cleanup_decides_the_reason_of_a_clean_stop() {
    let stop = || {
        initialized(vec![
            RunEvent::LaneChanged(Some(StopReason::Graceful)),
            RunEvent::Answered(PreStopOutcome::Allowed),
        ])
    };
    let mut panicked = stop();
    panicked.push(RunEvent::Returned(CallbackOutcome::Panicked("late".into())));
    panicked.push(RunEvent::ChildrenGone);
    assert_eq!(
        live(panicked).last().unwrap(),
        "exit failure: actor panicked: late"
    );
    let mut failed = stop();
    failed.push(RunEvent::Returned(CallbackOutcome::Failed(
        ActorError::user("disk full"),
    )));
    failed.push(RunEvent::ChildrenGone);
    assert_eq!(
        live(failed).last().unwrap(),
        "exit failure: actor logic error: disk full"
    );
}

#[test]
fn a_panicking_pre_stop_stops_the_actor_as_failed() {
    let done = live(initialized(vec![
        RunEvent::LaneChanged(Some(StopReason::ParentRequest)),
        RunEvent::Answered(PreStopOutcome::Panicked("no".into())),
        returned(),
        RunEvent::ChildrenGone,
    ]));
    assert_eq!(
        done.last().unwrap(),
        "exit failure: actor panicked: no"
    );
}

#[test]
fn an_unreachable_actor_stops_gracefully_without_being_asked() {
    let done = live(initialized(vec![RunEvent::Unreachable]));
    assert_eq!(done[4..], ["status Stopping", "on_stopped graceful"]);
}

#[test]
fn get_status_bypasses_mailbox_queue() {
    let done = live(initialized(vec![
        RunEvent::StatusRequested,
        RunEvent::LaneChanged(None),
    ]));
    assert_eq!(done[4..], ["reply status", "next", "next"]);
}

#[test]
fn an_ended_actor_does_nothing() {
    let done = live(initialized(vec![
        RunEvent::LaneChanged(Some(StopReason::Kill)),
        RunEvent::ChildrenGone,
        RunEvent::ChildrenGone,
        returned(),
        RunEvent::StatusRequested,
    ]));
    assert_eq!(done.last().unwrap(), "exit killed");
    assert_eq!(done.len(), 9);
}

#[test]
fn panic_in_handle_send_path_returns_panic_error() {
    let done = dispatch::<u32>(
        HandlerOutcome::Panicked("worker crashed on command".into()),
        true,
    );
    assert!(matches!(
        done.reply,
        Some(Err(ActorError::Panic(ref text))) if text == "worker crashed on command"
    ));
    assert!(matches!(
        done.stop,
        Some(StopReason::Failure(ActorError::Panic(_)))
    ));
}

#[test]
fn an_error_stops_the_actor_on_both_paths() {
    let asked = dispatch::<u32>(HandlerOutcome::Failed(ActorError::user("x")), true);
    assert!(matches!(asked.reply, Some(Err(ActorError::User(_)))));
    assert!(matches!(asked.stop, Some(StopReason::Failure(_))));
    let told = dispatch::<u32>(HandlerOutcome::Failed(ActorError::user("x")), false);
    assert!(told.reply.is_none());
    assert!(matches!(told.stop, Some(StopReason::Failure(_))));
    let fine = dispatch(HandlerOutcome::Returned(9u32), true);
    assert!(matches!(fine.reply, Some(Ok(9))));
    assert!(fine.stop.is_none());
}

#[test]
fn full_mailbox_with_hung_handler_times_out_unenqueued() {
    assert!(matches!(
        enqueue_error(EnqueueOutcome::TimedOut),
        Some(AskError::Timeout { enqueued: false })
    ));
}

#[test]
fn slow_handler_times_out_enqueued_then_actor_survives() {
    assert!(enqueue_error(EnqueueOutcome::Accepted).is_none());
    assert!(matches!(
        ask_outcome::<u32>(ReplyOutcome::TimedOut),
        Err(AskError::Timeout { enqueued: true })
    ));
}

#[test]
fn healthy_fast_actor_send_timeout_matches_send() {
    assert!(matches!(
        ask_outcome(ReplyOutcome::Replied(Ok(42u32))),
        Ok(42)
    ));
    assert!(matches!(
        ask_outcome::<u32>(ReplyOutcome::Dropped),
        Err(AskError::ResponseDropped)
    ));
    assert!(matches!(
        ask_outcome::<u32>(ReplyOutcome::Replied(Err(ActorError::user("x")))),
        Err(AskError::Actor(ActorError::User(_)))
    ));
    assert!(matches!(
        enqueue_error(EnqueueOutcome::Closed),
        Some(AskError::Closed)
    ));
}

#[test]
fn send_timeout_with_huge_duration_does_not_panic() {
    let now = Instant { nanos: 5 };
    let deadline = saturating_deadline(now, LONGEST);
    assert_eq!(
        time_left(deadline, now).nanos,
        u128::MAX - 5
    );
    assert_eq!(time_left(now, deadline), Duration::zero());
}

#[test]
fn notify_outcomes_are_told_apart() {
    assert_eq!(notify_outcome(EnqueueOutcome::Accepted), Ok(()));
    assert_eq!(
        notify_outcome(EnqueueOutcome::Closed),
        Err(SendError::Closed)
    );
    assert_eq!(try_notify_outcome(EnqueueOutcome::Accepted), Ok(()));
    assert_eq!(
        try_notify_outcome(EnqueueOutcome::Full),
        Err(TrySendError::Full)
    );
    assert_eq!(
        try_notify_outcome(EnqueueOutcome::Closed),
        Err(TrySendError::Closed)
    );
}

fn handle(id: &str, system: &str) -> ActorHandle {
    let (lane, _rx) = StopLane::new();
    ActorHandle::new(ActorId::from(id), system.to_string(), 10, lane)
}

#[test]
fn handle_equality_based_on_actor_id() {
    let actor1 = handle("hq-eq-1", "default");
    let actor2 = handle("hq-eq-2", "default");
    let actor1_clone = actor1.clone();
    assert_eq!(actor1, actor1_clone);
    assert_ne!(actor1, actor2);
    assert_eq!(actor1.id().as_str(), "hq-eq-1");
}

#[test]
fn handle_inequality_across_systems() {
    let actor_a = handle("shared-name", "a");
    let actor_b = handle("shared-name", "b");
    assert_eq!(actor_a.id(), actor_b.id());
    assert_ne!(actor_a, actor_b);
    assert_eq!(actor_b.system_name(), "b");
}

#[test]
fn mailbox_queries_show_correct_capacity() {
    let actor = handle("hq-mailbox-cap", "default");
    assert_eq!(actor.mailbox_capacity(), 10);
    assert_eq!(actor.mailbox_len(10), 0);
}

#[test]
fn mailbox_len_and_available_sum_to_capacity() {
    let actor = handle("hq-mailbox-sum", "default");
    for available in 0..=10 {
        assert_eq!(actor.mailbox_len(available) + available, 10);
    }
}

#[test]
fn stop_after_already_stopped_matches_closed_mpsc_error() {
    let (lane, rx) = StopLane::new();
    let actor = ActorHandle::new(ActorId::from("lane"), "default".to_string(), 1, lane);
    assert_eq!(actor.stop(StopReason::Graceful), Ok(()));
    assert!(matches!(rx.borrow().reason, Some(StopReason::Graceful)));
    actor.stop_lane().raise(StopReason::Kill);
    assert_eq!(rx.borrow().generation, 2);
    drop(rx);
    assert_eq!(actor.stop(StopReason::Graceful), Err(SendError::Closed));
    assert_eq!(stop_outcome(true), Err(SendError::Closed));
    assert!(stop_request(true, StopReason::Kill).is_none());
    assert!(matches!(
        stop_request(false, StopReason::Cancelled),
        Some(StopReason::Cancelled)
    ));
}

#[test]
fn wait_stopped_resolves_when_aborted_mid_hang() {
    assert!(counts_as_stopped(ActorStatus::Stopped, false));
    assert!(counts_as_stopped(ActorStatus::Initializing, true));
    assert!(!counts_as_stopped(ActorStatus::Stopping, false));
}

#[test]
fn non_string_payload_becomes_placeholder() {
    assert_eq!(payload_into_string(None), "non-string panic payload");
    assert_eq!(payload_into_string(Some("early boom".into())), "early boom");
}

#[test]
fn ends_of_tasks_become_reasons() {
    assert!(matches!(
        death_reason(TaskEnd::Returned(StopReason::Graceful)),
        StopReason::Graceful
    ));
    assert!(matches!(
        death_reason(TaskEnd::Aborted),
        StopReason::Cancelled
    ));
    assert_eq!(
        death_reason(TaskEnd::Panicked(Some("boom".into()))).to_string(),
        "failure: actor panicked: boom"
    );
    assert_eq!(
        death_reason(TaskEnd::Panicked(None)).to_string(),
        "failure: actor panicked: panic payload unavailable"
    );
}

#[test]
fn builder_pattern_for_mailbox_capacity() {
    let config = ActorConfig::default().with_mailbox_capacity(256);
    assert_eq!(config.mailbox.capacity, 256);
    assert!(config.supervision.is_none());
}

#[test]
fn config_defaults_when_not_specified() {
    assert_eq!(ActorConfig::default().mailbox.capacity, 64);
    assert_eq!(MailboxConfig::default().with_capacity(3).capacity, 3);
}

#[test]
fn config_with_custom_mailbox_via_builder() {
    let config = ActorConfig::default().with_mailbox(MailboxConfig { capacity: 128 });
    assert_eq!(config.mailbox.capacity, 128);
    let copy: ActorConfig = ActorConfig::from(&config.supervisor());
    assert_eq!(copy.mailbox.capacity, 128);
    let sup = copy.supervision.unwrap();
    assert_eq!(sup.strategy, RestartStrategy::OneForOne);
    let custom =
        ActorConfig::default().with_supervision(SupervisionConfig::rest_for_one().clone());
    assert_eq!(
        custom.supervision.unwrap().strategy,
        RestartStrategy::RestForOne
    );
}

#[test]
fn a_handle_and_its_clones_give_the_lane_that_it_was_made_with() {
    let (lane, rx) = StopLane::new();
    let handle = ActorHandle::new(ActorId::from("a"), "sys".to_string(), 8, lane);
    handle.stop_lane().raise(StopReason::Graceful);
    assert!(matches!(rx.borrow().reason, Some(StopReason::Graceful)));
    handle.clone().stop_lane().raise(StopReason::Kill);
    assert!(matches!(rx.borrow().reason, Some(StopReason::Kill)));
    assert_eq!(rx.borrow().generation, 2);
}
