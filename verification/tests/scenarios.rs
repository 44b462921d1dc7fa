use tokio::sync::watch;
use tokio_actors::actor::context::ForwarderKind;
use tokio_actors::actor::ladder::{initial_signal, Escalation, LadderRung};
use tokio_actors::actor::panic::payload_into_string;
use tokio_actors::actor::runtime::{
    CallbackOutcome, PreStopOutcome, RunAction, RunEvent, RunState,
};
use tokio_actors::actor::schedule::{forward_item, keeps_forwarding};
use tokio_actors::actor::spawn::{finish_spawn, spawn_actor, AckEvent, SpawnedActor};
use tokio_actors::system::reaper::{ChildLinkGuard, ReaperEntry, ReaperQueue, ReaperWait};
use tokio_actors::types::{LaneState, StopLane};
use tokio_actors::{
    ActorConfig, ActorContext, ActorError, ActorHandle, ActorId, ActorStatus, ActorSystem,
    Duration, Instant, Shutdown, ShutdownPolicy, SpawnBuilder, SpawnError, StopReason,
    StreamEvent, SupervisionConfig,
};

fn at_millis(millis: u64) -> Instant {
    Instant {
        nanos: u128::from(millis) * 1_000_000,
    }
}

// ---------------------------------------------------------------------------
// The stop lane and the run loop
// ---------------------------------------------------------------------------

/// An actor on a real stop lane whose callbacks are played by the test.
struct Prober {
    lane: StopLane,
    rx: watch::Receiver<LaneState>,
    state: Option<RunState>,
    /// The call of `pre_stop` from which on a stop is allowed; none is if it is zero.
    accept_from: usize,
    pre_stop_calls: usize,
    on_stopped_calls: usize,
    exit: Option<StopReason>,
}

impl Prober {
    fn new(accept_from: usize) -> Prober {
        let (lane, rx) = StopLane::new();
        let mut prober = Prober {
            lane,
            rx,
            state: Some(RunState::PreStart),
            accept_from,
            pre_stop_calls: 0,
            on_stopped_calls: 0,
            exit: None,
        };
        prober.step(RunEvent::Returned(CallbackOutcome::Done));
        prober.step(RunEvent::Returned(CallbackOutcome::Done));
        prober
    }

    fn step(&mut self, event: RunEvent) {
        let (next, actions) = self.state.take().unwrap().advance(event);
        self.state = Some(next);
        for action in actions {
            match action {
                RunAction::CallPreStop(_) => {
                    self.pre_stop_calls += 1;
                    let allowed =
                        self.accept_from > 0 && self.pre_stop_calls >= self.accept_from;
                    self.step(RunEvent::Answered(if allowed {
                        PreStopOutcome::Allowed
                    } else {
                        PreStopOutcome::Vetoed
                    }));
                }
                RunAction::CallOnStopped(_) => {
                    self.on_stopped_calls += 1;
                    self.step(RunEvent::Returned(CallbackOutcome::Done));
                }
                RunAction::StopChildren | RunAction::DropChildren => {
                    self.step(RunEvent::ChildrenGone)
                }
                RunAction::Exit(reason) => self.exit = Some(reason),
                _ => {}
            }
        }
    }

    /// One turn of the message loop: the lane is observed if it has changed.
    fn turn(&mut self) {
        if self.rx.has_changed().unwrap() {
            let reason = self.rx.borrow_and_update().reason.clone();
            self.step(RunEvent::LaneChanged(reason));
        }
    }
}

#[test]
fn veto_then_resend_same_severity_re_fires_pre_stop() {
    let mut actor = Prober::new(2);
    actor.lane.raise(StopReason::Graceful);
    actor.turn();
    assert_eq!(actor.pre_stop_calls, 1);
    assert!(actor.exit.is_none());
    actor.turn();
    assert_eq!(actor.pre_stop_calls, 1, "one raise is observed once");
    actor.lane.raise(StopReason::Graceful);
    actor.turn();
    assert_eq!(actor.pre_stop_calls, 2);
    assert_eq!(actor.on_stopped_calls, 1);
    assert!(matches!(actor.exit, Some(StopReason::Graceful)));
}

#[test]
fn coalesced_raises_during_a_busy_handler_fire_pre_stop_exactly_once() {
    let mut actor = Prober::new(0);
    for _ in 0..5 {
        actor.lane.raise(StopReason::Graceful);
    }
    actor.turn();
    actor.turn();
    assert_eq!(actor.pre_stop_calls, 1);
    assert!(actor.exit.is_none());
}

#[test]
fn sequential_observed_raises_each_produce_their_own_pre_stop_call() {
    const N: usize = 4;
    let mut actor = Prober::new(0);
    for i in 1..=N {
        actor.lane.raise(StopReason::Graceful);
        actor.turn();
        assert_eq!(actor.pre_stop_calls, i);
    }
    assert!(actor.exit.is_none());
}

#[test]
fn kill_before_pending_graceful_observation_suppresses_it_entirely() {
    let mut actor = Prober::new(0);
    actor.lane.raise(StopReason::Graceful);
    actor.lane.raise(StopReason::Kill);
    actor.turn();
    assert_eq!(actor.pre_stop_calls, 0);
    assert_eq!(actor.on_stopped_calls, 0);
    assert!(matches!(actor.exit, Some(StopReason::Kill)));
}

#[test]
fn graceful_after_kill_has_no_effect_once_kill_already_landed() {
    let mut actor = Prober::new(0);
    actor.lane.raise(StopReason::Kill);
    actor.lane.raise(StopReason::Graceful);
    actor.turn();
    assert_eq!(actor.pre_stop_calls, 0);
    assert_eq!(actor.on_stopped_calls, 0);
    assert!(matches!(actor.exit, Some(StopReason::Kill)));
}

#[test]
fn terminate_vetoing_child_escalates() {
    let shutdown = Shutdown::Timeout(Duration::from_millis(150));
    let mut child = Prober::new(0);
    child.lane.raise(initial_signal(shutdown));
    child.turn();
    assert_eq!(child.pre_stop_calls, 1);
    assert!(child.exit.is_none(), "the child vetoes");
    let rung = LadderRung::start(shutdown);
    assert_eq!(rung.wait_bound(), Some(Duration::from_millis(150)));
    let (escalation, next) = rung.climb();
    assert_eq!(escalation, Escalation::RaiseKill);
    assert_eq!(next, Some(LadderRung::Killed));
    child.lane.raise(StopReason::Kill);
    child.turn();
    assert!(matches!(child.exit, Some(StopReason::Kill)));
}

#[test]
fn handle_equality_stable_across_restart() {
    let handle = || {
        let (lane, _rx) = StopLane::new();
        ActorHandle::new(
            ActorId::from("handle-eq-worker"),
            "default".to_string(),
            64,
            lane,
        )
    };
    let before = handle();
    let after = handle();
    assert_eq!(before.id(), after.id());
    assert_eq!(before, after);
}

// ---------------------------------------------------------------------------
// Guards and the reaper
// ---------------------------------------------------------------------------

#[test]
fn guard_drop_raises_kill_forces_status_and_feeds_the_reaper_exactly_once() {
    let (lane, lane_rx) = StopLane::new();
    let guard = ChildLinkGuard::new(Duration::from_millis(50));
    let mut queue: ReaperQueue<&str> = ReaperQueue::new();
    if let Some(deadline) = guard.fire(at_millis(20)) {
        lane.raise(StopReason::Kill);
        queue.push(ReaperEntry::new(deadline, "child"));
    }
    assert!(matches!(lane_rx.borrow().reason, Some(StopReason::Kill)));
    let entry = queue.pop().unwrap();
    assert_eq!(entry.deadline, at_millis(70));
    assert_eq!(entry.abort, "child");
    assert!(queue.pop().is_none());
}

#[test]
fn guard_drop_effects_are_harmless_on_an_already_stopped_child() {
    let (lane, lane_rx) = StopLane::new();
    lane.raise(StopReason::Graceful);
    let guard = ChildLinkGuard::new(Duration::from_millis(100));
    assert!(guard.fire(at_millis(0)).is_some());
    lane.raise(StopReason::Kill);
    assert!(matches!(lane_rx.borrow().reason, Some(StopReason::Kill)));
}

#[test]
fn reaper_aborts_a_child_that_outlives_its_deadline() {
    let mut queue: ReaperQueue<&str> = ReaperQueue::new();
    assert_eq!(queue.next_wait(true), ReaperWait::Entry);
    queue.push(ReaperEntry::new(at_millis(50), "hung"));
    assert_eq!(
        queue.next_wait(true),
        ReaperWait::EntryOrDeadline(at_millis(50))
    );
    assert_eq!(queue.next_wait(false), ReaperWait::Deadline(at_millis(50)));
    assert_eq!(queue.pop().unwrap().abort, "hung");
    assert_eq!(queue.next_wait(false), ReaperWait::Nothing);
}

// ---------------------------------------------------------------------------
// Spawning
// ---------------------------------------------------------------------------

fn system(name: &str) -> ActorSystem {
    ActorSystem::empty(name.to_string(), ShutdownPolicy::default())
}

fn spawn(system: &mut ActorSystem, builder: SpawnBuilder) -> Result<SpawnedActor, SpawnError> {
    let id = builder.resolve_id();
    spawn_actor(system, id, builder.name, builder.config, true, true)
}

#[test]
fn anonymous_spawn() {
    let mut sys = system("sb-anonymous");
    let first = spawn(&mut sys, SpawnBuilder::spawn()).unwrap();
    let second = spawn(&mut sys, SpawnBuilder::spawn()).unwrap();
    assert_eq!(first.context.actor_id().as_str().len(), 36);
    assert_ne!(first.context.actor_id(), second.context.actor_id());
    assert!(first.context.actor_name().is_none());
    assert!(sys.registered().is_empty());
    assert_eq!(sys.actor_ids().len(), 2);
}

#[test]
fn named_spawn() {
    let mut sys = system("sb-named");
    let spawned = spawn(&mut sys, SpawnBuilder::spawn().named("sb-named".into())).unwrap();
    assert_eq!(spawned.context.actor_id().as_str(), "sb-named");
    assert_eq!(spawned.context.status(), ActorStatus::Initializing);
    assert_eq!(sys.registered(), vec!["sb-named".to_string()]);
}

#[test]
fn named_with_config() {
    let config = ActorConfig::default().with_mailbox_capacity(128);
    let spawned = spawn(
        &mut system("sb-cfg"),
        SpawnBuilder::spawn()
            .named("sb-named-cfg".into())
            .with_config(config),
    )
    .unwrap();
    assert_eq!(spawned.mailbox_capacity, 128);
}

#[test]
fn named_on_system_with_config() {
    let config = ActorConfig::default().with_mailbox_capacity(32);
    let builder = SpawnBuilder::spawn()
        .named("full-chain".into())
        .on_system("sb-full".into())
        .with_config(config);
    assert_eq!(builder.system.as_deref(), Some("sb-full"));
    let mut sys = system("sb-full");
    let spawned = spawn(&mut sys, builder).unwrap();
    assert_eq!(spawned.mailbox_capacity, 32);
    assert!(sys.get("full-chain").is_some());
}

#[test]
fn builder_chain_order_independent() {
    let mut sys = system("sb-order");
    let first = SpawnBuilder::spawn()
        .named("order-a".into())
        .on_system("sb-order".into());
    let second = SpawnBuilder::spawn()
        .on_system("sb-order".into())
        .named("order-b".into());
    assert_eq!(first.system, second.system);
    spawn(&mut sys, first).unwrap();
    spawn(&mut sys, second).unwrap();
    assert!(sys.get("order-a").is_some());
    assert!(sys.get("order-b").is_some());
}

#[test]
fn supervised_parent_custom_config() {
    let sup = SupervisionConfig::one_for_all().max_restarts(10, Duration::from_secs(60));
    let spawned = spawn(
        &mut system("sb-sup"),
        SpawnBuilder::spawn()
            .named("sb-sup-custom".into())
            .with_supervision(sup),
    )
    .unwrap();
    let mut context = spawned.context;
    assert!(context.children().is_empty());
    let state = context.take_supervision().unwrap();
    assert_eq!(state.config.max_restarts, 10);
}

#[test]
fn supervised_actor_has_zero_children_initially() {
    let spawned = spawn(
        &mut system("zero-children"),
        SpawnBuilder::spawn().named("zero".into()).supervisor(),
    )
    .unwrap();
    assert_eq!(spawned.context.build_status_info(0, 64).child_count, 0);
}

#[test]
fn system_stop_named_actor() {
    let mut sys = system("stop-by-name");
    let spawned = spawn(&mut sys, SpawnBuilder::spawn().named("target".into())).unwrap();
    assert_eq!(sys.stop("target"), Ok(spawned.guard.registration_seq));
    spawned.guard.release(&mut sys);
    assert!(sys.stop("target").is_err());
}

#[test]
fn named_respawn_after_failed_init_never_sees_name_taken() {
    let mut sys = system("respawn");
    for _ in 0..3 {
        let spawned = spawn(&mut sys, SpawnBuilder::spawn().named("again".into())).unwrap();
        // The initialization fails: the name is given up before anybody hears of it.
        let (state, _) = RunState::PreStart.advance(RunEvent::Returned(CallbackOutcome::Failed(
            ActorError::user("boom"),
        )));
        let (_, actions) = state.advance(RunEvent::ChildrenGone);
        let mut free = false;
        for action in actions {
            match action {
                RunAction::Unregister => {
                    spawned.guard.release(&mut sys);
                    free = true;
                }
                RunAction::AckFailure(_) => assert!(free),
                _ => {}
            }
        }
        assert!(sys.get("again").is_none());
    }
}

#[test]
fn named_respawn_after_start_timeout_never_sees_name_taken() {
    let mut sys = system("respawn-after-timeout");
    for _ in 0..3 {
        let spawned = spawn(&mut sys, SpawnBuilder::spawn().named("slow".into())).unwrap();
        assert!(matches!(
            finish_spawn(&mut sys, &spawned.guard, AckEvent::TimedOut),
            Err(SpawnError::StartTimeout)
        ));
        assert!(sys.get("slow").is_none());
    }
    let spawned = spawn(&mut sys, SpawnBuilder::spawn().named("slow".into())).unwrap();
    assert!(finish_spawn(&mut sys, &spawned.guard, AckEvent::Initialized).is_ok());
    assert!(sys.get("slow").is_some());
    assert!(matches!(
        spawn(&mut sys, SpawnBuilder::spawn().named("slow".into())),
        Err(SpawnError::NameTaken { .. })
    ));
}

// ---------------------------------------------------------------------------
// Streams and panics
// ---------------------------------------------------------------------------

#[test]
fn test_infallible_stream() {
    let mut delivered = Vec::new();
    let mut finished = 0;
    let mut items = vec![1, 2, 3, 4, 5].into_iter();
    loop {
        let (event, last) = forward_item(items.next());
        match event {
            StreamEvent::Data(value) => delivered.push(value),
            StreamEvent::Finished => finished += 1,
        }
        if !keeps_forwarding(last, true) {
            break;
        }
    }
    assert_eq!(delivered, vec![1, 2, 3, 4, 5]);
    assert_eq!(finished, 1);
    assert!(!keeps_forwarding(false, false), "a gone actor ends it");
}

#[test]
fn test_cancel_stream() {
    let mut ctx = ActorContext::new(ActorId::from("s"), None, None);
    let (first, first_token) = ctx.add_stream();
    let (second, second_token) = ctx.add_stream();
    assert_ne!(first, second);
    ctx.cancel_stream(first).unwrap();
    assert!(first_token.is_cancelled());
    assert!(!second_token.is_cancelled());
    assert_eq!(ctx.active_stream_count(), 1);
    assert_ne!(
        ForwarderKind::Stream(first),
        ForwarderKind::Stream(second)
    );
}

#[test]
fn formatted_runtime_payload_is_string() {
    let code = 42;
    assert_eq!(
        payload_into_string(Some(format!("failed with code {code}"))),
        "failed with code 42"
    );
}
