use std::collections::HashSet;
use tokio_actors::actor::ladder::{
    initial_signal, ladder_result, stop_group_member, Escalation, LadderRung,
};
use tokio_actors::actor::spawn::{ack_result, check_spawn, spawn_actor, AckEvent, SpawnAck};
use tokio_actors::system::reaper::{ChildLinkGuard, ReaperEntry, ReaperQueue, ReaperWait};
use tokio_actors::system::shutdown::{force_outcome, RootRung, RootSignal};
use tokio_actors::system::{RegistryGuard, SystemDirectory, SystemPhase};
use tokio_actors::types::ChildFate;
use tokio_actors::{
    ActorConfig, ActorError, ActorId, ActorSystem, Duration, Instant, SendError, Shutdown,
    ShutdownPolicy, SpawnBuilder, SpawnError, StopOutcome, StopReason, SupervisionConfig,
    SupervisionError, SystemConfig,
};

fn at_millis(millis: u64) -> Instant {
    Instant {
        nanos: u128::from(millis) * 1_000_000,
    }
}

fn system(name: &str) -> ActorSystem {
    let mut systems = SystemDirectory::new();
    ActorSystem::create(&mut systems, name.to_string()).unwrap().1
}

#[test]
fn stale_registry_guard_drop_never_removes_a_newer_registration() {
    let mut sys = system("seq-guard");
    let id = ActorId::from("anon-child");

    let old_seq = sys.register_actor(&id, None, false).unwrap();
    let old_guard = RegistryGuard::new(id.clone(), None, old_seq);

    // A newer registration lands under the SAME id before the old guard is released.
    let new_seq = sys.register_actor(&id, None, false).unwrap();
    assert_ne!(old_seq, new_seq);

    old_guard.release(&mut sys);
    assert_eq!(sys.get_by_id(&id), Some(new_seq));
}

#[test]
fn matching_seq_guard_drop_removes_its_own_registration() {
    let mut sys = system("seq-guard");
    let id = ActorId::from("solo-child");
    let seq = sys.register_actor(&id, None, false).unwrap();
    RegistryGuard::new(id.clone(), None, seq).release(&mut sys);
    assert_eq!(sys.get_by_id(&id), None);
}

#[test]
fn spawn_named_collision() {
    let mut sys = system("games");
    let first = sys
        .register_actor(&ActorId::from("counter"), Some("counter"), true)
        .unwrap();
    match sys.register_actor(&ActorId::from("counter"), Some("counter"), true) {
        Err(SpawnError::NameTaken { name, system }) => {
            assert_eq!(name, "counter");
            assert_eq!(system, "games");
        }
        other => panic!("expected NameTaken, got {other:?}"),
    }
    assert_eq!(sys.get("counter"), Some(first));
    assert_eq!(sys.stop("counter"), Ok(first));
    assert_eq!(sys.stop("nobody"), Err(SendError::NotFound));

    let guard = RegistryGuard::new(
        ActorId::from("counter"),
        Some("counter".to_string()),
        first,
    );
    guard.release(&mut sys);
    assert_eq!(sys.get("counter"), None);
    let again = sys
        .register_actor(&ActorId::from("counter"), Some("counter"), true)
        .unwrap();
    assert_eq!(again, 2, "the refused registration used a number up");
}

#[test]
fn systems_are_named_once() {
    let mut systems = SystemDirectory::new();
    let (first, made) = ActorSystem::default(&mut systems);
    assert_eq!(made.unwrap().name(), "default");
    let (second, again) = ActorSystem::default(&mut systems);
    assert_eq!(first, second);
    assert!(again.is_none());

    let config = SystemConfig {
        shutdown_policy: ShutdownPolicy {
            timeout: Duration::from_secs(60),
            per_actor_timeout: Duration::from_secs(10),
        },
    };
    let (number, game) =
        ActorSystem::create_with(&mut systems, "game".to_string(), config).unwrap();
    assert_eq!(game.name(), "game");
    assert_eq!(ActorSystem::get_named(&systems, "game"), Some(number));
    assert_eq!(ActorSystem::get_named(&systems, "nope"), None);
    match ActorSystem::create(&mut systems, "game".to_string()) {
        Err(SpawnError::SystemNameTaken(name)) => assert_eq!(name, "game"),
        _ => panic!("expected SystemNameTaken"),
    }
    let all: HashSet<String> = ActorSystem::all(&systems).into_iter().collect();
    assert_eq!(
        all,
        HashSet::from(["default".to_string(), "game".to_string()])
    );
}

#[test]
fn registered_names_and_ids_are_listed() {
    let mut sys = system("listing");
    sys.register_actor(&ActorId::from("a"), Some("a"), true)
        .unwrap();
    sys.register_actor(&ActorId::from("anonymous"), None, false)
        .unwrap();
    assert_eq!(sys.registered(), vec!["a".to_string()]);
    let ids: HashSet<String> = sys.actor_ids().iter().map(|id| id.to_string()).collect();
    assert_eq!(
        ids,
        HashSet::from(["a".to_string(), "anonymous".to_string()])
    );
}

#[test]
fn incarnations_are_drawn_from_one_counter() {
    let mut sys = system("tokens");
    assert_eq!(sys.next_incarnation(), 0);
    assert_eq!(sys.next_incarnation(), 1);
    assert_eq!(sys.next_incarnation(), 2);
}

#[test]
fn phases_keep_their_numbers() {
    for phase in [
        SystemPhase::Active,
        SystemPhase::ShuttingDown,
        SystemPhase::Defunct,
    ] {
        assert_eq!(SystemPhase::from_u8(phase.as_u8()), phase);
    }
    assert_eq!(SystemPhase::from_u8(200), SystemPhase::Defunct);
}

#[test]
fn default_shutdown_policy_is_thirty_and_five_seconds() {
    let policy = ShutdownPolicy::default();
    assert_eq!(policy.timeout, Duration::from_secs(30));
    assert_eq!(policy.per_actor_timeout, Duration::from_secs(5));
    assert_eq!(SystemConfig::default().shutdown_policy, policy);
}

#[test]
fn shutdown_stops_roots_in_reverse_registration_order() {
    let mut sys = system("closing");
    for (name, is_root) in [("a", true), ("child", false), ("b", true), ("c", true)] {
        sys.register_actor(&ActorId::from(name), Some(name), is_root)
            .unwrap();
    }
    let mut run = sys.shutdown(at_millis(0));
    assert!(matches!(
        sys.register_actor(&ActorId::from("late"), None, true),
        Err(SpawnError::SystemShuttingDown(name)) if name == "closing"
    ));
    assert!(!sys.reactivate(), "a shutdown is in flight");

    // c stops when asked, b when killed, a never.
    let mut told = Vec::new();
    while let Some((id, rung)) = run.current() {
        told.push((id.to_string(), rung));
        let terminal = matches!(
            (id.as_str(), rung),
            ("c", RootRung::Asked) | ("b", RootRung::Killed)
        );
        run.observe(terminal, at_millis(10));
    }
    let expected = [
        ("c", RootRung::Asked),
        ("b", RootRung::Asked),
        ("b", RootRung::Killed),
        ("a", RootRung::Asked),
        ("a", RootRung::Killed),
        ("a", RootRung::Aborted),
    ];
    assert_eq!(
        told,
        expected
            .iter()
            .map(|(id, rung)| (id.to_string(), *rung))
            .collect::<Vec<_>>()
    );
    assert!(run.stragglers().is_empty());
    let leftover = sys.leftover(&run, &Vec::new());
    assert_eq!(
        leftover.iter().map(|id| id.to_string()).collect::<Vec<_>>(),
        vec!["child".to_string()]
    );
    let report = sys.complete_shutdown(run, Vec::new(), Vec::new());
    let outcomes: Vec<(String, StopOutcome)> = report
        .outcomes
        .iter()
        .map(|(id, outcome)| (id.to_string(), *outcome))
        .collect();
    assert_eq!(
        outcomes,
        vec![
            ("c".to_string(), StopOutcome::Graceful),
            ("b".to_string(), StopOutcome::Killed),
            ("a".to_string(), StopOutcome::Unresponsive),
        ]
    );
    assert!(sys
        .register_actor(&ActorId::from("late"), None, true)
        .is_err());
    assert!(sys.reactivate());
    assert!(sys
        .register_actor(&ActorId::from("late"), None, true)
        .is_ok());
    assert!(!sys.reactivate(), "nothing to reactivate");
}

#[test]
fn shutdown_hands_the_rest_over_when_the_deadline_passes() {
    let mut sys = system("deadline");
    for name in ["a", "b", "c"] {
        sys.register_actor(&ActorId::from(name), Some(name), true)
            .unwrap();
    }
    let policy = ShutdownPolicy {
        timeout: Duration::from_millis(150),
        per_actor_timeout: Duration::from_millis(100),
    };
    let mut run = sys.shutdown_with(policy, at_millis(0));
    assert_eq!(run.wait_bound(at_millis(0)), Duration::from_millis(100));
    assert_eq!(run.wait_bound(at_millis(90)), Duration::from_millis(60));
    assert_eq!(run.wait_bound(at_millis(500)), Duration::zero());
    run.observe(true, at_millis(90));
    run.observe(false, at_millis(150));
    assert!(run.current().is_none());
    let left: Vec<String> = run.stragglers().iter().map(|id| id.to_string()).collect();
    assert_eq!(left, vec!["b".to_string(), "a".to_string()]);
    let forced = vec![
        (ActorId::from("a"), StopOutcome::Killed),
        (ActorId::from("b"), StopOutcome::Aborted),
    ];
    assert!(sys.leftover(&run, &forced).is_empty());
    let report = sys.complete_shutdown(run, forced, Vec::new());
    assert_eq!(report.outcomes.len(), 3);
    assert_eq!(report.outcomes[0].0.as_str(), "c");
    let told: Vec<(&str, StopOutcome)> = report
        .outcomes
        .iter()
        .map(|(id, outcome)| (id.as_str(), *outcome))
        .collect();
    assert_eq!(
        told,
        vec![
            ("c", StopOutcome::Graceful),
            ("b", StopOutcome::Aborted),
            ("a", StopOutcome::Killed),
        ],
        "reverse registration order, whatever order the outcomes came in"
    );
}

#[test]
fn shutdown_reports_of_forced_stops_hold_roots_only() {
    let mut sys = system("roots-only");
    sys.register_actor(&ActorId::from("root"), Some("root"), true)
        .unwrap();
    sys.register_actor(&ActorId::from("child"), Some("child"), false)
        .unwrap();
    let policy = ShutdownPolicy {
        timeout: Duration::from_millis(10),
        per_actor_timeout: Duration::from_millis(100),
    };
    let mut run = sys.shutdown_with(policy, at_millis(0));
    run.observe(false, at_millis(10));
    let forced = vec![
        (ActorId::from("child"), StopOutcome::Killed),
        (ActorId::from("root"), StopOutcome::Killed),
        (ActorId::from("root"), StopOutcome::Unresponsive),
    ];
    let report = sys.complete_shutdown(run, forced, Vec::new());
    assert_eq!(report.outcomes.len(), 1);
    assert_eq!(report.outcomes[0].0.as_str(), "root");
    assert_eq!(report.outcomes[0].1, StopOutcome::Killed);
}

#[test]
fn roots_are_told_by_their_rung() {
    assert!(matches!(
        RootRung::Asked.signal(),
        RootSignal::Raise(StopReason::ParentRequest)
    ));
    assert!(matches!(
        RootRung::Killed.signal(),
        RootSignal::Raise(StopReason::Kill)
    ));
    assert!(matches!(RootRung::Aborted.signal(), RootSignal::Abort));
}

#[test]
fn forced_stops_are_reported_by_the_rung_reached() {
    assert_eq!(force_outcome(false, None), StopOutcome::Graceful);
    assert_eq!(
        force_outcome(true, Some(LadderRung::Killed)),
        StopOutcome::Killed
    );
    assert_eq!(
        force_outcome(true, Some(LadderRung::Aborted)),
        StopOutcome::Aborted
    );
    assert_eq!(force_outcome(true, None), StopOutcome::Unresponsive);
}

#[test]
fn reaper_pops_the_soonest_deadline_first() {
    let mut queue: ReaperQueue<&str> = ReaperQueue::new();
    assert_eq!(queue.next_wait(true), ReaperWait::Entry);
    assert_eq!(queue.next_wait(false), ReaperWait::Nothing);
    queue.push(ReaperEntry::new(at_millis(300), "late"));
    queue.push(ReaperEntry::new(at_millis(30), "soon"));
    assert_eq!(
        queue.next_wait(true),
        ReaperWait::EntryOrDeadline(at_millis(30))
    );
    assert_eq!(queue.pop().unwrap().abort, "soon");
    assert_eq!(
        queue.next_wait(false),
        ReaperWait::Deadline(at_millis(300))
    );
    assert_eq!(queue.pop().unwrap().abort, "late");
    assert!(queue.pop().is_none());
}

#[test]
fn guard_disarmed_by_the_watcher_is_inert_on_normal_completion() {
    let mut guard = ChildLinkGuard::new(Duration::from_millis(50));
    assert_eq!(guard.fire(at_millis(100)), Some(at_millis(150)));
    guard.disarm();
    assert_eq!(guard.fire(at_millis(100)), None);
}

/// Every step of the ladder is a raise on the stop lane or an abort; there is no other signal.
#[test]
fn escalation_ladder_contains_no_awaited_stop_sends() {
    for shutdown in [
        Shutdown::Kill,
        Shutdown::Timeout(Duration::from_millis(150)),
        Shutdown::Infinity,
    ] {
        let mut signals = vec![initial_signal(shutdown).to_string()];
        let mut rung = Some(LadderRung::start(shutdown));
        while let Some(current) = rung {
            let (action, next) = current.climb();
            signals.push(
                match action {
                    Escalation::RaiseKill => "killed",
                    Escalation::Abort => "abort",
                    Escalation::GiveUp => "give up",
                }
                .to_string(),
            );
            rung = next;
        }
        let expected = match shutdown {
            Shutdown::Kill => vec!["killed", "abort", "give up"],
            Shutdown::Infinity => vec!["parent requested", "give up"],
            _ => vec!["parent requested", "killed", "abort", "give up"],
        };
        assert_eq!(signals, expected);
    }
}

#[test]
fn ladder_waits_are_bounded_by_the_policy() {
    let asked = LadderRung::start(Shutdown::Timeout(Duration::from_millis(150)));
    assert_eq!(asked.wait_bound(), Some(Duration::from_millis(150)));
    assert_eq!(
        LadderRung::start(Shutdown::Kill).wait_bound(),
        Some(Duration::from_millis(100))
    );
    assert_eq!(LadderRung::start(Shutdown::Infinity).wait_bound(), None);
    assert_eq!(
        LadderRung::Aborted.wait_bound(),
        Some(Duration::from_millis(100))
    );
}

#[test]
fn group_members_are_stopped_by_their_policy() {
    let kill = stop_group_member(Shutdown::Kill);
    assert!(matches!(kill.signal, StopReason::Kill));
    assert_eq!(kill.kill_after, None);
    assert_eq!(kill.abort_after, Some(Duration::from_millis(100)));
    let timed = stop_group_member(Shutdown::Timeout(Duration::from_secs(1)));
    assert!(matches!(timed.signal, StopReason::ParentRequest));
    assert_eq!(timed.kill_after, Some(Duration::from_secs(1)));
    assert_eq!(timed.abort_after, Some(Duration::from_millis(100)));
    let endless = stop_group_member(Shutdown::Infinity);
    assert!(matches!(endless.signal, StopReason::ParentRequest));
    assert_eq!(endless.kill_after, None);
    assert_eq!(endless.abort_after, None);
}

#[test]
fn an_unresponsive_child_is_reported_as_such() {
    let id = ActorId::from("stuck");
    assert!(matches!(
        ladder_result(&id, None),
        Err(SupervisionError::ChildUnresponsive(stuck)) if stuck == id
    ));
    let fate = ChildFate {
        reason: StopReason::Kill,
        incarnation: 3,
    };
    assert_eq!(ladder_result(&id, Some(fate)).unwrap().incarnation, 3);
}

#[test]
fn zero_mailbox_capacity_returns_spawn_error_instead_of_panicking() {
    let config = ActorConfig::default().with_mailbox_capacity(0);
    let mut sys = system("zero");
    let result = spawn_actor(
        &mut sys,
        ActorId::from("cfg-zero-mailbox"),
        Some("cfg-zero-mailbox".to_string()),
        config,
        true,
        true,
    );
    match result {
        Err(SpawnError::ZeroMailboxCapacity) => {}
        Ok(_) => panic!("spawn must fail on a zero-capacity mailbox"),
        Err(other) => panic!("expected SpawnError::ZeroMailboxCapacity, got: {other:?}"),
    }
    assert!(matches!(
        check_spawn(&ActorConfig::default(), false),
        Err(SpawnError::MissingRuntime)
    ));
}

#[test]
fn spawned_actors_are_registered_with_a_fresh_context() {
    let mut sys = system("spawning");
    let spawned = spawn_actor(
        &mut sys,
        ActorId::from("worker"),
        Some("worker".to_string()),
        ActorConfig::default()
            .with_mailbox_capacity(7)
            .with_supervision(SupervisionConfig::one_for_all()),
        true,
        true,
    )
    .unwrap();
    assert_eq!(spawned.mailbox_capacity, 7);
    assert_eq!(sys.get("worker"), Some(spawned.guard.registration_seq));
    let info = spawned.context.build_status_info(2, 7);
    assert_eq!(info.id.as_str(), "worker");
    assert_eq!(info.name, Some("worker".to_string()));
    assert_eq!(info.mailbox_len, 2);
    assert_eq!(info.child_count, 0);
    let taken = spawn_actor(
        &mut sys,
        ActorId::from("worker"),
        Some("worker".to_string()),
        ActorConfig::default(),
        true,
        true,
    );
    assert!(matches!(taken, Err(SpawnError::NameTaken { .. })));
}

#[test]
fn spawn_builders_hold_what_they_were_built_with() {
    let plain = SpawnBuilder::spawn();
    assert_eq!(plain.ack, SpawnAck::Await);
    assert_eq!(plain.config.mailbox.capacity, 64);
    let id = plain.resolve_id();
    assert_eq!(id.as_str().len(), 36, "UUID should be 36 chars");
    assert_eq!(&id.as_str()[14..15], "4");
    assert_ne!(id, SpawnBuilder::spawn().resolve_id());

    let built = SpawnBuilder::spawn()
        .named("full-chain".to_string())
        .on_system("sb-full".to_string())
        .with_config(ActorConfig::default().with_mailbox_capacity(32))
        .supervisor()
        .start_timeout(Duration::from_millis(50));
    assert_eq!(built.resolve_id().as_str(), "full-chain");
    assert_eq!(built.system, Some("sb-full".to_string()));
    assert_eq!(built.config.mailbox.capacity, 32);
    assert_eq!(built.ack, SpawnAck::Timeout(Duration::from_millis(50)));
    let sup = built.config.supervision.as_ref().unwrap();
    assert_eq!(sup.max_restarts, 3);
    let custom = built
        .with_supervision(SupervisionConfig::one_for_all().max_restarts(10, Duration::from_secs(60)))
        .detached();
    assert_eq!(custom.config.supervision.unwrap().max_restarts, 10);
    assert_eq!(custom.ack, SpawnAck::Detached);
}

#[test]
fn pre_start_err_surfaces_as_spawn_error_init() {
    match ack_result(AckEvent::Failed(ActorError::user("nope"))) {
        Err(SpawnError::Init(err)) => {
            assert!(matches!(*err, ActorError::User(_)));
            assert!(err.to_string().contains("nope"));
        }
        other => panic!("expected SpawnError::Init, got: {other:?}"),
    }
    assert!(ack_result(AckEvent::Initialized).is_ok());
    assert!(matches!(
        ack_result(AckEvent::TimedOut),
        Err(SpawnError::StartTimeout)
    ));
    match ack_result(AckEvent::Lost) {
        Err(SpawnError::Init(err)) => assert_eq!(
            err.to_string(),
            "actor logic error: spawn ack channel closed before a reply arrived"
        ),
        other => panic!("expected SpawnError::Init, got: {other:?}"),
    }
}
