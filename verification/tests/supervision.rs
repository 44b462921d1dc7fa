use tokio_actors::actor::budget::RestartBudget;
use tokio_actors::actor::lifecycle::{ChildLifecycle, ManualStop};
use tokio_actors::actor::registry::{ChildRegistry, ChildSpec, ChildState};
use tokio_actors::actor::supervision::{evaluate_strategy, StrategyOutcome, SupervisionState};
use tokio_actors::{
    ActorId, ChildEvent, Duration, Instant, RestartStrategy, RestartType, Shutdown, StopReason,
    SupervisionAction, SupervisionConfig,
};

fn at_millis(millis: u64) -> Instant {
    Instant {
        nanos: u128::from(millis) * 1_000_000,
    }
}

#[test]
fn budget_allows_within_limit() {
    let mut budget = RestartBudget::new(3, Duration::from_secs(60));
    assert!(budget.check_and_record(at_millis(0)));
    assert!(budget.check_and_record(at_millis(0)));
    assert!(budget.check_and_record(at_millis(0)));
}

#[test]
fn budget_denies_when_exhausted() {
    let mut budget = RestartBudget::new(2, Duration::from_secs(60));
    assert!(budget.check_and_record(at_millis(0)));
    assert!(budget.check_and_record(at_millis(0)));
    assert!(!budget.check_and_record(at_millis(0)));
}

#[test]
fn budget_recovers_after_window() {
    let mut budget = RestartBudget::new(1, Duration::from_millis(50));
    assert!(budget.check_and_record(at_millis(0)));
    assert!(!budget.check_and_record(at_millis(0)));
    assert!(budget.check_and_record(at_millis(60)));
}

#[test]
fn budget_counts_a_restart_at_the_very_edge_of_the_window() {
    let mut budget = RestartBudget::new(1, Duration::from_millis(50));
    assert!(budget.check_and_record(at_millis(10)));
    assert!(!budget.check_and_record(at_millis(60)));
    assert!(budget.check_and_record(at_millis(61)));
}

#[test]
fn budget_of_zero_allows_nothing() {
    let mut budget = RestartBudget::new(0, Duration::from_millis(50));
    assert!(!budget.check_and_record(at_millis(10)));
    assert!(!budget.check_and_record(at_millis(1000)));
}

fn dummy_child_with(id: &str, restart_type: RestartType, alive: bool) -> ChildState {
    ChildState {
        id: ActorId::from(id),
        name: Some(id.to_string()),
        spec: ChildSpec {
            restart_type,
            shutdown: Shutdown::default(),
            start_timeout: None,
            is_supervisor: false,
        },
        lifecycle: if alive {
            ChildLifecycle::Running(0)
        } else {
            ChildLifecycle::Down {
                incarnation: 0,
                event_pending: false,
            }
        },
    }
}

fn dummy_child(id: &str) -> ChildState {
    dummy_child_with(id, RestartType::Permanent, true)
}

#[test]
fn registry_register_and_get() {
    let mut reg = ChildRegistry::new();
    reg.register(dummy_child("a"));
    reg.register(dummy_child("b"));
    assert_eq!(reg.len(), 2);
    assert!(reg.get(&ActorId::from("a")).is_some());
    assert!(reg.get(&ActorId::from("b")).is_some());
    assert!(reg.get(&ActorId::from("c")).is_none());
}

#[test]
fn registry_remove_reindexes() {
    let mut reg = ChildRegistry::new();
    reg.register(dummy_child("a"));
    reg.register(dummy_child("b"));
    reg.register(dummy_child("c"));

    reg.remove(&ActorId::from("a"));
    assert_eq!(reg.len(), 2);
    assert!(reg.get(&ActorId::from("a")).is_none());
    assert!(reg.get(&ActorId::from("b")).is_some());
    assert!(reg.get(&ActorId::from("c")).is_some());
    assert!(reg.remove(&ActorId::from("a")).is_none());
}

#[test]
fn registry_children_after() {
    let mut reg = ChildRegistry::new();
    reg.register(dummy_child("a"));
    reg.register(dummy_child("b"));
    reg.register(dummy_child("c"));

    let after_a = reg.children_after(&ActorId::from("a"));
    assert_eq!(after_a.len(), 2);
    assert_eq!(after_a[0].as_str(), "b");
    assert_eq!(after_a[1].as_str(), "c");

    let after_c = reg.children_after(&ActorId::from("c"));
    assert!(after_c.is_empty());
    assert!(reg.children_after(&ActorId::from("z")).is_empty());
}

#[test]
fn registry_all_ids() {
    let mut reg = ChildRegistry::new();
    reg.register(dummy_child("x"));
    reg.register(dummy_child("y"));
    let ids: Vec<String> = reg
        .all_ids()
        .iter()
        .map(|id| id.as_str().to_string())
        .collect();
    assert_eq!(ids, vec!["x", "y"]);
}

#[test]
fn registry_drain_all() {
    let mut reg = ChildRegistry::new();
    reg.register(dummy_child("a"));
    reg.register(dummy_child("b"));
    let drained = reg.drain_all();
    assert_eq!(drained.len(), 2);
    assert_eq!(reg.len(), 0);
}

#[test]
fn registry_update_restarted_accepts_pending_seq_only() {
    let mut reg = ChildRegistry::new();
    reg.register(dummy_child("a"));
    let seq = 7u64;
    assert!(reg.transition(
        &ActorId::from("a"),
        ChildLifecycle::Restarting {
            incarnation: 0,
            next: seq,
        }
    ));

    // Stale seq rejected
    assert!(!reg.update_restarted(&ActorId::from("a"), seq + 99));

    // Matching seq accepted; incarnation adopted
    assert!(reg.update_restarted(&ActorId::from("a"), seq));
    let child = reg.get(&ActorId::from("a")).unwrap();
    assert!(matches!(child.lifecycle, ChildLifecycle::Running(_)));
    assert_eq!(child.lifecycle.incarnation(), seq);
    assert!(child.accepts_incarnation(seq));
    assert!(!child.accepts_incarnation(0));
}

#[test]
fn lifecycle_transitions_are_default_closed() {
    let running = ChildLifecycle::Running(1);
    let stopping = ChildLifecycle::Stopping {
        incarnation: 1,
        kind: ManualStop::Bounce,
    };
    let restarting = ChildLifecycle::Restarting {
        incarnation: 1,
        next: 2,
    };
    let down = ChildLifecycle::Down {
        incarnation: 1,
        event_pending: false,
    };
    let table = [
        (running, [false, true, true, true]),
        (stopping, [false, false, true, true]),
        (restarting, [true, false, false, true]),
        (down, [false, false, true, true]),
    ];
    let targets = [running, stopping, restarting, down];
    for (from, legal) in table {
        for (to, expected) in targets.iter().zip(legal) {
            assert_eq!(
                ChildLifecycle::is_legal(&from, to),
                expected,
                "{from:?} -> {to:?}"
            );
        }
    }
    assert!(restarting.accepts_incarnation(1));
    assert!(restarting.accepts_incarnation(2));
    assert!(!restarting.accepts_incarnation(3));

    let mut child = dummy_child_with("a", RestartType::Permanent, false);
    assert_eq!(child.transition(running), Err(running));
    assert_eq!(child.transition(restarting), Ok(()));
    assert_eq!(child.lifecycle, restarting);
}

fn make_sup_state(strategy: RestartStrategy) -> SupervisionState {
    SupervisionState::new(SupervisionConfig {
        strategy,
        max_restarts: 3,
        restart_window: Duration::from_secs(60),
    })
}

#[test]
fn strategy_permanent_restarts_on_any_reason() {
    let mut sup = make_sup_state(RestartStrategy::OneForOne);
    sup.registry.register(dummy_child("child"));
    match evaluate_strategy(
        &mut sup,
        &ActorId::from("child"),
        &StopReason::Graceful,
        at_millis(0),
    ) {
        StrategyOutcome::RestartOne(id) => assert_eq!(id.as_str(), "child"),
        _ => panic!("expected RestartOne"),
    }
}

#[test]
fn strategy_transient_removes_on_clean_reasons_restarts_on_abnormal() {
    let mut sup = make_sup_state(RestartStrategy::OneForOne);
    sup.registry
        .register(dummy_child_with("child", RestartType::Transient, true));
    let id = ActorId::from("child");
    // Clean: normal (Graceful) and shutdown (ParentRequest) stay down.
    assert!(matches!(
        evaluate_strategy(&mut sup, &id, &StopReason::Graceful, at_millis(0)),
        StrategyOutcome::Remove
    ));
    assert!(matches!(
        evaluate_strategy(&mut sup, &id, &StopReason::ParentRequest, at_millis(0)),
        StrategyOutcome::Remove
    ));
    // Abnormal: killed restarts.
    assert!(matches!(
        evaluate_strategy(&mut sup, &id, &StopReason::Kill, at_millis(0)),
        StrategyOutcome::RestartOne(_)
    ));
}

#[test]
fn strategy_temporary_always_removes() {
    let mut sup = make_sup_state(RestartStrategy::OneForOne);
    sup.registry
        .register(dummy_child_with("child", RestartType::Temporary, true));
    assert!(matches!(
        evaluate_strategy(
            &mut sup,
            &ActorId::from("child"),
            &StopReason::Kill,
            at_millis(0)
        ),
        StrategyOutcome::Remove
    ));
}

fn mark_down(sup: &mut SupervisionState, id: &str) {
    sup.registry.settle(&ActorId::from(id));
}

fn group_of(outcome: StrategyOutcome) -> (Vec<String>, Vec<String>) {
    match outcome {
        StrategyOutcome::RestartGroup {
            stop_reverse,
            restart_order,
        } => (
            stop_reverse.iter().map(|i| i.as_str().to_string()).collect(),
            restart_order.iter().map(|i| i.as_str().to_string()).collect(),
        ),
        _ => panic!("expected RestartGroup"),
    }
}

#[test]
fn strategy_one_for_all_stops_live_reverse_restarts_forward() {
    let mut sup = make_sup_state(RestartStrategy::OneForAll);
    sup.registry.register(dummy_child("a"));
    sup.registry.register(dummy_child("b"));
    sup.registry.register(dummy_child("c"));
    // b failed (already dead)
    mark_down(&mut sup, "b");
    let (stops, restarts) = group_of(evaluate_strategy(
        &mut sup,
        &ActorId::from("b"),
        &StopReason::Kill,
        at_millis(0),
    ));
    assert_eq!(stops, vec!["c", "a"], "live members, reverse start order");
    assert_eq!(restarts, vec!["a", "b", "c"], "all members, start order");
}

#[test]
fn strategy_rest_for_one_affects_failed_and_later() {
    let mut sup = make_sup_state(RestartStrategy::RestForOne);
    sup.registry.register(dummy_child("a"));
    sup.registry.register(dummy_child("b"));
    sup.registry.register(dummy_child("c"));
    mark_down(&mut sup, "a");
    let (stops, restarts) = group_of(evaluate_strategy(
        &mut sup,
        &ActorId::from("a"),
        &StopReason::Kill,
        at_millis(0),
    ));
    assert_eq!(stops, vec!["c", "b"]);
    assert_eq!(restarts, vec!["a", "b", "c"]);
}

#[test]
fn strategy_rest_for_one_leaves_earlier_children_alone() {
    let mut sup = make_sup_state(RestartStrategy::RestForOne);
    sup.registry.register(dummy_child("a"));
    sup.registry.register(dummy_child("b"));
    sup.registry.register(dummy_child("c"));
    mark_down(&mut sup, "b");
    let (stops, restarts) = group_of(evaluate_strategy(
        &mut sup,
        &ActorId::from("b"),
        &StopReason::Kill,
        at_millis(0),
    ));
    assert_eq!(stops, vec!["c"]);
    assert_eq!(restarts, vec!["b", "c"]);
}

#[test]
fn strategy_group_excludes_temporary_from_restart_but_stops_it() {
    let mut sup = make_sup_state(RestartStrategy::OneForAll);
    sup.registry.register(dummy_child("a"));
    sup.registry
        .register(dummy_child_with("tmp", RestartType::Temporary, true));
    mark_down(&mut sup, "a");
    let (stops, restarts) = group_of(evaluate_strategy(
        &mut sup,
        &ActorId::from("a"),
        &StopReason::Kill,
        at_millis(0),
    ));
    assert_eq!(stops, vec!["tmp"], "temporary sibling is stopped");
    assert_eq!(restarts, vec!["a"], "temporary sibling is not restarted");
}

#[test]
fn strategy_budget_exhausted() {
    let mut sup = SupervisionState::new(SupervisionConfig {
        strategy: RestartStrategy::OneForOne,
        max_restarts: 1,
        restart_window: Duration::from_secs(60),
    });
    sup.registry.register(dummy_child("child"));
    // First restart - uses the budget
    assert!(matches!(
        evaluate_strategy(
            &mut sup,
            &ActorId::from("child"),
            &StopReason::Kill,
            at_millis(0)
        ),
        StrategyOutcome::RestartOne(_)
    ));
    // Second restart - budget exhausted
    assert!(matches!(
        evaluate_strategy(
            &mut sup,
            &ActorId::from("child"),
            &StopReason::Kill,
            at_millis(0)
        ),
        StrategyOutcome::BudgetExhausted
    ));
}

#[test]
fn strategy_survives_zero_elapsed_restarts_with_underflowing_window() {
    let mut sup = SupervisionState::new(SupervisionConfig {
        strategy: RestartStrategy::OneForOne,
        max_restarts: 2,
        restart_window: Duration::new(u64::MAX, 999_999_999),
    });
    sup.registry.register(dummy_child("child"));
    let id = ActorId::from("child");

    // Two immediate restarts consume the budget, no panic on either.
    assert!(matches!(
        evaluate_strategy(&mut sup, &id, &StopReason::Kill, at_millis(0)),
        StrategyOutcome::RestartOne(_)
    ));
    assert!(matches!(
        evaluate_strategy(&mut sup, &id, &StopReason::Kill, at_millis(0)),
        StrategyOutcome::RestartOne(_)
    ));
    // A third restart, still with zero elapsed time, is denied.
    assert!(matches!(
        evaluate_strategy(&mut sup, &id, &StopReason::Kill, at_millis(0)),
        StrategyOutcome::BudgetExhausted
    ));
}

#[test]
fn strategy_ignores_unknown_children() {
    let mut sup = make_sup_state(RestartStrategy::OneForAll);
    sup.registry.register(dummy_child("a"));
    assert!(matches!(
        evaluate_strategy(
            &mut sup,
            &ActorId::from("ghost"),
            &StopReason::Kill,
            at_millis(0)
        ),
        StrategyOutcome::Remove
    ));
}

#[test]
fn supervision_config_strategies() {
    let configs = vec![
        (
            SupervisionConfig::one_for_one(),
            RestartStrategy::OneForOne,
        ),
        (
            SupervisionConfig::one_for_all(),
            RestartStrategy::OneForAll,
        ),
        (
            SupervisionConfig::rest_for_one(),
            RestartStrategy::RestForOne,
        ),
        (
            SupervisionConfig::simple_one_for_one(),
            RestartStrategy::SimpleOneForOne,
        ),
    ];
    for (config, strategy) in configs {
        assert_eq!(config.strategy, strategy);
        assert_eq!(config.max_restarts, 3);
        assert_eq!(config.restart_window, Duration::from_secs(5));
    }
}

#[test]
fn supervision_config_one_for_one_defaults() {
    let cfg = SupervisionConfig::one_for_one();
    assert_eq!(cfg.strategy, RestartStrategy::OneForOne);
    assert_eq!(cfg.max_restarts, 3);
    assert_eq!(cfg.restart_window, Duration::from_secs(5));
}

#[test]
fn supervision_config_one_for_all_with_custom_budget() {
    let cfg = SupervisionConfig::one_for_all().max_restarts(10, Duration::from_secs(60));
    assert_eq!(cfg.strategy, RestartStrategy::OneForAll);
    assert_eq!(cfg.max_restarts, 10);
    assert_eq!(cfg.restart_window, Duration::from_secs(60));
}

#[test]
fn supervision_config_rest_for_one() {
    let cfg = SupervisionConfig::rest_for_one();
    assert_eq!(cfg.strategy, RestartStrategy::RestForOne);
}

#[test]
fn supervision_config_simple_one_for_one() {
    let cfg = SupervisionConfig::simple_one_for_one();
    assert_eq!(cfg.strategy, RestartStrategy::SimpleOneForOne);
}

#[test]
fn child_event_fields() {
    let event = ChildEvent {
        child_id: "test-child".into(),
        child_name: Some("test-child".to_string()),
        reason: StopReason::Graceful,
        action: SupervisionAction::Removed,
    };

    assert_eq!(event.child_id.as_str(), "test-child");
    assert_eq!(event.child_name, Some("test-child".to_string()));
    assert_eq!(event.action, SupervisionAction::Removed);
}

#[test]
fn supervision_action_variants() {
    assert_eq!(
        SupervisionAction::RestartInitiated,
        SupervisionAction::RestartInitiated
    );
    assert_eq!(SupervisionAction::Removed, SupervisionAction::Removed);
    assert_eq!(
        SupervisionAction::NotSupervised,
        SupervisionAction::NotSupervised
    );
    assert_eq!(
        SupervisionAction::BudgetExhausted,
        SupervisionAction::BudgetExhausted
    );
    assert_ne!(
        SupervisionAction::RestartInitiated,
        SupervisionAction::Removed
    );
}

#[test]
fn shutdown_default_is_timeout_5s() {
    let shutdown = Shutdown::default();
    assert_eq!(shutdown, Shutdown::Timeout(Duration::from_secs(5)));
}

#[test]
fn restart_type_variants() {
    assert_eq!(RestartType::Permanent, RestartType::Permanent);
    assert_eq!(RestartType::Transient, RestartType::Transient);
    assert_eq!(RestartType::Temporary, RestartType::Temporary);
    assert_ne!(RestartType::Permanent, RestartType::Temporary);
}
