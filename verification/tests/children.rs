use std::collections::{HashMap, VecDeque};
use tokio_actors::actor::child_events::{
    attempt_outcome, AttemptResult, RestartOutcome, RestartStep,
};
use tokio_actors::actor::context::{ForwarderEnd, ForwarderKind};
use tokio_actors::actor::lifecycle::ManualStop;
use tokio_actors::actor::management::ManualBegin;
use tokio_actors::actor::supervision::Attempt;
use tokio_actors::types::{ChildFate, ChildStoppedInternal};
use tokio_actors::{
    ActorConfig, ActorContext, ActorError, ActorId, ActorStatus, ChildEvent, ChildInfo, Duration,
    Instant, RecurringId, RestartType, Shutdown, SpawnError, StopReason, StreamError,
    SupervisionAction, SupervisionConfig, SupervisionError, TimerError,
};

/// A supervisor whose children are played by the test.
struct Sup {
    ctx: ActorContext,
    seq: u64,
    now: Instant,
    live: HashMap<String, u64>,
    attempts: VecDeque<Attempt>,
    stops: Vec<String>,
    events: Vec<ChildEvent>,
    stopped: Option<StopReason>,
}

fn crash() -> StopReason {
    StopReason::Failure(ActorError::Panic("worker crashed on command".into()))
}

impl Sup {
    fn new(config: SupervisionConfig) -> Sup {
        Sup {
            ctx: ActorContext::new(
                ActorId::from("sup"),
                Some("sup".to_string()),
                Some(config),
            ),
            seq: 100,
            now: Instant { nanos: 0 },
            live: HashMap::new(),
            attempts: VecDeque::new(),
            stops: Vec::new(),
            events: Vec::new(),
            stopped: None,
        }
    }

    fn token(&mut self) -> u64 {
        self.seq += 1;
        self.seq
    }

    fn spawn(&mut self, name: &str, restart_type: RestartType) {
        self.try_spawn(name, restart_type).unwrap();
    }

    fn try_spawn(&mut self, name: &str, restart_type: RestartType) -> Result<(), SpawnError> {
        let builder = self
            .ctx
            .spawn_child()
            .named(name.to_string())
            .restart_type(restart_type);
        let plan = self.ctx.spawn_child_internal(builder)?;
        let incarnation = self.token();
        self.ctx.child_spawned(plan, incarnation)?;
        self.live.insert(name.to_string(), incarnation);
        Ok(())
    }

    /// The live instance of a child dies.
    fn die(&mut self, name: &str, reason: StopReason) {
        let incarnation = self.live.remove(name).unwrap();
        self.report(name, reason, incarnation);
    }

    fn report(&mut self, name: &str, reason: StopReason, incarnation: u64) {
        let event = ChildStoppedInternal {
            child_id: ActorId::from(name),
            reason,
            incarnation,
        };
        self.deal(event);
    }

    fn deal(&mut self, event: ChildStoppedInternal) {
        let mut work = VecDeque::from([event]);
        while let Some(event) = work.pop_front() {
            let seq = self.token();
            let now = self.now;
            let step = self.ctx.child_stopped(event, &mut work, seq, now);
            self.attempts.extend(step.attempt);
            self.stops
                .extend(step.stops.iter().map(|stop| stop.child_id.to_string()));
            if let Some(report) = step.report {
                let action = report.action;
                self.events.push(report);
                if let Some(reason) = self.ctx.child_reported(action, None) {
                    self.stopped = Some(reason);
                    return;
                }
            }
        }
    }

    /// The oldest attempt in flight ends.
    fn settle(&mut self, result: AttemptResult) -> String {
        let attempt = self.attempts.pop_front().unwrap();
        let name = attempt.child_id.to_string();
        self.end_attempt(attempt, result);
        name
    }

    fn end_attempt(&mut self, attempt: Attempt, result: AttemptResult) {
        let name = attempt.child_id.to_string();
        let outcome = attempt_outcome(attempt.child_id, attempt.seq, result);
        let next = self.token();
        match self.ctx.restart_finished(outcome, next).unwrap() {
            RestartStep::Died(event) => self.deal(event),
            RestartStep::Offered(step) => {
                if step.accepted {
                    self.live.insert(name, attempt.seq);
                }
                self.stops
                    .extend(step.stop.iter().map(|stop| stop.child_id.to_string()));
                self.attempts.extend(step.attempt);
                for event in step.drained {
                    self.deal(event);
                }
            }
        }
    }

    /// Stops a child by hand; the child stops for the given reason.
    fn stop_by_hand(
        &mut self,
        name: &str,
        kind: ManualStop,
        reason: StopReason,
    ) -> Result<(), SupervisionError> {
        let id = ActorId::from(name);
        let begun = match kind {
            ManualStop::Bounce => self.ctx.stop_child(id.clone(), false)?,
            ManualStop::Terminate => self.ctx.terminate_child(id.clone(), false)?,
        };
        let incarnation = match begun {
            ManualBegin::AlreadyDown => return Ok(()),
            ManualBegin::DiedFirst { incarnation } => incarnation,
            ManualBegin::Committed { incarnation, .. } => incarnation,
        };
        self.live.remove(name);
        let fate = ChildFate {
            reason: reason.clone(),
            incarnation,
        };
        let seq = self.token();
        let attempt = self
            .ctx
            .finish_manual_stop(&id, incarnation, kind, fate, seq);
        self.attempts.extend(attempt);
        self.report(name, reason, incarnation);
        Ok(())
    }

    fn terminate(&mut self, name: &str) -> Result<(), SupervisionError> {
        self.stop_by_hand(name, ManualStop::Terminate, StopReason::ParentRequest)
    }

    fn bounce(&mut self, name: &str) -> Result<(), SupervisionError> {
        self.stop_by_hand(name, ManualStop::Bounce, StopReason::ParentRequest)
    }

    fn restart(&mut self, name: &str) -> Result<(), SupervisionError> {
        let seq = self.token();
        let attempt = self.ctx.restart_child(ActorId::from(name), seq)?;
        self.attempts.extend(attempt);
        Ok(())
    }

    fn delete(&mut self, name: &str) -> Result<(), SupervisionError> {
        self.ctx.delete_child(ActorId::from(name))
    }

    fn info(&self, name: &str) -> Option<ChildInfo> {
        self.ctx
            .children()
            .into_iter()
            .find(|info| info.id.as_str() == name)
    }

    fn last(&self) -> &ChildEvent {
        self.events.last().unwrap()
    }
}

fn one_for_one(max: u32) -> Sup {
    Sup::new(SupervisionConfig::one_for_one().max_restarts(max, Duration::from_secs(60)))
}

fn one_for_all(max: u32) -> Sup {
    Sup::new(SupervisionConfig::one_for_all().max_restarts(max, Duration::from_secs(60)))
}

#[test]
fn terminate_child_stops_without_restart() {
    let mut sup = one_for_one(3);
    sup.spawn("worker", RestartType::Permanent);
    sup.terminate("worker").unwrap();

    assert_eq!(sup.events.len(), 1);
    assert!(matches!(sup.last().reason, StopReason::ParentRequest));
    assert_eq!(sup.last().action, SupervisionAction::Removed);
    assert!(sup.attempts.is_empty());

    let info = sup.info("worker").unwrap();
    assert!(!info.is_alive);
    assert!(!info.restart_pending);
    assert_eq!(info.restart_type, RestartType::Permanent);

    sup.terminate("worker").unwrap();
    assert_eq!(sup.events.len(), 1, "terminating twice reports once");
}

#[test]
fn terminate_child_prunes_temporary() {
    let mut sup = one_for_one(3);
    sup.spawn("temp", RestartType::Temporary);
    sup.terminate("temp").unwrap();
    assert!(sup.info("temp").is_none());
}

#[test]
fn terminate_child_event_carries_name_even_when_the_spec_is_pruned() {
    let mut sup = one_for_one(3);
    sup.spawn("temp", RestartType::Temporary);
    sup.terminate("temp").unwrap();
    assert_eq!(sup.last().child_name.as_deref(), Some("temp"));
}

#[test]
fn stop_child_bounce_restarts_permanent_budget_free() {
    let mut sup = one_for_one(1);
    sup.spawn("worker", RestartType::Permanent);
    for _ in 0..2 {
        sup.bounce("worker").unwrap();
        assert_eq!(sup.last().action, SupervisionAction::RestartInitiated);
        assert!(matches!(sup.last().reason, StopReason::ParentRequest));
        sup.settle(AttemptResult::Initialized);
    }
    // The single budget slot is untouched by the bounces.
    sup.die("worker", crash());
    assert_eq!(sup.last().action, SupervisionAction::RestartInitiated);
    assert!(matches!(sup.last().reason, StopReason::Failure(_)));
    assert!(sup.stopped.is_none());
}

#[test]
fn stop_child_transient_stays_down() {
    let mut sup = one_for_one(3);
    sup.spawn("worker", RestartType::Transient);
    sup.bounce("worker").unwrap();
    assert_eq!(sup.last().action, SupervisionAction::Removed);
    assert!(sup.attempts.is_empty());
    let info = sup.info("worker").unwrap();
    assert!(!info.is_alive);
    assert!(!info.restart_pending);
}

#[test]
fn delete_child_lifecycle() {
    let mut sup = one_for_one(3);
    sup.spawn("worker", RestartType::Permanent);
    let err = sup.delete("worker").unwrap_err();
    assert!(err.to_string().contains("is running"));

    sup.terminate("worker").unwrap();
    sup.delete("worker").unwrap();
    assert!(sup.ctx.children().is_empty());

    let err = sup.restart("worker").unwrap_err();
    assert!(err.to_string().contains("not found"));
}

#[test]
fn restart_child_revives_terminated() {
    let mut sup = one_for_one(3);
    sup.spawn("worker", RestartType::Permanent);
    sup.terminate("worker").unwrap();
    sup.restart("worker").unwrap();
    assert!(sup.info("worker").unwrap().restart_pending);
    let err = sup.restart("worker").unwrap_err();
    assert!(err.to_string().contains("is restarting"));

    sup.settle(AttemptResult::Initialized);
    let info = sup.info("worker").unwrap();
    assert!(info.is_alive && !info.restart_pending);
    let err = sup.restart("worker").unwrap_err();
    assert!(err.to_string().contains("is running"));
}

#[test]
fn terminate_hung_child_abort_backstop() {
    let mut sup = one_for_one(3);
    sup.spawn("hung", RestartType::Permanent);
    sup.stop_by_hand("hung", ManualStop::Terminate, StopReason::Cancelled)
        .unwrap();
    assert!(
        matches!(sup.last().reason, StopReason::Kill),
        "an aborted supervised child must be reported as Kill"
    );
    assert_eq!(sup.last().action, SupervisionAction::Removed);
}

#[test]
fn a_child_that_died_first_is_absorbed_by_its_termination() {
    let mut sup = one_for_one(3);
    sup.spawn("worker", RestartType::Permanent);
    let incarnation = sup.live.remove("worker").unwrap();
    let id = ActorId::from("worker");
    let begun = sup.ctx.terminate_child(id.clone(), true).unwrap();
    assert_eq!(begun, ManualBegin::DiedFirst { incarnation });
    let fate = ChildFate {
        reason: crash(),
        incarnation,
    };
    let attempt = sup
        .ctx
        .finish_manual_stop(&id, incarnation, ManualStop::Terminate, fate, 500);
    assert!(attempt.is_none());
    sup.report("worker", crash(), incarnation);
    assert_eq!(sup.events.len(), 1);
    assert_eq!(sup.last().action, SupervisionAction::Removed);
}

#[test]
fn an_abandoned_manual_stop_is_finished_by_the_death() {
    let mut sup = one_for_one(3);
    sup.spawn("worker", RestartType::Permanent);
    let begun = sup
        .ctx
        .terminate_child(ActorId::from("worker"), false)
        .unwrap();
    assert!(matches!(begun, ManualBegin::Committed { .. }));
    let err = sup
        .ctx
        .terminate_child(ActorId::from("worker"), false)
        .unwrap_err();
    assert!(err.to_string().contains("is restarting"));
    sup.die("worker", StopReason::Cancelled);
    assert_eq!(sup.events.len(), 1);
    assert!(matches!(sup.last().reason, StopReason::Kill));
    assert_eq!(sup.last().action, SupervisionAction::Removed);
    assert!(sup.attempts.is_empty());
}

#[test]
fn manual_ops_error_during_pending_group() {
    let mut sup = one_for_all(5);
    sup.spawn("a", RestartType::Permanent);
    sup.spawn("veto", RestartType::Permanent);
    sup.spawn("c", RestartType::Permanent);
    sup.die("a", crash());
    assert_eq!(sup.stops, vec!["c", "veto"], "reverse start order");
    for name in ["veto", "a"] {
        let err = sup
            .ctx
            .stop_child(ActorId::from(name), false)
            .unwrap_err();
        assert!(err.to_string().contains("is restarting"));
    }
    assert!(sup.delete("a").unwrap_err().to_string().contains("is restarting"));
    assert!(sup.stopped.is_none());
}

#[test]
fn terminate_during_group_stop_overrides_default_restart() {
    let mut sup = one_for_all(5);
    sup.spawn("a", RestartType::Permanent);
    sup.spawn("veto", RestartType::Permanent);
    sup.die("a", crash());
    assert_eq!(sup.stops, vec!["veto"]);

    sup.stop_by_hand("veto", ManualStop::Terminate, StopReason::Kill)
        .unwrap();
    let event = sup.last();
    assert_eq!(event.child_name.as_deref(), Some("veto"));
    assert_eq!(event.action, SupervisionAction::Removed);

    // The group still completes for its other member.
    assert_eq!(sup.settle(AttemptResult::Initialized), "a");
    assert!(sup.attempts.is_empty(), "the overridden member stays down");
    assert!(!sup.info("veto").unwrap().is_alive);
    sup.delete("veto").unwrap();
}

#[test]
fn a_temporary_member_that_is_terminated_with_its_group_keeps_its_name_in_the_event() {
    let mut sup = one_for_all(5);
    sup.spawn("a", RestartType::Permanent);
    sup.spawn("temp", RestartType::Temporary);
    sup.die("a", crash());
    // The caller goes away right after the override was recorded.
    let begun = sup.ctx.terminate_child(ActorId::from("temp"), false);
    assert!(matches!(begun, Ok(ManualBegin::Committed { .. })));
    sup.die("temp", StopReason::ParentRequest);
    assert_eq!(sup.last().action, SupervisionAction::Removed);
    assert_eq!(sup.last().child_name.as_deref(), Some("temp"));
    assert!(sup.info("temp").is_none());
    assert_eq!(sup.settle(AttemptResult::Initialized), "a");
}

#[test]
fn a_temporary_member_leaves_with_its_group() {
    let mut sup = one_for_all(5);
    sup.spawn("a", RestartType::Permanent);
    sup.spawn("temp", RestartType::Temporary);
    sup.spawn("c", RestartType::Transient);
    sup.die("a", crash());
    assert_eq!(sup.stops, vec!["c", "temp"]);
    sup.die("temp", StopReason::ParentRequest);
    assert_eq!(sup.last().action, SupervisionAction::Removed);
    assert_eq!(sup.last().child_name.as_deref(), Some("temp"));
    assert!(sup.info("temp").is_none());
    sup.spawn("temp", RestartType::Permanent);
    sup.die("c", StopReason::ParentRequest);
    assert_eq!(sup.last().action, SupervisionAction::RestartInitiated);
    assert_eq!(sup.settle(AttemptResult::Initialized), "a");
    assert_eq!(sup.settle(AttemptResult::Initialized), "c");
    assert!(sup.attempts.is_empty());
    assert!(sup.ctx.children().iter().all(|info| info.is_alive));
}

#[test]
fn a_temporary_member_whose_death_is_the_last_begins_the_chain() {
    let mut sup = one_for_all(5);
    sup.spawn("a", RestartType::Permanent);
    sup.spawn("temp", RestartType::Temporary);
    sup.die("a", crash());
    sup.die("temp", StopReason::Cancelled);
    assert_eq!(sup.last().action, SupervisionAction::Removed);
    assert!(matches!(sup.last().reason, StopReason::Kill));
    assert_eq!(sup.settle(AttemptResult::Initialized), "a");
    assert!(sup.attempts.is_empty());
    assert_eq!(sup.ctx.children().len(), 1);
}

#[test]
fn terminate_child_absorbs_a_racing_failure() {
    let mut sup = one_for_one(1);
    sup.spawn("worker", RestartType::Permanent);
    sup.spawn("sibling", RestartType::Permanent);
    sup.stop_by_hand("worker", ManualStop::Terminate, crash())
        .unwrap();
    assert!(matches!(sup.last().reason, StopReason::Failure(_)));
    assert_eq!(sup.last().action, SupervisionAction::Removed);
    assert_eq!(sup.events.len(), 1);
    assert!(sup.attempts.is_empty());
    // The budget was not charged.
    sup.die("sibling", crash());
    assert_eq!(sup.last().action, SupervisionAction::RestartInitiated);
}

#[test]
fn stop_child_bounce_racing_failure_charges_the_budget() {
    let mut sup = one_for_one(1);
    sup.spawn("worker", RestartType::Permanent);
    sup.stop_by_hand("worker", ManualStop::Bounce, crash())
        .unwrap();
    assert!(matches!(sup.last().reason, StopReason::Failure(_)));
    assert_eq!(sup.last().action, SupervisionAction::RestartInitiated);
    sup.settle(AttemptResult::Initialized);

    sup.stop_by_hand("worker", ManualStop::Bounce, crash())
        .unwrap();
    assert_eq!(sup.last().action, SupervisionAction::BudgetExhausted);
    assert!(matches!(sup.stopped, Some(StopReason::ParentRequest)));
}

#[test]
fn adopted_solo_during_group_stopping_joins_awaiting_and_the_chain_completes() {
    let mut sup = one_for_all(10);
    for name in ["a", "b", "c"] {
        sup.spawn(name, RestartType::Permanent);
    }
    // b is bounced; its restart is still in flight when a crashes.
    sup.bounce("b").unwrap();
    sup.die("a", crash());
    assert_eq!(sup.stops, vec!["c"]);
    // b comes up while c is still being stopped: it is told to stop at once.
    sup.settle(AttemptResult::Initialized);
    assert_eq!(sup.stops, vec!["c", "b"]);
    assert!(sup.attempts.is_empty());
    sup.die("c", StopReason::ParentRequest);
    assert!(sup.attempts.is_empty(), "b is still awaited");
    sup.die("b", StopReason::Kill);
    // The chain restarts everyone in start order, one at a time.
    let mut order = Vec::new();
    while !sup.attempts.is_empty() {
        assert_eq!(sup.attempts.len(), 1);
        order.push(sup.settle(AttemptResult::Initialized));
    }
    assert_eq!(order, vec!["a", "b", "c"]);
    assert!(sup.ctx.children().iter().all(|info| info.is_alive));
}

#[test]
fn group_chain_holds_for_an_independent_restart_then_escalates_and_proceeds() {
    let mut sup = one_for_all(10);
    for name in ["a", "b", "c"] {
        sup.spawn(name, RestartType::Permanent);
    }
    sup.bounce("b").unwrap();
    let bounced = sup.attempts.pop_front().unwrap();
    sup.die("a", crash());
    sup.die("c", StopReason::ParentRequest);
    assert_eq!(sup.settle(AttemptResult::Initialized), "a");
    // The chain holds for b's own attempt instead of starting a second one.
    assert!(sup.attempts.is_empty());
    sup.end_attempt(bounced, AttemptResult::TimedOut);
    assert!(matches!(
        sup.last().reason,
        StopReason::Failure(ActorError::Spawn(SpawnError::StartTimeout))
    ));
    assert_eq!(sup.settle(AttemptResult::Initialized), "b");
    assert_eq!(sup.settle(AttemptResult::Initialized), "c");
    assert!(sup.attempts.is_empty());
}

#[test]
fn one_for_all_down_member_rejoins_chain_budget_charged_once() {
    let mut sup = one_for_all(2);
    for name in ["a", "b", "c"] {
        sup.spawn(name, RestartType::Permanent);
    }
    sup.terminate("b").unwrap();

    for _ in 0..2 {
        sup.die("a", crash());
        assert_eq!(sup.last().action, SupervisionAction::RestartInitiated);
        if sup.live.contains_key("c") {
            sup.die("c", StopReason::ParentRequest);
        }
        if sup.live.contains_key("b") {
            sup.die("b", StopReason::ParentRequest);
        }
        let mut order = Vec::new();
        while !sup.attempts.is_empty() {
            order.push(sup.settle(AttemptResult::Initialized));
        }
        assert_eq!(order, vec!["a", "b", "c"]);
    }
    assert!(sup.stopped.is_none());
    sup.die("a", crash());
    assert!(matches!(sup.stopped, Some(StopReason::ParentRequest)));
}

#[test]
fn factory_panic_in_restart_task_surfaces_typed_and_charges_budget() {
    let mut sup = one_for_one(2);
    sup.spawn("worker", RestartType::Permanent);
    sup.die("worker", crash());
    sup.settle(AttemptResult::FactoryPanicked(
        "factory boom on restart".into(),
    ));
    assert!(matches!(
        &sup.last().reason,
        StopReason::Failure(ActorError::Supervision(SupervisionError::FactoryFailed(text)))
            if text == "factory boom on restart"
    ));
    assert_eq!(sup.last().action, SupervisionAction::RestartInitiated);
    sup.settle(AttemptResult::Initialized);
    assert!(sup.stopped.is_none());
    sup.die("worker", crash());
    assert!(sup.stopped.is_some());
}

#[test]
fn restart_start_timeout_surfaces_as_typed_spawn_error() {
    let mut sup = one_for_one(5);
    sup.spawn("worker", RestartType::Permanent);
    sup.die("worker", crash());
    sup.settle(AttemptResult::TimedOut);
    assert!(matches!(
        sup.last().reason,
        StopReason::Failure(ActorError::Spawn(SpawnError::StartTimeout))
    ));
}

#[test]
fn attempts_that_fail_are_told_apart() {
    let reason = |result| match attempt_outcome(ActorId::from("w"), 4, result) {
        RestartOutcome::Failed {
            incarnation,
            reason,
            ..
        } => {
            assert_eq!(incarnation, 4);
            reason.to_string()
        }
        RestartOutcome::Adopted { .. } => "adopted".to_string(),
    };
    assert_eq!(reason(AttemptResult::Initialized), "adopted");
    assert_eq!(
        reason(AttemptResult::SpawnFailed(SpawnError::MissingRuntime)),
        "failure: tokio runtime handle not in scope"
    );
    assert_eq!(
        reason(AttemptResult::InitFailed(ActorError::user("nope"))),
        "failure: actor logic error: nope"
    );
    assert_eq!(
        reason(AttemptResult::AckLost),
        "failure: actor logic error: restart ack channel closed before a reply arrived"
    );
}

#[test]
fn anonymous_child_restarts_twice_with_stable_id() {
    let mut sup = one_for_one(5);
    let builder = sup.ctx.spawn_child();
    let plan = sup.ctx.spawn_child_internal(builder).unwrap();
    let id = plan.child_id.to_string();
    assert_eq!(id.len(), 36);
    sup.ctx.child_spawned(plan, 1).unwrap();
    sup.live.insert(id.clone(), 1);
    for _ in 0..2 {
        sup.die(&id, crash());
        assert_eq!(sup.settle(AttemptResult::Initialized), id);
    }
    assert_eq!(sup.events.len(), 2);
    assert!(sup.events.iter().all(|event| event.child_id.as_str() == id
        && event.child_name.is_none()
        && event.action == SupervisionAction::RestartInitiated));
    assert_eq!(sup.ctx.children().len(), 1);
}

#[test]
fn mass_death_zero_loss() {
    const N: usize = 80;
    let mut sup = one_for_one(200);
    for i in 0..N {
        sup.spawn(&format!("crasher-{i}"), RestartType::Temporary);
    }
    for i in 0..N {
        sup.die(&format!("crasher-{i}"), crash());
    }
    assert_eq!(sup.events.len(), N);
    assert!(sup.events.iter().all(|event| matches!(
        event.reason,
        StopReason::Failure(ActorError::Panic(_))
    ) && event.action == SupervisionAction::Removed));
    assert!(sup.ctx.children().is_empty());
    assert!(sup.stopped.is_none());
}

#[test]
fn no_two_live_incarnations_under_rapid_consecutive_crashes() {
    let mut sup = one_for_one(50);
    sup.spawn("rapid", RestartType::Permanent);
    for _ in 0..20 {
        sup.die("rapid", crash());
        let attempt = sup.attempts.pop_front().unwrap();
        // A stray instance with another token is never adopted.
        let stray = attempt_outcome(
            attempt.child_id.clone(),
            attempt.seq + 1000,
            AttemptResult::Initialized,
        );
        match sup.ctx.restart_finished(stray, 1).unwrap() {
            RestartStep::Offered(step) => assert!(!step.accepted),
            RestartStep::Died(_) => panic!("expected an offer"),
        }
        sup.end_attempt(attempt, AttemptResult::Initialized);
        assert!(sup.info("rapid").unwrap().is_alive);
    }
}

#[test]
fn stale_deaths_are_not_reported() {
    let mut sup = one_for_one(5);
    sup.spawn("worker", RestartType::Permanent);
    sup.report("worker", crash(), 7);
    assert!(sup.events.is_empty());
    assert!(sup.info("worker").unwrap().is_alive);
}

#[test]
fn deaths_outside_the_group_wait_until_it_is_complete() {
    let mut sup = Sup::new(
        SupervisionConfig::rest_for_one().max_restarts(10, Duration::from_secs(60)),
    );
    for name in ["a", "b", "c"] {
        sup.spawn(name, RestartType::Permanent);
    }
    sup.die("b", crash());
    assert_eq!(sup.stops, vec!["c"]);
    // a dies while b and c are being restarted: it has to wait.
    sup.die("a", crash());
    assert_eq!(sup.events.len(), 1);
    sup.die("c", StopReason::ParentRequest);
    assert_eq!(sup.settle(AttemptResult::Initialized), "b");
    assert_eq!(sup.settle(AttemptResult::Initialized), "c");
    // Now a's death is evaluated, and takes b and c down with it.
    assert_eq!(sup.events.len(), 3);
    assert_eq!(sup.last().child_id.as_str(), "a");
    assert_eq!(sup.stops, vec!["c", "c", "b"]);
}

#[test]
fn a_failed_restart_within_the_chain_is_retried_on_the_budget() {
    let mut sup = one_for_all(2);
    sup.spawn("a", RestartType::Permanent);
    sup.spawn("b", RestartType::Permanent);
    sup.die("a", crash());
    sup.die("b", StopReason::ParentRequest);
    sup.settle(AttemptResult::InitFailed(ActorError::user("not yet")));
    assert_eq!(sup.last().action, SupervisionAction::RestartInitiated);
    sup.settle(AttemptResult::InitFailed(ActorError::user("not yet")));
    assert_eq!(sup.last().action, SupervisionAction::BudgetExhausted);
    assert!(matches!(sup.stopped, Some(StopReason::ParentRequest)));
}

#[test]
fn budget_exhaustion_records_structured_supervision_error() {
    let mut sup = one_for_one(0);
    sup.spawn("worker", RestartType::Permanent);
    sup.die("worker", crash());
    assert_eq!(sup.last().action, SupervisionAction::BudgetExhausted);
    assert!(matches!(
        sup.ctx.last_error(),
        Some(ActorError::Supervision(SupervisionError::BudgetExhausted))
    ));
    assert!(matches!(sup.stopped, Some(StopReason::ParentRequest)));
}

#[test]
fn panic_in_pre_start_budget_exhaustion_stops_supervisor_with_parent_request() {
    let mut grand = one_for_one(3);
    grand.spawn("mid-sup", RestartType::Transient);
    let mut mid = one_for_one(2);
    mid.spawn("doomed", RestartType::Permanent);
    mid.die("doomed", crash());
    while mid.stopped.is_none() {
        mid.settle(AttemptResult::InitFailed(ActorError::Panic(
            "pre_start boom".into(),
        )));
    }
    assert_eq!(mid.events.len(), 3);
    grand.die("mid-sup", mid.stopped.take().unwrap());
    let event = grand.last();
    assert_eq!(event.child_name.as_deref(), Some("mid-sup"));
    assert!(matches!(event.reason, StopReason::ParentRequest));
    assert_eq!(event.action, SupervisionAction::Removed);
    assert!(grand.attempts.is_empty());
    assert!(grand.stopped.is_none(), "grandparent must remain alive");
}

#[test]
fn panic_in_handle_notify_path_restarts_child() {
    let mut sup = one_for_one(3);
    sup.spawn("notify-worker", RestartType::Permanent);
    sup.die("notify-worker", crash());
    let event = sup.last();
    assert_eq!(event.child_name.as_deref(), Some("notify-worker"));
    assert_eq!(event.action, SupervisionAction::RestartInitiated);
    assert!(matches!(
        &event.reason,
        StopReason::Failure(ActorError::Panic(text)) if text.contains("worker crashed on command")
    ));
    sup.settle(AttemptResult::Initialized);
    assert!(sup.info("notify-worker").unwrap().is_alive);
}

#[test]
fn named_child_restart_loop_no_nametaken() {
    let mut sup = one_for_one(10);
    sup.spawn("loop-worker", RestartType::Permanent);
    for _ in 1..=5usize {
        sup.die("loop-worker", crash());
        assert_eq!(sup.settle(AttemptResult::Initialized), "loop-worker");
    }
    assert!(sup.info("loop-worker").unwrap().is_alive);
    assert_eq!(sup.events.len(), 5);
    assert!(sup
        .events
        .iter()
        .all(|event| event.action == SupervisionAction::RestartInitiated));
}

#[test]
fn a_panicking_callback_stops_the_supervisor() {
    let mut sup = one_for_one(3);
    let stop = sup
        .ctx
        .child_reported(SupervisionAction::Removed, Some("callback boom".into()));
    assert!(matches!(
        stop,
        Some(StopReason::Failure(ActorError::Panic(text))) if text == "callback boom"
    ));
    assert!(sup.ctx.last_error().is_none());
}

#[test]
fn duplicate_child_kept_spec_then_delete_allows_respawn() {
    let mut sup = one_for_one(3);
    sup.spawn("worker", RestartType::Permanent);
    assert!(matches!(
        sup.try_spawn("worker", RestartType::Permanent),
        Err(SpawnError::DuplicateChild(id)) if id.as_str() == "worker"
    ));
    sup.terminate("worker").unwrap();
    assert!(matches!(
        sup.try_spawn("worker", RestartType::Permanent),
        Err(SpawnError::DuplicateChild(_))
    ));
    sup.delete("worker").unwrap();
    sup.spawn("worker", RestartType::Permanent);
    assert!(sup.info("worker").unwrap().is_alive);
}

fn plain() -> ActorContext {
    ActorContext::new(ActorId::from("dummy"), None, None)
}

#[test]
fn spawn_child_on_non_supervisor_is_not_a_supervisor() {
    let mut ctx = plain();
    let builder = ctx.spawn_child().named("child".to_string());
    assert!(matches!(
        ctx.spawn_child_internal(builder),
        Err(SpawnError::NotASupervisor)
    ));
    let id = ActorId::from("child");
    assert!(matches!(
        ctx.stop_child(id.clone(), false),
        Err(SupervisionError::NotASupervisor)
    ));
    assert!(matches!(
        ctx.terminate_child(id.clone(), false),
        Err(SupervisionError::NotASupervisor)
    ));
    assert!(matches!(
        ctx.restart_child(id.clone(), 1),
        Err(SupervisionError::NotASupervisor)
    ));
    assert!(matches!(
        ctx.delete_child(id.clone()),
        Err(SupervisionError::NotASupervisor)
    ));
    assert!(ctx.children().is_empty());
    let event = ChildStoppedInternal {
        child_id: id,
        reason: StopReason::Graceful,
        incarnation: 0,
    };
    let step = ctx.child_stopped(event, &mut VecDeque::new(), 1, Instant { nanos: 0 });
    assert_eq!(
        step.report.unwrap().action,
        SupervisionAction::NotSupervised
    );
}

#[test]
fn simple_one_for_one_specs_go_with_their_children() {
    let mut sup = Sup::new(SupervisionConfig::simple_one_for_one());
    sup.spawn("x", RestartType::Permanent);
    sup.spawn("y", RestartType::Transient);
    sup.bounce("x").unwrap();
    assert_eq!(sup.last().action, SupervisionAction::Removed);
    sup.die("y", StopReason::Graceful);
    assert!(sup.ctx.children().is_empty());
}

#[test]
fn children_are_stopped_in_reverse_start_order() {
    let mut sup = one_for_one(3);
    for name in ["a", "b", "c"] {
        sup.spawn(name, RestartType::Permanent);
    }
    sup.terminate("b").unwrap();
    let stops: Vec<String> = sup
        .ctx
        .stop_all_children()
        .iter()
        .map(|stop| stop.child_id.to_string())
        .collect();
    assert_eq!(stops, vec!["c", "a"]);
    assert!(sup.ctx.children().is_empty());
    assert!(sup.ctx.take_supervision().is_some());
    assert!(sup.ctx.take_supervision().is_none());
}

#[test]
fn start_timeout_defaults_to_none() {
    let builder = plain().spawn_child();
    assert_eq!(builder.start_timeout, None);
    assert_eq!(builder.shutdown, Shutdown::Timeout(Duration::from_secs(5)));
    assert_eq!(builder.restart_type, RestartType::Permanent);
}

#[test]
fn start_timeout_builder_sets_value() {
    let builder = plain()
        .spawn_child()
        .start_timeout(Duration::from_millis(200));
    assert_eq!(builder.start_timeout, Some(Duration::from_millis(200)));
}

#[test]
fn config_and_supervisor_role_survive_restart() {
    let sup = one_for_one(3);
    let builder = sup
        .ctx
        .spawn_child()
        .named("cfg".to_string())
        .shutdown(Shutdown::Infinity)
        .with_config(ActorConfig::default().with_mailbox_capacity(7).supervisor());
    let plan = sup.ctx.spawn_child_internal(builder).unwrap();
    assert_eq!(plan.config.mailbox.capacity, 7);
    assert!(plan.spec.is_supervisor);
    assert_eq!(plan.spec.shutdown, Shutdown::Infinity);
    assert_eq!(plan.grace, Duration::from_millis(500));
    let leaf = sup
        .ctx
        .spawn_child_internal(sup.ctx.spawn_child())
        .unwrap();
    assert_eq!(leaf.grace, Duration::from_millis(100));
    assert_eq!(leaf.config.mailbox.capacity, 64);
}

#[test]
fn test_active_stream_count() {
    let mut ctx = plain();
    assert_eq!(ctx.active_stream_count(), 0);
    ctx.add_stream();
    assert_eq!(ctx.active_stream_count(), 1);
    ctx.add_stream();
    assert_eq!(ctx.active_stream_count(), 2);
    let (id, _token) = ctx.add_stream();
    assert_eq!(ctx.active_stream_count(), 3);
    ctx.cancel_stream(id).unwrap();
    assert_eq!(ctx.active_stream_count(), 2);
}

#[test]
fn test_cancel_nonexistent_stream() {
    let mut ctx = plain();
    let (id, token) = ctx.add_stream();
    assert!(!token.is_cancelled());
    ctx.cancel_stream(id).unwrap();
    assert!(token.is_cancelled());
    assert_eq!(ctx.cancel_stream(id), Err(StreamError::NotFound));
}

#[test]
fn test_cancel_all_streams() {
    let mut ctx = plain();
    let (_, first) = ctx.add_stream();
    let (_, second) = ctx.add_stream();
    ctx.cancel_all_streams();
    assert_eq!(ctx.active_stream_count(), 0);
    assert!(first.is_cancelled() && second.is_cancelled());
}

#[test]
fn timers_are_counted_cancelled_and_reaped() {
    let mut ctx = plain();
    let (first, first_token) = ctx.register_timer();
    let (second, second_token) = ctx.register_timer();
    let (third, third_token) = ctx.register_timer();
    assert_eq!(ctx.active_timer_count(), 3);
    ctx.cancel_timer(first).unwrap();
    assert!(first_token.is_cancelled());
    assert_eq!(ctx.cancel_timer(first), Err(TimerError::NotFound));
    assert_eq!(
        ctx.cancel_timer(RecurringId { number: 99 }),
        Err(TimerError::NotFound)
    );
    ctx.reap_forwarder(Some(ForwarderKind::Timer(second)), ForwarderEnd::Finished);
    assert_eq!(ctx.active_timer_count(), 1);
    assert!(!second_token.is_cancelled());
    assert!(ctx.last_forwarder_error().is_none());
    ctx.cancel_all_timers();
    assert!(third_token.is_cancelled());
    ctx.reap_forwarder(Some(ForwarderKind::Timer(third)), ForwarderEnd::Aborted);
    assert_eq!(ctx.active_timer_count(), 0);
}

#[test]
fn a_panicking_forwarder_is_remembered() {
    let mut ctx = plain();
    let (id, _token) = ctx.add_stream();
    ctx.reap_forwarder(
        Some(ForwarderKind::Stream(id)),
        ForwarderEnd::Panicked(Some("stream boom".into())),
    );
    assert_eq!(ctx.active_stream_count(), 0);
    assert!(matches!(
        ctx.last_forwarder_error(),
        Some(ActorError::Panic(text)) if text == "stream boom"
    ));
    ctx.reap_forwarder(None, ForwarderEnd::Panicked(None));
    assert!(matches!(
        ctx.last_forwarder_error(),
        Some(ActorError::Panic(text)) if text == "panic payload unavailable"
    ));
}

#[test]
fn get_status_returns_info() {
    let mut sup = one_for_one(3);
    sup.spawn("child", RestartType::Permanent);
    sup.ctx.set_status(ActorStatus::Running);
    sup.ctx.register_timer();
    sup.ctx.record_failure(ActorError::user("minor"));
    let status = sup.ctx.build_status_info(3, 32);
    assert_eq!(status.id.as_str(), "sup");
    assert_eq!(status.name, Some("sup".to_string()));
    assert_eq!(status.status, ActorStatus::Running);
    assert_eq!(status.mailbox_len, 3);
    assert_eq!(status.mailbox_capacity, 32);
    assert_eq!(status.child_count, 1);
    assert_eq!(status.timer_count, 1);
    assert_eq!(status.stream_count, 0);
    assert_eq!(sup.ctx.actor_id().as_str(), "sup");
    assert_eq!(sup.ctx.actor_name().unwrap(), "sup");
    assert_eq!(sup.ctx.status(), ActorStatus::Running);
    assert!(matches!(sup.ctx.last_error(), Some(ActorError::User(_))));
}

#[test]
fn tokens_are_taken_out_under_their_ids() {
    let mut ctx = plain();
    let (first, first_token) = ctx.register_timer();
    let (second, second_token) = ctx.register_timer();
    let (stream, stream_token) = ctx.add_stream();
    let taken = ctx.take_timer(first).unwrap();
    taken.cancel();
    assert!(first_token.is_cancelled());
    assert!(!second_token.is_cancelled());
    assert!(!stream_token.is_cancelled());
    assert!(ctx.take_timer(first).is_none());
    let rest = ctx.take_timers();
    assert_eq!(rest.len(), 1);
    assert_eq!(rest[0].0, second.number);
    rest[0].1.cancel();
    assert!(second_token.is_cancelled());
    assert_eq!(ctx.active_timer_count(), 0);
    let streams = ctx.take_streams();
    assert_eq!(streams.len(), 1);
    assert_eq!(streams[0].0, stream.number);
    assert!(ctx.take_stream(stream).is_none());
}

#[test]
fn cancelling_everything_cancels_every_token_handed_out() {
    let mut ctx = plain();
    let timers: Vec<_> = (0..4).map(|_| ctx.register_timer().1).collect();
    let streams: Vec<_> = (0..3).map(|_| ctx.add_stream().1).collect();
    ctx.cancel_all_timers();
    assert!(timers.iter().all(|token| token.is_cancelled()));
    assert!(streams.iter().all(|token| !token.is_cancelled()));
    ctx.cancel_all_streams();
    assert!(streams.iter().all(|token| token.is_cancelled()));
}
