use tokio_actors::{
    ActorError, ActorId, AskError, SendError, SpawnError, StopReason, StreamError,
    SupervisionError, TimerError, TrySendError,
};

#[test]
fn name_taken_error_includes_system() {
    let err = SpawnError::NameTaken {
        name: "counter".into(),
        system: "default".into(),
    };
    let msg = err.to_string();
    assert!(msg.contains("counter"), "error should mention the name");
    assert!(msg.contains("default"), "error should mention the system");
    assert_eq!(
        msg,
        "actor name `counter` already taken in system `default`"
    );
}

#[test]
fn actor_error_spawn_preserves_type() {
    let spawn_err = SpawnError::NameTaken {
        name: "x".into(),
        system: "test".into(),
    };
    let actor_err: ActorError = spawn_err.into();
    match actor_err {
        ActorError::Spawn(_) => {}
        other => panic!("expected ActorError::Spawn, got: {other:?}"),
    }
}

#[test]
fn system_name_taken_is_visible() {
    let err = SpawnError::SystemNameTaken("prod".into());
    assert!(err.to_string().contains("prod"));
}

#[test]
fn timer_error_arrives_structured() {
    let direct: ActorError = TimerError::NotFound.into();
    assert!(matches!(direct, ActorError::Timer(TimerError::NotFound)));
    assert_eq!(direct.to_string(), "timer id not found");
}

#[test]
fn stream_error_arrives_structured() {
    let direct: ActorError = StreamError::NotFound.into();
    assert!(matches!(direct, ActorError::Stream(StreamError::NotFound)));
    assert_eq!(direct.to_string(), "stream id not found");
}

#[test]
fn supervision_error_arrives_structured() {
    let direct: ActorError = SupervisionError::BudgetExhausted.into();
    assert!(matches!(
        direct,
        ActorError::Supervision(SupervisionError::BudgetExhausted)
    ));
    assert_eq!(direct.to_string(), "restart budget exhausted");
}

#[test]
fn spawn_errors_render_their_texts() {
    assert_eq!(
        SpawnError::MissingRuntime.to_string(),
        "tokio runtime handle not in scope"
    );
    assert_eq!(
        SpawnError::ZeroMailboxCapacity.to_string(),
        "mailbox capacity must be at least 1, got 0"
    );
    assert_eq!(
        SpawnError::DuplicateChild(ActorId::from("w")).to_string(),
        "child actor `w` already registered"
    );
    assert_eq!(
        SpawnError::SystemNameTaken("prod".into()).to_string(),
        "actor system `prod` already exists"
    );
    assert_eq!(
        SpawnError::SystemShuttingDown("prod".into()).to_string(),
        "actor system `prod` is shutting down"
    );
    assert_eq!(
        SpawnError::Init(Box::new(ActorError::user("nope"))).to_string(),
        "actor failed to initialize: actor logic error: nope"
    );
    assert_eq!(
        SpawnError::StartTimeout.to_string(),
        "actor did not finish initializing within the start timeout"
    );
    assert_eq!(
        SpawnError::NotASupervisor.to_string(),
        "actor is not configured as a supervisor"
    );
}

#[test]
fn supervision_errors_render_their_texts() {
    let id = ActorId::from("w");
    assert_eq!(
        SupervisionError::ChildNotFound(id.clone()).to_string(),
        "child `w` not found"
    );
    assert_eq!(
        SupervisionError::FactoryFailed("boom".into()).to_string(),
        "factory failed: boom"
    );
    assert_eq!(
        SupervisionError::NotASupervisor.to_string(),
        "actor is not configured as a supervisor"
    );
    assert_eq!(
        SupervisionError::ChildRunning(id.clone()).to_string(),
        "child `w` is running"
    );
    assert_eq!(
        SupervisionError::ChildRestarting(id.clone()).to_string(),
        "child `w` is restarting"
    );
    assert_eq!(
        SupervisionError::ChildUnresponsive(id).to_string(),
        "child `w` is unresponsive to kill"
    );
}

#[test]
fn send_and_ask_errors_render_their_texts() {
    assert_eq!(SendError::Closed.to_string(), "mailbox closed");
    assert_eq!(
        SendError::NotFound.to_string(),
        "no actor registered under this name"
    );
    assert_eq!(TrySendError::Full.to_string(), "mailbox full");
    assert_eq!(TrySendError::Closed.to_string(), "mailbox closed");
    assert_eq!(
        AskError::Closed.to_string(),
        "mailbox closed before the request was sent"
    );
    assert_eq!(
        AskError::ResponseDropped.to_string(),
        "actor stopped before replying"
    );
    assert_eq!(
        AskError::Actor(ActorError::Panic("boom".into())).to_string(),
        "actor returned error: actor panicked: boom"
    );
    assert_eq!(
        AskError::Timeout { enqueued: false }.to_string(),
        "send_timeout deadline elapsed (enqueued: false)"
    );
    assert_eq!(
        AskError::Timeout { enqueued: true }.clone().to_string(),
        "send_timeout deadline elapsed (enqueued: true)"
    );
}

#[test]
fn stop_reasons_render_their_texts() {
    assert_eq!(StopReason::Graceful.to_string(), "graceful");
    assert_eq!(StopReason::ParentRequest.to_string(), "parent requested");
    assert_eq!(
        StopReason::Failure(ActorError::user("x")).to_string(),
        "failure: actor logic error: x"
    );
    assert_eq!(StopReason::Cancelled.to_string(), "cancelled");
    assert_eq!(StopReason::Kill.to_string(), "killed");
}

#[test]
fn errors_clone_deeply() {
    let err = ActorError::Spawn(SpawnError::Init(Box::new(ActorError::Spawn(
        SpawnError::DuplicateChild(ActorId::from("deep")),
    ))));
    let copy = err.clone();
    drop(err);
    assert_eq!(
        copy.to_string(),
        "actor failed to initialize: child actor `deep` already registered"
    );
}
