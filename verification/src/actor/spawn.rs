//! Spawning: what an actor is spawned with, which spawns are refused, and how the wait for its
//! initialization ends.

use vstd::prelude::*;
use crate::actor::context::{is_random_id, resolve_id, ActorContext, ContextView};
use crate::actor::run_laws::{
    acked_failure, acked_failure_with, acked_success, called_on_stopped,
    failed_actors_are_unregistered, failed_hooks_are_acked_as_such,
    failure_is_acked_with_the_error_of_a_hook, hook_failed, hooks_succeeded, init_is_acked_once,
    lived, success_is_acked_after_both_hooks, uninitialized_actors_never_clean_up, unregistered,
};
use crate::actor::runtime::{ActorConfig, RunAction, RunEvent};
use crate::actor::supervision::{default_budget, SupervisionConfig};
use crate::error::{ActorError, SpawnError};
use crate::system::{ActorSystem, RegistryGuard, SystemPhase, SystemView};
use crate::time::Duration;
use crate::types::{after_number, copy_name, name_text, ActorId, RestartStrategy};

verus! {

/// How a spawn waits for the actor's initialization.
#[derive(Debug, Clone, Copy, PartialEq, Eq, Structural)]
pub enum SpawnAck {
    /// It waits as long as it takes.
    Await,
    /// It does not wait.
    Detached,
    /// It waits for the given time; an actor that takes longer is aborted.
    Timeout(Duration),
}

/// What an actor is to be spawned with. Defaults: no name, the default system, the default
/// configuration, and waiting for the actor's initialization.
#[derive(Debug)]
pub struct SpawnBuilder {
    /// The actor's name, which is its ID too.
    pub name: Option<String>,
    /// The name of the system to register the actor in, where it is not the default one.
    pub system: Option<String>,
    /// The actor's configuration.
    pub config: ActorConfig,
    /// How the spawn waits for the actor's initialization.
    pub ack: SpawnAck,
}

impl SpawnBuilder {
    /// What an actor is spawned with unless something else is asked for.
    pub fn spawn() -> (builder: Self)
        ensures
            builder.name is None,
            builder.system is None,
            builder.config.mailbox.capacity == 64,
            builder.config.supervision is None,
            builder.ack == SpawnAck::Await,
    {
        SpawnBuilder {
            name: None,
            system: None,
            config: ActorConfig::default(),
            ack: SpawnAck::Await,
        }
    }

    /// Assigns a name to the actor. The name also serves as the actor's ID.
    pub fn named(self, name: String) -> (builder: Self)
        ensures
            builder == (SpawnBuilder { name: Some(name), ..self }),
    {
        SpawnBuilder { name: Some(name), ..self }
    }

    /// Registers the actor in the system with the given name.
    pub fn on_system(self, system: String) -> (builder: Self)
        ensures
            builder == (SpawnBuilder { system: Some(system), ..self }),
    {
        SpawnBuilder { system: Some(system), ..self }
    }

    /// Sets the actor's configuration.
    pub fn with_config(self, config: ActorConfig) -> (builder: Self)
        ensures
            builder == (SpawnBuilder { config, ..self }),
    {
        SpawnBuilder { config, ..self }
    }

    /// Makes the actor a supervisor with the default configuration.
    pub fn supervisor(self) -> (builder: Self)
        ensures
            builder == (SpawnBuilder {
                config: ActorConfig {
                    supervision: Some(default_budget(RestartStrategy::OneForOne)),
                    ..self.config
                },
                ..self
            }),
    {
        let config: ActorConfig = self.config.supervisor();
        SpawnBuilder { name: self.name, system: self.system, config, ack: self.ack }
    }

    /// Makes the actor a supervisor with a custom configuration.
    pub fn with_supervision(self, sup: SupervisionConfig) -> (builder: Self)
        ensures
            builder == (SpawnBuilder {
                config: ActorConfig { supervision: Some(sup), ..self.config },
                ..self
            }),
    {
        let config: ActorConfig = self.config.with_supervision(sup);
        SpawnBuilder { name: self.name, system: self.system, config, ack: self.ack }
    }

    /// Lets the spawn return without waiting for the actor's initialization.
    pub fn detached(self) -> (builder: Self)
        ensures
            builder == (SpawnBuilder { ack: SpawnAck::Detached, ..self }),
    {
        SpawnBuilder { ack: SpawnAck::Detached, ..self }
    }

    /// Bounds the wait for the actor's initialization.
    pub fn start_timeout(self, timeout: Duration) -> (builder: Self)
        ensures
            builder == (SpawnBuilder { ack: SpawnAck::Timeout(timeout), ..self }),
    {
        SpawnBuilder { ack: SpawnAck::Timeout(timeout), ..self }
    }

    /// The ID that the actor gets: its name, or a random one.
    pub fn resolve_id(&self) -> (id: ActorId)
        ensures
            match self.name {
                Some(text) => id@ == text@,
                None => is_random_id(id@),
            },
    {
        resolve_id(&self.name)
    }
}

/// Whether an actor with a mailbox of the given capacity can be spawned at all.
pub open spec fn spawnable(capacity: usize, has_runtime: bool) -> Result<(), SpawnError> {
    if capacity == 0 {
        Err(SpawnError::ZeroMailboxCapacity)
    } else if !has_runtime {
        Err(SpawnError::MissingRuntime)
    } else {
        Ok(())
    }
}

/// An actor can be spawned exactly if its mailbox can hold a message and there is a runtime; where it
/// can hold none that is what is told, whatever else is missing.
pub proof fn spawning_needs_room_and_a_runtime(capacity: usize, has_runtime: bool)
    ensures
        spawnable(capacity, has_runtime) == Ok::<(), SpawnError>(()) <==> capacity >= 1 && has_runtime,
        capacity == 0 <==> spawnable(capacity, has_runtime) == Err::<(), SpawnError>(
            SpawnError::ZeroMailboxCapacity,
        ),
        capacity >= 1 && !has_runtime <==> spawnable(capacity, has_runtime) == Err::<(), SpawnError>(
            SpawnError::MissingRuntime,
        ),
{
}

/// Whether an actor can be spawned at all: its mailbox must hold at least one message, and there
/// must be a runtime to run it on.
pub fn check_spawn(config: &ActorConfig, has_runtime: bool) -> (answer: Result<(), SpawnError>)
    ensures
        answer == spawnable(config.mailbox.capacity, has_runtime),
{
    if config.mailbox.capacity == 0 {
        return Err(SpawnError::ZeroMailboxCapacity);
    }
    if !has_runtime {
        return Err(SpawnError::MissingRuntime);
    }
    Ok(())
}

/// An actor that is registered and about to be run.
#[derive(Debug)]
pub struct SpawnedActor {
    /// What the actor keeps about itself.
    pub context: ActorContext,
    /// The actor's registration, which it gives up when its task ends.
    pub guard: RegistryGuard,
    /// How many messages the actor's mailbox can hold.
    pub mailbox_capacity: usize,
}

/// Whether the given error is the one that the registration of an actor with the given name, in the
/// given system, is refused with.
pub open spec fn refusal(system: SystemView, name: Option<Seq<char>>, err: SpawnError) -> bool {
    if system.phase != SystemPhase::Active {
        err is SystemShuttingDown && err->SystemShuttingDown_0@ == system.name
    } else {
        &&& err is NameTaken
        &&& Some(err->NameTaken_name@) == name
        &&& err->NameTaken_system@ == system.name
    }
}

/// The registration of an actor is refused because the system is not active, whatever name the actor
/// has, or else because that very name is taken; the refusal names the system, and the name.
pub proof fn refusals_name_the_reason(
    system: SystemView,
    name: Option<Seq<char>>,
    err: SpawnError,
)
    requires
        refusal(system, name, err),
    ensures
        system.phase != SystemPhase::Active <==> err is SystemShuttingDown,
        system.phase == SystemPhase::Active <==> err is NameTaken,
        err is SystemShuttingDown ==> err->SystemShuttingDown_0@ == system.name,
        err is NameTaken ==> err->NameTaken_system@ == system.name && name == Some(
            err->NameTaken_name@,
        ),
{
}

/// Spawns an actor as far as that can be decided before its task is run: the actor is checked, given
/// a context and registered. A name is claimed before the task exists, and an actor that is refused
/// leaves nothing behind but a number that is used up.
pub fn spawn_actor(
    system: &mut ActorSystem,
    id: ActorId,
    name: Option<String>,
    config: ActorConfig,
    has_runtime: bool,
    is_root: bool,
) -> (answer: Result<SpawnedActor, SpawnError>)
    ensures
        if spawnable(config.mailbox.capacity, has_runtime) is Err {
            &&& answer is Err
            &&& answer->Err_0 == spawnable(config.mailbox.capacity, has_runtime)->Err_0
            &&& final(system)@ == old(system)@
        } else if !old(system)@.admits(name_text(name)) {
            &&& answer is Err
            &&& refusal(old(system)@, name_text(name), answer->Err_0)
            &&& final(system)@ == if old(system)@.phase == SystemPhase::Active {
                SystemView {
                    registration_seq: after_number(old(system)@.registration_seq),
                    ..old(system)@
                }
            } else {
                old(system)@
            }
        } else {
            &&& answer is Ok
            &&& answer->Ok_0.mailbox_capacity == config.mailbox.capacity
            &&& answer->Ok_0.guard.id@ == id@
            &&& answer->Ok_0.guard.name == name
            &&& answer->Ok_0.guard.registration_seq == old(system)@.registration_seq
            &&& answer->Ok_0.context@ == ContextView::fresh(
                id@,
                name_text(name),
                config.supervision,
            )
            &&& final(system)@ == old(system)@.registered_with(id@, name_text(name), is_root)
        },
{
    match check_spawn(&config, has_runtime) {
        Ok(_) => {},
        Err(err) => {
            return Err(err);
        },
    }
    let text: Option<&str> = match &name {
        Some(text) => Some(text.as_str()),
        None => None,
    };
    match system.register_actor(&id, text, is_root) {
        Ok(registration_seq) => {
            let context: ActorContext = ActorContext::new(
                id.clone(),
                copy_name(&name),
                config.supervision,
            );
            Ok(
                SpawnedActor {
                    context,
                    guard: RegistryGuard::new(id, name, registration_seq),
                    mailbox_capacity: config.mailbox.capacity,
                },
            )
        },
        Err(err) => Err(err),
    }
}

/// How the wait for an actor's initialization ended.
#[derive(Debug)]
pub enum AckEvent {
    /// The actor is initialized.
    Initialized,
    /// Its initialization failed.
    Failed(ActorError),
    /// The actor ended without telling.
    Lost,
    /// It took longer than it may.
    TimedOut,
}

/// Whether a spawn that waited for the actor's initialization returns the given result, by how the
/// wait ended.
pub open spec fn answers(event: AckEvent, result: Result<(), SpawnError>) -> bool {
    match event {
        AckEvent::Initialized => result == Ok::<(), SpawnError>(()),
        AckEvent::Failed(err) => result == Err::<(), SpawnError>(SpawnError::Init(Box::new(err))),
        AckEvent::Lost => {
            &&& result is Err
            &&& result->Err_0 is Init
            &&& *result->Err_0->Init_0 is User
            &&& (*result->Err_0->Init_0)->User_0@
                == "spawn ack channel closed before a reply arrived"@
        },
        AckEvent::TimedOut => result == Err::<(), SpawnError>(SpawnError::StartTimeout),
    }
}

/// What a spawn that waited for the actor's initialization returns.
pub fn ack_result(event: AckEvent) -> (result: Result<(), SpawnError>)
    ensures
        answers(event, result),
{
    match event {
        AckEvent::Initialized => Ok(()),
        AckEvent::Failed(err) => Err(SpawnError::Init(Box::new(err))),
        AckEvent::Lost => Err(
            SpawnError::Init(
                Box::new(ActorError::user("spawn ack channel closed before a reply arrived")),
            ),
        ),
        AckEvent::TimedOut => Err(SpawnError::StartTimeout),
    }
}

/// Ends a spawn that waited for the actor's initialization. Where the actor was not initialized its
/// registration is given up, if it has not given it up itself, so that its name can be used at once.
pub fn finish_spawn(system: &mut ActorSystem, guard: &RegistryGuard, event: AckEvent) -> (result:
    Result<(), SpawnError>)
    ensures
        answers(event, result),
        final(system)@ == if event is Initialized {
            old(system)@
        } else {
            old(system)@.without(guard.id@, name_text(guard.name), guard.registration_seq)
        },
{
    if !matches!(event, AckEvent::Initialized) {
        guard.release(system);
    }
    ack_result(event)
}

/// Whether a wait for an actor's initialization can end as given, when the actor has done what is
/// given: it ends with what the actor reported, or without anything that it reported.
pub open spec fn ends_wait(actions: Seq<RunAction>, event: AckEvent) -> bool {
    match event {
        AckEvent::Initialized => acked_success(actions),
        AckEvent::Failed(err) => acked_failure_with(actions, err),
        _ => !acked_success(actions) && !acked_failure(actions),
    }
}

/// A spawn that waits tells how the actor's initialization went. It succeeds only after `pre_start`
/// and then `on_started` returned `Ok`. Where one of them failed it returns that error, or the panic;
/// where they took too long it says so. After each such error `on_stopped` was not called, and an
/// actor can be spawned under the same name at once, unless somebody else has taken it.
pub proof fn waiting_spawns_tell_how_initialization_went(
    system: SystemView,
    id: Seq<char>,
    name: Seq<char>,
    is_root: bool,
    events: Seq<RunEvent>,
    event: AckEvent,
    result: Result<(), SpawnError>,
    later: SystemView,
)
    requires
        system.admits(Some(name)),
        ends_wait(lived(events).actions, event),
        answers(event, result),
        later.phase == SystemPhase::Active,
        later.by_name.dom().contains(name) ==> later.name_held(name, system.registration_seq),
    ensures
        ({
            let actions = lived(events).actions;
            let seq = system.registration_seq;
            &&& system.registered_with(id, Some(name), is_root).name_held(name, seq)
            &&& result is Ok <==> event is Initialized
            &&& result is Ok ==> hooks_succeeded(events) && forall|err: ActorError|
                !hook_failed(events, err)
            &&& event is Failed ==> {
                &&& hook_failed(events, event->Failed_0)
                &&& result == Err::<(), SpawnError>(SpawnError::Init(Box::new(event->Failed_0)))
                &&& unregistered(actions)
            }
            &&& forall|err: ActorError|
                hook_failed(events, err) && event is Failed ==> result == Err::<(), SpawnError>(
                    SpawnError::Init(Box::new(err)),
                )
            &&& event is TimedOut ==> result == Err::<(), SpawnError>(SpawnError::StartTimeout)
            &&& result is Err ==> {
                &&& !called_on_stopped(actions)
                &&& later.without(id, Some(name), seq).admits(Some(name))
            }
        }),
{
    let actions = lived(events).actions;
    success_is_acked_after_both_hooks(events);
    uninitialized_actors_never_clean_up(events);
    init_is_acked_once(events);
    if let AckEvent::Failed(err) = event {
        failure_is_acked_with_the_error_of_a_hook(events, err);
        failed_actors_are_unregistered(events, err);
    }
    assert forall|err: ActorError| hook_failed(events, err) implies !acked_success(actions) && (
    event is Failed ==> event->Failed_0 == err) by {
        failed_hooks_are_acked_as_such(events, err);
        if event is Failed {
            assert(acked_failure_with(actions, event->Failed_0));
        }
    }
}

} // verus!
