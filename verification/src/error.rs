//! Error types surfaced by the actor runtime.

use vstd::prelude::*;
use vstd::string::StringExecFns;
use crate::types::ActorId;

verus! {

/// Result type for actor operations.
pub type ActorResult<T> = Result<T, ActorError>;

/// Errors returned from user-defined actor logic.
///
/// `User` is reserved for actor-authored errors (see [`ActorError::user`]).
/// `Timer`, `Stream`, and `Supervision` carry their source error structurally.
#[derive(Debug)]
pub enum ActorError {
    /// A custom error message from the actor.
    User(String),
    /// The actor panicked during execution.
    Panic(String),
    /// A spawn error occurred.
    Spawn(SpawnError),
    /// A timer operation failed.
    Timer(TimerError),
    /// A stream operation failed.
    Stream(StreamError),
    /// A supervision operation failed.
    Supervision(SupervisionError),
}

/// Errors emitted by the timer subsystem.
#[derive(Debug, Clone, Copy, PartialEq, Eq, Structural)]
pub enum TimerError {
    /// The specified timer ID was not found (already fired or cancelled).
    NotFound,
}

/// Errors emitted by the stream subsystem.
#[derive(Debug, Clone, Copy, PartialEq, Eq, Structural)]
pub enum StreamError {
    /// The specified stream ID was not found (already finished or cancelled).
    NotFound,
}

/// Errors emitted by the supervision subsystem.
#[derive(Debug)]
pub enum SupervisionError {
    /// The specified child was not found.
    ChildNotFound(ActorId),
    /// The restart budget has been exhausted.
    BudgetExhausted,
    /// The factory closure failed during a restart attempt.
    FactoryFailed(String),
    /// The actor is not configured as a supervisor. Returned by the child management operations;
    /// the spawn-time equivalent is [`SpawnError::NotASupervisor`].
    NotASupervisor,
    /// The operation requires the child to be stopped, but it is running.
    ChildRunning(ActorId),
    /// The child has a restart in flight or is a member of a pending group restart.
    ChildRestarting(ActorId),
    /// The child did not terminate within the kill grace even after its task was aborted.
    ChildUnresponsive(ActorId),
}

/// Failures encountered when spawning an actor.
#[derive(Debug)]
pub enum SpawnError {
    /// No Tokio runtime was found in the current context.
    MissingRuntime,
    /// The configured mailbox capacity was zero.
    ZeroMailboxCapacity,
    /// A child with the same ID is already registered.
    DuplicateChild(ActorId),
    /// An actor with the given name is already registered in the system.
    NameTaken {
        /// The actor name that was already taken.
        name: String,
        /// The system in which the collision occurred.
        system: String,
    },
    /// An actor system with the given name already exists.
    SystemNameTaken(String),
    /// The actor system is shutting down or has shut down.
    SystemShuttingDown(String),
    /// The actor's `pre_start` or `on_started` failed before it reached the message loop.
    Init(Box<ActorError>),
    /// The actor did not finish its initialization within the start timeout.
    StartTimeout,
    /// A child was spawned on an actor with no supervision config.
    NotASupervisor,
}

impl Clone for SupervisionError {
    fn clone(&self) -> (copy: Self)
        ensures
            copy == *self,
    {
        match self {
            SupervisionError::ChildNotFound(id) => SupervisionError::ChildNotFound(id.clone()),
            SupervisionError::BudgetExhausted => SupervisionError::BudgetExhausted,
            SupervisionError::FactoryFailed(text) => SupervisionError::FactoryFailed(text.clone()),
            SupervisionError::NotASupervisor => SupervisionError::NotASupervisor,
            SupervisionError::ChildRunning(id) => SupervisionError::ChildRunning(id.clone()),
            SupervisionError::ChildRestarting(id) => SupervisionError::ChildRestarting(id.clone()),
            SupervisionError::ChildUnresponsive(id) => SupervisionError::ChildUnresponsive(id.clone()),
        }
    }
}

impl Clone for SpawnError {
    fn clone(&self) -> (copy: Self)
        ensures
            copy == *self,
        decreases self,
    {
        match self {
            SpawnError::MissingRuntime => SpawnError::MissingRuntime,
            SpawnError::ZeroMailboxCapacity => SpawnError::ZeroMailboxCapacity,
            SpawnError::DuplicateChild(id) => SpawnError::DuplicateChild(id.clone()),
            SpawnError::NameTaken { name, system } => SpawnError::NameTaken {
                name: name.clone(),
                system: system.clone(),
            },
            SpawnError::SystemNameTaken(name) => SpawnError::SystemNameTaken(name.clone()),
            SpawnError::SystemShuttingDown(name) => SpawnError::SystemShuttingDown(name.clone()),
            SpawnError::Init(cause) => {
                let inner: ActorError = (**cause).clone();
                SpawnError::Init(Box::new(inner))
            },
            SpawnError::StartTimeout => SpawnError::StartTimeout,
            SpawnError::NotASupervisor => SpawnError::NotASupervisor,
        }
    }
}

impl Clone for ActorError {
    fn clone(&self) -> (copy: Self)
        ensures
            copy == *self,
        decreases self,
    {
        match self {
            ActorError::User(text) => ActorError::User(text.clone()),
            ActorError::Panic(text) => ActorError::Panic(text.clone()),
            ActorError::Spawn(err) => ActorError::Spawn(err.clone()),
            ActorError::Timer(err) => ActorError::Timer(*err),
            ActorError::Stream(err) => ActorError::Stream(*err),
            ActorError::Supervision(err) => ActorError::Supervision(err.clone()),
        }
    }
}

/// Failures encountered while sending a message asynchronously.
#[derive(Debug, Clone, Copy, PartialEq, Eq, Structural)]
pub enum SendError {
    /// The actor's mailbox is closed (actor stopped).
    Closed,
    /// No actor is registered under the given name or ID.
    NotFound,
}

/// Failures encountered while sending without awaiting capacity.
#[derive(Debug, Clone, Copy, PartialEq, Eq, Structural)]
pub enum TrySendError {
    /// The mailbox is full.
    Full,
    /// The mailbox is closed (actor stopped).
    Closed,
}

/// Errors reported when awaiting a response from an actor.
///
/// The four variants encode four distinct facts: with `Closed`, and with `Timeout` while
/// `enqueued` is false, the request never entered the mailbox and is safe to send again; with
/// `ResponseDropped`, and with `Timeout` while `enqueued` is true, it may have been processed;
/// `Actor` is what the handler produced.
#[derive(Debug)]
pub enum AskError {
    /// The actor's mailbox was closed before the request could be enqueued.
    Closed,
    /// The actor dropped the response channel without sending a reply.
    ResponseDropped,
    /// The actor's handler returned an error or panicked.
    Actor(ActorError),
    /// The caller-supplied deadline elapsed before a response arrived.
    Timeout {
        /// Whether the request was enqueued into the mailbox before the deadline elapsed.
        enqueued: bool,
    },
}

impl Clone for AskError {
    fn clone(&self) -> (copy: Self)
        ensures
            copy == *self,
    {
        match self {
            AskError::Closed => AskError::Closed,
            AskError::ResponseDropped => AskError::ResponseDropped,
            AskError::Actor(err) => AskError::Actor(err.clone()),
            AskError::Timeout { enqueued } => AskError::Timeout { enqueued: *enqueued },
        }
    }
}

impl ActorError {
    /// Creates a new user-defined error.
    pub fn user(message: &str) -> (err: Self)
        ensures
            err is User,
            err->User_0@ == message@,
    {
        ActorError::User(message.to_owned())
    }
}

impl From<SpawnError> for ActorError {
    fn from(err: SpawnError) -> (wrapped: Self) {
        ActorError::Spawn(err)
    }
}

impl vstd::std_specs::convert::FromSpecImpl<SpawnError> for ActorError {
    open spec fn obeys_from_spec() -> bool {
        true
    }

    open spec fn from_spec(err: SpawnError) -> Self {
        ActorError::Spawn(err)
    }
}

impl From<TimerError> for ActorError {
    fn from(err: TimerError) -> (wrapped: Self) {
        ActorError::Timer(err)
    }
}

impl vstd::std_specs::convert::FromSpecImpl<TimerError> for ActorError {
    open spec fn obeys_from_spec() -> bool {
        true
    }

    open spec fn from_spec(err: TimerError) -> Self {
        ActorError::Timer(err)
    }
}

impl From<StreamError> for ActorError {
    fn from(err: StreamError) -> (wrapped: Self) {
        ActorError::Stream(err)
    }
}

impl vstd::std_specs::convert::FromSpecImpl<StreamError> for ActorError {
    open spec fn obeys_from_spec() -> bool {
        true
    }

    open spec fn from_spec(err: StreamError) -> Self {
        ActorError::Stream(err)
    }
}

impl From<SupervisionError> for ActorError {
    fn from(err: SupervisionError) -> (wrapped: Self) {
        ActorError::Supervision(err)
    }
}

impl vstd::std_specs::convert::FromSpecImpl<SupervisionError> for ActorError {
    open spec fn obeys_from_spec() -> bool {
        true
    }

    open spec fn from_spec(err: SupervisionError) -> Self {
        ActorError::Supervision(err)
    }
}

// ---------------------------------------------------------------------------
// Texts
// ---------------------------------------------------------------------------

/// The text `before`, then `middle`, then `after`.
pub(crate) fn joined(before: &str, middle: &str, after: &str) -> (text: String)
    ensures
        text@ == before@ + middle@ + after@,
{
    let mut text: String = before.to_owned();
    text.append(middle);
    text.append(after);
    text
}

impl TimerError {
    /// The message shown for this error.
    pub open spec fn text(self) -> Seq<char> {
        "timer id not found"@
    }

    /// Renders the message of this error.
    pub fn to_string(&self) -> (text: String)
        ensures
            text@ == self.text(),
    {
        "timer id not found".to_owned()
    }
}

impl StreamError {
    /// The message shown for this error.
    pub open spec fn text(self) -> Seq<char> {
        "stream id not found"@
    }

    /// Renders the message of this error.
    pub fn to_string(&self) -> (text: String)
        ensures
            text@ == self.text(),
    {
        "stream id not found".to_owned()
    }
}

impl SendError {
    /// The message shown for this error.
    pub open spec fn text(self) -> Seq<char> {
        match self {
            SendError::Closed => "mailbox closed"@,
            SendError::NotFound => "no actor registered under this name"@,
        }
    }

    /// Renders the message of this error.
    pub fn to_string(&self) -> (text: String)
        ensures
            text@ == self.text(),
    {
        match self {
            SendError::Closed => "mailbox closed".to_owned(),
            SendError::NotFound => "no actor registered under this name".to_owned(),
        }
    }
}

impl TrySendError {
    /// The message shown for this error.
    pub open spec fn text(self) -> Seq<char> {
        match self {
            TrySendError::Full => "mailbox full"@,
            TrySendError::Closed => "mailbox closed"@,
        }
    }

    /// Renders the message of this error.
    pub fn to_string(&self) -> (text: String)
        ensures
            text@ == self.text(),
    {
        match self {
            TrySendError::Full => "mailbox full".to_owned(),
            TrySendError::Closed => "mailbox closed".to_owned(),
        }
    }
}

impl SupervisionError {
    /// The message shown for this error.
    pub open spec fn text(self) -> Seq<char> {
        match self {
            SupervisionError::ChildNotFound(id) => "child `"@ + id@ + "` not found"@,
            SupervisionError::BudgetExhausted => "restart budget exhausted"@,
            SupervisionError::FactoryFailed(cause) => "factory failed: "@ + cause@,
            SupervisionError::NotASupervisor => "actor is not configured as a supervisor"@,
            SupervisionError::ChildRunning(id) => "child `"@ + id@ + "` is running"@,
            SupervisionError::ChildRestarting(id) => "child `"@ + id@ + "` is restarting"@,
            SupervisionError::ChildUnresponsive(id) => "child `"@ + id@
                + "` is unresponsive to kill"@,
        }
    }

    /// Renders the message of this error.
    pub fn to_string(&self) -> (text: String)
        ensures
            text@ == self.text(),
    {
        match self {
            SupervisionError::ChildNotFound(id) => joined("child `", id.as_str(), "` not found"),
            SupervisionError::BudgetExhausted => "restart budget exhausted".to_owned(),
            SupervisionError::FactoryFailed(cause) => {
                "factory failed: ".to_owned().concat(cause.as_str())
            },
            SupervisionError::NotASupervisor => {
                "actor is not configured as a supervisor".to_owned()
            },
            SupervisionError::ChildRunning(id) => joined("child `", id.as_str(), "` is running"),
            SupervisionError::ChildRestarting(id) => {
                joined("child `", id.as_str(), "` is restarting")
            },
            SupervisionError::ChildUnresponsive(id) => {
                joined("child `", id.as_str(), "` is unresponsive to kill")
            },
        }
    }
}

impl SpawnError {
    /// The message shown for this error.
    pub open spec fn text(self) -> Seq<char>
        decreases self,
    {
        match self {
            SpawnError::MissingRuntime => "tokio runtime handle not in scope"@,
            SpawnError::ZeroMailboxCapacity => "mailbox capacity must be at least 1, got 0"@,
            SpawnError::DuplicateChild(id) => "child actor `"@ + id@ + "` already registered"@,
            SpawnError::NameTaken { name, system } => "actor name `"@ + name@
                + "` already taken in system `"@ + system@ + "`"@,
            SpawnError::SystemNameTaken(name) => "actor system `"@ + name@ + "` already exists"@,
            SpawnError::SystemShuttingDown(name) => "actor system `"@ + name@
                + "` is shutting down"@,
            SpawnError::Init(cause) => "actor failed to initialize: "@ + (*cause).text(),
            SpawnError::StartTimeout => {
                "actor did not finish initializing within the start timeout"@
            },
            SpawnError::NotASupervisor => "actor is not configured as a supervisor"@,
        }
    }

    /// Renders the message of this error.
    pub fn to_string(&self) -> (text: String)
        ensures
            text@ == self.text(),
        decreases self,
    {
        match self {
            SpawnError::MissingRuntime => "tokio runtime handle not in scope".to_owned(),
            SpawnError::ZeroMailboxCapacity => {
                "mailbox capacity must be at least 1, got 0".to_owned()
            },
            SpawnError::DuplicateChild(id) => {
                joined("child actor `", id.as_str(), "` already registered")
            },
            SpawnError::NameTaken { name, system } => {
                let head: String = joined(
                    "actor name `",
                    name.as_str(),
                    "` already taken in system `",
                );
                joined(head.as_str(), system.as_str(), "`")
            },
            SpawnError::SystemNameTaken(name) => {
                joined("actor system `", name.as_str(), "` already exists")
            },
            SpawnError::SystemShuttingDown(name) => {
                joined("actor system `", name.as_str(), "` is shutting down")
            },
            SpawnError::Init(cause) => {
                let inner: String = (**cause).to_string();
                "actor failed to initialize: ".to_owned().concat(inner.as_str())
            },
            SpawnError::StartTimeout => {
                "actor did not finish initializing within the start timeout".to_owned()
            },
            SpawnError::NotASupervisor => "actor is not configured as a supervisor".to_owned(),
        }
    }
}

impl ActorError {
    /// The message shown for this error. A wrapped error shows its own message.
    pub open spec fn text(self) -> Seq<char>
        decreases self,
    {
        match self {
            ActorError::User(message) => "actor logic error: "@ + message@,
            ActorError::Panic(message) => "actor panicked: "@ + message@,
            ActorError::Spawn(err) => err.text(),
            ActorError::Timer(err) => err.text(),
            ActorError::Stream(err) => err.text(),
            ActorError::Supervision(err) => err.text(),
        }
    }

    /// Renders the message of this error.
    pub fn to_string(&self) -> (text: String)
        ensures
            text@ == self.text(),
        decreases self,
    {
        match self {
            ActorError::User(message) => {
                "actor logic error: ".to_owned().concat(message.as_str())
            },
            ActorError::Panic(message) => "actor panicked: ".to_owned().concat(message.as_str()),
            ActorError::Spawn(err) => err.to_string(),
            ActorError::Timer(err) => err.to_string(),
            ActorError::Stream(err) => err.to_string(),
            ActorError::Supervision(err) => err.to_string(),
        }
    }
}

impl AskError {
    /// The message shown for this error.
    pub open spec fn text(self) -> Seq<char> {
        match self {
            AskError::Closed => "mailbox closed before the request was sent"@,
            AskError::ResponseDropped => "actor stopped before replying"@,
            AskError::Actor(err) => "actor returned error: "@ + err.text(),
            AskError::Timeout { enqueued } => if enqueued {
                "send_timeout deadline elapsed (enqueued: true)"@
            } else {
                "send_timeout deadline elapsed (enqueued: false)"@
            },
        }
    }

    /// Renders the message of this error.
    pub fn to_string(&self) -> (text: String)
        ensures
            text@ == self.text(),
    {
        match self {
            AskError::Closed => "mailbox closed before the request was sent".to_owned(),
            AskError::ResponseDropped => "actor stopped before replying".to_owned(),
            AskError::Actor(err) => {
                "actor returned error: ".to_owned().concat(err.to_string().as_str())
            },
            AskError::Timeout { enqueued } => if *enqueued {
                "send_timeout deadline elapsed (enqueued: true)".to_owned()
            } else {
                "send_timeout deadline elapsed (enqueued: false)".to_owned()
            },
        }
    }
}

// ---------------------------------------------------------------------------
// Laws
// ---------------------------------------------------------------------------

/// An error shows what it carries, whatever that is: the message of a user or of a panic in full, the
/// names and IDs in their places, and the error that it wraps as that error shows itself.
pub proof fn errors_show_what_they_carry(
    message: String,
    id: ActorId,
    name: String,
    system: String,
    err: ActorError,
    spawn: SpawnError,
    supervision: SupervisionError,
)
    ensures
        ActorError::User(message).text() == "actor logic error: "@ + message@,
        ActorError::Panic(message).text() == "actor panicked: "@ + message@,
        ActorError::Spawn(spawn).text() == spawn.text(),
        ActorError::Supervision(supervision).text() == supervision.text(),
        ActorError::Timer(TimerError::NotFound).text() == "timer id not found"@,
        ActorError::Stream(StreamError::NotFound).text() == "stream id not found"@,
        AskError::Actor(err).text() == "actor returned error: "@ + err.text(),
        SpawnError::Init(Box::new(err)).text() == "actor failed to initialize: "@ + err.text(),
        SpawnError::DuplicateChild(id).text() == "child actor `"@ + id@ + "` already registered"@,
        (SpawnError::NameTaken { name, system }).text() == "actor name `"@ + name@
            + "` already taken in system `"@ + system@ + "`"@,
        SpawnError::SystemNameTaken(name).text() == "actor system `"@ + name@ + "` already exists"@,
        SpawnError::SystemShuttingDown(system).text() == "actor system `"@ + system@
            + "` is shutting down"@,
        SupervisionError::ChildNotFound(id).text() == "child `"@ + id@ + "` not found"@,
        SupervisionError::ChildRunning(id).text() == "child `"@ + id@ + "` is running"@,
        SupervisionError::ChildRestarting(id).text() == "child `"@ + id@ + "` is restarting"@,
        SupervisionError::ChildUnresponsive(id).text() == "child `"@ + id@
            + "` is unresponsive to kill"@,
        SupervisionError::FactoryFailed(message).text() == "factory failed: "@ + message@,
{
    reveal_with_fuel(ActorError::text, 2);
    reveal_with_fuel(SpawnError::text, 2);
}

/// An error that becomes an actor's error is carried as it is.
pub proof fn wrapped_errors_are_kept(
    spawn: SpawnError,
    timer: TimerError,
    stream: StreamError,
    supervision: SupervisionError,
)
    ensures
        <ActorError as vstd::std_specs::convert::FromSpec<SpawnError>>::from_spec(spawn)
            == ActorError::Spawn(spawn),
        <ActorError as vstd::std_specs::convert::FromSpec<TimerError>>::from_spec(timer)
            == ActorError::Timer(timer),
        <ActorError as vstd::std_specs::convert::FromSpec<StreamError>>::from_spec(stream)
            == ActorError::Stream(stream),
        <ActorError as vstd::std_specs::convert::FromSpec<SupervisionError>>::from_spec(
            supervision,
        ) == ActorError::Supervision(supervision),
{
}

} // verus!
