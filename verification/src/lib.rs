//! The decision core of a Tokio actor runtime: supervision, restart budgets and strategies, the
//! lifecycle of actors, stop escalation, timers, registration and system shutdown.
//!
//! Everything here is plain data and plain functions. Tasks, channels and clocks belong to the
//! runtime around it, which hands in what happened and does what it is told.

pub mod actor;
pub mod error;
pub mod system;
pub mod time;
pub mod types;

pub use actor::context::{ActorContext, ChildSpawnBuilder};
pub use actor::handle::ActorHandle;
pub use actor::runtime::{ActorConfig, MailboxConfig};
pub use actor::schedule::{OneShotSchedule, RecurringScheduleBuilder, ScheduleBuilder};
pub use actor::spawn::SpawnBuilder;
pub use actor::supervision::SupervisionConfig;
pub use error::{
    ActorError, ActorResult, AskError, SendError, SpawnError, StreamError, SupervisionError,
    TimerError, TrySendError,
};
pub use system::shutdown::{ShutdownPolicy, ShutdownReport};
pub use system::{ActorSystem, SystemConfig};
pub use time::{Duration, Instant};
pub use types::{
    ActorId, ActorStatus, ActorStatusInfo, ChildEvent, ChildInfo, MissPolicy, RecurringId,
    RestartStrategy, RestartType, SchedulePolicy, Shutdown, StopOutcome, StopReason, StreamEvent,
    StreamId, SupervisionAction,
};
