//! Actors: supervision, the run loop's decisions, and what an actor's context keeps.

pub mod attempt_laws;
pub mod budget;
pub mod child_events;
pub mod child_laws;
pub mod context;
pub mod death_laws;
pub mod handle;
pub mod ids;
pub mod ladder;
pub mod lifecycle;
pub mod manual_laws;
pub mod management;
pub mod panic;
pub mod progress_laws;
pub mod registry;
pub mod run_laws;
pub mod runtime;
pub mod schedule;
pub mod spawn;
pub mod supervision;
