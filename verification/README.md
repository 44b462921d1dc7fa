# tokio_actors

The decision core of an actor runtime on Tokio, written and proved in Verus: what a supervisor does
about the deaths of its children, how restart budgets are charged, how actors start and stop, how
far a stop escalates, when timers tick, who is registered under which name, and how a whole system
is shut down.

The library holds no tasks, channels or clocks. It is told what happened and answers with what is to
be done. Time comes in as a value (`Instant`), and so do the tokens that tell the incarnations of a
child apart.

## Layout

- `src/types.rs`, `src/error.rs`, `src/time.rs`: plain values; `src/types/stop_lane.rs`: the signal
  that carries stop requests, with its rules of severity.
- `src/actor/lifecycle.rs`, `registry.rs`, `budget.rs`: the states of a child, the children of a
  supervisor in start order, the sliding window of restarts.
- `src/actor/supervision.rs`, `child_events.rs`, `management.rs`, `ladder.rs`: restart strategies,
  deaths and restart attempts, manual management, escalation.
- `src/actor/child_laws.rs`, `progress_laws.rs`: what holds of every supervisor, whatever becomes of
  its children.
- `src/actor/runtime.rs`, `run_laws.rs`: configuration, and the life of an actor as a state machine
  with its laws.
- `src/actor/context.rs`, `spawn.rs`, `handle.rs`, `schedule.rs`, `panic.rs`: what an actor keeps
  about itself, spawning, requests and their errors, timers and streams, panics.
- `src/system.rs`, `src/system/`: registration, shutdown, and the reaper of children that outlive
  their deadline.
- `app/`: the Tokio side. It runs the tasks, waits, and does what the library decides.
- `tests/`: scenarios on concrete values.

## What is taken on trust

The registry is a `dashmap::DashMap`, identifiers come from `uuid`, the stop lane is a
`tokio::sync::watch` cell and forwarders are ended by `tokio_util` cancellation tokens. The calls
into these crates stand behind small items whose doc comments say what is claimed of them
(`src/system/table.rs`, `src/actor/context.rs`, `src/types/stop_lane.rs`). Everything else is proved.
