use tokio_actors::types::{LaneState, StopLane, StopSeverity};
use tokio_actors::{ActorError, StopReason};

fn severity_of(state: &LaneState) -> Option<StopSeverity> {
    state.reason.as_ref().map(StopSeverity::of)
}

#[test]
fn first_raise_is_always_accepted() {
    let (lane, rx) = StopLane::new();
    lane.raise(StopReason::Graceful);
    let state = rx.borrow();
    assert_eq!(severity_of(&state), Some(StopSeverity::Requested));
    assert_eq!(state.generation, 1);
}

#[test]
fn higher_severity_overwrites_lower() {
    let (lane, rx) = StopLane::new();
    lane.raise(StopReason::Graceful);
    lane.raise(StopReason::Kill);
    let state = rx.borrow();
    assert_eq!(severity_of(&state), Some(StopSeverity::Kill));
    assert_eq!(state.generation, 2);
}

#[test]
fn lower_severity_never_displaces_a_higher_one() {
    let (lane, rx) = StopLane::new();
    lane.raise(StopReason::Kill);
    lane.raise(StopReason::Graceful);
    lane.raise(StopReason::Failure(ActorError::user("x")));
    let state = rx.borrow();
    assert_eq!(
        severity_of(&state),
        Some(StopSeverity::Kill),
        "Kill must never be downgraded by a later, weaker raise"
    );
    assert_eq!(
        state.generation, 1,
        "a rejected (lower-severity) raise must not bump the generation"
    );
}

#[test]
fn equal_severity_reraise_bumps_generation_without_changing_tier() {
    let (lane, rx) = StopLane::new();
    lane.raise(StopReason::Graceful);
    lane.raise(StopReason::ParentRequest);
    let state = rx.borrow();
    assert_eq!(severity_of(&state), Some(StopSeverity::Requested));
    assert_eq!(
        state.generation, 2,
        "same-tier re-raise must still bump the generation for re-observation"
    );
    assert!(matches!(state.reason, Some(StopReason::ParentRequest)));
}

#[test]
fn raise_after_receiver_dropped_is_a_harmless_no_op() {
    let (lane, rx) = StopLane::new();
    assert!(!lane.is_closed());
    drop(rx);
    assert!(lane.is_closed());
    lane.raise(StopReason::Kill); // must not panic
}

#[test]
fn clones_raise_on_the_same_lane() {
    let (lane, rx) = StopLane::new();
    let other = lane.clone();
    other.raise(StopReason::Cancelled);
    lane.raise(StopReason::Graceful);
    let state = rx.borrow();
    assert_eq!(severity_of(&state), Some(StopSeverity::Forced));
    assert!(matches!(state.reason, Some(StopReason::Cancelled)));
    assert_eq!(state.generation, 1);
}

#[test]
fn lane_state_accepts_by_severity() {
    let mut state = LaneState::default();
    assert!(state.accept(StopReason::ParentRequest));
    assert!(state.accept(StopReason::Failure(ActorError::user("x"))));
    assert!(!state.accept(StopReason::Graceful));
    assert_eq!(state.generation, 2);
    let copy = state.clone();
    assert!(matches!(copy.reason, Some(StopReason::Failure(_))));
    state.generation = u64::MAX;
    assert!(state.accept(StopReason::Kill));
    assert_eq!(state.generation, 0, "the generation wraps around");
}

#[test]
fn a_new_lane_is_unraised_and_its_receiver_hears_its_clones() {
    let (lane, rx) = StopLane::new();
    let (other, _other_rx) = StopLane::new();
    assert!(rx.borrow().reason.is_none());
    assert_eq!(rx.borrow().generation, 0);
    other.raise(StopReason::Kill);
    assert!(rx.borrow().reason.is_none(), "lanes are independent");
    lane.clone().raise(StopReason::Graceful);
    assert!(matches!(rx.borrow().reason, Some(StopReason::Graceful)));
    assert_eq!(rx.borrow().generation, 1);
}

#[test]
fn a_raise_tells_what_it_found_and_what_it_left() {
    let (lane, rx) = StopLane::new();
    let first = lane.raise(StopReason::Cancelled);
    assert!(first.before.reason.is_none());
    assert!(matches!(first.after.reason, Some(StopReason::Cancelled)));
    assert_eq!(first.after.generation, 1);
    let refused = lane.raise(StopReason::Graceful);
    assert!(matches!(refused.before.reason, Some(StopReason::Cancelled)));
    assert!(matches!(refused.after.reason, Some(StopReason::Cancelled)));
    assert_eq!(refused.after.generation, 1);
    let kill = lane.raise(StopReason::Kill);
    assert_eq!(kill.before.generation, 1);
    assert!(matches!(kill.after.reason, Some(StopReason::Kill)));
    assert_eq!(rx.borrow().generation, kill.after.generation);
}
