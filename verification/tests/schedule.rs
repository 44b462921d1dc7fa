use tokio_actors::actor::schedule::{
    adjust_next, forward_item, keeps_forwarding, missed_tick_sent, ScheduleBuilder, TickStep,
};
use tokio_actors::types::RecurringIdGenerator;
use tokio_actors::{Duration, Instant, MissPolicy, StreamEvent};

fn at_millis(millis: u64) -> Instant {
    Instant {
        nanos: u128::from(millis) * 1_000_000,
    }
}

const SECOND: Duration = Duration {
    nanos: 1_000_000_000,
};

#[test]
fn skip_goes_on_at_the_next_aligned_tick() {
    let step = adjust_next(at_millis(0), SECOND, MissPolicy::Skip, at_millis(3500));
    assert_eq!(step, TickStep::Wait(at_millis(4000)));
    let prompt = adjust_next(at_millis(1000), SECOND, MissPolicy::Skip, at_millis(1001));
    assert_eq!(prompt, TickStep::Wait(at_millis(2000)));
    let exact = adjust_next(at_millis(0), SECOND, MissPolicy::Skip, at_millis(3000));
    assert_eq!(exact, TickStep::Wait(at_millis(4000)));
}

#[test]
fn skip_of_an_empty_interval_keeps_a_future_tick() {
    let step = adjust_next(
        at_millis(9),
        Duration::zero(),
        MissPolicy::Skip,
        at_millis(3),
    );
    assert_eq!(step, TickStep::Wait(at_millis(9)));
}

#[test]
fn skip_saturates_at_the_end_of_the_clock() {
    let step = adjust_next(
        at_millis(0),
        Duration { nanos: u128::MAX },
        MissPolicy::Skip,
        at_millis(3),
    );
    assert_eq!(step, TickStep::Wait(Instant { nanos: u128::MAX }));
}

#[test]
fn catch_up_sends_every_missed_tick_then_resumes() {
    let now = at_millis(3500);
    let mut sent = Vec::new();
    let mut step = adjust_next(at_millis(0), SECOND, MissPolicy::CatchUp, now);
    while let TickStep::SendMissed(tick) = step {
        sent.push(tick);
        step = missed_tick_sent(tick, SECOND, now);
    }
    assert_eq!(sent, vec![at_millis(1000), at_millis(2000), at_millis(3000)]);
    assert_eq!(step, TickStep::Wait(at_millis(4000)));
}

#[test]
fn delay_restarts_the_interval_now() {
    let step = adjust_next(at_millis(0), SECOND, MissPolicy::Delay, at_millis(3500));
    assert_eq!(step, TickStep::Wait(at_millis(4500)));
}

#[test]
fn schedules_hold_what_they_were_built_with() {
    let shot = ScheduleBuilder::new("ping").at(at_millis(7));
    assert_eq!(shot.message, "ping");
    assert_eq!(shot.when, at_millis(7));
    let later = ScheduleBuilder::new("ping").after(SECOND, at_millis(500));
    assert_eq!(later.when, at_millis(1500));
    let ticking = ScheduleBuilder::new("tick").every(SECOND);
    assert_eq!(ticking.miss_policy, MissPolicy::Skip);
    assert_eq!(ticking.first_tick(at_millis(250)), at_millis(1250));
    let policy = ticking.on_miss(MissPolicy::CatchUp).miss_policy;
    assert_eq!(policy, MissPolicy::CatchUp);
}

#[test]
fn timers_and_streams_draw_from_one_counter() {
    let mut ids = RecurringIdGenerator::default();
    let first = ids.next();
    let second = ids.next_stream_id();
    let third = ids.next();
    assert_eq!((first.number, second.number, third.number), (0, 1, 2));
    ids.upcoming = u64::MAX;
    assert_eq!(ids.next().number, u64::MAX);
    assert_eq!(ids.next().number, 0);
}

#[test]
fn test_empty_stream() {
    assert_eq!(forward_item::<i32>(None), (StreamEvent::Finished, true));
    assert_eq!(forward_item(Some(5)), (StreamEvent::Data(5), false));
    assert!(keeps_forwarding(false, true));
    assert!(!keeps_forwarding(false, false));
    assert!(!keeps_forwarding(true, true));
}

#[test]
fn durations_add_up() {
    assert_eq!(
        Duration::new(2, 5).saturating_add(Duration::from_millis(1)),
        Duration {
            nanos: 2_001_000_005
        }
    );
    assert_eq!(
        SECOND.saturating_add(Duration { nanos: u128::MAX }),
        Duration { nanos: u128::MAX }
    );
    assert_eq!(at_millis(5).checked_sub(SECOND), None);
    assert_eq!(at_millis(1500).checked_sub(SECOND), Some(at_millis(500)));
    assert_eq!(Instant { nanos: u128::MAX }.checked_add(SECOND), None);
}

#[test]
fn a_message_scheduled_in_the_past_is_due_at_once() {
    let late = ScheduleBuilder::new("late").at(at_millis(10));
    assert_eq!(late.due_in(at_millis(50)), Duration::zero());
    assert_eq!(late.due_in(at_millis(10)), Duration::zero());
    assert_eq!(late.due_in(at_millis(4)), Duration::from_millis(6));
}
