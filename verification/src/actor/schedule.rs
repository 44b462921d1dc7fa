//! Timers and stream forwarders: when a timer ticks next, and what a forwarder delivers.

use vstd::prelude::*;
use crate::actor::handle::until;
use crate::actor::runtime::{deadline_after, saturating_deadline};
use crate::time::{Duration, Instant};
use crate::types::{MissPolicy, StreamEvent};

verus! {

// ---------------------------------------------------------------------------
// Builders
// ---------------------------------------------------------------------------

/// A message that is to be scheduled. Nothing is registered before the schedule is.
#[derive(Debug)]
pub struct ScheduleBuilder<M> {
    /// The message.
    pub message: M,
}

/// A message that is to be sent once.
#[derive(Debug)]
pub struct OneShotSchedule<M> {
    /// The message.
    pub message: M,
    /// When to send it.
    pub when: Instant,
}

/// A message that is to be sent again and again.
#[derive(Debug)]
pub struct RecurringScheduleBuilder<M> {
    /// The message, or what makes one for each tick.
    pub message: M,
    /// The time between ticks.
    pub interval: Duration,
    /// What is done about missed ticks.
    pub miss_policy: MissPolicy,
}

impl<M> ScheduleBuilder<M> {
    /// The schedule of the given message.
    pub fn new(message: M) -> (builder: Self)
        ensures
            builder.message == message,
    {
        ScheduleBuilder { message }
    }

    /// Schedule a one-shot message at a specific instant.
    pub fn at(self, when: Instant) -> (schedule: OneShotSchedule<M>)
        ensures
            schedule.message == self.message,
            schedule.when == when,
    {
        OneShotSchedule { message: self.message, when }
    }

    /// Schedule a one-shot message some time after `now`.
    pub fn after(self, delay: Duration, now: Instant) -> (schedule: OneShotSchedule<M>)
        ensures
            schedule.message == self.message,
            schedule.when == deadline_after(now, delay),
    {
        OneShotSchedule { message: self.message, when: saturating_deadline(now, delay) }
    }

    /// Schedule a recurring timer. Missed ticks are skipped unless something else is asked for.
    pub fn every(self, interval: Duration) -> (schedule: RecurringScheduleBuilder<M>)
        ensures
            schedule.message == self.message,
            schedule.interval == interval,
            schedule.miss_policy == MissPolicy::Skip,
    {
        RecurringScheduleBuilder { message: self.message, interval, miss_policy: MissPolicy::Skip }
    }
}

impl<M> OneShotSchedule<M> {
    /// How long to wait before the message is sent. One that is scheduled in the past is sent at
    /// once.
    pub fn due_in(&self, now: Instant) -> (wait: Duration)
        ensures
            wait == until(self.when, now),
    {
        self.when.saturating_duration_since(now)
    }
}

/// A message that is scheduled in the past is due at once; one in the future is due exactly then, and
/// one that is scheduled after some time is due after that time.
pub proof fn messages_are_due_when_scheduled(point: Instant, now: Instant, delay: Duration)
    ensures
        point.nanos <= now.nanos ==> until(point, now).nanos == 0,
        point.nanos >= now.nanos ==> now.nanos + until(point, now).nanos == point.nanos,
        now.nanos + delay.nanos <= u128::MAX ==> until(deadline_after(now, delay), now) == delay,
{
}

impl<M> RecurringScheduleBuilder<M> {
    /// Sets what is done about missed ticks.
    pub fn on_miss(self, policy: MissPolicy) -> (schedule: Self)
        ensures
            schedule == (RecurringScheduleBuilder { miss_policy: policy, ..self }),
    {
        RecurringScheduleBuilder { miss_policy: policy, ..self }
    }

    /// When the timer ticks first.
    pub fn first_tick(&self, now: Instant) -> (first: Instant)
        ensures
            first == deadline_after(now, self.interval),
    {
        saturating_deadline(now, self.interval)
    }
}

// ---------------------------------------------------------------------------
// Missed ticks
// ---------------------------------------------------------------------------

/// How many intervals after `next` the first aligned tick after `now` comes, at least one.
pub open spec fn ticks_until(next: Instant, interval: Duration, now: Instant) -> int {
    if next.nanos + interval.nanos > now.nanos {
        1
    } else {
        (now.nanos - next.nanos) / (interval.nanos as int) + 1
    }
}

/// The given number of nanoseconds since the clock was started, or its last point.
pub open spec fn clamped(nanos: int) -> Instant {
    if nanos <= u128::MAX {
        Instant { nanos: nanos as u128 }
    } else {
        Instant { nanos: u128::MAX }
    }
}

/// The first tick after `now` that is aligned with the tick at `next`.
pub open spec fn next_aligned(next: Instant, interval: Duration, now: Instant) -> Instant {
    clamped(next.nanos + ticks_until(next, interval, now) * interval.nanos)
}

/// What is done after a tick.
#[derive(Debug, Clone, Copy, PartialEq, Eq, Structural)]
pub enum TickStep {
    /// Wait until the given instant, then tick.
    Wait(Instant),
    /// The tick at the given instant was missed: send its message now, and see
    /// [`missed_tick_sent`].
    SendMissed(Instant),
}

/// The tick that follows the one at `next`: to be waited for, or missed already.
pub open spec fn following(next: Instant, interval: Duration, now: Instant) -> TickStep {
    let tick = deadline_after(next, interval);
    if tick.nanos <= now.nanos {
        TickStep::SendMissed(tick)
    } else {
        TickStep::Wait(tick)
    }
}

/// What is done after the tick that was due at `next` was sent, by the policy for missed ticks.
pub open spec fn adjusted(
    next: Instant,
    interval: Duration,
    miss_policy: MissPolicy,
    now: Instant,
) -> TickStep {
    match miss_policy {
        MissPolicy::Skip => TickStep::Wait(next_aligned(next, interval, now)),
        MissPolicy::Delay => TickStep::Wait(deadline_after(now, interval)),
        MissPolicy::CatchUp => following(next, interval, now),
    }
}

/// Decides when a timer ticks after its tick that was due at `next` was sent, by its policy for
/// missed ticks.
pub fn adjust_next(next: Instant, interval: Duration, miss_policy: MissPolicy, now: Instant) -> (step:
    TickStep)
    requires
        miss_policy == MissPolicy::Skip ==> interval.nanos > 0 || next.nanos > now.nanos,
    ensures
        step == adjusted(next, interval, miss_policy, now),
{
    match miss_policy {
        MissPolicy::Skip => TickStep::Wait(skip_missed(next, interval, now)),
        MissPolicy::Delay => TickStep::Wait(saturating_deadline(now, interval)),
        MissPolicy::CatchUp => missed_tick_sent(next, interval, now),
    }
}

/// Decides what follows a tick at `next` that was caught up with. Where its message could not be
/// sent, or the timer is cancelled, nothing follows and the timer waits for that very tick.
pub fn missed_tick_sent(next: Instant, interval: Duration, now: Instant) -> (step: TickStep)
    ensures
        step == following(next, interval, now),
{
    let tick: Instant = saturating_deadline(next, interval);
    if tick.nanos <= now.nanos {
        TickStep::SendMissed(tick)
    } else {
        TickStep::Wait(tick)
    }
}

/// The first tick after `now` that is aligned with the tick at `next`.
fn skip_missed(next: Instant, interval: Duration, now: Instant) -> (tick: Instant)
    requires
        interval.nanos > 0 || next.nanos > now.nanos,
    ensures
        tick == next_aligned(next, interval, now),
{
    if next.nanos > now.nanos || interval.nanos > now.nanos - next.nanos {
        return saturating_deadline(next, interval);
    }
    let late: u128 = now.nanos - next.nanos;
    let passed: u128 = late % interval.nanos;
    proof {
        let l = late as int;
        let i = interval.nanos as int;
        assert(0 <= l % i < i && (l / i + 1) * i == l + (i - l % i)) by (nonlinear_arith)
            requires
                l >= 0,
                i > 0,
        ;
    }
    saturating_deadline(now, Duration { nanos: interval.nanos - passed })
}

/// Skipping leaves no tick behind and none out: the next tick comes after `now`, a whole number of
/// intervals after the tick at `next`, and the one before it was not to come after `now` (unless it
/// is the one at `next` itself).
pub proof fn skipping_stays_aligned(next: Instant, interval: Duration, now: Instant)
    requires
        interval.nanos > 0,
        now.nanos < u128::MAX,
    ensures
        ticks_until(next, interval, now) >= 1,
        next_aligned(next, interval, now).nanos > now.nanos,
        ticks_until(next, interval, now) > 1 ==> next.nanos + (ticks_until(next, interval, now) - 1)
            * interval.nanos <= now.nanos,
{
    let i = interval.nanos as int;
    if next.nanos + i <= now.nanos {
        let l = now.nanos - next.nanos;
        assert(l / i * i <= l && l < (l / i + 1) * i && l / i >= 0) by (nonlinear_arith)
            requires
                l >= 0,
                i > 0,
        ;
    } else {
        assert(1 * i == i) by (nonlinear_arith);
    }
}

/// The messages that are sent at once by a timer that catches up, if none is refused, and the tick
/// that it waits for then.
pub open spec fn caught_up(next: Instant, interval: Duration, now: Instant) -> (nat, Instant)
    decreases now.nanos - next.nanos,
    when interval.nanos > 0
{
    match following(next, interval, now) {
        TickStep::Wait(tick) => (0, tick),
        TickStep::SendMissed(tick) => if tick.nanos > next.nanos {
            let rest = caught_up(tick, interval, now);
            ((rest.0 + 1) as nat, rest.1)
        } else {
            (0, tick)
        },
    }
}

/// Catching up loses no tick: one message is sent at once for every tick that skipping would leave
/// out, and the timer goes on at the very tick that skipping goes on at.
pub proof fn catching_up_loses_nothing(next: Instant, interval: Duration, now: Instant)
    requires
        interval.nanos > 0,
        now.nanos < u128::MAX,
    ensures
        caught_up(next, interval, now).0 == ticks_until(next, interval, now) - 1,
        caught_up(next, interval, now).1 == next_aligned(next, interval, now),
    decreases now.nanos - next.nanos,
{
    let i = interval.nanos as int;
    let tick = deadline_after(next, interval);
    if tick.nanos <= now.nanos {
        catching_up_loses_nothing(tick, interval, now);
        let l = now.nanos - next.nanos;
        let k = ticks_until(tick, interval, now);
        assert(tick.nanos == next.nanos + i);
        assert(ticks_until(next, interval, now) == k + 1) by {
            if tick.nanos + i > now.nanos {
                assert(l / i == 1) by (nonlinear_arith)
                    requires
                        i <= l < 2 * i,
                        i > 0,
                ;
            } else {
                assert(l / i == (l - i) / i + 1) by (nonlinear_arith)
                    requires
                        l >= i,
                        i > 0,
                ;
            }
        }
        assert((k + 1) * i == i + k * i) by (nonlinear_arith);
    } else {
        assert(1 * i == i) by (nonlinear_arith);
    }
}

/// Whether `tick` is the first point after `now` that lies a whole number of intervals, at least one,
/// after `start`.
pub open spec fn is_next_tick(start: int, interval: int, now: int, tick: int) -> bool {
    exists|k: int|
        {
            &&& k >= 1
            &&& tick == start + #[trigger] (k * interval)
            &&& tick > now
            &&& k == 1 || tick - interval <= now
        }
}

/// A skipping timer stays aligned: below the end of the clock, the tick that it waits for is the
/// first one after `now` that lies a whole number of intervals, at least one, after the tick just
/// sent. Beyond the end of the clock it is never woken.
pub proof fn skipping_timers_wait_for_the_next_aligned_tick(
    next: Instant,
    interval: Duration,
    now: Instant,
)
    requires
        interval.nanos > 0,
        now.nanos < u128::MAX,
    ensures
        ({
            let step = adjusted(next, interval, MissPolicy::Skip, now);
            &&& step is Wait
            &&& step->Wait_0.nanos < u128::MAX ==> is_next_tick(
                next.nanos as int,
                interval.nanos as int,
                now.nanos as int,
                step->Wait_0.nanos as int,
            )
            &&& step->Wait_0.nanos == u128::MAX ==> forall|tick: int|
                is_next_tick(next.nanos as int, interval.nanos as int, now.nanos as int, tick)
                    ==> tick >= u128::MAX
        }),
{
    skipping_stays_aligned(next, interval, now);
    let k = ticks_until(next, interval, now);
    let i = interval.nanos as int;
    let n = next.nanos as int;
    let p = now.nanos as int;
    assert(k * i - i == (k - 1) * i) by (nonlinear_arith);
    assert(1 * i == i) by (nonlinear_arith);
    assert(n + k * i > p) by {
        if n + i <= p {
            let l = p - n;
            assert(l < (l / i + 1) * i) by (nonlinear_arith)
                requires
                    l >= 0,
                    i > 0,
            ;
        }
    }
    assert(is_next_tick(n, i, p, n + k * i));
    assert forall|tick: int| is_next_tick(n, i, p, tick) implies tick == n + k * i by {
        let j = choose|j: int|
            {
                &&& j >= 1
                &&& tick == n + #[trigger] (j * i)
                &&& tick > p
                &&& j == 1 || tick - i <= p
            };
        next_ticks_are_unique(n, i, p, j, k);
    }
}

/// A timer without an interval that is not due yet waits for the very same tick.
pub proof fn empty_intervals_keep_a_future_tick(next: Instant, interval: Duration, now: Instant)
    requires
        interval.nanos == 0,
        next.nanos > now.nanos,
    ensures
        adjusted(next, interval, MissPolicy::Skip, now) == TickStep::Wait(next),
{
}

/// There is one next tick.
proof fn next_ticks_are_unique(start: int, interval: int, now: int, j: int, k: int)
    requires
        interval > 0,
        j >= 1,
        k >= 1,
        start + j * interval > now,
        start + k * interval > now,
        j == 1 || start + j * interval - interval <= now,
        k == 1 || start + k * interval - interval <= now,
    ensures
        j == k,
{
    if j < k {
        assert(j * interval <= (k - 1) * interval && (k - 1) * interval == k * interval - interval)
            by (nonlinear_arith)
            requires
                j <= k - 1,
                interval > 0,
        ;
    } else if k < j {
        assert(k * interval <= (j - 1) * interval && (j - 1) * interval == j * interval - interval)
            by (nonlinear_arith)
            requires
                k <= j - 1,
                interval > 0,
        ;
    }
}

/// A timer that catches up goes from tick to tick: every step concerns the point exactly one interval
/// after the tick before it, which is sent at once where it does not lie after `now` and waited for
/// where it does. So the tick that is waited for in the end lies after `now`, and the ones sent at
/// once are all those that lie between, in order.
pub proof fn catching_up_goes_tick_by_tick(next: Instant, interval: Duration, now: Instant)
    requires
        next.nanos + interval.nanos <= u128::MAX,
    ensures
        ({
            let tick = (next.nanos + interval.nanos) as u128;
            let step = adjusted(next, interval, MissPolicy::CatchUp, now);
            &&& tick > now.nanos ==> step == TickStep::Wait(Instant { nanos: tick })
            &&& tick <= now.nanos ==> step == TickStep::SendMissed(Instant { nanos: tick })
            &&& step == following(next, interval, now)
        }),
{
}

/// A timer that has caught up is aligned as one that skipped: below the end of the clock, the tick
/// that it waits for is the first one after `now` that lies a whole number of intervals, at least
/// one, after the tick at which it began to catch up, and it sent one message for each such point up
/// to `now`.
pub proof fn timers_that_caught_up_are_aligned(next: Instant, interval: Duration, now: Instant)
    requires
        interval.nanos > 0,
        now.nanos < u128::MAX,
    ensures
        ({
            let (sent, tick) = caught_up(next, interval, now);
            tick.nanos < u128::MAX ==> {
                &&& is_next_tick(
                    next.nanos as int,
                    interval.nanos as int,
                    now.nanos as int,
                    tick.nanos as int,
                )
                &&& tick.nanos == next.nanos + (sent + 1) * interval.nanos
            }
        }),
{
    catching_up_loses_nothing(next, interval, now);
    skipping_timers_wait_for_the_next_aligned_tick(next, interval, now);
}

/// A timer that delays waits one interval from `now` on, whatever it missed, and so never ticks twice
/// within one interval. Whatever the policy, a timer that missed nothing and was sent at once ticks
/// one interval later.
pub proof fn delaying_timers_wait_one_interval(next: Instant, interval: Duration, now: Instant)
    requires
        now.nanos + interval.nanos <= u128::MAX,
    ensures
        adjusted(next, interval, MissPolicy::Delay, now) == TickStep::Wait(
            Instant { nanos: (now.nanos + interval.nanos) as u128 },
        ),
        interval.nanos > 0 ==> forall|policy: MissPolicy|
            #[trigger] adjusted(now, interval, policy, now) == TickStep::Wait(
                Instant { nanos: (now.nanos + interval.nanos) as u128 },
            ),
{
    let i = interval.nanos as int;
    assert(1 * i == i) by (nonlinear_arith);
    assert forall|policy: MissPolicy| interval.nanos > 0 implies #[trigger] adjusted(
        now,
        interval,
        policy,
        now,
    ) == TickStep::Wait(Instant { nanos: (now.nanos + interval.nanos) as u128 }) by {
        match policy {
            MissPolicy::Skip => {},
            MissPolicy::Delay => {},
            MissPolicy::CatchUp => {},
        }
    }
}

/// A timer that delays never ticks twice within one interval, whatever it missed.
pub proof fn delaying_keeps_the_distance(interval: Duration, now: Instant)
    requires
        now.nanos + interval.nanos <= u128::MAX,
    ensures
        deadline_after(now, interval).nanos - now.nanos == interval.nanos,
{
}

// ---------------------------------------------------------------------------
// Streams
// ---------------------------------------------------------------------------

/// What a stream forwarder delivers for what its stream yields, and whether it ends after that.
pub open spec fn forwarded<T>(item: Option<T>) -> (StreamEvent<T>, bool) {
    match item {
        Some(value) => (StreamEvent::Data(value), false),
        None => (StreamEvent::Finished, true),
    }
}

/// Every item of a stream is delivered as it is, and the forwarder goes on as long as the actor takes
/// what it delivers; the end of the stream is delivered once, as the last event.
pub proof fn streams_are_forwarded_item_by_item<T>(value: T)
    ensures
        forwarded(Some(value)).0 == StreamEvent::Data(value),
        !forwarded(Some(value)).1,
        forwarded(None::<T>).0 is Finished,
        forwarded(None::<T>).1,
{
}

/// What a stream forwarder delivers for what its stream yields: an item, or the end of the stream,
/// after which it ends.
pub fn forward_item<T>(item: Option<T>) -> (delivery: (StreamEvent<T>, bool))
    ensures
        delivery == forwarded(item),
{
    match item {
        Some(value) => (StreamEvent::Data(value), false),
        None => (StreamEvent::Finished, true),
    }
}

/// Whether a stream forwarder goes on after a delivery: not after the end of its stream, and not
/// once the actor takes nothing any more.
pub fn keeps_forwarding(last: bool, delivered: bool) -> (more: bool)
    ensures
        more == (!last && delivered),
{
    !last && delivered
}

} // verus!
