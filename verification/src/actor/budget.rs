//! Sliding-window restart budgets.

use std::collections::VecDeque;
use vstd::prelude::*;
use crate::time::{Duration, Instant};

verus! {

/// The times of restarts without the leading ones that lie before `limit`.
pub open spec fn unexpired(stamps: Seq<Instant>, limit: int) -> Seq<Instant>
    decreases stamps.len(),
{
    if stamps.len() > 0 && stamps[0].nanos < limit {
        unexpired(stamps.drop_first(), limit)
    } else {
        stamps
    }
}

/// What a [`RestartBudget`] holds.
pub struct BudgetView {
    /// How many restarts the window may hold.
    pub max_restarts: u32,
    /// The length of the window.
    pub restart_window: Duration,
    /// When the restarts that still count took place, in the order in which they were recorded.
    pub stamps: Seq<Instant>,
}

impl BudgetView {
    /// The restarts that still count at `now`.
    pub open spec fn counting(self, now: Instant) -> Seq<Instant> {
        unexpired(self.stamps, now.nanos - self.restart_window.nanos)
    }

    /// Whether one more restart is allowed at `now`.
    pub open spec fn allows(self, now: Instant) -> bool {
        self.counting(now).len() < self.max_restarts
    }

    /// The budget after a restart was asked for at `now`.
    pub open spec fn charged(self, now: Instant) -> BudgetView {
        BudgetView {
            stamps: if self.allows(now) {
                self.counting(now).push(now)
            } else {
                self.counting(now)
            },
            ..self
        }
    }
}

/// Sliding-window restart budget tracker.
#[derive(Debug)]
pub struct RestartBudget {
    max_restarts: u32,
    restart_window: Duration,
    timestamps: VecDeque<Instant>,
}

impl View for RestartBudget {
    type V = BudgetView;

    closed spec fn view(&self) -> BudgetView {
        BudgetView {
            max_restarts: self.max_restarts,
            restart_window: self.restart_window,
            stamps: self.timestamps@,
        }
    }
}

impl RestartBudget {
    /// A budget that nothing was charged to.
    pub fn new(max_restarts: u32, restart_window: Duration) -> (budget: Self)
        ensures
            budget@ == (BudgetView { max_restarts, restart_window, stamps: Seq::empty() }),
    {
        RestartBudget { max_restarts, restart_window, timestamps: VecDeque::new() }
    }

    /// Checks if a restart is allowed at `now`. If yes, records it and returns `true`. If the
    /// budget is exhausted, returns `false`.
    pub fn check_and_record(&mut self, now: Instant) -> (allowed: bool)
        ensures
            allowed == old(self)@.allows(now),
            final(self)@ == old(self)@.charged(now),
    {
        let ghost limit = now.nanos - self.restart_window.nanos;
        let ghost goal = unexpired(self.timestamps@, limit);
        if let Some(cutoff) = now.checked_sub(self.restart_window) {
            while self.timestamps.len() > 0 && self.timestamps[0].nanos < cutoff.nanos
                invariant
                    cutoff.nanos == limit,
                    unexpired(self.timestamps@, limit) == goal,
                    self.max_restarts == old(self).max_restarts,
                    self.restart_window == old(self).restart_window,
                decreases self.timestamps@.len(),
            {
                let ghost before = self.timestamps@;
                self.timestamps.pop_front();
                assert(self.timestamps@ =~= before.drop_first());
            }
        }
        assert(self.timestamps@ == goal);
        if self.timestamps.len() >= self.max_restarts as usize {
            return false;
        }
        self.timestamps.push_back(now);
        true
    }
}

/// Times in the order in which a clock that never runs backwards gives them.
pub open spec fn in_order(stamps: Seq<Instant>) -> bool {
    forall|i: int, j: int| 0 <= i <= j < stamps.len() ==> stamps[i].nanos <= stamps[j].nanos
}

/// What [`unexpired`] leaves is a tail of the list, of which nothing is missing but what lies
/// before the limit; of a list in order, all of it lies at or after the limit.
pub proof fn unexpired_is_a_tail(stamps: Seq<Instant>, limit: int)
    ensures
        unexpired(stamps, limit).len() <= stamps.len(),
        unexpired(stamps, limit) == stamps.skip(stamps.len() - unexpired(stamps, limit).len()),
        forall|i: int|
            0 <= i < stamps.len() - unexpired(stamps, limit).len() ==> stamps[i].nanos < limit,
        in_order(stamps) ==> forall|i: int|
            0 <= i < unexpired(stamps, limit).len() ==> unexpired(stamps, limit)[i].nanos >= limit,
    decreases stamps.len(),
{
    let left = unexpired(stamps, limit);
    if stamps.len() > 0 && stamps[0].nanos < limit {
        let rest = stamps.drop_first();
        unexpired_is_a_tail(rest, limit);
        assert(stamps.skip(stamps.len() - left.len()) =~= rest.skip(rest.len() - left.len()));
        assert forall|i: int| 0 <= i < stamps.len() - left.len() implies stamps[i].nanos
            < limit by {
            if i > 0 {
                assert(rest[i - 1] == stamps[i]);
            }
        }
        if in_order(stamps) {
            assert(in_order(rest)) by {
                assert forall|i: int, j: int| 0 <= i <= j < rest.len() implies rest[i].nanos
                    <= rest[j].nanos by {
                    assert(stamps[i + 1].nanos <= stamps[j + 1].nanos);
                }
            }
        }
    } else {
        assert(stamps.skip(0) =~= stamps);
        if in_order(stamps) && stamps.len() > 0 {
            assert forall|i: int| 0 <= i < left.len() implies left[i].nanos >= limit by {
                assert(stamps[0].nanos <= stamps[i].nanos);
            }
        }
    }
}

/// The restarts that a budget allows when it is asked at the given times, one after the other.
pub open spec fn granted(budget: BudgetView, times: Seq<Instant>) -> Seq<Instant>
    decreases times.len(),
{
    if times.len() == 0 {
        Seq::empty()
    } else {
        let before = granted(budget, times.drop_last());
        if charged_all(budget, times.drop_last()).allows(times.last()) {
            before.push(times.last())
        } else {
            before
        }
    }
}

/// The budget after it was asked at the given times, one after the other.
pub open spec fn charged_all(budget: BudgetView, times: Seq<Instant>) -> BudgetView
    decreases times.len(),
{
    if times.len() == 0 {
        budget
    } else {
        charged_all(budget, times.drop_last()).charged(times.last())
    }
}

/// What a budget remembers is a tail of what it granted, and what it forgot lies before the
/// window that ends at the last time that it was asked.
proof fn budget_remembers_the_window(budget: BudgetView, times: Seq<Instant>)
    requires
        budget.stamps.len() == 0,
        in_order(times),
    ensures
        ({
            let end = charged_all(budget, times);
            let all = granted(budget, times);
            let forgotten = all.len() - end.stamps.len();
            &&& end.max_restarts == budget.max_restarts
            &&& end.restart_window == budget.restart_window
            &&& forgotten >= 0
            &&& end.stamps == all.skip(forgotten)
            &&& in_order(all)
            &&& forall|i: int|
                0 <= i < all.len() ==> times.len() > 0 && all[i].nanos <= times.last().nanos
            &&& forall|i: int|
                0 <= i < forgotten ==> all[i].nanos < times.last().nanos
                    - budget.restart_window.nanos
        }),
    decreases times.len(),
{
    let end = charged_all(budget, times);
    let all = granted(budget, times);
    if times.len() == 0 {
        assert(all.skip(0) =~= end.stamps);
    } else {
        let earlier = times.drop_last();
        let now = times.last();
        assert(in_order(earlier)) by {
            assert forall|i: int, j: int| 0 <= i <= j < earlier.len() implies earlier[i].nanos
                <= earlier[j].nanos by {
                assert(times[i].nanos <= times[j].nanos);
            }
        }
        budget_remembers_the_window(budget, earlier);
        let mid = charged_all(budget, earlier);
        let old_all = granted(budget, earlier);
        let limit = now.nanos - budget.restart_window.nanos;
        let old_forgotten = old_all.len() - mid.stamps.len();
        unexpired_is_a_tail(mid.stamps, limit);
        let left = mid.counting(now);
        let forgotten = old_all.len() - left.len();
        if earlier.len() > 0 {
            assert(times[earlier.len() - 1].nanos <= now.nanos);
            assert(earlier.last() == times[earlier.len() - 1]);
        }
        assert(left =~= old_all.skip(forgotten));
        assert forall|i: int| 0 <= i < forgotten implies old_all[i].nanos < limit by {
            if i >= old_forgotten {
                assert(mid.stamps[i - old_forgotten] == old_all[i]);
            }
        }
        if mid.allows(now) {
            assert(all == old_all.push(now));
            assert(end.stamps =~= all.skip(forgotten));
            assert forall|i: int, j: int| 0 <= i <= j < all.len() implies all[i].nanos
                <= all[j].nanos by {
                if j < old_all.len() {
                    assert(old_all[i].nanos <= old_all[j].nanos);
                } else if i < old_all.len() {
                    assert(old_all[i].nanos <= earlier.last().nanos);
                }
            }
        } else {
            assert(all == old_all);
        }
    }
}

/// The restart intensity: whenever a budget is asked at times that never run backwards, any
/// `max_restarts + 1` restarts that it grants span more than the window.
pub proof fn grants_never_exceed_the_intensity(
    budget: BudgetView,
    times: Seq<Instant>,
    first: int,
    last: int,
)
    requires
        budget.stamps.len() == 0,
        in_order(times),
        0 <= first,
        last < granted(budget, times).len(),
        last - first >= budget.max_restarts,
    ensures
        granted(budget, times)[last].nanos - granted(budget, times)[first].nanos
            > budget.restart_window.nanos,
    decreases times.len(),
{
    let all = granted(budget, times);
    let earlier = times.drop_last();
    let now = times.last();
    let old_all = granted(budget, earlier);
    let mid = charged_all(budget, earlier);
    assert(in_order(earlier)) by {
        assert forall|i: int, j: int| 0 <= i <= j < earlier.len() implies earlier[i].nanos
            <= earlier[j].nanos by {
            assert(times[i].nanos <= times[j].nanos);
        }
    }
    if last < old_all.len() {
        grants_never_exceed_the_intensity(budget, earlier, first, last);
    } else {
        budget_remembers_the_window(budget, earlier);
        unexpired_is_a_tail(mid.stamps, now.nanos - budget.restart_window.nanos);
        let left = mid.counting(now);
        assert(left.len() < budget.max_restarts);
        let old_forgotten = old_all.len() - mid.stamps.len();
        assert(first < old_all.len() - left.len());
        if first >= old_forgotten {
            assert(mid.stamps[first - old_forgotten] == old_all[first]);
        }
        if earlier.len() > 0 {
            assert(times[earlier.len() - 1].nanos <= now.nanos);
            assert(earlier.last() == times[earlier.len() - 1]);
        }
        assert(old_all[first].nanos < now.nanos - budget.restart_window.nanos);
    }
}

/// A budget denies a restart only where the window that ends now holds `max_restarts` restarts
/// that it granted.
pub proof fn denial_means_a_full_window(budget: BudgetView, times: Seq<Instant>, now: Instant)
    requires
        budget.stamps.len() == 0,
        in_order(times.push(now)),
        !charged_all(budget, times).allows(now),
    ensures
        ({
            let all = granted(budget, times);
            &&& all.len() >= budget.max_restarts
            &&& forall|i: int|
                all.len() - budget.max_restarts <= i < all.len() ==> now.nanos - all[i].nanos
                    <= budget.restart_window.nanos
        }),
{
    let longer = times.push(now);
    let all = granted(budget, times);
    let end = charged_all(budget, times);
    assert(in_order(times)) by {
        assert forall|i: int, j: int| 0 <= i <= j < times.len() implies times[i].nanos
            <= times[j].nanos by {
            assert(longer[i].nanos <= longer[j].nanos);
        }
    }
    budget_remembers_the_window(budget, times);
    assert(in_order(end.stamps)) by {
        let forgotten = all.len() - end.stamps.len();
        assert forall|i: int, j: int| 0 <= i <= j < end.stamps.len() implies end.stamps[i].nanos
            <= end.stamps[j].nanos by {
            assert(all[i + forgotten].nanos <= all[j + forgotten].nanos);
        }
    }
    let limit = now.nanos - budget.restart_window.nanos;
    unexpired_is_a_tail(end.stamps, limit);
    let left = end.counting(now);
    assert forall|i: int| all.len() - budget.max_restarts <= i < all.len() implies now.nanos
        - all[i].nanos <= budget.restart_window.nanos by {
        let k = i - (all.len() - left.len());
        assert(left[k] == all[i]);
    }
}

} // verus!
