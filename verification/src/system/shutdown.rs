//! The shutdown of a system: its roots are stopped one after the other, each up a ladder of its
//! own, until the deadline of the whole shutdown.

use vstd::prelude::*;
use crate::actor::handle::time_left;
use crate::actor::ids::texts;
use crate::actor::ladder::LadderRung;
use crate::actor::supervision::KILL_GRACE;
use crate::time::{Duration, Instant};
use crate::types::{ActorId, StopOutcome, StopReason};

verus! {

/// Policy controlling how a system is shut down.
#[derive(Debug, Clone, Copy, PartialEq, Eq, Structural)]
pub struct ShutdownPolicy {
    /// Maximum time for the entire shutdown. After this deadline, all remaining actors are
    /// force-stopped.
    pub timeout: Duration,
    /// Maximum time to wait for each individual actor to stop gracefully. An actor that does not
    /// stop within it is killed.
    pub per_actor_timeout: Duration,
}

impl Default for ShutdownPolicy {
    fn default() -> (policy: Self)
        ensures
            policy.timeout.nanos == 30_000_000_000,
            policy.per_actor_timeout.nanos == 5_000_000_000,
    {
        ShutdownPolicy {
            timeout: Duration::from_secs(30),
            per_actor_timeout: Duration::from_secs(5),
        }
    }
}

/// The outcome of stopping every root actor of a system.
#[derive(Debug)]
pub struct ShutdownReport {
    /// Outcomes of the roots, in the order in which they were stopped: the reverse of the order in
    /// which they were registered. Those that were force-stopped together after the deadline stand
    /// in that order too. No supervised child is reported here.
    pub outcomes: Vec<(ActorId, StopOutcome)>,
    /// Outcomes of what was left in the registry after that.
    pub swept: Vec<(ActorId, StopOutcome)>,
}

/// A rung of a root's ladder: what it was told last.
#[derive(Debug, Clone, Copy, PartialEq, Eq, Structural)]
pub enum RootRung {
    /// It was asked to stop, which it may veto.
    Asked,
    /// Kill was raised on it.
    Killed,
    /// Its task was aborted.
    Aborted,
}

/// How a root is told.
#[derive(Debug)]
pub enum RootSignal {
    /// Raise the given request on its stop lane.
    Raise(StopReason),
    /// Abort its task.
    Abort,
}

impl RootRung {
    /// The outcome of a root that stopped on this rung.
    pub open spec fn success(self) -> StopOutcome {
        match self {
            RootRung::Asked => StopOutcome::Graceful,
            RootRung::Killed => StopOutcome::Killed,
            RootRung::Aborted => StopOutcome::Aborted,
        }
    }

    /// How long a root may take on this rung, were there no deadline for the whole.
    pub open spec fn own_bound(self, per_actor_timeout: Duration) -> Duration {
        match self {
            RootRung::Asked => per_actor_timeout,
            _ => Duration { nanos: KILL_GRACE },
        }
    }

    /// How the root is told that it is on this rung.
    pub open spec fn told(self) -> RootSignal {
        match self {
            RootRung::Asked => RootSignal::Raise(StopReason::ParentRequest),
            RootRung::Killed => RootSignal::Raise(StopReason::Kill),
            RootRung::Aborted => RootSignal::Abort,
        }
    }

    /// The outcome of a root that stopped on this rung.
    fn outcome(&self) -> (outcome: StopOutcome)
        ensures
            outcome == self.success(),
    {
        match self {
            RootRung::Asked => StopOutcome::Graceful,
            RootRung::Killed => StopOutcome::Killed,
            RootRung::Aborted => StopOutcome::Aborted,
        }
    }

    /// How the root is told that it is on this rung.
    pub fn signal(&self) -> (signal: RootSignal)
        ensures
            signal == self.told(),
    {
        match self {
            RootRung::Asked => RootSignal::Raise(StopReason::ParentRequest),
            RootRung::Killed => RootSignal::Raise(StopReason::Kill),
            RootRung::Aborted => RootSignal::Abort,
        }
    }
}

/// What a [`ShutdownRun`] holds.
pub struct RunView {
    /// The roots, in the order in which they are stopped.
    pub order: Seq<Seq<char>>,
    /// The outcomes of those that are through, in that order.
    pub outcomes: Seq<(Seq<char>, StopOutcome)>,
    /// The rung that the next one is on.
    pub rung: RootRung,
    /// The deadline of the whole shutdown.
    pub deadline: Instant,
    /// How long each root may take to stop gracefully.
    pub per_actor_timeout: Duration,
    /// Whether the deadline passed before the next one was through.
    pub cut: bool,
}

/// The outcomes, by the texts of their IDs.
pub open spec fn outcome_texts(outcomes: Seq<(ActorId, StopOutcome)>) -> Seq<
    (Seq<char>, StopOutcome),
> {
    outcomes.map_values(|entry: (ActorId, StopOutcome)| (entry.0@, entry.1))
}

impl RunView {
    /// Whether a root is being stopped.
    pub open spec fn busy(self) -> bool {
        !self.cut && self.outcomes.len() < self.order.len()
    }

    /// The state after the root that is being stopped got the given outcome.
    pub open spec fn through(self, outcome: StopOutcome) -> RunView {
        RunView {
            outcomes: self.outcomes.push((self.order[self.outcomes.len() as int], outcome)),
            rung: RootRung::Asked,
            ..self
        }
    }

    /// The state after the root that is being stopped was waited for: it reached its terminal
    /// status, or it did not within the bound.
    pub open spec fn observed(self, terminal: bool, now: Instant) -> RunView {
        if !self.busy() {
            self
        } else if terminal {
            self.through(self.rung.success())
        } else if self.rung == RootRung::Aborted {
            self.through(StopOutcome::Unresponsive)
        } else if now.nanos >= self.deadline.nanos {
            RunView { cut: true, ..self }
        } else if self.rung == RootRung::Asked {
            RunView { rung: RootRung::Killed, ..self }
        } else {
            RunView { rung: RootRung::Aborted, ..self }
        }
    }

    /// The roots that are left to be force-stopped.
    pub open spec fn left(self) -> Seq<Seq<char>> {
        self.order.skip(self.outcomes.len() as int)
    }

    /// The roots that are through are the first ones, in order.
    pub open spec fn in_step(self) -> bool {
        &&& self.outcomes.len() <= self.order.len()
        &&& forall|i: int|
            0 <= i < self.outcomes.len() ==> (#[trigger] self.outcomes[i]).0 == self.order[i]
    }
}

/// The sequential part of a shutdown.
#[derive(Debug)]
pub struct ShutdownRun {
    order: Vec<ActorId>,
    outcomes: Vec<(ActorId, StopOutcome)>,
    rung: RootRung,
    deadline: Instant,
    per_actor_timeout: Duration,
    cut: bool,
}

impl View for ShutdownRun {
    type V = RunView;

    closed spec fn view(&self) -> RunView {
        RunView {
            order: texts(self.order@),
            outcomes: outcome_texts(self.outcomes@),
            rung: self.rung,
            deadline: self.deadline,
            per_actor_timeout: self.per_actor_timeout,
            cut: self.cut,
        }
    }
}

impl ShutdownRun {
    #[verifier::type_invariant]
    spec fn inv(self) -> bool {
        self.view().in_step()
    }

    /// The shutdown of the given roots, in the given order.
    pub fn new(order: Vec<ActorId>, deadline: Instant, per_actor_timeout: Duration) -> (run: Self)
        ensures
            run@ == (RunView {
                order: texts(order@),
                outcomes: Seq::empty(),
                rung: RootRung::Asked,
                deadline,
                per_actor_timeout,
                cut: false,
            }),
    {
        let outcomes: Vec<(ActorId, StopOutcome)> = Vec::new();
        assert(outcome_texts(outcomes@) =~= Seq::empty());
        ShutdownRun {
            order,
            outcomes,
            rung: RootRung::Asked,
            deadline,
            per_actor_timeout,
            cut: false,
        }
    }

    /// The root that is being stopped, and the rung that it is on.
    pub fn current(&self) -> (current: Option<(ActorId, RootRung)>)
        ensures
            current is Some == self@.busy(),
            current is Some ==> {
                let (id, rung) = current->0;
                &&& id@ == self@.order[self@.outcomes.len() as int]
                &&& rung == self@.rung
            },
    {
        if !self.cut && self.outcomes.len() < self.order.len() {
            Some((self.order[self.outcomes.len()].clone(), self.rung))
        } else {
            None
        }
    }

    /// How long the root that is being stopped is waited for: as long as its rung says, but not
    /// beyond the deadline.
    pub fn wait_bound(&self, now: Instant) -> (bound: Duration)
        ensures
            bound.nanos <= self@.rung.own_bound(self@.per_actor_timeout).nanos,
            now.nanos + bound.nanos <= self@.deadline.nanos || bound.nanos == 0,
            bound.nanos == self@.rung.own_bound(self@.per_actor_timeout).nanos || now.nanos
                + bound.nanos == self@.deadline.nanos || now.nanos >= self@.deadline.nanos,
    {
        let own: Duration = match self.rung {
            RootRung::Asked => self.per_actor_timeout,
            RootRung::Killed | RootRung::Aborted => Duration { nanos: KILL_GRACE },
        };
        let left: Duration = time_left(self.deadline, now);
        if left.nanos < own.nanos {
            left
        } else {
            own
        }
    }

    /// Goes on to the next root: the one that is being stopped got the given outcome.
    fn report(&mut self, outcome: StopOutcome)
        requires
            old(self)@.busy(),
        ensures
            final(self)@ == old(self)@.through(outcome),
    {
        proof {
            use_type_invariant(&*self);
        }
        let id: ActorId = self.order[self.outcomes.len()].clone();
        let mut outcomes: Vec<(ActorId, StopOutcome)> = Vec::new();
        std::mem::swap(&mut self.outcomes, &mut outcomes);
        outcomes.push((id, outcome));
        assert(outcome_texts(outcomes@) =~= old(self)@.through(outcome).outcomes);
        self.outcomes = outcomes;
        self.rung = RootRung::Asked;
    }

    /// Takes note that the root that is being stopped was waited for: it reached its terminal
    /// status, or it did not within the bound. A root on its last rung is given up then; any other
    /// one is told again, unless the deadline has passed.
    pub fn observe(&mut self, terminal: bool, now: Instant)
        ensures
            final(self)@ == old(self)@.observed(terminal, now),
    {
        proof {
            use_type_invariant(&*self);
        }
        if self.cut || self.outcomes.len() >= self.order.len() {
            return;
        }
        if terminal {
            self.report(self.rung.outcome());
        } else if self.rung == RootRung::Aborted {
            self.report(StopOutcome::Unresponsive);
        } else if now.nanos >= self.deadline.nanos {
            self.cut = true;
        } else if self.rung == RootRung::Asked {
            self.rung = RootRung::Killed;
        } else {
            self.rung = RootRung::Aborted;
        }
    }

    /// The roots that were not through when the deadline passed, to be force-stopped together.
    pub fn stragglers(&self) -> (ids: Vec<ActorId>)
        ensures
            texts(ids@) == self@.left(),
    {
        proof {
            use_type_invariant(self);
        }
        let mut ids: Vec<ActorId> = Vec::new();
        let mut i: usize = self.outcomes.len();
        while i < self.order.len()
            invariant
                self.outcomes.len() <= i <= self.order.len(),
                ids@ == self.order@.subrange(self.outcomes.len() as int, i as int),
            decreases self.order.len() - i,
        {
            ids.push(self.order[i].clone());
            assert(ids@ =~= self.order@.subrange(self.outcomes.len() as int, i + 1));
            i += 1;
        }
        assert(texts(ids@) =~= self@.left());
        ids
    }

    /// Whether the root with the given ID is through.
    pub fn has_reported(&self, id: &ActorId) -> (found: bool)
        ensures
            found == reports(self@.outcomes, id@),
    {
        was_reported(&self.outcomes, id)
    }

    /// The report of the shutdown, with the outcomes of the roots that were force-stopped, which may
    /// come in any order, and of what was left in the registry. The roots are reported in the order
    /// in which they were stopped.
    pub fn into_report(
        self,
        forced: Vec<(ActorId, StopOutcome)>,
        swept: Vec<(ActorId, StopOutcome)>,
    ) -> (report: ShutdownReport)
        ensures
            outcome_texts(report.outcomes@) == self@.reported(outcome_texts(forced@)),
            report.swept == swept,
            self@.in_step(),
    {
        proof {
            use_type_invariant(&self);
        }
        let left: Vec<ActorId> = self.stragglers();
        let ghost texts_left = texts(left@);
        let ghost handed_in = outcome_texts(forced@);
        let mut outcomes: Vec<(ActorId, StopOutcome)> = self.outcomes;
        let mut i: usize = 0;
        assert(texts_left.take(0) =~= Seq::empty());
        assert(outcome_texts(outcomes@) =~= self@.outcomes + sorted_out(
            texts_left.take(0),
            handed_in,
        ));
        while i < left.len()
            invariant
                i <= left.len(),
                texts_left == texts(left@),
                handed_in == outcome_texts(forced@),
                outcome_texts(outcomes@) == self@.outcomes + sorted_out(
                    texts_left.take(i as int),
                    handed_in,
                ),
            decreases left.len() - i,
        {
            let ghost before = outcomes@;
            let id: &ActorId = &left[i];
            proof {
                let longer = texts_left.take(i + 1);
                assert(longer.drop_last() =~= texts_left.take(i as int));
                assert(longer.last() == id@);
            }
            if let Some(outcome) = outcome_of(&forced, id) {
                outcomes.push((id.clone(), outcome));
                assert(outcome_texts(outcomes@) =~= outcome_texts(before).push((id@, outcome)));
                assert(outcome_texts(outcomes@) =~= self@.outcomes + sorted_out(
                    texts_left.take(i + 1),
                    handed_in,
                ));
            }
            i += 1;
        }
        assert(texts_left.take(i as int) =~= texts_left);
        ShutdownReport { outcomes, swept }
    }
}

/// The outcome of the given ID, the first one if there are more.
pub open spec fn outcome_for(outcomes: Seq<(Seq<char>, StopOutcome)>, id: Seq<char>) -> Option<
    StopOutcome,
>
    decreases outcomes.len(),
{
    if outcomes.len() == 0 {
        None
    } else if outcomes[0].0 == id {
        Some(outcomes[0].1)
    } else {
        outcome_for(outcomes.drop_first(), id)
    }
}

/// The outcomes of the given IDs, in the order of the IDs; those that have none are left out.
pub open spec fn sorted_out(
    ids: Seq<Seq<char>>,
    outcomes: Seq<(Seq<char>, StopOutcome)>,
) -> Seq<(Seq<char>, StopOutcome)>
    decreases ids.len(),
{
    if ids.len() == 0 {
        Seq::empty()
    } else {
        let front = sorted_out(ids.drop_last(), outcomes);
        match outcome_for(outcomes, ids.last()) {
            Some(outcome) => front.push((ids.last(), outcome)),
            None => front,
        }
    }
}

/// The IDs that are reported, in order.
pub open spec fn reported_ids(outcomes: Seq<(Seq<char>, StopOutcome)>) -> Seq<Seq<char>> {
    outcomes.map_values(|entry: (Seq<char>, StopOutcome)| entry.0)
}

impl RunView {
    /// What is reported of the roots, given the outcomes of those that were force-stopped.
    pub open spec fn reported(self, forced: Seq<(Seq<char>, StopOutcome)>) -> Seq<
        (Seq<char>, StopOutcome),
    > {
        self.outcomes + sorted_out(self.left(), forced)
    }
}

/// The outcome of the given ID, the first one if there are more.
fn outcome_of(outcomes: &Vec<(ActorId, StopOutcome)>, id: &ActorId) -> (outcome: Option<
    StopOutcome,
>)
    ensures
        outcome == outcome_for(outcome_texts(outcomes@), id@),
{
    let ghost all = outcome_texts(outcomes@);
    let mut i: usize = 0;
    assert(all.skip(0) =~= all);
    while i < outcomes.len()
        invariant
            i <= outcomes.len(),
            all == outcome_texts(outcomes@),
            outcome_for(all, id@) == outcome_for(all.skip(i as int), id@),
        decreases outcomes.len() - i,
    {
        assert(all.skip(i as int)[0] == all[i as int]);
        assert(all.skip(i as int).drop_first() =~= all.skip(i + 1));
        if outcomes[i].0 == *id {
            return Some(outcomes[i].1);
        }
        i += 1;
    }
    None
}

/// The first outcome of an ID is one of those that are given, and there is one where the ID is
/// reported.
proof fn outcomes_are_found(outcomes: Seq<(Seq<char>, StopOutcome)>, id: Seq<char>)
    ensures
        outcome_for(outcomes, id) is Some <==> reports(outcomes, id),
        outcome_for(outcomes, id) is Some ==> outcomes.contains(
            (id, outcome_for(outcomes, id)->0),
        ),
    decreases outcomes.len(),
{
    if outcomes.len() > 0 && outcomes[0].0 != id {
        let rest = outcomes.drop_first();
        outcomes_are_found(rest, id);
        if reports(outcomes, id) {
            let i = choose|i: int| 0 <= i < outcomes.len() && (#[trigger] outcomes[i]).0 == id;
            assert(rest[i - 1].0 == id);
        }
        if outcome_for(rest, id) is Some {
            let i = rest.index_of((id, outcome_for(rest, id)->0));
            assert(outcomes[i + 1] == (id, outcome_for(rest, id)->0));
        }
    } else if outcomes.len() > 0 {
        assert(outcomes[0] == (id, outcomes[0].1));
    }
}

/// IDs that all have an outcome are all reported, each at its place.
proof fn all_are_sorted_out(ids: Seq<Seq<char>>, outcomes: Seq<(Seq<char>, StopOutcome)>)
    requires
        forall|i: int| 0 <= i < ids.len() ==> reports(outcomes, #[trigger] ids[i]),
    ensures
        sorted_out(ids, outcomes).len() == ids.len(),
        forall|i: int|
            0 <= i < ids.len() ==> #[trigger] sorted_out(ids, outcomes)[i].0 == ids[i]
                && outcomes.contains(sorted_out(ids, outcomes)[i]),
    decreases ids.len(),
{
    if ids.len() > 0 {
        let front = ids.drop_last();
        assert forall|i: int| 0 <= i < front.len() implies reports(
            outcomes,
            #[trigger] front[i],
        ) by {
            assert(front[i] == ids[i]);
        }
        all_are_sorted_out(front, outcomes);
        assert(reports(outcomes, ids[ids.len() - 1]));
        outcomes_are_found(outcomes, ids.last());
    }
}

/// The report of a shutdown holds every root, each once and in the order in which the roots were
/// stopped, provided that every root that was left over was force-stopped with some outcome: the
/// roots that are through come with the outcomes that were observed, the others with one that was
/// handed in for them, in whatever order those were handed in.
pub proof fn every_root_is_reported(run: RunView, forced: Seq<(Seq<char>, StopOutcome)>)
    requires
        run.in_step(),
        forall|i: int| 0 <= i < run.left().len() ==> reports(forced, #[trigger] run.left()[i]),
    ensures
        reported_ids(run.reported(forced)) == run.order,
        forall|i: int|
            0 <= i < run.outcomes.len() ==> #[trigger] run.reported(forced)[i] == run.outcomes[i],
        forall|i: int|
            run.outcomes.len() <= i < run.order.len() ==> forced.contains(
                #[trigger] run.reported(forced)[i],
            ),
{
    let rest = sorted_out(run.left(), forced);
    all_are_sorted_out(run.left(), forced);
    let ids = reported_ids(run.reported(forced));
    assert(ids.len() == run.order.len());
    assert forall|i: int| 0 <= i < ids.len() implies ids[i] == run.order[i] by {
        if i >= run.outcomes.len() {
            let j = i - run.outcomes.len();
            assert(rest[j].0 == run.left()[j]);
        }
    }
    assert(ids =~= run.order);
    assert forall|i: int| run.outcomes.len() <= i < run.order.len() implies forced.contains(
        #[trigger] run.reported(forced)[i],
    ) by {
        let j = i - run.outcomes.len();
        assert(rest[j].0 == run.left()[j]);
    }
}

/// Whether one of the outcomes is that of the given ID.
pub open spec fn reports(outcomes: Seq<(Seq<char>, StopOutcome)>, id: Seq<char>) -> bool {
    exists|i: int| 0 <= i < outcomes.len() && (#[trigger] outcomes[i]).0 == id
}

/// An ID is reported by its text.
proof fn same_reports(outcomes: Seq<(ActorId, StopOutcome)>, id: Seq<char>)
    ensures
        reports(outcome_texts(outcomes), id) == exists|i: int|
            0 <= i < outcomes.len() && (#[trigger] outcomes[i]).0@ == id,
{
    if exists|i: int| 0 <= i < outcomes.len() && (#[trigger] outcomes[i]).0@ == id {
        let i = choose|i: int| 0 <= i < outcomes.len() && (#[trigger] outcomes[i]).0@ == id;
        assert(outcome_texts(outcomes)[i].0 == id);
    }
    if reports(outcome_texts(outcomes), id) {
        let i = choose|i: int|
            0 <= i < outcome_texts(outcomes).len() && (#[trigger] outcome_texts(outcomes)[i]).0
                == id;
        assert(outcomes[i].0@ == id);
    }
}

/// Whether one of the outcomes is that of the given ID.
pub fn was_reported(outcomes: &Vec<(ActorId, StopOutcome)>, id: &ActorId) -> (found: bool)
    ensures
        found == reports(outcome_texts(outcomes@), id@),
{
    let mut i: usize = 0;
    while i < outcomes.len()
        invariant
            i <= outcomes.len(),
            forall|j: int| 0 <= j < i ==> (#[trigger] outcomes[j]).0@ != id@,
        decreases outcomes.len() - i,
    {
        if outcomes[i].0 == *id {
            assert(outcome_texts(outcomes@)[i as int].0 == id@);
            return true;
        }
        i += 1;
    }
    proof {
        same_reports(outcomes@, id@);
    }
    false
}

/// The outcome of an actor that is force-stopped, by whether it is registered, and by the rung on which
/// it stopped, if it did.
pub open spec fn forced_outcome(registered: bool, reached: Option<LadderRung>) -> StopOutcome {
    if !registered {
        StopOutcome::Graceful
    } else {
        match reached {
            Some(LadderRung::Aborted) => StopOutcome::Aborted,
            Some(_) => StopOutcome::Killed,
            None => StopOutcome::Unresponsive,
        }
    }
}

/// The outcome of an actor that is force-stopped: killed first, aborted then. `reached` is the rung
/// on which it stopped, if it did. An actor that is gone from the registry counts as stopped.
pub fn force_outcome(registered: bool, reached: Option<LadderRung>) -> (outcome: StopOutcome)
    ensures
        outcome == forced_outcome(registered, reached),
{
    if !registered {
        return StopOutcome::Graceful;
    }
    match reached {
        Some(LadderRung::Aborted) => StopOutcome::Aborted,
        Some(_) => StopOutcome::Killed,
        None => StopOutcome::Unresponsive,
    }
}

/// Whatever happens during a shutdown, the roots that are through are the first ones of the order,
/// each once, and those that are left are the rest: no root is reported twice, and none is missing.
pub proof fn every_root_is_accounted_for(run: RunView, terminal: bool, now: Instant)
    requires
        run.in_step(),
    ensures
        run.observed(terminal, now).in_step(),
        run.observed(terminal, now).order == run.order,
        run.observed(terminal, now).outcomes.map_values(
            |entry: (Seq<char>, StopOutcome)| entry.0,
        ) + run.observed(terminal, now).left() == run.order,
{
    let after = run.observed(terminal, now);
    let ids = after.outcomes.map_values(|entry: (Seq<char>, StopOutcome)| entry.0);
    assert(after.in_step());
    assert(ids + after.left() =~= run.order);
}

/// A root climbs its ladder in order and at most three times: every time that it was waited for in
/// vain it is told something stronger, given up, or left to be force-stopped.
pub proof fn every_wait_makes_progress(run: RunView, now: Instant)
    requires
        run.busy(),
    ensures
        ({
            let after = run.observed(false, now);
            ||| after.cut
            ||| after.outcomes.len() == run.outcomes.len() + 1 && run.rung == RootRung::Aborted
            ||| run.rung == RootRung::Asked && after.rung == RootRung::Killed
            ||| run.rung == RootRung::Killed && after.rung == RootRung::Aborted
        }),
{
}

/// A root that stopped is reported by what it took: gracefully where it was only asked, as killed where
/// Kill was raised on it, as aborted where its task was aborted. The next root is then asked.
pub proof fn roots_are_reported_by_what_it_took(run: RunView, now: Instant)
    requires
        run.busy(),
    ensures
        ({
            let after = run.observed(true, now);
            let n = run.outcomes.len() as int;
            &&& after.outcomes.len() == n + 1
            &&& after.outcomes.drop_last() == run.outcomes
            &&& after.outcomes[n].0 == run.order[n]
            &&& run.rung == RootRung::Asked ==> after.outcomes[n].1 == StopOutcome::Graceful
            &&& run.rung == RootRung::Killed ==> after.outcomes[n].1 == StopOutcome::Killed
            &&& run.rung == RootRung::Aborted ==> after.outcomes[n].1 == StopOutcome::Aborted
            &&& after.rung == RootRung::Asked
            &&& !after.cut
            &&& after.deadline == run.deadline
            &&& after.per_actor_timeout == run.per_actor_timeout
        }),
{
    let after = run.observed(true, now);
    assert(after.outcomes.drop_last() =~= run.outcomes);
}

/// A root that did not stop in time is told something stronger before the deadline of the whole, and
/// left to be force-stopped behind it; one whose task was aborted in vain is given up as unresponsive.
/// Nothing is reported of a root before it is through.
pub proof fn roots_that_do_not_stop_are_told_again(run: RunView, now: Instant)
    requires
        run.busy(),
    ensures
        ({
            let after = run.observed(false, now);
            let n = run.outcomes.len() as int;
            let late = now.nanos >= run.deadline.nanos;
            &&& run.rung == RootRung::Aborted ==> {
                &&& after.outcomes.len() == n + 1
                &&& after.outcomes[n] == (run.order[n], StopOutcome::Unresponsive)
                &&& after.rung == RootRung::Asked
                &&& !after.cut
            }
            &&& run.rung != RootRung::Aborted ==> {
                &&& after.outcomes == run.outcomes
                &&& after.cut == late
                &&& !late && run.rung == RootRung::Asked ==> after.rung == RootRung::Killed
                &&& !late && run.rung == RootRung::Killed ==> after.rung == RootRung::Aborted
            }
            &&& after.order == run.order
        }),
{
}

/// A root is asked with a request that it may veto, then killed, then aborted; it has the time of the
/// policy where it is asked, and the grace of Kill after that. One that is force-stopped is reported
/// as one that was stopped alone on the same rung is.
pub proof fn roots_are_told_by_their_rung(per_actor_timeout: Duration)
    ensures
        RootRung::Asked.told() == RootSignal::Raise(StopReason::ParentRequest),
        RootRung::Killed.told() == RootSignal::Raise(StopReason::Kill),
        RootRung::Aborted.told() is Abort,
        RootRung::Asked.own_bound(per_actor_timeout) == per_actor_timeout,
        RootRung::Killed.own_bound(per_actor_timeout).nanos == KILL_GRACE,
        RootRung::Aborted.own_bound(per_actor_timeout).nanos == KILL_GRACE,
        forced_outcome(true, Some(LadderRung::Killed)) == RootRung::Killed.success(),
        forced_outcome(true, Some(LadderRung::Aborted)) == RootRung::Aborted.success(),
        forced_outcome(true, None) == StopOutcome::Unresponsive,
        forall|reached: Option<LadderRung>| #[trigger]
            forced_outcome(false, reached) == StopOutcome::Graceful,
{
}

} // verus!
