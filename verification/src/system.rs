//! Actor systems: named registration, coordinated shutdown, and the reaper.

use std::collections::HashSet;
use vstd::prelude::*;
use crate::actor::ids::{push_contains, texts, texts_push};
use crate::actor::runtime::{deadline_after, saturating_deadline};
use crate::error::{SendError, SpawnError};
use crate::system::shutdown::{
    every_root_is_reported, outcome_texts, reported_ids, reports, was_reported, RootRung, RunView,
    ShutdownPolicy, ShutdownReport, ShutdownRun,
};
use crate::system::table::{lists, lists_names, no_names, NameTable};
use crate::time::Instant;
use crate::types::{after_number, name_text, ActorId, StopOutcome};

pub mod reaper;
pub mod shutdown;
pub mod table;

verus! {

broadcast use vstd::std_specs::hash::group_hash_axioms;

/// Configuration for creating a new [`ActorSystem`].
#[derive(Debug, Clone, Copy, PartialEq, Eq, Structural)]
pub struct SystemConfig {
    /// Shutdown policy for this system.
    pub shutdown_policy: ShutdownPolicy,
}

impl Default for SystemConfig {
    fn default() -> (config: Self)
        ensures
            config.shutdown_policy.timeout.nanos == 30_000_000_000,
            config.shutdown_policy.per_actor_timeout.nanos == 5_000_000_000,
    {
        SystemConfig { shutdown_policy: ShutdownPolicy::default() }
    }
}

/// Lifecycle phase of a system's registry. Only an active system accepts registrations; a defunct
/// one can be made active again.
#[derive(Debug, Clone, Copy, PartialEq, Eq, Structural)]
pub enum SystemPhase {
    /// Registrations are accepted.
    Active,
    /// A shutdown is in flight.
    ShuttingDown,
    /// A shutdown is complete.
    Defunct,
}

/// The phase that a number stands for.
pub open spec fn phase_of(value: u8) -> SystemPhase {
    match value {
        0 => SystemPhase::Active,
        1 => SystemPhase::ShuttingDown,
        _ => SystemPhase::Defunct,
    }
}

impl SystemPhase {
    /// The number that stands for the phase.
    pub fn as_u8(self) -> (value: u8)
        ensures
            value <= 2,
            phase_of(value) == self,
    {
        match self {
            SystemPhase::Active => 0,
            SystemPhase::ShuttingDown => 1,
            SystemPhase::Defunct => 2,
        }
    }

    /// The phase that a number stands for.
    pub fn from_u8(value: u8) -> (phase: Self)
        ensures
            phase == phase_of(value),
    {
        match value {
            0 => SystemPhase::Active,
            1 => SystemPhase::ShuttingDown,
            _ => SystemPhase::Defunct,
        }
    }
}

/// A system is active, then it is being shut down, then it is defunct; each phase has its own number.
pub proof fn phases_have_their_own_numbers()
    ensures
        phase_of(0) == SystemPhase::Active,
        phase_of(1) == SystemPhase::ShuttingDown,
        phase_of(2) == SystemPhase::Defunct,
{
}

// ---------------------------------------------------------------------------
// One system
// ---------------------------------------------------------------------------

/// A named actor registry with coordinated shutdown. Every registration has a number of its own,
/// under which the handle of the registered actor is kept.
pub struct ActorSystem {
    name: String,
    by_name: NameTable,
    by_id: NameTable,
    roots: HashSet<u64>,
    shutdown_policy: ShutdownPolicy,
    phase: u8,
    registration_seq: u64,
    incarnation_seq: u64,
}

/// What an [`ActorSystem`] holds.
pub struct SystemView {
    /// The system's name.
    pub name: Seq<char>,
    /// The registrations by name.
    pub by_name: Map<Seq<char>, u64>,
    /// The registrations by ID.
    pub by_id: Map<Seq<char>, u64>,
    /// The registrations of actors that are no children of others.
    pub roots: Set<u64>,
    /// How the system is shut down.
    pub shutdown_policy: ShutdownPolicy,
    /// The system's phase.
    pub phase: SystemPhase,
    /// The number that the next registration gets.
    pub registration_seq: u64,
    /// The token that the next incarnation of a child gets.
    pub incarnation_seq: u64,
}

impl SystemView {
    /// A system without actors.
    pub open spec fn empty(name: Seq<char>, shutdown_policy: ShutdownPolicy) -> SystemView {
        SystemView {
            name,
            by_name: no_names(),
            by_id: no_names(),
            roots: Set::empty(),
            shutdown_policy,
            phase: SystemPhase::Active,
            registration_seq: 0,
            incarnation_seq: 0,
        }
    }

    /// Whether an actor with the given name can be registered.
    pub open spec fn admits(self, name: Option<Seq<char>>) -> bool {
        self.phase == SystemPhase::Active && (name is None || !self.by_name.dom().contains(name->0))
    }

    /// The system after an actor was registered.
    pub open spec fn registered_with(
        self,
        id: Seq<char>,
        name: Option<Seq<char>>,
        is_root: bool,
    ) -> SystemView {
        let seq = self.registration_seq;
        let kept = if self.by_id.dom().contains(id) {
            self.roots.remove(self.by_id[id])
        } else {
            self.roots
        };
        SystemView {
            by_name: match name {
                Some(text) => self.by_name.insert(text, seq),
                None => self.by_name,
            },
            by_id: self.by_id.insert(id, seq),
            roots: if is_root {
                kept.insert(seq)
            } else {
                kept.remove(seq)
            },
            registration_seq: after_number(seq),
            ..self
        }
    }

    /// Whether the ID is that of the registration with the given number.
    pub open spec fn id_held(self, id: Seq<char>, seq: u64) -> bool {
        self.by_id.dom().contains(id) && self.by_id[id] == seq
    }

    /// Whether the name is that of the registration with the given number.
    pub open spec fn name_held(self, name: Seq<char>, seq: u64) -> bool {
        self.by_name.dom().contains(name) && self.by_name[name] == seq
    }

    /// The system after the registration with the given number gave its ID back.
    pub open spec fn without_id(self, id: Seq<char>, seq: u64) -> SystemView {
        if self.id_held(id, seq) {
            SystemView { by_id: self.by_id.remove(id), roots: self.roots.remove(seq), ..self }
        } else {
            self
        }
    }

    /// The system after the registration with the given number gave its name back.
    pub open spec fn without_name(self, name: Seq<char>, seq: u64) -> SystemView {
        if self.name_held(name, seq) {
            SystemView { by_name: self.by_name.remove(name), ..self }
        } else {
            self
        }
    }

    /// The system after the registration with the given number was given up.
    pub open spec fn without(self, id: Seq<char>, name: Option<Seq<char>>, seq: u64) -> SystemView {
        match name {
            Some(text) => self.without_id(id, seq).without_name(text, seq),
            None => self.without_id(id, seq),
        }
    }

    /// Whether the ID is that of a root.
    pub open spec fn is_root(self, id: Seq<char>) -> bool {
        self.by_id.dom().contains(id) && self.roots.contains(self.by_id[id])
    }

    /// Whether every registration has a number of its own, below the one that the next gets.
    pub open spec fn numbered(self) -> bool {
        &&& forall|id: Seq<char>| #[trigger]
            self.by_id.dom().contains(id) ==> self.by_id[id] < self.registration_seq
        &&& forall|a: Seq<char>, b: Seq<char>|
            #![trigger self.by_id.dom().contains(a), self.by_id.dom().contains(b)]
            self.by_id.dom().contains(a) && self.by_id.dom().contains(b) && a != b
                ==> self.by_id[a] != self.by_id[b]
    }

    /// Whether a list holds exactly the roots, each once, the one that was registered last first.
    pub open spec fn stop_order(self, order: Seq<Seq<char>>) -> bool {
        &&& forall|id: Seq<char>| #[trigger] order.contains(id) <==> self.is_root(id)
        &&& order.no_duplicates()
        &&& forall|i: int, j: int|
            0 <= i <= j < order.len() ==> self.by_id[#[trigger] order[i]]
                >= self.by_id[#[trigger] order[j]]
    }
}

impl View for ActorSystem {
    type V = SystemView;

    closed spec fn view(&self) -> SystemView {
        SystemView {
            name: self.name@,
            by_name: self.by_name@,
            by_id: self.by_id@,
            roots: self.roots@,
            shutdown_policy: self.shutdown_policy,
            phase: phase_of(self.phase),
            registration_seq: self.registration_seq,
            incarnation_seq: self.incarnation_seq,
        }
    }
}

/// What an optional name holds.
pub open spec fn text_of(name: Option<&str>) -> Option<Seq<char>> {
    match name {
        Some(text) => Some(text@),
        None => None,
    }
}

impl ActorSystem {
    /// A system without actors.
    pub fn empty(name: String, shutdown_policy: ShutdownPolicy) -> (system: Self)
        ensures
            system@ == SystemView::empty(name@, shutdown_policy),
    {
        let roots: HashSet<u64> = HashSet::new();
        assert(roots@ =~= Set::<u64>::empty());
        ActorSystem {
            name,
            by_name: NameTable::new(),
            by_id: NameTable::new(),
            roots,
            shutdown_policy,
            phase: SystemPhase::Active.as_u8(),
            registration_seq: 0,
            incarnation_seq: 0,
        }
    }

    /// Returns this system's name.
    pub fn name(&self) -> (name: &str)
        ensures
            name@ == self@.name,
    {
        self.name.as_str()
    }

    /// Looks up a named actor: the number of its registration.
    pub fn get(&self, name: &str) -> (found: Option<u64>)
        ensures
            found == if self@.by_name.dom().contains(name@) {
                Some(self@.by_name[name@])
            } else {
                None
            },
    {
        self.by_name.get(name)
    }

    /// Looks up an actor by ID: the number of its registration.
    pub fn get_by_id(&self, id: &ActorId) -> (found: Option<u64>)
        ensures
            found == if self@.by_id.dom().contains(id@) {
                Some(self@.by_id[id@])
            } else {
                None
            },
    {
        self.by_id.get(id.as_str())
    }

    /// Looks up a named actor that is to be stopped or killed: the number of its registration. What
    /// the caller gets then, [`crate::actor::handle::stop_outcome`] says.
    pub fn stop(&self, name: &str) -> (found: Result<u64, SendError>)
        ensures
            found == if self@.by_name.dom().contains(name@) {
                Ok::<u64, SendError>(self@.by_name[name@])
            } else {
                Err::<u64, SendError>(SendError::NotFound)
            },
    {
        match self.by_name.get(name) {
            Some(seq) => Ok(seq),
            None => Err(SendError::NotFound),
        }
    }

    /// Lists all registered actor names in this system, in any order.
    pub fn registered(&self) -> (names: Vec<String>)
        ensures
            lists_names(names@, self@.by_name),
    {
        self.by_name.names()
    }

    /// Snapshot of every actor ID registered in this system, in any order.
    pub fn actor_ids(&self) -> (ids: Vec<ActorId>)
        ensures
            texts(ids@).no_duplicates(),
            forall|id: Seq<char>| #[trigger]
                texts(ids@).contains(id) <==> self@.by_id.dom().contains(id),
    {
        let names: Vec<String> = self.by_id.names();
        let mut ids: Vec<ActorId> = Vec::new();
        let mut i: usize = 0;
        while i < names.len()
            invariant
                i <= names.len(),
                lists_names(names@, self@.by_id),
                ids.len() == i,
                forall|j: int| 0 <= j < i ==> (#[trigger] ids[j])@ == names[j]@,
            decreases names.len() - i,
        {
            ids.push(ActorId::from(names[i].clone()));
            i += 1;
        }
        proof {
            let all = texts(ids@);
            assert forall|a: int, b: int| 0 <= a < all.len() && 0 <= b < all.len() && a
                != b implies all[a] != all[b] by {
                if a < b {
                    assert(names[a]@ != names[b]@);
                } else {
                    assert(names[b]@ != names[a]@);
                }
            }
            assert forall|id: Seq<char>| #[trigger] all.contains(id) <==> self@.by_id.dom().contains(
                id,
            ) by {
                if all.contains(id) {
                    let a = all.index_of(id);
                    assert(names[a]@ == id);
                }
                if self@.by_id.dom().contains(id) {
                    let a = choose|a: int| 0 <= a < names.len() && (#[trigger] names[a])@ == id;
                    assert(all[a] == id);
                }
            }
        }
        ids
    }

    /// Registers a spawned actor and returns the number of its registration. A system that is not
    /// active refuses it; so does one in which the name is taken, though the number is used up
    /// then. An ID is not refused: what is registered under it is replaced.
    pub fn register_actor(&mut self, id: &ActorId, name: Option<&str>, is_root: bool) -> (answer: Result<
        u64,
        SpawnError,
    >)
        ensures
            match answer {
                Ok(seq) => {
                    &&& old(self)@.admits(text_of(name))
                    &&& seq == old(self)@.registration_seq
                    &&& final(self)@ == old(self)@.registered_with(id@, text_of(name), is_root)
                },
                Err(SpawnError::SystemShuttingDown(system)) => {
                    &&& old(self)@.phase != SystemPhase::Active
                    &&& system@ == old(self)@.name
                    &&& final(self)@ == old(self)@
                },
                Err(SpawnError::NameTaken { name: taken, system }) => {
                    &&& old(self)@.phase == SystemPhase::Active
                    &&& !old(self)@.admits(text_of(name))
                    &&& Some(taken@) == text_of(name)
                    &&& system@ == old(self)@.name
                    &&& final(self)@ == (SystemView {
                        registration_seq: after_number(old(self)@.registration_seq),
                        ..old(self)@
                    })
                },
                Err(_) => false,
            },
    {
        if SystemPhase::from_u8(self.phase) != SystemPhase::Active {
            return Err(SpawnError::SystemShuttingDown(self.name.clone()));
        }
        let seq: u64 = self.registration_seq;
        self.registration_seq = seq.wrapping_add(1);
        if let Some(text) = name {
            if !self.by_name.claim(text.to_owned(), seq) {
                return Err(
                    SpawnError::NameTaken { name: text.to_owned(), system: self.name.clone() },
                );
            }
        }
        if let Some(replaced) = self.by_id.insert(id.to_string(), seq) {
            self.roots.remove(&replaced);
        }
        if is_root {
            self.roots.insert(seq);
        } else {
            self.roots.remove(&seq);
        }
        Ok(seq)
    }

    /// Removes the entry of an ID, but only if it is still that of the given registration: a stale
    /// teardown never removes a newer registration.
    pub fn unregister_by_id(&mut self, id: &ActorId, registration_seq: u64)
        ensures
            final(self)@ == old(self)@.without_id(id@, registration_seq),
    {
        if self.by_id.release(id.as_str(), registration_seq) {
            self.roots.remove(&registration_seq);
        }
    }

    /// Removes the entry of a name, but only if it is still that of the given registration.
    pub fn unregister_by_name(&mut self, name: &str, registration_seq: u64)
        ensures
            final(self)@ == old(self)@.without_name(name@, registration_seq),
    {
        self.by_name.release(name, registration_seq);
    }

    /// Draws the token of the next incarnation of a child. Every spawn and every restart in the
    /// system draws from this one counter.
    pub fn next_incarnation(&mut self) -> (token: u64)
        ensures
            token == old(self)@.incarnation_seq,
            final(self)@ == (SystemView {
                incarnation_seq: after_number(old(self)@.incarnation_seq),
                ..old(self)@
            }),
    {
        let token: u64 = self.incarnation_seq;
        self.incarnation_seq = token.wrapping_add(1);
        token
    }

    /// Moves a defunct system back to active, so that it can be registered into again. Returns
    /// `false` without effect if the system is not defunct.
    pub fn reactivate(&mut self) -> (done: bool)
        ensures
            done == (old(self)@.phase == SystemPhase::Defunct),
            final(self)@ == if done {
                SystemView { phase: SystemPhase::Active, ..old(self)@ }
            } else {
                old(self)@
            },
    {
        if SystemPhase::from_u8(self.phase) == SystemPhase::Defunct {
            self.phase = SystemPhase::Active.as_u8();
            true
        } else {
            false
        }
    }

    /// The roots, the one that was registered last first.
    fn snapshot_roots(&self) -> (order: Vec<ActorId>)
        ensures
            self@.stop_order(texts(order@)),
    {
        let entries: Vec<(String, u64)> = self.by_id.entries();
        let mut order: Vec<ActorId> = Vec::new();
        let mut numbers: Vec<u64> = Vec::new();
        let mut i: usize = 0;
        while i < entries.len()
            invariant
                i <= entries.len(),
                lists(entries@, self@.by_id),
                self@.roots == self.roots@,
                order.len() == numbers.len(),
                texts(order@).no_duplicates(),
                forall|id: Seq<char>| #[trigger]
                    texts(order@).contains(id) <==> self@.is_root(id) && exists|k: int|
                        0 <= k < i && (#[trigger] entries[k]).0@ == id,
                forall|j: int|
                    0 <= j < order.len() ==> self@.by_id[#[trigger] texts(order@)[j]]
                        == numbers[j],
                forall|a: int, b: int|
                    0 <= a <= b < numbers.len() ==> (#[trigger] numbers[a]) >= (
                    #[trigger] numbers[b]),
            decreases entries.len() - i,
        {
            let seq: u64 = entries[i].1;
            let ghost id = entries[i as int].0@;
            let ghost before = texts(order@);
            if self.roots.contains(&seq) {
                let mut at: usize = 0;
                while at < numbers.len() && numbers[at] >= seq
                    invariant
                        at <= numbers.len(),
                        forall|b: int| 0 <= b < at ==> (#[trigger] numbers[b]) >= seq,
                    decreases numbers.len() - at,
                {
                    at += 1;
                }
                let made: ActorId = ActorId::from(entries[i].0.clone());
                let ghost old_order = order@;
                order.insert(at, made);
                let ghost old_numbers = numbers@;
                numbers.insert(at, seq);
                proof {
                    assert(texts(order@) =~= before.insert(at as int, id));
                    insert_fits(before, at as int, id);
                    assert(!before.contains(id)) by {
                        if before.contains(id) {
                            let k = choose|k: int|
                                0 <= k < i && (#[trigger] entries[k]).0@ == id;
                            assert(entries[k].0@ != entries[i as int].0@);
                        }
                    }
                    assert(self@.by_id.dom().contains(entries[i as int].0@));
                    assert forall|a: int, b: int| 0 <= a <= b < numbers.len() implies (
                    #[trigger] numbers[a]) >= (#[trigger] numbers[b]) by {
                        let x: int = if a < at {
                            a
                        } else {
                            a - 1
                        };
                        let y: int = if b < at {
                            b
                        } else {
                            b - 1
                        };
                        if a != at && b != at {
                            assert(old_numbers[x] >= old_numbers[y]);
                        } else if a == at && b > at {
                            assert(old_numbers[at as int] >= old_numbers[y]);
                        }
                    }
                    assert forall|j: int| 0 <= j < order.len() implies self@.by_id[
                    #[trigger] texts(order@)[j]] == numbers[j] by {
                        if j < at {
                            assert(texts(order@)[j] == before[j]);
                        } else if j > at {
                            assert(texts(order@)[j] == before[j - 1]);
                        }
                    }
                }
            }
            proof {
                assert forall|other: Seq<char>| #[trigger]
                    texts(order@).contains(other) <==> self@.is_root(other) && exists|k: int|
                        0 <= k < i + 1 && (#[trigger] entries[k]).0@ == other by {
                    assert(self@.by_id.dom().contains(entries[i as int].0@));
                    if before.contains(other) {
                        let k = choose|k: int| 0 <= k < i && (#[trigger] entries[k]).0@ == other;
                        assert(0 <= k < i + 1 && entries[k].0@ == other);
                    }
                    if self@.is_root(other) && exists|k: int|
                        0 <= k < i + 1 && (#[trigger] entries[k]).0@ == other {
                        let k = choose|k: int|
                            0 <= k < i + 1 && (#[trigger] entries[k]).0@ == other;
                        if k < i {
                            assert(before.contains(other));
                        } else {
                            assert(other == id);
                        }
                    }
                    if other == id {
                        assert(entries[i as int].0@ == other);
                    }
                }
            }
            i += 1;
        }
        proof {
            assert forall|id: Seq<char>| #[trigger] texts(order@).contains(id) <==> self@.is_root(
                id,
            ) by {
                if self@.is_root(id) {
                    let k = choose|k: int|
                        0 <= k < entries.len() && (#[trigger] entries[k]).0@ == id;
                    assert(0 <= k < i && entries[k].0@ == id);
                }
            }
        }
        order
    }

    /// Begins to shut the system down by the given policy: from now on nothing can be registered,
    /// and the roots are stopped one after the other, the one that was registered last first.
    pub fn shutdown_with(&mut self, policy: ShutdownPolicy, now: Instant) -> (run: ShutdownRun)
        ensures
            final(self)@ == (SystemView { phase: SystemPhase::ShuttingDown, ..old(self)@ }),
            old(self)@.stop_order(run@.order),
            run@.outcomes.len() == 0,
            run@.rung == RootRung::Asked,
            run@.deadline == deadline_after(now, policy.timeout),
            run@.per_actor_timeout == policy.per_actor_timeout,
            !run@.cut,
    {
        self.phase = SystemPhase::ShuttingDown.as_u8();
        let deadline: Instant = saturating_deadline(now, policy.timeout);
        let order: Vec<ActorId> = self.snapshot_roots();
        ShutdownRun::new(order, deadline, policy.per_actor_timeout)
    }

    /// Begins to shut the system down by its own policy.
    pub fn shutdown(&mut self, now: Instant) -> (run: ShutdownRun)
        ensures
            final(self)@ == (SystemView { phase: SystemPhase::ShuttingDown, ..old(self)@ }),
            old(self)@.stop_order(run@.order),
            run@.outcomes.len() == 0,
            run@.rung == RootRung::Asked,
            run@.deadline == deadline_after(now, old(self)@.shutdown_policy.timeout),
            run@.per_actor_timeout == old(self)@.shutdown_policy.per_actor_timeout,
            !run@.cut,
    {
        let policy: ShutdownPolicy = self.shutdown_policy;
        self.shutdown_with(policy, now)
    }

    /// The IDs that are still registered though nothing was reported of them, neither by the
    /// sequential part of a shutdown nor among those that were force-stopped, in any order.
    pub fn leftover(&self, run: &ShutdownRun, forced: &Vec<(ActorId, StopOutcome)>) -> (ids: Vec<
        ActorId,
    >)
        ensures
            texts(ids@).no_duplicates(),
            forall|id: Seq<char>| #[trigger]
                texts(ids@).contains(id) <==> self@.by_id.dom().contains(id) && !reports(
                    run@.outcomes,
                    id,
                ) && !reports(outcome_texts(forced@), id),
    {
        let ghost told = |id: Seq<char>|
            reports(run@.outcomes, id) || reports(outcome_texts(forced@), id);
        let all: Vec<ActorId> = self.actor_ids();
        let mut ids: Vec<ActorId> = Vec::new();
        let mut i: usize = 0;
        while i < all.len()
            invariant
                i <= all.len(),
                texts(all@).no_duplicates(),
                texts(ids@).no_duplicates(),
                forall|id: Seq<char>| #[trigger]
                    texts(ids@).contains(id) <==> texts(all@.take(i as int)).contains(id) && !told(
                        id,
                    ),
                told == |id: Seq<char>|
                    reports(run@.outcomes, id) || reports(outcome_texts(forced@), id),
            decreases all.len() - i,
        {
            let id: &ActorId = &all[i];
            let ghost before = ids@;
            let ghost seen = all@.take(i as int);
            proof {
                assert(all@.take(i + 1) =~= seen.push(*id));
                texts_push(seen, *id);
                texts_push(before, *id);
                assert(!texts(seen).contains(id@)) by {
                    if texts(seen).contains(id@) {
                        let k = texts(seen).index_of(id@);
                        assert(texts(all@)[k] == texts(all@)[i as int]);
                    }
                }
            }
            if !run.has_reported(id) && !was_reported(forced, id) {
                ids.push(id.clone());
            }
            proof {
                assert forall|other: Seq<char>| #[trigger]
                    texts(ids@).contains(other) <==> texts(all@.take(i + 1)).contains(other)
                        && !told(other) by {
                    push_contains(texts(seen), id@, other);
                    push_contains(texts(before), id@, other);
                }
                assert(texts(ids@).no_duplicates()) by {
                    if !told(id@) {
                        let longer = texts(before).push(id@);
                        assert(!texts(before).contains(id@));
                        assert forall|a: int, b: int| 0 <= a < longer.len() && 0 <= b < longer.len()
                            && a != b implies longer[a] != longer[b] by {
                            if a < before.len() && b < before.len() {
                                assert(texts(before)[a] != texts(before)[b]);
                            } else if a < before.len() {
                                assert(texts(before).contains(texts(before)[a]));
                            } else {
                                assert(texts(before).contains(texts(before)[b]));
                            }
                        }
                    }
                }
            }
            i += 1;
        }
        assert(all@.take(i as int) =~= all@);
        ids
    }

    /// Completes a shutdown: the system is defunct, and what became of its actors is reported. The
    /// outcomes of the actors that were force-stopped may come in any order.
    pub fn complete_shutdown(
        &mut self,
        run: ShutdownRun,
        forced: Vec<(ActorId, StopOutcome)>,
        swept: Vec<(ActorId, StopOutcome)>,
    ) -> (report: ShutdownReport)
        ensures
            final(self)@ == (SystemView { phase: SystemPhase::Defunct, ..old(self)@ }),
            run@.in_step(),
            outcome_texts(report.outcomes@) == run@.reported(outcome_texts(forced@)),
            (forall|i: int|
                0 <= i < run@.left().len() ==> reports(
                    outcome_texts(forced@),
                    #[trigger] run@.left()[i],
                )) ==> reported_ids(outcome_texts(report.outcomes@)) == run@.order,
            report.swept == swept,
    {
        self.phase = SystemPhase::Defunct.as_u8();
        let ghost run_view = run@;
        let ghost handed_in = outcome_texts(forced@);
        let report: ShutdownReport = run.into_report(forced, swept);
        proof {
            if forall|i: int|
                0 <= i < run_view.left().len() ==> reports(
                    handed_in,
                    #[trigger] run_view.left()[i],
                ) {
                every_root_is_reported(run_view, handed_in);
            }
        }
        report
    }
}

/// A list that an item was inserted into holds what it held before, and the item; it holds nothing
/// twice if the item is new to a list that held nothing twice.
proof fn insert_fits<T>(list: Seq<T>, at: int, item: T)
    requires
        0 <= at <= list.len(),
    ensures
        forall|other: T| #[trigger]
            list.insert(at, item).contains(other) <==> list.contains(other) || other == item,
        list.no_duplicates() && !list.contains(item) ==> list.insert(at, item).no_duplicates(),
{
    let longer = list.insert(at, item);
    assert(longer[at] == item);
    assert forall|other: T| #[trigger] longer.contains(other) <==> list.contains(other) || other
        == item by {
        if list.contains(other) {
            let i = list.index_of(other);
            if i < at {
                assert(longer[i] == other);
            } else {
                assert(longer[i + 1] == other);
            }
        }
        if longer.contains(other) && other != item {
            let i = longer.index_of(other);
            if i < at {
                assert(list[i] == other);
            } else {
                assert(list[i - 1] == other);
            }
        }
    }
    if list.no_duplicates() && !list.contains(item) {
        assert forall|a: int, b: int| 0 <= a < longer.len() && 0 <= b < longer.len() && a
            != b implies longer[a] != longer[b] by {
            let x: int = if a < at {
                a
            } else {
                a - 1
            };
            let y: int = if b < at {
                b
            } else {
                b - 1
            };
            if a != at && b != at {
                assert(list[x] != list[y]);
            } else if a == at {
                assert(list.contains(list[y]));
            } else {
                assert(list.contains(list[x]));
            }
        }
    }
}

// ---------------------------------------------------------------------------
// Registrations
// ---------------------------------------------------------------------------

/// What an actor gives up when its task ends: its registration, if that is still its own.
#[derive(Debug)]
pub struct RegistryGuard {
    /// The actor's ID.
    pub id: ActorId,
    /// The actor's name, if any.
    pub name: Option<String>,
    /// The number of the registration.
    pub registration_seq: u64,
}

impl RegistryGuard {
    /// The guard of the given registration.
    pub fn new(id: ActorId, name: Option<String>, registration_seq: u64) -> (guard: Self)
        ensures
            guard == (RegistryGuard { id, name, registration_seq }),
    {
        RegistryGuard { id, name, registration_seq }
    }

    /// Gives the registration up.
    pub fn release(&self, system: &mut ActorSystem)
        ensures
            final(system)@ == old(system)@.without(
                self.id@,
                name_text(self.name),
                self.registration_seq,
            ),
    {
        system.unregister_by_id(&self.id, self.registration_seq);
        if let Some(name) = &self.name {
            system.unregister_by_name(name.as_str(), self.registration_seq);
        }
    }
}

/// A stale guard never removes a newer registration: where an ID was registered again, the guard of
/// the first registration changes nothing, and that of the second one takes it out.
pub proof fn stale_guards_change_nothing(
    system: SystemView,
    id: Seq<char>,
    first_root: bool,
    second_root: bool,
)
    ensures
        ({
            let first = system.registration_seq;
            let once = system.registered_with(id, None, first_root);
            let second = once.registration_seq;
            let twice = once.registered_with(id, None, second_root);
            &&& twice.without(id, None, first) == twice
            &&& !twice.without(id, None, second).by_id.dom().contains(id)
        }),
{
}

/// An actor that is registered is found under its ID and its name, with the number of its
/// registration, until its guard gives it up; then neither is taken, and the name can be registered
/// again.
pub proof fn registrations_last_until_given_up(
    system: SystemView,
    id: Seq<char>,
    name: Seq<char>,
    is_root: bool,
)
    requires
        system.admits(Some(name)),
    ensures
        ({
            let seq = system.registration_seq;
            let with = system.registered_with(id, Some(name), is_root);
            let gone = with.without(id, Some(name), seq);
            &&& with.id_held(id, seq)
            &&& with.name_held(name, seq)
            &&& with.is_root(id) == is_root
            &&& !with.admits(Some(name))
            &&& !gone.by_id.dom().contains(id)
            &&& gone.admits(Some(name))
            &&& gone.by_name == system.by_name
        }),
{
    let seq = system.registration_seq;
    let with = system.registered_with(id, Some(name), is_root);
    let gone = with.without(id, Some(name), seq);
    assert(gone.by_name =~= system.by_name);
}

/// The registration of one actor leaves every other ID and name alone, and so does the end of a
/// registration.
pub proof fn registrations_are_independent(
    system: SystemView,
    id: Seq<char>,
    name: Option<Seq<char>>,
    is_root: bool,
    seq: u64,
    other_id: Seq<char>,
    other_name: Seq<char>,
)
    requires
        other_id != id,
        Some(other_name) != name,
    ensures
        ({
            let with = system.registered_with(id, name, is_root);
            let less = system.without(id, name, seq);
            &&& with.by_id.dom().contains(other_id) == system.by_id.dom().contains(other_id)
            &&& with.by_id[other_id] == system.by_id[other_id]
            &&& with.by_name.dom().contains(other_name) == system.by_name.dom().contains(other_name)
            &&& with.by_name[other_name] == system.by_name[other_name]
            &&& less.by_id.dom().contains(other_id) == system.by_id.dom().contains(other_id)
            &&& less.by_name.dom().contains(other_name) == system.by_name.dom().contains(other_name)
        }),
{
}

/// A system that is being shut down, or was, admits nobody; once a complete shutdown was undone, it
/// does again.
pub proof fn only_active_systems_admit(system: SystemView, name: Option<Seq<char>>)
    ensures
        system.phase != SystemPhase::Active ==> !system.admits(name),
        system.phase == SystemPhase::Defunct ==> (SystemView {
            phase: SystemPhase::Active,
            ..system
        }).admits(None),
{
}

/// Registrations are numbered in the order in which they are made, no two alike, as long as the
/// counter has not run through all of its numbers; giving one up changes nothing of that.
pub proof fn registrations_are_numbered_in_order(
    system: SystemView,
    id: Seq<char>,
    name: Option<Seq<char>>,
    is_root: bool,
    seq: u64,
)
    requires
        system.numbered(),
    ensures
        system.registration_seq < u64::MAX ==> {
            let with = system.registered_with(id, name, is_root);
            &&& with.numbered()
            &&& forall|other: Seq<char>| #[trigger]
                system.by_id.dom().contains(other) && other != id ==> with.by_id[other]
                    < with.by_id[id]
        },
        system.without(id, name, seq).numbered(),
        forall|system_name: Seq<char>, policy: ShutdownPolicy| #[trigger]
            SystemView::empty(system_name, policy).numbered(),
{
    let with = system.registered_with(id, name, is_root);
    assert forall|other: Seq<char>| #[trigger] with.by_id.dom().contains(
        other,
    ) && other != id implies system.by_id.dom().contains(other) && with.by_id[other]
        == system.by_id[other] by {}
    let less = system.without(id, name, seq);
    assert forall|other: Seq<char>| #[trigger] less.by_id.dom().contains(
        other,
    ) implies system.by_id.dom().contains(other) && less.by_id[other] == system.by_id[other] by {}
}

/// The report of a shutdown holds every actor that was a root when the shutdown began, each once,
/// and nobody else, in the reverse of the order in which they were registered, provided that every
/// root that was left over at the deadline was force-stopped with some outcome.
pub proof fn shutdowns_report_every_root_once(
    system: SystemView,
    run: RunView,
    forced: Seq<(Seq<char>, StopOutcome)>,
)
    requires
        system.numbered(),
        system.stop_order(run.order),
        run.in_step(),
        forall|i: int| 0 <= i < run.left().len() ==> reports(forced, #[trigger] run.left()[i]),
    ensures
        ({
            let ids = reported_ids(run.reported(forced));
            &&& forall|id: Seq<char>| #[trigger] ids.contains(id) <==> system.is_root(id)
            &&& ids.no_duplicates()
            &&& forall|i: int, j: int|
                0 <= i < j < ids.len() ==> system.by_id[#[trigger] ids[i]]
                    > system.by_id[#[trigger] ids[j]]
        }),
{
    every_root_is_reported(run, forced);
    let ids = reported_ids(run.reported(forced));
    assert forall|i: int, j: int| 0 <= i < j < ids.len() implies system.by_id[#[trigger] ids[i]]
        > system.by_id[#[trigger] ids[j]] by {
        assert(ids.contains(ids[i]) && ids.contains(ids[j]));
        assert(system.is_root(ids[i]) && system.is_root(ids[j]));
        assert(system.by_id.dom().contains(ids[i]) && system.by_id.dom().contains(ids[j]));
    }
}

/// An actor is admitted exactly by an active system in which its name, if it has one, is not taken; the
/// ID is of no matter.
pub proof fn names_decide_on_admission(system: SystemView, name: Option<Seq<char>>)
    ensures
        system.admits(name) <==> system.phase == SystemPhase::Active && (name is Some
            ==> !system.by_name.dom().contains(name->0)),
{
}

/// A registration changes the tables and the number of the next one, and nothing else of the system;
/// the end of a registration changes the tables alone, and only where the registration still holds.
pub proof fn registrations_change_the_tables_alone(
    system: SystemView,
    id: Seq<char>,
    name: Option<Seq<char>>,
    is_root: bool,
    seq: u64,
)
    ensures
        ({
            let with = system.registered_with(id, name, is_root);
            let less = system.without(id, name, seq);
            &&& with.by_id == system.by_id.insert(id, system.registration_seq)
            &&& name is None ==> with.by_name == system.by_name
            &&& name is Some ==> with.by_name == system.by_name.insert(
                name->0,
                system.registration_seq,
            )
            &&& with.is_root(id) == is_root
            &&& system.registration_seq < u64::MAX ==> with.registration_seq
                == system.registration_seq + 1
            &&& with.name == system.name && less.name == system.name
            &&& with.phase == system.phase && less.phase == system.phase
            &&& with.shutdown_policy == system.shutdown_policy && less.shutdown_policy
                == system.shutdown_policy
            &&& with.incarnation_seq == system.incarnation_seq && less.incarnation_seq
                == system.incarnation_seq
            &&& less.registration_seq == system.registration_seq
            &&& system.by_id.dom().contains(id) && system.by_id[id] == seq ==> less.by_id
                == system.by_id.remove(id) && less.roots == system.roots.remove(seq)
            &&& !(system.by_id.dom().contains(id) && system.by_id[id] == seq) ==> less.by_id
                == system.by_id && less.roots == system.roots
            &&& name is Some && system.by_name.dom().contains(name->0) && system.by_name[name->0]
                == seq ==> less.by_name == system.by_name.remove(name->0)
            &&& (name is None || !(system.by_name.dom().contains(name->0)
                && system.by_name[name->0] == seq)) ==> less.by_name == system.by_name
        }),
{
}

/// Whether another actor is a root is of no matter to a registration and to its end.
pub proof fn registrations_leave_other_roots_alone(
    system: SystemView,
    id: Seq<char>,
    name: Option<Seq<char>>,
    is_root: bool,
    other: Seq<char>,
)
    requires
        system.numbered(),
        system.by_id.dom().contains(other),
        other != id,
    ensures
        system.registered_with(id, name, is_root).is_root(other) == system.is_root(other),
        system.by_id.dom().contains(id) ==> system.without(id, name, system.by_id[id]).is_root(other)
            == system.is_root(other),
        system.registered_with(id, name, is_root).by_id[other] == system.by_id[other],
        system.by_id.dom().contains(id) ==> system.without(id, name, system.by_id[id]).by_id[other]
            == system.by_id[other],
{
}

/// A new system has its name and its policy, is active, and holds nobody; a new system in a directory
/// is found under its name, with a number that is used for no other one, and leaves the others alone.
pub proof fn systems_begin_empty(
    name: Seq<char>,
    policy: ShutdownPolicy,
    directory: DirectoryView,
    other: Seq<char>,
)
    requires
        other != name,
    ensures
        ({
            let system = SystemView::empty(name, policy);
            let with = directory.with_system(name);
            &&& system.name == name
            &&& system.shutdown_policy == policy
            &&& system.phase == SystemPhase::Active
            &&& forall|id: Seq<char>| !system.by_id.dom().contains(id) && !system.by_name.dom().contains(
                id,
            )
            &&& forall|id: Seq<char>| !system.is_root(id)
            &&& with.systems.dom().contains(name) && with.systems[name] == directory.created
            &&& with.systems.dom().contains(other) == directory.systems.dom().contains(other)
            &&& with.systems[other] == directory.systems[other]
            &&& with.created != directory.created
        }),
{
}

/// What a counter holds after the given number of draws.
pub open spec fn drawn(start: u64, draws: nat) -> u64
    decreases draws,
{
    if draws == 0 {
        start
    } else {
        after_number(drawn(start, (draws - 1) as nat))
    }
}

/// The same, without counting one by one.
proof fn drawn_counts(start: u64, draws: nat)
    ensures
        drawn(start, draws) == (start + draws) % 0x1_0000_0000_0000_0000,
    decreases draws,
{
    if draws > 0 {
        drawn_counts(start, (draws - 1) as nat);
    }
}

/// No two incarnations of any children get the same token, nor two registrations the same number,
/// before the counter has run through all of its numbers.
pub proof fn tokens_are_unique(start: u64, first: nat, second: nat)
    requires
        first < second,
        second - first < 0x1_0000_0000_0000_0000,
    ensures
        drawn(start, first) != drawn(start, second),
{
    drawn_counts(start, first);
    drawn_counts(start, second);
    let a = (start + first) as int;
    let b = (start + second) as int;
    let n = 0x1_0000_0000_0000_0000int;
    if a % n == b % n {
        assert((b - a) % n == 0) by (nonlinear_arith)
            requires
                a % n == b % n,
                n == 0x1_0000_0000_0000_0000int,
        ;
        assert(false) by (nonlinear_arith)
            requires
                (b - a) % n == 0,
                0 < b - a < n,
        ;
    }
}

// ---------------------------------------------------------------------------
// All systems
// ---------------------------------------------------------------------------

/// The systems of a process, by name. Every system has a number of its own, under which it is kept.
pub struct SystemDirectory {
    systems: NameTable,
    created: u64,
}

/// What a [`SystemDirectory`] holds.
pub struct DirectoryView {
    /// The systems by name.
    pub systems: Map<Seq<char>, u64>,
    /// The number that the next system gets.
    pub created: u64,
}

impl View for SystemDirectory {
    type V = DirectoryView;

    closed spec fn view(&self) -> DirectoryView {
        DirectoryView { systems: self.systems@, created: self.created }
    }
}

impl DirectoryView {
    /// The directory with one more system.
    pub open spec fn with_system(self, name: Seq<char>) -> DirectoryView {
        DirectoryView {
            systems: self.systems.insert(name, self.created),
            created: after_number(self.created),
        }
    }
}

impl SystemDirectory {
    /// A directory without systems.
    pub fn new() -> (directory: Self)
        ensures
            directory@.systems == no_names(),
            directory@.created == 0,
    {
        SystemDirectory { systems: NameTable::new(), created: 0 }
    }
}

impl ActorSystem {
    /// Creates a new named system. A name that is taken is refused.
    pub fn create(systems: &mut SystemDirectory, name: String) -> (answer: Result<
        (u64, ActorSystem),
        SpawnError,
    >)
        ensures
            match answer {
                Ok((number, system)) => {
                    &&& !old(systems)@.systems.dom().contains(name@)
                    &&& number == old(systems)@.created
                    &&& system@ == SystemView::empty(name@, system@.shutdown_policy)
                    &&& system@.shutdown_policy.timeout.nanos == 30_000_000_000
                    &&& system@.shutdown_policy.per_actor_timeout.nanos == 5_000_000_000
                    &&& final(systems)@ == old(systems)@.with_system(name@)
                },
                Err(err) => {
                    &&& old(systems)@.systems.dom().contains(name@)
                    &&& err is SystemNameTaken && err->SystemNameTaken_0@ == name@
                    &&& final(systems)@ == old(systems)@
                },
            },
    {
        ActorSystem::create_with(systems, name, SystemConfig::default())
    }

    /// Creates a new named system with custom configuration. A name that is taken is refused.
    pub fn create_with(systems: &mut SystemDirectory, name: String, config: SystemConfig) -> (answer:
        Result<(u64, ActorSystem), SpawnError>)
        ensures
            match answer {
                Ok((number, system)) => {
                    &&& !old(systems)@.systems.dom().contains(name@)
                    &&& number == old(systems)@.created
                    &&& system@ == SystemView::empty(name@, config.shutdown_policy)
                    &&& final(systems)@ == old(systems)@.with_system(name@)
                },
                Err(err) => {
                    &&& old(systems)@.systems.dom().contains(name@)
                    &&& err is SystemNameTaken && err->SystemNameTaken_0@ == name@
                    &&& final(systems)@ == old(systems)@
                },
            },
    {
        let number: u64 = systems.created;
        if !systems.systems.claim(name.clone(), number) {
            return Err(SpawnError::SystemNameTaken(name));
        }
        systems.created = number.wrapping_add(1);
        Ok((number, ActorSystem::empty(name, config.shutdown_policy)))
    }

    /// The number of the default system, and the system itself where it is created by this call.
    pub fn default(systems: &mut SystemDirectory) -> (found: (u64, Option<ActorSystem>))
        ensures
            ({
                let (number, created) = found;
                if old(systems)@.systems.dom().contains("default"@) {
                    &&& number == old(systems)@.systems["default"@]
                    &&& created is None
                    &&& final(systems)@ == old(systems)@
                } else {
                    &&& number == old(systems)@.created
                    &&& created is Some
                    &&& created->0@ == SystemView::empty("default"@, created->0@.shutdown_policy)
                    &&& created->0@.shutdown_policy.timeout.nanos == 30_000_000_000
                    &&& created->0@.shutdown_policy.per_actor_timeout.nanos == 5_000_000_000
                    &&& final(systems)@ == old(systems)@.with_system("default"@)
                }
            }),
    {
        let fresh: u64 = systems.created;
        if let Some(number) = systems.systems.get("default") {
            return (number, None);
        }
        match ActorSystem::create(systems, "default".to_owned()) {
            Ok((number, system)) => (number, Some(system)),
            Err(_) => (fresh, None),
        }
    }

    /// Looks up a named system: its number.
    pub fn get_named(systems: &SystemDirectory, name: &str) -> (found: Option<u64>)
        ensures
            found == if systems@.systems.dom().contains(name@) {
                Some(systems@.systems[name@])
            } else {
                None
            },
    {
        systems.systems.get(name)
    }

    /// Lists the names of all systems, in any order.
    pub fn all(systems: &SystemDirectory) -> (names: Vec<String>)
        ensures
            lists_names(names@, systems@.systems),
    {
        systems.systems.names()
    }
}

} // verus!
