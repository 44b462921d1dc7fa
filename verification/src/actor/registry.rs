//! The children of a supervisor, in start order.

use vstd::prelude::*;
use crate::actor::ids::{push_contains, texts, texts_push};
use crate::actor::lifecycle::{moved, settled, ChildLifecycle};
use crate::time::Duration;
use crate::types::{copy_name, name_text, ActorId, ChildInfo, RestartType, Shutdown};

verus! {

/// Per-child supervision specification. It holds for every incarnation of the child.
#[derive(Debug, Clone, Copy)]
pub struct ChildSpec {
    /// How the child is restarted.
    pub restart_type: RestartType,
    /// How the child is shut down.
    pub shutdown: Shutdown,
    /// Bounds the supervisor's wait for the child's initialization during a restart; without a
    /// bound it waits indefinitely. Initial spawning never awaits initialization.
    pub start_timeout: Option<Duration>,
    /// Whether the child is itself a supervisor.
    pub is_supervisor: bool,
}

/// Runtime state of a supervised child.
#[derive(Debug)]
pub struct ChildState {
    /// The child's ID; every incarnation keeps it.
    pub id: ActorId,
    /// The registered name of the child, if any.
    pub name: Option<String>,
    /// What the child was spawned with.
    pub spec: ChildSpec,
    /// Which incarnation is current, and what is happening to it.
    pub lifecycle: ChildLifecycle,
}

/// What a [`ChildState`] holds.
pub struct ChildView {
    /// The child's ID.
    pub id: Seq<char>,
    /// The registered name of the child, if any.
    pub name: Option<Seq<char>>,
    /// What the child was spawned with.
    pub spec: ChildSpec,
    /// Which incarnation is current, and what is happening to it.
    pub lifecycle: ChildLifecycle,
}

impl View for ChildState {
    type V = ChildView;

    open spec fn view(&self) -> ChildView {
        ChildView {
            id: self.id@,
            name: name_text(self.name),
            spec: self.spec,
            lifecycle: self.lifecycle,
        }
    }
}

impl ChildState {
    /// True if a death event with this incarnation belongs to the instance that the registry
    /// tracks (current, or the in-flight restart).
    pub fn accepts_incarnation(&self, incarnation: u64) -> (accepted: bool)
        ensures
            accepted == self.lifecycle.accepts(incarnation),
    {
        self.lifecycle.accepts_incarnation(incarnation)
    }

    /// Moves the child to `to` if that is allowed; otherwise the child is left untouched and the
    /// rejected target is handed back.
    pub fn transition(&mut self, to: ChildLifecycle) -> (outcome: Result<(), ChildLifecycle>)
        ensures
            *final(self) == (ChildState { lifecycle: moved(old(self).lifecycle, to), ..*old(self) }),
            outcome == if ChildLifecycle::legal(old(self).lifecycle, to) {
                Ok::<(), ChildLifecycle>(())
            } else {
                Err::<(), ChildLifecycle>(to)
            },
    {
        if ChildLifecycle::is_legal(&self.lifecycle, &to) {
            self.lifecycle = to;
            Ok(())
        } else {
            Err(to)
        }
    }
}

/// The IDs of the given children.
pub open spec fn ids_of(children: Seq<ChildView>) -> Seq<Seq<char>> {
    children.map_values(|child: ChildView| child.id)
}

/// Whether one of the children has the given ID.
pub open spec fn listed(children: Seq<ChildView>, id: Seq<char>) -> bool {
    ids_of(children).contains(id)
}

/// The place of the child with the given ID.
pub open spec fn slot(children: Seq<ChildView>, id: Seq<char>) -> int {
    ids_of(children).index_of(id)
}

/// The child with the given ID.
pub open spec fn child(children: Seq<ChildView>, id: Seq<char>) -> ChildView {
    children[slot(children, id)]
}

/// Whether the child with the given ID is there and live.
pub open spec fn running(children: Seq<ChildView>, id: Seq<char>) -> bool {
    listed(children, id) && child(children, id).lifecycle is Running
}

/// The children after the one with the given ID was put into the given state.
pub open spec fn with_lifecycle(
    children: Seq<ChildView>,
    id: Seq<char>,
    to: ChildLifecycle,
) -> Seq<ChildView> {
    if listed(children, id) {
        children.update(
            slot(children, id),
            ChildView { lifecycle: to, ..child(children, id) },
        )
    } else {
        children
    }
}

/// The children after the one with the given ID was asked to move to the given state.
pub open spec fn asked(
    children: Seq<ChildView>,
    id: Seq<char>,
    to: ChildLifecycle,
) -> Seq<ChildView> {
    with_lifecycle(children, id, moved(child(children, id).lifecycle, to))
}

/// The children after the one with the given ID was settled to `Down`.
pub open spec fn downed(children: Seq<ChildView>, id: Seq<char>) -> Seq<ChildView> {
    with_lifecycle(children, id, settled(child(children, id).lifecycle))
}

/// The children without the one with the given ID.
pub open spec fn without(children: Seq<ChildView>, id: Seq<char>) -> Seq<ChildView> {
    if listed(children, id) {
        children.remove(slot(children, id))
    } else {
        children
    }
}

/// No two children share an ID.
pub open spec fn unique(children: Seq<ChildView>) -> bool {
    ids_of(children).no_duplicates()
}

/// The child that stands at a place is the one that is found under its ID.
pub proof fn slot_of_member(children: Seq<ChildView>, i: int)
    requires
        unique(children),
        0 <= i < children.len(),
    ensures
        listed(children, children[i].id),
        slot(children, children[i].id) == i,
        child(children, children[i].id) == children[i],
{
    let ids = ids_of(children);
    assert(ids[i] == children[i].id);
    assert(ids.contains(children[i].id));
    let j = ids.index_of(children[i].id);
    assert(ids[j] == ids[i]);
}

/// A change of state leaves every ID where it was.
pub proof fn lifecycle_keeps_ids(children: Seq<ChildView>, id: Seq<char>, to: ChildLifecycle)
    ensures
        ids_of(with_lifecycle(children, id, to)) == ids_of(children),
        with_lifecycle(children, id, to).len() == children.len(),
{
    assert(ids_of(with_lifecycle(children, id, to)) =~= ids_of(children)) by {
        if listed(children, id) {
            assert(ids_of(children)[slot(children, id)] == id);
        }
    }
}

/// A change of the state of one child is the only change: that child has the new state, and all
/// else, in it and in every other child, is as it was.
pub proof fn lifecycle_changes_one_child(
    children: Seq<ChildView>,
    id: Seq<char>,
    to: ChildLifecycle,
    other: Seq<char>,
)
    requires
        listed(children, id),
        listed(children, other),
    ensures
        ({
            let after = with_lifecycle(children, id, to);
            &&& listed(after, other)
            &&& child(after, id) == (ChildView { lifecycle: to, ..child(children, id) })
            &&& other != id ==> child(after, other) == child(children, other)
        }),
{
    lifecycle_keeps_ids(children, id, to);
    assert(ids_of(children)[slot(children, id)] == id);
    assert(ids_of(children)[slot(children, other)] == other);
}

/// A removed child is no longer found; every other child is found as it was, and the order of the
/// rest is kept.
pub proof fn removal_takes_one_child(children: Seq<ChildView>, id: Seq<char>, other: Seq<char>)
    requires
        unique(children),
    ensures
        unique(without(children, id)),
        !listed(without(children, id), id),
        other != id ==> listed(without(children, id), other) == listed(children, other),
        other != id && listed(children, other) ==> child(without(children, id), other) == child(
            children,
            other,
        ),
{
    let after = without(children, id);
    let ids = ids_of(children);
    let left = ids_of(after);
    if listed(children, id) {
        let at = slot(children, id);
        assert(ids[at] == id);
        assert(left =~= ids.remove(at));
        assert forall|i: int, j: int| 0 <= i < left.len() && 0 <= j < left.len() && i
            != j implies left[i] != left[j] by {
            let a: int = if i < at {
                i
            } else {
                i + 1
            };
            let b: int = if j < at {
                j
            } else {
                j + 1
            };
            assert(left[i] == ids[a] && left[j] == ids[b] && a != b);
        }
        if left.contains(id) {
            let i = left.index_of(id);
            let a: int = if i < at {
                i
            } else {
                i + 1
            };
            assert(ids[a] == id && a != at);
        }
        if other != id && ids.contains(other) {
            let i = ids.index_of(other);
            assert(ids[i] == other);
            let a: int = if i < at {
                i
            } else {
                i - 1
            };
            assert(left[a] == other);
            assert(after[a] == children[i]);
            slot_of_member(after, a);
        }
        if other != id && left.contains(other) {
            let i = left.index_of(other);
            let a: int = if i < at {
                i
            } else {
                i + 1
            };
            assert(ids[a] == other);
        }
    }
}

/// A newly registered child comes last, is found under its ID, and changes nothing else.
pub proof fn registration_appends(children: Seq<ChildView>, new: ChildView, other: Seq<char>)
    requires
        unique(children),
        !listed(children, new.id),
    ensures
        unique(children.push(new)),
        listed(children.push(new), new.id),
        child(children.push(new), new.id) == new,
        other != new.id ==> listed(children.push(new), other) == listed(children, other),
        listed(children, other) ==> child(children.push(new), other) == child(children, other),
{
    let after = children.push(new);
    let ids = ids_of(children);
    let longer = ids_of(after);
    assert(longer =~= ids.push(new.id));
    assert forall|i: int, j: int| 0 <= i < longer.len() && 0 <= j < longer.len() && i
        != j implies longer[i] != longer[j] by {
        if i < ids.len() && j < ids.len() {
            assert(ids[i] != ids[j]);
        } else if i < ids.len() {
            assert(ids.contains(ids[i]));
        } else {
            assert(ids.contains(ids[j]));
        }
    }
    slot_of_member(after, children.len() as int);
    push_contains(ids, new.id, other);
    if listed(children, other) {
        let i = slot(children, other);
        assert(ids[i] == other);
        assert(after[i] == children[i]);
        slot_of_member(after, i);
    }
}

/// Whether the snapshots are those of the given children, in the same order.
pub open spec fn infos_of(infos: Seq<ChildInfo>, children: Seq<ChildView>) -> bool {
    &&& infos.len() == children.len()
    &&& forall|i: int|
        0 <= i < infos.len() ==> {
            let info = #[trigger] infos[i];
            &&& info.id@ == children[i].id
            &&& name_text(info.name) == children[i].name
            &&& info.restart_type == children[i].spec.restart_type
            &&& info.shutdown == children[i].spec.shutdown
            &&& info.is_alive == (children[i].lifecycle is Running)
            &&& info.restart_pending == (children[i].lifecycle is Restarting)
        }
}

/// A child that is asked to move does so where that is allowed, and stays as it is where it is not;
/// one that is settled is down. No other child is touched.
pub proof fn moves_are_done_or_refused(
    children: Seq<ChildView>,
    id: Seq<char>,
    to: ChildLifecycle,
    other: Seq<char>,
)
    requires
        listed(children, id),
    ensures
        ({
            let from = child(children, id).lifecycle;
            let after = child(asked(children, id, to), id);
            &&& ChildLifecycle::legal(from, to) ==> after.lifecycle == to
            &&& !ChildLifecycle::legal(from, to) ==> after.lifecycle == from
            &&& after.spec == child(children, id).spec && after.name == child(children, id).name
            &&& child(downed(children, id), id).lifecycle is Down
            &&& listed(children, other) && other != id ==> child(asked(children, id, to), other)
                == child(children, other)
            &&& listed(children, other) && other != id ==> child(downed(children, id), other)
                == child(children, other)
        }),
{
    let from = child(children, id).lifecycle;
    lifecycle_changes_one_child(children, id, moved(from, to), id);
    lifecycle_changes_one_child(children, id, settled(from), id);
    if listed(children, other) {
        lifecycle_changes_one_child(children, id, moved(from, to), other);
        lifecycle_changes_one_child(children, id, settled(from), other);
    }
}

/// The children that are left after a removal stand in the order in which they stood.
pub proof fn removal_keeps_the_order(
    children: Seq<ChildView>,
    id: Seq<char>,
    first: Seq<char>,
    second: Seq<char>,
)
    requires
        unique(children),
        listed(children, first),
        listed(children, second),
        first != id,
        second != id,
        slot(children, first) < slot(children, second),
    ensures
        slot(without(children, id), first) < slot(without(children, id), second),
        without(children, id).len() == children.len() - if listed(children, id) {
            1int
        } else {
            0
        },
{
    let after = without(children, id);
    let ids = ids_of(children);
    removal_takes_one_child(children, id, first);
    removal_takes_one_child(children, id, second);
    if listed(children, id) {
        let at = slot(children, id);
        let i = slot(children, first);
        let j = slot(children, second);
        assert(ids[i] == first && ids[j] == second && ids[at] == id);
        let a: int = if i < at {
            i
        } else {
            i - 1
        };
        let b: int = if j < at {
            j
        } else {
            j - 1
        };
        assert(after[a] == children[i] && after[b] == children[j]);
        slot_of_member(after, a);
        slot_of_member(after, b);
    }
}

/// A snapshot tells of every child, in start order, what it is and whether it is alive: exactly a
/// running one is, and exactly one whose restart is in flight has a restart pending.
pub proof fn snapshots_tell_what_is_there(infos: Seq<ChildInfo>, children: Seq<ChildView>, i: int)
    requires
        infos_of(infos, children),
        0 <= i < children.len(),
    ensures
        infos.len() == children.len(),
        infos[i].id@ == children[i].id,
        infos[i].name is Some == children[i].name is Some,
        infos[i].name is Some ==> infos[i].name->0@ == children[i].name->0,
        infos[i].restart_type == children[i].spec.restart_type,
        infos[i].shutdown == children[i].spec.shutdown,
        infos[i].is_alive <==> children[i].lifecycle is Running,
        infos[i].restart_pending <==> children[i].lifecycle is Restarting,
{
    assert(infos[i].id@ == children[i].id);
}

/// Ordered child registry: children are kept in start order, no two under one ID.
#[derive(Debug)]
pub struct ChildRegistry {
    children: Vec<ChildState>,
}

impl View for ChildRegistry {
    type V = Seq<ChildView>;

    closed spec fn view(&self) -> Seq<ChildView> {
        self.children@.map_values(|child: ChildState| child@)
    }
}

impl ChildRegistry {
    #[verifier::type_invariant]
    spec fn inv(self) -> bool {
        unique(self.view())
    }

    /// A registry without children.
    pub fn new() -> (registry: Self)
        ensures
            registry@ == Seq::<ChildView>::empty(),
    {
        let registry: ChildRegistry = ChildRegistry { children: Vec::new() };
        assert(registry@ =~= Seq::<ChildView>::empty());
        registry
    }

    /// The place of the child with the given ID.
    fn position(&self, id: &ActorId) -> (at: Option<usize>)
        ensures
            at is Some == listed(self@, id@),
            at is Some ==> at->0 < self.children.len() && at->0 == slot(self@, id@),
    {
        proof {
            use_type_invariant(self);
        }
        let mut i: usize = 0;
        while i < self.children.len()
            invariant
                i <= self.children.len(),
                unique(self@),
                forall|j: int| 0 <= j < i ==> ids_of(self@)[j] != id@,
            decreases self.children.len() - i,
        {
            assert(ids_of(self@)[i as int] == self.children@[i as int].id@);
            if self.children[i].id == *id {
                proof {
                    slot_of_member(self@, i as int);
                }
                return Some(i);
            }
            i += 1;
        }
        None
    }

    /// Adds a child behind those that are there.
    pub fn register(&mut self, state: ChildState)
        requires
            !listed(old(self)@, state.id@),
        ensures
            final(self)@ == old(self)@.push(state@),
    {
        proof {
            use_type_invariant(&*self);
            registration_appends(self@, state@, state.id@);
        }
        let mut children: Vec<ChildState> = self.drain_all();
        children.push(state);
        assert(children@.map_values(|child: ChildState| child@) =~= old(self)@.push(state@));
        self.children = children;
    }

    /// Takes the child with the given ID out.
    pub fn remove(&mut self, id: &ActorId) -> (removed: Option<ChildState>)
        ensures
            removed is Some == listed(old(self)@, id@),
            removed is Some ==> removed->0@ == child(old(self)@, id@),
            final(self)@ == without(old(self)@, id@),
    {
        proof {
            use_type_invariant(&*self);
            removal_takes_one_child(self@, id@, id@);
        }
        match self.position(id) {
            Some(at) => {
                let mut children: Vec<ChildState> = self.drain_all();
                let removed: ChildState = children.remove(at);
                assert(children@.map_values(|child: ChildState| child@) =~= without(
                    old(self)@,
                    id@,
                ));
                self.children = children;
                Some(removed)
            },
            None => None,
        }
    }

    /// The child with the given ID.
    pub fn get(&self, id: &ActorId) -> (found: Option<&ChildState>)
        ensures
            found is Some == listed(self@, id@),
            found is Some ==> found->0@ == child(self@, id@),
    {
        match self.position(id) {
            Some(at) => Some(&self.children[at]),
            None => None,
        }
    }

    /// Asks the child with the given ID to move to `to`. Returns whether it did.
    pub fn transition(&mut self, id: &ActorId, to: ChildLifecycle) -> (done: bool)
        ensures
            done == (listed(old(self)@, id@) && ChildLifecycle::legal(
                child(old(self)@, id@).lifecycle,
                to,
            )),
            final(self)@ == asked(old(self)@, id@, to),
    {
        proof {
            use_type_invariant(&*self);
            lifecycle_keeps_ids(self@, id@, moved(child(self@, id@).lifecycle, to));
        }
        match self.position(id) {
            Some(at) => {
                let mut children: Vec<ChildState> = self.drain_all();
                let done: bool = children[at].transition(to).is_ok();
                assert(children@.map_values(|child: ChildState| child@) =~= asked(
                    old(self)@,
                    id@,
                    to,
                ));
                self.children = children;
                done
            },
            None => false,
        }
    }

    /// Settles the child with the given ID to `Down`, with the incarnation that it has.
    pub fn settle(&mut self, id: &ActorId)
        ensures
            final(self)@ == downed(old(self)@, id@),
    {
        if let Some(state) = self.get(id) {
            let incarnation: u64 = state.lifecycle.incarnation();
            self.transition(id, ChildLifecycle::Down { incarnation, event_pending: false });
        }
    }

    /// Introspection info for all children, in start order.
    pub fn children_info(&self) -> (infos: Vec<ChildInfo>)
        ensures
            infos_of(infos@, self@),
    {
        let mut infos: Vec<ChildInfo> = Vec::new();
        let mut i: usize = 0;
        while i < self.children.len()
            invariant
                i <= self.children.len(),
                infos_of(infos@, self@.take(i as int)),
            decreases self.children.len() - i,
        {
            let child: &ChildState = &self.children[i];
            let is_alive: bool = matches!(child.lifecycle, ChildLifecycle::Running(_));
            let restart_pending: bool = matches!(child.lifecycle, ChildLifecycle::Restarting { .. });
            infos.push(
                ChildInfo {
                    id: child.id.clone(),
                    name: copy_name(&child.name),
                    restart_type: child.spec.restart_type,
                    shutdown: child.spec.shutdown,
                    is_alive,
                    restart_pending,
                },
            );
            i += 1;
        }
        assert(self@.take(i as int) =~= self@);
        infos
    }

    /// The IDs of the children from the given place on, in start order.
    fn ids_from(&self, start: usize) -> (ids: Vec<ActorId>)
        requires
            start <= self.children.len(),
        ensures
            texts(ids@) == ids_of(self@).skip(start as int),
    {
        let mut ids: Vec<ActorId> = Vec::new();
        let mut i: usize = start;
        while i < self.children.len()
            invariant
                start <= i <= self.children.len(),
                texts(ids@) == ids_of(self@).subrange(start as int, i as int),
            decreases self.children.len() - i,
        {
            let ghost before = ids@;
            let id: ActorId = self.children[i].id.clone();
            ids.push(id);
            proof {
                texts_push(before, id);
                assert(texts(ids@) =~= ids_of(self@).subrange(start as int, i + 1));
            }
            i += 1;
        }
        assert(texts(ids@) =~= ids_of(self@).skip(start as int));
        ids
    }

    /// The IDs of the children started after the given one.
    pub fn children_after(&self, id: &ActorId) -> (ids: Vec<ActorId>)
        ensures
            texts(ids@) == if listed(self@, id@) {
                ids_of(self@).skip(slot(self@, id@) + 1)
            } else {
                Seq::empty()
            },
    {
        match self.position(id) {
            Some(at) => self.ids_from(at + 1),
            None => {
                let none: Vec<ActorId> = Vec::new();
                assert(texts(none@) =~= Seq::empty());
                none
            },
        }
    }

    /// The IDs of all children, in start order.
    pub fn all_ids(&self) -> (ids: Vec<ActorId>)
        ensures
            texts(ids@) == ids_of(self@),
    {
        assert(ids_of(self@).skip(0) =~= ids_of(self@));
        self.ids_from(0)
    }

    /// How many children there are.
    pub fn len(&self) -> (count: usize)
        ensures
            count == self@.len(),
    {
        self.children.len()
    }

    /// Takes all children out, in start order.
    pub fn drain_all(&mut self) -> (drained: Vec<ChildState>)
        ensures
            final(self)@ == Seq::<ChildView>::empty(),
            drained@.map_values(|child: ChildState| child@) == old(self)@,
    {
        let mut drained: Vec<ChildState> = Vec::new();
        assert(drained@.map_values(|child: ChildState| child@) =~= Seq::<ChildView>::empty());
        std::mem::swap(&mut self.children, &mut drained);
        drained
    }

    /// Makes the restarted instance with the token `seq` the child's live one, if the child's
    /// pending restart is the one with that token. Returns whether it was.
    pub fn update_restarted(&mut self, id: &ActorId, seq: u64) -> (adopted: bool)
        ensures
            adopted == (listed(old(self)@, id@) && child(old(self)@, id@).lifecycle.awaits(seq)),
            final(self)@ == if adopted {
                with_lifecycle(old(self)@, id@, ChildLifecycle::Running(seq))
            } else {
                old(self)@
            },
    {
        let pending: bool = match self.get(id) {
            Some(state) => state.lifecycle.awaits_attempt(seq),
            None => false,
        };
        if pending {
            self.transition(id, ChildLifecycle::Running(seq))
        } else {
            false
        }
    }
}

} // verus!
