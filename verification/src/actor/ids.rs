//! Lists and sets of actor identifiers, by the text that the identifiers hold.

use vstd::prelude::*;
use crate::types::{ActorId, ChildEvent, ChildEventView};

verus! {

/// The texts of a list of identifiers.
pub open spec fn texts(ids: Seq<ActorId>) -> Seq<Seq<char>> {
    ids.map_values(|id: ActorId| id@)
}

/// The texts of a list that one more identifier was appended to.
pub proof fn texts_push(ids: Seq<ActorId>, id: ActorId)
    ensures
        texts(ids.push(id)) == texts(ids).push(id@),
{
    assert(texts(ids.push(id)) =~= texts(ids).push(id@));
}

/// Whether a list of identifiers holds `id`.
pub fn list_contains(ids: &Vec<ActorId>, id: &ActorId) -> (found: bool)
    ensures
        found == texts(ids@).contains(id@),
{
    let mut i: usize = 0;
    while i < ids.len()
        invariant
            i <= ids.len(),
            forall|j: int| 0 <= j < i ==> texts(ids@)[j] != id@,
        decreases ids.len() - i,
    {
        if ids[i] == *id {
            assert(texts(ids@)[i as int] == id@);
            return true;
        }
        i += 1;
    }
    false
}

/// A copy of a list of identifiers.
pub fn list_copy(ids: &Vec<ActorId>) -> (copy: Vec<ActorId>)
    ensures
        copy@ == ids@,
{
    let mut copy: Vec<ActorId> = Vec::new();
    let mut i: usize = 0;
    while i < ids.len()
        invariant
            i <= ids.len(),
            copy@ == ids@.take(i as int),
        decreases ids.len() - i,
    {
        copy.push(ids[i].clone());
        assert(copy@ =~= ids@.take(i + 1));
        i += 1;
    }
    assert(copy@ =~= ids@);
    copy
}

/// A list of identifiers in the opposite order.
pub fn list_reversed(ids: &Vec<ActorId>) -> (reversed: Vec<ActorId>)
    ensures
        texts(reversed@) == texts(ids@).reverse(),
{
    let mut reversed: Vec<ActorId> = Vec::new();
    let mut i: usize = ids.len();
    while i > 0
        invariant
            i <= ids.len(),
            reversed.len() == ids.len() - i,
            forall|j: int| 0 <= j < reversed.len() ==> reversed[j] == ids[ids.len() - 1 - j],
        decreases i,
    {
        i -= 1;
        reversed.push(ids[i].clone());
    }
    assert(texts(reversed@) =~= texts(ids@).reverse());
    reversed
}

/// A set of identifiers.
#[derive(Debug)]
pub struct IdSet {
    items: Vec<ActorId>,
}

impl View for IdSet {
    type V = Set<Seq<char>>;

    closed spec fn view(&self) -> Set<Seq<char>> {
        Set::new(|text: Seq<char>| texts(self.items@).contains(text))
    }
}

impl IdSet {
    /// The empty set.
    pub fn new() -> (set: IdSet)
        ensures
            set@ == Set::<Seq<char>>::empty(),
    {
        let set: IdSet = IdSet { items: Vec::new() };
        assert(set@ =~= Set::<Seq<char>>::empty());
        set
    }

    /// The set of the identifiers in a list.
    pub fn from_list(ids: &Vec<ActorId>) -> (set: IdSet)
        ensures
            forall|text: Seq<char>| set@.contains(text) == texts(ids@).contains(text),
    {
        IdSet { items: list_copy(ids) }
    }

    /// Whether the set holds `id`.
    pub fn contains(&self, id: &ActorId) -> (found: bool)
        ensures
            found == self@.contains(id@),
    {
        list_contains(&self.items, id)
    }

    /// Whether the set holds nothing.
    pub fn is_empty(&self) -> (empty: bool)
        ensures
            empty == (self@ == Set::<Seq<char>>::empty()),
    {
        let empty: bool = self.items.len() == 0;
        proof {
            if empty {
                assert(self@ =~= Set::<Seq<char>>::empty());
            } else {
                assert(texts(self.items@)[0] == self.items@[0]@);
                assert(self@.contains(self.items@[0]@));
            }
        }
        empty
    }

    /// Adds `id` to the set.
    pub fn insert(&mut self, id: ActorId)
        ensures
            final(self)@ == old(self)@.insert(id@),
    {
        let ghost before = self.items@;
        if !list_contains(&self.items, &id) {
            self.items.push(id);
            proof {
                texts_push(before, id);
                assert forall|text: Seq<char>|
                    texts(before).push(id@).contains(text) == (texts(before).contains(text) || text
                        == id@) by {
                    let longer = texts(before).push(id@);
                    if texts(before).contains(text) {
                        let i = texts(before).index_of(text);
                        assert(longer[i] == text);
                    }
                    assert(longer[before.len() as int] == id@);
                }
            }
        }
        assert(self@ =~= old(self)@.insert(id@));
    }

    /// Takes `id` out of the set. Returns whether it was there.
    pub fn remove(&mut self, id: &ActorId) -> (found: bool)
        ensures
            found == old(self)@.contains(id@),
            final(self)@ == old(self)@.remove(id@),
    {
        let found: bool = list_contains(&self.items, id);
        let mut kept: Vec<ActorId> = Vec::new();
        let mut i: usize = 0;
        while i < self.items.len()
            invariant
                i <= self.items.len(),
                self.items@ == old(self).items@,
                forall|text: Seq<char>|
                    texts(kept@).contains(text) == (text != id@ && texts(
                        self.items@.take(i as int),
                    ).contains(text)),
            decreases self.items.len() - i,
        {
            let ghost seen = self.items@.take(i as int);
            let ghost before = kept@;
            let item: &ActorId = &self.items[i];
            if *item != *id {
                kept.push(item.clone());
            }
            proof {
                assert(self.items@.take(i + 1) =~= seen.push(*item));
                texts_push(seen, *item);
                texts_push(before, *item);
                assert forall|text: Seq<char>|
                    texts(kept@).contains(text) == (text != id@ && texts(
                        self.items@.take(i + 1),
                    ).contains(text)) by {
                    push_contains(texts(seen), item@, text);
                    push_contains(texts(before), item@, text);
                }
            }
            i += 1;
        }
        assert(self.items@.take(i as int) =~= self.items@);
        self.items = kept;
        assert(self@ =~= old(self)@.remove(id@));
        found
    }

    /// Takes everything out of the set.
    pub fn clear(&mut self)
        ensures
            final(self)@ == Set::<Seq<char>>::empty(),
    {
        self.items.clear();
        assert(self@ =~= Set::<Seq<char>>::empty());
    }
}

/// A list that `last` was appended to holds what it held before, and `last`.
pub proof fn push_contains<T>(list: Seq<T>, last: T, item: T)
    ensures
        list.push(last).contains(item) == (list.contains(item) || item == last),
{
    let longer = list.push(last);
    if list.contains(item) {
        let i = list.index_of(item);
        assert(longer[i] == item);
    }
    assert(longer[list.len() as int] == last);
    if longer.contains(item) && item != last {
        let i = longer.index_of(item);
        assert(list[i] == item);
    }
}

/// The key of a death that was asked for: the child and the incarnation that died.
pub type DeathKey = (Seq<char>, u64);

/// Child events that wait for the death that they report, by child and incarnation.
#[derive(Debug)]
pub struct PendingEvents {
    items: Vec<(ActorId, u64, ChildEvent)>,
}

/// What a list of keyed events holds; of two under one key the later one counts.
pub closed spec fn keyed_events(items: Seq<(ActorId, u64, ChildEvent)>) -> Map<
    DeathKey,
    ChildEventView,
>
    decreases items.len(),
{
    if items.len() == 0 {
        Map::empty()
    } else {
        let last = items.last();
        keyed_events(items.drop_last()).insert((last.0@, last.1), last.2@)
    }
}

impl View for PendingEvents {
    type V = Map<DeathKey, ChildEventView>;

    closed spec fn view(&self) -> Map<DeathKey, ChildEventView> {
        keyed_events(self.items@)
    }
}

impl PendingEvents {
    /// No events.
    pub fn new() -> (events: PendingEvents)
        ensures
            events@ == Map::<DeathKey, ChildEventView>::empty(),
    {
        PendingEvents { items: Vec::new() }
    }

    /// Keeps `event` under the given key, in place of what was kept there.
    pub fn insert(&mut self, id: ActorId, incarnation: u64, event: ChildEvent)
        ensures
            final(self)@ == old(self)@.insert((id@, incarnation), event@),
    {
        let ghost before = self.items@;
        self.items.push((id, incarnation, event));
        assert(self.items@.drop_last() =~= before);
    }

    /// Hands out what is kept under the given key.
    pub fn remove(&mut self, id: &ActorId, incarnation: u64) -> (event: Option<ChildEvent>)
        ensures
            event is Some == old(self)@.dom().contains((id@, incarnation)),
            event is Some ==> event->0@ == old(self)@[(id@, incarnation)],
            final(self)@ == old(self)@.remove((id@, incarnation)),
    {
        let ghost key: DeathKey = (id@, incarnation);
        let mut found: Option<ChildEvent> = None;
        let mut kept: Vec<(ActorId, u64, ChildEvent)> = Vec::new();
        let mut i: usize = 0;
        while i < self.items.len()
            invariant
                i <= self.items.len(),
                self.items@ == old(self).items@,
                key == (id@, incarnation),
                found is Some == keyed_events(self.items@.take(i as int)).dom().contains(key),
                found is Some ==> found->0@ == keyed_events(self.items@.take(i as int))[key],
                keyed_events(kept@) == keyed_events(self.items@.take(i as int)).remove(key),
            decreases self.items.len() - i,
        {
            let ghost before = kept@;
            let item: &(ActorId, u64, ChildEvent) = &self.items[i];
            assert(self.items@.take(i + 1).drop_last() =~= self.items@.take(i as int));
            if item.0 == *id && item.1 == incarnation {
                found = Some(item.2.clone());
                assert(keyed_events(kept@) =~= keyed_events(self.items@.take(i + 1)).remove(key));
            } else {
                kept.push((item.0.clone(), item.1, item.2.clone()));
                assert(kept@.drop_last() =~= before);
                assert(keyed_events(kept@) =~= keyed_events(self.items@.take(i + 1)).remove(key));
            }
            i += 1;
        }
        assert(self.items@.take(i as int) =~= self.items@);
        self.items = kept;
        found
    }
}

} // verus!
