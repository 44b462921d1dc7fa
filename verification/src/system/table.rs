//! Tables of names, kept in a concurrent hash map.

use dashmap::DashMap;
use vstd::prelude::*;

verus! {

/// `dashmap::DashMap`, a concurrent hash map.
#[verifier::external_type_specification]
#[verifier::external_body]
#[verifier::reject_recursive_types(K)]
#[verifier::reject_recursive_types(V)]
#[verifier::reject_recursive_types(S)]
pub struct ExDashMap<K, V, S>(dashmap::DashMap<K, V, S>);

/// What a map from texts to numbers holds, by the texts of its keys.
pub uninterp spec fn table_contents(table: DashMap<String, u64>) -> Map<Seq<char>, u64>;

/// No names.
pub open spec fn no_names() -> Map<Seq<char>, u64> {
    Map::empty()
}

/// Calls `dashmap::DashMap::new`: a map that holds nothing.
#[verifier::external_body]
fn new_map() -> (fresh: DashMap<String, u64>)
    ensures
        table_contents(fresh) == no_names(),
{
    DashMap::new()
}

/// Calls `dashmap::DashMap::get`: a copy of the number that is kept under the key, if there is one.
#[verifier::external_body]
fn map_get(map: &DashMap<String, u64>, key: &str) -> (found: Option<u64>)
    ensures
        found == if table_contents(*map).dom().contains(key@) {
            Some(table_contents(*map)[key@])
        } else {
            None
        },
{
    map.get(key).map(|entry| *entry.value())
}

/// Calls `dashmap::DashMap::insert`: keeps the number under the key, and returns what was kept
/// there before.
#[verifier::external_body]
fn map_insert(map: &mut DashMap<String, u64>, key: String, number: u64) -> (replaced: Option<u64>)
    ensures
        table_contents(*final(map)) == table_contents(*old(map)).insert(key@, number),
        replaced == if table_contents(*old(map)).dom().contains(key@) {
            Some(table_contents(*old(map))[key@])
        } else {
            None
        },
{
    map.insert(key, number)
}

/// Calls `dashmap::DashMap::entry`, and `insert` on a vacant one: keeps the number under the key
/// only where nothing is kept there. Returns whether it did.
#[verifier::external_body]
fn map_claim(map: &mut DashMap<String, u64>, key: String, number: u64) -> (claimed: bool)
    ensures
        claimed == !table_contents(*old(map)).dom().contains(key@),
        table_contents(*final(map)) == if claimed {
            table_contents(*old(map)).insert(key@, number)
        } else {
            table_contents(*old(map))
        },
{
    match map.entry(key) {
        dashmap::mapref::entry::Entry::Occupied(_) => false,
        dashmap::mapref::entry::Entry::Vacant(vacant) => {
            vacant.insert(number);
            true
        },
    }
}

/// Whether two numbers are the same.
fn same_number(kept: u64, number: u64) -> (same: bool)
    ensures
        same == (kept == number),
{
    kept == number
}

/// Calls `dashmap::DashMap::remove_if`: removes the key only where the given number is kept under
/// it. Returns whether it did.
#[verifier::external_body]
fn map_remove_if(map: &mut DashMap<String, u64>, key: &str, number: u64) -> (removed: bool)
    ensures
        removed == (table_contents(*old(map)).dom().contains(key@) && table_contents(
            *old(map),
        )[key@] == number),
        table_contents(*final(map)) == if removed {
            table_contents(*old(map)).remove(key@)
        } else {
            table_contents(*old(map))
        },
{
    map.remove_if(key, |_, kept| same_number(*kept, number)).is_some()
}

/// Whether a list of entries lists what a map holds, each key once, in any order.
pub open spec fn lists(entries: Seq<(String, u64)>, map: Map<Seq<char>, u64>) -> bool {
    &&& forall|i: int|
        0 <= i < entries.len() ==> map.dom().contains((#[trigger] entries[i]).0@)
            && map[entries[i].0@] == entries[i].1
    &&& forall|i: int, j: int|
        0 <= i < j < entries.len() ==> (#[trigger] entries[i]).0@ != (#[trigger] entries[j]).0@
    &&& forall|key: Seq<char>| #[trigger]
        map.dom().contains(key) ==> exists|i: int|
            0 <= i < entries.len() && (#[trigger] entries[i]).0@ == key
}

/// Calls `dashmap::DashMap::iter`: a copy of every entry. The order in which the map is walked is
/// left open.
#[verifier::external_body]
fn map_entries(map: &DashMap<String, u64>) -> (entries: Vec<(String, u64)>)
    ensures
        lists(entries@, table_contents(*map)),
{
    map.iter().map(|entry| (entry.key().clone(), *entry.value())).collect()
}

/// A table that keeps one number under each of its names.
pub struct NameTable {
    map: DashMap<String, u64>,
}

impl View for NameTable {
    type V = Map<Seq<char>, u64>;

    closed spec fn view(&self) -> Map<Seq<char>, u64> {
        table_contents(self.map)
    }
}

impl NameTable {
    /// A table without names.
    pub fn new() -> (table: NameTable)
        ensures
            table@ == no_names(),
    {
        NameTable { map: new_map() }
    }

    /// The number that is kept under a name.
    pub fn get(&self, name: &str) -> (found: Option<u64>)
        ensures
            found == if self@.dom().contains(name@) {
                Some(self@[name@])
            } else {
                None
            },
    {
        map_get(&self.map, name)
    }

    /// Keeps a number under a name. Returns what was kept there before.
    pub fn insert(&mut self, name: String, number: u64) -> (replaced: Option<u64>)
        ensures
            final(self)@ == old(self)@.insert(name@, number),
            replaced == if old(self)@.dom().contains(name@) {
                Some(old(self)@[name@])
            } else {
                None
            },
    {
        map_insert(&mut self.map, name, number)
    }

    /// Keeps a number under a name that is not taken. Returns whether it is kept.
    pub fn claim(&mut self, name: String, number: u64) -> (claimed: bool)
        ensures
            claimed == !old(self)@.dom().contains(name@),
            final(self)@ == if claimed {
                old(self)@.insert(name@, number)
            } else {
                old(self)@
            },
    {
        map_claim(&mut self.map, name, number)
    }

    /// Frees a name, but only if the given number is still kept under it. Returns whether it was.
    pub fn release(&mut self, name: &str, number: u64) -> (released: bool)
        ensures
            released == (old(self)@.dom().contains(name@) && old(self)@[name@] == number),
            final(self)@ == if released {
                old(self)@.remove(name@)
            } else {
                old(self)@
            },
    {
        map_remove_if(&mut self.map, name, number)
    }

    /// Every name with its number, in any order.
    pub fn entries(&self) -> (entries: Vec<(String, u64)>)
        ensures
            lists(entries@, self@),
    {
        map_entries(&self.map)
    }

    /// Every name, in any order.
    pub fn names(&self) -> (names: Vec<String>)
        ensures
            lists_names(names@, self@),
    {
        let entries: Vec<(String, u64)> = self.entries();
        let mut names: Vec<String> = Vec::new();
        let mut i: usize = 0;
        while i < entries.len()
            invariant
                i <= entries.len(),
                lists(entries@, self@),
                names.len() == i,
                forall|j: int| 0 <= j < i ==> (#[trigger] names[j])@ == entries[j].0@,
            decreases entries.len() - i,
        {
            names.push(entries[i].0.clone());
            i += 1;
        }
        proof {
            assert forall|key: Seq<char>| #[trigger] self@.dom().contains(key) implies exists|j: int|
                0 <= j < names.len() && (#[trigger] names[j])@ == key by {
                let j = choose|j: int|
                    0 <= j < entries.len() && (#[trigger] entries[j]).0@ == key;
                assert(names[j]@ == key);
            }
            assert forall|a: int, b: int| 0 <= a < b < names.len() implies (
            #[trigger] names[a])@ != (#[trigger] names[b])@ by {
                assert(entries[a].0@ != entries[b].0@);
            }
            assert forall|a: int| 0 <= a < names.len() implies self@.dom().contains(
                (#[trigger] names[a])@,
            ) by {
                assert(self@.dom().contains(entries[a].0@));
            }
        }
        names
    }
}

/// Whether a list of names lists the names of a table, each once, in any order.
pub open spec fn lists_names(names: Seq<String>, map: Map<Seq<char>, u64>) -> bool {
    &&& forall|i: int| 0 <= i < names.len() ==> map.dom().contains((#[trigger] names[i])@)
    &&& forall|i: int, j: int|
        0 <= i < j < names.len() ==> (#[trigger] names[i])@ != (#[trigger] names[j])@
    &&& forall|key: Seq<char>| #[trigger]
        map.dom().contains(key) ==> exists|i: int|
            0 <= i < names.len() && (#[trigger] names[i])@ == key
}

/// A list of the names of a table holds a name exactly if the table does, and no name twice; a list of
/// its entries holds with each name the number that is kept under it.
pub proof fn lists_hold_what_the_table_holds(
    names: Seq<String>,
    entries: Seq<(String, u64)>,
    map: Map<Seq<char>, u64>,
    key: Seq<char>,
)
    requires
        lists_names(names, map),
        lists(entries, map),
    ensures
        map.dom().contains(key) <==> exists|i: int|
            0 <= i < names.len() && (#[trigger] names[i])@ == key,
        map.dom().contains(key) <==> exists|i: int|
            0 <= i < entries.len() && (#[trigger] entries[i]).0@ == key && entries[i].1 == map[key],
        forall|i: int, j: int|
            0 <= i < names.len() && 0 <= j < names.len() && (#[trigger] names[i])@ == (
            #[trigger] names[j])@ ==> i == j,
        forall|i: int, j: int|
            0 <= i < entries.len() && 0 <= j < entries.len() && (#[trigger] entries[i]).0@ == (
            #[trigger] entries[j]).0@ ==> i == j,
{
    if map.dom().contains(key) {
        let i = choose|i: int| 0 <= i < entries.len() && (#[trigger] entries[i]).0@ == key;
        assert(entries[i].1 == map[key]);
    }
}

} // verus!
