//! A map keyed by model alias.
use dashmap::DashMap;
use vstd::prelude::*;

verus! {

// ------------------------------------------------------- the concurrent map

/// The concurrent map of the `dashmap` crate.
#[verifier::external_type_specification]
#[verifier::external_body]
#[verifier::reject_recursive_types(K)]
#[verifier::reject_recursive_types(V)]
#[verifier::reject_recursive_types(S)]
pub struct ExDashMap<K, V, S>(DashMap<K, V, S>);

/// What a map from aliases to slots holds.
pub uninterp spec fn slots_of(m: DashMap<String, usize>) -> Map<Seq<char>, usize>;

/// `DashMap::new` makes a map that holds nothing.
#[verifier::external_body]
fn index_new() -> (r: DashMap<String, usize>)
    ensures
        slots_of(r).is_empty(),
{
    DashMap::new()
}

/// `DashMap::get` finds the value for a key; here it is copied out.
#[verifier::external_body]
fn index_get(m: &DashMap<String, usize>, key: &str) -> (r: Option<usize>)
    ensures
        match r {
            Some(i) => slots_of(*m).dom().contains(key@) && i == slots_of(*m)[key@],
            None => !slots_of(*m).dom().contains(key@),
        },
{
    match m.get(key) {
        Some(e) => Some(*e.value()),
        None => None,
    }
}

/// `DashMap::insert` sets the value for a key and leaves the others.
#[verifier::external_body]
fn index_insert(m: &mut DashMap<String, usize>, key: String, slot: usize)
    ensures
        slots_of(*final(m)) == slots_of(*old(m)).insert(key@, slot),
{
    m.insert(key, slot);
}

/// `DashMap::remove` takes the value for a key out and leaves the others.
#[verifier::external_body]
fn index_remove(m: &mut DashMap<String, usize>, key: &str)
    ensures
        slots_of(*final(m)) == slots_of(*old(m)).remove(key@),
{
    m.remove(key);
}

// --------------------------------------------------------------------- the map

/// A map from aliases to values: the values stand in slots, and an index tells
/// the slot of an alias.
#[derive(Debug)]
pub struct AliasMap<V> {
    entries: Vec<(String, V)>,
    index: DashMap<String, usize>,
}

/// The index tells of each entry where it stands, and of nothing else.
pub open spec fn index_matches<V>(
    slots: Map<Seq<char>, usize>,
    entries: Seq<(String, V)>,
) -> bool {
    &&& forall|i: int|
        0 <= i < entries.len() ==> slots.dom().contains((#[trigger] entries[i]).0@)
            && slots[entries[i].0@] == i
    &&& forall|k: Seq<char>| #[trigger]
        slots.dom().contains(k) ==> slots[k] < entries.len() && entries[slots[k] as int].0@ == k
}

/// No alias occurs twice.
pub open spec fn distinct_keys<V>(entries: Seq<(String, V)>) -> bool {
    forall|i: int, j: int|
        0 <= i < j < entries.len() ==> (#[trigger] entries[i]).0@ != (#[trigger] entries[j]).0@
}

/// An entry for the alias is there.
pub open spec fn has_key<V>(entries: Seq<(String, V)>, key: Seq<char>) -> bool {
    exists|i: int| 0 <= i < entries.len() && (#[trigger] entries[i]).0@ == key
}

/// Where the entry for the alias is.
pub open spec fn key_index<V>(entries: Seq<(String, V)>, key: Seq<char>) -> int {
    choose|i: int| 0 <= i < entries.len() && (#[trigger] entries[i]).0@ == key
}

/// The entries as a map.
pub open spec fn entries_map<V>(entries: Seq<(String, V)>) -> Map<Seq<char>, V> {
    Map::new(|k: Seq<char>| has_key(entries, k), |k: Seq<char>| entries[key_index(entries, k)].1)
}

proof fn lemma_key_index<V>(entries: Seq<(String, V)>, i: int)
    requires
        distinct_keys(entries),
        0 <= i < entries.len(),
    ensures
        has_key(entries, entries[i].0@),
        key_index(entries, entries[i].0@) == i,
{
    let k = key_index(entries, entries[i].0@);
    assert(0 <= k < entries.len() && entries[k].0@ == entries[i].0@);
}

impl<V> View for AliasMap<V> {
    type V = Map<Seq<char>, V>;

    closed spec fn view(&self) -> Map<Seq<char>, V> {
        entries_map(self.entries@)
    }
}

impl<V> AliasMap<V> {
    #[verifier::type_invariant]
    spec fn is_indexed(self) -> bool {
        index_matches(slots_of(self.index), self.entries@)
    }

    /// The entries, each for another alias.
    pub closed spec fn spec_entries(&self) -> Seq<(String, V)> {
        self.entries@
    }

    /// A map with no entries.
    pub fn new() -> (r: Self)
        ensures
            r@ == Map::<Seq<char>, V>::empty(),
    {
        let r = AliasMap { entries: Vec::new(), index: index_new() };
        assert(r@ =~= Map::<Seq<char>, V>::empty());
        r
    }

    fn find(&self, key: &str) -> (r: Option<usize>)
        ensures
            match r {
                Some(i) => i < self.entries@.len() && self.entries@[i as int].0@ == key@
                    && slots_of(self.index)[key@] == i && self@.dom().contains(key@) && self@[key@]
                    == self.entries@[i as int].1,
                None => !self@.dom().contains(key@) && !has_key(self.entries@, key@),
            },
    {
        proof {
            use_type_invariant(self);
            lemma_index_is_distinct(slots_of(self.index), self.entries@);
        }
        match index_get(&self.index, key) {
            Some(i) => {
                proof {
                    lemma_key_index(self.entries@, i as int);
                }
                Some(i)
            },
            None => None,
        }
    }

    /// The value for an alias.
    pub fn get(&self, key: &str) -> (r: Option<&V>)
        ensures
            match r {
                Some(v) => self@.dom().contains(key@) && *v == self@[key@],
                None => !self@.dom().contains(key@),
            },
    {
        match self.find(key) {
            Some(i) => Some(&self.entries[i].1),
            None => None,
        }
    }

    /// Whether there is a value for an alias.
    pub fn contains_key(&self, key: &str) -> (r: bool)
        ensures
            r == self@.dom().contains(key@),
    {
        self.find(key).is_some()
    }

    /// Sets the value for an alias.
    pub fn insert(&mut self, key: String, value: V)
        ensures
            final(self)@ == old(self)@.insert(key@, value),
    {
        proof {
            use_type_invariant(&*self);
            lemma_index_is_distinct(slots_of(self.index), self.entries@);
        }
        let ghost k = key@;
        let slot: Option<usize> = self.find(key.as_str());
        let mut whole: AliasMap<V> = AliasMap::new();
        std::mem::swap(&mut whole, self);
        let AliasMap { mut entries, mut index } = whole;
        let ghost before = entries@;
        match slot {
            Some(i) => {
                entries.set(i, (key, value));
                proof {
                    lemma_updated(before, i as int, entries@[i as int]);
                }
            },
            None => {
                let n: usize = entries.len();
                index_insert(&mut index, key.clone(), n);
                entries.push((key, value));
                proof {
                    assert forall|j: int| 0 <= j < before.len() implies (#[trigger] before[j]).0@
                        != k by {
                        lemma_key_index(before, j);
                    }
                    lemma_index_is_distinct(slots_of(index), entries@);
                    lemma_pushed(before, entries@.last());
                    assert(before.push(entries@.last()) == entries@);
                }
            },
        }
        *self = AliasMap { entries, index };
    }

    /// Takes the value for an alias out.
    pub fn remove(&mut self, key: &str) -> (r: Option<V>)
        ensures
            final(self)@ == old(self)@.remove(key@),
            match r {
                Some(v) => old(self)@.dom().contains(key@) && v == old(self)@[key@],
                None => !old(self)@.dom().contains(key@),
            },
    {
        proof {
            use_type_invariant(&*self);
            lemma_index_is_distinct(slots_of(self.index), self.entries@);
        }
        match self.find(key) {
            Some(i) => {
                let mut whole: AliasMap<V> = AliasMap::new();
                std::mem::swap(&mut whole, self);
                let AliasMap { mut entries, mut index } = whole;
                let ghost before = entries@;
                let ghost slots = slots_of(index);
                let last: usize = entries.len() - 1;
                let moved: String = entries[last].0.clone();
                let (_, v) = entries.swap_remove(i);
                index_remove(&mut index, key);
                if i < last {
                    index_insert(&mut index, moved, i);
                }
                proof {
                    lemma_removed(before, i as int, slots);
                    assert(entries@ =~= filled_gap(before, i as int));
                    assert(slots_of(index) =~= if i < last {
                        slots.remove(before[i as int].0@).insert(
                            before[last as int].0@,
                            i,
                        )
                    } else {
                        slots.remove(before[i as int].0@)
                    });
                }
                *self = AliasMap { entries, index };
                Some(v)
            },
            None => {
                assert(self@ =~= self@.remove(key@));
                None
            },
        }
    }

    /// How many entries there are, each for another alias.
    pub fn len(&self) -> (r: usize)
        ensures
            r == self@.len(),
            r == self.spec_entries().len(),
            distinct_keys(self.spec_entries()),
    {
        proof {
            use_type_invariant(self);
            lemma_index_is_distinct(slots_of(self.index), self.entries@);
            lemma_map_len(self.entries@);
        }
        self.entries.len()
    }

    /// The alias and the value of the entry at `i`.
    pub fn entry(&self, i: usize) -> (r: (&String, &V))
        requires
            i < self.spec_entries().len(),
        ensures
            r.0@ == self.spec_entries()[i as int].0@,
            *r.1 == self.spec_entries()[i as int].1,
            self@.dom().contains(r.0@),
            self@[r.0@] == *r.1,
    {
        proof {
            use_type_invariant(self);
            lemma_index_is_distinct(slots_of(self.index), self.entries@);
            lemma_key_index(self.entries@, i as int);
        }
        (&self.entries[i].0, &self.entries[i].1)
    }

    /// The entries are those of the map, each alias once.
    pub proof fn lemma_entries(&self)
        requires
            distinct_keys(self.spec_entries()),
        ensures
            self@ == entries_map(self.spec_entries()),
            forall|i: int|
                0 <= i < self.spec_entries().len() ==> self@.dom().contains(
                    (#[trigger] self.spec_entries()[i]).0@,
                ) && self@[self.spec_entries()[i].0@] == self.spec_entries()[i].1,
            forall|k: Seq<char>|
                #[trigger] self@.dom().contains(k) ==> exists|i: int|
                    0 <= i < self.spec_entries().len() && (#[trigger] self.spec_entries()[i]).0@
                        == k,
    {
        assert forall|i: int| 0 <= i < self.entries@.len() implies self@.dom().contains(
            (#[trigger] self.entries@[i]).0@,
        ) && self@[self.entries@[i].0@] == self.entries@[i].1 by {
            lemma_key_index(self.entries@, i);
        }
    }
}

/// The map has as many keys as there are entries.
proof fn lemma_map_len<V>(entries: Seq<(String, V)>)
    requires
        distinct_keys(entries),
    ensures
        entries_map(entries).dom().finite(),
        entries_map(entries).len() == entries.len(),
    decreases entries.len(),
{
    let keys = entries_map(entries).dom();
    if entries.len() == 0 {
        assert(keys =~= Set::<Seq<char>>::empty());
    } else {
        let before = entries.drop_last();
        let last = entries.last().0@;
        lemma_map_len(before);
        let others = entries_map(before).dom();
        assert forall|k: Seq<char>| #[trigger] keys.contains(k) implies others.insert(
            last,
        ).contains(k) by {
            let i = key_index(entries, k);
            if i < before.len() {
                assert(before[i].0@ == k);
            }
        }
        assert forall|k: Seq<char>| #[trigger] others.insert(last).contains(k) implies keys.contains(
            k,
        ) by {
            if others.contains(k) {
                assert(entries[key_index(before, k)].0@ == k);
            } else {
                assert(entries[entries.len() - 1].0@ == k);
            }
        }
        assert(keys =~= others.insert(last));
        if others.contains(last) {
            assert(entries[key_index(before, last)].0@ != entries[entries.len() - 1].0@);
        }
    }
}

proof fn lemma_updated<V>(before: Seq<(String, V)>, i: int, entry: (String, V))
    requires
        distinct_keys(before),
        0 <= i < before.len(),
        entry.0@ == before[i].0@,
    ensures
        distinct_keys(before.update(i, entry)),
        entries_map(before.update(i, entry)) == entries_map(before).insert(entry.0@, entry.1),
{
    let after = before.update(i, entry);
    let key = entry.0@;
    assert forall|a: int, b: int| 0 <= a < b < after.len() implies (#[trigger] after[a]).0@ != (
    #[trigger] after[b]).0@ by {
        assert(before[a].0@ != before[b].0@);
    }
    let m = entries_map(after);
    let n = entries_map(before).insert(key, entry.1);
    assert forall|k: Seq<char>| m.dom().contains(k) == n.dom().contains(k) by {
        if has_key(after, k) {
            let a = key_index(after, k);
            assert(before[a].0@ == k);
        }
        if has_key(before, k) {
            let a = key_index(before, k);
            assert(after[a].0@ == k);
        }
        assert(after[i].0@ == key);
    }
    assert forall|k: Seq<char>| m.dom().contains(k) implies m[k] == n[k] by {
        let a = key_index(after, k);
        lemma_key_index(after, a);
        lemma_key_index(before, a);
        lemma_key_index(after, i);
    }
    assert(m =~= n);
}

proof fn lemma_pushed<V>(before: Seq<(String, V)>, entry: (String, V))
    requires
        distinct_keys(before),
        !has_key(before, entry.0@),
        distinct_keys(before.push(entry)),
    ensures
        entries_map(before.push(entry)) == entries_map(before).insert(entry.0@, entry.1),
{
    let after = before.push(entry);
    let m = entries_map(after);
    let n = entries_map(before).insert(entry.0@, entry.1);
    let last = before.len() as int;
    assert forall|k: Seq<char>| m.dom().contains(k) == n.dom().contains(k) by {
        if has_key(after, k) {
            let a = key_index(after, k);
            if a < last {
                assert(before[a].0@ == k);
            }
        }
        if has_key(before, k) {
            let a = key_index(before, k);
            assert(after[a].0@ == k);
        }
        assert(after[last].0@ == entry.0@);
    }
    assert forall|k: Seq<char>| m.dom().contains(k) implies m[k] == n[k] by {
        let a = key_index(after, k);
        lemma_key_index(after, a);
        lemma_key_index(after, last);
        if a < last {
            lemma_key_index(before, a);
        }
    }
    assert(m =~= n);
}

/// The entries without the one at `i`; the last one takes its place.
pub open spec fn filled_gap<V>(entries: Seq<(String, V)>, i: int) -> Seq<(String, V)> {
    entries.update(i, entries.last()).drop_last()
}

proof fn lemma_removed<V>(before: Seq<(String, V)>, i: int, slots: Map<Seq<char>, usize>)
    requires
        index_matches(slots, before),
        0 <= i < before.len(),
        before.len() <= usize::MAX,
    ensures
        ({
            let after = filled_gap(before, i);
            let left = slots.remove(before[i].0@);
            &&& distinct_keys(after)
            &&& entries_map(after) == entries_map(before).remove(before[i].0@)
            &&& index_matches(
                if i < before.len() - 1 {
                    left.insert(before.last().0@, i as usize)
                } else {
                    left
                },
                after,
            )
        }),
{
    lemma_index_is_distinct(slots, before);
    let after = filled_gap(before, i);
    let last = before.len() - 1;
    let key = before[i].0@;
    let left = slots.remove(key);
    let slots_after = if i < last {
        left.insert(before[last].0@, i as usize)
    } else {
        left
    };
    assert forall|a: int| 0 <= a < after.len() implies slots_after.dom().contains(
        (#[trigger] after[a]).0@,
    ) && slots_after[after[a].0@] == a by {
        let b = if a == i {
            last
        } else {
            a
        };
        assert(after[a] == before[b]);
        lemma_key_index(before, b);
        lemma_key_index(before, i);
        lemma_key_index(before, last);
    }
    assert forall|k: Seq<char>| #[trigger] slots_after.dom().contains(k) implies slots_after[k]
        < after.len() && after[slots_after[k] as int].0@ == k by {
        if i < last && k == before[last].0@ {
            assert(after[i] == before[last]);
        } else {
            let b = slots[k] as int;
            assert(before[b].0@ == k);
            assert(b != i);
            assert(b != last);
            assert(after[b] == before[b]);
        }
    }
    lemma_index_is_distinct(slots_after, after);
    let m = entries_map(after);
    let n = entries_map(before).remove(key);
    assert forall|k: Seq<char>| m.dom().contains(k) == n.dom().contains(k) by {
        if has_key(after, k) {
            let a = key_index(after, k);
            let b = if a == i {
                last
            } else {
                a
            };
            assert(after[a] == before[b]);
            lemma_key_index(before, b);
            lemma_key_index(before, i);
        }
        if has_key(before, k) && k != key {
            let b = key_index(before, k);
            let a = if b == last {
                i
            } else {
                b
            };
            assert(after[a] == before[b]);
            assert(after[a].0@ == k);
        }
    }
    assert forall|k: Seq<char>| m.dom().contains(k) implies m[k] == n[k] by {
        let a = key_index(after, k);
        let b = if a == i {
            last
        } else {
            a
        };
        assert(after[a] == before[b]);
        lemma_key_index(after, a);
        lemma_key_index(before, b);
    }
    assert(m =~= n);
}

proof fn lemma_index_is_distinct<V>(slots: Map<Seq<char>, usize>, entries: Seq<(String, V)>)
    requires
        index_matches(slots, entries),
    ensures
        distinct_keys(entries),
        forall|k: Seq<char>| #[trigger] has_key(entries, k) == slots.dom().contains(k),
{
    assert forall|k: Seq<char>| #[trigger] has_key(entries, k) == slots.dom().contains(k) by {
        if slots.dom().contains(k) {
            assert(entries[slots[k] as int].0@ == k);
        }
    }
}

} // verus!
