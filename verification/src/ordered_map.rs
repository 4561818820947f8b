//! A map from words to values, kept as a list of entries in ascending key order.
//!
//! No key occurs twice and the entries are strictly ascending, so a map has
//! exactly one representation and walking it by index visits the keys in order.

use vstd::prelude::*;
use crate::primitives::Word;

verus! {

/// Whether the keys of `entries` are strictly ascending.
pub open spec fn strictly_ascending<K: Word, V>(entries: Seq<(K, V)>) -> bool {
    forall|i: int, j: int|
        0 <= i < j < entries.len() ==> (#[trigger] entries[i]).0.value() < (#[trigger] entries[j]).0.value()
}

/// Whether some entry of `entries` has the key `key`.
pub open spec fn has_key<K: Word, V>(entries: Seq<(K, V)>, key: K) -> bool {
    exists|i: int| 0 <= i < entries.len() && (#[trigger] entries[i]).0 == key
}

/// The index of an entry of `entries` with the key `key`.
pub open spec fn index_of_key<K: Word, V>(entries: Seq<(K, V)>, key: K) -> int {
    choose|i: int| 0 <= i < entries.len() && (#[trigger] entries[i]).0 == key
}

/// The map that a list of entries stands for.
pub open spec fn entries_to_map<K: Word, V>(entries: Seq<(K, V)>) -> Map<K, V> {
    Map::new(
        |key: K| has_key(entries, key),
        |key: K| entries[index_of_key(entries, key)].1,
    )
}

/// In an ascending list each entry is what the map holds for its key.
pub proof fn lemma_entry_is_mapped<K: Word, V>(entries: Seq<(K, V)>, i: int)
    requires
        strictly_ascending(entries),
        0 <= i < entries.len(),
    ensures
        entries_to_map(entries).contains_key(entries[i].0),
        entries_to_map(entries)[entries[i].0] == entries[i].1,
        index_of_key(entries, entries[i].0) == i,
{
    let key = entries[i].0;
    assert(has_key(entries, key));
    let j = index_of_key(entries, key);
    assert(0 <= j < entries.len() && entries[j].0 == key);
    if j < i {
        assert(entries[j].0.value() < entries[i].0.value());
    } else if i < j {
        assert(entries[i].0.value() < entries[j].0.value());
    }
}

/// Each key of the map is the key of exactly one entry of an ascending list.
pub proof fn lemma_mapped_has_entry<K: Word, V>(entries: Seq<(K, V)>, key: K)
    requires
        strictly_ascending(entries),
        entries_to_map(entries).contains_key(key),
    ensures
        0 <= index_of_key(entries, key) < entries.len(),
        entries[index_of_key(entries, key)].0 == key,
        entries[index_of_key(entries, key)].1 == entries_to_map(entries)[key],
{
    assert(has_key(entries, key));
}

/// Two ascending lists that stand for the same map are the same list.
pub proof fn lemma_ascending_is_canonical<K: Word, V>(a: Seq<(K, V)>, b: Seq<(K, V)>, i: int)
    requires
        strictly_ascending(a),
        strictly_ascending(b),
        entries_to_map(a) == entries_to_map(b),
        0 <= i < a.len(),
    ensures
        i < b.len(),
        a[i] == b[i],
    decreases i,
{
    // Every earlier entry agrees.
    assert forall|j: int| 0 <= j < i implies j < b.len() && a[j] == b[j] by {
        lemma_ascending_is_canonical(a, b, j);
    }
    lemma_entry_is_mapped(a, i);
    let key = a[i].0;
    lemma_mapped_has_entry(b, key);
    let at = index_of_key(b, key);
    if at < i {
        // b[at] == a[at], whose key is below a[i]'s.
        assert(a[at] == b[at]);
        assert(a[at].0.value() < a[i].0.value());
    } else if at > i {
        // b[i] lies below the key in b, so a holds it at an earlier place.
        lemma_entry_is_mapped(b, i);
        lemma_mapped_has_entry(a, b[i].0);
        let back = index_of_key(a, b[i].0);
        assert(b[i].0.value() < b[at].0.value());
        if back < i {
            assert(a[back] == b[back]);
            assert(b[back].0.value() < b[i].0.value());
        } else if back > i {
            assert(a[i].0.value() < a[back].0.value());
        }
        K::value_is_injective(a[back].0, a[i].0);
    }
    lemma_entry_is_mapped(b, at);
}

/// Whether `built` holds of `target` exactly what belongs to the first `count` entries.
///
/// This is what a walk over the entries of a map has built after `count`
/// entries, when it builds a map `target` whose keys are keys of the map walked.
pub open spec fn built_upto<K: Word, V, W>(
    built: Map<K, W>,
    entries: Seq<(K, V)>,
    count: int,
    target: Map<K, W>,
) -> bool {
    &&& forall|key: K| #[trigger]
        built.contains_key(key) <==> target.contains_key(key) && index_of_key(entries, key) < count
    &&& forall|key: K| #[trigger] built.contains_key(key) ==> built[key] == target[key]
}

/// One more entry walked: its key is added with the target's value where the
/// target holds it, and left out where it does not.
pub proof fn lemma_built_step<K: Word, V, W>(
    built: Map<K, W>,
    entries: Seq<(K, V)>,
    count: int,
    target: Map<K, W>,
)
    requires
        strictly_ascending(entries),
        0 <= count < entries.len(),
        forall|key: K| #[trigger] target.contains_key(key) ==> has_key(entries, key),
        built_upto(built, entries, count, target),
    ensures
        target.contains_key(entries[count].0) ==> built_upto(
            built.insert(entries[count].0, target[entries[count].0]),
            entries,
            count + 1,
            target,
        ),
        !target.contains_key(entries[count].0) ==> built_upto(built, entries, count + 1, target),
{
    let here = entries[count].0;
    lemma_entry_is_mapped(entries, count);
    let next = if target.contains_key(here) {
        built.insert(here, target[here])
    } else {
        built
    };
    assert forall|key: K| #[trigger]
        next.contains_key(key) <==> target.contains_key(key) && index_of_key(entries, key) < count + 1 by {
        if target.contains_key(key) {
            assert(has_key(entries, key));
            let at = index_of_key(entries, key);
            assert(entries[at].0 == key);
        }
    }
}

/// All entries walked: what was built is the target.
pub proof fn lemma_built_all<K: Word, V, W>(built: Map<K, W>, entries: Seq<(K, V)>, target: Map<K, W>)
    requires
        forall|key: K| #[trigger] target.contains_key(key) ==> has_key(entries, key),
        built_upto(built, entries, entries.len() as int, target),
    ensures
        built == target,
{
    assert forall|key: K| target.contains_key(key) implies built.contains_key(key) by {
        assert(has_key(entries, key));
    }
    assert(built =~= target);
}

/// A map from words to values with its entries held in ascending key order.
#[derive(Debug, PartialEq, Eq)]
pub struct OrderedMap<K: Word, V> {
    entries: Vec<(K, V)>,
}

impl<K: Word, V> View for OrderedMap<K, V> {
    type V = Map<K, V>;

    open spec fn view(&self) -> Map<K, V> {
        entries_to_map(self.entries())
    }
}

impl<K: Word, V> OrderedMap<K, V> {
    #[verifier::type_invariant]
    spec fn ascending(self) -> bool {
        strictly_ascending(self.entries@)
    }

    /// The entries of the map, in ascending key order.
    pub closed spec fn entries(&self) -> Seq<(K, V)> {
        self.entries@
    }

    /// The empty map.
    pub fn new() -> (map: Self)
        ensures
            map.entries() == Seq::<(K, V)>::empty(),
            map@ == Map::<K, V>::empty(),
    {
        let map = OrderedMap { entries: Vec::new() };
        assert(map@ =~= Map::<K, V>::empty());
        map
    }

    /// The number of entries. Every map that exists is in ascending order.
    pub fn len(&self) -> (len: usize)
        ensures
            len == self.entries().len(),
            strictly_ascending(self.entries()),
    {
        proof {
            use_type_invariant(self);
        }
        self.entries.len()
    }

    /// The key of the entry at place `i` of the ascending order.
    pub fn key_at(&self, i: usize) -> (key: K)
        requires
            i < self.entries().len(),
        ensures
            key == self.entries()[i as int].0,
            self@.contains_key(key),
    {
        proof {
            use_type_invariant(self);
            lemma_entry_is_mapped(self.entries@, i as int);
        }
        self.entries[i].0
    }

    /// The value of the entry at place `i` of the ascending order.
    pub fn value_at(&self, i: usize) -> (value: &V)
        requires
            i < self.entries().len(),
        ensures
            *value == self.entries()[i as int].1,
            *value == self@[self.entries()[i as int].0],
    {
        proof {
            use_type_invariant(self);
            lemma_entry_is_mapped(self.entries@, i as int);
        }
        &self.entries[i].1
    }

    /// The first place whose key is not below `key`, and whether `key` stands there.
    fn search(&self, key: &K) -> (found: (usize, bool))
        ensures
            found.0 <= self.entries().len(),
            forall|j: int| 0 <= j < found.0 ==> (#[trigger] self.entries()[j]).0.value() < key.value(),
            forall|j: int|
                found.0 <= j < self.entries().len() ==> key.value() <= (#[trigger] self.entries()[j]).0.value(),
            found.1 == (found.0 < self.entries().len() && self.entries()[found.0 as int].0 == *key),
            found.1 == self@.contains_key(*key),
    {
        proof {
            use_type_invariant(self);
        }
        let mut lo: usize = 0;
        let mut hi: usize = self.entries.len();
        while lo < hi
            invariant
                lo <= hi <= self.entries@.len(),
                strictly_ascending(self.entries@),
                forall|j: int| 0 <= j < lo ==> (#[trigger] self.entries@[j]).0.value() < key.value(),
                forall|j: int| hi <= j < self.entries@.len() ==> key.value() <= (#[trigger] self.entries@[j]).0.value(),
            decreases hi - lo,
        {
            let mid: usize = lo + (hi - lo) / 2;
            if self.entries[mid].0.is_below(key) {
                lo = mid + 1;
            } else {
                hi = mid;
            }
        }
        let here = lo < self.entries.len() && self.entries[lo].0.is_same(key);
        proof {
            if here {
                lemma_entry_is_mapped(self.entries@, lo as int);
            } else if self@.contains_key(*key) {
                lemma_mapped_has_entry(self.entries@, *key);
                let at = index_of_key(self.entries@, *key);
                if at > lo {
                    assert(self.entries@[lo as int].0.value() < self.entries@[at].0.value());
                    K::value_is_injective(self.entries@[lo as int].0, *key);
                }
            }
        }
        (lo, here)
    }

    /// Whether the map holds `key`.
    pub fn contains_key(&self, key: &K) -> (held: bool)
        ensures
            held == self@.contains_key(*key),
    {
        self.search(key).1
    }

    /// The value that the map holds for `key`, if it holds one.
    pub fn get(&self, key: &K) -> (value: Option<&V>)
        ensures
            match value {
                Some(v) => self@.contains_key(*key) && *v == self@[*key],
                None => !self@.contains_key(*key),
            },
    {
        let (at, here) = self.search(key);
        if here {
            proof {
                use_type_invariant(self);
                lemma_entry_is_mapped(self.entries@, at as int);
            }
            Some(&self.entries[at].1)
        } else {
            None
        }
    }

    /// Sets the value for `key`, replacing the one that the map held for it.
    pub fn insert(&mut self, key: K, value: V)
        ensures
            final(self)@ == old(self)@.insert(key, value),
    {
        proof {
            use_type_invariant(&*self);
        }
        let (at, here) = self.search(&key);
        let ghost before = self.entries@;
        let mut entries: Vec<(K, V)> = Vec::new();
        std::mem::swap(&mut self.entries, &mut entries);
        if here {
            entries[at] = (key, value);
            proof {
                assert(entries@ == before.update(at as int, (before[at as int].0, value)));
                lemma_replace_is_insert(before, at as int, value);
            }
        } else {
            entries.insert(at, (key, value));
            proof {
                lemma_place_is_insert(before, at as int, key, value);
            }
        }
        self.entries = entries;
    }

    /// Takes the entry for `key` out of the map and returns its value.
    pub fn remove(&mut self, key: &K) -> (value: Option<V>)
        ensures
            final(self)@ == old(self)@.remove(*key),
            match value {
                Some(v) => old(self)@.contains_key(*key) && v == old(self)@[*key],
                None => !old(self)@.contains_key(*key),
            },
    {
        proof {
            use_type_invariant(&*self);
        }
        let (at, here) = self.search(key);
        let ghost before = self.entries@;
        if here {
            let mut entries: Vec<(K, V)> = Vec::new();
            std::mem::swap(&mut self.entries, &mut entries);
            let entry = entries.remove(at);
            proof {
                lemma_entry_is_mapped(before, at as int);
                lemma_drop_is_remove(before, at as int);
            }
            self.entries = entries;
            Some(entry.1)
        } else {
            assert(self@ =~= old(self)@.remove(*key));
            None
        }
    }
}

impl<K: Word, V: Word> OrderedMap<K, V> {
    /// Whether the two maps hold the same values for the same keys.
    pub fn same_as(&self, other: &Self) -> (same: bool)
        ensures
            same == (self@ == other@),
    {
        proof {
            use_type_invariant(self);
            use_type_invariant(other);
        }
        if self.entries.len() != other.entries.len() {
            proof {
                if self@ == other@ {
                    if self.entries@.len() > other.entries@.len() {
                        lemma_ascending_is_canonical(self.entries@, other.entries@, self.entries@.len() - 1);
                    } else {
                        lemma_ascending_is_canonical(other.entries@, self.entries@, other.entries@.len() - 1);
                    }
                }
            }
            return false;
        }
        let mut at: usize = 0;
        while at < self.entries.len()
            invariant
                self.entries@.len() == other.entries@.len(),
                strictly_ascending(self.entries@),
                strictly_ascending(other.entries@),
                at <= self.entries@.len(),
                forall|i: int| 0 <= i < at ==> self.entries@[i] == other.entries@[i],
            decreases self.entries@.len() - at,
        {
            let same_key = self.entries[at].0.is_same(&other.entries[at].0);
            let same_value = self.entries[at].1.is_same(&other.entries[at].1);
            if !(same_key && same_value) {
                proof {
                    if self@ == other@ {
                        lemma_ascending_is_canonical(self.entries@, other.entries@, at as int);
                    }
                }
                return false;
            }
            at += 1;
        }
        assert(self.entries@ =~= other.entries@);
        true
    }
}

impl<K: Word, V: Copy> Clone for OrderedMap<K, V> {
    /// A map with the same entries.
    fn clone(&self) -> (copy: Self)
        ensures
            copy.entries() == self.entries(),
            copy@ == self@,
    {
        proof {
            use_type_invariant(self);
        }
        let mut entries: Vec<(K, V)> = Vec::new();
        let mut at: usize = 0;
        while at < self.entries.len()
            invariant
                at <= self.entries@.len(),
                entries@ == self.entries@.subrange(0, at as int),
            decreases self.entries@.len() - at,
        {
            let entry = self.entries[at];
            entries.push(entry);
            assert(entries@ =~= self.entries@.subrange(0, at as int + 1));
            at += 1;
        }
        assert(entries@ =~= self.entries@);
        OrderedMap { entries }
    }
}

/// Replacing the value of the entry at place `at` sets the value for its key.
proof fn lemma_replace_is_insert<K: Word, V>(before: Seq<(K, V)>, at: int, value: V)
    requires
        strictly_ascending(before),
        0 <= at < before.len(),
    ensures
        strictly_ascending(before.update(at, (before[at].0, value))),
        entries_to_map(before.update(at, (before[at].0, value))) == entries_to_map(before).insert(
            before[at].0,
            value,
        ),
{
    let key = before[at].0;
    let after = before.update(at, (key, value));
    assert forall|i: int, j: int| 0 <= i < j < after.len() implies (#[trigger] after[i]).0.value() < (
    #[trigger] after[j]).0.value() by {
        assert(before[i].0.value() < before[j].0.value());
    }
    let left = entries_to_map(after);
    let right = entries_to_map(before).insert(key, value);
    assert forall|k: K| left.contains_key(k) <==> right.contains_key(k) by {
        if left.contains_key(k) {
            let i = index_of_key(after, k);
            assert(before[i].0 == k);
        }
        if right.contains_key(k) {
            if k == key {
                assert(after[at].0 == k);
            } else {
                let i = index_of_key(before, k);
                assert(after[i].0 == k);
            }
        }
    }
    assert forall|k: K| left.contains_key(k) implies left[k] == right[k] by {
        lemma_mapped_has_entry(after, k);
        let i = index_of_key(after, k);
        lemma_entry_is_mapped(before, i);
    }
    assert(left =~= right);
}

/// Placing a new key where the order wants it sets the value for that key.
proof fn lemma_place_is_insert<K: Word, V>(before: Seq<(K, V)>, at: int, key: K, value: V)
    requires
        strictly_ascending(before),
        0 <= at <= before.len(),
        forall|j: int| 0 <= j < at ==> (#[trigger] before[j]).0.value() < key.value(),
        forall|j: int| at <= j < before.len() ==> key.value() <= (#[trigger] before[j]).0.value(),
        !entries_to_map(before).contains_key(key),
    ensures
        strictly_ascending(before.insert(at, (key, value))),
        entries_to_map(before.insert(at, (key, value))) == entries_to_map(before).insert(key, value),
{
    let after = before.insert(at, (key, value));
    assert forall|j: int| at <= j < before.len() implies key.value() < (#[trigger] before[j]).0.value() by {
        if key.value() == before[j].0.value() {
            K::value_is_injective(key, before[j].0);
            assert(has_key(before, key));
        }
    }
    assert forall|i: int, j: int| 0 <= i < j < after.len() implies (#[trigger] after[i]).0.value() < (
    #[trigger] after[j]).0.value() by {
        if i < at && j > at {
            assert(before[i].0.value() < before[j - 1].0.value());
        } else if i > at {
            assert(before[i - 1].0.value() < before[j - 1].0.value());
        } else if j < at {
            assert(before[i].0.value() < before[j].0.value());
        } else if i == at {
            assert(key.value() < before[j - 1].0.value());
        } else {
            assert(before[i].0.value() < key.value());
        }
    }
    let left = entries_to_map(after);
    let right = entries_to_map(before).insert(key, value);
    assert forall|k: K| left.contains_key(k) <==> right.contains_key(k) by {
        if left.contains_key(k) {
            let i = index_of_key(after, k);
            if i < at {
                assert(before[i].0 == k);
            } else if i > at {
                assert(before[i - 1].0 == k);
            }
        }
        if right.contains_key(k) {
            if k == key {
                assert(after[at].0 == k);
            } else {
                let i = index_of_key(before, k);
                if i < at {
                    assert(after[i].0 == k);
                } else {
                    assert(after[i + 1].0 == k);
                }
            }
        }
    }
    assert forall|k: K| left.contains_key(k) implies left[k] == right[k] by {
        lemma_mapped_has_entry(after, k);
        let i = index_of_key(after, k);
        if i < at {
            lemma_entry_is_mapped(before, i);
        } else if i > at {
            lemma_entry_is_mapped(before, i - 1);
        }
    }
    assert(left =~= right);
}

/// Dropping the entry at place `at` removes its key.
proof fn lemma_drop_is_remove<K: Word, V>(before: Seq<(K, V)>, at: int)
    requires
        strictly_ascending(before),
        0 <= at < before.len(),
    ensures
        strictly_ascending(before.remove(at)),
        entries_to_map(before.remove(at)) == entries_to_map(before).remove(before[at].0),
{
    let key = before[at].0;
    let after = before.remove(at);
    assert forall|i: int, j: int| 0 <= i < j < after.len() implies (#[trigger] after[i]).0.value() < (
    #[trigger] after[j]).0.value() by {
        let from_i = if i < at { i } else { i + 1 };
        let from_j = if j < at { j } else { j + 1 };
        assert(before[from_i].0.value() < before[from_j].0.value());
    }
    let left = entries_to_map(after);
    let right = entries_to_map(before).remove(key);
    assert forall|k: K| left.contains_key(k) <==> right.contains_key(k) by {
        if left.contains_key(k) {
            let i = index_of_key(after, k);
            let from = if i < at { i } else { i + 1 };
            assert(before[from].0 == k);
            if from < at {
                assert(before[from].0.value() < before[at].0.value());
            } else {
                assert(before[at].0.value() < before[from].0.value());
            }
        }
        if right.contains_key(k) {
            let i = index_of_key(before, k);
            if i < at {
                assert(after[i].0 == k);
            } else {
                assert(after[i - 1].0 == k);
            }
        }
    }
    assert forall|k: K| left.contains_key(k) implies left[k] == right[k] by {
        lemma_mapped_has_entry(after, k);
        let i = index_of_key(after, k);
        let from = if i < at { i } else { i + 1 };
        lemma_entry_is_mapped(before, from);
    }
    assert(left =~= right);
}

} // verus!
