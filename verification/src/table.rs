//! A map that keeps its entries in the order of their first insertion.
use vstd::prelude::*;
use crate::text::same_text;

verus! {

/// A type whose values can be told apart.
pub trait Key: View + Sized {
    /// Tests whether two keys are the same.
    fn same(&self, other: &Self) -> (same: bool)
        ensures
            same == (self@ == other@),
    ;
}

impl Key for String {
    fn same(&self, other: &Self) -> (same: bool) {
        same_text(self.as_str(), other.as_str())
    }
}

/// The position of the first entry with the key `key`; the length of the list where there
/// is none.
pub open spec fn position<I, V>(list: Seq<(I, V)>, key: I) -> int
    decreases list.len(),
{
    if list.len() == 0 {
        0
    } else if list[0].0 == key {
        0
    } else {
        1 + position(list.drop_first(), key)
    }
}

/// Whether no key occurs twice.
pub open spec fn distinct_keys<I, V>(list: Seq<(I, V)>) -> bool {
    forall|i: int, j: int|
        0 <= i < j < list.len() ==> (#[trigger] list[i]).0 != (#[trigger] list[j]).0
}

/// The map that a list of entries stands for.
pub open spec fn listing_map<I, V>(list: Seq<(I, V)>) -> Map<I, V> {
    Map::new(
        |key: I| position(list, key) < list.len(),
        |key: I| list[position(list, key)].1,
    )
}

/// The list after the value `value` has been stored under `key`: in place where the key is
/// there, else at the end.
pub open spec fn stored<I, V>(list: Seq<(I, V)>, key: I, value: V) -> Seq<(I, V)> {
    let at = position(list, key);
    if at < list.len() {
        list.update(at, (key, value))
    } else {
        list.push((key, value))
    }
}

/// `position` is the first position of the key.
pub proof fn lemma_position<I, V>(list: Seq<(I, V)>, key: I)
    ensures
        0 <= position(list, key) <= list.len(),
        position(list, key) < list.len() ==> list[position(list, key)].0 == key,
        forall|i: int| 0 <= i < position(list, key) ==> (#[trigger] list[i]).0 != key,
    decreases list.len(),
{
    if list.len() > 0 && list[0].0 != key {
        let rest = list.drop_first();
        lemma_position(rest, key);
        assert forall|i: int| 0 <= i < position(list, key) implies (#[trigger] list[i]).0
            != key by {
            if i > 0 {
                assert(rest[i - 1].0 != key);
            }
        }
    }
}

/// A position before which the key does not occur, and at which it does, is its position.
pub proof fn lemma_position_is<I, V>(list: Seq<(I, V)>, key: I, at: int)
    requires
        0 <= at <= list.len(),
        forall|i: int| 0 <= i < at ==> (#[trigger] list[i]).0 != key,
        at < list.len() ==> list[at].0 == key,
    ensures
        position(list, key) == at,
{
    lemma_position(list, key);
    let p = position(list, key);
    if p < at {
        assert(list[p].0 != key);
    }
    if at < p {
        assert(list[at].0 != key);
    }
}

/// Where a key is found after a value has been stored.
proof fn lemma_stored_at<I, V>(list: Seq<(I, V)>, key: I, value: V, k: I)
    ensures
        ({
            let after = stored(list, key, value);
            let p = position(after, k);
            if k == key {
                p < after.len() && after[p].1 == value
            } else {
                &&& p < after.len() <==> position(list, k) < list.len()
                &&& p < after.len() ==> after[p].1 == list[position(list, k)].1
            }
        }),
{
    let at = position(list, key);
    let after = stored(list, key, value);
    lemma_position(list, key);
    lemma_position(list, k);
    let p = position(list, k);
    if k == key {
        assert forall|i: int| 0 <= i < at implies (#[trigger] after[i]).0 != k by {
            assert(list[i].0 != k);
        }
        lemma_position_is(after, k, at);
    } else if p < list.len() {
        assert forall|i: int| 0 <= i < p implies (#[trigger] after[i]).0 != k by {
            assert(list[i].0 != k);
        }
        lemma_position_is(after, k, p);
    } else {
        assert forall|i: int| 0 <= i < after.len() implies (#[trigger] after[i]).0 != k by {
            if i < list.len() {
                assert(list[i].0 != k);
            }
        }
        lemma_position_is(after, k, after.len() as int);
    }
}

/// Storing a value changes the map at its key only, and keeps the keys distinct.
pub proof fn lemma_stored<I, V>(list: Seq<(I, V)>, key: I, value: V)
    ensures
        listing_map(stored(list, key, value)) == listing_map(list).insert(key, value),
        distinct_keys(list) ==> distinct_keys(stored(list, key, value)),
{
    let after = stored(list, key, value);
    lemma_position(list, key);
    let left = listing_map(after);
    let right = listing_map(list).insert(key, value);
    assert forall|k: I| #[trigger] left.dom().contains(k) == right.dom().contains(k) by {
        lemma_stored_at(list, key, value, k);
    }
    assert forall|k: I| left.dom().contains(k) implies #[trigger] left[k] == right[k] by {
        lemma_stored_at(list, key, value, k);
    }
    assert(left =~= right);
    if distinct_keys(list) {
        assert forall|i: int, j: int| 0 <= i < j < after.len() implies (#[trigger] after[i]).0 != (
        #[trigger] after[j]).0 by {
            if j < list.len() {
                assert(list[i].0 != list[j].0);
            } else {
                assert(list[i].0 != key);
            }
        }
    }
}

/// A map with entries in the order of their first insertion; no key occurs twice.
pub struct Table<K: Key, V> {
    entries: Vec<(K, V)>,
}

impl<K: Key, V> View for Table<K, V> {
    type V = Map<K::V, V>;

    open spec fn view(&self) -> Map<K::V, V> {
        listing_map(self.listing())
    }
}

impl<K: Key, V> Table<K, V> {
    /// The entries in order.
    pub closed spec fn listing(&self) -> Seq<(K::V, V)> {
        Seq::new(self.entries@.len(), |i: int| (self.entries@[i].0@, self.entries@[i].1))
    }

    #[verifier::type_invariant]
    spec fn keys_distinct(self) -> bool {
        distinct_keys(self.listing())
    }

    /// An empty map.
    pub fn new() -> (table: Self)
        ensures
            table.listing() == Seq::<(K::V, V)>::empty(),
            table@ == Map::<K::V, V>::empty(),
    {
        let table = Self { entries: Vec::new() };
        assert(table.listing() =~= Seq::<(K::V, V)>::empty());
        assert(listing_map(table.listing()) =~= Map::<K::V, V>::empty());
        table
    }

    /// The number of entries.
    pub fn len(&self) -> (count: usize)
        ensures
            count == self.listing().len(),
    {
        self.entries.len()
    }

    /// The entry at a place; its key stands at no other place.
    pub fn entry(&self, at: usize) -> (entry: &(K, V))
        requires
            at < self.listing().len(),
        ensures
            (entry.0@, entry.1) == self.listing()[at as int],
            distinct_keys(self.listing()),
    {
        proof {
            use_type_invariant(self);
        }
        &self.entries[at]
    }

    /// The position of a key.
    fn find(&self, key: &K) -> (at: usize)
        ensures
            at == position(self.listing(), key@),
            at <= self.listing().len(),
    {
        let mut i: usize = 0;
        while i < self.entries.len()
            invariant
                i <= self.entries@.len(),
                self.listing().len() == self.entries@.len(),
                forall|j: int| 0 <= j < i ==> (#[trigger] self.listing()[j]).0 != key@,
            decreases self.entries@.len() - i,
        {
            if self.entries[i].0.same(key) {
                proof {
                    lemma_position_is(self.listing(), key@, i as int);
                }
                return i;
            }
            i += 1;
        }
        proof {
            lemma_position_is(self.listing(), key@, i as int);
        }
        i
    }

    /// The value stored under a key.
    pub fn get(&self, key: &K) -> (value: Option<&V>)
        ensures
            match value {
                Some(found) => self@.contains_key(key@) && *found == self@[key@],
                None => !self@.contains_key(key@),
            },
    {
        let at = self.find(key);
        if at < self.entries.len() {
            Some(&self.entries[at].1)
        } else {
            None
        }
    }

    /// Stores a value under a key, in place of the value that was there.
    pub fn insert(&mut self, key: K, value: V)
        ensures
            final(self).listing() == stored(old(self).listing(), key@, value),
            final(self)@ == old(self)@.insert(key@, value),
    {
        proof {
            use_type_invariant(&*self);
            lemma_stored(self.listing(), key@, value);
        }
        let at = self.find(&key);
        let ghost before = self.listing();
        let ghost id = key@;
        let mut list: Vec<(K, V)> = Vec::new();
        std::mem::swap(&mut list, &mut self.entries);
        if at < list.len() {
            list.set(at, (key, value));
        } else {
            list.push((key, value));
        }
        let ghost after = Seq::new(list@.len(), |i: int| (list@[i].0@, list@[i].1));
        assert(after =~= stored(before, id, value));
        self.entries = list;
    }
}

/// A key is found exactly where some entry has it, with the value of the first such entry.
pub proof fn law_first_entry_is_found<I, V>(list: Seq<(I, V)>, key: I, at: int)
    ensures
        listing_map(list).contains_key(key) <==> exists|i: int|
            0 <= i < list.len() && (#[trigger] list[i]).0 == key,
        0 <= at < list.len() && list[at].0 == key && (forall|i: int|
            0 <= i < at ==> (#[trigger] list[i]).0 != key) ==> listing_map(list)[key]
            == list[at].1,
{
    lemma_position(list, key);
    if exists|i: int| 0 <= i < list.len() && (#[trigger] list[i]).0 == key {
        let i = choose|i: int| 0 <= i < list.len() && (#[trigger] list[i]).0 == key;
        if position(list, key) == list.len() {
            assert(list[i].0 != key);
        }
    }
    if 0 <= at < list.len() && list[at].0 == key && (forall|i: int|
        0 <= i < at ==> (#[trigger] list[i]).0 != key) {
        lemma_position_is(list, key, at);
    }
}

/// A value is stored in the place of its key, or at the end where the key is new; every other
/// entry stays where it is.
pub proof fn law_entries_keep_their_places<I, V>(list: Seq<(I, V)>, key: I, value: V, at: int)
    requires
        0 <= at <= list.len(),
        forall|i: int| 0 <= i < at ==> (#[trigger] list[i]).0 != key,
        at < list.len() ==> list[at].0 == key,
    ensures
        stored(list, key, value).len() == (if at < list.len() {
            list.len()
        } else {
            list.len() + 1
        }),
        stored(list, key, value)[at] == (key, value),
        forall|i: int|
            0 <= i < list.len() && i != at ==> #[trigger] stored(list, key, value)[i] == list[i],
{
    lemma_position_is(list, key, at);
}

} // verus!
