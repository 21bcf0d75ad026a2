//! A small map that keeps its entries in a vector, one per key.
use crate::time::{elapsed, ms_nanos, Instant};
use vstd::prelude::*;

verus! {

/// A key that can be compared for equality.
pub trait MapKey: Sized {
    fn same_key(&self, other: &Self) -> (r: bool)
        ensures
            r == (*self == *other),
    ;
}

impl MapKey for u32 {
    fn same_key(&self, other: &Self) -> (r: bool) {
        *self == *other
    }
}

impl MapKey for (i32, i32) {
    fn same_key(&self, other: &Self) -> (r: bool) {
        self.0 == other.0 && self.1 == other.1
    }
}

impl MapKey for (u32, i32, i32) {
    fn same_key(&self, other: &Self) -> (r: bool) {
        self.0 == other.0 && self.1 == other.1 && self.2 == other.2
    }
}

/// A value that goes stale.
pub trait Perishable {
    /// Whether the value still counts at `now`, given a lifetime of `ttl_ms`.
    spec fn fresh(&self, now: Instant, ttl_ms: u64) -> bool;

    fn is_fresh(&self, now: Instant, ttl_ms: u64) -> (r: bool)
        ensures
            r == self.fresh(now, ttl_ms),
    ;
}

/// A moment of observation: fresh while it is younger than its lifetime.
impl Perishable for Instant {
    open spec fn fresh(&self, now: Instant, ttl_ms: u64) -> bool {
        elapsed(now, *self) < ms_nanos(ttl_ms as int)
    }

    fn is_fresh(&self, now: Instant, ttl_ms: u64) -> (r: bool) {
        now.within_ms(*self, ttl_ms)
    }
}

/// The entries of `m` that are fresh at `now`.
pub open spec fn fresh_part<K, V: Perishable>(m: Map<K, V>, now: Instant, ttl_ms: u64) -> Map<K, V> {
    m.restrict(Set::new(|k: K| m.contains_key(k) && m[k].fresh(now, ttl_ms)))
}

/// A finite map with one entry per key.
#[derive(Debug)]
pub struct KeyedMap<K, V> {
    entries: Vec<(K, V)>,
}

/// No key occurs twice.
pub open spec fn distinct_keys<K, V>(s: Seq<(K, V)>) -> bool {
    forall|i: int, j: int| 0 <= i < j < s.len() ==> #[trigger] s[i].0 != #[trigger] s[j].0
}

/// The map that a list of entries stands for.
pub open spec fn entries_map<K, V>(s: Seq<(K, V)>) -> Map<K, V> {
    Map::new(
        |k: K| exists|i: int| 0 <= i < s.len() && #[trigger] s[i].0 == k,
        |k: K| s[choose|i: int| 0 <= i < s.len() && #[trigger] s[i].0 == k].1,
    )
}

/// With distinct keys, an entry's key maps to that entry's value.
proof fn lemma_entry<K, V>(s: Seq<(K, V)>, i: int)
    requires
        distinct_keys(s),
        0 <= i < s.len(),
    ensures
        entries_map(s).contains_key(s[i].0),
        entries_map(s)[s[i].0] == s[i].1,
{
    let j = choose|j: int| 0 <= j < s.len() && #[trigger] s[j].0 == s[i].0;
    assert(i == j);
}

impl<K, V> KeyedMap<K, V> {
    #[verifier::type_invariant]
    spec fn wf(self) -> bool {
        distinct_keys(self.entries@)
    }

    /// The entries in the order in which they are held.
    pub closed spec fn entry_seq(&self) -> Seq<(K, V)> {
        self.entries@
    }
}

impl<K, V> View for KeyedMap<K, V> {
    type V = Map<K, V>;

    closed spec fn view(&self) -> Map<K, V> {
        entries_map(self.entries@)
    }
}

impl<K: Copy, V: Copy> Clone for KeyedMap<K, V> {
    fn clone(&self) -> (r: Self)
        ensures
            r@ == self@,
            r.entry_seq() == self.entry_seq(),
    {
        proof {
            use_type_invariant(self);
        }
        KeyedMap { entries: vstd::slice::slice_to_vec(self.entries.as_slice()) }
    }
}

impl<K, V> Default for KeyedMap<K, V> {
    fn default() -> (r: Self)
        ensures
            r@ == Map::<K, V>::empty(),
    {
        KeyedMap::new()
    }
}

impl<K, V> KeyedMap<K, V> {
    pub fn new() -> (r: Self)
        ensures
            r@ == Map::<K, V>::empty(),
    {
        let r: KeyedMap<K, V> = KeyedMap { entries: Vec::new() };
        assert(r@ =~= Map::<K, V>::empty());
        r
    }

    /// The number of keys.
    pub fn len(&self) -> (n: usize)
        ensures
            n == self@.dom().len(),
            self@.dom().finite(),
            n == self.entry_seq().len(),
            forall|i: int|
                0 <= i < n ==> self@.contains_key((#[trigger] self.entry_seq()[i]).0)
                    && self@[self.entry_seq()[i].0] == self.entry_seq()[i].1,
            forall|k: K| #[trigger]
                self@.contains_key(k) ==> exists|i: int|
                    0 <= i < n && (#[trigger] self.entry_seq()[i]).0 == k,
    {
        proof {
            use_type_invariant(self);
            let s = self.entries@;
            lemma_key_count(s);
            assert forall|i: int| 0 <= i < s.len() implies self@.contains_key((#[trigger] s[i]).0)
                && self@[s[i].0] == s[i].1 by {
                lemma_entry(s, i);
            }
        }
        self.entries.len()
    }

    pub fn is_empty(&self) -> (r: bool)
        ensures
            r == (self@ == Map::<K, V>::empty()),
    {
        proof {
            use_type_invariant(self);
            if self.entries@.len() == 0 {
                assert(self@ =~= Map::<K, V>::empty());
            } else {
                lemma_entry(self.entries@, 0);
            }
        }
        self.entries.len() == 0
    }

    /// The entry at a position.
    pub fn entry_at(&self, i: usize) -> (r: &(K, V))
        requires
            i < self.entry_seq().len(),
        ensures
            *r == self.entry_seq()[i as int],
    {
        &self.entries[i]
    }
}

/// A list with distinct keys has as many keys as entries.
proof fn lemma_key_count<K, V>(s: Seq<(K, V)>)
    requires
        distinct_keys(s),
    ensures
        entries_map(s).dom().finite(),
        entries_map(s).dom().len() == s.len(),
    decreases s.len(),
{
    if s.len() == 0 {
        assert(entries_map(s).dom() =~= Set::empty());
    } else {
        let rest = s.drop_last();
        assert forall|i: int, j: int| 0 <= i < j < rest.len() implies #[trigger] rest[i].0
            != #[trigger] rest[j].0 by {
            assert(s[i].0 != s[j].0);
        }
        lemma_key_count(rest);
        let k = s.last().0;
        assert(entries_map(s).dom() =~= entries_map(rest).dom().insert(k)) by {
            assert forall|x: K| entries_map(s).dom().contains(x) == entries_map(rest).dom().insert(
                k,
            ).contains(x) by {
                if entries_map(s).dom().contains(x) {
                    let i = choose|i: int| 0 <= i < s.len() && #[trigger] s[i].0 == x;
                    if i < rest.len() {
                        assert(rest[i].0 == x);
                    }
                }
                if entries_map(rest).dom().contains(x) {
                    let i = choose|i: int| 0 <= i < rest.len() && #[trigger] rest[i].0 == x;
                    assert(s[i].0 == x);
                }
                assert(s[s.len() - 1].0 == k);
            }
        }
        assert(!entries_map(rest).dom().contains(k)) by {
            if entries_map(rest).dom().contains(k) {
                let i = choose|i: int| 0 <= i < rest.len() && #[trigger] rest[i].0 == k;
                assert(s[i].0 != s[s.len() - 1].0);
            }
        }
    }
}

impl<K: MapKey, V> KeyedMap<K, V> {
    fn position(&self, key: &K) -> (r: Option<usize>)
        ensures
            match r {
                Some(i) => i < self.entries@.len() && self.entries@[i as int].0 == *key,
                None => !self@.contains_key(*key),
            },
    {
        let mut i: usize = 0;
        while i < self.entries.len()
            invariant
                i <= self.entries@.len(),
                forall|j: int| 0 <= j < i ==> #[trigger] self.entries@[j].0 != *key,
            decreases self.entries@.len() - i,
        {
            if self.entries[i].0.same_key(key) {
                return Some(i);
            }
            i = i + 1;
        }
        None
    }

    /// The value of `key`, if it has one.
    pub fn get(&self, key: &K) -> (r: Option<&V>)
        ensures
            match r {
                Some(v) => self@.contains_key(*key) && *v == self@[*key],
                None => !self@.contains_key(*key),
            },
    {
        proof {
            use_type_invariant(self);
        }
        match self.position(key) {
            Some(i) => {
                proof {
                    lemma_entry(self.entries@, i as int);
                }
                Some(&self.entries[i].1)
            },
            None => None,
        }
    }

    pub fn contains_key(&self, key: &K) -> (r: bool)
        ensures
            r == self@.contains_key(*key),
    {
        self.get(key).is_some()
    }

    /// Gives `key` the value `value`, in place of the one it had.
    pub fn insert(&mut self, key: K, value: V)
        ensures
            final(self)@ == old(self)@.insert(key, value),
    {
        proof {
            use_type_invariant(&*self);
        }
        let found = self.position(&key);
        let mut entries: Vec<(K, V)> = Vec::new();
        std::mem::swap(&mut entries, &mut self.entries);
        let ghost before = entries@;
        match found {
            Some(i) => {
                entries.set(i, (key, value));
            },
            None => {
                entries.push((key, value));
            },
        }
        proof {
            let after = entries@;
            let at: int = match found {
                Some(i) => i as int,
                None => before.len() as int,
            };
            if found.is_none() {
                assert forall|i: int| 0 <= i < before.len() implies #[trigger] before[i].0 != key by {
                    lemma_entry(before, i);
                }
            }
            assert forall|i: int, j: int| 0 <= i < j < after.len() implies #[trigger] after[i].0
                != #[trigger] after[j].0 by {
                if i < before.len() && j < before.len() {
                    assert(before[i].0 != before[j].0);
                }
            }
            assert forall|k: K| entries_map(after).contains_key(k) == entries_map(before).insert(
                key,
                value,
            ).contains_key(k) by {
                if entries_map(after).contains_key(k) {
                    let i = choose|i: int| 0 <= i < after.len() && #[trigger] after[i].0 == k;
                    if i != at {
                        assert(before[i].0 == k);
                    }
                }
                if entries_map(before).contains_key(k) {
                    let i = choose|i: int| 0 <= i < before.len() && #[trigger] before[i].0 == k;
                    assert(after[i].0 == k);
                }
                assert(after[at].0 == key);
            }
            assert forall|k: K| #[trigger]
                entries_map(after).contains_key(k) implies entries_map(after)[k] == entries_map(
                before,
            ).insert(key, value)[k] by {
                let i = choose|i: int| 0 <= i < after.len() && #[trigger] after[i].0 == k;
                lemma_entry(after, i);
                if k == key {
                    lemma_entry(after, at);
                } else {
                    assert(before[i] == after[i]);
                    lemma_entry(before, i);
                }
            }
            assert(entries_map(after) =~= entries_map(before).insert(key, value));
        }
        self.entries = entries;
    }
}

/// Taking an entry out of a list with distinct keys takes its key out of the
/// map.
proof fn lemma_remove<K, V>(s: Seq<(K, V)>, at: int)
    requires
        distinct_keys(s),
        0 <= at < s.len(),
    ensures
        distinct_keys(s.remove(at)),
        entries_map(s.remove(at)) == entries_map(s).remove(s[at].0),
{
    let t = s.remove(at);
    assert forall|i: int, j: int| 0 <= i < j < t.len() implies #[trigger] t[i].0 != #[trigger] t[j].0 by {
        let i0 = if i < at { i } else { i + 1 };
        let j0 = if j < at { j } else { j + 1 };
        assert(s[i0].0 != s[j0].0);
    }
    let m = entries_map(s).remove(s[at].0);
    assert forall|k: K| entries_map(t).contains_key(k) implies m.contains_key(k) && m[k]
        == entries_map(t)[k] by {
        let i = choose|i: int| 0 <= i < t.len() && #[trigger] t[i].0 == k;
        let i0 = if i < at { i } else { i + 1 };
        lemma_entry(t, i);
        assert(s[i0] == t[i]);
        lemma_entry(s, i0);
        if k == s[at].0 {
            assert(s[i0].0 == s[at].0);
        }
    }
    assert forall|k: K| m.contains_key(k) implies entries_map(t).contains_key(k) by {
        let i = choose|i: int| 0 <= i < s.len() && #[trigger] s[i].0 == k;
        let i0 = if i < at { i } else { i - 1 };
        assert(i != at);
        assert(t[i0].0 == k);
    }
    assert(entries_map(t) =~= m);
}

impl<K: MapKey, V: Perishable> KeyedMap<K, V> {
    /// Drops every entry that is no longer fresh at `now`.
    pub fn retain_fresh(&mut self, now: Instant, ttl_ms: u64)
        ensures
            final(self)@ == fresh_part(old(self)@, now, ttl_ms),
    {
        proof {
            use_type_invariant(&*self);
        }
        let mut entries: Vec<(K, V)> = Vec::new();
        std::mem::swap(&mut entries, &mut self.entries);
        let ghost all = entries@;
        let mut i: usize = 0;
        while i < entries.len()
            invariant
                i <= entries@.len(),
                distinct_keys(entries@),
                fresh_part(entries_map(entries@), now, ttl_ms) == fresh_part(
                    entries_map(all),
                    now,
                    ttl_ms,
                ),
                forall|j: int| 0 <= j < i ==> (#[trigger] entries@[j]).1.fresh(now, ttl_ms),
            decreases entries@.len() - i,
        {
            if entries[i].1.is_fresh(now, ttl_ms) {
                i = i + 1;
            } else {
                let ghost s = entries@;
                proof {
                    lemma_remove(s, i as int);
                    lemma_entry(s, i as int);
                }
                let _ = entries.remove(i);
                assert(entries@ == s.remove(i as int));
                assert(fresh_part(entries_map(entries@), now, ttl_ms) =~= fresh_part(
                    entries_map(s),
                    now,
                    ttl_ms,
                ));
            }
        }
        proof {
            let m = entries_map(entries@);
            assert forall|k: K| m.contains_key(k) implies m[k].fresh(now, ttl_ms) by {
                let j = choose|j: int| 0 <= j < entries@.len() && #[trigger] entries@[j].0 == k;
                lemma_entry(entries@, j);
            }
            assert(fresh_part(m, now, ttl_ms) =~= m);
        }
        self.entries = entries;
    }
}

} // verus!
