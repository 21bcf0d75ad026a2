//! A small map from names to values.
use crate::text::same_text;
use vstd::prelude::*;

verus! {

/// Values by name, one for each name.
#[derive(Debug)]
pub struct NamedMap<V> {
    entries: Vec<(String, V)>,
}

/// No name occurs twice.
spec fn distinct_names<V>(s: Seq<(String, V)>) -> bool {
    forall|i: int, j: int| 0 <= i < j < s.len() ==> #[trigger] s[i].0@ != #[trigger] s[j].0@
}

/// The map that a list of entries stands for.
spec fn names_map<V>(s: Seq<(String, V)>) -> Map<Seq<char>, V> {
    Map::new(
        |k: Seq<char>| exists|i: int| 0 <= i < s.len() && #[trigger] s[i].0@ == k,
        |k: Seq<char>| s[choose|i: int| 0 <= i < s.len() && #[trigger] s[i].0@ == k].1,
    )
}

proof fn lemma_named<V>(s: Seq<(String, V)>, i: int)
    requires
        distinct_names(s),
        0 <= i < s.len(),
    ensures
        names_map(s).contains_key(s[i].0@),
        names_map(s)[s[i].0@] == s[i].1,
{
    let j = choose|j: int| 0 <= j < s.len() && #[trigger] s[j].0@ == s[i].0@;
    assert(i == j);
}

impl<V> NamedMap<V> {
    #[verifier::type_invariant]
    spec fn wf(self) -> bool {
        distinct_names(self.entries@)
    }

    /// The names in the order in which they were first given a value.
    pub closed spec fn name_seq(&self) -> Seq<Seq<char>> {
        Seq::new(self.entries@.len(), |i: int| self.entries@[i].0@)
    }
}

impl<V> View for NamedMap<V> {
    type V = Map<Seq<char>, V>;

    closed spec fn view(&self) -> Map<Seq<char>, V> {
        names_map(self.entries@)
    }
}

impl<V: Copy> Clone for NamedMap<V> {
    fn clone(&self) -> (r: Self)
        ensures
            r@ == self@,
            r.name_seq() == self.name_seq(),
    {
        proof {
            use_type_invariant(self);
        }
        let mut entries: Vec<(String, V)> = Vec::new();
        let mut i: usize = 0;
        while i < self.entries.len()
            invariant
                i <= self.entries@.len(),
                entries@ == self.entries@.take(i as int),
            decreases self.entries@.len() - i,
        {
            let entry: &(String, V) = &self.entries[i];
            entries.push((entry.0.clone(), entry.1));
            assert(entries@ =~= self.entries@.take(i + 1));
            i = i + 1;
        }
        assert(entries@ =~= self.entries@);
        NamedMap { entries }
    }
}

impl<V: Copy> NamedMap<V> {
    pub fn new() -> (r: Self)
        ensures
            r@ == Map::<Seq<char>, V>::empty(),
            r.name_seq().len() == 0,
    {
        let r = NamedMap { entries: Vec::new() };
        assert(r@ =~= Map::<Seq<char>, V>::empty());
        r
    }

    /// The number of names. Each is listed once, and none else is.
    pub fn len(&self) -> (r: usize)
        ensures
            r == self@.dom().len(),
            r == self.name_seq().len(),
            self.name_seq().no_duplicates(),
            forall|k: Seq<char>| #[trigger]
                self.name_seq().contains(k) <==> self@.contains_key(k),
    {
        proof {
            use_type_invariant(self);
            let s = self.entries@;
            let names = self.name_seq();
            assert forall|k: Seq<char>| #[trigger] names.contains(k) <==> self@.contains_key(k) by {
                if self@.contains_key(k) {
                    let i = choose|i: int| 0 <= i < s.len() && #[trigger] s[i].0@ == k;
                    assert(names[i] == k);
                }
                if names.contains(k) {
                    let i = choose|i: int| 0 <= i < names.len() && names[i] == k;
                    assert(s[i].0@ == k);
                }
            }
            assert(names.no_duplicates()) by {
                assert forall|i: int, j: int| 0 <= i < names.len() && 0 <= j < names.len() && i
                    != j implies names[i] != names[j] by {
                    assert(names[i] == s[i].0@);
                    assert(names[j] == s[j].0@);
                }
            }
            names.unique_seq_to_set();
            assert(names.to_set() =~= self@.dom());
        }
        self.entries.len()
    }

    fn index_of(&self, name: &str) -> (r: Option<usize>)
        ensures
            match r {
                Some(i) => i < self.entries@.len() && self.entries@[i as int].0@ == name@,
                None => forall|j: int|
                    0 <= j < self.entries@.len() ==> (#[trigger] self.entries@[j]).0@ != name@,
            },
    {
        let mut i: usize = 0;
        while i < self.entries.len()
            invariant
                i <= self.entries@.len(),
                forall|j: int| 0 <= j < i ==> (#[trigger] self.entries@[j]).0@ != name@,
            decreases self.entries@.len() - i,
        {
            if same_text(self.entries[i].0.as_str(), name) {
                return Some(i);
            }
            i = i + 1;
        }
        None
    }

    /// The value of a name.
    pub fn get(&self, name: &str) -> (r: Option<V>)
        ensures
            match r {
                Some(v) => self@.contains_key(name@) && self@[name@] == v,
                None => !self@.contains_key(name@),
            },
    {
        proof {
            use_type_invariant(self);
        }
        match self.index_of(name) {
            Some(i) => {
                proof {
                    lemma_named(self.entries@, i as int);
                }
                Some(self.entries[i].1)
            },
            None => None,
        }
    }

    /// The name at a position.
    pub fn name_at(&self, i: usize) -> (r: &str)
        requires
            i < self.name_seq().len(),
        ensures
            r@ == self.name_seq()[i as int],
            self@.contains_key(r@),
    {
        proof {
            use_type_invariant(self);
            lemma_named(self.entries@, i as int);
        }
        self.entries[i].0.as_str()
    }

    /// Gives a name a value. A new name comes last.
    pub fn insert(&mut self, name: String, value: V)
        ensures
            final(self)@ == old(self)@.insert(name@, value),
            final(self).name_seq() == (if old(self)@.contains_key(name@) {
                old(self).name_seq()
            } else {
                old(self).name_seq().push(name@)
            }),
    {
        proof {
            use_type_invariant(&*self);
        }
        let ghost s = self.entries@;
        let found: Option<usize> = self.index_of(name.as_str());
        let mut entries: Vec<(String, V)> = Vec::new();
        std::mem::swap(&mut entries, &mut self.entries);
        let ghost key = name@;
        match found {
            Some(i) => {
                entries.set(i, (name, value));
            },
            None => {
                entries.push((name, value));
            },
        }
        let ghost t = entries@;
        proof {
            assert(distinct_names(t)) by {
                assert forall|i: int, j: int| 0 <= i < j < t.len() implies #[trigger] t[i].0@
                    != #[trigger] t[j].0@ by {
                    if j < s.len() {
                        assert(s[i].0@ != s[j].0@);
                    }
                }
            }
            let k0: int = match found {
                Some(i) => i as int,
                None => s.len() as int,
            };
            assert(t[k0] == (name, value));
            assert forall|k: Seq<char>| #[trigger] names_map(t).contains_key(k) <==> (names_map(
                s,
            ).contains_key(k) || k == key) by {
                if names_map(t).contains_key(k) {
                    let i = choose|i: int| 0 <= i < t.len() && #[trigger] t[i].0@ == k;
                    if i < s.len() {
                        assert(s[i].0@ == k);
                    }
                }
                if names_map(s).contains_key(k) {
                    let i = choose|i: int| 0 <= i < s.len() && #[trigger] s[i].0@ == k;
                    assert(t[i].0@ == k);
                }
                assert(t[k0].0@ == key);
            }
            assert forall|k: Seq<char>| #[trigger] names_map(t).contains_key(k) implies names_map(
                t,
            )[k] == names_map(s).insert(key, value)[k] by {
                let i = choose|i: int| 0 <= i < t.len() && #[trigger] t[i].0@ == k;
                lemma_named(t, i);
                if k == key {
                    lemma_named(t, k0);
                } else {
                    assert(i < s.len() && s[i] == t[i]);
                    lemma_named(s, i);
                }
            }
            assert(names_map(t) =~= names_map(s).insert(key, value));
            if found is Some {
                lemma_named(s, k0);
            }
        }
        self.entries = entries;
        assert(self.name_seq() =~= (if names_map(s).contains_key(key) {
            Seq::new(s.len(), |i: int| s[i].0@)
        } else {
            Seq::new(s.len(), |i: int| s[i].0@).push(key)
        }));
    }
}

} // verus!
