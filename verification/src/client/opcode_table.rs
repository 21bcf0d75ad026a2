//! Counts and samples by opcode, in the order of the opcodes.
use crate::text::same_text;
use vstd::prelude::*;

verus! {

/// Samples that are kept of one opcode.
pub const SAMPLES_PER_OPCODE: usize = 3;

/// Every opcode once, in ascending order.
pub open spec fn ascending<V>(s: Seq<(u8, V)>) -> bool {
    forall|i: int, j: int| 0 <= i < j < s.len() ==> #[trigger] s[i].0 < #[trigger] s[j].0
}

/// A sum, as far as it can be counted.
pub open spec fn capped_add(a: usize, b: usize) -> usize {
    if a + b <= usize::MAX {
        (a + b) as usize
    } else {
        usize::MAX
    }
}

pub fn add_capped(a: usize, b: usize) -> (r: usize)
    ensures
        r == capped_add(a, b),
{
    if a <= usize::MAX - b {
        a + b
    } else {
        usize::MAX
    }
}

/// The counts with some more for an opcode.
pub open spec fn with_count(s: Seq<(u8, usize)>, opcode: u8, n: usize) -> Seq<(u8, usize)>
    decreases s.len(),
{
    if s.len() == 0 || s.last().0 < opcode {
        s.push((opcode, n))
    } else if s.last().0 == opcode {
        s.drop_last().push((opcode, capped_add(s.last().1, n)))
    } else {
        with_count(s.drop_last(), opcode, n).push(s.last())
    }
}

/// The position of an opcode, or that at which it belongs.
spec fn is_place<V>(s: Seq<(u8, V)>, opcode: u8, p: int) -> bool {
    &&& 0 <= p <= s.len()
    &&& forall|i: int| 0 <= i < p ==> (#[trigger] s[i]).0 < opcode
    &&& forall|i: int| p <= i < s.len() ==> (#[trigger] s[i]).0 >= opcode
}

proof fn lemma_with_count(s: Seq<(u8, usize)>, opcode: u8, n: usize, p: int)
    requires
        ascending(s),
        is_place(s, opcode, p),
    ensures
        with_count(s, opcode, n) == (if p < s.len() && s[p].0 == opcode {
            s.update(p, (opcode, capped_add(s[p].1, n)))
        } else {
            s.insert(p, (opcode, n))
        }),
        ascending(with_count(s, opcode, n)),
    decreases s.len(),
{
    let want = if p < s.len() && s[p].0 == opcode {
        s.update(p, (opcode, capped_add(s[p].1, n)))
    } else {
        s.insert(p, (opcode, n))
    };
    if s.len() == 0 || s.last().0 < opcode {
        assert(p == s.len());
        assert(want =~= s.push((opcode, n)));
    } else if s.last().0 == opcode {
        assert(p == s.len() - 1) by {
            if p < s.len() - 1 {
                assert(s[p].0 < s[s.len() - 1].0);
            }
        }
        assert(want =~= s.drop_last().push((opcode, capped_add(s.last().1, n))));
    } else {
        let rest = s.drop_last();
        assert(p < s.len());
        assert(forall|i: int| 0 <= i < rest.len() ==> #[trigger] rest[i] == s[i]);
        lemma_with_count(rest, opcode, n, p);
        assert(want =~= with_count(rest, opcode, n).push(s.last()));
    }
    assert forall|i: int, j: int| 0 <= i < j < want.len() implies #[trigger] want[i].0
        < #[trigger] want[j].0 by {
        if p < s.len() && s[p].0 == opcode {
            assert(want[i].0 == s[i].0 && want[j].0 == s[j].0);
        } else {
            if j < p {
                assert(want[i] == s[i] && want[j] == s[j]);
            } else if i > p {
                assert(want[i] == s[i - 1] && want[j] == s[j - 1]);
            } else if i < p && j > p {
                assert(want[i] == s[i] && want[j] == s[j - 1]);
                assert(s[i].0 < opcode && s[j - 1].0 >= opcode);
            } else if j == p {
                assert(want[i] == s[i]);
            } else {
                assert(want[j] == s[j - 1]);
                assert(s[p].0 >= opcode);
                if j - 1 > p {
                    assert(s[p].0 < s[j - 1].0);
                }
            }
        }
    }
}

/// The sum of two tables of counts.
pub open spec fn counts_merged(s: Seq<(u8, usize)>, t: Seq<(u8, usize)>) -> Seq<(u8, usize)>
    decreases t.len(),
{
    if t.len() == 0 {
        s
    } else {
        with_count(counts_merged(s, t.drop_last()), t.last().0, t.last().1)
    }
}

/// Counts by opcode.
#[derive(Debug)]
pub struct OpcodeCounts {
    entries: Vec<(u8, usize)>,
}

impl View for OpcodeCounts {
    type V = Seq<(u8, usize)>;

    closed spec fn view(&self) -> Seq<(u8, usize)> {
        self.entries@
    }
}

impl Default for OpcodeCounts {
    fn default() -> (r: Self)
        ensures
            r@.len() == 0,
    {
        OpcodeCounts::new()
    }
}

impl OpcodeCounts {
    #[verifier::type_invariant]
    spec fn wf(self) -> bool {
        ascending(self.entries@)
    }

    pub fn new() -> (r: Self)
        ensures
            r@.len() == 0,
    {
        OpcodeCounts { entries: Vec::new() }
    }

    pub fn is_empty(&self) -> (r: bool)
        ensures
            r == (self@.len() == 0),
    {
        self.entries.len() == 0
    }

    pub fn len(&self) -> (r: usize)
        ensures
            r == self@.len(),
    {
        self.entries.len()
    }

    pub fn entry_at(&self, i: usize) -> (r: (u8, usize))
        requires
            i < self@.len(),
        ensures
            r == self@[i as int],
    {
        self.entries[i]
    }

    /// The count of an opcode, if there is one.
    pub fn get(&self, opcode: u8) -> (r: Option<usize>)
        ensures
            match r {
                Some(n) => self@.contains((opcode, n)),
                None => forall|i: int| 0 <= i < self@.len() ==> (#[trigger] self@[i]).0 != opcode,
            },
    {
        let mut i: usize = 0;
        while i < self.entries.len()
            invariant
                i <= self.entries@.len(),
                forall|j: int| 0 <= j < i ==> (#[trigger] self.entries@[j]).0 != opcode,
            decreases self.entries@.len() - i,
        {
            if self.entries[i].0 == opcode {
                assert(self@[i as int] == (opcode, self.entries@[i as int].1));
                return Some(self.entries[i].1);
            }
            i = i + 1;
        }
        None
    }

    /// Counts some more of an opcode.
    pub fn insert(&mut self, opcode: u8, n: usize)
        ensures
            final(self)@ == with_count(old(self)@, opcode, n),
            ascending(final(self)@),
    {
        proof {
            use_type_invariant(&*self);
        }
        let ghost s = self.entries@;
        let mut entries: Vec<(u8, usize)> = Vec::new();
        std::mem::swap(&mut entries, &mut self.entries);
        let mut p: usize = 0;
        while p < entries.len() && entries[p].0 < opcode
            invariant
                p <= entries@.len(),
                entries@ == s,
                forall|i: int| 0 <= i < p ==> (#[trigger] s[i]).0 < opcode,
            decreases entries@.len() - p,
        {
            p = p + 1;
        }
        proof {
            assert forall|i: int| p <= i < s.len() implies (#[trigger] s[i]).0 >= opcode by {
                if i > p {
                    assert(s[p as int].0 < s[i].0);
                }
            }
            lemma_with_count(s, opcode, n, p as int);
        }
        if p < entries.len() && entries[p].0 == opcode {
            let sum: usize = add_capped(entries[p].1, n);
            entries.set(p, (opcode, sum));
        } else {
            entries.insert(p, (opcode, n));
        }
        self.entries = entries;
    }

    /// Counts all that another table counts.
    pub fn merge(&mut self, other: &OpcodeCounts)
        ensures
            final(self)@ == counts_merged(old(self)@, other@),
    {
        let ghost s = self@;
        let mut i: usize = 0;
        while i < other.entries.len()
            invariant
                i <= other@.len(),
                other@ == other.entries@,
                self@ == counts_merged(s, other@.take(i as int)),
            decreases other@.len() - i,
        {
            let e: (u8, usize) = other.entries[i];
            assert(other@.take(i + 1).drop_last() =~= other@.take(i as int));
            self.insert(e.0, e.1);
            i = i + 1;
        }
        assert(other@.take(i as int) =~= other@);
    }

    pub fn clear(&mut self)
        ensures
            final(self)@.len() == 0,
    {
        self.entries = Vec::new();
    }
}

/// The samples of one opcode with one more: no sample twice, and no more than
/// are kept.
pub open spec fn samples_with(have: Seq<Seq<char>>, sample: Seq<char>) -> Seq<Seq<char>> {
    if have.len() >= SAMPLES_PER_OPCODE || have.contains(sample) {
        have
    } else {
        have.push(sample)
    }
}

/// The samples with one more of an opcode.
pub open spec fn with_sample(s: Seq<(u8, Seq<Seq<char>>)>, opcode: u8, sample: Seq<char>) -> Seq<
    (u8, Seq<Seq<char>>),
>
    decreases s.len(),
{
    if s.len() == 0 || s.last().0 < opcode {
        s.push((opcode, seq![sample]))
    } else if s.last().0 == opcode {
        s.drop_last().push((opcode, samples_with(s.last().1, sample)))
    } else {
        with_sample(s.drop_last(), opcode, sample).push(s.last())
    }
}

/// The samples with more of an opcode.
pub open spec fn with_samples(
    s: Seq<(u8, Seq<Seq<char>>)>,
    opcode: u8,
    samples: Seq<Seq<char>>,
) -> Seq<(u8, Seq<Seq<char>>)>
    decreases samples.len(),
{
    if samples.len() == 0 {
        s
    } else {
        with_sample(with_samples(s, opcode, samples.drop_last()), opcode, samples.last())
    }
}

/// The samples of two tables.
pub open spec fn samples_merged(
    s: Seq<(u8, Seq<Seq<char>>)>,
    t: Seq<(u8, Seq<Seq<char>>)>,
) -> Seq<(u8, Seq<Seq<char>>)>
    decreases t.len(),
{
    if t.len() == 0 {
        s
    } else {
        with_samples(samples_merged(s, t.drop_last()), t.last().0, t.last().1)
    }
}

proof fn lemma_with_sample(s: Seq<(u8, Seq<Seq<char>>)>, opcode: u8, sample: Seq<char>, p: int)
    requires
        ascending(s),
        is_place(s, opcode, p),
    ensures
        with_sample(s, opcode, sample) == (if p < s.len() && s[p].0 == opcode {
            s.update(p, (opcode, samples_with(s[p].1, sample)))
        } else {
            s.insert(p, (opcode, seq![sample]))
        }),
    decreases s.len(),
{
    let want = if p < s.len() && s[p].0 == opcode {
        s.update(p, (opcode, samples_with(s[p].1, sample)))
    } else {
        s.insert(p, (opcode, seq![sample]))
    };
    if s.len() == 0 || s.last().0 < opcode {
        assert(p == s.len());
        assert(want =~= s.push((opcode, seq![sample])));
    } else if s.last().0 == opcode {
        assert(p == s.len() - 1) by {
            if p < s.len() - 1 {
                assert(s[p].0 < s[s.len() - 1].0);
            }
        }
        assert(want =~= s.drop_last().push((opcode, samples_with(s.last().1, sample))));
    } else {
        let rest = s.drop_last();
        assert(p < s.len());
        assert(forall|i: int| 0 <= i < rest.len() ==> #[trigger] rest[i] == s[i]);
        lemma_with_sample(rest, opcode, sample, p);
        assert(want =~= with_sample(rest, opcode, sample).push(s.last()));
    }
}

/// Samples by opcode.
#[derive(Debug)]
pub struct OpcodeSamples {
    entries: Vec<(u8, Vec<String>)>,
}

/// What a list of entries holds.
spec fn sample_views(s: Seq<(u8, Vec<String>)>) -> Seq<(u8, Seq<Seq<char>>)> {
    Seq::new(s.len(), |i: int| (s[i].0, crate::text::contents(s[i].1@)))
}

impl View for OpcodeSamples {
    type V = Seq<(u8, Seq<Seq<char>>)>;

    closed spec fn view(&self) -> Seq<(u8, Seq<Seq<char>>)> {
        sample_views(self.entries@)
    }
}

impl Default for OpcodeSamples {
    fn default() -> (r: Self)
        ensures
            r@.len() == 0,
    {
        OpcodeSamples::new()
    }
}

fn text_listed(list: &Vec<String>, text: &str) -> (r: bool)
    ensures
        r == crate::text::contents(list@).contains(text@),
{
    let ghost views = crate::text::contents(list@);
    let mut i: usize = 0;
    while i < list.len()
        invariant
            i <= list@.len(),
            views == crate::text::contents(list@),
            forall|j: int| 0 <= j < i ==> #[trigger] views[j] != text@,
        decreases list@.len() - i,
    {
        assert(views[i as int] == list@[i as int]@);
        if same_text(list[i].as_str(), text) {
            return true;
        }
        i = i + 1;
    }
    false
}

impl OpcodeSamples {
    #[verifier::type_invariant]
    spec fn wf(self) -> bool {
        ascending(self.entries@)
    }

    pub fn new() -> (r: Self)
        ensures
            r@.len() == 0,
    {
        OpcodeSamples { entries: Vec::new() }
    }

    pub fn is_empty(&self) -> (r: bool)
        ensures
            r == (self@.len() == 0),
    {
        self.entries.len() == 0
    }

    pub fn len(&self) -> (r: usize)
        ensures
            r == self@.len(),
    {
        self.entries.len()
    }

    pub fn opcode_at(&self, i: usize) -> (r: u8)
        requires
            i < self@.len(),
        ensures
            r == self@[i as int].0,
    {
        self.entries[i].0
    }

    pub fn samples_at(&self, i: usize) -> (r: &Vec<String>)
        requires
            i < self@.len(),
        ensures
            crate::text::contents(r@) == self@[i as int].1,
    {
        &self.entries[i].1
    }

    /// Keeps one more sample of an opcode, unless there are enough or it is
    /// known.
    pub fn insert(&mut self, opcode: u8, sample: String)
        ensures
            final(self)@ == with_sample(old(self)@, opcode, sample@),
    {
        proof {
            use_type_invariant(&*self);
        }
        let ghost s = self.entries@;
        let ghost v = sample_views(s);
        let ghost text = sample@;
        let mut entries: Vec<(u8, Vec<String>)> = Vec::new();
        std::mem::swap(&mut entries, &mut self.entries);
        let mut p: usize = 0;
        while p < entries.len() && entries[p].0 < opcode
            invariant
                p <= entries@.len(),
                entries@ == s,
                forall|i: int| 0 <= i < p ==> (#[trigger] s[i]).0 < opcode,
            decreases entries@.len() - p,
        {
            p = p + 1;
        }
        proof {
            assert forall|i: int| p <= i < s.len() implies (#[trigger] s[i]).0 >= opcode by {
                if i > p {
                    assert(s[p as int].0 < s[i].0);
                }
            }
            assert(ascending(v)) by {
                assert forall|i: int, j: int| 0 <= i < j < v.len() implies #[trigger] v[i].0
                    < #[trigger] v[j].0 by {
                    assert(s[i].0 < s[j].0);
                }
            }
            assert(is_place(v, opcode, p as int));
            lemma_with_sample(v, opcode, text, p as int);
        }
        if p < entries.len() && entries[p].0 == opcode {
            let mut entry: (u8, Vec<String>) = entries.remove(p);
            let ghost have = entry.1@;
            assert(v[p as int].1 == crate::text::contents(have));
            if entry.1.len() < SAMPLES_PER_OPCODE && !text_listed(&entry.1, sample.as_str()) {
                entry.1.push(sample);
                assert(crate::text::contents(entry.1@) =~= crate::text::contents(have).push(text));
            }
            let ghost kept = entry.1@;
            entries.insert(p, entry);
            proof {
                assert(entries@.len() == s.len());
                assert(sample_views(entries@) =~= v.update(
                    p as int,
                    (opcode, crate::text::contents(kept)),
                ));
            }
        } else {
            let mut one: Vec<String> = Vec::new();
            one.push(sample);
            assert(crate::text::contents(one@) =~= seq![text]);
            entries.insert(p, (opcode, one));
            assert(sample_views(entries@) =~= v.insert(p as int, (opcode, seq![text])));
        }
        proof {
            let t = entries@;
            assert(ascending(t)) by {
                assert forall|i: int, j: int| 0 <= i < j < t.len() implies #[trigger] t[i].0
                    < #[trigger] t[j].0 by {
                    if t.len() == s.len() {
                        assert(t[i].0 == s[i].0 && t[j].0 == s[j].0);
                    } else {
                        if j < p {
                            assert(t[i] == s[i] && t[j] == s[j]);
                        } else if i > p {
                            assert(t[i] == s[i - 1] && t[j] == s[j - 1]);
                        } else if i < p && j > p {
                            assert(t[i] == s[i] && t[j] == s[j - 1]);
                        } else if j == p {
                            assert(t[i] == s[i]);
                        } else {
                            assert(t[j] == s[j - 1]);
                            if j - 1 > p {
                                assert(s[p as int].0 < s[j - 1].0);
                            }
                        }
                    }
                }
            }
        }
        self.entries = entries;
    }

    /// Keeps what another table holds, as far as there is room.
    pub fn merge(&mut self, other: &OpcodeSamples)
        ensures
            final(self)@ == samples_merged(old(self)@, other@),
    {
        let ghost s = self@;
        let mut i: usize = 0;
        while i < other.entries.len()
            invariant
                i <= other@.len(),
                other@.len() == other.entries@.len(),
                self@ == samples_merged(s, other@.take(i as int)),
            decreases other@.len() - i,
        {
            let opcode: u8 = other.opcode_at(i);
            let samples: &Vec<String> = other.samples_at(i);
            let ghost texts = crate::text::contents(samples@);
            let ghost base = self@;
            let mut j: usize = 0;
            while j < samples.len()
                invariant
                    j <= samples@.len(),
                    texts == crate::text::contents(samples@),
                    self@ == with_samples(base, opcode, texts.take(j as int)),
                decreases samples@.len() - j,
            {
                assert(texts.take(j + 1).drop_last() =~= texts.take(j as int));
                self.insert(opcode, samples[j].clone());
                j = j + 1;
            }
            assert(texts.take(j as int) =~= texts);
            assert(other@.take(i + 1).drop_last() =~= other@.take(i as int));
            i = i + 1;
        }
        assert(other@.take(i as int) =~= other@);
    }

    pub fn clear(&mut self)
        ensures
            final(self)@.len() == 0,
    {
        self.entries = Vec::new();
    }
}

} // verus!
