//! The search frontier: a binary heap that gives out its most promising node.
use vstd::prelude::*;

verus! {

/// A tile on the frontier: the cost `g` of the route to it, and the estimate
/// `f` of a whole route through it.
#[derive(Debug, Clone, Copy, PartialEq, Eq)]
pub struct Node {
    pub f: u64,
    pub g: u64,
    pub pos: (i32, i32),
}

/// Nodes come out by `f`, and by `g` where `f` is equal.
pub open spec fn rank(n: Node) -> int {
    n.f * 0x1_0000_0000_0000_0000 + n.g
}

/// The node above position `i` of the heap.
pub open spec fn parent(i: int) -> int {
    (i - 1) / 2
}

/// The node at `i` is no better than the one above it.
spec fn edge(s: Seq<Node>, i: int) -> bool {
    rank(s[parent(i)]) <= rank(s[i])
}

spec fn is_heap(s: Seq<Node>) -> bool {
    forall|i: int| 0 < i < s.len() ==> #[trigger] edge(s, i)
}

/// A heap but for the node at `p`, which may be better than the one above it.
spec fn heap_but_up(s: Seq<Node>, p: int) -> bool {
    &&& forall|i: int| 0 < i < s.len() && i != p ==> #[trigger] edge(s, i)
    &&& p > 0 ==> forall|c: int|
        0 < c < s.len() && #[trigger] parent(c) == p ==> rank(s[parent(p)]) <= rank(s[c])
}

/// A heap but for the node at `p`, of which nothing is known.
spec fn heap_but_at(s: Seq<Node>, p: int) -> bool {
    &&& forall|i: int| 0 < i < s.len() && i != p && parent(i) != p ==> #[trigger] edge(s, i)
    &&& p > 0 ==> forall|c: int|
        0 < c < s.len() && #[trigger] parent(c) == p ==> rank(s[parent(p)]) <= rank(s[c])
}

/// The same nodes, in any order.
spec fn same_nodes(a: Seq<Node>, b: Seq<Node>) -> bool {
    &&& a.len() == b.len()
    &&& forall|n: Node| a.contains(n) <==> b.contains(n)
    &&& a.to_multiset() == b.to_multiset()
}

spec fn swapped(s: Seq<Node>, i: int, j: int) -> Seq<Node> {
    s.update(i, s[j]).update(j, s[i])
}

/// The heap once the node at `pos` has moved up past every worse one above it.
spec fn sifted_up(s: Seq<Node>, pos: int) -> Seq<Node>
    decreases pos,
{
    if pos <= 0 || rank(s[pos]) >= rank(s[parent(pos)]) {
        s
    } else {
        sifted_up(swapped(s, pos, parent(pos)), parent(pos))
    }
}

/// The heap once the node at `pos` has changed places with the better node
/// below it all the way down, and where it has come to.
spec fn sunk(s: Seq<Node>, pos: int) -> (Seq<Node>, int)
    decreases s.len() - pos,
{
    let left = 2 * pos + 1;
    let child = if left + 1 < s.len() && rank(s[left]) >= rank(s[left + 1]) {
        left + 1
    } else {
        left
    };
    if 0 <= pos && left < s.len() {
        sunk(swapped(s, pos, child), child)
    } else {
        (s, pos)
    }
}

/// The frontier, in its order, with one more node.
pub closed spec fn pushed(s: Seq<Node>, n: Node) -> Seq<Node> {
    sifted_up(s.push(n), s.len() as int)
}

/// The frontier, in its order, without its first node.
pub closed spec fn popped(s: Seq<Node>) -> Seq<Node> {
    if s.len() <= 1 {
        Seq::empty()
    } else {
        let down = sunk(s.drop_last().update(0, s.last()), 0);
        sifted_up(down.0, down.1)
    }
}

proof fn lemma_swap_same(s: Seq<Node>, i: int, j: int)
    requires
        0 <= i < s.len(),
        0 <= j < s.len(),
    ensures
        same_nodes(s, swapped(s, i, j)),
{
    let t = swapped(s, i, j);
    assert forall|n: Node| s.contains(n) <==> t.contains(n) by {
        if s.contains(n) {
            let k = choose|k: int| 0 <= k < s.len() && s[k] == n;
            let k2 = if k == i { j } else if k == j { i } else { k };
            assert(t[k2] == n);
        }
        if t.contains(n) {
            let k = choose|k: int| 0 <= k < t.len() && t[k] == n;
            let k2 = if k == i { j } else if k == j { i } else { k };
            assert(s[k2] == n);
        }
    }
    assert(s.to_multiset() =~= t.to_multiset()) by {
        broadcast use vstd::seq_lib::to_multiset_contains;

        let u = s.update(i, s[j]);
        vstd::seq_lib::to_multiset_update(s, i, s[j]);
        vstd::seq_lib::to_multiset_update(u, j, s[i]);
        assert(s.contains(s[i]));
        assert(s.to_multiset().count(s[i]) > 0);
    }
}

/// The top of a heap is its best node.
proof fn lemma_top_is_best(s: Seq<Node>, i: int)
    requires
        is_heap(s),
        0 <= i < s.len(),
    ensures
        rank(s[0]) <= rank(s[i]),
    decreases i,
{
    if i > 0 {
        assert(edge(s, i));
        lemma_top_is_best(s, parent(i));
    }
}

fn no_better(a: &Node, b: &Node) -> (r: bool)
    ensures
        r == (rank(*a) >= rank(*b)),
{
    a.f > b.f || (a.f == b.f && a.g >= b.g)
}

fn swap_nodes(v: &mut Vec<Node>, i: usize, j: usize)
    requires
        i < old(v)@.len(),
        j < old(v)@.len(),
    ensures
        final(v)@ == swapped(old(v)@, i as int, j as int),
        same_nodes(old(v)@, final(v)@),
{
    proof {
        lemma_swap_same(v@, i as int, j as int);
    }
    let a = v[i];
    let b = v[j];
    v.set(i, b);
    v.set(j, a);
}

fn sift_up(v: &mut Vec<Node>, from: usize)
    requires
        from < old(v)@.len(),
        heap_but_up(old(v)@, from as int),
    ensures
        is_heap(final(v)@),
        same_nodes(old(v)@, final(v)@),
        final(v)@ == sifted_up(old(v)@, from as int),
{
    let mut pos: usize = from;
    let ghost start = v@;
    while pos > 0
        invariant
            pos < v@.len(),
            heap_but_up(v@, pos as int),
            same_nodes(start, v@),
            sifted_up(v@, pos as int) == sifted_up(start, from as int),
        ensures
            is_heap(v@),
            same_nodes(start, v@),
            v@ == sifted_up(start, from as int),
        decreases pos,
    {
        let up: usize = (pos - 1) / 2;
        if no_better(&v[pos], &v[up]) {
            assert(edge(v@, pos as int));
            break;
        }
        let ghost s = v@;
        swap_nodes(v, pos, up);
        proof {
            let t = v@;
            assert forall|i: int| 0 < i < t.len() && i != up implies #[trigger] edge(t, i) by {
                if i == pos {
                } else if parent(i) == pos {
                    assert(rank(s[parent(pos as int)]) <= rank(s[i]));
                } else if parent(i) == up {
                    assert(edge(s, i));
                } else {
                    assert(edge(s, i));
                }
            }
            if up > 0 {
                assert(edge(s, up as int));
                assert forall|c: int| 0 < c < t.len() && #[trigger] parent(c) == up implies rank(
                    t[parent(up as int)],
                ) <= rank(t[c]) by {
                    if c != pos {
                        assert(edge(s, c));
                    }
                }
            }
        }
        pos = up;
    }
}

/// The frontier.
pub struct OpenList {
    data: Vec<Node>,
}

impl OpenList {
    #[verifier::type_invariant]
    spec fn wf(self) -> bool {
        is_heap(self.data@)
    }

    /// The nodes on the frontier, in the order in which they are kept.
    pub closed spec fn nodes(&self) -> Seq<Node> {
        self.data@
    }

    pub fn new() -> (r: OpenList)
        ensures
            r.nodes().len() == 0,
    {
        OpenList { data: Vec::new() }
    }

    pub fn push(&mut self, n: Node)
        ensures
            final(self).nodes() == pushed(old(self).nodes(), n),
            final(self).nodes().len() == old(self).nodes().len() + 1,
            final(self).nodes().to_multiset() == old(self).nodes().to_multiset().insert(n),
            forall|m: Node|
                final(self).nodes().contains(m) <==> (old(self).nodes().contains(m) || m == n),
    {
        proof {
            use_type_invariant(&*self);
        }
        let mut data: Vec<Node> = Vec::new();
        std::mem::swap(&mut data, &mut self.data);
        let ghost s = data@;
        data.push(n);
        let ghost t = data@;
        let last: usize = data.len() - 1;
        proof {
            vstd::seq_lib::to_multiset_build(s, n);
            assert forall|i: int| 0 < i < t.len() && i != last implies #[trigger] edge(t, i) by {
                assert(edge(s, i));
            }
            assert forall|m: Node| t.contains(m) <==> (s.contains(m) || m == n) by {
                if t.contains(m) {
                    let k = choose|k: int| 0 <= k < t.len() && t[k] == m;
                    if k < s.len() {
                        assert(s[k] == m);
                    }
                }
                if s.contains(m) {
                    let k = choose|k: int| 0 <= k < s.len() && s[k] == m;
                    assert(t[k] == m);
                }
                assert(t[last as int] == n);
            }
        }
        sift_up(&mut data, last);
        self.data = data;
    }

    /// Takes out a best node.
    pub fn pop(&mut self) -> (r: Option<Node>)
        ensures
            match r {
                None => old(self).nodes().len() == 0 && final(self).nodes() == old(self).nodes(),
                Some(best) => {
                    &&& old(self).nodes().len() > 0
                    &&& best == old(self).nodes()[0]
                    &&& final(self).nodes() == popped(old(self).nodes())
                    &&& old(self).nodes().contains(best)
                    &&& final(self).nodes().len() == old(self).nodes().len() - 1
                    &&& final(self).nodes().to_multiset() == old(self).nodes().to_multiset().remove(
                        best,
                    )
                    &&& forall|m: Node| #[trigger]
                        old(self).nodes().contains(m) ==> rank(best) <= rank(m)
                    &&& forall|m: Node| #[trigger]
                        final(self).nodes().contains(m) ==> old(self).nodes().contains(m)
                    &&& forall|m: Node| #[trigger]
                        old(self).nodes().contains(m) && m != best ==> final(self).nodes().contains(m)
                },
            },
    {
        proof {
            use_type_invariant(&*self);
        }
        if self.data.len() == 0 {
            return None;
        }
        let mut data: Vec<Node> = Vec::new();
        std::mem::swap(&mut data, &mut self.data);
        let ghost s = data@;
        let top = data[0];
        proof {
            assert forall|m: Node| #[trigger] s.contains(m) implies rank(top) <= rank(m) by {
                let k = choose|k: int| 0 <= k < s.len() && s[k] == m;
                lemma_top_is_best(s, k);
            }
        }
        let last = data.pop().unwrap();
        let ghost rest = data@;
        assert(rest =~= s.drop_last());
        proof {
            assert(s =~= rest.push(last));
            vstd::seq_lib::to_multiset_build(rest, last);
        }
        if data.len() > 0 {
            data.set(0, last);
            let ghost t = data@;
            proof {
                vstd::seq_lib::to_multiset_update(rest, 0, last);
                assert forall|i: int| 0 < i < t.len() && parent(i) != 0 implies #[trigger] edge(t, i) by {
                    assert(edge(s, i));
                }
                assert forall|m: Node| #[trigger] t.contains(m) implies s.contains(m) by {
                    let k = choose|k: int| 0 <= k < t.len() && t[k] == m;
                    let k0 = if k == 0 { s.len() - 1 } else { k };
                    assert(s[k0] == m);
                }
                assert forall|m: Node| #[trigger] s.contains(m) && m != top implies t.contains(m) by {
                    let k = choose|k: int| 0 <= k < s.len() && s[k] == m;
                    let k0 = if k == s.len() - 1 { 0 } else { k };
                    assert(t[k0] == m);
                }
            }
            let mut pos: usize = 0;
            let end: usize = data.len();
            while pos < (end - 1) / 2
                invariant
                    end == data@.len(),
                    end > 0,
                    pos < end,
                    heap_but_at(data@, pos as int),
                    same_nodes(t, data@),
                    sunk(data@, pos as int) == sunk(t, 0),
                decreases end - pos,
            {
                let left: usize = 2 * pos + 1;
                let child: usize = if no_better(&data[left], &data[left + 1]) {
                    left + 1
                } else {
                    left
                };
                let ghost u = data@;
                swap_nodes(&mut data, pos, child);
                proof {
                    lemma_sink(u, pos as int, child as int);
                }
                pos = child;
            }
            if end % 2 == 0 && pos == end / 2 - 1 {
                let ghost u = data@;
                let child: usize = end - 1;
                swap_nodes(&mut data, pos, child);
                proof {
                    lemma_sink(u, pos as int, child as int);
                }
                pos = child;
            }
            proof {
                assert(sunk(data@, pos as int) == (data@, pos as int));
                assert forall|i: int| 0 < i < data@.len() && i != pos implies #[trigger] edge(
                    data@,
                    i,
                ) by {
                    assert(parent(i) != pos);
                }
            }
            sift_up(&mut data, pos);
        } else {
            proof {
                assert forall|m: Node| #[trigger] s.contains(m) implies m == top by {
                    let k = choose|k: int| 0 <= k < s.len() && s[k] == m;
                }
                assert(s[0] == top);
                assert(rest.to_multiset() =~= rest.to_multiset().insert(last).remove(top));
            }
        }
        assert(s[0] == top);
        self.data = data;
        Some(top)
    }
}

/// Moving the better child up moves the unknown node down.
proof fn lemma_sink(s: Seq<Node>, p: int, c: int)
    requires
        0 <= p < s.len(),
        0 < c < s.len(),
        parent(c) == p,
        heap_but_at(s, p),
        forall|d: int| 0 < d < s.len() && #[trigger] parent(d) == p ==> rank(s[c]) <= rank(s[d]),
    ensures
        heap_but_at(swapped(s, p, c), c),
{
    let t = swapped(s, p, c);
    assert forall|i: int| 0 < i < t.len() && i != c && parent(i) != c implies #[trigger] edge(t, i) by {
        if i == p {
            assert(parent(c) == p);
        } else if parent(i) == p {
        } else {
            assert(edge(s, i));
        }
    }
    assert forall|d: int| 0 < d < t.len() && #[trigger] parent(d) == c implies rank(t[parent(c)])
        <= rank(t[d]) by {
        assert(edge(s, d));
    }
}

} // verus!
