//! Which target comes first, and why others do not count.
use crate::decide::hunt::MELEE_RANGE_TILES;
use crate::hunt4::model::{EntityClass, EntityView, Snapshot, LOCAL_CLEAR_RADIUS_TILES};
use crate::hunt4::step::TargetCandidate;
use crate::text::{decimal, hex_fixed, push_decimal, push_hex_fixed};
use vstd::prelude::*;

verus! {

/// The target to go for, and why.
#[derive(Debug, PartialEq, Eq)]
pub struct SelectedTarget {
    pub target_id: u32,
    pub reason: String,
}

impl Clone for SelectedTarget {
    fn clone(&self) -> (r: Self)
        ensures
            r == *self,
    {
        SelectedTarget { target_id: self.target_id, reason: self.reason.clone() }
    }
}

/// An entity that is no target, and why.
#[derive(Debug, PartialEq, Eq)]
pub struct RejectedTarget {
    pub target_id: u32,
    pub reason: String,
}

impl Clone for RejectedTarget {
    fn clone(&self) -> (r: Self)
        ensures
            r == *self,
    {
        RejectedTarget { target_id: self.target_id, reason: self.reason.clone() }
    }
}

/// The outcome of a selection.
#[derive(Debug, PartialEq, Eq)]
pub struct TargetSelectionFrame {
    pub selected: Option<SelectedTarget>,
    pub rejected: Vec<RejectedTarget>,
}

impl Clone for TargetSelectionFrame {
    fn clone(&self) -> (r: Self)
        ensures
            r.selected == self.selected,
            r.rejected@ == self.rejected@,
    {
        let r = TargetSelectionFrame {
            selected: self.selected.clone(),
            rejected: self.rejected.clone(),
        };
        assert(r.rejected@ =~= self.rejected@);
        r
    }
}

impl Default for TargetSelectionFrame {
    fn default() -> (r: Self)
        ensures
            r.selected is None,
            r.rejected@.len() == 0,
    {
        TargetSelectionFrame { selected: None, rejected: Vec::new() }
    }
}

/// A monster that is hidden or burrowed, and not in the world for now.
pub open spec fn is_hidden(e: EntityView) -> bool {
    e.class == EntityClass::NonWorldMonsterState
}

/// Whether an entity may become a candidate.
pub fn candidate_allowed(entity: &EntityView) -> (r: bool)
    ensures
        r == !is_hidden(*entity),
{
    !(entity.class == EntityClass::NonWorldMonsterState)
}

/// An attacker next to the player, which can be hit back whatever the way to it.
pub open spec fn adjacent_attacker(c: TargetCandidate) -> bool {
    c.is_attacker && c.entity_ptr != 0 && c.distance <= MELEE_RANGE_TILES
}

pub fn is_adjacent_attacker(c: &TargetCandidate) -> (r: bool)
    ensures
        r == adjacent_attacker(*c),
{
    c.is_attacker && c.entity_ptr != 0 && c.distance <= MELEE_RANGE_TILES
}

/// Adjacent attackers come first, then what is in range, then what can be
/// reached nearby, then what can be reached farther off, then the rest.
pub open spec fn tier(c: TargetCandidate) -> int {
    if adjacent_attacker(c) {
        0
    } else if c.reachable_path is None {
        4
    } else if c.in_attack_range {
        1
    } else if c.distance <= LOCAL_CLEAR_RADIUS_TILES {
        2
    } else {
        3
    }
}

/// Within a tier the nearer comes first; far off, the one with the shorter way.
pub open spec fn nearness(c: TargetCandidate) -> int {
    if tier(c) == 3 {
        c.reachable_path->0@.len() as int
    } else {
        c.distance as int
    }
}

/// Attackers come first among equals, and then the lower id.
pub open spec fn comes_before(a: TargetCandidate, b: TargetCandidate) -> bool {
    if tier(a) != tier(b) {
        tier(a) < tier(b)
    } else if nearness(a) != nearness(b) {
        nearness(a) < nearness(b)
    } else if a.is_attacker != b.is_attacker {
        a.is_attacker
    } else {
        a.target_id < b.target_id
    }
}

/// A ranked list with one more candidate, behind those that it does not come
/// before.
pub open spec fn rank_in(ranked: Seq<TargetCandidate>, c: TargetCandidate) -> Seq<TargetCandidate>
    decreases ranked.len(),
{
    if ranked.len() == 0 || !comes_before(c, ranked.last()) {
        ranked.push(c)
    } else {
        rank_in(ranked.drop_last(), c).push(ranked.last())
    }
}

/// The candidates by rank; equal ones keep their order.
pub open spec fn ranked(s: Seq<TargetCandidate>) -> Seq<TargetCandidate>
    decreases s.len(),
{
    if s.len() == 0 {
        s
    } else {
        rank_in(ranked(s.drop_last()), s.last())
    }
}

fn tier_of(c: &TargetCandidate) -> (r: u32)
    ensures
        r == tier(*c),
{
    if is_adjacent_attacker(c) {
        0
    } else if c.reachable_path.is_none() {
        4
    } else if c.in_attack_range {
        1
    } else if c.distance <= LOCAL_CLEAR_RADIUS_TILES {
        2
    } else {
        3
    }
}

fn nearness_of(c: &TargetCandidate) -> (r: u64)
    ensures
        r == nearness(*c),
{
    if tier_of(c) == 3 {
        match &c.reachable_path {
            Some(path) => path.len() as u64,
            None => c.distance as u64,
        }
    } else {
        c.distance as u64
    }
}

fn is_before(a: &TargetCandidate, b: &TargetCandidate) -> (r: bool)
    ensures
        r == comes_before(*a, *b),
{
    let ta: u32 = tier_of(a);
    let tb: u32 = tier_of(b);
    if ta != tb {
        return ta < tb;
    }
    let na: u64 = nearness_of(a);
    let nb: u64 = nearness_of(b);
    if na != nb {
        return na < nb;
    }
    if a.is_attacker != b.is_attacker {
        return a.is_attacker;
    }
    a.target_id < b.target_id
}

/// Puts the candidates in the order in which to go for them.
pub fn sort_candidates(candidates: &mut Vec<TargetCandidate>)
    ensures
        final(candidates)@ == ranked(old(candidates)@),
{
    let ghost start = candidates@;
    let n: usize = candidates.len();
    let mut i: usize = 0;
    assert(ranked(start.take(0)) =~= Seq::empty());
    assert(candidates@ =~= ranked(start.take(0)) + start.subrange(0, n as int));
    while i < n
        invariant
            i <= n,
            n == start.len(),
            ranked(start.take(i as int)).len() == i,
            candidates@ == ranked(start.take(i as int)) + start.subrange(i as int, n as int),
        decreases n - i,
    {
        let ghost head = ranked(start.take(i as int));
        let ghost x = start[i as int];
        assert(start.take(i + 1).drop_last() =~= start.take(i as int));
        assert(candidates@[i as int] == x);
        let mut at: usize = i;
        assert(head.take(i as int) =~= head);
        assert(head.subrange(i as int, i as int) =~= Seq::empty());
        while at > 0 && is_before(&candidates[i], &candidates[at - 1])
            invariant
                at <= i,
                i < n,
                n == start.len(),
                head.len() == i,
                x == start[i as int],
                candidates@ == head + start.subrange(i as int, n as int),
                rank_in(head, x) == rank_in(head.take(at as int), x) + head.subrange(
                    at as int,
                    i as int,
                ),
            decreases at,
        {
            assert(candidates@[i as int] == x);
            assert(candidates@[at - 1] == head[at - 1]);
            assert(head.take(at as int).last() == head[at - 1]);
            assert(head.take(at as int).drop_last() =~= head.take(at - 1));
            assert(rank_in(head.take(at as int), x) == rank_in(head.take(at - 1), x).push(
                head[at - 1],
            ));
            assert(rank_in(head.take(at - 1), x).push(head[at - 1]) + head.subrange(
                at as int,
                i as int,
            ) =~= rank_in(head.take(at - 1), x) + head.subrange(at - 1, i as int));
            at = at - 1;
        }
        assert(candidates@[i as int] == x);
        proof {
            if at > 0 {
                assert(candidates@[at - 1] == head[at - 1]);
                assert(head.take(at as int).last() == head[at - 1]);
            }
            assert(rank_in(head.take(at as int), x) =~= head.take(at as int).push(x));
        }
        let c = candidates.remove(i);
        assert(c == x);
        candidates.insert(at, c);
        assert(candidates@ =~= ranked(start.take(i + 1)) + start.subrange(i + 1, n as int));
        i = i + 1;
    }
    assert(start.take(n as int) =~= start);
    assert(candidates@ =~= ranked(start));
}

/// The order is a strict weak order: nothing comes before itself, and it is
/// transitive.
pub proof fn law_order(a: TargetCandidate, b: TargetCandidate, c: TargetCandidate)
    ensures
        !comes_before(a, a),
        comes_before(a, b) && comes_before(b, c) ==> comes_before(a, c),
        comes_before(a, b) ==> !comes_before(b, a),
{
}

proof fn lemma_rank_in(s: Seq<TargetCandidate>, c: TargetCandidate)
    requires
        forall|i: int, j: int| 0 <= i < j < s.len() ==> !comes_before(#[trigger] s[j], #[trigger] s[i]),
    ensures
        ({
            let t = rank_in(s, c);
            &&& t.len() == s.len() + 1
            &&& t.to_multiset() == s.to_multiset().insert(c)
            &&& forall|i: int, j: int|
                0 <= i < j < t.len() ==> !comes_before(#[trigger] t[j], #[trigger] t[i])
            &&& forall|i: int| 0 <= i < t.len() ==> (#[trigger] t[i] == c || s.contains(t[i]))
        }),
    decreases s.len(),
{
    broadcast use vstd::seq_lib::group_to_multiset_ensures;

    let t = rank_in(s, c);
    if s.len() == 0 || !comes_before(c, s.last()) {
        assert forall|i: int, j: int| 0 <= i < j < t.len() implies !comes_before(
            #[trigger] t[j],
            #[trigger] t[i],
        ) by {
            if j == s.len() {
                if i < s.len() - 1 {
                    assert(!comes_before(s[s.len() - 1], s[i]));
                    law_order(c, s.last(), s[i]);
                }
            } else {
                assert(!comes_before(s[j], s[i]));
            }
        }
    } else {
        let rest = s.drop_last();
        let u = rank_in(rest, c);
        assert forall|i: int, j: int| 0 <= i < j < rest.len() implies !comes_before(
            #[trigger] rest[j],
            #[trigger] rest[i],
        ) by {
            assert(!comes_before(s[j], s[i]));
        }
        lemma_rank_in(rest, c);
        assert(s =~= rest.push(s.last()));
        assert(t.to_multiset() =~= s.to_multiset().insert(c));
        assert forall|i: int, j: int| 0 <= i < j < t.len() implies !comes_before(
            #[trigger] t[j],
            #[trigger] t[i],
        ) by {
            if j == u.len() {
                assert(t[i] == u[i]);
                if u[i] == c {
                    law_order(c, s.last(), c);
                } else {
                    let k = choose|k: int| 0 <= k < rest.len() && rest[k] == u[i];
                    assert(!comes_before(s[s.len() - 1], s[k]));
                }
            } else {
                assert(!comes_before(u[j], u[i]));
            }
        }
        assert forall|i: int| 0 <= i < t.len() implies (#[trigger] t[i] == c || s.contains(t[i])) by {
            if i < u.len() {
                assert(t[i] == u[i]);
                if u[i] != c {
                    let k = choose|k: int| 0 <= k < rest.len() && rest[k] == u[i];
                    assert(s[k] == t[i]);
                }
            } else {
                assert(s[s.len() - 1] == t[i]);
            }
        }
    }
}

/// Ranking keeps every candidate and puts none behind one that it comes before.
pub proof fn law_ranked(s: Seq<TargetCandidate>)
    ensures
        ranked(s).len() == s.len(),
        ranked(s).to_multiset() == s.to_multiset(),
        forall|i: int, j: int|
            0 <= i < j < s.len() ==> !comes_before(#[trigger] ranked(s)[j], #[trigger] ranked(s)[i]),
    decreases s.len(),
{
    broadcast use vstd::seq_lib::group_to_multiset_ensures;

    if s.len() > 0 {
        law_ranked(s.drop_last());
        lemma_rank_in(ranked(s.drop_last()), s.last());
        assert(s =~= s.drop_last().push(s.last()));
    }
}

/// Why a candidate was selected.
pub open spec fn selection_reason(c: TargetCandidate) -> Seq<char> {
    (if c.reachable_path is Some {
        "reachable "@
    } else {
        "unreachable "@
    }) + (if c.in_attack_range {
        "in_range "@
    } else {
        "approach "@
    }) + (if c.is_attacker {
        "attacker "@
    } else {
        seq![]
    }) + "distance="@ + decimal(c.distance as nat)
}

/// A candidate that can be gone for.
pub open spec fn selectable(c: TargetCandidate) -> bool {
    c.reachable_path is Some || adjacent_attacker(c)
}

/// The first candidate that can be gone for.
pub open spec fn first_selectable(s: Seq<TargetCandidate>, from: int) -> Option<TargetCandidate>
    decreases s.len() - from,
{
    if from < 0 || from >= s.len() {
        None
    } else if selectable(s[from]) {
        Some(s[from])
    } else {
        first_selectable(s, from + 1)
    }
}

/// Why a hidden monster is no target.
pub open spec fn hidden_reason(e: EntityView) -> Seq<char> {
    "HiddenOrBurrowed action_state=0x"@ + hex_fixed(e.action_state as nat, 2)
}

/// The hidden monsters among some entities, each with the reason.
pub open spec fn rejections(s: Seq<EntityView>) -> Seq<(u32, Seq<char>)>
    decreases s.len(),
{
    if s.len() == 0 {
        seq![]
    } else if is_hidden(s.last()) {
        rejections(s.drop_last()).push((s.last().target_id, hidden_reason(s.last())))
    } else {
        rejections(s.drop_last())
    }
}

pub open spec fn rejected_views(s: Seq<RejectedTarget>) -> Seq<(u32, Seq<char>)> {
    Seq::new(s.len(), |i: int| (s[i].target_id, s[i].reason@))
}

fn reason_for_selection(c: &TargetCandidate) -> (r: String)
    ensures
        r@ == selection_reason(*c),
{
    let mut out = String::new();
    if c.reachable_path.is_some() {
        out.append("reachable ");
    } else {
        out.append("unreachable ");
    }
    if c.in_attack_range {
        out.append("in_range ");
    } else {
        out.append("approach ");
    }
    if c.is_attacker {
        out.append("attacker ");
    }
    out.append("distance=");
    push_decimal(&mut out, c.distance as u64);
    assert(out@ =~= selection_reason(*c));
    out
}

/// Selects the first candidate that can be gone for, and lists the hidden
/// monsters.
pub fn select_target(candidates: &[TargetCandidate], snapshot: &Snapshot) -> (r:
    TargetSelectionFrame)
    ensures
        match first_selectable(candidates@, 0) {
            Some(c) => r.selected matches Some(t) && t.target_id == c.target_id && t.reason@
                == selection_reason(c),
            None => r.selected is None,
        },
        rejected_views(r.rejected@) == rejections(snapshot.entities@),
{
    let mut selected: Option<SelectedTarget> = None;
    let mut i: usize = 0;
    while i < candidates.len() && selected.is_none()
        invariant
            i <= candidates@.len(),
            match selected {
                None => first_selectable(candidates@, 0) == first_selectable(candidates@, i as int),
                Some(t) => first_selectable(candidates@, 0) matches Some(c) && t.target_id
                    == c.target_id && t.reason@ == selection_reason(c),
            },
        decreases candidates@.len() - i,
    {
        let c: &TargetCandidate = &candidates[i];
        if c.reachable_path.is_some() || is_adjacent_attacker(c) {
            selected = Some(
                SelectedTarget { target_id: c.target_id, reason: reason_for_selection(c) },
            );
        }
        i = i + 1;
    }
    let mut rejected: Vec<RejectedTarget> = Vec::new();
    let mut j: usize = 0;
    assert(rejected_views(rejected@) =~= rejections(snapshot.entities@.take(0)));
    while j < snapshot.entities.len()
        invariant
            j <= snapshot.entities@.len(),
            rejected_views(rejected@) == rejections(snapshot.entities@.take(j as int)),
        decreases snapshot.entities@.len() - j,
    {
        assert(snapshot.entities@.take(j + 1).drop_last() =~= snapshot.entities@.take(j as int));
        let e: &EntityView = &snapshot.entities[j];
        let ghost before = rejected@;
        if !candidate_allowed(e) {
            let mut reason = String::new();
            reason.append("HiddenOrBurrowed action_state=0x");
            push_hex_fixed(&mut reason, e.action_state as u32, 2);
            assert(reason@ =~= hidden_reason(*e));
            rejected.push(RejectedTarget { target_id: e.target_id, reason });
            assert(rejected_views(rejected@) =~= rejected_views(before).push(
                (e.target_id, hidden_reason(*e)),
            ));
        }
        j = j + 1;
    }
    assert(snapshot.entities@.take(j as int) =~= snapshot.entities@);
    TargetSelectionFrame { selected, rejected }
}

} // verus!
