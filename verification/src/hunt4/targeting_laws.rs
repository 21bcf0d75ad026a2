//! Which target comes first, told by what is known of the candidates.
use crate::hunt4::candidate::is_selection;
use crate::hunt4::model::EntityView;
use crate::hunt4::score::{are_summaries, TargetScoreSummary};
use crate::hunt4::step::TargetCandidate;
use crate::hunt4::targeting::{
    comes_before, first_selectable, law_order, law_ranked, ranked, rank_in, rejections,
    TargetSelectionFrame,
};
use vstd::prelude::*;

verus! {

/// An attacker on the next tile.
pub open spec fn at_hand(c: TargetCandidate) -> bool {
    c.is_attacker && c.entity_ptr != 0 && c.distance <= 1
}

/// What decides first between two candidates: an attacker at hand before all
/// others; then any with a way to it before one without; of those, one in range;
/// of those out of range, one within six tiles.
pub proof fn law_order_by_kind(a: TargetCandidate, b: TargetCandidate)
    ensures
        at_hand(a) && !at_hand(b) ==> comes_before(a, b),
        !at_hand(a) && !at_hand(b) && a.reachable_path is Some && b.reachable_path is None
            ==> comes_before(a, b),
        !at_hand(a) && !at_hand(b) && a.reachable_path is Some && b.reachable_path is Some
            && a.in_attack_range && !b.in_attack_range ==> comes_before(a, b),
        !at_hand(a) && !at_hand(b) && a.reachable_path is Some && b.reachable_path is Some
            && !a.in_attack_range && !b.in_attack_range && a.distance <= 6 && b.distance > 6
            ==> comes_before(a, b),
{
}

/// Two candidates of one kind.
pub open spec fn alike(a: TargetCandidate, b: TargetCandidate) -> bool {
    &&& at_hand(a) == at_hand(b)
    &&& at_hand(a) || {
        &&& a.reachable_path is Some == b.reachable_path is Some
        &&& a.reachable_path is Some ==> {
            &&& a.in_attack_range == b.in_attack_range
            &&& a.in_attack_range || (a.distance <= 6) == (b.distance <= 6)
        }
    }
}

/// The candidate is more than six tiles off, and a walk away.
pub open spec fn far_off(c: TargetCandidate) -> bool {
    !at_hand(c) && c.reachable_path is Some && !c.in_attack_range && c.distance > 6
}

/// Of two candidates of one kind the nearer comes first; of two far off, the one
/// with the shorter way. Where that is equal an attacker comes first, and then
/// the lower id.
pub proof fn law_order_within_kind(a: TargetCandidate, b: TargetCandidate)
    requires
        alike(a, b),
    ensures
        ({
            let (near_a, near_b) = if far_off(a) {
                (a.reachable_path->0@.len() as int, b.reachable_path->0@.len() as int)
            } else {
                (a.distance as int, b.distance as int)
            };
            &&& near_a < near_b ==> comes_before(a, b)
            &&& near_a == near_b && a.is_attacker && !b.is_attacker ==> comes_before(a, b)
            &&& near_a == near_b && a.is_attacker == b.is_attacker && a.target_id < b.target_id
                ==> comes_before(a, b)
            &&& near_a == near_b && a.is_attacker == b.is_attacker && a.target_id == b.target_id
                ==> !comes_before(a, b)
        }),
{
}

/// One more candidate in a ranked list stands behind all that it does not come
/// before, and the others keep their places among each other.
proof fn lemma_place(s: Seq<TargetCandidate>, c: TargetCandidate) -> (k: int)
    ensures
        0 <= k <= s.len(),
        rank_in(s, c) == s.take(k).push(c) + s.skip(k),
        k == 0 || !comes_before(c, s[k - 1]),
        forall|i: int| k <= i < s.len() ==> comes_before(c, #[trigger] s[i]),
    decreases s.len(),
{
    if s.len() == 0 || !comes_before(c, s.last()) {
        assert(s.push(c) =~= s.take(s.len() as int).push(c) + s.skip(s.len() as int));
        s.len() as int
    } else {
        let rest = s.drop_last();
        let k = lemma_place(rest, c);
        assert(rank_in(s, c) =~= s.take(k).push(c) + s.skip(k));
        assert forall|i: int| k <= i < s.len() implies comes_before(c, #[trigger] s[i]) by {
            if i < rest.len() {
                assert(comes_before(c, rest[i]));
            }
        }
        k
    }
}

/// Ranking puts one more candidate behind all that it does not come before, and
/// moves no other.
pub proof fn law_ranked_one_by_one(s: Seq<TargetCandidate>, c: TargetCandidate) -> (k: int)
    ensures
        0 <= k <= s.len(),
        ranked(s.push(c)) == ranked(s).take(k).push(c) + ranked(s).skip(k),
        forall|i: int| 0 <= i < k ==> !comes_before(c, #[trigger] ranked(s)[i]),
        forall|i: int| k <= i < s.len() ==> comes_before(c, #[trigger] ranked(s)[i]),
{
    assert(s.push(c).drop_last() =~= s);
    law_ranked(s);
    let r = ranked(s);
    let k = lemma_place(r, c);
    assert forall|i: int| 0 <= i < k implies !comes_before(c, #[trigger] r[i]) by {
        if i < k - 1 {
            assert(!comes_before(r[k - 1], r[i]));
            law_order(c, r[i], r[k - 1]);
            lemma_negative(c, r[k - 1], r[i]);
        }
    }
    k
}

proof fn lemma_negative(a: TargetCandidate, b: TargetCandidate, c: TargetCandidate)
    ensures
        !comes_before(a, b) && !comes_before(b, c) ==> !comes_before(a, c),
{
}

/// The selected target is the first that can be gone for: there is a way to it, or
/// it attacks from the next tile.
pub proof fn law_first_to_go_for(
    t: TargetSelectionFrame,
    candidates: Seq<TargetCandidate>,
    entities: Seq<EntityView>,
    k: int,
)
    requires
        is_selection(t, candidates, entities),
    ensures
        0 <= k < candidates.len() && (candidates[k].reachable_path is Some || at_hand(candidates[k]))
            && (forall|j: int|
            0 <= j < k ==> (#[trigger] candidates[j]).reachable_path is None && !at_hand(
                candidates[j],
            )) ==> t.selected is Some && t.selected->0.target_id == candidates[k].target_id,
        (forall|j: int|
            0 <= j < candidates.len() ==> (#[trigger] candidates[j]).reachable_path is None
                && !at_hand(candidates[j])) ==> t.selected is None,
{
    if 0 <= k < candidates.len() && (forall|j: int|
        0 <= j < k ==> (#[trigger] candidates[j]).reachable_path is None && !at_hand(
            candidates[j],
        )) {
        lemma_skip(candidates, 0, k);
    }
    if forall|j: int|
        0 <= j < candidates.len() ==> (#[trigger] candidates[j]).reachable_path is None && !at_hand(
            candidates[j],
        ) {
        lemma_skip(candidates, 0, candidates.len() as int);
    }
}

proof fn lemma_skip(s: Seq<TargetCandidate>, from: int, k: int)
    requires
        0 <= from <= k <= s.len(),
        forall|j: int|
            from <= j < k ==> (#[trigger] s[j]).reachable_path is None && !at_hand(s[j]),
    ensures
        first_selectable(s, from) == first_selectable(s, k),
    decreases k - from,
{
    if from < k {
        assert(s[from].reachable_path is None && !at_hand(s[from]));
        lemma_skip(s, from + 1, k);
    }
}

/// Hidden monsters are rejected, one after the other, and nothing else is.
pub proof fn law_hidden_are_rejected(a: Seq<EntityView>, b: Seq<EntityView>, e: EntityView)
    ensures
        rejections(a + b) == rejections(a) + rejections(b),
        e.class is NonWorldMonsterState ==> rejections(seq![e]).len() == 1 && rejections(
            seq![e],
        )[0].0 == e.target_id,
        !(e.class is NonWorldMonsterState) ==> rejections(seq![e]).len() == 0,
    decreases b.len(),
{
    assert(seq![e].drop_last() =~= Seq::<EntityView>::empty());
    assert(rejections(Seq::<EntityView>::empty()) =~= seq![]);
    if b.len() > 0 {
        assert((a + b).drop_last() =~= a + b.drop_last());
        law_hidden_are_rejected(a, b.drop_last(), e);
        assert(rejections(a + b) =~= rejections(a) + rejections(b));
    } else {
        assert(a + b =~= a);
        assert(rejections(a + b) =~= rejections(a) + rejections(b));
    }
}

/// Summaries tell rank by rank what is known: the best is first, and a way is told
/// by its length and its first tile.
pub proof fn law_summaries(s: Seq<TargetScoreSummary>, c: Seq<TargetCandidate>, i: int)
    requires
        are_summaries(s, c),
        0 <= i < c.len(),
    ensures
        s.len() == c.len(),
        s[i].rank == i + 1,
        s[i].target_id == c[i].target_id && s[i].entity_ptr == c[i].entity_ptr,
        s[i].name == c[i].name && s[i].tile == c[i].tile && s[i].distance == c[i].distance,
        s[i].in_attack_range == c[i].in_attack_range && s[i].is_attacker == c[i].is_attacker,
        s[i].reachable <==> c[i].reachable_path is Some,
        s[i].approach_steps is Some <==> c[i].reachable_path is Some,
        c[i].reachable_path is Some ==> s[i].approach_steps->0 == c[i].reachable_path->0.len(),
        s[i].approach_next_tile is Some <==> c[i].reachable_path is Some
            && c[i].reachable_path->0@.len() > 0,
        s[i].approach_next_tile is Some ==> s[i].approach_next_tile->0
            == c[i].reachable_path->0@[0],
{
}

} // verus!
