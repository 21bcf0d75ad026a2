//! What can be gone for, told by tiles and by what is remembered.
use crate::action::walk_laws::{law_distance, steps_between, steps_within};
use crate::decide::pathfind::{
    is_found_route, is_route, many_on_the_way, reaches_goal, route_cost, Walkable, MAX_ITERATIONS,
};
use crate::hunt4::memory::TacticalMemory;
use crate::hunt4::model::{EntityView, Snapshot};
use crate::hunt4::overlay::ObstacleOverlay;
use crate::hunt4::planner::{
    are_candidates, candidate_overlay, considered, describes, hopeful_tile, is_attack_tile,
    is_candidate_list, is_occupied, is_reach, line_clear, line_link_clear, line_steps, line_tile,
    nearest_quotient, worth_considering,
};
use crate::hunt4::step::TargetCandidate;
use crate::hunt4::targeting::{law_ranked, ranked};
use crate::time::Instant;
use vstd::prelude::*;

verus! {

/// Without a map a target out of range is gone for in a straight line: the one
/// tile of the way lies on the player's side of the target, exactly as far from it
/// as the attack reaches, and so nearer to it than the player. This holds short of
/// the last coordinate.
pub proof fn law_way_without_map<G: Walkable>(
    player: (i32, i32),
    target: (i32, i32),
    attack_range: u32,
    in_range: bool,
    path: Option<Vec<(i32, i32)>>,
    n: int,
)
    requires
        is_reach(
            player,
            target,
            attack_range,
            None::<&ObstacleOverlay<'static, G>>,
            in_range,
            path,
        ),
        attack_range >= 1,
        !steps_within(player, target, attack_range as int),
        i32::MIN <= target.0 - attack_range && target.0 + attack_range <= i32::MAX,
        i32::MIN <= target.1 - attack_range && target.1 + attack_range <= i32::MAX,
    ensures
        !in_range,
        path is Some && path->0@.len() == 1,
        steps_between(path->0@[0], target, attack_range as int),
        steps_within(player, target, n) ==> steps_within(path->0@[0], target, n - 1),
        target.0 < player.0 ==> path->0@[0].0 == target.0 + attack_range,
        target.0 > player.0 ==> path->0@[0].0 == target.0 - attack_range,
        target.0 == player.0 ==> path->0@[0].0 == target.0,
        target.1 < player.1 ==> path->0@[0].1 == target.1 + attack_range,
        target.1 > player.1 ==> path->0@[0].1 == target.1 - attack_range,
        target.1 == player.1 ==> path->0@[0].1 == target.1,
{
    law_distance(target, player, attack_range as int);
    let r = attack_range as int;
    let sx = crate::action::walk::sign(target.0 - player.0);
    let sy = crate::action::walk::sign(target.1 - player.1);
    assert(sx * r == (if sx == 1 {
        r
    } else if sx == -1 {
        -r
    } else {
        0
    })) by (nonlinear_arith)
        requires
            sx == 1 || sx == -1 || sx == 0,
    ;
    assert(sy * r == (if sy == 1 {
        r
    } else if sy == -1 {
        -r
    } else {
        0
    })) by (nonlinear_arith)
        requires
            sy == 1 || sy == -1 || sy == 0,
    ;
    assert(path->0@ == seq![hopeful_tile(player, target, attack_range)]);
}

/// Without a map a target in range needs no way, and one that can only be hit
/// where it stands is walked up to.
pub proof fn law_in_range_without_map<G: Walkable>(
    player: (i32, i32),
    target: (i32, i32),
    attack_range: u32,
    in_range: bool,
    path: Option<Vec<(i32, i32)>>,
)
    requires
        is_reach(
            player,
            target,
            attack_range,
            None::<&ObstacleOverlay<'static, G>>,
            in_range,
            path,
        ),
    ensures
        in_range <==> steps_within(player, target, attack_range as int),
        path is Some,
        in_range ==> path->0@.len() == 0,
        !in_range && attack_range == 0 ==> path->0@ == seq![target],
{
    law_distance(target, player, attack_range as int);
}

/// A tile to attack from: free, within reach of the attack, not the target's own,
/// and with a clear line.
pub open spec fn attack_from<'a, G: Walkable>(
    o: &ObstacleOverlay<'a, G>,
    target: (i32, i32),
    attack_range: u32,
    t: (i32, i32),
) -> bool {
    &&& attack_range <= 0x7fff_ffff
    &&& t != target
    &&& steps_within(t, target, attack_range as int)
    &&& o.walkable(t)
    &&& line_clear(t, target, o)
}

/// With a map a target is in range where it is within reach and the line is clear.
/// Next to the player it is not walked round; else the way leads to a tile to
/// attack from, and no walk to any of these is cheaper.
pub proof fn law_way_with_map<'a, G: Walkable>(
    player: (i32, i32),
    target: (i32, i32),
    attack_range: u32,
    o: &ObstacleOverlay<'a, G>,
    in_range: bool,
    path: Option<Vec<(i32, i32)>>,
    other: Seq<(i32, i32)>,
)
    requires
        is_reach(player, target, attack_range, Some(o), in_range, path),
    ensures
        in_range <==> steps_within(player, target, attack_range as int) && line_clear(
            player,
            target,
            o,
        ),
        in_range ==> path is Some && path->0@.len() == 0,
        !in_range && steps_within(player, target, attack_range as int) && steps_within(
            player,
            target,
            1,
        ) ==> path is None,
        !in_range && path is Some ==> {
            &&& path->0@.len() > 0
            &&& is_route(o, player, path->0@)
            &&& attack_from(o, target, attack_range, path->0@.last())
            &&& is_route(o, player, other) && other.len() > 0 && attack_from(
                o,
                target,
                attack_range,
                other.last(),
            ) ==> route_cost(o, player, path->0@) <= route_cost(o, player, other)
        },
{
    law_distance(target, player, attack_range as int);
    law_distance(player, target, 1);
    let near = steps_within(player, target, attack_range as int);
    if !(near && line_clear(player, target, o)) && !(near && steps_within(player, target, 1)) {
        let goals = choose|goals: Seq<(i32, i32)>|
            (forall|t: (i32, i32)| #[trigger]
                goals.contains(t) <==> is_attack_tile(target, attack_range, o, t))
                && #[trigger] is_found_route(o, player, goals, path);
        law_distance(player, target, attack_range as int);
        assert(!goals.contains(player)) by {
            assert(goals.contains(player) <==> is_attack_tile(target, attack_range, o, player));
        }
        if path is Some {
            let end = path->0@.last();
            assert(goals.contains(end));
            law_distance(end, target, attack_range as int);
            if other.len() > 0 && attack_from(o, target, attack_range, other.last()) {
                law_distance(other.last(), target, attack_range as int);
                assert(goals.contains(other.last()));
                if is_route(o, player, other) {
                    assert(reaches_goal(o, player, goals, other));
                }
            }
        }
    }
}

/// With a map there is no way to a target that is not next to the player only
/// where every walk to a tile to attack from is so long that the search may give
/// up.
pub proof fn law_no_way_with_map<'a, G: Walkable>(
    player: (i32, i32),
    target: (i32, i32),
    attack_range: u32,
    o: &ObstacleOverlay<'a, G>,
    in_range: bool,
    other: Seq<(i32, i32)>,
) -> (goals: Seq<(i32, i32)>)
    requires
        is_reach(player, target, attack_range, Some(o), in_range, None),
        !(steps_within(player, target, attack_range as int) && steps_within(player, target, 1)),
        is_route(o, player, other) && other.len() > 0,
        attack_from(o, target, attack_range, other.last()),
    ensures
        forall|t: (i32, i32)| #[trigger]
            goals.contains(t) <==> attack_from(o, target, attack_range, t),
        many_on_the_way(
            o,
            player,
            goals,
            route_cost(o, player, other),
            (MAX_ITERATIONS / 8) as nat,
        ),
{
    law_distance(target, player, attack_range as int);
    law_distance(player, target, 1);
    let path: Option<Vec<(i32, i32)>> = None;
    let goals = choose|goals: Seq<(i32, i32)>|
        (forall|t: (i32, i32)| #[trigger]
            goals.contains(t) <==> is_attack_tile(target, attack_range, o, t))
            && #[trigger] is_found_route(o, player, goals, path);
    law_distance(player, target, attack_range as int);
    assert(!goals.contains(player)) by {
        assert(goals.contains(player) <==> is_attack_tile(target, attack_range, o, player));
    }
    assert forall|t: (i32, i32)| #[trigger] goals.contains(t) <==> attack_from(
        o,
        target,
        attack_range,
        t,
    ) by {
        law_distance(t, target, attack_range as int);
    }
    assert(reaches_goal(o, player, goals, other));
    goals
}

/// The offset is `k` parts in `d` of a distance, to the nearest whole number, and
/// a half away from zero.
pub open spec fn is_share(dx: int, k: int, d: int, off: int) -> bool {
    &&& dx >= 0 ==> off >= 0 && -d < 2 * (d * off) - 2 * (dx * k) <= d
    &&& dx <= 0 ==> off <= 0 && -d < 2 * (dx * k) - 2 * (d * off) <= d
}

proof fn lemma_share(dx: int, k: int, d: int)
    requires
        -d <= dx <= d,
        0 <= k <= d,
        d > 0,
    ensures
        is_share(dx, k, d, nearest_quotient(dx * k, d)),
        dx >= 0 ==> nearest_quotient(dx * k, d) <= dx,
        dx <= 0 ==> nearest_quotient(dx * k, d) >= dx,
{
    let a = if dx >= 0 {
        dx
    } else {
        -dx
    };
    let p = a * k;
    assert(0 <= p <= a * d) by (nonlinear_arith)
        requires
            p == a * k,
            0 <= a,
            0 <= k <= d,
    ;
    if dx < 0 {
        assert(dx * k == -p) by (nonlinear_arith)
            requires
                a == -dx,
                p == a * k,
        ;
    }
    let q = (p + d / 2) / d;
    assert(d * q <= p + d / 2 < d * q + d) by (nonlinear_arith)
        requires
            q == (p + d / 2) / d,
            d > 0,
    ;
    assert(0 <= q <= a) by (nonlinear_arith)
        requires
            q == (p + d / 2) / d,
            0 <= p <= a * d,
            d > 0,
    ;
    assert(2 * (d * q) - 2 * p != -d) by {
        if d % 2 == 0 {
            assert(2 * (d / 2) == d);
        }
    }
    if p == 0 {
        assert(q == 0) by (nonlinear_arith)
            requires
                q == (0 + d / 2) / d,
                d > 0,
        ;
        assert(d * q == 0) by (nonlinear_arith)
            requires
                q == 0,
        ;
    }
    if dx == 0 {
        assert(p == 0) by (nonlinear_arith)
            requires
                p == a * k,
                a == 0,
        ;
        assert((0 + d / 2) / d == 0) by (nonlinear_arith)
            requires
                d > 0,
        ;
    }
    if dx < 0 {
        assert(d * (-q) == -(d * q)) by (nonlinear_arith);
    }
}

/// The line from one tile to another keeps as close to the straight one as whole
/// tiles allow, begins with the first tile and ends with the last.
pub proof fn law_straight_line(from: (i32, i32), target: (i32, i32), d: int, k: int)
    requires
        steps_between(from, target, d),
        d >= 1,
        0 <= k <= d,
    ensures
        line_steps(from, target) == d,
        is_share(target.0 - from.0, k, d, line_tile(from, target, k).0 - from.0),
        is_share(target.1 - from.1, k, d, line_tile(from, target, k).1 - from.1),
        k == 0 ==> line_tile(from, target, k) == from,
        k == d ==> line_tile(from, target, k) == target,
{
    law_distance(from, target, d);
    lemma_share(target.0 - from.0, k, d);
    lemma_share(target.1 - from.1, k, d);
    lemma_ends(target.0 - from.0, d);
    lemma_ends(target.1 - from.1, d);
}

proof fn lemma_ends(dx: int, d: int)
    requires
        d > 0,
    ensures
        nearest_quotient(dx * 0, d) == 0,
        nearest_quotient(dx * d, d) == dx,
{
    assert((0 + d / 2) / d == 0) by (nonlinear_arith)
        requires
            d > 0,
    ;
    let a = if dx >= 0 {
        dx
    } else {
        -dx
    };
    assert((a * d + d / 2) / d == a) by (nonlinear_arith)
        requires
            d > 0,
            a >= 0,
    ;
    if dx < 0 {
        assert(dx * d == -(a * d) && a * d > 0) by (nonlinear_arith)
            requires
                a == -dx,
                dx < 0,
                d > 0,
        ;
    } else {
        assert(dx * d >= 0) by (nonlinear_arith)
            requires
                dx >= 0,
                d > 0,
        ;
    }
}

/// A line is clear where the target is not hidden by its own tile, an attack
/// passes from each tile of the line to the next, and none between hides the
/// target.
pub proof fn law_clear_line<'a, G: Walkable>(
    from: (i32, i32),
    target: (i32, i32),
    o: &ObstacleOverlay<'a, G>,
    d: int,
)
    requires
        steps_between(from, target, d),
        d >= 1,
    ensures
        line_clear(from, target, o) <==> {
            &&& !o.hides(target, target)
            &&& forall|k: int|
                1 <= k <= d ==> line_tile(from, target, k - 1) == #[trigger] line_tile(
                    from,
                    target,
                    k,
                ) || o.attack_passes(
                    line_tile(from, target, k - 1),
                    line_tile(from, target, k),
                    target,
                )
            &&& forall|k: int|
                1 <= k < d ==> #[trigger] line_tile(from, target, k) == from || !o.hides(
                    line_tile(from, target, k),
                    target,
                )
        },
{
    law_straight_line(from, target, d, 0);
    law_straight_line(from, target, d, d);
    law_straight_line(from, target, d, d - 1);
    let last = line_tile(from, target, d - 1);
    assert(last != target) by {
        lemma_before_last(from, target, d);
    }
    if line_clear(from, target, o) {
        assert forall|k: int| 1 <= k <= d implies line_tile(from, target, k - 1) == #[trigger] line_tile(
            from,
            target,
            k,
        ) || o.attack_passes(
            line_tile(from, target, k - 1),
            line_tile(from, target, k),
            target,
        ) by {
            if k < d {
                assert(line_link_clear(from, target, o, k));
            }
        }
        assert forall|k: int| 1 <= k < d implies #[trigger] line_tile(from, target, k) == from
            || !o.hides(line_tile(from, target, k), target) by {
            assert(line_link_clear(from, target, o, k));
        }
    }
    if !o.hides(target, target) && (forall|k: int|
        1 <= k <= d ==> line_tile(from, target, k - 1) == #[trigger] line_tile(from, target, k)
            || o.attack_passes(
            line_tile(from, target, k - 1),
            line_tile(from, target, k),
            target,
        )) && (forall|k: int|
        1 <= k < d ==> #[trigger] line_tile(from, target, k) == from || !o.hides(
            line_tile(from, target, k),
            target,
        )) {
        assert(line_tile(from, target, d) == target);
        assert forall|k: int| 1 <= k < d implies #[trigger] line_link_clear(from, target, o, k) by {
            let cur = line_tile(from, target, k);
        }
    }
}

proof fn lemma_before_last(from: (i32, i32), target: (i32, i32), d: int)
    requires
        steps_between(from, target, d),
        d >= 1,
    ensures
        line_tile(from, target, d - 1) != target,
{
    law_straight_line(from, target, d, d - 1);
    let dx = target.0 - from.0;
    let dy = target.1 - from.1;
    lemma_not_there(dx, d);
    lemma_not_there(dy, d);
}

proof fn lemma_not_there(dx: int, d: int)
    requires
        d >= 1,
        dx == d || dx == -d || -d < dx < d,
    ensures
        dx == d || dx == -d ==> !is_share(dx, d - 1, d, dx),
{
    if dx == d {
        assert(2 * (d * d) - 2 * (d * (d - 1)) == 2 * d) by (nonlinear_arith);
    }
    if dx == -d {
        assert(2 * ((-d) * (d - 1)) - 2 * (d * (-d)) == 2 * d) by (nonlinear_arith);
    }
}

/// On its own tile a target is attacked where one can stand there and it does not
/// hide.
pub proof fn law_line_to_own_tile<'a, G: Walkable>(t: (i32, i32), o: &ObstacleOverlay<'a, G>)
    ensures
        line_clear(t, t, o) <==> o.inner.walkable(t) && !o.inner.sight_blocked(t),
{
}

/// A target is worth considering unless it is being left alone; one that could not
/// be reached is considered all the same while it attacks.
pub proof fn law_worth_considering(
    memory: TacticalMemory,
    id: u32,
    attackers: Set<u32>,
    now: Instant,
)
    ensures
        ({
            let left_alone = memory.failed_targets@.contains_key(id) && now.nanos
                < memory.failed_targets@[id].until.nanos;
            let cause = memory.failed_targets@[id].cause;
            &&& !left_alone ==> worth_considering(memory, id, attackers, now)
            &&& left_alone && cause is AttackRejected ==> !worth_considering(
                memory,
                id,
                attackers,
                now,
            )
            &&& left_alone && cause is Unreachable ==> (worth_considering(memory, id, attackers, now)
                <==> attackers.contains(id))
        }),
{
}

/// What is said of a candidate is true of the entity: its tile, its distance, and
/// whether it attacks.
pub proof fn law_description<'a, G: Walkable>(
    e: EntityView,
    c: TargetCandidate,
    player: (i32, i32),
    attack_range: u32,
    overlay: Option<&ObstacleOverlay<'a, G>>,
    attackers: Set<u32>,
)
    requires
        describes(e, c, player, attack_range, overlay, attackers),
    ensures
        c.target_id == e.target_id && c.entity_ptr == e.entity_ptr && c.name == e.name,
        c.tile == e.tile,
        steps_between(c.tile, player, c.distance as int),
        c.is_attacker <==> attackers.contains(e.target_id),
        is_reach(player, e.tile, attack_range, overlay, c.in_attack_range, c.reachable_path),
{
    law_distance(e.tile, player, c.distance as int);
}

/// Entities stand in the way on their tiles, but not on the player's.
pub proof fn law_occupied_tiles(entities: Seq<EntityView>, player: (i32, i32), i: int)
    requires
        0 <= i < entities.len(),
        entities[i].blocking(),
    ensures
        is_occupied(entities, player, entities[i].tile) <==> entities[i].tile != player,
        !is_occupied(entities, player, player),
{
}

/// A monster that is seen alive, in the world and worth considering.
pub open spec fn eligible(
    e: EntityView,
    memory: TacticalMemory,
    attackers: Set<u32>,
    now: Instant,
) -> bool {
    &&& e.live()
    &&& !(e.class is NonWorldMonsterState)
    &&& !memory.target_failed(e.target_id, now) || (memory.failed_targets@[e.target_id].cause
        is Unreachable && attackers.contains(e.target_id))
}

proof fn lemma_listed<'a, G: Walkable>(
    entities: Seq<EntityView>,
    list: Seq<TargetCandidate>,
    player: (i32, i32),
    attack_range: u32,
    overlay: Option<&ObstacleOverlay<'a, G>>,
    memory: TacticalMemory,
    attackers: Set<u32>,
    now: Instant,
    j: int,
) -> (r: (TargetCandidate, int))
    requires
        is_candidate_list(entities, list, player, attack_range, overlay, memory, attackers, now),
        0 <= j < entities.len(),
        considered(entities[j], memory, attackers, now),
    ensures
        describes(entities[j], r.0, player, attack_range, overlay, attackers),
        r.0.reachable_path is Some ==> 0 <= r.1 < list.len() && list[r.1] == r.0,
        r.0.is_attacker && r.0.entity_ptr != 0 && r.0.distance <= 1 ==> 0 <= r.1 < list.len()
            && list[r.1] == r.0,
    decreases entities.len(),
{
    let e = entities.last();
    let rest = entities.drop_last();
    let shorter = list.drop_last();
    let kept = considered(e, memory, attackers, now) && list.len() > 0 && describes(
        e,
        list.last(),
        player,
        attack_range,
        overlay,
        attackers,
    ) && crate::hunt4::planner::actionable(list.last()) && is_candidate_list(
        rest,
        shorter,
        player,
        attack_range,
        overlay,
        memory,
        attackers,
        now,
    );
    if j == entities.len() - 1 {
        if kept {
            (list.last(), list.len() - 1)
        } else {
            let c = choose|c: TargetCandidate| #[trigger]
                describes(e, c, player, attack_range, overlay, attackers)
                    && !crate::hunt4::planner::actionable(c);
            (c, -1)
        }
    } else {
        assert(rest[j] == entities[j]);
        if kept {
            let r = lemma_listed(
                rest,
                shorter,
                player,
                attack_range,
                overlay,
                memory,
                attackers,
                now,
                j,
            );
            if 0 <= r.1 < shorter.len() {
                assert(shorter[r.1] == list[r.1]);
            }
            r
        } else {
            lemma_listed(rest, list, player, attack_range, overlay, memory, attackers, now, j)
        }
    }
}

proof fn lemma_ranked_has(list: Seq<TargetCandidate>, k: int) -> (i: int)
    requires
        0 <= k < list.len(),
    ensures
        0 <= i < ranked(list).len(),
        ranked(list)[i] == list[k],
{
    broadcast use vstd::seq_lib::group_to_multiset_ensures;

    law_ranked(list);
    assert(list.contains(list[k]));
    assert(ranked(list).to_multiset().count(list[k]) > 0);
    assert(ranked(list).contains(list[k]));
    choose|i: int| 0 <= i < ranked(list).len() && ranked(list)[i] == list[k]
}

/// Without a map every eligible monster is a candidate.
pub proof fn law_all_are_candidates_without_map<G: Walkable>(
    r: Seq<TargetCandidate>,
    snapshot: Snapshot,
    player: (i32, i32),
    attack_range: u32,
    memory: TacticalMemory,
    attackers: Set<u32>,
    now: Instant,
    j: int,
) -> (i: int)
    requires
        are_candidates(r, snapshot, player, attack_range, None::<&G>, memory, attackers, now),
        0 <= j < snapshot.entities@.len(),
        eligible(snapshot.entities@[j], memory, attackers, now),
    ensures
        0 <= i < r.len(),
        describes(
            snapshot.entities@[j],
            r[i],
            player,
            attack_range,
            None::<&ObstacleOverlay<'static, G>>,
            attackers,
        ),
{
    let es = snapshot.entities@;
    let list = choose|list: Seq<TargetCandidate>|
        r == ranked(list) && #[trigger] is_candidate_list(
            es,
            list,
            player,
            attack_range,
            None::<&ObstacleOverlay<'static, G>>,
            memory,
            attackers,
            now,
        );
    let found = lemma_listed(
        es,
        list,
        player,
        attack_range,
        None::<&ObstacleOverlay<'_, G>>,
        memory,
        attackers,
        now,
        j,
    );
    lemma_ranked_has(list, found.1)
}

/// With a map an eligible monster is a candidate where it is in range with a clear
/// line, or attacks from the next tile.
pub proof fn law_targets_in_range_are_candidates<G: Walkable>(
    r: Seq<TargetCandidate>,
    snapshot: Snapshot,
    player: (i32, i32),
    attack_range: u32,
    inner: &G,
    memory: TacticalMemory,
    attackers: Set<u32>,
    now: Instant,
    j: int,
) -> (found: (ObstacleOverlay<'static, G>, int))
    requires
        are_candidates(r, snapshot, player, attack_range, Some(inner), memory, attackers, now),
        0 <= j < snapshot.entities@.len(),
        eligible(snapshot.entities@[j], memory, attackers, now),
    ensures
        *found.0.inner == *inner && *found.0.memory == memory && found.0.now == now
            && found.0.start == player,
        found.0.explore_map_id is None && found.0.previous_position is None,
        forall|t: (i32, i32)| #[trigger]
            found.0.occupied_tiles@.contains(t) <==> is_occupied(snapshot.entities@, player, t),
        ({
            let e = snapshot.entities@[j];
            let close = steps_within(player, e.tile, attack_range as int) && line_clear(
                player,
                e.tile,
                &found.0,
            );
            let at_hand = attackers.contains(e.target_id) && e.entity_ptr != 0 && steps_within(
                player,
                e.tile,
                1,
            );
            close || at_hand ==> 0 <= found.1 < r.len() && describes(
                e,
                r[found.1],
                player,
                attack_range,
                Some(&found.0),
                attackers,
            )
        }),
{
    let es = snapshot.entities@;
    let (list, o) = choose|list: Seq<TargetCandidate>, o: ObstacleOverlay<'static, G>|
        r == ranked(list) && candidate_overlay(&o, *inner, memory, es, player, now)
            && #[trigger] is_candidate_list(
            es,
            list,
            player,
            attack_range,
            Some(&o),
            memory,
            attackers,
            now,
        );
    let c = lemma_listed(es, list, player, attack_range, Some(&o), memory, attackers, now, j);
    let e = es[j];
    law_distance(e.tile, player, attack_range as int);
    law_distance(e.tile, player, 1);
    if 0 <= c.1 < list.len() {
        let i = lemma_ranked_has(list, c.1);
        (o, i)
    } else {
        (o, -1)
    }
}

} // verus!
