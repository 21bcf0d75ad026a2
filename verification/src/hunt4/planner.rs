//! Which targets can be gone for.
use crate::action::walk::{chebyshev_spec, sign, tile_distance};
use crate::client::input_sim::saturate;
use crate::decide::hunt::MELEE_RANGE_TILES;
use crate::decide::pathfind::{is_found_route, path_view, plan_to_any, Walkable};
use crate::hunt4::memory::{FailureCause, TacticalMemory};
use crate::hunt4::model::{EntityView, Snapshot};
use crate::hunt4::overlay::{same_tile, ObstacleOverlay};
use crate::hunt4::step::TargetCandidate;
use crate::hunt4::targeting;
use crate::hunt4::targeting::{adjacent_attacker, is_hidden, ranked};
use crate::time::Instant;
use std::collections::HashSet;
use vstd::prelude::*;

verus! {

broadcast use vstd::std_specs::hash::group_hash_axioms;

/// `n / d`, rounded to the nearest, halves away from zero.
pub open spec fn nearest_quotient(n: int, d: int) -> int {
    if n >= 0 {
        (n + d / 2) / d
    } else {
        -((-n + d / 2) / d)
    }
}

/// The number of steps between two tiles.
pub open spec fn line_steps(from: (i32, i32), target: (i32, i32)) -> int {
    chebyshev_spec(from, target)
}

/// The `k`-th tile of the straight line from one tile to another.
pub open spec fn line_tile(from: (i32, i32), target: (i32, i32), k: int) -> (i32, i32) {
    let d = line_steps(from, target);
    (
        (from.0 + nearest_quotient((target.0 - from.0) * k, d)) as i32,
        (from.1 + nearest_quotient((target.1 - from.1) * k, d)) as i32,
    )
}

/// An attack along the straight line reaches the target.
pub open spec fn line_clear<'a, G: Walkable>(
    from: (i32, i32),
    target: (i32, i32),
    grid: &ObstacleOverlay<'a, G>,
) -> bool {
    let d = line_steps(from, target);
    &&& !grid.hides(target, target)
    &&& if d <= 1 {
        grid.attack_passes(from, target, target)
    } else {
        &&& forall|k: int| 1 <= k < d ==> #[trigger] line_link_clear(from, target, grid, k)
        &&& grid.attack_passes(line_tile(from, target, d - 1), target, target)
    }
}

/// An attack passes the `k`-th tile of the line.
pub open spec fn line_link_clear<'a, G: Walkable>(
    from: (i32, i32),
    target: (i32, i32),
    grid: &ObstacleOverlay<'a, G>,
    k: int,
) -> bool {
    let prev = line_tile(from, target, k - 1);
    let cur = line_tile(from, target, k);
    &&& cur != prev ==> grid.attack_passes(prev, cur, target)
    &&& cur != from ==> !grid.hides(cur, target)
}

proof fn lemma_quotient_between(a: int, k: int, d: int)
    requires
        0 <= a <= d,
        0 <= k < d,
    ensures
        0 <= (a * k + d / 2) / d <= a,
{
    assert(0 <= a * k <= a * d) by (nonlinear_arith)
        requires
            0 <= a,
            0 <= k < d,
    ;
    let x = a * k + d / 2;
    assert(x < (a + 1) * d) by (nonlinear_arith)
        requires
            x == a * k + d / 2,
            a * k <= a * d,
            d > 0,
    ;
    assert(0 <= x / d <= a) by (nonlinear_arith)
        requires
            0 <= x < (a + 1) * d,
            d > 0,
    ;
}

/// The line stays between its ends.
proof fn lemma_line_between(from: (i32, i32), target: (i32, i32), k: int)
    requires
        line_steps(from, target) >= 1,
        0 <= k < line_steps(from, target),
    ensures
        ({
            let d = line_steps(from, target);
            &&& line_tile(from, target, k).0 == from.0 + nearest_quotient((target.0 - from.0) * k, d)
            &&& line_tile(from, target, k).1 == from.1 + nearest_quotient((target.1 - from.1) * k, d)
        }),
{
    let d = line_steps(from, target);
    lemma_axis_between(target.0 - from.0, k, d);
    lemma_axis_between(target.1 - from.1, k, d);
}

proof fn lemma_axis_between(dx: int, k: int, d: int)
    requires
        -d <= dx <= d,
        0 <= k < d,
    ensures
        dx >= 0 ==> 0 <= nearest_quotient(dx * k, d) <= dx,
        dx <= 0 ==> dx <= nearest_quotient(dx * k, d) <= 0,
{
    if dx >= 0 {
        lemma_quotient_between(dx, k, d);
        assert(dx * k >= 0) by (nonlinear_arith)
            requires
                dx >= 0,
                k >= 0,
        ;
    } else {
        lemma_quotient_between(-dx, k, d);
        assert(dx * k <= 0 && (-dx) * k == -(dx * k)) by (nonlinear_arith)
            requires
                dx < 0,
                k >= 0,
        ;
        if dx * k == 0 {
            assert((d / 2) / d == 0) by (nonlinear_arith)
                requires
                    d > 0,
            ;
        }
    }
}

fn round_div_nearest(n: i128, d: i128) -> (r: i128)
    requires
        0 < d <= 0x1_0000_0000,
        -0x1_0000_0000_0000_0000 <= n <= 0x1_0000_0000_0000_0000,
    ensures
        r == nearest_quotient(n as int, d as int),
{
    if n >= 0 {
        (n + d / 2) / d
    } else {
        -((-n + d / 2) / d)
    }
}

fn tile_on_line(from: (i32, i32), target: (i32, i32), k: u32, d: u32) -> (r: (i32, i32))
    requires
        d == line_steps(from, target),
        k < d,
    ensures
        r == line_tile(from, target, k as int),
{
    proof {
        lemma_line_between(from, target, k as int);
    }
    let dx: i128 = target.0 as i128 - from.0 as i128;
    let dy: i128 = target.1 as i128 - from.1 as i128;
    let kk: i128 = k as i128;
    let dd: i128 = d as i128;
    assert(-0x1_0000_0000_0000_0000 <= dx * kk <= 0x1_0000_0000_0000_0000) by (nonlinear_arith)
        requires
            -0x1_0000_0000 <= dx <= 0x1_0000_0000,
            0 <= kk <= 0x1_0000_0000,
    ;
    assert(-0x1_0000_0000_0000_0000 <= dy * kk <= 0x1_0000_0000_0000_0000) by (nonlinear_arith)
        requires
            -0x1_0000_0000 <= dy <= 0x1_0000_0000,
            0 <= kk <= 0x1_0000_0000,
    ;
    let x: i128 = from.0 as i128 + round_div_nearest(dx * kk, dd);
    let y: i128 = from.1 as i128 + round_div_nearest(dy * kk, dd);
    (x as i32, y as i32)
}

/// Whether an attack along the straight line reaches the target.
pub fn attack_line_clear<'a, G: Walkable>(
    from: (i32, i32),
    target: (i32, i32),
    grid: &ObstacleOverlay<'a, G>,
) -> (r: bool)
    ensures
        r == line_clear(from, target, grid),
{
    if grid.blocks_sight_for_attack(target, target) {
        return false;
    }
    let steps: u32 = tile_distance(from, target);
    if steps <= 1 {
        return grid.can_step_for_attack(from, target, target);
    }
    let mut prev: (i32, i32) = from;
    let mut k: u32 = 1;
    proof {
        lemma_line_between(from, target, 0);
        assert(line_tile(from, target, 0) == from) by {
            let d = line_steps(from, target);
            assert((d / 2) / d == 0) by (nonlinear_arith)
                requires
                    d > 1,
            ;
        }
    }
    while k < steps
        invariant
            1 <= k <= steps,
            steps > 1,
            steps == line_steps(from, target),
            !grid.hides(target, target),
            prev == line_tile(from, target, k - 1),
            forall|j: int| 1 <= j < k ==> #[trigger] line_link_clear(from, target, grid, j),
        decreases steps - k,
    {
        let cur: (i32, i32) = tile_on_line(from, target, k, steps);
        if !same_tile(cur, prev) && !grid.can_step_for_attack(prev, cur, target) {
            assert(!line_link_clear(from, target, grid, k as int));
            return false;
        }
        if !same_tile(cur, from) && grid.blocks_sight_for_attack(cur, target) {
            assert(!line_link_clear(from, target, grid, k as int));
            return false;
        }
        prev = cur;
        k = k + 1;
    }
    grid.can_step_for_attack(prev, target, target)
}

/// A tile from which the target can be attacked.
pub open spec fn is_attack_tile<'a, G: Walkable>(
    target: (i32, i32),
    attack_range: u32,
    grid: &ObstacleOverlay<'a, G>,
    tile: (i32, i32),
) -> bool {
    &&& attack_range <= i32::MAX
    &&& tile != target
    &&& chebyshev_spec(tile, target) <= attack_range
    &&& grid.walkable(tile)
    &&& line_clear(tile, target, grid)
}

fn attack_tiles<'a, G: Walkable>(
    target: (i32, i32),
    attack_range: u32,
    grid: &ObstacleOverlay<'a, G>,
) -> (r: Vec<(i32, i32)>)
    ensures
        forall|t: (i32, i32)| #[trigger]
            r@.contains(t) <==> is_attack_tile(target, attack_range, grid, t),
{
    let mut out: Vec<(i32, i32)> = Vec::new();
    if attack_range > 0x7fff_ffff {
        return out;
    }
    let range: i64 = attack_range as i64;
    let low: i64 = i32::MIN as i64;
    let high: i64 = i32::MAX as i64;
    let y_lo: i64 = if target.1 as i64 - range < low { low } else { target.1 as i64 - range };
    let y_hi: i64 = if target.1 as i64 + range > high { high } else { target.1 as i64 + range };
    let x_lo: i64 = if target.0 as i64 - range < low { low } else { target.0 as i64 - range };
    let x_hi: i64 = if target.0 as i64 + range > high { high } else { target.0 as i64 + range };
    let mut y: i64 = y_lo;
    while y <= y_hi
        invariant
            attack_range <= 0x7fff_ffff,
            i32::MIN <= y_lo <= y <= y_hi + 1,
            y_hi <= i32::MAX,
            i32::MIN <= x_lo <= x_hi + 1,
            x_hi <= i32::MAX,
            forall|t: (i32, i32)|
                is_attack_tile(target, attack_range, grid, t) ==> y_lo <= t.1 <= y_hi && x_lo <= t.0
                    <= x_hi,
            forall|t: (i32, i32)| #[trigger]
                out@.contains(t) <==> is_attack_tile(target, attack_range, grid, t) && t.1 < y,
        decreases y_hi + 1 - y,
    {
        let mut x: i64 = x_lo;
        while x <= x_hi
            invariant
                attack_range <= 0x7fff_ffff,
                i32::MIN <= y_lo <= y <= y_hi,
                y_hi <= i32::MAX,
                i32::MIN <= x_lo <= x <= x_hi + 1,
                x_hi <= i32::MAX,
                forall|t: (i32, i32)| #[trigger]
                    out@.contains(t) <==> is_attack_tile(target, attack_range, grid, t) && (t.1 < y
                        || (t.1 == y && x_lo <= t.0 < x)),
            decreases x_hi + 1 - x,
        {
            let tile: (i32, i32) = (x as i32, y as i32);
            let ghost before = out@;
            if !same_tile(tile, target) && tile_distance(tile, target) <= attack_range
                && grid.is_walkable(tile.0, tile.1) && attack_line_clear(tile, target, grid) {
                out.push(tile);
            }
            proof {
                assert forall|t: (i32, i32)| #[trigger]
                    out@.contains(t) <==> is_attack_tile(target, attack_range, grid, t) && (t.1 < y
                        || (t.1 == y && x_lo <= t.0 < x + 1)) by {
                    if before.contains(t) {
                        let i = choose|i: int| 0 <= i < before.len() && before[i] == t;
                        assert(out@[i] == t);
                    }
                    if t.1 == y && t.0 == x {
                        assert(t == tile);
                        if is_attack_tile(target, attack_range, grid, t) {
                            assert(out@[before.len() as int] == t);
                        }
                    }
                    if out@.contains(t) && !before.contains(t) {
                        let i = choose|i: int| 0 <= i < out@.len() && out@[i] == t;
                        assert(i == before.len());
                    }
                }
            }
            x = x + 1;
        }
        y = y + 1;
    }
    out
}

/// Where to go for an attack when the map is unknown: straight towards the
/// target, as far off as the attack reaches.
pub open spec fn hopeful_tile(player: (i32, i32), target: (i32, i32), attack_range: u32) -> (i32, i32) {
    let tile = (
        saturate(target.0 - sign(target.0 - player.0) * attack_range) as i32,
        saturate(target.1 - sign(target.1 - player.1) * attack_range) as i32,
    );
    if attack_range == 0 {
        target
    } else if tile == target {
        player
    } else {
        tile
    }
}

fn optimistic_axis(player: i32, target: i32, range: u32) -> (r: i32)
    ensures
        r == saturate(target - sign(target - player) * range),
{
    let shifted: i64 = if target > player {
        target as i64 - range as i64
    } else if target < player {
        target as i64 + range as i64
    } else {
        target as i64
    };
    if shifted < i32::MIN as i64 {
        i32::MIN
    } else if shifted > i32::MAX as i64 {
        i32::MAX
    } else {
        shifted as i32
    }
}

fn optimistic_attack_tile(player: (i32, i32), target: (i32, i32), attack_range: u32) -> (r: (i32, i32))
    ensures
        r == hopeful_tile(player, target, attack_range),
{
    if attack_range == 0 {
        return target;
    }
    let tile: (i32, i32) = (
        optimistic_axis(player.0, target.0, attack_range),
        optimistic_axis(player.1, target.1, attack_range),
    );
    if same_tile(tile, target) {
        player
    } else {
        tile
    }
}

/// Whether a target can be hit, and the way to where it can be. With a map a
/// target in range also needs a clear line; where that is missing, another tile
/// is looked for, but not for a target next to the player.
pub open spec fn is_reach<'a, G: Walkable>(
    player: (i32, i32),
    target: (i32, i32),
    attack_range: u32,
    overlay: Option<&ObstacleOverlay<'a, G>>,
    in_range: bool,
    path: Option<Vec<(i32, i32)>>,
) -> bool {
    let near = chebyshev_spec(target, player) <= attack_range;
    match overlay {
        None => {
            &&& in_range == near
            &&& path_view(path) == Some(
                if near {
                    seq![]
                } else {
                    seq![hopeful_tile(player, target, attack_range)]
                },
            )
        },
        Some(grid) => if near && line_clear(player, target, grid) {
            in_range && path_view(path) == Some(Seq::<(i32, i32)>::empty())
        } else if near && chebyshev_spec(player, target) <= MELEE_RANGE_TILES {
            !in_range && path is None
        } else {
            &&& !in_range
            &&& exists|goals: Seq<(i32, i32)>|
                (forall|t: (i32, i32)| #[trigger]
                    goals.contains(t) <==> is_attack_tile(target, attack_range, grid, t))
                    && #[trigger] is_found_route(grid, player, goals, path)
        },
    }
}

fn compute_reachable_path<'a, G: Walkable>(
    player: (i32, i32),
    target: (i32, i32),
    attack_range: u32,
    overlay: Option<&ObstacleOverlay<'a, G>>,
) -> (r: (bool, Option<Vec<(i32, i32)>>))
    ensures
        is_reach(player, target, attack_range, overlay, r.0, r.1),
{
    let near: bool = tile_distance(target, player) <= attack_range;
    match overlay {
        None => {
            if near {
                let path: Vec<(i32, i32)> = Vec::new();
                assert(path@ =~= seq![]);
                (true, Some(path))
            } else {
                let mut path: Vec<(i32, i32)> = Vec::new();
                path.push(optimistic_attack_tile(player, target, attack_range));
                assert(path@ =~= seq![hopeful_tile(player, target, attack_range)]);
                (false, Some(path))
            }
        },
        Some(grid) => {
            if near && attack_line_clear(player, target, grid) {
                let path: Vec<(i32, i32)> = Vec::new();
                assert(path@ =~= Seq::<(i32, i32)>::empty());
                return (true, Some(path));
            }
            if near && tile_distance(player, target) <= MELEE_RANGE_TILES {
                return (false, None);
            }
            let goals: Vec<(i32, i32)> = attack_tiles(target, attack_range, grid);
            let path = plan_to_any(player, goals.as_slice(), grid);
            assert(is_found_route(grid, player, goals@, path));
            (false, path)
        },
    }
}

/// A failed target is left alone: one that rejected the attack always, one that
/// could not be reached unless it attacks.
pub open spec fn worth_considering(
    memory: TacticalMemory,
    target_id: u32,
    attackers: Set<u32>,
    now: Instant,
) -> bool {
    if memory.target_failed(target_id, now) {
        memory.failed_targets@[target_id].cause is Unreachable && attackers.contains(target_id)
    } else {
        true
    }
}

fn should_consider_target(
    memory: &TacticalMemory,
    target_id: u32,
    recent_attackers: &HashSet<u32>,
    now: Instant,
) -> (r: bool)
    ensures
        r == worth_considering(*memory, target_id, recent_attackers@, now),
{
    match memory.failed_targets.get(&target_id) {
        Some(record) => {
            if now.is_before(record.until) {
                match record.cause {
                    FailureCause::AttackRejected => false,
                    FailureCause::Unreachable => recent_attackers.contains(&target_id),
                }
            } else {
                true
            }
        },
        None => true,
    }
}

/// An entity stands on the tile, and it is not the player's.
pub open spec fn is_occupied(entities: Seq<EntityView>, player: (i32, i32), tile: (i32, i32)) -> bool {
    tile != player && exists|i: int|
        0 <= i < entities.len() && (#[trigger] entities[i]).blocking() && entities[i].tile == tile
}

fn movement_blocking_entity_tiles(snapshot: &Snapshot, player: (i32, i32)) -> (r: Vec<(i32, i32)>)
    ensures
        forall|t: (i32, i32)| #[trigger]
            r@.contains(t) <==> is_occupied(snapshot.entities@, player, t),
{
    let mut out: Vec<(i32, i32)> = Vec::new();
    let mut i: usize = 0;
    while i < snapshot.entities.len()
        invariant
            i <= snapshot.entities@.len(),
            forall|t: (i32, i32)| #[trigger]
                out@.contains(t) <==> is_occupied(snapshot.entities@.take(i as int), player, t),
        decreases snapshot.entities@.len() - i,
    {
        let ghost before = out@;
        let ghost seen = snapshot.entities@.take(i as int);
        let ghost seen1 = snapshot.entities@.take(i + 1);
        let e: &EntityView = &snapshot.entities[i];
        if e.blocks_movement() && !same_tile(e.tile, player) {
            out.push(e.tile);
        }
        proof {
            assert forall|t: (i32, i32)| #[trigger]
                out@.contains(t) <==> is_occupied(seen1, player, t) by {
                if before.contains(t) {
                    let k = choose|k: int| 0 <= k < before.len() && before[k] == t;
                    assert(out@[k] == t);
                }
                if is_occupied(seen, player, t) {
                    let k = choose|k: int|
                        0 <= k < seen.len() && (#[trigger] seen[k]).blocking() && seen[k].tile == t;
                    assert(seen1[k] == seen[k]);
                }
                if is_occupied(seen1, player, t) && !is_occupied(seen, player, t) {
                    let k = choose|k: int|
                        0 <= k < seen1.len() && (#[trigger] seen1[k]).blocking() && seen1[k].tile
                            == t;
                    if k < i {
                        assert(seen[k] == seen1[k]);
                    }
                    assert(out@[before.len() as int] == t);
                }
                if out@.contains(t) && !before.contains(t) {
                    let k = choose|k: int| 0 <= k < out@.len() && out@[k] == t;
                    assert(k == before.len());
                    assert(seen1[i as int].tile == t);
                }
            }
        }
        i = i + 1;
    }
    assert(snapshot.entities@.take(i as int) =~= snapshot.entities@);
    out
}

/// A candidate says of an entity what is true of it.
pub open spec fn describes<'a, G: Walkable>(
    e: EntityView,
    c: TargetCandidate,
    player: (i32, i32),
    attack_range: u32,
    overlay: Option<&ObstacleOverlay<'a, G>>,
    attackers: Set<u32>,
) -> bool {
    &&& c.target_id == e.target_id
    &&& c.entity_ptr == e.entity_ptr
    &&& c.name == e.name
    &&& c.tile == e.tile
    &&& c.distance == chebyshev_spec(e.tile, player)
    &&& c.is_attacker == attackers.contains(e.target_id)
    &&& is_reach(player, e.tile, attack_range, overlay, c.in_attack_range, c.reachable_path)
}

/// A target that may become a candidate.
pub open spec fn considered(e: EntityView, memory: TacticalMemory, attackers: Set<u32>, now: Instant) -> bool {
    e.live() && !is_hidden(e) && worth_considering(memory, e.target_id, attackers, now)
}

/// Something can be done about a candidate.
pub open spec fn actionable(c: TargetCandidate) -> bool {
    c.reachable_path is Some || adjacent_attacker(c)
}

/// The candidates for some entities, in their order: one for each that is
/// considered, where something can be done about it.
pub open spec fn is_candidate_list<'a, G: Walkable>(
    entities: Seq<EntityView>,
    list: Seq<TargetCandidate>,
    player: (i32, i32),
    attack_range: u32,
    overlay: Option<&ObstacleOverlay<'a, G>>,
    memory: TacticalMemory,
    attackers: Set<u32>,
    now: Instant,
) -> bool
    decreases entities.len(),
{
    if entities.len() == 0 {
        list.len() == 0
    } else {
        let e = entities.last();
        let rest = entities.drop_last();
        if !considered(e, memory, attackers, now) {
            is_candidate_list(rest, list, player, attack_range, overlay, memory, attackers, now)
        } else {
            ||| list.len() > 0 && describes(e, list.last(), player, attack_range, overlay, attackers)
                && actionable(list.last()) && is_candidate_list(
                rest,
                list.drop_last(),
                player,
                attack_range,
                overlay,
                memory,
                attackers,
                now,
            )
            ||| (exists|c: TargetCandidate| #[trigger]
                describes(e, c, player, attack_range, overlay, attackers) && !actionable(c))
                && is_candidate_list(
                rest,
                list,
                player,
                attack_range,
                overlay,
                memory,
                attackers,
                now,
            )
        }
    }
}

/// The overlay that candidates are judged by.
pub open spec fn candidate_overlay<'a, G: Walkable>(
    o: &ObstacleOverlay<'a, G>,
    inner: G,
    memory: TacticalMemory,
    entities: Seq<EntityView>,
    player: (i32, i32),
    now: Instant,
) -> bool {
    &&& *o.inner == inner
    &&& *o.memory == memory
    &&& o.now == now
    &&& o.start == player
    &&& o.explore_map_id is None
    &&& o.previous_position is None
    &&& forall|t: (i32, i32)| #[trigger]
        o.occupied_tiles@.contains(t) <==> is_occupied(entities, player, t)
}

/// What `build_candidates` returns: the candidates for what is seen, ranked.
pub open spec fn are_candidates<G: Walkable>(
    r: Seq<TargetCandidate>,
    snapshot: Snapshot,
    player: (i32, i32),
    attack_range: u32,
    grid: Option<&G>,
    memory: TacticalMemory,
    attackers: Set<u32>,
    now: Instant,
) -> bool {
    match grid {
        None => exists|list: Seq<TargetCandidate>|
            r == ranked(list) && #[trigger] is_candidate_list(
                snapshot.entities@,
                list,
                player,
                attack_range,
                None::<&ObstacleOverlay<'static, G>>,
                memory,
                attackers,
                now,
            ),
        Some(inner) => exists|list: Seq<TargetCandidate>, o: ObstacleOverlay<'static, G>|
            r == ranked(list) && candidate_overlay(
                &o,
                *inner,
                memory,
                snapshot.entities@,
                player,
                now,
            ) && #[trigger] is_candidate_list(
                snapshot.entities@,
                list,
                player,
                attack_range,
                Some(&o),
                memory,
                attackers,
                now,
            ),
    }
}

fn candidate_list<'a, G: Walkable>(
    snapshot: &Snapshot,
    player: (i32, i32),
    attack_range: u32,
    overlay: Option<&ObstacleOverlay<'a, G>>,
    memory: &TacticalMemory,
    recent_attackers: &HashSet<u32>,
    now: Instant,
) -> (r: Vec<TargetCandidate>)
    ensures
        is_candidate_list(
            snapshot.entities@,
            r@,
            player,
            attack_range,
            overlay,
            *memory,
            recent_attackers@,
            now,
        ),
{
    let mut out: Vec<TargetCandidate> = Vec::new();
    let mut i: usize = 0;
    while i < snapshot.entities.len()
        invariant
            i <= snapshot.entities@.len(),
            is_candidate_list(
                snapshot.entities@.take(i as int),
                out@,
                player,
                attack_range,
                overlay,
                *memory,
                recent_attackers@,
                now,
            ),
        decreases snapshot.entities@.len() - i,
    {
        let e: &EntityView = &snapshot.entities[i];
        let ghost before = out@;
        assert(snapshot.entities@.take(i + 1).drop_last() =~= snapshot.entities@.take(i as int));
        if e.is_live_attackable() && targeting::candidate_allowed(e) && should_consider_target(
            memory,
            e.target_id,
            recent_attackers,
            now,
        ) {
            let reach = compute_reachable_path(player, e.tile, attack_range, overlay);
            let c = TargetCandidate {
                target_id: e.target_id,
                entity_ptr: e.entity_ptr,
                name: e.name.clone(),
                tile: e.tile,
                distance: tile_distance(e.tile, player),
                in_attack_range: reach.0,
                reachable_path: reach.1,
                is_attacker: recent_attackers.contains(&e.target_id),
            };
            assert(describes(*e, c, player, attack_range, overlay, recent_attackers@));
            if c.reachable_path.is_some() || targeting::is_adjacent_attacker(&c) {
                out.push(c);
                assert(out@.drop_last() =~= before);
            }
        }
        i = i + 1;
    }
    assert(snapshot.entities@.take(i as int) =~= snapshot.entities@);
    out
}

/// The targets that something can be done about, the best first.
pub fn build_candidates<G: Walkable>(
    snapshot: &Snapshot,
    player: (i32, i32),
    attack_range: u32,
    grid: Option<&G>,
    memory: &TacticalMemory,
    recent_attackers: &HashSet<u32>,
    now: Instant,
) -> (r: Vec<TargetCandidate>)
    ensures
        are_candidates(
            r@,
            *snapshot,
            player,
            attack_range,
            grid,
            *memory,
            recent_attackers@,
            now,
        ),
{
    let occupied: Vec<(i32, i32)> = movement_blocking_entity_tiles(snapshot, player);
    match grid {
        None => {
            let mut list: Vec<TargetCandidate> = candidate_list(
                snapshot,
                player,
                attack_range,
                None::<&ObstacleOverlay<'_, G>>,
                memory,
                recent_attackers,
                now,
            );
            targeting::sort_candidates(&mut list);
            list
        },
        Some(inner) => {
            let overlay: ObstacleOverlay<'_, G> = ObstacleOverlay {
                inner,
                memory,
                occupied_tiles: &occupied,
                now,
                start: player,
                explore_map_id: None,
                previous_position: None,
            };
            let mut list: Vec<TargetCandidate> = candidate_list(
                snapshot,
                player,
                attack_range,
                Some(&overlay),
                memory,
                recent_attackers,
                now,
            );
            assert(candidate_overlay(&overlay, *inner, *memory, snapshot.entities@, player, now));
            targeting::sort_candidates(&mut list);
            list
        },
    }
}

/// A candidate stands for an entity that is seen, and something can be done
/// about it.
pub open spec fn stands_for(
    c: TargetCandidate,
    e: EntityView,
    memory: TacticalMemory,
    attackers: Set<u32>,
    now: Instant,
) -> bool {
    &&& considered(e, memory, attackers, now)
    &&& c.target_id == e.target_id
    &&& c.entity_ptr == e.entity_ptr
    &&& c.name == e.name
    &&& c.tile == e.tile
    &&& c.is_attacker == attackers.contains(e.target_id)
    &&& actionable(c)
}

proof fn lemma_listed_stand_for<'a, G: Walkable>(
    entities: Seq<EntityView>,
    list: Seq<TargetCandidate>,
    player: (i32, i32),
    attack_range: u32,
    overlay: Option<&ObstacleOverlay<'a, G>>,
    memory: TacticalMemory,
    attackers: Set<u32>,
    now: Instant,
    i: int,
)
    requires
        is_candidate_list(entities, list, player, attack_range, overlay, memory, attackers, now),
        0 <= i < list.len(),
    ensures
        exists|j: int|
            0 <= j < entities.len() && stands_for(
                list[i],
                #[trigger] entities[j],
                memory,
                attackers,
                now,
            ),
    decreases entities.len(),
{
    let e = entities.last();
    let rest = entities.drop_last();
    assert(e == entities[entities.len() - 1]);
    let shorter = list.drop_last();
    if considered(e, memory, attackers, now) && describes(
        e,
        list.last(),
        player,
        attack_range,
        overlay,
        attackers,
    ) && actionable(list.last()) && is_candidate_list(
        rest,
        shorter,
        player,
        attack_range,
        overlay,
        memory,
        attackers,
        now,
    ) {
        if i < shorter.len() {
            lemma_listed_stand_for(
                rest,
                shorter,
                player,
                attack_range,
                overlay,
                memory,
                attackers,
                now,
                i,
            );
            let j = choose|j: int|
                0 <= j < rest.len() && stands_for(
                    shorter[i],
                    #[trigger] rest[j],
                    memory,
                    attackers,
                    now,
                );
            assert(stands_for(list[i], entities[j], memory, attackers, now));
        } else {
            assert(stands_for(list[i], e, memory, attackers, now));
        }
    } else {
        lemma_listed_stand_for(
            rest,
            list,
            player,
            attack_range,
            overlay,
            memory,
            attackers,
            now,
            i,
        );
        let j = choose|j: int|
            0 <= j < rest.len() && stands_for(list[i], #[trigger] rest[j], memory, attackers, now);
        assert(stands_for(list[i], entities[j], memory, attackers, now));
    }
}

/// Every candidate is there: it stands for an entity that is seen alive and not
/// hidden, that is not being left alone, and about which something can be done.
pub proof fn law_candidates_are_there<G: Walkable>(
    r: Seq<TargetCandidate>,
    snapshot: Snapshot,
    player: (i32, i32),
    attack_range: u32,
    grid: Option<&G>,
    memory: TacticalMemory,
    attackers: Set<u32>,
    now: Instant,
    i: int,
)
    requires
        are_candidates(r, snapshot, player, attack_range, grid, memory, attackers, now),
        0 <= i < r.len(),
    ensures
        exists|j: int|
            0 <= j < snapshot.entities@.len() && stands_for(
                r[i],
                #[trigger] snapshot.entities@[j],
                memory,
                attackers,
                now,
            ),
{
    let es = snapshot.entities@;
    match grid {
        None => {
            let list = choose|list: Seq<TargetCandidate>|
                r == ranked(list) && #[trigger] is_candidate_list(
                    es,
                    list,
                    player,
                    attack_range,
                    None::<&ObstacleOverlay<'static, G>>,
                    memory,
                    attackers,
                    now,
                );
            let k = lemma_ranked_from(list, i);
            lemma_listed_stand_for(
                es,
                list,
                player,
                attack_range,
                None::<&ObstacleOverlay<'_, G>>,
                memory,
                attackers,
                now,
                k,
            );
        },
        Some(inner) => {
            let (list, o) = choose|list: Seq<TargetCandidate>, o: ObstacleOverlay<'static, G>|
                r == ranked(list) && candidate_overlay(&o, *inner, memory, es, player, now)
                    && #[trigger] is_candidate_list(
                    es,
                    list,
                    player,
                    attack_range,
                    Some(&o),
                    memory,
                    attackers,
                    now,
                );
            let k = lemma_ranked_from(list, i);
            lemma_listed_stand_for(
                es,
                list,
                player,
                attack_range,
                Some(&o),
                memory,
                attackers,
                now,
                k,
            );
        },
    }
}

/// Where a ranked candidate stood before the ranking.
proof fn lemma_ranked_from(list: Seq<TargetCandidate>, i: int) -> (k: int)
    requires
        0 <= i < ranked(list).len(),
    ensures
        0 <= k < list.len(),
        list[k] == ranked(list)[i],
{
    broadcast use vstd::seq_lib::group_to_multiset_ensures;

    targeting::law_ranked(list);
    let c = ranked(list)[i];
    assert(ranked(list).to_multiset().count(c) > 0);
    assert(list.to_multiset().count(c) > 0);
    assert(list.contains(c));
    choose|k: int| 0 <= k < list.len() && list[k] == c
}

/// A target that rejected an attack is no candidate while it is being left
/// alone, not even if it attacks.
pub proof fn law_rejected_is_no_candidate<G: Walkable>(
    r: Seq<TargetCandidate>,
    snapshot: Snapshot,
    player: (i32, i32),
    attack_range: u32,
    grid: Option<&G>,
    memory: TacticalMemory,
    attackers: Set<u32>,
    now: Instant,
    id: u32,
)
    requires
        are_candidates(r, snapshot, player, attack_range, grid, memory, attackers, now),
        memory.target_failed(id, now),
        memory.failed_targets@[id].cause is AttackRejected,
    ensures
        forall|i: int| 0 <= i < r.len() ==> (#[trigger] r[i]).target_id != id,
{
    assert forall|i: int| 0 <= i < r.len() implies (#[trigger] r[i]).target_id != id by {
        law_candidates_are_there(
            r,
            snapshot,
            player,
            attack_range,
            grid,
            memory,
            attackers,
            now,
            i,
        );
    }
}

} // verus!
