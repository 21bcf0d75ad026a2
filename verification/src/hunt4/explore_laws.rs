//! What exploration promises, told by recorded visits and by distances.
use crate::action::walk_laws::{steps_between, steps_within};
use crate::decide::pathfind::{
    is_found_route, is_route, path_view, route_cost, route_found, Walkable,
};
use crate::hunt4::explore::{
    are_searches, compass_goal, fallback_radius, first_direction, goal_score, is_best_of,
    is_best_way, is_compass_choice, is_exploration, is_open_direction, is_overlay_choice,
    is_profile_choice, is_region_choice, is_ring_choice, is_ring_way, last_other,
    law_region_choice_is_best, mixed, ordered_goal, out_of_reach, path_score, position_seed,
    reading_order, region_goal, ring_goal, ring_is_shut, suggests_way, visits_along, way_found,
    PROFILE_EXPLORE_GOAL_LIMIT,
};
use crate::hunt4::memory::TacticalMemory;
use crate::hunt4::overlay::ObstacleOverlay;
use crate::hunt4::step::ExploreSuggestion;
use crate::minimap::NavProfile;
use crate::time::Instant;
use vstd::prelude::*;

verus! {

/// A tile that the player's region offers: it is listed there, free, not the
/// player's own, and not in a direction that failed of late.
pub open spec fn on_offer<'a, G: Walkable>(
    o: &ObstacleOverlay<'a, G>,
    profile: &NavProfile,
    id: int,
    t: (i32, i32),
) -> bool {
    &&& 0 <= id < profile.components@.len()
    &&& profile.components@[id]@.contains(o.start)
    &&& forall|j: int|
        0 <= j < id ==> !(#[trigger] profile.components@[j])@.contains(o.start)
    &&& profile.components@[id]@.contains(t)
    &&& t != o.start
    &&& o.walkable(t)
    &&& !o.memory.direction_failed(o.start, t, o.now)
}

proof fn lemma_on_offer<'a, G: Walkable>(
    o: &ObstacleOverlay<'a, G>,
    profile: &NavProfile,
    id: int,
    t: (i32, i32),
)
    requires
        on_offer(o, profile, id, t),
    ensures
        region_goal(o, profile, t),
{
    assert(profile.is_component_of(o.start, id));
}

/// Where a tile of the player's region can be had at all, one is suggested, with
/// a way to it.
pub proof fn law_region_comes_first<'a, G: Walkable>(
    o: &ObstacleOverlay<'a, G>,
    map_id: u32,
    profile: &NavProfile,
    r: Option<ExploreSuggestion>,
    id: int,
    t: (i32, i32),
)
    requires
        is_overlay_choice(o, Some(map_id), Some(profile), r),
        on_offer(o, profile, id, t),
        !out_of_reach(o, o.start, t),
    ensures
        r is Some,
        on_offer(o, profile, id, r->0.goal),
        r->0.path@.len() > 0 && r->0.path@.last() == r->0.goal,
        is_route(o, o.start, r->0.path@),
        is_region_choice(o, map_id, profile, r),
{
    lemma_on_offer(o, profile, id, t);
    if is_profile_choice(o, Some(map_id), Some(profile), None) {
        law_region_choice_is_best(o, map_id, profile, None);
    }
    law_region_choice_is_best(o, map_id, profile, r);
    let goal = r->0.goal;
    assert(region_goal(o, profile, goal));
    let other = choose|other: int| #[trigger]
        profile.is_component_of(o.start, other) && profile.components@[other]@.contains(goal);
    assert(profile.is_component_of(o.start, id));
    assert(other == id) by {
        if other < id {
            assert(!profile.components@[other]@.contains(o.start));
        } else if id < other {
            assert(!profile.components@[id]@.contains(o.start));
        }
    }
}

/// What the player's region suggests is never a tile with more visits than
/// another that could be had. So far as the tiles lie within four hundred thousand
/// steps, the distance never outweighs a visit.
pub proof fn law_fewest_visits<'a, G: Walkable>(
    o: &ObstacleOverlay<'a, G>,
    map_id: u32,
    profile: &NavProfile,
    s: ExploreSuggestion,
    id: int,
    t: (i32, i32),
)
    requires
        is_region_choice(o, map_id, profile, Some(s)),
        on_offer(o, profile, id, t),
        steps_within(t, o.start, 400_000),
        steps_within(s.goal, o.start, 400_000),
        o.memory.visits(map_id, t) < o.memory.visits(map_id, s.goal),
    ensures
        out_of_reach(o, o.start, t),
{
    lemma_on_offer(o, profile, id, t);
    law_region_choice_is_best(o, map_id, profile, Some(s));
    assert(goal_score(o, map_id, t) < goal_score(o, map_id, s.goal));
}

/// Of two tiles with the same visits the one that the player just came from is
/// never preferred.
pub proof fn law_no_turning_back<'a, G: Walkable>(
    o: &ObstacleOverlay<'a, G>,
    map_id: u32,
    profile: &NavProfile,
    s: ExploreSuggestion,
    id: int,
    t: (i32, i32),
)
    requires
        is_region_choice(o, map_id, profile, Some(s)),
        on_offer(o, profile, id, t),
        steps_within(t, o.start, 400_000),
        steps_within(s.goal, o.start, 400_000),
        o.memory.visits(map_id, t) == o.memory.visits(map_id, s.goal),
        o.previous_position == Some(s.goal),
        t != s.goal,
    ensures
        out_of_reach(o, o.start, t),
{
    lemma_on_offer(o, profile, id, t);
    law_region_choice_is_best(o, map_id, profile, Some(s));
    assert(goal_score(o, map_id, t) < goal_score(o, map_id, s.goal));
}

/// How far a number of steps is from twenty.
pub open spec fn off_twenty(n: int, off: int) -> bool {
    off >= 0 && (n == 20 + off || n == 20 - off)
}

/// Of two tiles with the same visits, neither of which the player came from, the
/// one that lies closer to twenty steps away is preferred.
pub proof fn law_twenty_steps_away<'a, G: Walkable>(
    o: &ObstacleOverlay<'a, G>,
    map_id: u32,
    profile: &NavProfile,
    s: ExploreSuggestion,
    id: int,
    t: (i32, i32),
    n: int,
    goal_n: int,
    off: int,
    goal_off: int,
)
    requires
        is_region_choice(o, map_id, profile, Some(s)),
        on_offer(o, profile, id, t),
        steps_between(t, o.start, n),
        steps_between(s.goal, o.start, goal_n),
        off_twenty(n, off),
        off_twenty(goal_n, goal_off),
        off < goal_off,
        o.memory.visits(map_id, t) == o.memory.visits(map_id, s.goal),
        o.previous_position != Some(t),
    ensures
        out_of_reach(o, o.start, t),
{
    lemma_on_offer(o, profile, id, t);
    law_region_choice_is_best(o, map_id, profile, Some(s));
    assert(goal_score(o, map_id, t) < goal_score(o, map_id, s.goal));
}

/// Up to sixty-four equally good goals are searched for together, those in upper
/// rows first, and in a row those to the left.
pub proof fn law_goals_in_reading_order(a: (i32, i32), b: (i32, i32))
    ensures
        PROFILE_EXPLORE_GOAL_LIMIT == 64,
        reading_order(a) < reading_order(b) <==> a.1 < b.1 || (a.1 == b.1 && a.0 < b.0),
        0 <= reading_order(a) < 0x1_0000_0000_0000_0000,
{
}

/// The position before is the last in the history where the player does not
/// stand now.
pub proof fn law_position_before(
    s: Seq<(i32, i32, Instant)>,
    player: (i32, i32),
    k: int,
)
    ensures
        0 <= k < s.len() && (s[k].0, s[k].1) != player && (forall|j: int|
            k < j < s.len() ==> (#[trigger] s[j]).0 == player.0 && s[j].1 == player.1)
            ==> last_other(s, player) == Some((s[k].0, s[k].1)),
        (forall|j: int| 0 <= j < s.len() ==> (#[trigger] s[j]).0 == player.0 && s[j].1 == player.1)
            ==> last_other(s, player) is None,
    decreases s.len(),
{
    if s.len() > 0 {
        let rest = s.drop_last();
        law_position_before(rest, player, k);
        assert forall|j: int| 0 <= j < rest.len() implies #[trigger] rest[j] == s[j] by {}
        if k < rest.len() {
            let last = s[s.len() - 1];
            assert(s.last() == last);
        }
    }
}

/// An exploration is judged by the map as it is, what is remembered, and where
/// the player stood before. Entities are not in its way.
pub proof fn law_exploration_overlay<G: Walkable>(
    r: Option<ExploreSuggestion>,
    player: (i32, i32),
    map_id: Option<u32>,
    inner: &G,
    profile: Option<&NavProfile>,
    memory: TacticalMemory,
    now: Instant,
) -> (o: ObstacleOverlay<'static, G>)
    requires
        is_exploration(r, player, map_id, Some(inner), profile, memory, now),
    ensures
        is_overlay_choice(&o, map_id, profile, r),
        *o.inner == *inner && *o.memory == memory && o.now == now && o.start == player,
        o.explore_map_id == map_id,
        forall|t: (i32, i32)| !#[trigger] o.occupied_tiles@.contains(t),
        forall|k: int|
            #![trigger memory.recent_positions@[k]]
            0 <= k < memory.recent_positions@.len() && (
            memory.recent_positions@[k].0,
            memory.recent_positions@[k].1,
            ) != player && (forall|j: int|
                k < j < memory.recent_positions@.len() ==> (
                #[trigger] memory.recent_positions@[j]).0 == player.0
                    && memory.recent_positions@[j].1 == player.1) ==> o.previous_position == Some(
                (memory.recent_positions@[k].0, memory.recent_positions@[k].1),
            ),
        (forall|j: int|
            0 <= j < memory.recent_positions@.len() ==> (#[trigger] memory.recent_positions@[j]).0
                == player.0 && memory.recent_positions@[j].1 == player.1)
            ==> o.previous_position is None,
{
    let o = choose|o: ObstacleOverlay<'static, G>|
        crate::hunt4::explore::explore_overlay(&o, *inner, memory, player, map_id, now)
            && #[trigger] is_overlay_choice(&o, map_id, profile, r);
    let s = memory.recent_positions@;
    law_position_before(s, player, 0);
    assert forall|k: int|
        #![trigger s[k]]
        0 <= k < s.len() && (s[k].0, s[k].1) != player && (forall|j: int|
            k < j < s.len() ==> (#[trigger] s[j]).0 == player.0 && s[j].1
                == player.1) implies o.previous_position == Some((s[k].0, s[k].1)) by {
        law_position_before(s, player, k);
    }
    o
}

/// The tiles around the player that lie twenty steps away along a row, a column or
/// a diagonal, clockwise from the north.
pub proof fn law_compass(player: (i32, i32))
    requires
        i32::MIN + 20 <= player.0 <= i32::MAX - 20,
        i32::MIN + 20 <= player.1 <= i32::MAX - 20,
    ensures
        compass_goal(player, 0) == Some((player.0, (player.1 - 20) as i32)),
        compass_goal(player, 1) == Some(((player.0 + 20) as i32, (player.1 - 20) as i32)),
        compass_goal(player, 2) == Some(((player.0 + 20) as i32, player.1)),
        compass_goal(player, 3) == Some(((player.0 + 20) as i32, (player.1 + 20) as i32)),
        compass_goal(player, 4) == Some((player.0, (player.1 + 20) as i32)),
        compass_goal(player, 5) == Some(((player.0 - 20) as i32, (player.1 + 20) as i32)),
        compass_goal(player, 6) == Some(((player.0 - 20) as i32, player.1)),
        compass_goal(player, 7) == Some(((player.0 - 20) as i32, (player.1 - 20) as i32)),
{
}

proof fn lemma_mixed(seed: int, x: int, y: int)
    ensures
        0 <= mixed(seed, x, y) < 8,
        0 <= seed < 8 ==> mixed(seed, 0, 0) == (8 - seed) % 8,
        mixed(seed, x + 1, y) == (mixed(seed, x, y) + 1) % 8,
        mixed(seed, x, y + 1) == (mixed(seed, x, y) + 5) % 8,
{
    let m = seed * 31 + x * 17 + y * 13;
    lemma_past_eight(m);
    assert(seed * 31 + (x + 1) * 17 + y * 13 == m + 17);
    assert(seed * 31 + x * 17 + (y + 1) * 13 == m + 13);
}

proof fn lemma_past_eight(m: int)
    ensures
        0 <= m % 8 < 8,
        (m + 17) % 8 == (m % 8 + 1) % 8,
        (m + 13) % 8 == (m % 8 + 5) % 8,
{
    vstd::arithmetic::div_mod::lemma_fundamental_div_mod(m, 8);
    vstd::arithmetic::div_mod::lemma_mod_multiples_vanish(m / 8 + 2, m % 8 + 1, 8);
    vstd::arithmetic::div_mod::lemma_mod_multiples_vanish(m / 8 + 1, m % 8 + 5, 8);
}

/// The direction that is tried first: it moves on by one with each position, until
/// eight are remembered. From then on a step to the east in the last position
/// moves it on by one, and a step to the south by five.
pub proof fn law_first_direction(
    s: Seq<(i32, i32, Instant)>,
    x: i32,
    y: i32,
    at: Instant,
)
    ensures
        s.len() < 8 ==> first_direction(s) == s.len(),
        s.len() >= 8 ==> first_direction(s) == position_seed(s),
        s.len() == 0 ==> position_seed(s) == 0,
        0 <= position_seed(s) < 8,
        position_seed(s.push((0i32, 0i32, at))) == (8 - position_seed(s)) % 8,
        x < i32::MAX ==> position_seed(s.push(((x + 1) as i32, y, at))) == (position_seed(
            s.push((x, y, at)),
        ) + 1) % 8,
        y < i32::MAX ==> position_seed(s.push((x, (y + 1) as i32, at))) == (position_seed(
            s.push((x, y, at)),
        ) + 5) % 8,
{
    let seed = position_seed(s);
    lemma_mixed(seed, x as int, y as int);
    assert(s.push((0i32, 0i32, at)).drop_last() =~= s);
    assert(s.push((x, y, at)).drop_last() =~= s);
    if s.len() > 0 {
        lemma_mixed(position_seed(s.drop_last()), s.last().0 as int, s.last().1 as int);
    }
    if x < i32::MAX {
        assert(s.push(((x + 1) as i32, y, at)).drop_last() =~= s);
    }
    if y < i32::MAX {
        assert(s.push((x, (y + 1) as i32, at)).drop_last() =~= s);
    }
}

/// Visits along two stretches of a path add up, and one tile counts for its own.
pub proof fn law_visits_along(
    memory: TacticalMemory,
    map_id: u32,
    a: Seq<(i32, i32)>,
    b: Seq<(i32, i32)>,
    t: (i32, i32),
)
    ensures
        visits_along(memory, map_id, a + b) == visits_along(memory, map_id, a) + visits_along(
            memory,
            map_id,
            b,
        ),
        visits_along(memory, map_id, seq![t]) == memory.visits(map_id, t),
        visits_along(memory, map_id, a) >= 0,
    decreases b.len(), a.len(),
{
    if b.len() > 0 {
        assert((a + b).drop_last() =~= a + b.drop_last());
        law_visits_along(memory, map_id, a, b.drop_last(), t);
    } else {
        assert(a + b =~= a);
        if a.len() > 0 {
            law_visits_along(memory, map_id, a.drop_last(), b, t);
        }
    }
    assert(seq![t].drop_last() =~= Seq::<(i32, i32)>::empty());
    assert(visits_along(memory, map_id, Seq::<(i32, i32)>::empty()) == 0);
}

/// A tile that lies twenty steps from the player along a row, a column or a
/// diagonal, in a direction that did not fail of late.
pub open spec fn ahead<'a, G: Walkable>(o: &ObstacleOverlay<'a, G>, t: (i32, i32)) -> bool {
    let dx = t.0 - o.start.0;
    let dy = t.1 - o.start.1;
    &&& dx == -20 || dx == 0 || dx == 20
    &&& dy == -20 || dy == 0 || dy == 20
    &&& dx != 0 || dy != 0
    &&& !o.memory.direction_failed(o.start, t, o.now)
}

proof fn lemma_ahead<'a, G: Walkable>(o: &ObstacleOverlay<'a, G>, t: (i32, i32)) -> (order: int)
    requires
        ahead(o, t),
    ensures
        0 <= order < 8,
        ordered_goal(o, order) == Some(t),
        is_open_direction(o, order),
{
    let dx = t.0 - o.start.0;
    let dy = t.1 - o.start.1;
    let k: int = if dx == 0 {
        if dy < 0 {
            0
        } else {
            4
        }
    } else if dx > 0 {
        if dy < 0 {
            1
        } else if dy == 0 {
            2
        } else {
            3
        }
    } else if dy < 0 {
        7
    } else if dy == 0 {
        6
    } else {
        5
    };
    let first = first_direction(o.memory.recent_positions@);
    law_first_direction(o.memory.recent_positions@, 0, 0, o.now);
    let order = (k - first + 8) % 8;
    assert(compass_goal(o.start, k) == Some(t));
    assert((order + first) % 8 == k);
    order
}

/// What the directions around suggest lies ahead, and the way there is the one
/// with the fewest visits to its tiles, and of these the shortest: on a known map,
/// so far as the ways have less than ten thousand tiles.
pub proof fn law_least_trodden_way<'a, G: Walkable>(
    o: &ObstacleOverlay<'a, G>,
    map_id: u32,
    s: ExploreSuggestion,
    t: (i32, i32),
    path: Seq<(i32, i32)>,
)
    requires
        is_compass_choice(o, Some(s)),
        o.explore_map_id == Some(map_id),
        s.path@.len() < 10_000,
        ahead(o, t),
        route_found(o, o.start, seq![t]) == Some(path),
        path.len() < 10_000,
    ensures
        visits_along(*o.memory, map_id, s.path@) <= visits_along(*o.memory, map_id, path),
        visits_along(*o.memory, map_id, s.path@) == visits_along(*o.memory, map_id, path)
            ==> s.path@.len() <= path.len(),
{
    let order = lemma_ahead(o, t);
    let r = Some(s);
    let found = choose|found: Seq<Option<Vec<(i32, i32)>>>|
        found.len() == 8 && #[trigger] are_searches(o, found) && is_best_of(o, found, r);
    let k = choose|k: int| #[trigger] is_best_way(o, found, k) && suggests_way(o, found, k, s);
    assert(is_found_route(o, o.start, seq![t], found[order]));
    assert(way_found(o, found, order));
    assert(path_view(found[order]) == Some(path));
    assert(found[order]->0@ == path);
    assert(path_score(*o.memory, o.explore_map_id, s.path@) <= path_score(
        *o.memory,
        o.explore_map_id,
        path,
    ));
}

/// The same on an unknown map: the shortest way.
pub proof fn law_shortest_way_on_unknown_map<'a, G: Walkable>(
    o: &ObstacleOverlay<'a, G>,
    s: ExploreSuggestion,
    t: (i32, i32),
    path: Seq<(i32, i32)>,
)
    requires
        is_compass_choice(o, Some(s)),
        o.explore_map_id is None,
        ahead(o, t),
        route_found(o, o.start, seq![t]) == Some(path),
    ensures
        s.path@.len() <= path.len(),
{
    let order = lemma_ahead(o, t);
    let r = Some(s);
    let found = choose|found: Seq<Option<Vec<(i32, i32)>>>|
        found.len() == 8 && #[trigger] are_searches(o, found) && is_best_of(o, found, r);
    let k = choose|k: int| #[trigger] is_best_way(o, found, k) && suggests_way(o, found, k, s);
    assert(is_found_route(o, o.start, seq![t], found[order]));
    assert(way_found(o, found, order));
    assert(path_view(found[order]) == Some(path));
    assert(found[order]->0@ == path);
    assert(path_score(*o.memory, o.explore_map_id, s.path@) <= path_score(
        *o.memory,
        o.explore_map_id,
        path,
    ));
}

/// Where a way is found to a tile ahead, some such tile is suggested.
pub proof fn law_something_ahead<'a, G: Walkable>(
    o: &ObstacleOverlay<'a, G>,
    r: Option<ExploreSuggestion>,
    t: (i32, i32),
)
    requires
        is_compass_choice(o, r),
        ahead(o, t),
        route_found(o, o.start, seq![t]) is Some,
    ensures
        r is Some && ahead(o, r->0.goal),
        route_found(o, o.start, seq![r->0.goal]) == Some(r->0.path@),
{
    let order = lemma_ahead(o, t);
    let found = choose|found: Seq<Option<Vec<(i32, i32)>>>|
        found.len() == 8 && #[trigger] are_searches(o, found) && is_best_of(o, found, r);
    assert(is_found_route(o, o.start, seq![t], found[order]));
    assert(way_found(o, found, order));
    let s = r->0;
    let k = choose|k: int| #[trigger] is_best_way(o, found, k) && suggests_way(o, found, k, s);
    assert(way_found(o, found, k));
    assert(is_found_route(o, o.start, seq![s.goal], found[k]));
}

/// The distances of the rings that are tried last.
pub open spec fn is_ring_distance(n: int) -> bool {
    n == 20 || n == 16 || n == 12 || n == 8 || n == 5 || n == 3 || n == 2 || n == 1
}

/// What the rings suggest lies on one of them, every wider one is out of reach,
/// and no walk to another tile of the ring is cheaper.
pub proof fn law_widest_ring<'a, G: Walkable>(
    o: &ObstacleOverlay<'a, G>,
    s: ExploreSuggestion,
    n: int,
    t: (i32, i32),
    m: int,
    other: Seq<(i32, i32)>,
)
    requires
        is_ring_choice(o, Some(s)),
        steps_between(s.goal, o.start, n),
        steps_between(t, o.start, m),
        is_ring_distance(m),
        !o.memory.direction_failed(o.start, t, o.now),
    ensures
        is_ring_distance(n),
        m > n ==> out_of_reach(o, o.start, t),
        m == n && is_route(o, o.start, other) && other.len() > 0 && other.last() == t && o.walkable(t)
            ==> route_cost(o, o.start, s.path@) <= route_cost(o, o.start, other),
        !o.memory.direction_failed(o.start, s.goal, o.now),
{
    let k = choose|k: int|
        {
            &&& 0 <= k < 8
            &&& is_ring_way(o, #[trigger] fallback_radius(k), s)
            &&& crate::hunt4::explore::is_ring_search(o, fallback_radius(k), Some(s.path@))
            &&& forall|j: int| 0 <= j < k ==> ring_is_shut(o, #[trigger] fallback_radius(j))
        };
    assert(fallback_radius(k) == n);
    if m > n {
        let j = lemma_ring(m);
        assert(j < k);
        assert(ring_is_shut(o, fallback_radius(j)));
        assert(ring_goal(o, m, t));
    }
    if m == n {
        assert(ring_goal(o, n, t));
    }
}

proof fn lemma_ring(m: int) -> (j: int)
    requires
        is_ring_distance(m),
    ensures
        0 <= j < 8,
        fallback_radius(j) == m,
{
    if m == 20 {
        0
    } else if m == 16 {
        1
    } else if m == 12 {
        2
    } else if m == 8 {
        3
    } else if m == 5 {
        4
    } else if m == 3 {
        5
    } else if m == 2 {
        6
    } else {
        7
    }
}

/// Where the rings suggest nothing, every tile on them is out of reach.
pub proof fn law_no_ring_left<'a, G: Walkable>(
    o: &ObstacleOverlay<'a, G>,
    t: (i32, i32),
    m: int,
)
    requires
        is_ring_choice(o, None),
        steps_between(t, o.start, m),
        is_ring_distance(m),
        !o.memory.direction_failed(o.start, t, o.now),
    ensures
        out_of_reach(o, o.start, t),
{
    let j = lemma_ring(m);
    assert(ring_is_shut(o, fallback_radius(j)));
    assert(ring_goal(o, m, t));
}

/// Where nothing is suggested, every tile on the rings is out of reach.
pub proof fn law_nothing_left_to_explore<'a, G: Walkable>(
    o: &ObstacleOverlay<'a, G>,
    map_id: Option<u32>,
    profile: Option<&NavProfile>,
    t: (i32, i32),
    m: int,
)
    requires
        is_overlay_choice(o, map_id, profile, None),
        steps_between(t, o.start, m),
        is_ring_distance(m),
        !o.memory.direction_failed(o.start, t, o.now),
    ensures
        out_of_reach(o, o.start, t),
{
    law_no_ring_left(o, t, m);
}

/// Without a known region what lies ahead comes before the rings.
pub proof fn law_ahead_comes_before_rings<'a, G: Walkable>(
    o: &ObstacleOverlay<'a, G>,
    map_id: Option<u32>,
    r: Option<ExploreSuggestion>,
    t: (i32, i32),
)
    requires
        is_overlay_choice(o, map_id, None, r),
        ahead(o, t),
        route_found(o, o.start, seq![t]) is Some,
    ensures
        r is Some && ahead(o, r->0.goal),
        is_compass_choice(o, r),
{
    if is_compass_choice(o, None) {
        law_something_ahead(o, None, t);
    }
    law_something_ahead(o, r, t);
}

} // verus!
