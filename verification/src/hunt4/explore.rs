//! Where to explore when there is nothing to hunt.
use crate::action::walk::{abs_int, chebyshev_spec, tile_distance};
use crate::decide::open_list::{rank, Node, OpenList};
use crate::decide::pathfind::{
    is_best_route, is_found_route, is_route, lemma_pushed, on_the_way, plan_to_any, reaches_goal,
    route_cost, route_end, route_found, Walkable, MAX_ITERATIONS,
};
use crate::hunt4::memory::{TacticalMemory, POSITION_HISTORY_CAP};
use crate::hunt4::overlay::{same_tile, shift, shifted, ObstacleOverlay};
use crate::hunt4::step::ExploreSuggestion;
use crate::minimap::NavProfile;
use crate::time::Instant;
use vstd::prelude::*;

verus! {

/// How far off the goals of exploration lie.
pub const EXPLORE_RANGE_TILES: i32 = 20;

/// Goals of one region that are searched for together.
pub const PROFILE_EXPLORE_GOAL_LIMIT: usize = 64;

/// What one visit adds to the score of a goal.
pub const VISIT_SCORE: u64 = 1_000_000;

/// What it adds that the player just came from a goal.
pub const BACKTRACK_SCORE: u64 = 500_000;

/// What the visits along a path count for, against its length.
pub const PATH_VISIT_SCORE: u128 = 10_000;

/// At least `n` different tiles can be walked to at no more than a cost.
pub open spec fn many_within<W: Walkable>(
    grid: &W,
    start: (i32, i32),
    cost: int,
    n: nat,
) -> bool {
    exists|s: Set<(i32, i32)>|
        s.finite() && #[trigger] s.len() >= n && forall|t: (i32, i32)| #[trigger]
            s.contains(t) ==> walkable_within(grid, start, cost, t)
}

pub open spec fn walkable_within<W: Walkable>(
    grid: &W,
    start: (i32, i32),
    cost: int,
    tile: (i32, i32),
) -> bool {
    exists|path: Seq<(i32, i32)>|
        {
            &&& #[trigger] is_route(grid, start, path)
            &&& route_end(start, path) == tile
            &&& route_cost(grid, start, path) <= cost
        }
}

/// No walk leads to the tile, or none but at such a cost that so many tiles can
/// be walked to for it that a search may give up before it finds one.
pub open spec fn out_of_reach<W: Walkable>(grid: &W, start: (i32, i32), tile: (i32, i32)) -> bool {
    grid.walkable(tile) ==> forall|path: Seq<(i32, i32)>| #[trigger]
        is_route(grid, start, path) && route_end(start, path) == tile ==> many_within(
            grid,
            start,
            route_cost(grid, start, path),
            (MAX_ITERATIONS / 8) as nat,
        )
}

/// A failed search says that its goals are out of reach.
proof fn lemma_out_of_reach<W: Walkable>(
    grid: &W,
    start: (i32, i32),
    goals: Seq<(i32, i32)>,
    tile: (i32, i32),
)
    requires
        !goals.contains(start),
        is_best_route(grid, start, goals, None),
        goals.contains(tile),
    ensures
        out_of_reach(grid, start, tile),
{
    assert forall|path: Seq<(i32, i32)>| #[trigger]
        is_route(grid, start, path) && route_end(start, path) == tile && grid.walkable(
            tile,
        ) implies many_within(
        grid,
        start,
        route_cost(grid, start, path),
        (MAX_ITERATIONS / 8) as nat,
    ) by {
        let cost = route_cost(grid, start, path);
        assert(reaches_goal(grid, start, goals, path));
        let s = choose|s: Set<(i32, i32)>|
            s.finite() && #[trigger] s.len() >= MAX_ITERATIONS / 8 && forall|t: (i32, i32)|
                #[trigger]
                s.contains(t) ==> on_the_way(grid, start, goals, cost, t);
        assert forall|t: (i32, i32)| #[trigger] s.contains(t) implies walkable_within(
            grid,
            start,
            cost,
            t,
        ) by {
            assert(on_the_way(grid, start, goals, cost, t));
        }
    }
}

/// The last remembered position that is not the player's.
pub open spec fn last_other(s: Seq<(i32, i32, Instant)>, player: (i32, i32)) -> Option<(i32, i32)>
    decreases s.len(),
{
    if s.len() == 0 {
        None
    } else if (s.last().0, s.last().1) != player {
        Some((s.last().0, s.last().1))
    } else {
        last_other(s.drop_last(), player)
    }
}

fn last_distinct_recent_position(memory: &TacticalMemory, player: (i32, i32)) -> (r: Option<
    (i32, i32),
>)
    ensures
        r == last_other(memory.recent_positions@, player),
{
    let mut i: usize = memory.recent_positions.len();
    let ghost all = memory.recent_positions@;
    assert(all.take(i as int) =~= all);
    while i > 0
        invariant
            i <= all.len(),
            all == memory.recent_positions@,
            last_other(all, player) == last_other(all.take(i as int), player),
        decreases i,
    {
        let last: (i32, i32, Instant) = memory.recent_positions[i - 1];
        assert(all.take(i as int).drop_last() =~= all.take(i - 1));
        if !same_tile((last.0, last.1), player) {
            return Some((last.0, last.1));
        }
        i = i - 1;
    }
    None
}

/// The overlay that exploration is judged by.
pub open spec fn explore_overlay<'a, G: Walkable>(
    o: &ObstacleOverlay<'a, G>,
    inner: G,
    memory: TacticalMemory,
    player: (i32, i32),
    map_id: Option<u32>,
    now: Instant,
) -> bool {
    &&& *o.inner == inner
    &&& *o.memory == memory
    &&& o.now == now
    &&& o.start == player
    &&& o.explore_map_id == map_id
    &&& o.previous_position == last_other(memory.recent_positions@, player)
    &&& o.occupied_tiles@.len() == 0
}

/// The tile lies in the player's region of the map.
pub open spec fn in_region(profile: &NavProfile, player: (i32, i32), tile: (i32, i32)) -> bool {
    exists|id: int| #[trigger]
        profile.is_component_of(player, id) && profile.components@[id]@.contains(tile)
}

/// A tile of the player's region that can be explored.
pub open spec fn region_goal<'a, G: Walkable>(
    o: &ObstacleOverlay<'a, G>,
    profile: &NavProfile,
    tile: (i32, i32),
) -> bool {
    in_region(profile, o.start, tile) && is_goal(o, tile)
}

/// The lower the better: first few visits, then not where the player came from,
/// then at a good distance.
pub open spec fn goal_score<'a, G: Walkable>(
    o: &ObstacleOverlay<'a, G>,
    map_id: u32,
    tile: (i32, i32),
) -> int {
    o.memory.visits(map_id, tile) * VISIT_SCORE + (if o.previous_position == Some(tile) {
        BACKTRACK_SCORE as int
    } else {
        0
    }) + abs_int(chebyshev_spec(tile, o.start) - EXPLORE_RANGE_TILES)
}

/// A walk to the goal, and none that is cheaper.
pub open spec fn is_cheapest_to<W: Walkable>(
    grid: &W,
    start: (i32, i32),
    goal: (i32, i32),
    path: Seq<(i32, i32)>,
) -> bool {
    &&& path.len() > 0
    &&& is_route(grid, start, path)
    &&& path.last() == goal
    &&& grid.walkable(goal)
    &&& forall|other: Seq<(i32, i32)>| #[trigger]
        is_route(grid, start, other) && other.len() > 0 && other.last() == goal ==> route_cost(
            grid,
            start,
            path,
        ) <= route_cost(grid, start, other)
}

proof fn lemma_cheapest<W: Walkable>(
    grid: &W,
    start: (i32, i32),
    goals: Seq<(i32, i32)>,
    path: Vec<(i32, i32)>,
)
    requires
        !goals.contains(start),
        is_best_route(grid, start, goals, Some(path)),
    ensures
        is_cheapest_to(grid, start, path@.last(), path@),
        goals.contains(path@.last()),
{
    assert forall|other: Seq<(i32, i32)>| #[trigger]
        is_route(grid, start, other) && other.len() > 0 && other.last()
            == path@.last() implies route_cost(grid, start, path@) <= route_cost(
        grid,
        start,
        other,
    ) by {
        assert(reaches_goal(grid, start, goals, other));
    }
}

/// A tile that can be explored.
pub open spec fn is_goal<'a, G: Walkable>(o: &ObstacleOverlay<'a, G>, tile: (i32, i32)) -> bool {
    &&& tile != o.start
    &&& o.walkable(tile)
    &&& !o.memory.direction_failed(o.start, tile, o.now)
}

/// A goal with its score and its place among goals of the same score.
pub open spec fn goal_node<'a, G: Walkable>(
    o: &ObstacleOverlay<'a, G>,
    map_id: u32,
    tile: (i32, i32),
) -> Node {
    Node { f: goal_score(o, map_id, tile) as u64, g: reading_order(tile) as u64, pos: tile }
}

/// Tiles by row, and by column within a row.
pub open spec fn reading_order(tile: (i32, i32)) -> int {
    (tile.1 + 0x8000_0000) * 0x1_0000_0000 + (tile.0 + 0x8000_0000)
}

/// The goals among some tiles, in their order.
pub open spec fn goal_nodes<'a, G: Walkable>(
    o: &ObstacleOverlay<'a, G>,
    map_id: u32,
    tiles: Seq<(i32, i32)>,
) -> Seq<Node>
    decreases tiles.len(),
{
    if tiles.len() == 0 {
        seq![]
    } else {
        let rest = goal_nodes(o, map_id, tiles.drop_last());
        if is_goal(o, tiles.last()) {
            rest.push(goal_node(o, map_id, tiles.last()))
        } else {
            rest
        }
    }
}

/// The same nodes by their scores, and by their places where these are equal.
pub open spec fn is_sorting(sorted: Seq<Node>, nodes: Seq<Node>) -> bool {
    &&& sorted.to_multiset() == nodes.to_multiset()
    &&& forall|i: int, j: int|
        0 <= i <= j < sorted.len() ==> rank(#[trigger] sorted[i]) <= rank(#[trigger] sorted[j])
}

/// Goals that are searched for together: as many as there are with one score,
/// up to the limit.
pub open spec fn is_batch(sorted: Seq<Node>, from: int, end: int) -> bool {
    &&& 0 <= from < end <= sorted.len()
    &&& end - from <= PROFILE_EXPLORE_GOAL_LIMIT
    &&& forall|i: int| from <= i < end ==> (#[trigger] sorted[i]).f == sorted[from].f
    &&& end == sorted.len() || end - from == PROFILE_EXPLORE_GOAL_LIMIT || sorted[end].f
        != sorted[from].f
}

pub open spec fn batch_tiles(sorted: Seq<Node>, from: int, end: int) -> Seq<(i32, i32)> {
    Seq::new((end - from) as nat, |i: int| sorted[from + i].pos)
}

/// What a search for a batch may find.
pub open spec fn is_batch_search<'a, G: Walkable>(
    o: &ObstacleOverlay<'a, G>,
    sorted: Seq<Node>,
    from: int,
    end: int,
    found: Option<Vec<(i32, i32)>>,
) -> bool {
    is_batch(sorted, from, end) && is_found_route(o, o.start, batch_tiles(sorted, from, end), found)
}

/// The suggestion is a cheapest walk to the first batch from `from` on to which
/// a way is found.
pub open spec fn is_first_way<'a, G: Walkable>(
    o: &ObstacleOverlay<'a, G>,
    sorted: Seq<Node>,
    from: int,
    r: Option<ExploreSuggestion>,
) -> bool
    decreases sorted.len() - from,
{
    if from < 0 || from >= sorted.len() {
        r is None
    } else {
        exists|end: int, found: Option<Vec<(i32, i32)>>|
            {
                &&& from < end <= sorted.len()
                &&& #[trigger] is_batch_search(o, sorted, from, end, found)
                &&& match found {
                    Some(path) => r matches Some(s) && s.path@ == path@ && s.goal == path@.last(),
                    None => is_first_way(o, sorted, end, r),
                }
            }
    }
}

/// What a region suggests: its goals are searched for in batches, the best
/// first.
pub open spec fn is_way_in_region<'a, G: Walkable>(
    o: &ObstacleOverlay<'a, G>,
    map_id: u32,
    tiles: Seq<(i32, i32)>,
    r: Option<ExploreSuggestion>,
) -> bool {
    exists|sorted: Seq<Node>| #[trigger]
        is_sorting(sorted, goal_nodes(o, map_id, tiles)) && is_first_way(o, sorted, 0, r)
}

/// What the player's region suggests.
pub open spec fn is_region_choice<'a, G: Walkable>(
    o: &ObstacleOverlay<'a, G>,
    map_id: u32,
    profile: &NavProfile,
    r: Option<ExploreSuggestion>,
) -> bool {
    if profile.lists(o.start) {
        exists|id: int| #[trigger]
            profile.is_component_of(o.start, id) && is_way_in_region(
                o,
                map_id,
                profile.components@[id]@,
                r,
            )
    } else {
        r is None
    }
}

/// The same, where the map or its regions may be unknown.
pub open spec fn is_profile_choice<'a, G: Walkable>(
    o: &ObstacleOverlay<'a, G>,
    map_id: Option<u32>,
    profile: Option<&NavProfile>,
    r: Option<ExploreSuggestion>,
) -> bool {
    match (map_id, profile) {
        (Some(id), Some(p)) => is_region_choice(o, id, p, r),
        _ => r is None,
    }
}

fn node_for<'a, G: Walkable>(o: &ObstacleOverlay<'a, G>, map_id: u32, tile: (i32, i32)) -> (r: Node)
    ensures
        r == goal_node(o, map_id, tile),
{
    let visit_score: u64 = o.memory.visit_count(map_id, tile) as u64 * VISIT_SCORE;
    let came_from: bool = match o.previous_position {
        Some(p) => same_tile(p, tile),
        None => false,
    };
    let backtrack_score: u64 = if came_from {
        BACKTRACK_SCORE
    } else {
        0
    };
    let distance: u32 = tile_distance(tile, o.start);
    let range: u32 = EXPLORE_RANGE_TILES as u32;
    let radius_score: u64 = if distance >= range {
        (distance - range) as u64
    } else {
        (range - distance) as u64
    };
    let row: u64 = (tile.1 as i64 + 0x8000_0000) as u64;
    let column: u64 = (tile.0 as i64 + 0x8000_0000) as u64;
    Node {
        f: visit_score + backtrack_score + radius_score,
        g: row * 0x1_0000_0000 + column,
        pos: tile,
    }
}

/// The goals among some tiles, the best first.
fn sorted_goals<'a, G: Walkable>(
    o: &ObstacleOverlay<'a, G>,
    map_id: u32,
    tiles: &Vec<(i32, i32)>,
) -> (r: Vec<Node>)
    ensures
        is_sorting(r@, goal_nodes(o, map_id, tiles@)),
{
    let mut open: OpenList = OpenList::new();
    assert(open.nodes() =~= goal_nodes(o, map_id, tiles@.take(0)));
    let mut i: usize = 0;
    while i < tiles.len()
        invariant
            i <= tiles@.len(),
            open.nodes().to_multiset() == goal_nodes(o, map_id, tiles@.take(i as int)).to_multiset(),
        decreases tiles@.len() - i,
    {
        let tile: (i32, i32) = tiles[i];
        assert(tiles@.take(i + 1).drop_last() =~= tiles@.take(i as int));
        if !same_tile(tile, o.start) && o.is_walkable(tile.0, tile.1)
            && !o.memory.is_explore_direction_failed(o.start, tile, o.now) {
            let node: Node = node_for(o, map_id, tile);
            open.push(node);
            proof {
                vstd::seq_lib::to_multiset_build(
                    goal_nodes(o, map_id, tiles@.take(i as int)),
                    node,
                );
            }
        }
        i = i + 1;
    }
    assert(tiles@.take(i as int) =~= tiles@);
    let ghost all = open.nodes().to_multiset();
    let mut out: Vec<Node> = Vec::new();
    let ghost filled = open.nodes();
    let mut next: Option<Node> = open.pop();
    proof {
        broadcast use vstd::seq_lib::group_to_multiset_ensures;

        assert(out@.to_multiset().len() == 0);
        if let Some(n) = next {
            assert(all.count(n) > 0);
            assert(out@.to_multiset().insert(n).add(open.nodes().to_multiset()) =~= all);
        } else {
            assert(filled.to_multiset().len() == 0);
            assert(out@.to_multiset() =~= all);
        }
    }
    while next.is_some()
        invariant
            match next {
                Some(n) => {
                    &&& out@.to_multiset().insert(n).add(open.nodes().to_multiset()) == all
                    &&& forall|i: int| 0 <= i < out@.len() ==> rank(#[trigger] out@[i]) <= rank(n)
                    &&& forall|m: Node| #[trigger] open.nodes().contains(m) ==> rank(n) <= rank(m)
                },
                None => open.nodes().len() == 0 && out@.to_multiset() == all,
            },
            forall|i: int, j: int|
                0 <= i <= j < out@.len() ==> rank(#[trigger] out@[i]) <= rank(#[trigger] out@[j]),
        decreases open.nodes().len() + (if next is Some { 1int } else { 0int }),
    {
        let n: Node = next.unwrap();
        let ghost before = out@;
        out.push(n);
        proof {
            vstd::seq_lib::to_multiset_build(before, n);
        }
        let ghost rest = open.nodes();
        next = open.pop();
        proof {
            broadcast use vstd::seq_lib::group_to_multiset_ensures;

            if let Some(m) = next {
                assert(rest.to_multiset().count(m) > 0);
                assert(out@.to_multiset().insert(m).add(open.nodes().to_multiset()) =~= all);
            } else {
                assert(rest.to_multiset().len() == 0);
                assert(out@.to_multiset() =~= all);
            }
        }
    }
    out
}

fn profile_explore_suggestion<'a, G: Walkable>(
    map_id: Option<u32>,
    profile: Option<&NavProfile>,
    o: &ObstacleOverlay<'a, G>,
) -> (r: Option<ExploreSuggestion>)
    ensures
        is_profile_choice(o, map_id, profile, r),
{
    match (map_id, profile) {
        (Some(id), Some(p)) => region_explore_suggestion(id, p, o),
        _ => None,
    }
}

fn region_explore_suggestion<'a, G: Walkable>(
    map_id: u32,
    profile: &NavProfile,
    o: &ObstacleOverlay<'a, G>,
) -> (r: Option<ExploreSuggestion>)
    ensures
        is_region_choice(o, map_id, profile, r),
{
    let component: usize = match profile.component_id(o.start) {
        Some(id) => id,
        None => {
            return None;
        },
    };
    let tiles: &Vec<(i32, i32)> = match profile.component_tiles(component) {
        Some(tiles) => tiles,
        None => {
            return None;
        },
    };
    assert(profile.is_component_of(o.start, component as int));
    let sorted: Vec<Node> = sorted_goals(o, map_id, tiles);
    proof {
        lemma_sorted_goals(o, map_id, tiles@, sorted@);
    }
    first_way(o, &sorted)
}

/// Searches for goals in batches.
fn first_way<'a, G: Walkable>(o: &ObstacleOverlay<'a, G>, sorted: &Vec<Node>) -> (r: Option<
    ExploreSuggestion,
>)
    requires
        forall|i: int| 0 <= i < sorted@.len() ==> (#[trigger] sorted@[i]).pos != o.start,
    ensures
        is_first_way(o, sorted@, 0, r),
{
    let mut from: usize = 0;
    while from < sorted.len()
        invariant
            forall|i: int| 0 <= i < sorted@.len() ==> (#[trigger] sorted@[i]).pos != o.start,
            from <= sorted@.len(),
            forall|r: Option<ExploreSuggestion>| #[trigger]
                is_first_way(o, sorted@, from as int, r) ==> is_first_way(o, sorted@, 0, r),
        decreases sorted@.len() - from,
    {
        let score: u64 = sorted[from].f;
        let mut goals: Vec<(i32, i32)> = Vec::new();
        let mut end: usize = from;
        while end < sorted.len() && goals.len() < PROFILE_EXPLORE_GOAL_LIMIT && sorted[end].f
            == score
            invariant
                from < sorted@.len(),
                score == sorted@[from as int].f,
                from <= end <= sorted@.len(),
                goals@.len() == end - from,
                goals@.len() <= PROFILE_EXPLORE_GOAL_LIMIT,
                goals@ == batch_tiles(sorted@, from as int, end as int),
                forall|i: int| from <= i < end ==> (#[trigger] sorted@[i]).f == score,
            decreases sorted@.len() - end,
        {
            goals.push(sorted[end].pos);
            end = end + 1;
            assert(goals@ =~= batch_tiles(sorted@, from as int, end as int));
        }
        assert(!goals@.contains(o.start));
        let found = plan_to_any(o.start, goals.as_slice(), o);
        assert(is_batch_search(o, sorted@, from as int, end as int, found));
        match found {
            Some(path) => {
                let goal: (i32, i32) = path[path.len() - 1];
                let r = Some(ExploreSuggestion { goal, path });
                assert(is_first_way(o, sorted@, from as int, r));
                return r;
            },
            None => {
                assert forall|r: Option<ExploreSuggestion>| #[trigger]
                    is_first_way(o, sorted@, end as int, r) implies is_first_way(
                    o,
                    sorted@,
                    0,
                    r,
                ) by {
                    assert(is_first_way(o, sorted@, from as int, r));
                }
            },
        }
        from = end;
    }
    assert(is_first_way(o, sorted@, from as int, None));
    None
}

/// The goals among some tiles, one by one.
proof fn lemma_goal_nodes<'a, G: Walkable>(
    o: &ObstacleOverlay<'a, G>,
    map_id: u32,
    tiles: Seq<(i32, i32)>,
    n: Node,
)
    ensures
        goal_nodes(o, map_id, tiles).contains(n) <==> (tiles.contains(n.pos) && is_goal(o, n.pos)
            && n == goal_node(o, map_id, n.pos)),
    decreases tiles.len(),
{
    if tiles.len() > 0 {
        let before = tiles.drop_last();
        let rest = goal_nodes(o, map_id, before);
        lemma_goal_nodes(o, map_id, before, n);
        assert(tiles =~= before.push(tiles.last()));
        lemma_pushed(before, tiles.last(), n.pos);
        let added = goal_node(o, map_id, tiles.last());
        if rest.contains(n) {
            let k = choose|k: int| 0 <= k < rest.len() && rest[k] == n;
            assert(rest.push(added)[k] == n);
        }
        if rest.push(added).contains(n) {
            let k = choose|k: int| 0 <= k < rest.len() + 1 && rest.push(added)[k] == n;
            if k < rest.len() {
                assert(rest[k] == n);
            }
        }
        assert(rest.push(added)[rest.len() as int] == added);
    }
}

/// The same of the sorted goals.
proof fn lemma_sorted_goals<'a, G: Walkable>(
    o: &ObstacleOverlay<'a, G>,
    map_id: u32,
    tiles: Seq<(i32, i32)>,
    sorted: Seq<Node>,
)
    requires
        is_sorting(sorted, goal_nodes(o, map_id, tiles)),
    ensures
        forall|n: Node| #[trigger]
            sorted.contains(n) <==> (tiles.contains(n.pos) && is_goal(o, n.pos) && n == goal_node(
                o,
                map_id,
                n.pos,
            )),
        forall|i: int|
            0 <= i < sorted.len() ==> (#[trigger] sorted[i]).pos != o.start && sorted[i].f
                == goal_score(o, map_id, sorted[i].pos),
{
    broadcast use vstd::seq_lib::group_to_multiset_ensures;

    assert forall|n: Node| #[trigger]
        sorted.contains(n) <==> (tiles.contains(n.pos) && is_goal(o, n.pos) && n == goal_node(
            o,
            map_id,
            n.pos,
        )) by {
        lemma_goal_nodes(o, map_id, tiles, n);
        assert(sorted.to_multiset().count(n) == goal_nodes(o, map_id, tiles).to_multiset().count(n));
    }
    assert forall|i: int| 0 <= i < sorted.len() implies (#[trigger] sorted[i]).pos != o.start
        && sorted[i].f == goal_score(o, map_id, sorted[i].pos) by {
        assert(sorted.contains(sorted[i]));
    }
}

/// A way that is found leads to one of the goals, and those with better scores
/// are out of reach.
proof fn lemma_first_way<'a, G: Walkable>(
    o: &ObstacleOverlay<'a, G>,
    sorted: Seq<Node>,
    from: int,
    r: Option<ExploreSuggestion>,
) -> (k: int)
    requires
        0 <= from <= sorted.len(),
        forall|i: int| 0 <= i < sorted.len() ==> (#[trigger] sorted[i]).pos != o.start,
        forall|i: int, j: int|
            0 <= i <= j < sorted.len() ==> rank(#[trigger] sorted[i]) <= rank(#[trigger] sorted[j]),
        is_first_way(o, sorted, from, r),
    ensures
        match r {
            Some(s) => {
                &&& from <= k < sorted.len()
                &&& s.goal == sorted[k].pos
                &&& is_cheapest_to(o, o.start, s.goal, s.path@)
                &&& forall|j: int|
                    from <= j < sorted.len() && (#[trigger] sorted[j]).f < sorted[k].f
                        ==> out_of_reach(o, o.start, sorted[j].pos)
            },
            None => forall|j: int|
                from <= j < sorted.len() ==> out_of_reach(o, o.start, (#[trigger] sorted[j]).pos),
        },
    decreases sorted.len() - from,
{
    if from == sorted.len() {
        from
    } else {
        let (end, found) = choose|end: int, found: Option<Vec<(i32, i32)>>|
            {
                &&& from < end <= sorted.len()
                &&& #[trigger] is_batch_search(o, sorted, from, end, found)
                &&& match found {
                    Some(path) => r matches Some(s) && s.path@ == path@ && s.goal == path@.last(),
                    None => is_first_way(o, sorted, end, r),
                }
            };
        let goals = batch_tiles(sorted, from, end);
        assert(!goals.contains(o.start));
        match found {
            Some(path) => {
                lemma_cheapest(o, o.start, goals, path);
                let i = choose|i: int| 0 <= i < goals.len() && goals[i] == path@.last();
                assert forall|j: int|
                    from <= j < sorted.len() implies (#[trigger] sorted[j]).f >= sorted[from + i].f by {
                    if j >= end {
                        assert(rank(sorted[from + i]) <= rank(sorted[j]));
                    }
                }
                from + i
            },
            None => {
                let k = lemma_first_way(o, sorted, end, r);
                assert forall|j: int| from <= j < end implies out_of_reach(
                    o,
                    o.start,
                    (#[trigger] sorted[j]).pos,
                ) by {
                    assert(goals[j - from] == sorted[j].pos);
                    lemma_out_of_reach(o, o.start, goals, sorted[j].pos);
                }
                k
            },
        }
    }
}

/// What the player's region suggests is a tile with the best score of those
/// that a search can find a way to, with a cheapest walk there.
pub proof fn law_region_choice_is_best<'a, G: Walkable>(
    o: &ObstacleOverlay<'a, G>,
    map_id: u32,
    profile: &NavProfile,
    r: Option<ExploreSuggestion>,
)
    requires
        is_region_choice(o, map_id, profile, r),
    ensures
        match r {
            Some(s) => {
                &&& region_goal(o, profile, s.goal)
                &&& is_cheapest_to(o, o.start, s.goal, s.path@)
                &&& forall|t: (i32, i32)| #[trigger]
                    region_goal(o, profile, t) && goal_score(o, map_id, t) < goal_score(
                        o,
                        map_id,
                        s.goal,
                    ) ==> out_of_reach(o, o.start, t)
            },
            None => forall|t: (i32, i32)| #[trigger]
                region_goal(o, profile, t) ==> out_of_reach(o, o.start, t),
        },
{
    if profile.lists(o.start) {
        let id = choose|id: int| #[trigger]
            profile.is_component_of(o.start, id) && is_way_in_region(
                o,
                map_id,
                profile.components@[id]@,
                r,
            );
        let tiles = profile.components@[id]@;
        let sorted = choose|sorted: Seq<Node>| #[trigger]
            is_sorting(sorted, goal_nodes(o, map_id, tiles)) && is_first_way(o, sorted, 0, r);
        lemma_sorted_goals(o, map_id, tiles, sorted);
        let k = lemma_first_way(o, sorted, 0, r);
        assert forall|t: (i32, i32)| #[trigger]
            region_goal(o, profile, t) <==> (tiles.contains(t) && is_goal(o, t)) by {
            if in_region(profile, o.start, t) {
                let other = choose|other: int| #[trigger]
                    profile.is_component_of(o.start, other)
                        && profile.components@[other]@.contains(t);
                assert(other == id);
            }
        }
        assert forall|t: (i32, i32)| #[trigger] region_goal(o, profile, t) implies exists|j: int|
            0 <= j < sorted.len() && (#[trigger] sorted[j]).pos == t && sorted[j].f == goal_score(
                o,
                map_id,
                t,
            ) by {
            assert(sorted.contains(goal_node(o, map_id, t)));
            let j = choose|j: int|
                0 <= j < sorted.len() && sorted[j] == goal_node(o, map_id, t);
            assert(sorted[j].pos == t);
        }
        if let Some(s) = r {
            assert(sorted.contains(sorted[k]));
        }
    } else {
        assert forall|t: (i32, i32)| !#[trigger] region_goal(o, profile, t) by {
            if in_region(profile, o.start, t) {
                let id = choose|id: int| #[trigger]
                    profile.is_component_of(o.start, id) && profile.components@[id]@.contains(t);
                assert(profile.components@[id]@.contains(o.start));
            }
        }
    }
}

/// Where the `k`-th goal around the player lies from there, clockwise from the
/// north.
pub open spec fn compass_offset(k: int) -> (int, int) {
    let d = EXPLORE_RANGE_TILES as int;
    let dx = if k == 0 || k == 4 {
        0
    } else if 1 <= k <= 3 {
        d
    } else {
        -d
    };
    let dy = if k == 2 || k == 6 {
        0
    } else if 3 <= k <= 5 {
        d
    } else {
        -d
    };
    (dx, dy)
}

/// The `k`-th goal around the player. There is none beyond the last coordinate.
pub open spec fn compass_goal(player: (i32, i32), k: int) -> Option<(i32, i32)> {
    shifted(player, compass_offset(k).0, compass_offset(k).1)
}

/// The `k`-th goal around the player.
fn compass_goal_at(player: (i32, i32), k: usize) -> (r: Option<(i32, i32)>)
    requires
        k < 8,
    ensures
        r == compass_goal(player, k as int),
{
    let d: i32 = EXPLORE_RANGE_TILES;
    let dx: i32 = if k == 0 || k == 4 {
        0
    } else if k <= 3 {
        d
    } else {
        -d
    };
    let dy: i32 = if k == 2 || k == 6 {
        0
    } else if 3 <= k && k <= 5 {
        d
    } else {
        -d
    };
    shift(player, dx, dy)
}

/// The eight goals around the player, clockwise from the north.
pub fn explore_goal_directions(player: (i32, i32)) -> (r: [(i32, i32); 8])
    requires
        i32::MIN + EXPLORE_RANGE_TILES <= player.0 <= i32::MAX - EXPLORE_RANGE_TILES,
        i32::MIN + EXPLORE_RANGE_TILES <= player.1 <= i32::MAX - EXPLORE_RANGE_TILES,
    ensures
        forall|k: int| 0 <= k < 8 ==> compass_goal(player, k) == Some(#[trigger] r@[k]),
{
    let d: i32 = EXPLORE_RANGE_TILES;
    [
        (player.0, player.1 - d),
        (player.0 + d, player.1 - d),
        (player.0 + d, player.1),
        (player.0 + d, player.1 + d),
        (player.0, player.1 + d),
        (player.0 - d, player.1 + d),
        (player.0 - d, player.1),
        (player.0 - d, player.1 - d),
    ]
}

/// A number below eight that depends on every remembered position.
pub open spec fn position_seed(s: Seq<(i32, i32, Instant)>) -> int
    decreases s.len(),
{
    if s.len() == 0 {
        0
    } else {
        mixed(position_seed(s.drop_last()), s.last().0 as int, s.last().1 as int)
    }
}

pub open spec fn mixed(seed: int, x: int, y: int) -> int {
    (seed * 31 + x * 17 + y * 13) % 8
}

fn mix(seed: i64, x: i32, y: i32) -> (r: i64)
    requires
        0 <= seed < 8,
    ensures
        r == mixed(seed as int, x as int, y as int),
        0 <= r < 8,
{
    let m: i64 = seed * 31 + x as i64 * 17 + y as i64 * 13;
    proof {
        vstd::arithmetic::div_mod::lemma_mod_multiples_vanish(0x200_0000_0000, m as int, 8);
    }
    (m + 0x1000_0000_0000) % 8
}

/// Which of the eight goals is tried first. It moves on while the memory of
/// positions fills up, and follows the positions from then on.
pub open spec fn first_direction(s: Seq<(i32, i32, Instant)>) -> int {
    if s.len() < POSITION_HISTORY_CAP {
        s.len() as int % 8
    } else {
        position_seed(s)
    }
}

fn explore_direction_offset(memory: &TacticalMemory) -> (r: usize)
    ensures
        r == first_direction(memory.recent_positions@),
        r < 8,
{
    let n: usize = memory.recent_positions.len();
    if n < POSITION_HISTORY_CAP {
        return n % 8;
    }
    let ghost all = memory.recent_positions@;
    let mut seed: i64 = 0;
    let mut i: usize = 0;
    while i < n
        invariant
            i <= n,
            n == all.len(),
            all == memory.recent_positions@,
            0 <= seed < 8,
            seed == position_seed(all.take(i as int)),
        decreases n - i,
    {
        let p: (i32, i32, Instant) = memory.recent_positions[i];
        assert(all.take(i + 1).drop_last() =~= all.take(i as int));
        seed = mix(seed, p.0, p.1);
        i = i + 1;
    }
    assert(all.take(i as int) =~= all);
    seed as usize
}

/// The visits to the tiles of a path.
pub open spec fn visits_along(memory: TacticalMemory, map_id: u32, path: Seq<(i32, i32)>) -> int
    decreases path.len(),
{
    if path.len() == 0 {
        0
    } else {
        visits_along(memory, map_id, path.drop_last()) + memory.visits(map_id, path.last())
    }
}

/// The lower the better: first few visits along the way, then a short way.
pub open spec fn path_score(
    memory: TacticalMemory,
    map_id: Option<u32>,
    path: Seq<(i32, i32)>,
) -> int {
    (match map_id {
        Some(id) => visits_along(memory, id, path),
        None => 0,
    }) * PATH_VISIT_SCORE + path.len()
}

fn explore_path_score(path: &Vec<(i32, i32)>, memory: &TacticalMemory, map_id: Option<u32>) -> (r:
    u128)
    ensures
        r == path_score(*memory, map_id, path@),
{
    let mut visits: u128 = 0;
    if let Some(id) = map_id {
        let mut i: usize = 0;
        while i < path.len()
            invariant
                i <= path@.len(),
                visits == visits_along(*memory, id, path@.take(i as int)),
                visits <= i * 65535,
            decreases path@.len() - i,
        {
            assert(path@.take(i + 1).drop_last() =~= path@.take(i as int));
            visits = visits + memory.visit_count(id, path[i]) as u128;
            i = i + 1;
        }
        assert(path@.take(i as int) =~= path@);
    }
    visits * PATH_VISIT_SCORE + path.len() as u128
}

/// The goal that is tried `order`-th, where there is one.
pub open spec fn ordered_goal<'a, G: Walkable>(o: &ObstacleOverlay<'a, G>, order: int) -> Option<
    (i32, i32),
> {
    compass_goal(o.start, (order + first_direction(o.memory.recent_positions@)) % 8)
}

/// Nothing speaks against the goal that is tried `order`-th.
pub open spec fn is_open_direction<'a, G: Walkable>(o: &ObstacleOverlay<'a, G>, order: int) -> bool {
    ordered_goal(o, order) matches Some(goal) && !o.memory.direction_failed(o.start, goal, o.now)
}

/// What searches for the goals around may find, each on its own.
pub open spec fn are_searches<'a, G: Walkable>(
    o: &ObstacleOverlay<'a, G>,
    found: Seq<Option<Vec<(i32, i32)>>>,
) -> bool {
    forall|k: int|
        0 <= k < found.len() && is_open_direction(o, k) ==> is_found_route(
            o,
            o.start,
            seq![ordered_goal(o, k)->0],
            #[trigger] found[k],
        )
}

/// The search for the goal that is tried `k`-th found a way.
pub open spec fn way_found<'a, G: Walkable>(
    o: &ObstacleOverlay<'a, G>,
    found: Seq<Option<Vec<(i32, i32)>>>,
    k: int,
) -> bool {
    0 <= k < found.len() && is_open_direction(o, k) && found[k] is Some
}

/// The way that was found `k`-th has the best score, and is the first with it.
pub open spec fn is_best_way<'a, G: Walkable>(
    o: &ObstacleOverlay<'a, G>,
    found: Seq<Option<Vec<(i32, i32)>>>,
    k: int,
) -> bool {
    &&& way_found(o, found, k)
    &&& forall|j: int| #[trigger]
        way_found(o, found, j) ==> {
            let a = path_score(*o.memory, o.explore_map_id, found[k].unwrap()@);
            let b = path_score(*o.memory, o.explore_map_id, found[j].unwrap()@);
            a < b || (a == b && k <= j)
        }
}

/// The suggestion is the way that was found `k`-th.
pub open spec fn suggests_way<'a, G: Walkable>(
    o: &ObstacleOverlay<'a, G>,
    found: Seq<Option<Vec<(i32, i32)>>>,
    k: int,
    s: ExploreSuggestion,
) -> bool {
    ordered_goal(o, k) == Some(s.goal) && s.path@ == found[k].unwrap()@
}

/// What the goals around the player suggest.
pub open spec fn is_compass_choice<'a, G: Walkable>(
    o: &ObstacleOverlay<'a, G>,
    r: Option<ExploreSuggestion>,
) -> bool {
    exists|found: Seq<Option<Vec<(i32, i32)>>>|
        found.len() == 8 && #[trigger] are_searches(o, found) && is_best_of(o, found, r)
}

/// The suggestion is the best of the ways that were found.
pub open spec fn is_best_of<'a, G: Walkable>(
    o: &ObstacleOverlay<'a, G>,
    found: Seq<Option<Vec<(i32, i32)>>>,
    r: Option<ExploreSuggestion>,
) -> bool {
    match r {
        Some(s) => exists|k: int| #[trigger]
            is_best_way(o, found, k) && suggests_way(o, found, k, s),
        None => forall|k: int| !#[trigger] way_found(o, found, k),
    }
}

#[verifier::rlimit(30)]
fn best_directional_explore_suggestion<'a, G: Walkable>(o: &ObstacleOverlay<'a, G>) -> (r: Option<
    ExploreSuggestion,
>)
    ensures
        is_compass_choice(o, r),
{
    let player: (i32, i32) = o.start;
    let offset: usize = explore_direction_offset(o.memory);
    let mut best: Option<(u128, ExploreSuggestion)> = None;
    let ghost mut found: Seq<Option<Vec<(i32, i32)>>> = seq![];
    let ghost mut best_k: int = 0;
    let mut order: usize = 0;
    while order < 8
        invariant
            order <= 8,
            player == o.start,
            offset < 8,
            offset == first_direction(o.memory.recent_positions@),
            found.len() == order,
            are_searches(o, found),
            match best {
                Some(b) => {
                    &&& is_best_way(o, found, best_k)
                    &&& suggests_way(o, found, best_k, b.1)
                    &&& b.0 == path_score(*o.memory, o.explore_map_id, b.1.path@)
                },
                None => forall|k: int| !#[trigger] way_found(o, found, k),
            },
        decreases 8 - order,
    {
        let candidate: Option<(i32, i32)> = compass_goal_at(player, (order + offset) % 8);
        assert(candidate == ordered_goal(o, order as int));
        let open_goal: Option<(i32, i32)> = match candidate {
            Some(goal) => if o.memory.is_explore_direction_failed(player, goal, o.now) {
                None
            } else {
                Some(goal)
            },
            None => None,
        };
        let ghost found0 = found;
        if open_goal.is_none() {
            proof {
                found = found.push(None);
                assert forall|k: int| #[trigger] way_found(o, found, k) <==> way_found(o, found0, k) by {}
            }
        }
        if let Some(goal) = open_goal {
            let mut single: Vec<(i32, i32)> = Vec::new();
            single.push(goal);
            assert(single@ =~= seq![ordered_goal(o, order as int)->0]);
            let search = plan_to_any(player, single.as_slice(), o);
            proof {
                found = found.push(search);
                assert forall|k: int|
                    0 <= k < found.len() && is_open_direction(o, k) implies is_found_route(
                    o,
                    o.start,
                    seq![ordered_goal(o, k)->0],
                    #[trigger] found[k],
                ) by {
                    if k < order {
                        assert(found[k] == found0[k]);
                    }
                }
                assert forall|k: int| k < order implies (#[trigger] way_found(o, found, k) <==> way_found(
                    o,
                    found0,
                    k,
                )) by {}
            }
            match search {
                Some(path) => {
                    let score: u128 = explore_path_score(&path, o.memory, o.explore_map_id);
                    let better: bool = match &best {
                        Some(b) => score < b.0,
                        None => true,
                    };
                    proof {
                        assert forall|j: int| #[trigger] way_found(o, found, j) && j != order implies way_found(
                            o,
                            found0,
                            j,
                        ) && found[j] == found0[j] by {}
                        assert(way_found(o, found, order as int));
                    }
                    if better {
                        proof {
                            best_k = order as int;
                        }
                        best = Some((score, ExploreSuggestion { goal, path }));
                        assert(is_best_way(o, found, best_k));
                    } else {
                        assert(way_found(o, found, best_k));
                        assert(is_best_way(o, found, best_k));
                    }
                },
                None => {
                    proof {
                        assert forall|j: int| #[trigger] way_found(o, found, j) implies way_found(
                            o,
                            found0,
                            j,
                        ) && found[j] == found0[j] by {}
                        if best is Some {
                            assert(way_found(o, found, best_k));
                            assert(is_best_way(o, found, best_k));
                        }
                    }
                },
            }
        }
        order = order + 1;
    }
    match best {
        Some(b) => Some(b.1),
        None => None,
    }
}

/// How far off the goals lie that are tried when nothing else was found, in
/// turn.
pub open spec fn fallback_radius(k: int) -> int {
    if k == 0 {
        EXPLORE_RANGE_TILES as int
    } else if k == 1 {
        16
    } else if k == 2 {
        12
    } else if k == 3 {
        8
    } else if k == 4 {
        5
    } else if k == 5 {
        3
    } else if k == 6 {
        2
    } else {
        1
    }
}

/// A tile at a distance from the player that can be explored.
pub open spec fn ring_goal<'a, G: Walkable>(
    o: &ObstacleOverlay<'a, G>,
    radius: int,
    tile: (i32, i32),
) -> bool {
    chebyshev_spec(o.start, tile) == radius && !o.memory.direction_failed(o.start, tile, o.now)
}

/// No goal at a distance can be reached.
pub open spec fn ring_out_of_reach<'a, G: Walkable>(o: &ObstacleOverlay<'a, G>, radius: int) -> bool {
    forall|t: (i32, i32)| #[trigger] ring_goal(o, radius, t) ==> out_of_reach(o, o.start, t)
}

/// What a search for all the tiles at a distance finds.
pub open spec fn is_ring_search<'a, G: Walkable>(
    o: &ObstacleOverlay<'a, G>,
    radius: int,
    path: Option<Seq<(i32, i32)>>,
) -> bool {
    exists|goals: Seq<(i32, i32)>|
        path == #[trigger] route_found(o, o.start, goals) && forall|t: (i32, i32)| #[trigger]
            goals.contains(t) <==> ring_goal(o, radius, t)
}

/// A cheapest walk to the tiles at a distance.
pub open spec fn is_ring_way<'a, G: Walkable>(
    o: &ObstacleOverlay<'a, G>,
    radius: int,
    s: ExploreSuggestion,
) -> bool {
    &&& ring_goal(o, radius, s.goal)
    &&& is_cheapest_to(o, o.start, s.goal, s.path@)
    &&& forall|other: Seq<(i32, i32)>| #[trigger]
        is_route(o, o.start, other) && other.len() > 0 && ring_goal(o, radius, other.last())
            && o.walkable(other.last()) ==> route_cost(o, o.start, s.path@) <= route_cost(
            o,
            o.start,
            other,
        )
}

/// No way to the tiles at a distance is found.
pub open spec fn ring_is_shut<'a, G: Walkable>(o: &ObstacleOverlay<'a, G>, radius: int) -> bool {
    ring_out_of_reach(o, radius) && is_ring_search(o, radius, None)
}

/// What the rings around the player suggest: a cheapest way to the first of
/// them that can be reached.
pub open spec fn is_ring_choice<'a, G: Walkable>(
    o: &ObstacleOverlay<'a, G>,
    r: Option<ExploreSuggestion>,
) -> bool {
    match r {
        Some(s) => exists|k: int|
            {
                &&& 0 <= k < 8
                &&& is_ring_way(o, #[trigger] fallback_radius(k), s)
                &&& is_ring_search(o, fallback_radius(k), Some(s.path@))
                &&& forall|j: int| 0 <= j < k ==> ring_is_shut(o, #[trigger] fallback_radius(j))
            },
        None => forall|k: int| 0 <= k < 8 ==> ring_is_shut(o, #[trigger] fallback_radius(k)),
    }
}

fn radius_at(k: usize) -> (r: i32)
    requires
        k < 8,
    ensures
        r == fallback_radius(k as int),
        1 <= r <= EXPLORE_RANGE_TILES,
{
    if k == 0 {
        EXPLORE_RANGE_TILES
    } else if k == 1 {
        16
    } else if k == 2 {
        12
    } else if k == 3 {
        8
    } else if k == 4 {
        5
    } else if k == 5 {
        3
    } else if k == 6 {
        2
    } else {
        1
    }
}

/// Adds a tile, where there is one.
fn push_tile(tiles: &mut Vec<(i32, i32)>, tile: Option<(i32, i32)>)
    ensures
        forall|t: (i32, i32)| #[trigger]
            final(tiles)@.contains(t) <==> (old(tiles)@.contains(t) || tile == Some(t)),
{
    let ghost before = tiles@;
    if let Some(added) = tile {
        tiles.push(added);
        proof {
            assert forall|t: (i32, i32)| #[trigger]
                tiles@.contains(t) <==> (before.contains(t) || t == added) by {
                lemma_pushed(before, added, t);
            }
        }
    }
}

/// The tiles at a distance from the player.
fn explore_ring_goals(player: (i32, i32), radius: i32) -> (r: Vec<(i32, i32)>)
    requires
        1 <= radius <= EXPLORE_RANGE_TILES,
    ensures
        forall|t: (i32, i32)| #[trigger] r@.contains(t) <==> chebyshev_spec(player, t) == radius,
{
    let mut goals: Vec<(i32, i32)> = Vec::new();
    let mut dx: i32 = -radius;
    while dx <= radius
        invariant
            1 <= radius <= EXPLORE_RANGE_TILES,
            -radius <= dx <= radius + 1,
            forall|t: (i32, i32)| #[trigger]
                goals@.contains(t) <==> (-radius <= t.0 - player.0 < dx && abs_int(t.1 - player.1)
                    == radius),
        decreases radius + 1 - dx,
    {
        push_tile(&mut goals, shift(player, dx, -radius));
        push_tile(&mut goals, shift(player, dx, radius));
        dx = dx + 1;
    }
    let mut dy: i32 = -radius + 1;
    while dy < radius
        invariant
            1 <= radius <= EXPLORE_RANGE_TILES,
            -radius + 1 <= dy <= radius,
            forall|t: (i32, i32)| #[trigger]
                goals@.contains(t) <==> ((-radius <= t.0 - player.0 <= radius && abs_int(
                    t.1 - player.1,
                ) == radius) || (abs_int(t.0 - player.0) == radius && -radius < t.1 - player.1
                    < dy)),
        decreases radius - dy,
    {
        push_tile(&mut goals, shift(player, -radius, dy));
        push_tile(&mut goals, shift(player, radius, dy));
        dy = dy + 1;
    }
    goals
}

/// The tiles at a distance that can be explored.
fn open_ring_goals<'a, G: Walkable>(o: &ObstacleOverlay<'a, G>, radius: i32) -> (r: Vec<(i32, i32)>)
    requires
        1 <= radius <= EXPLORE_RANGE_TILES,
    ensures
        forall|t: (i32, i32)| #[trigger] r@.contains(t) <==> ring_goal(o, radius as int, t),
{
    let ring: Vec<(i32, i32)> = explore_ring_goals(o.start, radius);
    let mut out: Vec<(i32, i32)> = Vec::new();
    let mut i: usize = 0;
    while i < ring.len()
        invariant
            i <= ring@.len(),
            forall|t: (i32, i32)| #[trigger]
                out@.contains(t) <==> (ring@.take(i as int).contains(t)
                    && !o.memory.direction_failed(o.start, t, o.now)),
        decreases ring@.len() - i,
    {
        let tile: (i32, i32) = ring[i];
        let ghost before = out@;
        let ghost s = ring@.take(i as int);
        let ghost u = ring@.take(i + 1);
        if !o.memory.is_explore_direction_failed(o.start, tile, o.now) {
            out.push(tile);
        }
        proof {
            assert(u =~= s.push(tile));
            assert forall|t: (i32, i32)| #[trigger]
                out@.contains(t) <==> (u.contains(t) && !o.memory.direction_failed(
                    o.start,
                    t,
                    o.now,
                )) by {
                lemma_pushed(s, tile, t);
                lemma_pushed(before, tile, t);
            }
        }
        i = i + 1;
    }
    assert(ring@.take(i as int) =~= ring@);
    out
}

fn ring_explore_suggestion<'a, G: Walkable>(o: &ObstacleOverlay<'a, G>) -> (r: Option<
    ExploreSuggestion,
>)
    ensures
        is_ring_choice(o, r),
{
    let player: (i32, i32) = o.start;
    let mut k: usize = 0;
    while k < 8
        invariant
            k <= 8,
            player == o.start,
            forall|j: int| 0 <= j < k ==> ring_is_shut(o, #[trigger] fallback_radius(j)),
        decreases 8 - k,
    {
        let radius: i32 = radius_at(k);
        let goals: Vec<(i32, i32)> = open_ring_goals(o, radius);
        assert(!goals@.contains(player));
        let search = plan_to_any(player, goals.as_slice(), o);
        assert(is_ring_search(o, radius as int, route_found(o, o.start, goals@)));
        match search {
            Some(path) => {
                proof {
                    lemma_cheapest(o, player, goals@, path);
                    assert forall|other: Seq<(i32, i32)>| #[trigger]
                        is_route(o, o.start, other) && other.len() > 0 && ring_goal(
                            o,
                            radius as int,
                            other.last(),
                        ) && o.walkable(other.last()) implies route_cost(o, o.start, path@)
                        <= route_cost(o, o.start, other) by {
                        assert(reaches_goal(o, player, goals@, other));
                    }
                }
                let goal: (i32, i32) = path[path.len() - 1];
                let s = ExploreSuggestion { goal, path };
                assert(is_ring_way(o, fallback_radius(k as int), s));
                return Some(s);
            },
            None => {
                proof {
                    assert forall|t: (i32, i32)| #[trigger] ring_goal(o, radius as int, t) implies out_of_reach(
                        o,
                        o.start,
                        t,
                    ) by {
                        lemma_out_of_reach(o, player, goals@, t);
                    }
                }
            },
        }
        k = k + 1;
    }
    None
}

/// What is suggested over an overlay: the best tile of the player's region, or
/// else the best of the goals around, or else the nearest to walk to of the
/// widest ring that can be reached.
pub open spec fn is_overlay_choice<'a, G: Walkable>(
    o: &ObstacleOverlay<'a, G>,
    map_id: Option<u32>,
    profile: Option<&NavProfile>,
    r: Option<ExploreSuggestion>,
) -> bool {
    ||| r is Some && is_profile_choice(o, map_id, profile, r)
    ||| is_profile_choice(o, map_id, profile, None) && r is Some && is_compass_choice(o, r)
    ||| is_profile_choice(o, map_id, profile, None) && is_compass_choice(o, None) && is_ring_choice(
        o,
        r,
    )
}

/// What `build_explore_suggestion_with_profile` returns.
pub open spec fn is_exploration<G: Walkable>(
    r: Option<ExploreSuggestion>,
    player: (i32, i32),
    map_id: Option<u32>,
    grid: Option<&G>,
    profile: Option<&NavProfile>,
    memory: TacticalMemory,
    now: Instant,
) -> bool {
    match grid {
        None => r is None,
        Some(inner) => exists|o: ObstacleOverlay<'static, G>|
            explore_overlay(&o, *inner, memory, player, map_id, now)
                && #[trigger] is_overlay_choice(&o, map_id, profile, r),
    }
}

/// Where to explore, and the way there.
pub fn build_explore_suggestion_with_profile<G: Walkable>(
    player: (i32, i32),
    map_id: Option<u32>,
    grid: Option<&G>,
    profile: Option<&NavProfile>,
    memory: &TacticalMemory,
    now: Instant,
) -> (r: Option<ExploreSuggestion>)
    ensures
        is_exploration(r, player, map_id, grid, profile, *memory, now),
{
    let inner: &G = match grid {
        Some(inner) => inner,
        None => {
            return None;
        },
    };
    let occupied_tiles: Vec<(i32, i32)> = Vec::new();
    let overlay: ObstacleOverlay<'_, G> = ObstacleOverlay {
        inner,
        memory,
        occupied_tiles: &occupied_tiles,
        now,
        start: player,
        explore_map_id: map_id,
        previous_position: last_distinct_recent_position(memory, player),
    };
    assert(explore_overlay(&overlay, *inner, *memory, player, map_id, now));
    let by_region = profile_explore_suggestion(map_id, profile, &overlay);
    if by_region.is_some() {
        assert(is_overlay_choice(&overlay, map_id, profile, by_region));
        return by_region;
    }
    let by_compass = best_directional_explore_suggestion(&overlay);
    if by_compass.is_some() {
        assert(is_overlay_choice(&overlay, map_id, profile, by_compass));
        return by_compass;
    }
    let by_ring = ring_explore_suggestion(&overlay);
    assert(is_overlay_choice(&overlay, map_id, profile, by_ring));
    by_ring
}

/// Where to explore on a map of which the regions are unknown.
pub fn build_explore_suggestion_for_map<G: Walkable>(
    player: (i32, i32),
    map_id: Option<u32>,
    grid: Option<&G>,
    memory: &TacticalMemory,
    now: Instant,
) -> (r: Option<ExploreSuggestion>)
    ensures
        is_exploration(r, player, map_id, grid, None, *memory, now),
{
    build_explore_suggestion_with_profile(player, map_id, grid, None, memory, now)
}

/// Where to explore on an unknown map.
pub fn build_explore_suggestion<G: Walkable>(
    player: (i32, i32),
    grid: Option<&G>,
    memory: &TacticalMemory,
    now: Instant,
) -> (r: Option<ExploreSuggestion>)
    ensures
        is_exploration(r, player, None, grid, None, *memory, now),
{
    build_explore_suggestion_for_map(player, None, grid, memory, now)
}

/// A suggestion can be walked: its path leads from the player over free tiles
/// to the goal, as cheaply as any, and in a direction that did not fail of late.
pub proof fn law_suggestion_is_a_way<'a, G: Walkable>(
    o: &ObstacleOverlay<'a, G>,
    map_id: Option<u32>,
    profile: Option<&NavProfile>,
    s: ExploreSuggestion,
)
    requires
        is_overlay_choice(o, map_id, profile, Some(s)),
    ensures
        is_cheapest_to(o, o.start, s.goal, s.path@),
        !o.memory.direction_failed(o.start, s.goal, o.now),
{
    let r = Some(s);
    if is_profile_choice(o, map_id, profile, r) {
        law_region_choice_is_best(o, map_id->0, profile->0, r);
    }
    if is_compass_choice(o, r) {
        let found = choose|found: Seq<Option<Vec<(i32, i32)>>>|
            found.len() == 8 && #[trigger] are_searches(o, found) && is_best_of(o, found, r);
        let k = choose|k: int| #[trigger]
            is_best_way(o, found, k) && suggests_way(o, found, k, s);
        let goals = seq![ordered_goal(o, k)->0];
        assert(way_found(o, found, k));
        assert(is_found_route(o, o.start, goals, found[k]));
        assert(goals[0] == s.goal);
        assert(goals.contains(s.goal));
        assert(found[k]->0@ == s.path@);
        lemma_cheapest(o, o.start, goals, found[k]->0);
    }
}

} // verus!
