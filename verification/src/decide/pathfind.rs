//! Cheapest walks over a grid, by best-first search with a step limit.
use crate::action::walk::{axis_distance, chebyshev_spec, tile_distance};
use crate::decide::open_list::{popped, pushed, rank, Node, OpenList};
use crate::decide::tile_map::TileMap;
use crate::minimap::NavMap;
use vstd::prelude::*;

verus! {

/// Nodes that one search may take off the frontier.
pub const MAX_ITERATIONS: usize = 8000;

/// A grid that one can walk on.
pub trait Walkable {
    /// One can stand on the tile.
    spec fn walkable(&self, tile: (i32, i32)) -> bool;

    /// The tile hides what is behind it.
    spec fn sight_blocked(&self, tile: (i32, i32)) -> bool;

    /// One can step from one tile to a neighbouring one.
    spec fn steppable(&self, from: (i32, i32), to: (i32, i32)) -> bool;

    /// The extra cost of a step.
    spec fn penalty(&self, from: (i32, i32), to: (i32, i32)) -> u32;

    fn is_walkable(&self, tile_x: i32, tile_y: i32) -> (r: bool)
        ensures
            r == self.walkable((tile_x, tile_y)),
    ;

    fn blocks_sight(&self, tile_x: i32, tile_y: i32) -> (r: bool)
        ensures
            r == self.sight_blocked((tile_x, tile_y)),
    ;

    fn can_step(&self, from: (i32, i32), to: (i32, i32)) -> (r: bool)
        ensures
            r == self.steppable(from, to),
    ;

    fn movement_penalty(&self, from: (i32, i32), to: (i32, i32)) -> (r: u32)
        ensures
            r == self.penalty(from, to),
    ;
}

/// The usual rule for a step: the tile must be walkable, at most one away along
/// either axis, and a diagonal must not cut a corner.
pub open spec fn standard_step(
    stand: spec_fn((i32, i32)) -> bool,
    from: (i32, i32),
    to: (i32, i32),
) -> bool {
    let dx = to.0 - from.0;
    let dy = to.1 - from.1;
    if dx == 0 && dy == 0 {
        stand(from)
    } else {
        &&& -1 <= dx <= 1
        &&& -1 <= dy <= 1
        &&& stand(to)
        &&& dx != 0 && dy != 0 ==> stand((to.0, from.1)) && stand((from.0, to.1))
    }
}

/// The usual rule for a step, for grids that have no rule of their own.
pub fn default_can_step<W: Walkable>(grid: &W, from: (i32, i32), to: (i32, i32)) -> (r: bool)
    ensures
        r == standard_step(|t: (i32, i32)| grid.walkable(t), from, to),
{
    if to.0 == from.0 && to.1 == from.1 {
        return grid.is_walkable(from.0, from.1);
    }
    if axis_distance(to.0, from.0) > 1 || axis_distance(to.1, from.1) > 1 || !grid.is_walkable(
        to.0,
        to.1,
    ) {
        return false;
    }
    if to.0 != from.0 && to.1 != from.1 {
        grid.is_walkable(to.0, from.1) && grid.is_walkable(from.0, to.1)
    } else {
        true
    }
}

/// A loaded map as a grid.
pub struct MapWalkable<'a> {
    pub map: &'a NavMap,
}

impl<'a> Walkable for MapWalkable<'a> {
    open spec fn walkable(&self, tile: (i32, i32)) -> bool {
        self.map.nav.walkable(tile)
    }

    open spec fn sight_blocked(&self, tile: (i32, i32)) -> bool {
        self.map.nav.sight_blocked(tile)
    }

    open spec fn steppable(&self, from: (i32, i32), to: (i32, i32)) -> bool {
        self.map.nav.steppable(from, to)
    }

    open spec fn penalty(&self, from: (i32, i32), to: (i32, i32)) -> u32 {
        0
    }

    fn is_walkable(&self, tile_x: i32, tile_y: i32) -> (r: bool) {
        self.map.nav.is_walkable(tile_x, tile_y)
    }

    fn blocks_sight(&self, tile_x: i32, tile_y: i32) -> (r: bool) {
        self.map.nav.blocks_sight(tile_x, tile_y)
    }

    fn can_step(&self, from: (i32, i32), to: (i32, i32)) -> (r: bool) {
        self.map.nav.can_step(from, to)
    }

    fn movement_penalty(&self, from: (i32, i32), to: (i32, i32)) -> (r: u32) {
        0
    }
}

/// The path that the bot is following, for display.
#[derive(Debug, Clone)]
pub struct BotPath {
    pub tiles: Vec<(i32, i32)>,
}

/// Shows another path.
pub fn set_bot_path(slot: &mut BotPath, path: Vec<(i32, i32)>)
    ensures
        final(slot).tiles == path,
{
    slot.tiles = path;
}

/// Shows no path.
pub fn clear_bot_path(slot: &mut BotPath)
    ensures
        final(slot).tiles@.len() == 0,
{
    set_bot_path(slot, Vec::new());
}

/// A copy of a list of tiles.
pub fn copy_tiles(tiles: &[(i32, i32)]) -> (r: Vec<(i32, i32)>)
    ensures
        r@ == tiles@,
{
    vstd::slice::slice_to_vec(tiles)
}

/// The path that is shown.
pub fn read_bot_path(slot: &BotPath) -> (r: Vec<(i32, i32)>)
    ensures
        r@ == slot.tiles@,
{
    copy_tiles(slot.tiles.as_slice())
}

/// `b` is one of the eight tiles around `a`.
pub open spec fn adjacent(a: (i32, i32), b: (i32, i32)) -> bool {
    &&& a != b
    &&& -1 <= b.0 - a.0 <= 1
    &&& -1 <= b.1 - a.1 <= 1
}

/// A step that the search may take.
pub open spec fn step_ok<W: Walkable>(grid: &W, a: (i32, i32), b: (i32, i32)) -> bool {
    adjacent(a, b) && grid.steppable(a, b)
}

/// What a step by an offset costs: 10, or 14 on a diagonal.
pub fn step_cost(dx: i32, dy: i32) -> (r: u32)
    ensures
        r == if dx != 0 && dy != 0 {
            14u32
        } else {
            10u32
        },
{
    if dx != 0 && dy != 0 {
        14
    } else {
        10
    }
}

/// What a step costs: 10, or 14 on a diagonal, and the grid's penalty.
pub open spec fn cost_of_step<W: Walkable>(grid: &W, a: (i32, i32), b: (i32, i32)) -> int {
    (if a.0 != b.0 && a.1 != b.1 { 14int } else { 10int }) + grid.penalty(a, b)
}

/// The tile reached by a path from `start`.
pub open spec fn route_end(start: (i32, i32), path: Seq<(i32, i32)>) -> (i32, i32) {
    if path.len() == 0 {
        start
    } else {
        path.last()
    }
}

/// Every tile of the path is a step away from the one before it, the first one
/// from `start`.
pub open spec fn is_route<W: Walkable>(grid: &W, start: (i32, i32), path: Seq<(i32, i32)>) -> bool
    decreases path.len(),
{
    path.len() == 0 || (is_route(grid, start, path.drop_last()) && step_ok(
        grid,
        route_end(start, path.drop_last()),
        path.last(),
    ))
}

/// The sum of the steps of a path.
pub open spec fn route_cost<W: Walkable>(grid: &W, start: (i32, i32), path: Seq<(i32, i32)>) -> int
    decreases path.len(),
{
    if path.len() == 0 {
        0
    } else {
        route_cost(grid, start, path.drop_last()) + cost_of_step(
            grid,
            route_end(start, path.drop_last()),
            path.last(),
        )
    }
}

/// `path` leads from `start` to one of `goals` that can be stood on.
pub open spec fn reaches_goal<W: Walkable>(
    grid: &W,
    start: (i32, i32),
    goals: Seq<(i32, i32)>,
    path: Seq<(i32, i32)>,
) -> bool {
    &&& path.len() > 0
    &&& is_route(grid, start, path)
    &&& goals.contains(path.last())
    &&& grid.walkable(path.last())
}

/// Some path leads from `start` to `tile`.
pub open spec fn reachable<W: Walkable>(grid: &W, start: (i32, i32), tile: (i32, i32)) -> bool {
    exists|path: Seq<(i32, i32)>| #[trigger]
        is_route(grid, start, path) && route_end(start, path) == tile
}

/// A tile that a search for a walk of some cost has to look at: a walk leads
/// there that costs no more, with ten for every step that a goal is still off,
/// and the tile is none of the goals itself.
pub open spec fn on_the_way<W: Walkable>(
    grid: &W,
    start: (i32, i32),
    goals: Seq<(i32, i32)>,
    cost: int,
    tile: (i32, i32),
) -> bool {
    &&& !(goals.contains(tile) && grid.walkable(tile))
    &&& exists|path: Seq<(i32, i32)>, goal: (i32, i32)|
        {
            &&& #[trigger] is_route(grid, start, path)
            &&& route_end(start, path) == tile
            &&& #[trigger] goals.contains(goal)
            &&& grid.walkable(goal)
            &&& route_cost(grid, start, path) + 10 * chebyshev_spec(tile, goal) <= cost
        }
}

/// At least `n` different tiles are on the way.
pub open spec fn many_on_the_way<W: Walkable>(
    grid: &W,
    start: (i32, i32),
    goals: Seq<(i32, i32)>,
    cost: int,
    n: nat,
) -> bool {
    exists|s: Set<(i32, i32)>|
        s.finite() && #[trigger] s.len() >= n && forall|t: (i32, i32)| #[trigger]
            s.contains(t) ==> on_the_way(grid, start, goals, cost, t)
}

/// What a search returns. Standing on a goal takes no step. Otherwise the path
/// leads to a walkable goal and none that does so is cheaper. There is no path
/// only where no goal can be reached, or none but at such a cost that so many
/// tiles are on the way that the search may give up.
pub open spec fn is_best_route<W: Walkable>(
    grid: &W,
    start: (i32, i32),
    goals: Seq<(i32, i32)>,
    r: Option<Vec<(i32, i32)>>,
) -> bool {
    if goals.contains(start) {
        r matches Some(path) && path@.len() == 0
    } else {
        match r {
            Some(path) => {
                &&& reaches_goal(grid, start, goals, path@)
                &&& forall|other: Seq<(i32, i32)>| #[trigger]
                    reaches_goal(grid, start, goals, other) ==> route_cost(grid, start, path@)
                        <= route_cost(grid, start, other)
            },
            None => forall|other: Seq<(i32, i32)>| #[trigger]
                reaches_goal(grid, start, goals, other) ==> many_on_the_way(
                    grid,
                    start,
                    goals,
                    route_cost(grid, start, other),
                    (MAX_ITERATIONS / 8) as nat,
                ),
        }
    }
}

/// A path that may be missing, as a value.
pub open spec fn path_view(path: Option<Vec<(i32, i32)>>) -> Option<Seq<(i32, i32)>> {
    match path {
        Some(p) => Some(p@),
        None => None,
    }
}

/// What a search returns, down to the choice among paths of the same cost and to
/// when it gives up.
pub open spec fn is_found_route<W: Walkable>(
    grid: &W,
    start: (i32, i32),
    goals: Seq<(i32, i32)>,
    r: Option<Vec<(i32, i32)>>,
) -> bool {
    &&& is_best_route(grid, start, goals, r)
    &&& path_view(r) == route_found(grid, start, goals)
}

/// The path that a search finds. It depends on nothing but the grid, the start
/// and the goals.
pub closed spec fn route_found<W: Walkable>(
    grid: &W,
    start: (i32, i32),
    goals: Seq<(i32, i32)>,
) -> Option<Seq<(i32, i32)>> {
    let targets = walkable_among(grid, goals);
    if goals.contains(start) {
        Some(Seq::empty())
    } else if targets.len() == 0 {
        None
    } else {
        searched(grid, start, targets, first_front(targets, start), 0)
    }
}

/// The goals that can be stood on, in their order.
spec fn walkable_among<W: Walkable>(grid: &W, goals: Seq<(i32, i32)>) -> Seq<(i32, i32)>
    decreases goals.len(),
{
    if goals.len() == 0 {
        Seq::empty()
    } else {
        let rest = walkable_among(grid, goals.drop_last());
        if grid.walkable(goals.last()) {
            rest.push(goals.last())
        } else {
            rest
        }
    }
}

/// Where a search stands: what it knows of tiles, and the nodes that are left.
#[verifier::ext_equal]
struct Front {
    best: Map<(i32, i32), Visit>,
    open: Seq<Node>,
}

spec fn first_front(goals: Seq<(i32, i32)>, start: (i32, i32)) -> Front {
    Front {
        best: Map::<(i32, i32), Visit>::empty().insert(start, Visit { g: 0, prev: start }),
        open: pushed(
            Seq::empty(),
            Node { f: estimate(goals, start) as u64, g: 0, pos: start },
        ),
    }
}

/// Where a search stands once it has tried the first `k` steps from `cur`.
spec fn relaxed<W: Walkable>(
    grid: &W,
    goals: Seq<(i32, i32)>,
    cur: Node,
    front: Front,
    k: nat,
) -> Front
    decreases k,
{
    if k == 0 {
        front
    } else {
        let before = relaxed(grid, goals, cur, front, (k - 1) as nat);
        let there = neighbour(cur.pos, k - 1);
        let next = (there.0 as i32, there.1 as i32);
        let g = (cur.g + cost_of_step(grid, cur.pos, next)) as u64;
        if !fits(there) || !grid.steppable(cur.pos, next) || (before.best.contains_key(next)
            && before.best[next].g <= g) {
            before
        } else {
            Front {
                best: before.best.insert(next, Visit { g, prev: cur.pos }),
                open: pushed(
                    before.open,
                    Node { f: (g + estimate(goals, next)) as u64, g, pos: next },
                ),
            }
        }
    }
}

/// The coordinates are those of a tile.
spec fn fits(there: (int, int)) -> bool {
    i32::MIN <= there.0 <= i32::MAX && i32::MIN <= there.1 <= i32::MAX
}

/// What a search comes to that has taken `iter` nodes off the frontier.
spec fn searched<W: Walkable>(
    grid: &W,
    start: (i32, i32),
    goals: Seq<(i32, i32)>,
    front: Front,
    iter: int,
) -> Option<Seq<(i32, i32)>>
    decreases MAX_ITERATIONS - iter,
{
    let cur = front.open[0];
    let rest = Front { open: popped(front.open), ..front };
    if front.open.len() == 0 || iter >= MAX_ITERATIONS {
        None
    } else if goals.contains(cur.pos) {
        Some(read_back(front.best, start, cur.pos))
    } else if cur.g > front.best[cur.pos].g {
        searched(grid, start, goals, rest, iter + 1)
    } else {
        searched(grid, start, goals, relaxed(grid, goals, cur, rest, 8), iter + 1)
    }
}

/// The path to `tile`, as the records have it.
spec fn read_back(
    best: Map<(i32, i32), Visit>,
    start: (i32, i32),
    tile: (i32, i32),
) -> Seq<(i32, i32)>
    decreases best[tile].g,
{
    if tile == start || best[best[tile].prev].g >= best[tile].g {
        Seq::empty()
    } else {
        read_back(best, start, best[tile].prev).push(tile)
    }
}

/// Ten times the steps to the nearest goal.
spec fn estimate(goals: Seq<(i32, i32)>, pos: (i32, i32)) -> int
    decreases goals.len(),
{
    if goals.len() == 0 {
        0
    } else if goals.len() == 1 {
        10 * chebyshev_spec(pos, goals[0])
    } else {
        let rest = estimate(goals.drop_last(), pos);
        let last = 10 * chebyshev_spec(pos, goals.last());
        if last < rest {
            last
        } else {
            rest
        }
    }
}

proof fn lemma_estimate_range(goals: Seq<(i32, i32)>, pos: (i32, i32))
    ensures
        0 <= estimate(goals, pos) <= 10 * 0xffff_ffff,
    decreases goals.len(),
{
    if goals.len() > 1 {
        lemma_estimate_range(goals.drop_last(), pos);
    }
}

/// A step changes the estimate by no more than it costs.
proof fn lemma_estimate_step(goals: Seq<(i32, i32)>, a: (i32, i32), b: (i32, i32))
    requires
        adjacent(a, b),
    ensures
        estimate(goals, a) <= 10 + estimate(goals, b),
    decreases goals.len(),
{
    if goals.len() > 1 {
        lemma_estimate_step(goals.drop_last(), a, b);
    }
}

proof fn lemma_estimate_at_goal(goals: Seq<(i32, i32)>, i: int)
    requires
        0 <= i < goals.len(),
    ensures
        estimate(goals, goals[i]) == 0,
    decreases goals.len(),
{
    lemma_estimate_range(goals, goals[i]);
    if goals.len() > 1 {
        lemma_estimate_range(goals.drop_last(), goals[i]);
        if i < goals.len() - 1 {
            assert(goals.drop_last()[i] == goals[i]);
            lemma_estimate_at_goal(goals.drop_last(), i);
        }
    }
}

/// The estimate is that of some goal.
proof fn lemma_estimate_of(goals: Seq<(i32, i32)>, pos: (i32, i32)) -> (i: int)
    requires
        goals.len() > 0,
    ensures
        0 <= i < goals.len(),
        estimate(goals, pos) == 10 * chebyshev_spec(pos, goals[i]),
    decreases goals.len(),
{
    if goals.len() == 1 {
        0
    } else {
        let i = lemma_estimate_of(goals.drop_last(), pos);
        if 10 * chebyshev_spec(pos, goals.last()) < estimate(goals.drop_last(), pos) {
            goals.len() - 1
        } else {
            i
        }
    }
}

/// What remains of a route costs at least the drop of the estimate.
proof fn lemma_estimate_route<W: Walkable>(
    grid: &W,
    start: (i32, i32),
    goals: Seq<(i32, i32)>,
    path: Seq<(i32, i32)>,
    k: int,
)
    requires
        is_route(grid, start, path),
        0 <= k <= path.len(),
    ensures
        route_cost(grid, start, path.take(k)) + estimate(goals, route_end(start, path.take(k)))
            <= route_cost(grid, start, path) + estimate(goals, route_end(start, path)),
    decreases path.len() - k,
{
    if k == path.len() {
        assert(path.take(k) =~= path);
    } else {
        let next = path.take(k + 1);
        assert(next.drop_last() =~= path.take(k));
        lemma_prefix_route(grid, start, path, k + 1);
        lemma_estimate_step(goals, route_end(start, path.take(k)), next.last());
        lemma_estimate_route(grid, start, goals, path, k + 1);
    }
}

proof fn lemma_prefix_route<W: Walkable>(
    grid: &W,
    start: (i32, i32),
    path: Seq<(i32, i32)>,
    k: int,
)
    requires
        is_route(grid, start, path),
        0 <= k <= path.len(),
    ensures
        is_route(grid, start, path.take(k)),
    decreases path.len() - k,
{
    if k == path.len() {
        assert(path.take(k) =~= path);
    } else {
        lemma_prefix_route(grid, start, path, k + 1);
        assert(path.take(k + 1).drop_last() =~= path.take(k));
    }
}

/// A step before a route makes a route.
proof fn lemma_prepend<W: Walkable>(
    grid: &W,
    a: (i32, i32),
    b: (i32, i32),
    rest: Seq<(i32, i32)>,
)
    requires
        step_ok(grid, a, b),
        is_route(grid, b, rest),
    ensures
        is_route(grid, a, seq![b] + rest),
        route_cost(grid, a, seq![b] + rest) == cost_of_step(grid, a, b) + route_cost(grid, b, rest),
        route_end(a, seq![b] + rest) == route_end(b, rest),
    decreases rest.len(),
{
    let whole = seq![b] + rest;
    if rest.len() == 0 {
        assert(whole.drop_last() =~= Seq::<(i32, i32)>::empty());
        assert(whole.last() == b);
        assert(is_route(grid, a, whole.drop_last()));
        assert(route_cost(grid, a, whole.drop_last()) == 0);
        assert(route_cost(grid, b, rest) == 0);
    } else {
        lemma_prepend(grid, a, b, rest.drop_last());
        assert(whole.drop_last() =~= seq![b] + rest.drop_last());
        assert(whole.last() == rest.last());
    }
}

/// What the search knows of a tile: the cost of the cheapest route so far, and
/// the tile before it on that route.
#[derive(Clone, Copy)]
pub struct Visit {
    pub g: u64,
    pub prev: (i32, i32),
}

/// Every settled tile has passed its cost on to its neighbours.
spec fn settled_out<W: Walkable>(
    grid: &W,
    best: Map<(i32, i32), Visit>,
    u: (i32, i32),
    v: (i32, i32),
) -> bool {
    step_ok(grid, u, v) ==> best.contains_key(v) && best[v].g <= best[u].g + cost_of_step(grid, u, v)
}

/// No route to a settled tile is cheaper than the one that is known.
spec fn settled_best<W: Walkable>(
    grid: &W,
    start: (i32, i32),
    best: Map<(i32, i32), Visit>,
    u: (i32, i32),
) -> bool {
    forall|path: Seq<(i32, i32)>| #[trigger]
        is_route(grid, start, path) && route_end(start, path) == u ==> best[u].g <= route_cost(
            grid,
            start,
            path,
        )
}

/// A known tile's record: its route costs what is recorded, and it was reached
/// by a step from a settled tile.
spec fn visit_ok<W: Walkable>(
    grid: &W,
    start: (i32, i32),
    best: Map<(i32, i32), Visit>,
    closed: Set<(i32, i32)>,
    routes: Map<(i32, i32), Seq<(i32, i32)>>,
    t: (i32, i32),
) -> bool {
    &&& is_route(grid, start, routes[t])
    &&& route_end(start, routes[t]) == t
    &&& route_cost(grid, start, routes[t]) == best[t].g
    &&& t != start ==> {
        &&& closed.contains(best[t].prev)
        &&& best.contains_key(best[t].prev)
        &&& step_ok(grid, best[t].prev, t)
        &&& best[t].g == best[best[t].prev].g + cost_of_step(grid, best[t].prev, t)
    }
}

spec fn node_of(goals: Seq<(i32, i32)>, best: Map<(i32, i32), Visit>, t: (i32, i32)) -> Node {
    Node { f: (best[t].g + estimate(goals, t)) as u64, g: best[t].g, pos: t }
}

/// The state of the search, between two rounds or in the middle of relaxing the
/// neighbours of `cur`.
spec fn search_inv<W: Walkable>(
    grid: &W,
    start: (i32, i32),
    goals: Seq<(i32, i32)>,
    best: Map<(i32, i32), Visit>,
    closed: Set<(i32, i32)>,
    routes: Map<(i32, i32), Seq<(i32, i32)>>,
    open: Seq<Node>,
    bound: int,
) -> bool {
    &&& best.contains_key(start)
    &&& best[start].g == 0
    &&& closed.finite()
    &&& closed.subset_of(best.dom())
    &&& forall|u: (i32, i32)| #[trigger] closed.contains(u) ==> !goals.contains(u)
    &&& forall|u: (i32, i32)| #[trigger] closed.contains(u) ==> settled_best(grid, start, best, u)
    &&& forall|t: (i32, i32)| #[trigger]
        best.contains_key(t) ==> visit_ok(grid, start, best, closed, routes, t)
    &&& forall|t: (i32, i32)| #[trigger] best.contains_key(t) ==> best[t].g <= bound
    &&& forall|t: (i32, i32)| #[trigger]
        best.contains_key(t) && !closed.contains(t) ==> open.contains(node_of(goals, best, t))
    &&& forall|n: Node| #[trigger]
        open.contains(n) ==> best.contains_key(n.pos) && n.g >= best[n.pos].g && n.g <= bound
            && n.f == n.g + estimate(goals, n.pos)
}

/// All settled tiles but perhaps `cur` have passed their costs on.
spec fn all_passed_on<W: Walkable>(
    grid: &W,
    best: Map<(i32, i32), Visit>,
    closed: Set<(i32, i32)>,
) -> bool {
    forall|u: (i32, i32), v: (i32, i32)|
        closed.contains(u) ==> #[trigger] settled_out(grid, best, u, v)
}

/// A settled tile was more promising than any route to a goal is cheap.
spec fn settled_soon<W: Walkable>(
    grid: &W,
    start: (i32, i32),
    all_goals: Seq<(i32, i32)>,
    goals: Seq<(i32, i32)>,
    best: Map<(i32, i32), Visit>,
    closed: Set<(i32, i32)>,
) -> bool {
    forall|u: (i32, i32), other: Seq<(i32, i32)>|
        #[trigger] closed.contains(u) && #[trigger] reaches_goal(grid, start, all_goals, other)
            ==> best[u].g + estimate(goals, u) <= route_cost(grid, start, other)
}

/// On a route, either every tile is settled, or there is a first one that is
/// not; up to there the recorded costs are no more than the route's.
proof fn lemma_frontier<W: Walkable>(
    grid: &W,
    start: (i32, i32),
    best: Map<(i32, i32), Visit>,
    closed: Set<(i32, i32)>,
    path: Seq<(i32, i32)>,
) -> (k: int)
    requires
        best.contains_key(start),
        best[start].g == 0,
        all_passed_on(grid, best, closed),
        is_route(grid, start, path),
    ensures
        -1 <= k <= path.len(),
        k == -1 ==> closed.contains(route_end(start, path)) && best[route_end(start, path)].g
            <= route_cost(grid, start, path),
        k >= 0 ==> {
            let y = route_end(start, path.take(k));
            &&& !closed.contains(y)
            &&& best.contains_key(y)
            &&& best[y].g <= route_cost(grid, start, path.take(k))
        },
    decreases path.len(),
{
    if path.len() == 0 {
        assert(path.take(0) =~= path);
        if closed.contains(start) {
            -1
        } else {
            0
        }
    } else {
        let before = path.drop_last();
        let k0 = lemma_frontier(grid, start, best, closed, before);
        if k0 >= 0 {
            assert(path.take(k0) =~= before.take(k0));
            k0
        } else {
            let u = route_end(start, before);
            let v = path.last();
            assert(settled_out(grid, best, u, v));
            if closed.contains(v) {
                -1
            } else {
                assert(path.take(path.len() as int) =~= path);
                path.len() as int
            }
        }
    }
}

/// The best node of the frontier is no worse than any route to a tile that is
/// not settled.
proof fn lemma_front_bound<W: Walkable>(
    grid: &W,
    start: (i32, i32),
    goals: Seq<(i32, i32)>,
    best: Map<(i32, i32), Visit>,
    closed: Set<(i32, i32)>,
    routes: Map<(i32, i32), Seq<(i32, i32)>>,
    open: Seq<Node>,
    bound: int,
    cur: Node,
    path: Seq<(i32, i32)>,
)
    requires
        search_inv(grid, start, goals, best, closed, routes, open, bound),
        all_passed_on(grid, best, closed),
        0 <= bound <= 0x1000_0000_0000_0000,
        open.contains(cur),
        forall|m: Node| #[trigger] open.contains(m) ==> rank(cur) <= rank(m),
        is_route(grid, start, path),
        !closed.contains(route_end(start, path)),
    ensures
        cur.f <= route_cost(grid, start, path) + estimate(goals, route_end(start, path)),
{
    let k = lemma_frontier(grid, start, best, closed, path);
    let y = route_end(start, path.take(k));
    let n = node_of(goals, best, y);
    assert(open.contains(n));
    lemma_estimate_range(goals, y);
    assert(n.f == best[y].g + estimate(goals, y));
    assert(cur.f <= n.f) by {
        if cur.f > n.f {
            assert(rank(cur) <= rank(n));
        }
    }
    lemma_estimate_route(grid, start, goals, path, k);
}

fn estimate_to(goals: &Vec<(i32, i32)>, pos: (i32, i32)) -> (r: u64)
    requires
        goals@.len() > 0,
    ensures
        r == estimate(goals@, pos),
        r <= 10 * 0xffff_ffff,
{
    let mut nearest: u64 = tile_distance(pos, goals[0]) as u64 * 10;
    let mut i: usize = 1;
    assert(goals@.take(1) =~= seq![goals@[0]]);
    while i < goals.len()
        invariant
            1 <= i <= goals@.len(),
            nearest == estimate(goals@.take(i as int), pos),
            nearest <= 10 * 0xffff_ffff,
        decreases goals@.len() - i,
    {
        assert(goals@.take(i + 1).drop_last() =~= goals@.take(i as int));
        let d: u64 = tile_distance(pos, goals[i]) as u64 * 10;
        if d < nearest {
            nearest = d;
        }
        i = i + 1;
    }
    assert(goals@.take(i as int) =~= goals@);
    nearest
}

fn tile_in(tiles: &[(i32, i32)], tile: (i32, i32)) -> (r: bool)
    ensures
        r == tiles@.contains(tile),
{
    let mut i: usize = 0;
    while i < tiles.len()
        invariant
            i <= tiles@.len(),
            forall|j: int| 0 <= j < i ==> tiles@[j] != tile,
        decreases tiles@.len() - i,
    {
        if tiles[i].0 == tile.0 && tiles[i].1 == tile.1 {
            assert(tiles@[i as int] == tile);
            return true;
        }
        i = i + 1;
    }
    false
}

/// The `k`-th tile around another, clockwise from the north.
spec fn neighbour(t: (i32, i32), k: int) -> (int, int) {
    if k == 0 {
        (t.0 as int, t.1 - 1)
    } else if k == 1 {
        (t.0 + 1, t.1 - 1)
    } else if k == 2 {
        (t.0 + 1, t.1 as int)
    } else if k == 3 {
        (t.0 + 1, t.1 + 1)
    } else if k == 4 {
        (t.0 as int, t.1 + 1)
    } else if k == 5 {
        (t.0 - 1, t.1 + 1)
    } else if k == 6 {
        (t.0 - 1, t.1 as int)
    } else {
        (t.0 - 1, t.1 - 1)
    }
}

fn step_of(k: usize) -> (r: (i32, i32))
    requires
        k < 8,
    ensures
        forall|t: (i32, i32)| #[trigger]
            neighbour(t, k as int) == (t.0 + r.0, t.1 + r.1),
        -1 <= r.0 <= 1,
        -1 <= r.1 <= 1,
        r.0 != 0 || r.1 != 0,
{
    match k {
        0 => (0, -1),
        1 => (1, -1),
        2 => (1, 0),
        3 => (1, 1),
        4 => (0, 1),
        5 => (-1, 1),
        6 => (-1, 0),
        _ => (-1, -1),
    }
}

/// Every neighbour has a number.
proof fn lemma_neighbour_index(u: (i32, i32), v: (i32, i32)) -> (k: int)
    requires
        adjacent(u, v),
    ensures
        0 <= k < 8,
        neighbour(u, k) == (v.0 as int, v.1 as int),
{
    let dx = v.0 - u.0;
    let dy = v.1 - u.1;
    if dy == -1 {
        if dx == 0 { 0 } else if dx == 1 { 1 } else { 7 }
    } else if dy == 0 {
        if dx == 1 { 2 } else { 6 }
    } else {
        if dx == 1 { 3 } else if dx == 0 { 4 } else { 5 }
    }
}

/// The path to `goal`, read back from the records.
fn walk_back<W: Walkable>(
    best: &TileMap<Visit>,
    start: (i32, i32),
    goal: (i32, i32),
    grid: &W,
    Ghost(closed): Ghost<Set<(i32, i32)>>,
    Ghost(routes): Ghost<Map<(i32, i32), Seq<(i32, i32)>>>,
) -> (r: Vec<(i32, i32)>)
    requires
        best@.contains_key(start),
        best@[start].g == 0,
        best@.contains_key(goal),
        goal != start,
        closed.finite(),
        forall|t: (i32, i32)| #[trigger]
            best@.contains_key(t) ==> visit_ok(grid, start, best@, closed, routes, t),
    ensures
        r@.len() > 0,
        r@.last() == goal,
        is_route(grid, start, r@),
        route_cost(grid, start, r@) == best@[goal].g,
        r@ == read_back(best@, start, goal),
        r@.len() <= closed.len(),
{
    let mut back: Vec<(i32, i32)> = Vec::new();
    let mut p: (i32, i32) = goal;
    let ghost mut tail: Seq<(i32, i32)> = seq![];
    let ghost mut passed: Set<(i32, i32)> = Set::empty();
    assert(read_back(best@, start, p) + tail =~= read_back(best@, start, goal));
    while p.0 != start.0 || p.1 != start.1
        invariant
            best@.contains_key(start),
            best@[start].g == 0,
            best@.contains_key(p),
            best@.contains_key(goal),
            forall|t: (i32, i32)| #[trigger]
                best@.contains_key(t) ==> visit_ok(grid, start, best@, closed, routes, t),
            is_route(grid, p, tail),
            route_end(p, tail) == goal,
            best@[p].g + route_cost(grid, p, tail) == best@[goal].g,
            read_back(best@, start, p) + tail == read_back(best@, start, goal),
            passed.finite(),
            passed.len() == tail.len(),
            passed.subset_of(closed),
            forall|t: (i32, i32)| #[trigger] passed.contains(t) ==> best@[t].g >= best@[p].g,
            back@.len() == tail.len(),
            forall|i: int| 0 <= i < tail.len() ==> #[trigger] tail[i] == back@[tail.len() - 1 - i],
        decreases best@[p].g,
    {
        proof {
            assert(visit_ok(grid, start, best@, closed, routes, p));
            lemma_prepend(grid, best@[p].prev, p, tail);
        }
        back.push(p);
        let ghost old_tail = tail;
        proof {
            tail = seq![p] + tail;
            let prev = best@[p].prev;
            assert(read_back(best@, start, prev) + tail =~= read_back(best@, start, p) + old_tail);
            assert(!passed.contains(prev));
            passed = passed.insert(prev);
            assert forall|i: int| 0 <= i < tail.len() implies #[trigger] tail[i] == back@[tail.len()
                - 1 - i] by {
                if i > 0 {
                    assert(tail[i] == old_tail[i - 1]);
                }
            }
        }
        p = match best.get(p) {
            Some(visit) => visit.prev,
            None => start,
        };
    }
    assert(p == start);
    proof {
        assert(read_back(best@, start, p) + tail =~= tail);
        vstd::set_lib::lemma_len_subset(passed, closed);
    }
    let mut path: Vec<(i32, i32)> = Vec::new();
    let mut i: usize = back.len();
    while i > 0
        invariant
            i <= back@.len(),
            back@.len() == tail.len(),
            path@.len() == back@.len() - i,
            forall|j: int| 0 <= j < tail.len() ==> #[trigger] tail[j] == back@[tail.len() - 1 - j],
            forall|j: int| 0 <= j < path@.len() ==> #[trigger] path@[j] == tail[j],
        decreases i,
    {
        i = i - 1;
        assert(tail[path@.len() as int] == back@[i as int]);
        path.push(back[i]);
    }
    assert(path@ =~= tail);
    path
}

/// The goals that can be stood on.
fn walkable_goals<W: Walkable>(goals: &[(i32, i32)], grid: &W) -> (r: Vec<(i32, i32)>)
    ensures
        r@ == walkable_among(grid, goals@),
        forall|t: (i32, i32)| #[trigger]
            r@.contains(t) <==> goals@.contains(t) && grid.walkable(t),
{
    let mut out: Vec<(i32, i32)> = Vec::new();
    let mut i: usize = 0;
    while i < goals.len()
        invariant
            i <= goals@.len(),
            out@ == walkable_among(grid, goals@.take(i as int)),
            forall|t: (i32, i32)| #[trigger]
                out@.contains(t) <==> goals@.take(i as int).contains(t) && grid.walkable(t),
        decreases goals@.len() - i,
    {
        let ghost before = out@;
        let ghost seen = goals@.take(i as int);
        let goal = goals[i];
        if grid.is_walkable(goal.0, goal.1) {
            out.push(goal);
        }
        proof {
            assert(goals@.take(i + 1) =~= seen.push(goal));
            assert(goals@.take(i + 1).drop_last() =~= seen);
            assert forall|t: (i32, i32)| #[trigger]
                out@.contains(t) <==> goals@.take(i + 1).contains(t) && grid.walkable(t) by {
                if before.contains(t) {
                    let k = choose|k: int| 0 <= k < before.len() && before[k] == t;
                    assert(out@[k] == t);
                }
                if seen.contains(t) {
                    let k = choose|k: int| 0 <= k < seen.len() && seen[k] == t;
                    assert(seen.push(goal)[k] == t);
                }
                assert(seen.push(goal)[i as int] == goal);
                if grid.walkable(goal) {
                    assert(out@[before.len() as int] == goal);
                }
            }
        }
        i = i + 1;
    }
    assert(goals@.take(i as int) =~= goals@);
    out
}

/// The cheapest walk from `start` to any of `goals`.
#[verifier::rlimit(60)]
#[verifier::spinoff_prover]
pub fn plan_to_any<W: Walkable>(start: (i32, i32), goals: &[(i32, i32)], grid: &W) -> (r: Option<
    Vec<(i32, i32)>,
>)
    ensures
        is_found_route(grid, start, goals@, r),
        r matches Some(path) ==> path@.len() <= MAX_ITERATIONS,
{
    if tile_in(goals, start) {
        let path: Vec<(i32, i32)> = Vec::new();
        assert(path@ =~= Seq::<(i32, i32)>::empty());
        return Some(path);
    }
    let ghost all_goals = goals@;
    let targets: Vec<(i32, i32)> = walkable_goals(goals, grid);
    if targets.len() == 0 {
        proof {
            assert forall|other: Seq<(i32, i32)>| !#[trigger]
                reaches_goal(grid, start, all_goals, other) by {
                if reaches_goal(grid, start, all_goals, other) {
                    assert(targets@.contains(other.last()));
                }
            }
        }
        return None;
    }
    let mut open = OpenList::new();
    assert(open.nodes() =~= Seq::<Node>::empty());
    let mut best: TileMap<Visit> = TileMap::new();
    best.insert(start, Visit { g: 0, prev: start });
    let h0: u64 = estimate_to(&targets, start);
    open.push(Node { f: h0, g: 0, pos: start });
    let ghost mut closed: Set<(i32, i32)> = Set::empty();
    let ghost mut routes: Map<(i32, i32), Seq<(i32, i32)>> = map![start => seq![]];
    let ghost mut pushes: nat = 1;
    assert((Front { best: best@, open: open.nodes() }) =~= first_front(targets@, start));
    let mut iter: usize = 0;
    while iter <= MAX_ITERATIONS
        invariant
            targets@.len() > 0,
            all_goals == goals@,
            !all_goals.contains(start),
            forall|t: (i32, i32)| #[trigger]
                targets@.contains(t) <==> all_goals.contains(t) && grid.walkable(t),
            iter <= MAX_ITERATIONS,
            search_inv(grid, start, targets@, best@, closed, routes, open.nodes(), iter * 0x1_0000_000F),
            all_passed_on(grid, best@, closed),
            settled_soon(grid, start, all_goals, targets@, best@, closed),
            route_found(grid, start, all_goals) == searched(
                grid,
                start,
                targets@,
                Front { best: best@, open: open.nodes() },
                iter as int,
            ),
            closed.len() <= iter,
            open.nodes().len() + iter == pushes,
            pushes <= 1 + 8 * closed.len(),
        decreases MAX_ITERATIONS + 1 - iter,
    {
        let ghost open_before = open.nodes();
        let ghost bound = iter * 0x1_0000_000F;
        let cur = match open.pop() {
            Some(node) => node,
            None => {
                proof {
                    assert forall|other: Seq<(i32, i32)>| !#[trigger]
                        reaches_goal(grid, start, all_goals, other) by {
                        if reaches_goal(grid, start, all_goals, other) {
                            let k = lemma_frontier(grid, start, best@, closed, other);
                            if k >= 0 {
                                let y = route_end(start, other.take(k));
                                assert(open_before.contains(node_of(targets@, best@, y)));
                            } else {
                                assert(targets@.contains(other.last()));
                            }
                        }
                    }
                }
                return None;
            },
        };
        iter = iter + 1;
        if iter > MAX_ITERATIONS {
            proof {
                assert(closed.len() >= 1000);
                assert forall|other: Seq<(i32, i32)>| #[trigger]
                    reaches_goal(grid, start, all_goals, other) implies many_on_the_way(
                    grid,
                    start,
                    all_goals,
                    route_cost(grid, start, other),
                    (MAX_ITERATIONS / 8) as nat,
                ) by {
                    assert forall|t: (i32, i32)| #[trigger] closed.contains(t) implies on_the_way(
                        grid,
                        start,
                        all_goals,
                        route_cost(grid, start, other),
                        t,
                    ) by {
                        assert(visit_ok(grid, start, best@, closed, routes, t));
                        assert(is_route(grid, start, routes[t]));
                        let i = lemma_estimate_of(targets@, t);
                        assert(targets@.contains(targets@[i]));
                        assert(all_goals.contains(targets@[i]));
                    }
                }
            }
            return None;
        }
        if tile_in(targets.as_slice(), cur.pos) {
            proof {
                let i = choose|i: int| 0 <= i < targets@.len() && targets@[i] == cur.pos;
                lemma_estimate_at_goal(targets@, i);
                assert forall|other: Seq<(i32, i32)>| #[trigger]
                    reaches_goal(grid, start, all_goals, other) implies best@[cur.pos].g
                    <= route_cost(grid, start, other) by {
                    let z = other.last();
                    assert(targets@.contains(z));
                    let j = choose|j: int| 0 <= j < targets@.len() && targets@[j] == z;
                    lemma_estimate_at_goal(targets@, j);
                    lemma_front_bound(
                        grid,
                        start,
                        targets@,
                        best@,
                        closed,
                        routes,
                        open_before,
                        bound as int,
                        cur,
                        other,
                    );
                }
                assert(targets@.contains(cur.pos));
            }
            let path = walk_back(&best, start, cur.pos, grid, Ghost(closed), Ghost(routes));
            assert(reaches_goal(grid, start, all_goals, path@));
            return Some(path);
        }
        let known: u64 = match best.get(cur.pos) {
            Some(visit) => visit.g,
            None => u64::MAX,
        };
        if cur.g > known {
            proof {
                assert forall|t: (i32, i32)| #[trigger]
                    best@.contains_key(t) && !closed.contains(t) implies open.nodes().contains(
                    node_of(targets@, best@, t),
                ) by {
                    let n = node_of(targets@, best@, t);
                    assert(open_before.contains(n));
                    assert(n != cur);
                }
            }
            continue;
        }
        let ghost was_closed = closed.contains(cur.pos);
        proof {
            assert(cur.g == best@[cur.pos].g);
            assert forall|other: Seq<(i32, i32)>| #[trigger]
                reaches_goal(grid, start, all_goals, other) implies cur.f <= route_cost(
                grid,
                start,
                other,
            ) by {
                let z = other.last();
                assert(targets@.contains(z));
                let j = choose|j: int| 0 <= j < targets@.len() && targets@[j] == z;
                lemma_estimate_at_goal(targets@, j);
                lemma_front_bound(
                    grid,
                    start,
                    targets@,
                    best@,
                    closed,
                    routes,
                    open_before,
                    bound as int,
                    cur,
                    other,
                );
            }
            if !was_closed {
                assert forall|path: Seq<(i32, i32)>| #[trigger]
                    is_route(grid, start, path) && route_end(start, path) == cur.pos implies best@[cur.pos].g
                    <= route_cost(grid, start, path) by {
                    lemma_front_bound(
                        grid,
                        start,
                        targets@,
                        best@,
                        closed,
                        routes,
                        open_before,
                        bound as int,
                        cur,
                        path,
                    );
                }
            }
        }
        let ghost closed_before = closed;
        proof {
            closed = closed.insert(cur.pos);
            lemma_settle(
                grid,
                start,
                targets@,
                best@,
                closed_before,
                routes,
                open_before,
                open.nodes(),
                bound as int,
                (iter * 0x1_0000_000F) as int,
                cur,
            );
        }
        let ghost base = Front { best: best@, open: open.nodes() };
        let mut k: usize = 0;
        while k < 8
            invariant
                targets@.len() > 0,
                (Front { best: best@, open: open.nodes() }) == relaxed(
                    grid,
                    targets@,
                    cur,
                    base,
                    k as nat,
                ),
                k <= 8,
                1 <= iter <= MAX_ITERATIONS,
                closed == closed_before.insert(cur.pos),
                was_closed == closed_before.contains(cur.pos),
                closed_before.finite(),
                best@.contains_key(cur.pos),
                best@[cur.pos].g == cur.g,
                cur.g <= (iter - 1) * 0x1_0000_000F,
                search_inv(
                    grid,
                    start,
                    targets@,
                    best@,
                    closed,
                    routes,
                    open.nodes(),
                    iter * 0x1_0000_000F,
                ),
                settled_soon(grid, start, all_goals, targets@, best@, closed),
                forall|u: (i32, i32), v: (i32, i32)|
                    closed.contains(u) && u != cur.pos ==> #[trigger] settled_out(grid, best@, u, v),
                forall|v: (i32, i32), j: int|
                    0 <= j < 8 && (j < k || was_closed) && #[trigger] neighbour(cur.pos, j) == (
                        v.0 as int,
                        v.1 as int,
                    ) ==> #[trigger] settled_out(grid, best@, cur.pos, v),
                open.nodes().len() + iter == pushes,
                pushes <= 1 + 8 * closed_before.len() + (if was_closed { 0int } else { k as int }),
            decreases 8 - k,
        {
            let d: (i32, i32) = step_of(k);
            let ghost nb = neighbour(cur.pos, k as int);
            let nx: i64 = cur.pos.0 as i64 + d.0 as i64;
            let ny: i64 = cur.pos.1 as i64 + d.1 as i64;
            assert(nb == (nx as int, ny as int));
            assert(visit_ok(grid, start, best@, closed, routes, cur.pos));
            if nx < i32::MIN as i64 || nx > i32::MAX as i64 || ny < i32::MIN as i64 || ny
                > i32::MAX as i64 {
                k = k + 1;
                continue;
            }
            let next: (i32, i32) = (nx as i32, ny as i32);
            if !grid.can_step(cur.pos, next) {
                k = k + 1;
                continue;
            }
            let base: u64 = step_cost(d.0, d.1) as u64;
            let tentative: u64 = cur.g + base + grid.movement_penalty(cur.pos, next) as u64;
            let known_next: u64 = match best.get(next) {
                Some(visit) => visit.g,
                None => u64::MAX,
            };
            assert(tentative == cur.g + cost_of_step(grid, cur.pos, next));
            if tentative < known_next {
                let h: u64 = estimate_to(&targets, next);
                let ghost best_before = best@;
                let ghost nodes_before = open.nodes();
                let ghost routes_before = routes;
                best.insert(next, Visit { g: tentative, prev: cur.pos });
                open.push(Node { f: tentative + h, g: tentative, pos: next });
                proof {
                    pushes = pushes + 1;
                    routes = routes.insert(next, routes[cur.pos].push(next));
                    lemma_relax(
                        grid,
                        start,
                        targets@,
                        best_before,
                        closed,
                        routes_before,
                        nodes_before,
                        best@,
                        routes,
                        open.nodes(),
                        (iter * 0x1_0000_000F) as int,
                        cur.pos,
                        next,
                        tentative,
                    );
                    assert forall|u: (i32, i32), v: (i32, i32)|
                        closed.contains(u) && u != cur.pos implies #[trigger] settled_out(
                        grid,
                        best@,
                        u,
                        v,
                    ) by {
                        assert(settled_out(grid, best_before, u, v));
                    }
                    assert forall|v: (i32, i32), j: int|
                        0 <= j < 8 && (j < k || was_closed) && #[trigger] neighbour(cur.pos, j) == (
                            v.0 as int,
                            v.1 as int,
                        ) implies #[trigger] settled_out(grid, best@, cur.pos, v) by {
                        assert(settled_out(grid, best_before, cur.pos, v));
                    }
                    assert(!was_closed) by {
                        if was_closed {
                            assert(settled_out(grid, best_before, cur.pos, next));
                        }
                    }
                }
            }
            proof {
                assert forall|v: (i32, i32), j: int|
                    0 <= j < 8 && (j < k + 1 || was_closed) && #[trigger] neighbour(cur.pos, j) == (
                        v.0 as int,
                        v.1 as int,
                    ) implies #[trigger] settled_out(grid, best@, cur.pos, v) by {
                    if j == k {
                        assert(v == next);
                    }
                }
            }
            k = k + 1;
        }
        proof {
            assert forall|u: (i32, i32), v: (i32, i32)| closed.contains(u) implies #[trigger]
                settled_out(grid, best@, u, v) by {
                if u == cur.pos && step_ok(grid, u, v) {
                    let j = lemma_neighbour_index(u, v);
                    assert(neighbour(cur.pos, j) == (v.0 as int, v.1 as int));
                }
            }
        }
    }
    None
}

/// Settling the node that was just taken off the frontier keeps the state in
/// order.
proof fn lemma_settle<W: Walkable>(
    grid: &W,
    start: (i32, i32),
    goals: Seq<(i32, i32)>,
    best: Map<(i32, i32), Visit>,
    closed: Set<(i32, i32)>,
    routes: Map<(i32, i32), Seq<(i32, i32)>>,
    open0: Seq<Node>,
    open1: Seq<Node>,
    bound0: int,
    bound1: int,
    cur: Node,
)
    requires
        search_inv(grid, start, goals, best, closed, routes, open0, bound0),
        bound0 <= bound1,
        open0.contains(cur),
        cur.g == best[cur.pos].g,
        !goals.contains(cur.pos),
        closed.contains(cur.pos) || settled_best(grid, start, best, cur.pos),
        forall|m: Node| #[trigger] open1.contains(m) ==> open0.contains(m),
        forall|m: Node| #[trigger] open0.contains(m) && m != cur ==> open1.contains(m),
    ensures
        search_inv(grid, start, goals, best, closed.insert(cur.pos), routes, open1, bound1),
{
    let closed1 = closed.insert(cur.pos);
    assert forall|t: (i32, i32)| #[trigger] best.contains_key(t) implies visit_ok(
        grid,
        start,
        best,
        closed1,
        routes,
        t,
    ) by {
        assert(visit_ok(grid, start, best, closed, routes, t));
    }
    assert forall|t: (i32, i32)| #[trigger]
        best.contains_key(t) && !closed1.contains(t) implies open1.contains(
        node_of(goals, best, t),
    ) by {
        let n = node_of(goals, best, t);
        assert(open0.contains(n));
        assert(n.pos != cur.pos);
    }
}

/// A cheaper route to a tile keeps the state in order.
proof fn lemma_relax<W: Walkable>(
    grid: &W,
    start: (i32, i32),
    goals: Seq<(i32, i32)>,
    best0: Map<(i32, i32), Visit>,
    closed: Set<(i32, i32)>,
    routes0: Map<(i32, i32), Seq<(i32, i32)>>,
    open0: Seq<Node>,
    best1: Map<(i32, i32), Visit>,
    routes1: Map<(i32, i32), Seq<(i32, i32)>>,
    open1: Seq<Node>,
    bound: int,
    from: (i32, i32),
    next: (i32, i32),
    tentative: u64,
)
    requires
        search_inv(grid, start, goals, best0, closed, routes0, open0, bound),
        0 <= bound <= 0x1000_0000_0000_0000,
        closed.contains(from),
        step_ok(grid, from, next),
        tentative == best0[from].g + cost_of_step(grid, from, next),
        tentative <= bound,
        best0.contains_key(next) ==> tentative < best0[next].g,
        best1 == best0.insert(next, Visit { g: tentative, prev: from }),
        routes1 == routes0.insert(next, routes0[from].push(next)),
        forall|m: Node| #[trigger]
            open1.contains(m) <==> (open0.contains(m) || m == (Node {
                f: (tentative + estimate(goals, next)) as u64,
                g: tentative,
                pos: next,
            })),
    ensures
        search_inv(grid, start, goals, best1, closed, routes1, open1, bound),
        !closed.contains(next),
        next != start,
{
    let added = Node { f: (tentative + estimate(goals, next)) as u64, g: tentative, pos: next };
    lemma_estimate_range(goals, next);
    let path = routes0[from].push(next);
    assert(visit_ok(grid, start, best0, closed, routes0, from));
    assert(path.drop_last() =~= routes0[from]);
    assert(is_route(grid, start, path));
    assert(route_end(start, path) == next);
    assert(route_cost(grid, start, path) == tentative);
    assert(!closed.contains(next)) by {
        if closed.contains(next) {
            assert(settled_best(grid, start, best0, next));
        }
    }
    assert forall|u: (i32, i32)| #[trigger] closed.contains(u) implies settled_best(
        grid,
        start,
        best1,
        u,
    ) by {
        assert(settled_best(grid, start, best0, u));
    }
    assert forall|t: (i32, i32)| #[trigger] best1.contains_key(t) implies visit_ok(
        grid,
        start,
        best1,
        closed,
        routes1,
        t,
    ) by {
        if t != next {
            assert(visit_ok(grid, start, best0, closed, routes0, t));
        }
    }
    assert forall|t: (i32, i32)| #[trigger]
        best1.contains_key(t) && !closed.contains(t) implies open1.contains(
        node_of(goals, best1, t),
    ) by {
        if t != next {
            assert(open0.contains(node_of(goals, best0, t)));
        }
    }
    assert forall|n: Node| #[trigger] open1.contains(n) implies best1.contains_key(n.pos) && n.g
        >= best1[n.pos].g && n.g <= bound && n.f == n.g + estimate(goals, n.pos) by {
        if n != added {
            assert(open0.contains(n));
        }
    }
}

/// The cheapest walk to one tile.
pub fn plan<W: Walkable>(start: (i32, i32), goal: (i32, i32), grid: &W) -> (r: Option<
    Vec<(i32, i32)>,
>)
    ensures
        is_found_route(grid, start, seq![goal], r),
        r matches Some(path) ==> path@.len() <= MAX_ITERATIONS,
{
    let goals: Vec<(i32, i32)> = vec![goal];
    assert(goals@ =~= seq![goal]);
    plan_to_any(start, goals.as_slice(), grid)
}

/// Every tile that can be walked to is one of `tiles`.
pub open spec fn holds_reachable<W: Walkable>(
    grid: &W,
    start: (i32, i32),
    tiles: Set<(i32, i32)>,
) -> bool {
    forall|t: (i32, i32)| #[trigger] reachable(grid, start, t) ==> tiles.contains(t)
}

/// Whether the search finds a walk to a tile. Where no more than a thousand
/// tiles can be walked to, this is whether there is one.
pub fn is_reachable<W: Walkable>(start: (i32, i32), goal: (i32, i32), grid: &W) -> (r: bool)
    ensures
        r == route_found(grid, start, seq![goal]) is Some,
        start == goal ==> r,
        r && start != goal ==> grid.walkable(goal) && reachable(grid, start, goal),
        !r && grid.walkable(goal) ==> forall|path: Seq<(i32, i32)>| #[trigger]
            is_route(grid, start, path) && route_end(start, path) == goal ==> many_on_the_way(
                grid,
                start,
                seq![goal],
                route_cost(grid, start, path),
                (MAX_ITERATIONS / 8) as nat,
            ),
        forall|tiles: Set<(i32, i32)>| #[trigger]
            holds_reachable(grid, start, tiles) && tiles.finite() && tiles.len() <= MAX_ITERATIONS
                / 8 ==> (r <==> start == goal || (grid.walkable(goal) && reachable(
                grid,
                start,
                goal,
            ))),
{
    let found = plan(start, goal, grid);
    proof {
        let goals = seq![goal];
        assert(goals[0] == goal);
        if found is Some {
            if start != goal {
                assert(is_route(grid, start, found->0@));
                assert(found->0@.last() == goal);
            }
        } else if grid.walkable(goal) {
            assert forall|path: Seq<(i32, i32)>| #[trigger]
                is_route(grid, start, path) && route_end(start, path)
                    == goal implies many_on_the_way(
                grid,
                start,
                goals,
                route_cost(grid, start, path),
                (MAX_ITERATIONS / 8) as nat,
            ) by {
                assert(goals.contains(start) == (start == goal));
                assert(reaches_goal(grid, start, goals, path));
            }
        }
        assert forall|tiles: Set<(i32, i32)>| #[trigger]
            holds_reachable(grid, start, tiles) && tiles.finite() && tiles.len() <= MAX_ITERATIONS
                / 8 implies (found is Some <==> start == goal || (grid.walkable(goal) && reachable(
            grid,
            start,
            goal,
        ))) by {
            law_reachability_is_decided(grid, start, goal, found, tiles);
        }
    }
    found.is_some()
}

/// The number of steps of the path that the search finds to a tile, which is no
/// less than the tile is away, and none only where one stands on it already.
pub fn path_steps<W: Walkable>(start: (i32, i32), goal: (i32, i32), grid: &W) -> (r: Option<u32>)
    ensures
        match route_found(grid, start, seq![goal]) {
            Some(path) => r matches Some(n) && n == path.len(),
            None => r is None,
        },
        exists|path: Option<Vec<(i32, i32)>>| #[trigger]
            is_found_route(grid, start, seq![goal], path) && r == (match path {
                Some(p) => Some(p@.len() as u32),
                None => None,
            }),
        r matches Some(n) ==> chebyshev_spec(start, goal) <= n <= MAX_ITERATIONS,
        r == Some(0u32) <==> start == goal,
{
    let path = plan(start, goal, grid);
    let steps: Option<u32> = match &path {
        Some(p) => Some(p.len() as u32),
        None => None,
    };
    assert(is_found_route(grid, start, seq![goal], path));
    proof {
        law_steps_to_a_tile(grid, start, goal, path);
    }
    steps
}

/// A search decides whether a tile can be walked to, where no more than a
/// thousand tiles can.
pub proof fn law_reachability_is_decided<W: Walkable>(
    grid: &W,
    start: (i32, i32),
    goal: (i32, i32),
    found: Option<Vec<(i32, i32)>>,
    tiles: Set<(i32, i32)>,
)
    requires
        is_best_route(grid, start, seq![goal], found),
        holds_reachable(grid, start, tiles),
        tiles.finite(),
        tiles.len() <= MAX_ITERATIONS / 8,
    ensures
        found is Some <==> start == goal || (grid.walkable(goal) && reachable(grid, start, goal)),
{
    let goals = seq![goal];
    assert(goals[0] == goal);
    assert(goals.contains(start) == (start == goal));
    if start != goal {
        if let Some(path) = found {
            assert(is_route(grid, start, path@));
            assert(path@.last() == goal);
        } else if grid.walkable(goal) && reachable(grid, start, goal) {
            let path = choose|path: Seq<(i32, i32)>| #[trigger]
                is_route(grid, start, path) && route_end(start, path) == goal;
            let cost = route_cost(grid, start, path);
            assert(reaches_goal(grid, start, goals, path));
            let s = choose|s: Set<(i32, i32)>|
                s.finite() && #[trigger] s.len() >= MAX_ITERATIONS / 8 && forall|t: (i32, i32)|
                    #[trigger]
                    s.contains(t) ==> on_the_way(grid, start, goals, cost, t);
            assert(!s.contains(goal));
            assert forall|t: (i32, i32)| #[trigger] s.contains(t) implies tiles.contains(t) by {
                assert(on_the_way(grid, start, goals, cost, t));
                assert(reachable(grid, start, t));
            }
            vstd::set_lib::lemma_len_subset(s.insert(goal), tiles);
        }
    }
}

/// A path that is found to a tile has at least as many steps as the tile is
/// away, and none only where one stands on it already.
pub proof fn law_steps_to_a_tile<W: Walkable>(
    grid: &W,
    start: (i32, i32),
    goal: (i32, i32),
    found: Option<Vec<(i32, i32)>>,
)
    requires
        is_best_route(grid, start, seq![goal], found),
    ensures
        found matches Some(path) ==> chebyshev_spec(start, goal) <= path@.len() && (path@.len() == 0
            <==> start == goal),
        start == goal ==> found is Some,
{
    let goals = seq![goal];
    assert(goals[0] == goal);
    assert(goals.contains(start) == (start == goal));
    if start != goal {
        if let Some(path) = found {
            law_route_length(grid, start, path@);
        }
    }
}

/// Walking is the same on two grids.
pub open spec fn walk_alike<V: Walkable, W: Walkable>(a: &V, b: &W) -> bool {
    &&& forall|t: (i32, i32)|
        #![trigger a.walkable(t)]
        #![trigger b.walkable(t)]
        a.walkable(t) == b.walkable(t)
    &&& forall|from: (i32, i32), to: (i32, i32)|
        #![trigger a.steppable(from, to)]
        #![trigger b.steppable(from, to)]
        a.steppable(from, to) == b.steppable(from, to)
    &&& forall|from: (i32, i32), to: (i32, i32)|
        #![trigger a.penalty(from, to)]
        #![trigger b.penalty(from, to)]
        a.penalty(from, to) == b.penalty(from, to)
}

/// What a search finds depends on where one can stand and step, at what cost,
/// and on which tiles are goals: not on the order in which the goals are
/// listed, nor on how often.
pub proof fn law_found_by_ground_and_goals<V: Walkable, W: Walkable>(
    a: &V,
    b: &W,
    start: (i32, i32),
    goals_a: Seq<(i32, i32)>,
    goals_b: Seq<(i32, i32)>,
)
    requires
        walk_alike(a, b),
        forall|t: (i32, i32)| #[trigger] goals_a.contains(t) <==> goals_b.contains(t),
    ensures
        route_found(a, start, goals_a) == route_found(b, start, goals_b),
{
    let targets_a = walkable_among(a, goals_a);
    let targets_b = walkable_among(b, goals_b);
    assert forall|t: (i32, i32)| #[trigger] targets_a.contains(t) <==> targets_b.contains(t) by {
        lemma_walkable_among(a, goals_a, t);
        lemma_walkable_among(b, goals_b, t);
    }
    if targets_a.len() > 0 {
        assert(targets_a.contains(targets_a[0]));
    }
    if targets_b.len() > 0 {
        assert(targets_b.contains(targets_b[0]));
        assert(targets_a.contains(targets_b[0]));
    }
    if targets_a.len() > 0 {
        lemma_estimate_by_members(targets_a, targets_b, start);
        lemma_searched_alike(a, b, start, targets_a, targets_b, first_front(targets_a, start), 0);
    }
}

proof fn lemma_walkable_among<W: Walkable>(grid: &W, goals: Seq<(i32, i32)>, t: (i32, i32))
    ensures
        walkable_among(grid, goals).contains(t) <==> goals.contains(t) && grid.walkable(t),
    decreases goals.len(),
{
    if goals.len() > 0 {
        let before = goals.drop_last();
        let rest = walkable_among(grid, before);
        lemma_walkable_among(grid, before, t);
        assert(goals =~= before.push(goals.last()));
        lemma_pushed(before, goals.last(), t);
        lemma_pushed(rest, goals.last(), t);
    }
}

/// What a sequence holds with one more tile.
pub proof fn lemma_pushed(s: Seq<(i32, i32)>, a: (i32, i32), t: (i32, i32))
    ensures
        s.push(a).contains(t) <==> (s.contains(t) || t == a),
{
    let u = s.push(a);
    if s.contains(t) {
        let k = choose|k: int| 0 <= k < s.len() && s[k] == t;
        assert(u[k] == t);
    }
    if u.contains(t) {
        let k = choose|k: int| 0 <= k < u.len() && u[k] == t;
        if k < s.len() {
            assert(s[k] == t);
        }
    }
    assert(u[s.len() as int] == a);
}

proof fn lemma_estimate_least(goals: Seq<(i32, i32)>, pos: (i32, i32), i: int)
    requires
        0 <= i < goals.len(),
    ensures
        estimate(goals, pos) <= 10 * chebyshev_spec(pos, goals[i]),
    decreases goals.len(),
{
    if goals.len() > 1 && i < goals.len() - 1 {
        lemma_estimate_least(goals.drop_last(), pos, i);
    }
}

proof fn lemma_estimate_by_members(
    a: Seq<(i32, i32)>,
    b: Seq<(i32, i32)>,
    pos: (i32, i32),
)
    requires
        a.len() > 0,
        b.len() > 0,
        forall|t: (i32, i32)| #[trigger] a.contains(t) <==> b.contains(t),
    ensures
        estimate(a, pos) == estimate(b, pos),
{
    let i = lemma_estimate_of(a, pos);
    let j = lemma_estimate_of(b, pos);
    assert(a.contains(a[i]));
    assert(b.contains(b[j]));
    assert(a.contains(b[j]));
    let i2 = choose|k: int| 0 <= k < b.len() && b[k] == a[i];
    let j2 = choose|k: int| 0 <= k < a.len() && a[k] == b[j];
    lemma_estimate_least(b, pos, i2);
    lemma_estimate_least(a, pos, j2);
}

proof fn lemma_relaxed_alike<V: Walkable, W: Walkable>(
    a: &V,
    b: &W,
    goals_a: Seq<(i32, i32)>,
    goals_b: Seq<(i32, i32)>,
    cur: Node,
    front: Front,
    k: nat,
)
    requires
        walk_alike(a, b),
        goals_a.len() > 0,
        goals_b.len() > 0,
        forall|t: (i32, i32)| #[trigger] goals_a.contains(t) <==> goals_b.contains(t),
    ensures
        relaxed(a, goals_a, cur, front, k) == relaxed(b, goals_b, cur, front, k),
    decreases k,
{
    if k > 0 {
        lemma_relaxed_alike(a, b, goals_a, goals_b, cur, front, (k - 1) as nat);
        let there = neighbour(cur.pos, k - 1);
        let next = (there.0 as i32, there.1 as i32);
        lemma_estimate_by_members(goals_a, goals_b, next);
        assert(cost_of_step(a, cur.pos, next) == cost_of_step(b, cur.pos, next));
    }
}

proof fn lemma_searched_alike<V: Walkable, W: Walkable>(
    a: &V,
    b: &W,
    start: (i32, i32),
    goals_a: Seq<(i32, i32)>,
    goals_b: Seq<(i32, i32)>,
    front: Front,
    iter: int,
)
    requires
        walk_alike(a, b),
        goals_a.len() > 0,
        goals_b.len() > 0,
        forall|t: (i32, i32)| #[trigger] goals_a.contains(t) <==> goals_b.contains(t),
    ensures
        searched(a, start, goals_a, front, iter) == searched(b, start, goals_b, front, iter),
    decreases MAX_ITERATIONS - iter,
{
    if front.open.len() > 0 && iter < MAX_ITERATIONS {
        let cur = front.open[0];
        let rest = Front { open: popped(front.open), ..front };
        if !goals_a.contains(cur.pos) {
            if cur.g > front.best[cur.pos].g {
                lemma_searched_alike(a, b, start, goals_a, goals_b, rest, iter + 1);
            } else {
                lemma_relaxed_alike(a, b, goals_a, goals_b, cur, rest, 8);
                let next = relaxed(a, goals_a, cur, rest, 8);
                lemma_searched_alike(a, b, start, goals_a, goals_b, next, iter + 1);
            }
        }
    }
}

/// On a grid that keeps to the usual step rule, every tile of a route can be stood on.
pub proof fn law_route_tiles_walkable<W: Walkable>(
    grid: &W,
    start: (i32, i32),
    path: Seq<(i32, i32)>,
    i: int,
)
    requires
        forall|a: (i32, i32), b: (i32, i32)| #[trigger]
            grid.steppable(a, b) ==> standard_step(|t: (i32, i32)| grid.walkable(t), a, b),
        is_route(grid, start, path),
        0 <= i < path.len(),
    ensures
        grid.walkable(path[i]),
    decreases path.len(),
{
    if i < path.len() - 1 {
        law_route_tiles_walkable(grid, start, path.drop_last(), i);
    } else {
        assert(grid.steppable(route_end(start, path.drop_last()), path.last()));
    }
}

/// On a grid that keeps to the usual step rule, no step of a route squeezes between two
/// corners: beside a diagonal step both tiles can be stood on.
pub proof fn law_no_corner_squeeze<W: Walkable>(
    grid: &W,
    start: (i32, i32),
    path: Seq<(i32, i32)>,
    i: int,
)
    requires
        forall|a: (i32, i32), b: (i32, i32)| #[trigger]
            grid.steppable(a, b) ==> standard_step(|t: (i32, i32)| grid.walkable(t), a, b),
        is_route(grid, start, path),
        0 <= i < path.len(),
    ensures
        ({
            let from = route_end(start, path.take(i));
            let to = path[i];
            from.0 != to.0 && from.1 != to.1 ==> grid.walkable((to.0, from.1)) && grid.walkable(
                (from.0, to.1),
            )
        }),
    decreases path.len(),
{
    let before = path.drop_last();
    if i < before.len() {
        law_no_corner_squeeze(grid, start, before, i);
        assert(before.take(i) =~= path.take(i));
    } else {
        assert(path.take(i) =~= before);
        assert(grid.steppable(route_end(start, before), path.last()));
    }
}

/// A route that reaches a tile has at least as many steps as the tile is away,
/// and costs at least ten per step.
pub proof fn law_route_length<W: Walkable>(grid: &W, start: (i32, i32), path: Seq<(i32, i32)>)
    requires
        is_route(grid, start, path),
    ensures
        chebyshev_spec(start, route_end(start, path)) <= path.len(),
        10 * path.len() <= route_cost(grid, start, path),
    decreases path.len(),
{
    if path.len() > 0 {
        law_route_length(grid, start, path.drop_last());
    }
}

/// A goal that can be reached at a cost of 150 or less, which is that of 15
/// straight steps, is found.
pub proof fn law_near_goal_is_found<W: Walkable>(
    grid: &W,
    start: (i32, i32),
    goals: Seq<(i32, i32)>,
    r: Option<Vec<(i32, i32)>>,
    path: Seq<(i32, i32)>,
)
    requires
        is_best_route(grid, start, goals, r),
        reaches_goal(grid, start, goals, path),
        route_cost(grid, start, path) <= 150,
    ensures
        r is Some,
{
    if r is None {
        let s = choose|s: Set<(i32, i32)>|
            s.finite() && #[trigger] s.len() >= MAX_ITERATIONS / 8 && forall|t: (i32, i32)|
                #[trigger]
                s.contains(t) ==> on_the_way(grid, start, goals, route_cost(grid, start, path), t);
        let f = |t: (i32, i32)| (t.0 - start.0 + 15) * 31 + (t.1 - start.1 + 15);
        assert forall|t: (i32, i32)| #[trigger] s.contains(t) implies chebyshev_spec(start, t)
            <= 15 by {
            let (way, goal) = choose|way: Seq<(i32, i32)>, goal: (i32, i32)|
                {
                    &&& #[trigger] is_route(grid, start, way)
                    &&& route_end(start, way) == t
                    &&& #[trigger] goals.contains(goal)
                    &&& grid.walkable(goal)
                    &&& route_cost(grid, start, way) + 10 * chebyshev_spec(t, goal) <= route_cost(
                        grid,
                        start,
                        path,
                    )
                };
            law_route_length(grid, start, way);
        }
        let range = vstd::set_lib::set_int_range(0, 961);
        vstd::set_lib::lemma_int_range(0, 961);
        vstd::set_lib::lemma_map_size(s, s.map(f), f);
        assert(s.map(f).subset_of(range));
        vstd::set_lib::lemma_len_subset(s.map(f), range);
    }
}

} // verus!
