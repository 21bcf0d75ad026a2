//! What a walk is and what it costs, told step by step.
use crate::decide::open_list::{rank, Node};
use crate::decide::pathfind::{
    cost_of_step, is_best_route, is_route, reaches_goal, route_cost, route_end, standard_step,
    Walkable, MAX_ITERATIONS,
};
use crate::decide::tile_map::packed;
use crate::minimap::{NavGrid, NavProfile};
use vstd::prelude::*;

verus! {

/// The tile from which the `i`-th step of a path is taken.
pub open spec fn stepped_from(start: (i32, i32), path: Seq<(i32, i32)>, i: int) -> (i32, i32) {
    if i == 0 {
        start
    } else {
        path[i - 1]
    }
}

/// A single step to a neighbouring tile that the ground allows.
pub open spec fn single_step<W: Walkable>(grid: &W, from: (i32, i32), to: (i32, i32)) -> bool {
    &&& from.0 != to.0 || from.1 != to.1
    &&& -1 <= to.0 - from.0 <= 1
    &&& -1 <= to.1 - from.1 <= 1
    &&& grid.steppable(from, to)
}

/// A walk is a path each tile of which is a single step from the one before.
pub proof fn law_walk_step_by_step<W: Walkable>(
    grid: &W,
    start: (i32, i32),
    path: Seq<(i32, i32)>,
)
    ensures
        is_route(grid, start, path) <==> forall|i: int|
            0 <= i < path.len() ==> single_step(grid, stepped_from(start, path, i), #[trigger] path[i]),
    decreases path.len(),
{
    if path.len() > 0 {
        let rest = path.drop_last();
        let last = path.len() - 1;
        law_walk_step_by_step(grid, start, rest);
        assert(path.last() == path[last]);
        assert(route_end(start, rest) == stepped_from(start, path, last));
        if is_route(grid, start, path) {
            assert forall|i: int| 0 <= i < path.len() implies single_step(
                grid,
                stepped_from(start, path, i),
                #[trigger] path[i],
            ) by {
                if i < last {
                    assert(single_step(grid, stepped_from(start, rest, i), rest[i]));
                    assert(stepped_from(start, rest, i) == stepped_from(start, path, i));
                }
            }
        }
        if forall|i: int|
            0 <= i < path.len() ==> single_step(
                grid,
                stepped_from(start, path, i),
                #[trigger] path[i],
            ) {
            assert forall|i: int| 0 <= i < rest.len() implies single_step(
                grid,
                stepped_from(start, rest, i),
                #[trigger] rest[i],
            ) by {
                assert(single_step(grid, stepped_from(start, path, i), path[i]));
                assert(stepped_from(start, rest, i) == stepped_from(start, path, i));
            }
            assert(single_step(grid, stepped_from(start, path, last), path[last]));
        }
    }
}

/// A straight step costs ten and a diagonal fourteen, and what the ground adds.
pub proof fn law_cost_of_step<W: Walkable>(grid: &W, from: (i32, i32), to: (i32, i32))
    ensures
        from.0 == to.0 || from.1 == to.1 ==> cost_of_step(grid, from, to) == 10 + grid.penalty(
            from,
            to,
        ),
        from.0 != to.0 && from.1 != to.1 ==> cost_of_step(grid, from, to) == 14 + grid.penalty(
            from,
            to,
        ),
{
}

/// The costs of two stretches of a walk add up, and one step costs what it costs.
pub proof fn law_costs_add_up<W: Walkable>(
    grid: &W,
    start: (i32, i32),
    a: Seq<(i32, i32)>,
    b: Seq<(i32, i32)>,
    t: (i32, i32),
)
    ensures
        route_cost(grid, start, a + b) == route_cost(grid, start, a) + route_cost(
            grid,
            route_end(start, a),
            b,
        ),
        route_cost(grid, start, seq![t]) == cost_of_step(grid, start, t),
        route_cost(grid, start, Seq::empty()) == 0,
        a.len() > 0 ==> route_end(start, a) == a[a.len() - 1],
        a.len() == 0 ==> route_end(start, a) == start,
    decreases b.len(),
{
    assert(seq![t].drop_last() =~= Seq::<(i32, i32)>::empty());
    assert(route_cost(grid, start, Seq::<(i32, i32)>::empty()) == 0);
    if b.len() > 0 {
        let rest = b.drop_last();
        assert((a + b).drop_last() =~= a + rest);
        law_costs_add_up(grid, start, a, rest, t);
        if rest.len() > 0 {
            assert((a + rest).last() == rest.last());
        } else {
            assert(a + rest =~= a);
        }
        assert(route_end(start, a + rest) == route_end(route_end(start, a), rest));
        assert((a + b).last() == b.last());
    } else {
        assert(a + b =~= a);
    }
}

/// A search looks at no more than eight thousand tiles.
pub proof fn law_search_limit()
    ensures
        MAX_ITERATIONS == 8_000,
{
}

/// Nodes are looked at by their estimate, and of equal ones the one with the lower
/// cost so far comes first.
pub proof fn law_order_of_search(a: Node, b: Node)
    ensures
        rank(a) < rank(b) <==> a.f < b.f || (a.f == b.f && a.g < b.g),
{
}

/// Every tile has a number of its own.
pub proof fn law_tiles_are_told_apart(a: (i32, i32), b: (i32, i32))
    ensures
        packed(a) == packed(b) ==> a == b,
{
}

/// The usual step: to a neighbour where one can stand, and not round a corner.
pub proof fn law_usual_step(
    stand: spec_fn((i32, i32)) -> bool,
    from: (i32, i32),
    to: (i32, i32),
)
    ensures
        from == to ==> standard_step(stand, from, to) == stand(from),
        from != to ==> (standard_step(stand, from, to) <==> {
            &&& -1 <= to.0 - from.0 <= 1 && -1 <= to.1 - from.1 <= 1
            &&& stand(to)
            &&& from.0 == to.0 || from.1 == to.1 || (stand((to.0, from.1)) && stand(
                (from.0, to.1),
            ))
        }),
{
}

/// On a map one stands on the tiles that it lists, sees over those that are not
/// opaque or listed as such, and takes the steps that are not closed.
pub proof fn law_ground_of_map(map: NavGrid, from: (i32, i32), to: (i32, i32), i: int)
    ensures
        map.walkable(to) <==> exists|k: int|
            0 <= k < map.tiles@.len() && #[trigger] map.tiles@[k] == to,
        map.walkable(to) ==> (map.sight_blocked(to) <==> map.opaque@.contains(to)),
        !map.walkable(to) ==> (map.sight_blocked(to) <==> !map.see_through@.contains(to)),
        0 <= i < map.closed_edges@.len() ==> !map.steppable(
            map.closed_edges@[i].0,
            map.closed_edges@[i].1,
        ),
        !map.closed_edges@.contains((from, to)) && from != to ==> (map.steppable(from, to) <==> {
            &&& -1 <= to.0 - from.0 <= 1 && -1 <= to.1 - from.1 <= 1
            &&& map.walkable(to)
            &&& from.0 == to.0 || from.1 == to.1 || (map.walkable((to.0, from.1)) && map.walkable(
                (from.0, to.1),
            ))
        }),
        map.penalty(from, to) == 0,
{
    if 0 <= i < map.closed_edges@.len() {
        let e = map.closed_edges@[i];
        assert(map.closed_edges@.contains(e));
        assert(e == (e.0, e.1));
    }
}

/// A tile lies in the first region that lists it.
pub proof fn law_region_of_tile(profile: NavProfile, tile: (i32, i32), id: int, j: int)
    ensures
        profile.is_component_of(tile, id) ==> {
            &&& 0 <= id < profile.components@.len()
            &&& profile.components@[id]@.contains(tile)
            &&& 0 <= j < id ==> !profile.components@[j]@.contains(tile)
        },
        0 <= id < profile.components@.len() && profile.components@[id]@.contains(tile)
            ==> profile.lists(tile),
        (forall|k: int|
            0 <= k < profile.components@.len() ==> !(#[trigger] profile.components@[k])@.contains(
                tile,
            )) ==> !profile.lists(tile),
        0 <= id < profile.components@.len() && profile.components@[id]@.contains(tile) && (forall|
            k: int,
        |
            0 <= k < id ==> !(#[trigger] profile.components@[k])@.contains(tile))
            ==> profile.is_component_of(tile, id),
        profile.is_component_of(tile, id) && profile.is_component_of(tile, j) ==> id == j,
{
    if profile.is_component_of(tile, id) && profile.is_component_of(tile, j) {
        if id < j {
            assert(!profile.components@[id]@.contains(tile));
        }
        if j < id {
            assert(!profile.components@[j]@.contains(tile));
        }
    }
}

/// A walk reaches a goal where it ends on one that one can stand on.
pub proof fn law_goal_is_reached<W: Walkable>(
    grid: &W,
    start: (i32, i32),
    goals: Seq<(i32, i32)>,
    path: Seq<(i32, i32)>,
)
    ensures
        reaches_goal(grid, start, goals, path) <==> {
            &&& path.len() > 0
            &&& grid.walkable(path[path.len() - 1])
            &&& goals.contains(path[path.len() - 1])
            &&& forall|i: int|
                0 <= i < path.len() ==> single_step(
                    grid,
                    stepped_from(start, path, i),
                    #[trigger] path[i],
                )
        },
{
    law_walk_step_by_step(grid, start, path);
}

/// A search finds a walk to a goal that no other walk to one undercuts; standing on a
/// goal there is nothing to walk.
pub proof fn law_search_finds_cheapest<W: Walkable>(
    grid: &W,
    start: (i32, i32),
    goals: Seq<(i32, i32)>,
    r: Option<Vec<(i32, i32)>>,
    other: Seq<(i32, i32)>,
)
    requires
        is_best_route(grid, start, goals, r),
    ensures
        goals.contains(start) ==> r is Some && r->0@.len() == 0,
        !goals.contains(start) && r is Some ==> {
            &&& r->0@.len() > 0 && goals.contains(r->0@[r->0@.len() - 1])
            &&& grid.walkable(r->0@[r->0@.len() - 1])
            &&& forall|i: int|
                0 <= i < r->0@.len() ==> single_step(
                    grid,
                    stepped_from(start, r->0@, i),
                    #[trigger] r->0@[i],
                )
            &&& other.len() > 0 && goals.contains(other[other.len() - 1]) && grid.walkable(
                other[other.len() - 1],
            ) && (forall|i: int|
                0 <= i < other.len() ==> single_step(
                    grid,
                    stepped_from(start, other, i),
                    #[trigger] other[i],
                )) ==> route_cost(grid, start, r->0@) <= route_cost(grid, start, other)
        },
{
    law_goal_is_reached(grid, start, goals, other);
    if r is Some {
        law_goal_is_reached(grid, start, goals, r->0@);
    }
}

} // verus!
