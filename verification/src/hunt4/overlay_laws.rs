//! What is in the way, told tile by tile.
use crate::decide::pathfind::Walkable;
use crate::hunt4::overlay::ObstacleOverlay;
use vstd::prelude::*;

verus! {

/// An obstacle that is remembered or an entity is on the tile, and the player is
/// not.
pub open spec fn taken<'a, G: Walkable>(o: &ObstacleOverlay<'a, G>, t: (i32, i32)) -> bool {
    t != o.start && (o.memory.obstacle_at(t, o.now) || o.occupied_tiles@.contains(t))
}

/// One can stand on a tile of the map unless it is taken; what is taken hides what
/// is behind; in an attack the target's own tile does not count as taken.
pub proof fn law_free_ground<'a, G: Walkable>(
    o: &ObstacleOverlay<'a, G>,
    t: (i32, i32),
    target: (i32, i32),
)
    ensures
        o.walkable(t) <==> o.inner.walkable(t) && !taken(o, t),
        o.sight_blocked(t) <==> o.inner.sight_blocked(t) || taken(o, t),
        o.hides(t, target) <==> o.inner.sight_blocked(t) || (t != target && taken(o, t)),
        o.standable_for_attack(t, target) <==> o.inner.walkable(t) && (t == target || !taken(o, t)),
{
}

/// There is something solid at the coordinates: beyond the last, a wall of the
/// map, what cannot be seen through, or a remembered obstacle.
pub open spec fn solid_at<'a, G: Walkable>(o: &ObstacleOverlay<'a, G>, x: int, y: int) -> bool {
    let t = (x as i32, y as i32);
    let inside = i32::MIN <= x <= i32::MAX && i32::MIN <= y <= i32::MAX;
    inside ==> t != o.start && (o.memory.obstacle_at(t, o.now) || !o.inner.walkable(t)
        || o.inner.sight_blocked(t))
}

/// An entity stands at the coordinates, and the player does not.
pub open spec fn body_at<'a, G: Walkable>(o: &ObstacleOverlay<'a, G>, x: int, y: int) -> bool {
    let t = (x as i32, y as i32);
    let inside = i32::MIN <= x <= i32::MAX && i32::MIN <= y <= i32::MAX;
    inside && t != o.start && o.occupied_tiles@.contains(t)
}

/// A step along a row has no room where an entity stands on one side of it and
/// something solid on the other, or where two corners face each other across it
/// and it is no corridor.
pub proof fn law_room_along_row<'a, G: Walkable>(
    o: &ObstacleOverlay<'a, G>,
    from: (i32, i32),
    to: (i32, i32),
)
    requires
        from.1 == to.1,
        to.0 == from.0 + 1 || to.0 == from.0 - 1,
    ensures
        ({
            let y = from.1;
            let bodies_above = body_at(o, from.0 as int, y - 1) || body_at(o, to.0 as int, y - 1);
            let bodies_below = body_at(o, from.0 as int, y + 1) || body_at(o, to.0 as int, y + 1);
            let solid_above = solid_at(o, from.0 as int, y - 1) || solid_at(o, to.0 as int, y - 1);
            let solid_below = solid_at(o, from.0 as int, y + 1) || solid_at(o, to.0 as int, y + 1);
            let corridor = solid_at(o, from.0 as int, y - 1) && solid_at(o, to.0 as int, y - 1)
                && solid_at(o, from.0 as int, y + 1) && solid_at(o, to.0 as int, y + 1);
            let corners = (solid_at(o, from.0 as int, y - 1) && solid_at(o, to.0 as int, y + 1)) || (
            solid_at(o, from.0 as int, y + 1) && solid_at(o, to.0 as int, y - 1));
            &&& o.entity_squeeze(from, to) <==> (bodies_above && solid_below) || (bodies_below
                && solid_above)
            &&& o.corner_squeeze(from, to) <==> corners && !corridor
        }),
{
}

/// The same of a step along a column.
pub proof fn law_room_along_column<'a, G: Walkable>(
    o: &ObstacleOverlay<'a, G>,
    from: (i32, i32),
    to: (i32, i32),
)
    requires
        from.0 == to.0,
        to.1 == from.1 + 1 || to.1 == from.1 - 1,
    ensures
        ({
            let x = from.0;
            let bodies_left = body_at(o, x - 1, from.1 as int) || body_at(o, x - 1, to.1 as int);
            let bodies_right = body_at(o, x + 1, from.1 as int) || body_at(o, x + 1, to.1 as int);
            let solid_left = solid_at(o, x - 1, from.1 as int) || solid_at(o, x - 1, to.1 as int);
            let solid_right = solid_at(o, x + 1, from.1 as int) || solid_at(o, x + 1, to.1 as int);
            let corridor = solid_at(o, x - 1, from.1 as int) && solid_at(o, x - 1, to.1 as int)
                && solid_at(o, x + 1, from.1 as int) && solid_at(o, x + 1, to.1 as int);
            let corners = (solid_at(o, x - 1, from.1 as int) && solid_at(o, x + 1, to.1 as int)) || (
            solid_at(o, x + 1, from.1 as int) && solid_at(o, x - 1, to.1 as int));
            &&& o.entity_squeeze(from, to) <==> (bodies_left && solid_right) || (bodies_right
                && solid_left)
            &&& o.corner_squeeze(from, to) <==> corners && !corridor
        }),
{
}

/// A diagonal has no room where one of the four straight steps around it has none.
pub proof fn law_room_along_diagonal<'a, G: Walkable>(
    o: &ObstacleOverlay<'a, G>,
    from: (i32, i32),
    to: (i32, i32),
)
    requires
        from.0 != to.0 && from.1 != to.1,
    ensures
        ({
            let a = (to.0, from.1);
            let b = (from.0, to.1);
            &&& o.entity_squeeze(from, to) <==> o.entity_squeeze(from, a) || o.entity_squeeze(a, to)
                || o.entity_squeeze(from, b) || o.entity_squeeze(b, to)
            &&& o.corner_squeeze(from, to) <==> o.corner_squeeze(from, a) || o.corner_squeeze(a, to)
                || o.corner_squeeze(from, b) || o.corner_squeeze(b, to)
        }),
{
}

/// A step to a neighbour can be taken where the map allows it, there is room, the
/// tile is free, and for a diagonal so are the two tiles beside it. An attack
/// passes by the same rule, but for the target's own tile.
pub proof fn law_steps<'a, G: Walkable>(
    o: &ObstacleOverlay<'a, G>,
    from: (i32, i32),
    to: (i32, i32),
    target: (i32, i32),
)
    ensures
        ({
            let near = -1 <= to.0 - from.0 <= 1 && -1 <= to.1 - from.1 <= 1;
            let room = !o.entity_squeeze(from, to) && !o.corner_squeeze(from, to);
            let sides = from.0 == to.0 || from.1 == to.1 || (o.walkable((to.0, from.1))
                && o.walkable((from.0, to.1)));
            &&& from == to ==> o.steppable(from, to) == o.walkable(from)
            &&& from == to ==> o.attack_passes(from, to, target) == (o.inner.walkable(from) && (from
                == target || !taken(o, from)))
            &&& from != to ==> (o.steppable(from, to) <==> near && room && sides && o.inner.steppable(
                from,
                to,
            ) && o.walkable(to))
            &&& from != to ==> (o.attack_passes(from, to, target) <==> near && room && sides
                && o.inner.steppable(from, to) && o.inner.walkable(to) && (to == target || !taken(
                o,
                to,
            )))
        }),
{
}

/// One for what holds.
pub open spec fn one_if(b: bool) -> int {
    if b {
        1
    } else {
        0
    }
}

/// What standing by walls costs: eighteen for each straight side, four for each
/// diagonal, twenty-four for each pair of sides that meet, and seventy-two between
/// two walls. Where the player stands it costs nothing.
pub proof fn law_wall_cost<'a, G: Walkable>(o: &ObstacleOverlay<'a, G>, t: (i32, i32))
    ensures
        t == o.start ==> o.wall_penalty(t) == 0,
        t != o.start ==> ({
            let up = solid_at(o, t.0 as int, t.1 - 1);
            let down = solid_at(o, t.0 as int, t.1 + 1);
            let left = solid_at(o, t.0 - 1, t.1 as int);
            let right = solid_at(o, t.0 + 1, t.1 as int);
            let diagonals = one_if(solid_at(o, t.0 - 1, t.1 - 1)) + one_if(
                solid_at(o, t.0 + 1, t.1 - 1),
            ) + one_if(solid_at(o, t.0 - 1, t.1 + 1)) + one_if(solid_at(o, t.0 + 1, t.1 + 1));
            o.wall_penalty(t) == 18 * one_if(up) + 18 * one_if(down) + 18 * one_if(left) + 18
                * one_if(right) + 4 * diagonals + 24 * one_if(up && left) + 24 * one_if(up && right)
                + 24 * one_if(down && left) + 24 * one_if(down && right) + 72 * one_if(
                (up && down) || (left && right),
            )
        }),
{
}

/// What known ground costs: a hundred and sixty for each visit, up to twenty, and
/// four hundred and eighty for where the player came from.
pub proof fn law_visit_cost<'a, G: Walkable>(
    o: &ObstacleOverlay<'a, G>,
    t: (i32, i32),
    map_id: u32,
)
    ensures
        o.explore_map_id is None && o.previous_position != Some(t) ==> o.explore_penalty(t) == 0,
        o.explore_map_id is None && o.previous_position == Some(t) ==> o.explore_penalty(t) == 480,
        o.explore_map_id == Some(map_id) && o.memory.visits(map_id, t) <= 20 ==> o.explore_penalty(t)
            == 160 * o.memory.visits(map_id, t) + 480 * one_if(o.previous_position == Some(t)),
        o.explore_map_id == Some(map_id) && o.memory.visits(map_id, t) > 20 ==> o.explore_penalty(t)
            == 3200 + 480 * one_if(o.previous_position == Some(t)),
{
}

/// A step costs what its end costs, for its walls and for its visits.
pub proof fn law_step_cost<'a, G: Walkable>(
    o: &ObstacleOverlay<'a, G>,
    from: (i32, i32),
    to: (i32, i32),
)
    ensures
        o.penalty(from, to) == o.wall_penalty(to) + o.explore_penalty(to),
{
}

} // verus!
