//! A map with what is in the way right now: remembered obstacles, and entities.
use crate::action::walk::{abs_int, axis_distance};
use crate::decide::pathfind::{walk_alike, Walkable};
use crate::hunt4::memory::TacticalMemory;
use crate::minimap::tile_listed;
use crate::time::Instant;
use vstd::prelude::*;

verus! {

pub const WALL_ADJACENT_STEP_PENALTY: u32 = 18;

pub const WALL_DIAGONAL_STEP_PENALTY: u32 = 4;

pub const WALL_CORNER_STEP_PENALTY: u32 = 24;

pub const WALL_TUNNEL_STEP_PENALTY: u32 = 72;

pub const EXPLORE_VISITED_TILE_PENALTY: u32 = 160;

pub const EXPLORE_BACKTRACK_TILE_PENALTY: u32 = 480;

/// Visits beyond this many make a tile no more expensive.
pub const VISIT_PENALTY_CAP: u16 = 20;

/// A grid with what is in the way right now.
pub struct ObstacleOverlay<'a, G> {
    pub inner: &'a G,
    pub memory: &'a TacticalMemory,
    /// Tiles on which an entity stands.
    pub occupied_tiles: &'a Vec<(i32, i32)>,
    pub now: Instant,
    /// The player's tile, which is never in the way.
    pub start: (i32, i32),
    /// The map whose visits make tiles more expensive.
    pub explore_map_id: Option<u32>,
    /// Where the player came from, which makes it more expensive.
    pub previous_position: Option<(i32, i32)>,
}

/// The tile some way from another. There is none beyond the last coordinate.
pub open spec fn shifted(t: (i32, i32), dx: int, dy: int) -> Option<(i32, i32)> {
    let x = t.0 + dx;
    let y = t.1 + dy;
    if i32::MIN <= x <= i32::MAX && i32::MIN <= y <= i32::MAX {
        Some((x as i32, y as i32))
    } else {
        None
    }
}

/// The tile some way from another, where there is one.
pub fn shift(t: (i32, i32), dx: i32, dy: i32) -> (r: Option<(i32, i32)>)
    ensures
        r == shifted(t, dx as int, dy as int),
{
    match (t.0.checked_add(dx), t.1.checked_add(dy)) {
        (Some(x), Some(y)) => Some((x, y)),
        _ => None,
    }
}

pub fn same_tile(a: (i32, i32), b: (i32, i32)) -> (r: bool)
    ensures
        r == (a == b),
{
    a.0 == b.0 && a.1 == b.1
}

/// The number of conditions that hold.
pub open spec fn count4(a: bool, b: bool, c: bool, d: bool) -> int {
    (if a { 1int } else { 0int }) + (if b { 1int } else { 0int }) + (if c { 1int } else { 0int }) + (
    if d { 1int } else { 0int })
}

fn count_of(a: bool, b: bool, c: bool, d: bool) -> (r: u32)
    ensures
        r == count4(a, b, c, d),
        r <= 4,
{
    let mut n: u32 = 0;
    if a {
        n = n + 1;
    }
    if b {
        n = n + 1;
    }
    if c {
        n = n + 1;
    }
    if d {
        n = n + 1;
    }
    n
}

impl<'a, G: Walkable> ObstacleOverlay<'a, G> {
    /// A remembered obstacle or an entity is in the way.
    pub open spec fn runtime_blocked(&self, tile: (i32, i32)) -> bool {
        tile != self.start && (self.memory.obstacle_at(tile, self.now)
            || self.occupied_tiles@.contains(tile))
    }

    /// An entity is in the way.
    pub open spec fn entity_at(&self, tile: (i32, i32)) -> bool {
        tile != self.start && self.occupied_tiles@.contains(tile)
    }

    /// A wall or a remembered obstacle is in the way.
    pub open spec fn solid(&self, tile: (i32, i32)) -> bool {
        tile != self.start && (self.memory.obstacle_at(tile, self.now) || !self.inner.walkable(tile)
            || self.inner.sight_blocked(tile))
    }

    /// The same of a tile nearby; beyond the last coordinate there is a wall.
    pub open spec fn solid_near(&self, tile: Option<(i32, i32)>) -> bool {
        tile matches Some(t) ==> self.solid(t)
    }

    /// An entity is in the way on a tile nearby.
    pub open spec fn entity_near(&self, tile: Option<(i32, i32)>) -> bool {
        tile matches Some(t) && self.entity_at(t)
    }

    /// One can stand on the tile now.
    pub open spec fn standable(&self, tile: (i32, i32)) -> bool {
        !self.runtime_blocked(tile) && self.inner.walkable(tile)
    }

    /// A straight step between an entity on one side and a wall on the other.
    pub open spec fn straight_entity_squeeze(&self, from: (i32, i32), to: (i32, i32)) -> bool {
        let dx = to.0 - from.0;
        let dy = to.1 - from.1;
        let a0 = shifted(from, -dy, dx);
        let a1 = shifted(to, -dy, dx);
        let b0 = shifted(from, dy, -dx);
        let b1 = shifted(to, dy, -dx);
        &&& abs_int(dx) + abs_int(dy) == 1
        &&& ((self.entity_near(a0) || self.entity_near(a1)) && (self.solid_near(b0) || self.solid_near(b1))) || ((
        self.entity_near(b0) || self.entity_near(b1)) && (self.solid_near(a0) || self.solid_near(a1)))
    }

    /// A straight step between two wall corners that face each other across it,
    /// and not along a corridor.
    pub open spec fn straight_corner_squeeze(&self, from: (i32, i32), to: (i32, i32)) -> bool {
        let dx = to.0 - from.0;
        let dy = to.1 - from.1;
        let a0 = self.solid_near(shifted(from, -dy, dx));
        let a1 = self.solid_near(shifted(to, -dy, dx));
        let b0 = self.solid_near(shifted(from, dy, -dx));
        let b1 = self.solid_near(shifted(to, dy, -dx));
        &&& abs_int(dx) + abs_int(dy) == 1
        &&& !(a0 && a1 && b0 && b1)
        &&& (a0 && b1) || (b0 && a1)
    }

    /// A step, straight or diagonal, between an entity and a wall. A diagonal is
    /// judged by the four straight steps around it.
    pub open spec fn entity_squeeze(&self, from: (i32, i32), to: (i32, i32)) -> bool {
        let sx = (to.0, from.1);
        let sy = (from.0, to.1);
        if to.0 == from.0 || to.1 == from.1 {
            self.straight_entity_squeeze(from, to)
        } else {
            ||| self.straight_entity_squeeze(from, sx)
            ||| self.straight_entity_squeeze(sx, to)
            ||| self.straight_entity_squeeze(from, sy)
            ||| self.straight_entity_squeeze(sy, to)
        }
    }

    /// The same for wall corners.
    pub open spec fn corner_squeeze(&self, from: (i32, i32), to: (i32, i32)) -> bool {
        let sx = (to.0, from.1);
        let sy = (from.0, to.1);
        if to.0 == from.0 || to.1 == from.1 {
            self.straight_corner_squeeze(from, to)
        } else {
            ||| self.straight_corner_squeeze(from, sx)
            ||| self.straight_corner_squeeze(sx, to)
            ||| self.straight_corner_squeeze(from, sy)
            ||| self.straight_corner_squeeze(sy, to)
        }
    }

    /// The step leads between things that leave no room.
    pub open spec fn squeezed(&self, from: (i32, i32), to: (i32, i32)) -> bool {
        self.entity_squeeze(from, to) || self.corner_squeeze(from, to)
    }

    /// What standing near walls costs, by the eight tiles around.
    pub open spec fn wall_penalty(&self, tile: (i32, i32)) -> int {
        let n = self.solid_near(shifted(tile, 0, -1));
        let e = self.solid_near(shifted(tile, 1, 0));
        let s = self.solid_near(shifted(tile, 0, 1));
        let w = self.solid_near(shifted(tile, -1, 0));
        let ne = self.solid_near(shifted(tile, 1, -1));
        let se = self.solid_near(shifted(tile, 1, 1));
        let sw = self.solid_near(shifted(tile, -1, 1));
        let nw = self.solid_near(shifted(tile, -1, -1));
        if tile == self.start {
            0
        } else {
            count4(n, e, s, w) * WALL_ADJACENT_STEP_PENALTY + count4(ne, se, sw, nw)
                * WALL_DIAGONAL_STEP_PENALTY + count4(n && e, e && s, s && w, w && n)
                * WALL_CORNER_STEP_PENALTY + (if (n && s) || (e && w) {
                WALL_TUNNEL_STEP_PENALTY as int
            } else {
                0
            })
        }
    }

    /// What treading known ground costs.
    pub open spec fn explore_penalty(&self, tile: (i32, i32)) -> int {
        (match self.explore_map_id {
            Some(map_id) => {
                let v = self.memory.visits(map_id, tile);
                (if v <= VISIT_PENALTY_CAP {
                    v as int
                } else {
                    VISIT_PENALTY_CAP as int
                }) * EXPLORE_VISITED_TILE_PENALTY
            },
            None => 0,
        }) + (if self.previous_position == Some(tile) {
            EXPLORE_BACKTRACK_TILE_PENALTY as int
        } else {
            0
        })
    }

    /// The tile can be stood on now, or is the target itself.
    pub open spec fn standable_for_attack(&self, tile: (i32, i32), target: (i32, i32)) -> bool {
        (tile == target || !self.runtime_blocked(tile)) && self.inner.walkable(tile)
    }

    /// The tile hides the target.
    pub open spec fn hides(&self, tile: (i32, i32), target: (i32, i32)) -> bool {
        self.inner.sight_blocked(tile) || (tile != target && self.runtime_blocked(tile))
    }

    /// An attack passes from one tile to a neighbouring one.
    pub open spec fn attack_passes(
        &self,
        from: (i32, i32),
        to: (i32, i32),
        target: (i32, i32),
    ) -> bool {
        let dx = to.0 - from.0;
        let dy = to.1 - from.1;
        if dx == 0 && dy == 0 {
            self.standable_for_attack(from, target)
        } else {
            &&& -1 <= dx <= 1
            &&& -1 <= dy <= 1
            &&& self.standable_for_attack(to, target)
            &&& self.inner.steppable(from, to)
            &&& !self.squeezed(from, to)
            &&& dx != 0 && dy != 0 ==> self.standable((to.0, from.1)) && self.standable(
                (from.0, to.1),
            )
        }
    }

    fn is_runtime_blocked(&self, tile: (i32, i32)) -> (r: bool)
        ensures
            r == self.runtime_blocked(tile),
    {
        !same_tile(tile, self.start) && (self.memory.is_obstacle(tile, self.now) || tile_listed(
            self.occupied_tiles,
            tile,
        ))
    }

    fn is_entity_clearance_blocker(&self, tile: (i32, i32)) -> (r: bool)
        ensures
            r == self.entity_at(tile),
    {
        !same_tile(tile, self.start) && tile_listed(self.occupied_tiles, tile)
    }

    fn is_solid_clearance_blocker(&self, tile: (i32, i32)) -> (r: bool)
        ensures
            r == self.solid(tile),
    {
        !same_tile(tile, self.start) && (self.memory.is_obstacle(tile, self.now)
            || !self.inner.is_walkable(tile.0, tile.1) || self.inner.blocks_sight(tile.0, tile.1))
    }

    fn is_solid_near(&self, tile: Option<(i32, i32)>) -> (r: bool)
        ensures
            r == self.solid_near(tile),
    {
        match tile {
            Some(t) => self.is_solid_clearance_blocker(t),
            None => true,
        }
    }

    fn is_entity_near(&self, tile: Option<(i32, i32)>) -> (r: bool)
        ensures
            r == self.entity_near(tile),
    {
        match tile {
            Some(t) => self.is_entity_clearance_blocker(t),
            None => false,
        }
    }

    fn is_standable(&self, tile: (i32, i32)) -> (r: bool)
        ensures
            r == self.standable(tile),
    {
        !self.is_runtime_blocked(tile) && self.inner.is_walkable(tile.0, tile.1)
    }

    fn cardinal_step_has_entity_wall_squeeze(&self, from: (i32, i32), to: (i32, i32)) -> (r: bool)
        ensures
            r == self.straight_entity_squeeze(from, to),
    {
        let dist: u64 = axis_distance(from.0, to.0) as u64 + axis_distance(from.1, to.1) as u64;
        if dist != 1 {
            return false;
        }
        let dx: i32 = to.0 - from.0;
        let dy: i32 = to.1 - from.1;
        let a0: Option<(i32, i32)> = shift(from, -dy, dx);
        let a1: Option<(i32, i32)> = shift(to, -dy, dx);
        let b0: Option<(i32, i32)> = shift(from, dy, -dx);
        let b1: Option<(i32, i32)> = shift(to, dy, -dx);
        let entity_a: bool = self.is_entity_near(a0)
            || self.is_entity_near(a1);
        let entity_b: bool = self.is_entity_near(b0)
            || self.is_entity_near(b1);
        (entity_a && (self.is_solid_near(b0) || self.is_solid_near(b1)))
            || (entity_b && (self.is_solid_near(a0) || self.is_solid_near(
            a1,
        )))
    }

    fn cardinal_step_has_diagonal_wall_corner_squeeze(&self, from: (i32, i32), to: (i32, i32)) -> (r:
        bool)
        ensures
            r == self.straight_corner_squeeze(from, to),
    {
        let dist: u64 = axis_distance(from.0, to.0) as u64 + axis_distance(from.1, to.1) as u64;
        if dist != 1 {
            return false;
        }
        let dx: i32 = to.0 - from.0;
        let dy: i32 = to.1 - from.1;
        let a0: bool = self.is_solid_near(shift(from, -dy, dx));
        let a1: bool = self.is_solid_near(shift(to, -dy, dx));
        let b0: bool = self.is_solid_near(shift(from, dy, -dx));
        let b1: bool = self.is_solid_near(shift(to, dy, -dx));
        if a0 && a1 && b0 && b1 {
            return false;
        }
        (a0 && b1) || (b0 && a1)
    }

    fn step_has_entity_wall_squeeze(&self, from: (i32, i32), to: (i32, i32)) -> (r: bool)
        ensures
            r == self.entity_squeeze(from, to),
    {
        if to.0 == from.0 || to.1 == from.1 {
            return self.cardinal_step_has_entity_wall_squeeze(from, to);
        }
        let sx: (i32, i32) = (to.0, from.1);
        let sy: (i32, i32) = (from.0, to.1);
        self.cardinal_step_has_entity_wall_squeeze(from, sx)
            || self.cardinal_step_has_entity_wall_squeeze(sx, to)
            || self.cardinal_step_has_entity_wall_squeeze(from, sy)
            || self.cardinal_step_has_entity_wall_squeeze(sy, to)
    }

    fn step_has_diagonal_wall_corner_squeeze(&self, from: (i32, i32), to: (i32, i32)) -> (r: bool)
        ensures
            r == self.corner_squeeze(from, to),
    {
        if to.0 == from.0 || to.1 == from.1 {
            return self.cardinal_step_has_diagonal_wall_corner_squeeze(from, to);
        }
        let sx: (i32, i32) = (to.0, from.1);
        let sy: (i32, i32) = (from.0, to.1);
        self.cardinal_step_has_diagonal_wall_corner_squeeze(from, sx)
            || self.cardinal_step_has_diagonal_wall_corner_squeeze(sx, to)
            || self.cardinal_step_has_diagonal_wall_corner_squeeze(from, sy)
            || self.cardinal_step_has_diagonal_wall_corner_squeeze(sy, to)
    }

    fn wall_clearance_penalty(&self, tile: (i32, i32)) -> (r: u32)
        ensures
            r == self.wall_penalty(tile),
            r <= 256,
    {
        if same_tile(tile, self.start) {
            return 0;
        }
        let n: bool = self.is_solid_near(shift(tile, 0, -1));
        let e: bool = self.is_solid_near(shift(tile, 1, 0));
        let s: bool = self.is_solid_near(shift(tile, 0, 1));
        let w: bool = self.is_solid_near(shift(tile, -1, 0));
        let ne: bool = self.is_solid_near(shift(tile, 1, -1));
        let se: bool = self.is_solid_near(shift(tile, 1, 1));
        let sw: bool = self.is_solid_near(shift(tile, -1, 1));
        let nw: bool = self.is_solid_near(shift(tile, -1, -1));
        let cardinal_count: u32 = count_of(n, e, s, w);
        let diagonal_count: u32 = count_of(ne, se, sw, nw);
        let corner_count: u32 = count_of(n && e, e && s, s && w, w && n);
        let mut penalty: u32 = cardinal_count * WALL_ADJACENT_STEP_PENALTY + diagonal_count
            * WALL_DIAGONAL_STEP_PENALTY + corner_count * WALL_CORNER_STEP_PENALTY;
        if (n && s) || (e && w) {
            penalty = penalty + WALL_TUNNEL_STEP_PENALTY;
        }
        penalty
    }

    fn explore_memory_penalty(&self, tile: (i32, i32)) -> (r: u32)
        ensures
            r == self.explore_penalty(tile),
            r <= 3680,
    {
        let visit_penalty: u32 = match self.explore_map_id {
            Some(map_id) => {
                let v: u16 = self.memory.visit_count(map_id, tile);
                let capped: u16 = if v <= VISIT_PENALTY_CAP {
                    v
                } else {
                    VISIT_PENALTY_CAP
                };
                capped as u32 * EXPLORE_VISITED_TILE_PENALTY
            },
            None => 0,
        };
        let came_from: bool = match self.previous_position {
            Some(p) => same_tile(p, tile),
            None => false,
        };
        if came_from {
            visit_penalty + EXPLORE_BACKTRACK_TILE_PENALTY
        } else {
            visit_penalty
        }
    }

    /// Whether the tile hides the target.
    pub fn blocks_sight_for_attack(&self, tile: (i32, i32), target: (i32, i32)) -> (r: bool)
        ensures
            r == self.hides(tile, target),
    {
        self.inner.blocks_sight(tile.0, tile.1) || (!same_tile(tile, target)
            && self.is_runtime_blocked(tile))
    }

    fn is_walkable_for_attack_target(&self, tile: (i32, i32), target: (i32, i32)) -> (r: bool)
        ensures
            r == self.standable_for_attack(tile, target),
    {
        (same_tile(tile, target) || !self.is_runtime_blocked(tile)) && self.inner.is_walkable(
            tile.0,
            tile.1,
        )
    }

    /// Whether an attack passes from one tile to a neighbouring one.
    pub fn can_step_for_attack(&self, from: (i32, i32), to: (i32, i32), target: (i32, i32)) -> (r:
        bool)
        ensures
            r == self.attack_passes(from, to, target),
    {
        if same_tile(from, to) {
            return self.is_walkable_for_attack_target(from, target);
        }
        if axis_distance(to.0, from.0) > 1 || axis_distance(to.1, from.1) > 1
            || !self.is_walkable_for_attack_target(to, target) {
            return false;
        }
        if !self.inner.can_step(from, to) {
            return false;
        }
        if self.step_has_entity_wall_squeeze(from, to) || self.step_has_diagonal_wall_corner_squeeze(
            from,
            to,
        ) {
            return false;
        }
        if to.0 != from.0 && to.1 != from.1 {
            return self.is_standable((to.0, from.1)) && self.is_standable((from.0, to.1));
        }
        true
    }
}

impl<'a, G: Walkable> Walkable for ObstacleOverlay<'a, G> {
    open spec fn walkable(&self, tile: (i32, i32)) -> bool {
        self.standable(tile)
    }

    open spec fn sight_blocked(&self, tile: (i32, i32)) -> bool {
        self.runtime_blocked(tile) || self.inner.sight_blocked(tile)
    }

    open spec fn steppable(&self, from: (i32, i32), to: (i32, i32)) -> bool {
        let dx = to.0 - from.0;
        let dy = to.1 - from.1;
        if dx == 0 && dy == 0 {
            self.standable(from)
        } else {
            &&& -1 <= dx <= 1
            &&& -1 <= dy <= 1
            &&& self.standable(to)
            &&& self.inner.steppable(from, to)
            &&& !self.squeezed(from, to)
            &&& dx != 0 && dy != 0 ==> self.standable((to.0, from.1)) && self.standable(
                (from.0, to.1),
            )
        }
    }

    open spec fn penalty(&self, from: (i32, i32), to: (i32, i32)) -> u32 {
        (self.wall_penalty(to) + self.explore_penalty(to)) as u32
    }

    fn is_walkable(&self, tile_x: i32, tile_y: i32) -> (r: bool) {
        self.is_standable((tile_x, tile_y))
    }

    fn blocks_sight(&self, tile_x: i32, tile_y: i32) -> (r: bool) {
        self.is_runtime_blocked((tile_x, tile_y)) || self.inner.blocks_sight(tile_x, tile_y)
    }

    fn can_step(&self, from: (i32, i32), to: (i32, i32)) -> (r: bool) {
        if same_tile(from, to) {
            return self.is_standable(from);
        }
        if axis_distance(to.0, from.0) > 1 || axis_distance(to.1, from.1) > 1 || !self.is_standable(
            to,
        ) {
            return false;
        }
        if !self.inner.can_step(from, to) {
            return false;
        }
        if self.step_has_entity_wall_squeeze(from, to) || self.step_has_diagonal_wall_corner_squeeze(
            from,
            to,
        ) {
            return false;
        }
        if to.0 != from.0 && to.1 != from.1 {
            return self.is_standable((to.0, from.1)) && self.is_standable((from.0, to.1));
        }
        true
    }

    fn movement_penalty(&self, from: (i32, i32), to: (i32, i32)) -> (r: u32) {
        self.wall_clearance_penalty(to) + self.explore_memory_penalty(to)
    }
}

/// No walk over the overlay enters a tile with a remembered obstacle or an
/// entity, or steps where there is no room.
pub proof fn law_overlay_steps_are_clear<'a, G: Walkable>(
    grid: &ObstacleOverlay<'a, G>,
    from: (i32, i32),
    to: (i32, i32),
)
    requires
        from != to,
        grid.steppable(from, to),
    ensures
        to != grid.start ==> !grid.memory.obstacle_at(to, grid.now),
        to != grid.start ==> !grid.occupied_tiles@.contains(to),
        grid.inner.walkable(to),
        grid.inner.steppable(from, to),
        !grid.entity_squeeze(from, to),
        !grid.corner_squeeze(from, to),
{
}

/// Two overlays of the same grid with the same obstacles are walked alike,
/// however their occupied tiles are listed.
pub proof fn law_same_obstacles_walk_alike<'a, 'b, G: Walkable>(
    a: &ObstacleOverlay<'a, G>,
    b: &ObstacleOverlay<'b, G>,
)
    requires
        *a.inner == *b.inner,
        *a.memory == *b.memory,
        a.now == b.now,
        a.start == b.start,
        a.explore_map_id == b.explore_map_id,
        a.previous_position == b.previous_position,
        forall|t: (i32, i32)| #[trigger]
            a.occupied_tiles@.contains(t) <==> b.occupied_tiles@.contains(t),
    ensures
        walk_alike(a, b),
{
    assert forall|t: (i32, i32)| #[trigger] a.entity_at(t) == b.entity_at(t) by {}
    assert forall|t: (i32, i32)| #[trigger] a.solid(t) == b.solid(t) by {}
    assert forall|t: (i32, i32)| #[trigger] a.standable(t) == b.standable(t) by {}
    assert forall|t: Option<(i32, i32)>| #[trigger] a.entity_near(t) == b.entity_near(t) by {}
    assert forall|t: Option<(i32, i32)>| #[trigger] a.solid_near(t) == b.solid_near(t) by {}
    assert forall|from: (i32, i32), to: (i32, i32)| #[trigger]
        a.straight_entity_squeeze(from, to) == b.straight_entity_squeeze(from, to) by {}
    assert forall|from: (i32, i32), to: (i32, i32)| #[trigger]
        a.straight_corner_squeeze(from, to) == b.straight_corner_squeeze(from, to) by {}
    assert forall|from: (i32, i32), to: (i32, i32)| #[trigger]
        a.squeezed(from, to) == b.squeezed(from, to) by {}
    assert forall|t: (i32, i32)| #[trigger] a.wall_penalty(t) == b.wall_penalty(t) by {}
}

} // verus!
