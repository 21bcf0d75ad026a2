//! The walkable tiles of a map, and which of them hang together.
use crate::action::walk::axis_distance;
use crate::decide::pathfind::{standard_step, Walkable};
use vstd::prelude::*;

verus! {

/// Whether `tiles` lists `tile`.
pub fn tile_listed(tiles: &Vec<(i32, i32)>, tile: (i32, i32)) -> (r: bool)
    ensures
        r == tiles@.contains(tile),
{
    let mut i: usize = 0;
    while i < tiles.len()
        invariant
            i <= tiles@.len(),
            forall|j: int| 0 <= j < i ==> tiles@[j] != tile,
        decreases tiles@.len() - i,
    {
        if tiles[i].0 == tile.0 && tiles[i].1 == tile.1 {
            assert(tiles@[i as int] == tile);
            return true;
        }
        i = i + 1;
    }
    false
}

/// Where one can stand, what hides what, and which steps a wall closes.
#[derive(Debug, Clone)]
pub struct NavGrid {
    /// The tiles on which one can stand.
    pub tiles: Vec<(i32, i32)>,
    /// Those of them that hide what is behind.
    pub opaque: Vec<(i32, i32)>,
    /// Tiles on which one cannot stand but over which one can see.
    pub see_through: Vec<(i32, i32)>,
    /// Steps that are closed though one can stand on both ends, each as the
    /// tile it starts from and the tile it leads to.
    pub closed_edges: Vec<((i32, i32), (i32, i32))>,
}

impl NavGrid {
    fn is_closed(&self, from: (i32, i32), to: (i32, i32)) -> (r: bool)
        ensures
            r == self.closed_edges@.contains((from, to)),
    {
        let mut i: usize = 0;
        while i < self.closed_edges.len()
            invariant
                i <= self.closed_edges@.len(),
                forall|j: int| 0 <= j < i ==> self.closed_edges@[j] != (from, to),
            decreases self.closed_edges@.len() - i,
        {
            let edge: ((i32, i32), (i32, i32)) = self.closed_edges[i];
            if edge.0.0 == from.0 && edge.0.1 == from.1 && edge.1.0 == to.0 && edge.1.1 == to.1 {
                assert(self.closed_edges@[i as int] == (from, to));
                return true;
            }
            i = i + 1;
        }
        false
    }
}

impl Walkable for NavGrid {
    open spec fn walkable(&self, tile: (i32, i32)) -> bool {
        self.tiles@.contains(tile)
    }

    open spec fn sight_blocked(&self, tile: (i32, i32)) -> bool {
        if self.tiles@.contains(tile) {
            self.opaque@.contains(tile)
        } else {
            !self.see_through@.contains(tile)
        }
    }

    open spec fn steppable(&self, from: (i32, i32), to: (i32, i32)) -> bool {
        &&& standard_step(|t: (i32, i32)| self.tiles@.contains(t), from, to)
        &&& !self.closed_edges@.contains((from, to))
    }

    open spec fn penalty(&self, from: (i32, i32), to: (i32, i32)) -> u32 {
        0
    }

    fn is_walkable(&self, tile_x: i32, tile_y: i32) -> (r: bool) {
        tile_listed(&self.tiles, (tile_x, tile_y))
    }

    fn blocks_sight(&self, tile_x: i32, tile_y: i32) -> (r: bool) {
        let tile: (i32, i32) = (tile_x, tile_y);
        if tile_listed(&self.tiles, tile) {
            tile_listed(&self.opaque, tile)
        } else {
            !tile_listed(&self.see_through, tile)
        }
    }

    fn can_step(&self, from: (i32, i32), to: (i32, i32)) -> (r: bool) {
        if self.is_closed(from, to) {
            return false;
        }
        if to.0 == from.0 && to.1 == from.1 {
            return tile_listed(&self.tiles, from);
        }
        if axis_distance(to.0, from.0) > 1 || axis_distance(to.1, from.1) > 1 || !tile_listed(
            &self.tiles,
            to,
        ) {
            return false;
        }
        if to.0 != from.0 && to.1 != from.1 {
            tile_listed(&self.tiles, (to.0, from.1)) && tile_listed(&self.tiles, (from.0, to.1))
        } else {
            true
        }
    }

    fn movement_penalty(&self, from: (i32, i32), to: (i32, i32)) -> (r: u32) {
        0
    }
}

/// The connected regions of a map.
#[derive(Debug, Clone)]
pub struct NavProfile {
    pub components: Vec<Vec<(i32, i32)>>,
}

impl NavProfile {
    /// `id` is the first region that lists `tile`.
    pub open spec fn is_component_of(&self, tile: (i32, i32), id: int) -> bool {
        &&& 0 <= id < self.components@.len()
        &&& self.components@[id]@.contains(tile)
        &&& forall|j: int| 0 <= j < id ==> !(#[trigger] self.components@[j])@.contains(tile)
    }

    /// Some region lists `tile`.
    pub open spec fn lists(&self, tile: (i32, i32)) -> bool {
        exists|j: int|
            0 <= j < self.components@.len() && (#[trigger] self.components@[j])@.contains(tile)
    }

    /// The region of a tile.
    pub fn component_id(&self, tile: (i32, i32)) -> (r: Option<usize>)
        ensures
            match r {
                Some(id) => self.is_component_of(tile, id as int),
                None => !self.lists(tile),
            },
    {
        let mut i: usize = 0;
        while i < self.components.len()
            invariant
                i <= self.components@.len(),
                forall|j: int| 0 <= j < i ==> !(#[trigger] self.components@[j])@.contains(tile),
            decreases self.components@.len() - i,
        {
            if tile_listed(&self.components[i], tile) {
                return Some(i);
            }
            i = i + 1;
        }
        None
    }

    /// The tiles of a region.
    pub fn component_tiles(&self, id: usize) -> (r: Option<&Vec<(i32, i32)>>)
        ensures
            match r {
                Some(tiles) => id < self.components@.len() && *tiles == self.components@[id as int],
                None => id >= self.components@.len(),
            },
    {
        if id < self.components.len() {
            Some(&self.components[id])
        } else {
            None
        }
    }

    /// Whether two tiles lie in the same region.
    pub fn same_component(&self, a: (i32, i32), b: (i32, i32)) -> (r: bool)
        ensures
            r <==> exists|id: int| self.is_component_of(a, id) && self.is_component_of(b, id),
    {
        match (self.component_id(a), self.component_id(b)) {
            (Some(x), Some(y)) => {
                proof {
                    if x == y {
                        assert(self.is_component_of(a, x as int) && self.is_component_of(
                            b,
                            x as int,
                        ));
                    } else {
                        assert forall|id: int|
                            !(self.is_component_of(a, id) && self.is_component_of(b, id)) by {
                            if self.is_component_of(a, id) {
                                assert(id == x);
                                if self.is_component_of(b, id) {
                                    assert(id == y);
                                }
                            }
                        }
                    }
                }
                x == y
            },
            _ => {
                proof {
                    assert forall|id: int|
                        !(self.is_component_of(a, id) && self.is_component_of(b, id)) by {
                        if self.is_component_of(a, id) && self.is_component_of(b, id) {
                            assert(self.components@[id]@.contains(a));
                            assert(self.components@[id]@.contains(b));
                        }
                    }
                }
                false
            },
        }
    }
}

/// A loaded map: where one can stand, and its regions.
#[derive(Debug, Clone)]
pub struct NavMap {
    pub map_id: u32,
    pub nav: NavGrid,
    pub profile: NavProfile,
}

} // verus!
