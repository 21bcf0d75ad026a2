//! From tiles of the world to pixels of the screen.
use crate::client::input_sim::{
    gameplay_click_point_from_offset, gameplay_click_point_from_player_anchor_offset,
};
use vstd::prelude::*;

verus! {

/// Screen pixels to the right per tile along either axis.
pub const ISO_X_PER_TILE: i32 = 32;

/// Screen pixels down per tile along the y axis, and up along the x axis.
pub const ISO_Y_PER_TILE: i32 = 16;

/// The tile on which the player stands, as the game displays it.
#[derive(Debug, Clone, Copy, PartialEq, Eq, Structural)]
pub struct PlayerPosition {
    pub x: i32,
    pub y: i32,
}

/// A point of the client area.
#[derive(Debug, Clone, Copy, PartialEq, Eq, Structural)]
pub struct ClientPoint {
    pub x: i32,
    pub y: i32,
}

/// How a tile maps to the screen.
#[derive(Debug, Clone, Copy, PartialEq, Eq, Structural)]
pub struct TileClickDiagnostic {
    pub dx_tile: i32,
    pub dy_tile: i32,
    pub dx_px: i32,
    pub dy_px: i32,
    pub legacy_center: ClientPoint,
    pub player_anchor: ClientPoint,
}

/// The isometric projection of a difference of tiles.
pub open spec fn project(dx: int, dy: int) -> (int, int) {
    ((dx + dy) * 32, (dy - dx) * 16)
}

/// Tiles so near to the player that the projection of their offset is an
/// `i32`.
pub open spec fn projectable(player: PlayerPosition, x: int, y: int) -> bool {
    let dx = x - player.x;
    let dy = y - player.y;
    &&& i32::MIN <= dx <= i32::MAX
    &&& i32::MIN <= dy <= i32::MAX
    &&& i32::MIN <= project(dx, dy).0 <= i32::MAX
    &&& i32::MIN <= project(dx, dy).1 <= i32::MAX
}

/// The pixel offset of a tile from the player.
pub fn tile_click_offset(player: PlayerPosition, target_x: i32, target_y: i32) -> (r: (i32, i32))
    requires
        projectable(player, target_x as int, target_y as int),
    ensures
        (r.0 as int, r.1 as int) == project(target_x - player.x, target_y - player.y),
{
    let dx: i64 = target_x as i64 - player.x as i64;
    let dy: i64 = target_y as i64 - player.y as i64;
    (((dx + dy) * ISO_X_PER_TILE as i64) as i32, ((dy - dx) * ISO_Y_PER_TILE as i64) as i32)
}

/// The pixel offset to which a walk towards a tile is dragged.
pub fn walk_drag_offset(player: PlayerPosition, target_x: i32, target_y: i32) -> (r: (i32, i32))
    requires
        projectable(player, target_x as int, target_y as int),
    ensures
        (r.0 as int, r.1 as int) == project(target_x - player.x, target_y - player.y),
{
    tile_click_offset(player, target_x, target_y)
}

/// Both click points for a tile: counted from the client's centre, and from the
/// player's place on the screen.
pub fn tile_click_diagnostic(
    client_width: i32,
    client_height: i32,
    player: PlayerPosition,
    target_x: i32,
    target_y: i32,
) -> (r: Option<TileClickDiagnostic>)
    requires
        projectable(player, target_x as int, target_y as int),
    ensures
        r is None <==> client_width <= 0 || client_height <= 0,
        r matches Some(d) ==> {
            let w = client_width as int;
            let h = client_height as int;
            let off = project(target_x - player.x, target_y - player.y);
            let anchor = crate::client::input_sim::anchor(w, h);
            &&& d.dx_tile == target_x - player.x
            &&& d.dy_tile == target_y - player.y
            &&& (d.dx_px as int, d.dy_px as int) == off
            &&& (d.legacy_center.x as int, d.legacy_center.y as int)
                == crate::client::input_sim::click_point(w, h, w / 2, h / 2, off.0, off.1)
            &&& (d.player_anchor.x as int, d.player_anchor.y as int)
                == crate::client::input_sim::click_point(w, h, anchor.0, anchor.1, off.0, off.1)
        },
{
    let off: (i32, i32) = tile_click_offset(player, target_x, target_y);
    let center = match gameplay_click_point_from_offset(client_width, client_height, off.0, off.1) {
        Some(p) => p,
        None => {
            return None;
        },
    };
    let anchored = match gameplay_click_point_from_player_anchor_offset(
        client_width,
        client_height,
        off.0,
        off.1,
    ) {
        Some(p) => p,
        None => {
            return None;
        },
    };
    Some(
        TileClickDiagnostic {
            dx_tile: (target_x as i64 - player.x as i64) as i32,
            dy_tile: (target_y as i64 - player.y as i64) as i32,
            dx_px: off.0,
            dy_px: off.1,
            legacy_center: ClientPoint { x: center.0, y: center.1 },
            player_anchor: ClientPoint { x: anchored.0, y: anchored.1 },
        },
    )
}

/// The projection loses nothing: the tile offset can be read back from the
/// pixel offset.
pub proof fn law_projection_invertible(dx: int, dy: int)
    ensures
        ({
            let p = project(dx, dy);
            &&& dx == (p.0 / 32 - p.1 / 16) / 2
            &&& dy == (p.0 / 32 + p.1 / 16) / 2
        }),
{
}

/// The projection is additive: a walk in two legs lands where one leg would.
pub proof fn law_projection_additive(ax: int, ay: int, bx: int, by: int)
    ensures
        project(ax + bx, ay + by).0 == project(ax, ay).0 + project(bx, by).0,
        project(ax + bx, ay + by).1 == project(ax, ay).1 + project(bx, by).1,
{
}

} // verus!
