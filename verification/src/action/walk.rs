//! Walking: headings, distances, and the driver that carries a step out.
use crate::action::screen_target::{project, projectable, walk_drag_offset, PlayerPosition};
use crate::client::input_sim::MouseHold;
use crate::text::{push_signed, same_text, signed_decimal};
use crate::time::{elapsed, ms_nanos, Instant};
use vstd::prelude::*;

verus! {

/// How a step is carried out.
#[derive(Debug, Clone, Copy, PartialEq, Eq, Structural)]
pub enum WalkDriver {
    PostMessage,
}

impl Default for WalkDriver {
    fn default() -> (r: Self)
        ensures
            r == WalkDriver::PostMessage,
    {
        WalkDriver::PostMessage
    }
}

/// The name under which every driver is stored.
pub open spec fn driver_name() -> Seq<char> {
    "post_message"@
}

/// Names of drivers that no longer exist; they are read as the present one.
pub open spec fn is_retired_name(name: Seq<char>) -> bool {
    ||| name == "client_click"@
    ||| name == "memory_click"@
    ||| name == "internal_walk"@
    ||| name == "remote_internal_walk"@
    ||| name == "move_packet"@
}

/// The driver that a stored name stands for, if any.
pub open spec fn driver_of(name: Seq<char>) -> Option<WalkDriver> {
    if name == driver_name() || is_retired_name(name) {
        Some(WalkDriver::PostMessage)
    } else {
        None
    }
}

impl WalkDriver {
    /// The name under which the driver is stored.
    pub fn as_str(&self) -> (r: &'static str)
        ensures
            r@ == driver_name(),
    {
        match self {
            WalkDriver::PostMessage => "post_message",
        }
    }

    /// The driver that a stored name stands for, if any.
    pub fn from_name(name: &str) -> (r: Option<WalkDriver>)
        ensures
            r == driver_of(name@),
    {
        if same_text(name, "post_message") || same_text(name, "client_click") || same_text(
            name,
            "memory_click",
        ) || same_text(name, "internal_walk") || same_text(name, "remote_internal_walk") || same_text(
            name,
            "move_packet",
        ) {
            Some(WalkDriver::PostMessage)
        } else {
            None
        }
    }
}

/// Every driver is read back from the name under which it is stored.
pub proof fn law_driver_name_round_trip(driver: WalkDriver)
    ensures
        driver_of(driver_name()) == Some(driver),
{
}

/// A tile to walk to.
#[derive(Debug, Clone, Copy, PartialEq, Eq, Structural)]
pub struct WalkTarget {
    pub x: i32,
    pub y: i32,
}

/// Why a step was refused.
#[derive(Debug, Clone, Copy, PartialEq, Eq, Structural)]
pub enum WalkError {
    /// The player already stands on the target.
    AlreadyThere,
}

pub open spec fn sign(x: int) -> int {
    if x > 0 {
        1
    } else if x < 0 {
        -1
    } else {
        0
    }
}

/// The heading of a direction: 0 is north, and then clockwise to 7, north-west.
/// The y axis points south.
pub open spec fn heading_of(sx: int, sy: int) -> Option<u8> {
    if sx == 0 && sy == -1 {
        Some(0u8)
    } else if sx == 1 && sy == -1 {
        Some(1u8)
    } else if sx == 1 && sy == 0 {
        Some(2u8)
    } else if sx == 1 && sy == 1 {
        Some(3u8)
    } else if sx == 0 && sy == 1 {
        Some(4u8)
    } else if sx == -1 && sy == 1 {
        Some(5u8)
    } else if sx == -1 && sy == 0 {
        Some(6u8)
    } else if sx == -1 && sy == -1 {
        Some(7u8)
    } else {
        None
    }
}

/// The unit step of a heading.
pub open spec fn heading_step(heading: u8) -> (int, int) {
    match heading {
        0 => (0, -1),
        1 => (1, -1),
        2 => (1, 0),
        3 => (1, 1),
        4 => (0, 1),
        5 => (-1, 1),
        6 => (-1, 0),
        _ => (-1, -1),
    }
}

/// The heading of a displacement, by the signs of its components; none for no
/// displacement.
pub fn heading_from_delta(dx: i32, dy: i32) -> (r: Option<u8>)
    ensures
        r == heading_of(sign(dx as int), sign(dy as int)),
        r is None <==> dx == 0 && dy == 0,
{
    if dx == 0 {
        if dy < 0 {
            Some(0)
        } else if dy > 0 {
            Some(4)
        } else {
            None
        }
    } else if dx > 0 {
        if dy < 0 {
            Some(1)
        } else if dy > 0 {
            Some(3)
        } else {
            Some(2)
        }
    } else {
        if dy < 0 {
            Some(7)
        } else if dy > 0 {
            Some(5)
        } else {
            Some(6)
        }
    }
}

/// Headings and unit steps correspond one to one.
pub proof fn law_heading_step_round_trip(heading: u8)
    requires
        heading < 8,
    ensures
        heading_of(heading_step(heading).0, heading_step(heading).1) == Some(heading),
{
}

/// The heading of a step to another tile.
pub open spec fn heading_between(player: PlayerPosition, x: int, y: int) -> Option<u8> {
    heading_of(sign(x - player.x), sign(y - player.y))
}

fn clamp_delta(d: i64) -> (r: i32)
    ensures
        sign(r as int) == sign(d as int),
{
    if d > 0 {
        1
    } else if d < 0 {
        -1
    } else {
        0
    }
}

/// The heading in which to step towards a tile.
pub fn walk_step_toward(player: PlayerPosition, target: WalkTarget) -> (r: Result<u8, WalkError>)
    ensures
        match r {
            Ok(h) => heading_between(player, target.x as int, target.y as int) == Some(h),
            Err(e) => target.x == player.x && target.y == player.y,
        },
{
    let dx: i64 = target.x as i64 - player.x as i64;
    let dy: i64 = target.y as i64 - player.y as i64;
    match heading_from_delta(clamp_delta(dx), clamp_delta(dy)) {
        Some(h) => Ok(h),
        None => Err(WalkError::AlreadyThere),
    }
}

/// The heading in which to step towards an entity, by its displayed x and its
/// y.
pub fn walk_step_toward_entity(player: PlayerPosition, entity_x: i32, entity_y: i32) -> (r: Result<
    u8,
    WalkError,
>)
    ensures
        match r {
            Ok(h) => heading_between(player, entity_x as int, entity_y as int) == Some(h),
            Err(e) => entity_x == player.x && entity_y == player.y,
        },
{
    walk_step_toward(player, WalkTarget { x: entity_x, y: entity_y })
}

/// Where to hold the pointer, relative to the player's place on the screen, so
/// that the client walks to a tile.
pub fn walk_toward_tile(player: PlayerPosition, target_x: i32, target_y: i32) -> (r: Result<
    (i32, i32),
    WalkError,
>)
    requires
        projectable(player, target_x as int, target_y as int),
    ensures
        match r {
            Ok(p) => {
                &&& target_x != player.x || target_y != player.y
                &&& (p.0 as int, p.1 as int) == project(target_x - player.x, target_y - player.y)
            },
            Err(e) => target_x == player.x && target_y == player.y,
        },
{
    if target_x == player.x && target_y == player.y {
        return Err(WalkError::AlreadyThere);
    }
    Ok(walk_drag_offset(player, target_x, target_y))
}

/// The same for an entity, by its displayed x and its y.
pub fn walk_toward_entity_pixel(player: PlayerPosition, entity_x: i32, entity_y: i32) -> (r: Result<
    (i32, i32),
    WalkError,
>)
    requires
        projectable(player, entity_x as int, entity_y as int),
    ensures
        match r {
            Ok(p) => {
                &&& entity_x != player.x || entity_y != player.y
                &&& (p.0 as int, p.1 as int) == project(entity_x - player.x, entity_y - player.y)
            },
            Err(e) => entity_x == player.x && entity_y == player.y,
        },
{
    walk_toward_tile(player, entity_x, entity_y)
}

/// Lets go of the walking button; says whether a button-up message is due.
pub fn walk_release(hold: &mut MouseHold) -> (r: bool)
    ensures
        r == old(hold).held,
        r ==> *final(hold) == (MouseHold { held: false, last_down_at: None }),
        !r ==> *final(hold) == *old(hold),
{
    hold.release()
}

pub open spec fn abs_int(x: int) -> int {
    if x < 0 {
        -x
    } else {
        x
    }
}

/// Steps between two tiles when a diagonal counts as one.
pub open spec fn chebyshev_spec(a: (i32, i32), b: (i32, i32)) -> int {
    let dx = abs_int(a.0 - b.0);
    let dy = abs_int(a.1 - b.1);
    if dx >= dy {
        dx
    } else {
        dy
    }
}

/// The distance of two coordinates.
pub fn axis_distance(a: i32, b: i32) -> (r: u32)
    ensures
        r == abs_int(a - b),
{
    if a >= b {
        (a as i64 - b as i64) as u32
    } else {
        (b as i64 - a as i64) as u32
    }
}

/// Steps between two tiles when a diagonal counts as one.
pub fn tile_distance(a: (i32, i32), b: (i32, i32)) -> (r: u32)
    ensures
        r == chebyshev_spec(a, b),
{
    let dx: u32 = axis_distance(a.0, b.0);
    let dy: u32 = axis_distance(a.1, b.1);
    if dx >= dy {
        dx
    } else {
        dy
    }
}

/// The sum of the distances along both axes.
pub fn manhattan_distance(a: PlayerPosition, b_x: i32, b_y: i32) -> (r: u32)
    requires
        abs_int(a.x - b_x) + abs_int(a.y - b_y) <= u32::MAX,
    ensures
        r == abs_int(a.x - b_x) + abs_int(a.y - b_y),
{
    axis_distance(a.x, b_x) + axis_distance(a.y, b_y)
}

/// The larger of the distances along the two axes.
pub fn chebyshev_distance(a: PlayerPosition, b_x: i32, b_y: i32) -> (r: u32)
    ensures
        r == chebyshev_spec((a.x, a.y), (b_x, b_y)),
{
    tile_distance((a.x, a.y), (b_x, b_y))
}

/// The step distance is a metric: symmetric, zero only at the same tile, and
/// no longer than a detour.
pub proof fn law_chebyshev_metric(a: (i32, i32), b: (i32, i32), c: (i32, i32))
    ensures
        chebyshev_spec(a, b) == chebyshev_spec(b, a),
        chebyshev_spec(a, b) == 0 <==> a == b,
        chebyshev_spec(a, c) <= chebyshev_spec(a, b) + chebyshev_spec(b, c),
{
}

/// The line that announces a step.
pub open spec fn walk_line(player: PlayerPosition, target_x: int, target_y: int) -> Seq<char> {
    "[bot/walk] driver="@ + driver_name() + " target=("@ + signed_decimal(target_x) + ", "@
        + signed_decimal(target_y) + ") player=("@ + signed_decimal(player.x as int) + ", "@
        + signed_decimal(player.y as int) + ")"@
}

/// A step towards a tile by a driver: the line that announces it, and where to
/// hold the pointer.
pub fn walk_toward_tile_with_driver(
    driver: WalkDriver,
    player: PlayerPosition,
    target_x: i32,
    target_y: i32,
) -> (r: (String, Result<(i32, i32), WalkError>))
    requires
        projectable(player, target_x as int, target_y as int),
    ensures
        r.0@ == walk_line(player, target_x as int, target_y as int),
        match r.1 {
            Ok(p) => {
                &&& target_x != player.x || target_y != player.y
                &&& (p.0 as int, p.1 as int) == project(target_x - player.x, target_y - player.y)
            },
            Err(e) => target_x == player.x && target_y == player.y,
        },
{
    let mut line = String::new();
    line.append("[bot/walk] driver=");
    line.append(driver.as_str());
    line.append(" target=(");
    push_signed(&mut line, target_x);
    line.append(", ");
    push_signed(&mut line, target_y);
    line.append(") player=(");
    push_signed(&mut line, player.x);
    line.append(", ");
    push_signed(&mut line, player.y);
    line.append(")");
    let step: Result<(i32, i32), WalkError> = match driver {
        WalkDriver::PostMessage => walk_toward_tile(player, target_x, target_y),
    };
    (line, step)
}

/// Least time between two reports of the client's walking state.
pub const WALK_STATE_LOG_INTERVAL_MS: u64 = 350;

/// Whether a report of the walking state is due at `now`; where it is, `last`
/// becomes that moment.
pub fn should_log_walk_state(last: &mut Option<Instant>, now: Instant) -> (r: bool)
    ensures
        r == match *old(last) {
            Some(at) => elapsed(now, at) >= ms_nanos(WALK_STATE_LOG_INTERVAL_MS as int),
            None => true,
        },
        *final(last) == (if r {
            Some(now)
        } else {
            *old(last)
        }),
{
    let due: bool = match *last {
        Some(at) => !now.within_ms(at, WALK_STATE_LOG_INTERVAL_MS),
        None => true,
    };
    if due {
        *last = Some(now);
    }
    due
}

} // verus!
