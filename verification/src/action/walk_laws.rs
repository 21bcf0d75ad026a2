//! Distances and headings, told by coordinates.
use crate::action::walk::{
    abs_int, chebyshev_spec, driver_name, driver_of, heading_between, heading_step, sign,
    WalkDriver, WALK_STATE_LOG_INTERVAL_MS,
};
use crate::action::screen_target::PlayerPosition;
use vstd::prelude::*;

verus! {

/// The tiles lie no farther apart than so many steps, diagonals counted as one.
pub open spec fn steps_within(a: (i32, i32), b: (i32, i32), n: int) -> bool {
    -n <= a.0 - b.0 <= n && -n <= a.1 - b.1 <= n
}

/// The tiles lie exactly so many steps apart.
pub open spec fn steps_between(a: (i32, i32), b: (i32, i32), n: int) -> bool {
    n >= 0 && steps_within(a, b, n) && !steps_within(a, b, n - 1)
}

/// The distance of two tiles is the number of steps between them.
pub proof fn law_distance(a: (i32, i32), b: (i32, i32), n: int)
    ensures
        chebyshev_spec(a, b) <= n <==> steps_within(a, b, n),
        chebyshev_spec(a, b) == n <==> steps_between(a, b, n),
{
}

/// The distance on one axis: never negative, and added to the lesser coordinate
/// it gives the greater.
pub proof fn law_axis_distance(a: int, b: int)
    ensures
        abs_int(a - b) >= 0,
        abs_int(a - b) == abs_int(b - a),
        a + abs_int(a - b) == b || b + abs_int(a - b) == a,
{
}

/// The sign of a number times its size is the number.
pub proof fn law_sign(x: int)
    ensures
        sign(x) * abs_int(x) == x,
        -1 <= sign(x) <= 1,
        x != 0 ==> sign(x) != 0,
{
    let s = sign(x);
    let n = abs_int(x);
    assert(s * n == x) by (nonlinear_arith)
        requires
            (s == 1 && n == x) || (s == -1 && n == -x) || (s == 0 && x == 0),
    ;
}

/// A heading points to the side on which the tile lies: north to a smaller y, east
/// to a greater x. There is one for every other tile.
pub proof fn law_heading_points_there(player: PlayerPosition, x: int, y: int)
    ensures
        ({
            let h = heading_between(player, x, y);
            &&& h is None <==> x == player.x && y == player.y
            &&& h is Some ==> {
                &&& h->0 < 8
                &&& h->0 == 7 || h->0 == 0 || h->0 == 1 <==> y < player.y
                &&& 1 <= h->0 <= 3 <==> x > player.x
                &&& 3 <= h->0 <= 5 <==> y > player.y
                &&& 5 <= h->0 <= 7 <==> x < player.x
            }
        }),
{
}

/// A step leads one tile on in its heading, and opposite headings lead back.
pub proof fn law_heading_steps(heading: u8)
    requires
        heading < 8,
    ensures
        ({
            let s = heading_step(heading);
            let back = heading_step(((heading + 4) % 8) as u8);
            &&& -1 <= s.0 <= 1 && -1 <= s.1 <= 1 && (s.0 != 0 || s.1 != 0)
            &&& back.0 == -s.0 && back.1 == -s.1
            &&& s.1 < 0 <==> heading == 7 || heading == 0 || heading == 1
            &&& s.0 > 0 <==> 1 <= heading <= 3
        }),
{
}

/// The drivers of former days are all read as the one there is, and no other name
/// is.
pub proof fn law_driver_names(name: Seq<char>)
    ensures
        driver_name() == "post_message"@,
        driver_of("client_click"@) == Some(WalkDriver::PostMessage),
        driver_of("memory_click"@) == Some(WalkDriver::PostMessage),
        driver_of("internal_walk"@) == Some(WalkDriver::PostMessage),
        driver_of("remote_internal_walk"@) == Some(WalkDriver::PostMessage),
        driver_of("move_packet"@) == Some(WalkDriver::PostMessage),
        driver_of(name) is Some ==> name == "post_message"@ || name == "client_click"@ || name
            == "memory_click"@ || name == "internal_walk"@ || name == "remote_internal_walk"@ || name
            == "move_packet"@,
        WALK_STATE_LOG_INTERVAL_MS == 350,
{
}

} // verus!
