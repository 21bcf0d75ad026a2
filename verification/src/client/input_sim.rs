//! Where simulated clicks may land, and when the simulated button goes down.
use crate::time::{elapsed, ms_nanos, Instant};
use vstd::prelude::*;

verus! {

/// After this long the button-down message is sent again, in case one was lost.
pub const LBUTTONDOWN_HEARTBEAT_MS: u64 = 1000;

/// The part of the client area in which clicks reach the game world.
#[derive(Debug, Clone, Copy, PartialEq, Eq, Structural)]
pub struct GameplayInputArea {
    pub left: i32,
    pub top: i32,
    pub right: i32,
    pub bottom: i32,
}

pub open spec fn max_int(a: int, b: int) -> int {
    if a >= b {
        a
    } else {
        b
    }
}

pub open spec fn min_int(a: int, b: int) -> int {
    if a <= b {
        a
    } else {
        b
    }
}

/// The point of `[lo, hi]` nearest to `x`.
pub open spec fn clamp_int(x: int, lo: int, hi: int) -> int {
    if x < lo {
        lo
    } else if x > hi {
        hi
    } else {
        x
    }
}

/// `x`, held inside the range of an `i32`.
pub open spec fn saturate(x: int) -> int {
    clamp_int(x, i32::MIN as int, i32::MAX as int)
}

fn clamp_wide(x: i64, lo: i32, hi: i32) -> (r: i32)
    requires
        lo <= hi,
    ensures
        r == clamp_int(x as int, lo as int, hi as int),
{
    if x < lo as i64 {
        lo
    } else if x > hi as i64 {
        hi
    } else {
        x as i32
    }
}

impl GameplayInputArea {
    /// The area is not inside out.
    pub open spec fn wf(self) -> bool {
        self.left <= self.right && self.top <= self.bottom
    }

    /// The nearest point inside the area.
    pub fn clamp_point(self, x: i32, y: i32) -> (r: (i32, i32))
        requires
            self.wf(),
        ensures
            r.0 == clamp_int(x as int, self.left as int, self.right as int),
            r.1 == clamp_int(y as int, self.top as int, self.bottom as int),
    {
        (clamp_wide(x as i64, self.left, self.right), clamp_wide(y as i64, self.top, self.bottom))
    }

    fn clamp_point_wide(self, x: i64, y: i64) -> (r: (i32, i32))
        requires
            self.wf(),
        ensures
            r.0 == clamp_int(x as int, self.left as int, self.right as int),
            r.1 == clamp_int(y as int, self.top as int, self.bottom as int),
    {
        (clamp_wide(x, self.left, self.right), clamp_wide(y, self.top, self.bottom))
    }

    /// The lowest and highest start coordinate of a drag by `delta` along one
    /// axis that runs from `lo` to `hi`.
    pub open spec fn drag_bounds(lo: int, hi: int, delta: int) -> (int, int) {
        let max = saturate(hi - max_int(delta, 0));
        let min = saturate(lo - min_int(delta, 0));
        (min_int(min, max), max_int(min, max))
    }

    fn drag_range(lo: i32, hi: i32, delta: i32) -> (r: (i32, i32))
        ensures
            (r.0 as int, r.1 as int) == Self::drag_bounds(lo as int, hi as int, delta as int),
            r.0 <= r.1,
    {
        let forward: i64 = if delta > 0 { delta as i64 } else { 0 };
        let back: i64 = if delta < 0 { delta as i64 } else { 0 };
        let max: i32 = clamp_wide(hi as i64 - forward, i32::MIN, i32::MAX);
        let min: i32 = clamp_wide(lo as i64 - back, i32::MIN, i32::MAX);
        if min <= max {
            (min, max)
        } else {
            (max, min)
        }
    }

    fn clamp_drag_start_wide(self, x: i64, y: i64, release_dx: i32, release_dy: i32) -> (r: (i32, i32))
        ensures
            ({
                let bx = Self::drag_bounds(self.left as int, self.right as int, release_dx as int);
                let by = Self::drag_bounds(self.top as int, self.bottom as int, release_dy as int);
                &&& r.0 == clamp_int(x as int, bx.0, bx.1)
                &&& r.1 == clamp_int(y as int, by.0, by.1)
            }),
    {
        let bx: (i32, i32) = Self::drag_range(self.left, self.right, release_dx);
        let by: (i32, i32) = Self::drag_range(self.top, self.bottom, release_dy);
        (clamp_wide(x, bx.0, bx.1), clamp_wide(y, by.0, by.1))
    }

    /// The nearest start of a drag whose release still lies inside the area.
    pub fn clamp_drag_start(self, x: i32, y: i32, release_dx: i32, release_dy: i32) -> (r: (i32, i32))
        ensures
            ({
                let bx = Self::drag_bounds(self.left as int, self.right as int, release_dx as int);
                let by = Self::drag_bounds(self.top as int, self.bottom as int, release_dy as int);
                &&& r.0 == clamp_int(x as int, bx.0, bx.1)
                &&& r.1 == clamp_int(y as int, by.0, by.1)
            }),
    {
        self.clamp_drag_start_wide(x as i64, y as i64, release_dx, release_dy)
    }
}

/// The margins that keep clicks off the client's own panels, as
/// `(left, top, right, bottom)`.
pub open spec fn preferred_area(w: int, h: int) -> (int, int, int, int) {
    (max_int(w / 100, 4), max_int(h * 54 / 1000, 24), w * 75 / 100 - 1, h * 83 / 100 - 1)
}

/// The area for a client of the given size: the preferred margins where they
/// leave room, else the whole client.
pub open spec fn area_for(w: int, h: int) -> (int, int, int, int) {
    let p = preferred_area(w, h);
    if p.2 <= p.0 || p.3 <= p.1 {
        (0, 0, w - 1, h - 1)
    } else {
        p
    }
}

pub fn gameplay_input_area(client_width: i32, client_height: i32) -> (r: Option<GameplayInputArea>)
    ensures
        r is None <==> client_width <= 0 || client_height <= 0,
        r matches Some(a) ==> {
            &&& a.wf()
            &&& (a.left as int, a.top as int, a.right as int, a.bottom as int) == area_for(
                client_width as int,
                client_height as int,
            )
        },
{
    if client_width <= 0 || client_height <= 0 {
        return None;
    }
    let w: i64 = client_width as i64;
    let h: i64 = client_height as i64;
    let left: i64 = if w / 100 >= 4 { w / 100 } else { 4 };
    let top: i64 = if h * 54 / 1000 >= 24 { h * 54 / 1000 } else { 24 };
    let right: i64 = w * 75 / 100 - 1;
    let bottom: i64 = h * 83 / 100 - 1;
    if right <= left || bottom <= top {
        return Some(
            GameplayInputArea { left: 0, top: 0, right: client_width - 1, bottom: client_height - 1 },
        );
    }
    Some(
        GameplayInputArea {
            left: left as i32,
            top: top as i32,
            right: right as i32,
            bottom: bottom as i32,
        },
    )
}

/// Clicks are placed relative to the client's own size.
pub fn gameplay_input_dimensions(client_width: i32, client_height: i32) -> (r: (i32, i32))
    ensures
        r == (client_width, client_height),
{
    (client_width, client_height)
}

/// The click point at an offset from the point `(ax, ay)` of a client of size
/// `w` by `h`.
pub open spec fn click_point(w: int, h: int, ax: int, ay: int, dx: int, dy: int) -> (int, int) {
    let a = area_for(w, h);
    (clamp_int(ax + dx, a.0, a.2), clamp_int(ay + dy, a.1, a.3))
}

/// The start point of a drag, likewise.
pub open spec fn drag_point(
    w: int,
    h: int,
    ax: int,
    ay: int,
    dx: int,
    dy: int,
    rx: int,
    ry: int,
) -> (int, int) {
    let a = area_for(w, h);
    let bx = GameplayInputArea::drag_bounds(a.0, a.2, rx);
    let by = GameplayInputArea::drag_bounds(a.1, a.3, ry);
    (clamp_int(ax + dx, bx.0, bx.1), clamp_int(ay + dy, by.0, by.1))
}

/// The click point at an offset from the client's centre.
pub fn gameplay_click_point_from_offset(
    client_width: i32,
    client_height: i32,
    dx_px: i32,
    dy_px: i32,
) -> (r: Option<(i32, i32)>)
    ensures
        r is None <==> client_width <= 0 || client_height <= 0,
        r matches Some(p) ==> (p.0 as int, p.1 as int) == click_point(
            client_width as int,
            client_height as int,
            client_width as int / 2,
            client_height as int / 2,
            dx_px as int,
            dy_px as int,
        ),
{
    let area = match gameplay_input_area(client_width, client_height) {
        Some(area) => area,
        None => {
            return None;
        },
    };
    Some(
        area.clamp_point_wide(
            (client_width / 2) as i64 + dx_px as i64,
            (client_height / 2) as i64 + dy_px as i64,
        ),
    )
}

/// A quotient, rounded towards zero.
pub open spec fn truncated(n: int, d: int) -> int {
    if n >= 0 {
        n / d
    } else {
        -((-n) / d)
    }
}

/// Where the player's character stands on the screen.
pub open spec fn anchor(w: int, h: int) -> (int, int) {
    (truncated(w, 2), truncated(h * 40, 100))
}

pub fn gameplay_player_anchor(client_width: i32, client_height: i32) -> (r: (i32, i32))
    ensures
        (r.0 as int, r.1 as int) == anchor(client_width as int, client_height as int),
{
    let w: i64 = client_width as i64;
    let h: i64 = client_height as i64 * 40;
    let x: i64 = if w >= 0 {
        w / 2
    } else {
        -((-w) / 2)
    };
    let y: i64 = if h >= 0 {
        h / 100
    } else {
        -((-h) / 100)
    };
    (x as i32, y as i32)
}

/// The click point at an offset from the player's place on the screen.
pub fn gameplay_click_point_from_player_anchor_offset(
    client_width: i32,
    client_height: i32,
    dx_px: i32,
    dy_px: i32,
) -> (r: Option<(i32, i32)>)
    ensures
        r is None <==> client_width <= 0 || client_height <= 0,
        r matches Some(p) ==> (p.0 as int, p.1 as int) == click_point(
            client_width as int,
            client_height as int,
            anchor(client_width as int, client_height as int).0,
            anchor(client_width as int, client_height as int).1,
            dx_px as int,
            dy_px as int,
        ),
{
    let area = match gameplay_input_area(client_width, client_height) {
        Some(area) => area,
        None => {
            return None;
        },
    };
    let at: (i32, i32) = gameplay_player_anchor(client_width, client_height);
    Some(area.clamp_point_wide(at.0 as i64 + dx_px as i64, at.1 as i64 + dy_px as i64))
}

/// The start of a drag at an offset from the client's centre.
pub fn gameplay_drag_start_point_from_offset(
    client_width: i32,
    client_height: i32,
    dx_px: i32,
    dy_px: i32,
    release_dx: i32,
    release_dy: i32,
) -> (r: Option<(i32, i32)>)
    ensures
        r is None <==> client_width <= 0 || client_height <= 0,
        r matches Some(p) ==> (p.0 as int, p.1 as int) == drag_point(
            client_width as int,
            client_height as int,
            client_width as int / 2,
            client_height as int / 2,
            dx_px as int,
            dy_px as int,
            release_dx as int,
            release_dy as int,
        ),
{
    let area = match gameplay_input_area(client_width, client_height) {
        Some(area) => area,
        None => {
            return None;
        },
    };
    Some(
        area.clamp_drag_start_wide(
            (client_width / 2) as i64 + dx_px as i64,
            (client_height / 2) as i64 + dy_px as i64,
            release_dx,
            release_dy,
        ),
    )
}

/// The start of a drag at an offset from the player's place on the screen.
pub fn gameplay_drag_start_point_from_player_anchor_offset(
    client_width: i32,
    client_height: i32,
    dx_px: i32,
    dy_px: i32,
    release_dx: i32,
    release_dy: i32,
) -> (r: Option<(i32, i32)>)
    ensures
        r is None <==> client_width <= 0 || client_height <= 0,
        r matches Some(p) ==> (p.0 as int, p.1 as int) == drag_point(
            client_width as int,
            client_height as int,
            anchor(client_width as int, client_height as int).0,
            anchor(client_width as int, client_height as int).1,
            dx_px as int,
            dy_px as int,
            release_dx as int,
            release_dy as int,
        ),
{
    let area = match gameplay_input_area(client_width, client_height) {
        Some(area) => area,
        None => {
            return None;
        },
    };
    let at: (i32, i32) = gameplay_player_anchor(client_width, client_height);
    Some(
        area.clamp_drag_start_wide(
            at.0 as i64 + dx_px as i64,
            at.1 as i64 + dy_px as i64,
            release_dx,
            release_dy,
        ),
    )
}

/// Every click point lies inside the client.
pub proof fn law_click_point_inside_client(w: int, h: int, ax: int, ay: int, dx: int, dy: int)
    requires
        0 < w,
        0 < h,
    ensures
        0 <= click_point(w, h, ax, ay, dx, dy).0 < w,
        0 <= click_point(w, h, ax, ay, dx, dy).1 < h,
{
}

/// A drag that starts where `clamp_drag_start` puts it, and moves no farther
/// than the area is wide and high, is released inside the area.
pub proof fn law_drag_release_inside(area: GameplayInputArea, x: int, y: int, dx: int, dy: int)
    requires
        area.wf(),
        0 <= area.left,
        0 <= area.top,
        -(area.right - area.left) <= dx <= area.right - area.left,
        -(area.bottom - area.top) <= dy <= area.bottom - area.top,
    ensures
        ({
            let bx = GameplayInputArea::drag_bounds(area.left as int, area.right as int, dx);
            let by = GameplayInputArea::drag_bounds(area.top as int, area.bottom as int, dy);
            &&& area.left <= clamp_int(x, bx.0, bx.1) + dx <= area.right
            &&& area.top <= clamp_int(y, by.0, by.1) + dy <= area.bottom
        }),
{
}

/// The virtual key code of F1 to F12.
pub fn fkey_vk(n: u8) -> (r: Option<u32>)
    ensures
        r is Some <==> 1 <= n <= 12,
        r matches Some(vk) ==> vk == 0x6F + n,
{
    if 1 <= n && n <= 12 {
        Some(0x6F + n as u32)
    } else {
        None
    }
}

/// The keyboard scan code of F1 to F12.
pub open spec fn scancode(n: int) -> int {
    if 1 <= n <= 10 {
        0x3B + (n - 1)
    } else if n == 11 {
        0x57
    } else if n == 12 {
        0x58
    } else {
        0
    }
}

/// The message words of a key press and release: a repeat count of one, the
/// scan code in bits 16 to 23, and for the release the two top bits.
pub fn fkey_lparams(n: u8) -> (r: Option<(u32, u32)>)
    ensures
        r is Some <==> 1 <= n <= 12,
        r matches Some(p) ==> p.0 == 1 + scancode(n as int) * 0x1_0000 && p.1 == p.0 + 0xC000_0000,
{
    if n < 1 || n > 12 {
        return None;
    }
    let code: u32 = if n <= 10 {
        0x3B + (n as u32 - 1)
    } else if n == 11 {
        0x57
    } else {
        0x58
    };
    let down: u32 = 1 + code * 0x1_0000;
    Some((down, down + 0xC000_0000))
}

/// The low half of a coordinate as a message carries it.
fn low_half(v: i32) -> (r: u32)
    ensures
        r == v as int % 0x1_0000,
{
    if v >= 0 {
        v as u32 % 0x1_0000
    } else {
        let back: i64 = -(v as i64 + 1);
        0xFFFF - (back % 0x1_0000) as u32
    }
}

/// The message word of a client point: the low half of x in the low half, that
/// of y in the high half.
pub open spec fn point_word(x: int, y: int) -> int {
    (y % 0x1_0000) * 0x1_0000 + x % 0x1_0000
}

pub fn point_lparam(x: i32, y: i32) -> (r: u32)
    ensures
        r == point_word(x as int, y as int),
{
    low_half(y) * 0x1_0000 + low_half(x)
}

/// Why there is nothing to post to the client.
#[derive(Debug, Clone, Copy, PartialEq, Eq, Structural)]
pub enum InputError {
    /// There are twelve function keys.
    NoSuchKey,
    /// There are eight headings.
    NoSuchHeading,
    /// The client has no area.
    EmptyClient,
}

/// How long a delayed key stays down.
pub const KEY_DELAY_MS: u64 = 80;

/// A press of a key: its code, the words of the two messages, and the pause
/// between them.
#[derive(Debug, Clone, Copy, PartialEq, Eq, Structural)]
pub struct KeyPress {
    pub vk: u32,
    pub down: u32,
    pub up: u32,
    pub pause_ms: u64,
}

/// What to post for a function key.
pub fn press_fkey(n: u8, delayed: bool) -> (r: Result<KeyPress, InputError>)
    ensures
        match r {
            Ok(key) => {
                &&& 1 <= n <= 12
                &&& key.vk == 0x6F + n
                &&& key.down == 1 + scancode(n as int) * 0x1_0000
                &&& key.up == key.down + 0xC000_0000
                &&& key.pause_ms == (if delayed {
                    KEY_DELAY_MS
                } else {
                    0
                })
            },
            Err(e) => !(1 <= n <= 12) && e == InputError::NoSuchKey,
        },
{
    match (fkey_vk(n), fkey_lparams(n)) {
        (Some(vk), Some(words)) => Ok(
            KeyPress {
                vk,
                down: words.0,
                up: words.1,
                pause_ms: if delayed {
                    KEY_DELAY_MS
                } else {
                    0
                },
            },
        ),
        _ => Err(InputError::NoSuchKey),
    }
}

/// How far from the client's centre a walk in a given heading is aimed.
pub open spec fn heading_offset(heading: int) -> (int, int) {
    if heading == 0 {
        (0, -100)
    } else if heading == 1 {
        (70, -70)
    } else if heading == 2 {
        (100, 0)
    } else if heading == 3 {
        (70, 70)
    } else if heading == 4 {
        (0, 100)
    } else if heading == 5 {
        (-70, 70)
    } else if heading == 6 {
        (-100, 0)
    } else {
        (-70, -70)
    }
}

/// The click offset of a heading; there are eight of them.
pub fn heading_pixel_offset(heading: u8) -> (r: Option<(i32, i32)>)
    ensures
        r is Some <==> heading < 8,
        r matches Some(p) ==> (p.0 as int, p.1 as int) == heading_offset(heading as int),
{
    match heading {
        0 => Some((0, -100)),
        1 => Some((70, -70)),
        2 => Some((100, 0)),
        3 => Some((70, 70)),
        4 => Some((0, 100)),
        5 => Some((-70, 70)),
        6 => Some((-100, 0)),
        7 => Some((-70, -70)),
        _ => None,
    }
}

/// Whether the simulated left button is held, and since when.
#[derive(Debug, Clone, Copy, PartialEq, Eq, Structural)]
pub struct MouseHold {
    pub held: bool,
    pub last_down_at: Option<Instant>,
}

impl MouseHold {
    pub fn released() -> (r: MouseHold)
        ensures
            r == (MouseHold { held: false, last_down_at: None }),
    {
        MouseHold { held: false, last_down_at: None }
    }

    /// Whether a button-down message is due: the button is up, or the last
    /// message is as old as the heartbeat, or there was none.
    pub open spec fn needs_down(self, now: Instant) -> bool {
        !self.held || match self.last_down_at {
            Some(at) => elapsed(now, at) >= ms_nanos(LBUTTONDOWN_HEARTBEAT_MS as int),
            None => true,
        }
    }

    /// Whether holding the button at `now` takes a button-down message before
    /// the move message.
    pub fn down_due(&self, now: Instant) -> (r: bool)
        ensures
            r == self.needs_down(now),
    {
        if !self.held {
            return true;
        }
        match self.last_down_at {
            Some(at) => !now.within_ms(at, LBUTTONDOWN_HEARTBEAT_MS),
            None => true,
        }
    }

    /// Notes that the button-down message went out at `now`.
    pub fn note_down(&mut self, now: Instant)
        ensures
            *final(self) == (MouseHold { held: true, last_down_at: Some(now) }),
    {
        self.held = true;
        self.last_down_at = Some(now);
    }

    /// Lets go of the button; says whether a button-up message is due, which it
    /// is exactly where the button was held. Where it was not, nothing changes.
    pub fn release(&mut self) -> (r: bool)
        ensures
            r == old(self).held,
            r ==> *final(self) == (MouseHold { held: false, last_down_at: None }),
            !r ==> *final(self) == *old(self),
    {
        if !self.held {
            return false;
        }
        self.held = false;
        self.last_down_at = None;
        true
    }
}

/// What to post so that the client sees the left button held at a point: a
/// button-down first where one is due, and then a move.
#[derive(Debug, Clone, Copy, PartialEq, Eq, Structural)]
pub struct HoldPlan {
    /// The word of both messages.
    pub word: u32,
    pub press: bool,
}

/// The plan for holding the button at a point.
pub open spec fn is_hold(plan: HoldPlan, point: (int, int), hold: MouseHold, now: Instant) -> bool {
    &&& plan.word == point_word(point.0, point.1)
    &&& plan.press == hold.needs_down(now)
}

fn hold_at(point: Option<(i32, i32)>, hold: &MouseHold, now: Instant) -> (r: Result<
    HoldPlan,
    InputError,
>)
    ensures
        match point {
            Some(p) => r matches Ok(plan) && is_hold(plan, (p.0 as int, p.1 as int), *hold, now),
            None => r == Err::<HoldPlan, InputError>(InputError::EmptyClient),
        },
{
    match point {
        Some(p) => Ok(HoldPlan { word: point_lparam(p.0, p.1), press: hold.down_due(now) }),
        None => Err(InputError::EmptyClient),
    }
}

/// What to post to walk in a heading.
pub fn walk_hold(
    heading: u8,
    client_width: i32,
    client_height: i32,
    hold: &MouseHold,
    now: Instant,
) -> (r: Result<HoldPlan, InputError>)
    ensures
        match r {
            Ok(plan) => {
                &&& heading < 8 && client_width > 0 && client_height > 0
                &&& is_hold(
                    plan,
                    click_point(
                        client_width as int,
                        client_height as int,
                        client_width as int / 2,
                        client_height as int / 2,
                        heading_offset(heading as int).0,
                        heading_offset(heading as int).1,
                    ),
                    *hold,
                    now,
                )
            },
            Err(InputError::NoSuchHeading) => heading >= 8,
            Err(InputError::EmptyClient) => heading < 8 && (client_width <= 0 || client_height
                <= 0),
            Err(InputError::NoSuchKey) => false,
        },
{
    match heading_pixel_offset(heading) {
        Some(offset) => hold_at(
            gameplay_click_point_from_offset(client_width, client_height, offset.0, offset.1),
            hold,
            now,
        ),
        None => Err(InputError::NoSuchHeading),
    }
}

/// What to post to hold the button at an offset from the client's centre.
pub fn click_hold_at_pixel(
    dx_px: i32,
    dy_px: i32,
    client_width: i32,
    client_height: i32,
    hold: &MouseHold,
    now: Instant,
) -> (r: Result<HoldPlan, InputError>)
    ensures
        match r {
            Ok(plan) => client_width > 0 && client_height > 0 && is_hold(
                plan,
                click_point(
                    client_width as int,
                    client_height as int,
                    client_width as int / 2,
                    client_height as int / 2,
                    dx_px as int,
                    dy_px as int,
                ),
                *hold,
                now,
            ),
            Err(e) => (client_width <= 0 || client_height <= 0) && e == InputError::EmptyClient,
        },
{
    hold_at(
        gameplay_click_point_from_offset(client_width, client_height, dx_px, dy_px),
        hold,
        now,
    )
}

/// What to post to hold the button at an offset from the player's place on the
/// screen.
pub fn click_hold_at_player_anchor_pixel(
    dx_px: i32,
    dy_px: i32,
    client_width: i32,
    client_height: i32,
    hold: &MouseHold,
    now: Instant,
) -> (r: Result<HoldPlan, InputError>)
    ensures
        match r {
            Ok(plan) => client_width > 0 && client_height > 0 && is_hold(
                plan,
                click_point(
                    client_width as int,
                    client_height as int,
                    anchor(client_width as int, client_height as int).0,
                    anchor(client_width as int, client_height as int).1,
                    dx_px as int,
                    dy_px as int,
                ),
                *hold,
                now,
            ),
            Err(e) => (client_width <= 0 || client_height <= 0) && e == InputError::EmptyClient,
        },
{
    hold_at(
        gameplay_click_point_from_player_anchor_offset(client_width, client_height, dx_px, dy_px),
        hold,
        now,
    )
}

/// Held without a break, the button is pressed anew only once per heartbeat: a
/// plan that presses, noted as done, is followed by plans that only move.
pub proof fn law_pressed_once_per_heartbeat(now: Instant, later: Instant)
    requires
        elapsed(later, now) < ms_nanos(LBUTTONDOWN_HEARTBEAT_MS as int),
    ensures
        !(MouseHold { held: true, last_down_at: Some(now) }).needs_down(later),
{
}

/// A coordinate that lies inside stays; one outside goes to the nearer end.
pub proof fn law_clamp(x: int, lo: int, hi: int)
    requires
        lo <= hi,
    ensures
        lo <= clamp_int(x, lo, hi) <= hi,
        lo <= x <= hi ==> clamp_int(x, lo, hi) == x,
        x < lo ==> clamp_int(x, lo, hi) == lo,
        x > hi ==> clamp_int(x, lo, hi) == hi,
        saturate(x) == x <==> i32::MIN <= x <= i32::MAX,
{
}

/// The part of the client that takes clicks: from a hundredth of the width, and four
/// pixels at least, to three quarters; and from fifty-four thousandths of the height,
/// and twenty-four pixels at least, to eighty-three hundredths. A client too small
/// for that takes them everywhere.
pub proof fn law_click_area(w: int, h: int)
    requires
        0 < w <= i32::MAX,
        0 < h <= i32::MAX,
    ensures
        ({
            let (left, top, right, bottom) = area_for(w, h);
            let small = w * 75 / 100 - 1 <= 4 || w * 75 / 100 - 1 <= w / 100 || h * 83 / 100 - 1
                <= 24 || h * 83 / 100 - 1 <= h * 54 / 1000;
            &&& small ==> left == 0 && top == 0 && right == w - 1 && bottom == h - 1
            &&& !small ==> {
                &&& left >= 4 && 100 * (left + 1) > w && (left == 4 || 100 * left <= w)
                &&& top >= 24 && 1000 * (top + 1) > 54 * h && (top == 24 || 1000 * top <= 54 * h)
                &&& 100 * (right + 1) <= 75 * w < 100 * (right + 2)
                &&& 100 * (bottom + 1) <= 83 * h < 100 * (bottom + 2)
            }
        }),
{
}

/// The player stands in the middle of the width and at two fifths of the height.
pub proof fn law_player_anchor(w: int, h: int)
    requires
        0 <= w && 0 <= h,
    ensures
        2 * anchor(w, h).0 <= w < 2 * anchor(w, h).0 + 2,
        100 * anchor(w, h).1 <= 40 * h < 100 * anchor(w, h).1 + 100,
{
}

/// A click goes where it is meant, moved no more than the area asks for.
pub proof fn law_click_point(w: int, h: int, ax: int, ay: int, dx: int, dy: int)
    requires
        0 < w,
        0 < h,
    ensures
        ({
            let (left, top, right, bottom) = area_for(w, h);
            let p = click_point(w, h, ax, ay, dx, dy);
            &&& left <= ax + dx <= right ==> p.0 == ax + dx
            &&& top <= ay + dy <= bottom ==> p.1 == ay + dy
            &&& ax + dx < left ==> p.0 == left
            &&& ay + dy < top ==> p.1 == top
            &&& left <= right && ax + dx > right ==> p.0 == right
            &&& top <= bottom && ay + dy > bottom ==> p.1 == bottom
        }),
{
}

/// A drag starts where it is meant, where it begins and ends inside.
pub proof fn law_drag_start_stays(lo: int, hi: int, delta: int, x: int)
    requires
        0 <= lo <= x <= hi <= i32::MAX,
        lo <= x + delta <= hi,
    ensures
        ({
            let b = GameplayInputArea::drag_bounds(lo, hi, delta);
            clamp_int(x, b.0, b.1) == x
        }),
{
}

/// Codes of the function keys: the first ten follow each other, the last two come
/// later.
pub proof fn law_key_codes(n: int)
    ensures
        1 <= n <= 10 ==> scancode(n) == 58 + n,
        scancode(11) == 87,
        scancode(12) == 88,
{
}

/// A point is read back from its word: the lower half is x and the upper y.
pub proof fn law_point_reads_back(x: int, y: int)
    requires
        0 <= x < 0x1_0000,
        0 <= y < 0x1_0000,
    ensures
        point_word(x, y) % 0x1_0000 == x,
        point_word(x, y) / 0x1_0000 == y,
{
}

/// Negative coordinates count back from the end.
pub proof fn law_point_wraps(x: int, y: int)
    ensures
        0 <= point_word(x, y) < 0x1_0000_0000,
        point_word(x + 0x1_0000, y) == point_word(x, y),
        point_word(x, y + 0x1_0000) == point_word(x, y),
{
}

/// The pointer is held on the side of the heading: a hundred pixels off straight, and
/// seventy on each axis between.
pub proof fn law_heading_offset(heading: int)
    requires
        0 <= heading < 8,
    ensures
        ({
            let p = heading_offset(heading);
            &&& p.0 > 0 <==> 1 <= heading <= 3
            &&& p.0 < 0 <==> 5 <= heading <= 7
            &&& p.1 > 0 <==> 3 <= heading <= 5
            &&& p.1 < 0 <==> heading == 7 || heading == 0 || heading == 1
            &&& heading % 2 == 0 ==> (p.0 == 0 && (p.1 == 100 || p.1 == -100)) || (p.1 == 0 && (p.0
                == 100 || p.0 == -100))
            &&& heading % 2 == 1 ==> (p.0 == 70 || p.0 == -70) && (p.1 == 70 || p.1 == -70)
        }),
{
}

/// The button is pressed where it is up, and once more after a second.
pub proof fn law_press_again(hold: MouseHold, now: Instant)
    ensures
        hold.needs_down(now) <==> !hold.held || hold.last_down_at is None || now.nanos
            >= hold.last_down_at->0.nanos + 1_000_000_000,
{
}

/// A drag starts where it is meant, moved no more than its start and its release ask
/// for.
pub proof fn law_drag_point(
    w: int,
    h: int,
    ax: int,
    ay: int,
    dx: int,
    dy: int,
    rx: int,
    ry: int,
)
    requires
        0 < w <= i32::MAX,
        0 < h <= i32::MAX,
    ensures
        ({
            let (left, top, right, bottom) = area_for(w, h);
            let p = drag_point(w, h, ax, ay, dx, dy, rx, ry);
            &&& left <= ax + dx <= right && left <= ax + dx + rx <= right ==> p.0 == ax + dx
            &&& top <= ay + dy <= bottom && top <= ay + dy + ry <= bottom ==> p.1 == ay + dy
            &&& -(right - left) <= rx <= right - left ==> left <= p.0 + rx <= right && left <= p.0
                <= right
            &&& -(bottom - top) <= ry <= bottom - top ==> top <= p.1 + ry <= bottom && top <= p.1
                <= bottom
        }),
{
}

/// A hold sends the point, and presses where that is due.
pub proof fn law_hold(plan: HoldPlan, x: int, y: int, hold: MouseHold, now: Instant)
    requires
        is_hold(plan, (x, y), hold, now),
        0 <= x < 0x1_0000,
        0 <= y < 0x1_0000,
    ensures
        plan.word % 0x1_0000 == x,
        plan.word / 0x1_0000 == y,
        plan.press <==> hold.needs_down(now),
{
    law_point_reads_back(x, y);
}

} // verus!
