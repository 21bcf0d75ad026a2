//! A report of what the client knows of a walk.
use crate::action::screen_target::PlayerPosition;
use crate::text::{
    decimal, hex_fixed, push_decimal, push_hex_fixed, push_signed, signed_decimal,
};
use vstd::prelude::*;

verus! {

/// Where the client keeps the address of the actor that walks.
pub const WALK_ACTOR_PTR: u32 = 0x00C2_B268;

pub const WALK_TARGET_ENTITY_PTR: u32 = 0x00C2_B264;

pub const WALK_PREPARED_TARGET_X: u32 = 0x009A_9C6C;

pub const WALK_PREPARED_TARGET_Y: u32 = 0x009A_9C70;

pub const WALK_MOUSE_X: u32 = 0x009A_9C74;

pub const WALK_MOUSE_Y: u32 = 0x009A_9C78;

pub const WALK_TARGET_VALID: u32 = 0x009A_93BF;

pub const WALK_TARGET_MODE: u32 = 0x009A_92FC;

pub const WALK_CONTINUE_FLAG: u32 = 0x00AC_24D4;

pub const WALK_FLAG_24D: u32 = 0x00C2_B24D;

pub const WALK_FLAG_24E: u32 = 0x00C2_B24E;

pub const WALK_FLAG_24F: u32 = 0x00C2_B24F;

pub const WALK_FLAG_272: u32 = 0x00C2_B272;

pub const WALK_FLAG_273: u32 = 0x00C2_B273;

pub const WALK_OBF_STATE_A: u32 = 0x00BD_A784;

pub const WALK_OBF_STATE_B: u32 = 0x00BD_A778;

/// What could be read of the actor.
#[derive(Debug, Clone, Copy)]
pub struct ActorReading {
    /// At offset 0x14.
    pub action: Option<u8>,
    /// At offset 0x15.
    pub dir: Option<u8>,
    /// At offset 0x17.
    pub frame: Option<u8>,
    /// At offset 0x134.
    pub mark: Option<u8>,
    /// At offset 0x34.
    pub raw_x: Option<u32>,
    /// The same as it is displayed.
    pub x: Option<i32>,
    /// At offset 0x38.
    pub y: Option<u32>,
    /// At offset 0x7C.
    pub busy: Option<u32>,
}

/// What could be read of the client's walking state.
#[derive(Debug, Clone, Copy)]
pub struct WalkStateReading {
    pub actor_ptr: Option<u32>,
    pub player_ptr: Option<u32>,
    pub target_entity_ptr: Option<u32>,
    /// The prepared x as it is displayed.
    pub prepared_x: Option<i32>,
    pub prepared_y: Option<u32>,
    pub mouse_x: Option<u32>,
    pub mouse_y: Option<u32>,
    pub target_valid: Option<u8>,
    pub target_mode8: Option<u8>,
    pub target_mode32: Option<u32>,
    pub continue_flag: Option<u8>,
    pub flag_24d: Option<u8>,
    pub flag_24e: Option<u8>,
    pub flag_24f: Option<u8>,
    pub flag_272: Option<u8>,
    pub flag_273: Option<u8>,
    pub obf_a: Option<u32>,
    pub obf_b: Option<u32>,
    /// Counts only where there is an actor.
    pub actor: ActorReading,
}

/// A word in base 16, or a question mark.
pub open spec fn hex32_text(v: Option<u32>) -> Seq<char> {
    match v {
        Some(n) => "0x"@ + hex_fixed(n as nat, 8),
        None => "?"@,
    }
}

/// A byte in base 16, or a question mark.
pub open spec fn hex8_text(v: Option<u8>) -> Seq<char> {
    match v {
        Some(n) => "0x"@ + hex_fixed(n as nat, 2),
        None => "?"@,
    }
}

/// A number, or a question mark.
pub open spec fn dec32_text(v: Option<u32>) -> Seq<char> {
    match v {
        Some(n) => decimal(n as nat),
        None => "?"@,
    }
}

/// A coordinate, or a question mark.
pub open spec fn coordinate_text(v: Option<i32>) -> Seq<char> {
    match v {
        Some(n) => signed_decimal(n as int),
        None => "?"@,
    }
}

fn push_hex32(out: &mut String, label: &str, v: Option<u32>)
    ensures
        final(out)@ == old(out)@ + label@ + hex32_text(v),
{
    out.append(label);
    match v {
        Some(n) => {
            out.append("0x");
            push_hex_fixed(out, n, 8);
        },
        None => {
            out.append("?");
        },
    }
    assert(final(out)@ =~= old(out)@ + label@ + hex32_text(v));
}

fn push_hex8(out: &mut String, label: &str, v: Option<u8>)
    ensures
        final(out)@ == old(out)@ + label@ + hex8_text(v),
{
    out.append(label);
    match v {
        Some(n) => {
            out.append("0x");
            push_hex_fixed(out, n as u32, 2);
        },
        None => {
            out.append("?");
        },
    }
    assert(final(out)@ =~= old(out)@ + label@ + hex8_text(v));
}

fn push_dec32(out: &mut String, label: &str, v: Option<u32>)
    ensures
        final(out)@ == old(out)@ + label@ + dec32_text(v),
{
    out.append(label);
    match v {
        Some(n) => {
            push_decimal(out, n as u64);
        },
        None => {
            out.append("?");
        },
    }
}

fn push_coordinate(out: &mut String, label: &str, v: Option<i32>)
    ensures
        final(out)@ == old(out)@ + label@ + coordinate_text(v),
{
    out.append(label);
    match v {
        Some(n) => {
            push_signed(out, n);
        },
        None => {
            out.append("?");
        },
    }
}

/// An address that is not null.
pub open spec fn present(ptr: Option<u32>) -> Option<u32> {
    if ptr == Some(0u32) {
        None
    } else {
        ptr
    }
}

/// The actor's values, which count only where there is an actor.
pub open spec fn actor_of(s: WalkStateReading) -> ActorReading {
    if present(s.actor_ptr) is Some {
        s.actor
    } else {
        ActorReading {
            action: None,
            dir: None,
            frame: None,
            mark: None,
            raw_x: None,
            x: None,
            y: None,
            busy: None,
        }
    }
}

/// The walk and the pointers of the client.
pub open spec fn walk_part(
    phase: Seq<char>,
    player: PlayerPosition,
    target_x: int,
    target_y: int,
    s: WalkStateReading,
) -> Seq<char> {
    "[bot/walk_state] phase="@ + phase + " target=("@ + signed_decimal(target_x) + ", "@
        + signed_decimal(target_y) + ") player=("@ + signed_decimal(player.x as int) + ", "@
        + signed_decimal(player.y as int) + ") actor_ptr@00C2B268="@ + hex32_text(
        present(s.actor_ptr),
    ) + " bot_player_ptr@00C2D2B8="@ + hex32_text(s.player_ptr) + " target_entity@00C2B264="@
        + hex32_text(s.target_entity_ptr)
}

/// The target of the walk as the client prepared it.
pub open spec fn target_part(s: WalkStateReading) -> Seq<char> {
    " prepared@009A9C6C=("@ + coordinate_text(s.prepared_x) + ", "@ + dec32_text(s.prepared_y)
        + ") mouse@009A9C74=("@ + dec32_text(s.mouse_x) + ", "@ + dec32_text(s.mouse_y)
        + ") valid@009A93BF="@ + hex8_text(s.target_valid) + " mode@009A92FC="@ + hex8_text(
        s.target_mode8,
    ) + "/"@ + hex32_text(s.target_mode32) + " cont@00AC24D4="@ + hex8_text(s.continue_flag)
}

/// The client's flags.
pub open spec fn flag_part(s: WalkStateReading) -> Seq<char> {
    " flags@00C2B24D/B24E/B24F/B272/B273="@ + hex8_text(s.flag_24d) + "/"@ + hex8_text(s.flag_24e)
        + "/"@ + hex8_text(s.flag_24f) + "/"@ + hex8_text(s.flag_272) + "/"@ + hex8_text(s.flag_273)
        + " obf@00BDA784/778="@ + hex32_text(s.obf_a) + "/"@ + hex32_text(s.obf_b)
}

/// The actor.
pub open spec fn actor_part(a: ActorReading) -> Seq<char> {
    " actor(+14/+15/+17/+134)="@ + hex8_text(a.action) + "/"@ + hex8_text(a.dir) + "/"@ + hex8_text(
        a.frame,
    ) + "/"@ + hex8_text(a.mark) + " actor_pos(raw_x/x/y)="@ + hex32_text(a.raw_x) + "/"@
        + coordinate_text(a.x) + "/"@ + dec32_text(a.y) + " actor_busy@+7C="@ + hex32_text(a.busy)
}

fn present_ptr(ptr: Option<u32>) -> (r: Option<u32>)
    ensures
        r == present(ptr),
{
    match ptr {
        Some(p) => if p == 0 {
            None
        } else {
            Some(p)
        },
        None => None,
    }
}

fn write_target_part(s: &WalkStateReading) -> (r: String)
    ensures
        r@ == target_part(*s),
{
    let mut out = String::new();
    push_coordinate(&mut out, " prepared@009A9C6C=(", s.prepared_x);
    assert(out@ =~= " prepared@009A9C6C=("@ + coordinate_text(s.prepared_x));
    push_dec32(&mut out, ", ", s.prepared_y);
    push_dec32(&mut out, ") mouse@009A9C74=(", s.mouse_x);
    push_dec32(&mut out, ", ", s.mouse_y);
    push_hex8(&mut out, ") valid@009A93BF=", s.target_valid);
    push_hex8(&mut out, " mode@009A92FC=", s.target_mode8);
    push_hex32(&mut out, "/", s.target_mode32);
    push_hex8(&mut out, " cont@00AC24D4=", s.continue_flag);
    out
}

fn write_flag_part(s: &WalkStateReading) -> (r: String)
    ensures
        r@ == flag_part(*s),
{
    let mut out = String::new();
    push_hex8(&mut out, " flags@00C2B24D/B24E/B24F/B272/B273=", s.flag_24d);
    assert(out@ =~= " flags@00C2B24D/B24E/B24F/B272/B273="@ + hex8_text(s.flag_24d));
    push_hex8(&mut out, "/", s.flag_24e);
    push_hex8(&mut out, "/", s.flag_24f);
    push_hex8(&mut out, "/", s.flag_272);
    push_hex8(&mut out, "/", s.flag_273);
    push_hex32(&mut out, " obf@00BDA784/778=", s.obf_a);
    push_hex32(&mut out, "/", s.obf_b);
    out
}

fn write_actor_part(a: &ActorReading) -> (r: String)
    ensures
        r@ == actor_part(*a),
{
    let mut out = String::new();
    push_hex8(&mut out, " actor(+14/+15/+17/+134)=", a.action);
    assert(out@ =~= " actor(+14/+15/+17/+134)="@ + hex8_text(a.action));
    push_hex8(&mut out, "/", a.dir);
    push_hex8(&mut out, "/", a.frame);
    push_hex8(&mut out, "/", a.mark);
    push_hex32(&mut out, " actor_pos(raw_x/x/y)=", a.raw_x);
    push_coordinate(&mut out, "/", a.x);
    push_dec32(&mut out, "/", a.y);
    push_hex32(&mut out, " actor_busy@+7C=", a.busy);
    out
}

/// The report of a walk: what was asked for, and what the client made of it.
pub fn log_walk_state(
    phase: &str,
    player: PlayerPosition,
    target_x: i32,
    target_y: i32,
    state: &WalkStateReading,
) -> (r: String)
    ensures
        r@ == walk_part(phase@, player, target_x as int, target_y as int, *state) + target_part(
            *state,
        ) + flag_part(*state) + actor_part(actor_of(*state)),
{
    let actor_ptr: Option<u32> = present_ptr(state.actor_ptr);
    let actor: ActorReading = match actor_ptr {
        Some(_) => state.actor,
        None => ActorReading {
            action: None,
            dir: None,
            frame: None,
            mark: None,
            raw_x: None,
            x: None,
            y: None,
            busy: None,
        },
    };
    let mut out = String::new();
    out.append("[bot/walk_state] phase=");
    out.append(phase);
    out.append(" target=(");
    push_signed(&mut out, target_x);
    out.append(", ");
    push_signed(&mut out, target_y);
    out.append(") player=(");
    push_signed(&mut out, player.x);
    out.append(", ");
    push_signed(&mut out, player.y);
    push_hex32(&mut out, ") actor_ptr@00C2B268=", actor_ptr);
    push_hex32(&mut out, " bot_player_ptr@00C2D2B8=", state.player_ptr);
    push_hex32(&mut out, " target_entity@00C2B264=", state.target_entity_ptr);
    assert(out@ =~= walk_part(phase@, player, target_x as int, target_y as int, *state));
    out.append(write_target_part(state).as_str());
    out.append(write_flag_part(state).as_str());
    out.append(write_actor_part(&actor).as_str());
    out
}

} // verus!
