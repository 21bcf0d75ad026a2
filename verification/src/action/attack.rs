//! Machine code that starts the client's own attack loop on a target.
use vstd::prelude::*;

verus! {

/// The client's click-attack routine.
pub const CLICK_ATTACK_FUNC: u32 = 0x005A_3770;

/// Room that is set aside for the code.
pub const SHELLCODE_REGION_SIZE: usize = 32;

/// Length of the code.
pub const SHELLCODE_BYTES: usize = 30;

/// The four bytes of `x`, lowest first.
pub open spec fn le32(x: u32) -> Seq<u8> {
    seq![
        (x % 256) as u8,
        (x / 256 % 256) as u8,
        (x / 65536 % 256) as u8,
        (x / 16777216) as u8,
    ]
}

/// Appends `bytes` to `out`.
pub fn emit(out: &mut Vec<u8>, bytes: Vec<u8>)
    ensures
        final(out)@ == old(out)@ + bytes@,
{
    let mut bytes = bytes;
    out.append(&mut bytes);
}

/// Appends a 32-bit word, lowest byte first.
pub fn emit_u32(out: &mut Vec<u8>, x: u32)
    ensures
        final(out)@ == old(out)@ + le32(x),
{
    out.push((x % 256) as u8);
    out.push((x / 256 % 256) as u8);
    out.push((x / 65536 % 256) as u8);
    out.push((x / 16777216) as u8);
    assert(final(out)@ =~= old(out)@ + le32(x));
}

/// `push 0; push y; push x; push target; mov ecx, this; mov eax, routine;
/// call eax; ret`.
pub open spec fn bootstrap_code(this_ptr: u32, target_ptr: u32, target_x: u32, target_y: u32) -> Seq<u8> {
    seq![0x6Au8, 0x00u8, 0x68u8] + le32(target_y) + seq![0x68u8] + le32(target_x) + seq![0x68u8]
        + le32(target_ptr) + seq![0xB9u8] + le32(this_ptr) + seq![0xB8u8] + le32(CLICK_ATTACK_FUNC)
        + seq![0xFFu8, 0xD0u8, 0xC3u8]
}

/// The code that calls the click-attack routine once, with the local player as
/// receiver and the target's address and position as arguments.
pub fn build_bootstrap_shellcode(this_ptr: u32, target_ptr: u32, target_x: u32, target_y: u32) -> (r: Vec<u8>)
    ensures
        r@ == bootstrap_code(this_ptr, target_ptr, target_x, target_y),
        r@.len() == SHELLCODE_BYTES,
{
    let mut sc: Vec<u8> = Vec::with_capacity(SHELLCODE_REGION_SIZE);
    emit(&mut sc, vec![0x6A, 0x00, 0x68]);
    emit_u32(&mut sc, target_y);
    emit(&mut sc, vec![0x68]);
    emit_u32(&mut sc, target_x);
    emit(&mut sc, vec![0x68]);
    emit_u32(&mut sc, target_ptr);
    emit(&mut sc, vec![0xB9]);
    emit_u32(&mut sc, this_ptr);
    emit(&mut sc, vec![0xB8]);
    emit_u32(&mut sc, CLICK_ATTACK_FUNC);
    emit(&mut sc, vec![0xFF, 0xD0, 0xC3]);
    assert(sc@ =~= bootstrap_code(this_ptr, target_ptr, target_x, target_y));
    sc
}

/// How long the client still refuses another attack, in milliseconds: the time
/// from `now` to the tick that it recorded, 0 once that has passed, and 0 where
/// the tick could not be read.
pub fn click_attack_cd_remaining_ms(next_tick: Option<u32>, now: u32) -> (r: u32)
    ensures
        r == match next_tick {
            Some(t) => if t >= now { t - now } else { 0 },
            None => 0,
        },
{
    match next_tick {
        Some(t) => t.saturating_sub(now),
        None => 0,
    }
}

/// A value of the client that an attack sets.
#[derive(Debug, Clone, Copy, PartialEq, Eq, Structural)]
pub enum AttackSlot {
    /// When the client allows the next attack.
    NextTick,
    TargetPtr,
    TargetX,
    TargetY,
    ModeFlag,
    /// Whether the client goes on attacking by itself.
    AutoAttackFlag,
}

/// Bytes to write to a value of the client.
#[derive(Debug)]
pub struct SlotWrite {
    pub slot: AttackSlot,
    pub bytes: Vec<u8>,
}

/// What is written, as values.
pub open spec fn write_views(s: Seq<SlotWrite>) -> Seq<(AttackSlot, Seq<u8>)> {
    Seq::new(s.len(), |i: int| (s[i].slot, s[i].bytes@))
}

/// What an attack sets, in order: on a fresh target the wait for the last one
/// is over; then the target and its place, the plain mode, and that the client
/// goes on by itself.
pub open spec fn attack_setup(target_ptr: u32, target_x: u32, target_y: u32, fresh: bool) -> Seq<
    (AttackSlot, Seq<u8>),
> {
    (if fresh {
        seq![(AttackSlot::NextTick, le32(0))]
    } else {
        seq![]
    }) + seq![
        (AttackSlot::TargetPtr, le32(target_ptr)),
        (AttackSlot::TargetX, le32(target_x)),
        (AttackSlot::TargetY, le32(target_y)),
        (AttackSlot::ModeFlag, le32(0)),
        (AttackSlot::AutoAttackFlag, seq![1u8]),
    ]
}

fn push_write(out: &mut Vec<SlotWrite>, slot: AttackSlot, bytes: Vec<u8>)
    ensures
        write_views(final(out)@) == write_views(old(out)@).push((slot, bytes@)),
{
    let ghost before = write_views(out@);
    out.push(SlotWrite { slot, bytes });
    assert(write_views(out@) =~= before.push((slot, bytes@)));
}

fn push_word(out: &mut Vec<SlotWrite>, slot: AttackSlot, x: u32)
    ensures
        write_views(final(out)@) == write_views(old(out)@).push((slot, le32(x))),
{
    let mut bytes: Vec<u8> = Vec::new();
    emit_u32(&mut bytes, x);
    assert(bytes@ =~= le32(x));
    push_write(out, slot, bytes);
}

/// What to write before an attack is started.
pub fn attack_writes(
    target_entity_ptr: u32,
    target_raw_x: u32,
    target_y: u32,
    fresh_target: bool,
) -> (r: Vec<SlotWrite>)
    ensures
        write_views(r@) == attack_setup(target_entity_ptr, target_raw_x, target_y, fresh_target),
{
    let mut out: Vec<SlotWrite> = Vec::new();
    assert(write_views(out@) =~= seq![]);
    if fresh_target {
        push_word(&mut out, AttackSlot::NextTick, 0);
    }
    push_word(&mut out, AttackSlot::TargetPtr, target_entity_ptr);
    push_word(&mut out, AttackSlot::TargetX, target_raw_x);
    push_word(&mut out, AttackSlot::TargetY, target_y);
    push_word(&mut out, AttackSlot::ModeFlag, 0);
    let flag: Vec<u8> = vec![1];
    assert(flag@ =~= seq![1u8]);
    push_write(&mut out, AttackSlot::AutoAttackFlag, flag);
    assert(write_views(out@) =~= attack_setup(
        target_entity_ptr,
        target_raw_x,
        target_y,
        fresh_target,
    ));
    out
}

/// Why an attack cannot be started.
#[derive(Debug, Clone, Copy, PartialEq, Eq, Structural)]
pub enum AttackError {
    /// The player is not in the world.
    NoPlayer,
}

/// The code that starts an attack, once its setup has been written. `this_ptr`
/// is the address of the player's own entity.
pub fn bootstrap_click_attack(
    this_ptr: u32,
    target_entity_ptr: u32,
    target_raw_x: u32,
    target_y: u32,
) -> (r: Result<Vec<u8>, AttackError>)
    ensures
        match r {
            Ok(code) => this_ptr != 0 && code@ == bootstrap_code(
                this_ptr,
                target_entity_ptr,
                target_raw_x,
                target_y,
            ),
            Err(AttackError::NoPlayer) => this_ptr == 0,
        },
{
    if this_ptr == 0 {
        return Err(AttackError::NoPlayer);
    }
    Ok(build_bootstrap_shellcode(this_ptr, target_entity_ptr, target_raw_x, target_y))
}

/// What to write so that the client stops attacking by itself.
pub fn stop_client_auto_attack() -> (r: SlotWrite)
    ensures
        r.slot == AttackSlot::AutoAttackFlag,
        r.bytes@ == seq![0u8],
{
    SlotWrite { slot: AttackSlot::AutoAttackFlag, bytes: vec![0] }
}

/// The number that four bytes stand for, the lowest first.
pub open spec fn read_word(bytes: Seq<u8>, at: int) -> int {
    bytes[at] + 256 * bytes[at + 1] + 65_536 * bytes[at + 2] + 16_777_216 * bytes[at + 3]
}

/// A word is read back from its bytes.
pub proof fn law_word_reads_back(x: u32)
    ensures
        le32(x).len() == 4,
        read_word(le32(x), 0) == x,
{
    let a = x / 256;
    let b = x / 65536;
    assert(x / 65536 == (x / 256) / 256);
    assert(x / 16777216 == (x / 65536) / 256);
}

/// The code pushes zero, the coordinates from the last to the first and the target,
/// loads the client's object and the address of its function, calls it and returns.
pub proof fn law_code_calls_attack(this_ptr: u32, target_ptr: u32, target_x: u32, target_y: u32)
    ensures
        ({
            let code = bootstrap_code(this_ptr, target_ptr, target_x, target_y);
            &&& code.len() == 30
            &&& code[0] == 0x6A && code[1] == 0
            &&& code[2] == 0x68 && read_word(code, 3) == target_y
            &&& code[7] == 0x68 && read_word(code, 8) == target_x
            &&& code[12] == 0x68 && read_word(code, 13) == target_ptr
            &&& code[17] == 0xB9 && read_word(code, 18) == this_ptr
            &&& code[22] == 0xB8 && read_word(code, 23) == 0x005A_3770
            &&& code[27] == 0xFF && code[28] == 0xD0 && code[29] == 0xC3
        }),
{
    law_word_reads_back(this_ptr);
    law_word_reads_back(target_ptr);
    law_word_reads_back(target_x);
    law_word_reads_back(target_y);
    law_word_reads_back(CLICK_ATTACK_FUNC);
    let code = bootstrap_code(this_ptr, target_ptr, target_x, target_y);
    assert(code.subrange(3, 7) =~= le32(target_y));
    assert(code.subrange(8, 12) =~= le32(target_x));
    assert(code.subrange(13, 17) =~= le32(target_ptr));
    assert(code.subrange(18, 22) =~= le32(this_ptr));
    assert(code.subrange(23, 27) =~= le32(CLICK_ATTACK_FUNC));
}

/// An attack is set up by writing the target, then the mode, and the flag that sets
/// the client going last of all. A fresh target may be struck at once.
pub proof fn law_attack_set_up(target_ptr: u32, target_x: u32, target_y: u32, fresh: bool)
    ensures
        ({
            let w = attack_setup(target_ptr, target_x, target_y, fresh);
            let k: int = if fresh {
                1
            } else {
                0
            };
            &&& w.len() == k + 5
            &&& fresh ==> w[0].0 is NextTick && read_word(w[0].1, 0) == 0
            &&& w[k].0 is TargetPtr && read_word(w[k].1, 0) == target_ptr
            &&& w[k + 1].0 is TargetX && read_word(w[k + 1].1, 0) == target_x
            &&& w[k + 2].0 is TargetY && read_word(w[k + 2].1, 0) == target_y
            &&& w[k + 3].0 is ModeFlag && read_word(w[k + 3].1, 0) == 0
            &&& w[k + 4].0 is AutoAttackFlag && w[k + 4].1 == seq![1u8]
        }),
{
    law_word_reads_back(0);
    law_word_reads_back(target_ptr);
    law_word_reads_back(target_x);
    law_word_reads_back(target_y);
}

} // verus!
