//! Which kind of weapon the player holds.
//!
//! The client keeps the weapon class in two obfuscated integer containers of
//! three words each: a key, a pointer to an array, and a mask. The value is the
//! array element at `key ^ KEY1_XOR`, masked again.
use vstd::prelude::*;

verus! {

/// Container that is tested for the classes `RANGED_CLASS_D4_A` and `_B`.
pub const WEAPON_CONTAINER_D4: u32 = 0x00BD_C7D4;

/// Container that is tested for the classes `RANGED_CLASS_C8_A` and `_B`.
pub const WEAPON_CONTAINER_C8: u32 = 0x00BD_C7C8;

pub const KEY1_XOR: u32 = 0xC001_7921;

pub const RANGED_CLASS_D4_A: u32 = 0x14;

pub const RANGED_CLASS_D4_B: u32 = 0x3E;

pub const RANGED_CLASS_C8_A: u32 = 0x448;

pub const RANGED_CLASS_C8_B: u32 = 0x465;

/// Where the masked value of a container lies: four bytes per index from
/// `data_ptr`, in 32-bit address arithmetic. A null pointer means that the
/// player has not entered the world.
pub fn obfuscated_slot_addr(key1: u32, data_ptr: u32) -> (r: Option<u32>)
    ensures
        data_ptr == 0 <==> r is None,
        data_ptr != 0 ==> r->0 as int == (data_ptr + 4 * ((key1 ^ KEY1_XOR) as int)) % 0x1_0000_0000,
{
    if data_ptr == 0 {
        return None;
    }
    let index: u32 = key1 ^ KEY1_XOR;
    let addr: u64 = data_ptr as u64 + 4 * (index as u64);
    Some((addr % 0x1_0000_0000) as u32)
}

/// The value of a container, given the word in its slot.
pub fn unmask_slot(raw: u32, xor_key: u32) -> (r: u32)
    ensures
        r == raw ^ xor_key,
{
    raw ^ xor_key
}

/// Whether the two container values name a ranged weapon. Where either of the
/// containers could not be read, the weapon counts as melee.
pub fn is_ranged_weapon_equipped(d4: Option<u32>, c8: Option<u32>) -> (r: bool)
    ensures
        r == (d4 is Some && c8 is Some && (d4 == Some(RANGED_CLASS_D4_A) || d4 == Some(
            RANGED_CLASS_D4_B,
        ) || c8 == Some(RANGED_CLASS_C8_A) || c8 == Some(RANGED_CLASS_C8_B))),
{
    match (d4, c8) {
        (Some(d4_value), Some(c8_value)) => d4_value == RANGED_CLASS_D4_A || d4_value
            == RANGED_CLASS_D4_B || c8_value == RANGED_CLASS_C8_A || c8_value == RANGED_CLASS_C8_B,
        _ => false,
    }
}

/// Masking twice gives the value back.
pub proof fn law_unmask_involution(raw: u32, xor_key: u32)
    ensures
        (raw ^ xor_key) ^ xor_key == raw,
{
    assert((raw ^ xor_key) ^ xor_key == raw) by (bit_vector);
}

} // verus!
