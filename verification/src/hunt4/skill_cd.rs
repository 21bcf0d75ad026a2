//! How long a skill must rest between two casts.
use vstd::prelude::*;

verus! {

/// Where the client keeps the rest of each skill, two bytes a skill.
pub const SKILL_CD_TABLE: u32 = 0x0096_D630;

/// The last skill that the table holds.
pub const TABLE_MAX_PACKED: u32 = 0xDB;

/// The rest that is assumed where the table cannot be read.
pub const FALLBACK_GATE_MS: u64 = 2000;

/// Where the rest of a skill is found, for a skill that the table holds.
pub fn skill_cd_addr(packed: u32) -> (r: Option<u32>)
    ensures
        r == (if packed <= TABLE_MAX_PACKED {
            Some((SKILL_CD_TABLE + packed * 2) as u32)
        } else {
            None
        }),
{
    if packed > TABLE_MAX_PACKED {
        return None;
    }
    Some(SKILL_CD_TABLE + packed * 2)
}

/// The rest that a table entry stands for: it is signed, and below zero there
/// is none.
pub fn skill_cd_ms(raw: u16) -> (r: u16)
    ensures
        r == (if raw < 0x8000 {
            raw
        } else {
            0
        }),
{
    if raw < 0x8000 {
        raw
    } else {
        0
    }
}

/// The rest between two casts, for a rest in the table.
pub fn effective_gate_ms(table_ms: u16) -> (r: u64)
    ensures
        r == table_ms,
{
    table_ms as u64
}

/// The rest of a skill, by its place in the book and what the table holds for
/// it. There is none to be had of a skill that is missing from the book or from
/// the table, or where the table cannot be read.
pub fn lookup_gate_ms(packed: Option<u32>, table_entry: Option<u16>) -> (r: Option<u64>)
    ensures
        match r {
            Some(ms) => {
                &&& packed matches Some(p) && p <= TABLE_MAX_PACKED
                &&& table_entry matches Some(raw) && ms == (if raw < 0x8000 {
                    raw as int
                } else {
                    0
                })
            },
            None => packed is None || packed->0 > TABLE_MAX_PACKED || table_entry is None,
        },
{
    match (packed, table_entry) {
        (Some(p), Some(raw)) => if p > TABLE_MAX_PACKED {
            None
        } else {
            Some(effective_gate_ms(skill_cd_ms(raw)))
        },
        _ => None,
    }
}

} // verus!
