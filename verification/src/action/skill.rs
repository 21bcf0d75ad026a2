//! Casting skills.
use crate::client::spell_book::{SpellBook, SpellEntry};
use vstd::prelude::*;

verus! {

/// At what a skill is cast.
#[derive(Debug, Clone, Copy, PartialEq, Eq, Structural)]
pub enum SkillTargetMode {
    AttackEntity(u32),
    ForceSelfPacket,
}

/// A skill to cast.
#[derive(Debug, Clone, Copy, PartialEq, Eq, Structural)]
pub struct SkillCast {
    pub packed: u32,
    pub mode: SkillTargetMode,
}

/// A cast of a skill that the player has learned; none of another.
pub open spec fn cast_of(
    book: Map<Seq<char>, SpellEntry>,
    name: Seq<char>,
    mode: SkillTargetMode,
) -> Option<SkillCast> {
    if book.contains_key(name) {
        Some(SkillCast { packed: book[name].packed, mode })
    } else {
        None
    }
}

/// How to cast a skill at a target.
pub fn cast_damage_skill_at(book: &SpellBook, skill_name: &str, target_id: u32) -> (r: Option<
    SkillCast,
>)
    ensures
        r == cast_of(book.map@, skill_name@, SkillTargetMode::AttackEntity(target_id)),
{
    match book.lookup(skill_name) {
        Some(packed) => Some(
            SkillCast { packed, mode: SkillTargetMode::AttackEntity(target_id) },
        ),
        None => None,
    }
}

/// How to cast a skill on oneself.
pub fn cast_self_buff(book: &SpellBook, skill_name: &str) -> (r: Option<SkillCast>)
    ensures
        r == cast_of(book.map@, skill_name@, SkillTargetMode::ForceSelfPacket),
{
    match book.lookup(skill_name) {
        Some(packed) => Some(SkillCast { packed, mode: SkillTargetMode::ForceSelfPacket }),
        None => None,
    }
}

} // verus!
