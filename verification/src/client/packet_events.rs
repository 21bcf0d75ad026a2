//! What the server reports, as far as the hunt cares.
use vstd::prelude::*;

verus! {

/// The action of dying.
pub const ACTION_DIE: u8 = 0x08;

/// A target of a range skill.
#[derive(Debug, Clone, Copy, PartialEq, Eq, Structural)]
pub struct RangeSkillTarget {
    pub object_id: u32,
    pub hit: bool,
    pub damage: u32,
}

/// Something that the server reports.
#[derive(Debug, PartialEq, Eq)]
pub enum BotPacketEvent {
    MoveObject { object_id: u32 },
    Attack { attacker_id: u32, target_id: u32, damage: u16 },
    RangeSkill { caster_id: u32, targets: Vec<RangeSkillTarget> },
    PutObject { object_id: u32, status: u8 },
    RemoveObject { object_id: u32 },
    Action { object_id: u32, action: u8 },
    HpMeter { object_id: u32, clear: bool },
}

/// A report as a value.
#[verifier::ext_equal]
pub enum EventView {
    MoveObject { object_id: u32 },
    Attack { attacker_id: u32, target_id: u32, damage: u16 },
    RangeSkill { caster_id: u32, targets: Seq<RangeSkillTarget> },
    PutObject { object_id: u32, status: u8 },
    RemoveObject { object_id: u32 },
    Action { object_id: u32, action: u8 },
    HpMeter { object_id: u32, clear: bool },
}

impl View for BotPacketEvent {
    type V = EventView;

    open spec fn view(&self) -> EventView {
        match *self {
            BotPacketEvent::MoveObject { object_id } => EventView::MoveObject { object_id },
            BotPacketEvent::Attack { attacker_id, target_id, damage } => EventView::Attack {
                attacker_id,
                target_id,
                damage,
            },
            BotPacketEvent::RangeSkill { caster_id, targets } => EventView::RangeSkill {
                caster_id,
                targets: targets@,
            },
            BotPacketEvent::PutObject { object_id, status } => EventView::PutObject {
                object_id,
                status,
            },
            BotPacketEvent::RemoveObject { object_id } => EventView::RemoveObject { object_id },
            BotPacketEvent::Action { object_id, action } => EventView::Action { object_id, action },
            BotPacketEvent::HpMeter { object_id, clear } => EventView::HpMeter { object_id, clear },
        }
    }
}

} // verus!
