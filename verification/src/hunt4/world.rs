//! What one tick sees of the world.
use crate::action::screen_target::PlayerPosition;
use crate::hunt4::model::Snapshot;
use crate::time::Instant;
use vstd::prelude::*;

verus! {

/// The player's vital signs.
#[derive(Debug, Clone, Copy, PartialEq, Eq, Structural)]
pub struct PlayerView {
    pub hp: u32,
    pub max_hp: u32,
    pub weight_pct: u8,
}

/// What one tick sees of the world.
#[derive(Debug)]
pub struct WorldFrame {
    pub now: Instant,
    pub in_game: bool,
    pub map_id: Option<u32>,
    pub player_view: Option<PlayerView>,
    pub player_pos_data: Option<PlayerPosition>,
    pub snapshot: Snapshot,
}

impl WorldFrame {
    pub open spec fn tile(self) -> Option<(i32, i32)> {
        match self.player_pos_data {
            Some(p) => Some((p.x, p.y)),
            None => None,
        }
    }

    pub open spec fn hp(self) -> Option<u32> {
        match self.player_view {
            Some(v) => Some(v.hp),
            None => None,
        }
    }

    pub open spec fn max_hp(self) -> u32 {
        match self.player_view {
            Some(v) => v.max_hp,
            None => 0,
        }
    }

    pub open spec fn alive(self) -> bool {
        self.player_view matches Some(v) && v.hp > 0
    }

    pub open spec fn weight(self) -> u8 {
        match self.player_view {
            Some(v) => v.weight_pct,
            None => 0,
        }
    }

    pub fn player_tile(&self) -> (r: Option<(i32, i32)>)
        ensures
            r == self.tile(),
    {
        match self.player_pos_data {
            Some(p) => Some((p.x, p.y)),
            None => None,
        }
    }

    pub fn cur_hp(&self) -> (r: Option<u32>)
        ensures
            r == self.hp(),
    {
        match self.player_view {
            Some(v) => Some(v.hp),
            None => None,
        }
    }

    /// All hit points, 0 where they are unknown.
    pub fn cur_max_hp(&self) -> (r: u32)
        ensures
            r == self.max_hp(),
    {
        match self.player_view {
            Some(v) => v.max_hp,
            None => 0,
        }
    }

    /// Whether the player is known to have hit points left.
    pub fn player_alive(&self) -> (r: bool)
        ensures
            r == self.alive(),
    {
        match self.player_view {
            Some(v) => v.hp > 0,
            None => false,
        }
    }

    /// The load carried, in percent, 0 where it is unknown.
    pub fn weight_pct(&self) -> (r: u8)
        ensures
            r == self.weight(),
    {
        match self.player_view {
            Some(v) => v.weight_pct,
            None => 0,
        }
    }
}

} // verus!
