use hunt_bot::decide::pathfind::{Walkable, default_can_step};
use hunt_bot::hunt4::candidate::{CandidateFrameInput, build_candidate_frame};
use hunt_bot::hunt4::memory::TacticalMemory;
use hunt_bot::hunt4::model::{EntityClass, EntityView, Snapshot};
use hunt_bot::time::Instant;
use std::collections::HashSet;

/// A moment with time before and after it.
fn start() -> Instant {
    Instant::from_nanos(1_000_000_000_000_000)
}

struct OpenGrid;

impl Walkable for OpenGrid {
    fn is_walkable(&self, _tile_x: i32, _tile_y: i32) -> bool {
        true
    }

    fn blocks_sight(&self, x: i32, y: i32) -> bool {
        !self.is_walkable(x, y)
    }

    fn can_step(&self, from: (i32, i32), to: (i32, i32)) -> bool {
        default_can_step(self, from, to)
    }

    fn movement_penalty(&self, _from: (i32, i32), _to: (i32, i32)) -> u32 {
        0
    }

    fn walkable(&self, tile: (i32, i32)) -> bool {
        self.is_walkable(tile.0, tile.1)
    }

    fn sight_blocked(&self, tile: (i32, i32)) -> bool {
        self.blocks_sight(tile.0, tile.1)
    }

    fn steppable(&self, from: (i32, i32), to: (i32, i32)) -> bool {
        self.can_step(from, to)
    }

    fn penalty(&self, from: (i32, i32), to: (i32, i32)) -> u32 {
        self.movement_penalty(from, to)
    }
}

fn live_mob(target_id: u32, tile: (i32, i32)) -> EntityView {
    EntityView {
        target_id,
        entity_ptr: target_id + 0x1000,
        name: format!("mob_{target_id:X}"),
        sprite_id: 2489,
        action_state: 0,
        tile,
        raw_x: tile.0 as u32,
        y: tile.1 as u32,
        class: EntityClass::AttackableMonster,
        visible_confidence: 100,
        hostile_confidence: 100,
    }
}

fn hidden_mob(target_id: u32, tile: (i32, i32)) -> EntityView {
    EntityView {
        target_id,
        entity_ptr: target_id + 0x1000,
        name: format!("hidden_{target_id:X}"),
        sprite_id: 2489,
        action_state: 0x0D,
        tile,
        raw_x: tile.0 as u32,
        y: tile.1 as u32,
        class: EntityClass::NonWorldMonsterState,
        visible_confidence: 100,
        hostile_confidence: 0,
    }
}

#[test]
fn build_candidate_frame_records_attacker_context() {
    let now = start();
    let snapshot = Snapshot {
        player: Some((100, 100)),
        entities: vec![
            live_mob(0x0100_0001, (101, 100)),
            live_mob(0x0100_0002, (104, 100)),
            hidden_mob(0x0100_0003, (102, 100)),
        ],
    };
    let memory = TacticalMemory::default();
    let grid = OpenGrid;
    let recent_attackers = HashSet::from([0x0100_0002]);

    let frame = build_candidate_frame(CandidateFrameInput {
        snapshot: &snapshot,
        player_tile: (100, 100),
        attack_range: 1,
        grid: Some(&grid),
        memory: &memory,
        recent_attackers: &recent_attackers,
        now,
    });

    assert_eq!(frame.now, now);
    assert_eq!(frame.player_tile, (100, 100));
    assert_eq!(frame.attack_range, 1);
    assert_eq!(frame.recent_attacker_count, 1);
    assert_eq!(frame.candidates.len(), 2);
    assert_eq!(frame.candidates[0].target_id, 0x0100_0001);
    assert!(frame
        .candidates
        .iter()
        .any(|candidate| candidate.target_id == 0x0100_0002 && candidate.is_attacker));
    assert_eq!(
        frame
            .target_selection
            .selected
            .as_ref()
            .map(|target| target.target_id),
        Some(0x0100_0001)
    );
    assert!(frame
        .target_selection
        .rejected
        .iter()
        .any(|reject| reject.target_id == 0x0100_0003));
}
