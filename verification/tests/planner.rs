use hunt_bot::decide::pathfind::{MapWalkable, Walkable, default_can_step};
use hunt_bot::hunt4::explore::{
    build_explore_suggestion, build_explore_suggestion_for_map,
    build_explore_suggestion_with_profile, explore_goal_directions,
};
use hunt_bot::hunt4::memory::{
    ExploreDirectionKey, FAILED_TARGET_TTL_MS, FailureCause, FailureRecord, MemoryUpdate,
    POSITION_HISTORY_CAP, TacticalMemory,
};
use hunt_bot::hunt4::model::{EntityClass, EntityView, Snapshot};
use hunt_bot::hunt4::planner::build_candidates;
use hunt_bot::hunt4::step::TargetCandidate;
use hunt_bot::hunt4::targeting::sort_candidates;
use hunt_bot::minimap::{NavGrid, NavMap, NavProfile};
use hunt_bot::time::{Duration, Instant};
use std::collections::HashSet;

/// A moment with time before and after it.
fn start() -> Instant {
    Instant::from_nanos(1_000_000_000_000_000)
}

const BLOCK_ORIGIN: i32 = 0x8000;

/// Tiles of a corridor that runs east.
fn corridor(first: i32, last: i32) -> Vec<(i32, i32)> {
    (first..=last).map(|x| (BLOCK_ORIGIN + x, BLOCK_ORIGIN)).collect()
}

/// A map whose connected parts are these.
/// A grid without closed steps on which only walls hide anything.
fn plain_grid(tiles: Vec<(i32, i32)>) -> NavGrid {
    NavGrid { tiles, opaque: Vec::new(), see_through: Vec::new(), closed_edges: Vec::new() }
}

fn corridor_map(components: Vec<Vec<(i32, i32)>>) -> NavMap {
    NavMap {
        map_id: 7,
        nav: plain_grid(components.concat()),
        profile: NavProfile { components },
    }
}

fn live_mob(target_id: u32, tile: (i32, i32)) -> EntityView {
    EntityView {
        target_id,
        entity_ptr: 0xDEAD_0000 + target_id,
        name: format!("mob_{target_id:X}"),
        sprite_id: 1234,
        action_state: 2,
        tile,
        raw_x: (tile.0 as u32) * 2 + 0x8000,
        y: tile.1 as u32,
        class: EntityClass::AttackableMonster,
        visible_confidence: 100,
        hostile_confidence: 100,
    }
}

fn non_target_entity(target_id: u32, tile: (i32, i32), class: EntityClass) -> EntityView {
    EntityView {
        target_id,
        entity_ptr: 0xBEEF_0000 + target_id,
        name: format!("entity_{target_id:X}"),
        sprite_id: 66,
        action_state: 0,
        tile,
        raw_x: (tile.0 as u32) * 2 + 0x8000,
        y: tile.1 as u32,
        class,
        visible_confidence: 100,
        hostile_confidence: 0,
    }
}

fn hidden_mob(target_id: u32, tile: (i32, i32), action_state: u8) -> EntityView {
    let mut entity = live_mob(target_id, tile);
    entity.action_state = action_state;
    entity.class = EntityClass::NonWorldMonsterState;
    entity.hostile_confidence = 0;
    entity
}

struct OpenGrid;
impl Walkable for OpenGrid {
    fn is_walkable(&self, _x: i32, _y: i32) -> bool {
        true
    }

    fn blocks_sight(&self, x: i32, y: i32) -> bool {
        !self.is_walkable(x, y)
    }

    fn can_step(&self, from: (i32, i32), to: (i32, i32)) -> bool {
        default_can_step(self, from, to)
    }

    fn movement_penalty(&self, _from: (i32, i32), _to: (i32, i32)) -> u32 {
        0
    }

    fn walkable(&self, tile: (i32, i32)) -> bool {
        self.is_walkable(tile.0, tile.1)
    }

    fn sight_blocked(&self, tile: (i32, i32)) -> bool {
        self.blocks_sight(tile.0, tile.1)
    }

    fn steppable(&self, from: (i32, i32), to: (i32, i32)) -> bool {
        self.can_step(from, to)
    }

    fn penalty(&self, from: (i32, i32), to: (i32, i32)) -> u32 {
        self.movement_penalty(from, to)
    }
}

struct WallGrid;
impl Walkable for WallGrid {
    fn is_walkable(&self, x: i32, y: i32) -> bool {
        x == 100 && y == 100
    }

    fn blocks_sight(&self, x: i32, y: i32) -> bool {
        !self.is_walkable(x, y)
    }

    fn can_step(&self, from: (i32, i32), to: (i32, i32)) -> bool {
        default_can_step(self, from, to)
    }

    fn movement_penalty(&self, _from: (i32, i32), _to: (i32, i32)) -> u32 {
        0
    }

    fn walkable(&self, tile: (i32, i32)) -> bool {
        self.is_walkable(tile.0, tile.1)
    }

    fn sight_blocked(&self, tile: (i32, i32)) -> bool {
        self.blocks_sight(tile.0, tile.1)
    }

    fn steppable(&self, from: (i32, i32), to: (i32, i32)) -> bool {
        self.can_step(from, to)
    }

    fn penalty(&self, from: (i32, i32), to: (i32, i32)) -> u32 {
        self.movement_penalty(from, to)
    }
}

struct ShortCorridorGrid;
impl Walkable for ShortCorridorGrid {
    fn is_walkable(&self, x: i32, y: i32) -> bool {
        y == 100 && (100..=105).contains(&x)
    }

    fn blocks_sight(&self, x: i32, y: i32) -> bool {
        !self.is_walkable(x, y)
    }

    fn can_step(&self, from: (i32, i32), to: (i32, i32)) -> bool {
        default_can_step(self, from, to)
    }

    fn movement_penalty(&self, _from: (i32, i32), _to: (i32, i32)) -> u32 {
        0
    }

    fn walkable(&self, tile: (i32, i32)) -> bool {
        self.is_walkable(tile.0, tile.1)
    }

    fn sight_blocked(&self, tile: (i32, i32)) -> bool {
        self.blocks_sight(tile.0, tile.1)
    }

    fn steppable(&self, from: (i32, i32), to: (i32, i32)) -> bool {
        self.can_step(from, to)
    }

    fn penalty(&self, from: (i32, i32), to: (i32, i32)) -> u32 {
        self.movement_penalty(from, to)
    }
}

struct VerticalWallGrid;
impl Walkable for VerticalWallGrid {
    fn is_walkable(&self, x: i32, _y: i32) -> bool {
        x != 101
    }

    fn blocks_sight(&self, x: i32, y: i32) -> bool {
        !self.is_walkable(x, y)
    }

    fn can_step(&self, from: (i32, i32), to: (i32, i32)) -> bool {
        default_can_step(self, from, to)
    }

    fn movement_penalty(&self, _from: (i32, i32), _to: (i32, i32)) -> u32 {
        0
    }

    fn walkable(&self, tile: (i32, i32)) -> bool {
        self.is_walkable(tile.0, tile.1)
    }

    fn sight_blocked(&self, tile: (i32, i32)) -> bool {
        self.blocks_sight(tile.0, tile.1)
    }

    fn steppable(&self, from: (i32, i32), to: (i32, i32)) -> bool {
        self.can_step(from, to)
    }

    fn penalty(&self, from: (i32, i32), to: (i32, i32)) -> u32 {
        self.movement_penalty(from, to)
    }
}

struct EdgeBlockedGrid;
impl Walkable for EdgeBlockedGrid {
    fn is_walkable(&self, _x: i32, _y: i32) -> bool {
        true
    }

    fn can_step(&self, from: (i32, i32), to: (i32, i32)) -> bool {
        let blocked_edge = (from == (100, 100) && to == (101, 100))
            || (from == (101, 100) && to == (100, 100));
        if blocked_edge {
            return false;
        }

        let dx = to.0 - from.0;
        let dy = to.1 - from.1;
        if dx == 0 && dy == 0 {
            return true;
        }
        if dx.abs() > 1 || dy.abs() > 1 {
            return false;
        }
        if dx != 0 && dy != 0 {
            return self.can_step(from, (from.0 + dx, from.1))
                && self.can_step((from.0 + dx, from.1), to)
                && self.can_step(from, (from.0, from.1 + dy))
                && self.can_step((from.0, from.1 + dy), to);
        }
        true
    }

    fn blocks_sight(&self, x: i32, y: i32) -> bool {
        !self.is_walkable(x, y)
    }

    fn movement_penalty(&self, _from: (i32, i32), _to: (i32, i32)) -> u32 {
        0
    }

    fn walkable(&self, tile: (i32, i32)) -> bool {
        self.is_walkable(tile.0, tile.1)
    }

    fn sight_blocked(&self, tile: (i32, i32)) -> bool {
        self.blocks_sight(tile.0, tile.1)
    }

    fn steppable(&self, from: (i32, i32), to: (i32, i32)) -> bool {
        self.can_step(from, to)
    }

    fn penalty(&self, from: (i32, i32), to: (i32, i32)) -> u32 {
        self.movement_penalty(from, to)
    }
}

struct DiagonalCornerSqueezeGrid;
impl Walkable for DiagonalCornerSqueezeGrid {
    fn is_walkable(&self, x: i32, y: i32) -> bool {
        !matches!((x, y), (100, 99) | (101, 101))
    }

    fn blocks_sight(&self, x: i32, y: i32) -> bool {
        !self.is_walkable(x, y)
    }

    fn can_step(&self, from: (i32, i32), to: (i32, i32)) -> bool {
        default_can_step(self, from, to)
    }

    fn movement_penalty(&self, _from: (i32, i32), _to: (i32, i32)) -> u32 {
        0
    }

    fn walkable(&self, tile: (i32, i32)) -> bool {
        self.is_walkable(tile.0, tile.1)
    }

    fn sight_blocked(&self, tile: (i32, i32)) -> bool {
        self.blocks_sight(tile.0, tile.1)
    }

    fn steppable(&self, from: (i32, i32), to: (i32, i32)) -> bool {
        self.can_step(from, to)
    }

    fn penalty(&self, from: (i32, i32), to: (i32, i32)) -> u32 {
        self.movement_penalty(from, to)
    }
}

struct WallHugDetourGrid;
impl Walkable for WallHugDetourGrid {
    fn is_walkable(&self, x: i32, y: i32) -> bool {
        let in_bounds = (100..=110).contains(&x) && (100..=104).contains(&y);
        let wall_above_shortcut = y == 101 && (101..=109).contains(&x);
        in_bounds && !wall_above_shortcut
    }

    fn blocks_sight(&self, x: i32, y: i32) -> bool {
        !self.is_walkable(x, y)
    }

    fn can_step(&self, from: (i32, i32), to: (i32, i32)) -> bool {
        default_can_step(self, from, to)
    }

    fn movement_penalty(&self, _from: (i32, i32), _to: (i32, i32)) -> u32 {
        0
    }

    fn walkable(&self, tile: (i32, i32)) -> bool {
        self.is_walkable(tile.0, tile.1)
    }

    fn sight_blocked(&self, tile: (i32, i32)) -> bool {
        self.blocks_sight(tile.0, tile.1)
    }

    fn steppable(&self, from: (i32, i32), to: (i32, i32)) -> bool {
        self.can_step(from, to)
    }

    fn penalty(&self, from: (i32, i32), to: (i32, i32)) -> u32 {
        self.movement_penalty(from, to)
    }
}

#[test]
fn build_candidates_skips_failed_targets() {
    let snap = Snapshot {
        player: Some((100, 100)),
        entities: vec![live_mob(0x1000, (101, 100)), live_mob(0x2000, (102, 100))],
    };
    let now = start();
    let mut memory = TacticalMemory::default();
    memory.apply(
        MemoryUpdate {
            add_failed_targets: vec![(
                0x1000,
                FailureRecord {
                    cause: FailureCause::AttackRejected,
                    until: now + Duration::from_millis(FAILED_TARGET_TTL_MS),
                },
            )],
            ..Default::default()
        },
        now,
    );
    let candidates =
        build_candidates::<OpenGrid>(&snap, (100, 100), 1, None, &memory, &HashSet::new(), now);
    assert_eq!(candidates.len(), 1, "failed target should be filtered");
    assert_eq!(candidates[0].target_id, 0x2000);
}

#[test]
fn build_candidates_keeps_unreachable_failed_target_when_it_is_recent_attacker() {
    let snap = Snapshot {
        player: Some((100, 100)),
        entities: vec![live_mob(0x1000, (101, 100)), live_mob(0x2000, (102, 100))],
    };
    let now = start();
    let mut memory = TacticalMemory::default();
    memory.apply(
        MemoryUpdate {
            add_failed_targets: vec![(
                0x1000,
                FailureRecord {
                    cause: FailureCause::Unreachable,
                    until: now + Duration::from_millis(FAILED_TARGET_TTL_MS),
                },
            )],
            ..Default::default()
        },
        now,
    );
    let recent_attackers = HashSet::from([0x1000]);

    let candidates = build_candidates::<OpenGrid>(
        &snap,
        (100, 100),
        1,
        None,
        &memory,
        &recent_attackers,
        now,
    );

    assert!(
        candidates
            .iter()
            .any(|cand| cand.target_id == 0x1000 && cand.is_attacker),
        "recent attacker should still bypass an unreachable-only failure"
    );
}

#[test]
fn build_candidates_skips_attack_rejected_target_even_when_it_is_recent_attacker() {
    let snap = Snapshot {
        player: Some((100, 100)),
        entities: vec![live_mob(0x1000, (101, 100)), live_mob(0x2000, (102, 100))],
    };
    let now = start();
    let mut memory = TacticalMemory::default();
    memory.apply(
        MemoryUpdate {
            add_failed_targets: vec![(
                0x1000,
                FailureRecord {
                    cause: FailureCause::AttackRejected,
                    until: now + Duration::from_millis(FAILED_TARGET_TTL_MS),
                },
            )],
            ..Default::default()
        },
        now,
    );
    let recent_attackers = HashSet::from([0x1000]);

    let candidates = build_candidates::<OpenGrid>(
        &snap,
        (100, 100),
        1,
        None,
        &memory,
        &recent_attackers,
        now,
    );

    assert!(
        candidates.iter().all(|cand| cand.target_id != 0x1000),
        "attack lookup / AttackRejected target must not be reacquired immediately"
    );
    assert_eq!(candidates.len(), 1);
    assert_eq!(candidates[0].target_id, 0x2000);
}

#[test]
fn build_candidates_marks_in_attack_range_for_close_mob() {
    let snap = Snapshot {
        player: Some((100, 100)),
        entities: vec![live_mob(0x1000, (101, 100))],
    };
    let memory = TacticalMemory::default();
    let cands = build_candidates::<OpenGrid>(
        &snap,
        (100, 100),
        1,
        None,
        &memory,
        &HashSet::new(),
        start(),
    );
    assert_eq!(cands.len(), 1);
    assert!(cands[0].in_attack_range);
    assert_eq!(cands[0].reachable_path, Some(Vec::new()));
    assert_eq!(cands[0].distance, 1);
}

#[test]
fn build_candidates_keeps_adjacent_target_attackable_with_map() {
    let snap = Snapshot {
        player: Some((100, 100)),
        entities: vec![live_mob(0x1000, (101, 100))],
    };
    let memory = TacticalMemory::default();
    let grid = OpenGrid;
    let cands = build_candidates(
        &snap,
        (100, 100),
        1,
        Some(&grid),
        &memory,
        &HashSet::new(),
        start(),
    );
    assert!(cands[0].in_attack_range);
    assert_eq!(cands[0].reachable_path, Some(Vec::new()));
}

#[test]
fn build_candidates_marks_out_of_range_for_far_mob() {
    let snap = Snapshot {
        player: Some((100, 100)),
        entities: vec![live_mob(0x1000, (110, 100))],
    };
    let memory = TacticalMemory::default();
    let cands = build_candidates::<OpenGrid>(
        &snap,
        (100, 100),
        1,
        None,
        &memory,
        &HashSet::new(),
        start(),
    );
    assert!(!cands[0].in_attack_range);
    assert_eq!(cands[0].distance, 10);
}

#[test]
fn build_candidates_uses_optimistic_attack_tile_when_no_map() {
    let snap = Snapshot {
        player: Some((100, 100)),
        entities: vec![live_mob(0x1000, (110, 100))],
    };
    let memory = TacticalMemory::default();
    let cands = build_candidates::<OpenGrid>(
        &snap,
        (100, 100),
        1,
        None,
        &memory,
        &HashSet::new(),
        start(),
    );
    assert_eq!(cands[0].reachable_path, Some(vec![(109, 100)]));
}

#[test]
fn build_candidates_uses_diagonal_optimistic_attack_tile_when_no_map() {
    let snap = Snapshot {
        player: Some((100, 100)),
        entities: vec![live_mob(0x1001, (106, 104))],
    };
    let memory = TacticalMemory::default();
    let cands = build_candidates::<OpenGrid>(
        &snap,
        (100, 100),
        2,
        None,
        &memory,
        &HashSet::new(),
        start(),
    );
    assert_eq!(cands[0].reachable_path, Some(vec![(104, 102)]));
    assert_ne!(cands[0].reachable_path, Some(vec![(106, 104)]));
}

#[test]
fn build_candidates_uses_astar_when_map_provided_and_open() {
    let snap = Snapshot {
        player: Some((100, 100)),
        entities: vec![live_mob(0x1000, (103, 100))],
    };
    let memory = TacticalMemory::default();
    let grid = OpenGrid;
    let cands = build_candidates(
        &snap,
        (100, 100),
        1,
        Some(&grid),
        &memory,
        &HashSet::new(),
        start(),
    );
    let path = cands[0].reachable_path.as_ref().expect("path exists");
    assert!(!path.is_empty(), "out of range ??A* gives non-empty path");
    assert_eq!(path.last(), Some(&(102, 100)));
}

#[test]
fn build_candidates_avoids_recent_obstacle_tiles() {
    let snap = Snapshot {
        player: Some((100, 100)),
        entities: vec![live_mob(0x1000, (103, 100))],
    };
    let now = start();
    let mut memory = TacticalMemory::default();
    memory.apply(
        MemoryUpdate {
            add_obstacles: vec![((101, 100), now)],
            ..Default::default()
        },
        now,
    );
    let grid = OpenGrid;
    let cands = build_candidates(
        &snap,
        (100, 100),
        1,
        Some(&grid),
        &memory,
        &HashSet::new(),
        now,
    );
    let path = cands[0].reachable_path.as_ref().expect("path exists");
    assert_ne!(
        path.first(),
        Some(&(101, 100)),
        "planner should not immediately re-use the tile that just failed"
    );
}

#[test]
fn build_candidates_avoids_live_entity_tiles_when_approaching() {
    let snap = Snapshot {
        player: Some((100, 100)),
        entities: vec![live_mob(0x1000, (103, 100)), live_mob(0x2000, (101, 100))],
    };
    let memory = TacticalMemory::default();
    let grid = OpenGrid;
    let cands = build_candidates(
        &snap,
        (100, 100),
        1,
        Some(&grid),
        &memory,
        &HashSet::new(),
        start(),
    );
    let target = cands
        .iter()
        .find(|c| c.target_id == 0x1000)
        .expect("target should exist");
    let path = target.reachable_path.as_ref().expect("path exists");
    assert_ne!(
        path.first(),
        Some(&(101, 100)),
        "approach path should not step into a tile already occupied by another live entity"
    );
}

#[test]
fn build_candidates_avoids_non_target_character_collision_tile() {
    let snap = Snapshot {
        player: Some((100, 100)),
        entities: vec![
            live_mob(0x1000, (103, 100)),
            non_target_entity(0x20, (101, 100), EntityClass::LocalOrInvalid),
        ],
    };
    let memory = TacticalMemory::default();
    let grid = OpenGrid;
    let cands = build_candidates(
        &snap,
        (100, 100),
        1,
        Some(&grid),
        &memory,
        &HashSet::new(),
        start(),
    );

    assert_eq!(
        cands.iter().filter(|c| c.target_id == 0x20).count(),
        0,
        "non-target character should block movement but must not become a target candidate"
    );
    let target = cands
        .iter()
        .find(|c| c.target_id == 0x1000)
        .expect("target should exist");
    let path = target.reachable_path.as_ref().expect("path exists");
    assert_ne!(
        path.first(),
        Some(&(101, 100)),
        "approach path should not step into a non-target character collision tile"
    );
}

#[test]
fn build_candidates_ignores_shadow_entity_for_collision() {
    let snap = Snapshot {
        player: Some((100, 100)),
        entities: vec![
            live_mob(0x1000, (103, 100)),
            non_target_entity(0x30, (101, 100), EntityClass::DecorationOrShadow),
        ],
    };
    let memory = TacticalMemory::default();
    let grid = OpenGrid;
    let cands = build_candidates(
        &snap,
        (100, 100),
        1,
        Some(&grid),
        &memory,
        &HashSet::new(),
        start(),
    );
    let target = cands
        .iter()
        .find(|c| c.target_id == 0x1000)
        .expect("target should exist");
    let path = target.reachable_path.as_ref().expect("path exists");
    assert_eq!(
        path.first(),
        Some(&(101, 100)),
        "shadow/decoration entities should not force route detours"
    );
}

#[test]
fn build_candidates_allows_open_route_next_to_entity_without_wall_squeeze() {
    let snap = Snapshot {
        player: Some((100, 100)),
        entities: vec![live_mob(0x1000, (103, 100)), live_mob(0x2000, (101, 101))],
    };
    let memory = TacticalMemory::default();
    let grid = OpenGrid;
    let cands = build_candidates(
        &snap,
        (100, 100),
        1,
        Some(&grid),
        &memory,
        &HashSet::new(),
        start(),
    );
    let target = cands
        .iter()
        .find(|c| c.target_id == 0x1000)
        .expect("target should exist");
    let path = target.reachable_path.as_ref().expect("path exists");
    assert_eq!(
        path.first(),
        Some(&(101, 100)),
        "open ground should still allow walking next to a live entity"
    );
}

#[test]
fn build_candidates_avoids_wall_entity_squeeze_tile() {
    let snap = Snapshot {
        player: Some((100, 100)),
        entities: vec![live_mob(0x1000, (103, 100)), live_mob(0x2000, (101, 101))],
    };
    let now = start();
    let mut memory = TacticalMemory::default();
    memory.apply(
        MemoryUpdate {
            add_obstacles: vec![((101, 99), now)],
            ..Default::default()
        },
        now,
    );
    let grid = OpenGrid;
    let cands = build_candidates(
        &snap,
        (100, 100),
        1,
        Some(&grid),
        &memory,
        &HashSet::new(),
        now,
    );
    let target = cands
        .iter()
        .find(|c| c.target_id == 0x1000)
        .expect("target should exist");
    let path = target.reachable_path.as_ref().expect("path exists");
    assert!(
        !path.contains(&(101, 100)),
        "planner should avoid the tile squeezed between wall and live entity, path={path:?}"
    );
}

#[test]
fn build_candidates_avoids_step_between_diagonal_wall_corners() {
    let snap = Snapshot {
        player: Some((100, 100)),
        entities: vec![live_mob(0x1000, (104, 100))],
    };
    let memory = TacticalMemory::default();
    let grid = DiagonalCornerSqueezeGrid;
    let cands = build_candidates(
        &snap,
        (100, 100),
        1,
        Some(&grid),
        &memory,
        &HashSet::new(),
        start(),
    );
    let path = cands[0].reachable_path.as_ref().expect("path exists");
    assert_ne!(
        path.first(),
        Some(&(101, 100)),
        "planner should not step through an edge squeezed by diagonal wall corners, path={path:?}"
    );
}

#[test]
fn build_candidates_prefers_clearance_detour_over_wall_hugging_shortcut() {
    let snap = Snapshot {
        player: Some((100, 102)),
        entities: vec![live_mob(0x1000, (110, 102))],
    };
    let memory = TacticalMemory::default();
    let grid = WallHugDetourGrid;
    let cands = build_candidates(
        &snap,
        (100, 102),
        1,
        Some(&grid),
        &memory,
        &HashSet::new(),
        start(),
    );

    let path = cands[0].reachable_path.as_ref().expect("path exists");
    assert!(
        !path.contains(&(105, 102)),
        "planner should prefer the open detour instead of hugging the wall line, path={path:?}"
    );
}

#[test]
fn build_candidates_filters_unreachable_when_walled_off() {
    let snap = Snapshot {
        player: Some((100, 100)),
        entities: vec![live_mob(0x1000, (110, 110))],
    };
    let memory = TacticalMemory::default();
    let grid = WallGrid;
    let cands = build_candidates(
        &snap,
        (100, 100),
        1,
        Some(&grid),
        &memory,
        &HashSet::new(),
        start(),
    );
    assert!(
        cands.is_empty(),
        "out of range and unreachable targets stay out of the candidate list"
    );
}

#[test]
fn build_candidates_rejects_in_range_target_behind_wall() {
    let snap = Snapshot {
        player: Some((100, 100)),
        entities: vec![live_mob(0x1000, (102, 100))],
    };
    let memory = TacticalMemory::default();
    let grid = VerticalWallGrid;
    let cands = build_candidates(
        &snap,
        (100, 100),
        5,
        Some(&grid),
        &memory,
        &HashSet::new(),
        start(),
    );
    assert!(
        cands.is_empty(),
        "in-range target behind a wall must be filtered out before target selection"
    );
}

#[test]
fn build_candidates_respects_inner_can_step_edges() {
    let snap = Snapshot {
        player: Some((100, 100)),
        entities: vec![live_mob(0x1000, (103, 100))],
    };
    let memory = TacticalMemory::default();
    let grid = EdgeBlockedGrid;
    let cands = build_candidates(
        &snap,
        (100, 100),
        1,
        Some(&grid),
        &memory,
        &HashSet::new(),
        start(),
    );
    let path = cands[0].reachable_path.as_ref().expect("path exists");
    assert_ne!(
        path.first(),
        Some(&(101, 100)),
        "navigation overlay must preserve map edge blocks instead of walking into a wall edge"
    );
}

#[test]
fn build_candidates_rejects_adjacent_target_across_blocked_edge() {
    let snap = Snapshot {
        player: Some((100, 100)),
        entities: vec![live_mob(0x1000, (101, 100))],
    };
    let memory = TacticalMemory::default();
    let grid = EdgeBlockedGrid;
    let cands = build_candidates(
        &snap,
        (100, 100),
        1,
        Some(&grid),
        &memory,
        &HashSet::new(),
        start(),
    );
    assert!(
        cands.is_empty(),
        "adjacent target across a blocked edge must be filtered unless it is a real adjacent attacker"
    );
}

#[test]
fn build_candidates_keeps_adjacent_attacker_across_blocked_edge_for_counterattack() {
    let snap = Snapshot {
        player: Some((100, 100)),
        entities: vec![live_mob(0x1000, (101, 100))],
    };
    let memory = TacticalMemory::default();
    let grid = EdgeBlockedGrid;
    let recent_attackers = HashSet::from([0x1000]);
    let cands = build_candidates(
        &snap,
        (100, 100),
        1,
        Some(&grid),
        &memory,
        &recent_attackers,
        start(),
    );
    assert_eq!(cands.len(), 1);
    assert_eq!(cands[0].target_id, 0x1000);
    assert!(cands[0].is_attacker);
    assert!(
        cands[0].reachable_path.is_none(),
        "counterattack exception must not pretend the blocked edge is normally reachable"
    );
}

struct LongVerticalEdgeWallGrid;

impl Walkable for LongVerticalEdgeWallGrid {
    fn is_walkable(&self, _x: i32, _y: i32) -> bool {
        true
    }

    fn can_step(&self, from: (i32, i32), to: (i32, i32)) -> bool {
        let crosses_wall = (from.0 == 119 && to.0 == 120) || (from.0 == 120 && to.0 == 119);
        if crosses_wall {
            return false;
        }

        let dx = to.0 - from.0;
        let dy = to.1 - from.1;
        if dx == 0 && dy == 0 {
            return true;
        }
        if dx.abs() > 1 || dy.abs() > 1 {
            return false;
        }
        if dx != 0 && dy != 0 {
            return self.can_step(from, (from.0 + dx, from.1))
                && self.can_step((from.0 + dx, from.1), to)
                && self.can_step(from, (from.0, from.1 + dy))
                && self.can_step((from.0, from.1 + dy), to);
        }
        true
    }

    fn blocks_sight(&self, x: i32, y: i32) -> bool {
        !self.is_walkable(x, y)
    }

    fn movement_penalty(&self, _from: (i32, i32), _to: (i32, i32)) -> u32 {
        0
    }

    fn walkable(&self, tile: (i32, i32)) -> bool {
        self.is_walkable(tile.0, tile.1)
    }

    fn sight_blocked(&self, tile: (i32, i32)) -> bool {
        self.blocks_sight(tile.0, tile.1)
    }

    fn steppable(&self, from: (i32, i32), to: (i32, i32)) -> bool {
        self.can_step(from, to)
    }

    fn penalty(&self, from: (i32, i32), to: (i32, i32)) -> u32 {
        self.movement_penalty(from, to)
    }
}

#[test]
fn build_candidates_rejects_far_in_range_target_behind_wall_edge() {
    let snap = Snapshot {
        player: Some((100, 100)),
        entities: vec![live_mob(0x1000, (120, 100))],
    };
    let memory = TacticalMemory::default();
    let grid = LongVerticalEdgeWallGrid;
    let cands = build_candidates(
        &snap,
        (100, 100),
        20,
        Some(&grid),
        &memory,
        &HashSet::new(),
        start(),
    );

    assert!(
        cands.is_empty(),
        "target 20 tiles away behind a wall edge must be filtered before target selection"
    );
}

#[test]
fn build_candidates_rejects_non_world_monster_state_even_when_nearby() {
    let snap = Snapshot {
        player: Some((100, 100)),
        entities: vec![hidden_mob(0x1000, (101, 100), 0x0B)],
    };
    let memory = TacticalMemory::default();
    let grid = OpenGrid;
    let cands = build_candidates(
        &snap,
        (100, 100),
        1,
        Some(&grid),
        &memory,
        &HashSet::new(),
        start(),
    );

    assert!(cands.is_empty());
}

#[test]
fn build_candidates_sorts_in_range_first_then_reachable_then_distance() {
    let snap = Snapshot {
        player: Some((100, 100)),
        entities: vec![
            live_mob(0x1000, (105, 100)), // far reachable
            live_mob(0x2000, (101, 100)), // close in-range
            live_mob(0x3000, (103, 100)), // mid reachable
        ],
    };
    let memory = TacticalMemory::default();
    let grid = OpenGrid;
    let cands = build_candidates(
        &snap,
        (100, 100),
        1,
        Some(&grid),
        &memory,
        &HashSet::new(),
        start(),
    );
    assert_eq!(cands[0].target_id, 0x2000);
    assert_eq!(cands[1].target_id, 0x3000);
    assert_eq!(cands[2].target_id, 0x1000);
}

#[test]
fn sort_candidates_prefers_local_reachable_target_before_shorter_far_route() {
    let mut cands = vec![
        TargetCandidate {
            target_id: 0x1000,
            entity_ptr: 0xDEAD_1000,
            name: "near_detour".to_string(),
            tile: (103, 100),
            distance: 3,
            in_attack_range: false,
            reachable_path: Some(vec![
                (101, 100),
                (101, 101),
                (102, 101),
                (103, 101),
                (104, 101),
            ]),
            is_attacker: false,
        },
        TargetCandidate {
            target_id: 0x2000,
            entity_ptr: 0xDEAD_2000,
            name: "far_on_route".to_string(),
            tile: (105, 100),
            distance: 5,
            in_attack_range: false,
            reachable_path: Some(vec![(101, 100), (102, 100)]),
            is_attacker: false,
        },
    ];

    sort_candidates(&mut cands);

    assert_eq!(
        cands[0].target_id, 0x1000,
        "local radar candidates should be cleared before a farther route-efficient target"
    );
}

#[test]
fn build_candidates_filters_unreachable_even_when_reachable_target_exists() {
    let snap = Snapshot {
        player: Some((100, 100)),
        entities: vec![
            live_mob(0x1000, (102, 100)),
            live_mob(0x2000, (99, 100)),
        ],
    };
    let memory = TacticalMemory::default();
    let grid = VerticalWallGrid;
    let cands = build_candidates(
        &snap,
        (100, 100),
        5,
        Some(&grid),
        &memory,
        &HashSet::new(),
        start(),
    );
    assert_eq!(cands.len(), 1);
    assert_eq!(cands[0].target_id, 0x2000);
    assert!(cands[0].reachable_path.is_some());
}

// ===== under_attack target weighting(Phase 5 3c)=====

#[test]
fn build_candidates_marks_is_attacker_when_id_in_recent_attackers_set() {
    let snap = Snapshot {
        player: Some((100, 100)),
        entities: vec![live_mob(0x1234, (101, 100)), live_mob(0x5678, (102, 100))],
    };
    let memory = TacticalMemory::default();
    let mut attackers = HashSet::new();
    attackers.insert(0x1234);
    let cands = build_candidates::<OpenGrid>(
        &snap,
        (100, 100),
        1,
        None,
        &memory,
        &attackers,
        start(),
    );
    let mob1 = cands.iter().find(|c| c.target_id == 0x1234).unwrap();
    let mob2 = cands.iter().find(|c| c.target_id == 0x5678).unwrap();
    assert!(
        mob1.is_attacker,
        "0x1234 ??attackers set ????is_attacker=true"
    );
    assert!(!mob2.is_attacker, "0x5678 is not among the attackers");
}

#[test]
fn build_candidates_prefers_near_in_range_target_over_far_attacker() {
    let snap = Snapshot {
        player: Some((100, 100)),
        entities: vec![
            live_mob(0x1000, (101, 100)), // 1 tile ????attacker
            live_mob(0x2000, (108, 100)), // 8 tile ??attacker
        ],
    };
    let memory = TacticalMemory::default();
    let mut attackers = HashSet::new();
    attackers.insert(0x2000);
    let cands = build_candidates::<OpenGrid>(
        &snap,
        (100, 100),
        10,
        None,
        &memory,
        &attackers,
        start(),
    );
    assert_eq!(
        cands[0].target_id, 0x1000,
        "near in-range target should be cleared before a far attacker"
    );
    assert_eq!(cands[1].target_id, 0x2000);
}

#[test]
fn build_candidates_prefers_in_range_target_over_far_reachable_attacker() {
    let snap = Snapshot {
        player: Some((100, 100)),
        entities: vec![
            live_mob(0x1000, (101, 100)), // in_range, non-attacker
            live_mob(0x2000, (110, 100)), // out_of_range, attacker
        ],
    };
    let memory = TacticalMemory::default();
    let mut attackers = HashSet::new();
    attackers.insert(0x2000);
    let cands = build_candidates::<OpenGrid>(
        &snap,
        (100, 100),
        1,
        None,
        &memory,
        &attackers,
        start(),
    );
    assert_eq!(
        cands[0].target_id, 0x1000,
        "in-range target should be cleared before chasing a far reachable attacker"
    );
    assert_eq!(cands[1].target_id, 0x2000);
}


#[test]
fn build_explore_suggestion_returns_none_without_grid() {
    let memory = TacticalMemory::default();
    assert!(
        build_explore_suggestion::<OpenGrid>((100, 100), None, &memory, start())
            .is_none()
    );
}

#[test]
fn build_explore_suggestion_returns_none_when_player_walled_off() {
    let memory = TacticalMemory::default();
    let grid = WallGrid;
    assert!(
        build_explore_suggestion((100, 100), Some(&grid), &memory, start()).is_none()
    );
}

#[test]
fn build_explore_suggestion_returns_some_with_open_grid() {
    let memory = TacticalMemory::default();
    let grid = OpenGrid;
    let sug = build_explore_suggestion((100, 100), Some(&grid), &memory, start())
        .expect("open grid");
    assert!(!sug.path.is_empty(), "open grid has a path");
    let goals = explore_goal_directions((100, 100));
    assert!(goals.contains(&sug.goal), "goal must be one of the eight");
    assert_eq!(sug.path.last(), Some(&sug.goal), "path ends at the goal");
}

#[test]
fn build_explore_suggestion_falls_back_to_reachable_corridor_tile_when_far_goals_blocked() {
    let memory = TacticalMemory::default();
    let grid = ShortCorridorGrid;
    let sug = build_explore_suggestion((100, 100), Some(&grid), &memory, start())
        .expect("short dungeon corridor should still produce an exploration step");

    assert!(
        !sug.path.is_empty(),
        "fallback exploration must keep moving"
    );
    assert_eq!(sug.path.first(), Some(&(101, 100)));
    assert_eq!(sug.path.last(), Some(&(105, 100)));
    assert_eq!(sug.goal, (105, 100));
}

#[test]
fn build_explore_suggestion_does_not_reset_direction_when_position_history_is_full() {
    let now = start();
    let mut memory = TacticalMemory::default();
    for i in 0..POSITION_HISTORY_CAP {
        memory.apply(
            MemoryUpdate {
                push_position: Some(((100 + i as i32, 100), now)),
                ..Default::default()
            },
            now,
        );
    }
    let grid = OpenGrid;
    let player = (120, 100);
    let sug = build_explore_suggestion(player, Some(&grid), &memory, now)
        .expect("open grid should always produce an exploration path");
    let goals = explore_goal_directions(player);

    assert_ne!(
        sug.goal, goals[0],
        "full recent-position history must not make exploration restart at the first direction"
    );
}

#[test]
fn build_explore_suggestion_for_map_prefers_unvisited_direction_over_visited_path() {
    let now = start();
    let mut memory = TacticalMemory::default();
    let map_id = 63;
    for y in 80..100 {
        memory.apply(
            MemoryUpdate {
                record_visited_tile: Some((map_id, (100, y), now)),
                ..Default::default()
            },
            now,
        );
    }
    let grid = OpenGrid;
    let player = (100, 100);
    let goals = explore_goal_directions(player);
    let sug = build_explore_suggestion_for_map(player, Some(map_id), Some(&grid), &memory, now)
        .expect("open grid should always produce an exploration path");

    assert_ne!(
        sug.goal, goals[0],
        "map-scoped visited tiles should stop exploration from repeatedly choosing an already walked corridor"
    );
    assert_eq!(
        sug.goal, goals[1],
        "with the first direction visited and all other scores tied, the next direction should win"
    );
}

#[test]
fn build_explore_suggestion_rotates_direction_via_memory_recent_positions_len() {
    let memory0 = TacticalMemory::default();
    let grid = OpenGrid;
    let sug0 =
        build_explore_suggestion((100, 100), Some(&grid), &memory0, start()).unwrap();
    let goals = explore_goal_directions((100, 100));
    assert_eq!(sug0.goal, goals[0], "offset 0: north");

    let mut memory1 = TacticalMemory::default();
    memory1.apply(
        MemoryUpdate {
            push_position: Some(((50, 50), start())),
            ..Default::default()
        },
        start(),
    );
    let sug1 =
        build_explore_suggestion((100, 100), Some(&grid), &memory1, start()).unwrap();
    assert_eq!(sug1.goal, goals[1], "offset 1: north-east");
}

#[test]
fn build_explore_suggestion_avoids_recent_obstacle_first_step() {
    let now = start();
    let mut memory = TacticalMemory::default();
    memory.apply(
        MemoryUpdate {
            add_obstacles: vec![((100, 99), now)],
            ..Default::default()
        },
        now,
    );
    let grid = OpenGrid;
    let sug = build_explore_suggestion((100, 100), Some(&grid), &memory, now)
        .expect("open grid can route around one obstacle");

    assert_ne!(
        sug.path.first(),
        Some(&(100, 99)),
        "exploration must not retry the same just-failed wall/turn tile"
    );
}

#[test]
fn build_explore_suggestion_avoids_recent_failed_direction() {
    let now = start();
    let player = (100, 100);
    let goals = explore_goal_directions(player);
    let mut memory = TacticalMemory::default();
    memory.apply(
        MemoryUpdate {
            add_failed_explore_directions: vec![(
                ExploreDirectionKey::from_goal(player, goals[0]).unwrap(),
                now,
            )],
            ..Default::default()
        },
        now,
    );
    let grid = OpenGrid;
    let sug = build_explore_suggestion(player, Some(&grid), &memory, now)
        .expect("open grid can choose another direction");

    assert_ne!(
        sug.goal, goals[0],
        "exploration must not immediately retry a just-stalled direction"
    );
    assert_eq!(
        sug.goal, goals[1],
        "with north temporarily failed and all other scores tied, northeast should win"
    );
}

#[test]
fn profile_explore_prefers_search_frontier_over_adjacent_tile() {
    let map = corridor_map(vec![corridor(0, 30)]);
    let grid = MapWalkable { map: &map };
    let now = start();
    let player = (BLOCK_ORIGIN, BLOCK_ORIGIN);
    let memory = TacticalMemory::default();

    let sug = build_explore_suggestion_with_profile(
        player,
        Some(7),
        Some(&grid),
        Some(&map.profile),
        &memory,
        now,
    )
    .expect("profile corridor should produce exploration");

    assert!(
        sug.goal.0 - player.0 >= 18,
        "profile exploration should search outward instead of circling adjacent tiles; got {:?}",
        sug.goal
    );
    assert_eq!(sug.path.first(), Some(&(player.0 + 1, player.1)));
}

#[test]
fn explore_goal_directions_layout_n_ne_e_se_s_sw_w_nw_at_20_tiles() {
    let goals = explore_goal_directions((100, 100));
    assert_eq!(goals[0], (100, 80), "N");
    assert_eq!(goals[1], (120, 80), "NE");
    assert_eq!(goals[2], (120, 100), "E");
    assert_eq!(goals[3], (120, 120), "SE");
    assert_eq!(goals[4], (100, 120), "S");
    assert_eq!(goals[5], (80, 120), "SW");
    assert_eq!(goals[6], (80, 100), "W");
    assert_eq!(goals[7], (80, 80), "NW");
}

#[test]
fn profile_explore_stays_inside_current_connected_component() {
    let map = corridor_map(vec![corridor(0, 3), corridor(10, 13)]);
    let grid = MapWalkable { map: &map };
    let now = start();
    let map_id = 7;
    let player = (BLOCK_ORIGIN, BLOCK_ORIGIN);
    let mut memory = TacticalMemory::default();
    for x in 1..=3 {
        memory.apply(
            MemoryUpdate {
                record_visited_tile: Some((map_id, (BLOCK_ORIGIN + x, BLOCK_ORIGIN), now)),
                ..Default::default()
            },
            now,
        );
    }

    let sug = build_explore_suggestion_with_profile(
        player,
        Some(map_id),
        Some(&grid),
        Some(&map.profile),
        &memory,
        now,
    )
    .expect("current component still has reachable exploration tiles");

    assert!(
        map.profile.same_component(player, sug.goal),
        "profile exploration must not choose a disconnected map component"
    );
    assert_eq!(sug.path.last(), Some(&sug.goal));
}
