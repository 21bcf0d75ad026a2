use hunt_bot::decide::hunt::HuntConfig;
use hunt_bot::hunt4::model::{EntityClass, EntityView, Snapshot};
use hunt_bot::hunt4::perception::filter_snapshot;

fn entity(target_id: u32, name: &str, class: EntityClass, action_state: u8) -> EntityView {
    EntityView {
        target_id,
        entity_ptr: target_id,
        name: name.to_string(),
        sprite_id: 1,
        action_state,
        tile: (1, 1),
        raw_x: 1,
        y: 1,
        class,
        visible_confidence: 100,
        hostile_confidence: if class == EntityClass::AttackableMonster {
            100
        } else {
            0
        },
    }
}

#[test]
fn filter_keeps_dead_monsters_for_lock_cleanup() {
    let snapshot = Snapshot {
        player: Some((0, 0)),
        entities: vec![
            entity(7, "mob-7", EntityClass::DeadMonster, 0x08),
            entity(8, "mob-8", EntityClass::AttackableMonster, 0x00),
        ],
    };
    let cfg = HuntConfig {
        hunt_range_tiles: 10,
        ..HuntConfig::default()
    };

    let filtered = filter_snapshot(&snapshot, &cfg);

    assert!(filtered.find(7).is_some_and(|entity| entity.is_dead()));
    assert_eq!(filtered.valid_targets().len(), 1);
}

#[test]
fn filter_snapshot_drops_live_target_outside_configured_hunt_range() {
    let snapshot = Snapshot {
        player: Some((0, 0)),
        entities: vec![entity(7, "mob-7", EntityClass::AttackableMonster, 0x00)],
    };
    let cfg = HuntConfig {
        hunt_range_tiles: 3,
        ..HuntConfig::default()
    };
    let mut far = snapshot.clone();
    far.entities[0].tile = (40, 0);

    assert!(
        filter_snapshot(&far, &cfg).valid_targets().is_empty(),
        "a live target out of range is left out"
    );
}

#[test]
fn filter_snapshot_keeps_live_target_within_configured_hunt_range() {
    let snapshot = Snapshot {
        player: Some((0, 0)),
        entities: vec![entity(7, "mob-7", EntityClass::AttackableMonster, 0x00)],
    };
    let cfg = HuntConfig {
        hunt_range_tiles: 5,
        ..HuntConfig::default()
    };
    assert_eq!(filter_snapshot(&snapshot, &cfg).valid_targets().len(), 1);
}

#[test]
fn filter_snapshot_uses_chebyshev_distance_for_range() {
    let mut snapshot = Snapshot {
        player: Some((0, 0)),
        entities: vec![entity(7, "mob-7", EntityClass::AttackableMonster, 0x00)],
    };
    snapshot.entities[0].tile = (3, 3);
    let cfg = HuntConfig {
        hunt_range_tiles: 3,
        ..HuntConfig::default()
    };
    assert_eq!(
        filter_snapshot(&snapshot, &cfg).valid_targets().len(),
        1,
        "a distance of 3 is within a range of 3"
    );

    snapshot.entities[0].tile = (4, 0);
    assert_eq!(filter_snapshot(&snapshot, &cfg).valid_targets().len(), 0);
}

#[test]
fn filter_snapshot_zero_hunt_range_means_unlimited() {
    let mut snapshot = Snapshot {
        player: Some((0, 0)),
        entities: vec![entity(7, "mob-7", EntityClass::AttackableMonster, 0x00)],
    };
    snapshot.entities[0].tile = (9999, 9999);
    let cfg = HuntConfig {
        hunt_range_tiles: 0,
        ..HuntConfig::default()
    };
    assert_eq!(
        filter_snapshot(&snapshot, &cfg).valid_targets().len(),
        1,
        "a range of 0 sets no limit"
    );
}

#[test]
fn filter_snapshot_keeps_far_dead_monster_for_lock_cleanup() {
    let mut snapshot = Snapshot {
        player: Some((0, 0)),
        entities: vec![entity(7, "mob-7", EntityClass::DeadMonster, 0x08)],
    };
    snapshot.entities[0].tile = (100, 100);
    let cfg = HuntConfig {
        hunt_range_tiles: 5,
        ..HuntConfig::default()
    };
    assert!(filter_snapshot(&snapshot, &cfg)
        .find(7)
        .is_some_and(|e| e.is_dead()));
}

#[test]
fn filter_snapshot_keeps_non_target_character_for_collision() {
    let mut character = entity(0x20, "other-player", EntityClass::LocalOrInvalid, 0x00);
    character.tile = (2, 0);
    let snapshot = Snapshot {
        player: Some((0, 0)),
        entities: vec![character],
    };
    let cfg = HuntConfig {
        hunt_range_tiles: 5,
        ..HuntConfig::default()
    };

    let filtered = filter_snapshot(&snapshot, &cfg);

    assert!(
        filtered.find(0x20).is_some(),
        "non-target character must stay in snapshot so planner can treat the tile as occupied"
    );
    assert_eq!(filtered.valid_targets().len(), 0);
}

#[test]
fn filter_snapshot_drops_shadow_collision_noise() {
    let mut shadow = entity(0x30, "shadow", EntityClass::DecorationOrShadow, 0x00);
    shadow.tile = (2, 0);
    let snapshot = Snapshot {
        player: Some((0, 0)),
        entities: vec![shadow],
    };
    let cfg = HuntConfig {
        hunt_range_tiles: 5,
        ..HuntConfig::default()
    };

    let filtered = filter_snapshot(&snapshot, &cfg);

    assert!(
        filtered.entities.is_empty(),
        "decorations/shadows should not become movement collision blockers"
    );
}
