use hunt_bot::hunt4::memory::{
    ExploreDirectionKey, FAILED_EXPLORE_DIRECTION_TTL_MS, FAILED_TARGET_TTL_MS, FailureCause,
    FailureRecord, MemoryUpdate, OBSTACLE_TTL_MS, PORTAL_AVOID_TTL_MS, POSITION_HISTORY_CAP,
    TacticalMemory,
};
use hunt_bot::time::{Duration, Instant};

/// A moment with time before and after it.
fn start() -> Instant {
    Instant::from_nanos(1_000_000_000_000_000)
}

#[test]
fn apply_inserts_obstacle() {
    let mut memory = TacticalMemory::default();
    let now = start();
    let update = MemoryUpdate {
        add_obstacles: vec![((10, 20), now)],
        ..Default::default()
    };
    memory.apply(update, now);
    assert!(memory.is_obstacle((10, 20), now));
}

#[test]
fn apply_inserts_failed_target() {
    let mut memory = TacticalMemory::default();
    let now = start();
    let until = now + Duration::from_millis(FAILED_TARGET_TTL_MS);
    let update = MemoryUpdate {
        add_failed_targets: vec![(
            0x1234,
            FailureRecord {
                cause: FailureCause::AttackRejected,
                until,
            },
        )],
        ..Default::default()
    };
    memory.apply(update, now);
    assert!(memory.is_target_failed(0x1234, now));
}

#[test]
fn apply_records_failed_explore_direction_near_origin() {
    let mut memory = TacticalMemory::default();
    let now = start();
    let key = ExploreDirectionKey::from_goal((100, 100), (100, 80)).unwrap();
    memory.apply(
        MemoryUpdate {
            add_failed_explore_directions: vec![(key, now)],
            ..Default::default()
        },
        now,
    );

    assert!(memory.is_explore_direction_failed((100, 100), (100, 80), now));
    assert!(memory.is_explore_direction_failed((101, 100), (101, 80), now));
    assert!(!memory.is_explore_direction_failed((100, 100), (120, 80), now));
}

#[test]
fn apply_tracks_and_clears_empty_explore_walk_budget() {
    let mut memory = TacticalMemory::default();
    let now = start();

    memory.apply(
        MemoryUpdate {
            increment_empty_explore_walks: true,
            ..Default::default()
        },
        now,
    );
    memory.apply(
        MemoryUpdate {
            increment_empty_explore_walks: true,
            ..Default::default()
        },
        now + Duration::from_millis(200),
    );

    assert_eq!(memory.empty_explore_walks, 2);

    memory.apply(
        MemoryUpdate {
            clear_empty_explore_walks: true,
            ..Default::default()
        },
        now + Duration::from_millis(400),
    );

    assert_eq!(memory.empty_explore_walks, 0);
}

#[test]
fn stalled_since_ignores_position_samples_before_last_walk() {
    let mut memory = TacticalMemory::default();
    let now = start();
    let last_walk = now - Duration::from_millis(200);
    for i in 0..POSITION_HISTORY_CAP {
        memory.recent_positions.push_back((
            100,
            100,
            now - Duration::from_millis(2000 + i as u64 * 100),
        ));
    }
    memory
        .recent_positions
        .push_back((100, 100, now - Duration::from_millis(100)));

    assert!(memory.is_stalled(POSITION_HISTORY_CAP));
    assert!(
        !memory.is_stalled_since(POSITION_HISTORY_CAP, Some(last_walk)),
        "startup idle samples must not make the first walk look stuck"
    );
}

#[test]
fn stalled_since_detects_full_stall_window_after_last_walk() {
    let mut memory = TacticalMemory::default();
    let now = start();
    let last_walk = now - Duration::from_secs(2);
    for i in 0..POSITION_HISTORY_CAP {
        memory.recent_positions.push_back((
            100,
            100,
            last_walk + Duration::from_millis(i as u64 * 200),
        ));
    }

    assert!(memory.is_stalled_since(POSITION_HISTORY_CAP, Some(last_walk)));
}

#[test]
fn apply_records_visited_tiles_per_map() {
    let mut memory = TacticalMemory::default();
    let now = start();
    memory.apply(
        MemoryUpdate {
            record_visited_tile: Some((63, (32686, 32832), now)),
            ..Default::default()
        },
        now,
    );
    memory.apply(
        MemoryUpdate {
            record_visited_tile: Some((63, (32686, 32832), now + Duration::from_millis(1))),
            ..Default::default()
        },
        now + Duration::from_millis(1),
    );
    memory.apply(
        MemoryUpdate {
            record_visited_tile: Some((248, (32686, 32832), now + Duration::from_millis(2))),
            ..Default::default()
        },
        now + Duration::from_millis(2),
    );

    assert_eq!(memory.visit_count(63, (32686, 32832)), 2);
    assert_eq!(memory.visit_count(248, (32686, 32832)), 1);
}

#[test]
fn apply_clears_recent_positions_when_requested() {
    let mut memory = TacticalMemory::default();
    let now = start();
    for i in 0..POSITION_HISTORY_CAP {
        memory.apply(
            MemoryUpdate {
                push_position: Some(((100, 100), now + Duration::from_millis(i as u64))),
                ..Default::default()
            },
            now + Duration::from_millis(i as u64),
        );
    }
    assert!(memory.is_stalled(POSITION_HISTORY_CAP));

    memory.apply(
        MemoryUpdate {
            clear_recent_positions: true,
            ..Default::default()
        },
        now + Duration::from_secs(1),
    );

    assert!(memory.recent_positions.is_empty());
    assert!(!memory.is_stalled(POSITION_HISTORY_CAP));
}

#[test]
fn is_target_failed_returns_false_after_until() {
    let mut memory = TacticalMemory::default();
    let now = start();
    let until = now + Duration::from_millis(500);
    memory.apply(
        MemoryUpdate {
            add_failed_targets: vec![(
                0x5678,
                FailureRecord {
                    cause: FailureCause::Unreachable,
                    until,
                },
            )],
            ..Default::default()
        },
        now,
    );
    assert!(memory.is_target_failed(0x5678, now));
    let later = now + Duration::from_secs(1);
    assert!(!memory.is_target_failed(0x5678, later));
}

#[test]
fn apply_expires_old_obstacles_on_subsequent_apply() {
    let mut memory = TacticalMemory::default();
    let t0 = start();
    memory.apply(
        MemoryUpdate {
            add_obstacles: vec![((1, 1), t0)],
            ..Default::default()
        },
        t0,
    );
    assert!(memory.is_obstacle((1, 1), t0));
    let t1 = t0 + Duration::from_secs(10);
    memory.apply(MemoryUpdate::default(), t1);
    assert!(!memory.is_obstacle((1, 1), t1));
    assert!(
        memory.obstacles.is_empty(),
        "expired obstacle should be removed"
    );
}

#[test]
fn portal_avoid_tiles_are_treated_as_long_lived_obstacles() {
    let mut memory = TacticalMemory::default();
    let t0 = start();
    memory.apply(
        MemoryUpdate {
            add_portal_avoid_tiles: vec![((10, 20), t0)],
            ..Default::default()
        },
        t0,
    );

    let after_regular_obstacle_ttl = t0 + Duration::from_millis(OBSTACLE_TTL_MS) + Duration::from_secs(1);
    assert!(
        memory.is_obstacle((10, 20), after_regular_obstacle_ttl),
        "learned portal tiles should outlive regular walk-failure obstacles"
    );

    let after_portal_ttl = t0 + Duration::from_millis(PORTAL_AVOID_TTL_MS) + Duration::from_secs(1);
    memory.apply(MemoryUpdate::default(), after_portal_ttl);
    assert!(!memory.is_obstacle((10, 20), after_portal_ttl));
    assert!(memory.portal_avoid_tiles.is_empty());
}

#[test]
fn apply_expires_old_failed_targets_on_subsequent_apply() {
    let mut memory = TacticalMemory::default();
    let t0 = start();
    memory.apply(
        MemoryUpdate {
            add_failed_targets: vec![(
                0xABCD,
                FailureRecord {
                    cause: FailureCause::AttackRejected,
                    until: t0 + Duration::from_millis(100),
                },
            )],
            ..Default::default()
        },
        t0,
    );
    let t1 = t0 + Duration::from_secs(1);
    memory.apply(MemoryUpdate::default(), t1);
    assert!(memory.failed_targets.is_empty());
}

#[test]
fn repeated_failed_target_extends_suppression_window() {
    let mut memory = TacticalMemory::default();
    let t0 = start();
    memory.apply(
        MemoryUpdate {
            add_failed_targets: vec![(
                0xABCD,
                FailureRecord {
                    cause: FailureCause::AttackRejected,
                    until: t0 + Duration::from_millis(FAILED_TARGET_TTL_MS),
                },
            )],
            ..Default::default()
        },
        t0,
    );

    let t1 = t0 + Duration::from_secs(1);
    memory.apply(
        MemoryUpdate {
            add_failed_targets: vec![(
                0xABCD,
                FailureRecord {
                    cause: FailureCause::AttackRejected,
                    until: t1 + Duration::from_millis(FAILED_TARGET_TTL_MS),
                },
            )],
            ..Default::default()
        },
        t1,
    );

    let record = memory.failed_targets.get(&0xABCD).unwrap();
    assert_eq!(record.cause, FailureCause::AttackRejected);
    assert_eq!(record.until.duration_since(t1), Duration::from_millis(FAILED_TARGET_TTL_MS * 2));
}

#[test]
fn apply_expires_old_failed_explore_directions_on_subsequent_apply() {
    let mut memory = TacticalMemory::default();
    let t0 = start();
    let key = ExploreDirectionKey::from_goal((100, 100), (100, 80)).unwrap();
    memory.apply(
        MemoryUpdate {
            add_failed_explore_directions: vec![(key, t0)],
            ..Default::default()
        },
        t0,
    );
    let later = t0 + Duration::from_millis(FAILED_EXPLORE_DIRECTION_TTL_MS) + Duration::from_secs(1);
    memory.apply(MemoryUpdate::default(), later);

    assert!(memory.failed_explore_directions.is_empty());
    assert!(!memory.is_explore_direction_failed((100, 100), (100, 80), later));
}

#[test]
fn position_history_caps_at_history_cap() {
    let mut memory = TacticalMemory::default();
    let t0 = start();
    for i in 0..(POSITION_HISTORY_CAP as i32 + 3) {
        memory.apply(
            MemoryUpdate {
                push_position: Some(((i, i), t0 + Duration::from_millis(i as u64 * 100))),
                ..Default::default()
            },
            t0 + Duration::from_millis(i as u64 * 100),
        );
    }
    assert_eq!(memory.recent_positions.len(), POSITION_HISTORY_CAP);
    let (oldest_x, _, _) = memory.recent_positions.front().unwrap();
    assert!(*oldest_x >= 3, "earliest entries should be evicted");
}


#[test]
fn is_stalled_returns_false_when_recent_positions_empty() {
    let memory = TacticalMemory::default();
    assert!(!memory.is_stalled(8));
}

#[test]
fn is_stalled_returns_false_when_window_below_two() {
    let mut memory = TacticalMemory::default();
    memory.apply(
        MemoryUpdate {
            push_position: Some(((10, 10), start())),
            ..Default::default()
        },
        start(),
    );
    assert!(!memory.is_stalled(0));
    assert!(!memory.is_stalled(1));
}

#[test]
fn is_stalled_returns_false_when_samples_below_window() {
    let mut memory = TacticalMemory::default();
    let t0 = start();
    for i in 0..3 {
        memory.apply(
            MemoryUpdate {
                push_position: Some(((10, 10), t0 + Duration::from_millis(i * 100))),
                ..Default::default()
            },
            t0 + Duration::from_millis(i * 100),
        );
    }
    assert!(!memory.is_stalled(5));
}

#[test]
fn is_stalled_returns_true_when_all_last_window_samples_same_tile() {
    let mut memory = TacticalMemory::default();
    let t0 = start();
    for i in 0..8 {
        memory.apply(
            MemoryUpdate {
                push_position: Some(((42, 17), t0 + Duration::from_millis(i * 100))),
                ..Default::default()
            },
            t0 + Duration::from_millis(i * 100),
        );
    }
    assert!(memory.is_stalled(8));
    assert!(memory.is_stalled(2));
}

#[test]
fn is_stalled_returns_false_when_any_recent_sample_moved() {
    let mut memory = TacticalMemory::default();
    let t0 = start();
    for i in 0..7 {
        memory.apply(
            MemoryUpdate {
                push_position: Some(((10, 10), t0 + Duration::from_millis(i * 100))),
                ..Default::default()
            },
            t0 + Duration::from_millis(i * 100),
        );
    }
    memory.apply(
        MemoryUpdate {
            push_position: Some(((11, 10), t0 + Duration::from_millis(700))),
            ..Default::default()
        },
        t0 + Duration::from_millis(700),
    );
    assert!(!memory.is_stalled(8));
}

#[test]
fn apply_sets_last_walk_attack_skill_timestamps() {
    let mut memory = TacticalMemory::default();
    let t0 = start();
    memory.apply(
        MemoryUpdate {
            set_last_walk: Some(t0),
            set_last_attack: Some(t0),
            set_last_skill_cast: Some(t0),
            set_last_position_change: Some(t0),
            set_last_teleport: Some(t0),
            ..Default::default()
        },
        t0,
    );
    assert_eq!(memory.last_walk, Some(t0));
    assert_eq!(memory.last_attack, Some(t0));
    assert_eq!(memory.last_skill_cast, Some(t0));
    assert_eq!(memory.last_position_change, Some(t0));
    assert_eq!(memory.last_teleport, Some(t0));
}

#[test]
fn apply_sets_and_clears_post_skill_basic_pending_target() {
    let mut memory = TacticalMemory::default();
    let t0 = start();
    memory.apply(
        MemoryUpdate {
            set_post_skill_basic_pending: Some(0x30008),
            ..Default::default()
        },
        t0,
    );
    assert_eq!(memory.post_skill_basic_pending_target, Some(0x30008));

    memory.apply(
        MemoryUpdate {
            clear_post_skill_basic_pending: true,
            ..Default::default()
        },
        t0,
    );
    assert_eq!(memory.post_skill_basic_pending_target, None);
}
