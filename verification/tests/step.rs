use hunt_bot::decide::hunt::{AttackSequenceStep, HuntConfig};
use hunt_bot::hunt4::memory::{
    ExploreDirectionKey, FAILED_TARGET_TTL_MS, FailureCause, TacticalMemory,
};
use hunt_bot::hunt4::model::{EntityClass, EntityView, Snapshot};
use hunt_bot::hunt4::state::{EngageIntent, HuntState, RecoveryCause, TargetLock};
use hunt_bot::hunt4::step::{
    Action, AttackStepInput, EMPTY_EXPLORE_WALK_BUDGET, ESCAPING_WAIT_DURATION_MS,
    ExploreSuggestion, LastOutcome, RECOVERY_ATTACK_FAILED_DURATION_MS,
    REPEAT_NORMAL_ATTACK_COOLDOWN_MS, STALL_WINDOW_TICKS, StateLabel, TargetCandidate, TickInput,
    TransitionCause, step,
};
use hunt_bot::time::{Duration, Instant};

/// A moment with time before and after it.
fn start() -> Instant {
    Instant::from_nanos(1_000_000_000_000_000)
}

fn live_entity(target_id: u32, entity_ptr: u32, name: &str) -> EntityView {
    EntityView {
        target_id,
        entity_ptr,
        name: name.to_string(),
        sprite_id: 1134,
        action_state: 0,
        tile: (100, 100),
        raw_x: 100,
        y: 100,
        class: EntityClass::AttackableMonster,
        visible_confidence: 100,
        hostile_confidence: 100,
    }
}

fn target_candidate(target_id: u32, entity_ptr: u32) -> TargetCandidate {
    TargetCandidate {
        target_id,
        entity_ptr,
        name: format!("mob_{target_id:X}"),
        tile: (100, 100),
        distance: 1,
        in_attack_range: true,
        reachable_path: Some(Vec::new()),
        is_attacker: false,
    }
}

#[test]
fn idle_counterattacks_adjacent_attacker_even_when_path_is_blocked() {
    let now = start();
    let target_id = 0x0BEB_C001;
    let entity_ptr = 0x1A00_C001;
    let cfg = HuntConfig::default();
    let memory = TacticalMemory::default();
    let snapshot = Snapshot {
        player: Some((100, 100)),
        entities: vec![live_entity(target_id, entity_ptr, "attacker")],
    };
    let mut candidate = target_candidate(target_id, entity_ptr);
    candidate.in_attack_range = false;
    candidate.reachable_path = None;
    candidate.is_attacker = true;
    candidate.distance = 1;
    let candidates = vec![candidate];

    let output = step(
        &HuntState::Idle,
        TickInput {
            snapshot: &snapshot,
            player_pos: Some((100, 100)),
            player_alive: true,
            master_enabled: true,
            in_game: true,
            now,
            state_since: now - Duration::from_secs(1),
            cfg: &cfg,
            memory: &memory,
            candidates: &candidates,
            explore_suggestion: None,
            last_outcome: LastOutcome::NoOutcome,
            teleport_scroll_available: false,
            damage_spike_detected: false,
            critical_hp_detected: false,
            skill_cd_ms: 0,
            attack_step: AttackStepInput::Legacy,
            locked_target_removed_or_dead: false,
            locked_target_recently_damaged: false,
        },
    );

    assert_eq!(
        output.actions,
        vec![Action::AttackTarget {
            target_id,
            entity_ptr,
            skill: None,
        }]
    );
    assert_eq!(
        output.transition.as_ref().map(|t| (t.to, t.cause)),
        Some((StateLabel::EngagingAttack, TransitionCause::TargetAcquired))
    );
}

#[test]
fn approach_counterattacks_adjacent_attacker_without_casting_blocked_skill() {
    let now = start();
    let target_id = 0x0BEB_C002;
    let entity_ptr = 0x1A00_C002;
    let cfg = HuntConfig::default();
    let memory = TacticalMemory::default();
    let snapshot = Snapshot {
        player: Some((100, 100)),
        entities: vec![live_entity(target_id, entity_ptr, "attacker")],
    };
    let mut candidate = target_candidate(target_id, entity_ptr);
    candidate.in_attack_range = false;
    candidate.reachable_path = None;
    candidate.is_attacker = true;
    candidate.distance = 1;
    let candidates = vec![candidate];
    let state = HuntState::Engaging {
        lock: TargetLock {
            target_id,
            entity_ptr,
            name: "attacker".to_string(),
            acquired_at: now - Duration::from_secs(1),
            last_seen: now - Duration::from_millis(200),
            bootstrapped: false,
        },
        intent: EngageIntent::Approach,
        path: None,
    };

    let output = step(
        &state,
        TickInput {
            snapshot: &snapshot,
            player_pos: Some((100, 100)),
            player_alive: true,
            master_enabled: true,
            in_game: true,
            now,
            state_since: now - Duration::from_secs(1),
            cfg: &cfg,
            memory: &memory,
            candidates: &candidates,
            explore_suggestion: None,
            last_outcome: LastOutcome::NoOutcome,
            teleport_scroll_available: false,
            damage_spike_detected: false,
            critical_hp_detected: false,
            skill_cd_ms: 0,
            attack_step: AttackStepInput::Step(AttackSequenceStep::skill(
                "triple_arrow".to_string(),
                0,
            )),
            locked_target_removed_or_dead: false,
            locked_target_recently_damaged: false,
        },
    );

    assert_eq!(
        output.actions,
        vec![Action::AttackTarget {
            target_id,
            entity_ptr,
            skill: None,
        }]
    );
    assert_eq!(
        output.transition.as_ref().map(|t| (t.to, t.cause)),
        Some((StateLabel::EngagingAttack, TransitionCause::StartAttack))
    );
}

#[test]
fn attacking_visible_locked_target_does_not_switch_to_other_candidate_when_lock_missing_from_candidates(
) {
    let now = start();
    let locked_id = 0x0BEB_FEE5;
    let other_id = 0x0BEB_FF0F;
    let cfg = HuntConfig::default();
    let memory = TacticalMemory::default();
    let snapshot = Snapshot {
        player: Some((100, 100)),
        entities: vec![
            live_entity(locked_id, 0x1AB5_9D30, "locked"),
            live_entity(other_id, 0x1AB5_A5C8, "other"),
        ],
    };
    let candidates = vec![target_candidate(other_id, 0x1AB5_A5C8)];
    let state = HuntState::Engaging {
        lock: TargetLock {
            target_id: locked_id,
            entity_ptr: 0x1AB5_9D30,
            name: "locked".to_string(),
            acquired_at: now - Duration::from_secs(2),
            last_seen: now - Duration::from_millis(200),
            bootstrapped: false,
        },
        intent: EngageIntent::Attack,
        path: None,
    };

    let output = step(
        &state,
        TickInput {
            snapshot: &snapshot,
            player_pos: Some((100, 100)),
            player_alive: true,
            master_enabled: true,
            in_game: true,
            now,
            state_since: now - Duration::from_secs(2),
            cfg: &cfg,
            memory: &memory,
            candidates: &candidates,
            explore_suggestion: None,
            last_outcome: LastOutcome::NoOutcome,
            teleport_scroll_available: false,
            damage_spike_detected: false,
            critical_hp_detected: false,
            skill_cd_ms: 0,
            attack_step: AttackStepInput::Legacy,
            locked_target_removed_or_dead: false,
            locked_target_recently_damaged: false,
        },
    );

    assert_eq!(
        output.actions,
        vec![Action::AttackTarget {
            target_id: locked_id,
            entity_ptr: 0x1AB5_9D30,
            skill: None,
        }]
    );
    assert_eq!(
        output.transition.as_ref().map(|t| (t.to, t.cause)),
        Some((StateLabel::EngagingAttack, TransitionCause::StartAttack))
    );
    match output.next_state {
        Some(HuntState::Engaging { lock, intent, .. }) => {
            assert_eq!(lock.target_id, locked_id);
            assert_eq!(lock.last_seen, now);
            assert_eq!(intent, EngageIntent::Attack);
        }
        other => panic!("expected locked attack state, got {other:?}"),
    }
}

#[test]
fn attacking_recently_damaged_lock_continues_attack_when_candidate_temporarily_not_in_range() {
    let now = start();
    let locked_id = 0x0BEB_D43F;
    let other_id = 0x0BEB_D443;
    let cfg = HuntConfig::default();
    let memory = TacticalMemory::default();
    let snapshot = Snapshot {
        player: Some((100, 100)),
        entities: vec![
            live_entity(locked_id, 0x19CF_0ED0, "locked"),
            live_entity(other_id, 0x19FA_5E00, "other"),
        ],
    };
    let mut locked_candidate = target_candidate(locked_id, 0x19CF_0ED0);
    locked_candidate.in_attack_range = false;
    locked_candidate.reachable_path = None;
    let candidates = vec![locked_candidate, target_candidate(other_id, 0x19FA_5E00)];
    let state = HuntState::Engaging {
        lock: TargetLock {
            target_id: locked_id,
            entity_ptr: 0x19CF_0ED0,
            name: "locked".to_string(),
            acquired_at: now - Duration::from_secs(4),
            last_seen: now - Duration::from_millis(200),
            bootstrapped: false,
        },
        intent: EngageIntent::Attack,
        path: None,
    };

    let output = step(
        &state,
        TickInput {
            snapshot: &snapshot,
            player_pos: Some((100, 100)),
            player_alive: true,
            master_enabled: true,
            in_game: true,
            now,
            state_since: now - Duration::from_secs(4),
            cfg: &cfg,
            memory: &memory,
            candidates: &candidates,
            explore_suggestion: None,
            last_outcome: LastOutcome::NoOutcome,
            teleport_scroll_available: false,
            damage_spike_detected: false,
            critical_hp_detected: false,
            skill_cd_ms: 0,
            attack_step: AttackStepInput::Legacy,
            locked_target_removed_or_dead: false,
            locked_target_recently_damaged: true,
        },
    );

    assert_eq!(
        output.actions,
        vec![Action::AttackTarget {
            target_id: locked_id,
            entity_ptr: 0x19CF_0ED0,
            skill: None,
        }]
    );
    assert_eq!(
        output.transition.as_ref().map(|t| (t.to, t.cause)),
        Some((StateLabel::EngagingAttack, TransitionCause::StartAttack))
    );
    match output.next_state {
        Some(HuntState::Engaging { lock, intent, .. }) => {
            assert_eq!(lock.target_id, locked_id);
            assert_eq!(intent, EngageIntent::Attack);
        }
        other => panic!("expected locked attack state, got {other:?}"),
    }
}

#[test]
fn attack_no_progress_immediately_switches_to_other_candidate() {
    let now = start();
    let locked_id = 0x0BEB_A001;
    let other_id = 0x0BEB_A002;
    let cfg = HuntConfig::default();
    let memory = TacticalMemory::default();
    let snapshot = Snapshot {
        player: Some((100, 100)),
        entities: vec![
            live_entity(locked_id, 0x1AB5_A001, "bad-lock"),
            live_entity(other_id, 0x1AB5_A002, "replacement"),
        ],
    };
    let mut locked_candidate = target_candidate(locked_id, 0x1AB5_A001);
    locked_candidate.in_attack_range = true;
    let replacement = target_candidate(other_id, 0x1AB5_A002);
    let candidates = vec![locked_candidate, replacement];
    let state = HuntState::Engaging {
        lock: TargetLock {
            target_id: locked_id,
            entity_ptr: 0x1AB5_A001,
            name: "bad-lock".to_string(),
            acquired_at: now - Duration::from_secs(12),
            last_seen: now,
            bootstrapped: false,
        },
        intent: EngageIntent::Attack,
        path: None,
    };

    let output = step(
        &state,
        TickInput {
            snapshot: &snapshot,
            player_pos: Some((100, 100)),
            player_alive: true,
            master_enabled: true,
            in_game: true,
            now,
            state_since: now - Duration::from_secs(12),
            cfg: &cfg,
            memory: &memory,
            candidates: &candidates,
            explore_suggestion: None,
            last_outcome: LastOutcome::AttackNoProgress {
                target_id: locked_id,
            },
            teleport_scroll_available: false,
            damage_spike_detected: false,
            critical_hp_detected: false,
            skill_cd_ms: 0,
            attack_step: AttackStepInput::Legacy,
            locked_target_removed_or_dead: false,
            locked_target_recently_damaged: false,
        },
    );

    assert_eq!(
        output.actions,
        vec![Action::AttackTarget {
            target_id: other_id,
            entity_ptr: 0x1AB5_A002,
            skill: None,
        }]
    );
    match output.next_state {
        Some(HuntState::Engaging { lock, intent, .. }) => {
            assert_eq!(lock.target_id, other_id);
            assert_eq!(intent, EngageIntent::Attack);
        }
        other => panic!("expected immediate replacement engagement, got {other:?}"),
    }
    let (_, record) = output
        .memory_updates
        .add_failed_targets
        .iter()
        .find(|(id, _)| *id == locked_id)
        .expect("bad lock should be suppressed before retargeting");
    assert_eq!(record.cause, FailureCause::AttackRejected);
    assert_eq!(record.until.duration_since(now), Duration::from_millis(FAILED_TARGET_TTL_MS));
}

#[test]
fn engaging_ignores_stale_attack_failure_for_previous_target() {
    let now = start();
    let target_id = 0x0BEB_1101;
    let stale_target = 0x0BEB_1100;
    let cfg = HuntConfig::default();
    let memory = TacticalMemory::default();
    let candidate = target_candidate(target_id, 0x2222_1101);
    let candidates = vec![candidate.clone()];
    let snapshot = Snapshot {
        player: Some((100, 100)),
        entities: vec![live_entity(target_id, candidate.entity_ptr, "current")],
    };
    let state = HuntState::Engaging {
        lock: TargetLock {
            target_id,
            entity_ptr: candidate.entity_ptr,
            name: "current".to_string(),
            acquired_at: now - Duration::from_secs(1),
            last_seen: now,
            bootstrapped: false,
        },
        intent: EngageIntent::Attack,
        path: None,
    };

    let output = step(
        &state,
        TickInput {
            snapshot: &snapshot,
            player_pos: Some((100, 100)),
            player_alive: true,
            master_enabled: true,
            in_game: true,
            now,
            state_since: now - Duration::from_secs(1),
            cfg: &cfg,
            memory: &memory,
            candidates: &candidates,
            explore_suggestion: None,
            last_outcome: LastOutcome::AttackFailed {
                target_id: stale_target,
            },
            teleport_scroll_available: false,
            damage_spike_detected: false,
            critical_hp_detected: false,
            skill_cd_ms: 0,
            attack_step: AttackStepInput::Legacy,
            locked_target_removed_or_dead: false,
            locked_target_recently_damaged: false,
        },
    );

    assert_eq!(
        output.actions,
        vec![Action::AttackTarget {
            target_id,
            entity_ptr: candidate.entity_ptr,
            skill: None,
        }]
    );
    assert!(output.memory_updates.add_failed_targets.is_empty());
}

#[test]
fn attack_candidate_uses_basic_when_selected_skill_cd_not_ready() {
    let now = start();
    let target_id = 0x0BEB_1201;
    let cfg = HuntConfig::default();
    let mut memory = TacticalMemory::default();
    memory.last_skill_cast = Some(now - Duration::from_millis(500));
    let candidate = target_candidate(target_id, 0x2222_1201);
    let candidates = vec![candidate.clone()];
    let snapshot = Snapshot {
        player: Some((100, 100)),
        entities: vec![live_entity(target_id, candidate.entity_ptr, "cooldown")],
    };
    let state = HuntState::Engaging {
        lock: TargetLock {
            target_id,
            entity_ptr: candidate.entity_ptr,
            name: "cooldown".to_string(),
            acquired_at: now - Duration::from_secs(1),
            last_seen: now,
            bootstrapped: false,
        },
        intent: EngageIntent::Attack,
        path: None,
    };

    let output = step(
        &state,
        TickInput {
            snapshot: &snapshot,
            player_pos: Some((100, 100)),
            player_alive: true,
            master_enabled: true,
            in_game: true,
            now,
            state_since: now - Duration::from_secs(1),
            cfg: &cfg,
            memory: &memory,
            candidates: &candidates,
            explore_suggestion: None,
            last_outcome: LastOutcome::NoOutcome,
            teleport_scroll_available: false,
            damage_spike_detected: false,
            critical_hp_detected: false,
            skill_cd_ms: 2_000,
            attack_step: AttackStepInput::Step(AttackSequenceStep::skill(
                "Frozen Cloud".to_string(),
                0,
            )),
            locked_target_removed_or_dead: false,
            locked_target_recently_damaged: false,
        },
    );

    assert_eq!(
        output.actions,
        vec![Action::AttackTarget {
            target_id,
            entity_ptr: candidate.entity_ptr,
            skill: None,
        }]
    );
    assert_eq!(output.memory_updates.set_last_skill_cast, None);
}

#[test]
fn attack_sequence_waiting_falls_back_to_basic_after_repeat_cooldown() {
    let now = start();
    let target_id = 0x0BEB_1202;
    let cfg = HuntConfig::default();
    let mut memory = TacticalMemory::default();
    memory.last_attack = Some(now - Duration::from_millis(REPEAT_NORMAL_ATTACK_COOLDOWN_MS));
    memory.post_skill_basic_pending_target = Some(target_id);
    let candidate = target_candidate(target_id, 0x2222_1202);
    let candidates = vec![candidate.clone()];
    let snapshot = Snapshot {
        player: Some((100, 100)),
        entities: vec![live_entity(target_id, candidate.entity_ptr, "waiting")],
    };
    let state = HuntState::Engaging {
        lock: TargetLock {
            target_id,
            entity_ptr: candidate.entity_ptr,
            name: "waiting".to_string(),
            acquired_at: now - Duration::from_secs(1),
            last_seen: now,
            bootstrapped: false,
        },
        intent: EngageIntent::Attack,
        path: None,
    };

    let output = step(
        &state,
        TickInput {
            snapshot: &snapshot,
            player_pos: Some((100, 100)),
            player_alive: true,
            master_enabled: true,
            in_game: true,
            now,
            state_since: now - Duration::from_secs(1),
            cfg: &cfg,
            memory: &memory,
            candidates: &candidates,
            explore_suggestion: None,
            last_outcome: LastOutcome::NoOutcome,
            teleport_scroll_available: false,
            damage_spike_detected: false,
            critical_hp_detected: false,
            skill_cd_ms: 0,
            attack_step: AttackStepInput::Waiting,
            locked_target_removed_or_dead: false,
            locked_target_recently_damaged: false,
        },
    );

    assert_eq!(
        output.actions,
        vec![Action::AttackTarget {
            target_id,
            entity_ptr: candidate.entity_ptr,
            skill: None,
        }]
    );
    assert_eq!(output.memory_updates.set_last_attack, Some(now));
    assert!(output.memory_updates.clear_post_skill_basic_pending);
}

#[test]
fn recovering_attack_failed_interrupts_for_available_candidate() {
    let now = start();
    let target_id = 0x0BEB_1301;
    let cfg = HuntConfig::default();
    let memory = TacticalMemory::default();
    let candidate = target_candidate(target_id, 0x2222_1301);
    let candidates = vec![candidate.clone()];
    let snapshot = Snapshot {
        player: Some((100, 100)),
        entities: vec![live_entity(target_id, candidate.entity_ptr, "replacement")],
    };
    let state = HuntState::Recovering {
        cause: RecoveryCause::AttackFailed,
        until: now + Duration::from_secs(1),
    };

    let output = step(
        &state,
        TickInput {
            snapshot: &snapshot,
            player_pos: Some((100, 100)),
            player_alive: true,
            master_enabled: true,
            in_game: true,
            now,
            state_since: now - Duration::from_secs(1),
            cfg: &cfg,
            memory: &memory,
            candidates: &candidates,
            explore_suggestion: None,
            last_outcome: LastOutcome::NoOutcome,
            teleport_scroll_available: false,
            damage_spike_detected: false,
            critical_hp_detected: false,
            skill_cd_ms: 0,
            attack_step: AttackStepInput::Legacy,
            locked_target_removed_or_dead: false,
            locked_target_recently_damaged: false,
        },
    );

    assert_eq!(
        output.actions,
        vec![Action::AttackTarget {
            target_id,
            entity_ptr: candidate.entity_ptr,
            skill: None,
        }]
    );
    assert_eq!(
        output.transition.as_ref().map(|t| (t.from, t.to, t.cause)),
        Some((
            StateLabel::RecoveringAttackFailed,
            StateLabel::EngagingAttack,
            TransitionCause::TargetAcquired
        ))
    );
}

#[test]
fn empty_explore_budget_uses_scroll_before_idle_timer() {
    let now = start();
    let cfg = HuntConfig {
        teleport_scroll_name: "teleport".to_string(),
        idle_teleport_secs: 30,
        ..HuntConfig::default()
    };
    let mut memory = TacticalMemory::default();
    memory.last_walk = Some(now - Duration::from_millis(200));
    memory.no_actionable_target_since = Some(now - Duration::from_secs(1));
    memory.empty_explore_walks = EMPTY_EXPLORE_WALK_BUDGET;
    let snapshot = Snapshot {
        player: Some((100, 100)),
        entities: Vec::new(),
    };
    let explore = ExploreSuggestion {
        goal: (120, 100),
        path: vec![(101, 100)],
    };
    let state = HuntState::Exploring {
        goal: (110, 100),
        path: Vec::new(),
    };

    let output = step(
        &state,
        TickInput {
            snapshot: &snapshot,
            player_pos: Some((100, 100)),
            player_alive: true,
            master_enabled: true,
            in_game: true,
            now,
            state_since: now - Duration::from_secs(1),
            cfg: &cfg,
            memory: &memory,
            candidates: &[],
            explore_suggestion: Some(&explore),
            last_outcome: LastOutcome::NoOutcome,
            teleport_scroll_available: false,
            damage_spike_detected: false,
            critical_hp_detected: false,
            skill_cd_ms: 0,
            attack_step: AttackStepInput::Legacy,
            locked_target_removed_or_dead: false,
            locked_target_recently_damaged: false,
        },
    );

    assert_eq!(
        output.actions,
        vec![Action::UseTeleportScroll {
            name_keyword: "teleport".to_string()
        }]
    );
    assert_eq!(
        output.transition.as_ref().map(|t| (t.to, t.cause)),
        Some((StateLabel::Escaping, TransitionCause::UseTeleportScroll))
    );
    assert!(output.memory_updates.clear_empty_explore_walks);
}

#[test]
fn exploration_walk_increments_empty_explore_budget() {
    let now = start();
    let cfg = HuntConfig::default();
    let memory = TacticalMemory::default();
    let snapshot = Snapshot {
        player: Some((100, 100)),
        entities: Vec::new(),
    };
    let explore = ExploreSuggestion {
        goal: (120, 100),
        path: vec![(101, 100), (102, 100)],
    };

    let output = step(
        &HuntState::Idle,
        TickInput {
            snapshot: &snapshot,
            player_pos: Some((100, 100)),
            player_alive: true,
            master_enabled: true,
            in_game: true,
            now,
            state_since: now,
            cfg: &cfg,
            memory: &memory,
            candidates: &[],
            explore_suggestion: Some(&explore),
            last_outcome: LastOutcome::NoOutcome,
            teleport_scroll_available: false,
            damage_spike_detected: false,
            critical_hp_detected: false,
            skill_cd_ms: 0,
            attack_step: AttackStepInput::Legacy,
            locked_target_removed_or_dead: false,
            locked_target_recently_damaged: false,
        },
    );

    assert_eq!(output.actions, vec![Action::WalkTo { tile: (101, 100) }]);
    assert!(output.memory_updates.increment_empty_explore_walks);
}

#[test]
fn target_acquired_clears_empty_explore_budget() {
    let now = start();
    let target_id = 0x0BEB_1401;
    let cfg = HuntConfig::default();
    let mut memory = TacticalMemory::default();
    memory.empty_explore_walks = 4;
    let candidate = target_candidate(target_id, 0x2222_1401);
    let candidates = vec![candidate.clone()];
    let snapshot = Snapshot {
        player: Some((100, 100)),
        entities: vec![live_entity(target_id, candidate.entity_ptr, "target")],
    };

    let output = step(
        &HuntState::Idle,
        TickInput {
            snapshot: &snapshot,
            player_pos: Some((100, 100)),
            player_alive: true,
            master_enabled: true,
            in_game: true,
            now,
            state_since: now,
            cfg: &cfg,
            memory: &memory,
            candidates: &candidates,
            explore_suggestion: None,
            last_outcome: LastOutcome::NoOutcome,
            teleport_scroll_available: false,
            damage_spike_detected: false,
            critical_hp_detected: false,
            skill_cd_ms: 0,
            attack_step: AttackStepInput::Legacy,
            locked_target_removed_or_dead: false,
            locked_target_recently_damaged: false,
        },
    );

    assert_eq!(
        output.actions,
        vec![Action::AttackTarget {
            target_id,
            entity_ptr: candidate.entity_ptr,
            skill: None,
        }]
    );
    assert!(output.memory_updates.clear_empty_explore_walks);
}

#[test]
fn attack_failed_keeps_recently_damaged_lock_instead_of_switching() {
    let now = start();
    let locked_id = 0x0BEB_1501;
    let other_id = 0x0BEB_1502;
    let cfg = HuntConfig::default();
    let memory = TacticalMemory::default();
    let locked = target_candidate(locked_id, 0x2222_1501);
    let other = target_candidate(other_id, 0x2222_1502);
    let candidates = vec![locked.clone(), other.clone()];
    let snapshot = Snapshot {
        player: Some((100, 100)),
        entities: vec![
            live_entity(locked_id, locked.entity_ptr, "damaged-lock"),
            live_entity(other_id, other.entity_ptr, "other"),
        ],
    };
    let state = HuntState::Engaging {
        lock: TargetLock {
            target_id: locked_id,
            entity_ptr: locked.entity_ptr,
            name: "damaged-lock".to_string(),
            acquired_at: now - Duration::from_secs(2),
            last_seen: now,
            bootstrapped: false,
        },
        intent: EngageIntent::Attack,
        path: None,
    };

    let output = step(
        &state,
        TickInput {
            snapshot: &snapshot,
            player_pos: Some((100, 100)),
            player_alive: true,
            master_enabled: true,
            in_game: true,
            now,
            state_since: now - Duration::from_secs(2),
            cfg: &cfg,
            memory: &memory,
            candidates: &candidates,
            explore_suggestion: None,
            last_outcome: LastOutcome::AttackFailed {
                target_id: locked_id,
            },
            teleport_scroll_available: false,
            damage_spike_detected: false,
            critical_hp_detected: false,
            skill_cd_ms: 0,
            attack_step: AttackStepInput::Legacy,
            locked_target_removed_or_dead: false,
            locked_target_recently_damaged: true,
        },
    );

    assert_eq!(
        output.actions,
        vec![Action::AttackTarget {
            target_id: locked_id,
            entity_ptr: locked.entity_ptr,
            skill: None,
        }]
    );
    assert!(output.memory_updates.add_failed_targets.is_empty());
}

#[test]
fn exploring_recovers_when_same_walk_tile_does_not_move_player() {
    let now = start();
    let cfg = HuntConfig::default();
    let mut memory = TacticalMemory::default();
    for i in 0..STALL_WINDOW_TICKS {
        memory.recent_positions.push_back((
            100,
            100,
            now - Duration::from_millis((STALL_WINDOW_TICKS - i) as u64 * 200),
        ));
    }
    memory.last_walk = Some(now - Duration::from_secs(2));
    let snapshot = Snapshot {
        player: Some((100, 100)),
        entities: Vec::new(),
    };
    let explore = ExploreSuggestion {
        goal: (105, 100),
        path: vec![(101, 100), (102, 100)],
    };
    let state = HuntState::Exploring {
        goal: explore.goal,
        path: explore.path.clone(),
    };

    let output = step(
        &state,
        TickInput {
            snapshot: &snapshot,
            player_pos: Some((100, 100)),
            player_alive: true,
            master_enabled: true,
            in_game: true,
            now,
            state_since: now - Duration::from_secs(3),
            cfg: &cfg,
            memory: &memory,
            candidates: &[],
            explore_suggestion: Some(&explore),
            last_outcome: LastOutcome::WalkOk,
            teleport_scroll_available: false,
            damage_spike_detected: false,
            critical_hp_detected: false,
            skill_cd_ms: 0,
            attack_step: AttackStepInput::Legacy,
            locked_target_removed_or_dead: false,
            locked_target_recently_damaged: false,
        },
    );

    assert_eq!(output.actions, vec![Action::Wait]);
    assert_eq!(
        output.transition.as_ref().map(|t| (t.to, t.cause)),
        Some((StateLabel::RecoveringWalkStuck, TransitionCause::WalkStuck))
    );
    assert_eq!(output.memory_updates.add_obstacles, vec![((101, 100), now)]);
    assert_eq!(
        output.memory_updates.add_failed_explore_directions,
        vec![(
            ExploreDirectionKey::from_goal((100, 100), explore.goal).unwrap(),
            now
        )]
    );
    assert!(
        output.memory_updates.clear_recent_positions,
        "confirmed exploration recovery must drop stale stall samples before the next route"
    );
}

#[test]
fn exploring_walk_failed_records_failed_direction_before_retrying() {
    let now = start();
    let cfg = HuntConfig::default();
    let memory = TacticalMemory::default();
    let snapshot = Snapshot {
        player: Some((100, 100)),
        entities: Vec::new(),
    };
    let explore = ExploreSuggestion {
        goal: (105, 100),
        path: vec![(101, 100), (102, 100)],
    };
    let state = HuntState::Exploring {
        goal: explore.goal,
        path: explore.path.clone(),
    };

    let output = step(
        &state,
        TickInput {
            snapshot: &snapshot,
            player_pos: Some((100, 100)),
            player_alive: true,
            master_enabled: true,
            in_game: true,
            now,
            state_since: now - Duration::from_secs(1),
            cfg: &cfg,
            memory: &memory,
            candidates: &[],
            explore_suggestion: Some(&explore),
            last_outcome: LastOutcome::WalkFailed {
                attempted_tile: (101, 100),
            },
            teleport_scroll_available: false,
            damage_spike_detected: false,
            critical_hp_detected: false,
            skill_cd_ms: 0,
            attack_step: AttackStepInput::Legacy,
            locked_target_removed_or_dead: false,
            locked_target_recently_damaged: false,
        },
    );

    assert_eq!(output.actions, vec![Action::Wait]);
    assert_eq!(
        output.transition.as_ref().map(|t| (t.to, t.cause)),
        Some((StateLabel::RecoveringWalkStuck, TransitionCause::WalkStuck))
    );
    assert_eq!(output.memory_updates.add_obstacles, vec![((101, 100), now)]);
    assert_eq!(
        output.memory_updates.add_failed_explore_directions,
        vec![(
            ExploreDirectionKey::from_goal((100, 100), explore.goal).unwrap(),
            now
        )]
    );
    assert!(output.memory_updates.clear_recent_positions);
}

#[test]
fn exploring_does_not_recover_from_startup_stall_samples_before_first_walk() {
    let now = start();
    let cfg = HuntConfig::default();
    let mut memory = TacticalMemory::default();
    for i in 0..STALL_WINDOW_TICKS {
        memory.recent_positions.push_back((
            100,
            100,
            now - Duration::from_millis((STALL_WINDOW_TICKS - i) as u64 * 200),
        ));
    }
    let snapshot = Snapshot {
        player: Some((100, 100)),
        entities: Vec::new(),
    };
    let explore = ExploreSuggestion {
        goal: (105, 100),
        path: vec![(101, 100), (102, 100)],
    };
    let state = HuntState::Exploring {
        goal: explore.goal,
        path: explore.path.clone(),
    };

    let output = step(
        &state,
        TickInput {
            snapshot: &snapshot,
            player_pos: Some((100, 100)),
            player_alive: true,
            master_enabled: true,
            in_game: true,
            now,
            state_since: now - Duration::from_secs(3),
            cfg: &cfg,
            memory: &memory,
            candidates: &[],
            explore_suggestion: Some(&explore),
            last_outcome: LastOutcome::WalkOk,
            teleport_scroll_available: false,
            damage_spike_detected: false,
            critical_hp_detected: false,
            skill_cd_ms: 0,
            attack_step: AttackStepInput::Legacy,
            locked_target_removed_or_dead: false,
            locked_target_recently_damaged: false,
        },
    );

    assert_eq!(output.actions, vec![Action::WalkTo { tile: (101, 100) }]);
    assert_eq!(output.transition, None);
}

#[test]
fn exploring_continues_stored_path_instead_of_restarting_from_fresh_suggestion() {
    let now = start();
    let cfg = HuntConfig::default();
    let memory = TacticalMemory::default();
    let snapshot = Snapshot {
        player: Some((100, 100)),
        entities: Vec::new(),
    };
    let fresh_explore = ExploreSuggestion {
        goal: (95, 100),
        path: vec![(99, 100), (98, 100)],
    };
    let state = HuntState::Exploring {
        goal: (105, 100),
        path: vec![(101, 100), (102, 100), (103, 100)],
    };

    let output = step(
        &state,
        TickInput {
            snapshot: &snapshot,
            player_pos: Some((100, 100)),
            player_alive: true,
            master_enabled: true,
            in_game: true,
            now,
            state_since: now - Duration::from_secs(1),
            cfg: &cfg,
            memory: &memory,
            candidates: &[],
            explore_suggestion: Some(&fresh_explore),
            last_outcome: LastOutcome::WalkOk,
            teleport_scroll_available: false,
            damage_spike_detected: false,
            critical_hp_detected: false,
            skill_cd_ms: 0,
            attack_step: AttackStepInput::Legacy,
            locked_target_removed_or_dead: false,
            locked_target_recently_damaged: false,
        },
    );

    assert_eq!(output.actions, vec![Action::WalkTo { tile: (101, 100) }]);
    assert_eq!(output.transition, None);
    match output.next_state {
        Some(HuntState::Exploring { goal, path }) => {
            assert_eq!(goal, (105, 100));
            assert_eq!(path, vec![(101, 100), (102, 100), (103, 100)]);
        }
        other => panic!("expected continued exploration state, got {other:?}"),
    }
}

#[test]
fn engaging_approach_continues_stored_path_instead_of_replanning_backwards() {
    let now = start();
    let target_id = 0x0BEB_CAFE;
    let entity_ptr = 0x1234_0000;
    let cfg = HuntConfig::default();
    let memory = TacticalMemory::default();
    let snapshot = Snapshot {
        player: Some((100, 100)),
        entities: Vec::new(),
    };
    let mut candidate = target_candidate(target_id, entity_ptr);
    candidate.tile = (104, 100);
    candidate.distance = 4;
    candidate.in_attack_range = false;
    candidate.reachable_path = Some(vec![(99, 100), (98, 100)]);
    let candidates = vec![candidate];
    let state = HuntState::Engaging {
        lock: TargetLock {
            target_id,
            entity_ptr,
            name: "locked".to_string(),
            acquired_at: now - Duration::from_secs(1),
            last_seen: now - Duration::from_millis(200),
            bootstrapped: false,
        },
        intent: EngageIntent::Approach,
        path: Some(vec![(101, 100), (102, 100), (103, 100)]),
    };

    let output = step(
        &state,
        TickInput {
            snapshot: &snapshot,
            player_pos: Some((100, 100)),
            player_alive: true,
            master_enabled: true,
            in_game: true,
            now,
            state_since: now - Duration::from_secs(1),
            cfg: &cfg,
            memory: &memory,
            candidates: &candidates,
            explore_suggestion: None,
            last_outcome: LastOutcome::WalkOk,
            teleport_scroll_available: false,
            damage_spike_detected: false,
            critical_hp_detected: false,
            skill_cd_ms: 0,
            attack_step: AttackStepInput::Legacy,
            locked_target_removed_or_dead: false,
            locked_target_recently_damaged: false,
        },
    );

    assert_eq!(output.actions, vec![Action::WalkTo { tile: (101, 100) }]);
    assert_eq!(output.transition, None);
    match output.next_state {
        Some(HuntState::Engaging { intent, path, .. }) => {
            assert_eq!(intent, EngageIntent::Approach);
            assert_eq!(path, Some(vec![(101, 100), (102, 100), (103, 100)]));
        }
        other => panic!("expected continued approach state, got {other:?}"),
    }
}

#[test]
fn engaging_approach_recovers_when_next_tile_does_not_move_player() {
    let now = start();
    let target_id = 0x0BEB_FB2F;
    let entity_ptr = 0x1981_0000;
    let cfg = HuntConfig::default();
    let mut memory = TacticalMemory::default();
    for i in 0..STALL_WINDOW_TICKS {
        memory.recent_positions.push_back((
            100,
            100,
            now - Duration::from_millis((STALL_WINDOW_TICKS - i) as u64 * 200),
        ));
    }
    memory.last_walk = Some(now - Duration::from_secs(2));
    let snapshot = Snapshot {
        player: Some((100, 100)),
        entities: Vec::new(),
    };
    let mut candidate = target_candidate(target_id, entity_ptr);
    candidate.distance = 2;
    candidate.in_attack_range = false;
    candidate.reachable_path = Some(vec![(100, 101), (100, 102)]);
    let candidates = vec![candidate];
    let state = HuntState::Engaging {
        lock: TargetLock {
            target_id,
            entity_ptr,
            name: "locked".to_string(),
            acquired_at: now - Duration::from_secs(3),
            last_seen: now - Duration::from_millis(200),
            bootstrapped: false,
        },
        intent: EngageIntent::Approach,
        path: Some(vec![(100, 101), (100, 102)]),
    };

    let output = step(
        &state,
        TickInput {
            snapshot: &snapshot,
            player_pos: Some((100, 100)),
            player_alive: true,
            master_enabled: true,
            in_game: true,
            now,
            state_since: now - Duration::from_secs(3),
            cfg: &cfg,
            memory: &memory,
            candidates: &candidates,
            explore_suggestion: None,
            last_outcome: LastOutcome::WalkOk,
            teleport_scroll_available: false,
            damage_spike_detected: false,
            critical_hp_detected: false,
            skill_cd_ms: 0,
            attack_step: AttackStepInput::Legacy,
            locked_target_removed_or_dead: false,
            locked_target_recently_damaged: false,
        },
    );

    assert_eq!(output.actions, vec![Action::Wait]);
    assert_eq!(
        output.transition.as_ref().map(|t| (t.to, t.cause)),
        Some((StateLabel::RecoveringWalkStuck, TransitionCause::WalkStuck))
    );
    assert_eq!(output.memory_updates.add_obstacles, vec![((100, 101), now)]);
    let (_, record) = output
        .memory_updates
        .add_failed_targets
        .iter()
        .find(|(id, _)| *id == target_id)
        .expect("stalled approach should temporarily skip the wall-side target");
    assert_eq!(record.cause, FailureCause::Unreachable);
    assert_eq!(record.until.duration_since(now), Duration::from_millis(FAILED_TARGET_TTL_MS));
    assert!(
        output.memory_updates.clear_recent_positions,
        "confirmed approach recovery must drop stale stall samples before the next target"
    );
}

#[test]
fn idle_with_expired_no_target_timer_explores_before_first_teleport() {
    let now = start();
    let cfg = HuntConfig {
        teleport_scroll_name: "teleport".to_string(),
        idle_teleport_secs: 1,
        ..HuntConfig::default()
    };
    let mut memory = TacticalMemory::default();
    memory.no_actionable_target_since = Some(now - Duration::from_secs(5));
    let snapshot = Snapshot {
        player: Some((100, 100)),
        entities: Vec::new(),
    };
    let explore = ExploreSuggestion {
        goal: (105, 100),
        path: vec![(101, 100), (102, 100)],
    };

    let output = step(
        &HuntState::Idle,
        TickInput {
            snapshot: &snapshot,
            player_pos: Some((100, 100)),
            player_alive: true,
            master_enabled: true,
            in_game: true,
            now,
            state_since: now - Duration::from_secs(5),
            cfg: &cfg,
            memory: &memory,
            candidates: &[],
            explore_suggestion: Some(&explore),
            last_outcome: LastOutcome::NoOutcome,
            teleport_scroll_available: true,
            damage_spike_detected: false,
            critical_hp_detected: false,
            skill_cd_ms: 0,
            attack_step: AttackStepInput::Legacy,
            locked_target_removed_or_dead: false,
            locked_target_recently_damaged: false,
        },
    );

    assert_eq!(output.actions, vec![Action::WalkTo { tile: (101, 100) }]);
    assert_eq!(
        output.transition.as_ref().map(|t| (t.to, t.cause)),
        Some((StateLabel::Exploring, TransitionCause::StartExploration))
    );
}

#[test]
fn idle_with_expired_no_target_timer_teleports_after_exploration_has_started() {
    let now = start();
    let cfg = HuntConfig {
        teleport_scroll_name: "teleport".to_string(),
        idle_teleport_secs: 1,
        ..HuntConfig::default()
    };
    let mut memory = TacticalMemory::default();
    memory.no_actionable_target_since = Some(now - Duration::from_secs(5));
    memory.last_walk = Some(now - Duration::from_secs(3));
    let snapshot = Snapshot {
        player: Some((100, 100)),
        entities: Vec::new(),
    };
    let explore = ExploreSuggestion {
        goal: (105, 100),
        path: vec![(101, 100), (102, 100)],
    };

    let output = step(
        &HuntState::Idle,
        TickInput {
            snapshot: &snapshot,
            player_pos: Some((100, 100)),
            player_alive: true,
            master_enabled: true,
            in_game: true,
            now,
            state_since: now - Duration::from_secs(5),
            cfg: &cfg,
            memory: &memory,
            candidates: &[],
            explore_suggestion: Some(&explore),
            last_outcome: LastOutcome::NoOutcome,
            teleport_scroll_available: true,
            damage_spike_detected: false,
            critical_hp_detected: false,
            skill_cd_ms: 0,
            attack_step: AttackStepInput::Legacy,
            locked_target_removed_or_dead: false,
            locked_target_recently_damaged: false,
        },
    );

    assert_eq!(
        output.actions,
        vec![Action::UseTeleportScroll {
            name_keyword: "teleport".to_string()
        }]
    );
    assert_eq!(
        output.transition.as_ref().map(|t| (t.to, t.cause)),
        Some((StateLabel::Escaping, TransitionCause::UseTeleportScroll))
    );
}

#[test]
fn recovering_no_reachable_uses_configured_scroll_without_inventory_prescan() {
    let now = start();
    let cfg = HuntConfig {
        teleport_scroll_name: "teleport".to_string(),
        idle_teleport_secs: 1,
        ..HuntConfig::default()
    };
    let mut memory = TacticalMemory::default();
    memory.no_actionable_target_since = Some(now - Duration::from_secs(5));
    let snapshot = Snapshot {
        player: Some((100, 100)),
        entities: Vec::new(),
    };

    let output = step(
        &HuntState::Recovering {
            cause: RecoveryCause::NoReachableTarget,
            until: now - Duration::from_millis(1),
        },
        TickInput {
            snapshot: &snapshot,
            player_pos: Some((100, 100)),
            player_alive: true,
            master_enabled: true,
            in_game: true,
            now,
            state_since: now - Duration::from_secs(3),
            cfg: &cfg,
            memory: &memory,
            candidates: &[],
            explore_suggestion: None,
            last_outcome: LastOutcome::NoOutcome,
            teleport_scroll_available: false,
            damage_spike_detected: false,
            critical_hp_detected: false,
            skill_cd_ms: 0,
            attack_step: AttackStepInput::Legacy,
            locked_target_removed_or_dead: false,
            locked_target_recently_damaged: false,
        },
    );

    assert_eq!(
        output.actions,
        vec![Action::UseTeleportScroll {
            name_keyword: "teleport".to_string()
        }]
    );
    assert_eq!(
        output.transition.as_ref().map(|t| (t.to, t.cause)),
        Some((StateLabel::Escaping, TransitionCause::UseTeleportScroll))
    );
    assert_eq!(output.memory_updates.set_last_teleport, Some(now));
    match output.next_state {
        Some(HuntState::Escaping { wait_until, .. }) => {
            assert_eq!(
                wait_until.duration_since(now),
                Duration::from_millis(ESCAPING_WAIT_DURATION_MS)
            );
        }
        other => panic!("expected escaping state, got {other:?}"),
    }
}

#[test]
fn engaging_inactivity_watchdog_teleports_when_no_recent_movement_or_attack() {
    let now = start();
    let cfg = HuntConfig {
        teleport_scroll_name: "teleport".to_string(),
        ..HuntConfig::default()
    };
    let mut memory = TacticalMemory::default();
    memory.last_position_change = Some(now - Duration::from_secs(25));
    let target_id = 0x0BEB_C900;
    let entity_ptr = 0x1A00_C900;
    let candidate = TargetCandidate {
        reachable_path: Some(vec![(101, 100)]),
        in_attack_range: false,
        distance: 4,
        ..target_candidate(target_id, entity_ptr)
    };
    let candidates = vec![candidate];
    let snapshot = Snapshot {
        player: Some((100, 100)),
        entities: vec![live_entity(target_id, entity_ptr, "target")],
    };
    let state = HuntState::Engaging {
        lock: TargetLock {
            target_id,
            entity_ptr,
            name: "target".to_string(),
            acquired_at: now - Duration::from_secs(25),
            last_seen: now - Duration::from_secs(1),
            bootstrapped: false,
        },
        intent: EngageIntent::Approach,
        path: Some(vec![(101, 100)]),
    };

    let output = step(
        &state,
        TickInput {
            snapshot: &snapshot,
            player_pos: Some((100, 100)),
            player_alive: true,
            master_enabled: true,
            in_game: true,
            now,
            state_since: now - Duration::from_secs(25),
            cfg: &cfg,
            memory: &memory,
            candidates: &candidates,
            explore_suggestion: None,
            last_outcome: LastOutcome::NoOutcome,
            teleport_scroll_available: true,
            damage_spike_detected: false,
            critical_hp_detected: false,
            skill_cd_ms: 0,
            attack_step: AttackStepInput::Legacy,
            locked_target_removed_or_dead: false,
            locked_target_recently_damaged: false,
        },
    );

    assert_eq!(
        output.actions,
        vec![Action::UseTeleportScroll {
            name_keyword: "teleport".to_string(),
        }]
    );
    assert_eq!(
        output.transition.as_ref().map(|t| (t.to, t.cause)),
        Some((StateLabel::Escaping, TransitionCause::UseTeleportScroll))
    );
    assert_eq!(output.memory_updates.set_last_teleport, Some(now));
}

#[test]
fn engaging_inactivity_watchdog_keeps_recent_attack_active() {
    let now = start();
    let cfg = HuntConfig {
        teleport_scroll_name: "teleport".to_string(),
        ..HuntConfig::default()
    };
    let mut memory = TacticalMemory::default();
    memory.last_position_change = Some(now - Duration::from_secs(25));
    memory.last_attack = Some(now - Duration::from_secs(1));
    let target_id = 0x0BEB_C901;
    let entity_ptr = 0x1A00_C901;
    let candidate = TargetCandidate {
        reachable_path: Some(vec![(101, 100)]),
        in_attack_range: false,
        distance: 4,
        ..target_candidate(target_id, entity_ptr)
    };
    let candidates = vec![candidate];
    let snapshot = Snapshot {
        player: Some((100, 100)),
        entities: vec![live_entity(target_id, entity_ptr, "target")],
    };
    let state = HuntState::Engaging {
        lock: TargetLock {
            target_id,
            entity_ptr,
            name: "target".to_string(),
            acquired_at: now - Duration::from_secs(25),
            last_seen: now - Duration::from_secs(1),
            bootstrapped: false,
        },
        intent: EngageIntent::Approach,
        path: Some(vec![(101, 100)]),
    };

    let output = step(
        &state,
        TickInput {
            snapshot: &snapshot,
            player_pos: Some((100, 100)),
            player_alive: true,
            master_enabled: true,
            in_game: true,
            now,
            state_since: now - Duration::from_secs(25),
            cfg: &cfg,
            memory: &memory,
            candidates: &candidates,
            explore_suggestion: None,
            last_outcome: LastOutcome::NoOutcome,
            teleport_scroll_available: true,
            damage_spike_detected: false,
            critical_hp_detected: false,
            skill_cd_ms: 0,
            attack_step: AttackStepInput::Legacy,
            locked_target_removed_or_dead: false,
            locked_target_recently_damaged: false,
        },
    );

    assert_eq!(output.actions, vec![Action::WalkTo { tile: (101, 100) }]);
    assert_eq!(output.memory_updates.set_last_walk, Some(now));
}

#[test]
fn engaging_approach_walk_failed_marks_target_unreachable() {
    let now = start();
    let target_id = 0x0BEB_F00D;
    let entity_ptr = 0x1981_0001;
    let cfg = HuntConfig::default();
    let memory = TacticalMemory::default();
    let snapshot = Snapshot {
        player: Some((100, 100)),
        entities: Vec::new(),
    };
    let state = HuntState::Engaging {
        lock: TargetLock {
            target_id,
            entity_ptr,
            name: "locked".to_string(),
            acquired_at: now - Duration::from_secs(3),
            last_seen: now - Duration::from_millis(200),
            bootstrapped: false,
        },
        intent: EngageIntent::Approach,
        path: Some(vec![(100, 101), (100, 102)]),
    };

    let output = step(
        &state,
        TickInput {
            snapshot: &snapshot,
            player_pos: Some((100, 100)),
            player_alive: true,
            master_enabled: true,
            in_game: true,
            now,
            state_since: now - Duration::from_secs(3),
            cfg: &cfg,
            memory: &memory,
            candidates: &[],
            explore_suggestion: None,
            last_outcome: LastOutcome::WalkFailed {
                attempted_tile: (100, 101),
            },
            teleport_scroll_available: false,
            damage_spike_detected: false,
            critical_hp_detected: false,
            skill_cd_ms: 0,
            attack_step: AttackStepInput::Legacy,
            locked_target_removed_or_dead: false,
            locked_target_recently_damaged: false,
        },
    );

    assert_eq!(
        output.transition.as_ref().map(|t| (t.to, t.cause)),
        Some((StateLabel::RecoveringWalkStuck, TransitionCause::WalkStuck))
    );
    assert_eq!(output.memory_updates.add_obstacles, vec![((100, 101), now)]);
    let (_, record) = output
        .memory_updates
        .add_failed_targets
        .iter()
        .find(|(id, _)| *id == target_id)
        .expect("failed approach walk should blacklist the target briefly");
    assert_eq!(record.cause, FailureCause::Unreachable);
    assert_eq!(record.until.duration_since(now), Duration::from_millis(FAILED_TARGET_TTL_MS));
    assert!(output.memory_updates.clear_recent_positions);
}

#[test]
fn engaging_candidate_without_remaining_path_marks_target_unreachable() {
    let now = start();
    let target_id = 0x0BEB_F011;
    let entity_ptr = 0x1981_0002;
    let cfg = HuntConfig::default();
    let memory = TacticalMemory::default();
    let snapshot = Snapshot {
        player: Some((100, 100)),
        entities: Vec::new(),
    };
    let mut candidate = target_candidate(target_id, entity_ptr);
    candidate.distance = 2;
    candidate.in_attack_range = false;
    candidate.reachable_path = Some(Vec::new());
    let candidates = vec![candidate];
    let state = HuntState::Engaging {
        lock: TargetLock {
            target_id,
            entity_ptr,
            name: "locked".to_string(),
            acquired_at: now - Duration::from_secs(3),
            last_seen: now - Duration::from_millis(200),
            bootstrapped: false,
        },
        intent: EngageIntent::Approach,
        path: Some(Vec::new()),
    };

    let output = step(
        &state,
        TickInput {
            snapshot: &snapshot,
            player_pos: Some((100, 100)),
            player_alive: true,
            master_enabled: true,
            in_game: true,
            now,
            state_since: now - Duration::from_secs(3),
            cfg: &cfg,
            memory: &memory,
            candidates: &candidates,
            explore_suggestion: None,
            last_outcome: LastOutcome::WalkOk,
            teleport_scroll_available: false,
            damage_spike_detected: false,
            critical_hp_detected: false,
            skill_cd_ms: 0,
            attack_step: AttackStepInput::Legacy,
            locked_target_removed_or_dead: false,
            locked_target_recently_damaged: false,
        },
    );

    assert_eq!(
        output.transition.as_ref().map(|t| (t.to, t.cause)),
        Some((
            StateLabel::RecoveringNoReachableTarget,
            TransitionCause::AllTargetsUnreachable
        ))
    );
    let (_, record) = output
        .memory_updates
        .add_failed_targets
        .iter()
        .find(|(id, _)| *id == target_id)
        .expect("no remaining approach path should briefly skip the target");
    assert_eq!(record.cause, FailureCause::Unreachable);
    assert_eq!(record.until.duration_since(now), Duration::from_millis(FAILED_TARGET_TTL_MS));
    assert!(output.memory_updates.clear_recent_positions);
}

#[test]
fn attack_failed_records_failed_target_beyond_recovery_window() {
    let now = start();
    let target_id = 0x0BEB_DEC1;
    let cfg = HuntConfig::default();
    let memory = TacticalMemory::default();
    let snapshot = Snapshot::default();
    let state = HuntState::Engaging {
        lock: TargetLock {
            target_id,
            entity_ptr: 0x2222_0000,
            name: "mob".to_string(),
            acquired_at: now - Duration::from_secs(1),
            last_seen: now,
            bootstrapped: false,
        },
        intent: EngageIntent::Attack,
        path: None,
    };

    let output = step(
        &state,
        TickInput {
            snapshot: &snapshot,
            player_pos: Some((100, 100)),
            player_alive: true,
            master_enabled: true,
            in_game: true,
            now,
            state_since: now - Duration::from_secs(1),
            cfg: &cfg,
            memory: &memory,
            candidates: &[],
            explore_suggestion: None,
            last_outcome: LastOutcome::AttackFailed { target_id },
            teleport_scroll_available: false,
            damage_spike_detected: false,
            critical_hp_detected: false,
            skill_cd_ms: 0,
            attack_step: AttackStepInput::Waiting,
            locked_target_removed_or_dead: false,
            locked_target_recently_damaged: false,
        },
    );

    assert_eq!(
        output.transition.as_ref().map(|t| (t.to, t.cause)),
        Some((
            StateLabel::RecoveringAttackFailed,
            TransitionCause::AttackFailed
        ))
    );
    match output.next_state {
        Some(HuntState::Recovering {
            cause: RecoveryCause::AttackFailed,
            until,
        }) => assert_eq!(
            until.duration_since(now),
            Duration::from_millis(RECOVERY_ATTACK_FAILED_DURATION_MS)
        ),
        other => panic!("expected attack-failed recovery, got {other:?}"),
    }
    let (_, record) = output
        .memory_updates
        .add_failed_targets
        .iter()
        .find(|(id, _)| *id == target_id)
        .expect("attack failure should blacklist the rejected target");
    assert_eq!(record.cause, FailureCause::AttackRejected);
    assert_eq!(record.until.duration_since(now), Duration::from_millis(FAILED_TARGET_TTL_MS));
}
