use hunt_bot::decide::hunt::{AttackSequenceStep, HuntConfig};
use hunt_bot::hunt4::memory::{
    FailureCause, FailureRecord, MemoryUpdate, POSITION_HISTORY_CAP, TacticalMemory,
};
use hunt_bot::hunt4::model::{EntityClass, EntityView, Snapshot};
use hunt_bot::hunt4::state::{
    DisabledReason, EngageIntent, HuntState, RecoveryCause, StopReason, TargetLock,
};
use hunt_bot::hunt4::step::{
    Action, AttackStepInput, LastOutcome, TargetCandidate, TickInput, TickOutput, TransitionCause,
    state_label, step,
};
use hunt_bot::time::{Duration, Instant};

fn start() -> Instant {
    Instant::from_nanos(1_000_000_000_000_000)
}

struct World {
    snapshot: Snapshot,
    cfg: HuntConfig,
    memory: TacticalMemory,
    candidates: Vec<TargetCandidate>,
    now: Instant,
    master_enabled: bool,
    in_game: bool,
    player_alive: bool,
    critical: bool,
    spike: bool,
    scroll: bool,
    last_outcome: LastOutcome,
    attack_step: AttackStepInput,
    skill_cd_ms: u64,
}

impl World {
    fn new() -> World {
        World {
            snapshot: Snapshot { player: Some((100, 100)), entities: Vec::new() },
            cfg: HuntConfig::default(),
            memory: TacticalMemory::default(),
            candidates: Vec::new(),
            now: start(),
            master_enabled: true,
            in_game: true,
            player_alive: true,
            critical: false,
            spike: false,
            scroll: false,
            last_outcome: LastOutcome::NoOutcome,
            attack_step: AttackStepInput::Legacy,
            skill_cd_ms: 0,
        }
    }

    fn tick(&self, state: &HuntState) -> TickOutput {
        step(
            state,
            TickInput {
                snapshot: &self.snapshot,
                player_pos: Some((100, 100)),
                player_alive: self.player_alive,
                master_enabled: self.master_enabled,
                in_game: self.in_game,
                now: self.now,
                state_since: self.now - Duration::from_secs(30),
                cfg: &self.cfg,
                memory: &self.memory,
                candidates: &self.candidates,
                explore_suggestion: None,
                last_outcome: self.last_outcome,
                teleport_scroll_available: self.scroll,
                damage_spike_detected: self.spike,
                critical_hp_detected: self.critical,
                skill_cd_ms: self.skill_cd_ms,
                attack_step: self.attack_step.clone(),
                locked_target_removed_or_dead: false,
                locked_target_recently_damaged: false,
            },
        )
    }
}

fn wolf(target_id: u32) -> TargetCandidate {
    TargetCandidate {
        target_id,
        entity_ptr: target_id + 0x1000,
        name: "wolf".to_string(),
        tile: (101, 100),
        distance: 1,
        in_attack_range: true,
        reachable_path: Some(Vec::new()),
        is_attacker: false,
    }
}

fn engaged(target_id: u32, intent: EngageIntent) -> HuntState {
    HuntState::Engaging {
        lock: TargetLock {
            target_id,
            entity_ptr: target_id + 0x1000,
            name: "wolf".to_string(),
            acquired_at: start(),
            last_seen: start(),
            bootstrapped: false,
        },
        intent,
        path: None,
    }
}

fn all_states() -> Vec<HuntState> {
    vec![
        HuntState::Disabled { reason: DisabledReason::MasterOff },
        HuntState::Disabled { reason: DisabledReason::NotInGame },
        HuntState::Idle,
        engaged(7, EngageIntent::Approach),
        engaged(7, EngageIntent::Attack),
        engaged(7, EngageIntent::KillConfirm),
        HuntState::Exploring { goal: (110, 100), path: vec![(101, 100)] },
        HuntState::Recovering {
            cause: RecoveryCause::WalkStuck,
            until: start() + Duration::from_secs(1),
        },
        HuntState::Recovering {
            cause: RecoveryCause::NoReachableTarget,
            until: start() - Duration::from_secs(1),
        },
        HuntState::Escaping {
            scroll_used_at: start(),
            wait_until: start() + Duration::from_secs(1),
            origin_pos: None,
        },
        HuntState::Stopped { reason: StopReason::Died },
    ]
}

#[test]
fn every_tick_has_one_action_and_tells_its_change() {
    let mut world = World::new();
    for with_target in [false, true] {
        if with_target {
            world.candidates = vec![wolf(7)];
        }
        for state in all_states() {
            let output = world.tick(&state);
            assert_eq!(output.actions.len(), 1);
            if let Some(change) = output.transition {
                assert_eq!(change.from, state_label(&state));
                let next = output.next_state.as_ref().expect("a change leads somewhere");
                assert_eq!(change.to, state_label(next));
            }
        }
    }
}

#[test]
fn nothing_is_done_while_the_hunt_is_off_or_in_danger() {
    let until = start() + Duration::from_secs(2);
    let off: Vec<(fn(&mut World), HuntState, TransitionCause)> = vec![
        (
            |w| w.master_enabled = false,
            HuntState::Disabled { reason: DisabledReason::MasterOff },
            TransitionCause::MasterOff,
        ),
        (
            |w| w.in_game = false,
            HuntState::Disabled { reason: DisabledReason::NotInGame },
            TransitionCause::NotInGame,
        ),
        (
            |w| w.player_alive = false,
            HuntState::Stopped { reason: StopReason::Died },
            TransitionCause::PlayerDied,
        ),
        (
            |w| w.critical = true,
            HuntState::Recovering { cause: RecoveryCause::CriticalHp, until },
            TransitionCause::CriticalHp,
        ),
        (
            |w| w.spike = true,
            HuntState::Recovering { cause: RecoveryCause::DamageSpike, until },
            TransitionCause::DamageSpike,
        ),
    ];
    for (change, expected, cause) in off {
        for state in all_states() {
            let mut world = World::new();
            world.candidates = vec![wolf(7)];
            change(&mut world);
            let output = world.tick(&state);
            assert_eq!(output.actions, vec![Action::Wait]);
            assert_eq!(output.next_state, Some(expected.clone()));
            assert_eq!(output.transition.unwrap().cause, cause);
        }
    }
}

#[test]
fn a_hunt_that_was_off_goes_idle_first() {
    let mut world = World::new();
    world.candidates = vec![wolf(7)];
    for state in [
        HuntState::Disabled { reason: DisabledReason::MasterOff },
        HuntState::Stopped { reason: StopReason::Manual },
    ] {
        let output = world.tick(&state);
        assert_eq!(output.actions, vec![Action::Wait]);
        assert_eq!(output.next_state, Some(HuntState::Idle));
    }
}

#[test]
fn a_pause_after_danger_is_not_cut_short() {
    let mut world = World::new();
    world.candidates = vec![wolf(7)];
    let until = start() + Duration::from_millis(1);
    for cause in [RecoveryCause::CriticalHp, RecoveryCause::DamageSpike] {
        let output = world.tick(&HuntState::Recovering { cause, until });
        assert_eq!(output.actions, vec![Action::Wait]);
        assert_eq!(output.next_state, None);
    }
    let stuck = HuntState::Recovering { cause: RecoveryCause::WalkStuck, until };
    assert!(matches!(world.tick(&stuck).actions[0], Action::AttackTarget { target_id: 7, .. }));
    world.now = until;
    let over = HuntState::Recovering { cause: RecoveryCause::CriticalHp, until };
    assert_eq!(world.tick(&over).next_state, Some(HuntState::Idle));
}

#[test]
fn scrolls_keep_three_seconds_apart() {
    let mut world = World::new();
    world.scroll = true;
    world.cfg.teleport_scroll_name = "  teleport ".to_string();
    let first = world.tick(&HuntState::Idle);
    assert_eq!(
        first.actions,
        vec![Action::UseTeleportScroll { name_keyword: "teleport".to_string() }]
    );
    assert_eq!(
        first.next_state,
        Some(HuntState::Escaping {
            scroll_used_at: start(),
            wait_until: start() + Duration::from_secs(2),
            origin_pos: Some((100, 100)),
        })
    );
    world.memory.apply(first.memory_updates, world.now);
    world.now = start() + Duration::from_millis(2_999);
    assert_eq!(world.tick(&HuntState::Idle).actions, vec![Action::Wait]);
    world.now = start() + Duration::from_secs(20);
    assert!(matches!(
        world.tick(&HuntState::Idle).actions[0],
        Action::UseTeleportScroll { .. }
    ));
    world.cfg.teleport_scroll_name = "   ".to_string();
    assert_eq!(world.tick(&HuntState::Idle).actions, vec![Action::Wait]);
}

#[test]
fn a_basic_attack_follows_a_skill() {
    let mut world = World::new();
    world.candidates = vec![wolf(7)];
    world.attack_step =
        AttackStepInput::Step(AttackSequenceStep::skill("triple_arrow".to_string(), 0));
    let attacking = engaged(7, EngageIntent::Attack);
    let cast = world.tick(&attacking);
    assert_eq!(
        cast.actions,
        vec![Action::AttackTarget {
            target_id: 7,
            entity_ptr: 0x1007,
            skill: Some("triple_arrow".to_string()),
        }]
    );
    assert_eq!(cast.memory_updates.set_last_attack, Some(world.now));
    world.memory.apply(cast.memory_updates, world.now);
    let basic = world.tick(&attacking);
    assert_eq!(
        basic.actions,
        vec![Action::AttackTarget { target_id: 7, entity_ptr: 0x1007, skill: None }]
    );
    world.memory.apply(basic.memory_updates, world.now);
    assert!(matches!(
        world.tick(&attacking).actions[0],
        Action::AttackTarget { skill: Some(_), .. }
    ));
    world.skill_cd_ms = 500;
    assert!(
        matches!(world.tick(&attacking).actions[0], Action::AttackTarget { skill: None, .. }),
        "the skill is still resting"
    );
}

#[test]
fn a_target_that_can_be_hit_comes_before_one_that_can_be_reached() {
    let mut world = World::new();
    let mut far = wolf(1);
    far.in_attack_range = false;
    far.reachable_path = Some(vec![(101, 101)]);
    let mut cut_off = wolf(2);
    cut_off.in_attack_range = false;
    cut_off.reachable_path = None;
    world.candidates = vec![cut_off.clone(), far.clone(), wolf(3)];
    assert!(matches!(
        world.tick(&HuntState::Idle).actions[0],
        Action::AttackTarget { target_id: 3, .. }
    ));
    world.candidates = vec![cut_off.clone(), far];
    let walk = world.tick(&HuntState::Idle);
    assert_eq!(walk.actions, vec![Action::WalkTo { tile: (101, 101) }]);
    assert_eq!(walk.memory_updates.set_last_walk, Some(world.now));
    world.candidates = vec![cut_off];
    assert_eq!(world.tick(&HuntState::Idle).actions, vec![Action::Wait]);
}

#[test]
fn an_attack_goes_on_only_while_the_target_is_alive() {
    let mut world = World::new();
    let mut entity = EntityView {
        target_id: 7,
        entity_ptr: 0x2222,
        name: "wolf".to_string(),
        sprite_id: 1,
        action_state: 0,
        tile: (101, 100),
        raw_x: 101,
        y: 100,
        class: EntityClass::AttackableMonster,
        visible_confidence: 100,
        hostile_confidence: 100,
    };
    world.snapshot.entities = vec![entity.clone()];
    assert_eq!(
        world.tick(&engaged(7, EngageIntent::Attack)).actions,
        vec![Action::AttackTarget { target_id: 7, entity_ptr: 0x2222, skill: None }]
    );
    entity.class = EntityClass::DeadMonster;
    world.snapshot.entities = vec![entity];
    assert_eq!(world.tick(&engaged(7, EngageIntent::Attack)).actions, vec![Action::Wait]);
}

#[test]
fn an_obstacle_lasts_six_seconds_and_a_portal_ten_minutes() {
    let t0 = start();
    let mut memory = TacticalMemory::default();
    memory.apply(
        MemoryUpdate {
            add_obstacles: vec![((1, 1), t0)],
            add_portal_avoid_tiles: vec![((2, 2), t0)],
            ..MemoryUpdate::default()
        },
        t0,
    );
    assert!(memory.is_obstacle((1, 1), t0 + Duration::from_millis(5_999)));
    assert!(!memory.is_obstacle((1, 1), t0 + Duration::from_secs(6)));
    assert!(memory.is_obstacle((2, 2), t0 + Duration::from_millis(599_999)));
    assert!(!memory.is_obstacle((2, 2), t0 + Duration::from_secs(600)));
    assert!(!memory.is_obstacle((3, 3), t0));
}

#[test]
fn forgetting_changes_no_answer() {
    let t0 = start();
    let mut memory = TacticalMemory::default();
    memory.apply(
        MemoryUpdate {
            add_obstacles: vec![((1, 1), t0)],
            add_failed_targets: vec![(
                5,
                FailureRecord {
                    cause: FailureCause::Unreachable,
                    until: t0 + Duration::from_secs(3),
                },
            )],
            push_position: Some(((9, 9), t0)),
            record_visited_tile: Some((4, (9, 9), t0)),
            set_last_walk: Some(t0),
            increment_empty_explore_walks: true,
            ..MemoryUpdate::default()
        },
        t0,
    );
    let t1 = t0 + Duration::from_secs(2);
    memory.apply(MemoryUpdate::default(), t1);
    assert!(memory.is_obstacle((1, 1), t1));
    assert!(memory.is_target_failed(5, t1));
    assert_eq!(memory.recent_positions.len(), 1);
    assert_eq!(memory.visit_count(4, (9, 9)), 1);
    assert_eq!(memory.last_walk, Some(t0));
    assert_eq!(memory.empty_explore_walks, 1);
    memory.apply(MemoryUpdate::default(), t0 + Duration::from_secs(60));
    assert!(memory.obstacles.is_empty());
    assert!(memory.failed_targets.is_empty());
}

#[test]
fn a_first_failure_ends_when_it_was_set_to_end() {
    let t0 = start();
    let fail = |at: Instant| MemoryUpdate {
        add_failed_targets: vec![(
            5,
            FailureRecord {
                cause: FailureCause::AttackRejected,
                until: at + Duration::from_secs(8),
            },
        )],
        ..MemoryUpdate::default()
    };
    let mut memory = TacticalMemory::default();
    memory.apply(fail(t0), t0);
    assert!(memory.is_target_failed(5, t0 + Duration::from_millis(7_999)));
    assert!(!memory.is_target_failed(5, t0 + Duration::from_secs(8)));
    let t1 = t0 + Duration::from_secs(1);
    memory.apply(fail(t1), t1);
    assert!(memory.is_target_failed(5, t1 + Duration::from_millis(15_999)));
    assert!(!memory.is_target_failed(5, t1 + Duration::from_secs(16)));
}

#[test]
fn the_history_keeps_the_newest_positions() {
    let t0 = start();
    let mut memory = TacticalMemory::default();
    for i in 0..20 {
        memory.apply(
            MemoryUpdate { push_position: Some(((i, -i), t0)), ..MemoryUpdate::default() },
            t0,
        );
        assert!(memory.recent_positions.len() <= POSITION_HISTORY_CAP);
        assert_eq!(memory.recent_positions.back(), Some(&(i, -i, t0)));
    }
    assert_eq!(memory.recent_positions.front(), Some(&(12, -12, t0)));
}

#[test]
fn visits_of_other_tiles_stay() {
    let t0 = start();
    let mut memory = TacticalMemory::default();
    for tile in [(1, 1), (1, 1), (2, 1)] {
        memory.apply(
            MemoryUpdate {
                record_visited_tile: Some((4, tile, t0)),
                ..MemoryUpdate::default()
            },
            t0,
        );
    }
    assert_eq!(memory.visit_count(4, (1, 1)), 2);
    assert_eq!(memory.visit_count(4, (2, 1)), 1);
    assert_eq!(memory.visit_count(5, (1, 1)), 0);
}
