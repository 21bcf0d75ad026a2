use hunt_bot::action::screen_target::PlayerPosition;
use hunt_bot::decide::hunt::{AttackSequenceStep, AttackStepKind, RANGED_RANGE_TILES};
use hunt_bot::decide::pathfind::{Walkable, default_can_step};
use hunt_bot::hunt4::candidate::CandidateFrame;
use hunt_bot::hunt4::memory::TacticalMemory;
use hunt_bot::hunt4::model::{EntityClass, EntityView, Snapshot};
use hunt_bot::hunt4::plan::{
    PlanFrameInput, RuntimePlanEvaluationInput, build_plan_frame, evaluate_runtime_plan,
    selected_skill_ready,
};
use hunt_bot::hunt4::route::{RouteKind, RouteStatus};
use hunt_bot::hunt4::step::{AttackStepInput, ExploreSuggestion, TargetCandidate};
use hunt_bot::hunt4::targeting::{select_target, sort_candidates};
use hunt_bot::hunt4::world::WorldFrame;
use hunt_bot::time::{Duration, Instant};
use std::collections::HashSet;

/// A moment with time before and after it.
fn start() -> Instant {
    Instant::from_nanos(1_000_000_000_000_000)
}

struct OpenGrid;

impl Walkable for OpenGrid {
    fn is_walkable(&self, _tile_x: i32, _tile_y: i32) -> bool {
        true
    }

    fn blocks_sight(&self, x: i32, y: i32) -> bool {
        !self.is_walkable(x, y)
    }

    fn can_step(&self, from: (i32, i32), to: (i32, i32)) -> bool {
        default_can_step(self, from, to)
    }

    fn movement_penalty(&self, _from: (i32, i32), _to: (i32, i32)) -> u32 {
        0
    }

    fn walkable(&self, tile: (i32, i32)) -> bool {
        self.is_walkable(tile.0, tile.1)
    }

    fn sight_blocked(&self, tile: (i32, i32)) -> bool {
        self.blocks_sight(tile.0, tile.1)
    }

    fn steppable(&self, from: (i32, i32), to: (i32, i32)) -> bool {
        self.can_step(from, to)
    }

    fn penalty(&self, from: (i32, i32), to: (i32, i32)) -> u32 {
        self.movement_penalty(from, to)
    }
}

fn candidate(
    target_id: u32,
    distance: u32,
    in_attack_range: bool,
    reachable_path: Option<Vec<(i32, i32)>>,
    is_attacker: bool,
) -> TargetCandidate {
    TargetCandidate {
        target_id,
        entity_ptr: target_id + 0x1000,
        name: format!("mob_{target_id:X}"),
        tile: (target_id as i32, target_id as i32 + 1),
        distance,
        in_attack_range,
        reachable_path,
        is_attacker,
    }
}

fn world(now: Instant, in_game: bool) -> WorldFrame {
    WorldFrame {
        now,
        in_game,
        map_id: in_game.then_some(4),
        player_view: None,
        player_pos_data: in_game.then_some(PlayerPosition { x: 33000, y: 33000 }),
        snapshot: Snapshot::default(),
    }
}

fn candidate_frame(
    now: Instant,
    player_tile: (i32, i32),
    attack_range: u32,
    recent_attacker_count: usize,
    mut candidates: Vec<TargetCandidate>,
) -> CandidateFrame {
    sort_candidates(&mut candidates);
    CandidateFrame {
        now,
        player_tile,
        attack_range,
        recent_attacker_count,
        candidates,
        target_selection: Default::default(),
    }
}

fn live_mob(target_id: u32, tile: (i32, i32)) -> EntityView {
    EntityView {
        target_id,
        entity_ptr: target_id + 0x1000,
        name: format!("mob_{target_id:X}"),
        sprite_id: 2489,
        action_state: 0,
        tile,
        raw_x: tile.0 as u32,
        y: tile.1 as u32,
        class: EntityClass::AttackableMonster,
        visible_confidence: 100,
        hostile_confidence: 100,
    }
}

fn hidden_mob(target_id: u32, tile: (i32, i32)) -> EntityView {
    EntityView {
        target_id,
        entity_ptr: target_id + 0x1000,
        name: format!("hidden_{target_id:X}"),
        sprite_id: 2489,
        action_state: 0x0D,
        tile,
        raw_x: tile.0 as u32,
        y: tile.1 as u32,
        class: EntityClass::NonWorldMonsterState,
        visible_confidence: 100,
        hostile_confidence: 0,
    }
}

#[test]
fn build_plan_frame_records_ranked_targets_and_explore_summary() {
    let now = start();
    let frame = world(now, true);
    let candidates = [
        candidate(0x0100_0001, 2, true, Some(Vec::new()), false),
        candidate(
            0x0100_0002,
            7,
            false,
            Some(vec![(33001, 33000), (33002, 33000)]),
            true,
        ),
        candidate(0x0100_0003, 1, false, None, false),
    ];
    let explore = ExploreSuggestion {
        goal: (33010, 33000),
        path: vec![(33001, 33000), (33002, 33000)],
    };
    let candidate_frame = candidate_frame(now, (33000, 33000), 5, 1, candidates.to_vec());

    let plan = build_plan_frame(PlanFrameInput {
        world: &frame,
        candidate_frame: &candidate_frame,
        explore: Some(&explore),
        selected_attack_step: None,
        selected_skill_range: None,
        selected_skill_cd_ms: None,
        selected_skill_ready: None,
        post_skill_basic_pending_target: None,
    });

    assert_eq!(plan.now, now);
    assert!(plan.in_game);
    assert_eq!(plan.map_id, Some(4));
    assert_eq!(plan.player_tile, Some((33000, 33000)));
    assert_eq!(plan.attack_range, 5);
    assert_eq!(plan.recent_attacker_count, 1);
    assert_eq!(plan.candidate_count, 3);
    assert_eq!(plan.reachable_count, 2);
    assert_eq!(plan.attacker_count, 1);
    assert_eq!(plan.explore_goal, Some((33010, 33000)));
    assert_eq!(plan.explore_next_tile, Some((33001, 33000)));
    assert_eq!(plan.explore_steps, Some(2));
    assert_eq!(plan.ranked_targets[0].target_id, 0x0100_0001);
    assert_eq!(plan.top_target().unwrap().target_id, 0x0100_0001);
}

#[test]
fn build_plan_frame_records_attack_route_for_selected_target() {
    let now = start();
    let frame = world(now, true);
    let candidates = vec![candidate(
        0x0100_0002,
        7,
        false,
        Some(vec![(33001, 33000), (33002, 33000)]),
        true,
    )];
    let mut candidate_frame = candidate_frame(now, (33000, 33000), 5, 1, candidates);
    candidate_frame.target_selection = select_target(
        &candidate_frame.candidates,
        &Snapshot::default(),
    );

    let plan = build_plan_frame(PlanFrameInput {
        world: &frame,
        candidate_frame: &candidate_frame,
        explore: None,
        selected_attack_step: None,
        selected_skill_range: None,
        selected_skill_cd_ms: None,
        selected_skill_ready: None,
        post_skill_basic_pending_target: None,
    });

    let route = plan.route_plan.expect("selected target route");
    assert_eq!(route.kind, RouteKind::Attack);
    assert_eq!(
        route.status,
        RouteStatus::Reachable
    );
    assert_eq!(route.target_id, Some(0x0100_0002));
    assert_eq!(route.next_tile, Some((33001, 33000)));
    assert_eq!(route.path, vec![(33001, 33000), (33002, 33000)]);
}

#[test]
fn build_plan_frame_records_target_route_movement_and_default_action_summary() {
    let now = start();
    let frame = world(now, true);
    let candidates = vec![candidate(
        0x0100_0002,
        7,
        false,
        Some(vec![(33001, 33000), (33002, 33000)]),
        true,
    )];
    let snapshot = Snapshot {
        player: Some((33000, 33000)),
        entities: vec![hidden_mob(0x0100_0099, (33003, 33000))],
    };
    let mut candidate_frame = candidate_frame(now, (33000, 33000), 5, 1, candidates);
    candidate_frame.target_selection =
        select_target(&candidate_frame.candidates, &snapshot);

    let plan = build_plan_frame(PlanFrameInput {
        world: &frame,
        candidate_frame: &candidate_frame,
        explore: None,
        selected_attack_step: None,
        selected_skill_range: None,
        selected_skill_cd_ms: None,
        selected_skill_ready: None,
        post_skill_basic_pending_target: None,
    });

    assert_eq!(plan.selected_target_id, Some(0x0100_0002));
    assert_eq!(
        plan.selected_target_reason.as_deref(),
        Some("reachable approach attacker distance=7")
    );
    assert_eq!(plan.non_viable_target_count, 1);
    assert_eq!(
        plan.last_target_reject_reason.as_deref(),
        Some("HiddenOrBurrowed action_state=0x0D")
    );
    assert_eq!(plan.abandoned_target_reason, None);
    assert_eq!(plan.selected_route_target_id, Some(0x0100_0002));
    assert_eq!(plan.selected_route_next_tile, Some((33001, 33000)));
    assert_eq!(
        plan.selected_route_reason.as_deref(),
        Some("target_approach")
    );
    assert_eq!(plan.movement_next_tile, Some((33001, 33000)));
    assert_eq!(plan.movement_reason.as_deref(), Some("target_approach"));
    assert!(!plan.teleport_should_use);
    assert_eq!(plan.teleport_reason, None);
    assert_eq!(plan.final_action_kind, "wait");
    assert!(plan.invariant_violations.is_empty());
}

#[test]
fn build_plan_frame_records_explore_route_movement_summary_without_target() {
    let now = start();
    let frame = world(now, true);
    let explore = ExploreSuggestion {
        goal: (33010, 33000),
        path: vec![(33001, 33000), (33002, 33000)],
    };
    let candidate_frame = candidate_frame(now, (33000, 33000), 5, 0, Vec::new());

    let plan = build_plan_frame(PlanFrameInput {
        world: &frame,
        candidate_frame: &candidate_frame,
        explore: Some(&explore),
        selected_attack_step: None,
        selected_skill_range: None,
        selected_skill_cd_ms: None,
        selected_skill_ready: None,
        post_skill_basic_pending_target: None,
    });

    assert_eq!(plan.selected_target_id, None);
    assert_eq!(plan.selected_target_reason, None);
    assert_eq!(plan.selected_route_target_id, None);
    assert_eq!(plan.selected_route_next_tile, Some((33001, 33000)));
    assert_eq!(plan.selected_route_reason.as_deref(), Some("explore"));
    assert_eq!(plan.movement_next_tile, Some((33001, 33000)));
    assert_eq!(plan.movement_reason.as_deref(), Some("explore"));
    assert_eq!(plan.final_action_kind, "wait");
    assert!(plan.invariant_violations.is_empty());
}

#[test]
fn evaluate_runtime_plan_builds_candidate_and_plan_frames() {
    let now = start();
    let target_id = 0x0100_0100;
    let mut frame = world(now, true);
    frame.snapshot = Snapshot {
        player: Some((100, 100)),
        entities: vec![live_mob(target_id, (101, 100))],
    };
    let grid = OpenGrid;
    let memory = TacticalMemory::default();

    let evaluation = evaluate_runtime_plan(RuntimePlanEvaluationInput {
        world: &frame,
        player_tile: (100, 100),
        ranged_weapon: false,
        grid: Some(&grid),
        map_profile: None,
        memory: &memory,
        previous_hp: None,
        current_hp: None,
        max_hp: 0,
        damage_spike_hp_percent: 0,
        server_recent_attackers: HashSet::from([target_id]),
        selected_attack_step: None,
        selected_skill_range: None,
        selected_skill_cd_ms: None,
        last_skill_cast: None,
        post_skill_basic_pending_target: None,
    });

    assert_eq!(evaluation.candidate_frame.now, now);
    assert_eq!(evaluation.candidate_frame.recent_attacker_count, 1);
    assert_eq!(evaluation.plan_frame.candidate_count, 1);
    assert_eq!(evaluation.plan_frame.attacker_count, 1);
    assert_eq!(
        evaluation.plan_frame.top_target().unwrap().target_id,
        target_id
    );
    let explore = evaluation.explore.as_ref().expect("explore suggestion");
    assert_eq!(evaluation.plan_frame.explore_goal, Some(explore.goal));
    assert_eq!(
        evaluation.plan_frame.explore_next_tile,
        explore.path.first().copied()
    );
}

#[test]
fn evaluate_runtime_plan_computes_selected_skill_ready_from_last_cast() {
    let now = start();
    let frame = world(now, true);
    let grid = OpenGrid;
    let memory = TacticalMemory::default();
    let attack_step = AttackSequenceStep::skill("Frozen Cloud".to_string(), 100);

    let evaluation = evaluate_runtime_plan(RuntimePlanEvaluationInput {
        world: &frame,
        player_tile: (100, 100),
        ranged_weapon: false,
        grid: Some(&grid),
        map_profile: None,
        memory: &memory,
        previous_hp: None,
        current_hp: None,
        max_hp: 0,
        damage_spike_hp_percent: 0,
        server_recent_attackers: HashSet::new(),
        selected_attack_step: Some(&attack_step),
        selected_skill_range: Some(7),
        selected_skill_cd_ms: Some(2000),
        last_skill_cast: Some(now - Duration::from_millis(500)),
        post_skill_basic_pending_target: None,
    });

    assert_eq!(evaluation.plan_frame.selected_skill_ready, Some(false));
    assert_eq!(evaluation.plan_frame.selected_skill_cd_ms, Some(2000));
    assert_eq!(evaluation.plan_frame.attack_range, 7);
}

#[test]
fn evaluate_runtime_plan_returns_backend_step_inputs_from_plan_frame() {
    let now = start();
    let frame = world(now, true);
    let grid = OpenGrid;
    let memory = TacticalMemory::default();
    let attack_step = AttackSequenceStep::skill("Frozen Cloud".to_string(), 100);

    let evaluation = evaluate_runtime_plan(RuntimePlanEvaluationInput {
        world: &frame,
        player_tile: (100, 100),
        ranged_weapon: false,
        grid: Some(&grid),
        map_profile: None,
        memory: &memory,
        previous_hp: None,
        current_hp: None,
        max_hp: 0,
        damage_spike_hp_percent: 0,
        server_recent_attackers: HashSet::new(),
        selected_attack_step: Some(&attack_step),
        selected_skill_range: Some(7),
        selected_skill_cd_ms: Some(2000),
        last_skill_cast: None,
        post_skill_basic_pending_target: None,
    });

    assert_eq!(evaluation.backend_skill_cd_ms, 2000);
    assert_eq!(
        evaluation.backend_attack_step,
        AttackStepInput::Step(attack_step)
    );
}

#[test]
fn evaluate_runtime_plan_computes_attack_range_from_weapon_and_step() {
    let now = start();
    let mut frame = world(now, true);
    frame.snapshot = Snapshot {
        player: Some((100, 100)),
        entities: vec![live_mob(0x0100_0200, (108, 100))],
    };
    let grid = OpenGrid;
    let memory = TacticalMemory::default();

    let ranged_basic = evaluate_runtime_plan(RuntimePlanEvaluationInput {
        world: &frame,
        player_tile: (100, 100),
        ranged_weapon: true,
        grid: Some(&grid),
        map_profile: None,
        memory: &memory,
        previous_hp: None,
        current_hp: None,
        max_hp: 0,
        damage_spike_hp_percent: 0,
        server_recent_attackers: HashSet::new(),
        selected_attack_step: None,
        selected_skill_range: None,
        selected_skill_cd_ms: None,
        last_skill_cast: None,
        post_skill_basic_pending_target: None,
    });
    assert_eq!(
        ranged_basic.plan_frame.attack_range,
        RANGED_RANGE_TILES
    );

    let skill_step = AttackSequenceStep::skill("Frozen Cloud".to_string(), 100);
    let skill = evaluate_runtime_plan(RuntimePlanEvaluationInput {
        world: &frame,
        player_tile: (100, 100),
        ranged_weapon: false,
        grid: Some(&grid),
        map_profile: None,
        memory: &memory,
        previous_hp: None,
        current_hp: None,
        max_hp: 0,
        damage_spike_hp_percent: 0,
        server_recent_attackers: HashSet::new(),
        selected_attack_step: Some(&skill_step),
        selected_skill_range: Some(7),
        selected_skill_cd_ms: Some(2000),
        last_skill_cast: None,
        post_skill_basic_pending_target: None,
    });
    assert_eq!(skill.plan_frame.attack_range, 7);
}

#[test]
fn evaluate_runtime_plan_expands_recent_attackers_from_hp_drop() {
    let now = start();
    let mut frame = world(now, true);
    let local_target_id = 0x0100_0300;
    let far_target_id = 0x0100_0301;
    frame.snapshot = Snapshot {
        player: Some((100, 100)),
        entities: vec![
            live_mob(local_target_id, (103, 100)),
            live_mob(far_target_id, (120, 100)),
        ],
    };
    let grid = OpenGrid;
    let memory = TacticalMemory::default();

    let evaluation = evaluate_runtime_plan(RuntimePlanEvaluationInput {
        world: &frame,
        player_tile: (100, 100),
        ranged_weapon: false,
        grid: Some(&grid),
        map_profile: None,
        memory: &memory,
        previous_hp: Some(100),
        current_hp: Some(90),
        max_hp: 100,
        damage_spike_hp_percent: 0,
        server_recent_attackers: HashSet::new(),
        selected_attack_step: None,
        selected_skill_range: None,
        selected_skill_cd_ms: None,
        last_skill_cast: None,
        post_skill_basic_pending_target: None,
    });

    assert_eq!(evaluation.plan_frame.recent_attacker_count, 1);
    assert!(evaluation
        .candidate_frame
        .candidates
        .iter()
        .any(|candidate| candidate.target_id == local_target_id && candidate.is_attacker));
    assert!(evaluation
        .candidate_frame
        .candidates
        .iter()
        .any(|candidate| candidate.target_id == far_target_id && !candidate.is_attacker));
}

#[test]
fn evaluate_runtime_plan_computes_survival_pressure_facts_from_hp() {
    let now = start();
    let mut frame = world(now, true);
    let target_id = 0x0100_0400;
    frame.snapshot = Snapshot {
        player: Some((100, 100)),
        entities: vec![live_mob(target_id, (102, 100))],
    };
    let grid = OpenGrid;
    let memory = TacticalMemory::default();

    let evaluation = evaluate_runtime_plan(RuntimePlanEvaluationInput {
        world: &frame,
        player_tile: (100, 100),
        ranged_weapon: false,
        grid: Some(&grid),
        map_profile: None,
        memory: &memory,
        previous_hp: Some(1000),
        current_hp: Some(100),
        max_hp: 1000,
        damage_spike_hp_percent: 10,
        server_recent_attackers: HashSet::new(),
        selected_attack_step: None,
        selected_skill_range: None,
        selected_skill_cd_ms: None,
        last_skill_cast: None,
        post_skill_basic_pending_target: None,
    });

    assert!(evaluation.damage_spike_detected);
    assert!(evaluation.critical_hp_detected);
    assert_eq!(evaluation.plan_frame.recent_attacker_count, 1);
    assert!(evaluation
        .candidate_frame
        .candidates
        .iter()
        .any(|candidate| candidate.target_id == target_id && candidate.is_attacker));
}

#[test]
fn build_plan_frame_keeps_empty_target_summary_without_candidates() {
    let frame = world(start(), false);
    let candidate_frame = candidate_frame(frame.now, (0, 0), 1, 0, Vec::new());

    let plan = build_plan_frame(PlanFrameInput {
        world: &frame,
        candidate_frame: &candidate_frame,
        explore: None,
        selected_attack_step: None,
        selected_skill_range: None,
        selected_skill_cd_ms: None,
        selected_skill_ready: None,
        post_skill_basic_pending_target: None,
    });

    assert!(!plan.in_game);
    assert_eq!(plan.map_id, None);
    assert_eq!(plan.player_tile, None);
    assert_eq!(plan.attack_range, 1);
    assert_eq!(plan.recent_attacker_count, 0);
    assert_eq!(plan.candidate_count, 0);
    assert_eq!(plan.reachable_count, 0);
    assert_eq!(plan.attacker_count, 0);
    assert!(plan.ranked_targets.is_empty());
    assert_eq!(plan.explore_next_tile, None);
    assert!(plan.top_target().is_none());
}

#[test]
fn build_plan_frame_records_selected_basic_attack_step() {
    let frame = world(start(), true);
    let candidate_frame = candidate_frame(frame.now, (33000, 33000), 1, 0, Vec::new());
    let attack_step = AttackSequenceStep::basic(250);

    let plan = build_plan_frame(PlanFrameInput {
        world: &frame,
        candidate_frame: &candidate_frame,
        explore: None,
        selected_attack_step: Some(&attack_step),
        selected_skill_range: None,
        selected_skill_cd_ms: None,
        selected_skill_ready: None,
        post_skill_basic_pending_target: None,
    });

    assert_eq!(plan.selected_attack_step, Some(attack_step));
    assert_eq!(plan.selected_skill_range, None);
}

#[test]
fn build_plan_frame_records_selected_skill_attack_step() {
    let frame = world(start(), true);
    let candidate_frame = candidate_frame(frame.now, (33000, 33000), 7, 0, Vec::new());
    let attack_step = AttackSequenceStep::skill("triple_arrow".to_string(), 100);

    let plan = build_plan_frame(PlanFrameInput {
        world: &frame,
        candidate_frame: &candidate_frame,
        explore: None,
        selected_attack_step: Some(&attack_step),
        selected_skill_range: Some(7),
        selected_skill_cd_ms: Some(0),
        selected_skill_ready: Some(true),
        post_skill_basic_pending_target: None,
    });

    let recorded = plan
        .selected_attack_step
        .as_ref()
        .expect("selected attack step");
    assert_eq!(recorded.kind, AttackStepKind::Skill);
    assert_eq!(recorded.skill_name, "triple_arrow");
    assert_eq!(recorded.interval_ms, 100);
    assert_eq!(plan.selected_skill_range, Some(7));
}

#[test]
fn build_plan_frame_records_skill_gate_and_pending_basic_diagnostics() {
    let frame = world(start(), true);
    let candidate_frame = candidate_frame(frame.now, (33000, 33000), 7, 0, Vec::new());
    let attack_step = AttackSequenceStep::skill("triple_arrow".to_string(), 100);

    let plan = build_plan_frame(PlanFrameInput {
        world: &frame,
        candidate_frame: &candidate_frame,
        explore: None,
        selected_attack_step: Some(&attack_step),
        selected_skill_range: Some(7),
        selected_skill_cd_ms: Some(2000),
        selected_skill_ready: Some(false),
        post_skill_basic_pending_target: Some(0x30008),
    });

    assert_eq!(plan.selected_skill_cd_ms, Some(2000));
    assert_eq!(plan.selected_skill_ready, Some(false));
    assert_eq!(plan.post_skill_basic_pending_target, Some(0x30008));
}

#[test]
fn selected_skill_ready_ignores_basic_steps() {
    let now = start();
    let attack_step = AttackSequenceStep::basic(0);

    assert_eq!(
        selected_skill_ready(Some(&attack_step), Some(2000), Some(now), now),
        None
    );
}

#[test]
fn selected_skill_ready_tracks_last_cast_gate() {
    let now = start();
    let attack_step = AttackSequenceStep::skill("triple_arrow".to_string(), 0);

    assert_eq!(
        selected_skill_ready(
            Some(&attack_step),
            Some(2000),
            Some(now - Duration::from_millis(500)),
            now,
        ),
        Some(false)
    );
    assert_eq!(
        selected_skill_ready(
            Some(&attack_step),
            Some(2000),
            Some(now - Duration::from_millis(2000)),
            now,
        ),
        Some(true)
    );
    assert_eq!(
        selected_skill_ready(Some(&attack_step), Some(2000), None, now),
        Some(true)
    );
    assert_eq!(
        selected_skill_ready(Some(&attack_step), Some(0), Some(now), now),
        Some(true)
    );
}
