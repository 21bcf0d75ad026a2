use hunt_bot::action::screen_target::PlayerPosition;
use hunt_bot::client::packet_state::PacketState;
use hunt_bot::decide::hunt::{AttackSequenceStep, HuntConfig, HuntOutcome};
use hunt_bot::decide::pathfind::{BotPath, read_bot_path};
use hunt_bot::hunt4::actions::{DispatchIntent, DispatchState};
use hunt_bot::hunt4::backend::{
    BackendDispatchEvaluationInput, BackendTickInputsInput, advance_hp_baseline_after_plan,
    build_tick_inputs, evaluate_dispatch_for_backend, intent_to_outcome, no_progress_log_line,
    prepare_attack_watch_before_tick_with_damage_observation, publish_active_path,
    record_actual_dispatch_action_after_choice, record_attack_bookkeeping_after_dispatch,
    record_dispatch_context_after_dispatch, record_dispatch_diagnostics_after_evaluation,
    record_map_change_after_frame, record_plan_target_summary_after_evaluation,
    record_position_memory_after_frame,
};
use hunt_bot::hunt4::candidate::CandidateFrame;
use hunt_bot::hunt4::context::{ATTACK_NO_PROGRESS_DURATION_MS, HuntContext};
use hunt_bot::hunt4::intent::{
    DispatchChoice, DispatchChoiceSource, DispatchEvaluation, ShadowDispatch,
};
use hunt_bot::hunt4::model::{EntityClass, EntityView, Snapshot};
use hunt_bot::hunt4::observe::ActionLabel;
use hunt_bot::hunt4::plan::{PlanFrame, RuntimePlanEvaluation};
use hunt_bot::hunt4::policy::{
    BackendIntentSummary, PolicyComparison, PolicyTelemetry, ShadowDecision,
};
use hunt_bot::hunt4::score::TargetScoreSummary;
use hunt_bot::hunt4::state::{EngageIntent, HuntState, TargetLock};
use hunt_bot::hunt4::step::{
    Action, AttackStepInput, ExploreSuggestion, LastOutcome, TargetCandidate,
};
use hunt_bot::hunt4::world::WorldFrame;
use hunt_bot::time::{Duration, Instant};

/// A moment with time before and after it.
fn start() -> Instant {
    Instant::from_nanos(1_000_000_000_000_000)
}

fn target_candidate(target_id: u32) -> TargetCandidate {
    TargetCandidate {
        target_id,
        entity_ptr: target_id + 0x1000,
        name: format!("mob_{target_id:X}"),
        tile: (101, 100),
        distance: 1,
        in_attack_range: true,
        reachable_path: Some(Vec::new()),
        is_attacker: false,
    }
}

fn target_summary(rank: usize, target_id: u32) -> TargetScoreSummary {
    TargetScoreSummary {
        rank,
        target_id,
        entity_ptr: target_id + 0x1000,
        name: format!("mob_{target_id:X}"),
        tile: (101, 100),
        distance: 1,
        in_attack_range: true,
        reachable: true,
        is_attacker: false,
        approach_steps: Some(0),
        approach_next_tile: None,
        reason: "reachable in_range distance=1".to_string(),
    }
}

fn plan_evaluation_with_ranked_targets(
    now: Instant,
    ranked_targets: Vec<TargetScoreSummary>,
) -> RuntimePlanEvaluation {
    let selected_target_id = ranked_targets.first().map(|target| target.target_id);
    let selected_target_reason = ranked_targets.first().map(|target| target.reason.clone());
    RuntimePlanEvaluation {
        candidate_frame: CandidateFrame {
            now,
            player_tile: (100, 100),
            attack_range: 1,
            recent_attacker_count: 0,
            candidates: Vec::new(),
            target_selection: Default::default(),
        },
        explore: None,
        plan_frame: PlanFrame {
            now,
            in_game: true,
            map_id: Some(4),
            player_tile: Some((100, 100)),
            attack_range: 1,
            selected_attack_step: None,
            selected_skill_range: None,
            selected_skill_cd_ms: None,
            selected_skill_ready: None,
            post_skill_basic_pending_target: None,
            recent_attacker_count: 0,
            candidate_count: ranked_targets.len(),
            reachable_count: ranked_targets.len(),
            attacker_count: 0,
            ranked_targets,
            route_plan: None,
            selected_target_id,
            selected_target_reason,
            non_viable_target_count: 0,
            last_target_reject_reason: None,
            abandoned_target_reason: None,
            selected_route_target_id: None,
            selected_route_next_tile: None,
            selected_route_reason: None,
            movement_next_tile: None,
            movement_reason: None,
            teleport_should_use: false,
            teleport_reason: None,
            final_action_kind: "wait".to_string(),
            invariant_violations: Vec::new(),
            explore_goal: None,
            explore_next_tile: None,
            explore_steps: None,
        },
        backend_skill_cd_ms: 0,
        backend_attack_step: AttackStepInput::Legacy,
        damage_spike_detected: false,
        critical_hp_detected: false,
    }
}

fn entity(target_id: u32, entity_ptr: u32, name: &str) -> EntityView {
    EntityView {
        target_id,
        entity_ptr,
        name: name.to_string(),
        sprite_id: 1,
        action_state: 0,
        tile: (101, 100),
        raw_x: 0,
        y: 0,
        class: EntityClass::AttackableMonster,
        visible_confidence: 100,
        hostile_confidence: 100,
    }
}

#[test]
fn build_tick_inputs_maps_v4_evaluation_into_backend_shape() {
    let now = start();
    let state_since = now - Duration::from_secs(3);
    let cfg = HuntConfig::default();
    let attack_step = AttackSequenceStep::skill("Frozen Cloud".to_string(), 100);
    let world = WorldFrame {
        now,
        in_game: true,
        map_id: Some(4),
        player_view: None,
        player_pos_data: Some(PlayerPosition { x: 100, y: 100 }),
        snapshot: Snapshot {
            player: Some((100, 100)),
            entities: Vec::new(),
        },
    };
    let planning = RuntimePlanEvaluation {
        candidate_frame: CandidateFrame {
            now,
            player_tile: (100, 100),
            attack_range: 7,
            recent_attacker_count: 0,
            candidates: vec![target_candidate(0x1000)],
            target_selection: Default::default(),
        },
        explore: Some(ExploreSuggestion {
            goal: (120, 100),
            path: vec![(101, 100)],
        }),
        plan_frame: PlanFrame {
            now,
            in_game: true,
            map_id: Some(4),
            player_tile: Some((100, 100)),
            attack_range: 7,
            selected_attack_step: Some(attack_step.clone()),
            selected_skill_range: Some(7),
            selected_skill_cd_ms: Some(2000),
            selected_skill_ready: Some(true),
            post_skill_basic_pending_target: None,
            recent_attacker_count: 0,
            candidate_count: 1,
            reachable_count: 1,
            attacker_count: 0,
            ranked_targets: Vec::new(),
            route_plan: None,
            selected_target_id: None,
            selected_target_reason: None,
            non_viable_target_count: 0,
            last_target_reject_reason: None,
            abandoned_target_reason: None,
            selected_route_target_id: None,
            selected_route_next_tile: Some((101, 100)),
            selected_route_reason: Some("explore".to_string()),
            movement_next_tile: Some((101, 100)),
            movement_reason: Some("explore".to_string()),
            teleport_should_use: false,
            teleport_reason: None,
            final_action_kind: "wait".to_string(),
            invariant_violations: Vec::new(),
            explore_goal: Some((120, 100)),
            explore_next_tile: Some((101, 100)),
            explore_steps: Some(1),
        },
        backend_skill_cd_ms: 2000,
        backend_attack_step: AttackStepInput::Step(attack_step.clone()),
        damage_spike_detected: true,
        critical_hp_detected: false,
    };

    let ctx = HuntContext::new(state_since);
    let mut events = PacketState::default();
    let items = Vec::new();
    let inputs = build_tick_inputs(
        BackendTickInputsInput {
            world: &world,
            planning: &planning,
            master_enabled: true,
            ctx: &ctx,
            cfg: &cfg,
            items: &items,
        },
        &mut events,
    );

    assert_eq!(inputs.snapshot.player, Some((100, 100)));
    assert_eq!(inputs.candidates[0].target_id, 0x1000);
    assert_eq!(inputs.explore.unwrap().goal, (120, 100));
    assert_eq!(inputs.player_pos, Some((100, 100)));
    assert!(!inputs.player_alive);
    assert!(inputs.master_enabled);
    assert!(inputs.in_game);
    assert_eq!(inputs.now, now);
    assert_eq!(inputs.state_since, state_since);
    assert!(!inputs.teleport_scroll_available);
    assert!(inputs.damage_spike_detected);
    assert!(!inputs.critical_hp_detected);
    assert!(!inputs.locked_target_removed_or_dead);
    assert_eq!(inputs.skill_cd_ms, 2000);
    assert_eq!(inputs.attack_step, AttackStepInput::Step(attack_step));
}

#[test]
fn record_plan_target_summary_after_evaluation_updates_and_clears_top_target() {
    let now = start();
    let mut ctx = HuntContext::new(now);

    let planning = plan_evaluation_with_ranked_targets(
        now,
        vec![target_summary(1, 0x1000), target_summary(2, 0x2000)],
    );
    record_plan_target_summary_after_evaluation(&mut ctx, &planning);
    assert_eq!(
        ctx.last_target_summary
            .as_ref()
            .map(|summary| summary.target_id),
        Some(0x1000)
    );

    let empty_planning = plan_evaluation_with_ranked_targets(now, Vec::new());
    record_plan_target_summary_after_evaluation(&mut ctx, &empty_planning);
    assert!(ctx.last_target_summary.is_none());
}

#[test]
fn record_plan_target_summary_after_evaluation_updates_route_and_teleport_reasons() {
    let now = start();
    let mut ctx = HuntContext::new(now);
    let mut planning = plan_evaluation_with_ranked_targets(now, Vec::new());
    planning.plan_frame.selected_route_next_tile = Some((101, 100));
    planning.plan_frame.selected_route_reason = Some("attack: target=0x1000".to_string());
    planning.plan_frame.teleport_reason = Some("visible_no_actionable".to_string());

    record_plan_target_summary_after_evaluation(&mut ctx, &planning);

    assert_eq!(ctx.last_route_next_tile, Some((101, 100)));
    assert_eq!(
        ctx.last_route_reason.as_deref(),
        Some("attack: target=0x1000")
    );
    assert_eq!(
        ctx.last_teleport_reason.as_deref(),
        Some("visible_no_actionable")
    );
}

#[test]
fn evaluate_dispatch_for_backend_uses_v4_intent_contract_and_records_telemetry() {
    let now = start();
    let planning = plan_evaluation_with_ranked_targets(now, Vec::new());
    let snapshot = Snapshot {
        player: Some((100, 100)),
        entities: Vec::new(),
    };
    let dispatch_state = DispatchState::default();
    let mut policy_telemetry = PolicyTelemetry::default();

    let evaluation = evaluate_dispatch_for_backend(
        BackendDispatchEvaluationInput {
            planning: &planning,
            snapshot: &snapshot,
            dispatch_state: &dispatch_state,
            backend_intent: &DispatchIntent::Noop,
            takeover_enabled: false,
        },
        &mut policy_telemetry,
    );

    assert_eq!(policy_telemetry.total, 1);
    assert!(evaluation.policy_comparison.aligned);
    assert_eq!(evaluation.dispatch_choice.intent, DispatchIntent::Noop);
}

#[test]
fn evaluate_dispatch_for_backend_aligns_teleport_shadow_uut_keeps_backend_scroll() {
    let now = start();
    let mut planning = plan_evaluation_with_ranked_targets(now, Vec::new());
    planning.plan_frame.teleport_should_use = true;
    planning.plan_frame.teleport_reason = Some("empty_area".to_string());
    let snapshot = Snapshot {
        player: Some((100, 100)),
        entities: Vec::new(),
    };
    let dispatch_state = DispatchState::default();
    let backend = DispatchIntent::UseScroll {
        name_keyword: "teleport".to_string(),
    };
    let mut policy_telemetry = PolicyTelemetry::default();

    let evaluation = evaluate_dispatch_for_backend(
        BackendDispatchEvaluationInput {
            planning: &planning,
            snapshot: &snapshot,
            dispatch_state: &dispatch_state,
            backend_intent: &backend,
            takeover_enabled: true,
        },
        &mut policy_telemetry,
    );

    assert_eq!(policy_telemetry.total, 1);
    assert_eq!(policy_telemetry.aligned, 1);
    assert_eq!(
        evaluation.shadow_dispatch.decision,
        ShadowDecision::UseTeleportScroll {
            reason: "empty_area".to_string(),
        }
    );
    assert_eq!(evaluation.shadow_dispatch.action, Action::Wait);
    assert_eq!(evaluation.shadow_dispatch.intent, DispatchIntent::Noop);
    assert!(evaluation.policy_comparison.aligned);
    assert_eq!(
        evaluation.policy_comparison.reason,
        "both use teleport scroll"
    );
    assert_eq!(
        evaluation.dispatch_choice.source,
        DispatchChoiceSource::Backend
    );
    assert_eq!(evaluation.dispatch_choice.intent, backend);
    assert_eq!(evaluation.dispatch_choice.reason, "backend-owned scroll");
}

#[test]
fn record_dispatch_diagnostics_after_evaluation_records_fields_and_returns_intent() {
    let now = start();
    let mut ctx = HuntContext::new(now);
    let evaluation = DispatchEvaluation {
        shadow_dispatch: ShadowDispatch {
            decision: ShadowDecision::Wait,
            action: Action::Wait,
            intent: DispatchIntent::Noop,
        },
        policy_comparison: PolicyComparison {
            shadow: ShadowDecision::Wait,
            backend: BackendIntentSummary::Walk { tile: (101, 102) },
            aligned: false,
            reason: "policy mismatch",
        },
        dispatch_choice: DispatchChoice {
            source: DispatchChoiceSource::Backend,
            intent: DispatchIntent::Walk {
                target_x: 101,
                target_y: 102,
            },
            reason: "v4 takeover disauled",
        },
    };

    let dispatch_intent = record_dispatch_diagnostics_after_evaluation(&mut ctx, evaluation);

    assert_eq!(
        dispatch_intent,
        DispatchIntent::Walk {
            target_x: 101,
            target_y: 102,
        }
    );
    assert_eq!(
        ctx.last_shadow_dispatch
            .as_ref()
            .map(|dispatch| dispatch.intent.clone()),
        Some(DispatchIntent::Noop)
    );
    assert_eq!(
        ctx.last_dispatch_choice
            .as_ref()
            .map(|choice| choice.intent.clone()),
        Some(dispatch_intent)
    );
    assert_eq!(
        ctx.last_policy_comparison
            .as_ref()
            .map(|comparison| comparison.reason),
        Some("policy mismatch")
    );
}

#[test]
fn record_actual_dispatch_action_after_choice_updates_reported_action() {
    let now = start();
    let mut ctx = HuntContext::new(now);

    record_actual_dispatch_action_after_choice(
        &mut ctx,
        &DispatchIntent::Walk {
            target_x: 7,
            target_y: 8,
        },
    );
    assert_eq!(
        ctx.last_action,
        Some(ActionLabel::WalkTo { tile: (7, 8) })
    );

    record_actual_dispatch_action_after_choice(
        &mut ctx,
        &DispatchIntent::AttackLookupFailed { target_id: 0x123 },
    );
    assert_eq!(
        ctx.last_action,
        Some(ActionLabel::Attack {
            target_id: 0x123,
            with_skill: false,
        })
    );
}

#[test]
fn record_attack_bookkeeping_after_dispatch_seeds_watch_and_advances_sequence() {
    let now = start();
    let cfg = HuntConfig {
        attack_sequence: vec![
            AttackSequenceStep::basic(1000),
            AttackSequenceStep::skill("Fire".to_string(), 0),
        ],
        ..HuntConfig::default()
    };
    let mut ctx = HuntContext::new(now);

    assert_eq!(
        ctx.attack_sequence.current_step(&cfg, now),
        Some(AttackSequenceStep::basic(1000))
    );

    record_attack_bookkeeping_after_dispatch(
        &mut ctx,
        &cfg,
        now,
        &DispatchIntent::BootstrapAttack {
            target_id: 0x1234,
            entity_ptr: 0x2234,
            target_raw_x: 0,
            target_y: 0,
            fresh_target: true,
        },
        &LastOutcome::AttackOk { target_id: 0x1234 },
    );

    assert_eq!(ctx.attack_watch.target_id, Some(0x1234));
    assert_eq!(ctx.attack_watch.no_progress_since, Some(now));
    assert_eq!(
        ctx.attack_sequence
            .current_step(&cfg, now + Duration::from_millis(999)),
        None
    );
    assert_eq!(
        ctx.attack_sequence
            .current_step(&cfg, now + Duration::from_millis(1000)),
        Some(AttackSequenceStep::skill("Fire".to_string(), 0))
    );
}

#[test]
fn attack_watch_starts_when_attack_state_has_not_dispatched_yet() {
    let now = start();
    let target_id = 0x1234;
    let mut ctx = HuntContext::new(now);
    ctx.state = HuntState::Engaging {
        lock: TargetLock {
            target_id,
            entity_ptr: 0x2234,
            name: "stalled".to_string(),
            acquired_at: now,
            last_seen: now,
            bootstrapped: false,
        },
        intent: EngageIntent::Attack,
        path: None,
    };

    let first =
        prepare_attack_watch_before_tick_with_damage_observation(&mut ctx, now, false);

    assert_eq!(first, None);
    assert_eq!(ctx.attack_watch.target_id, Some(target_id));
    assert_eq!(ctx.attack_watch.no_progress_since, Some(now));

    let stale = prepare_attack_watch_before_tick_with_damage_observation(
        &mut ctx,
        now + Duration::from_millis(ATTACK_NO_PROGRESS_DURATION_MS),
        false,
    );

    assert_eq!(stale, Some(target_id));
    assert_eq!(
        ctx.last_outcome,
        LastOutcome::AttackNoProgress { target_id }
    );
    assert_eq!(
        no_progress_log_line(stale),
        Some(format!(
            "[bot/hunt4/target] no damage progress target=0x{target_id:X} mark_attack_failed=true"
        ))
    );
    assert_eq!(no_progress_log_line(None), None);
}

#[test]
fn attack_watch_does_not_fail_target_at_three_seconds_without_packet_damage() {
    let now = start();
    let target_id = 0x1234;
    let mut ctx = HuntContext::new(now);
    ctx.state = HuntState::Engaging {
        lock: TargetLock {
            target_id,
            entity_ptr: 0x2234,
            name: "slow_kill".to_string(),
            acquired_at: now,
            last_seen: now,
            bootstrapped: false,
        },
        intent: EngageIntent::Attack,
        path: None,
    };

    prepare_attack_watch_before_tick_with_damage_observation(&mut ctx, now, false);
    let stale = prepare_attack_watch_before_tick_with_damage_observation(
        &mut ctx,
        now + Duration::from_secs(3),
        false,
    );

    assert_eq!(stale, None);
    assert_eq!(ctx.attack_watch.target_id, Some(target_id));
    assert_eq!(ctx.last_outcome, LastOutcome::NoOutcome);
}

#[test]
fn attack_watch_records_packet_damage_as_observed_target_progress() {
    let now = start();
    let target_id = 0x1234;
    let mut ctx = HuntContext::new(now);
    ctx.state = HuntState::Engaging {
        lock: TargetLock {
            target_id,
            entity_ptr: 0x2234,
            name: "damaged".to_string(),
            acquired_at: now,
            last_seen: now,
            bootstrapped: false,
        },
        intent: EngageIntent::Attack,
        path: None,
    };

    prepare_attack_watch_before_tick_with_damage_observation(&mut ctx, now, false);
    let damaged_at = now + Duration::from_secs(1);
    let stale = prepare_attack_watch_before_tick_with_damage_observation(
        &mut ctx, damaged_at, true,
    );

    assert_eq!(stale, None);
    assert_eq!(ctx.last_target_progress, Some(damaged_at));
    assert_eq!(ctx.attack_watch.no_progress_since, Some(damaged_at));
}

#[test]
fn attack_sequence_advances_past_skill_attempt_even_when_dispatch_reports_failed() {
    let now = start();
    let cfg = HuntConfig {
        attack_sequence: vec![
            AttackSequenceStep::basic(0),
            AttackSequenceStep::basic(0),
            AttackSequenceStep::skill("skill-a".to_string(), 0),
        ],
        ..HuntConfig::default()
    };
    let mut ctx = HuntContext::new(now);

    assert_eq!(
        ctx.attack_sequence.current_step(&cfg, now),
        Some(AttackSequenceStep::basic(0))
    );
    record_attack_bookkeeping_after_dispatch(
        &mut ctx,
        &cfg,
        now,
        &DispatchIntent::BootstrapAttack {
            target_id: 0x1234,
            entity_ptr: 0x2234,
            target_raw_x: 0,
            target_y: 0,
            fresh_target: true,
        },
        &LastOutcome::AttackOk { target_id: 0x1234 },
    );

    assert_eq!(
        ctx.attack_sequence.current_step(&cfg, now),
        Some(AttackSequenceStep::basic(0))
    );
    record_attack_bookkeeping_after_dispatch(
        &mut ctx,
        &cfg,
        now,
        &DispatchIntent::BootstrapAttack {
            target_id: 0x1234,
            entity_ptr: 0x2234,
            target_raw_x: 0,
            target_y: 0,
            fresh_target: false,
        },
        &LastOutcome::AttackOk { target_id: 0x1234 },
    );

    assert_eq!(
        ctx.attack_sequence.current_step(&cfg, now),
        Some(AttackSequenceStep::skill("skill-a".to_string(), 0))
    );
    record_attack_bookkeeping_after_dispatch(
        &mut ctx,
        &cfg,
        now,
        &DispatchIntent::CastSkill {
            skill_name: "skill-a".to_string(),
            target_id: 0x1234,
        },
        &LastOutcome::AttackFailed { target_id: 0x1234 },
    );

    assert_eq!(
        ctx.attack_sequence.current_step(&cfg, now),
        Some(AttackSequenceStep::basic(0)),
        "a skill dispatch attempt must close the configured round so the next attack starts from rank 1 instead of repeating the skill"
    );
}

#[test]
fn attack_sequence_waiting_basic_filler_does_not_extend_next_ready_time() {
    let now = start();
    let cfg = HuntConfig {
        attack_sequence: vec![AttackSequenceStep::skill("Fire".to_string(), 2_000)],
        ..HuntConfig::default()
    };
    let mut ctx = HuntContext::new(now);

    assert_eq!(
        ctx.attack_sequence.current_step(&cfg, now),
        Some(AttackSequenceStep::skill("Fire".to_string(), 2_000))
    );
    record_attack_bookkeeping_after_dispatch(
        &mut ctx,
        &cfg,
        now,
        &DispatchIntent::CastSkill {
            skill_name: "Fire".to_string(),
            target_id: 0x1234,
        },
        &LastOutcome::AttackOk { target_id: 0x1234 },
    );

    let filler_time = now + Duration::from_millis(800);
    assert_eq!(ctx.attack_sequence.current_step(&cfg, filler_time), None);
    record_attack_bookkeeping_after_dispatch(
        &mut ctx,
        &cfg,
        filler_time,
        &DispatchIntent::BootstrapAttack {
            target_id: 0x1234,
            entity_ptr: 0x2234,
            target_raw_x: 0,
            target_y: 0,
            fresh_target: false,
        },
        &LastOutcome::AttackOk { target_id: 0x1234 },
    );

    assert_eq!(
        ctx.attack_sequence
            .current_step(&cfg, now + Duration::from_millis(1_999)),
        None
    );
    assert_eq!(
        ctx.attack_sequence
            .current_step(&cfg, now + Duration::from_millis(2_000)),
        Some(AttackSequenceStep::skill("Fire".to_string(), 2_000))
    );
}

#[test]
fn record_dispatch_context_after_dispatch_updates_last_outcome_and_walk_tile() {
    let now = start();
    let mut ctx = HuntContext::new(now);

    record_dispatch_context_after_dispatch(
        &mut ctx,
        &DispatchIntent::Walk {
            target_x: 101,
            target_y: 102,
        },
        &LastOutcome::WalkOk,
    );
    assert_eq!(ctx.last_outcome, LastOutcome::WalkOk);
    assert_eq!(ctx.last_walk_tile, Some((101, 102)));

    record_dispatch_context_after_dispatch(
        &mut ctx,
        &DispatchIntent::Walk {
            target_x: 103,
            target_y: 104,
        },
        &LastOutcome::WalkFailed {
            attempted_tile: (103, 104),
        },
    );
    assert_eq!(
        ctx.last_outcome,
        LastOutcome::WalkFailed {
            attempted_tile: (103, 104),
        }
    );
    assert_eq!(ctx.last_walk_tile, None);

    ctx.last_walk_tile = Some((105, 106));
    record_dispatch_context_after_dispatch(
        &mut ctx,
        &DispatchIntent::UseScroll {
            name_keyword: "scroll".to_string(),
        },
        &LastOutcome::ScrollOk,
    );
    assert_eq!(ctx.last_outcome, LastOutcome::ScrollOk);
    assert_eq!(ctx.last_walk_tile, None);
}

#[test]
fn advance_hp_baseline_after_plan_updates_only_when_hp_is_available() {
    let now = start();
    let mut ctx = HuntContext::new(now);

    advance_hp_baseline_after_plan(&mut ctx, Some(777));
    assert_eq!(ctx.prev_hp, Some(777));

    advance_hp_baseline_after_plan(&mut ctx, None);
    assert_eq!(ctx.prev_hp, Some(777));
}

#[test]
fn record_map_change_after_frame_updates_map_and_records_portal_tile() {
    let now = start();
    let mut ctx = HuntContext::new(now);
    ctx.last_map_id = Some(10);
    ctx.last_walk_tile = Some((321, 456));

    let line = record_map_change_after_frame(&mut ctx, Some(11), now);

    assert_eq!(ctx.last_map_id, Some(11));
    assert!(ctx.memory.is_obstacle((321, 456), now));
    assert_eq!(
        line,
        Some(format!(
            "[bot/hunt4/portal] learned avoid tile(s) after map change prev=Some(10) cur=Some(11) \
             tiles={:?}",
            vec![((321, 456), now)]
        ))
    );

    ctx.last_walk_tile = Some((111, 222));
    assert_eq!(record_map_change_after_frame(&mut ctx, Some(11), now), None);

    assert_eq!(ctx.last_map_id, Some(11));
    assert!(!ctx.memory.is_obstacle((111, 222), now));
}

#[test]
fn record_position_memory_after_frame_pushes_position_and_map_visit() {
    let now = start();
    let mut ctx = HuntContext::new(now);

    record_position_memory_after_frame(&mut ctx, Some((100, 200)), Some(63), now);

    assert_eq!(ctx.memory.recent_positions.len(), 1);
    assert_eq!(
        ctx.memory
            .recent_positions
            .back()
            .map(|(x, y, at)| (*x, *y, *at)),
        Some((100, 200, now))
    );
    assert_eq!(ctx.memory.last_position_change, Some(now));
    assert_eq!(ctx.memory.visit_count(63, (100, 200)), 1);

    let unchanged_at = now + Duration::from_secs(1);
    record_position_memory_after_frame(&mut ctx, Some((100, 200)), None, unchanged_at);

    assert_eq!(ctx.memory.recent_positions.len(), 2);
    assert_eq!(ctx.memory.last_position_change, Some(now));
    assert_eq!(ctx.memory.visit_count(63, (100, 200)), 1);

    record_position_memory_after_frame(
        &mut ctx,
        None,
        Some(63),
        now + Duration::from_secs(2),
    );

    assert_eq!(ctx.memory.recent_positions.len(), 2);
    assert_eq!(ctx.memory.visit_count(63, (100, 200)), 1);
}

#[test]
fn publish_active_path_writes_walk_paths_and_clears_idle() {
    let mut slot = BotPath { tiles: Vec::new() };
    let now = start();
    let approach_path = vec![(10, 10), (11, 10)];
    let lock = TargetLock {
        target_id: 0x1,
        entity_ptr: 0xDEAD,
        name: "mob".to_string(),
        acquired_at: now,
        last_seen: now,
        bootstrapped: false,
    };
    publish_active_path(
        &mut slot,
        &HuntState::Engaging {
            lock,
            intent: EngageIntent::Approach,
            path: Some(approach_path.clone()),
        },
    );
    assert_eq!(read_bot_path(&slot), approach_path);

    let explore_path = vec![(20, 20), (21, 20)];
    publish_active_path(
        &mut slot,
        &HuntState::Exploring {
            goal: (25, 20),
            path: explore_path.clone(),
        },
    );
    assert_eq!(read_bot_path(&slot), explore_path);

    publish_active_path(&mut slot, &HuntState::Idle);
    assert!(read_bot_path(&slot).is_empty());
}

#[test]
fn intent_to_outcome_maps_walk_attack_skill_scroll_and_lookup_results() {
    let snapshot = Snapshot {
        player: Some((100, 100)),
        entities: vec![
            entity(0x11, 0xAA11, "target_a"),
            entity(0x22, 0xAA22, "target_u"),
        ],
    };
    let player_pos = Some(PlayerPosition { x: 100, y: 100 });

    assert!(matches!(
        intent_to_outcome(
            &DispatchIntent::Noop,
            &snapshot,
            player_pos,
            &LastOutcome::NoOutcome
        ),
        HuntOutcome::NoTarget
    ));

    match intent_to_outcome(
        &DispatchIntent::Walk {
            target_x: 101,
            target_y: 102,
        },
        &snapshot,
        player_pos,
        &LastOutcome::WalkOk,
    ) {
        HuntOutcome::Walked {
            target_id,
            name,
            distance_tiles,
            ..
        } => {
            assert_eq!(target_id, 0);
            assert_eq!(name, "hunt4 walk");
            assert_eq!(distance_tiles, 2);
        }
        other => panic!("expected walked outcome, got {other:?}"),
    }

    match intent_to_outcome(
        &DispatchIntent::BootstrapAttack {
            target_id: 0x11,
            entity_ptr: 0xAA11,
            target_raw_x: 0,
            target_y: 0,
            fresh_target: true,
        },
        &snapshot,
        player_pos,
        &LastOutcome::AttackOk { target_id: 0x11 },
    ) {
        HuntOutcome::Cast {
            target_id, name, ..
        } => {
            assert_eq!(target_id, 0x11);
            assert_eq!(name, "target_a");
        }
        other => panic!("expected cast outcome, got {other:?}"),
    }

    match intent_to_outcome(
        &DispatchIntent::CastSkill {
            skill_name: "Fire".to_string(),
            target_id: 0x22,
        },
        &snapshot,
        player_pos,
        &LastOutcome::AttackOk { target_id: 0x22 },
    ) {
        HuntOutcome::Cast {
            target_id, name, ..
        } => {
            assert_eq!(target_id, 0x22);
            assert_eq!(name, "Fire (target_u)");
        }
        other => panic!("expected skill cast outcome, got {other:?}"),
    }

    assert!(matches!(
        intent_to_outcome(
            &DispatchIntent::UseScroll {
                name_keyword: "scroll".to_string(),
            },
            &snapshot,
            player_pos,
            &LastOutcome::ScrollOk,
        ),
        HuntOutcome::Cooldown { remaining_ms: 0 }
    ));

    match intent_to_outcome(
        &DispatchIntent::AttackLookupFailed { target_id: 0xCC },
        &snapshot,
        player_pos,
        &LastOutcome::NoOutcome,
    ) {
        HuntOutcome::ActionFailed(msg) => assert!(msg.contains("target=0xCC")),
        other => panic!("expected lookup ActionFailed, got {other:?}"),
    }
}
