use hunt_bot::hunt4::actions::DispatchIntent;
use hunt_bot::hunt4::plan::PlanFrame;
use hunt_bot::hunt4::policy::{
    BackendIntentSummary, PolicyComparison, PolicyTelemetry, ShadowDecision, compare_to_backend,
    decide,
};
use hunt_bot::hunt4::score::TargetScoreSummary;
use hunt_bot::time::Instant;

/// A moment with time before and after it.
fn start() -> Instant {
    Instant::from_nanos(1_000_000_000_000_000)
}

fn target(
    target_id: u32,
    in_attack_range: bool,
    reachable: bool,
    is_attacker: bool,
    approach_steps: Option<usize>,
) -> TargetScoreSummary {
    TargetScoreSummary {
        rank: 1,
        target_id,
        entity_ptr: target_id + 0x1000,
        name: format!("mob_{target_id:X}"),
        tile: (100, 100),
        distance: 1,
        in_attack_range,
        reachable,
        is_attacker,
        approach_steps,
        approach_next_tile: approach_steps.map(|_| (101, 100)),
        reason: "test".to_string(),
    }
}

fn plan(ranked_targets: Vec<TargetScoreSummary>) -> PlanFrame {
    let selected_target_id = ranked_targets.first().map(|target| target.target_id);
    let selected_target_reason = ranked_targets.first().map(|target| target.reason.clone());
    PlanFrame {
        now: start(),
        in_game: true,
        map_id: Some(4),
        player_tile: Some((99, 99)),
        attack_range: 1,
        selected_attack_step: None,
        selected_skill_range: None,
        selected_skill_cd_ms: None,
        selected_skill_ready: None,
        post_skill_basic_pending_target: None,
        recent_attacker_count: 0,
        candidate_count: ranked_targets.len(),
        reachable_count: ranked_targets
            .iter()
            .filter(|target| target.reachable)
            .count(),
        attacker_count: ranked_targets
            .iter()
            .filter(|target| target.is_attacker)
            .count(),
        ranked_targets,
        route_plan: None,
        selected_target_id,
        selected_target_reason,
        non_viable_target_count: 0,
        last_target_reject_reason: None,
        abandoned_target_reason: None,
        selected_route_target_id: None,
        selected_route_next_tile: None,
        selected_route_reason: None,
        movement_next_tile: None,
        movement_reason: None,
        teleport_should_use: false,
        teleport_reason: None,
        final_action_kind: "wait".to_string(),
        invariant_violations: Vec::new(),
        explore_goal: None,
        explore_next_tile: None,
        explore_steps: None,
    }
}

#[test]
fn decide_attacks_top_target_when_in_range() {
    let plan = plan(vec![target(0x0100_0001, true, true, false, Some(0))]);

    let decision = decide(&plan);

    assert_eq!(
        decision,
        ShadowDecision::Attack {
            target_id: 0x0100_0001
        }
    );
}

#[test]
fn decide_approaches_reachable_top_target_when_out_of_range() {
    let plan = plan(vec![target(0x0100_0002, false, true, true, Some(3))]);

    let decision = decide(&plan);

    assert_eq!(
        decision,
        ShadowDecision::Approach {
            target_id: 0x0100_0002,
            next_tile: Some((101, 100)),
        }
    );
}

#[test]
fn decide_reports_teleport_when_no_target_or_explore_action_exists() {
    let mut plan = plan(Vec::new());
    plan.teleport_should_use = true;
    plan.teleport_reason = Some("empty_area".to_string());

    let decision = decide(&plan);

    assert_eq!(
        decision,
        ShadowDecision::UseTeleportScroll {
            reason: "empty_area".to_string(),
        }
    );
}

#[test]
fn compare_to_backend_records_matching_attack_target() {
    let plan = plan(vec![target(0x0100_0001, true, true, false, Some(0))]);

    let comparison = compare_to_backend(
        &plan,
        &DispatchIntent::BootstrapAttack {
            target_id: 0x0100_0001,
            entity_ptr: 0x0100_1001,
            target_raw_x: 0,
            target_y: 0,
            fresh_target: true,
        },
    );

    assert_eq!(
        comparison.shadow,
        ShadowDecision::Attack {
            target_id: 0x0100_0001
        }
    );
    assert_eq!(
        comparison.backend,
        BackendIntentSummary::Attack {
            target_id: 0x0100_0001
        }
    );
    assert!(comparison.aligned);
}

#[test]
fn compare_to_backend_aligns_teleport_shadow_with_backend_scroll() {
    let mut plan = plan(Vec::new());
    plan.teleport_should_use = true;
    plan.teleport_reason = Some("no_actionable_target".to_string());

    let comparison = compare_to_backend(
        &plan,
        &DispatchIntent::UseScroll {
            name_keyword: "teleport".to_string(),
        },
    );

    assert_eq!(
        comparison.shadow,
        ShadowDecision::UseTeleportScroll {
            reason: "no_actionable_target".to_string(),
        }
    );
    assert_eq!(comparison.backend, BackendIntentSummary::UseScroll);
    assert!(comparison.aligned);
    assert_eq!(comparison.reason, "both use teleport scroll");
}

#[test]
fn compare_to_backend_requires_same_approach_walk_tile() {
    let mut plan = plan(vec![target(0x0100_0002, false, true, false, Some(2))]);
    plan.ranked_targets[0].approach_next_tile = Some((101, 100));

    let comparison = compare_to_backend(
        &plan,
        &DispatchIntent::Walk {
            target_x: 102,
            target_y: 100,
        },
    );

    assert_eq!(
        comparison.shadow,
        ShadowDecision::Approach {
            target_id: 0x0100_0002,
            next_tile: Some((101, 100)),
        }
    );
    assert_eq!(
        comparison.backend,
        BackendIntentSummary::Walk { tile: (102, 100) }
    );
    assert!(!comparison.aligned);
    assert_eq!(comparison.reason, "different approach tile");
}

#[test]
fn telemetry_counts_aligned_and_mismatched_comparisons() {
    let mut telemetry = PolicyTelemetry::default();

    telemetry.record(PolicyComparison {
        shadow: ShadowDecision::Attack {
            target_id: 0x0100_0001,
        },
        backend: BackendIntentSummary::Attack {
            target_id: 0x0100_0001,
        },
        aligned: true,
        reason: "same attack target",
    });
    telemetry.record(PolicyComparison {
        shadow: ShadowDecision::Attack {
            target_id: 0x0100_0001,
        },
        backend: BackendIntentSummary::UseScroll,
        aligned: false,
        reason: "different intent kind",
    });

    assert_eq!(telemetry.total, 2);
    assert_eq!(telemetry.aligned, 1);
    assert_eq!(telemetry.mismatched, 1);
    assert!(telemetry
        .last_mismatch
        .as_ref()
        .is_some_and(|comparison| !comparison.aligned));
}

#[test]
fn telemetry_tracks_current_aligned_streak() {
    let mut telemetry = PolicyTelemetry::default();
    let aligned = PolicyComparison {
        shadow: ShadowDecision::Wait,
        backend: BackendIntentSummary::Wait,
        aligned: true,
        reason: "both wait",
    };
    let mismatched = PolicyComparison {
        shadow: ShadowDecision::Wait,
        backend: BackendIntentSummary::UseScroll,
        aligned: false,
        reason: "different intent kind",
    };

    telemetry.record(aligned.clone());
    telemetry.record(aligned);
    assert_eq!(telemetry.aligned_streak, 2);

    telemetry.record(mismatched);
    assert_eq!(telemetry.aligned_streak, 0);
}
