use hunt_bot::hunt4::actions::DispatchIntent;
use hunt_bot::hunt4::observe::{ActionLabel, label_action, label_dispatch_intent, snapshot_lock};
use hunt_bot::hunt4::state::{EngageIntent, HuntState, StopReason, TargetLock};
use hunt_bot::hunt4::step::Action;
use hunt_bot::time::Instant;

/// A moment with time before and after it.
fn start() -> Instant {
    Instant::from_nanos(1_000_000_000_000_000)
}

fn fake_lock(target_id: u32) -> TargetLock {
    TargetLock {
        target_id,
        entity_ptr: 0xDEAD_BEEF,
        name: format!("mob_{target_id:X}"),
        acquired_at: start(),
        last_seen: start(),
        bootstrapped: false,
    }
}

#[test]
fn label_action_wait() {
    assert_eq!(label_action(&Action::Wait), ActionLabel::Wait);
}

#[test]
fn label_action_walk_to_preserves_tile() {
    let action = Action::WalkTo { tile: (105, 99) };
    assert_eq!(
        label_action(&action),
        ActionLabel::WalkTo { tile: (105, 99) }
    );
}

#[test]
fn label_action_attack_without_skill() {
    let action = Action::AttackTarget {
        target_id: 0xABCD,
        entity_ptr: 0xDEAD,
        skill: None,
    };
    assert_eq!(
        label_action(&action),
        ActionLabel::Attack {
            target_id: 0xABCD,
            with_skill: false,
        }
    );
}

#[test]
fn label_action_attack_with_skill_marks_with_skill_true() {
    let action = Action::AttackTarget {
        target_id: 0xABCD,
        entity_ptr: 0xDEAD,
        skill: Some("skill".to_string()),
    };
    assert_eq!(
        label_action(&action),
        ActionLabel::Attack {
            target_id: 0xABCD,
            with_skill: true,
        }
    );
}

#[test]
fn label_action_attack_with_empty_skill_marks_with_skill_false() {
    let action = Action::AttackTarget {
        target_id: 0xABCD,
        entity_ptr: 0xDEAD,
        skill: Some(String::new()),
    };
    assert_eq!(
        label_action(&action),
        ActionLabel::Attack {
            target_id: 0xABCD,
            with_skill: false,
        }
    );
}

#[test]
fn label_action_use_scroll() {
    let action = Action::UseTeleportScroll {
        name_keyword: "teleport".to_string(),
    };
    assert_eq!(label_action(&action), ActionLabel::UseScroll);
}

#[test]
fn label_dispatch_intent_reports_actual_dispatch_surface() {
    assert_eq!(
        label_dispatch_intent(&DispatchIntent::Walk {
            target_x: 77,
            target_y: 88,
        }),
        ActionLabel::WalkTo { tile: (77, 88) }
    );
    assert_eq!(
        label_dispatch_intent(&DispatchIntent::BootstrapAttack {
            target_id: 0xAB,
            entity_ptr: 0xCD,
            target_raw_x: 0,
            target_y: 0,
            fresh_target: true,
        }),
        ActionLabel::Attack {
            target_id: 0xAB,
            with_skill: false,
        }
    );
    assert_eq!(
        label_dispatch_intent(&DispatchIntent::CastSkill {
            skill_name: "skill".to_string(),
            target_id: 0xAC,
        }),
        ActionLabel::Attack {
            target_id: 0xAC,
            with_skill: true,
        }
    );
    assert_eq!(
        label_dispatch_intent(&DispatchIntent::AttackLookupFailed { target_id: 0xAD }),
        ActionLabel::Attack {
            target_id: 0xAD,
            with_skill: false,
        }
    );
}

#[test]
fn snapshot_lock_returns_none_for_non_engaging() {
    assert!(snapshot_lock(&HuntState::Idle).is_none());
    assert!(snapshot_lock(&HuntState::Stopped {
        reason: StopReason::Manual
    })
    .is_none());
}

#[test]
fn snapshot_lock_returns_summary_for_engaging() {
    let state = HuntState::Engaging {
        lock: fake_lock(0xABCD),
        intent: EngageIntent::Attack,
        path: None,
    };
    let summary = snapshot_lock(&state).expect("Engaging should produce lock summary");
    assert_eq!(summary.target_id, 0xABCD);
    assert_eq!(summary.intent, "Attack");
    assert_eq!(summary.name, "mob_ABCD");
}

#[test]
fn snapshot_lock_intent_labels_match_variants() {
    for (intent, expected) in [
        (EngageIntent::Approach, "Approach"),
        (EngageIntent::Attack, "Attack"),
        (EngageIntent::KillConfirm, "KillConfirm"),
    ] {
        let state = HuntState::Engaging {
            lock: fake_lock(0x1234),
            intent,
            path: None,
        };
        let summary = snapshot_lock(&state).expect("engaging has lock");
        assert_eq!(summary.intent, expected, "intent {intent:?}");
    }
}
