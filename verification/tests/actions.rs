use hunt_bot::hunt4::actions::{DispatchIntent, DispatchState, intent_for};
use hunt_bot::hunt4::model::{EntityClass, EntityView, Snapshot};
use hunt_bot::hunt4::step::Action;

fn entity(target_id: u32, entity_ptr: u32, class: EntityClass) -> EntityView {
    EntityView {
        target_id,
        entity_ptr,
        name: format!("mob_{target_id:X}"),
        sprite_id: 100,
        action_state: 0,
        tile: (100, 100),
        raw_x: 0x8123,
        y: 33000,
        class,
        visible_confidence: 1,
        hostile_confidence: u8::from(class == EntityClass::AttackableMonster),
    }
}

#[test]
fn dispatch_intent_for_walk_keeps_action_tile_without_replanning() {
    let snapshot = Snapshot::default();
    let state = DispatchState::default();
    let action = Action::WalkTo { tile: (105, 99) };

    assert_eq!(
        intent_for(&action, &snapshot, &state),
        DispatchIntent::Walk {
            target_x: 105,
            target_y: 99,
        }
    );
}

#[test]
fn attack_lookup_uses_live_entity_when_duplicate_target_id_has_stale_first_entry() {
    let target_id = 0x0BEB_DEC1;
    let stale_ptr = 0x1111_0000;
    let live_ptr = 0x2222_0000;
    let snapshot = Snapshot {
        player: Some((100, 100)),
        entities: vec![
            entity(target_id, stale_ptr, EntityClass::Unknown),
            entity(target_id, live_ptr, EntityClass::AttackableMonster),
        ],
    };
    let state = DispatchState::default();
    let action = Action::AttackTarget {
        target_id,
        entity_ptr: live_ptr,
        skill: None,
    };

    assert_eq!(
        intent_for(&action, &snapshot, &state),
        DispatchIntent::BootstrapAttack {
            target_id,
            entity_ptr: live_ptr,
            target_raw_x: 0x8123,
            target_y: 33000,
            fresh_target: true,
        }
    );
}
