use hunt_bot::engine::{
    BotState, GAME_STATE_IN_GAME, compute_next_state, should_suspend_hunt_for_ui,
};

#[test]
fn idle_stays_idle_when_master_off() {
    assert_eq!(
        compute_next_state(BotState::Idle, GAME_STATE_IN_GAME, false),
        BotState::Idle
    );
}

#[test]
fn idle_to_hunting_requires_both_in_game_and_master_on() {
    assert_eq!(
        compute_next_state(BotState::Idle, GAME_STATE_IN_GAME, false),
        BotState::Idle
    );
    assert_eq!(compute_next_state(BotState::Idle, 0, true), BotState::Idle);
    assert_eq!(
        compute_next_state(BotState::Idle, GAME_STATE_IN_GAME, true),
        BotState::Hunting
    );
}

#[test]
fn hunting_to_stopped_on_disconnect() {
    assert_eq!(
        compute_next_state(BotState::Hunting, 0, true),
        BotState::Stopped
    );
}

#[test]
fn hunting_to_stopped_on_master_off() {
    assert_eq!(
        compute_next_state(BotState::Hunting, GAME_STATE_IN_GAME, false),
        BotState::Stopped
    );
}

#[test]
fn stopped_recovers_to_idle_when_master_is_on_and_game_is_ready() {
    assert_eq!(
        compute_next_state(BotState::Stopped, GAME_STATE_IN_GAME, true),
        BotState::Idle
    );
}

#[test]
fn hunt_output_suspends_while_bot_window_is_open() {
    assert!(!should_suspend_hunt_for_ui(true));
    assert!(!should_suspend_hunt_for_ui(false));
}
