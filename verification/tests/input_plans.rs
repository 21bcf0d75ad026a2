use hunt_bot::action::screen_target::PlayerPosition;
use hunt_bot::action::walk::{
    WalkDriver, WalkError, should_log_walk_state, walk_release, walk_step_toward_entity,
    walk_toward_tile, walk_toward_tile_with_driver,
};
use hunt_bot::action::walk_state::{ActorReading, WalkStateReading, log_walk_state};
use hunt_bot::client::input_sim::{
    HoldPlan, InputError, KeyPress, MouseHold, click_hold_at_pixel,
    click_hold_at_player_anchor_pixel, point_lparam, press_fkey, walk_hold,
};
use hunt_bot::time::{Duration, Instant};

fn start() -> Instant {
    Instant::from_nanos(1_000_000_000_000_000)
}

#[test]
fn function_keys_have_their_scan_codes() {
    assert_eq!(
        press_fkey(1, true),
        Ok(KeyPress { vk: 0x70, down: 0x003B_0001, up: 0xC03B_0001, pause_ms: 80 })
    );
    assert_eq!(
        press_fkey(12, false),
        Ok(KeyPress { vk: 0x7B, down: 0x0058_0001, up: 0xC058_0001, pause_ms: 0 })
    );
    assert_eq!(press_fkey(0, false), Err(InputError::NoSuchKey));
    assert_eq!(press_fkey(13, false), Err(InputError::NoSuchKey));
}

#[test]
fn a_point_is_packed_into_one_word() {
    assert_eq!(point_lparam(500, 300), 300 * 0x1_0000 + 500);
    assert_eq!(point_lparam(-1, -1), 0xFFFF_FFFF);
    assert_eq!(point_lparam(0x1_0002, 0x3_0004), 0x0004_0002);
}

#[test]
fn holding_presses_once_and_then_only_moves() {
    let now = start();
    let mut hold = MouseHold::released();
    let word = point_lparam(500, 300);
    assert_eq!(walk_hold(2, 800, 600, &hold, now), Ok(HoldPlan { word, press: true }));
    hold.note_down(now);
    let soon = now + Duration::from_millis(999);
    assert_eq!(walk_hold(2, 800, 600, &hold, soon), Ok(HoldPlan { word, press: false }));
    let heartbeat = now + Duration::from_millis(1000);
    assert_eq!(walk_hold(2, 800, 600, &hold, heartbeat), Ok(HoldPlan { word, press: true }));
    assert!(walk_release(&mut hold));
    assert!(!walk_release(&mut hold), "nothing to let go of");
    assert_eq!(hold, MouseHold::released());
}

#[test]
fn there_are_eight_headings_and_a_client_has_an_area() {
    let hold = MouseHold::released();
    assert_eq!(walk_hold(8, 800, 600, &hold, start()), Err(InputError::NoSuchHeading));
    assert_eq!(walk_hold(8, 0, 0, &hold, start()), Err(InputError::NoSuchHeading));
    assert_eq!(walk_hold(0, 0, 600, &hold, start()), Err(InputError::EmptyClient));
    assert_eq!(
        click_hold_at_pixel(0, 0, 800, -1, &hold, start()),
        Err(InputError::EmptyClient)
    );
    assert_eq!(
        click_hold_at_player_anchor_pixel(0, 0, 0, 600, &hold, start()),
        Err(InputError::EmptyClient)
    );
}

#[test]
fn clicks_stay_inside_the_playing_area() {
    let hold = MouseHold::released();
    let corner = click_hold_at_pixel(-10_000, -10_000, 800, 600, &hold, start()).unwrap();
    assert_eq!(corner.word, point_lparam(8, 32));
    let above = click_hold_at_player_anchor_pixel(0, -32, 800, 600, &hold, start()).unwrap();
    assert_eq!(above.word, point_lparam(400, 208));
}

#[test]
fn a_step_is_announced_and_aimed() {
    let player = PlayerPosition { x: 1000, y: 1000 };
    let (line, step) = walk_toward_tile_with_driver(WalkDriver::PostMessage, player, 1001, 1000);
    assert_eq!(line, "[bot/walk] driver=post_message target=(1001, 1000) player=(1000, 1000)");
    assert_eq!(step, Ok((32, -16)));
    assert_eq!(walk_toward_tile(player, 1000, 1000), Err(WalkError::AlreadyThere));
    assert_eq!(walk_step_toward_entity(player, 1000, 1000), Err(WalkError::AlreadyThere));
    assert_eq!(walk_step_toward_entity(player, 990, 1000), Ok(6));
}

#[test]
fn driver_names_are_read_back() {
    assert_eq!(
        WalkDriver::from_name(WalkDriver::PostMessage.as_str()),
        Some(WalkDriver::PostMessage)
    );
    assert_eq!(WalkDriver::from_name("teleport"), None);
}

#[test]
fn walking_state_is_reported_every_third_of_a_second() {
    let now = start();
    let mut last = None;
    assert!(should_log_walk_state(&mut last, now));
    assert!(!should_log_walk_state(&mut last, now + Duration::from_millis(349)));
    assert!(should_log_walk_state(&mut last, now + Duration::from_millis(350)));
    assert_eq!(last, Some(now + Duration::from_millis(350)));
}

fn reading() -> WalkStateReading {
    WalkStateReading {
        actor_ptr: Some(0x1234_5678),
        player_ptr: Some(0x10),
        target_entity_ptr: None,
        prepared_x: Some(-3),
        prepared_y: Some(33001),
        mouse_x: Some(400),
        mouse_y: None,
        target_valid: Some(1),
        target_mode8: Some(0xAB),
        target_mode32: Some(0xAB),
        continue_flag: None,
        flag_24d: Some(0),
        flag_24e: Some(1),
        flag_24f: Some(2),
        flag_272: Some(3),
        flag_273: None,
        obf_a: Some(0xFFFF_FFFF),
        obf_b: Some(0),
        actor: ActorReading {
            action: Some(4),
            dir: Some(5),
            frame: Some(6),
            mark: None,
            raw_x: Some(0x8000),
            x: Some(33000),
            y: Some(33002),
            busy: Some(1),
        },
    }
}

#[test]
fn the_walking_state_is_written_out() {
    let player = PlayerPosition { x: 33000, y: 33002 };
    assert_eq!(
        log_walk_state("before", player, 33001, 33001, &reading()),
        "[bot/walk_state] phase=before target=(33001, 33001) player=(33000, 33002) actor_ptr@00C2B268=0x12345678 bot_player_ptr@00C2D2B8=0x00000010 target_entity@00C2B264=? prepared@009A9C6C=(-3, 33001) mouse@009A9C74=(400, ?) valid@009A93BF=0x01 mode@009A92FC=0xAB/0x000000AB cont@00AC24D4=? flags@00C2B24D/B24E/B24F/B272/B273=0x00/0x01/0x02/0x03/? obf@00BDA784/778=0xFFFFFFFF/0x00000000 actor(+14/+15/+17/+134)=0x04/0x05/0x06/? actor_pos(raw_x/x/y)=0x00008000/33000/33002 actor_busy@+7C=0x00000001"
    );
}

#[test]
fn without_an_actor_nothing_is_known_of_it() {
    let player = PlayerPosition { x: 1, y: 2 };
    let mut state = reading();
    state.actor_ptr = Some(0);
    let line = log_walk_state("after", player, 3, 4, &state);
    assert!(line.contains("actor_ptr@00C2B268=? "));
    assert!(line.ends_with(
        "actor(+14/+15/+17/+134)=?/?/?/? actor_pos(raw_x/x/y)=?/?/? actor_busy@+7C=?"
    ));
}
