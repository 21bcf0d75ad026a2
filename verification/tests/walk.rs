use hunt_bot::action::screen_target::PlayerPosition;
use hunt_bot::action::walk::{
    WalkDriver, chebyshev_distance, heading_from_delta, manhattan_distance,
};

#[test]
fn manhattan_zero_at_same_point() {
    let pos = PlayerPosition { x: 33071, y: 33408 };
    assert_eq!(manhattan_distance(pos, 33071, 33408), 0);
}

#[test]
fn manhattan_basic() {
    let pos = PlayerPosition { x: 100, y: 100 };
    assert_eq!(manhattan_distance(pos, 105, 100), 5);
    assert_eq!(manhattan_distance(pos, 100, 110), 10);
    assert_eq!(manhattan_distance(pos, 95, 95), 10);
}

#[test]
fn chebyshev_diagonal_step_counts_one() {
    let pos = PlayerPosition { x: 100, y: 100 };
    assert_eq!(chebyshev_distance(pos, 110, 110), 10);
    assert_eq!(chebyshev_distance(pos, 105, 100), 5);
    assert_eq!(chebyshev_distance(pos, 100, 100), 0);
}

#[test]
fn heading_all_8_directions() {
    assert_eq!(heading_from_delta(0, -1), Some(0)); // N
    assert_eq!(heading_from_delta(5, -3), Some(1));
    assert_eq!(heading_from_delta(7, 0), Some(2)); // E
    assert_eq!(heading_from_delta(3, 8), Some(3)); // SE
    assert_eq!(heading_from_delta(0, 4), Some(4)); // S
    assert_eq!(heading_from_delta(-2, 9), Some(5)); // SW
    assert_eq!(heading_from_delta(-6, 0), Some(6)); // W
    assert_eq!(heading_from_delta(-1, -1), Some(7)); // NW
}

#[test]
fn heading_zero_zero_returns_none() {
    assert_eq!(heading_from_delta(0, 0), None);
}

#[test]
fn heading_quantizes_by_sign_not_magnitude() {
    assert_eq!(heading_from_delta(100, -100), Some(1));
    assert_eq!(heading_from_delta(1, -1), Some(1));
}

#[test]
fn walk_driver_default_is_postmessage() {
    assert_eq!(WalkDriver::default(), WalkDriver::PostMessage);
}

#[test]
fn retired_walk_driver_strings_load_as_postmessage_aliases() {
    for value in [
        "client_click",
        "memory_click",
        "internal_walk",
        "remote_internal_walk",
        "move_packet",
    ] {
        let parsed: WalkDriver = WalkDriver::from_name(value).expect("legacy alias loads");
        assert_eq!(parsed, WalkDriver::PostMessage);
    }
}

#[test]
fn cartesian_projection_8_directions_pixel_offsets() {
    const PX: i32 = 32;
    let cases: &[((i32, i32), (i32, i32))] = &[
        ((0, -1), (0, -PX)),
        ((1, -1), (PX, -PX)),
        ((1, 0), (PX, 0)),
        ((1, 1), (PX, PX)),
        ((0, 1), (0, PX)),
        ((-1, 1), (-PX, PX)),
        ((-1, 0), (-PX, 0)),
        ((-1, -1), (-PX, -PX)),
    ];
    for &((dx, dy), (expected_dx, expected_dy)) in cases {
        let actual_dx = dx * PX;
        let actual_dy = dy * PX;
        assert_eq!(
            (actual_dx, actual_dy),
            (expected_dx, expected_dy),
            "cartesian projection wrong for tile ({dx}, {dy})"
        );
    }
}

#[test]
fn cartesian_projection_scales_linearly_with_distance() {
    const PX: i32 = 32;
    assert_eq!((5 * PX, -5 * PX), (160, -160));
    assert_eq!((10 * PX, 0 * PX), (320, 0));
    assert_eq!((-3 * PX, 3 * PX), (-96, 96));
}
