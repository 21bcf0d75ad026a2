use hunt_bot::client::input_sim::{
    fkey_vk, gameplay_click_point_from_offset, gameplay_click_point_from_player_anchor_offset,
    gameplay_drag_start_point_from_player_anchor_offset, gameplay_input_area,
    gameplay_input_dimensions, gameplay_player_anchor, heading_pixel_offset,
};

#[test]
fn fkey_vk_range() {
    assert_eq!(fkey_vk(1), Some(0x70));
    assert_eq!(fkey_vk(12), Some(0x7B));
    assert_eq!(fkey_vk(0), None);
    assert_eq!(fkey_vk(13), None);
}

#[test]
fn walk_hold_rejects_out_of_range_heading() {
    assert!(heading_pixel_offset(8).is_none());
    assert!(heading_pixel_offset(255).is_none());
}

#[test]
fn bot_click_points_are_clamped_to_gameplay_area_not_full_client() {
    let area = gameplay_input_area(800, 600).expect("800x600 should have safe gameplay area");

    assert_eq!(area.clamp_point(400 + 10_000, 300), (599, 300));
    assert_eq!(area.clamp_point(400, 300 + 10_000), (400, 497));
    assert_eq!(area.clamp_point(400 - 10_000, 300 - 10_000), (8, 32));
}

#[test]
fn bot_click_offsets_stay_relative_to_full_client_center() {
    assert_eq!(
        gameplay_click_point_from_offset(800, 600, 100, 0),
        Some((500, 300))
    );
    assert_eq!(
        gameplay_click_point_from_offset(800, 600, -100, 0),
        Some((300, 300))
    );
}

#[test]
fn bot_click_offsets_follow_actual_client_size() {
    assert_eq!(
        gameplay_input_dimensions(1904, 1041),
        (1904, 1041),
        "bot input should follow the actual client size instead of forcing 800x600"
    );
    assert_eq!(
        gameplay_click_point_from_offset(1904, 1041, 10_000, 10_000),
        Some((1427, 863)),
        "bot input must stay inside the actual gameplay area"
    );
}

#[test]
fn bot_drag_start_keeps_release_inside_gameplay_area() {
    let area = gameplay_input_area(800, 600).expect("800x600 should have safe gameplay area");

    assert_eq!(
        area.clamp_drag_start(790, 590, 120, 300),
        (479, 197),
        "drag start must be pulled back so release is still inside gameplay area"
    );
}

#[test]
fn player_anchor_tracks_actual_client_size() {
    assert_eq!(gameplay_player_anchor(800, 600), (400, 240));
    assert_eq!(gameplay_player_anchor(1904, 1041), (952, 416));
    assert_eq!(
        gameplay_click_point_from_player_anchor_offset(800, 600, 0, -32),
        Some((400, 208))
    );
}

#[test]
fn player_anchor_drag_start_keeps_release_inside_gameplay_area() {
    assert_eq!(
        gameplay_drag_start_point_from_player_anchor_offset(800, 600, 10_000, 10_000, 120, 300),
        Some((479, 197))
    );
}
