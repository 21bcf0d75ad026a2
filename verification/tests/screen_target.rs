use hunt_bot::action::screen_target::{
    ClientPoint, PlayerPosition, tile_click_diagnostic, tile_click_offset, walk_drag_offset,
};

#[test]
fn diagnostic_uses_player_anchor_not_client_center() {
    let player = PlayerPosition { x: 1000, y: 1000 };

    let diag = tile_click_diagnostic(800, 600, player, 1001, 1000).expect("diagnostic");

    assert_eq!(diag.dx_tile, 1);
    assert_eq!(diag.dy_tile, 0);
    assert_eq!(diag.dx_px, 32);
    assert_eq!(diag.dy_px, -16);
    assert_eq!(diag.legacy_center, ClientPoint { x: 432, y: 284 });
    assert_eq!(diag.player_anchor, ClientPoint { x: 432, y: 224 });
}

#[test]
fn diagnostic_tracks_actual_client_size() {
    let player = PlayerPosition { x: 1000, y: 1000 };

    let diag = tile_click_diagnostic(1904, 1041, player, 999, 999).expect("diagnostic");

    assert_eq!(diag.dx_px, -64);
    assert_eq!(diag.dy_px, 0);
    assert_eq!(diag.legacy_center, ClientPoint { x: 888, y: 520 });
    assert_eq!(diag.player_anchor, ClientPoint { x: 888, y: 416 });
}

#[test]
fn far_target_is_clamped_inside_gameplay_area() {
    let player = PlayerPosition { x: 1000, y: 1000 };

    let diag = tile_click_diagnostic(800, 600, player, 1100, 1100).expect("diagnostic");

    assert_eq!(diag.player_anchor, ClientPoint { x: 599, y: 240 });
}

#[test]
fn lineage_iso_projection_maps_diagonal_world_to_horizontal_screen() {
    let player = PlayerPosition { x: 1000, y: 1000 };

    assert_eq!(tile_click_offset(player, 1001, 1001), (64, 0));
    assert_eq!(tile_click_offset(player, 999, 999), (-64, 0));
    assert_eq!(tile_click_offset(player, 1001, 999), (0, -32));
    assert_eq!(tile_click_offset(player, 999, 1001), (0, 32));
}

#[test]
fn walk_drag_offset_keeps_adjacent_waypoint_exact_for_path_following() {
    let player = PlayerPosition { x: 1000, y: 1000 };

    assert_eq!(walk_drag_offset(player, 1001, 1000), (32, -16));
    assert_eq!(walk_drag_offset(player, 1000, 1001), (32, 16));
    assert_eq!(walk_drag_offset(player, 999, 1000), (-32, 16));
    assert_eq!(walk_drag_offset(player, 1000, 999), (-32, -16));
}
