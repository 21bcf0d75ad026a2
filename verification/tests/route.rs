use hunt_bot::hunt4::route::{
    RouteKind, RouteStatus, consume_reached_path, first_unreached_path_tile, route_for_candidate,
};
use hunt_bot::hunt4::step::TargetCandidate;

fn candidate(
    target_id: u32,
    in_attack_range: bool,
    reachable_path: Option<Vec<(i32, i32)>>,
) -> TargetCandidate {
    TargetCandidate {
        target_id,
        entity_ptr: target_id + 0x1000,
        name: format!("mob_{target_id:X}"),
        tile: (104, 100),
        distance: 4,
        in_attack_range,
        reachable_path,
        is_attacker: false,
    }
}

#[test]
fn route_for_candidate_records_reachable_attack_route() {
    let route = route_for_candidate(&candidate(
        0x0100_0010,
        false,
        Some(vec![(101, 100), (102, 100)]),
    ));

    assert_eq!(route.kind, RouteKind::Attack);
    assert_eq!(route.status, RouteStatus::Reachable);
    assert_eq!(route.target_id, Some(0x0100_0010));
    assert_eq!(route.target_tile, Some((104, 100)));
    assert_eq!(route.attack_tile, Some((102, 100)));
    assert_eq!(route.next_tile, Some((101, 100)));
}

#[test]
fn consume_reached_path_skips_tiles_already_reached_by_player() {
    let path = vec![(101, 100), (102, 100), (103, 100)];

    assert_eq!(
        consume_reached_path(Some((102, 100)), &path),
        vec![(103, 100)]
    );
    assert_eq!(
        first_unreached_path_tile(Some((102, 100)), &path),
        Some((103, 100))
    );
}
