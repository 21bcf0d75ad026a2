use hunt_bot::action::screen_target::PlayerPosition;
use hunt_bot::action::walk::walk_toward_entity_pixel;
use hunt_bot::client::input_sim::{gameplay_drag_start_point_from_offset, gameplay_player_anchor};
use hunt_bot::decide::pathfind::{
    MapWalkable, Walkable, default_can_step, is_reachable, path_steps, plan, plan_to_any,
};
use hunt_bot::hunt4::backend::position_memory_update;
use hunt_bot::hunt4::explore::build_explore_suggestion_with_profile;
use hunt_bot::hunt4::memory::{MemoryUpdate, TacticalMemory};
use hunt_bot::hunt4::observe::record_transition;
use hunt_bot::hunt4::overlay::ObstacleOverlay;
use hunt_bot::hunt4::step::{StateLabel, Transition, TransitionCause};
use hunt_bot::minimap::{NavGrid, NavMap, NavProfile};
use hunt_bot::time::Instant;

fn start() -> Instant {
    Instant::from_nanos(1_000_000_000_000_000)
}

/// A grid without closed steps on which only walls hide anything.
fn plain_grid(tiles: Vec<(i32, i32)>) -> NavGrid {
    NavGrid { tiles, opaque: Vec::new(), see_through: Vec::new(), closed_edges: Vec::new() }
}

/// A field without end on which one tile is walled in.
struct Field {
    shut: (i32, i32),
}

impl Walkable for Field {
    fn walkable(&self, tile: (i32, i32)) -> bool {
        self.is_walkable(tile.0, tile.1)
    }

    fn sight_blocked(&self, tile: (i32, i32)) -> bool {
        self.blocks_sight(tile.0, tile.1)
    }

    fn steppable(&self, from: (i32, i32), to: (i32, i32)) -> bool {
        self.can_step(from, to)
    }

    fn penalty(&self, from: (i32, i32), to: (i32, i32)) -> u32 {
        self.movement_penalty(from, to)
    }

    fn is_walkable(&self, tile_x: i32, tile_y: i32) -> bool {
        let dx = (tile_x - self.shut.0).abs();
        let dy = (tile_y - self.shut.1).abs();
        dx.max(dy) != 1
    }

    fn blocks_sight(&self, tile_x: i32, tile_y: i32) -> bool {
        !self.is_walkable(tile_x, tile_y)
    }

    fn can_step(&self, from: (i32, i32), to: (i32, i32)) -> bool {
        default_can_step(self, from, to)
    }

    fn movement_penalty(&self, _from: (i32, i32), _to: (i32, i32)) -> u32 {
        0
    }
}

#[test]
fn a_near_goal_is_found_on_an_endless_field() {
    let field = Field { shut: (-40, -40) };
    let path = plan((0, 0), (15, 0), &field).expect("fifteen steps are no distance");
    assert_eq!(path.len(), 15);
    assert_eq!(path.last(), Some(&(15, 0)));
    assert_eq!(path_steps((0, 0), (10, -7), &field), Some(10));
}

#[test]
fn the_search_for_a_walled_in_goal_ends() {
    let field = Field { shut: (6, 0) };
    assert_eq!(plan((0, 0), (6, 0), &field), None);
    assert_eq!(path_steps((0, 0), (6, 0), &field), None);
}

#[test]
fn goals_of_one_score_are_searched_for_together() {
    let tiles: Vec<(i32, i32)> = (-3..=3).map(|x| (x, 0)).collect();
    let map = NavMap {
        map_id: 7,
        nav: plain_grid(tiles.clone()),
        profile: NavProfile { components: vec![tiles] },
    };
    let mut memory = TacticalMemory::default();
    memory.apply(
        MemoryUpdate {
            record_visited_tile: Some((7, (-1, 0), start())),
            ..Default::default()
        },
        start(),
    );
    let suggestion = build_explore_suggestion_with_profile(
        (0, 0),
        Some(7),
        Some(&MapWalkable { map: &map }),
        Some(&map.profile),
        &memory,
        start(),
    )
    .expect("both ends of the corridor can be reached");
    assert_eq!(suggestion.goal, (3, 0), "the way west leads over a tile that was visited");
    assert_eq!(suggestion.path, vec![(1, 0), (2, 0), (3, 0)]);
}

#[test]
fn goals_of_one_score_are_searched_for_row_by_row() {
    let mut tiles = Vec::new();
    for y in (-20..=20).rev() {
        for x in -20..=20 {
            tiles.push((x, y));
        }
    }
    let field = Field { shut: (-400, -400) };
    let suggestion = build_explore_suggestion_with_profile(
        (0, 0),
        Some(7),
        Some(&field),
        Some(&NavProfile { components: vec![tiles] }),
        &TacticalMemory::default(),
        start(),
    )
    .expect("the field is open");
    assert_eq!(suggestion.goal, (0, -20), "the first batch lies to the north");
    assert_eq!(suggestion.path.len(), 20);
}

#[test]
fn the_anchor_of_an_odd_window_is_rounded_towards_zero() {
    assert_eq!(gameplay_player_anchor(801, 601), (400, 240));
    assert_eq!(gameplay_player_anchor(-801, -601), (-400, -240));
}

#[test]
fn a_drag_starts_where_its_end_is_still_inside() {
    let drag = gameplay_drag_start_point_from_offset;
    assert_eq!(drag(800, 600, 0, 0, 0, 0), Some((400, 300)));
    assert_eq!(drag(800, 600, 10_000, 10_000, 120, 300), Some((479, 197)));
    assert_eq!(drag(800, 600, -10_000, -10_000, -120, -300), Some((128, 332)));
    assert_eq!(drag(0, 600, 0, 0, 0, 0), None);
}

#[test]
fn a_walk_to_an_entity_is_dragged_along_the_screen() {
    let player = PlayerPosition { x: 100, y: 200 };
    assert_eq!(walk_toward_entity_pixel(player, 102, 201).ok(), Some((96, -16)));
    assert!(walk_toward_entity_pixel(player, 100, 200).is_err());
}

#[test]
fn a_change_of_states_is_logged_by_name() {
    let transition = Transition {
        from: StateLabel::EngagingApproach,
        to: StateLabel::RecoveringWalkStuck,
        cause: TransitionCause::WalkStuck,
    };
    assert_eq!(
        record_transition(&transition),
        "[bot/hunt4/state] EngagingApproach -> RecoveringWalkStuck cause=WalkStuck"
    );
}

#[test]
fn a_position_off_the_map_is_remembered_without_a_visit() {
    let mut memory = TacticalMemory::default();
    let update = position_memory_update(&memory, (4, 5), start());
    assert_eq!(update.push_position, Some(((4, 5), start())));
    assert_eq!(update.set_last_position_change, Some(start()));
    assert_eq!(update.record_visited_tile, None);
    memory.apply(update, start());
    let again = position_memory_update(&memory, (4, 5), start());
    assert_eq!(again.set_last_position_change, None);
}

#[test]
fn a_way_goes_round_a_corner() {
    let corner = plain_grid(vec![(0, 0), (0, 1), (1, 1)]);
    assert_eq!(plan((0, 0), (1, 1), &corner), Some(vec![(0, 1), (1, 1)]));
    let gap = plain_grid(vec![(0, 0), (1, 1)]);
    assert_eq!(plan((0, 0), (1, 1), &gap), None);
}

#[test]
fn closed_steps_and_opaque_tiles_count() {
    let square = plain_grid((0..3).flat_map(|x| (0..2).map(move |y| (x, y))).collect());
    assert_eq!(plan((0, 0), (1, 0), &square), Some(vec![(1, 0)]));
    assert!(!square.blocks_sight(1, 0));
    assert!(square.blocks_sight(1, 5));
    let walled = NavGrid {
        opaque: vec![(1, 0)],
        see_through: vec![(1, 5)],
        closed_edges: vec![((0, 0), (1, 0)), ((0, 0), (1, 1)), ((0, 1), (1, 0))],
        ..square
    };
    assert!(!walled.can_step((0, 0), (1, 0)));
    assert!(walled.can_step((1, 0), (0, 0)), "the step back is another one");
    assert_eq!(
        plan((0, 0), (1, 0), &walled),
        Some(vec![(0, 1), (1, 1), (1, 0)]),
        "the way goes round the closed steps"
    );
    assert!(walled.blocks_sight(1, 0), "one can stand there and not see across");
    assert!(!walled.blocks_sight(1, 5), "one can see across and not stand there");
    assert!(walled.is_walkable(1, 0) && !walled.is_walkable(1, 5));
    let map = NavMap {
        map_id: 7,
        nav: walled,
        profile: NavProfile { components: Vec::new() },
    };
    let grid = MapWalkable { map: &map };
    assert!(!grid.can_step((0, 0), (1, 0)));
    assert!(grid.blocks_sight(1, 0) && !grid.blocks_sight(1, 5));
}

#[test]
fn ways_lead_up_to_the_last_coordinate() {
    let edge = i32::MAX;
    let strip = plain_grid((edge - 4..=edge).map(|x| (x, i32::MIN)).collect());
    let way = plan((edge - 4, i32::MIN), (edge, i32::MIN), &strip);
    assert_eq!(way.map(|path| path.len()), Some(4));
    assert_eq!(plan((edge, i32::MIN), (edge, i32::MIN + 1), &strip), None);
    let suggestion = build_explore_suggestion_with_profile(
        (edge - 4, i32::MIN),
        None,
        Some(&strip),
        None,
        &TacticalMemory::default(),
        start(),
    )
    .expect("the strip can be explored");
    assert_eq!(suggestion.goal, (edge - 1, i32::MIN), "the first ring that can be reached");
}

#[test]
fn reachability_is_decided_among_a_thousand_tiles() {
    let corridor: Vec<(i32, i32)> = (0..1000).map(|x| (x, 0)).collect();
    let grid = plain_grid(corridor);
    assert!(is_reachable((0, 0), (999, 0), &grid));
    assert_eq!(path_steps((0, 0), (999, 0), &grid), Some(999));
    assert!(!is_reachable((0, 0), (1000, 0), &grid));
    let apart = plain_grid((0..1000).filter(|x| *x != 500).map(|x| (x, 0)).collect());
    assert!(!is_reachable((0, 0), (999, 0), &apart));
    assert_eq!(path_steps((0, 0), (999, 0), &apart), None);
}

#[test]
fn steps_are_those_of_the_plan() {
    let grid = plain_grid((0..6).flat_map(|x| (0..6).map(move |y| (x, y))).collect());
    for goal in [(0, 0), (5, 5), (3, 1), (0, 5), (6, 6)] {
        let path = plan((0, 0), goal, &grid);
        let steps = path_steps((0, 0), goal, &grid);
        assert_eq!(steps, path.as_ref().map(|p| p.len() as u32));
        assert_eq!(is_reachable((0, 0), goal, &grid), path.is_some());
        assert_eq!(steps == Some(0), goal == (0, 0));
        if let Some(n) = steps {
            assert!(n as i32 >= goal.0.max(goal.1));
        }
    }
}

#[test]
fn the_order_of_goals_makes_no_difference() {
    let grid = plain_grid((-6..7).flat_map(|x| (-6..7).map(move |y| (x, y))).collect());
    let goals = [(5, 0), (0, 5), (-5, 0), (9, 9), (0, -5)];
    let turned = [(0, -5), (9, 9), (0, 5), (5, 0), (-5, 0), (5, 0)];
    let path = plan_to_any((0, 0), &goals, &grid);
    assert_eq!(path.as_ref().map(|p| p.len()), Some(5));
    assert_eq!(plan_to_any((0, 0), &turned, &grid), path);
}

#[test]
fn the_order_of_obstacles_makes_no_difference() {
    let grid = plain_grid((0..9).flat_map(|x| (0..9).map(move |y| (x, y))).collect());
    let memory = TacticalMemory::default();
    let listed = vec![(4, 3), (4, 4), (4, 5)];
    let turned = vec![(4, 5), (4, 3), (4, 4), (4, 3)];
    let overlay = |occupied_tiles| ObstacleOverlay {
        inner: &grid,
        memory: &memory,
        occupied_tiles,
        now: start(),
        start: (1, 4),
        explore_map_id: None,
        previous_position: None,
    };
    let path = plan((1, 4), (7, 4), &overlay(&listed)).expect("there is a way round");
    assert!(path.iter().all(|tile| !listed.contains(tile)));
    assert_eq!(plan((1, 4), (7, 4), &overlay(&turned)), Some(path));
}
