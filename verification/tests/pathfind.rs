use hunt_bot::action::walk::tile_distance;
use hunt_bot::decide::pathfind::{
    BotPath, Walkable, clear_bot_path, default_can_step, plan, plan_to_any, read_bot_path,
    set_bot_path, step_cost,
};

struct GridArr {
    cells: Vec<Vec<bool>>,
}
impl Walkable for GridArr {
    fn is_walkable(&self, x: i32, y: i32) -> bool {
        if y < 0 || x < 0 {
            return false;
        }
        let y = y as usize;
        let x = x as usize;
        self.cells
            .get(y)
            .and_then(|r| r.get(x))
            .copied()
            .unwrap_or(false)
    }

    fn blocks_sight(&self, x: i32, y: i32) -> bool {
        !self.is_walkable(x, y)
    }

    fn can_step(&self, from: (i32, i32), to: (i32, i32)) -> bool {
        default_can_step(self, from, to)
    }

    fn movement_penalty(&self, _from: (i32, i32), _to: (i32, i32)) -> u32 {
        0
    }

    fn walkable(&self, tile: (i32, i32)) -> bool {
        self.is_walkable(tile.0, tile.1)
    }

    fn sight_blocked(&self, tile: (i32, i32)) -> bool {
        self.blocks_sight(tile.0, tile.1)
    }

    fn steppable(&self, from: (i32, i32), to: (i32, i32)) -> bool {
        self.can_step(from, to)
    }

    fn penalty(&self, from: (i32, i32), to: (i32, i32)) -> u32 {
        self.movement_penalty(from, to)
    }
}
fn open_grid(rows: usize, cols: usize) -> GridArr {
    GridArr {
        cells: vec![vec![true; cols]; rows],
    }
}

#[test]
fn chebyshev_basics() {
    assert_eq!(tile_distance((0, 0), (0, 0)), 0);
    assert_eq!(tile_distance((0, 0), (3, 0)), 3);
    assert_eq!(tile_distance((0, 0), (0, 5)), 5);
    assert_eq!(tile_distance((0, 0), (3, 5)), 5);
    assert_eq!(tile_distance((0, 0), (7, 3)), 7);
}

#[test]
fn step_cost_orthogonal_vs_diagonal() {
    assert_eq!(step_cost(1, 0), 10);
    assert_eq!(step_cost(0, -1), 10);
    assert_eq!(step_cost(1, 1), 14);
    assert_eq!(step_cost(-1, 1), 14);
}

#[test]
fn plan_same_start_goal_returns_empty_path() {
    let g = open_grid(5, 5);
    let p = plan((2, 2), (2, 2), &g).unwrap();
    assert!(p.is_empty(), "no step is needed at the goal, got {p:?}");
}

#[test]
fn plan_straight_east() {
    let g = open_grid(5, 5);
    let p = plan((0, 0), (3, 0), &g).unwrap();
    assert_eq!(p, vec![(1, 0), (2, 0), (3, 0)]);
}

#[test]
fn plan_straight_south() {
    let g = open_grid(5, 5);
    let p = plan((0, 0), (0, 3), &g).unwrap();
    assert_eq!(p, vec![(0, 1), (0, 2), (0, 3)]);
}

#[test]
fn plan_diagonal_uses_three_diag_steps() {
    let g = open_grid(5, 5);
    let p = plan((0, 0), (3, 3), &g).unwrap();
    assert_eq!(p.len(), 3, "three diagonal steps, got {p:?}");
    assert_eq!(p.last(), Some(&(3, 3)));
    for w in p.windows(2) {
        let (dx, dy) = (w[1].0 - w[0].0, w[1].1 - w[0].1);
        assert!(
            dx.abs() == 1 && dy.abs() == 1,
            "every step should be diagonal, got {dx},{dy}"
        );
    }
}

#[test]
fn plan_returns_none_when_goal_is_wall() {
    let mut g = open_grid(3, 3);
    g.cells[1][1] = false;
    assert!(plan((0, 0), (1, 1), &g).is_none());
}

#[test]
fn plan_routes_around_wall() {
    let mut g = open_grid(3, 3);
    g.cells[1][1] = false;
    let p = plan((0, 0), (2, 2), &g).unwrap();
    assert_eq!(p.last(), Some(&(2, 2)));
    assert!(!p.contains(&(1, 1)), "the path must not cross the wall at (1,1)");
}

#[test]
fn plan_corner_squeeze_blocked() {
    let mut g = open_grid(5, 5);
    g.cells[0][1] = false; // (1, 0) wall
    g.cells[1][0] = false; // (0, 1) wall
    let p = plan((0, 0), (1, 1), &g);
    assert!(p.is_none(), "no squeezing between two walls");
}

#[test]
fn plan_single_corner_block_still_allows_diagonal() {
    let mut g = open_grid(3, 3);
    g.cells[0][1] = false; // (1, 0) wall
    let p = plan((0, 0), (1, 1), &g).unwrap();
    assert_eq!(p.last(), Some(&(1, 1)));
    assert!(p.len() >= 2, "the detour takes two steps, got {p:?}");
    assert!(!p.contains(&(1, 0)), "the path must not cross the wall");
}

#[test]
fn plan_unreachable_isolated_start_returns_none() {
    let mut g = open_grid(3, 3);
    g.cells[0][1] = false; // (1,0)
    g.cells[1][0] = false; // (0,1)
    g.cells[1][1] = false;
    assert!(plan((0, 0), (2, 2), &g).is_none());
}

#[test]
fn plan_path_only_contains_walkable_tiles() {
    let mut g = open_grid(8, 8);
    for &(x, y) in &[(2, 1), (3, 1), (4, 1), (5, 1), (5, 2), (5, 3)] {
        g.cells[y][x] = false;
    }
    let p = plan((0, 0), (7, 7), &g).unwrap();
    for &t in &p {
        assert!(g.is_walkable(t.0, t.1), "the path has a blocked tile {:?}", t);
    }
    assert_eq!(p.last(), Some(&(7, 7)));
}

#[test]
fn plan_to_any_reaches_attack_tile_when_monster_tile_is_blocked() {
    let mut g = open_grid(5, 5);
    g.cells[2][2] = false;
    let goals = vec![(2, 2), (2, 1), (1, 2), (3, 2), (2, 3)];

    let p = plan_to_any((0, 2), &goals, &g).expect("a tile next to the monster can be reached");

    assert_ne!(p.last(), Some(&(2, 2)), "the blocked tile is no goal");
    assert!(
        matches!(
            p.last(),
            Some(&(1, 2)) | Some(&(2, 1)) | Some(&(2, 3)) | Some(&(3, 2))
        ),
        "the goal is a free tile next to it, got {p:?}"
    );
}

#[test]
fn bot_path_global_round_trip() {
    let mut slot = BotPath { tiles: Vec::new() };
    clear_bot_path(&mut slot);
    assert!(read_bot_path(&slot).is_empty());
    let p = vec![(1, 1), (2, 2), (3, 3)];
    set_bot_path(&mut slot, p.clone());
    assert_eq!(read_bot_path(&slot), p);
    clear_bot_path(&mut slot);
    assert!(read_bot_path(&slot).is_empty());
}
