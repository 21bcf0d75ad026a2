//! Routes to targets and to unexplored ground, and following them.
use crate::action::walk::{chebyshev_spec, tile_distance};
use crate::decide::pathfind::copy_tiles;
use crate::hunt4::memory::TacticalMemory;
use crate::hunt4::step::{ExploreSuggestion, TargetCandidate};
use crate::hunt4::targeting::TargetSelectionFrame;
use crate::text::{hex_fixed, push_hex_fixed, push_signed, signed_decimal};
use crate::time::Instant;
use vstd::prelude::*;

verus! {

#[derive(Debug, Clone, Copy, PartialEq, Eq, Structural)]
pub enum RouteKind {
    Attack,
    Explore,
}

#[derive(Debug, Clone, Copy, PartialEq, Eq, Structural)]
pub enum RouteStatus {
    AlreadyInRange,
    Reachable,
    Unreachable,
}

/// A route and what it is for.
#[derive(Debug, PartialEq, Eq)]
pub struct RoutePlan {
    pub kind: RouteKind,
    pub target_id: Option<u32>,
    pub target_tile: Option<(i32, i32)>,
    pub attack_tile: Option<(i32, i32)>,
    pub goal: Option<(i32, i32)>,
    pub path: Vec<(i32, i32)>,
    pub next_tile: Option<(i32, i32)>,
    pub status: RouteStatus,
    pub reason: String,
}

impl Clone for RoutePlan {
    fn clone(&self) -> (r: Self)
        ensures
            r@ == self@,
    {
        RoutePlan {
            kind: self.kind,
            target_id: self.target_id,
            target_tile: self.target_tile,
            attack_tile: self.attack_tile,
            goal: self.goal,
            path: copy_tiles(self.path.as_slice()),
            next_tile: self.next_tile,
            status: self.status,
            reason: self.reason.clone(),
        }
    }
}

/// A route as a value.
#[verifier::ext_equal]
pub struct RouteView {
    pub kind: RouteKind,
    pub target_id: Option<u32>,
    pub target_tile: Option<(i32, i32)>,
    pub attack_tile: Option<(i32, i32)>,
    pub goal: Option<(i32, i32)>,
    pub path: Seq<(i32, i32)>,
    pub next_tile: Option<(i32, i32)>,
    pub status: RouteStatus,
    pub reason: Seq<char>,
}

impl View for RoutePlan {
    type V = RouteView;

    open spec fn view(&self) -> RouteView {
        RouteView {
            kind: self.kind,
            target_id: self.target_id,
            target_tile: self.target_tile,
            attack_tile: self.attack_tile,
            goal: self.goal,
            path: self.path@,
            next_tile: self.next_tile,
            status: self.status,
            reason: self.reason@,
        }
    }
}

/// The first tile of a path.
pub open spec fn first_tile(path: Seq<(i32, i32)>) -> Option<(i32, i32)> {
    if path.len() > 0 {
        Some(path[0])
    } else {
        None
    }
}

pub fn head_tile(path: &[(i32, i32)]) -> (r: Option<(i32, i32)>)
    ensures
        r == first_tile(path@),
{
    if path.len() > 0 {
        Some(path[0])
    } else {
        None
    }
}

pub open spec fn last_tile(path: Seq<(i32, i32)>) -> Option<(i32, i32)> {
    if path.len() > 0 {
        Some(path.last())
    } else {
        None
    }
}

/// The route to a candidate: the way to it where there is one, ending at the
/// tile to attack from unless that has been reached.
pub open spec fn attack_route(c: TargetCandidate) -> RouteView {
    let path = match c.reachable_path {
        Some(p) => p@,
        None => seq![],
    };
    let status = if c.in_attack_range {
        RouteStatus::AlreadyInRange
    } else if c.reachable_path is Some {
        RouteStatus::Reachable
    } else {
        RouteStatus::Unreachable
    };
    let attack_tile = if status is Reachable {
        last_tile(path)
    } else {
        None
    };
    RouteView {
        kind: RouteKind::Attack,
        target_id: Some(c.target_id),
        target_tile: Some(c.tile),
        attack_tile,
        goal: attack_tile,
        path,
        next_tile: first_tile(path),
        status,
        reason: (match status {
            RouteStatus::AlreadyInRange => "attack_already_in_range target="@,
            RouteStatus::Reachable => "attack_reachable target="@,
            RouteStatus::Unreachable => "attack_unreachable target="@,
        }) + hex_fixed(c.target_id as nat, 8),
    }
}

/// The route of an exploration.
pub open spec fn explore_route(e: ExploreSuggestion) -> RouteView {
    RouteView {
        kind: RouteKind::Explore,
        target_id: None,
        target_tile: None,
        attack_tile: None,
        goal: Some(e.goal),
        path: e.path@,
        next_tile: first_tile(e.path@),
        status: RouteStatus::Reachable,
        reason: "explore_reachable goal=("@ + signed_decimal(e.goal.0 as int) + ", "@
            + signed_decimal(e.goal.1 as int) + ")"@,
    }
}

pub fn route_for_candidate(candidate: &TargetCandidate) -> (r: RoutePlan)
    ensures
        r@ == attack_route(*candidate),
{
    let path: Vec<(i32, i32)> = match &candidate.reachable_path {
        Some(p) => copy_tiles(p.as_slice()),
        None => Vec::new(),
    };
    let next_tile: Option<(i32, i32)> = head_tile(path.as_slice());
    let status: RouteStatus = if candidate.in_attack_range {
        RouteStatus::AlreadyInRange
    } else if candidate.reachable_path.is_some() {
        RouteStatus::Reachable
    } else {
        RouteStatus::Unreachable
    };
    let attack_tile: Option<(i32, i32)> = match status {
        RouteStatus::Reachable => if path.len() > 0 {
            Some(path[path.len() - 1])
        } else {
            None
        },
        _ => None,
    };
    let mut reason = String::new();
    match status {
        RouteStatus::AlreadyInRange => reason.append("attack_already_in_range target="),
        RouteStatus::Reachable => reason.append("attack_reachable target="),
        RouteStatus::Unreachable => reason.append("attack_unreachable target="),
    }
    push_hex_fixed(&mut reason, candidate.target_id, 8);
    let r = RoutePlan {
        kind: RouteKind::Attack,
        target_id: Some(candidate.target_id),
        target_tile: Some(candidate.tile),
        attack_tile,
        goal: attack_tile,
        path,
        next_tile,
        status,
        reason,
    };
    assert(r@ =~= attack_route(*candidate));
    r
}

pub fn route_for_explore(explore: &ExploreSuggestion) -> (r: RoutePlan)
    ensures
        r@ == explore_route(*explore),
{
    let mut reason = String::new();
    reason.append("explore_reachable goal=(");
    push_signed(&mut reason, explore.goal.0);
    reason.append(", ");
    push_signed(&mut reason, explore.goal.1);
    reason.append(")");
    let r = RoutePlan {
        kind: RouteKind::Explore,
        target_id: None,
        target_tile: None,
        attack_tile: None,
        goal: Some(explore.goal),
        path: copy_tiles(explore.path.as_slice()),
        next_tile: head_tile(explore.path.as_slice()),
        status: RouteStatus::Reachable,
        reason,
    };
    assert(r@ =~= explore_route(*explore));
    r
}

/// The first candidate with an id, from a position on.
pub open spec fn candidate_with_id(s: Seq<TargetCandidate>, id: u32, from: int) -> Option<
    TargetCandidate,
>
    decreases s.len() - from,
{
    if from < 0 || from >= s.len() {
        None
    } else if s[from].target_id == id {
        Some(s[from])
    } else {
        candidate_with_id(s, id, from + 1)
    }
}

pub fn find_candidate<'a>(candidates: &'a [TargetCandidate], id: u32) -> (r: Option<
    &'a TargetCandidate,
>)
    ensures
        match r {
            Some(c) => candidate_with_id(candidates@, id, 0) == Some(*c),
            None => candidate_with_id(candidates@, id, 0) is None,
        },
{
    let mut i: usize = 0;
    while i < candidates.len()
        invariant
            i <= candidates@.len(),
            candidate_with_id(candidates@, id, 0) == candidate_with_id(candidates@, id, i as int),
        decreases candidates@.len() - i,
    {
        if candidates[i].target_id == id {
            return Some(&candidates[i]);
        }
        i = i + 1;
    }
    None
}

/// The route to the selected target, if it is among the candidates.
pub open spec fn selection_route(
    selection: TargetSelectionFrame,
    candidates: Seq<TargetCandidate>,
) -> Option<RouteView> {
    match selection.selected {
        Some(t) => match candidate_with_id(candidates, t.target_id, 0) {
            Some(c) => Some(attack_route(c)),
            None => None,
        },
        None => None,
    }
}

/// The route of a plan: to the selected target, else to unexplored ground.
pub open spec fn plan_route(
    selection: TargetSelectionFrame,
    candidates: Seq<TargetCandidate>,
    explore: Option<&ExploreSuggestion>,
) -> Option<RouteView> {
    match selection_route(selection, candidates) {
        Some(route) => Some(route),
        None => match explore {
            Some(e) => Some(explore_route(*e)),
            None => None,
        },
    }
}

pub open spec fn opt_route(r: Option<RoutePlan>) -> Option<RouteView> {
    match r {
        Some(route) => Some(route@),
        None => None,
    }
}

pub fn route_for_selection(selection: &TargetSelectionFrame, candidates: &[TargetCandidate]) -> (r:
    Option<RoutePlan>)
    ensures
        opt_route(r) == selection_route(*selection, candidates@),
{
    match &selection.selected {
        Some(selected) => match find_candidate(candidates, selected.target_id) {
            Some(candidate) => Some(route_for_candidate(candidate)),
            None => None,
        },
        None => None,
    }
}

pub fn route_for_plan(
    selection: &TargetSelectionFrame,
    candidates: &[TargetCandidate],
    explore: Option<&ExploreSuggestion>,
) -> (r: Option<RoutePlan>)
    ensures
        opt_route(r) == plan_route(*selection, candidates@, explore),
{
    match route_for_selection(selection, candidates) {
        Some(route) => Some(route),
        None => match explore {
            Some(e) => Some(route_for_explore(e)),
            None => None,
        },
    }
}

/// The first position of a tile in a path, or the path's length.
pub open spec fn first_at(path: Seq<(i32, i32)>, tile: (i32, i32), from: int) -> int
    decreases path.len() - from,
{
    if from < 0 || from >= path.len() {
        path.len() as int
    } else if path[from] == tile {
        from
    } else {
        first_at(path, tile, from + 1)
    }
}

/// The last position before `upto` of a tile next to, or at, another; -1 for
/// none.
pub open spec fn last_near(path: Seq<(i32, i32)>, tile: (i32, i32), upto: int) -> int
    decreases upto,
{
    if upto <= 0 || upto > path.len() {
        -1
    } else if chebyshev_spec(tile, path[upto - 1]) <= 1 {
        upto - 1
    } else {
        last_near(path, tile, upto - 1)
    }
}

/// What is left of a path: what follows the player's tile where the path crosses
/// it, else the path from the last tile next to the player on, else all of it.
pub open spec fn remaining_path(player_pos: Option<(i32, i32)>, path: Seq<(i32, i32)>) -> Seq<
    (i32, i32),
> {
    match player_pos {
        None => path,
        Some(player) => {
            let at = first_at(path, player, 0);
            let near = last_near(path, player, path.len() as int);
            if at < path.len() {
                path.subrange(at + 1, path.len() as int)
            } else if near >= 0 {
                path.subrange(near, path.len() as int)
            } else {
                path
            }
        },
    }
}

fn copy_from(path: &[(i32, i32)], from: usize) -> (r: Vec<(i32, i32)>)
    requires
        from <= path@.len(),
    ensures
        r@ == path@.subrange(from as int, path@.len() as int),
{
    let mut out: Vec<(i32, i32)> = Vec::new();
    let mut i: usize = from;
    while i < path.len()
        invariant
            from <= i <= path@.len(),
            out@ == path@.subrange(from as int, i as int),
        decreases path@.len() - i,
    {
        out.push(path[i]);
        assert(out@ =~= path@.subrange(from as int, i + 1));
        i = i + 1;
    }
    out
}

fn position_in(path: &[(i32, i32)], tile: (i32, i32)) -> (r: usize)
    ensures
        r == first_at(path@, tile, 0),
        r <= path@.len(),
{
    let mut i: usize = 0;
    while i < path.len()
        invariant
            i <= path@.len(),
            first_at(path@, tile, 0) == first_at(path@, tile, i as int),
        decreases path@.len() - i,
    {
        if path[i].0 == tile.0 && path[i].1 == tile.1 {
            return i;
        }
        i = i + 1;
    }
    path.len()
}

pub fn consume_reached_path(player_pos: Option<(i32, i32)>, path: &[(i32, i32)]) -> (r: Vec<
    (i32, i32),
>)
    ensures
        r@ == remaining_path(player_pos, path@),
{
    let player: (i32, i32) = match player_pos {
        Some(p) => p,
        None => {
            return copy_tiles(path);
        },
    };
    let at: usize = position_in(path, player);
    if at < path.len() {
        return copy_from(path, at + 1);
    }
    let mut upto: usize = path.len();
    while upto > 0
        invariant
            upto <= path@.len(),
            player_pos == Some(player),
            first_at(path@, player, 0) >= path@.len(),
            last_near(path@, player, path@.len() as int) == last_near(path@, player, upto as int),
        decreases upto,
    {
        if tile_distance(player, path[upto - 1]) <= 1 {
            return copy_from(path, upto - 1);
        }
        upto = upto - 1;
    }
    copy_tiles(path)
}

pub fn first_unreached_path_tile(player_pos: Option<(i32, i32)>, path: &[(i32, i32)]) -> (r: Option<
    (i32, i32),
>)
    ensures
        r == first_tile(remaining_path(player_pos, path@)),
{
    let rest: Vec<(i32, i32)> = consume_reached_path(player_pos, path);
    head_tile(rest.as_slice())
}

/// What is left of a path is an end of it.
pub proof fn law_remaining_is_suffix(player_pos: Option<(i32, i32)>, path: Seq<(i32, i32)>)
    ensures
        remaining_path(player_pos, path).len() <= path.len(),
        remaining_path(player_pos, path) == path.subrange(
            path.len() - remaining_path(player_pos, path).len(),
            path.len() as int,
        ),
{
    assert(path.subrange(0, path.len() as int) =~= path);
    if let Some(player) = player_pos {
        lemma_first_at(path, player, 0);
        lemma_last_near(path, player, path.len() as int);
    }
}

/// A player on the path's last tile has walked all of it.
pub proof fn law_path_end_reached(player: (i32, i32), path: Seq<(i32, i32)>)
    requires
        path.len() > 0,
        path.last() == player,
        forall|i: int| 0 <= i < path.len() - 1 ==> path[i] != player,
    ensures
        remaining_path(Some(player), path).len() == 0,
{
    lemma_first_at(path, player, 0);
}

proof fn lemma_first_at(path: Seq<(i32, i32)>, tile: (i32, i32), from: int)
    requires
        0 <= from <= path.len(),
    ensures
        from <= first_at(path, tile, from) <= path.len(),
        first_at(path, tile, from) < path.len() ==> path[first_at(path, tile, from)] == tile,
        forall|i: int| from <= i < first_at(path, tile, from) ==> path[i] != tile,
    decreases path.len() - from,
{
    if from < path.len() && path[from] != tile {
        lemma_first_at(path, tile, from + 1);
    }
}

proof fn lemma_last_near(path: Seq<(i32, i32)>, tile: (i32, i32), upto: int)
    requires
        0 <= upto <= path.len(),
    ensures
        -1 <= last_near(path, tile, upto) < upto || (upto == 0 && last_near(path, tile, upto) == -1),
    decreases upto,
{
    if upto > 0 && chebyshev_spec(tile, path[upto - 1]) > 1 {
        lemma_last_near(path, tile, upto - 1);
    }
}

/// The path to keep to. The current one is kept while it leads on from the
/// player and its next tile is not blocked; otherwise the fresh one is taken.
pub open spec fn steady_path(
    player_pos: Option<(i32, i32)>,
    memory: TacticalMemory,
    now: Instant,
    current: Option<Seq<(i32, i32)>>,
    fresh: Seq<(i32, i32)>,
) -> Seq<(i32, i32)> {
    match current {
        None => fresh,
        Some(path) => if path.len() == 0 {
            fresh
        } else {
            match player_pos {
                None => path,
                Some(player) => {
                    let rest = remaining_path(player_pos, path);
                    if rest.len() > 0 && memory.obstacle_at(rest[0], now) {
                        fresh
                    } else if rest.len() < path.len() {
                        if rest.len() > 0 {
                            rest
                        } else {
                            fresh
                        }
                    } else if first_at(path, player, 0) >= path.len() {
                        if chebyshev_spec(player, path[0]) <= 1 {
                            path
                        } else {
                            fresh
                        }
                    } else if rest.len() > 0 {
                        rest
                    } else {
                        fresh
                    }
                },
            }
        },
    }
}

pub fn stable_approach_path(
    player_pos: Option<(i32, i32)>,
    memory: &TacticalMemory,
    now: Instant,
    current_path: Option<&[(i32, i32)]>,
    fresh_path: Vec<(i32, i32)>,
) -> (r: Vec<(i32, i32)>)
    ensures
        r@ == steady_path(
            player_pos,
            *memory,
            now,
            match current_path {
                Some(p) => Some(p@),
                None => None,
            },
            fresh_path@,
        ),
{
    let current: &[(i32, i32)] = match current_path {
        Some(p) => p,
        None => {
            return fresh_path;
        },
    };
    if current.len() == 0 {
        return fresh_path;
    }
    let player: (i32, i32) = match player_pos {
        Some(p) => p,
        None => {
            return copy_tiles(current);
        },
    };
    let rest: Vec<(i32, i32)> = consume_reached_path(player_pos, current);
    if rest.len() > 0 {
        if memory.is_obstacle(rest[0], now) {
            return fresh_path;
        }
    }
    if rest.len() < current.len() {
        if rest.len() > 0 {
            return rest;
        }
        return fresh_path;
    }
    if position_in(current, player) >= current.len() {
        if tile_distance(player, current[0]) <= 1 {
            return copy_tiles(current);
        }
        return fresh_path;
    }
    if rest.len() > 0 {
        return rest;
    }
    fresh_path
}

} // verus!
