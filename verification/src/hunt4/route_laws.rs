//! Which way is kept to, told by its tiles.
use crate::action::walk_laws::{law_distance, steps_within};
use crate::hunt4::memory::TacticalMemory;
use crate::hunt4::route::{
    attack_route, candidate_with_id, explore_route, first_at, last_near, plan_route, remaining_path,
    steady_path,
};
use crate::hunt4::step::{ExploreSuggestion, TargetCandidate};
use crate::hunt4::targeting::TargetSelectionFrame;
use crate::time::Instant;
use vstd::prelude::*;

verus! {

/// The player stands on the `k`-th tile of a path, and on none before.
pub open spec fn stands_on(player: (i32, i32), path: Seq<(i32, i32)>, k: int) -> bool {
    0 <= k < path.len() && path[k] == player && forall|j: int|
        0 <= j < k ==> #[trigger] path[j] != player
}

/// The player stands on no tile of a path.
pub open spec fn stands_off(player: (i32, i32), path: Seq<(i32, i32)>) -> bool {
    forall|j: int| 0 <= j < path.len() ==> #[trigger] path[j] != player
}

/// The `k`-th tile of a path is the last that is one step from the player.
pub open spec fn last_beside(player: (i32, i32), path: Seq<(i32, i32)>, k: int) -> bool {
    0 <= k < path.len() && steps_within(path[k], player, 1) && forall|j: int|
        k < j < path.len() ==> !steps_within(#[trigger] path[j], player, 1)
}

/// No tile of a path is one step from the player.
pub open spec fn none_beside(player: (i32, i32), path: Seq<(i32, i32)>) -> bool {
    forall|j: int| 0 <= j < path.len() ==> !steps_within(#[trigger] path[j], player, 1)
}

proof fn lemma_first_at(path: Seq<(i32, i32)>, tile: (i32, i32), from: int, k: int)
    requires
        0 <= from <= k <= path.len(),
        forall|j: int| from <= j < k ==> #[trigger] path[j] != tile,
        k < path.len() ==> path[k] == tile,
    ensures
        first_at(path, tile, from) == k,
    decreases k - from,
{
    if from < k {
        assert(path[from] != tile);
        lemma_first_at(path, tile, from + 1, k);
    }
}

proof fn lemma_last_near(path: Seq<(i32, i32)>, tile: (i32, i32), upto: int, k: int)
    requires
        -1 <= k < upto <= path.len() || (k == -1 && upto == 0),
        forall|j: int| k < j < upto ==> !steps_within(#[trigger] path[j], tile, 1),
        k >= 0 ==> steps_within(path[k], tile, 1),
    ensures
        last_near(path, tile, upto) == k,
    decreases upto,
{
    if upto > 0 {
        law_distance(tile, path[upto - 1], 1);
        if k < upto - 1 {
            assert(!steps_within(path[upto - 1], tile, 1));
            lemma_last_near(path, tile, upto - 1, k);
        }
    }
}

/// What is left of a path: what comes after the player's tile; or, beside the path,
/// what begins with the last tile next to the player; or else all of it.
pub proof fn law_what_is_left(player: (i32, i32), path: Seq<(i32, i32)>, k: int)
    ensures
        remaining_path(None, path) == path,
        stands_on(player, path, k) ==> remaining_path(Some(player), path) == path.skip(k + 1),
        stands_off(player, path) && last_beside(player, path, k) ==> remaining_path(
            Some(player),
            path,
        ) == path.skip(k),
        stands_off(player, path) && none_beside(player, path) ==> remaining_path(
            Some(player),
            path,
        ) == path,
{
    if stands_on(player, path, k) {
        lemma_first_at(path, player, 0, k);
    }
    if stands_off(player, path) {
        lemma_first_at(path, player, 0, path.len() as int);
        if last_beside(player, path, k) {
            lemma_last_near(path, player, path.len() as int, k);
        }
        if none_beside(player, path) {
            lemma_last_near(path, player, path.len() as int, -1);
        }
    }
}

/// The current way is kept to as long as it leads on: from the player's tile, or
/// from one next to it. A new way is taken where there is none yet, where the old
/// one is used up, where its next tile is blocked, and where it is out of touch.
pub proof fn law_steady_way(
    player: (i32, i32),
    memory: TacticalMemory,
    now: Instant,
    current: Seq<(i32, i32)>,
    fresh: Seq<(i32, i32)>,
    k: int,
)
    ensures
        steady_path(Some(player), memory, now, None, fresh) == fresh,
        current.len() == 0 ==> steady_path(Some(player), memory, now, Some(current), fresh) == fresh,
        current.len() > 0 ==> steady_path(None, memory, now, Some(current), fresh) == current,
        stands_on(player, current, k) && k + 1 < current.len() ==> steady_path(
            Some(player),
            memory,
            now,
            Some(current),
            fresh,
        ) == (if memory.obstacle_at(current[k + 1], now) {
            fresh
        } else {
            current.skip(k + 1)
        }),
        stands_on(player, current, k) && k + 1 == current.len() ==> steady_path(
            Some(player),
            memory,
            now,
            Some(current),
            fresh,
        ) == fresh,
        stands_off(player, current) && last_beside(player, current, k) ==> steady_path(
            Some(player),
            memory,
            now,
            Some(current),
            fresh,
        ) == (if memory.obstacle_at(current[k], now) {
            fresh
        } else {
            current.skip(k)
        }),
        stands_off(player, current) && none_beside(player, current) && current.len() > 0
            ==> steady_path(Some(player), memory, now, Some(current), fresh) == fresh,
{
    law_what_is_left(player, current, k);
    if current.len() > 0 {
        law_distance(player, current[0], 1);
    }
    if stands_on(player, current, k) {
        lemma_first_at(current, player, 0, k);
    }
    if stands_off(player, current) {
        lemma_first_at(current, player, 0, current.len() as int);
    }
    assert(current.skip(0) =~= current);
    if stands_off(player, current) && none_beside(player, current) && current.len() > 0 {
        assert(!steps_within(current[0], player, 1));
    }
}

/// A route to a target tells whether it is in range, can be reached, or neither,
/// and where to attack from at its end. One to unexplored ground leads to its goal.
pub proof fn law_routes(c: TargetCandidate, e: ExploreSuggestion)
    ensures
        ({
            let r = attack_route(c);
            let walks = !c.in_attack_range && c.reachable_path is Some
                && c.reachable_path->0@.len() > 0;
            &&& r.kind is Attack && r.target_id == Some(c.target_id) && r.target_tile == Some(c.tile)
            &&& r.status is AlreadyInRange <==> c.in_attack_range
            &&& r.status is Reachable <==> !c.in_attack_range && c.reachable_path is Some
            &&& r.status is Unreachable <==> !c.in_attack_range && c.reachable_path is None
            &&& c.reachable_path is Some ==> r.path == c.reachable_path->0@
            &&& c.reachable_path is None ==> r.path.len() == 0
            &&& r.next_tile is Some <==> r.path.len() > 0
            &&& r.path.len() > 0 ==> r.next_tile == Some(r.path[0])
            &&& r.goal == r.attack_tile
            &&& r.attack_tile is Some <==> walks
            &&& walks ==> r.attack_tile == Some(r.path[r.path.len() - 1])
        }),
        ({
            let r = explore_route(e);
            &&& r.kind is Explore && r.target_id is None && r.target_tile is None
            &&& r.attack_tile is None && r.goal == Some(e.goal)
            &&& r.path == e.path@ && r.status is Reachable
            &&& r.next_tile is Some <==> e.path@.len() > 0
            &&& e.path@.len() > 0 ==> r.next_tile == Some(e.path@[0])
        }),
{
}

proof fn lemma_with_id(s: Seq<TargetCandidate>, id: u32, from: int, k: int)
    requires
        0 <= from <= k <= s.len(),
        forall|j: int| from <= j < k ==> (#[trigger] s[j]).target_id != id,
        k < s.len() ==> s[k].target_id == id,
    ensures
        k < s.len() ==> candidate_with_id(s, id, from) == Some(s[k]),
        k == s.len() ==> candidate_with_id(s, id, from) is None,
    decreases k - from,
{
    if from < k {
        assert(s[from].target_id != id);
        lemma_with_id(s, id, from + 1, k);
    }
}

/// The way of a plan leads to the selected target where it is a candidate; else to
/// unexplored ground; and else there is none.
pub proof fn law_route_of_plan(
    selection: TargetSelectionFrame,
    s: Seq<TargetCandidate>,
    explore: Option<&ExploreSuggestion>,
    k: int,
)
    ensures
        ({
            let r = plan_route(selection, s, explore);
            let id = selection.selected->0.target_id;
            let found = selection.selected is Some && 0 <= k < s.len() && s[k].target_id == id && (
            forall|j: int| 0 <= j < k ==> (#[trigger] s[j]).target_id != id);
            let missing = selection.selected is None || (forall|j: int|
                0 <= j < s.len() ==> (#[trigger] s[j]).target_id != id);
            &&& found ==> r == Some(attack_route(s[k]))
            &&& missing && explore is Some ==> r == Some(explore_route(*explore->0))
            &&& missing && explore is None ==> r is None
        }),
{
    if selection.selected is Some {
        let id = selection.selected->0.target_id;
        if 0 <= k < s.len() && s[k].target_id == id && (forall|j: int|
            0 <= j < k ==> (#[trigger] s[j]).target_id != id) {
            lemma_with_id(s, id, 0, k);
        }
        if forall|j: int| 0 <= j < s.len() ==> (#[trigger] s[j]).target_id != id {
            lemma_with_id(s, id, 0, s.len() as int);
        }
    }
}

} // verus!
