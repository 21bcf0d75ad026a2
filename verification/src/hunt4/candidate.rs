//! The candidates of a tick and the target selected from them.
use crate::decide::pathfind::Walkable;
use crate::hunt4::memory::TacticalMemory;
use crate::hunt4::model::{EntityView, Snapshot};
use crate::hunt4::planner;
use crate::hunt4::planner::are_candidates;
use crate::hunt4::step::{same_candidate, TargetCandidate};
use crate::hunt4::targeting;
use crate::hunt4::targeting::{
    first_selectable, rejected_views, rejections, selection_reason, TargetSelectionFrame,
};
use crate::time::Instant;
use std::collections::HashSet;
use vstd::prelude::*;

verus! {

broadcast use vstd::std_specs::hash::group_hash_axioms;

/// The candidates of a tick and the target selected from them.
#[derive(Debug, PartialEq, Eq)]
pub struct CandidateFrame {
    pub now: Instant,
    pub player_tile: (i32, i32),
    pub attack_range: u32,
    pub recent_attacker_count: usize,
    pub candidates: Vec<TargetCandidate>,
    pub target_selection: TargetSelectionFrame,
}

/// Two frames say the same.
pub open spec fn same_frame(a: CandidateFrame, b: CandidateFrame) -> bool {
    &&& b == (CandidateFrame {
        candidates: b.candidates,
        target_selection: b.target_selection,
        ..a
    })
    &&& b.candidates@.len() == a.candidates@.len()
    &&& forall|i: int|
        0 <= i < a.candidates@.len() ==> same_candidate(a.candidates@[i], #[trigger] b.candidates@[i])
    &&& b.target_selection.selected == a.target_selection.selected
    &&& b.target_selection.rejected@ == a.target_selection.rejected@
}

impl Clone for CandidateFrame {
    fn clone(&self) -> (r: Self)
        ensures
            same_frame(*self, r),
    {
        CandidateFrame {
            now: self.now,
            player_tile: self.player_tile,
            attack_range: self.attack_range,
            recent_attacker_count: self.recent_attacker_count,
            candidates: self.candidates.clone(),
            target_selection: self.target_selection.clone(),
        }
    }
}

pub struct CandidateFrameInput<'a, G: Walkable> {
    pub snapshot: &'a Snapshot,
    pub player_tile: (i32, i32),
    pub attack_range: u32,
    pub grid: Option<&'a G>,
    pub memory: &'a TacticalMemory,
    pub recent_attackers: &'a HashSet<u32>,
    pub now: Instant,
}

/// The selection is the first candidate that can be gone for, and the hidden
/// monsters are rejected.
pub open spec fn is_selection(
    t: TargetSelectionFrame,
    candidates: Seq<TargetCandidate>,
    entities: Seq<EntityView>,
) -> bool {
    &&& match first_selectable(candidates, 0) {
        Some(c) => t.selected matches Some(s) && s.target_id == c.target_id && s.reason@
            == selection_reason(c),
        None => t.selected is None,
    }
    &&& rejected_views(t.rejected@) == rejections(entities)
}

/// What `build_candidate_frame` returns.
pub open spec fn is_candidate_frame<G: Walkable>(
    f: CandidateFrame,
    snapshot: Snapshot,
    player: (i32, i32),
    attack_range: u32,
    grid: Option<&G>,
    memory: TacticalMemory,
    attackers: Set<u32>,
    now: Instant,
) -> bool {
    &&& f.now == now
    &&& f.player_tile == player
    &&& f.attack_range == attack_range
    &&& f.recent_attacker_count == attackers.len()
    &&& are_candidates(
        f.candidates@,
        snapshot,
        player,
        attack_range,
        grid,
        memory,
        attackers,
        now,
    )
    &&& is_selection(f.target_selection, f.candidates@, snapshot.entities@)
}

pub fn build_candidate_frame<G: Walkable>(input: CandidateFrameInput<'_, G>) -> (r: CandidateFrame)
    ensures
        is_candidate_frame(
            r,
            *input.snapshot,
            input.player_tile,
            input.attack_range,
            input.grid,
            *input.memory,
            input.recent_attackers@,
            input.now,
        ),
{
    let candidates = planner::build_candidates(
        input.snapshot,
        input.player_tile,
        input.attack_range,
        input.grid,
        input.memory,
        input.recent_attackers,
        input.now,
    );
    let target_selection = targeting::select_target(candidates.as_slice(), input.snapshot);
    CandidateFrame {
        now: input.now,
        player_tile: input.player_tile,
        attack_range: input.attack_range,
        recent_attacker_count: input.recent_attackers.len(),
        candidates,
        target_selection,
    }
}

} // verus!
