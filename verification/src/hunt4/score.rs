//! Summaries of the ranked targets.
use crate::hunt4::route::{first_tile, head_tile};
use crate::hunt4::step::TargetCandidate;
use crate::text::{decimal, push_decimal};
use vstd::prelude::*;

verus! {

/// What is known of a ranked target.
#[derive(Debug, PartialEq, Eq)]
pub struct TargetScoreSummary {
    /// Position in the ranking, from 1.
    pub rank: usize,
    pub target_id: u32,
    pub entity_ptr: u32,
    pub name: String,
    pub tile: (i32, i32),
    pub distance: u32,
    pub in_attack_range: bool,
    pub reachable: bool,
    pub is_attacker: bool,
    pub approach_steps: Option<usize>,
    pub approach_next_tile: Option<(i32, i32)>,
    pub reason: String,
}

impl Clone for TargetScoreSummary {
    fn clone(&self) -> (r: Self)
        ensures
            r == *self,
    {
        TargetScoreSummary {
            rank: self.rank,
            target_id: self.target_id,
            entity_ptr: self.entity_ptr,
            name: self.name.clone(),
            tile: self.tile,
            distance: self.distance,
            in_attack_range: self.in_attack_range,
            reachable: self.reachable,
            is_attacker: self.is_attacker,
            approach_steps: self.approach_steps,
            approach_next_tile: self.approach_next_tile,
            reason: self.reason.clone(),
        }
    }
}

/// The words on a candidate.
pub open spec fn score_reason(c: TargetCandidate) -> Seq<char> {
    (if c.reachable_path is Some {
        "reachable"@
    } else {
        "unreachable"@
    }) + (if c.is_attacker {
        " attacker"@
    } else {
        seq![]
    }) + (if c.in_attack_range {
        " in_range"@
    } else {
        seq![]
    }) + (match c.reachable_path {
        Some(path) => " approach_steps="@ + decimal(path@.len()),
        None => seq![],
    }) + " distance="@ + decimal(c.distance as nat)
}

/// `s` says of a candidate what is true of it.
pub open spec fn is_summary(s: TargetScoreSummary, c: TargetCandidate, rank: int) -> bool {
    &&& s.rank == rank
    &&& s.target_id == c.target_id
    &&& s.entity_ptr == c.entity_ptr
    &&& s.name == c.name
    &&& s.tile == c.tile
    &&& s.distance == c.distance
    &&& s.in_attack_range == c.in_attack_range
    &&& s.reachable == (c.reachable_path is Some)
    &&& s.is_attacker == c.is_attacker
    &&& match c.reachable_path {
        Some(path) => s.approach_steps == Some(path@.len() as usize) && s.approach_next_tile
            == first_tile(path@),
        None => s.approach_steps is None && s.approach_next_tile is None,
    }
    &&& s.reason@ == score_reason(c)
}

/// One summary for each candidate, in their order.
pub open spec fn are_summaries(s: Seq<TargetScoreSummary>, c: Seq<TargetCandidate>) -> bool {
    s.len() == c.len() && forall|i: int|
        0 <= i < c.len() ==> is_summary(#[trigger] s[i], c[i], i + 1)
}

fn reason_for(c: &TargetCandidate) -> (r: String)
    ensures
        r@ == score_reason(*c),
{
    let mut out = String::new();
    if c.reachable_path.is_some() {
        out.append("reachable");
    } else {
        out.append("unreachable");
    }
    if c.is_attacker {
        out.append(" attacker");
    }
    if c.in_attack_range {
        out.append(" in_range");
    }
    if let Some(path) = &c.reachable_path {
        out.append(" approach_steps=");
        push_decimal(&mut out, path.len() as u64);
    }
    out.append(" distance=");
    push_decimal(&mut out, c.distance as u64);
    assert(out@ =~= score_reason(*c));
    out
}

fn summary_from_candidate(c: &TargetCandidate, rank: usize) -> (r: TargetScoreSummary)
    ensures
        is_summary(r, *c, rank as int),
{
    let approach_steps: Option<usize> = match &c.reachable_path {
        Some(path) => Some(path.len()),
        None => None,
    };
    let approach_next_tile: Option<(i32, i32)> = match &c.reachable_path {
        Some(path) => head_tile(path.as_slice()),
        None => None,
    };
    TargetScoreSummary {
        rank,
        target_id: c.target_id,
        entity_ptr: c.entity_ptr,
        name: c.name.clone(),
        tile: c.tile,
        distance: c.distance,
        in_attack_range: c.in_attack_range,
        reachable: c.reachable_path.is_some(),
        is_attacker: c.is_attacker,
        approach_steps,
        approach_next_tile,
        reason: reason_for(c),
    }
}

/// Summaries of candidates that are in order, ranked by it.
pub fn summarize_ranked_candidates(candidates: &[TargetCandidate]) -> (r: Vec<TargetScoreSummary>)
    ensures
        are_summaries(r@, candidates@),
{
    let mut out: Vec<TargetScoreSummary> = Vec::new();
    let mut i: usize = 0;
    while i < candidates.len()
        invariant
            i <= candidates@.len(),
            out@.len() == i,
            forall|j: int| 0 <= j < i ==> is_summary(#[trigger] out@[j], candidates@[j], j + 1),
        decreases candidates@.len() - i,
    {
        out.push(summary_from_candidate(&candidates[i], i + 1));
        i = i + 1;
    }
    out
}

} // verus!
