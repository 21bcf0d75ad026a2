//! What the plan alone would do, and how that compares with what is done.
use crate::hunt4::actions::{DispatchIntent, IntentView};
use crate::hunt4::overlay::same_tile;
use crate::hunt4::plan::PlanFrame;
use vstd::prelude::*;

verus! {

/// What the plan alone would do.
#[derive(Debug, PartialEq, Eq)]
pub enum ShadowDecision {
    Wait,
    Attack { target_id: u32 },
    Approach { target_id: u32, next_tile: Option<(i32, i32)> },
    Explore { goal: (i32, i32), next_tile: Option<(i32, i32)> },
    UseTeleportScroll { reason: String },
}

/// A decision as a value.
pub enum DecisionView {
    Wait,
    Attack { target_id: u32 },
    Approach { target_id: u32, next_tile: Option<(i32, i32)> },
    Explore { goal: (i32, i32), next_tile: Option<(i32, i32)> },
    UseTeleportScroll { reason: Seq<char> },
}

impl View for ShadowDecision {
    type V = DecisionView;

    open spec fn view(&self) -> DecisionView {
        match *self {
            ShadowDecision::Wait => DecisionView::Wait,
            ShadowDecision::Attack { target_id } => DecisionView::Attack { target_id },
            ShadowDecision::Approach { target_id, next_tile } => DecisionView::Approach {
                target_id,
                next_tile,
            },
            ShadowDecision::Explore { goal, next_tile } => DecisionView::Explore {
                goal,
                next_tile,
            },
            ShadowDecision::UseTeleportScroll { reason } => DecisionView::UseTeleportScroll {
                reason: reason@,
            },
        }
    }
}

impl Clone for ShadowDecision {
    fn clone(&self) -> (r: Self)
        ensures
            r == *self,
    {
        match self {
            ShadowDecision::Wait => ShadowDecision::Wait,
            ShadowDecision::Attack { target_id } => ShadowDecision::Attack {
                target_id: *target_id,
            },
            ShadowDecision::Approach { target_id, next_tile } => ShadowDecision::Approach {
                target_id: *target_id,
                next_tile: *next_tile,
            },
            ShadowDecision::Explore { goal, next_tile } => ShadowDecision::Explore {
                goal: *goal,
                next_tile: *next_tile,
            },
            ShadowDecision::UseTeleportScroll { reason } => ShadowDecision::UseTeleportScroll {
                reason: reason.clone(),
            },
        }
    }
}

/// What is done, in short.
#[derive(Debug, Clone, Copy, PartialEq, Eq)]
pub enum BackendIntentSummary {
    Wait,
    Attack { target_id: u32 },
    Walk { tile: (i32, i32) },
    UseScroll,
    AttackLookupFailed { target_id: u32 },
}

/// How the two compare.
#[derive(Debug, PartialEq, Eq)]
pub struct PolicyComparison {
    pub shadow: ShadowDecision,
    pub backend: BackendIntentSummary,
    pub aligned: bool,
    pub reason: &'static str,
}

impl Clone for PolicyComparison {
    fn clone(&self) -> (r: Self)
        ensures
            r == *self,
    {
        PolicyComparison {
            shadow: self.shadow.clone(),
            backend: self.backend,
            aligned: self.aligned,
            reason: self.reason,
        }
    }
}

/// How often the two agreed.
#[derive(Debug, PartialEq, Eq)]
pub struct PolicyTelemetry {
    pub total: u64,
    pub aligned: u64,
    pub mismatched: u64,
    /// Agreements since the last disagreement.
    pub aligned_streak: u64,
    pub last_mismatch: Option<PolicyComparison>,
}

impl Clone for PolicyTelemetry {
    fn clone(&self) -> (r: Self)
        ensures
            r == *self,
    {
        let last_mismatch: Option<PolicyComparison> = match &self.last_mismatch {
            Some(c) => Some(c.clone()),
            None => None,
        };
        PolicyTelemetry {
            total: self.total,
            aligned: self.aligned,
            mismatched: self.mismatched,
            aligned_streak: self.aligned_streak,
            last_mismatch,
        }
    }
}

impl Default for PolicyTelemetry {
    fn default() -> (r: Self)
        ensures
            r == no_telemetry(),
    {
        PolicyTelemetry {
            total: 0,
            aligned: 0,
            mismatched: 0,
            aligned_streak: 0,
            last_mismatch: None,
        }
    }
}

/// Nothing has been compared.
pub open spec fn no_telemetry() -> PolicyTelemetry {
    PolicyTelemetry { total: 0, aligned: 0, mismatched: 0, aligned_streak: 0, last_mismatch: None }
}

/// One more, as far as it can be counted.
pub open spec fn one_more(n: u64) -> u64 {
    if n < u64::MAX {
        (n + 1) as u64
    } else {
        n
    }
}

fn counted(n: u64) -> (r: u64)
    ensures
        r == one_more(n),
{
    if n < u64::MAX {
        n + 1
    } else {
        n
    }
}

/// The telemetry with one more comparison.
pub open spec fn recorded(t: PolicyTelemetry, c: PolicyComparison) -> PolicyTelemetry {
    if c.aligned {
        PolicyTelemetry {
            total: one_more(t.total),
            aligned: one_more(t.aligned),
            mismatched: t.mismatched,
            aligned_streak: one_more(t.aligned_streak),
            last_mismatch: t.last_mismatch,
        }
    } else {
        PolicyTelemetry {
            total: one_more(t.total),
            aligned: t.aligned,
            mismatched: one_more(t.mismatched),
            aligned_streak: 0,
            last_mismatch: Some(c),
        }
    }
}

impl PolicyTelemetry {
    pub fn record(&mut self, comparison: PolicyComparison)
        ensures
            *final(self) == recorded(*old(self), comparison),
    {
        self.total = counted(self.total);
        if comparison.aligned {
            self.aligned = counted(self.aligned);
            self.aligned_streak = counted(self.aligned_streak);
        } else {
            self.mismatched = counted(self.mismatched);
            self.aligned_streak = 0;
            self.last_mismatch = Some(comparison);
        }
    }
}

/// The counts stay consistent: every comparison is an agreement or not, and no
/// streak is longer than all agreements together.
pub proof fn law_telemetry_adds_up(t: PolicyTelemetry, c: PolicyComparison)
    requires
        t.total < u64::MAX,
        t.aligned + t.mismatched == t.total,
        t.aligned_streak <= t.aligned,
    ensures
        recorded(t, c).aligned + recorded(t, c).mismatched == recorded(t, c).total,
        recorded(t, c).total == t.total + 1,
        recorded(t, c).aligned_streak <= recorded(t, c).aligned,
        recorded(t, c).aligned_streak == 0 <==> !c.aligned,
{
}

/// The next tile towards a target: that of the selected route where it leads
/// there.
pub open spec fn approach_tile(
    plan: PlanFrame,
    target_id: u32,
    fallback: Option<(i32, i32)>,
) -> Option<(i32, i32)> {
    if plan.selected_route_target_id == Some(target_id) && plan.selected_route_next_tile is Some {
        plan.selected_route_next_tile
    } else {
        fallback
    }
}

/// What the plan alone would do: attack or approach the best target, else
/// explore, else teleport.
pub open spec fn decided(plan: PlanFrame) -> DecisionView {
    let top = plan.ranked_targets@[0];
    if !plan.in_game || plan.invariant_violations@.len() > 0 {
        DecisionView::Wait
    } else if plan.ranked_targets@.len() > 0 && top.reachable && top.in_attack_range {
        DecisionView::Attack { target_id: top.target_id }
    } else if plan.ranked_targets@.len() > 0 && top.reachable {
        DecisionView::Approach {
            target_id: top.target_id,
            next_tile: approach_tile(plan, top.target_id, top.approach_next_tile),
        }
    } else if plan.explore_goal is Some {
        DecisionView::Explore { goal: plan.explore_goal->0, next_tile: plan.explore_next_tile }
    } else if plan.teleport_should_use {
        DecisionView::UseTeleportScroll {
            reason: match plan.teleport_reason {
                Some(reason) => reason@,
                None => "teleport"@,
            },
        }
    } else {
        DecisionView::Wait
    }
}

pub fn decide(plan: &PlanFrame) -> (r: ShadowDecision)
    ensures
        r@ == decided(*plan),
{
    if !plan.in_game {
        return ShadowDecision::Wait;
    }
    if plan.invariant_violations.len() > 0 {
        return ShadowDecision::Wait;
    }
    if let Some(target) = plan.top_target() {
        if target.reachable && target.in_attack_range {
            return ShadowDecision::Attack { target_id: target.target_id };
        }
        if target.reachable {
            return ShadowDecision::Approach {
                target_id: target.target_id,
                next_tile: approach_next_tile(plan, target.target_id, target.approach_next_tile),
            };
        }
    }
    if let Some(goal) = plan.explore_goal {
        return ShadowDecision::Explore { goal, next_tile: plan.explore_next_tile };
    }
    if plan.teleport_should_use {
        let reason: String = match &plan.teleport_reason {
            Some(reason) => reason.clone(),
            None => "teleport".to_owned(),
        };
        return ShadowDecision::UseTeleportScroll { reason };
    }
    ShadowDecision::Wait
}

fn approach_next_tile(plan: &PlanFrame, target_id: u32, fallback: Option<(i32, i32)>) -> (r: Option<
    (i32, i32),
>)
    ensures
        r == approach_tile(*plan, target_id, fallback),
{
    let leads_there: bool = match plan.selected_route_target_id {
        Some(id) => id == target_id,
        None => false,
    };
    if leads_there && plan.selected_route_next_tile.is_some() {
        return plan.selected_route_next_tile;
    }
    fallback
}

/// An intent in short.
pub open spec fn summary_of(intent: IntentView) -> BackendIntentSummary {
    match intent {
        IntentView::Noop => BackendIntentSummary::Wait,
        IntentView::Walk { target_x, target_y } => BackendIntentSummary::Walk {
            tile: (target_x, target_y),
        },
        IntentView::BootstrapAttack { target_id, .. } => BackendIntentSummary::Attack { target_id },
        IntentView::CastSkill { target_id, .. } => BackendIntentSummary::Attack { target_id },
        IntentView::UseScroll { .. } => BackendIntentSummary::UseScroll,
        IntentView::AttackLookupFailed { target_id } => BackendIntentSummary::AttackLookupFailed {
            target_id,
        },
    }
}

fn summarize_backend(intent: &DispatchIntent) -> (r: BackendIntentSummary)
    ensures
        r == summary_of(intent@),
{
    match intent {
        DispatchIntent::Noop => BackendIntentSummary::Wait,
        DispatchIntent::Walk { target_x, target_y } => BackendIntentSummary::Walk {
            tile: (*target_x, *target_y),
        },
        DispatchIntent::BootstrapAttack { target_id, .. } => BackendIntentSummary::Attack {
            target_id: *target_id,
        },
        DispatchIntent::CastSkill { target_id, .. } => BackendIntentSummary::Attack {
            target_id: *target_id,
        },
        DispatchIntent::UseScroll { .. } => BackendIntentSummary::UseScroll,
        DispatchIntent::AttackLookupFailed { target_id } => BackendIntentSummary::AttackLookupFailed {
            target_id: *target_id,
        },
    }
}

/// The two do the same thing.
pub open spec fn is_aligned(shadow: DecisionView, backend: BackendIntentSummary) -> bool {
    match (shadow, backend) {
        (DecisionView::Wait, BackendIntentSummary::Wait) => true,
        (
            DecisionView::Attack { target_id: a },
            BackendIntentSummary::Attack { target_id: b },
        ) => a == b,
        (DecisionView::Approach { next_tile, .. }, BackendIntentSummary::Walk { tile }) => next_tile
            == Some(tile),
        (DecisionView::Explore { next_tile, .. }, BackendIntentSummary::Walk { tile }) => next_tile
            == Some(tile),
        (DecisionView::UseTeleportScroll { .. }, BackendIntentSummary::UseScroll) => true,
        _ => false,
    }
}

/// The words on how the two compare.
pub open spec fn alignment_reason(shadow: DecisionView, backend: BackendIntentSummary) -> Seq<char> {
    match (shadow, backend) {
        (DecisionView::Wait, BackendIntentSummary::Wait) => "both wait"@,
        (DecisionView::Attack { target_id: a }, BackendIntentSummary::Attack { target_id: b }) => if a
            == b {
            "same attack target"@
        } else {
            "different attack target"@
        },
        (DecisionView::Approach { next_tile, .. }, BackendIntentSummary::Walk { tile }) => if next_tile
            == Some(tile) {
            "same approach tile"@
        } else if next_tile is None {
            "missing approach tile"@
        } else {
            "different approach tile"@
        },
        (DecisionView::Explore { next_tile, .. }, BackendIntentSummary::Walk { tile }) => if next_tile
            == Some(tile) {
            "same explore tile"@
        } else if next_tile is None {
            "missing explore tile"@
        } else {
            "different explore tile"@
        },
        (
            DecisionView::UseTeleportScroll { .. },
            BackendIntentSummary::UseScroll,
        ) => "both use teleport scroll"@,
        _ => "different intent kind"@,
    }
}

fn alignment(shadow: &ShadowDecision, backend: &BackendIntentSummary) -> (r: (bool, &'static str))
    ensures
        r.0 == is_aligned(shadow@, *backend),
        r.1@ == alignment_reason(shadow@, *backend),
{
    match (shadow, backend) {
        (ShadowDecision::Wait, BackendIntentSummary::Wait) => (true, "both wait"),
        (
            ShadowDecision::Attack { target_id: shadow_id },
            BackendIntentSummary::Attack { target_id: backend_id },
        ) => if *shadow_id == *backend_id {
            (true, "same attack target")
        } else {
            (false, "different attack target")
        },
        (
            ShadowDecision::Approach { next_tile, .. },
            BackendIntentSummary::Walk { tile },
        ) => match next_tile {
            Some(next) => if same_tile(*next, *tile) {
                (true, "same approach tile")
            } else {
                (false, "different approach tile")
            },
            None => (false, "missing approach tile"),
        },
        (
            ShadowDecision::Explore { next_tile, .. },
            BackendIntentSummary::Walk { tile },
        ) => match next_tile {
            Some(next) => if same_tile(*next, *tile) {
                (true, "same explore tile")
            } else {
                (false, "different explore tile")
            },
            None => (false, "missing explore tile"),
        },
        (
            ShadowDecision::UseTeleportScroll { .. },
            BackendIntentSummary::UseScroll,
        ) => (true, "both use teleport scroll"),
        _ => (false, "different intent kind"),
    }
}

/// What `compare_to_backend` returns.
pub open spec fn is_comparison(c: PolicyComparison, plan: PlanFrame, intent: IntentView) -> bool {
    &&& c.shadow@ == decided(plan)
    &&& c.backend == summary_of(intent)
    &&& c.aligned == is_aligned(decided(plan), summary_of(intent))
    &&& c.reason@ == alignment_reason(decided(plan), summary_of(intent))
}

/// Compares what the plan alone would do with what is to be done.
pub fn compare_to_backend(plan: &PlanFrame, intent: &DispatchIntent) -> (r: PolicyComparison)
    ensures
        is_comparison(r, *plan, intent@),
{
    let shadow: ShadowDecision = decide(plan);
    let backend: BackendIntentSummary = summarize_backend(intent);
    let (aligned, reason): (bool, &'static str) = alignment(&shadow, &backend);
    PolicyComparison { shadow, backend, aligned, reason }
}

/// A failed attack is never what the plan alone would do.
pub proof fn law_failure_never_aligned(shadow: DecisionView, target_id: u32)
    ensures
        !is_aligned(shadow, BackendIntentSummary::AttackLookupFailed { target_id }),
{
}

} // verus!
