//! Whether what the plan alone would do takes the place of what is to be done.
use crate::hunt4::actions::{
    intended, intent_for, same_intent, DispatchIntent, DispatchState, IntentView,
};
use crate::hunt4::model::{EntityView, Snapshot};
use crate::hunt4::plan::PlanFrame;
use crate::hunt4::policy;
use crate::hunt4::policy::{
    decided, is_comparison, recorded, DecisionView, PolicyComparison, PolicyTelemetry,
    ShadowDecision,
};
use crate::hunt4::score::TargetScoreSummary;
use crate::hunt4::step::{text_view, Action, ActionView};
use crate::decide::hunt::cd_skill;
use vstd::prelude::*;

verus! {

/// Agreements in a row that are needed first.
pub const DISPATCH_TAKEOVER_MIN_ALIGNED_STREAK: u64 = 3;

/// What the plan alone would do, down to the intent.
#[derive(Debug, PartialEq, Eq)]
pub struct ShadowDispatch {
    pub decision: ShadowDecision,
    pub action: Action,
    pub intent: DispatchIntent,
}

impl Clone for ShadowDispatch {
    fn clone(&self) -> (r: Self)
        ensures
            r == *self,
    {
        ShadowDispatch {
            decision: self.decision.clone(),
            action: self.action.clone(),
            intent: self.intent.clone(),
        }
    }
}

#[derive(Debug, Clone, Copy, PartialEq, Eq, Structural)]
pub enum DispatchChoiceSource {
    Backend,
    Shadow,
}

/// What is dispatched, on whose word, and why.
#[derive(Debug, PartialEq, Eq)]
pub struct DispatchChoice {
    pub source: DispatchChoiceSource,
    pub intent: DispatchIntent,
    pub reason: &'static str,
}

impl Clone for DispatchChoice {
    fn clone(&self) -> (r: Self)
        ensures
            r == *self,
    {
        DispatchChoice {
            source: self.source,
            intent: self.intent.clone(),
            reason: self.reason,
        }
    }
}

#[derive(Debug, PartialEq, Eq)]
pub struct DispatchEvaluation {
    pub shadow_dispatch: ShadowDispatch,
    pub policy_comparison: PolicyComparison,
    pub dispatch_choice: DispatchChoice,
}

impl Clone for DispatchEvaluation {
    fn clone(&self) -> (r: Self)
        ensures
            r == *self,
    {
        DispatchEvaluation {
            shadow_dispatch: self.shadow_dispatch.clone(),
            policy_comparison: self.policy_comparison.clone(),
            dispatch_choice: self.dispatch_choice.clone(),
        }
    }
}

/// The skill to attack a target with: none where a basic attack is owed, or
/// where the skill is not known to be ready.
pub open spec fn plan_skill(plan: PlanFrame, target_id: u32) -> Option<Seq<char>> {
    if plan.post_skill_basic_pending_target == Some(target_id) || plan.selected_skill_ready != Some(
        true,
    ) {
        None
    } else {
        match plan.selected_attack_step {
            Some(step) => cd_skill(step@),
            None => None,
        }
    }
}

/// The first summary with an id, from a position on.
pub open spec fn summary_with_id(s: Seq<TargetScoreSummary>, id: u32, from: int) -> Option<
    TargetScoreSummary,
>
    decreases s.len() - from,
{
    if from < 0 || from >= s.len() {
        None
    } else if s[from].target_id == id {
        Some(s[from])
    } else {
        summary_with_id(s, id, from + 1)
    }
}

/// The action of a decision.
pub open spec fn decision_action(plan: PlanFrame, decision: DecisionView) -> ActionView {
    match decision {
        DecisionView::Wait => ActionView::Wait,
        DecisionView::Attack { target_id } => match summary_with_id(
            plan.ranked_targets@,
            target_id,
            0,
        ) {
            Some(t) => ActionView::AttackTarget {
                target_id: t.target_id,
                entity_ptr: t.entity_ptr,
                skill: plan_skill(plan, t.target_id),
            },
            None => ActionView::Wait,
        },
        DecisionView::Approach { next_tile, .. } => match next_tile {
            Some(tile) => ActionView::WalkTo { tile },
            None => ActionView::Wait,
        },
        DecisionView::Explore { next_tile, .. } => match next_tile {
            Some(tile) => ActionView::WalkTo { tile },
            None => ActionView::Wait,
        },
        DecisionView::UseTeleportScroll { .. } => ActionView::Wait,
    }
}

/// What the plan alone would dispatch.
pub open spec fn is_shadow_dispatch(
    s: ShadowDispatch,
    plan: PlanFrame,
    entities: Seq<EntityView>,
    state: DispatchState,
) -> bool {
    &&& s.decision@ == decided(plan)
    &&& s.action@ == decision_action(plan, decided(plan))
    &&& s.intent@ == intended(decision_action(plan, decided(plan)), entities, state)
}

fn find_summary(targets: &Vec<TargetScoreSummary>, id: u32) -> (r: Option<&TargetScoreSummary>)
    ensures
        match r {
            Some(t) => summary_with_id(targets@, id, 0) == Some(*t),
            None => summary_with_id(targets@, id, 0) is None,
        },
{
    let mut i: usize = 0;
    while i < targets.len()
        invariant
            i <= targets@.len(),
            summary_with_id(targets@, id, 0) == summary_with_id(targets@, id, i as int),
        decreases targets@.len() - i,
    {
        if targets[i].target_id == id {
            return Some(&targets[i]);
        }
        i = i + 1;
    }
    None
}

fn selected_attack_skill(plan: &PlanFrame, target_id: u32) -> (r: Option<String>)
    ensures
        text_view(r) == plan_skill(*plan, target_id),
{
    let owed: bool = match plan.post_skill_basic_pending_target {
        Some(id) => id == target_id,
        None => false,
    };
    if owed {
        return None;
    }
    let ready: bool = match plan.selected_skill_ready {
        Some(ready) => ready,
        None => false,
    };
    if !ready {
        return None;
    }
    match &plan.selected_attack_step {
        Some(step) => match step.skill_for_cd() {
            Some(name) => Some(name.to_owned()),
            None => None,
        },
        None => None,
    }
}

fn action_for_decision(plan: &PlanFrame, decision: &ShadowDecision) -> (r: Action)
    ensures
        r@ == decision_action(*plan, decision@),
{
    match decision {
        ShadowDecision::Wait => Action::Wait,
        ShadowDecision::Attack { target_id } => match find_summary(
            &plan.ranked_targets,
            *target_id,
        ) {
            Some(target) => Action::AttackTarget {
                target_id: target.target_id,
                entity_ptr: target.entity_ptr,
                skill: selected_attack_skill(plan, target.target_id),
            },
            None => Action::Wait,
        },
        ShadowDecision::Approach { next_tile, .. } => match next_tile {
            Some(tile) => Action::WalkTo { tile: *tile },
            None => Action::Wait,
        },
        ShadowDecision::Explore { next_tile, .. } => match next_tile {
            Some(tile) => Action::WalkTo { tile: *tile },
            None => Action::Wait,
        },
        ShadowDecision::UseTeleportScroll { .. } => Action::Wait,
    }
}

pub fn build_shadow_dispatch(plan: &PlanFrame, snapshot: &Snapshot, state: &DispatchState) -> (r:
    ShadowDispatch)
    ensures
        is_shadow_dispatch(r, *plan, snapshot.entities@, *state),
{
    let decision: ShadowDecision = policy::decide(plan);
    let action: Action = action_for_decision(plan, &decision);
    let intent: DispatchIntent = intent_for(&action, snapshot, state);
    ShadowDispatch { decision, action, intent }
}

/// An intent that may be dispatched on the plan's word.
pub open spec fn may_take_over(intent: IntentView) -> bool {
    intent is Noop || intent is Walk || intent is BootstrapAttack || intent is CastSkill
}

/// Why the choice falls as it does.
pub open spec fn choice_reason(
    backend: IntentView,
    shadow: IntentView,
    aligned: bool,
    aligned_streak: u64,
    takeover_enabled: bool,
) -> Seq<char> {
    if !takeover_enabled {
        "v4 takeover disabled"@
    } else if backend is UseScroll {
        "backend-owned scroll"@
    } else if backend is AttackLookupFailed {
        "backend-owned attack lookup failure"@
    } else if !aligned {
        "policy mismatch"@
    } else if aligned_streak < DISPATCH_TAKEOVER_MIN_ALIGNED_STREAK {
        "alignment streak too short"@
    } else if shadow != backend {
        "shadow intent differs"@
    } else if !may_take_over(shadow) {
        "takeover action not allowed"@
    } else {
        "shadow intent exact match"@
    }
}

/// The plan's word counts.
pub open spec fn takes_over(
    backend: IntentView,
    shadow: IntentView,
    aligned: bool,
    aligned_streak: u64,
    takeover_enabled: bool,
) -> bool {
    &&& takeover_enabled
    &&& aligned
    &&& aligned_streak >= DISPATCH_TAKEOVER_MIN_ALIGNED_STREAK
    &&& shadow == backend
    &&& may_take_over(shadow)
}

/// What is dispatched is always what was to be done; the plan can only put its
/// own word to it.
pub open spec fn is_choice(
    c: DispatchChoice,
    backend: IntentView,
    shadow: IntentView,
    aligned: bool,
    aligned_streak: u64,
    takeover_enabled: bool,
) -> bool {
    &&& c.intent@ == backend
    &&& c.source == (if takes_over(backend, shadow, aligned, aligned_streak, takeover_enabled) {
        DispatchChoiceSource::Shadow
    } else {
        DispatchChoiceSource::Backend
    })
    &&& c.reason@ == choice_reason(backend, shadow, aligned, aligned_streak, takeover_enabled)
}

pub fn choose_dispatch_intent(
    backend: &DispatchIntent,
    shadow: &ShadowDispatch,
    comparison: &PolicyComparison,
    aligned_streak: u64,
    takeover_enabled: bool,
) -> (r: DispatchChoice)
    ensures
        is_choice(
            r,
            backend@,
            shadow.intent@,
            comparison.aligned,
            aligned_streak,
            takeover_enabled,
        ),
{
    if !takeover_enabled {
        return backend_choice(backend, "v4 takeover disabled");
    }
    if let Some(reason) = backend_owned_dispatch_reason(backend) {
        return backend_choice(backend, reason);
    }
    if !comparison.aligned {
        return backend_choice(backend, "policy mismatch");
    }
    if aligned_streak < DISPATCH_TAKEOVER_MIN_ALIGNED_STREAK {
        return backend_choice(backend, "alignment streak too short");
    }
    if !same_intent(&shadow.intent, backend) {
        return backend_choice(backend, "shadow intent differs");
    }
    if !takeover_allowed(&shadow.intent) {
        return backend_choice(backend, "takeover action not allowed");
    }
    DispatchChoice {
        source: DispatchChoiceSource::Shadow,
        intent: shadow.intent.clone(),
        reason: "shadow intent exact match",
    }
}

fn takeover_allowed(intent: &DispatchIntent) -> (r: bool)
    ensures
        r == may_take_over(intent@),
{
    match intent {
        DispatchIntent::Noop => true,
        DispatchIntent::Walk { .. } => true,
        DispatchIntent::BootstrapAttack { .. } => true,
        DispatchIntent::CastSkill { .. } => true,
        _ => false,
    }
}

fn backend_owned_dispatch_reason(intent: &DispatchIntent) -> (r: Option<&'static str>)
    ensures
        match r {
            Some(reason) => (intent@ is UseScroll && reason@ == "backend-owned scroll"@) || (intent@
                is AttackLookupFailed && reason@ == "backend-owned attack lookup failure"@),
            None => !(intent@ is UseScroll) && !(intent@ is AttackLookupFailed),
        },
{
    match intent {
        DispatchIntent::UseScroll { .. } => Some("backend-owned scroll"),
        DispatchIntent::AttackLookupFailed { .. } => Some("backend-owned attack lookup failure"),
        _ => None,
    }
}

fn backend_choice(intent: &DispatchIntent, reason: &'static str) -> (r: DispatchChoice)
    ensures
        r.source == DispatchChoiceSource::Backend,
        r.intent == *intent,
        r.reason@ == reason@,
{
    DispatchChoice { source: DispatchChoiceSource::Backend, intent: intent.clone(), reason }
}

/// What `evaluate_dispatch_choice` returns and leaves in the telemetry.
pub open spec fn is_evaluation(
    e: DispatchEvaluation,
    plan: PlanFrame,
    entities: Seq<EntityView>,
    state: DispatchState,
    backend: IntentView,
    before: PolicyTelemetry,
    after: PolicyTelemetry,
    takeover_enabled: bool,
) -> bool {
    &&& is_shadow_dispatch(e.shadow_dispatch, plan, entities, state)
    &&& is_comparison(e.policy_comparison, plan, backend)
    &&& after == recorded(before, e.policy_comparison)
    &&& is_choice(
        e.dispatch_choice,
        backend,
        e.shadow_dispatch.intent@,
        e.policy_comparison.aligned,
        after.aligned_streak,
        takeover_enabled,
    )
}

/// Compares, records the comparison, and chooses.
pub fn evaluate_dispatch_choice(
    plan: &PlanFrame,
    snapshot: &Snapshot,
    state: &DispatchState,
    backend: &DispatchIntent,
    telemetry: &mut PolicyTelemetry,
    takeover_enabled: bool,
) -> (r: DispatchEvaluation)
    ensures
        is_evaluation(
            r,
            *plan,
            snapshot.entities@,
            *state,
            backend@,
            *old(telemetry),
            *final(telemetry),
            takeover_enabled,
        ),
{
    let shadow_dispatch: ShadowDispatch = build_shadow_dispatch(plan, snapshot, state);
    let policy_comparison: PolicyComparison = policy::compare_to_backend(plan, backend);
    telemetry.record(policy_comparison.clone());
    let dispatch_choice: DispatchChoice = choose_dispatch_intent(
        backend,
        &shadow_dispatch,
        &policy_comparison,
        telemetry.aligned_streak,
        takeover_enabled,
    );
    DispatchEvaluation { shadow_dispatch, policy_comparison, dispatch_choice }
}

/// Whatever the plan would do, what is dispatched is what was to be done: the
/// takeover changes who answers for it and never what it is. Scrolls and failed
/// attacks are never taken over.
pub proof fn law_takeover_changes_nothing(
    c: DispatchChoice,
    backend: IntentView,
    shadow: IntentView,
    aligned: bool,
    aligned_streak: u64,
    takeover_enabled: bool,
)
    requires
        is_choice(c, backend, shadow, aligned, aligned_streak, takeover_enabled),
    ensures
        c.intent@ == backend,
        backend is UseScroll || backend is AttackLookupFailed ==> c.source
            == DispatchChoiceSource::Backend,
        !takeover_enabled ==> c.source == DispatchChoiceSource::Backend,
        c.source == DispatchChoiceSource::Shadow ==> c.reason@ == "shadow intent exact match"@,
{
}

} // verus!
