//! What becomes of an action: the intent, the command and the outcome, and how the
//! attack sequence goes on.
use crate::action::screen_target::PlayerPosition;
use crate::action::walk::WalkDriver;
use crate::decide::hunt::{cd_skill, StepView};
use crate::hunt4::actions::{
    asks_for_random_teleport, bootstrap_after, dispatched, intended, is_blessed_or_cursed,
    is_command, is_plain_scroll_name, is_scroll_choice, live_target, DispatchCommand,
    DispatchState, IntentView, ScrollItem, INVENTORY_SAMPLE, SCROLL_ITEM_TYPE,
};
use crate::hunt4::context::{advanced, due_step, looked_at, AttackSequenceRuntime};
use crate::hunt4::intent::{
    decision_action, is_choice, plan_skill, summary_with_id, DispatchChoice, DispatchChoiceSource,
};
use crate::hunt4::model::EntityView;
use crate::hunt4::plan::PlanFrame;
use crate::hunt4::policy::DecisionView;
use crate::hunt4::score::TargetScoreSummary;
use crate::hunt4::step::{ActionView, LastOutcome};
use crate::text::{occurs, occurs_at, occurs_lowered};
use crate::time::Instant;
use vstd::prelude::*;

verus! {

/// The entity at `k` is the first live one with an id, and with an address where
/// one is asked for.
pub open spec fn first_live(
    s: Seq<EntityView>,
    id: u32,
    ptr: Option<u32>,
    k: int,
) -> bool {
    &&& 0 <= k < s.len() && s[k].target_id == id && s[k].live()
    &&& ptr is Some ==> s[k].entity_ptr == ptr->0
    &&& forall|j: int|
        0 <= j < k ==> !((#[trigger] s[j]).target_id == id && s[j].live() && (ptr is Some
            ==> s[j].entity_ptr == ptr->0))
}

/// There is no live entity with an id, and with an address where one is asked for.
pub open spec fn no_live(s: Seq<EntityView>, id: u32, ptr: Option<u32>) -> bool {
    forall|j: int|
        0 <= j < s.len() ==> !((#[trigger] s[j]).target_id == id && s[j].live() && (ptr is Some
            ==> s[j].entity_ptr == ptr->0))
}

proof fn lemma_live_target(s: Seq<EntityView>, id: u32, ptr: Option<u32>, from: int, k: int)
    requires
        0 <= from <= k <= s.len(),
        forall|j: int|
            from <= j < k ==> !((#[trigger] s[j]).target_id == id && s[j].live() && (ptr is Some
                ==> s[j].entity_ptr == ptr->0)),
    ensures
        live_target(s, id, ptr, from) == live_target(s, id, ptr, k),
    decreases k - from,
{
    if from < k {
        assert(!(s[from].target_id == id && s[from].live() && (ptr is Some ==> s[from].entity_ptr
            == ptr->0)));
        lemma_live_target(s, id, ptr, from + 1, k);
    }
}

/// An attack is aimed at the live entity with the id and the address, or else at
/// the first live one with the id: a skill where one is named, and else a blow at
/// where the entity stands. The target is fresh where the last blow was at another.
pub proof fn law_attack_is_aimed(
    entities: Seq<EntityView>,
    id: u32,
    ptr: u32,
    skill: Option<Seq<char>>,
    state: DispatchState,
    k: int,
)
    ensures
        ({
            let r = intended(
                ActionView::AttackTarget { target_id: id, entity_ptr: ptr, skill },
                entities,
                state,
            );
            let named = skill is Some && skill->0.len() > 0;
            let aimed = first_live(entities, id, Some(ptr), k) || (no_live(entities, id, Some(ptr))
                && first_live(entities, id, None, k));
            &&& no_live(entities, id, None) ==> r == (IntentView::AttackLookupFailed {
                target_id: id,
            })
            &&& aimed && named ==> r == (IntentView::CastSkill {
                skill_name: skill->0,
                target_id: id,
            })
            &&& aimed && !named ==> r == (IntentView::BootstrapAttack {
                target_id: id,
                entity_ptr: entities[k].entity_ptr,
                target_raw_x: entities[k].raw_x,
                target_y: entities[k].y,
                fresh_target: state.last_bootstrap_target != Some(id),
            })
        }),
{
    let n = entities.len() as int;
    if no_live(entities, id, None) {
        lemma_live_target(entities, id, None, 0, n);
        assert(no_live(entities, id, Some(ptr)));
        lemma_live_target(entities, id, Some(ptr), 0, n);
    }
    if first_live(entities, id, Some(ptr), k) {
        lemma_live_target(entities, id, Some(ptr), 0, k);
    }
    if no_live(entities, id, Some(ptr)) && first_live(entities, id, None, k) {
        lemma_live_target(entities, id, Some(ptr), 0, n);
        lemma_live_target(entities, id, None, 0, k);
    }
}

/// Waiting, walking and scrolls are intended as they are decided.
pub proof fn law_other_intents(
    entities: Seq<EntityView>,
    state: DispatchState,
    tile: (i32, i32),
    keyword: Seq<char>,
)
    ensures
        intended(ActionView::Wait, entities, state) is Noop,
        intended(ActionView::WalkTo { tile }, entities, state) == (IntentView::Walk {
            target_x: tile.0,
            target_y: tile.1,
        }),
        intended(ActionView::UseTeleportScroll { name_keyword: keyword }, entities, state) == (
        IntentView::UseScroll { name_keyword: keyword }),
{
}

/// Each intent is carried out by its own command; a walk needs the player's place.
pub proof fn law_commands(
    c: DispatchCommand,
    intent: IntentView,
    player: Option<PlayerPosition>,
    driver: WalkDriver,
)
    requires
        is_command(c, intent, player, driver),
    ensures
        c is Walk <==> intent is Walk && player is Some,
        c is StartAttack <==> intent is BootstrapAttack,
        c is CastSkill <==> intent is CastSkill,
        c is UseScroll <==> intent is UseScroll,
        c matches DispatchCommand::Walk { driver: d, player: p, target_x, target_y } ==> d == driver
            && Some(p) == player && intent == (IntentView::Walk { target_x, target_y }),
        c matches DispatchCommand::StartAttack {
            entity_ptr: ptr,
            target_raw_x: x,
            target_y: y,
            fresh_target: fresh,
        } ==> (intent matches IntentView::BootstrapAttack {
            entity_ptr,
            target_raw_x,
            target_y,
            fresh_target,
            ..
        } && ptr == entity_ptr && x == target_raw_x && y == target_y && fresh == fresh_target),
{
}

/// What is reported back: an attack says on whom and whether it was done, a walk
/// fails without a player or where the step was not taken, and names its tile.
pub proof fn law_outcomes(intent: IntentView, has_player: bool, done: bool)
    ensures
        ({
            let o = dispatched(intent, has_player, done);
            &&& intent is Noop ==> o is NoOutcome
            &&& intent matches IntentView::Walk { target_x, target_y } ==> {
                &&& has_player && done ==> o is WalkOk
                &&& !(has_player && done) ==> o == (LastOutcome::WalkFailed {
                    attempted_tile: (target_x, target_y),
                })
            }
            &&& intent matches IntentView::BootstrapAttack { target_id, .. } ==> {
                &&& done ==> o == (LastOutcome::AttackOk { target_id })
                &&& !done ==> o == (LastOutcome::AttackFailed { target_id })
            }
            &&& intent matches IntentView::CastSkill { target_id, .. } ==> {
                &&& done ==> o == (LastOutcome::AttackOk { target_id })
                &&& !done ==> o == (LastOutcome::AttackFailed { target_id })
            }
            &&& intent is UseScroll && done ==> o is ScrollOk
            &&& intent is UseScroll && !done ==> o is ScrollFailed
            &&& intent matches IntentView::AttackLookupFailed { target_id } ==> o == (
            LastOutcome::AttackFailed { target_id })
        }),
{
}

/// The target of the last blow is remembered, until a skill or a scroll comes
/// between. A blow that was not struck changes nothing.
pub proof fn law_last_blow(before: Option<u32>, intent: IntentView, done: bool)
    ensures
        ({
            let after = bootstrap_after(before, intent, done);
            &&& intent matches IntentView::BootstrapAttack { target_id, .. } ==> done ==> after
                == Some(target_id)
            &&& intent is BootstrapAttack && !done ==> after == before
            &&& intent is CastSkill || intent is UseScroll ==> after is None
            &&& intent is Noop || intent is Walk || intent is AttackLookupFailed ==> after == before
        }),
{
}

/// Of the scrolls that answer to the keyword: where a random teleport is asked for,
/// one of the kind with a plain name and neither blessed nor cursed comes first;
/// then one of the kind that is neither; then any with a plain name that is
/// neither; then one of the kind. Among equals, and for any other keyword, the
/// first that answers is taken.
pub proof fn law_scroll_choice(items: Seq<ScrollItem>, keyword: Seq<char>, i: int, j: int)
    requires
        is_scroll_choice(items, keyword, i),
        0 <= j < items.len() && items[j].matches_keyword,
    ensures
        items[i].matches_keyword,
        ({
            let kind_i = items[i].item_type == 6;
            let kind_j = items[j].item_type == 6;
            let good_i = !is_blessed_or_cursed(items[i].name@);
            let good_j = !is_blessed_or_cursed(items[j].name@);
            let plain_i = is_plain_scroll_name(items[i].name@);
            let plain_j = is_plain_scroll_name(items[j].name@);
            &&& !asks_for_random_teleport(keyword) ==> i <= j
            &&& asks_for_random_teleport(keyword) ==> {
                &&& kind_j && good_j && plain_j ==> kind_i && good_i && plain_i
                &&& kind_j && good_j ==> kind_i && good_i
                &&& good_j && plain_j ==> good_i && (kind_i || plain_i)
                &&& kind_j ==> kind_i || (good_i && plain_i)
                &&& kind_i == kind_j && good_i == good_j && plain_i == plain_j ==> i <= j
            }
        }),
{
}

/// What counts as asking for a random teleport, as blessed or cursed, and as plain.
pub proof fn law_scroll_words(text: Seq<char>)
    ensures
        asks_for_random_teleport(text) <==> occurs(text, "\u{77AC}"@) || occurs(
            text,
            "\u{50B3}"@,
        ) || occurs(text, "\u{96A8}\u{6A5F}"@) || occurs_lowered(text, "teleport"@),
        is_blessed_or_cursed(text) <==> occurs(text, "\u{795D}"@) || occurs(text, "\u{5492}"@)
            || occurs(text, "\u{8A5B}"@) || occurs(text, "\u{87E1}"@),
        is_plain_scroll_name(text) <==> occurs_at(
            text,
            "\u{77AC}\u{9593}\u{79FB}\u{52D5}"@,
            0,
        ) || occurs_at(text, "\u{50B3}\u{9001}"@, 0) || occurs_at(
            text,
            "\u{96A8}\u{6A5F}"@,
            0,
        ),
        SCROLL_ITEM_TYPE == 6,
        INVENTORY_SAMPLE == 8,
{
}

/// A step is due once its moment has come. A place beyond the end of the sequence
/// is taken for its beginning, and the round then starts anew.
pub proof fn law_step_due(s: AttackSequenceRuntime, steps: Seq<StepView>, now: Instant)
    requires
        steps.len() > 0,
    ensures
        ({
            let t = looked_at(s, steps, now);
            let inside = s.active_index < steps.len();
            &&& inside ==> t.active_index == s.active_index && t.next_ready_at == s.next_ready_at
            &&& inside && s.cycle_started_at is Some ==> t.cycle_started_at == s.cycle_started_at
            &&& inside && s.cycle_started_at is None ==> t.cycle_started_at == Some(now)
            &&& !inside ==> t.active_index == 0 && t.next_ready_at is None && t.cycle_started_at
                == Some(now)
            &&& inside ==> (due_step(s, steps, now) is None <==> s.next_ready_at is Some && now.nanos
                < s.next_ready_at->0.nanos)
            &&& inside && due_step(s, steps, now) is Some ==> due_step(s, steps, now)->0
                == steps[s.active_index as int]
            &&& !inside ==> due_step(s, steps, now) == Some(steps[0])
        }),
{
}

/// After an attack the next step waits for the interval of this one. After the last
/// step of a round the next round waits for that, and for the least duration of a
/// round.
pub proof fn law_round_lasts(
    s: AttackSequenceRuntime,
    steps: Seq<StepView>,
    cycle_ms: u64,
    now: Instant,
    started: Instant,
)
    requires
        s.active_index < steps.len() <= usize::MAX,
        now.has_room(),
        started.has_room(),
        s.cycle_started_at == Some(started) || (s.cycle_started_at is None && started == now),
    ensures
        ({
            let t = advanced(s, steps, cycle_ms, now);
            let last = s.active_index == steps.len() - 1;
            let over = now.nanos + steps[s.active_index as int].interval_ms * 1_000_000;
            let round = started.nanos + cycle_ms * 1_000_000;
            &&& t.next_ready_at is Some && t.cycle_started_at is Some
            &&& !last ==> {
                &&& t.active_index == s.active_index + 1
                &&& t.next_ready_at->0.nanos == over
                &&& t.cycle_started_at == Some(started)
            }
            &&& last ==> {
                &&& t.active_index == 0
                &&& t.cycle_started_at == t.next_ready_at
                &&& t.next_ready_at->0.nanos >= over
                &&& cycle_ms > 0 ==> t.next_ready_at->0.nanos >= round
                &&& t.next_ready_at->0.nanos == over || (cycle_ms > 0 && t.next_ready_at->0.nanos
                    == round)
            }
        }),
{
}

/// The skill of a plan: that of its step, where it is ready and no basic attack is
/// owed to the target.
pub proof fn law_skill_of_plan(plan: PlanFrame, id: u32)
    ensures
        plan_skill(plan, id) is Some ==> {
            &&& plan.post_skill_basic_pending_target != Some(id)
            &&& plan.selected_skill_ready == Some(true)
            &&& plan.selected_attack_step is Some
        },
        plan.post_skill_basic_pending_target != Some(id) && plan.selected_skill_ready == Some(true)
            && plan.selected_attack_step is Some ==> plan_skill(plan, id) == cd_skill(
            plan.selected_attack_step->0@,
        ),
{
}

proof fn lemma_summary(s: Seq<TargetScoreSummary>, id: u32, from: int, k: int)
    requires
        0 <= from <= k <= s.len(),
        forall|j: int| from <= j < k ==> (#[trigger] s[j]).target_id != id,
    ensures
        summary_with_id(s, id, from) == summary_with_id(s, id, k),
    decreases k - from,
{
    if from < k {
        assert(s[from].target_id != id);
        lemma_summary(s, id, from + 1, k);
    }
}

/// What a decision comes to: an attack on the ranked target with the id, or a step
/// to the next tile. Without these, and for a scroll, it is waited.
pub proof fn law_action_of_decision(
    plan: PlanFrame,
    id: u32,
    next_tile: Option<(i32, i32)>,
    goal: (i32, i32),
    reason: Seq<char>,
    k: int,
)
    ensures
        ({
            let s = plan.ranked_targets@;
            let attack = decision_action(plan, DecisionView::Attack { target_id: id });
            let approach = decision_action(
                plan,
                DecisionView::Approach { target_id: id, next_tile },
            );
            let explore = decision_action(plan, DecisionView::Explore { goal, next_tile });
            &&& decision_action(plan, DecisionView::Wait) is Wait
            &&& decision_action(plan, DecisionView::UseTeleportScroll { reason }) is Wait
            &&& next_tile is Some ==> approach == (ActionView::WalkTo { tile: next_tile->0 })
                && explore == (ActionView::WalkTo { tile: next_tile->0 })
            &&& next_tile is None ==> approach is Wait && explore is Wait
            &&& 0 <= k < s.len() && s[k].target_id == id && (forall|j: int|
                0 <= j < k ==> (#[trigger] s[j]).target_id != id) ==> attack == (
            ActionView::AttackTarget {
                target_id: id,
                entity_ptr: s[k].entity_ptr,
                skill: plan_skill(plan, id),
            })
            &&& (forall|j: int| 0 <= j < s.len() ==> (#[trigger] s[j]).target_id != id) ==> attack
                is Wait
        }),
{
    let s = plan.ranked_targets@;
    if 0 <= k < s.len() && forall|j: int| 0 <= j < k ==> (#[trigger] s[j]).target_id != id {
        lemma_summary(s, id, 0, k);
    }
    if forall|j: int| 0 <= j < s.len() ==> (#[trigger] s[j]).target_id != id {
        lemma_summary(s, id, 0, s.len() as int);
    }
}

/// The planner takes over where that is enabled, it agreed three times running, and
/// it means to do just the same; and never for a scroll or a failed lookup.
pub proof fn law_when_planner_takes_over(
    c: DispatchChoice,
    backend: IntentView,
    shadow: IntentView,
    aligned: bool,
    aligned_streak: u64,
    takeover_enabled: bool,
)
    requires
        is_choice(c, backend, shadow, aligned, aligned_streak, takeover_enabled),
    ensures
        c.intent@ == backend,
        c.source == DispatchChoiceSource::Shadow <==> {
            &&& takeover_enabled && aligned && aligned_streak >= 3
            &&& shadow == backend
            &&& !(backend is UseScroll) && !(backend is AttackLookupFailed)
        },
{
}

} // verus!
