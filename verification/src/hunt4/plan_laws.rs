//! What a plan says, told by hit points, distances and counts, and what a tick
//! makes of it.
use crate::action::walk_laws::{law_distance, steps_between, steps_within};
use crate::decide::hunt::{cd_skill, AttackSequenceStep};
use crate::decide::pathfind::Walkable;
use crate::hunt4::actions::IntentView;
use crate::hunt4::backend::{portal_update, position_update};
use crate::hunt4::candidate::CandidateFrame;
use crate::hunt4::context::{is_new_context, HuntContext, PureTickInputs};
use crate::hunt4::memory::is_applied;
use crate::hunt4::memory_laws::{law_newest_position, law_visits_count};
use crate::hunt4::model::EntityView;
use crate::hunt4::observe::{action_label, intent_label, ActionLabel};
use crate::hunt4::plan::{
    attackers_in, has_hp_dropped, is_critical, is_nearer, is_plan_frame, is_runtime_plan, is_spike,
    law_nearest, local_ids, nearest_live, pressed, reachable_in, skill_ready, spike_threshold,
    step_range, tick_attackers, PlanFrame, RuntimePlanEvaluation, RuntimePlanEvaluationInput,
};
use crate::hunt4::policy::{
    decided, is_comparison, recorded, DecisionView, PolicyComparison, PolicyTelemetry,
};
use crate::hunt4::runtime::{is_map_change_recorded, is_remembered};
use crate::hunt4::step::{ticked, ActionView, AttackStepInput, ExploreSuggestion, TargetCandidate};
use crate::hunt4::tick::{is_tick, tick_input};
use crate::hunt4::world::WorldFrame;
use crate::time::Instant;
use vstd::prelude::*;

verus! {

/// The loss that counts as a spike: the set share of all hit points, rounded down,
/// and at least one. There is none where no share is set or the hit points are
/// unknown.
pub proof fn law_spike_threshold(percent: u8, max_hp: u32)
    requires
        percent <= 100,
    ensures
        spike_threshold(percent, max_hp) is None <==> percent == 0 || max_hp == 0,
        spike_threshold(percent, max_hp) is Some ==> ({
            let t = spike_threshold(percent, max_hp)->0;
            &&& t >= 1
            &&& t == 1 || 100 * t <= max_hp * percent
            &&& max_hp * percent < 100 * (t + 1)
        }),
{
    if percent > 0 && max_hp > 0 {
        let p = max_hp * percent;
        assert(0 < p <= max_hp * 100) by (nonlinear_arith)
            requires
                p == max_hp * percent,
                0 < percent <= 100,
                max_hp > 0,
        ;
    }
}

/// A spike is a loss of at least the threshold from one tick to the next. Getting
/// better is none.
pub proof fn law_spike(before: u32, now: u32, threshold: u32)
    ensures
        threshold > 0 ==> (is_spike(Some(before), now, threshold) <==> before >= now + threshold),
        !is_spike(None, now, threshold),
{
}

/// Hit points have dropped where both are known, and the player is hurt but alive.
pub proof fn law_hp_drop(before: Option<u32>, now: Option<u32>)
    ensures
        has_hp_dropped(before, now) <==> before is Some && now is Some && now->0 > 0 && now->0
            < before->0,
{
}

/// Hit points are critical below sixteen in a hundred, while there are any.
pub proof fn law_critical(cur: u32, max: u32)
    ensures
        is_critical(cur, max) <==> cur > 0 && max > 0 && 100 * cur < 16 * max,
{
    if max > 0 {
        let q = cur * 100 / max as int;
        assert(q <= 15 <==> cur * 100 < 16 * max) by (nonlinear_arith)
            requires
                q == cur * 100 / max as int,
                max > 0,
                cur >= 0,
        ;
    }
}

/// A weapon reaches one tile, or eight where it is for distance. A skill with a
/// reach of its own has that.
pub proof fn law_attack_range(
    ranged: bool,
    step: Option<&AttackSequenceStep>,
    skill_range: Option<u32>,
)
    ensures
        ({
            let by_skill = step is Some && cd_skill(step->0@) is Some && skill_range is Some
                && skill_range->0 > 0;
            &&& by_skill ==> step_range(ranged, step, skill_range) == skill_range->0
            &&& !by_skill && ranged ==> step_range(ranged, step, skill_range) == 8
            &&& !by_skill && !ranged ==> step_range(ranged, step, skill_range) == 1
        }),
{
}

/// A live monster within six tiles of the player.
pub open spec fn close_by(e: EntityView, player: (i32, i32)) -> bool {
    e.live() && steps_within(e.tile, player, 6)
}

proof fn lemma_local_ids(s: Seq<EntityView>, player: (i32, i32), id: u32)
    ensures
        local_ids(s, player).contains(id) <==> exists|i: int|
            0 <= i < s.len() && close_by(#[trigger] s[i], player) && s[i].target_id == id,
    decreases s.len(),
{
    if s.len() > 0 {
        let rest = s.drop_last();
        let last = s.len() - 1;
        lemma_local_ids(rest, player, id);
        law_distance(s.last().tile, player, 6);
        assert(s.last() == s[last]);
        if exists|i: int|
            0 <= i < rest.len() && close_by(#[trigger] rest[i], player) && rest[i].target_id == id {
            let i = choose|i: int|
                0 <= i < rest.len() && close_by(#[trigger] rest[i], player) && rest[i].target_id
                    == id;
            assert(close_by(s[i], player) && s[i].target_id == id);
        }
        if exists|i: int|
            0 <= i < s.len() && close_by(#[trigger] s[i], player) && s[i].target_id == id {
            let i = choose|i: int|
                0 <= i < s.len() && close_by(#[trigger] s[i], player) && s[i].target_id == id;
            if i < rest.len() {
                assert(close_by(rest[i], player) && rest[i].target_id == id);
            }
        }
    }
}

/// Where hit points dropped, every live monster within six tiles counts as an
/// attacker besides those that are known. Where there is none so close, the nearest
/// live one does, and of several the one with the lowest id. Without a drop nobody
/// is added.
pub proof fn law_who_is_suspected(
    s: Seq<EntityView>,
    player: (i32, i32),
    known: Set<u32>,
    hp_drop: bool,
    id: u32,
    k: int,
    n: int,
)
    ensures
        known.contains(id) ==> pressed(s, player, known, hp_drop).contains(id),
        !hp_drop ==> pressed(s, player, known, hp_drop) == known,
        hp_drop && 0 <= k < s.len() && close_by(s[k], player) ==> {
            &&& pressed(s, player, known, hp_drop).contains(s[k].target_id)
            &&& pressed(s, player, known, hp_drop).contains(id) ==> known.contains(id) || exists|
                i: int,
            |
                0 <= i < s.len() && close_by(#[trigger] s[i], player) && s[i].target_id == id
        },
        hp_drop && (forall|i: int| 0 <= i < s.len() ==> !close_by(#[trigger] s[i], player)) && 0 <= k
            < s.len() && s[k].live() && steps_between(s[k].tile, player, n) && (forall|i: int|
            0 <= i < s.len() && (#[trigger] s[i]).live() ==> !steps_within(s[i].tile, player, n - 1)
                && (steps_within(s[i].tile, player, n) ==> s[k].target_id <= s[i].target_id)) ==> (
        pressed(s, player, known, hp_drop).contains(id) <==> known.contains(id) || id
            == s[k].target_id),
{
    lemma_local_ids(s, player, id);
    assert forall|i: int| 0 <= i < s.len() implies close_by(#[trigger] s[i], player)
        == crate::hunt4::plan::is_local(s[i], player) by {
        law_distance(s[i].tile, player, 6);
    }
    if 0 <= k < s.len() && close_by(s[k], player) {
        lemma_local_ids(s, player, s[k].target_id);
        assert(crate::hunt4::plan::is_local(s[k], player));
    }
    if hp_drop && (forall|i: int| 0 <= i < s.len() ==> !close_by(#[trigger] s[i], player)) && 0 <= k
        < s.len() && s[k].live() && steps_between(s[k].tile, player, n) && (forall|i: int|
        0 <= i < s.len() && (#[trigger] s[i]).live() ==> !steps_within(s[i].tile, player, n - 1) && (
        steps_within(s[i].tile, player, n) ==> s[k].target_id <= s[i].target_id)) {
        assert(!crate::hunt4::plan::has_local(s, player)) by {
            assert forall|i: int| 0 <= i < s.len() implies !crate::hunt4::plan::is_local(
                #[trigger] s[i],
                player,
            ) by {
                assert(!close_by(s[i], player));
            }
        }
        law_nearest(s, player);
        let e = nearest_live(s, player)->0;
        assert(s[k].live());
        let i = choose|i: int| 0 <= i < s.len() && s[i] == e;
        law_distance(s[k].tile, player, n);
        law_distance(s[i].tile, player, n);
        law_distance(s[i].tile, player, n - 1);
        assert(!is_nearer(s[k], e, player));
        assert(e.target_id == s[k].target_id);
    }
}

/// Whether a skill is ready: there is an answer where the step is one of a skill
/// and its cooldown is known; it is ready with none, when never cast, and once the
/// cooldown is over.
pub proof fn law_skill_ready(
    step: Option<&AttackSequenceStep>,
    cd_ms: Option<u64>,
    last_cast: Option<Instant>,
    now: Instant,
)
    ensures
        skill_ready(step, cd_ms, last_cast, now) is Some <==> step is Some && cd_skill(step->0@)
            is Some && cd_ms is Some,
        skill_ready(step, cd_ms, last_cast, now) is Some ==> (skill_ready(step, cd_ms, last_cast, now)
            == Some(true) <==> cd_ms->0 == 0 || last_cast is None || now.nanos
            >= last_cast->0.nanos + cd_ms->0 * 1_000_000),
{
}

/// Counts of candidates add up, and one counts where it can be reached, or attacks.
pub proof fn law_counts(a: Seq<TargetCandidate>, b: Seq<TargetCandidate>, c: TargetCandidate)
    ensures
        reachable_in(a + b) == reachable_in(a) + reachable_in(b),
        attackers_in(a + b) == attackers_in(a) + attackers_in(b),
        c.reachable_path is Some ==> reachable_in(seq![c]) == 1,
        c.reachable_path is None ==> reachable_in(seq![c]) == 0,
        c.is_attacker ==> attackers_in(seq![c]) == 1,
        !c.is_attacker ==> attackers_in(seq![c]) == 0,
    decreases b.len(),
{
    assert(seq![c].drop_last() =~= Seq::<TargetCandidate>::empty());
    assert(reachable_in(Seq::<TargetCandidate>::empty()) == 0);
    assert(attackers_in(Seq::<TargetCandidate>::empty()) == 0);
    if b.len() > 0 {
        assert((a + b).drop_last() =~= a + b.drop_last());
        law_counts(a, b.drop_last(), c);
    } else {
        assert(a + b =~= a);
    }
}

/// What a plan says of the world, the selection, the way and the exploration.
pub proof fn law_plan_frame(
    p: PlanFrame,
    world: WorldFrame,
    f: CandidateFrame,
    explore: Option<&ExploreSuggestion>,
    step: Option<&AttackSequenceStep>,
    skill_range: Option<u32>,
    skill_cd_ms: Option<u64>,
    ready: Option<bool>,
    pending: Option<u32>,
)
    requires
        is_plan_frame(p, world, f, explore, step, skill_range, skill_cd_ms, ready, pending),
    ensures
        p.now == world.now && p.in_game == world.in_game && p.map_id == world.map_id,
        p.attack_range == f.attack_range && p.candidate_count == f.candidates@.len(),
        p.selected_target_id is Some <==> f.target_selection.selected is Some,
        f.target_selection.selected is Some ==> p.selected_target_id->0
            == f.target_selection.selected->0.target_id,
        p.non_viable_target_count == f.target_selection.rejected@.len(),
        p.last_target_reject_reason is Some <==> f.target_selection.rejected@.len() > 0,
        f.target_selection.rejected@.len() > 0 ==> p.last_target_reject_reason->0
            == f.target_selection.rejected@[0].reason,
        p.route_plan is Some ==> {
            &&& p.selected_route_target_id == p.route_plan->0.target_id
            &&& p.selected_route_next_tile == p.route_plan->0.next_tile
            &&& p.movement_next_tile == p.route_plan->0.next_tile
        },
        p.route_plan is None ==> p.movement_next_tile is None && p.selected_route_target_id is None,
        explore is Some ==> p.explore_goal == Some(explore->0.goal) && p.explore_steps is Some
            && p.explore_steps->0 == explore->0.path.len(),
        explore is Some && explore->0.path@.len() > 0 ==> p.explore_next_tile == Some(
            explore->0.path@[0],
        ),
        explore is None ==> p.explore_goal is None && p.explore_next_tile is None,
        p.selected_skill_ready == ready && p.post_skill_basic_pending_target == pending,
        p.selected_skill_cd_ms == skill_cd_ms && p.selected_skill_range == skill_range,
        step is Some ==> p.selected_attack_step == Some(*step->0),
        step is None ==> p.selected_attack_step is None,
        !p.teleport_should_use && p.invariant_violations@.len() == 0,
{
}

/// What is seen of the player: no life where nothing is known.
pub proof fn law_vital_signs(f: WorldFrame)
    ensures
        f.alive() <==> f.player_view is Some && f.player_view->0.hp > 0,
        f.player_view is Some ==> f.hp() == Some(f.player_view->0.hp) && f.max_hp()
            == f.player_view->0.max_hp && f.weight() == f.player_view->0.weight_pct,
        f.player_view is None ==> f.hp() is None && f.max_hp() == 0 && f.weight() == 0,
        f.player_pos_data is Some ==> f.tile() == Some(
            (f.player_pos_data->0.x, f.player_pos_data->0.y),
        ),
        f.player_pos_data is None ==> f.tile() is None,
{
}

/// What a tick is told of danger and of its step.
pub proof fn law_runtime_plan<G: Walkable>(
    r: RuntimePlanEvaluation,
    input: RuntimePlanEvaluationInput<'_, G>,
    threshold: u32,
)
    requires
        is_runtime_plan(r, input),
    ensures
        spike_threshold(input.damage_spike_hp_percent, input.max_hp) == Some(threshold)
            && input.previous_hp is Some && input.current_hp is Some && threshold > 0 ==> (
        r.damage_spike_detected <==> input.previous_hp->0 >= input.current_hp->0 + threshold),
        input.damage_spike_hp_percent == 0 || input.max_hp == 0 || input.previous_hp is None
            ==> !r.damage_spike_detected,
        r.critical_hp_detected <==> input.current_hp is Some && input.current_hp->0 > 0
            && input.max_hp > 0 && 100 * input.current_hp->0 < 16 * input.max_hp,
        input.selected_attack_step is Some ==> r.backend_attack_step == AttackStepInput::Step(
            *input.selected_attack_step->0,
        ),
        input.selected_attack_step is None ==> r.backend_attack_step is Waiting,
        input.selected_skill_cd_ms is Some ==> r.backend_skill_cd_ms
            == input.selected_skill_cd_ms->0,
        input.selected_skill_cd_ms is None ==> r.backend_skill_cd_ms == 0,
        r.candidate_frame.attack_range == step_range(
            input.ranged_weapon,
            input.selected_attack_step,
            input.selected_skill_range,
        ),
        r.candidate_frame.player_tile == input.player_tile,
        r.candidate_frame.recent_attacker_count == tick_attackers(input).len(),
{
    law_critical(
        match input.current_hp {
            Some(h) => h,
            None => 0,
        },
        input.max_hp,
    );
}

/// The planner decides by its first target: it attacks one that is in range with a
/// way, walks to one with a way, and explores without one. It waits outside the
/// game, and when nothing is left.
pub proof fn law_decision(plan: PlanFrame)
    ensures
        ({
            let s = plan.ranked_targets@;
            let ok = plan.in_game && plan.invariant_violations@.len() == 0;
            let way = s.len() > 0 && s[0].reachable;
            let d = decided(plan);
            &&& !ok ==> d is Wait
            &&& ok && way && s[0].in_attack_range ==> d == (DecisionView::Attack {
                target_id: s[0].target_id,
            })
            &&& ok && way && !s[0].in_attack_range ==> {
                &&& d is Approach && d->Approach_target_id == s[0].target_id
                &&& plan.selected_route_target_id == Some(s[0].target_id)
                    && plan.selected_route_next_tile is Some ==> d->Approach_next_tile
                    == plan.selected_route_next_tile
                &&& plan.selected_route_target_id != Some(s[0].target_id)
                    || plan.selected_route_next_tile is None ==> d->Approach_next_tile
                    == s[0].approach_next_tile
            }
            &&& ok && !way && plan.explore_goal is Some ==> d == (DecisionView::Explore {
                goal: plan.explore_goal->0,
                next_tile: plan.explore_next_tile,
            })
            &&& ok && !way && plan.explore_goal is None ==> (d is UseTeleportScroll
                <==> plan.teleport_should_use)
            &&& ok && !way && plan.explore_goal is None && !plan.teleport_should_use ==> d is Wait
        }),
{
}

/// Planner and backend agree where both wait, both attack one target, both step to
/// one tile, or both read a scroll; and nowhere else.
pub proof fn law_agreement(c: PolicyComparison, plan: PlanFrame, intent: IntentView)
    requires
        is_comparison(c, plan, intent),
    ensures
        c.shadow@ == decided(plan),
        ({
            let d = decided(plan);
            let step = match d {
                DecisionView::Approach { next_tile, .. } => next_tile,
                DecisionView::Explore { next_tile, .. } => next_tile,
                _ => None,
            };
            c.aligned <==> match intent {
                IntentView::Noop => d is Wait,
                IntentView::Walk { target_x, target_y } => step == Some((target_x, target_y)),
                IntentView::BootstrapAttack { target_id, .. } => d == (DecisionView::Attack {
                    target_id,
                }),
                IntentView::CastSkill { target_id, .. } => d == (DecisionView::Attack { target_id }),
                IntentView::UseScroll { .. } => d is UseTeleportScroll,
                IntentView::AttackLookupFailed { .. } => false,
            }
        }),
{
}

/// Agreements are counted running, and a disagreement is kept.
pub proof fn law_telemetry(t: PolicyTelemetry, c: PolicyComparison)
    requires
        t.total < u64::MAX && t.aligned < u64::MAX && t.mismatched < u64::MAX && t.aligned_streak
            < u64::MAX,
    ensures
        recorded(t, c).total == t.total + 1,
        c.aligned ==> recorded(t, c).aligned == t.aligned + 1 && recorded(t, c).aligned_streak
            == t.aligned_streak + 1 && recorded(t, c).mismatched == t.mismatched && recorded(
            t,
            c,
        ).last_mismatch == t.last_mismatch,
        !c.aligned ==> recorded(t, c).aligned == t.aligned && recorded(t, c).aligned_streak == 0
            && recorded(t, c).mismatched == t.mismatched + 1 && recorded(t, c).last_mismatch
            == Some(c),
{
}

/// A tick takes the decided step: the next state or else the same, the time of a
/// change, and what it did, for what is remembered and seen.
pub proof fn law_tick(
    before: HuntContext,
    inputs: PureTickInputs<'_>,
    after: HuntContext,
    intent: IntentView,
)
    requires
        is_tick(before, inputs, after, intent),
    ensures
        ({
            let out = ticked(before.state@, &tick_input(&before, inputs));
            &&& out.next_state is Some ==> after.state@ == out.next_state->0
            &&& out.next_state is None ==> after.state@ == before.state@
            &&& out.transition is Some ==> after.since == inputs.now && after.last_transition
                == out.transition
            &&& out.transition is None ==> after.since == before.since && after.last_transition
                == before.last_transition
            &&& is_applied(before.memory, out.memory_updates, inputs.now, after.memory)
            &&& after.last_outcome == before.last_outcome && after.attack_sequence
                == before.attack_sequence && after.dispatch_state == before.dispatch_state
                && after.attack_watch == before.attack_watch && after.prev_hp == before.prev_hp
        }),
        ({
            let i = tick_input(&before, inputs);
            &&& i.player_alive == inputs.player_alive && i.master_enabled == inputs.master_enabled
            &&& i.in_game == inputs.in_game && i.now == inputs.now && i.state_since
                == inputs.state_since
            &&& i.last_outcome == before.last_outcome && *i.memory == before.memory
            &&& i.candidates == inputs.candidates && i.player_pos == inputs.player_pos
            &&& i.damage_spike_detected == inputs.damage_spike_detected && i.critical_hp_detected
                == inputs.critical_hp_detected
            &&& i.locked_target_removed_or_dead == inputs.locked_target_removed_or_dead
            &&& i.locked_target_recently_damaged == inputs.locked_target_recently_damaged
            &&& i.skill_cd_ms == inputs.skill_cd_ms && i.attack_step == inputs.attack_step
            &&& i.teleport_scroll_available == inputs.teleport_scroll_available
            &&& i.explore_suggestion == inputs.explore
        }),
{
}

/// What is seen is remembered: the player's position is the newest of the history,
/// counts as a visit of the map, and the map is the last one seen.
pub proof fn law_seen_is_remembered(
    before: HuntContext,
    frame: WorldFrame,
    after: HuntContext,
    pos: (i32, i32),
    map_id: u32,
)
    requires
        is_remembered(before, frame, after),
        frame.player_pos_data is Some,
        pos == (frame.player_pos_data->0.x, frame.player_pos_data->0.y),
        frame.map_id == Some(map_id),
        before.memory.visits(map_id, pos) < u16::MAX,
    ensures
        after.last_map_id == frame.map_id,
        after.memory.recent_positions@.len() > 0,
        after.memory.recent_positions@.last() == (pos.0, pos.1, frame.now),
        after.memory.visits(map_id, pos) == before.memory.visits(map_id, pos) + 1,
        after.state == before.state && after.last_outcome == before.last_outcome,
{
    let mid = choose|mid: HuntContext|
        {
            &&& #[trigger] is_map_change_recorded(before, frame, mid)
            &&& match frame.tile() {
                Some(pos) => is_applied(
                    mid.memory,
                    position_update(mid.memory, pos, frame.map_id, frame.now),
                    frame.now,
                    after.memory,
                ) && after == (HuntContext { memory: after.memory, ..mid }),
                None => after == mid,
            }
        };
    let u = portal_update(before.last_map_id, frame.map_id, before.last_walk_tile, frame.now);
    assert(mid.memory.visited_tiles@ == before.memory.visited_tiles@);
    let v = position_update(mid.memory, pos, frame.map_id, frame.now);
    law_newest_position(mid.memory, v, frame.now, after.memory, pos, frame.now);
    law_visits_count(mid.memory, v, frame.now, after.memory, map_id, pos, frame.now);
}

/// What is known of an action by its name.
pub proof fn law_labels(action: ActionView, intent: IntentView)
    ensures
        action is Wait <==> action_label(action) is Wait,
        action is UseTeleportScroll <==> action_label(action) is UseScroll,
        action matches ActionView::WalkTo { tile } ==> action_label(action) == (
        ActionLabel::WalkTo { tile }),
        action matches ActionView::AttackTarget { target_id, skill, .. } ==> action_label(action) == (
        ActionLabel::Attack { target_id, with_skill: skill is Some && skill->0.len() > 0 }),
        intent is Noop <==> intent_label(intent) is Wait,
        intent is UseScroll <==> intent_label(intent) is UseScroll,
        intent matches IntentView::Walk { target_x, target_y } ==> intent_label(intent) == (
        ActionLabel::WalkTo { tile: (target_x, target_y) }),
        intent matches IntentView::CastSkill { target_id, .. } ==> intent_label(intent) == (
        ActionLabel::Attack { target_id, with_skill: true }),
        intent matches IntentView::BootstrapAttack { target_id, .. } ==> intent_label(intent) == (
        ActionLabel::Attack { target_id, with_skill: false }),
{
}

/// A hunt begins switched off and remembers nothing.
pub proof fn law_new_hunt(c: HuntContext, now: Instant, id: u32, tile: (i32, i32), later: Instant)
    requires
        is_new_context(c, now),
    ensures
        c.state@ is Disabled,
        c.since == now,
        !c.memory.target_failed(id, later),
        !c.memory.obstacle_at(tile, later),
        c.memory.visits(id, tile) == 0,
        c.memory.recent_positions@.len() == 0,
        c.attack_sequence.active_index == 0 && c.attack_sequence.next_ready_at is None,
        c.last_outcome is NoOutcome,
{
}

} // verus!
