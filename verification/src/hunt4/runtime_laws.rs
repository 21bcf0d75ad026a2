//! What a tick keeps of what it saw, planned and did.
use crate::client::packet_state::{is_recent, PacketState};
use crate::decide::hunt::{cd_skill, effective_sequence, AttackSequenceStep, HuntConfig};
use crate::hunt4::actions::{dispatched, DispatchState, IntentView};
use crate::hunt4::backend::{
    are_tick_inputs, gate_ms, has_scroll, is_backend_plan, is_plan_for_step, live_grid, plan_input,
    skill_reach, walk_tile_after, watch_after, BackendPlanEvaluationInput, BackendTickInputsInput,
};
use crate::hunt4::candidate::{same_frame, CandidateFrame};
use crate::hunt4::context::{
    due_step, is_report, looked_at, opt_step, HuntContext, PureTickInputs,
};
use crate::hunt4::intent::{is_evaluation, is_shadow_dispatch, DispatchEvaluation, ShadowDispatch};
use crate::hunt4::model::EntityView;
use crate::hunt4::observe::StateReport;
use crate::hunt4::plan::{same_plan, PlanFrame, RuntimePlanEvaluation};
use crate::hunt4::policy::{
    alignment_reason, decided, BackendIntentSummary, DecisionView, PolicyTelemetry,
};
use crate::hunt4::runtime::{
    choice_kept, finished, is_planned, plan_kept, PlannedDispatch, TickObservations,
};
use crate::hunt4::state::HuntStateView;
use crate::hunt4::step::{label_of, same_candidate, AttackStepInput, TargetCandidate};
use crate::hunt4::world::WorldFrame;
use crate::text::trim;
use crate::time::Instant;
use vstd::prelude::*;

verus! {

/// What a report says of the hunt: its state, what it did last, and how much it
/// remembers.
pub proof fn law_report(r: StateReport, c: HuntContext)
    requires
        is_report(r, c),
    ensures
        r.current_label == label_of(c.state@),
        r.since == c.since && r.last_transition == c.last_transition,
        r.last_action == c.last_action && r.last_outcome == Some(c.last_outcome),
        r.last_position_change == c.memory.last_position_change,
        r.last_target_progress == c.last_target_progress,
        r.target_summary == c.last_target_summary,
        r.route_next_tile == c.last_route_next_tile && r.route_reason == c.last_route_reason,
        r.teleport_reason == c.last_teleport_reason,
        r.shadow_dispatch == c.last_shadow_dispatch && r.dispatch_choice == c.last_dispatch_choice,
        r.policy_comparison == c.last_policy_comparison && r.policy_telemetry == c.policy_telemetry,
        r.memory_summary.failed_target_count == c.memory.failed_targets@.dom().len(),
        ({
            let n = c.memory.obstacles@.dom().len() + c.memory.portal_avoid_tiles@.dom().len();
            &&& n <= usize::MAX ==> r.memory_summary.obstacle_count == n
            &&& n > usize::MAX ==> r.memory_summary.obstacle_count == usize::MAX
        }),
        c.state@ is Engaging <==> r.lock_summary is Some,
        c.state@ matches HuntStateView::Engaging { lock, .. } ==> r.lock_summary->0.target_id
            == lock.target_id && r.lock_summary->0.name == lock.name,
{
}

/// A copy says what the first says.
pub proof fn law_copies(
    a: PlanFrame,
    b: PlanFrame,
    f: CandidateFrame,
    g: CandidateFrame,
    c: TargetCandidate,
    d: TargetCandidate,
    i: int,
)
    ensures
        same_plan(a, b) ==> {
            &&& b.selected_target_id == a.selected_target_id && b.explore_goal == a.explore_goal
            &&& b.movement_next_tile == a.movement_next_tile && b.attack_range == a.attack_range
            &&& b.ranked_targets@ == a.ranked_targets@
            &&& b.invariant_violations@ == a.invariant_violations@
            &&& a.route_plan is Some <==> b.route_plan is Some
            &&& a.route_plan is Some ==> b.route_plan->0@ == a.route_plan->0@
        },
        same_frame(f, g) ==> {
            &&& g.attack_range == f.attack_range && g.player_tile == f.player_tile
            &&& g.candidates@.len() == f.candidates@.len()
            &&& g.target_selection.selected == f.target_selection.selected
            &&& g.target_selection.rejected@ == f.target_selection.rejected@
            &&& 0 <= i < f.candidates@.len() ==> same_candidate(f.candidates@[i], g.candidates@[i])
        },
        same_candidate(c, d) ==> {
            &&& d.target_id == c.target_id && d.entity_ptr == c.entity_ptr && d.tile == c.tile
            &&& d.distance == c.distance && d.in_attack_range == c.in_attack_range
            &&& d.is_attacker == c.is_attacker && d.name@ == c.name@
            &&& c.reachable_path is Some <==> d.reachable_path is Some
            &&& c.reachable_path is Some ==> d.reachable_path->0@ == c.reachable_path->0@
        },
{
}

/// A dispatch is weighed by the plan of the same tick, and the comparison is counted
/// before the choice is made.
pub proof fn law_evaluation(
    e: DispatchEvaluation,
    plan: PlanFrame,
    entities: Seq<EntityView>,
    state: DispatchState,
    backend: IntentView,
    before: PolicyTelemetry,
    after: PolicyTelemetry,
    takeover_enabled: bool,
)
    requires
        is_evaluation(e, plan, entities, state, backend, before, after, takeover_enabled),
        before.total < u64::MAX && before.aligned_streak < u64::MAX,
    ensures
        e.dispatch_choice.intent@ == backend,
        e.shadow_dispatch.decision@ == decided(plan),
        e.policy_comparison.shadow@ == decided(plan),
        after.total == before.total + 1,
        e.policy_comparison.aligned ==> after.aligned_streak == before.aligned_streak + 1,
        !e.policy_comparison.aligned ==> after.aligned_streak == 0,
{
}

/// Why planner and backend agree or not.
pub proof fn law_reasons(
    a: u32,
    b: u32,
    next: Option<(i32, i32)>,
    tile: (i32, i32),
    goal: (i32, i32),
)
    ensures
        ({
            let attack = alignment_reason(
                DecisionView::Attack { target_id: a },
                BackendIntentSummary::Attack { target_id: b },
            );
            let approach = alignment_reason(
                DecisionView::Approach { target_id: a, next_tile: next },
                BackendIntentSummary::Walk { tile },
            );
            let explore = alignment_reason(
                DecisionView::Explore { goal, next_tile: next },
                BackendIntentSummary::Walk { tile },
            );
            &&& a == b ==> attack == "same attack target"@
            &&& a != b ==> attack == "different attack target"@
            &&& next == Some(tile) ==> approach == "same approach tile"@ && explore
                == "same explore tile"@
            &&& next is None ==> approach == "missing approach tile"@ && explore
                == "missing explore tile"@
            &&& next is Some && next != Some(tile) ==> approach == "different approach tile"@
                && explore == "different explore tile"@
            &&& alignment_reason(DecisionView::Wait, BackendIntentSummary::Wait) == "both wait"@
            &&& alignment_reason(
                DecisionView::Wait,
                BackendIntentSummary::Attack { target_id: b },
            ) == "different intent kind"@
        }),
{
}

/// What is kept of a plan: its first target, its way, and the hit points, which stay
/// where none are seen.
pub proof fn law_plan_is_kept(
    c: HuntContext,
    planning: RuntimePlanEvaluation,
    frame: WorldFrame,
    damaged: bool,
)
    ensures
        ({
            let k = plan_kept(c, planning, frame, damaged);
            let s = planning.plan_frame.ranked_targets@;
            &&& s.len() > 0 ==> k.last_target_summary == Some(s[0])
            &&& s.len() == 0 ==> k.last_target_summary is None
            &&& k.last_route_next_tile == planning.plan_frame.selected_route_next_tile
            &&& k.last_route_reason == planning.plan_frame.selected_route_reason
            &&& frame.player_view is Some ==> k.prev_hp == Some(frame.player_view->0.hp)
            &&& frame.player_view is None ==> k.prev_hp == c.prev_hp
            &&& k.state == c.state && k.memory == c.memory && k.since == c.since
        }),
{
}

/// What is kept of a choice.
pub proof fn law_choice_is_kept(c: HuntContext, e: DispatchEvaluation, t: PolicyTelemetry)
    ensures
        ({
            let k = choice_kept(c, e, t);
            &&& k.policy_telemetry == t
            &&& k.last_shadow_dispatch == Some(e.shadow_dispatch)
            &&& k.last_dispatch_choice == Some(e.dispatch_choice)
            &&& k.last_policy_comparison == Some(e.policy_comparison)
            &&& k.state == c.state && k.memory == c.memory && k.since == c.since
            &&& k.last_outcome == c.last_outcome
        }),
{
}

/// What is kept of what was done: the outcome, the step, and the watch over the
/// attack. State and memory wait for the next tick.
pub proof fn law_done_is_kept(
    c: HuntContext,
    cfg: HuntConfig,
    now: Instant,
    intent: IntentView,
    has_player: bool,
    done: bool,
    state: DispatchState,
)
    ensures
        ({
            let k = finished(c, cfg, now, intent, has_player, done, state);
            let outcome = dispatched(intent, has_player, done);
            &&& k.last_outcome == outcome
            &&& k.dispatch_state == state
            &&& k.last_walk_tile == walk_tile_after(c.last_walk_tile, intent, outcome)
            &&& k.attack_watch == watch_after(c.attack_watch, outcome, now)
            &&& k.state == c.state && k.memory == c.memory && k.since == c.since
            &&& k.prev_hp == c.prev_hp && k.last_map_id == c.last_map_id
        }),
{
}

/// What a tick is told is what was seen, planned and reported.
pub proof fn law_tick_is_told(
    r: PureTickInputs<'_>,
    input: BackendTickInputsInput<'_, '_>,
    events: PacketState,
)
    requires
        are_tick_inputs(r, input, events),
    ensures
        *r.snapshot == input.world.snapshot,
        r.candidates@ == input.planning.candidate_frame.candidates@,
        input.planning.explore is Some <==> r.explore is Some,
        input.planning.explore is Some ==> *r.explore->0 == input.planning.explore->0,
        input.world.player_pos_data is Some ==> r.player_pos == Some(
            (input.world.player_pos_data->0.x, input.world.player_pos_data->0.y),
        ),
        input.world.player_pos_data is None ==> r.player_pos is None,
        r.player_alive <==> input.world.player_view is Some && input.world.player_view->0.hp > 0,
        r.master_enabled == input.master_enabled && r.in_game == input.world.in_game,
        r.now == input.world.now && r.state_since == input.ctx.since && *r.cfg == *input.cfg,
        r.teleport_scroll_available == has_scroll(input.cfg.teleport_scroll_name@, input.items@),
        r.damage_spike_detected == input.planning.damage_spike_detected,
        r.critical_hp_detected == input.planning.critical_hp_detected,
        r.locked_target_removed_or_dead <==> (input.ctx.state@ matches HuntStateView::Engaging {
            lock,
            ..
        } && is_recent(events@.removed, lock.target_id, input.world.now)),
        r.locked_target_recently_damaged <==> (input.ctx.state@ matches HuntStateView::Engaging {
            lock,
            intent,
            ..
        } && intent is Attack && is_recent(events@.damaged, lock.target_id, input.world.now)),
        r.skill_cd_ms == input.planning.backend_skill_cd_ms,
        r.attack_step == input.planning.backend_attack_step,
{
}

/// What a plan is made of: the world, the memory, the map while in the game, and of a
/// skill its reach and its wait.
pub proof fn law_plan_is_told<'a>(
    input: BackendPlanEvaluationInput<'a>,
    ctx: &'a HuntContext,
    step: &'a Option<AttackSequenceStep>,
)
    ensures
        ({
            let p = plan_input(input, ctx, step, &live_grid(input));
            let skill = cd_skill(step->0@);
            &&& *p.world == *input.world && *p.memory == ctx.memory
            &&& input.world.player_pos_data is Some ==> p.player_tile == (
                input.world.player_pos_data->0.x,
                input.world.player_pos_data->0.y,
            )
            &&& p.grid is Some <==> input.world.in_game && input.map is Some
            &&& p.grid is Some ==> *p.grid->0.map == *input.map->0 && *p.map_profile->0
                == input.map->0.profile
            &&& p.map_profile is Some <==> p.grid is Some
            &&& p.previous_hp == ctx.prev_hp && p.ranged_weapon == input.ranged_weapon
            &&& input.world.player_view is Some ==> p.current_hp == Some(
                input.world.player_view->0.hp,
            ) && p.max_hp == input.world.player_view->0.max_hp
            &&& p.damage_spike_hp_percent == input.cfg.damage_spike_hp_percent
            &&& p.server_recent_attackers == input.server_recent_attackers
            &&& p.last_skill_cast == ctx.memory.last_skill_cast
            &&& p.post_skill_basic_pending_target == ctx.memory.post_skill_basic_pending_target
            &&& step is Some ==> p.selected_attack_step == Some(&step->0)
            &&& step is None ==> p.selected_attack_step is None
            &&& step is Some && skill is Some ==> p.selected_skill_range == Some(
                skill_reach(ctx.cached_skill_range@, trim(skill->0), input.skill_range_lookup),
            ) && p.selected_skill_cd_ms == Some(
                gate_ms(ctx.cached_skill_gate_ms@, trim(skill->0), input.skill_gate_lookup),
            )
            &&& step is None || skill is None ==> p.selected_skill_range is None
                && p.selected_skill_cd_ms is None
        }),
{
}

/// Planning goes by the step of the attack sequence that is due, looks at what is known
/// of skills, and changes nothing else.
pub proof fn law_planning_changes_little(
    r: RuntimePlanEvaluation,
    input: BackendPlanEvaluationInput<'_>,
    before: HuntContext,
    after: HuntContext,
)
    requires
        is_backend_plan(r, input, before, after),
    ensures
        after.state == before.state && after.memory == before.memory && after.since == before.since,
        after.last_outcome == before.last_outcome && after.prev_hp == before.prev_hp,
        after.attack_sequence == looked_at(
            before.attack_sequence,
            effective_sequence(*input.cfg),
            input.world.now,
        ),
        ({
            let due = due_step(
                before.attack_sequence,
                effective_sequence(*input.cfg),
                input.world.now,
            );
            &&& due is None <==> r.backend_attack_step is Waiting
            &&& due is Some ==> (r.backend_attack_step matches AttackStepInput::Step(s) && s@
                == due->0)
        }),
{
    let steps = effective_sequence(*input.cfg);
    let step = choose|step: Option<AttackSequenceStep>|
        opt_step(step) == due_step(before.attack_sequence, steps, input.world.now)
            && #[trigger] is_plan_for_step(r, input, before, after, step);
}

/// The planner's own dispatch follows its decision.
pub proof fn law_shadow_follows_decision(
    s: ShadowDispatch,
    plan: PlanFrame,
    entities: Seq<EntityView>,
    state: DispatchState,
)
    requires
        is_shadow_dispatch(s, plan, entities, state),
    ensures
        s.decision@ == decided(plan),
        decided(plan) is Wait ==> s.intent@ is Noop,
        decided(plan) matches DecisionView::Approach { next_tile, .. } ==> {
            &&& next_tile is Some ==> s.intent@ == (IntentView::Walk {
                target_x: (next_tile->0).0,
                target_y: (next_tile->0).1,
            })
            &&& next_tile is None ==> s.intent@ is Noop
        },
{
}

/// Over a whole tick: the map that was seen is the last one, and the lock, the memory
/// of outcomes and the sequence of attacks pass from one stage to the next.
pub proof fn law_whole_tick(
    r: PlannedDispatch,
    before: HuntContext,
    frame: WorldFrame,
    obs: TickObservations<'_>,
    cfg: HuntConfig,
    master_enabled: bool,
    events: PacketState,
    after: HuntContext,
)
    requires
        is_planned(r, before, frame, obs, cfg, master_enabled, events, after),
    ensures
        after.last_map_id == frame.map_id,
        frame.player_view is Some ==> after.prev_hp == Some(frame.player_view->0.hp),
        frame.player_view is None ==> after.prev_hp == before.prev_hp,
        after.last_walk_tile == before.last_walk_tile,
        after.dispatch_state == before.dispatch_state,
        after.last_dispatch_choice is Some && after.last_dispatch_choice->0.intent == r.intent,
        after.last_shadow_dispatch is Some && after.last_policy_comparison is Some,
{
}

} // verus!
