//! A live tick: everything before an intent is carried out, and everything
//! after.
use crate::client::packet_state::PacketState;
use crate::decide::hunt::{HuntConfig, HuntOutcome};
use crate::decide::pathfind::BotPath;
use crate::hunt4::actions::{
    bootstrap_after, dispatch_command, dispatched, is_command, live_target,
    should_release_walk_before_dispatch, DispatchCommand, DispatchIntent, IntentView, ScrollItem,
};
use crate::hunt4::backend;
use crate::hunt4::backend::{
    active_path, are_tick_inputs, asked, attack_booked, attack_shows, is_backend_plan, is_outcome,
    is_no_progress_line, is_portal_line, is_teleport_line, lock_is_gone, portal_update,
    position_update, stalled_target, walk_tile_after, watch_prepared,
    BackendDispatchEvaluationInput, BackendDispatchInput, BackendPlanEvaluationInput,
    BackendTickInputsInput,
};
use crate::hunt4::context::{HuntContext, PureTickInputs};
use crate::hunt4::intent::{is_evaluation, DispatchEvaluation};
use crate::hunt4::memory::is_applied;
use crate::hunt4::observe::{intent_label, is_transition_line};
use crate::hunt4::plan::RuntimePlanEvaluation;
use crate::hunt4::model::EntityView;
use crate::hunt4::step::{ticked, ActionView, LastOutcome};
use crate::hunt4::step_laws::{law_safety_first, live_listed};
use crate::hunt4::tick::{first_action, is_tick, tick_input};
use crate::hunt4::world::WorldFrame;
use crate::minimap::NavMap;
use crate::time::Instant;
use std::collections::HashSet;
use vstd::prelude::*;

verus! {

/// What was observed for a tick, besides the world.
pub struct TickObservations<'a> {
    pub map: Option<&'a NavMap>,
    pub ranged_weapon: bool,
    pub server_recent_attackers: HashSet<u32>,
    pub skill_range_lookup: Option<u32>,
    pub skill_gate_lookup: Option<u64>,
    pub items: &'a Vec<ScrollItem>,
}

/// What is to be done in the game, before it is done.
#[derive(Debug)]
pub struct PlannedDispatch {
    pub intent: DispatchIntent,
    pub release_walk: bool,
    pub command: DispatchCommand,
    /// A line for the log on a tile that leads off a map.
    pub portal_line: Option<String>,
    /// A line for the log on an attack that has led nowhere.
    pub no_progress_line: Option<String>,
    /// A line for the log on a change of state.
    pub transition_line: Option<String>,
}

/// The context after the frame has been remembered.
pub open spec fn is_remembered(before: HuntContext, frame: WorldFrame, after: HuntContext) -> bool {
    exists|mid: HuntContext|
        {
            &&& #[trigger] is_map_change_recorded(before, frame, mid)
            &&& match frame.tile() {
                Some(pos) => is_applied(
                    mid.memory,
                    position_update(mid.memory, pos, frame.map_id, frame.now),
                    frame.now,
                    after.memory,
                ) && after == (HuntContext { memory: after.memory, ..mid }),
                None => after == mid,
            }
        }
}

/// The context after a change of maps has been remembered.
pub open spec fn is_map_change_recorded(
    before: HuntContext,
    frame: WorldFrame,
    after: HuntContext,
) -> bool {
    &&& is_applied(
        before.memory,
        portal_update(before.last_map_id, frame.map_id, before.last_walk_tile, frame.now),
        frame.now,
        after.memory,
    )
    &&& after == (HuntContext { memory: after.memory, last_map_id: frame.map_id, ..before })
}

/// The context once a plan has been kept and the watch over the attack has been
/// looked after.
pub open spec fn plan_kept(
    c: HuntContext,
    planning: RuntimePlanEvaluation,
    frame: WorldFrame,
    damaged: bool,
) -> HuntContext {
    watch_prepared(
        HuntContext {
            last_target_summary: if planning.plan_frame.ranked_targets@.len() > 0 {
                Some(planning.plan_frame.ranked_targets@[0])
            } else {
                None
            },
            last_route_next_tile: planning.plan_frame.selected_route_next_tile,
            last_route_reason: planning.plan_frame.selected_route_reason,
            last_teleport_reason: planning.plan_frame.teleport_reason,
            prev_hp: if frame.hp() is Some {
                frame.hp()
            } else {
                c.prev_hp
            },
            ..c
        },
        frame.now,
        damaged,
    )
}

/// The context once an intent has been chosen.
pub open spec fn choice_kept(
    c: HuntContext,
    e: DispatchEvaluation,
    telemetry: crate::hunt4::policy::PolicyTelemetry,
) -> HuntContext {
    HuntContext {
        policy_telemetry: telemetry,
        last_shadow_dispatch: Some(e.shadow_dispatch),
        last_dispatch_choice: Some(e.dispatch_choice),
        last_policy_comparison: Some(e.policy_comparison),
        last_action: Some(intent_label(e.dispatch_choice.intent@)),
        ..c
    }
}

/// The values in between of a tick up to its intent.
pub struct TickTrace<'a> {
    pub remembered: HuntContext,
    pub planned: HuntContext,
    pub planning: RuntimePlanEvaluation,
    pub ready: HuntContext,
    pub inputs: PureTickInputs<'a>,
    pub ticked: HuntContext,
    pub intent: DispatchIntent,
    pub evaluation: DispatchEvaluation,
}

/// A tick up to its intent goes through these values: the frame is remembered,
/// the plan made and kept, the step taken, and the intent chosen.
pub open spec fn is_trace(
    t: TickTrace<'_>,
    before: HuntContext,
    frame: WorldFrame,
    obs: TickObservations<'_>,
    cfg: HuntConfig,
    master_enabled: bool,
    events: PacketState,
    after: HuntContext,
) -> bool {
    &&& is_remembered(before, frame, t.remembered)
    &&& is_backend_plan(t.planning, plan_inputs(&frame, &cfg, obs), t.remembered, t.planned)
    &&& t.ready == plan_kept(
        t.planned,
        t.planning,
        frame,
        attack_shows(t.planned.state@, events, frame.now),
    )
    &&& are_inputs_of(t.inputs, frame, t.planning, master_enabled, t.ready, cfg, obs, events)
    &&& is_tick(t.ready, t.inputs, t.ticked, t.intent@)
    &&& is_evaluation(
        t.evaluation,
        t.planning.plan_frame,
        frame.snapshot.entities@,
        t.ticked.dispatch_state,
        t.intent@,
        t.ticked.policy_telemetry,
        after.policy_telemetry,
        cfg.v4_dispatch_takeover,
    )
    &&& after == choice_kept(t.ticked, t.evaluation, after.policy_telemetry)
}

pub open spec fn plan_inputs<'a>(
    frame: &'a WorldFrame,
    cfg: &'a HuntConfig,
    obs: TickObservations<'a>,
) -> BackendPlanEvaluationInput<'a> {
    BackendPlanEvaluationInput {
        world: frame,
        cfg,
        map: obs.map,
        ranged_weapon: obs.ranged_weapon,
        server_recent_attackers: obs.server_recent_attackers,
        skill_range_lookup: obs.skill_range_lookup,
        skill_gate_lookup: obs.skill_gate_lookup,
    }
}

pub open spec fn are_inputs_of(
    inputs: PureTickInputs<'_>,
    frame: WorldFrame,
    planning: RuntimePlanEvaluation,
    master_enabled: bool,
    ctx: HuntContext,
    cfg: HuntConfig,
    obs: TickObservations<'_>,
    events: PacketState,
) -> bool {
    are_tick_inputs(
        inputs,
        BackendTickInputsInput {
            world: &frame,
            planning: &planning,
            master_enabled,
            ctx: &ctx,
            cfg: &cfg,
            items: obs.items,
        },
        events,
    )
}

/// What a tick comes to before its intent is carried out.
pub open spec fn is_planned(
    r: PlannedDispatch,
    before: HuntContext,
    frame: WorldFrame,
    obs: TickObservations<'_>,
    cfg: HuntConfig,
    master_enabled: bool,
    events: PacketState,
    after: HuntContext,
) -> bool {
    exists|t: TickTrace<'static>| #[trigger]
        is_trace(t, before, frame, obs, cfg, master_enabled, events, after)
            && is_announced(r, t)
}

/// What a tick gives out of the values that it went through: the intent, and a
/// line for the log where the state changed.
pub open spec fn is_announced(r: PlannedDispatch, t: TickTrace<'_>) -> bool {
    &&& r.intent == t.evaluation.dispatch_choice.intent
    &&& is_transition_line(
        r.transition_line,
        ticked(t.ready.state@, &tick_input(&t.ready, t.inputs)).transition,
    )
}

/// The first half of a tick: remembers the frame, makes the plan, takes the step
/// and chooses the intent.
pub fn plan_tick(
    cfg: &HuntConfig,
    ctx: &mut HuntContext,
    master_enabled: bool,
    frame: &WorldFrame,
    obs: TickObservations<'_>,
    events: &mut PacketState,
) -> (r: PlannedDispatch)
    requires
        frame.now.has_room(),
    ensures
        is_planned(r, *old(ctx), *frame, obs, *cfg, master_enabled, *old(events), *final(ctx)),
        r.release_walk == !(r.intent@ is Walk),
        is_command(r.command, r.intent@, frame.player_pos_data, cfg.walk_driver),
        is_portal_line(
            r.portal_line,
            old(ctx).last_map_id,
            frame.map_id,
            old(ctx).last_walk_tile,
            frame.now,
        ),
        is_no_progress_line(
            r.no_progress_line,
            stalled_target(
                old(ctx).state@,
                old(ctx).attack_watch,
                frame.now,
                attack_shows(old(ctx).state@, *old(events), frame.now),
            ),
        ),
        final(events)@ == asked(old(events)@, old(ctx).state@, frame.now),
        final(events).player_ids == old(events).player_ids,
        final(events).debug_target_id == old(events).debug_target_id,
{
    let now: Instant = frame.now;
    let ghost before = *ctx;
    let ghost events0 = *events;
    let portal_line: Option<String> = backend::record_map_change_after_frame(
        ctx,
        frame.map_id,
        now,
    );
    let ghost mid = *ctx;
    assert(is_map_change_recorded(before, *frame, mid));
    backend::record_position_memory_after_frame(ctx, frame.player_tile(), frame.map_id, now);
    let ghost remembered = *ctx;
    assert(is_remembered(before, *frame, remembered));
    let ghost obs0 = obs;
    let items: &Vec<ScrollItem> = obs.items;
    let planning: RuntimePlanEvaluation = backend::evaluate_plan_for_backend(
        BackendPlanEvaluationInput {
            world: frame,
            cfg,
            map: obs.map,
            ranged_weapon: obs.ranged_weapon,
            server_recent_attackers: obs.server_recent_attackers,
            skill_range_lookup: obs.skill_range_lookup,
            skill_gate_lookup: obs.skill_gate_lookup,
        },
        ctx,
    );
    let ghost planned = *ctx;
    backend::record_plan_target_summary_after_evaluation(ctx, &planning);
    backend::advance_hp_baseline_after_plan(ctx, frame.cur_hp());
    let stale: Option<u32> = backend::prepare_attack_watch_before_tick(ctx, events, now);
    let ghost ready = *ctx;
    let ghost events1 = *events;
    assert(ready == plan_kept(
        planned,
        planning,
        *frame,
        attack_shows(planned.state@, events0, now),
    ));
    let inputs: PureTickInputs<'_> = backend::build_tick_inputs(
        BackendTickInputsInput { world: frame, planning: &planning, master_enabled, ctx, cfg, items },
        events,
    );
    proof {
        assert(events@ =~= asked(events0@, before.state@, now));
        assert(lock_is_gone(ready.state@, events1, now) == lock_is_gone(ready.state@, events0, now));
        assert(attack_shows(ready.state@, events1, now) == attack_shows(ready.state@, events0, now));
        assert(are_inputs_of(
            inputs,
            *frame,
            planning,
            master_enabled,
            ready,
            *cfg,
            obs0,
            events0,
        ));
    }
    let ghost inputs0 = inputs;
    let (backend_intent, transition_line): (DispatchIntent, Option<String>) =
        backend::run_pure_tick_for_backend(ctx, inputs);
    let ghost ticked = *ctx;
    let mut telemetry = ctx.policy_telemetry.clone();
    let evaluation: DispatchEvaluation = backend::evaluate_dispatch_for_backend(
        BackendDispatchEvaluationInput {
            planning: &planning,
            snapshot: &frame.snapshot,
            dispatch_state: &ctx.dispatch_state,
            backend_intent: &backend_intent,
            takeover_enabled: cfg.v4_dispatch_takeover,
        },
        &mut telemetry,
    );
    ctx.policy_telemetry = telemetry;
    let ghost evaluation0 = evaluation;
    let intent: DispatchIntent = backend::record_dispatch_diagnostics_after_evaluation(
        ctx,
        evaluation,
    );
    backend::record_actual_dispatch_action_after_choice(ctx, &intent);
    proof {
        let t = TickTrace {
            remembered,
            planned,
            planning,
            ready,
            inputs: inputs0,
            ticked,
            intent: backend_intent,
            evaluation: evaluation0,
        };
        assert(is_trace(t, before, *frame, obs0, *cfg, master_enabled, events0, *ctx));
    }
    let release_walk: bool = should_release_walk_before_dispatch(&intent);
    let command: DispatchCommand = dispatch_command(
        &intent,
        frame.player_pos_data,
        cfg.walk_driver,
    );
    PlannedDispatch {
        intent,
        release_walk,
        command,
        portal_line,
        no_progress_line: backend::no_progress_log_line(stale),
        transition_line,
    }
}

/// The context after an intent has been carried out.
pub open spec fn finished(
    c: HuntContext,
    cfg: HuntConfig,
    now: Instant,
    intent: IntentView,
    has_player: bool,
    done: bool,
    state: crate::hunt4::actions::DispatchState,
) -> HuntContext {
    let outcome = dispatched(intent, has_player, done);
    attack_booked(
        HuntContext {
            dispatch_state: state,
            last_walk_tile: walk_tile_after(c.last_walk_tile, intent, outcome),
            last_outcome: outcome,
            ..c
        },
        cfg,
        now,
        intent,
        outcome,
    )
}

/// The second half of a tick: records how the intent went, keeps the books,
/// shows the path, and says what the tick did. The text is for the log.
pub fn finish_tick(
    cfg: &HuntConfig,
    ctx: &mut HuntContext,
    frame: &WorldFrame,
    intent: &DispatchIntent,
    done: bool,
    shown: &mut BotPath,
) -> (r: (HuntOutcome, Option<String>))
    ensures
        final(ctx).dispatch_state.last_bootstrap_target == bootstrap_after(
            old(ctx).dispatch_state.last_bootstrap_target,
            intent@,
            done,
        ),
        *final(ctx) == finished(
            *old(ctx),
            *cfg,
            frame.now,
            intent@,
            frame.player_pos_data is Some,
            done,
            final(ctx).dispatch_state,
        ),
        final(shown).tiles@ == active_path(old(ctx).state@),
        is_outcome(
            r.0,
            intent@,
            frame.snapshot.entities@,
            frame.player_pos_data,
            dispatched(intent@, frame.player_pos_data is Some, done),
        ),
        is_teleport_line(
            r.1,
            intent@,
            dispatched(intent@, frame.player_pos_data is Some, done),
            frame.weight(),
        ),
{
    let mut state = ctx.dispatch_state;
    let (outcome, line): (LastOutcome, Option<String>) = backend::dispatch_for_backend(
        BackendDispatchInput {
            intent,
            player: frame.player_pos_data,
            done,
            player_weight: frame.weight_pct(),
        },
        &mut state,
    );
    ctx.dispatch_state = state;
    backend::record_dispatch_context_after_dispatch(ctx, intent, &outcome);
    backend::record_attack_bookkeeping_after_dispatch(ctx, cfg, frame.now, intent, &outcome);
    backend::publish_active_path(shown, &ctx.state);
    (
        backend::intent_to_outcome(intent, &frame.snapshot, frame.player_pos_data, &outcome),
        line,
    )
}

/// While the switch is off, or the player is not in the game or not alive,
/// nothing is done, whatever else is seen or planned.
pub proof fn law_nothing_is_done_while_off(
    r: PlannedDispatch,
    before: HuntContext,
    frame: WorldFrame,
    obs: TickObservations<'_>,
    cfg: HuntConfig,
    master_enabled: bool,
    events: PacketState,
    after: HuntContext,
)
    requires
        is_planned(r, before, frame, obs, cfg, master_enabled, events, after),
        !master_enabled || !frame.in_game || !frame.alive(),
    ensures
        r.intent@ is Noop,
        after.state@ is Disabled || after.state@ is Stopped,
{
    let t = choose|t: TickTrace<'static>| #[trigger]
        is_trace(t, before, frame, obs, cfg, master_enabled, events, after)
            && is_announced(r, t);
    law_safety_first(t.ready.state@, &tick_input(&t.ready, t.inputs));
}

/// An entity that is found to be attacked is there, and it is alive.
proof fn lemma_live_target(s: Seq<EntityView>, target_id: u32, entity_ptr: Option<u32>, from: int)
    requires
        0 <= from,
    ensures
        live_target(s, target_id, entity_ptr, from) matches Some(e) ==> live_listed(
            s,
            target_id,
            e.entity_ptr,
        ),
    decreases s.len() - from,
{
    if from < s.len() {
        lemma_live_target(s, target_id, entity_ptr, from + 1);
    }
}

/// An attack that is dispatched is on a target that is seen alive.
pub proof fn law_dispatches_attacks_on_the_living(
    r: PlannedDispatch,
    before: HuntContext,
    frame: WorldFrame,
    obs: TickObservations<'_>,
    cfg: HuntConfig,
    master_enabled: bool,
    events: PacketState,
    after: HuntContext,
)
    requires
        is_planned(r, before, frame, obs, cfg, master_enabled, events, after),
    ensures
        match r.intent@ {
            IntentView::BootstrapAttack { target_id, entity_ptr, .. } => live_listed(
                frame.snapshot.entities@,
                target_id,
                entity_ptr,
            ),
            IntentView::CastSkill { target_id, .. } => exists|i: int|
                0 <= i < frame.snapshot.entities@.len() && (
                #[trigger] frame.snapshot.entities@[i]).target_id == target_id
                    && frame.snapshot.entities@[i].live(),
            _ => true,
        },
{
    let t = choose|t: TickTrace<'static>| #[trigger]
        is_trace(t, before, frame, obs, cfg, master_enabled, events, after)
            && is_announced(r, t);
    let out = ticked(t.ready.state@, &tick_input(&t.ready, t.inputs));
    let action = first_action(out.actions);
    if let ActionView::AttackTarget { target_id, entity_ptr, .. } = action {
        let s = frame.snapshot.entities@;
        lemma_live_target(s, target_id, Some(entity_ptr), 0);
        lemma_live_target(s, target_id, None, 0);
    }
}

} // verus!
