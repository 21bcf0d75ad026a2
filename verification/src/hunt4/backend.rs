//! The pieces of a live tick around the plan and the step.
use crate::action::screen_target::PlayerPosition;
use crate::action::walk::{
    chebyshev_spec, heading_between, tile_distance, walk_step_toward, WalkTarget,
};
use crate::client::packet_state::{
    current, is_recent, target_recently_damaged, target_recently_removed_or_dead, EventMaps, Expiry,
    PacketState,
};
use crate::decide::hunt::{
    cd_skill, effective_sequence, AttackSequenceStep, HuntConfig, HuntOutcome,
};
use crate::decide::pathfind::{copy_tiles, set_bot_path, BotPath, MapWalkable};
use crate::hunt4::actions::{
    bootstrap_after, dispatch, dispatched, DispatchIntent, DispatchState, IntentView, ScrollItem,
};
use crate::hunt4::context::{
    advanced, due_step, looked_at, no_watch, opt_step, AttackProgressWatch, HuntContext,
    PureTickInputs, ATTACK_NO_PROGRESS_DURATION_MS,
};
use crate::hunt4::intent::{evaluate_dispatch_choice, is_evaluation, DispatchEvaluation};
use crate::hunt4::memory::{is_applied, no_update, MemoryUpdate, MemoryUpdateView, TacticalMemory};
use crate::hunt4::model::{EntityView, Snapshot};
use crate::hunt4::observe::{intent_label, is_transition_line, label_dispatch_intent};
use crate::hunt4::overlay::same_tile;
use crate::hunt4::plan;
use crate::hunt4::plan::{is_runtime_plan, RuntimePlanEvaluation, RuntimePlanEvaluationInput};
use crate::hunt4::policy::PolicyTelemetry;
use crate::hunt4::skill_cd::FALLBACK_GATE_MS;
use crate::hunt4::state::{EngageIntent, HuntState, HuntStateView};
use crate::hunt4::step::{copy_text, ticked, ExploreSuggestion, LastOutcome};
use crate::hunt4::tick;
use crate::hunt4::tick::{is_tick, tick_input};
use crate::hunt4::world::WorldFrame;
use crate::minimap::NavMap;
use crate::text::{
    decimal, hex, push_decimal, push_hex, push_signed, push_wide_decimal, signed_decimal, trim,
    trim_str,
};
use crate::time::{elapsed, ms_nanos, Instant};
use std::collections::HashSet;
use vstd::prelude::*;

verus! {

broadcast use vstd::std_specs::hash::group_hash_axioms;

/// The rest of a skill: none for a skill without a name; what is known; or what
/// was looked up, and the usual rest where that failed.
pub open spec fn gate_ms(
    known: Map<Seq<char>, u64>,
    name: Seq<char>,
    looked_up: Option<u64>,
) -> u64 {
    if name.len() == 0 {
        0
    } else if known.contains_key(name) {
        known[name]
    } else {
        match looked_up {
            Some(ms) => ms,
            None => FALLBACK_GATE_MS,
        }
    }
}

/// What is known of rests afterwards.
pub open spec fn gates_after(
    known: Map<Seq<char>, u64>,
    name: Seq<char>,
    looked_up: Option<u64>,
) -> Map<Seq<char>, u64> {
    if name.len() == 0 || known.contains_key(name) {
        known
    } else {
        known.insert(name, gate_ms(known, name, looked_up))
    }
}

/// Whether the rest of a skill has to be looked up.
pub fn needs_skill_gate_lookup(skill_name: &str, ctx: &HuntContext) -> (r: bool)
    ensures
        r == (trim(skill_name@).len() > 0 && !ctx.cached_skill_gate_ms@.contains_key(
            trim(skill_name@),
        )),
{
    let name: &str = trim_str(skill_name);
    !name.is_empty() && ctx.cached_skill_gate_ms.get(name).is_none()
}

/// The rest of a skill, by what was looked up where that was needed.
pub fn resolve_skill_gate_ms_for(skill_name: &str, looked_up: Option<u64>, ctx: &mut HuntContext) -> (r:
    u64)
    ensures
        r == gate_ms(old(ctx).cached_skill_gate_ms@, trim(skill_name@), looked_up),
        final(ctx).cached_skill_gate_ms@ == gates_after(
            old(ctx).cached_skill_gate_ms@,
            trim(skill_name@),
            looked_up,
        ),
        *final(ctx) == (HuntContext {
            cached_skill_gate_ms: final(ctx).cached_skill_gate_ms,
            ..*old(ctx)
        }),
{
    let name: &str = trim_str(skill_name);
    if name.is_empty() {
        return 0;
    }
    if let Some(ms) = ctx.cached_skill_gate_ms.get(name) {
        return ms;
    }
    let gate: u64 = match looked_up {
        Some(ms) => ms,
        None => FALLBACK_GATE_MS,
    };
    ctx.cached_skill_gate_ms.insert(name.to_owned(), gate);
    gate
}

/// The reach of a skill: none for a skill without a name; what is known; or what
/// was looked up, and none where that failed.
pub open spec fn skill_reach(
    known: Map<Seq<char>, u32>,
    name: Seq<char>,
    looked_up: Option<u32>,
) -> u32 {
    if name.len() == 0 {
        0
    } else if known.contains_key(name) {
        known[name]
    } else {
        match looked_up {
            Some(range) => range,
            None => 0,
        }
    }
}

/// What is known of reaches afterwards.
pub open spec fn reaches_after(
    known: Map<Seq<char>, u32>,
    name: Seq<char>,
    looked_up: Option<u32>,
) -> Map<Seq<char>, u32> {
    if name.len() == 0 || known.contains_key(name) {
        known
    } else {
        known.insert(name, skill_reach(known, name, looked_up))
    }
}

/// Whether the reach of a skill has to be looked up.
pub fn needs_skill_range_lookup(skill_name: &str, ctx: &HuntContext) -> (r: bool)
    ensures
        r == (trim(skill_name@).len() > 0 && !ctx.cached_skill_range@.contains_key(
            trim(skill_name@),
        )),
{
    let name: &str = trim_str(skill_name);
    !name.is_empty() && ctx.cached_skill_range.get(name).is_none()
}

/// The reach of a skill, by what was looked up where that was needed.
pub fn resolve_skill_range_for(skill_name: &str, looked_up: Option<u32>, ctx: &mut HuntContext) -> (r:
    u32)
    ensures
        r == skill_reach(old(ctx).cached_skill_range@, trim(skill_name@), looked_up),
        final(ctx).cached_skill_range@ == reaches_after(
            old(ctx).cached_skill_range@,
            trim(skill_name@),
            looked_up,
        ),
        *final(ctx) == (HuntContext {
            cached_skill_range: final(ctx).cached_skill_range,
            ..*old(ctx)
        }),
{
    let name: &str = trim_str(skill_name);
    if name.is_empty() {
        return 0;
    }
    if let Some(range) = ctx.cached_skill_range.get(name) {
        return range;
    }
    let range: u32 = match looked_up {
        Some(range) => range,
        None => 0,
    };
    ctx.cached_skill_range.insert(name.to_owned(), range);
    range
}

/// A looked-up value is looked up once: from then on it is what is known.
pub proof fn law_lookup_once(
    known: Map<Seq<char>, u64>,
    name: Seq<char>,
    first: Option<u64>,
    second: Option<u64>,
)
    ensures
        gate_ms(gates_after(known, name, first), name, second) == gate_ms(known, name, first),
        gates_after(gates_after(known, name, first), name, second) == gates_after(
            known,
            name,
            first,
        ),
{
}

/// What a plan is made from.
pub struct BackendPlanEvaluationInput<'a> {
    pub world: &'a WorldFrame,
    pub cfg: &'a HuntConfig,
    /// The map of the world, where it could be loaded.
    pub map: Option<&'a NavMap>,
    pub ranged_weapon: bool,
    pub server_recent_attackers: HashSet<u32>,
    /// What was looked up of the skill that is due.
    pub skill_range_lookup: Option<u32>,
    pub skill_gate_lookup: Option<u64>,
}

/// The map counts only while a character is in the world.
pub open spec fn live_map<'a>(input: BackendPlanEvaluationInput<'a>) -> Option<&'a NavMap> {
    if input.world.in_game {
        input.map
    } else {
        None
    }
}

/// The skill of a step that may be missing.
pub open spec fn step_skill(step: Option<AttackSequenceStep>) -> Option<Seq<char>> {
    match step {
        Some(s) => cd_skill(s@),
        None => None,
    }
}

/// What the plan goes by, for the step that is due.
pub open spec fn plan_input<'a>(
    input: BackendPlanEvaluationInput<'a>,
    ctx: &'a HuntContext,
    step: &'a Option<AttackSequenceStep>,
    grid: &'a Option<MapWalkable<'a>>,
) -> RuntimePlanEvaluationInput<'a, MapWalkable<'a>> {
    RuntimePlanEvaluationInput {
        world: input.world,
        player_tile: match input.world.tile() {
            Some(t) => t,
            None => (0, 0),
        },
        ranged_weapon: input.ranged_weapon,
        grid: match grid {
            Some(g) => Some(g),
            None => None,
        },
        map_profile: match live_map(input) {
            Some(map) => Some(&map.profile),
            None => None,
        },
        memory: &ctx.memory,
        previous_hp: ctx.prev_hp,
        current_hp: input.world.hp(),
        max_hp: input.world.max_hp(),
        damage_spike_hp_percent: input.cfg.damage_spike_hp_percent,
        server_recent_attackers: input.server_recent_attackers,
        selected_attack_step: match step {
            Some(s) => Some(s),
            None => None,
        },
        selected_skill_range: match step_skill(*step) {
            Some(name) => Some(
                skill_reach(ctx.cached_skill_range@, trim(name), input.skill_range_lookup),
            ),
            None => None,
        },
        selected_skill_cd_ms: match step_skill(*step) {
            Some(name) => Some(
                gate_ms(ctx.cached_skill_gate_ms@, trim(name), input.skill_gate_lookup),
            ),
            None => None,
        },
        last_skill_cast: ctx.memory.last_skill_cast,
        post_skill_basic_pending_target: ctx.memory.post_skill_basic_pending_target,
    }
}

/// The map as a grid to walk on.
pub open spec fn live_grid<'a>(input: BackendPlanEvaluationInput<'a>) -> Option<MapWalkable<'a>> {
    match live_map(input) {
        Some(map) => Some(MapWalkable { map }),
        None => None,
    }
}

/// The plan for a step, and what is known of its skill afterwards.
pub open spec fn is_plan_for_step(
    r: RuntimePlanEvaluation,
    input: BackendPlanEvaluationInput<'_>,
    before: HuntContext,
    after: HuntContext,
    step: Option<AttackSequenceStep>,
) -> bool {
    &&& is_runtime_plan(r, plan_input(input, &before, &step, &live_grid(input)))
    &&& after.cached_skill_range@ == (match step_skill(step) {
        Some(name) => reaches_after(
            before.cached_skill_range@,
            trim(name),
            input.skill_range_lookup,
        ),
        None => before.cached_skill_range@,
    })
    &&& after.cached_skill_gate_ms@ == (match step_skill(step) {
        Some(name) => gates_after(
            before.cached_skill_gate_ms@,
            trim(name),
            input.skill_gate_lookup,
        ),
        None => before.cached_skill_gate_ms@,
    })
}

/// What `evaluate_plan_for_backend` returns and leaves in the context.
pub open spec fn is_backend_plan(
    r: RuntimePlanEvaluation,
    input: BackendPlanEvaluationInput<'_>,
    before: HuntContext,
    after: HuntContext,
) -> bool {
    let steps = effective_sequence(*input.cfg);
    &&& after == (HuntContext {
        attack_sequence: looked_at(before.attack_sequence, steps, input.world.now),
        cached_skill_range: after.cached_skill_range,
        cached_skill_gate_ms: after.cached_skill_gate_ms,
        ..before
    })
    &&& exists|step: Option<AttackSequenceStep>|
        opt_step(step) == due_step(before.attack_sequence, steps, input.world.now)
            && #[trigger] is_plan_for_step(r, input, before, after, step)
}

/// The skill that is due, whose reach and rest the plan needs.
pub fn due_skill(ctx: &HuntContext, cfg: &HuntConfig, now: Instant) -> (r: Option<String>)
    ensures
        match due_step(ctx.attack_sequence, effective_sequence(*cfg), now) {
            Some(step) => match cd_skill(step) {
                Some(name) => r matches Some(s) && s@ == name,
                None => r is None,
            },
            None => r is None,
        },
{
    let mut sequence = ctx.attack_sequence;
    match sequence.current_step(cfg, now) {
        Some(step) => match step.skill_for_cd() {
            Some(name) => Some(name.to_owned()),
            None => None,
        },
        None => None,
    }
}

/// Makes the plan of a live tick.
pub fn evaluate_plan_for_backend(input: BackendPlanEvaluationInput<'_>, ctx: &mut HuntContext) -> (r:
    RuntimePlanEvaluation)
    ensures
        is_backend_plan(r, input, *old(ctx), *final(ctx)),
{
    let ghost before = *ctx;
    let map: Option<&NavMap> = if input.world.in_game {
        input.map
    } else {
        None
    };
    let grid: Option<MapWalkable<'_>> = match map {
        Some(map) => Some(MapWalkable { map }),
        None => None,
    };
    let player_tile: (i32, i32) = match input.world.player_tile() {
        Some(t) => t,
        None => (0, 0),
    };
    let step: Option<AttackSequenceStep> = ctx.attack_sequence.current_step(
        input.cfg,
        input.world.now,
    );
    let mut selected_skill_range: Option<u32> = None;
    let mut selected_skill_cd_ms: Option<u64> = None;
    if let Some(s) = &step {
        if let Some(name) = s.skill_for_cd() {
            selected_skill_range = Some(
                resolve_skill_range_for(name, input.skill_range_lookup, ctx),
            );
            selected_skill_cd_ms = Some(
                resolve_skill_gate_ms_for(name, input.skill_gate_lookup, ctx),
            );
        }
    }
    let grid_ref: Option<&MapWalkable<'_>> = match &grid {
        Some(g) => Some(g),
        None => None,
    };
    let step_ref: Option<&AttackSequenceStep> = match &step {
        Some(s) => Some(s),
        None => None,
    };
    let map_profile = match map {
        Some(map) => Some(&map.profile),
        None => None,
    };
    let r = plan::evaluate_runtime_plan(
        RuntimePlanEvaluationInput {
            world: input.world,
            player_tile,
            ranged_weapon: input.ranged_weapon,
            grid: grid_ref,
            map_profile,
            memory: &ctx.memory,
            previous_hp: ctx.prev_hp,
            current_hp: input.world.cur_hp(),
            max_hp: input.world.cur_max_hp(),
            damage_spike_hp_percent: input.cfg.damage_spike_hp_percent,
            server_recent_attackers: input.server_recent_attackers,
            selected_attack_step: step_ref,
            selected_skill_range,
            selected_skill_cd_ms,
            last_skill_cast: ctx.memory.last_skill_cast,
            post_skill_basic_pending_target: ctx.memory.post_skill_basic_pending_target,
        },
    );
    assert(is_plan_for_step(r, input, before, *ctx, step));
    r
}

pub struct BackendDispatchEvaluationInput<'a> {
    pub planning: &'a RuntimePlanEvaluation,
    pub snapshot: &'a Snapshot,
    pub dispatch_state: &'a DispatchState,
    pub backend_intent: &'a DispatchIntent,
    pub takeover_enabled: bool,
}

/// Compares the intent of a tick with what the plan alone would do.
pub fn evaluate_dispatch_for_backend(
    input: BackendDispatchEvaluationInput<'_>,
    policy_telemetry: &mut PolicyTelemetry,
) -> (r: DispatchEvaluation)
    ensures
        is_evaluation(
            r,
            input.planning.plan_frame,
            input.snapshot.entities@,
            *input.dispatch_state,
            input.backend_intent@,
            *old(policy_telemetry),
            *final(policy_telemetry),
            input.takeover_enabled,
        ),
{
    evaluate_dispatch_choice(
        &input.planning.plan_frame,
        input.snapshot,
        input.dispatch_state,
        input.backend_intent,
        policy_telemetry,
        input.takeover_enabled,
    )
}

/// The target that the hunt is locked on.
pub open spec fn locked_id(state: HuntStateView) -> Option<u32> {
    match state {
        HuntStateView::Engaging { lock, .. } => Some(lock.target_id),
        _ => None,
    }
}

/// The target that is being attacked.
pub open spec fn attacked_id(state: HuntStateView) -> Option<u32> {
    match state {
        HuntStateView::Engaging { lock, intent, .. } => if intent is Attack {
            Some(lock.target_id)
        } else {
            None
        },
        _ => None,
    }
}

fn current_lock_target_id(state: &HuntState) -> (r: Option<u32>)
    ensures
        r == locked_id(state@),
{
    match state {
        HuntState::Engaging { lock, .. } => Some(lock.target_id),
        _ => None,
    }
}

fn current_attacking_lock_target_id(state: &HuntState) -> (r: Option<u32>)
    ensures
        r == attacked_id(state@),
{
    match state {
        HuntState::Engaging { lock, intent, .. } => match intent {
            EngageIntent::Attack => Some(lock.target_id),
            _ => None,
        },
        _ => None,
    }
}

/// The server says of the locked target that it is gone.
pub open spec fn lock_is_gone(state: HuntStateView, events: PacketState, now: Instant) -> bool {
    locked_id(state) matches Some(id) && is_recent(events@.removed, id, now)
}

/// The server says of the attacked target that it was damaged.
pub open spec fn attack_shows(state: HuntStateView, events: PacketState, now: Instant) -> bool {
    attacked_id(state) matches Some(id) && is_recent(events@.damaged, id, now)
}

/// What is kept of the targets that are gone, once the locked one was asked for.
pub open spec fn removed_asked(m: EventMaps, state: HuntStateView, now: Instant) -> Map<u32, Expiry> {
    if locked_id(state) is Some {
        current(m.removed, now)
    } else {
        m.removed
    }
}

/// What is kept of the damaged targets, once the attacked one was asked for.
pub open spec fn damaged_asked(m: EventMaps, state: HuntStateView, now: Instant) -> Map<u32, Expiry> {
    if attacked_id(state) is Some {
        current(m.damaged, now)
    } else {
        m.damaged
    }
}

/// What the server said, once it was asked of the locked target.
pub open spec fn asked(m: EventMaps, state: HuntStateView, now: Instant) -> EventMaps {
    EventMaps {
        removed: removed_asked(m, state, now),
        damaged: damaged_asked(m, state, now),
        attackers: m.attackers,
    }
}

pub fn locked_target_removed_or_dead(ctx: &HuntContext, events: &mut PacketState, now: Instant) -> (r:
    bool)
    ensures
        r == lock_is_gone(ctx.state@, *old(events), now),
        final(events)@ == (EventMaps {
            removed: removed_asked(old(events)@, ctx.state@, now),
            ..old(events)@
        }),
        final(events).player_ids == old(events).player_ids,
        final(events).debug_target_id == old(events).debug_target_id,
{
    match current_lock_target_id(&ctx.state) {
        Some(id) => target_recently_removed_or_dead(events, id, now),
        None => false,
    }
}

pub fn locked_target_recently_damaged(ctx: &HuntContext, events: &mut PacketState, now: Instant) -> (r:
    bool)
    ensures
        r == attack_shows(ctx.state@, *old(events), now),
        final(events)@ == (EventMaps {
            damaged: damaged_asked(old(events)@, ctx.state@, now),
            ..old(events)@
        }),
        final(events).player_ids == old(events).player_ids,
        final(events).debug_target_id == old(events).debug_target_id,
{
    match current_attacking_lock_target_id(&ctx.state) {
        Some(id) => target_recently_damaged(events, id, now),
        None => false,
    }
}

/// An item answers to a keyword that is not blank.
pub open spec fn has_scroll(keyword: Seq<char>, items: Seq<ScrollItem>) -> bool {
    trim(keyword).len() > 0 && exists|i: int|
        0 <= i < items.len() && (#[trigger] items[i]).matches_keyword
}

/// Whether there is a scroll to teleport with.
pub fn check_teleport_scroll_available(keyword: &str, items: &Vec<ScrollItem>) -> (r: bool)
    ensures
        r == has_scroll(keyword@, items@),
{
    if trim_str(keyword).is_empty() {
        return false;
    }
    let mut i: usize = 0;
    while i < items.len()
        invariant
            i <= items@.len(),
            trim(keyword@).len() > 0,
            forall|j: int| 0 <= j < i ==> !(#[trigger] items@[j]).matches_keyword,
        decreases items@.len() - i,
    {
        if items[i].matches_keyword {
            assert(items@[i as int].matches_keyword);
            return true;
        }
        i = i + 1;
    }
    false
}

pub struct BackendTickInputsInput<'a, 'ctx> {
    pub world: &'a WorldFrame,
    pub planning: &'a RuntimePlanEvaluation,
    pub master_enabled: bool,
    pub ctx: &'ctx HuntContext,
    pub cfg: &'a HuntConfig,
    /// What is in the inventory.
    pub items: &'ctx Vec<ScrollItem>,
}

/// What `build_tick_inputs` returns.
pub open spec fn are_tick_inputs(
    r: PureTickInputs<'_>,
    input: BackendTickInputsInput<'_, '_>,
    events: PacketState,
) -> bool {
    &&& *r.snapshot == input.world.snapshot
    &&& r.candidates@ == input.planning.candidate_frame.candidates@
    &&& match input.planning.explore {
        Some(e) => r.explore == Some(&e),
        None => r.explore is None,
    }
    &&& r.player_pos == input.world.tile()
    &&& r.player_alive == input.world.alive()
    &&& r.master_enabled == input.master_enabled
    &&& r.in_game == input.world.in_game
    &&& r.now == input.world.now
    &&& r.state_since == input.ctx.since
    &&& *r.cfg == *input.cfg
    &&& r.teleport_scroll_available == has_scroll(input.cfg.teleport_scroll_name@, input.items@)
    &&& r.damage_spike_detected == input.planning.damage_spike_detected
    &&& r.critical_hp_detected == input.planning.critical_hp_detected
    &&& r.locked_target_removed_or_dead == lock_is_gone(input.ctx.state@, events, input.world.now)
    &&& r.locked_target_recently_damaged == attack_shows(input.ctx.state@, events, input.world.now)
    &&& r.skill_cd_ms == input.planning.backend_skill_cd_ms
    &&& r.attack_step == input.planning.backend_attack_step
}

/// Puts together what a tick goes by.
pub fn build_tick_inputs<'a>(input: BackendTickInputsInput<'a, '_>, events: &mut PacketState) -> (r:
    PureTickInputs<'a>)
    ensures
        are_tick_inputs(r, input, *old(events)),
        final(events)@ == asked(old(events)@, input.ctx.state@, input.world.now),
        final(events).player_ids == old(events).player_ids,
        final(events).debug_target_id == old(events).debug_target_id,
{
    let now: Instant = input.world.now;
    let gone: bool = locked_target_removed_or_dead(input.ctx, events, now);
    let damaged: bool = locked_target_recently_damaged(input.ctx, events, now);
    let explore: Option<&ExploreSuggestion> = match &input.planning.explore {
        Some(e) => Some(e),
        None => None,
    };
    PureTickInputs {
        snapshot: &input.world.snapshot,
        candidates: input.planning.candidate_frame.candidates.as_slice(),
        explore,
        player_pos: input.world.player_tile(),
        player_alive: input.world.player_alive(),
        master_enabled: input.master_enabled,
        in_game: input.world.in_game,
        now,
        state_since: input.ctx.since,
        cfg: input.cfg,
        teleport_scroll_available: check_teleport_scroll_available(
            input.cfg.teleport_scroll_name.as_str(),
            input.items,
        ),
        damage_spike_detected: input.planning.damage_spike_detected,
        critical_hp_detected: input.planning.critical_hp_detected,
        locked_target_removed_or_dead: gone,
        locked_target_recently_damaged: damaged,
        skill_cd_ms: input.planning.backend_skill_cd_ms,
        attack_step: input.planning.backend_attack_step.clone(),
    }
}

/// Takes one tick. The text is for the log.
pub fn run_pure_tick_for_backend(ctx: &mut HuntContext, inputs: PureTickInputs<'_>) -> (r: (
    DispatchIntent,
    Option<String>,
))
    requires
        inputs.now.has_room(),
    ensures
        is_tick(*old(ctx), inputs, *final(ctx), r.0@),
        is_transition_line(
            r.1,
            ticked(old(ctx).state@, &tick_input(&*old(ctx), inputs)).transition,
        ),
{
    tick::pure_tick(ctx, inputs)
}

/// Keeps what a plan says of its best target and its route.
pub fn record_plan_target_summary_after_evaluation(
    ctx: &mut HuntContext,
    planning: &RuntimePlanEvaluation,
)
    ensures
        *final(ctx) == (HuntContext {
            last_target_summary: if planning.plan_frame.ranked_targets@.len() > 0 {
                Some(planning.plan_frame.ranked_targets@[0])
            } else {
                None
            },
            last_route_next_tile: planning.plan_frame.selected_route_next_tile,
            last_route_reason: planning.plan_frame.selected_route_reason,
            last_teleport_reason: planning.plan_frame.teleport_reason,
            ..*old(ctx)
        }),
{
    ctx.last_target_summary = match planning.plan_frame.top_target() {
        Some(t) => Some(t.clone()),
        None => None,
    };
    ctx.last_route_next_tile = planning.plan_frame.selected_route_next_tile;
    ctx.last_route_reason = copy_text(&planning.plan_frame.selected_route_reason);
    ctx.last_teleport_reason = copy_text(&planning.plan_frame.teleport_reason);
}

/// Keeps how the choice of an intent came about, and gives out the intent.
pub fn record_dispatch_diagnostics_after_evaluation(
    ctx: &mut HuntContext,
    evaluation: DispatchEvaluation,
) -> (r: DispatchIntent)
    ensures
        r == evaluation.dispatch_choice.intent,
        *final(ctx) == (HuntContext {
            last_shadow_dispatch: Some(evaluation.shadow_dispatch),
            last_dispatch_choice: Some(evaluation.dispatch_choice),
            last_policy_comparison: Some(evaluation.policy_comparison),
            ..*old(ctx)
        }),
{
    let dispatch_intent: DispatchIntent = evaluation.dispatch_choice.intent.clone();
    ctx.last_shadow_dispatch = Some(evaluation.shadow_dispatch);
    ctx.last_dispatch_choice = Some(evaluation.dispatch_choice);
    ctx.last_policy_comparison = Some(evaluation.policy_comparison);
    dispatch_intent
}

pub fn record_actual_dispatch_action_after_choice(ctx: &mut HuntContext, intent: &DispatchIntent)
    ensures
        *final(ctx) == (HuntContext { last_action: Some(intent_label(intent@)), ..*old(ctx) }),
{
    ctx.last_action = Some(label_dispatch_intent(intent));
}

pub struct BackendDispatchInput<'a> {
    pub intent: &'a DispatchIntent,
    pub player: Option<PlayerPosition>,
    /// Whether what was done outside succeeded.
    pub done: bool,
    pub player_weight: u8,
}

/// How an outcome is written out.
pub open spec fn outcome_text(o: LastOutcome) -> Seq<char> {
    match o {
        LastOutcome::NoOutcome => "None"@,
        LastOutcome::WalkOk => "WalkOk"@,
        LastOutcome::WalkFailed { attempted_tile } => "WalkFailed { attempted_tile: ("@
            + signed_decimal(attempted_tile.0 as int) + ", "@ + signed_decimal(
            attempted_tile.1 as int,
        ) + ") }"@,
        LastOutcome::AttackOk { target_id } => "AttackOk { target_id: "@ + decimal(
            target_id as nat,
        ) + " }"@,
        LastOutcome::AttackFailed { target_id } => "AttackFailed { target_id: "@ + decimal(
            target_id as nat,
        ) + " }"@,
        LastOutcome::AttackNoProgress { target_id } => "AttackNoProgress { target_id: "@ + decimal(
            target_id as nat,
        ) + " }"@,
        LastOutcome::ScrollOk => "ScrollOk"@,
        LastOutcome::ScrollFailed => "ScrollFailed"@,
    }
}

fn push_outcome(out: &mut String, o: &LastOutcome)
    ensures
        final(out)@ == old(out)@ + outcome_text(*o),
{
    match o {
        LastOutcome::NoOutcome => out.append("None"),
        LastOutcome::WalkOk => out.append("WalkOk"),
        LastOutcome::WalkFailed { attempted_tile } => {
            out.append("WalkFailed { attempted_tile: (");
            push_signed(out, attempted_tile.0);
            out.append(", ");
            push_signed(out, attempted_tile.1);
            out.append(") }");
        },
        LastOutcome::AttackOk { target_id } => {
            out.append("AttackOk { target_id: ");
            push_decimal(out, *target_id as u64);
            out.append(" }");
        },
        LastOutcome::AttackFailed { target_id } => {
            out.append("AttackFailed { target_id: ");
            push_decimal(out, *target_id as u64);
            out.append(" }");
        },
        LastOutcome::AttackNoProgress { target_id } => {
            out.append("AttackNoProgress { target_id: ");
            push_decimal(out, *target_id as u64);
            out.append(" }");
        },
        LastOutcome::ScrollOk => out.append("ScrollOk"),
        LastOutcome::ScrollFailed => out.append("ScrollFailed"),
    }
    assert(final(out)@ =~= old(out)@ + outcome_text(*o));
}

/// The line that the log gets on a teleport.
pub open spec fn teleport_line(keyword: Seq<char>, outcome: LastOutcome, weight: u8) -> Seq<char> {
    "[bot/hunt4/teleport] attempt keyword=\""@ + keyword + "\" outcome="@ + outcome_text(outcome)
        + " weight="@ + decimal(weight as nat) + "%"@
}

/// There is a line for the log where the intent was a teleport.
pub open spec fn is_teleport_line(
    line: Option<String>,
    intent: IntentView,
    outcome: LastOutcome,
    weight: u8,
) -> bool {
    match intent {
        IntentView::UseScroll { name_keyword } => line matches Some(text) && text@ == teleport_line(
            name_keyword,
            outcome,
            weight,
        ),
        _ => line is None,
    }
}

pub fn log_teleport_scroll_attempt(intent: &DispatchIntent, outcome: &LastOutcome, player_weight: u8) -> (r:
    Option<String>)
    ensures
        is_teleport_line(r, intent@, *outcome, player_weight),
{
    match intent {
        DispatchIntent::UseScroll { name_keyword } => {
            let mut out = String::new();
            out.append("[bot/hunt4/teleport] attempt keyword=\"");
            out.append(name_keyword.as_str());
            out.append("\" outcome=");
            push_outcome(&mut out, outcome);
            out.append(" weight=");
            push_decimal(&mut out, player_weight as u64);
            out.append("%");
            assert(out@ =~= teleport_line(name_keyword@, *outcome, player_weight));
            Some(out)
        },
        _ => None,
    }
}

/// Records how an intent went, with a line for the log on a teleport.
pub fn dispatch_for_backend(input: BackendDispatchInput<'_>, state: &mut DispatchState) -> (r: (
    LastOutcome,
    Option<String>,
))
    ensures
        r.0 == dispatched(input.intent@, input.player is Some, input.done),
        final(state).last_bootstrap_target == bootstrap_after(
            old(state).last_bootstrap_target,
            input.intent@,
            input.done,
        ),
        is_teleport_line(r.1, input.intent@, r.0, input.player_weight),
{
    let outcome: LastOutcome = dispatch(input.intent, input.player, input.done, state);
    let line: Option<String> = log_teleport_scroll_attempt(
        input.intent,
        &outcome,
        input.player_weight,
    );
    (outcome, line)
}

/// The watch over an attack before a tick.
pub open spec fn watched(
    state: HuntStateView,
    watch: AttackProgressWatch,
    now: Instant,
    damaged: bool,
) -> AttackProgressWatch {
    match attacked_id(state) {
        None => no_watch(),
        Some(id) => if watch.target_id != Some(id) {
            AttackProgressWatch { target_id: Some(id), no_progress_since: Some(now) }
        } else if damaged {
            AttackProgressWatch { no_progress_since: Some(now), ..watch }
        } else if stalled_target(state, watch, now, damaged) is Some {
            no_watch()
        } else {
            watch
        },
    }
}

/// The target on which an attack has led nowhere for too long.
pub open spec fn stalled_target(
    state: HuntStateView,
    watch: AttackProgressWatch,
    now: Instant,
    damaged: bool,
) -> Option<u32> {
    match attacked_id(state) {
        None => None,
        Some(id) => if watch.target_id == Some(id) && !damaged && watch.no_progress_since is Some
            && elapsed(now, watch.no_progress_since->0) >= ms_nanos(
            ATTACK_NO_PROGRESS_DURATION_MS as int,
        ) {
            Some(id)
        } else {
            None
        },
    }
}

/// What `prepare_attack_watch_before_tick_with_damage_observation` leaves.
pub open spec fn watch_prepared(before: HuntContext, now: Instant, damaged: bool) -> HuntContext {
    let stale = stalled_target(before.state@, before.attack_watch, now, damaged);
    HuntContext {
        attack_watch: watched(before.state@, before.attack_watch, now, damaged),
        last_target_progress: if attacked_id(before.state@) is Some && before.attack_watch.target_id
            == attacked_id(before.state@) && damaged {
            Some(now)
        } else {
            before.last_target_progress
        },
        last_outcome: match stale {
            Some(target_id) => LastOutcome::AttackNoProgress { target_id },
            None => before.last_outcome,
        },
        ..before
    }
}

fn update_attack_watch_before_tick(
    ctx: &mut HuntContext,
    now: Instant,
    target_damaged_recently: bool,
) -> (r: Option<u32>)
    ensures
        r == stalled_target(
            old(ctx).state@,
            old(ctx).attack_watch,
            now,
            target_damaged_recently,
        ),
        r is None ==> *final(ctx) == watch_prepared(*old(ctx), now, target_damaged_recently),
        r is Some ==> *final(ctx) == *old(ctx),
{
    let target_id: u32 = match current_attacking_lock_target_id(&ctx.state) {
        Some(id) => id,
        None => {
            ctx.attack_watch = AttackProgressWatch::default();
            return None;
        },
    };
    let same: bool = match ctx.attack_watch.target_id {
        Some(id) => id == target_id,
        None => false,
    };
    if !same {
        ctx.attack_watch = AttackProgressWatch {
            target_id: Some(target_id),
            no_progress_since: Some(now),
        };
        return None;
    }
    if target_damaged_recently {
        ctx.last_target_progress = Some(now);
        ctx.attack_watch.no_progress_since = Some(now);
        return None;
    }
    match ctx.attack_watch.no_progress_since {
        Some(since) => if now.within_ms(since, ATTACK_NO_PROGRESS_DURATION_MS) {
            None
        } else {
            Some(target_id)
        },
        None => None,
    }
}

/// The line that the log gets when an attack is given up.
pub open spec fn no_progress_line(target_id: u32) -> Seq<char> {
    "[bot/hunt4/target] no damage progress target=0x"@ + hex(target_id as nat)
        + " mark_attack_failed=true"@
}

/// There is a line for the log where an attack has led nowhere for too long.
pub open spec fn is_no_progress_line(line: Option<String>, stale: Option<u32>) -> bool {
    match stale {
        Some(target_id) => line matches Some(text) && text@ == no_progress_line(target_id),
        None => line is None,
    }
}

/// The line for the log on an attack that has led nowhere, if there is one.
pub fn no_progress_log_line(stale: Option<u32>) -> (r: Option<String>)
    ensures
        is_no_progress_line(r, stale),
{
    match stale {
        Some(target_id) => {
            let mut out = String::new();
            out.append("[bot/hunt4/target] no damage progress target=0x");
            push_hex(&mut out, target_id);
            out.append(" mark_attack_failed=true");
            assert(out@ =~= no_progress_line(target_id));
            Some(out)
        },
        None => None,
    }
}

/// Looks after the watch over an attack. An attack that has led nowhere for too
/// long counts as failed; its target is given out.
pub fn prepare_attack_watch_before_tick_with_damage_observation(
    ctx: &mut HuntContext,
    now: Instant,
    target_damaged_recently: bool,
) -> (r: Option<u32>)
    ensures
        r == stalled_target(
            old(ctx).state@,
            old(ctx).attack_watch,
            now,
            target_damaged_recently,
        ),
        *final(ctx) == watch_prepared(*old(ctx), now, target_damaged_recently),
{
    let stale: Option<u32> = update_attack_watch_before_tick(ctx, now, target_damaged_recently);
    if let Some(target_id) = stale {
        ctx.last_outcome = LastOutcome::AttackNoProgress { target_id };
        ctx.attack_watch = AttackProgressWatch::default();
    }
    stale
}

/// The same, with what the server says of damage.
pub fn prepare_attack_watch_before_tick(
    ctx: &mut HuntContext,
    events: &mut PacketState,
    now: Instant,
) -> (r: Option<u32>)
    ensures
        ({
            let damaged = attack_shows(old(ctx).state@, *old(events), now);
            &&& r == stalled_target(old(ctx).state@, old(ctx).attack_watch, now, damaged)
            &&& *final(ctx) == watch_prepared(*old(ctx), now, damaged)
        }),
        final(events)@ == (EventMaps {
            damaged: damaged_asked(old(events)@, old(ctx).state@, now),
            ..old(events)@
        }),
        final(events).player_ids == old(events).player_ids,
        final(events).debug_target_id == old(events).debug_target_id,
{
    let damaged: bool = locked_target_recently_damaged(ctx, events, now);
    prepare_attack_watch_before_tick_with_damage_observation(ctx, now, damaged)
}

/// A target is given up only after it has been attacked without observed damage
/// for the whole time; damage starts the time over.
pub proof fn law_stalled_only_after_a_while(
    state: HuntStateView,
    watch: AttackProgressWatch,
    now: Instant,
    later: Instant,
    damaged: bool,
)
    requires
        attacked_id(state) is Some,
        now.has_room(),
        later.nanos < now.nanos + ms_nanos(ATTACK_NO_PROGRESS_DURATION_MS as int),
        watch.target_id != attacked_id(state) || damaged,
    ensures
        stalled_target(state, watch, now, damaged) is None,
        stalled_target(state, watched(state, watch, now, damaged), later, false) is None,
{
}

/// The watch over an attack after a dispatch.
pub open spec fn watch_after(
    watch: AttackProgressWatch,
    outcome: LastOutcome,
    now: Instant,
) -> AttackProgressWatch {
    match outcome {
        LastOutcome::AttackOk { target_id } => if watch.target_id != Some(target_id) {
            AttackProgressWatch { target_id: Some(target_id), no_progress_since: Some(now) }
        } else if watch.no_progress_since is None {
            AttackProgressWatch { no_progress_since: Some(now), ..watch }
        } else {
            watch
        },
        LastOutcome::AttackFailed { target_id } => if watch.target_id == Some(target_id) {
            no_watch()
        } else {
            watch
        },
        _ => watch,
    }
}

fn watches(watch: &AttackProgressWatch, target_id: u32) -> (r: bool)
    ensures
        r == (watch.target_id == Some(target_id)),
{
    match watch.target_id {
        Some(id) => id == target_id,
        None => false,
    }
}

fn record_attack_watch_after_dispatch(
    ctx: &mut HuntContext,
    dispatch_outcome: &LastOutcome,
    now: Instant,
)
    ensures
        *final(ctx) == (HuntContext {
            attack_watch: watch_after(old(ctx).attack_watch, *dispatch_outcome, now),
            ..*old(ctx)
        }),
{
    match dispatch_outcome {
        LastOutcome::AttackOk { target_id } => {
            if !watches(&ctx.attack_watch, *target_id) {
                ctx.attack_watch = AttackProgressWatch {
                    target_id: Some(*target_id),
                    no_progress_since: Some(now),
                };
            } else if ctx.attack_watch.no_progress_since.is_none() {
                ctx.attack_watch.no_progress_since = Some(now);
            }
        },
        LastOutcome::AttackFailed { target_id } => {
            if watches(&ctx.attack_watch, *target_id) {
                ctx.attack_watch = AttackProgressWatch::default();
            }
        },
        _ => {},
    }
}

/// An attack was tried: the intent was one, and the outcome is that of its
/// target.
pub open spec fn was_attempted(intent: IntentView, outcome: LastOutcome) -> bool {
    let id = match intent {
        IntentView::BootstrapAttack { target_id, .. } => Some(target_id),
        IntentView::CastSkill { target_id, .. } => Some(target_id),
        _ => None,
    };
    let hit = match outcome {
        LastOutcome::AttackOk { target_id } => Some(target_id),
        LastOutcome::AttackFailed { target_id } => Some(target_id),
        _ => None,
    };
    id is Some && id == hit
}

fn attack_attempted(intent: &DispatchIntent, outcome: &LastOutcome) -> (r: bool)
    ensures
        r == was_attempted(intent@, *outcome),
{
    let id: Option<u32> = match intent {
        DispatchIntent::BootstrapAttack { target_id, .. } => Some(*target_id),
        DispatchIntent::CastSkill { target_id, .. } => Some(*target_id),
        _ => None,
    };
    let hit: Option<u32> = match outcome {
        LastOutcome::AttackOk { target_id } => Some(*target_id),
        LastOutcome::AttackFailed { target_id } => Some(*target_id),
        _ => None,
    };
    match (id, hit) {
        (Some(a), Some(b)) => a == b,
        _ => false,
    }
}

/// The context after a dispatch: an attack that was tried, whatever came of it,
/// moves the sequence on if a step was due, and the watch follows the outcome.
pub open spec fn attack_booked(
    before: HuntContext,
    cfg: HuntConfig,
    now: Instant,
    intent: IntentView,
    outcome: LastOutcome,
) -> HuntContext {
    let steps = effective_sequence(cfg);
    HuntContext {
        attack_sequence: if was_attempted(intent, outcome) {
            let looked = looked_at(before.attack_sequence, steps, now);
            if due_step(before.attack_sequence, steps, now) is Some {
                advanced(looked, steps, cfg.attack_sequence_cycle_ms, now)
            } else {
                looked
            }
        } else {
            before.attack_sequence
        },
        attack_watch: watch_after(before.attack_watch, outcome, now),
        ..before
    }
}

/// Keeps the books on an attack.
pub fn record_attack_bookkeeping_after_dispatch(
    ctx: &mut HuntContext,
    cfg: &HuntConfig,
    now: Instant,
    intent: &DispatchIntent,
    dispatch_outcome: &LastOutcome,
)
    ensures
        *final(ctx) == attack_booked(*old(ctx), *cfg, now, intent@, *dispatch_outcome),
{
    if attack_attempted(intent, dispatch_outcome) && ctx.attack_sequence.current_step(
        cfg,
        now,
    ).is_some() {
        ctx.attack_sequence.advance_after_attack(cfg, now);
    }
    record_attack_watch_after_dispatch(ctx, dispatch_outcome, now);
}

/// The tile of the last walk, after a dispatch.
pub open spec fn walk_tile_after(
    before: Option<(i32, i32)>,
    intent: IntentView,
    outcome: LastOutcome,
) -> Option<(i32, i32)> {
    match (intent, outcome) {
        (IntentView::Walk { target_x, target_y }, LastOutcome::WalkOk) => Some(
            (target_x, target_y),
        ),
        (IntentView::Walk { .. }, LastOutcome::WalkFailed { .. }) => None,
        (IntentView::UseScroll { .. }, LastOutcome::ScrollOk) => None,
        _ => before,
    }
}

pub fn record_dispatch_context_after_dispatch(
    ctx: &mut HuntContext,
    intent: &DispatchIntent,
    dispatch_outcome: &LastOutcome,
)
    ensures
        *final(ctx) == (HuntContext {
            last_walk_tile: walk_tile_after(old(ctx).last_walk_tile, intent@, *dispatch_outcome),
            last_outcome: *dispatch_outcome,
            ..*old(ctx)
        }),
{
    match (intent, dispatch_outcome) {
        (DispatchIntent::Walk { target_x, target_y }, LastOutcome::WalkOk) => {
            ctx.last_walk_tile = Some((*target_x, *target_y));
        },
        (DispatchIntent::Walk { .. }, LastOutcome::WalkFailed { .. }) => {
            ctx.last_walk_tile = None;
        },
        (DispatchIntent::UseScroll { .. }, LastOutcome::ScrollOk) => {
            ctx.last_walk_tile = None;
        },
        _ => {},
    }
    ctx.last_outcome = *dispatch_outcome;
}

/// The path that a state follows.
pub open spec fn active_path(state: HuntStateView) -> Seq<(i32, i32)> {
    match state {
        HuntStateView::Engaging { intent, path, .. } => if intent is Approach && path is Some {
            path->0
        } else {
            seq![]
        },
        HuntStateView::Exploring { path, .. } => path,
        _ => seq![],
    }
}

/// Shows the path that a state follows.
pub fn publish_active_path(slot: &mut BotPath, state: &HuntState)
    ensures
        final(slot).tiles@ == active_path(state@),
{
    let path: Vec<(i32, i32)> = match state {
        HuntState::Engaging { intent, path, .. } => match (intent, path) {
            (EngageIntent::Approach, Some(p)) => copy_tiles(p.as_slice()),
            _ => Vec::new(),
        },
        HuntState::Exploring { path, .. } => copy_tiles(path.as_slice()),
        _ => Vec::new(),
    };
    assert(path@ =~= active_path(state@));
    set_bot_path(slot, path);
}

pub fn advance_hp_baseline_after_plan(ctx: &mut HuntContext, cur_hp: Option<u32>)
    ensures
        *final(ctx) == (HuntContext {
            prev_hp: if cur_hp is Some {
                cur_hp
            } else {
                old(ctx).prev_hp
            },
            ..*old(ctx)
        }),
{
    if let Some(hp) = cur_hp {
        ctx.prev_hp = Some(hp);
    }
}

/// What a change of maps teaches: the tile last walked to leads off the map.
pub open spec fn portal_update(
    previous: Option<u32>,
    current: Option<u32>,
    last_walk_tile: Option<(i32, i32)>,
    now: Instant,
) -> MemoryUpdateView {
    if previous is Some && current is Some && previous != current && last_walk_tile is Some {
        MemoryUpdateView { add_portal_avoid_tiles: seq![(last_walk_tile->0, now)], ..no_update() }
    } else {
        no_update()
    }
}

pub fn portal_avoid_update_for_map_change(
    previous_map: Option<u32>,
    current_map: Option<u32>,
    last_walk_tile: Option<(i32, i32)>,
    now: Instant,
) -> (r: MemoryUpdate)
    ensures
        r@ == portal_update(previous_map, current_map, last_walk_tile, now),
{
    let changed: bool = match (previous_map, current_map) {
        (Some(prev), Some(cur)) => prev != cur,
        _ => false,
    };
    let mut update: MemoryUpdate = MemoryUpdate::default();
    if changed {
        if let Some(tile) = last_walk_tile {
            update.add_portal_avoid_tiles.push((tile, now));
            assert(update.add_portal_avoid_tiles@ =~= seq![(tile, now)]);
        }
    }
    assert(update@ =~= portal_update(previous_map, current_map, last_walk_tile, now));
    update
}

/// A map that may be unknown, as the log shows it.
pub open spec fn map_text(map_id: Option<u32>) -> Seq<char> {
    match map_id {
        Some(id) => "Some("@ + decimal(id as nat) + ")"@,
        None => "None"@,
    }
}

fn push_map(out: &mut String, map_id: Option<u32>)
    ensures
        final(out)@ == old(out)@ + map_text(map_id),
{
    match map_id {
        Some(id) => {
            out.append("Some(");
            push_decimal(out, id as u64);
            out.append(")");
        },
        None => out.append("None"),
    }
    assert(final(out)@ =~= old(out)@ + map_text(map_id));
}

/// The line that the log gets when a tile is learned that leads off a map.
pub open spec fn portal_line(
    previous: Option<u32>,
    current: Option<u32>,
    tile: (i32, i32),
    now: Instant,
) -> Seq<char> {
    "[bot/hunt4/portal] learned avoid tile(s) after map change prev="@ + map_text(previous)
        + " cur="@ + map_text(current) + " tiles=[(("@ + signed_decimal(tile.0 as int) + ", "@
        + signed_decimal(tile.1 as int) + "), Instant { nanos: "@ + decimal(now.nanos as nat)
        + " })]"@
}

/// There is a line for the log where a change of maps teaches a tile.
pub open spec fn is_portal_line(
    line: Option<String>,
    previous: Option<u32>,
    current: Option<u32>,
    last_walk_tile: Option<(i32, i32)>,
    now: Instant,
) -> bool {
    if portal_update(previous, current, last_walk_tile, now).add_portal_avoid_tiles.len() > 0 {
        line matches Some(text) && text@ == portal_line(previous, current, last_walk_tile->0, now)
    } else {
        line is None
    }
}

fn portal_log_line(
    previous: Option<u32>,
    current: Option<u32>,
    tile: (i32, i32),
    now: Instant,
) -> (r: String)
    ensures
        r@ == portal_line(previous, current, tile, now),
{
    let mut out = String::new();
    out.append("[bot/hunt4/portal] learned avoid tile(s) after map change prev=");
    push_map(&mut out, previous);
    out.append(" cur=");
    push_map(&mut out, current);
    out.append(" tiles=[((");
    push_signed(&mut out, tile.0);
    out.append(", ");
    push_signed(&mut out, tile.1);
    out.append("), Instant { nanos: ");
    push_wide_decimal(&mut out, now.nanos);
    out.append(" })]");
    assert(out@ =~= portal_line(previous, current, tile, now));
    out
}

/// Learns from a change of maps. The text is for the log.
pub fn record_map_change_after_frame(
    ctx: &mut HuntContext,
    map_id: Option<u32>,
    now: Instant,
) -> (r: Option<String>)
    requires
        now.has_room(),
    ensures
        is_portal_line(r, old(ctx).last_map_id, map_id, old(ctx).last_walk_tile, now),
        is_applied(
            old(ctx).memory,
            portal_update(old(ctx).last_map_id, map_id, old(ctx).last_walk_tile, now),
            now,
            final(ctx).memory,
        ),
        *final(ctx) == (HuntContext {
            memory: final(ctx).memory,
            last_map_id: map_id,
            ..*old(ctx)
        }),
{
    let update: MemoryUpdate = portal_avoid_update_for_map_change(
        ctx.last_map_id,
        map_id,
        ctx.last_walk_tile,
        now,
    );
    let line: Option<String> = if update.add_portal_avoid_tiles.len() > 0 {
        let learned: ((i32, i32), Instant) = update.add_portal_avoid_tiles[0];
        Some(portal_log_line(ctx.last_map_id, map_id, learned.0, now))
    } else {
        None
    };
    ctx.memory.apply(update, now);
    ctx.last_map_id = map_id;
    line
}

/// What the player's position adds to the memory.
pub open spec fn position_update(
    memory: TacticalMemory,
    pos: (i32, i32),
    map_id: Option<u32>,
    now: Instant,
) -> MemoryUpdateView {
    let s = memory.recent_positions@;
    let moved = s.len() == 0 || (s.last().0, s.last().1) != pos;
    MemoryUpdateView {
        push_position: Some((pos, now)),
        set_last_position_change: if moved {
            Some(now)
        } else {
            None
        },
        record_visited_tile: match map_id {
            Some(id) => Some((id, pos, now)),
            None => None,
        },
        ..no_update()
    }
}

pub fn position_memory_update(memory: &TacticalMemory, pos: (i32, i32), now: Instant) -> (r:
    MemoryUpdate)
    ensures
        r@ == position_update(*memory, pos, None, now),
{
    position_memory_update_for_map(memory, pos, None, now)
}

pub fn position_memory_update_for_map(
    memory: &TacticalMemory,
    pos: (i32, i32),
    map_id: Option<u32>,
    now: Instant,
) -> (r: MemoryUpdate)
    ensures
        r@ == position_update(*memory, pos, map_id, now),
{
    let n: usize = memory.recent_positions.len();
    let moved: bool = if n == 0 {
        true
    } else {
        let last: (i32, i32, Instant) = memory.recent_positions[n - 1];
        !same_tile((last.0, last.1), pos)
    };
    let mut update: MemoryUpdate = MemoryUpdate::default();
    update.push_position = Some((pos, now));
    if moved {
        update.set_last_position_change = Some(now);
    }
    if let Some(id) = map_id {
        update.record_visited_tile = Some((id, pos, now));
    }
    assert(update@ =~= position_update(*memory, pos, map_id, now));
    update
}

/// Remembers the player's position, where it is known.
pub fn record_position_memory_after_frame(
    ctx: &mut HuntContext,
    player_pos: Option<(i32, i32)>,
    map_id: Option<u32>,
    now: Instant,
)
    requires
        now.has_room(),
    ensures
        match player_pos {
            Some(pos) => {
                &&& is_applied(
                    old(ctx).memory,
                    position_update(old(ctx).memory, pos, map_id, now),
                    now,
                    final(ctx).memory,
                )
                &&& *final(ctx) == (HuntContext { memory: final(ctx).memory, ..*old(ctx) })
            },
            None => *final(ctx) == *old(ctx),
        },
{
    let pos: (i32, i32) = match player_pos {
        Some(p) => p,
        None => {
            return;
        },
    };
    let update: MemoryUpdate = position_memory_update_for_map(&ctx.memory, pos, map_id, now);
    ctx.memory.apply(update, now);
}

/// The first entity at an address, from a position on.
pub open spec fn entity_at(s: Seq<EntityView>, ptr: u32, from: int) -> Option<EntityView>
    decreases s.len() - from,
{
    if from < 0 || from >= s.len() {
        None
    } else if s[from].entity_ptr == ptr {
        Some(s[from])
    } else {
        entity_at(s, ptr, from + 1)
    }
}

/// The first entity with an id, from a position on.
pub open spec fn entity_with_id(s: Seq<EntityView>, id: u32, from: int) -> Option<EntityView>
    decreases s.len() - from,
{
    if from < 0 || from >= s.len() {
        None
    } else if s[from].target_id == id {
        Some(s[from])
    } else {
        entity_with_id(s, id, from + 1)
    }
}

fn find_at(snapshot: &Snapshot, ptr: u32) -> (r: Option<&EntityView>)
    ensures
        match r {
            Some(e) => entity_at(snapshot.entities@, ptr, 0) == Some(*e),
            None => entity_at(snapshot.entities@, ptr, 0) is None,
        },
{
    let mut i: usize = 0;
    while i < snapshot.entities.len()
        invariant
            i <= snapshot.entities@.len(),
            entity_at(snapshot.entities@, ptr, 0) == entity_at(snapshot.entities@, ptr, i as int),
        decreases snapshot.entities@.len() - i,
    {
        if snapshot.entities[i].entity_ptr == ptr {
            return Some(&snapshot.entities[i]);
        }
        i = i + 1;
    }
    None
}

fn find_id(snapshot: &Snapshot, id: u32) -> (r: Option<&EntityView>)
    ensures
        match r {
            Some(e) => entity_with_id(snapshot.entities@, id, 0) == Some(*e),
            None => entity_with_id(snapshot.entities@, id, 0) is None,
        },
{
    let mut i: usize = 0;
    while i < snapshot.entities.len()
        invariant
            i <= snapshot.entities@.len(),
            entity_with_id(snapshot.entities@, id, 0) == entity_with_id(
                snapshot.entities@,
                id,
                i as int,
            ),
        decreases snapshot.entities@.len() - i,
    {
        if snapshot.entities[i].target_id == id {
            return Some(&snapshot.entities[i]);
        }
        i = i + 1;
    }
    None
}

/// What a tick did, in the terms of the outer loop.
pub open spec fn is_outcome(
    r: HuntOutcome,
    intent: IntentView,
    entities: Seq<EntityView>,
    player: Option<PlayerPosition>,
    outcome: LastOutcome,
) -> bool {
    match intent {
        IntentView::Noop => r is NoTarget,
        IntentView::Walk { target_x, target_y } => {
            &&& r matches HuntOutcome::Walked { target_id, name, heading, distance_tiles }
            &&& target_id == 0
            &&& name@ == "hunt4 walk"@
            &&& heading == (match player {
                Some(p) => match heading_between(p, target_x as int, target_y as int) {
                    Some(h) => h,
                    None => 0,
                },
                None => 0,
            })
            &&& distance_tiles == (match player {
                Some(p) => chebyshev_spec((target_x, target_y), (p.x, p.y)),
                None => 0,
            })
        },
        IntentView::BootstrapAttack { entity_ptr, .. } => {
            &&& r matches HuntOutcome::Cast { target_id, name, player_pos }
            &&& player_pos == player
            &&& match entity_at(entities, entity_ptr, 0) {
                Some(e) => target_id == e.target_id && name@ == e.name@,
                None => target_id == 0 && name@ == "hunt4 melee"@,
            }
        },
        IntentView::CastSkill { skill_name, target_id: aimed } => {
            &&& r matches HuntOutcome::Cast { target_id, name, player_pos }
            &&& player_pos == player
            &&& target_id == aimed
            &&& name@ == (match entity_with_id(entities, aimed, 0) {
                Some(e) => skill_name + " ("@ + e.name@ + ")"@,
                None => skill_name,
            })
        },
        IntentView::UseScroll { name_keyword } => match outcome {
            LastOutcome::ScrollOk => r matches HuntOutcome::Cooldown { remaining_ms }
                && remaining_ms == 0,
            LastOutcome::ScrollFailed => r matches HuntOutcome::ActionFailed(text) && text@
                == "hunt4 use scroll failed: "@ + name_keyword,
            _ => r matches HuntOutcome::ActionFailed(text) && text@
                == "hunt4 use scroll returned unexpected outcome: "@ + outcome_text(outcome),
        },
        IntentView::AttackLookupFailed { target_id } => r matches HuntOutcome::ActionFailed(text)
            && text@ == "hunt4 attack lookup failed target=0x"@ + hex(target_id as nat),
    }
}

/// What a tick did, in the terms of the outer loop.
pub fn intent_to_outcome(
    intent: &DispatchIntent,
    snapshot: &Snapshot,
    player_pos: Option<PlayerPosition>,
    dispatch_outcome: &LastOutcome,
) -> (r: HuntOutcome)
    ensures
        is_outcome(r, intent@, snapshot.entities@, player_pos, *dispatch_outcome),
{
    match intent {
        DispatchIntent::Noop => HuntOutcome::NoTarget,
        DispatchIntent::Walk { target_x, target_y } => {
            let heading: u8 = match player_pos {
                Some(p) => match walk_step_toward(p, WalkTarget { x: *target_x, y: *target_y }) {
                    Ok(h) => h,
                    Err(_) => 0,
                },
                None => 0,
            };
            let distance_tiles: u32 = match player_pos {
                Some(p) => tile_distance((*target_x, *target_y), (p.x, p.y)),
                None => 0,
            };
            HuntOutcome::Walked {
                target_id: 0,
                name: "hunt4 walk".to_owned(),
                heading,
                distance_tiles,
            }
        },
        DispatchIntent::BootstrapAttack { entity_ptr, .. } => {
            let (target_id, name): (u32, String) = match find_at(snapshot, *entity_ptr) {
                Some(e) => (e.target_id, e.name.clone()),
                None => (0, "hunt4 melee".to_owned()),
            };
            HuntOutcome::Cast { target_id, name, player_pos }
        },
        DispatchIntent::CastSkill { skill_name, target_id } => {
            let name: String = match find_id(snapshot, *target_id) {
                Some(e) => {
                    let mut text: String = skill_name.clone();
                    text.append(" (");
                    text.append(e.name.as_str());
                    text.append(")");
                    assert(text@ =~= skill_name@ + " ("@ + e.name@ + ")"@);
                    text
                },
                None => skill_name.clone(),
            };
            HuntOutcome::Cast { target_id: *target_id, name, player_pos }
        },
        DispatchIntent::UseScroll { name_keyword } => match dispatch_outcome {
            LastOutcome::ScrollOk => HuntOutcome::Cooldown { remaining_ms: 0 },
            LastOutcome::ScrollFailed => {
                let mut text = String::new();
                text.append("hunt4 use scroll failed: ");
                text.append(name_keyword.as_str());
                assert(text@ =~= "hunt4 use scroll failed: "@ + name_keyword@);
                HuntOutcome::ActionFailed(text)
            },
            _ => {
                let mut text = String::new();
                text.append("hunt4 use scroll returned unexpected outcome: ");
                push_outcome(&mut text, dispatch_outcome);
                assert(text@ =~= "hunt4 use scroll returned unexpected outcome: "@ + outcome_text(
                    *dispatch_outcome,
                ));
                HuntOutcome::ActionFailed(text)
            },
        },
        DispatchIntent::AttackLookupFailed { target_id } => {
            let mut text = String::new();
            text.append("hunt4 attack lookup failed target=0x");
            push_hex(&mut text, *target_id);
            assert(text@ =~= "hunt4 attack lookup failed target=0x"@ + hex(*target_id as nat));
            HuntOutcome::ActionFailed(text)
        },
    }
}

} // verus!
