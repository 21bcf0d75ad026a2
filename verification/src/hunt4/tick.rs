//! One tick: takes a step and keeps what it results in.
use crate::hunt4::actions::{intended, intent_for, DispatchIntent, IntentView};
use crate::hunt4::context::{HuntContext, PureTickInputs};
use crate::hunt4::memory::is_applied;
use crate::hunt4::observe::{action_label, is_transition_line, label_action, record_transition};
use crate::hunt4::step::{step, ticked, Action, ActionView, TickInput, TickOutput};
use vstd::prelude::*;

verus! {

/// What a step goes by, put together from the context and from what was seen.
pub open spec fn tick_input<'a>(ctx: &'a HuntContext, inputs: PureTickInputs<'a>) -> TickInput<'a> {
    TickInput {
        snapshot: inputs.snapshot,
        player_pos: inputs.player_pos,
        player_alive: inputs.player_alive,
        master_enabled: inputs.master_enabled,
        in_game: inputs.in_game,
        now: inputs.now,
        state_since: inputs.state_since,
        cfg: inputs.cfg,
        memory: &ctx.memory,
        candidates: inputs.candidates,
        explore_suggestion: inputs.explore,
        last_outcome: ctx.last_outcome,
        teleport_scroll_available: inputs.teleport_scroll_available,
        damage_spike_detected: inputs.damage_spike_detected,
        critical_hp_detected: inputs.critical_hp_detected,
        skill_cd_ms: inputs.skill_cd_ms,
        attack_step: inputs.attack_step,
        locked_target_removed_or_dead: inputs.locked_target_removed_or_dead,
        locked_target_recently_damaged: inputs.locked_target_recently_damaged,
    }
}

/// The first of some actions; without any, waiting.
pub open spec fn first_action(actions: Seq<ActionView>) -> ActionView {
    if actions.len() > 0 {
        actions[0]
    } else {
        ActionView::Wait
    }
}

/// What a tick leaves in the context and gives out.
pub open spec fn is_tick(
    before: HuntContext,
    inputs: PureTickInputs<'_>,
    after: HuntContext,
    intent: IntentView,
) -> bool {
    let out = ticked(before.state@, &tick_input(&before, inputs));
    let action = first_action(out.actions);
    &&& after.state@ == (match out.next_state {
        Some(s) => s,
        None => before.state@,
    })
    &&& is_applied(before.memory, out.memory_updates, inputs.now, after.memory)
    &&& after == (HuntContext {
        state: after.state,
        memory: after.memory,
        since: if out.transition is Some {
            inputs.now
        } else {
            before.since
        },
        last_transition: if out.transition is Some {
            out.transition
        } else {
            before.last_transition
        },
        last_action: Some(action_label(action)),
        ..before
    })
    &&& intent == intended(action, inputs.snapshot.entities@, before.dispatch_state)
}

/// Takes one tick, keeps its result in the context, and gives out what is to be
/// done. The text is for the log.
pub fn pure_tick(ctx: &mut HuntContext, inputs: PureTickInputs<'_>) -> (r: (
    DispatchIntent,
    Option<String>,
))
    requires
        inputs.now.has_room(),
    ensures
        is_tick(*old(ctx), inputs, *final(ctx), r.0@),
        is_transition_line(
            r.1,
            ticked(old(ctx).state@, &tick_input(&*old(ctx), inputs)).transition,
        ),
{
    let output: TickOutput = {
        let input = TickInput {
            snapshot: inputs.snapshot,
            player_pos: inputs.player_pos,
            player_alive: inputs.player_alive,
            master_enabled: inputs.master_enabled,
            in_game: inputs.in_game,
            now: inputs.now,
            state_since: inputs.state_since,
            cfg: inputs.cfg,
            memory: &ctx.memory,
            candidates: inputs.candidates,
            explore_suggestion: inputs.explore,
            last_outcome: ctx.last_outcome,
            teleport_scroll_available: inputs.teleport_scroll_available,
            damage_spike_detected: inputs.damage_spike_detected,
            critical_hp_detected: inputs.critical_hp_detected,
            skill_cd_ms: inputs.skill_cd_ms,
            attack_step: inputs.attack_step,
            locked_target_removed_or_dead: inputs.locked_target_removed_or_dead,
            locked_target_recently_damaged: inputs.locked_target_recently_damaged,
        };
        step(&ctx.state, input)
    };
    let ghost out = ticked(old(ctx).state@, &tick_input(&*old(ctx), inputs));
    assert(output@ == out);
    let action: Action = if output.actions.len() > 0 {
        assert(out.actions[0] == output.actions@[0]@);
        output.actions[0].clone()
    } else {
        Action::Wait
    };
    assert(action@ == first_action(out.actions));
    ctx.memory.apply(output.memory_updates, inputs.now);
    if let Some(next) = output.next_state {
        ctx.state = next;
    }
    let line: Option<String> = match output.transition {
        Some(transition) => {
            ctx.since = inputs.now;
            ctx.last_transition = Some(transition);
            Some(record_transition(&transition))
        },
        None => None,
    };
    ctx.last_action = Some(label_action(&action));
    (intent_for(&action, inputs.snapshot, &ctx.dispatch_state), line)
}

} // verus!
