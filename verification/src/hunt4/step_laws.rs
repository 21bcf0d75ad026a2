//! What holds of every tick of the hunt, whatever the state.
use crate::decide::hunt::cd_skill;
use crate::hunt4::memory::{is_applied, no_update};
use crate::hunt4::model::EntityView;
use crate::hunt4::route::candidate_with_id;
use crate::hunt4::state::{DisabledReason, HuntStateView, RecoveryCause, StopReason};
use crate::hunt4::step::{
    attackable_now, best_of, first_attackable, first_reachable, label_of, live_entity, not_excluded,
    teleport_cooling, ticked, ActionView, AttackStepInput, TargetCandidate, TickInput, ESCAPING_WAIT_DURATION_MS, RECOVERY_CRITICAL_HP_DURATION_MS,
    RECOVERY_DAMAGE_SPIKE_DURATION_MS, TELEPORT_SCROLL_COOLDOWN_MS,
};
use crate::text::trim;
use crate::time::{elapsed, ms_nanos};
use vstd::prelude::*;

verus! {

/// The tick may hunt: the hunt is on, and the player is in the game, alive and
/// not in danger.
pub open spec fn may_hunt(input: &TickInput) -> bool {
    input.master_enabled && input.in_game && input.player_alive && !input.critical_hp_detected
        && !input.damage_spike_detected
}

/// A tick results in exactly one action.
pub proof fn law_one_action(state: HuntStateView, input: &TickInput)
    ensures
        ticked(state, input).actions.len() == 1,
{
}

/// A change of state is reported as it happens: from the label of the state
/// before to the label of the state after, and never without a state after.
pub proof fn law_transition_tells_the_states(state: HuntStateView, input: &TickInput)
    ensures
        ticked(state, input).transition matches Some(t) ==> t.from == label_of(state) && ticked(
            state,
            input,
        ).next_state is Some && t.to == label_of(ticked(state, input).next_state->0),
{
}

/// A tick without a report of a change keeps the label of the state, or holds an
/// attack back.
pub proof fn law_unreported_change(state: HuntStateView, input: &TickInput)
    ensures
        ticked(state, input).transition is None && ticked(state, input).next_state is Some ==> {
            let next = label_of(ticked(state, input).next_state->0);
            next == label_of(state) || next is EngagingAttack
        },
{
}

/// Whatever the state: a hunt that is off, or outside the game, is disabled; the
/// dead stop; the player in danger pauses. None of them does anything.
pub proof fn law_safety_first(state: HuntStateView, input: &TickInput)
    requires
        !may_hunt(input),
    ensures
        ticked(state, input).actions == seq![ActionView::Wait],
        ticked(state, input).memory_updates == no_update(),
        ticked(state, input).next_state == Some(
            if !input.master_enabled {
                HuntStateView::Disabled { reason: DisabledReason::MasterOff }
            } else if !input.in_game {
                HuntStateView::Disabled { reason: DisabledReason::NotInGame }
            } else if !input.player_alive {
                HuntStateView::Stopped { reason: StopReason::Died }
            } else if input.critical_hp_detected {
                HuntStateView::Recovering {
                    cause: RecoveryCause::CriticalHp,
                    until: input.now.after_ms(RECOVERY_CRITICAL_HP_DURATION_MS as int),
                }
            } else {
                HuntStateView::Recovering {
                    cause: RecoveryCause::DamageSpike,
                    until: input.now.after_ms(RECOVERY_DAMAGE_SPIKE_DURATION_MS as int),
                }
            },
        ),
{
}

/// A hunt that was disabled or stopped goes idle as soon as it may hunt.
pub proof fn law_resumes(state: HuntStateView, input: &TickInput)
    requires
        may_hunt(input),
        state is Disabled || state is Stopped,
    ensures
        ticked(state, input).actions == seq![ActionView::Wait],
        ticked(state, input).next_state == Some(HuntStateView::Idle),
{
}

/// After danger the pause lasts, whatever else is seen.
pub proof fn law_danger_pause_lasts(state: HuntStateView, input: &TickInput)
    requires
        may_hunt(input),
        match state {
            HuntStateView::Recovering { cause, until } => (cause is CriticalHp || cause
                is DamageSpike) && input.now.nanos < until.nanos,
            _ => false,
        },
    ensures
        ticked(state, input).actions == seq![ActionView::Wait],
        ticked(state, input).next_state is None,
        ticked(state, input).memory_updates == no_update(),
{
}

/// After a scroll the hunt waits until the scroll has had its time.
pub proof fn law_scroll_wait_lasts(state: HuntStateView, input: &TickInput)
    requires
        may_hunt(input),
        match state {
            HuntStateView::Escaping { wait_until, .. } => input.now.nanos < wait_until.nanos,
            _ => false,
        },
    ensures
        ticked(state, input).actions == seq![ActionView::Wait],
        ticked(state, input).next_state is None,
        ticked(state, input).memory_updates == no_update(),
{
}

/// A scroll is read only where one is configured and none was read a moment ago.
/// It is remembered, and the hunt then waits for it.
pub proof fn law_scroll(state: HuntStateView, input: &TickInput)
    requires
        ticked(state, input).actions[0] is UseTeleportScroll,
    ensures
        may_hunt(input),
        !teleport_cooling(*input.memory, input.now),
        trim(input.cfg.teleport_scroll_name@).len() > 0,
        ticked(state, input).actions[0] == (ActionView::UseTeleportScroll {
            name_keyword: trim(input.cfg.teleport_scroll_name@),
        }),
        ticked(state, input).next_state == Some(
            HuntStateView::Escaping {
                scroll_used_at: input.now,
                wait_until: input.now.after_ms(ESCAPING_WAIT_DURATION_MS as int),
                origin_pos: input.player_pos,
            },
        ),
        ticked(state, input).memory_updates.set_last_teleport == Some(input.now),
{
}

/// Two scrolls are never read within the cooldown, whatever happened to the
/// state between: a tick that reads one, its memory taken in, and a later tick
/// with that memory.
pub proof fn law_scrolls_keep_apart(
    state: HuntStateView,
    input: &TickInput,
    later_state: HuntStateView,
    later: &TickInput,
)
    requires
        ticked(state, input).actions[0] is UseTeleportScroll,
        is_applied(*input.memory, ticked(state, input).memory_updates, input.now, *later.memory),
        elapsed(later.now, input.now) < ms_nanos(TELEPORT_SCROLL_COOLDOWN_MS as int),
    ensures
        !(ticked(later_state, later).actions[0] is UseTeleportScroll),
{
    law_scroll(state, input);
    if ticked(later_state, later).actions[0] is UseTeleportScroll {
        law_scroll(later_state, later);
    }
}

/// A skill is cast only where the sequence is at that skill, its cooldown is
/// over, and no basic attack on the target is owed.
pub proof fn law_skill(state: HuntStateView, input: &TickInput, target_id: u32, name: Seq<char>)
    requires
        match ticked(state, input).actions[0] {
            ActionView::AttackTarget { target_id: hit, skill, .. } => hit == target_id && skill
                == Some(name),
            _ => false,
        },
    ensures
        match input.attack_step {
            AttackStepInput::Step(step) => cd_skill(step@) == Some(name),
            _ => false,
        },
        input.memory.post_skill_basic_pending_target != Some(target_id),
        input.skill_cd_ms == 0 || input.memory.last_skill_cast is None || elapsed(
            input.now,
            input.memory.last_skill_cast->0,
        ) >= ms_nanos(input.skill_cd_ms as int),
        ticked(state, input).memory_updates.set_last_skill_cast == Some(input.now),
        ticked(state, input).memory_updates.set_post_skill_basic_pending == Some(target_id),
        !ticked(state, input).memory_updates.clear_post_skill_basic_pending,
{
}

/// After a skill the next attack on that target is a basic one: a tick that
/// casts, its memory taken in, and a later tick with that memory.
pub proof fn law_basic_attack_after_skill(
    state: HuntStateView,
    input: &TickInput,
    later_state: HuntStateView,
    later: &TickInput,
    target_id: u32,
    name: Seq<char>,
)
    requires
        match ticked(state, input).actions[0] {
            ActionView::AttackTarget { target_id: hit, skill, .. } => hit == target_id && skill
                == Some(name),
            _ => false,
        },
        is_applied(*input.memory, ticked(state, input).memory_updates, input.now, *later.memory),
    ensures
        match ticked(later_state, later).actions[0] {
            ActionView::AttackTarget { target_id: hit, skill, .. } => hit == target_id ==> skill
                is None,
            _ => true,
        },
{
    law_skill(state, input, target_id, name);
    if let ActionView::AttackTarget { target_id: hit, skill, .. } = ticked(
        later_state,
        later,
    ).actions[0] {
        if hit == target_id && skill is Some {
            law_skill(later_state, later, target_id, skill->0);
        }
    }
}

/// The candidate is one of them.
pub open spec fn listed(s: Seq<TargetCandidate>, c: TargetCandidate) -> bool {
    exists|i: int| 0 <= i < s.len() && #[trigger] s[i] == c
}

/// One of the candidates has the id and the address.
pub open spec fn candidate_listed(s: Seq<TargetCandidate>, id: u32, ptr: u32) -> bool {
    exists|i: int|
        0 <= i < s.len() && (#[trigger] s[i]).target_id == id && s[i].entity_ptr == ptr
}

/// One of the entities that are alive has the id and the address.
pub open spec fn live_listed(s: Seq<EntityView>, id: u32, ptr: u32) -> bool {
    exists|i: int|
        0 <= i < s.len() && (#[trigger] s[i]).target_id == id && s[i].entity_ptr == ptr
            && s[i].live()
}

proof fn lemma_first_attackable(s: Seq<TargetCandidate>, excluded: Option<u32>, from: int)
    requires
        0 <= from,
    ensures
        first_attackable(s, excluded, from) matches Some(c) ==> listed(s, c) && not_excluded(
            c,
            excluded,
        ) && attackable_now(c),
    decreases s.len() - from,
{
    if from < s.len() {
        assert(listed(s, s[from]));
        lemma_first_attackable(s, excluded, from + 1);
    }
}

proof fn lemma_first_reachable(s: Seq<TargetCandidate>, excluded: Option<u32>, from: int)
    requires
        0 <= from,
    ensures
        first_reachable(s, excluded, from) matches Some(c) ==> listed(s, c) && not_excluded(
            c,
            excluded,
        ) && c.reachable_path is Some,
    decreases s.len() - from,
{
    if from < s.len() {
        assert(listed(s, s[from]));
        lemma_first_reachable(s, excluded, from + 1);
    }
}

/// The best candidate is one of them and is not the excluded one, and it can be
/// hit or reached; where one can be hit, the best can.
pub proof fn law_best(s: Seq<TargetCandidate>, excluded: Option<u32>)
    ensures
        best_of(s, excluded) matches Some(c) ==> listed(s, c) && not_excluded(c, excluded) && (
        attackable_now(c) || c.reachable_path is Some),
        forall|i: int|
            0 <= i < s.len() && not_excluded(#[trigger] s[i], excluded) && (attackable_now(s[i])
                || s[i].reachable_path is Some) ==> best_of(s, excluded) is Some,
        forall|i: int|
            0 <= i < s.len() && not_excluded(#[trigger] s[i], excluded) && attackable_now(s[i])
                ==> attackable_now(best_of(s, excluded)->0),
{
    lemma_first_attackable(s, excluded, 0);
    lemma_first_reachable(s, excluded, 0);
    assert forall|i: int|
        0 <= i < s.len() && not_excluded(#[trigger] s[i], excluded) && (attackable_now(s[i])
            || s[i].reachable_path is Some) implies best_of(s, excluded) is Some by {
        lemma_found(s, excluded, 0, i);
    }
    assert forall|i: int|
        0 <= i < s.len() && not_excluded(#[trigger] s[i], excluded) && attackable_now(
            s[i],
        ) implies attackable_now(best_of(s, excluded)->0) by {
        lemma_found(s, excluded, 0, i);
    }
}

proof fn lemma_found(s: Seq<TargetCandidate>, excluded: Option<u32>, from: int, at: int)
    requires
        0 <= from <= at < s.len(),
        not_excluded(s[at], excluded),
    ensures
        attackable_now(s[at]) ==> first_attackable(s, excluded, from) is Some,
        s[at].reachable_path is Some ==> first_reachable(s, excluded, from) is Some,
    decreases at - from,
{
    if from < at {
        lemma_found(s, excluded, from + 1, at);
    }
}

proof fn lemma_with_id(s: Seq<TargetCandidate>, id: u32, from: int)
    requires
        0 <= from,
    ensures
        candidate_with_id(s, id, from) matches Some(c) ==> listed(s, c) && c.target_id == id,
    decreases s.len() - from,
{
    if from < s.len() {
        assert(listed(s, s[from]));
        lemma_with_id(s, id, from + 1);
    }
}

proof fn lemma_live(s: Seq<EntityView>, id: u32, from: int)
    requires
        0 <= from,
    ensures
        live_entity(s, id, from) matches Some(e) ==> e.target_id == id && live_listed(
            s,
            id,
            e.entity_ptr,
        ),
    decreases s.len() - from,
{
    if from < s.len() {
        lemma_live(s, id, from + 1);
    }
}

proof fn lemma_listed(s: Seq<TargetCandidate>, c: TargetCandidate)
    requires
        listed(s, c),
    ensures
        candidate_listed(s, c.target_id, c.entity_ptr),
{
}

/// Only what is there is attacked: the target of an attack is a candidate, or it
/// is seen alive.
pub proof fn law_attacks_what_is_there(state: HuntStateView, input: &TickInput)
    ensures
        ticked(state, input).actions[0] matches ActionView::AttackTarget {
            target_id,
            entity_ptr,
            ..
        } ==> candidate_listed(input.candidates@, target_id, entity_ptr) || live_listed(
            input.snapshot.entities@,
            target_id,
            entity_ptr,
        ),
{
    law_best(input.candidates@, None);
    if let Some(c) = best_of(input.candidates@, None) {
        lemma_listed(input.candidates@, c);
    }
    if let HuntStateView::Engaging { lock, .. } = state {
        lemma_with_id(input.candidates@, lock.target_id, 0);
        lemma_live(input.snapshot.entities@, lock.target_id, 0);
        law_best(input.candidates@, Some(lock.target_id));
        if let Some(c) = best_of(input.candidates@, Some(lock.target_id)) {
            lemma_listed(input.candidates@, c);
        }
        if let Some(c) = candidate_with_id(input.candidates@, lock.target_id, 0) {
            lemma_listed(input.candidates@, c);
        }
    }
}

/// An attack is remembered as made now.
pub proof fn law_attack_remembered(state: HuntStateView, input: &TickInput)
    ensures
        ticked(state, input).actions[0] is AttackTarget ==> ticked(
            state,
            input,
        ).memory_updates.set_last_attack == Some(input.now),
{
}

/// A walk is remembered as made now.
pub proof fn law_walk_remembered(state: HuntStateView, input: &TickInput)
    ensures
        ticked(state, input).actions[0] is WalkTo ==> ticked(
            state,
            input,
        ).memory_updates.set_last_walk == Some(input.now),
{
}

} // verus!
