//! What a tick does in each situation that it can find, told by what is seen and
//! remembered.
use crate::decide::hunt::cd_skill;
use crate::hunt4::memory::{direction_to, no_update};
use crate::hunt4::model::EntityView;
use crate::hunt4::route::{candidate_with_id, remaining_path, steady_path};
use crate::hunt4::state::{
    DisabledReason, EngageIntent, HuntStateView, RecoveryCause, StopReason, TargetLock,
};
use crate::hunt4::step::{
    best_of, first_attackable, first_reachable, label_of, live_entity, ticked, watchdog_scroll,
    ActionView, AttackStepInput, LastOutcome, StateLabel, TargetCandidate, TickInput,
    TickOutputView, TransitionCause, EMPTY_EXPLORE_WALK_BUDGET, ESCAPING_WAIT_DURATION_MS,
    INACTIVITY_RESET_DURATION_MS, KILL_CONFIRM_DURATION_MS, RECOVERY_ATTACK_FAILED_DURATION_MS,
    RECOVERY_CRITICAL_HP_DURATION_MS, RECOVERY_DAMAGE_SPIKE_DURATION_MS,
    RECOVERY_NO_REACHABLE_DURATION_MS, RECOVERY_WALK_STUCK_DURATION_MS,
    REPEAT_NORMAL_ATTACK_COOLDOWN_MS, STALL_WINDOW_TICKS, TELEPORT_SCROLL_COOLDOWN_MS,
};
use crate::hunt4::step_laws::may_hunt;
use crate::text::trim;
use crate::time::Instant;
use vstd::prelude::*;

verus! {

/// How long things last, in milliseconds, and how often they are tried.
pub proof fn law_timings()
    ensures
        REPEAT_NORMAL_ATTACK_COOLDOWN_MS == 800,
        TELEPORT_SCROLL_COOLDOWN_MS == 3_000,
        ESCAPING_WAIT_DURATION_MS == 2_000,
        KILL_CONFIRM_DURATION_MS == 1_500,
        RECOVERY_WALK_STUCK_DURATION_MS == 800,
        RECOVERY_ATTACK_FAILED_DURATION_MS == 2_000,
        RECOVERY_DAMAGE_SPIKE_DURATION_MS == 2_000,
        RECOVERY_NO_REACHABLE_DURATION_MS == 2_000,
        RECOVERY_CRITICAL_HP_DURATION_MS == 2_000,
        STALL_WINDOW_TICKS == 8,
        INACTIVITY_RESET_DURATION_MS == 20_000,
        EMPTY_EXPLORE_WALK_BUDGET == 8,
{
}

/// At least so many milliseconds lie between two moments.
pub open spec fn ms_later(since: Instant, now: Instant, ms: int) -> bool {
    now.nanos >= since.nanos + ms * 1_000_000
}

/// The moment so many milliseconds from now.
pub open spec fn is_moment_in(at: Instant, now: Instant, ms: int) -> bool {
    at.nanos == now.nanos + ms * 1_000_000
}

/// Every state goes by its name.
pub proof fn law_states_by_name(
    state: HuntStateView,
    lock: TargetLock,
    path: Option<Seq<(i32, i32)>>,
    until: Instant,
)
    ensures
        state is Idle ==> label_of(state) == StateLabel::Idle,
        state is Exploring ==> label_of(state) == StateLabel::Exploring,
        state is Escaping ==> label_of(state) == StateLabel::Escaping,
        label_of(HuntStateView::Disabled { reason: DisabledReason::MasterOff })
            == StateLabel::DisabledMasterOff,
        label_of(HuntStateView::Disabled { reason: DisabledReason::NotInGame })
            == StateLabel::DisabledNotInGame,
        label_of(HuntStateView::Engaging { lock, intent: EngageIntent::Approach, path })
            == StateLabel::EngagingApproach,
        label_of(HuntStateView::Engaging { lock, intent: EngageIntent::Attack, path })
            == StateLabel::EngagingAttack,
        label_of(HuntStateView::Engaging { lock, intent: EngageIntent::KillConfirm, path })
            == StateLabel::EngagingKillConfirm,
        label_of(HuntStateView::Recovering { cause: RecoveryCause::WalkStuck, until })
            == StateLabel::RecoveringWalkStuck,
        label_of(HuntStateView::Recovering { cause: RecoveryCause::AttackFailed, until })
            == StateLabel::RecoveringAttackFailed,
        label_of(HuntStateView::Recovering { cause: RecoveryCause::DamageSpike, until })
            == StateLabel::RecoveringDamageSpike,
        label_of(HuntStateView::Recovering { cause: RecoveryCause::NoReachableTarget, until })
            == StateLabel::RecoveringNoReachableTarget,
        label_of(HuntStateView::Recovering { cause: RecoveryCause::CriticalHp, until })
            == StateLabel::RecoveringCriticalHp,
        label_of(HuntStateView::Stopped { reason: StopReason::Died }) == StateLabel::StoppedDied,
        label_of(HuntStateView::Stopped { reason: StopReason::Disconnected })
            == StateLabel::StoppedDisconnected,
        label_of(HuntStateView::Stopped { reason: StopReason::Manual }) == StateLabel::StoppedManual,
{
}

/// The candidate can be hit from where the player stands: it is in range, or it
/// attacks from the next tile.
pub open spec fn in_reach(c: TargetCandidate) -> bool {
    c.in_attack_range || (c.is_attacker && c.entity_ptr != 0 && c.distance <= 1)
}

/// The candidate to go for: the first that is in reach, and where none is the
/// first with a way to it. One may be left out.
pub open spec fn is_choice(s: Seq<TargetCandidate>, left_out: Option<u32>, k: int) -> bool {
    &&& 0 <= k < s.len()
    &&& left_out != Some(s[k].target_id)
    &&& if in_reach(s[k]) {
        forall|j: int|
            0 <= j < k ==> left_out == Some((#[trigger] s[j]).target_id) || !in_reach(s[j])
    } else {
        &&& s[k].reachable_path is Some
        &&& forall|j: int|
            0 <= j < s.len() ==> left_out == Some((#[trigger] s[j]).target_id) || !in_reach(s[j])
        &&& forall|j: int|
            0 <= j < k ==> left_out == Some((#[trigger] s[j]).target_id) || s[j].reachable_path
                is None
    }
}

/// There is no candidate to go for.
pub open spec fn no_choice(s: Seq<TargetCandidate>, left_out: Option<u32>) -> bool {
    forall|j: int|
        0 <= j < s.len() ==> left_out == Some((#[trigger] s[j]).target_id) || (!in_reach(s[j])
            && s[j].reachable_path is None)
}

proof fn lemma_attackable(s: Seq<TargetCandidate>, left_out: Option<u32>, from: int, k: int)
    requires
        0 <= from <= k <= s.len(),
        forall|j: int|
            from <= j < k ==> left_out == Some((#[trigger] s[j]).target_id) || !in_reach(s[j]),
    ensures
        first_attackable(s, left_out, from) == first_attackable(s, left_out, k),
    decreases k - from,
{
    if from < k {
        assert(left_out == Some(s[from].target_id) || !in_reach(s[from]));
        lemma_attackable(s, left_out, from + 1, k);
    }
}

proof fn lemma_reachable(s: Seq<TargetCandidate>, left_out: Option<u32>, from: int, k: int)
    requires
        0 <= from <= k <= s.len(),
        forall|j: int|
            from <= j < k ==> left_out == Some((#[trigger] s[j]).target_id) || s[j].reachable_path
                is None,
    ensures
        first_reachable(s, left_out, from) == first_reachable(s, left_out, k),
    decreases k - from,
{
    if from < k {
        assert(left_out == Some(s[from].target_id) || s[from].reachable_path is None);
        lemma_reachable(s, left_out, from + 1, k);
    }
}

proof fn lemma_choice(s: Seq<TargetCandidate>, left_out: Option<u32>, k: int)
    ensures
        is_choice(s, left_out, k) ==> best_of(s, left_out) == Some(s[k]),
        no_choice(s, left_out) ==> best_of(s, left_out) is None,
{
    if is_choice(s, left_out, k) {
        if in_reach(s[k]) {
            lemma_attackable(s, left_out, 0, k);
        } else {
            lemma_attackable(s, left_out, 0, s.len() as int);
            lemma_reachable(s, left_out, 0, k);
        }
    }
    if no_choice(s, left_out) {
        lemma_attackable(s, left_out, 0, s.len() as int);
        lemma_reachable(s, left_out, 0, s.len() as int);
    }
}

/// A candidate is gone for: a blow if it is in reach, else the first step of the
/// way to it. The hunt is locked on it from now on, and no longer idle.
pub open spec fn goes_for(out: TickOutputView, c: TargetCandidate, now: Instant) -> bool {
    let hit = in_reach(c);
    let steps = c.reachable_path is Some && c.reachable_path->0@.len() > 0;
    &&& out.actions.len() == 1
    &&& hit ==> out.actions[0] == (ActionView::AttackTarget {
        target_id: c.target_id,
        entity_ptr: c.entity_ptr,
        skill: None,
    })
    &&& !hit && steps ==> out.actions[0] == (ActionView::WalkTo { tile: c.reachable_path->0@[0] })
    &&& !hit && !steps ==> out.actions[0] == ActionView::Wait
    &&& match out.next_state {
        Some(HuntStateView::Engaging { lock, intent, path }) => {
            &&& lock.target_id == c.target_id && lock.entity_ptr == c.entity_ptr
            &&& lock.name == c.name && !lock.bootstrapped
            &&& lock.acquired_at == now && lock.last_seen == now
            &&& intent == (if hit {
                EngageIntent::Attack
            } else {
                EngageIntent::Approach
            })
            &&& match c.reachable_path {
                Some(p) => path == Some(p@),
                None => path is None,
            }
        },
        _ => false,
    }
    &&& out.transition matches Some(t) && t.cause == TransitionCause::TargetAcquired
    &&& out.memory_updates.set_last_attack == (if hit {
        Some(now)
    } else {
        None
    })
    &&& out.memory_updates.set_last_walk == (if !hit && steps {
        Some(now)
    } else {
        None
    })
    &&& out.memory_updates.clear_no_actionable_target_since
    &&& out.memory_updates.clear_empty_explore_walks
}

/// A pause begins, for a reason and until a moment.
pub open spec fn pauses(out: TickOutputView, cause: RecoveryCause, now: Instant, ms: int) -> bool {
    &&& out.actions == seq![ActionView::Wait]
    &&& match out.next_state {
        Some(HuntStateView::Recovering { cause: why, until }) => why == cause && is_moment_in(
            until,
            now,
            ms,
        ),
        _ => false,
    }
    &&& out.transition matches Some(t) && t.cause == (match cause {
        RecoveryCause::WalkStuck => TransitionCause::WalkStuck,
        RecoveryCause::AttackFailed => TransitionCause::AttackFailed,
        RecoveryCause::DamageSpike => TransitionCause::DamageSpike,
        RecoveryCause::NoReachableTarget => TransitionCause::AllTargetsUnreachable,
        RecoveryCause::CriticalHp => TransitionCause::CriticalHp,
    })
}

/// A target, and it alone, is marked as failed for eight seconds.
pub open spec fn marks_failed(out: TickOutputView, id: u32, unreachable: bool, now: Instant) -> bool {
    &&& out.memory_updates.add_failed_targets.len() == 1
    &&& out.memory_updates.add_failed_targets[0].0 == id
    &&& out.memory_updates.add_failed_targets[0].1.cause is Unreachable == unreachable
    &&& is_moment_in(out.memory_updates.add_failed_targets[0].1.until, now, 8_000)
}

/// Nothing is done, and nothing changes.
pub open spec fn stays(out: TickOutputView) -> bool {
    &&& out.actions == seq![ActionView::Wait]
    &&& out.next_state is None
    &&& out.transition is None
    &&& out.memory_updates == no_update()
}

/// The hunt goes idle, for a reason, and does nothing else.
pub open spec fn goes_idle(out: TickOutputView, why: TransitionCause) -> bool {
    &&& out.actions == seq![ActionView::Wait]
    &&& out.next_state == Some(HuntStateView::Idle)
    &&& out.transition matches Some(t) && t.cause == why && t.to == StateLabel::Idle
    &&& out.memory_updates == no_update()
}

/// A scroll can be read: one is named, and none was read within three seconds.
pub open spec fn scroll_ready(input: &TickInput) -> bool {
    &&& trim(input.cfg.teleport_scroll_name@).len() > 0
    &&& input.memory.last_teleport matches Some(t) ==> ms_later(t, input.now, 3_000)
}

/// The scroll is read. The hunt waits two seconds for it, and starts over.
pub open spec fn reads_scroll(out: TickOutputView, input: &TickInput) -> bool {
    &&& out.actions == seq![
        ActionView::UseTeleportScroll { name_keyword: trim(input.cfg.teleport_scroll_name@) },
    ]
    &&& match out.next_state {
        Some(HuntStateView::Escaping { scroll_used_at, wait_until, origin_pos }) => {
            &&& scroll_used_at == input.now
            &&& is_moment_in(wait_until, input.now, 2_000)
            &&& origin_pos == input.player_pos
        },
        _ => false,
    }
    &&& out.transition matches Some(t) && t.cause == TransitionCause::UseTeleportScroll
    &&& out.memory_updates.set_last_teleport == Some(input.now)
    &&& out.memory_updates.clear_no_actionable_target_since
    &&& out.memory_updates.clear_empty_explore_walks
}

/// Nothing was done at or after a moment, as far as `last` tells.
pub open spec fn quiet_for(last: Option<Instant>, now: Instant, ms: int) -> bool {
    last matches Some(t) ==> ms_later(t, now, ms)
}

/// The hunt is at it, and yet for twenty seconds the player has neither moved nor
/// attacked nor cast nor teleported, and a scroll can be read.
pub open spec fn is_frozen(state: HuntStateView, input: &TickInput) -> bool {
    let m = *input.memory;
    &&& match state {
        HuntStateView::Engaging { .. } => true,
        HuntStateView::Exploring { .. } => true,
        HuntStateView::Recovering { cause, .. } => cause is WalkStuck || cause is AttackFailed
            || cause is NoReachableTarget,
        _ => false,
    }
    &&& m.last_position_change is Some || m.last_attack is Some || m.last_skill_cast is Some
        || m.last_teleport is Some
    &&& quiet_for(m.last_position_change, input.now, 20_000)
    &&& quiet_for(m.last_attack, input.now, 20_000)
    &&& quiet_for(m.last_skill_cast, input.now, 20_000)
    &&& quiet_for(m.last_teleport, input.now, 20_000)
    &&& scroll_ready(input)
}

proof fn lemma_frozen(state: HuntStateView, input: &TickInput)
    ensures
        watchdog_scroll(label_of(state), input) == (if is_frozen(state, input) {
            Some(trim(input.cfg.teleport_scroll_name@))
        } else {
            None
        }),
{
}

/// A hunt that is frozen reads a scroll, whatever it was at.
pub proof fn law_frozen_hunt_reads_scroll(state: HuntStateView, input: &TickInput)
    requires
        may_hunt(input),
        is_frozen(state, input),
        input.now.has_room(),
    ensures
        reads_scroll(ticked(state, input), input),
{
    lemma_frozen(state, input);
}

/// A pause for the player's health comes before everything but being switched off,
/// outside the game or dead.
pub proof fn law_health_comes_first(state: HuntStateView, input: &TickInput)
    requires
        input.master_enabled && input.in_game && input.player_alive,
        input.critical_hp_detected || input.damage_spike_detected,
        input.now.has_room(),
    ensures
        pauses(
            ticked(state, input),
            if input.critical_hp_detected {
                RecoveryCause::CriticalHp
            } else {
                RecoveryCause::DamageSpike
            },
            input.now,
            2_000,
        ),
{
}

/// An idle or exploring hunt, or one that pauses but not for the player's health,
/// goes for a candidate as soon as there is one.
pub proof fn law_candidate_is_gone_for(state: HuntStateView, input: &TickInput, k: int)
    requires
        may_hunt(input),
        !is_frozen(state, input),
        is_choice(input.candidates@, None, k),
        match state {
            HuntStateView::Idle => true,
            HuntStateView::Exploring { .. } => true,
            HuntStateView::Recovering { cause, until } => input.now.nanos < until.nanos && !(cause
                is CriticalHp) && !(cause is DamageSpike),
            _ => false,
        },
    ensures
        goes_for(ticked(state, input), input.candidates@[k], input.now),
        ticked(state, input).memory_updates.add_failed_targets.len() == 0,
{
    lemma_frozen(state, input);
    lemma_choice(input.candidates@, None, k);
}

/// A pause lasts until its moment where there is no candidate that ends it, and
/// always where it is for the player's health; then the hunt goes idle, or reads
/// a scroll where no target could be reached and one can be read.
pub proof fn law_pause(state: HuntStateView, input: &TickInput, cause: RecoveryCause, until: Instant)
    requires
        may_hunt(input),
        !is_frozen(state, input),
        state == (HuntStateView::Recovering { cause, until }),
        input.now.has_room(),
    ensures
        input.now.nanos < until.nanos && (cause is CriticalHp || cause is DamageSpike || no_choice(
            input.candidates@,
            None,
        )) ==> stays(ticked(state, input)),
        input.now.nanos >= until.nanos && cause is NoReachableTarget && scroll_ready(input)
            ==> reads_scroll(ticked(state, input), input),
        input.now.nanos >= until.nanos && !(cause is NoReachableTarget && scroll_ready(input))
            ==> goes_idle(ticked(state, input), TransitionCause::RecoveryElapsed),
{
    lemma_frozen(state, input);
    lemma_choice(input.candidates@, None, 0);
}

/// After a scroll the hunt waits until its moment, and then goes idle.
pub proof fn law_after_scroll(state: HuntStateView, input: &TickInput)
    requires
        may_hunt(input),
        state is Escaping,
    ensures
        input.now.nanos < state->wait_until.nanos ==> stays(ticked(state, input)),
        input.now.nanos >= state->wait_until.nanos ==> goes_idle(
            ticked(state, input),
            TransitionCause::RecoveryElapsed,
        ),
{
    lemma_frozen(state, input);
}

/// The last outcome is that attacking a target came to nothing.
pub open spec fn attack_failed_on(outcome: LastOutcome, id: u32) -> bool {
    outcome == (LastOutcome::AttackFailed { target_id: id }) || outcome == (
    LastOutcome::AttackNoProgress { target_id: id })
}

/// A hunt that is locked on a target, with neither a failed attack on it nor a
/// failed step to answer for.
pub open spec fn locked_on(state: HuntStateView, input: &TickInput, lock: TargetLock) -> bool {
    &&& may_hunt(input)
    &&& !is_frozen(state, input)
    &&& state matches HuntStateView::Engaging { lock: held, .. } && held == lock
    &&& !attack_failed_on(input.last_outcome, lock.target_id)
    &&& !(input.last_outcome is WalkFailed)
}

/// A locked target that is reported removed or dead ends the engagement: once the
/// state is a second and a half old the hunt goes idle, and until then it waits.
pub proof fn law_kill_ends_engagement(state: HuntStateView, input: &TickInput, lock: TargetLock)
    requires
        locked_on(state, input, lock),
        input.locked_target_removed_or_dead,
    ensures
        ms_later(input.state_since, input.now, 1_500) ==> goes_idle(
            ticked(state, input),
            TransitionCause::TargetDead,
        ),
        !ms_later(input.state_since, input.now, 1_500) ==> stays(ticked(state, input)),
{
    lemma_frozen(state, input);
}

/// The skill that is due on a target: that of the sequence's step, where skills
/// are in place, none is still cooling down, and no basic attack is owed.
pub open spec fn skill_due(input: &TickInput, id: u32, in_place: bool) -> Option<Seq<char>> {
    if in_place && input.memory.post_skill_basic_pending_target != Some(id) && (input.skill_cd_ms == 0
        || quiet_for(input.memory.last_skill_cast, input.now, input.skill_cd_ms as int)) {
        match input.attack_step {
            AttackStepInput::Step(step) => cd_skill(step@),
            _ => None,
        }
    } else {
        None
    }
}

/// The locked target is attacked, or the blow held back: only while the sequence
/// waits and the last attack is less than 800 milliseconds ago. The lock is kept
/// up to date.
pub open spec fn strikes(
    out: TickOutputView,
    lock: TargetLock,
    id: u32,
    ptr: u32,
    name: String,
    way: Option<Seq<(i32, i32)>>,
    in_place: bool,
    input: &TickInput,
) -> bool {
    let held_back = input.attack_step is Waiting && input.memory.last_attack is Some && !ms_later(
        input.memory.last_attack->0,
        input.now,
        800,
    );
    let skill = skill_due(input, id, in_place);
    &&& out.actions.len() == 1
    &&& out.actions[0] == if held_back {
        ActionView::Wait
    } else {
        ActionView::AttackTarget { target_id: id, entity_ptr: ptr, skill }
    }
    &&& match out.next_state {
        Some(HuntStateView::Engaging { lock: next, intent, path }) => {
            &&& next.target_id == id && next.entity_ptr == ptr && next.name == name
            &&& next.acquired_at == lock.acquired_at && next.last_seen == input.now
            &&& next.bootstrapped == lock.bootstrapped
            &&& intent == EngageIntent::Attack
            &&& path == way
        },
        _ => false,
    }
    &&& held_back ==> out.transition is None
    &&& !held_back ==> (out.transition matches Some(t) && t.cause == TransitionCause::StartAttack)
    &&& out.memory_updates.set_last_attack == (if held_back {
        None
    } else {
        Some(input.now)
    })
    &&& out.memory_updates.set_last_skill_cast == (if !held_back && skill is Some {
        Some(input.now)
    } else {
        None
    })
    &&& out.memory_updates.set_post_skill_basic_pending == (if !held_back && skill is Some {
        Some(id)
    } else {
        None
    })
    &&& out.memory_updates.clear_post_skill_basic_pending == (!held_back && skill is None
        && input.memory.post_skill_basic_pending_target == Some(id))
    &&& out.memory_updates.clear_no_actionable_target_since
    &&& out.memory_updates.add_failed_targets.len() == 0
}

/// The candidate at `k` is the first with an id.
pub open spec fn first_with_id(s: Seq<TargetCandidate>, id: u32, k: int) -> bool {
    &&& 0 <= k < s.len() && s[k].target_id == id
    &&& forall|j: int| 0 <= j < k ==> (#[trigger] s[j]).target_id != id
}

pub open spec fn none_with_id(s: Seq<TargetCandidate>, id: u32) -> bool {
    forall|j: int| 0 <= j < s.len() ==> (#[trigger] s[j]).target_id != id
}

/// The entity is the monster with an id.
pub open spec fn is_locked_monster(e: EntityView, id: u32) -> bool {
    e.target_id == id && e.class is AttackableMonster && e.hostile_confidence != 0
}

/// The entity at `k` is the first monster with an id.
pub open spec fn first_monster(s: Seq<EntityView>, id: u32, k: int) -> bool {
    &&& 0 <= k < s.len() && is_locked_monster(s[k], id)
    &&& forall|j: int| 0 <= j < k ==> !is_locked_monster(#[trigger] s[j], id)
}

pub open spec fn no_monster(s: Seq<EntityView>, id: u32) -> bool {
    forall|j: int| 0 <= j < s.len() ==> !is_locked_monster(#[trigger] s[j], id)
}

proof fn lemma_with_id(s: Seq<TargetCandidate>, id: u32, from: int, k: int)
    requires
        0 <= from <= k <= s.len(),
        forall|j: int| from <= j < k ==> (#[trigger] s[j]).target_id != id,
    ensures
        candidate_with_id(s, id, from) == candidate_with_id(s, id, k),
    decreases k - from,
{
    if from < k {
        assert(s[from].target_id != id);
        lemma_with_id(s, id, from + 1, k);
    }
}

proof fn lemma_monster(s: Seq<EntityView>, id: u32, from: int, k: int)
    requires
        0 <= from <= k <= s.len(),
        forall|j: int| from <= j < k ==> !is_locked_monster(#[trigger] s[j], id),
    ensures
        live_entity(s, id, from) == live_entity(s, id, k),
    decreases k - from,
{
    if from < k {
        assert(!is_locked_monster(s[from], id));
        lemma_monster(s, id, from + 1, k);
    }
}

proof fn lemma_found_target(input: &TickInput, id: u32, k: int)
    ensures
        first_with_id(input.candidates@, id, k) ==> candidate_with_id(input.candidates@, id, 0)
            == Some(input.candidates@[k]),
        none_with_id(input.candidates@, id) ==> candidate_with_id(input.candidates@, id, 0) is None,
        first_monster(input.snapshot.entities@, id, k) ==> live_entity(
            input.snapshot.entities@,
            id,
            0,
        ) == Some(input.snapshot.entities@[k]),
        no_monster(input.snapshot.entities@, id) ==> live_entity(
            input.snapshot.entities@,
            id,
            0,
        ) is None,
{
    let s = input.candidates@;
    let e = input.snapshot.entities@;
    if first_with_id(s, id, k) {
        lemma_with_id(s, id, 0, k);
    }
    if none_with_id(s, id) {
        lemma_with_id(s, id, 0, s.len() as int);
    }
    if first_monster(e, id, k) {
        lemma_monster(e, id, 0, k);
    }
    if no_monster(e, id) {
        lemma_monster(e, id, 0, e.len() as int);
    }
}

/// The way of a candidate.
pub open spec fn way_of(c: TargetCandidate) -> Option<Seq<(i32, i32)>> {
    match c.reachable_path {
        Some(p) => Some(p@),
        None => None,
    }
}

/// A locked target that is a candidate is struck where it is in reach, and where
/// it is being attacked and was hurt a moment ago, though it has moved off. Skills
/// are in place only in range.
pub proof fn law_locked_candidate_is_struck(
    state: HuntStateView,
    input: &TickInput,
    lock: TargetLock,
    k: int,
)
    requires
        locked_on(state, input, lock),
        !input.locked_target_removed_or_dead,
        first_with_id(input.candidates@, lock.target_id, k),
        in_reach(input.candidates@[k]) || (state->intent is Attack
            && input.locked_target_recently_damaged),
    ensures
        ({
            let c = input.candidates@[k];
            strikes(
                ticked(state, input),
                lock,
                c.target_id,
                c.entity_ptr,
                c.name,
                way_of(c),
                c.in_attack_range,
                input,
            )
        }),
{
    lemma_frozen(state, input);
    lemma_found_target(input, lock.target_id, k);
}

/// A locked target that is attacked and no candidate, but seen alive, is struck.
pub proof fn law_locked_monster_is_struck(
    state: HuntStateView,
    input: &TickInput,
    lock: TargetLock,
    k: int,
)
    requires
        locked_on(state, input, lock),
        !input.locked_target_removed_or_dead,
        none_with_id(input.candidates@, lock.target_id),
        state->intent is Attack,
        first_monster(input.snapshot.entities@, lock.target_id, k),
    ensures
        ({
            let e = input.snapshot.entities@[k];
            strikes(
                ticked(state, input),
                lock,
                e.target_id,
                e.entity_ptr,
                e.name,
                None,
                true,
                input,
            )
        }),
{
    lemma_frozen(state, input);
    lemma_found_target(input, lock.target_id, k);
}

/// A locked target that is out of reach is walked to, along the way that is kept
/// to. Where a walk that went well has led nowhere for eight ticks the next tile
/// counts as blocked and the target as unreachable, and where there is no way
/// left the target does.
pub proof fn law_locked_target_is_approached(
    state: HuntStateView,
    input: &TickInput,
    lock: TargetLock,
    k: int,
)
    requires
        locked_on(state, input, lock),
        !input.locked_target_removed_or_dead,
        first_with_id(input.candidates@, lock.target_id, k),
        !in_reach(input.candidates@[k]),
        !(state->intent is Attack && input.locked_target_recently_damaged),
        input.now.has_room(),
    ensures
        ({
            let c = input.candidates@[k];
            let out = ticked(state, input);
            let fresh = match c.reachable_path {
                Some(p) => p@,
                None => seq![],
            };
            let way = steady_path(
                input.player_pos,
                *input.memory,
                input.now,
                state->Engaging_path,
                fresh,
            );
            let rest = remaining_path(input.player_pos, way);
            let jammed = state->intent is Approach && input.last_outcome is WalkOk
                && input.memory.stalled_since(8, input.memory.last_walk) && input.player_pos != Some(
                rest[0],
            );
            if rest.len() == 0 {
                &&& pauses(out, RecoveryCause::NoReachableTarget, input.now, 2_000)
                &&& marks_failed(out, lock.target_id, true, input.now)
                &&& out.memory_updates.clear_recent_positions
                &&& out.memory_updates.add_obstacles.len() == 0
            } else if jammed {
                &&& pauses(out, RecoveryCause::WalkStuck, input.now, 800)
                &&& marks_failed(out, lock.target_id, true, input.now)
                &&& out.memory_updates.add_obstacles == seq![(rest[0], input.now)]
                &&& out.memory_updates.clear_recent_positions
            } else {
                &&& out.actions == seq![ActionView::WalkTo { tile: rest[0] }]
                &&& match out.next_state {
                    Some(HuntStateView::Engaging { lock: next, intent, path }) => {
                        &&& next.target_id == c.target_id && next.entity_ptr == c.entity_ptr
                        &&& next.name == c.name && next.bootstrapped == lock.bootstrapped
                        &&& next.acquired_at == lock.acquired_at && next.last_seen == input.now
                        &&& intent == EngageIntent::Approach
                        &&& path == Some(way)
                    },
                    _ => false,
                }
                &&& out.memory_updates.set_last_walk == Some(input.now)
                &&& out.memory_updates.add_failed_targets.len() == 0
                &&& out.memory_updates.add_obstacles.len() == 0
                &&& state->intent is Approach ==> out.transition is None
                &&& !(state->intent is Approach) ==> (out.transition matches Some(t) && t.cause
                    == TransitionCause::StartApproach)
            }
        }),
{
    lemma_frozen(state, input);
    lemma_found_target(input, lock.target_id, k);
}

/// After an attack that came to nothing: a target that was hurt all the same is
/// struck again where it is a candidate or seen alive. Any other is marked as
/// failed, and another candidate is gone for, or the hunt pauses.
pub proof fn law_failed_attack(
    state: HuntStateView,
    input: &TickInput,
    lock: TargetLock,
    k: int,
    e: int,
    other: int,
)
    requires
        may_hunt(input),
        !is_frozen(state, input),
        state matches HuntStateView::Engaging { lock: held, .. } && held == lock,
        attack_failed_on(input.last_outcome, lock.target_id),
        input.now.has_room(),
    ensures
        ({
            let s = input.candidates@;
            let m = input.snapshot.entities@;
            let out = ticked(state, input);
            let again = input.locked_target_recently_damaged && !(none_with_id(s, lock.target_id)
                && no_monster(m, lock.target_id));
            &&& input.locked_target_recently_damaged && first_with_id(s, lock.target_id, k)
                ==> strikes(
                out,
                lock,
                s[k].target_id,
                s[k].entity_ptr,
                s[k].name,
                way_of(s[k]),
                s[k].in_attack_range,
                input,
            )
            &&& input.locked_target_recently_damaged && none_with_id(s, lock.target_id)
                && first_monster(m, lock.target_id, e) ==> strikes(
                out,
                lock,
                m[e].target_id,
                m[e].entity_ptr,
                m[e].name,
                None,
                true,
                input,
            )
            &&& !again && is_choice(s, Some(lock.target_id), other) ==> {
                &&& goes_for(out, s[other], input.now)
                &&& marks_failed(out, lock.target_id, false, input.now)
                &&& out.memory_updates.clear_post_skill_basic_pending == (
                input.memory.post_skill_basic_pending_target == Some(lock.target_id))
            }
            &&& !again && no_choice(s, Some(lock.target_id)) ==> {
                &&& pauses(out, RecoveryCause::AttackFailed, input.now, 2_000)
                &&& marks_failed(out, lock.target_id, false, input.now)
            }
        }),
{
    lemma_frozen(state, input);
    lemma_found_target(input, lock.target_id, k);
    lemma_found_target(input, lock.target_id, e);
    lemma_choice(input.candidates@, Some(lock.target_id), other);
}

/// After a step towards a target that failed, its tile counts as blocked and the
/// target as unreachable, and the hunt pauses.
pub proof fn law_failed_step(
    state: HuntStateView,
    input: &TickInput,
    lock: TargetLock,
    tile: (i32, i32),
)
    requires
        may_hunt(input),
        !is_frozen(state, input),
        state matches HuntStateView::Engaging { lock: held, .. } && held == lock,
        input.last_outcome == (LastOutcome::WalkFailed { attempted_tile: tile }),
        input.now.has_room(),
    ensures
        pauses(ticked(state, input), RecoveryCause::WalkStuck, input.now, 800),
        marks_failed(ticked(state, input), lock.target_id, true, input.now),
        ticked(state, input).memory_updates.add_obstacles == seq![(tile, input.now)],
        ticked(state, input).memory_updates.clear_recent_positions,
{
    lemma_frozen(state, input);
}

/// The locked target is neither a candidate, nor attacked and seen alive.
pub open spec fn lost_target(state: HuntStateView, input: &TickInput, lock: TargetLock) -> bool {
    &&& locked_on(state, input, lock)
    &&& !input.locked_target_removed_or_dead
    &&& none_with_id(input.candidates@, lock.target_id)
    &&& state->intent is Attack ==> no_monster(input.snapshot.entities@, lock.target_id)
}

/// A hunt that has lost its target goes for another candidate. Where there is none
/// it waits for a kill to be confirmed, for a second and a half.
pub proof fn law_lost_target(state: HuntStateView, input: &TickInput, lock: TargetLock, k: int)
    requires
        lost_target(state, input, lock),
    ensures
        is_choice(input.candidates@, None, k) ==> goes_for(
            ticked(state, input),
            input.candidates@[k],
            input.now,
        ) && ticked(state, input).memory_updates.add_failed_targets.len() == 0,
        no_choice(input.candidates@, None) && state->intent is KillConfirm && !ms_later(
            input.state_since,
            input.now,
            1_500,
        ) ==> stays(ticked(state, input)),
{
    lemma_frozen(state, input);
    lemma_found_target(input, lock.target_id, 0);
    lemma_choice(input.candidates@, None, k);
}

/// There is nothing to go for, and the state has nothing to go on with: idling,
/// exploring with all of the path walked, or a target that is lost for good.
pub open spec fn at_a_loss(state: HuntStateView, input: &TickInput) -> bool {
    &&& may_hunt(input)
    &&& !is_frozen(state, input)
    &&& no_choice(input.candidates@, None)
    &&& match state {
        HuntStateView::Idle => true,
        HuntStateView::Exploring { path, .. } => !(input.last_outcome is WalkFailed)
            && remaining_path(input.player_pos, path).len() == 0,
        HuntStateView::Engaging { lock, intent, .. } => lost_target(state, input, lock) && (intent
            is KillConfirm ==> ms_later(input.state_since, input.now, 1_500)),
        _ => false,
    }
}

/// A scroll is due: exploring has led nowhere for eight steps; or a scroll is at
/// hand and there has been nothing to do for as long as is set, once exploring has
/// been tried where it can be.
pub open spec fn scroll_due(input: &TickInput) -> bool {
    let since = match input.memory.no_actionable_target_since {
        Some(at) => at,
        None => input.state_since,
    };
    &&& scroll_ready(input)
    &&& {
        ||| input.memory.empty_explore_walks >= 8
        ||| {
            &&& input.teleport_scroll_available
            &&& input.explore_suggestion is None || input.memory.last_walk is Some
            &&& input.cfg.idle_teleport_secs == 0 || ms_later(
                since,
                input.now,
                input.cfg.idle_teleport_secs * 1000,
            )
        }
    }
}

/// An exploration that is blocked: its next tile counts as blocked and its
/// direction as failed, and the hunt pauses.
pub open spec fn exploration_blocked(
    out: TickOutputView,
    goal: (i32, i32),
    tile: (i32, i32),
    input: &TickInput,
) -> bool {
    &&& pauses(out, RecoveryCause::WalkStuck, input.now, 800)
    &&& out.memory_updates.add_obstacles == seq![(tile, input.now)]
    &&& out.memory_updates.set_no_actionable_target_since == Some(input.now)
    &&& out.memory_updates.clear_recent_positions
    &&& out.memory_updates.add_failed_targets.len() == 0
    &&& match input.player_pos {
        Some(player) => if player == goal {
            out.memory_updates.add_failed_explore_directions.len() == 0
        } else {
            &&& out.memory_updates.add_failed_explore_directions.len() == 1
            &&& out.memory_updates.add_failed_explore_directions[0].1 == input.now
            &&& out.memory_updates.add_failed_explore_directions[0].0.origin == player
            &&& Some(out.memory_updates.add_failed_explore_directions[0].0.direction)
                == direction_to(player, goal)
        },
        None => out.memory_updates.add_failed_explore_directions.len() == 0,
    }
}

/// A step of exploration, which counts as one that found nothing.
pub open spec fn explores(
    out: TickOutputView,
    goal: (i32, i32),
    path: Seq<(i32, i32)>,
    input: &TickInput,
) -> bool {
    &&& out.actions == seq![ActionView::WalkTo { tile: path[0] }]
    &&& out.next_state == Some(HuntStateView::Exploring { goal, path })
    &&& out.memory_updates.set_last_walk == Some(input.now)
    &&& out.memory_updates.set_no_actionable_target_since == Some(input.now)
    &&& out.memory_updates.increment_empty_explore_walks
    &&& !out.memory_updates.clear_empty_explore_walks
    &&& out.memory_updates.add_obstacles.len() == 0
}

proof fn lemma_nothing_to_do(input: &TickInput)
    requires
        no_choice(input.candidates@, None),
    ensures
        !crate::hunt4::step::any_to_do(input.candidates@),
{
    assert forall|i: int| 0 <= i < input.candidates@.len() implies !#[trigger]
        crate::hunt4::step::something_to_do(input.candidates@[i]) by {
        assert(!in_reach(input.candidates@[i]));
    }
}

/// A hunt at a loss reads a scroll where that is due; else it explores where
/// something is suggested, unless exploring is jammed; else it waits, and
/// remembers since when.
pub proof fn law_at_a_loss(state: HuntStateView, input: &TickInput)
    requires
        at_a_loss(state, input),
        input.now.has_room(),
    ensures
        ({
            let out = ticked(state, input);
            let suggested = input.explore_suggestion is Some && input.explore_suggestion->0.path@.len()
                > 0;
            let goal = input.explore_suggestion->0.goal;
            let path = input.explore_suggestion->0.path@;
            let jammed = state is Exploring && input.memory.stalled_since(
                8,
                input.memory.last_walk,
            ) && input.player_pos != Some(path[0]);
            if scroll_due(input) {
                reads_scroll(out, input)
            } else if suggested && jammed {
                exploration_blocked(out, goal, path[0], input)
            } else if suggested {
                &&& explores(out, goal, path, input)
                &&& out.transition matches Some(t) && t.cause == TransitionCause::StartExploration
            } else {
                &&& out.actions == seq![ActionView::Wait]
                &&& out.next_state is None
                &&& out.transition is None
                &&& out.memory_updates.set_no_actionable_target_since == Some(input.now)
                &&& !out.memory_updates.clear_no_actionable_target_since
            }
        }),
{
    lemma_frozen(state, input);
    lemma_choice(input.candidates@, None, 0);
    lemma_nothing_to_do(input);
    if let HuntStateView::Engaging { lock, .. } = state {
        lemma_found_target(input, lock.target_id, 0);
    }
}

/// An exploration without a candidate goes on along what is left of its path,
/// until a step fails, the next tile is an obstacle, or it is jammed.
pub proof fn law_exploration_goes_on(
    state: HuntStateView,
    input: &TickInput,
    goal: (i32, i32),
    path: Seq<(i32, i32)>,
)
    requires
        may_hunt(input),
        !is_frozen(state, input),
        state == (HuntStateView::Exploring { goal, path }),
        no_choice(input.candidates@, None),
        input.now.has_room(),
    ensures
        ({
            let out = ticked(state, input);
            let rest = remaining_path(input.player_pos, path);
            let jammed = input.memory.stalled_since(8, input.memory.last_walk) && input.player_pos
                != Some(rest[0]);
            &&& input.last_outcome matches LastOutcome::WalkFailed { attempted_tile }
                ==> exploration_blocked(out, goal, attempted_tile, input)
            &&& !(input.last_outcome is WalkFailed) && rest.len() > 0 ==> if jammed
                || input.memory.obstacle_at(rest[0], input.now) {
                exploration_blocked(out, goal, rest[0], input)
            } else {
                explores(out, goal, rest, input) && out.transition is None
            }
        }),
{
    lemma_frozen(state, input);
    lemma_choice(input.candidates@, None, 0);
}

/// A hunt that was switched off or stopped goes idle as soon as it may hunt.
pub proof fn law_hunt_resumes(state: HuntStateView, input: &TickInput)
    requires
        may_hunt(input),
        state is Disabled || state is Stopped,
    ensures
        goes_idle(ticked(state, input), TransitionCause::Idle),
{
    lemma_frozen(state, input);
}

} // verus!
