//! One tick of the hunt: from the state and what is seen to an action, a next
//! state, and what to remember.
use crate::decide::hunt::{cd_skill, AttackSequenceStep, HuntConfig, MELEE_RANGE_TILES};
use crate::decide::pathfind::{copy_tiles, path_view};
use crate::hunt4::memory::{
    direction_to, no_update, ExploreDirectionKey, FailureCause, FailureRecord, MemoryUpdate,
    MemoryUpdateView, TacticalMemory, FAILED_TARGET_TTL_MS,
};
use crate::hunt4::model::{EntityView, Snapshot};
use crate::hunt4::route;
use crate::hunt4::route::{candidate_with_id, first_tile, remaining_path, steady_path};
use crate::hunt4::state::{
    copy_path, DisabledReason, EngageIntent, HuntState, HuntStateView, RecoveryCause,
    StopReason, TargetLock,
};
use crate::text::{trim, trim_str};
use crate::time::{elapsed, ms_nanos, Instant};
use vstd::prelude::*;

verus! {

pub const REPEAT_NORMAL_ATTACK_COOLDOWN_MS: u64 = 800;

pub const TELEPORT_SCROLL_COOLDOWN_MS: u64 = 3_000;

pub const ESCAPING_WAIT_DURATION_MS: u64 = 2_000;

pub const KILL_CONFIRM_DURATION_MS: u64 = 1_500;

pub const RECOVERY_WALK_STUCK_DURATION_MS: u64 = 800;

pub const RECOVERY_ATTACK_FAILED_DURATION_MS: u64 = 2_000;

pub const RECOVERY_DAMAGE_SPIKE_DURATION_MS: u64 = 2_000;

pub const RECOVERY_NO_REACHABLE_DURATION_MS: u64 = 2_000;

pub const RECOVERY_CRITICAL_HP_DURATION_MS: u64 = 2_000;

/// Positions that must agree for the player to count as stuck.
pub const STALL_WINDOW_TICKS: usize = 8;

pub const INACTIVITY_RESET_DURATION_MS: u64 = 20_000;

/// Steps of exploration without a target after which to teleport.
pub const EMPTY_EXPLORE_WALK_BUDGET: u16 = 8;

/// A target that can be gone for.
#[derive(Debug, PartialEq, Eq)]
pub struct TargetCandidate {
    pub target_id: u32,
    pub entity_ptr: u32,
    pub name: String,
    pub tile: (i32, i32),
    pub distance: u32,
    pub in_attack_range: bool,
    /// The way to a tile from which it can be attacked.
    pub reachable_path: Option<Vec<(i32, i32)>>,
    pub is_attacker: bool,
}

/// Two candidates say the same.
pub open spec fn same_candidate(a: TargetCandidate, b: TargetCandidate) -> bool {
    &&& b == (TargetCandidate { reachable_path: b.reachable_path, ..a })
    &&& path_view(b.reachable_path) == path_view(a.reachable_path)
}

impl Clone for TargetCandidate {
    fn clone(&self) -> (r: Self)
        ensures
            same_candidate(*self, r),
    {
        TargetCandidate {
            target_id: self.target_id,
            entity_ptr: self.entity_ptr,
            name: self.name.clone(),
            tile: self.tile,
            distance: self.distance,
            in_attack_range: self.in_attack_range,
            reachable_path: copy_path(&self.reachable_path),
            is_attacker: self.is_attacker,
        }
    }
}

/// Ground to explore and the way there.
#[derive(Debug, PartialEq, Eq)]
pub struct ExploreSuggestion {
    pub goal: (i32, i32),
    pub path: Vec<(i32, i32)>,
}

impl Clone for ExploreSuggestion {
    fn clone(&self) -> (r: Self)
        ensures
            r.goal == self.goal,
            r.path@ == self.path@,
    {
        ExploreSuggestion { goal: self.goal, path: copy_tiles(self.path.as_slice()) }
    }
}

/// The step of the attack sequence that is due.
#[derive(Debug, PartialEq, Eq)]
pub enum AttackStepInput {
    /// There is no sequence.
    Legacy,
    /// The sequence is waiting.
    Waiting,
    Step(AttackSequenceStep),
}

impl Clone for AttackStepInput {
    fn clone(&self) -> (r: Self)
        ensures
            r == *self,
    {
        match self {
            AttackStepInput::Legacy => AttackStepInput::Legacy,
            AttackStepInput::Waiting => AttackStepInput::Waiting,
            AttackStepInput::Step(step) => AttackStepInput::Step(step.clone()),
        }
    }
}

/// What to do in a tick.
#[derive(Debug, PartialEq, Eq)]
pub enum Action {
    Wait,
    WalkTo { tile: (i32, i32) },
    AttackTarget { target_id: u32, entity_ptr: u32, skill: Option<String> },
    UseTeleportScroll { name_keyword: String },
}

/// An action as a value.
pub enum ActionView {
    Wait,
    WalkTo { tile: (i32, i32) },
    AttackTarget { target_id: u32, entity_ptr: u32, skill: Option<Seq<char>> },
    UseTeleportScroll { name_keyword: Seq<char> },
}

/// Text that may be missing, as a value.
pub open spec fn text_view(s: Option<String>) -> Option<Seq<char>> {
    match s {
        Some(t) => Some(t@),
        None => None,
    }
}

/// A copy of text that may be missing.
pub fn copy_text(s: &Option<String>) -> (r: Option<String>)
    ensures
        r == *s,
{
    match s {
        Some(t) => Some(t.clone()),
        None => None,
    }
}

impl View for Action {
    type V = ActionView;

    open spec fn view(&self) -> ActionView {
        match *self {
            Action::Wait => ActionView::Wait,
            Action::WalkTo { tile } => ActionView::WalkTo { tile },
            Action::AttackTarget { target_id, entity_ptr, skill } => ActionView::AttackTarget {
                target_id,
                entity_ptr,
                skill: text_view(skill),
            },
            Action::UseTeleportScroll { name_keyword } => ActionView::UseTeleportScroll {
                name_keyword: name_keyword@,
            },
        }
    }
}

impl Clone for Action {
    fn clone(&self) -> (r: Self)
        ensures
            r == *self,
    {
        match self {
            Action::Wait => Action::Wait,
            Action::WalkTo { tile } => Action::WalkTo { tile: *tile },
            Action::AttackTarget { target_id, entity_ptr, skill } => Action::AttackTarget {
                target_id: *target_id,
                entity_ptr: *entity_ptr,
                skill: copy_text(skill),
            },
            Action::UseTeleportScroll { name_keyword } => Action::UseTeleportScroll {
                name_keyword: name_keyword.clone(),
            },
        }
    }
}

/// How the last action went.
#[derive(Debug, Clone, Copy, PartialEq, Eq)]
pub enum LastOutcome {
    /// Nothing was tried.
    NoOutcome,
    WalkOk,
    WalkFailed { attempted_tile: (i32, i32) },
    AttackOk { target_id: u32 },
    AttackFailed { target_id: u32 },
    /// The target has not lost anything for too long.
    AttackNoProgress { target_id: u32 },
    ScrollOk,
    ScrollFailed,
}

/// A state without its contents.
#[derive(Debug, Clone, Copy, PartialEq, Eq, Structural)]
pub enum StateLabel {
    DisabledMasterOff,
    DisabledNotInGame,
    Idle,
    EngagingApproach,
    EngagingAttack,
    EngagingKillConfirm,
    Exploring,
    RecoveringWalkStuck,
    RecoveringAttackFailed,
    RecoveringDamageSpike,
    RecoveringNoReachableTarget,
    RecoveringCriticalHp,
    Escaping,
    StoppedDied,
    StoppedDisconnected,
    StoppedManual,
}

/// Why the state changed.
#[derive(Debug, Clone, Copy, PartialEq, Eq, Structural)]
pub enum TransitionCause {
    MasterOff,
    NotInGame,
    PlayerDied,
    Idle,
    TargetAcquired,
    StartApproach,
    StartAttack,
    TargetDead,
    StartExploration,
    AllTargetsUnreachable,
    WalkStuck,
    AttackFailed,
    DamageSpike,
    CriticalHp,
    UseTeleportScroll,
    RecoveryElapsed,
}

#[derive(Debug, Clone, Copy, PartialEq, Eq, Structural)]
pub struct Transition {
    pub from: StateLabel,
    pub to: StateLabel,
    pub cause: TransitionCause,
}

/// What a tick goes by.
#[derive(Debug)]
pub struct TickInput<'a> {
    pub snapshot: &'a Snapshot,
    pub player_pos: Option<(i32, i32)>,
    pub player_alive: bool,
    pub master_enabled: bool,
    pub in_game: bool,
    pub now: Instant,
    /// Since when the present state has lasted.
    pub state_since: Instant,
    pub cfg: &'a HuntConfig,
    pub memory: &'a TacticalMemory,
    /// Targets, the best first.
    pub candidates: &'a [TargetCandidate],
    pub explore_suggestion: Option<&'a ExploreSuggestion>,
    pub last_outcome: LastOutcome,
    pub teleport_scroll_available: bool,
    pub damage_spike_detected: bool,
    pub critical_hp_detected: bool,
    pub skill_cd_ms: u64,
    pub attack_step: AttackStepInput,
    pub locked_target_removed_or_dead: bool,
    pub locked_target_recently_damaged: bool,
}

impl<'a> Clone for TickInput<'a> {
    fn clone(&self) -> (r: Self)
        ensures
            r == *self,
    {
        TickInput {
            snapshot: self.snapshot,
            player_pos: self.player_pos,
            player_alive: self.player_alive,
            master_enabled: self.master_enabled,
            in_game: self.in_game,
            now: self.now,
            state_since: self.state_since,
            cfg: self.cfg,
            memory: self.memory,
            candidates: self.candidates,
            explore_suggestion: self.explore_suggestion,
            last_outcome: self.last_outcome,
            teleport_scroll_available: self.teleport_scroll_available,
            damage_spike_detected: self.damage_spike_detected,
            critical_hp_detected: self.critical_hp_detected,
            skill_cd_ms: self.skill_cd_ms,
            attack_step: self.attack_step.clone(),
            locked_target_removed_or_dead: self.locked_target_removed_or_dead,
            locked_target_recently_damaged: self.locked_target_recently_damaged,
        }
    }
}

/// What a tick results in.
#[derive(Debug)]
pub struct TickOutput {
    pub actions: Vec<Action>,
    pub next_state: Option<HuntState>,
    pub transition: Option<Transition>,
    pub memory_updates: MemoryUpdate,
}

/// The result of a tick as a value.
#[verifier::ext_equal]
pub struct TickOutputView {
    pub actions: Seq<ActionView>,
    pub next_state: Option<HuntStateView>,
    pub transition: Option<Transition>,
    pub memory_updates: MemoryUpdateView,
}

pub open spec fn state_view(s: Option<HuntState>) -> Option<HuntStateView> {
    match s {
        Some(state) => Some(state@),
        None => None,
    }
}

impl View for TickOutput {
    type V = TickOutputView;

    open spec fn view(&self) -> TickOutputView {
        TickOutputView {
            actions: Seq::new(self.actions@.len(), |i: int| self.actions@[i]@),
            next_state: state_view(self.next_state),
            transition: self.transition,
            memory_updates: self.memory_updates@,
        }
    }
}

impl Clone for TickOutput {
    fn clone(&self) -> (r: Self)
        ensures
            r@ == self@,
    {
        let mut actions: Vec<Action> = Vec::new();
        let mut i: usize = 0;
        while i < self.actions.len()
            invariant
                i <= self.actions@.len(),
                actions@ == self.actions@.take(i as int),
            decreases self.actions@.len() - i,
        {
            actions.push(self.actions[i].clone());
            assert(actions@ =~= self.actions@.take(i + 1));
            i = i + 1;
        }
        assert(actions@ =~= self.actions@);
        let next_state: Option<HuntState> = match &self.next_state {
            Some(state) => Some(state.clone()),
            None => None,
        };
        TickOutput {
            actions,
            next_state,
            transition: self.transition,
            memory_updates: self.memory_updates.clone(),
        }
    }
}

/// Nothing is done, and nothing changes.
impl Default for TickOutput {
    fn default() -> (r: Self)
        ensures
            r@ == (TickOutputView {
                actions: seq![],
                next_state: None,
                transition: None,
                memory_updates: no_update(),
            }),
    {
        let r = TickOutput {
            actions: Vec::new(),
            next_state: None,
            transition: None,
            memory_updates: MemoryUpdate::default(),
        };
        assert(r@.actions =~= seq![]);
        r
    }
}

/// The result with a single action.
pub open spec fn outcome(
    action: ActionView,
    next_state: Option<HuntStateView>,
    transition: Option<Transition>,
    memory_updates: MemoryUpdateView,
) -> TickOutputView {
    TickOutputView { actions: seq![action], next_state, transition, memory_updates }
}

fn make_output(
    action: Action,
    next_state: Option<HuntState>,
    transition: Option<Transition>,
    memory_updates: MemoryUpdate,
) -> (r: TickOutput)
    ensures
        r@ == outcome(action@, state_view(next_state), transition, memory_updates@),
{
    let mut actions: Vec<Action> = Vec::new();
    actions.push(action);
    let r = TickOutput { actions, next_state, transition, memory_updates };
    assert(r@ =~= outcome(action@, state_view(next_state), transition, memory_updates@));
    r
}

pub open spec fn label_of(state: HuntStateView) -> StateLabel {
    match state {
        HuntStateView::Disabled { reason } => match reason {
            DisabledReason::MasterOff => StateLabel::DisabledMasterOff,
            DisabledReason::NotInGame => StateLabel::DisabledNotInGame,
        },
        HuntStateView::Idle => StateLabel::Idle,
        HuntStateView::Engaging { intent, .. } => match intent {
            EngageIntent::Approach => StateLabel::EngagingApproach,
            EngageIntent::Attack => StateLabel::EngagingAttack,
            EngageIntent::KillConfirm => StateLabel::EngagingKillConfirm,
        },
        HuntStateView::Exploring { .. } => StateLabel::Exploring,
        HuntStateView::Recovering { cause, .. } => recovering_label(cause),
        HuntStateView::Escaping { .. } => StateLabel::Escaping,
        HuntStateView::Stopped { reason } => match reason {
            StopReason::Died => StateLabel::StoppedDied,
            StopReason::Disconnected => StateLabel::StoppedDisconnected,
            StopReason::Manual => StateLabel::StoppedManual,
        },
    }
}

pub open spec fn recovering_label(cause: RecoveryCause) -> StateLabel {
    match cause {
        RecoveryCause::WalkStuck => StateLabel::RecoveringWalkStuck,
        RecoveryCause::AttackFailed => StateLabel::RecoveringAttackFailed,
        RecoveryCause::DamageSpike => StateLabel::RecoveringDamageSpike,
        RecoveryCause::NoReachableTarget => StateLabel::RecoveringNoReachableTarget,
        RecoveryCause::CriticalHp => StateLabel::RecoveringCriticalHp,
    }
}

pub open spec fn recovery_transition(cause: RecoveryCause) -> TransitionCause {
    match cause {
        RecoveryCause::WalkStuck => TransitionCause::WalkStuck,
        RecoveryCause::AttackFailed => TransitionCause::AttackFailed,
        RecoveryCause::DamageSpike => TransitionCause::DamageSpike,
        RecoveryCause::NoReachableTarget => TransitionCause::AllTargetsUnreachable,
        RecoveryCause::CriticalHp => TransitionCause::CriticalHp,
    }
}

/// The label of a state.
pub fn state_label(state: &HuntState) -> (r: StateLabel)
    ensures
        r == label_of(state@),
{
    match state {
        HuntState::Disabled { reason } => match reason {
            DisabledReason::MasterOff => StateLabel::DisabledMasterOff,
            DisabledReason::NotInGame => StateLabel::DisabledNotInGame,
        },
        HuntState::Idle => StateLabel::Idle,
        HuntState::Engaging { intent, .. } => match intent {
            EngageIntent::Approach => StateLabel::EngagingApproach,
            EngageIntent::Attack => StateLabel::EngagingAttack,
            EngageIntent::KillConfirm => StateLabel::EngagingKillConfirm,
        },
        HuntState::Exploring { .. } => StateLabel::Exploring,
        HuntState::Recovering { cause, .. } => label_of_recovery(*cause),
        HuntState::Escaping { .. } => StateLabel::Escaping,
        HuntState::Stopped { reason } => match reason {
            StopReason::Died => StateLabel::StoppedDied,
            StopReason::Disconnected => StateLabel::StoppedDisconnected,
            StopReason::Manual => StateLabel::StoppedManual,
        },
    }
}

fn label_of_recovery(cause: RecoveryCause) -> (r: StateLabel)
    ensures
        r == recovering_label(cause),
{
    match cause {
        RecoveryCause::WalkStuck => StateLabel::RecoveringWalkStuck,
        RecoveryCause::AttackFailed => StateLabel::RecoveringAttackFailed,
        RecoveryCause::DamageSpike => StateLabel::RecoveringDamageSpike,
        RecoveryCause::NoReachableTarget => StateLabel::RecoveringNoReachableTarget,
        RecoveryCause::CriticalHp => StateLabel::RecoveringCriticalHp,
    }
}

/// Doing nothing, and staying in the state.
pub open spec fn keep_waiting() -> TickOutputView {
    outcome(ActionView::Wait, None, None, no_update())
}

fn wait_output() -> (r: TickOutput)
    ensures
        r@ == keep_waiting(),
{
    make_output(Action::Wait, None, None, MemoryUpdate::default())
}

/// Going over to a state without doing anything else.
pub open spec fn changed_to(from: StateLabel, state: HuntStateView, cause: TransitionCause) -> TickOutputView {
    outcome(
        ActionView::Wait,
        Some(state),
        Some(Transition { from, to: label_of(state), cause }),
        no_update(),
    )
}

fn transition_to(from: StateLabel, state: HuntState, cause: TransitionCause) -> (r: TickOutput)
    ensures
        r@ == changed_to(from, state@, cause),
{
    let to: StateLabel = state_label(&state);
    make_output(
        Action::Wait,
        Some(state),
        Some(Transition { from, to, cause }),
        MemoryUpdate::default(),
    )
}

/// Pausing for a while, with something to remember.
pub open spec fn recovering(
    from: StateLabel,
    cause: RecoveryCause,
    now: Instant,
    ms: u64,
    updates: MemoryUpdateView,
) -> TickOutputView {
    outcome(
        ActionView::Wait,
        Some(HuntStateView::Recovering { cause, until: now.after_ms(ms as int) }),
        Some(
            Transition { from, to: recovering_label(cause), cause: recovery_transition(cause) },
        ),
        updates,
    )
}

fn recover(
    from: StateLabel,
    cause: RecoveryCause,
    now: Instant,
    ms: u64,
    updates: MemoryUpdate,
) -> (r: TickOutput)
    requires
        now.has_room(),
    ensures
        r@ == recovering(from, cause, now, ms, updates@),
{
    let transition_cause: TransitionCause = match cause {
        RecoveryCause::WalkStuck => TransitionCause::WalkStuck,
        RecoveryCause::AttackFailed => TransitionCause::AttackFailed,
        RecoveryCause::DamageSpike => TransitionCause::DamageSpike,
        RecoveryCause::NoReachableTarget => TransitionCause::AllTargetsUnreachable,
        RecoveryCause::CriticalHp => TransitionCause::CriticalHp,
    };
    make_output(
        Action::Wait,
        Some(HuntState::Recovering { cause, until: now.plus_ms(ms) }),
        Some(Transition { from, to: label_of_recovery(cause), cause: transition_cause }),
        updates,
    )
}

/// A target that can be hit now: in range, or an attacker next to the player.
pub open spec fn attackable_now(c: TargetCandidate) -> bool {
    c.in_attack_range || (c.is_attacker && c.entity_ptr != 0 && c.distance <= MELEE_RANGE_TILES)
}

fn candidate_can_attack_now(candidate: &TargetCandidate) -> (r: bool)
    ensures
        r == attackable_now(*candidate),
{
    candidate.in_attack_range || (candidate.is_attacker && candidate.entity_ptr != 0
        && candidate.distance <= MELEE_RANGE_TILES)
}

/// The candidate is not the one that is left out.
pub open spec fn not_excluded(c: TargetCandidate, excluded: Option<u32>) -> bool {
    excluded != Some(c.target_id)
}

pub open spec fn first_attackable(s: Seq<TargetCandidate>, excluded: Option<u32>, from: int) -> Option<
    TargetCandidate,
>
    decreases s.len() - from,
{
    if from < 0 || from >= s.len() {
        None
    } else if not_excluded(s[from], excluded) && attackable_now(s[from]) {
        Some(s[from])
    } else {
        first_attackable(s, excluded, from + 1)
    }
}

pub open spec fn first_reachable(s: Seq<TargetCandidate>, excluded: Option<u32>, from: int) -> Option<
    TargetCandidate,
>
    decreases s.len() - from,
{
    if from < 0 || from >= s.len() {
        None
    } else if not_excluded(s[from], excluded) && s[from].reachable_path is Some {
        Some(s[from])
    } else {
        first_reachable(s, excluded, from + 1)
    }
}

/// The first candidate that can be hit now, else the first that can be reached.
pub open spec fn best_of(s: Seq<TargetCandidate>, excluded: Option<u32>) -> Option<TargetCandidate> {
    match first_attackable(s, excluded, 0) {
        Some(c) => Some(c),
        None => first_reachable(s, excluded, 0),
    }
}

/// Whether an optional id is this one.
pub fn is_id(value: Option<u32>, id: u32) -> (r: bool)
    ensures
        r == (value == Some(id)),
{
    match value {
        Some(v) => v == id,
        None => false,
    }
}

/// Whether an optional tile is this one.
pub fn is_tile(value: Option<(i32, i32)>, tile: (i32, i32)) -> (r: bool)
    ensures
        r == (value == Some(tile)),
{
    match value {
        Some(v) => v.0 == tile.0 && v.1 == tile.1,
        None => false,
    }
}

fn best_candidate<'a>(candidates: &'a [TargetCandidate], excluded: Option<u32>) -> (r: Option<
    &'a TargetCandidate,
>)
    ensures
        match r {
            Some(c) => best_of(candidates@, excluded) == Some(*c),
            None => best_of(candidates@, excluded) is None,
        },
{
    let mut i: usize = 0;
    while i < candidates.len()
        invariant
            i <= candidates@.len(),
            first_attackable(candidates@, excluded, 0) == first_attackable(
                candidates@,
                excluded,
                i as int,
            ),
        decreases candidates@.len() - i,
    {
        let c: &TargetCandidate = &candidates[i];
        if !is_id(excluded, c.target_id) && candidate_can_attack_now(c) {
            return Some(c);
        }
        i = i + 1;
    }
    let mut j: usize = 0;
    while j < candidates.len()
        invariant
            j <= candidates@.len(),
            first_attackable(candidates@, excluded, 0) is None,
            first_reachable(candidates@, excluded, 0) == first_reachable(
                candidates@,
                excluded,
                j as int,
            ),
        decreases candidates@.len() - j,
    {
        let c: &TargetCandidate = &candidates[j];
        if !is_id(excluded, c.target_id) && c.reachable_path.is_some() {
            return Some(c);
        }
        j = j + 1;
    }
    None
}

/// The outcome says that attacking the target came to nothing.
pub open spec fn attack_gone_wrong(outcome: LastOutcome, target_id: u32) -> bool {
    match outcome {
        LastOutcome::AttackFailed { target_id: seen } => seen == target_id,
        LastOutcome::AttackNoProgress { target_id: seen } => seen == target_id,
        _ => false,
    }
}

fn attack_outcome_matches_target(outcome: &LastOutcome, target_id: u32) -> (r: bool)
    ensures
        r == attack_gone_wrong(*outcome, target_id),
{
    match outcome {
        LastOutcome::AttackFailed { target_id: seen } => *seen == target_id,
        LastOutcome::AttackNoProgress { target_id: seen } => *seen == target_id,
        _ => false,
    }
}

/// A new lock on a candidate.
pub open spec fn fresh_lock(c: TargetCandidate, now: Instant) -> TargetLock {
    TargetLock {
        target_id: c.target_id,
        entity_ptr: c.entity_ptr,
        name: c.name,
        acquired_at: now,
        last_seen: now,
        bootstrapped: false,
    }
}

/// A lock whose target was seen again.
pub open spec fn renewed_lock(
    lock: TargetLock,
    target_id: u32,
    entity_ptr: u32,
    name: String,
    now: Instant,
) -> TargetLock {
    TargetLock {
        target_id,
        entity_ptr,
        name,
        acquired_at: lock.acquired_at,
        last_seen: now,
        bootstrapped: lock.bootstrapped,
    }
}

fn new_lock(candidate: &TargetCandidate, now: Instant) -> (r: TargetLock)
    ensures
        r == fresh_lock(*candidate, now),
{
    TargetLock {
        target_id: candidate.target_id,
        entity_ptr: candidate.entity_ptr,
        name: candidate.name.clone(),
        acquired_at: now,
        last_seen: now,
        bootstrapped: false,
    }
}

fn refresh_lock(lock: &TargetLock, target_id: u32, entity_ptr: u32, name: &String, now: Instant) -> (r:
    TargetLock)
    ensures
        r == renewed_lock(*lock, target_id, entity_ptr, *name, now),
{
    TargetLock {
        target_id,
        entity_ptr,
        name: name.clone(),
        acquired_at: lock.acquired_at,
        last_seen: now,
        bootstrapped: lock.bootstrapped,
    }
}

/// The first step of a path that may be missing.
pub open spec fn opt_first(path: Option<Vec<(i32, i32)>>) -> Option<(i32, i32)> {
    match path {
        Some(p) => first_tile(p@),
        None => None,
    }
}

fn first_of(path: &Option<Vec<(i32, i32)>>) -> (r: Option<(i32, i32)>)
    ensures
        r == opt_first(*path),
{
    match path {
        Some(p) => route::head_tile(p.as_slice()),
        None => None,
    }
}

/// Going for a candidate: hitting it where that is possible, else taking the
/// first step towards it. What else is to be remembered comes in `updates`.
pub open spec fn engaged(
    from: StateLabel,
    c: TargetCandidate,
    now: Instant,
    updates: MemoryUpdateView,
) -> TickOutputView {
    let hit = attackable_now(c);
    let step = opt_first(c.reachable_path);
    outcome(
        if hit {
            ActionView::AttackTarget {
                target_id: c.target_id,
                entity_ptr: c.entity_ptr,
                skill: None,
            }
        } else if step is Some {
            ActionView::WalkTo { tile: step->0 }
        } else {
            ActionView::Wait
        },
        Some(
            HuntStateView::Engaging {
                lock: fresh_lock(c, now),
                intent: if hit {
                    EngageIntent::Attack
                } else {
                    EngageIntent::Approach
                },
                path: path_view(c.reachable_path),
            },
        ),
        Some(
            Transition {
                from,
                to: if hit {
                    StateLabel::EngagingAttack
                } else {
                    StateLabel::EngagingApproach
                },
                cause: TransitionCause::TargetAcquired,
            },
        ),
        MemoryUpdateView {
            clear_no_actionable_target_since: true,
            clear_empty_explore_walks: true,
            set_last_attack: if hit {
                Some(now)
            } else {
                None
            },
            set_last_walk: if !hit && step is Some {
                Some(now)
            } else {
                None
            },
            ..updates
        },
    )
}

fn engage_candidate(
    from: StateLabel,
    candidate: &TargetCandidate,
    now: Instant,
    updates: MemoryUpdate,
) -> (r: TickOutput)
    requires
        updates.set_last_attack is None,
        updates.set_last_walk is None,
    ensures
        r@ == engaged(from, *candidate, now, updates@),
{
    let hit: bool = candidate_can_attack_now(candidate);
    let step: Option<(i32, i32)> = first_of(&candidate.reachable_path);
    let mut updates = updates;
    updates.clear_no_actionable_target_since = true;
    updates.clear_empty_explore_walks = true;
    let action: Action = if hit {
        updates.set_last_attack = Some(now);
        Action::AttackTarget {
            target_id: candidate.target_id,
            entity_ptr: candidate.entity_ptr,
            skill: None,
        }
    } else {
        match step {
            Some(tile) => {
                updates.set_last_walk = Some(now);
                Action::WalkTo { tile }
            },
            None => Action::Wait,
        }
    };
    let intent: EngageIntent = if hit {
        EngageIntent::Attack
    } else {
        EngageIntent::Approach
    };
    let to: StateLabel = if hit {
        StateLabel::EngagingAttack
    } else {
        StateLabel::EngagingApproach
    };
    let next = HuntState::Engaging {
        lock: new_lock(candidate, now),
        intent,
        path: copy_path(&candidate.reachable_path),
    };
    let r = make_output(
        action,
        Some(next),
        Some(Transition { from, to, cause: TransitionCause::TargetAcquired }),
        updates,
    );
    assert(r@ =~= engaged(from, *candidate, now, updates@));
    r
}

/// A failed target.
pub open spec fn failure(target_id: u32, cause: FailureCause, now: Instant) -> (u32, FailureRecord) {
    (target_id, FailureRecord { cause, until: now.after_ms(FAILED_TARGET_TTL_MS as int) })
}

fn mark_target(update: &mut MemoryUpdate, target_id: u32, cause: FailureCause, now: Instant)
    requires
        now.has_room(),
    ensures
        final(update)@ == (MemoryUpdateView {
            add_failed_targets: old(update)@.add_failed_targets.push(failure(target_id, cause, now)),
            ..old(update)@
        }),
{
    update.add_failed_targets.push(
        (target_id, FailureRecord { cause, until: now.plus_ms(FAILED_TARGET_TTL_MS) }),
    );
}

/// What is remembered of a blocked step towards a target.
pub open spec fn blocked_step_update(tile: (i32, i32), target_id: u32, now: Instant) -> MemoryUpdateView {
    MemoryUpdateView {
        add_obstacles: seq![(tile, now)],
        add_failed_targets: seq![failure(target_id, FailureCause::Unreachable, now)],
        clear_recent_positions: true,
        ..no_update()
    }
}

fn blocked_step(tile: (i32, i32), target_id: u32, now: Instant) -> (r: MemoryUpdate)
    requires
        now.has_room(),
    ensures
        r@ == blocked_step_update(tile, target_id, now),
{
    let mut update = MemoryUpdate::default();
    update.add_obstacles.push((tile, now));
    mark_target(&mut update, target_id, FailureCause::Unreachable, now);
    update.clear_recent_positions = true;
    assert(update@ =~= blocked_step_update(tile, target_id, now));
    update
}

/// A basic attack is due again.
pub open spec fn basic_attack_ready(memory: TacticalMemory, now: Instant) -> bool {
    match memory.last_attack {
        Some(last) => elapsed(now, last) >= ms_nanos(REPEAT_NORMAL_ATTACK_COOLDOWN_MS as int),
        None => true,
    }
}

fn normal_attack_ready(memory: &TacticalMemory, now: Instant) -> (r: bool)
    ensures
        r == basic_attack_ready(*memory, now),
{
    match memory.last_attack {
        Some(last) => !now.within_ms(last, REPEAT_NORMAL_ATTACK_COOLDOWN_MS),
        None => true,
    }
}

/// The skill to attack with: that of the step that is due, unless skills are out
/// of place, a basic attack is owed, or the skill is still cooling down.
pub open spec fn chosen_skill(input: &TickInput, target_id: u32, skill_allowed: bool) -> Option<
    Seq<char>,
> {
    if !skill_allowed || input.memory.post_skill_basic_pending_target == Some(target_id) {
        None
    } else if input.skill_cd_ms > 0 && input.memory.last_skill_cast is Some && elapsed(
        input.now,
        input.memory.last_skill_cast->0,
    ) < ms_nanos(input.skill_cd_ms as int) {
        None
    } else {
        match input.attack_step {
            AttackStepInput::Step(step) => cd_skill(step@),
            _ => None,
        }
    }
}

fn selected_attack_skill(input: &TickInput<'_>, target_id: u32, skill_allowed: bool) -> (r: Option<
    String,
>)
    ensures
        text_view(r) == chosen_skill(input, target_id, skill_allowed),
{
    if !skill_allowed || is_id(input.memory.post_skill_basic_pending_target, target_id) {
        return None;
    }
    if input.skill_cd_ms > 0 {
        if let Some(last) = input.memory.last_skill_cast {
            if input.now.within_ms(last, input.skill_cd_ms) {
                return None;
            }
        }
    }
    match &input.attack_step {
        AttackStepInput::Step(step) => match step.skill_for_cd() {
            Some(name) => Some(name.to_owned()),
            None => None,
        },
        AttackStepInput::Legacy => None,
        AttackStepInput::Waiting => None,
    }
}

/// Attacking the locked target: waiting while the sequence waits and no basic
/// attack is due, else a blow, with a skill where one is chosen.
pub open spec fn attacked(
    from: StateLabel,
    lock: TargetLock,
    path: Option<Seq<(i32, i32)>>,
    skill_allowed: bool,
    input: &TickInput,
) -> TickOutputView {
    let next = HuntStateView::Engaging { lock, intent: EngageIntent::Attack, path };
    if input.attack_step is Waiting && !basic_attack_ready(*input.memory, input.now) {
        outcome(
            ActionView::Wait,
            Some(next),
            None,
            MemoryUpdateView { clear_no_actionable_target_since: true, ..no_update() },
        )
    } else {
        let skill = chosen_skill(input, lock.target_id, skill_allowed);
        outcome(
            ActionView::AttackTarget {
                target_id: lock.target_id,
                entity_ptr: lock.entity_ptr,
                skill,
            },
            Some(next),
            Some(
                Transition {
                    from,
                    to: StateLabel::EngagingAttack,
                    cause: TransitionCause::StartAttack,
                },
            ),
            MemoryUpdateView {
                set_last_attack: Some(input.now),
                set_last_skill_cast: if skill is Some {
                    Some(input.now)
                } else {
                    None
                },
                set_post_skill_basic_pending: if skill is Some {
                    Some(lock.target_id)
                } else {
                    None
                },
                clear_post_skill_basic_pending: skill is None
                    && input.memory.post_skill_basic_pending_target == Some(lock.target_id),
                clear_no_actionable_target_since: true,
                ..no_update()
            },
        )
    }
}

fn attack_locked(
    from: StateLabel,
    lock: TargetLock,
    path: Option<Vec<(i32, i32)>>,
    skill_allowed: bool,
    input: &TickInput<'_>,
) -> (r: TickOutput)
    ensures
        r@ == attacked(from, lock, path_view(path), skill_allowed, input),
{
    let target_id: u32 = lock.target_id;
    let entity_ptr: u32 = lock.entity_ptr;
    let next = HuntState::Engaging { lock, intent: EngageIntent::Attack, path };
    let mut updates = MemoryUpdate::default();
    updates.clear_no_actionable_target_since = true;
    let waiting: bool = match &input.attack_step {
        AttackStepInput::Waiting => true,
        _ => false,
    };
    if waiting && !normal_attack_ready(input.memory, input.now) {
        let r = make_output(Action::Wait, Some(next), None, updates);
        assert(r@ =~= attacked(from, lock, path_view(path), skill_allowed, input));
        return r;
    }
    let skill: Option<String> = selected_attack_skill(input, target_id, skill_allowed);
    updates.set_last_attack = Some(input.now);
    if skill.is_some() {
        updates.set_last_skill_cast = Some(input.now);
        updates.set_post_skill_basic_pending = Some(target_id);
    } else {
        updates.clear_post_skill_basic_pending = is_id(
            input.memory.post_skill_basic_pending_target,
            target_id,
        );
    }
    let r = make_output(
        Action::AttackTarget { target_id, entity_ptr, skill },
        Some(next),
        Some(
            Transition {
                from,
                to: StateLabel::EngagingAttack,
                cause: TransitionCause::StartAttack,
            },
        ),
        updates,
    );
    assert(r@ =~= attacked(from, lock, path_view(path), skill_allowed, input));
    r
}

/// Attacking a candidate.
pub open spec fn candidate_attacked(
    from: StateLabel,
    lock: TargetLock,
    c: TargetCandidate,
    input: &TickInput,
) -> TickOutputView {
    attacked(
        from,
        renewed_lock(lock, c.target_id, c.entity_ptr, c.name, input.now),
        path_view(c.reachable_path),
        c.in_attack_range,
        input,
    )
}

/// Attacking a locked target that is seen but is no candidate.
pub open spec fn entity_attacked(
    from: StateLabel,
    lock: TargetLock,
    e: EntityView,
    input: &TickInput,
) -> TickOutputView {
    attacked(
        from,
        renewed_lock(lock, e.target_id, e.entity_ptr, e.name, input.now),
        None,
        true,
        input,
    )
}

fn attack_candidate(
    from: StateLabel,
    lock: &TargetLock,
    candidate: &TargetCandidate,
    input: &TickInput<'_>,
) -> (r: TickOutput)
    ensures
        r@ == candidate_attacked(from, *lock, *candidate, input),
{
    attack_locked(
        from,
        refresh_lock(lock, candidate.target_id, candidate.entity_ptr, &candidate.name, input.now),
        copy_path(&candidate.reachable_path),
        candidate.in_attack_range,
        input,
    )
}

fn attack_visible_lock(
    from: StateLabel,
    lock: &TargetLock,
    entity: &EntityView,
    input: &TickInput<'_>,
) -> (r: TickOutput)
    ensures
        r@ == entity_attacked(from, *lock, *entity, input),
{
    attack_locked(
        from,
        refresh_lock(lock, entity.target_id, entity.entity_ptr, &entity.name, input.now),
        None,
        true,
        input,
    )
}

/// The first live entity with an id.
pub open spec fn live_entity(s: Seq<EntityView>, id: u32, from: int) -> Option<EntityView>
    decreases s.len() - from,
{
    if from < 0 || from >= s.len() {
        None
    } else if s[from].target_id == id && s[from].live() {
        Some(s[from])
    } else {
        live_entity(s, id, from + 1)
    }
}

/// The first live entity with an id.
pub fn locked_live_entity<'a>(snapshot: &'a Snapshot, target_id: u32) -> (r: Option<&'a EntityView>)
    ensures
        match r {
            Some(e) => live_entity(snapshot.entities@, target_id, 0) == Some(*e),
            None => live_entity(snapshot.entities@, target_id, 0) is None,
        },
{
    let mut i: usize = 0;
    while i < snapshot.entities.len()
        invariant
            i <= snapshot.entities@.len(),
            live_entity(snapshot.entities@, target_id, 0) == live_entity(
                snapshot.entities@,
                target_id,
                i as int,
            ),
        decreases snapshot.entities@.len() - i,
    {
        if snapshot.entities[i].target_id == target_id && snapshot.entities[i].is_live_attackable() {
            return Some(&snapshot.entities[i]);
        }
        i = i + 1;
    }
    None
}

/// Not long enough ago to teleport again.
pub open spec fn teleport_cooling(memory: TacticalMemory, now: Instant) -> bool {
    memory.last_teleport is Some && elapsed(now, memory.last_teleport->0) < ms_nanos(
        TELEPORT_SCROLL_COOLDOWN_MS as int,
    )
}

/// The scroll to use whatever else there is to do.
pub open spec fn forced_scroll(input: &TickInput) -> Option<Seq<char>> {
    let name = trim(input.cfg.teleport_scroll_name@);
    if name.len() == 0 || teleport_cooling(*input.memory, input.now) {
        None
    } else {
        Some(name)
    }
}

/// Something to go for, or an attacker next to the player.
pub open spec fn something_to_do(c: TargetCandidate) -> bool {
    c.reachable_path is Some || (c.is_attacker && c.entity_ptr != 0 && c.distance <= 1)
}

pub open spec fn any_to_do(s: Seq<TargetCandidate>) -> bool {
    exists|i: int| 0 <= i < s.len() && #[trigger] something_to_do(s[i])
}

/// The scroll to use when there has been nothing to do for long enough.
pub open spec fn idle_scroll(input: &TickInput) -> Option<Seq<char>> {
    let ready_since = match input.memory.no_actionable_target_since {
        Some(at) => at,
        None => input.state_since,
    };
    if !input.teleport_scroll_available || any_to_do(input.candidates@) {
        None
    } else if input.explore_suggestion is Some && input.memory.last_walk is None {
        None
    } else if input.cfg.idle_teleport_secs > 0 && elapsed(input.now, ready_since)
        < input.cfg.idle_teleport_secs * 1_000_000_000 {
        None
    } else {
        forced_scroll(input)
    }
}

/// The scroll to use when exploring has led nowhere for long enough.
pub open spec fn budget_scroll(input: &TickInput) -> Option<Seq<char>> {
    if input.memory.empty_explore_walks < EMPTY_EXPLORE_WALK_BUDGET || any_to_do(
        input.candidates@,
    ) {
        None
    } else {
        forced_scroll(input)
    }
}

fn force_teleport_action(input: &TickInput<'_>) -> (r: Option<String>)
    ensures
        text_view(r) == forced_scroll(input),
{
    let name: &str = trim_str(input.cfg.teleport_scroll_name.as_str());
    if name.is_empty() {
        return None;
    }
    if let Some(last) = input.memory.last_teleport {
        if input.now.within_ms(last, TELEPORT_SCROLL_COOLDOWN_MS) {
            return None;
        }
    }
    Some(name.to_owned())
}

fn anything_to_do(candidates: &[TargetCandidate]) -> (r: bool)
    ensures
        r == any_to_do(candidates@),
{
    let mut i: usize = 0;
    while i < candidates.len()
        invariant
            i <= candidates@.len(),
            forall|j: int| 0 <= j < i ==> !#[trigger] something_to_do(candidates@[j]),
        decreases candidates@.len() - i,
    {
        let c: &TargetCandidate = &candidates[i];
        if c.reachable_path.is_some() || (c.is_attacker && c.entity_ptr != 0 && c.distance <= 1) {
            assert(something_to_do(candidates@[i as int]));
            return true;
        }
        i = i + 1;
    }
    false
}

fn teleport_action(input: &TickInput<'_>) -> (r: Option<String>)
    ensures
        text_view(r) == idle_scroll(input),
{
    if !input.teleport_scroll_available || anything_to_do(input.candidates) {
        return None;
    }
    if input.explore_suggestion.is_some() && input.memory.last_walk.is_none() {
        return None;
    }
    if input.cfg.idle_teleport_secs > 0 {
        let ready_since: Instant = match input.memory.no_actionable_target_since {
            Some(at) => at,
            None => input.state_since,
        };
        if input.now.saturating_duration_since(ready_since).nanos
            < crate::time::Duration::from_secs(input.cfg.idle_teleport_secs).nanos {
            return None;
        }
    }
    force_teleport_action(input)
}

fn empty_explore_budget_action(input: &TickInput<'_>) -> (r: Option<String>)
    ensures
        text_view(r) == budget_scroll(input),
{
    if input.memory.empty_explore_walks < EMPTY_EXPLORE_WALK_BUDGET || anything_to_do(
        input.candidates,
    ) {
        return None;
    }
    force_teleport_action(input)
}

/// Teleporting, and waiting for it to happen.
pub open spec fn escaped(from: StateLabel, scroll: Seq<char>, input: &TickInput) -> TickOutputView {
    outcome(
        ActionView::UseTeleportScroll { name_keyword: scroll },
        Some(
            HuntStateView::Escaping {
                scroll_used_at: input.now,
                wait_until: input.now.after_ms(ESCAPING_WAIT_DURATION_MS as int),
                origin_pos: input.player_pos,
            },
        ),
        Some(
            Transition {
                from,
                to: StateLabel::Escaping,
                cause: TransitionCause::UseTeleportScroll,
            },
        ),
        MemoryUpdateView {
            set_last_teleport: Some(input.now),
            clear_no_actionable_target_since: true,
            clear_empty_explore_walks: true,
            ..no_update()
        },
    )
}

fn escape_with_scroll(from: StateLabel, scroll: String, input: &TickInput<'_>) -> (r: TickOutput)
    requires
        input.now.has_room(),
    ensures
        r@ == escaped(from, scroll@, input),
{
    let mut updates = MemoryUpdate::default();
    updates.set_last_teleport = Some(input.now);
    updates.clear_no_actionable_target_since = true;
    updates.clear_empty_explore_walks = true;
    let r = make_output(
        Action::UseTeleportScroll { name_keyword: scroll },
        Some(
            HuntState::Escaping {
                scroll_used_at: input.now,
                wait_until: input.now.plus_ms(ESCAPING_WAIT_DURATION_MS),
                origin_pos: input.player_pos,
            },
        ),
        Some(
            Transition {
                from,
                to: StateLabel::Escaping,
                cause: TransitionCause::UseTeleportScroll,
            },
        ),
        updates,
    );
    assert(r@ =~= escaped(from, scroll@, input));
    r
}

/// What is remembered of an exploration that got stuck.
pub open spec fn stuck_exploration_update(
    goal: (i32, i32),
    blocked: (i32, i32),
    input: &TickInput,
) -> MemoryUpdateView {
    MemoryUpdateView {
        add_obstacles: seq![(blocked, input.now)],
        add_failed_explore_directions: match input.player_pos {
            Some(player) => match direction_to(player, goal) {
                Some(direction) => seq![
                    (ExploreDirectionKey { origin: player, direction }, input.now),
                ],
                None => seq![],
            },
            None => seq![],
        },
        set_no_actionable_target_since: Some(input.now),
        clear_recent_positions: true,
        ..no_update()
    }
}

/// Pausing after an exploration got stuck.
pub open spec fn exploration_stuck(
    from: StateLabel,
    goal: (i32, i32),
    blocked: (i32, i32),
    input: &TickInput,
) -> TickOutputView {
    recovering(
        from,
        RecoveryCause::WalkStuck,
        input.now,
        RECOVERY_WALK_STUCK_DURATION_MS,
        stuck_exploration_update(goal, blocked, input),
    )
}

fn recover_exploration_stuck(
    from: StateLabel,
    goal: (i32, i32),
    blocked_tile: (i32, i32),
    input: &TickInput<'_>,
) -> (r: TickOutput)
    requires
        input.now.has_room(),
    ensures
        r@ == exploration_stuck(from, goal, blocked_tile, input),
{
    let mut updates = MemoryUpdate::default();
    updates.add_obstacles.push((blocked_tile, input.now));
    if let Some(player) = input.player_pos {
        if let Some(key) = ExploreDirectionKey::from_goal(player, goal) {
            updates.add_failed_explore_directions.push((key, input.now));
        }
    }
    updates.set_no_actionable_target_since = Some(input.now);
    updates.clear_recent_positions = true;
    assert(updates@ =~= stuck_exploration_update(goal, blocked_tile, input));
    recover(
        from,
        RecoveryCause::WalkStuck,
        input.now,
        RECOVERY_WALK_STUCK_DURATION_MS,
        updates,
    )
}

/// The player has not moved for a while since walking.
pub open spec fn stuck_walking(input: &TickInput) -> bool {
    input.memory.stalled_since(STALL_WINDOW_TICKS as int, input.memory.last_walk)
}

/// Taking a step of exploration.
pub open spec fn explored(
    goal: (i32, i32),
    path: Seq<(i32, i32)>,
    transition: Option<Transition>,
    input: &TickInput,
) -> TickOutputView {
    outcome(
        ActionView::WalkTo { tile: path[0] },
        Some(HuntStateView::Exploring { goal, path }),
        transition,
        MemoryUpdateView {
            set_last_walk: Some(input.now),
            set_no_actionable_target_since: Some(input.now),
            increment_empty_explore_walks: true,
            ..no_update()
        },
    )
}

fn explore_step(
    goal: (i32, i32),
    path: Vec<(i32, i32)>,
    transition: Option<Transition>,
    input: &TickInput<'_>,
) -> (r: TickOutput)
    requires
        path@.len() > 0,
    ensures
        r@ == explored(goal, path@, transition, input),
{
    let tile: (i32, i32) = path[0];
    let mut updates = MemoryUpdate::default();
    updates.set_last_walk = Some(input.now);
    updates.set_no_actionable_target_since = Some(input.now);
    updates.increment_empty_explore_walks = true;
    let r = make_output(
        Action::WalkTo { tile },
        Some(HuntState::Exploring { goal, path }),
        transition,
        updates,
    );
    assert(r@ =~= explored(goal, path@, transition, input));
    r
}

/// Without a target: teleporting where that is due, else exploring, else
/// waiting.
pub open spec fn without_target(from: StateLabel, input: &TickInput) -> TickOutputView {
    let explore_tile = match input.explore_suggestion {
        Some(e) => first_tile(e.path@),
        None => None,
    };
    if budget_scroll(input) is Some {
        escaped(from, budget_scroll(input)->0, input)
    } else if idle_scroll(input) is Some {
        escaped(from, idle_scroll(input)->0, input)
    } else if explore_tile is Some {
        let e = *(input.explore_suggestion->0);
        if from is Exploring && stuck_walking(input) && input.player_pos != explore_tile {
            exploration_stuck(from, e.goal, explore_tile->0, input)
        } else {
            explored(
                e.goal,
                e.path@,
                Some(
                    Transition {
                        from,
                        to: StateLabel::Exploring,
                        cause: TransitionCause::StartExploration,
                    },
                ),
                input,
            )
        }
    } else {
        outcome(
            ActionView::Wait,
            None,
            None,
            MemoryUpdateView { set_no_actionable_target_since: Some(input.now), ..no_update() },
        )
    }
}

fn no_target_action(from: StateLabel, input: &TickInput<'_>) -> (r: TickOutput)
    requires
        input.now.has_room(),
    ensures
        r@ == without_target(from, input),
{
    if let Some(scroll) = empty_explore_budget_action(input) {
        return escape_with_scroll(from, scroll, input);
    }
    if let Some(scroll) = teleport_action(input) {
        return escape_with_scroll(from, scroll, input);
    }
    if let Some(explore) = input.explore_suggestion {
        if explore.path.len() > 0 {
            let tile: (i32, i32) = explore.path[0];
            if from == StateLabel::Exploring && input.memory.is_stalled_since(
                STALL_WINDOW_TICKS,
                input.memory.last_walk,
            ) && !is_tile(input.player_pos, tile) {
                return recover_exploration_stuck(from, explore.goal, tile, input);
            }
            return explore_step(
                explore.goal,
                copy_tiles(explore.path.as_slice()),
                Some(
                    Transition {
                        from,
                        to: StateLabel::Exploring,
                        cause: TransitionCause::StartExploration,
                    },
                ),
                input,
            );
        }
    }
    let mut updates = MemoryUpdate::default();
    updates.set_no_actionable_target_since = Some(input.now);
    let r = make_output(Action::Wait, None, None, updates);
    assert(r@ =~= without_target(from, input));
    r
}

/// Idling: going for the best candidate, if there is one.
pub open spec fn from_idle(from: StateLabel, input: &TickInput) -> TickOutputView {
    match best_of(input.candidates@, None) {
        Some(c) => engaged(from, c, input.now, no_update()),
        None => without_target(from, input),
    }
}

fn step_idle(from: StateLabel, input: &TickInput<'_>) -> (r: TickOutput)
    requires
        input.now.has_room(),
    ensures
        r@ == from_idle(from, input),
{
    if let Some(candidate) = best_candidate(input.candidates, None) {
        return engage_candidate(from, candidate, input.now, MemoryUpdate::default());
    }
    no_target_action(from, input)
}

/// Exploring: a candidate comes first; a failed step ends the exploration; else
/// it goes on along what is left of its path.
pub open spec fn from_exploring(
    from: StateLabel,
    goal: (i32, i32),
    path: Seq<(i32, i32)>,
    input: &TickInput,
) -> TickOutputView {
    let rest = remaining_path(input.player_pos, path);
    match best_of(input.candidates@, None) {
        Some(c) => engaged(from, c, input.now, no_update()),
        None => match input.last_outcome {
            LastOutcome::WalkFailed { attempted_tile } => exploration_stuck(
                from,
                goal,
                attempted_tile,
                input,
            ),
            _ => if rest.len() == 0 {
                without_target(from, input)
            } else if input.memory.obstacle_at(rest[0], input.now) {
                exploration_stuck(from, goal, rest[0], input)
            } else if stuck_walking(input) && input.player_pos != Some(rest[0]) {
                exploration_stuck(from, goal, rest[0], input)
            } else {
                explored(goal, rest, None, input)
            },
        },
    }
}

fn step_exploring(
    from: StateLabel,
    goal: (i32, i32),
    path: &Vec<(i32, i32)>,
    input: &TickInput<'_>,
) -> (r: TickOutput)
    requires
        input.now.has_room(),
    ensures
        r@ == from_exploring(from, goal, path@, input),
{
    if let Some(candidate) = best_candidate(input.candidates, None) {
        return engage_candidate(from, candidate, input.now, MemoryUpdate::default());
    }
    if let LastOutcome::WalkFailed { attempted_tile } = input.last_outcome {
        return recover_exploration_stuck(from, goal, attempted_tile, input);
    }
    let remaining: Vec<(i32, i32)> = route::consume_reached_path(input.player_pos, path.as_slice());
    if remaining.len() == 0 {
        return no_target_action(from, input);
    }
    let tile: (i32, i32) = remaining[0];
    if input.memory.is_obstacle(tile, input.now) {
        return recover_exploration_stuck(from, goal, tile, input);
    }
    if input.memory.is_stalled_since(STALL_WINDOW_TICKS, input.memory.last_walk) && !is_tile(
        input.player_pos,
        tile,
    ) {
        return recover_exploration_stuck(from, goal, tile, input);
    }
    explore_step(goal, remaining, None, input)
}

/// What is remembered when attacking the locked target came to nothing and
/// another one is taken.
pub open spec fn switched_update(lock: TargetLock, input: &TickInput) -> MemoryUpdateView {
    MemoryUpdateView {
        add_failed_targets: seq![
            failure(lock.target_id, FailureCause::AttackRejected, input.now),
        ],
        clear_post_skill_basic_pending: input.memory.post_skill_basic_pending_target == Some(
            lock.target_id,
        ),
        ..no_update()
    }
}

/// Attacking the locked target came to nothing: where it was damaged after all
/// it is attacked again; else another target is taken, or a pause.
pub open spec fn after_failed_attack(
    from: StateLabel,
    lock: TargetLock,
    input: &TickInput,
) -> TickOutputView {
    let same = candidate_with_id(input.candidates@, lock.target_id, 0);
    let seen = live_entity(input.snapshot.entities@, lock.target_id, 0);
    if input.locked_target_recently_damaged && same is Some {
        candidate_attacked(from, lock, same->0, input)
    } else if input.locked_target_recently_damaged && seen is Some {
        entity_attacked(from, lock, seen->0, input)
    } else {
        match best_of(input.candidates@, Some(lock.target_id)) {
            Some(other) => engaged(from, other, input.now, switched_update(lock, input)),
            None => recovering(
                from,
                RecoveryCause::AttackFailed,
                input.now,
                RECOVERY_ATTACK_FAILED_DURATION_MS,
                MemoryUpdateView {
                    add_failed_targets: seq![
                        failure(lock.target_id, FailureCause::AttackRejected, input.now),
                    ],
                    ..no_update()
                },
            ),
        }
    }
}

fn failed_attack(from: StateLabel, lock: &TargetLock, input: &TickInput<'_>) -> (r: TickOutput)
    requires
        input.now.has_room(),
    ensures
        r@ == after_failed_attack(from, *lock, input),
{
    if input.locked_target_recently_damaged {
        if let Some(candidate) = route::find_candidate(input.candidates, lock.target_id) {
            return attack_candidate(from, lock, candidate, input);
        }
        if let Some(entity) = locked_live_entity(input.snapshot, lock.target_id) {
            return attack_visible_lock(from, lock, entity, input);
        }
    }
    let mut updates = MemoryUpdate::default();
    mark_target(&mut updates, lock.target_id, FailureCause::AttackRejected, input.now);
    if let Some(candidate) = best_candidate(input.candidates, Some(lock.target_id)) {
        updates.clear_post_skill_basic_pending = is_id(
            input.memory.post_skill_basic_pending_target,
            lock.target_id,
        );
        assert(updates@ =~= switched_update(*lock, input));
        return engage_candidate(from, candidate, input.now, updates);
    }
    let r = recover(
        from,
        RecoveryCause::AttackFailed,
        input.now,
        RECOVERY_ATTACK_FAILED_DURATION_MS,
        updates,
    );
    assert(r@ =~= after_failed_attack(from, *lock, input));
    r
}

/// Going on towards the locked target: a step along the path that is kept to,
/// unless the player is stuck or there is no path.
pub open spec fn approached(
    from: StateLabel,
    lock: TargetLock,
    c: TargetCandidate,
    path: Option<Seq<(i32, i32)>>,
    input: &TickInput,
) -> TickOutputView {
    let fresh = match c.reachable_path {
        Some(p) => p@,
        None => seq![],
    };
    let way = steady_path(input.player_pos, *input.memory, input.now, path, fresh);
    match first_tile(remaining_path(input.player_pos, way)) {
        Some(tile) => {
            if from is EngagingApproach && input.last_outcome is WalkOk && stuck_walking(input)
                && input.player_pos != Some(tile) {
                recovering(
                    from,
                    RecoveryCause::WalkStuck,
                    input.now,
                    RECOVERY_WALK_STUCK_DURATION_MS,
                    blocked_step_update(tile, lock.target_id, input.now),
                )
            } else {
                outcome(
                    ActionView::WalkTo { tile },
                    Some(
                        HuntStateView::Engaging {
                            lock: renewed_lock(lock, c.target_id, c.entity_ptr, c.name, input.now),
                            intent: EngageIntent::Approach,
                            path: Some(way),
                        },
                    ),
                    if from is EngagingApproach {
                        None
                    } else {
                        Some(
                            Transition {
                                from,
                                to: StateLabel::EngagingApproach,
                                cause: TransitionCause::StartApproach,
                            },
                        )
                    },
                    MemoryUpdateView { set_last_walk: Some(input.now), ..no_update() },
                )
            }
        },
        None => recovering(
            from,
            RecoveryCause::NoReachableTarget,
            input.now,
            RECOVERY_NO_REACHABLE_DURATION_MS,
            MemoryUpdateView {
                add_failed_targets: seq![
                    failure(lock.target_id, FailureCause::Unreachable, input.now),
                ],
                clear_recent_positions: true,
                ..no_update()
            },
        ),
    }
}

fn approach_candidate(
    from: StateLabel,
    lock: &TargetLock,
    candidate: &TargetCandidate,
    path: &Option<Vec<(i32, i32)>>,
    input: &TickInput<'_>,
) -> (r: TickOutput)
    requires
        input.now.has_room(),
    ensures
        r@ == approached(from, *lock, *candidate, path_view(*path), input),
{
    let fresh: Vec<(i32, i32)> = match &candidate.reachable_path {
        Some(p) => copy_tiles(p.as_slice()),
        None => Vec::new(),
    };
    let current: Option<&[(i32, i32)]> = match path {
        Some(p) => Some(p.as_slice()),
        None => None,
    };
    let way: Vec<(i32, i32)> = route::stable_approach_path(
        input.player_pos,
        input.memory,
        input.now,
        current,
        fresh,
    );
    let next_tile: Option<(i32, i32)> = route::first_unreached_path_tile(
        input.player_pos,
        way.as_slice(),
    );
    match next_tile {
        Some(tile) => {
            let walked: bool = match input.last_outcome {
                LastOutcome::WalkOk => true,
                _ => false,
            };
            if from == StateLabel::EngagingApproach && walked && input.memory.is_stalled_since(
                STALL_WINDOW_TICKS,
                input.memory.last_walk,
            ) && !is_tile(input.player_pos, tile) {
                return recover(
                    from,
                    RecoveryCause::WalkStuck,
                    input.now,
                    RECOVERY_WALK_STUCK_DURATION_MS,
                    blocked_step(tile, lock.target_id, input.now),
                );
            }
            let mut updates = MemoryUpdate::default();
            updates.set_last_walk = Some(input.now);
            let transition: Option<Transition> = if from == StateLabel::EngagingApproach {
                None
            } else {
                Some(
                    Transition {
                        from,
                        to: StateLabel::EngagingApproach,
                        cause: TransitionCause::StartApproach,
                    },
                )
            };
            let next = HuntState::Engaging {
                lock: refresh_lock(
                    lock,
                    candidate.target_id,
                    candidate.entity_ptr,
                    &candidate.name,
                    input.now,
                ),
                intent: EngageIntent::Approach,
                path: Some(way),
            };
            let r = make_output(Action::WalkTo { tile }, Some(next), transition, updates);
            assert(r@ =~= approached(from, *lock, *candidate, path_view(*path), input));
            r
        },
        None => {
            let mut updates = MemoryUpdate::default();
            mark_target(&mut updates, lock.target_id, FailureCause::Unreachable, input.now);
            updates.clear_recent_positions = true;
            let r = recover(
                from,
                RecoveryCause::NoReachableTarget,
                input.now,
                RECOVERY_NO_REACHABLE_DURATION_MS,
                updates,
            );
            assert(r@ =~= approached(from, *lock, *candidate, path_view(*path), input));
            r
        },
    }
}

/// The state is so young that the target's end is still being confirmed.
pub open spec fn confirming_kill(input: &TickInput) -> bool {
    elapsed(input.now, input.state_since) < ms_nanos(KILL_CONFIRM_DURATION_MS as int)
}

/// Engaging a target. In this order: a failed attack, a failed step, the
/// target's end, the target as a candidate, the target as it is seen, another
/// candidate.
pub open spec fn from_engaging(
    from: StateLabel,
    lock: TargetLock,
    intent: EngageIntent,
    path: Option<Seq<(i32, i32)>>,
    input: &TickInput,
) -> TickOutputView {
    let same = candidate_with_id(input.candidates@, lock.target_id, 0);
    let seen = live_entity(input.snapshot.entities@, lock.target_id, 0);
    if attack_gone_wrong(input.last_outcome, lock.target_id) {
        after_failed_attack(from, lock, input)
    } else if input.last_outcome is WalkFailed {
        recovering(
            from,
            RecoveryCause::WalkStuck,
            input.now,
            RECOVERY_WALK_STUCK_DURATION_MS,
            blocked_step_update(
                input.last_outcome->attempted_tile,
                lock.target_id,
                input.now,
            ),
        )
    } else if input.locked_target_removed_or_dead {
        if confirming_kill(input) {
            keep_waiting()
        } else {
            changed_to(from, HuntStateView::Idle, TransitionCause::TargetDead)
        }
    } else if same is Some {
        let c = same->0;
        if attackable_now(c) || (intent is Attack && input.locked_target_recently_damaged) {
            candidate_attacked(from, lock, c, input)
        } else {
            approached(from, lock, c, path, input)
        }
    } else if intent is Attack && seen is Some {
        entity_attacked(from, lock, seen->0, input)
    } else {
        match best_of(input.candidates@, None) {
            Some(other) => engaged(from, other, input.now, no_update()),
            None => if intent is KillConfirm && confirming_kill(input) {
                keep_waiting()
            } else {
                without_target(from, input)
            },
        }
    }
}

fn step_engaging(
    from: StateLabel,
    lock: &TargetLock,
    intent: EngageIntent,
    path: &Option<Vec<(i32, i32)>>,
    input: &TickInput<'_>,
) -> (r: TickOutput)
    requires
        input.now.has_room(),
    ensures
        r@ == from_engaging(from, *lock, intent, path_view(*path), input),
{
    if attack_outcome_matches_target(&input.last_outcome, lock.target_id) {
        return failed_attack(from, lock, input);
    }
    if let LastOutcome::WalkFailed { attempted_tile } = input.last_outcome {
        return recover(
            from,
            RecoveryCause::WalkStuck,
            input.now,
            RECOVERY_WALK_STUCK_DURATION_MS,
            blocked_step(attempted_tile, lock.target_id, input.now),
        );
    }
    if input.locked_target_removed_or_dead {
        if input.now.within_ms(input.state_since, KILL_CONFIRM_DURATION_MS) {
            return wait_output();
        }
        return transition_to(from, HuntState::Idle, TransitionCause::TargetDead);
    }
    if let Some(candidate) = route::find_candidate(input.candidates, lock.target_id) {
        if candidate_can_attack_now(candidate) {
            return attack_candidate(from, lock, candidate, input);
        }
        if intent == EngageIntent::Attack && input.locked_target_recently_damaged {
            return attack_candidate(from, lock, candidate, input);
        }
        return approach_candidate(from, lock, candidate, path, input);
    }
    if intent == EngageIntent::Attack {
        if let Some(entity) = locked_live_entity(input.snapshot, lock.target_id) {
            return attack_visible_lock(from, lock, entity, input);
        }
    }
    match best_candidate(input.candidates, None) {
        Some(candidate) => engage_candidate(from, candidate, input.now, MemoryUpdate::default()),
        None => {
            if intent == EngageIntent::KillConfirm && input.now.within_ms(
                input.state_since,
                KILL_CONFIRM_DURATION_MS,
            ) {
                return wait_output();
            }
            no_target_action(from, input)
        },
    }
}

/// Pausing: until the time is up only a candidate ends it, and only where the
/// pause is not for the player's health. Then, where no target could be reached,
/// a teleport is tried.
pub open spec fn from_recovering(
    from: StateLabel,
    cause: RecoveryCause,
    until: Instant,
    input: &TickInput,
) -> TickOutputView {
    let interruptible = cause is WalkStuck || cause is AttackFailed || cause is NoReachableTarget;
    if input.now.nanos < until.nanos {
        match best_of(input.candidates@, None) {
            Some(c) => if interruptible {
                engaged(from, c, input.now, no_update())
            } else {
                keep_waiting()
            },
            None => keep_waiting(),
        }
    } else if cause is NoReachableTarget && forced_scroll(input) is Some {
        escaped(from, forced_scroll(input)->0, input)
    } else {
        changed_to(from, HuntStateView::Idle, TransitionCause::RecoveryElapsed)
    }
}

fn step_recovering(
    from: StateLabel,
    cause: RecoveryCause,
    until: Instant,
    input: &TickInput<'_>,
) -> (r: TickOutput)
    requires
        input.now.has_room(),
    ensures
        r@ == from_recovering(from, cause, until, input),
{
    if input.now.is_before(until) {
        let interruptible: bool = match cause {
            RecoveryCause::WalkStuck => true,
            RecoveryCause::AttackFailed => true,
            RecoveryCause::NoReachableTarget => true,
            RecoveryCause::DamageSpike => false,
            RecoveryCause::CriticalHp => false,
        };
        if interruptible {
            if let Some(candidate) = best_candidate(input.candidates, None) {
                return engage_candidate(from, candidate, input.now, MemoryUpdate::default());
            }
        }
        return wait_output();
    }
    if cause == RecoveryCause::NoReachableTarget {
        if let Some(scroll) = force_teleport_action(input) {
            return escape_with_scroll(from, scroll, input);
        }
    }
    transition_to(from, HuntState::Idle, TransitionCause::RecoveryElapsed)
}

/// States in which a long lack of activity is a fault.
pub open spec fn watched(from: StateLabel) -> bool {
    match from {
        StateLabel::EngagingApproach => true,
        StateLabel::EngagingAttack => true,
        StateLabel::EngagingKillConfirm => true,
        StateLabel::Exploring => true,
        StateLabel::RecoveringWalkStuck => true,
        StateLabel::RecoveringAttackFailed => true,
        StateLabel::RecoveringNoReachableTarget => true,
        _ => false,
    }
}

pub open spec fn later_moment(a: Option<Instant>, b: Option<Instant>) -> Option<Instant> {
    match (a, b) {
        (Some(x), Some(y)) => Some(x.later_of(y)),
        (Some(x), None) => Some(x),
        (None, y) => y,
    }
}

/// The last moment at which anything was done.
pub open spec fn last_activity(memory: TacticalMemory) -> Option<Instant> {
    later_moment(
        later_moment(memory.last_position_change, memory.last_attack),
        later_moment(memory.last_skill_cast, memory.last_teleport),
    )
}

fn later_of_both(a: Option<Instant>, b: Option<Instant>) -> (r: Option<Instant>)
    ensures
        r == later_moment(a, b),
{
    match a {
        Some(x) => match b {
            Some(y) => Some(x.later(y)),
            None => Some(x),
        },
        None => b,
    }
}

fn latest_activity_at(memory: &TacticalMemory) -> (r: Option<Instant>)
    ensures
        r == last_activity(*memory),
{
    later_of_both(
        later_of_both(memory.last_position_change, memory.last_attack),
        later_of_both(memory.last_skill_cast, memory.last_teleport),
    )
}

fn inactivity_watchdog_state_allowed(from: StateLabel) -> (r: bool)
    ensures
        r == watched(from),
{
    match from {
        StateLabel::EngagingApproach => true,
        StateLabel::EngagingAttack => true,
        StateLabel::EngagingKillConfirm => true,
        StateLabel::Exploring => true,
        StateLabel::RecoveringWalkStuck => true,
        StateLabel::RecoveringAttackFailed => true,
        StateLabel::RecoveringNoReachableTarget => true,
        _ => false,
    }
}

/// Nothing has been done for so long that the watchdog teleports.
pub open spec fn watchdog_scroll(from: StateLabel, input: &TickInput) -> Option<Seq<char>> {
    if watched(from) && last_activity(*input.memory) is Some && elapsed(
        input.now,
        last_activity(*input.memory)->0,
    ) >= ms_nanos(INACTIVITY_RESET_DURATION_MS as int) {
        forced_scroll(input)
    } else {
        None
    }
}

fn inactivity_watchdog(from: StateLabel, input: &TickInput<'_>) -> (r: Option<String>)
    ensures
        text_view(r) == watchdog_scroll(from, input),
{
    if !inactivity_watchdog_state_allowed(from) {
        return None;
    }
    match latest_activity_at(input.memory) {
        Some(last) => {
            if input.now.within_ms(last, INACTIVITY_RESET_DURATION_MS) {
                return None;
            }
            force_teleport_action(input)
        },
        None => None,
    }
}

/// One tick. Being switched off, out of the game or dead comes first, then the
/// player's health, then the watchdog, and then what the state calls for.
pub open spec fn ticked(state: HuntStateView, input: &TickInput) -> TickOutputView {
    let from = label_of(state);
    if !input.master_enabled {
        changed_to(
            from,
            HuntStateView::Disabled { reason: DisabledReason::MasterOff },
            TransitionCause::MasterOff,
        )
    } else if !input.in_game {
        changed_to(
            from,
            HuntStateView::Disabled { reason: DisabledReason::NotInGame },
            TransitionCause::NotInGame,
        )
    } else if !input.player_alive {
        changed_to(
            from,
            HuntStateView::Stopped { reason: StopReason::Died },
            TransitionCause::PlayerDied,
        )
    } else if input.critical_hp_detected {
        recovering(
            from,
            RecoveryCause::CriticalHp,
            input.now,
            RECOVERY_CRITICAL_HP_DURATION_MS,
            no_update(),
        )
    } else if input.damage_spike_detected {
        recovering(
            from,
            RecoveryCause::DamageSpike,
            input.now,
            RECOVERY_DAMAGE_SPIKE_DURATION_MS,
            no_update(),
        )
    } else if watchdog_scroll(from, input) is Some {
        escaped(from, watchdog_scroll(from, input)->0, input)
    } else {
        match state {
            HuntStateView::Disabled { .. } => changed_to(
                from,
                HuntStateView::Idle,
                TransitionCause::Idle,
            ),
            HuntStateView::Stopped { .. } => changed_to(
                from,
                HuntStateView::Idle,
                TransitionCause::Idle,
            ),
            HuntStateView::Recovering { cause, until } => from_recovering(
                from,
                cause,
                until,
                input,
            ),
            HuntStateView::Escaping { wait_until, .. } => if input.now.nanos < wait_until.nanos {
                keep_waiting()
            } else {
                changed_to(from, HuntStateView::Idle, TransitionCause::RecoveryElapsed)
            },
            HuntStateView::Idle => from_idle(from, input),
            HuntStateView::Exploring { goal, path } => from_exploring(from, goal, path, input),
            HuntStateView::Engaging { lock, intent, path } => from_engaging(
                from,
                lock,
                intent,
                path,
                input,
            ),
        }
    }
}

/// Takes one tick.
pub fn step(state: &HuntState, input: TickInput<'_>) -> (r: TickOutput)
    requires
        input.now.has_room(),
    ensures
        r@ == ticked(state@, &input),
{
    let from: StateLabel = state_label(state);
    if !input.master_enabled {
        return transition_to(
            from,
            HuntState::Disabled { reason: DisabledReason::MasterOff },
            TransitionCause::MasterOff,
        );
    }
    if !input.in_game {
        return transition_to(
            from,
            HuntState::Disabled { reason: DisabledReason::NotInGame },
            TransitionCause::NotInGame,
        );
    }
    if !input.player_alive {
        return transition_to(
            from,
            HuntState::Stopped { reason: StopReason::Died },
            TransitionCause::PlayerDied,
        );
    }
    if input.critical_hp_detected {
        return recover(
            from,
            RecoveryCause::CriticalHp,
            input.now,
            RECOVERY_CRITICAL_HP_DURATION_MS,
            MemoryUpdate::default(),
        );
    }
    if input.damage_spike_detected {
        return recover(
            from,
            RecoveryCause::DamageSpike,
            input.now,
            RECOVERY_DAMAGE_SPIKE_DURATION_MS,
            MemoryUpdate::default(),
        );
    }
    if let Some(scroll) = inactivity_watchdog(from, &input) {
        return escape_with_scroll(from, scroll, &input);
    }
    match state {
        HuntState::Disabled { .. } => transition_to(from, HuntState::Idle, TransitionCause::Idle),
        HuntState::Stopped { .. } => transition_to(from, HuntState::Idle, TransitionCause::Idle),
        HuntState::Recovering { until, cause } => step_recovering(from, *cause, *until, &input),
        HuntState::Escaping { wait_until, .. } => {
            if input.now.is_before(*wait_until) {
                wait_output()
            } else {
                transition_to(from, HuntState::Idle, TransitionCause::RecoveryElapsed)
            }
        },
        HuntState::Idle => step_idle(from, &input),
        HuntState::Exploring { goal, path } => step_exploring(from, *goal, path, &input),
        HuntState::Engaging { lock, intent, path } => step_engaging(from, lock, *intent, path, &input),
    }
}

} // verus!
