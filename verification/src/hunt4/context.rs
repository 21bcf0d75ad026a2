//! What the hunt carries from tick to tick.
use crate::decide::hunt::{effective_sequence, step_views, AttackSequenceStep, HuntConfig, StepView};
use crate::hunt4::actions::DispatchState;
use crate::hunt4::intent::{DispatchChoice, ShadowDispatch};
use crate::hunt4::memory::{ExploreDirectionKey, FailureRecord, TacticalMemory, VisitRecord};
use crate::hunt4::model::Snapshot;
use crate::hunt4::observe::{
    is_lock_summary, snapshot_lock, ActionLabel, MemorySummary, StateReport,
};
use crate::hunt4::policy::{no_telemetry, PolicyComparison, PolicyTelemetry};
use crate::hunt4::score::TargetScoreSummary;
use crate::hunt4::state::{DisabledReason, HuntState, HuntStateView};
use crate::hunt4::step::{
    copy_text, label_of, state_label, AttackStepInput, ExploreSuggestion, LastOutcome,
    TargetCandidate, Transition,
};
use crate::named::NamedMap;
use crate::time::{ms_nanos, Instant};
use vstd::prelude::*;

verus! {

/// Time without observed damage after which an attack counts as stalled.
pub const ATTACK_NO_PROGRESS_DURATION_MS: u64 = 10_000;

/// Where the attack sequence stands.
#[derive(Debug, Clone, Copy, PartialEq, Eq, Structural)]
pub struct AttackSequenceRuntime {
    pub active_index: usize,
    pub cycle_started_at: Option<Instant>,
    pub next_ready_at: Option<Instant>,
}

impl Default for AttackSequenceRuntime {
    fn default() -> (r: Self)
        ensures
            r == fresh_sequence(),
    {
        AttackSequenceRuntime { active_index: 0, cycle_started_at: None, next_ready_at: None }
    }
}

pub open spec fn fresh_sequence() -> AttackSequenceRuntime {
    AttackSequenceRuntime { active_index: 0, cycle_started_at: None, next_ready_at: None }
}

/// The sequence when it is looked at: one that has run past its end starts over,
/// and a round that has not begun begins.
pub open spec fn looked_at(
    s: AttackSequenceRuntime,
    steps: Seq<StepView>,
    now: Instant,
) -> AttackSequenceRuntime {
    if s.active_index >= steps.len() {
        AttackSequenceRuntime { active_index: 0, cycle_started_at: Some(now), next_ready_at: None }
    } else if s.cycle_started_at is None {
        AttackSequenceRuntime { cycle_started_at: Some(now), ..s }
    } else {
        s
    }
}

/// The step that is due, if the sequence is not waiting.
pub open spec fn due_step(
    s: AttackSequenceRuntime,
    steps: Seq<StepView>,
    now: Instant,
) -> Option<StepView> {
    let t = looked_at(s, steps, now);
    if t.next_ready_at is Some && now.nanos < t.next_ready_at->0.nanos {
        None
    } else {
        Some(steps[t.active_index as int])
    }
}

/// The sequence after an attack: the next step is due when this one's interval
/// is over, and after the last step no sooner than the round may end.
pub open spec fn advanced(
    s: AttackSequenceRuntime,
    steps: Seq<StepView>,
    cycle_ms: u64,
    now: Instant,
) -> AttackSequenceRuntime {
    let index = if s.active_index >= steps.len() {
        0
    } else {
        s.active_index as int
    };
    let started = match s.cycle_started_at {
        Some(t) => t,
        None => now,
    };
    let step_ready = now.capped_after_ms(steps[index].interval_ms as int);
    if index + 1 >= steps.len() {
        let cycle_ready = if cycle_ms == 0 {
            now
        } else {
            started.capped_after_ms(cycle_ms as int)
        };
        let ready = step_ready.later_of(cycle_ready);
        AttackSequenceRuntime {
            active_index: 0,
            cycle_started_at: Some(ready),
            next_ready_at: Some(ready),
        }
    } else {
        AttackSequenceRuntime {
            active_index: (index + 1) as usize,
            cycle_started_at: Some(started),
            next_ready_at: Some(step_ready),
        }
    }
}

/// A step that may be missing, as a value.
pub open spec fn opt_step(s: Option<AttackSequenceStep>) -> Option<StepView> {
    match s {
        Some(step) => Some(step@),
        None => None,
    }
}

impl AttackSequenceRuntime {
    /// The step that is due, if the sequence is not waiting.
    pub fn current_step(&mut self, cfg: &HuntConfig, now: Instant) -> (r: Option<AttackSequenceStep>)
        ensures
            *final(self) == looked_at(*old(self), effective_sequence(*cfg), now),
            opt_step(r) == due_step(*old(self), effective_sequence(*cfg), now),
    {
        let steps: Vec<AttackSequenceStep> = cfg.effective_attack_sequence();
        let ghost views = step_views(steps@);
        if self.active_index >= steps.len() {
            self.active_index = 0;
            self.cycle_started_at = Some(now);
            self.next_ready_at = None;
        }
        if self.cycle_started_at.is_none() {
            self.cycle_started_at = Some(now);
        }
        if let Some(ready_at) = self.next_ready_at {
            if now.is_before(ready_at) {
                return None;
            }
        }
        assert(views[self.active_index as int] == steps@[self.active_index as int]@);
        Some(steps[self.active_index].clone())
    }

    /// Moves on after an attack.
    pub fn advance_after_attack(&mut self, cfg: &HuntConfig, now: Instant)
        ensures
            *final(self) == advanced(
                *old(self),
                effective_sequence(*cfg),
                cfg.attack_sequence_cycle_ms,
                now,
            ),
    {
        let steps: Vec<AttackSequenceStep> = cfg.effective_attack_sequence();
        let ghost views = step_views(steps@);
        if self.active_index >= steps.len() {
            self.active_index = 0;
        }
        let started: Instant = match self.cycle_started_at {
            Some(t) => t,
            None => now,
        };
        self.cycle_started_at = Some(started);
        assert(views[self.active_index as int] == steps@[self.active_index as int]@);
        let step_ready: Instant = now.plus_ms_capped(steps[self.active_index].interval_ms);
        let next_index: usize = self.active_index + 1;
        if next_index >= steps.len() {
            self.active_index = 0;
            let cycle_ready: Instant = if cfg.attack_sequence_cycle_ms == 0 {
                now
            } else {
                started.plus_ms_capped(cfg.attack_sequence_cycle_ms)
            };
            let ready: Instant = step_ready.later(cycle_ready);
            self.next_ready_at = Some(ready);
            self.cycle_started_at = Some(ready);
        } else {
            self.active_index = next_index;
            self.next_ready_at = Some(step_ready);
        }
    }
}

/// After an attack the sequence waits out the step's interval, and then gives
/// the step that follows, the first one after the last.
pub proof fn law_sequence_goes_round(
    s: AttackSequenceRuntime,
    cfg: HuntConfig,
    now: Instant,
    later: Instant,
)
    requires
        s.active_index < effective_sequence(cfg).len(),
        now.has_room(),
    ensures
        ({
            let steps = effective_sequence(cfg);
            let t = advanced(s, steps, cfg.attack_sequence_cycle_ms, now);
            let over = now.nanos + ms_nanos(steps[s.active_index as int].interval_ms as int);
            let next = if s.active_index + 1 >= steps.len() {
                0
            } else {
                s.active_index + 1
            };
            &&& later.nanos < over ==> due_step(t, steps, later) is None
            &&& due_step(t, steps, later) is Some ==> due_step(t, steps, later) == Some(steps[next])
            &&& cfg.attack_sequence_cycle_ms == 0 && later.nanos >= over ==> due_step(
                t,
                steps,
                later,
            ) is Some
        }),
{
    crate::decide::hunt::law_effective_sequence(cfg);
}

/// Whether an attack leads anywhere.
#[derive(Debug, Clone, Copy, PartialEq, Eq, Structural)]
pub struct AttackProgressWatch {
    pub target_id: Option<u32>,
    pub no_progress_since: Option<Instant>,
}

impl Default for AttackProgressWatch {
    fn default() -> (r: Self)
        ensures
            r == no_watch(),
    {
        AttackProgressWatch { target_id: None, no_progress_since: None }
    }
}

pub open spec fn no_watch() -> AttackProgressWatch {
    AttackProgressWatch { target_id: None, no_progress_since: None }
}

/// What the hunt carries from tick to tick.
#[derive(Debug)]
pub struct HuntContext {
    pub state: HuntState,
    pub memory: TacticalMemory,
    pub dispatch_state: DispatchState,
    pub attack_watch: AttackProgressWatch,
    pub last_outcome: LastOutcome,
    pub last_action: Option<ActionLabel>,
    pub last_target_progress: Option<Instant>,
    pub since: Instant,
    pub last_transition: Option<Transition>,
    pub prev_hp: Option<u32>,
    pub last_map_id: Option<u32>,
    pub last_walk_tile: Option<(i32, i32)>,
    pub cached_skill_gate_ms: NamedMap<u64>,
    pub cached_skill_range: NamedMap<u32>,
    pub attack_sequence: AttackSequenceRuntime,
    pub last_target_summary: Option<TargetScoreSummary>,
    pub last_route_next_tile: Option<(i32, i32)>,
    pub last_route_reason: Option<String>,
    pub last_teleport_reason: Option<String>,
    pub last_shadow_dispatch: Option<ShadowDispatch>,
    pub last_dispatch_choice: Option<DispatchChoice>,
    pub last_policy_comparison: Option<PolicyComparison>,
    pub policy_telemetry: PolicyTelemetry,
}

/// Nothing is remembered.
pub open spec fn is_blank(m: TacticalMemory) -> bool {
    &&& m.obstacles@ == Map::<(i32, i32), Instant>::empty()
    &&& m.portal_avoid_tiles@ == Map::<(i32, i32), Instant>::empty()
    &&& m.failed_explore_directions@ == Map::<ExploreDirectionKey, Instant>::empty()
    &&& m.failed_targets@ == Map::<u32, FailureRecord>::empty()
    &&& m.recent_positions@.len() == 0
    &&& m.visited_tiles@ == Map::<(u32, i32, i32), VisitRecord>::empty()
    &&& m.last_walk is None
    &&& m.last_attack is None
    &&& m.last_skill_cast is None
    &&& m.post_skill_basic_pending_target is None
    &&& m.last_position_change is None
    &&& m.last_teleport is None
    &&& m.no_actionable_target_since is None
    &&& m.empty_explore_walks == 0
}

/// The context before the first tick.
pub open spec fn is_new_context(c: HuntContext, now: Instant) -> bool {
    &&& c.state@ == (HuntStateView::Disabled { reason: DisabledReason::MasterOff })
    &&& is_blank(c.memory)
    &&& c.dispatch_state.last_bootstrap_target is None
    &&& c.attack_watch == no_watch()
    &&& c.last_outcome is NoOutcome
    &&& c.last_action is None
    &&& c.last_target_progress is None
    &&& c.since == now
    &&& c.last_transition is None
    &&& c.prev_hp is None
    &&& c.last_map_id is None
    &&& c.last_walk_tile is None
    &&& c.cached_skill_gate_ms@ == Map::<Seq<char>, u64>::empty()
    &&& c.cached_skill_range@ == Map::<Seq<char>, u32>::empty()
    &&& c.attack_sequence == fresh_sequence()
    &&& c.last_target_summary is None
    &&& c.last_route_next_tile is None
    &&& c.last_route_reason is None
    &&& c.last_teleport_reason is None
    &&& c.last_shadow_dispatch is None
    &&& c.last_dispatch_choice is None
    &&& c.last_policy_comparison is None
    &&& c.policy_telemetry == no_telemetry()
}

/// A sum, as far as it can be counted.
pub open spec fn capped_sum(a: nat, b: nat) -> nat {
    if a + b <= usize::MAX {
        a + b
    } else {
        usize::MAX as nat
    }
}

/// What `report` tells.
pub open spec fn is_report(r: StateReport, c: HuntContext) -> bool {
    &&& r.current_label == label_of(c.state@)
    &&& r.since == c.since
    &&& r.last_transition == c.last_transition
    &&& r.last_action == c.last_action
    &&& r.last_outcome == Some(c.last_outcome)
    &&& r.last_position_change == c.memory.last_position_change
    &&& r.last_target_progress == c.last_target_progress
    &&& is_lock_summary(r.lock_summary, c.state@)
    &&& r.memory_summary.obstacle_count == capped_sum(
        c.memory.obstacles@.dom().len(),
        c.memory.portal_avoid_tiles@.dom().len(),
    )
    &&& r.memory_summary.failed_target_count == c.memory.failed_targets@.dom().len()
    &&& r.target_summary == c.last_target_summary
    &&& r.route_next_tile == c.last_route_next_tile
    &&& r.route_reason == c.last_route_reason
    &&& r.teleport_reason == c.last_teleport_reason
    &&& r.shadow_dispatch == c.last_shadow_dispatch
    &&& r.dispatch_choice == c.last_dispatch_choice
    &&& r.policy_comparison == c.last_policy_comparison
    &&& r.policy_telemetry == c.policy_telemetry
}

impl HuntContext {
    pub fn new(now: Instant) -> (r: Self)
        ensures
            is_new_context(r, now),
    {
        HuntContext {
            state: HuntState::Disabled { reason: DisabledReason::MasterOff },
            memory: TacticalMemory::default(),
            dispatch_state: DispatchState::default(),
            attack_watch: AttackProgressWatch::default(),
            last_outcome: LastOutcome::NoOutcome,
            last_action: None,
            last_target_progress: None,
            since: now,
            last_transition: None,
            prev_hp: None,
            last_map_id: None,
            last_walk_tile: None,
            cached_skill_gate_ms: NamedMap::new(),
            cached_skill_range: NamedMap::new(),
            attack_sequence: AttackSequenceRuntime::default(),
            last_target_summary: None,
            last_route_next_tile: None,
            last_route_reason: None,
            last_teleport_reason: None,
            last_shadow_dispatch: None,
            last_dispatch_choice: None,
            last_policy_comparison: None,
            policy_telemetry: PolicyTelemetry::default(),
        }
    }

    /// What can be told of the hunt.
    pub fn report(&self) -> (r: StateReport)
        ensures
            is_report(r, *self),
    {
        let obstacles: usize = self.memory.obstacles.len();
        let portals: usize = self.memory.portal_avoid_tiles.len();
        let obstacle_count: usize = if obstacles <= usize::MAX - portals {
            obstacles + portals
        } else {
            usize::MAX
        };
        let target_summary: Option<TargetScoreSummary> = match &self.last_target_summary {
            Some(t) => Some(t.clone()),
            None => None,
        };
        let shadow_dispatch: Option<ShadowDispatch> = match &self.last_shadow_dispatch {
            Some(d) => Some(d.clone()),
            None => None,
        };
        let dispatch_choice: Option<DispatchChoice> = match &self.last_dispatch_choice {
            Some(c) => Some(c.clone()),
            None => None,
        };
        let policy_comparison: Option<PolicyComparison> = match &self.last_policy_comparison {
            Some(c) => Some(c.clone()),
            None => None,
        };
        StateReport {
            current_label: state_label(&self.state),
            since: self.since,
            last_transition: self.last_transition,
            last_action: self.last_action,
            last_outcome: Some(self.last_outcome),
            last_position_change: self.memory.last_position_change,
            last_target_progress: self.last_target_progress,
            lock_summary: snapshot_lock(&self.state),
            memory_summary: MemorySummary {
                obstacle_count,
                failed_target_count: self.memory.failed_targets.len(),
            },
            target_summary,
            route_next_tile: self.last_route_next_tile,
            route_reason: copy_text(&self.last_route_reason),
            teleport_reason: copy_text(&self.last_teleport_reason),
            shadow_dispatch,
            dispatch_choice,
            policy_comparison,
            policy_telemetry: self.policy_telemetry.clone(),
        }
    }
}

/// What a tick goes by, but for what the context holds.
pub struct PureTickInputs<'a> {
    pub snapshot: &'a Snapshot,
    pub candidates: &'a [TargetCandidate],
    pub explore: Option<&'a ExploreSuggestion>,
    pub player_pos: Option<(i32, i32)>,
    pub player_alive: bool,
    pub master_enabled: bool,
    pub in_game: bool,
    pub now: Instant,
    pub state_since: Instant,
    pub cfg: &'a HuntConfig,
    pub teleport_scroll_available: bool,
    pub damage_spike_detected: bool,
    pub critical_hp_detected: bool,
    pub locked_target_removed_or_dead: bool,
    pub locked_target_recently_damaged: bool,
    pub skill_cd_ms: u64,
    pub attack_step: AttackStepInput,
}

} // verus!
