//! What can be told of the hunt.
use crate::hunt4::actions::{DispatchIntent, IntentView};
use crate::hunt4::intent::{DispatchChoice, ShadowDispatch};
use crate::hunt4::policy::{PolicyComparison, PolicyTelemetry};
use crate::hunt4::score::TargetScoreSummary;
use crate::hunt4::state::{EngageIntent, HuntState, HuntStateView};
use crate::hunt4::step::{
    Action, ActionView, LastOutcome, StateLabel, Transition, TransitionCause,
};
use crate::time::Instant;
use vstd::prelude::*;

verus! {

/// What can be told of the hunt.
#[derive(Debug)]
pub struct StateReport {
    pub current_label: StateLabel,
    pub since: Instant,
    pub last_transition: Option<Transition>,
    pub last_action: Option<ActionLabel>,
    pub last_outcome: Option<LastOutcome>,
    pub last_position_change: Option<Instant>,
    pub last_target_progress: Option<Instant>,
    pub lock_summary: Option<LockSummary>,
    pub memory_summary: MemorySummary,
    pub target_summary: Option<TargetScoreSummary>,
    pub route_next_tile: Option<(i32, i32)>,
    pub route_reason: Option<String>,
    pub teleport_reason: Option<String>,
    pub shadow_dispatch: Option<ShadowDispatch>,
    pub dispatch_choice: Option<DispatchChoice>,
    pub policy_comparison: Option<PolicyComparison>,
    pub policy_telemetry: PolicyTelemetry,
}

impl Clone for StateReport {
    fn clone(&self) -> (r: Self)
        ensures
            r == *self,
    {
        StateReport {
            current_label: self.current_label,
            since: self.since,
            last_transition: self.last_transition,
            last_action: self.last_action,
            last_outcome: self.last_outcome,
            last_position_change: self.last_position_change,
            last_target_progress: self.last_target_progress,
            lock_summary: self.lock_summary.clone(),
            memory_summary: self.memory_summary,
            target_summary: self.target_summary.clone(),
            route_next_tile: self.route_next_tile,
            route_reason: self.route_reason.clone(),
            teleport_reason: self.teleport_reason.clone(),
            shadow_dispatch: self.shadow_dispatch.clone(),
            dispatch_choice: self.dispatch_choice.clone(),
            policy_comparison: self.policy_comparison.clone(),
            policy_telemetry: self.policy_telemetry.clone(),
        }
    }
}

/// An action in short.
#[derive(Debug, Clone, Copy, PartialEq, Eq)]
pub enum ActionLabel {
    Wait,
    WalkTo { tile: (i32, i32) },
    Attack { target_id: u32, with_skill: bool },
    UseScroll,
}

/// The lock in short.
#[derive(Debug, PartialEq, Eq)]
pub struct LockSummary {
    pub target_id: u32,
    pub name: String,
    pub intent: &'static str,
}

impl Clone for LockSummary {
    fn clone(&self) -> (r: Self)
        ensures
            r == *self,
    {
        LockSummary { target_id: self.target_id, name: self.name.clone(), intent: self.intent }
    }
}

#[derive(Debug, Clone, Copy, PartialEq, Eq, Structural)]
pub struct MemorySummary {
    pub obstacle_count: usize,
    pub failed_target_count: usize,
}

impl Default for MemorySummary {
    fn default() -> (r: Self)
        ensures
            r == (MemorySummary { obstacle_count: 0, failed_target_count: 0 }),
    {
        MemorySummary { obstacle_count: 0, failed_target_count: 0 }
    }
}

pub open spec fn label_text(label: StateLabel) -> Seq<char> {
    match label {
        StateLabel::DisabledMasterOff => "DisabledMasterOff"@,
        StateLabel::DisabledNotInGame => "DisabledNotInGame"@,
        StateLabel::Idle => "Idle"@,
        StateLabel::EngagingApproach => "EngagingApproach"@,
        StateLabel::EngagingAttack => "EngagingAttack"@,
        StateLabel::EngagingKillConfirm => "EngagingKillConfirm"@,
        StateLabel::Exploring => "Exploring"@,
        StateLabel::RecoveringWalkStuck => "RecoveringWalkStuck"@,
        StateLabel::RecoveringAttackFailed => "RecoveringAttackFailed"@,
        StateLabel::RecoveringDamageSpike => "RecoveringDamageSpike"@,
        StateLabel::RecoveringNoReachableTarget => "RecoveringNoReachableTarget"@,
        StateLabel::RecoveringCriticalHp => "RecoveringCriticalHp"@,
        StateLabel::Escaping => "Escaping"@,
        StateLabel::StoppedDied => "StoppedDied"@,
        StateLabel::StoppedDisconnected => "StoppedDisconnected"@,
        StateLabel::StoppedManual => "StoppedManual"@,
    }
}

fn label_name(label: StateLabel) -> (r: &'static str)
    ensures
        r@ == label_text(label),
{
    match label {
        StateLabel::DisabledMasterOff => "DisabledMasterOff",
        StateLabel::DisabledNotInGame => "DisabledNotInGame",
        StateLabel::Idle => "Idle",
        StateLabel::EngagingApproach => "EngagingApproach",
        StateLabel::EngagingAttack => "EngagingAttack",
        StateLabel::EngagingKillConfirm => "EngagingKillConfirm",
        StateLabel::Exploring => "Exploring",
        StateLabel::RecoveringWalkStuck => "RecoveringWalkStuck",
        StateLabel::RecoveringAttackFailed => "RecoveringAttackFailed",
        StateLabel::RecoveringDamageSpike => "RecoveringDamageSpike",
        StateLabel::RecoveringNoReachableTarget => "RecoveringNoReachableTarget",
        StateLabel::RecoveringCriticalHp => "RecoveringCriticalHp",
        StateLabel::Escaping => "Escaping",
        StateLabel::StoppedDied => "StoppedDied",
        StateLabel::StoppedDisconnected => "StoppedDisconnected",
        StateLabel::StoppedManual => "StoppedManual",
    }
}

pub open spec fn cause_text(cause: TransitionCause) -> Seq<char> {
    match cause {
        TransitionCause::MasterOff => "MasterOff"@,
        TransitionCause::NotInGame => "NotInGame"@,
        TransitionCause::PlayerDied => "PlayerDied"@,
        TransitionCause::Idle => "Idle"@,
        TransitionCause::TargetAcquired => "TargetAcquired"@,
        TransitionCause::StartApproach => "StartApproach"@,
        TransitionCause::StartAttack => "StartAttack"@,
        TransitionCause::TargetDead => "TargetDead"@,
        TransitionCause::StartExploration => "StartExploration"@,
        TransitionCause::AllTargetsUnreachable => "AllTargetsUnreachable"@,
        TransitionCause::WalkStuck => "WalkStuck"@,
        TransitionCause::AttackFailed => "AttackFailed"@,
        TransitionCause::DamageSpike => "DamageSpike"@,
        TransitionCause::CriticalHp => "CriticalHp"@,
        TransitionCause::UseTeleportScroll => "UseTeleportScroll"@,
        TransitionCause::RecoveryElapsed => "RecoveryElapsed"@,
    }
}

fn cause_name(cause: TransitionCause) -> (r: &'static str)
    ensures
        r@ == cause_text(cause),
{
    match cause {
        TransitionCause::MasterOff => "MasterOff",
        TransitionCause::NotInGame => "NotInGame",
        TransitionCause::PlayerDied => "PlayerDied",
        TransitionCause::Idle => "Idle",
        TransitionCause::TargetAcquired => "TargetAcquired",
        TransitionCause::StartApproach => "StartApproach",
        TransitionCause::StartAttack => "StartAttack",
        TransitionCause::TargetDead => "TargetDead",
        TransitionCause::StartExploration => "StartExploration",
        TransitionCause::AllTargetsUnreachable => "AllTargetsUnreachable",
        TransitionCause::WalkStuck => "WalkStuck",
        TransitionCause::AttackFailed => "AttackFailed",
        TransitionCause::DamageSpike => "DamageSpike",
        TransitionCause::CriticalHp => "CriticalHp",
        TransitionCause::UseTeleportScroll => "UseTeleportScroll",
        TransitionCause::RecoveryElapsed => "RecoveryElapsed",
    }
}

/// The line that the log gets on a transition.
pub open spec fn transition_line(t: Transition) -> Seq<char> {
    "[bot/hunt4/state] "@ + label_text(t.from) + " -> "@ + label_text(t.to) + " cause="@
        + cause_text(t.cause)
}

/// There is a line for the log where there is a transition.
pub open spec fn is_transition_line(line: Option<String>, t: Option<Transition>) -> bool {
    match t {
        Some(transition) => line matches Some(text) && text@ == transition_line(transition),
        None => line is None,
    }
}

/// The line that the log gets on a transition.
pub fn record_transition(t: &Transition) -> (r: String)
    ensures
        r@ == transition_line(*t),
{
    let mut out = String::new();
    out.append("[bot/hunt4/state] ");
    out.append(label_name(t.from));
    out.append(" -> ");
    out.append(label_name(t.to));
    out.append(" cause=");
    out.append(cause_name(t.cause));
    assert(out@ =~= transition_line(*t));
    out
}

pub open spec fn action_label(action: ActionView) -> ActionLabel {
    match action {
        ActionView::Wait => ActionLabel::Wait,
        ActionView::WalkTo { tile } => ActionLabel::WalkTo { tile },
        ActionView::AttackTarget { target_id, skill, .. } => ActionLabel::Attack {
            target_id,
            with_skill: skill is Some && skill->0.len() > 0,
        },
        ActionView::UseTeleportScroll { .. } => ActionLabel::UseScroll,
    }
}

pub fn label_action(action: &Action) -> (r: ActionLabel)
    ensures
        r == action_label(action@),
{
    match action {
        Action::Wait => ActionLabel::Wait,
        Action::WalkTo { tile } => ActionLabel::WalkTo { tile: *tile },
        Action::AttackTarget { target_id, skill, .. } => {
            let with_skill: bool = match skill {
                Some(name) => !name.as_str().is_empty(),
                None => false,
            };
            ActionLabel::Attack { target_id: *target_id, with_skill }
        },
        Action::UseTeleportScroll { .. } => ActionLabel::UseScroll,
    }
}

pub open spec fn intent_label(intent: IntentView) -> ActionLabel {
    match intent {
        IntentView::Noop => ActionLabel::Wait,
        IntentView::Walk { target_x, target_y } => ActionLabel::WalkTo {
            tile: (target_x, target_y),
        },
        IntentView::BootstrapAttack { target_id, .. } => ActionLabel::Attack {
            target_id,
            with_skill: false,
        },
        IntentView::CastSkill { target_id, .. } => ActionLabel::Attack {
            target_id,
            with_skill: true,
        },
        IntentView::UseScroll { .. } => ActionLabel::UseScroll,
        IntentView::AttackLookupFailed { target_id } => ActionLabel::Attack {
            target_id,
            with_skill: false,
        },
    }
}

pub fn label_dispatch_intent(intent: &DispatchIntent) -> (r: ActionLabel)
    ensures
        r == intent_label(intent@),
{
    match intent {
        DispatchIntent::Noop => ActionLabel::Wait,
        DispatchIntent::Walk { target_x, target_y } => ActionLabel::WalkTo {
            tile: (*target_x, *target_y),
        },
        DispatchIntent::BootstrapAttack { target_id, .. } => ActionLabel::Attack {
            target_id: *target_id,
            with_skill: false,
        },
        DispatchIntent::CastSkill { target_id, .. } => ActionLabel::Attack {
            target_id: *target_id,
            with_skill: true,
        },
        DispatchIntent::UseScroll { .. } => ActionLabel::UseScroll,
        DispatchIntent::AttackLookupFailed { target_id } => ActionLabel::Attack {
            target_id: *target_id,
            with_skill: false,
        },
    }
}

/// `s` says of a state what it is locked on.
pub open spec fn is_lock_summary(s: Option<LockSummary>, state: HuntStateView) -> bool {
    match state {
        HuntStateView::Engaging { lock, intent, .. } => s matches Some(l) && l.target_id
            == lock.target_id && l.name == lock.name && l.intent@ == (match intent {
            EngageIntent::Approach => "Approach"@,
            EngageIntent::Attack => "Attack"@,
            EngageIntent::KillConfirm => "KillConfirm"@,
        }),
        _ => s is None,
    }
}

pub fn snapshot_lock(state: &HuntState) -> (r: Option<LockSummary>)
    ensures
        is_lock_summary(r, state@),
{
    match state {
        HuntState::Engaging { lock, intent, .. } => Some(
            LockSummary {
                target_id: lock.target_id,
                name: lock.name.clone(),
                intent: match intent {
                    EngageIntent::Approach => "Approach",
                    EngageIntent::Attack => "Attack",
                    EngageIntent::KillConfirm => "KillConfirm",
                },
            },
        ),
        _ => None,
    }
}

/// States and causes are written as they are called.
pub proof fn law_written_as_called(t: Transition)
    ensures
        t.from is Idle ==> label_text(t.from) == "Idle"@,
        t.from is Exploring ==> label_text(t.from) == "Exploring"@,
        t.from is Escaping ==> label_text(t.from) == "Escaping"@,
        t.from is EngagingApproach ==> label_text(t.from) == "EngagingApproach"@,
        t.from is EngagingAttack ==> label_text(t.from) == "EngagingAttack"@,
        t.from is EngagingKillConfirm ==> label_text(t.from) == "EngagingKillConfirm"@,
        t.from is RecoveringWalkStuck ==> label_text(t.from) == "RecoveringWalkStuck"@,
        t.from is RecoveringAttackFailed ==> label_text(t.from) == "RecoveringAttackFailed"@,
        t.from is RecoveringDamageSpike ==> label_text(t.from) == "RecoveringDamageSpike"@,
        t.from is RecoveringNoReachableTarget ==> label_text(t.from)
            == "RecoveringNoReachableTarget"@,
        t.from is RecoveringCriticalHp ==> label_text(t.from) == "RecoveringCriticalHp"@,
        t.from is DisabledMasterOff ==> label_text(t.from) == "DisabledMasterOff"@,
        t.from is DisabledNotInGame ==> label_text(t.from) == "DisabledNotInGame"@,
        t.from is StoppedDied ==> label_text(t.from) == "StoppedDied"@,
        t.from is StoppedDisconnected ==> label_text(t.from) == "StoppedDisconnected"@,
        t.from is StoppedManual ==> label_text(t.from) == "StoppedManual"@,
        t.cause is MasterOff ==> cause_text(t.cause) == "MasterOff"@,
        t.cause is NotInGame ==> cause_text(t.cause) == "NotInGame"@,
        t.cause is PlayerDied ==> cause_text(t.cause) == "PlayerDied"@,
        t.cause is Idle ==> cause_text(t.cause) == "Idle"@,
        t.cause is TargetAcquired ==> cause_text(t.cause) == "TargetAcquired"@,
        t.cause is StartApproach ==> cause_text(t.cause) == "StartApproach"@,
        t.cause is StartAttack ==> cause_text(t.cause) == "StartAttack"@,
        t.cause is TargetDead ==> cause_text(t.cause) == "TargetDead"@,
        t.cause is StartExploration ==> cause_text(t.cause) == "StartExploration"@,
        t.cause is AllTargetsUnreachable ==> cause_text(t.cause) == "AllTargetsUnreachable"@,
        t.cause is WalkStuck ==> cause_text(t.cause) == "WalkStuck"@,
        t.cause is AttackFailed ==> cause_text(t.cause) == "AttackFailed"@,
        t.cause is DamageSpike ==> cause_text(t.cause) == "DamageSpike"@,
        t.cause is CriticalHp ==> cause_text(t.cause) == "CriticalHp"@,
        t.cause is UseTeleportScroll ==> cause_text(t.cause) == "UseTeleportScroll"@,
        t.cause is RecoveryElapsed ==> cause_text(t.cause) == "RecoveryElapsed"@,
{
}

/// A line on a transition begins with where it leads from and ends with its cause.
pub proof fn law_transition_line(t: Transition)
    ensures
        ({
            let line = transition_line(t);
            let head = "[bot/hunt4/state] "@ + label_text(t.from) + " -> "@ + label_text(t.to);
            &&& head.len() <= line.len() && line.take(head.len() as int) == head
            &&& cause_text(t.cause).len() <= line.len() && line.skip(
                line.len() - cause_text(t.cause).len(),
            ) == cause_text(t.cause)
        }),
{
    let line = transition_line(t);
    let head = "[bot/hunt4/state] "@ + label_text(t.from) + " -> "@ + label_text(t.to);
    assert(line.take(head.len() as int) =~= head);
    assert(line.skip(line.len() - cause_text(t.cause).len()) =~= cause_text(t.cause));
}

} // verus!
