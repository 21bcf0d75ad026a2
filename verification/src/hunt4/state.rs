//! The states of the hunt.
use crate::decide::pathfind::path_view;
use crate::time::Instant;
use vstd::prelude::*;

verus! {

/// What the hunt is doing.
#[derive(Debug, PartialEq, Eq)]
pub enum HuntState {
    Disabled { reason: DisabledReason },
    Idle,
    Engaging { lock: TargetLock, intent: EngageIntent, path: Option<Vec<(i32, i32)>> },
    Exploring { goal: (i32, i32), path: Vec<(i32, i32)> },
    Recovering { cause: RecoveryCause, until: Instant },
    Escaping { scroll_used_at: Instant, wait_until: Instant, origin_pos: Option<(i32, i32)> },
    Stopped { reason: StopReason },
}

#[derive(Debug, Clone, Copy, PartialEq, Eq, Structural)]
pub enum DisabledReason {
    MasterOff,
    NotInGame,
}

#[derive(Debug, Clone, Copy, PartialEq, Eq, Structural)]
pub enum EngageIntent {
    Approach,
    Attack,
    KillConfirm,
}

#[derive(Debug, Clone, Copy, PartialEq, Eq, Structural)]
pub enum RecoveryCause {
    WalkStuck,
    AttackFailed,
    DamageSpike,
    NoReachableTarget,
    CriticalHp,
}

#[derive(Debug, Clone, Copy, PartialEq, Eq, Structural)]
pub enum StopReason {
    Died,
    Disconnected,
    Manual,
}

/// The target that the hunt is after.
#[derive(Debug, PartialEq, Eq)]
pub struct TargetLock {
    pub target_id: u32,
    pub entity_ptr: u32,
    pub name: String,
    pub acquired_at: Instant,
    pub last_seen: Instant,
    pub bootstrapped: bool,
}

impl Clone for TargetLock {
    fn clone(&self) -> (r: Self)
        ensures
            r == *self,
    {
        TargetLock {
            target_id: self.target_id,
            entity_ptr: self.entity_ptr,
            name: self.name.clone(),
            acquired_at: self.acquired_at,
            last_seen: self.last_seen,
            bootstrapped: self.bootstrapped,
        }
    }
}

/// A state as a value: paths as sequences.
#[verifier::ext_equal]
pub enum HuntStateView {
    Disabled { reason: DisabledReason },
    Idle,
    Engaging { lock: TargetLock, intent: EngageIntent, path: Option<Seq<(i32, i32)>> },
    Exploring { goal: (i32, i32), path: Seq<(i32, i32)> },
    Recovering { cause: RecoveryCause, until: Instant },
    Escaping { scroll_used_at: Instant, wait_until: Instant, origin_pos: Option<(i32, i32)> },
    Stopped { reason: StopReason },
}

impl View for HuntState {
    type V = HuntStateView;

    open spec fn view(&self) -> HuntStateView {
        match *self {
            HuntState::Disabled { reason } => HuntStateView::Disabled { reason },
            HuntState::Idle => HuntStateView::Idle,
            HuntState::Engaging { lock, intent, path } => HuntStateView::Engaging {
                lock,
                intent,
                path: path_view(path),
            },
            HuntState::Exploring { goal, path } => HuntStateView::Exploring { goal, path: path@ },
            HuntState::Recovering { cause, until } => HuntStateView::Recovering { cause, until },
            HuntState::Escaping { scroll_used_at, wait_until, origin_pos } => HuntStateView::Escaping {
                scroll_used_at,
                wait_until,
                origin_pos,
            },
            HuntState::Stopped { reason } => HuntStateView::Stopped { reason },
        }
    }
}

impl Clone for HuntState {
    fn clone(&self) -> (r: Self)
        ensures
            r@ == self@,
    {
        match self {
            HuntState::Disabled { reason } => HuntState::Disabled { reason: *reason },
            HuntState::Idle => HuntState::Idle,
            HuntState::Engaging { lock, intent, path } => HuntState::Engaging {
                lock: lock.clone(),
                intent: *intent,
                path: copy_path(path),
            },
            HuntState::Exploring { goal, path } => HuntState::Exploring {
                goal: *goal,
                path: crate::decide::pathfind::copy_tiles(path.as_slice()),
            },
            HuntState::Recovering { cause, until } => HuntState::Recovering {
                cause: *cause,
                until: *until,
            },
            HuntState::Escaping { scroll_used_at, wait_until, origin_pos } => HuntState::Escaping {
                scroll_used_at: *scroll_used_at,
                wait_until: *wait_until,
                origin_pos: *origin_pos,
            },
            HuntState::Stopped { reason } => HuntState::Stopped { reason: *reason },
        }
    }
}

/// A copy of a path that may be missing.
pub fn copy_path(path: &Option<Vec<(i32, i32)>>) -> (r: Option<Vec<(i32, i32)>>)
    ensures
        path_view(r) == path_view(*path),
{
    match path {
        Some(p) => Some(crate::decide::pathfind::copy_tiles(p.as_slice())),
        None => None,
    }
}

} // verus!
