//! The outer loop's decisions: when to hunt, and what to report of it.
use crate::decide::hunt::HuntOutcome;
use crate::text::{decimal, hex, push_decimal, push_hex, push_signed, signed_decimal};
use crate::time::{elapsed, ms_nanos, Instant};
use vstd::prelude::*;

verus! {

/// The client's state while a character is in the world.
pub const GAME_STATE_IN_GAME: u32 = 3;

/// Time between two rounds of the loop.
pub const TICK_INTERVAL_MS: u64 = 200;

/// Least time between two reports that nothing happens.
pub const HUNT_ALIVE_DIAG_INTERVAL_MS: u64 = 3_000;

/// What the bot as a whole is doing.
#[derive(Debug, Clone, Copy, PartialEq, Eq, Structural)]
pub enum BotState {
    Idle,
    Hunting,
    Stopped,
}

/// Hunting needs both the master switch and a character in the world. Losing
/// either stops the hunt; regaining both leads back to hunting by way of idling.
pub open spec fn next_state(cur: BotState, ready: bool) -> BotState {
    match cur {
        BotState::Stopped => if ready {
            BotState::Idle
        } else {
            BotState::Stopped
        },
        BotState::Idle => if ready {
            BotState::Hunting
        } else {
            BotState::Idle
        },
        BotState::Hunting => if ready {
            BotState::Hunting
        } else {
            BotState::Stopped
        },
    }
}

pub fn compute_next_state(cur: BotState, game_state: u32, master_on: bool) -> (r: BotState)
    ensures
        r == next_state(cur, master_on && game_state == GAME_STATE_IN_GAME),
{
    let ready: bool = master_on && game_state == GAME_STATE_IN_GAME;
    match cur {
        BotState::Stopped => if ready {
            BotState::Idle
        } else {
            BotState::Stopped
        },
        BotState::Idle => if ready {
            BotState::Hunting
        } else {
            BotState::Idle
        },
        BotState::Hunting => if ready {
            BotState::Hunting
        } else {
            BotState::Stopped
        },
    }
}

/// While it is not ready the bot does not hunt, whatever it did before; ready
/// for two rounds, it hunts.
pub proof fn law_hunting_needs_readiness(cur: BotState)
    ensures
        next_state(cur, false) != BotState::Hunting,
        next_state(next_state(cur, true), true) == BotState::Hunting,
{
}

/// Name of an outcome in which nothing was done.
pub open spec fn diag_label(outcome: HuntOutcome) -> Option<Seq<char>> {
    match outcome {
        HuntOutcome::Cooldown { remaining_ms } => Some(
            if remaining_ms == 0 {
                "cooldown(0)"@
            } else {
                "cooldown"@
            },
        ),
        HuntOutcome::NoTarget => Some("no_target"@),
        _ => None,
    }
}

pub fn hunt_outcome_diag_label(outcome: &HuntOutcome) -> (r: Option<&'static str>)
    ensures
        match r {
            Some(label) => diag_label(*outcome) == Some(label@),
            None => diag_label(*outcome) is None,
        },
{
    match outcome {
        HuntOutcome::Cooldown { remaining_ms } => {
            if *remaining_ms == 0 {
                Some("cooldown(0)")
            } else {
                Some("cooldown")
            }
        },
        HuntOutcome::NoTarget => Some("no_target"),
        HuntOutcome::Cast { .. } => None,
        HuntOutcome::Walked { .. } => None,
        HuntOutcome::ActionFailed(_) => None,
    }
}

/// How a switch is written out.
pub open spec fn switch_text(on: bool) -> Seq<char> {
    if on {
        "on"@
    } else {
        "off"@
    }
}

/// The report of a hunt in which nothing happens.
pub open spec fn alive_line(label: Seq<char>, game_state: u32, master_on: bool) -> Seq<char> {
    "[bot/engine] hunt alive: outcome="@ + label + " game_state="@ + decimal(game_state as nat)
        + " master="@ + switch_text(master_on)
}

/// When an idle hunt was last reported.
#[derive(Debug, Clone, Copy)]
pub struct AliveDiag {
    pub last: Instant,
}

/// The report of an outcome, if one is due: nothing was done, and the last
/// report or action is long enough ago.
pub fn log_hunt_alive_diag(
    diag: &mut AliveDiag,
    outcome: &HuntOutcome,
    game_state: u32,
    master_on: bool,
    now: Instant,
) -> (r: Option<String>)
    ensures
        ({
            let label = diag_label(*outcome);
            let due = elapsed(now, old(diag).last) >= ms_nanos(HUNT_ALIVE_DIAG_INTERVAL_MS as int);
            &&& text_of(r) == (if label is Some && due {
                Some(alive_line(label->0, game_state, master_on))
            } else {
                None
            })
            &&& final(diag).last == (if label is None || due {
                now
            } else {
                old(diag).last
            })
        }),
{
    match hunt_outcome_diag_label(outcome) {
        None => {
            diag.last = now;
            None
        },
        Some(label) => {
            if now.within_ms(diag.last, HUNT_ALIVE_DIAG_INTERVAL_MS) {
                return None;
            }
            diag.last = now;
            let mut out = String::new();
            out.append("[bot/engine] hunt alive: outcome=");
            out.append(label);
            out.append(" game_state=");
            push_decimal(&mut out, game_state as u64);
            out.append(" master=");
            out.append(
                if master_on {
                    "on"
                } else {
                    "off"
                },
            );
            assert(out@ =~= alive_line(label@, game_state, master_on));
            Some(out)
        },
    }
}

/// Text that may be missing, as a value.
pub open spec fn text_of(s: Option<String>) -> Option<Seq<char>> {
    match s {
        Some(t) => Some(t@),
        None => None,
    }
}

/// The heading of no step.
pub const NO_HEADING: u8 = 255;

/// What was last reported of a walk.
#[derive(Debug, Clone, Copy, PartialEq, Eq, Structural)]
pub struct WalkLog {
    /// Heading of the last reported step; that of no step after anything else.
    pub heading: u8,
    pub distance: u32,
}

impl Default for WalkLog {
    fn default() -> (r: Self)
        ensures
            r == (WalkLog { heading: NO_HEADING, distance: 0 }),
    {
        WalkLog { heading: NO_HEADING, distance: 0 }
    }
}

pub open spec fn gap(a: u32, b: u32) -> int {
    if a >= b {
        a - b
    } else {
        b - a
    }
}

/// How an outcome is reported.
pub open spec fn outcome_line(outcome: HuntOutcome) -> Seq<char> {
    match outcome {
        HuntOutcome::Cooldown { .. } => seq![],
        HuntOutcome::NoTarget => "[bot/engine] hunt: no whitelist target"@,
        HuntOutcome::Cast { target_id, name, player_pos } => "[bot/engine] hunt: attack "@ + name@
            + " (target_id=0x"@ + hex(target_id as nat) + (match player_pos {
            Some(p) => ") @ ("@ + signed_decimal(p.x as int) + ", "@ + signed_decimal(p.y as int)
                + ")"@,
            None => ") @ (unknown)"@,
        }),
        HuntOutcome::Walked { target_id, name, heading, distance_tiles } =>
            "[bot/engine] hunt: walk to "@ + name@ + " (target_id=0x"@ + hex(target_id as nat)
            + ", dist="@ + decimal(distance_tiles as nat) + ", heading="@ + decimal(heading as nat)
            + ")"@,
        HuntOutcome::ActionFailed(msg) => "[bot/engine] hunt: action failed: "@ + msg@,
    }
}

impl WalkLog {
    /// The log after an outcome, and whether the outcome is worth a line. A step
    /// is where its heading changed or its distance jumped by 3 or more; the
    /// lack of a target is once; an attack and a failure always are.
    pub open spec fn after(self, outcome: HuntOutcome) -> (WalkLog, bool) {
        match outcome {
            HuntOutcome::Cooldown { .. } => (self, false),
            HuntOutcome::NoTarget => (
                WalkLog { heading: NO_HEADING, ..self },
                self.heading != NO_HEADING,
            ),
            HuntOutcome::Cast { .. } => (WalkLog { heading: NO_HEADING, ..self }, true),
            HuntOutcome::Walked { heading, distance_tiles, .. } => {
                if self.heading != heading || gap(self.distance, distance_tiles) >= 3 {
                    (WalkLog { heading, distance: distance_tiles }, true)
                } else {
                    (self, false)
                }
            },
            HuntOutcome::ActionFailed(_) => (self, true),
        }
    }

    fn observe(&mut self, outcome: &HuntOutcome) -> (r: bool)
        ensures
            (*final(self), r) == old(self).after(*outcome),
    {
        match outcome {
            HuntOutcome::Cooldown { .. } => false,
            HuntOutcome::NoTarget => {
                let had: bool = self.heading != NO_HEADING;
                self.heading = NO_HEADING;
                had
            },
            HuntOutcome::Cast { .. } => {
                self.heading = NO_HEADING;
                true
            },
            HuntOutcome::Walked { heading, distance_tiles, .. } => {
                let jump: u32 = if self.distance >= *distance_tiles {
                    self.distance - *distance_tiles
                } else {
                    *distance_tiles - self.distance
                };
                if self.heading != *heading || jump >= 3 {
                    self.heading = *heading;
                    self.distance = *distance_tiles;
                    true
                } else {
                    false
                }
            },
            HuntOutcome::ActionFailed(_) => true,
        }
    }
}

fn write_outcome(outcome: &HuntOutcome) -> (r: String)
    ensures
        r@ == outcome_line(*outcome),
{
    let mut out = String::new();
    match outcome {
        HuntOutcome::Cooldown { .. } => {},
        HuntOutcome::NoTarget => {
            out.append("[bot/engine] hunt: no whitelist target");
        },
        HuntOutcome::Cast { target_id, name, player_pos } => {
            out.append("[bot/engine] hunt: attack ");
            out.append(name.as_str());
            out.append(" (target_id=0x");
            push_hex(&mut out, *target_id);
            match player_pos {
                Some(p) => {
                    out.append(") @ (");
                    push_signed(&mut out, p.x);
                    out.append(", ");
                    push_signed(&mut out, p.y);
                    out.append(")");
                },
                None => {
                    out.append(") @ (unknown)");
                },
            }
        },
        HuntOutcome::Walked { target_id, name, heading, distance_tiles } => {
            out.append("[bot/engine] hunt: walk to ");
            out.append(name.as_str());
            out.append(" (target_id=0x");
            push_hex(&mut out, *target_id);
            out.append(", dist=");
            push_decimal(&mut out, *distance_tiles as u64);
            out.append(", heading=");
            push_decimal(&mut out, *heading as u64);
            out.append(")");
        },
        HuntOutcome::ActionFailed(msg) => {
            out.append("[bot/engine] hunt: action failed: ");
            out.append(msg.as_str());
        },
    }
    assert(out@ =~= outcome_line(*outcome));
    out
}

/// The report of an outcome, where it is worth one.
pub fn log_hunt_outcome(log: &mut WalkLog, outcome: &HuntOutcome) -> (r: Option<String>)
    ensures
        *final(log) == old(log).after(*outcome).0,
        text_of(r) == (if old(log).after(*outcome).1 {
            Some(outcome_line(*outcome))
        } else {
            None
        }),
{
    if log.observe(outcome) {
        Some(write_outcome(outcome))
    } else {
        None
    }
}

/// Whether the hunt pauses while the settings window is open: it does not.
pub fn should_suspend_hunt_for_ui(bot_window_open: bool) -> (r: bool)
    ensures
        !r,
{
    false
}

/// The target whose traces are looked for in the packets: the locked one, and
/// only while hunting.
pub fn packet_probe_target(cur: BotState, locked: Option<u32>) -> (r: Option<u32>)
    ensures
        r == (if cur is Hunting {
            locked
        } else {
            None
        }),
{
    match cur {
        BotState::Hunting => locked,
        _ => None,
    }
}

/// What a round of the loop goes on to do.
#[derive(Debug, Clone, Copy, PartialEq, Eq, Structural)]
pub enum RoundStep {
    /// Nothing but the heartbeat.
    Rest,
    /// Let go of the walking button, and leave the heartbeat out.
    Suspend,
    /// Take a tick of the hunt, then the heartbeat.
    Hunt,
}

/// The decisions of a round.
#[derive(Debug, Clone, Copy, PartialEq, Eq, Structural)]
pub struct EngineRound {
    pub next: BotState,
    /// The state changes; the change is reported.
    pub changed: bool,
    /// The hunt starts afresh.
    pub fresh_context: bool,
    pub step: RoundStep,
}

/// The decisions of a round of a bot that is or is not ready to hunt. An open
/// settings window suspends nothing.
pub open spec fn round_of(cur: BotState, ready: bool) -> EngineRound {
    let next = next_state(cur, ready);
    EngineRound {
        next,
        changed: next != cur,
        fresh_context: next != cur && next is Hunting,
        step: if next is Hunting {
            RoundStep::Hunt
        } else {
            RoundStep::Rest
        },
    }
}

/// What a round of the loop does, by the state of the bot and of the client.
pub fn plan_round(cur: BotState, game_state: u32, master_on: bool, bot_window_open: bool) -> (r:
    EngineRound)
    ensures
        r == round_of(cur, master_on && game_state == GAME_STATE_IN_GAME),
{
    let next: BotState = compute_next_state(cur, game_state, master_on);
    let changed: bool = next != cur;
    match next {
        BotState::Hunting => EngineRound {
            next,
            changed,
            fresh_context: changed,
            step: if should_suspend_hunt_for_ui(bot_window_open) {
                RoundStep::Suspend
            } else {
                RoundStep::Hunt
            },
        },
        _ => EngineRound { next, changed, fresh_context: false, step: RoundStep::Rest },
    }
}

/// Least time between two heartbeats.
pub const HEARTBEAT_INTERVAL_MS: u64 = 10_000;

/// When the loop last looked whether to report its state, and the state that it
/// last reported.
#[derive(Debug, Clone, Copy)]
pub struct Heartbeat {
    pub last_log: Instant,
    pub last_logged_state: Option<BotState>,
}

/// The state was not reported yet, and it is not hunting.
pub open spec fn worth_a_beat(reported: Option<BotState>, state: BotState) -> bool {
    reported != Some(state) && !(state is Hunting)
}

impl Heartbeat {
    /// Notes that a change to a state was reported.
    pub fn note_change(&mut self, next: BotState)
        ensures
            final(self).last_log == old(self).last_log,
            final(self).last_logged_state == Some(next),
    {
        self.last_logged_state = Some(next);
    }

    /// Whether to report the state: once per interval, and only a state that was
    /// not reported yet and is not hunting.
    pub fn beat(&mut self, state: BotState, now: Instant) -> (r: bool)
        ensures
            ({
                let due = elapsed(now, old(self).last_log) >= ms_nanos(
                    HEARTBEAT_INTERVAL_MS as int,
                );
                &&& r == (due && worth_a_beat(old(self).last_logged_state, state))
                &&& final(self).last_log == (if due {
                    now
                } else {
                    old(self).last_log
                })
                &&& final(self).last_logged_state == (if r {
                    Some(state)
                } else {
                    old(self).last_logged_state
                })
            }),
    {
        if now.within_ms(self.last_log, HEARTBEAT_INTERVAL_MS) {
            return false;
        }
        self.last_log = now;
        let known: bool = match self.last_logged_state {
            Some(s) => s == state,
            None => false,
        };
        let hunting: bool = match state {
            BotState::Hunting => true,
            _ => false,
        };
        if known || hunting {
            false
        } else {
            self.last_logged_state = Some(state);
            true
        }
    }
}

/// A tick of the hunt is taken only while the bot is ready, and a hunt that
/// begins begins afresh.
pub proof fn law_hunts_only_when_ready(cur: BotState, ready: bool)
    ensures
        round_of(cur, ready).step is Hunt ==> ready,
        round_of(cur, ready).step is Hunt && !(cur is Hunting) ==> round_of(
            cur,
            ready,
        ).fresh_context,
        cur is Hunting ==> !round_of(cur, ready).fresh_context,
{
}

/// The bot hunts while it is ready, from the round after it got ready; it stops as
/// soon as it is not, and then rests for a round.
pub proof fn law_state_of_bot(cur: BotState, ready: bool)
    ensures
        next_state(cur, ready) is Hunting <==> ready && !(cur is Stopped),
        cur is Stopped && ready ==> next_state(cur, ready) is Idle,
        !ready && cur is Idle ==> next_state(cur, ready) is Idle,
        !ready && !(cur is Idle) ==> next_state(cur, ready) is Stopped,
        GAME_STATE_IN_GAME == 3,
{
}

/// A round follows the state: it hunts in one, rests in the others, reports a change
/// and starts afresh where hunting begins.
pub proof fn law_round(cur: BotState, ready: bool)
    ensures
        ({
            let r = round_of(cur, ready);
            &&& r.next == next_state(cur, ready)
            &&& r.changed <==> r.next != cur
            &&& r.fresh_context <==> r.next is Hunting && !(cur is Hunting)
            &&& r.step is Hunt <==> r.next is Hunting
            &&& r.step is Rest <==> !(r.next is Hunting)
        }),
{
}

/// Steps are reported where the heading changes or the distance does by three or
/// more; attacks and failures always; that there is no target once; and a cooldown
/// never.
pub proof fn law_what_is_reported(log: WalkLog, outcome: HuntOutcome)
    ensures
        ({
            let (next, said) = log.after(outcome);
            &&& outcome is Cooldown ==> !said && next == log
            &&& outcome is NoTarget ==> (said <==> log.heading != 255) && next.heading == 255
            &&& outcome is Cast ==> said && next.heading == 255
            &&& outcome is ActionFailed ==> said && next == log
            &&& outcome matches HuntOutcome::Walked { heading, distance_tiles, .. } ==> {
                &&& said <==> heading != log.heading || distance_tiles >= log.distance + 3
                    || log.distance >= distance_tiles + 3
                &&& said ==> next.heading == heading && next.distance == distance_tiles
                &&& !said ==> next == log
            }
        }),
{
}

/// How often things are done and reported, in milliseconds, and what is worth it.
pub proof fn law_rhythm(reported: Option<BotState>, state: BotState)
    ensures
        TICK_INTERVAL_MS == 200,
        HUNT_ALIVE_DIAG_INTERVAL_MS == 3_000,
        HEARTBEAT_INTERVAL_MS == 10_000,
        worth_a_beat(reported, state) <==> !(state is Hunting) && reported != Some(state),
{
}

} // verus!
