//! The plan of a tick: what is known, ranked and suggested.
use crate::action::walk::chebyshev_spec;
use crate::decide::hunt::{
    cd_skill, AttackSequenceStep, AttackStepKind, MELEE_RANGE_TILES, RANGED_RANGE_TILES,
};
use crate::decide::pathfind::Walkable;
use crate::hunt4::candidate;
use crate::hunt4::candidate::{
    is_candidate_frame, same_frame, CandidateFrame, CandidateFrameInput,
};
use crate::hunt4::explore;
use crate::hunt4::explore::is_exploration;
use crate::hunt4::memory::TacticalMemory;
use crate::hunt4::model::{EntityView, Snapshot, LOCAL_CLEAR_RADIUS_TILES};
use crate::hunt4::route;
use crate::hunt4::route::{
    first_tile, head_tile, opt_route, plan_route, RouteKind, RoutePlan, RouteView,
};
use crate::hunt4::score;
use crate::hunt4::score::{are_summaries, TargetScoreSummary};
use crate::hunt4::step::{copy_text, AttackStepInput, ExploreSuggestion, TargetCandidate};
use crate::hunt4::world::WorldFrame;
use crate::minimap::NavProfile;
use crate::time::{elapsed, ms_nanos, Instant};
use std::collections::HashSet;
use vstd::prelude::*;

verus! {

broadcast use vstd::std_specs::hash::group_hash_axioms;

/// Hit points at or below this share are critical.
pub const CRITICAL_HP_PERCENT: u32 = 15;

/// The plan of a tick.
#[derive(Debug, PartialEq, Eq)]
pub struct PlanFrame {
    pub now: Instant,
    pub in_game: bool,
    pub map_id: Option<u32>,
    pub player_tile: Option<(i32, i32)>,
    pub attack_range: u32,
    pub selected_attack_step: Option<AttackSequenceStep>,
    pub selected_skill_range: Option<u32>,
    pub selected_skill_cd_ms: Option<u64>,
    pub selected_skill_ready: Option<bool>,
    pub post_skill_basic_pending_target: Option<u32>,
    pub recent_attacker_count: usize,
    pub candidate_count: usize,
    pub reachable_count: usize,
    pub attacker_count: usize,
    pub ranked_targets: Vec<TargetScoreSummary>,
    pub route_plan: Option<RoutePlan>,
    pub selected_target_id: Option<u32>,
    pub selected_target_reason: Option<String>,
    pub non_viable_target_count: usize,
    pub last_target_reject_reason: Option<String>,
    pub abandoned_target_reason: Option<String>,
    pub selected_route_target_id: Option<u32>,
    pub selected_route_next_tile: Option<(i32, i32)>,
    pub selected_route_reason: Option<String>,
    pub movement_next_tile: Option<(i32, i32)>,
    pub movement_reason: Option<String>,
    pub teleport_should_use: bool,
    pub teleport_reason: Option<String>,
    pub final_action_kind: String,
    pub invariant_violations: Vec<String>,
    pub explore_goal: Option<(i32, i32)>,
    pub explore_next_tile: Option<(i32, i32)>,
    pub explore_steps: Option<usize>,
}

/// Two plans say the same.
pub open spec fn same_plan(a: PlanFrame, b: PlanFrame) -> bool {
    &&& b == (PlanFrame {
        ranked_targets: b.ranked_targets,
        route_plan: b.route_plan,
        invariant_violations: b.invariant_violations,
        ..a
    })
    &&& b.ranked_targets@ == a.ranked_targets@
    &&& b.invariant_violations@ == a.invariant_violations@
    &&& match a.route_plan {
        Some(route) => b.route_plan matches Some(other) && other@ == route@,
        None => b.route_plan is None,
    }
}

impl Clone for PlanFrame {
    fn clone(&self) -> (r: Self)
        ensures
            same_plan(*self, r),
    {
        let r = PlanFrame {
            now: self.now,
            in_game: self.in_game,
            map_id: self.map_id,
            player_tile: self.player_tile,
            attack_range: self.attack_range,
            selected_attack_step: self.selected_attack_step.clone(),
            selected_skill_range: self.selected_skill_range,
            selected_skill_cd_ms: self.selected_skill_cd_ms,
            selected_skill_ready: self.selected_skill_ready,
            post_skill_basic_pending_target: self.post_skill_basic_pending_target,
            recent_attacker_count: self.recent_attacker_count,
            candidate_count: self.candidate_count,
            reachable_count: self.reachable_count,
            attacker_count: self.attacker_count,
            ranked_targets: self.ranked_targets.clone(),
            route_plan: self.route_plan.clone(),
            selected_target_id: self.selected_target_id,
            selected_target_reason: copy_text(&self.selected_target_reason),
            non_viable_target_count: self.non_viable_target_count,
            last_target_reject_reason: copy_text(&self.last_target_reject_reason),
            abandoned_target_reason: copy_text(&self.abandoned_target_reason),
            selected_route_target_id: self.selected_route_target_id,
            selected_route_next_tile: self.selected_route_next_tile,
            selected_route_reason: copy_text(&self.selected_route_reason),
            movement_next_tile: self.movement_next_tile,
            movement_reason: copy_text(&self.movement_reason),
            teleport_should_use: self.teleport_should_use,
            teleport_reason: copy_text(&self.teleport_reason),
            final_action_kind: self.final_action_kind.clone(),
            invariant_violations: self.invariant_violations.clone(),
            explore_goal: self.explore_goal,
            explore_next_tile: self.explore_next_tile,
            explore_steps: self.explore_steps,
        };
        assert(r.ranked_targets@ =~= self.ranked_targets@);
        assert(r.invariant_violations@ =~= self.invariant_violations@);
        r
    }
}

pub struct PlanFrameInput<'a> {
    pub world: &'a WorldFrame,
    pub candidate_frame: &'a CandidateFrame,
    pub explore: Option<&'a ExploreSuggestion>,
    pub selected_attack_step: Option<&'a AttackSequenceStep>,
    pub selected_skill_range: Option<u32>,
    pub selected_skill_cd_ms: Option<u64>,
    pub selected_skill_ready: Option<bool>,
    pub post_skill_basic_pending_target: Option<u32>,
}

/// The plan of a tick with all that it was made from.
#[derive(Debug, PartialEq, Eq)]
pub struct RuntimePlanEvaluation {
    pub candidate_frame: CandidateFrame,
    pub explore: Option<ExploreSuggestion>,
    pub plan_frame: PlanFrame,
    pub backend_skill_cd_ms: u64,
    pub backend_attack_step: AttackStepInput,
    pub damage_spike_detected: bool,
    pub critical_hp_detected: bool,
}

impl Clone for RuntimePlanEvaluation {
    fn clone(&self) -> (r: Self)
        ensures
            r == (RuntimePlanEvaluation {
                candidate_frame: r.candidate_frame,
                explore: r.explore,
                plan_frame: r.plan_frame,
                ..*self
            }),
            same_frame(self.candidate_frame, r.candidate_frame),
            same_plan(self.plan_frame, r.plan_frame),
            match self.explore {
                Some(e) => r.explore matches Some(f) && f.goal == e.goal && f.path@ == e.path@,
                None => r.explore is None,
            },
    {
        RuntimePlanEvaluation {
            candidate_frame: self.candidate_frame.clone(),
            explore: self.explore.clone(),
            plan_frame: self.plan_frame.clone(),
            backend_skill_cd_ms: self.backend_skill_cd_ms,
            backend_attack_step: self.backend_attack_step.clone(),
            damage_spike_detected: self.damage_spike_detected,
            critical_hp_detected: self.critical_hp_detected,
        }
    }
}

pub struct RuntimePlanEvaluationInput<'a, G: Walkable> {
    pub world: &'a WorldFrame,
    pub player_tile: (i32, i32),
    pub ranged_weapon: bool,
    pub grid: Option<&'a G>,
    pub map_profile: Option<&'a NavProfile>,
    pub memory: &'a TacticalMemory,
    pub previous_hp: Option<u32>,
    pub current_hp: Option<u32>,
    pub max_hp: u32,
    pub damage_spike_hp_percent: u8,
    pub server_recent_attackers: HashSet<u32>,
    pub selected_attack_step: Option<&'a AttackSequenceStep>,
    pub selected_skill_range: Option<u32>,
    pub selected_skill_cd_ms: Option<u64>,
    pub last_skill_cast: Option<Instant>,
    pub post_skill_basic_pending_target: Option<u32>,
}

impl PlanFrame {
    /// The best target.
    pub fn top_target(&self) -> (r: Option<&TargetScoreSummary>)
        ensures
            match r {
                Some(t) => self.ranked_targets@.len() > 0 && *t == self.ranked_targets@[0],
                None => self.ranked_targets@.len() == 0,
            },
    {
        if self.ranked_targets.len() > 0 {
            Some(&self.ranked_targets[0])
        } else {
            None
        }
    }
}

/// The loss that counts as a spike: a share of all hit points, at least 1.
pub open spec fn spike_threshold(percent: u8, max_hp: u32) -> Option<u32> {
    if percent == 0 || max_hp == 0 {
        None
    } else {
        let raw = max_hp * percent / 100;
        if raw % 0x1_0000_0000 >= 1 {
            Some((raw % 0x1_0000_0000) as u32)
        } else {
            Some(1)
        }
    }
}

/// The loss of hit points in one tick that counts as a spike. 0 percent turns
/// it off.
pub fn damage_spike_absolute_threshold(percent: u8, max_hp: u32) -> (r: Option<u32>)
    ensures
        r == spike_threshold(percent, max_hp),
        percent <= 100 && r is Some ==> r->0 == (if max_hp * percent / 100 >= 1 {
            max_hp * percent / 100
        } else {
            1
        }),
{
    if percent == 0 || max_hp == 0 {
        return None;
    }
    assert(0 <= max_hp * percent <= 0xffff_ffff * 255) by (nonlinear_arith)
        requires
            0 <= max_hp <= 0xffff_ffff,
            0 <= percent <= 255,
    ;
    assert(percent <= 100 ==> max_hp * percent <= max_hp * 100) by (nonlinear_arith)
        requires
            0 <= max_hp,
            0 <= percent,
    ;
    let raw: u64 = (max_hp as u64 * percent as u64) / 100;
    let low: u32 = (raw % 0x1_0000_0000) as u32;
    if low >= 1 {
        Some(low)
    } else {
        Some(1)
    }
}

/// More hit points were lost than the threshold allows.
pub open spec fn is_spike(prev: Option<u32>, cur: u32, threshold: u32) -> bool {
    prev matches Some(p) && (if p >= cur {
        p - cur
    } else {
        0
    }) >= threshold
}

pub fn detect_damage_spike(prev_hp: Option<u32>, cur_hp: u32, hp_threshold: u32) -> (r: bool)
    ensures
        r == is_spike(prev_hp, cur_hp, hp_threshold),
{
    match prev_hp {
        Some(prev) => {
            let lost: u32 = if prev >= cur_hp {
                prev - cur_hp
            } else {
                0
            };
            lost >= hp_threshold
        },
        None => false,
    }
}

pub open spec fn has_hp_dropped(prev: Option<u32>, cur: Option<u32>) -> bool {
    match (prev, cur) {
        (Some(p), Some(c)) => 0 < c < p,
        _ => false,
    }
}

/// Whether hit points were lost. Dying is no loss of hit points.
pub fn hp_drop_detected(prev_hp: Option<u32>, cur_hp: Option<u32>) -> (r: bool)
    ensures
        r == has_hp_dropped(prev_hp, cur_hp),
{
    match (prev_hp, cur_hp) {
        (Some(prev), Some(cur)) => cur > 0 && cur < prev,
        _ => false,
    }
}

pub open spec fn is_critical(cur: u32, max: u32) -> bool {
    max != 0 && cur != 0 && cur * 100 / max as int <= CRITICAL_HP_PERCENT
}

/// Whether few hit points are left. Without any, it is too late.
pub fn detect_critical_hp(cur_hp: u32, max_hp: u32) -> (r: bool)
    ensures
        r == is_critical(cur_hp, max_hp),
{
    if max_hp == 0 || cur_hp == 0 {
        return false;
    }
    let percent: u64 = (cur_hp as u64 * 100) / max_hp as u64;
    percent <= CRITICAL_HP_PERCENT as u64
}

pub open spec fn weapon_range(ranged: bool) -> u32 {
    if ranged {
        RANGED_RANGE_TILES
    } else {
        MELEE_RANGE_TILES
    }
}

/// How far the weapon reaches.
pub fn attack_range_for_weapon(ranged_weapon: bool) -> (r: u32)
    ensures
        r == weapon_range(ranged_weapon),
{
    if ranged_weapon {
        RANGED_RANGE_TILES
    } else {
        MELEE_RANGE_TILES
    }
}

/// A skill with a known reach has that reach; otherwise the weapon counts.
pub open spec fn step_range(
    ranged: bool,
    step: Option<&AttackSequenceStep>,
    skill_range: Option<u32>,
) -> u32 {
    match (step, skill_range) {
        (Some(s), Some(range)) => if cd_skill(s@) is Some && range > 0 {
            range
        } else {
            weapon_range(ranged)
        },
        _ => weapon_range(ranged),
    }
}

/// How far a step of the attack sequence reaches.
pub fn attack_range_for_step(
    ranged_weapon: bool,
    step: Option<&AttackSequenceStep>,
    skill_range: Option<u32>,
) -> (r: u32)
    ensures
        r == step_range(ranged_weapon, step, skill_range),
{
    let basic: u32 = attack_range_for_weapon(ranged_weapon);
    let step: &AttackSequenceStep = match step {
        Some(s) => s,
        None => {
            return basic;
        },
    };
    match step.normalized().kind {
        AttackStepKind::Skill => match skill_range {
            Some(range) => if range > 0 {
                range
            } else {
                basic
            },
            None => basic,
        },
        AttackStepKind::Basic => basic,
    }
}

/// A target close enough to be the one that hit the player.
pub open spec fn is_local(e: EntityView, player: (i32, i32)) -> bool {
    e.live() && chebyshev_spec(e.tile, player) <= LOCAL_CLEAR_RADIUS_TILES
}

pub open spec fn has_local(s: Seq<EntityView>, player: (i32, i32)) -> bool {
    exists|i: int| 0 <= i < s.len() && is_local(#[trigger] s[i], player)
}

/// The ids of the targets close by.
pub open spec fn local_ids(s: Seq<EntityView>, player: (i32, i32)) -> Set<u32>
    decreases s.len(),
{
    if s.len() == 0 {
        Set::empty()
    } else if is_local(s.last(), player) {
        local_ids(s.drop_last(), player).insert(s.last().target_id)
    } else {
        local_ids(s.drop_last(), player)
    }
}

/// Nearer, or as near with a lower id.
pub open spec fn is_nearer(a: EntityView, b: EntityView, player: (i32, i32)) -> bool {
    let da = chebyshev_spec(a.tile, player);
    let db = chebyshev_spec(b.tile, player);
    da < db || (da == db && a.target_id < b.target_id)
}

/// The nearest target.
pub open spec fn nearest_live(s: Seq<EntityView>, player: (i32, i32)) -> Option<EntityView>
    decreases s.len(),
{
    if s.len() == 0 {
        None
    } else {
        let rest = nearest_live(s.drop_last(), player);
        if !s.last().live() {
            rest
        } else {
            match rest {
                Some(best) => if is_nearer(s.last(), best, player) {
                    Some(s.last())
                } else {
                    rest
                },
                None => Some(s.last()),
            }
        }
    }
}

/// Who is taken to attack the player. When hit points were lost, all targets
/// close by are, and if there are none, the nearest.
pub open spec fn pressed(
    entities: Seq<EntityView>,
    player: (i32, i32),
    known: Set<u32>,
    hp_drop: bool,
) -> Set<u32> {
    if !hp_drop {
        known
    } else if has_local(entities, player) {
        known.union(local_ids(entities, player))
    } else {
        match nearest_live(entities, player) {
            Some(e) => known.insert(e.target_id),
            None => known,
        }
    }
}

pub fn pressure_attackers_for_hp_drop(
    snapshot: &Snapshot,
    player: (i32, i32),
    recent_attackers: HashSet<u32>,
    hp_drop: bool,
) -> (r: HashSet<u32>)
    ensures
        r@ == pressed(snapshot.entities@, player, recent_attackers@, hp_drop),
{
    let mut attackers: HashSet<u32> = recent_attackers;
    if !hp_drop {
        return attackers;
    }
    let ghost known = attackers@;
    let ghost entities = snapshot.entities@;
    let mut any_local: bool = false;
    let mut nearest: Option<&EntityView> = None;
    let mut i: usize = 0;
    assert(known.union(local_ids(entities.take(0), player)) =~= known);
    while i < snapshot.entities.len()
        invariant
            i <= entities.len(),
            entities == snapshot.entities@,
            any_local == has_local(entities.take(i as int), player),
            attackers@ == known.union(local_ids(entities.take(i as int), player)),
            !any_local ==> attackers@ == known,
            match nearest {
                Some(e) => nearest_live(entities.take(i as int), player) == Some(*e),
                None => nearest_live(entities.take(i as int), player) is None,
            },
        decreases entities.len() - i,
    {
        let e: &EntityView = &snapshot.entities[i];
        let ghost s = entities.take(i as int);
        let ghost t = entities.take(i + 1);
        assert(t.drop_last() =~= s);
        let distance: u32 = e.distance_from(player);
        let ghost before = attackers@;
        if e.is_live_attackable() && distance <= LOCAL_CLEAR_RADIUS_TILES {
            attackers.insert(e.target_id);
            any_local = true;
            assert(is_local(t[i as int], player));
            assert(attackers@ =~= known.union(local_ids(t, player)));
        }
        proof {
            if has_local(s, player) {
                let k = choose|k: int| 0 <= k < s.len() && is_local(#[trigger] s[k], player);
                assert(is_local(t[k], player));
            }
            if has_local(t, player) && !is_local(t[i as int], player) {
                let k = choose|k: int| 0 <= k < t.len() && is_local(#[trigger] t[k], player);
                assert(is_local(s[k], player));
            }
        }
        if e.is_live_attackable() {
            let nearer: bool = match nearest {
                Some(best) => {
                    let d: u32 = best.distance_from(player);
                    distance < d || (distance == d && e.target_id < best.target_id)
                },
                None => true,
            };
            if nearer {
                nearest = Some(e);
            }
        }
        i = i + 1;
    }
    assert(entities.take(i as int) =~= entities);
    if !any_local {
        if let Some(e) = nearest {
            attackers.insert(e.target_id);
        }
    }
    attackers
}

/// The nearest target is one, and none is nearer.
pub proof fn law_nearest(s: Seq<EntityView>, player: (i32, i32))
    ensures
        match nearest_live(s, player) {
            Some(e) => s.contains(e) && e.live() && forall|i: int|
                0 <= i < s.len() && (#[trigger] s[i]).live() ==> !is_nearer(s[i], e, player),
            None => forall|i: int| 0 <= i < s.len() ==> !(#[trigger] s[i]).live(),
        },
    decreases s.len(),
{
    if s.len() > 0 {
        law_nearest(s.drop_last(), player);
        let rest = s.drop_last();
        assert(s[s.len() - 1] == s.last());
        if let Some(e) = nearest_live(rest, player) {
            let k = choose|k: int| 0 <= k < rest.len() && rest[k] == e;
            assert(s[k] == e);
        }
        assert forall|i: int| 0 <= i < s.len() - 1 implies #[trigger] s[i] == rest[i] by {}
    }
}

/// A skill that has rested long enough. Without a skill, or where its rest is
/// unknown, there is nothing to say.
pub open spec fn skill_ready(
    step: Option<&AttackSequenceStep>,
    cd_ms: Option<u64>,
    last_cast: Option<Instant>,
    now: Instant,
) -> Option<bool> {
    match (step, cd_ms) {
        (Some(s), Some(ms)) => if cd_skill(s@) is None {
            None
        } else {
            Some(
                ms == 0 || last_cast is None || elapsed(now, last_cast->0) >= ms_nanos(ms as int),
            )
        },
        _ => None,
    }
}

pub fn selected_skill_ready(
    selected_attack_step: Option<&AttackSequenceStep>,
    selected_skill_cd_ms: Option<u64>,
    last_skill_cast: Option<Instant>,
    now: Instant,
) -> (r: Option<bool>)
    ensures
        r == skill_ready(selected_attack_step, selected_skill_cd_ms, last_skill_cast, now),
{
    let step: &AttackSequenceStep = match selected_attack_step {
        Some(s) => s,
        None => {
            return None;
        },
    };
    if step.skill_for_cd().is_none() {
        return None;
    }
    let cd_ms: u64 = match selected_skill_cd_ms {
        Some(ms) => ms,
        None => {
            return None;
        },
    };
    if cd_ms == 0 {
        return Some(true);
    }
    match last_skill_cast {
        Some(last) => Some(!now.within_ms(last, cd_ms)),
        None => Some(true),
    }
}

/// The candidates to which there is a way.
pub open spec fn reachable_in(s: Seq<TargetCandidate>) -> int
    decreases s.len(),
{
    if s.len() == 0 {
        0
    } else {
        reachable_in(s.drop_last()) + (if s.last().reachable_path is Some {
            1int
        } else {
            0int
        })
    }
}

/// The candidates that attack the player.
pub open spec fn attackers_in(s: Seq<TargetCandidate>) -> int
    decreases s.len(),
{
    if s.len() == 0 {
        0
    } else {
        attackers_in(s.drop_last()) + (if s.last().is_attacker {
            1int
        } else {
            0int
        })
    }
}

fn count_candidates(candidates: &Vec<TargetCandidate>) -> (r: (usize, usize))
    ensures
        r.0 == reachable_in(candidates@),
        r.1 == attackers_in(candidates@),
{
    let mut reachable: usize = 0;
    let mut attackers: usize = 0;
    let mut i: usize = 0;
    while i < candidates.len()
        invariant
            i <= candidates@.len(),
            reachable <= i,
            attackers <= i,
            reachable == reachable_in(candidates@.take(i as int)),
            attackers == attackers_in(candidates@.take(i as int)),
        decreases candidates@.len() - i,
    {
        assert(candidates@.take(i + 1).drop_last() =~= candidates@.take(i as int));
        if candidates[i].reachable_path.is_some() {
            reachable = reachable + 1;
        }
        if candidates[i].is_attacker {
            attackers = attackers + 1;
        }
        i = i + 1;
    }
    assert(candidates@.take(i as int) =~= candidates@);
    (reachable, attackers)
}

/// What a route is for, in a word.
pub open spec fn route_word(kind: RouteKind) -> Seq<char> {
    match kind {
        RouteKind::Attack => "target_approach"@,
        RouteKind::Explore => "explore"@,
    }
}

fn route_summary_reason(route: &RoutePlan) -> (r: String)
    ensures
        r@ == route_word(route.kind),
{
    match route.kind {
        RouteKind::Attack => "target_approach".to_owned(),
        RouteKind::Explore => "explore".to_owned(),
    }
}

/// A text that may be missing holds these characters.
pub open spec fn is_text(t: Option<String>, chars: Option<Seq<char>>) -> bool {
    match chars {
        Some(c) => t matches Some(s) && s@ == c,
        None => t is None,
    }
}

/// What is behind a reference that may be missing.
pub open spec fn opt_value<T>(o: Option<&T>) -> Option<T> {
    match o {
        Some(v) => Some(*v),
        None => None,
    }
}

/// What a plan says of the selected target.
pub open spec fn plans_selection(p: PlanFrame, f: CandidateFrame) -> bool {
    &&& match f.target_selection.selected {
        Some(t) => p.selected_target_id == Some(t.target_id) && p.selected_target_reason == Some(
            t.reason,
        ),
        None => p.selected_target_id is None && p.selected_target_reason is None,
    }
    &&& p.non_viable_target_count == f.target_selection.rejected@.len()
    &&& p.last_target_reject_reason == (if f.target_selection.rejected@.len() > 0 {
        Some(f.target_selection.rejected@[0].reason)
    } else {
        None
    })
    &&& p.abandoned_target_reason is None
}

/// What a plan says of the way to go.
pub open spec fn plans_route(p: PlanFrame, route: Option<RouteView>) -> bool {
    &&& opt_route(p.route_plan) == route
    &&& match route {
        Some(way) => {
            &&& p.selected_route_target_id == way.target_id
            &&& p.selected_route_next_tile == way.next_tile
            &&& is_text(p.selected_route_reason, Some(route_word(way.kind)))
            &&& p.movement_next_tile == way.next_tile
            &&& is_text(
                p.movement_reason,
                if way.next_tile is Some {
                    Some(route_word(way.kind))
                } else {
                    None
                },
            )
        },
        None => {
            &&& p.selected_route_target_id is None
            &&& p.selected_route_next_tile is None
            &&& p.selected_route_reason is None
            &&& p.movement_next_tile is None
            &&& p.movement_reason is None
        },
    }
}

/// What a plan says of exploration.
pub open spec fn plans_exploration(p: PlanFrame, explore: Option<&ExploreSuggestion>) -> bool {
    match explore {
        Some(e) => {
            &&& p.explore_goal == Some(e.goal)
            &&& p.explore_next_tile == first_tile(e.path@)
            &&& p.explore_steps == Some(e.path@.len() as usize)
        },
        None => p.explore_goal is None && p.explore_next_tile is None && p.explore_steps is None,
    }
}

/// What `build_plan_frame` returns.
pub open spec fn is_plan_frame(
    p: PlanFrame,
    world: WorldFrame,
    f: CandidateFrame,
    explore: Option<&ExploreSuggestion>,
    step: Option<&AttackSequenceStep>,
    skill_range: Option<u32>,
    skill_cd_ms: Option<u64>,
    ready: Option<bool>,
    pending: Option<u32>,
) -> bool {
    &&& p.now == world.now
    &&& p.in_game == world.in_game
    &&& p.map_id == world.map_id
    &&& p.player_tile == world.tile()
    &&& p.attack_range == f.attack_range
    &&& p.selected_attack_step == opt_value(step)
    &&& p.selected_skill_range == skill_range
    &&& p.selected_skill_cd_ms == skill_cd_ms
    &&& p.selected_skill_ready == ready
    &&& p.post_skill_basic_pending_target == pending
    &&& p.recent_attacker_count == f.recent_attacker_count
    &&& p.candidate_count == f.candidates@.len()
    &&& p.reachable_count == reachable_in(f.candidates@)
    &&& p.attacker_count == attackers_in(f.candidates@)
    &&& are_summaries(p.ranked_targets@, f.candidates@)
    &&& plans_selection(p, f)
    &&& plans_route(p, plan_route(f.target_selection, f.candidates@, explore))
    &&& !p.teleport_should_use
    &&& p.teleport_reason is None
    &&& p.final_action_kind@ == "wait"@
    &&& p.invariant_violations@.len() == 0
    &&& plans_exploration(p, explore)
}

/// Puts together the plan of a tick.
pub fn build_plan_frame(input: PlanFrameInput<'_>) -> (r: PlanFrame)
    ensures
        is_plan_frame(
            r,
            *input.world,
            *input.candidate_frame,
            input.explore,
            input.selected_attack_step,
            input.selected_skill_range,
            input.selected_skill_cd_ms,
            input.selected_skill_ready,
            input.post_skill_basic_pending_target,
        ),
{
    let frame: &CandidateFrame = input.candidate_frame;
    let ranked_targets = score::summarize_ranked_candidates(frame.candidates.as_slice());
    let counts: (usize, usize) = count_candidates(&frame.candidates);
    let route_plan = route::route_for_plan(
        &frame.target_selection,
        frame.candidates.as_slice(),
        input.explore,
    );
    let (selected_target_id, selected_target_reason): (Option<u32>, Option<String>) =
        match &frame.target_selection.selected {
        Some(t) => (Some(t.target_id), Some(t.reason.clone())),
        None => (None, None),
    };
    let selected_route_target_id: Option<u32> = match &route_plan {
        Some(way) => way.target_id,
        None => None,
    };
    let selected_route_next_tile: Option<(i32, i32)> = match &route_plan {
        Some(way) => way.next_tile,
        None => None,
    };
    let selected_route_reason: Option<String> = match &route_plan {
        Some(way) => Some(route_summary_reason(way)),
        None => None,
    };
    let movement_reason: Option<String> = if selected_route_next_tile.is_some() {
        copy_text(&selected_route_reason)
    } else {
        None
    };
    let last_target_reject_reason: Option<String> = if frame.target_selection.rejected.len() > 0 {
        Some(frame.target_selection.rejected[0].reason.clone())
    } else {
        None
    };
    let selected_attack_step: Option<AttackSequenceStep> = match input.selected_attack_step {
        Some(s) => Some(s.clone()),
        None => None,
    };
    let explore_goal: Option<(i32, i32)> = match input.explore {
        Some(e) => Some(e.goal),
        None => None,
    };
    let explore_next_tile: Option<(i32, i32)> = match input.explore {
        Some(e) => head_tile(e.path.as_slice()),
        None => None,
    };
    let explore_steps: Option<usize> = match input.explore {
        Some(e) => Some(e.path.len()),
        None => None,
    };
    PlanFrame {
        now: input.world.now,
        in_game: input.world.in_game,
        map_id: input.world.map_id,
        player_tile: input.world.player_tile(),
        attack_range: frame.attack_range,
        selected_attack_step,
        selected_skill_range: input.selected_skill_range,
        selected_skill_cd_ms: input.selected_skill_cd_ms,
        selected_skill_ready: input.selected_skill_ready,
        post_skill_basic_pending_target: input.post_skill_basic_pending_target,
        recent_attacker_count: frame.recent_attacker_count,
        candidate_count: frame.candidates.len(),
        reachable_count: counts.0,
        attacker_count: counts.1,
        ranked_targets,
        route_plan,
        selected_target_id,
        selected_target_reason,
        non_viable_target_count: frame.target_selection.rejected.len(),
        last_target_reject_reason,
        abandoned_target_reason: None,
        selected_route_target_id,
        selected_route_next_tile,
        selected_route_reason,
        movement_next_tile: selected_route_next_tile,
        movement_reason,
        teleport_should_use: false,
        teleport_reason: None,
        final_action_kind: "wait".to_owned(),
        invariant_violations: Vec::new(),
        explore_goal,
        explore_next_tile,
        explore_steps,
    }
}

/// Hit points that are unknown count as none.
pub open spec fn hp_or_none(hp: Option<u32>) -> u32 {
    match hp {
        Some(h) => h,
        None => 0,
    }
}

/// Who is taken to attack the player in a tick.
pub open spec fn tick_attackers<G: Walkable>(input: RuntimePlanEvaluationInput<'_, G>) -> Set<u32> {
    pressed(
        input.world.snapshot.entities@,
        input.player_tile,
        input.server_recent_attackers@,
        has_hp_dropped(input.previous_hp, input.current_hp),
    )
}

/// What `evaluate_runtime_plan` returns.
pub open spec fn is_runtime_plan<G: Walkable>(
    r: RuntimePlanEvaluation,
    input: RuntimePlanEvaluationInput<'_, G>,
) -> bool {
    &&& is_candidate_frame(
        r.candidate_frame,
        input.world.snapshot,
        input.player_tile,
        step_range(input.ranged_weapon, input.selected_attack_step, input.selected_skill_range),
        input.grid,
        *input.memory,
        tick_attackers(input),
        input.world.now,
    )
    &&& is_exploration(
        r.explore,
        input.player_tile,
        input.world.map_id,
        input.grid,
        input.map_profile,
        *input.memory,
        input.world.now,
    )
    &&& is_plan_frame(
        r.plan_frame,
        *input.world,
        r.candidate_frame,
        match r.explore {
            Some(e) => Some(&e),
            None => None,
        },
        input.selected_attack_step,
        input.selected_skill_range,
        input.selected_skill_cd_ms,
        skill_ready(
            input.selected_attack_step,
            input.selected_skill_cd_ms,
            input.last_skill_cast,
            input.world.now,
        ),
        input.post_skill_basic_pending_target,
    )
    &&& r.backend_skill_cd_ms == (match input.selected_skill_cd_ms {
        Some(ms) => ms,
        None => 0,
    })
    &&& r.backend_attack_step == (match input.selected_attack_step {
        Some(s) => AttackStepInput::Step(*s),
        None => AttackStepInput::Waiting,
    })
    &&& r.damage_spike_detected == (spike_threshold(
        input.damage_spike_hp_percent,
        input.max_hp,
    ) matches Some(threshold) && is_spike(
        input.previous_hp,
        hp_or_none(input.current_hp),
        threshold,
    ))
    &&& r.critical_hp_detected == is_critical(hp_or_none(input.current_hp), input.max_hp)
}

/// Makes the plan of a tick.
pub fn evaluate_runtime_plan<G: Walkable>(input: RuntimePlanEvaluationInput<'_, G>) -> (r:
    RuntimePlanEvaluation)
    ensures
        is_runtime_plan(r, input),
{
    let hp_drop: bool = hp_drop_detected(input.previous_hp, input.current_hp);
    let hp: u32 = match input.current_hp {
        Some(h) => h,
        None => 0,
    };
    let damage_spike_detected: bool = match damage_spike_absolute_threshold(
        input.damage_spike_hp_percent,
        input.max_hp,
    ) {
        Some(threshold) => detect_damage_spike(input.previous_hp, hp, threshold),
        None => false,
    };
    let critical_hp_detected: bool = detect_critical_hp(hp, input.max_hp);
    let attack_range: u32 = attack_range_for_step(
        input.ranged_weapon,
        input.selected_attack_step,
        input.selected_skill_range,
    );
    let recent_attackers = pressure_attackers_for_hp_drop(
        &input.world.snapshot,
        input.player_tile,
        input.server_recent_attackers,
        hp_drop,
    );
    let candidate_frame = candidate::build_candidate_frame(
        CandidateFrameInput {
            snapshot: &input.world.snapshot,
            player_tile: input.player_tile,
            attack_range,
            grid: input.grid,
            memory: input.memory,
            recent_attackers: &recent_attackers,
            now: input.world.now,
        },
    );
    let explore = explore::build_explore_suggestion_with_profile(
        input.player_tile,
        input.world.map_id,
        input.grid,
        input.map_profile,
        input.memory,
        input.world.now,
    );
    let ready: Option<bool> = selected_skill_ready(
        input.selected_attack_step,
        input.selected_skill_cd_ms,
        input.last_skill_cast,
        input.world.now,
    );
    let explore_ref: Option<&ExploreSuggestion> = match &explore {
        Some(e) => Some(e),
        None => None,
    };
    let plan_frame = build_plan_frame(
        PlanFrameInput {
            world: input.world,
            candidate_frame: &candidate_frame,
            explore: explore_ref,
            selected_attack_step: input.selected_attack_step,
            selected_skill_range: input.selected_skill_range,
            selected_skill_cd_ms: input.selected_skill_cd_ms,
            selected_skill_ready: ready,
            post_skill_basic_pending_target: input.post_skill_basic_pending_target,
        },
    );
    let backend_skill_cd_ms: u64 = match input.selected_skill_cd_ms {
        Some(ms) => ms,
        None => 0,
    };
    let backend_attack_step: AttackStepInput = match input.selected_attack_step {
        Some(s) => AttackStepInput::Step(s.clone()),
        None => AttackStepInput::Waiting,
    };
    RuntimePlanEvaluation {
        candidate_frame,
        explore,
        plan_frame,
        backend_skill_cd_ms,
        backend_attack_step,
        damage_spike_detected,
        critical_hp_detected,
    }
}

} // verus!
