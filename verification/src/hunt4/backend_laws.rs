//! What the backend remembers of what was seen and done.
use crate::action::screen_target::PlayerPosition;
use crate::client::packet_state::{is_recent, EventMaps, PacketState};
use crate::decide::hunt::HuntOutcome;
use crate::hunt4::actions::{IntentView, ScrollItem};
use crate::hunt4::backend::{
    active_path, asked, attack_booked, attack_shows, entity_at, entity_with_id, gate_ms,
    gates_after, has_scroll, is_outcome, lock_is_gone, portal_update, position_update,
    reaches_after, skill_reach, stalled_target, walk_tile_after, watch_after, watch_prepared,
};
use crate::hunt4::context::{advanced, due_step, looked_at, AttackProgressWatch, HuntContext};
use crate::decide::hunt::{effective_sequence, HuntConfig};
use crate::hunt4::memory::{no_update, TacticalMemory};
use crate::hunt4::model::EntityView;
use crate::hunt4::state::{EngageIntent, HuntStateView, TargetLock};
use crate::hunt4::step::LastOutcome;
use crate::text::trim;
use crate::time::Instant;
use vstd::prelude::*;

verus! {

/// How long a skill is waited for: what was found once is kept; what cannot be
/// found is two seconds; no skill is not waited for.
pub proof fn law_skill_wait(
    known: Map<Seq<char>, u64>,
    name: Seq<char>,
    found: Option<u64>,
    other: Seq<char>,
)
    ensures
        name.len() == 0 ==> gate_ms(known, name, found) == 0 && gates_after(known, name, found)
            == known,
        name.len() > 0 && known.contains_key(name) ==> gate_ms(known, name, found) == known[name]
            && gates_after(known, name, found) == known,
        name.len() > 0 && !known.contains_key(name) && found is Some ==> gate_ms(known, name, found)
            == found->0,
        name.len() > 0 && !known.contains_key(name) && found is None ==> gate_ms(known, name, found)
            == 2_000,
        name.len() > 0 ==> gates_after(known, name, found).contains_key(name) && gates_after(
            known,
            name,
            found,
        )[name] == gate_ms(known, name, found),
        other != name ==> gates_after(known, name, found).contains_key(other)
            == known.contains_key(other) && (known.contains_key(other) ==> gates_after(
            known,
            name,
            found,
        )[other] == known[other]),
{
}

/// How far a skill reaches, in the same way; what cannot be found reaches nowhere.
pub proof fn law_skill_reach(
    known: Map<Seq<char>, u32>,
    name: Seq<char>,
    found: Option<u32>,
    other: Seq<char>,
)
    ensures
        name.len() == 0 ==> skill_reach(known, name, found) == 0 && reaches_after(known, name, found)
            == known,
        name.len() > 0 && known.contains_key(name) ==> skill_reach(known, name, found) == known[name]
            && reaches_after(known, name, found) == known,
        name.len() > 0 && !known.contains_key(name) && found is Some ==> skill_reach(
            known,
            name,
            found,
        ) == found->0,
        name.len() > 0 && !known.contains_key(name) && found is None ==> skill_reach(
            known,
            name,
            found,
        ) == 0,
        name.len() > 0 ==> reaches_after(known, name, found).contains_key(name) && reaches_after(
            known,
            name,
            found,
        )[name] == skill_reach(known, name, found),
        other != name ==> reaches_after(known, name, found).contains_key(other)
            == known.contains_key(other) && (known.contains_key(other) ==> reaches_after(
            known,
            name,
            found,
        )[other] == known[other]),
{
}

/// A locked target is gone where it was reported removed or dead of late, whatever
/// was meant with it; an attack shows where the target that is attacked was
/// reported hurt of late. Without a lock neither holds.
pub proof fn law_reports_on_lock(
    lock: TargetLock,
    intent: EngageIntent,
    path: Option<Seq<(i32, i32)>>,
    state: HuntStateView,
    events: PacketState,
    now: Instant,
)
    ensures
        lock_is_gone(HuntStateView::Engaging { lock, intent, path }, events, now) <==> is_recent(
            events@.removed,
            lock.target_id,
            now,
        ),
        attack_shows(HuntStateView::Engaging { lock, intent, path }, events, now) <==> intent
            is Attack && is_recent(events@.damaged, lock.target_id, now),
        !(state is Engaging) ==> !lock_is_gone(state, events, now) && !attack_shows(
            state,
            events,
            now,
        ),
{
}

/// Asking for reports changes no answer.
pub proof fn law_asking_keeps_reports(
    m: EventMaps,
    state: HuntStateView,
    now: Instant,
    id: u32,
    later: Instant,
)
    requires
        now.nanos <= later.nanos,
    ensures
        is_recent(asked(m, state, now).removed, id, later) == is_recent(m.removed, id, later),
        is_recent(asked(m, state, now).damaged, id, later) == is_recent(m.damaged, id, later),
        asked(m, state, now).attackers == m.attackers,
{
}

/// There is a scroll to read where a keyword is set and an item answers to it.
pub proof fn law_has_scroll(keyword: Seq<char>, items: Seq<ScrollItem>, i: int)
    ensures
        trim(keyword).len() > 0 && 0 <= i < items.len() && items[i].matches_keyword ==> has_scroll(
            keyword,
            items,
        ),
        trim(keyword).len() == 0 ==> !has_scroll(keyword, items),
        (forall|j: int| 0 <= j < items.len() ==> !(#[trigger] items[j]).matches_keyword)
            ==> !has_scroll(keyword, items),
{
}

/// The state attacks a target.
pub open spec fn attacks(state: HuntStateView, id: u32) -> bool {
    state matches HuntStateView::Engaging { lock, intent, .. } && lock.target_id == id && intent
        is Attack
}

/// The watch over an attack: it starts with a new target, starts over with every
/// hurt, and gives the target up after ten seconds without one. Where nothing is
/// attacked there is none.
pub proof fn law_attack_watch(
    before: HuntContext,
    now: Instant,
    damaged: bool,
    id: u32,
)
    ensures
        ({
            let w = before.attack_watch;
            let after = watch_prepared(before, now, damaged);
            let given_up = stalled_target(before.state@, w, now, damaged);
            let same = w.target_id == Some(id);
            let long = w.no_progress_since is Some && now.nanos >= w.no_progress_since->0.nanos
                + 10_000_000_000;
            &&& (forall|other: u32| !#[trigger] attacks(before.state@, other)) ==> {
                &&& given_up is None
                &&& after.attack_watch.target_id is None
                &&& after.attack_watch.no_progress_since is None
                &&& after.last_target_progress == before.last_target_progress
            }
            &&& attacks(before.state@, id) ==> {
                &&& given_up is Some <==> same && !damaged && long
                &&& given_up is Some ==> given_up->0 == id && after.attack_watch.target_id is None
                    && after.last_outcome == (LastOutcome::AttackNoProgress { target_id: id })
                &&& given_up is None ==> after.attack_watch.target_id == Some(id)
                &&& !same || damaged ==> after.attack_watch.no_progress_since == Some(now)
                &&& same && !damaged && !long ==> after.attack_watch == w
                &&& same && damaged ==> after.last_target_progress == Some(now)
                &&& !(same && damaged) ==> after.last_target_progress == before.last_target_progress
            }
            &&& given_up is None ==> after.last_outcome == before.last_outcome
            &&& after.memory == before.memory && after.state == before.state
        }),
{
    if let HuntStateView::Engaging { lock, intent, .. } = before.state@ {
        if intent is Attack {
            assert(attacks(before.state@, lock.target_id));
        }
    }
}

/// After a blow the watch is on its target, from the first blow on; after one that
/// failed the target is not watched any more.
pub proof fn law_watch_after_blow(w: AttackProgressWatch, id: u32, outcome: LastOutcome, now: Instant)
    ensures
        ({
            let ok = watch_after(w, LastOutcome::AttackOk { target_id: id }, now);
            let failed = watch_after(w, LastOutcome::AttackFailed { target_id: id }, now);
            &&& ok.target_id == Some(id) && ok.no_progress_since is Some
            &&& w.target_id == Some(id) && w.no_progress_since is Some ==> ok == w
            &&& !(w.target_id == Some(id) && w.no_progress_since is Some) ==> ok.no_progress_since
                == Some(now)
            &&& failed.target_id != Some(id)
            &&& w.target_id != Some(id) ==> failed == w
            &&& w.target_id == Some(id) ==> failed.target_id is None && failed.no_progress_since
                is None
            &&& !(outcome is AttackOk) && !(outcome is AttackFailed) ==> watch_after(w, outcome, now)
                == w
        }),
{
}

/// The sequence goes on after an attack that was tried, done or not, on the target
/// that was meant; nothing else moves it.
pub proof fn law_sequence_goes_on(
    before: HuntContext,
    cfg: HuntConfig,
    now: Instant,
    intent: IntentView,
    outcome: LastOutcome,
    id: u32,
)
    ensures
        ({
            let after = attack_booked(before, cfg, now, intent, outcome);
            let steps = effective_sequence(cfg);
            let looked = looked_at(before.attack_sequence, steps, now);
            let meant = (intent matches IntentView::BootstrapAttack { target_id, .. } && target_id
                == id) || (intent matches IntentView::CastSkill { target_id, .. } && target_id == id);
            let tried = outcome == (LastOutcome::AttackOk { target_id: id }) || outcome == (
            LastOutcome::AttackFailed { target_id: id });
            let due = due_step(before.attack_sequence, steps, now) is Some;
            &&& meant && tried && due ==> after.attack_sequence == advanced(
                looked,
                steps,
                cfg.attack_sequence_cycle_ms,
                now,
            )
            &&& meant && tried && !due ==> after.attack_sequence == looked
            &&& meant && !tried ==> after.attack_sequence == before.attack_sequence
            &&& !(intent is BootstrapAttack) && !(intent is CastSkill) ==> after.attack_sequence
                == before.attack_sequence
            &&& after.attack_watch == watch_after(before.attack_watch, outcome, now)
            &&& after.memory == before.memory && after.state == before.state
        }),
{
}

/// The tile that the player was sent to: the last step that was taken. A step that
/// failed and a scroll that was read clear it.
pub proof fn law_last_step(
    before: Option<(i32, i32)>,
    intent: IntentView,
    outcome: LastOutcome,
    x: i32,
    y: i32,
)
    ensures
        intent == (IntentView::Walk { target_x: x, target_y: y }) && outcome is WalkOk
            ==> walk_tile_after(before, intent, outcome) == Some((x, y)),
        intent is Walk && outcome is WalkFailed ==> walk_tile_after(before, intent, outcome) is None,
        intent is UseScroll && outcome is ScrollOk ==> walk_tile_after(before, intent, outcome)
            is None,
        intent is UseScroll && !(outcome is ScrollOk) ==> walk_tile_after(before, intent, outcome)
            == before,
        !(intent is Walk) && !(intent is UseScroll) ==> walk_tile_after(before, intent, outcome)
            == before,
{
}

/// The path that is shown: of an exploration, or of an approach.
pub proof fn law_shown_path(
    lock: TargetLock,
    intent: EngageIntent,
    path: Seq<(i32, i32)>,
    goal: (i32, i32),
    state: HuntStateView,
)
    ensures
        active_path(HuntStateView::Exploring { goal, path }) == path,
        active_path(
            HuntStateView::Engaging { lock, intent: EngageIntent::Approach, path: Some(path) },
        ) == path,
        !(intent is Approach) ==> active_path(
            HuntStateView::Engaging { lock, intent, path: Some(path) },
        ).len() == 0,
        active_path(HuntStateView::Engaging { lock, intent, path: None }).len() == 0,
        !(state is Engaging) && !(state is Exploring) ==> active_path(state).len() == 0,
{
}

/// The tile that was stepped on last is avoided where the map changed, from one
/// known map to another; and nothing is learned otherwise.
pub proof fn law_portal_is_learned(
    previous: Option<u32>,
    current: Option<u32>,
    tile: Option<(i32, i32)>,
    now: Instant,
)
    ensures
        ({
            let u = portal_update(previous, current, tile, now);
            let changed = previous is Some && current is Some && previous->0 != current->0;
            &&& changed && tile is Some ==> u.add_portal_avoid_tiles == seq![(tile->0, now)]
            &&& !(changed && tile is Some) ==> u.add_portal_avoid_tiles.len() == 0
            &&& u.add_obstacles.len() == 0 && u.add_failed_targets.len() == 0
                && u.add_failed_explore_directions.len() == 0 && u.push_position is None
                && u.record_visited_tile is None && u.set_last_walk is None && !u.clear_recent_positions
        }),
{
}

/// Every position is recorded, as a visit too where the map is known, and as a move
/// where it is not the last one.
pub proof fn law_position_is_recorded(
    memory: TacticalMemory,
    pos: (i32, i32),
    map_id: Option<u32>,
    now: Instant,
)
    ensures
        ({
            let u = position_update(memory, pos, map_id, now);
            let s = memory.recent_positions@;
            &&& u.push_position == Some((pos, now))
            &&& map_id is Some ==> u.record_visited_tile == Some((map_id->0, pos, now))
            &&& map_id is None ==> u.record_visited_tile is None
            &&& s.len() > 0 && s[s.len() - 1].0 == pos.0 && s[s.len() - 1].1 == pos.1
                ==> u.set_last_position_change is None
            &&& s.len() == 0 || s[s.len() - 1].0 != pos.0 || s[s.len() - 1].1 != pos.1
                ==> u.set_last_position_change == Some(now)
            &&& u.add_obstacles.len() == 0 && u.add_failed_targets.len() == 0
                && u.add_portal_avoid_tiles.len() == 0 && !u.clear_recent_positions
                && u.set_last_walk is None && u.set_last_attack is None
        }),
{
}

proof fn lemma_entity_at(s: Seq<EntityView>, ptr: u32, from: int, k: int)
    requires
        0 <= from <= k <= s.len(),
        forall|j: int| from <= j < k ==> (#[trigger] s[j]).entity_ptr != ptr,
    ensures
        entity_at(s, ptr, from) == entity_at(s, ptr, k),
    decreases k - from,
{
    if from < k {
        assert(s[from].entity_ptr != ptr);
        lemma_entity_at(s, ptr, from + 1, k);
    }
}

proof fn lemma_entity_with_id(s: Seq<EntityView>, id: u32, from: int, k: int)
    requires
        0 <= from <= k <= s.len(),
        forall|j: int| from <= j < k ==> (#[trigger] s[j]).target_id != id,
    ensures
        entity_with_id(s, id, from) == entity_with_id(s, id, k),
    decreases k - from,
{
    if from < k {
        assert(s[from].target_id != id);
        lemma_entity_with_id(s, id, from + 1, k);
    }
}

/// What a tick reports: an attack by whom it hit, a skill by its name and whom it
/// was aimed at, a scroll by whether it was read, and a step by where to.
pub proof fn law_report_of_tick(
    r: HuntOutcome,
    intent: IntentView,
    entities: Seq<EntityView>,
    player: Option<PlayerPosition>,
    outcome: LastOutcome,
    k: int,
)
    requires
        is_outcome(r, intent, entities, player, outcome),
    ensures
        intent is Noop <==> r is NoTarget,
        intent is Walk <==> r is Walked,
        intent is BootstrapAttack || intent is CastSkill <==> r is Cast,
        intent is UseScroll && outcome is ScrollOk <==> r is Cooldown,
        intent matches IntentView::BootstrapAttack { entity_ptr, .. } ==> 0 <= k < entities.len()
            && entities[k].entity_ptr == entity_ptr && (forall|j: int|
            0 <= j < k ==> (#[trigger] entities[j]).entity_ptr != entity_ptr) ==> (
        r matches HuntOutcome::Cast { target_id, name, player_pos } && target_id
            == entities[k].target_id && name@ == entities[k].name@ && player_pos == player),
        intent matches IntentView::CastSkill { skill_name, target_id: aimed } ==> 0 <= k
            < entities.len() && entities[k].target_id == aimed && (forall|j: int|
            0 <= j < k ==> (#[trigger] entities[j]).target_id != aimed) ==> (
        r matches HuntOutcome::Cast { target_id, name, player_pos } && target_id == aimed && name@
            == skill_name + " ("@ + entities[k].name@ + ")"@ && player_pos == player),
{
    if let IntentView::BootstrapAttack { entity_ptr, .. } = intent {
        if 0 <= k < entities.len() && (forall|j: int|
            0 <= j < k ==> (#[trigger] entities[j]).entity_ptr != entity_ptr) {
            lemma_entity_at(entities, entity_ptr, 0, k);
        }
    }
    if let IntentView::CastSkill { target_id, .. } = intent {
        if 0 <= k < entities.len() && (forall|j: int|
            0 <= j < k ==> (#[trigger] entities[j]).target_id != target_id) {
            lemma_entity_with_id(entities, target_id, 0, k);
        }
    }
}

/// The update that adds nothing adds nothing.
pub proof fn law_no_update()
    ensures
        ({
            let u = no_update();
            &&& u.add_obstacles.len() == 0 && u.add_portal_avoid_tiles.len() == 0
            &&& u.add_failed_explore_directions.len() == 0 && u.add_failed_targets.len() == 0
            &&& u.push_position is None && !u.clear_recent_positions && u.record_visited_tile is None
            &&& u.set_last_walk is None && u.set_last_attack is None && u.set_last_skill_cast is None
            &&& u.set_post_skill_basic_pending is None && !u.clear_post_skill_basic_pending
            &&& u.set_last_position_change is None && u.set_last_teleport is None
            &&& u.set_no_actionable_target_since is None && !u.clear_no_actionable_target_since
            &&& !u.increment_empty_explore_walks && !u.clear_empty_explore_walks
        }),
{
}

} // verus!
