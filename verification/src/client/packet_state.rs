//! What the server's packets say of targets, for as long as it counts.
use crate::client::opcode_table::{add_capped, capped_add};
use crate::client::packet_events::{BotPacketEvent, EventView, RangeSkillTarget, ACTION_DIE};
use crate::keyed::{fresh_part, KeyedMap, Perishable};
use crate::time::Instant;
use std::collections::HashSet;
use vstd::prelude::*;

verus! {

broadcast use vstd::std_specs::hash::group_hash_axioms;

/// How long a target counts as removed or dead.
pub const RECENT_TARGET_EVENT_TTL_MS: u64 = 4_000;

/// How long a target counts as damaged.
pub const RECENT_TARGET_DAMAGE_TTL_MS: u64 = 5_000;

/// How long an attacker counts as one.
pub const RECENT_ATTACKER_TTL_MS: u64 = 10_000;

/// The ids under which the player is attacked, 0 where unknown.
#[derive(Debug, Clone, Copy, PartialEq, Eq, Structural)]
pub struct PlayerAttackTargetIds {
    pub self_char_id: u32,
    pub local_target_id: u32,
    pub local_alt_id: u32,
}

impl Default for PlayerAttackTargetIds {
    fn default() -> (r: Self)
        ensures
            r == (PlayerAttackTargetIds { self_char_id: 0, local_target_id: 0, local_alt_id: 0 }),
    {
        PlayerAttackTargetIds { self_char_id: 0, local_target_id: 0, local_alt_id: 0 }
    }
}

impl PlayerAttackTargetIds {
    pub open spec fn any_known(self) -> bool {
        self.self_char_id != 0 || self.local_target_id != 0 || self.local_alt_id != 0
    }

    pub open spec fn is_player(self, id: u32) -> bool {
        id != 0 && (id == self.self_char_id || id == self.local_target_id || id
            == self.local_alt_id)
    }

    pub fn has_any(self) -> (r: bool)
        ensures
            r == self.any_known(),
    {
        self.self_char_id != 0 || self.local_target_id != 0 || self.local_alt_id != 0
    }

    pub fn contains(self, target_id: u32) -> (r: bool)
        ensures
            r == self.is_player(target_id),
    {
        target_id != 0 && (target_id == self.self_char_id || target_id == self.local_target_id
            || target_id == self.local_alt_id)
    }
}

/// Where the client keeps the id of the player's character.
pub const SELF_CHAR_ID_ADDR: u32 = 0x00AB_F4B4;

/// Where it keeps the address of the player's own entity.
pub const LOCAL_PLAYER_PTR_ADDR: u32 = 0x00C2_D2B8;

/// Where in that entity two more ids of the player lie.
pub const LOCAL_PLAYER_ID_OFFSET: u32 = 0x0C;

pub const LOCAL_PLAYER_ALT_ID_OFFSET: u32 = 0x14;

/// The player's ids, from what could be read of them. Without the player's own
/// entity there are none in it.
pub fn player_attack_target_ids(
    self_char_id: Option<u32>,
    local_player_ptr: Option<u32>,
    local_target_id: Option<u32>,
    local_alt_id: Option<u32>,
) -> (r: PlayerAttackTargetIds)
    ensures
        r.self_char_id == (match self_char_id {
            Some(id) => id,
            None => 0,
        }),
        r.local_target_id == (match (local_player_ptr, local_target_id) {
            (Some(ptr), Some(id)) => if ptr != 0 {
                id
            } else {
                0
            },
            _ => 0,
        }),
        r.local_alt_id == (match (local_player_ptr, local_alt_id) {
            (Some(ptr), Some(id)) => if ptr != 0 {
                id
            } else {
                0
            },
            _ => 0,
        }),
{
    let has_player: bool = match local_player_ptr {
        Some(ptr) => ptr != 0,
        None => false,
    };
    PlayerAttackTargetIds {
        self_char_id: match self_char_id {
            Some(id) => id,
            None => 0,
        },
        local_target_id: match local_target_id {
            Some(id) => if has_player {
                id
            } else {
                0
            },
            None => 0,
        },
        local_alt_id: match local_alt_id {
            Some(id) => if has_player {
                id
            } else {
                0
            },
            None => 0,
        },
    }
}

/// How many of each kind of report there were.
#[derive(Debug, Clone, Copy, PartialEq, Eq, Structural)]
pub struct ParsedEventCounts {
    pub attack: usize,
    pub range_skill: usize,
    pub remove_object: usize,
    pub action_die: usize,
    pub put_object_die: usize,
    pub hp_meter: usize,
    pub damaged_targets: usize,
    pub recent_attackers: usize,
}

pub open spec fn no_counts() -> ParsedEventCounts {
    ParsedEventCounts {
        attack: 0,
        range_skill: 0,
        remove_object: 0,
        action_die: 0,
        put_object_die: 0,
        hp_meter: 0,
        damaged_targets: 0,
        recent_attackers: 0,
    }
}

impl Default for ParsedEventCounts {
    fn default() -> (r: Self)
        ensures
            r == no_counts(),
    {
        ParsedEventCounts {
            attack: 0,
            range_skill: 0,
            remove_object: 0,
            action_die: 0,
            put_object_die: 0,
            hp_meter: 0,
            damaged_targets: 0,
            recent_attackers: 0,
        }
    }
}

/// The sum of two tallies.
pub open spec fn counts_sum(a: ParsedEventCounts, b: ParsedEventCounts) -> ParsedEventCounts {
    ParsedEventCounts {
        attack: capped_add(a.attack, b.attack),
        range_skill: capped_add(a.range_skill, b.range_skill),
        remove_object: capped_add(a.remove_object, b.remove_object),
        action_die: capped_add(a.action_die, b.action_die),
        put_object_die: capped_add(a.put_object_die, b.put_object_die),
        hp_meter: capped_add(a.hp_meter, b.hp_meter),
        damaged_targets: capped_add(a.damaged_targets, b.damaged_targets),
        recent_attackers: capped_add(a.recent_attackers, b.recent_attackers),
    }
}

impl ParsedEventCounts {
    pub fn add_assign(&mut self, other: ParsedEventCounts)
        ensures
            *final(self) == counts_sum(*old(self), other),
    {
        self.attack = add_capped(self.attack, other.attack);
        self.range_skill = add_capped(self.range_skill, other.range_skill);
        self.remove_object = add_capped(self.remove_object, other.remove_object);
        self.action_die = add_capped(self.action_die, other.action_die);
        self.put_object_die = add_capped(self.put_object_die, other.put_object_die);
        self.hp_meter = add_capped(self.hp_meter, other.hp_meter);
        self.damaged_targets = add_capped(self.damaged_targets, other.damaged_targets);
        self.recent_attackers = add_capped(self.recent_attackers, other.recent_attackers);
    }

    pub fn is_empty(&self) -> (r: bool)
        ensures
            r == (*self == no_counts()),
    {
        self.attack == 0 && self.range_skill == 0 && self.remove_object == 0 && self.action_die == 0
            && self.put_object_die == 0 && self.hp_meter == 0 && self.damaged_targets == 0
            && self.recent_attackers == 0
    }
}

/// The moment from which something no longer counts.
#[derive(Debug, Clone, Copy, PartialEq, Eq, Structural)]
pub struct Expiry {
    pub at: Instant,
}

impl Perishable for Expiry {
    open spec fn fresh(&self, now: Instant, ttl_ms: u64) -> bool {
        self.at.nanos > now.nanos
    }

    fn is_fresh(&self, now: Instant, ttl_ms: u64) -> (r: bool) {
        now.is_before(self.at)
    }
}

/// What still counts at a moment.
pub open spec fn current(m: Map<u32, Expiry>, now: Instant) -> Map<u32, Expiry> {
    fresh_part(m, now, 0)
}

/// The id counts at a moment.
pub open spec fn is_recent(m: Map<u32, Expiry>, id: u32, now: Instant) -> bool {
    m.contains_key(id) && m[id].at.nanos > now.nanos
}

/// What the server's packets say of targets.
#[derive(Debug)]
pub struct PacketState {
    pub removed_or_dead: KeyedMap<u32, Expiry>,
    pub damaged: KeyedMap<u32, Expiry>,
    /// Who attacked the player.
    pub attackers: KeyedMap<u32, Expiry>,
    pub player_ids: PlayerAttackTargetIds,
    /// The target that is looked for in all packets.
    pub debug_target_id: Option<u32>,
}

/// The same as values.
#[verifier::ext_equal]
pub struct EventMaps {
    pub removed: Map<u32, Expiry>,
    pub damaged: Map<u32, Expiry>,
    pub attackers: Map<u32, Expiry>,
}

impl View for PacketState {
    type V = EventMaps;

    open spec fn view(&self) -> EventMaps {
        EventMaps {
            removed: self.removed_or_dead@,
            damaged: self.damaged@,
            attackers: self.attackers@,
        }
    }
}

impl Default for PacketState {
    fn default() -> (r: Self)
        ensures
            r@.removed == Map::<u32, Expiry>::empty(),
            r@.damaged == Map::<u32, Expiry>::empty(),
            r@.attackers == Map::<u32, Expiry>::empty(),
            r.player_ids == (PlayerAttackTargetIds {
                self_char_id: 0,
                local_target_id: 0,
                local_alt_id: 0,
            }),
            r.debug_target_id is None,
    {
        PacketState {
            removed_or_dead: KeyedMap::new(),
            damaged: KeyedMap::new(),
            attackers: KeyedMap::new(),
            player_ids: PlayerAttackTargetIds::default(),
            debug_target_id: None,
        }
    }
}

/// Sets the target that is looked for in all packets; 0 is none.
pub fn set_debug_target_id(state: &mut PacketState, target_id: Option<u32>)
    ensures
        *final(state) == (PacketState {
            debug_target_id: if target_id == Some(0u32) {
                None
            } else {
                target_id
            },
            ..*old(state)
        }),
{
    state.debug_target_id = match target_id {
        Some(id) => if id != 0 {
            Some(id)
        } else {
            None
        },
        None => None,
    };
}

/// Whether a target was removed or died a short while ago.
pub fn target_recently_removed_or_dead(state: &mut PacketState, target_id: u32, now: Instant) -> (r:
    bool)
    ensures
        r == is_recent(old(state)@.removed, target_id, now),
        final(state)@ == (EventMaps { removed: current(old(state)@.removed, now), ..old(state)@ }),
        final(state).player_ids == old(state).player_ids,
        final(state).debug_target_id == old(state).debug_target_id,
{
    state.removed_or_dead.retain_fresh(now, 0);
    assert(state@ =~= EventMaps { removed: current(old(state)@.removed, now), ..old(state)@ });
    state.removed_or_dead.contains_key(&target_id)
}

/// Whether a target was damaged a short while ago.
pub fn target_recently_damaged(state: &mut PacketState, target_id: u32, now: Instant) -> (r: bool)
    ensures
        r == is_recent(old(state)@.damaged, target_id, now),
        final(state)@ == (EventMaps { damaged: current(old(state)@.damaged, now), ..old(state)@ }),
        final(state).player_ids == old(state).player_ids,
        final(state).debug_target_id == old(state).debug_target_id,
{
    state.damaged.retain_fresh(now, 0);
    assert(state@ =~= EventMaps { damaged: current(old(state)@.damaged, now), ..old(state)@ });
    state.damaged.contains_key(&target_id)
}

/// Who attacked the player a short while ago.
pub fn recent_attackers(state: &mut PacketState, now: Instant) -> (r: HashSet<u32>)
    ensures
        forall|id: u32| #[trigger] r@.contains(id) <==> is_recent(old(state)@.attackers, id, now),
        final(state)@ == (EventMaps {
            attackers: current(old(state)@.attackers, now),
            ..old(state)@
        }),
        final(state).player_ids == old(state).player_ids,
        final(state).debug_target_id == old(state).debug_target_id,
{
    state.attackers.retain_fresh(now, 0);
    let ghost kept = state.attackers@;
    assert(state@ =~= EventMaps { attackers: current(old(state)@.attackers, now), ..old(state)@ });
    let n: usize = state.attackers.len();
    let ghost entries = state.attackers.entry_seq();
    let mut out: HashSet<u32> = HashSet::new();
    let mut i: usize = 0;
    while i < n
        invariant
            i <= n,
            n == entries.len(),
            entries == state.attackers.entry_seq(),
            kept == state.attackers@,
            forall|j: int| 0 <= j < n ==> kept.contains_key((#[trigger] entries[j]).0),
            forall|id: u32| #[trigger]
                out@.contains(id) <==> exists|j: int| 0 <= j < i && #[trigger] entries[j].0 == id,
        decreases n - i,
    {
        let entry: &(u32, Expiry) = state.attackers.entry_at(i);
        let ghost before = out@;
        out.insert(entry.0);
        proof {
            assert forall|id: u32| #[trigger] out@.contains(id) <==> exists|j: int|
                0 <= j < i + 1 && #[trigger] entries[j].0 == id by {
                if before.contains(id) {
                    let j = choose|j: int| 0 <= j < i && #[trigger] entries[j].0 == id;
                    assert(0 <= j < i + 1 && entries[j].0 == id);
                }
                if id == entry.0 {
                    assert(entries[i as int].0 == id);
                }
            }
        }
        i = i + 1;
    }
    proof {
        assert forall|id: u32| #[trigger] out@.contains(id) <==> is_recent(
            old(state)@.attackers,
            id,
            now,
        ) by {
            assert(kept.contains_key(id) <==> is_recent(old(state)@.attackers, id, now));
            if kept.contains_key(id) {
                let j = choose|j: int| 0 <= j < n && (#[trigger] entries[j]).0 == id;
                assert(entries[j].0 == id);
            }
            if out@.contains(id) {
                let j = choose|j: int| 0 <= j < i && #[trigger] entries[j].0 == id;
                assert(kept.contains_key(entries[j].0));
            }
        }
    }
    out
}

/// An attack on `target` is an attack on the player; where the player's ids are
/// unknown, every attack is taken for one.
pub open spec fn is_attack_on_player(target: u32, ids: PlayerAttackTargetIds) -> bool {
    !ids.any_known() || ids.is_player(target)
}

fn should_record_recent_attacker(target_id: u32, player_ids: PlayerAttackTargetIds) -> (r: bool)
    ensures
        r == is_attack_on_player(target_id, player_ids),
{
    !player_ids.has_any() || player_ids.contains(target_id)
}

pub open spec fn with_removed(m: EventMaps, id: u32, now: Instant) -> EventMaps {
    EventMaps {
        removed: m.removed.insert(
            id,
            Expiry { at: now.after_ms(RECENT_TARGET_EVENT_TTL_MS as int) },
        ),
        ..m
    }
}

pub open spec fn with_damaged(m: EventMaps, id: u32, now: Instant) -> EventMaps {
    EventMaps {
        damaged: current(m.damaged, now).insert(
            id,
            Expiry { at: now.after_ms(RECENT_TARGET_DAMAGE_TTL_MS as int) },
        ),
        ..m
    }
}

pub open spec fn with_attacker(m: EventMaps, id: u32, now: Instant) -> EventMaps {
    EventMaps {
        attackers: current(m.attackers, now).insert(
            id,
            Expiry { at: now.after_ms(RECENT_ATTACKER_TTL_MS as int) },
        ),
        ..m
    }
}

/// The state and the tally while reports are taken in.
#[verifier::ext_equal]
pub struct Tally {
    pub maps: EventMaps,
    pub counts: ParsedEventCounts,
}

/// An attack is counted, the attacker remembered if it was on the player, and
/// the target if it was damaged.
pub open spec fn attack_taken_in(
    t: Tally,
    attacker: u32,
    target: u32,
    damage: u16,
    now: Instant,
    ids: PlayerAttackTargetIds,
) -> Tally {
    let a = Tally {
        counts: ParsedEventCounts { attack: capped_add(t.counts.attack, 1), ..t.counts },
        ..t
    };
    let b = if is_attack_on_player(target, ids) {
        Tally {
            maps: with_attacker(a.maps, attacker, now),
            counts: ParsedEventCounts {
                recent_attackers: capped_add(a.counts.recent_attackers, 1),
                ..a.counts
            },
        }
    } else {
        a
    };
    if damage > 0 {
        Tally {
            maps: with_damaged(b.maps, target, now),
            counts: ParsedEventCounts {
                damaged_targets: capped_add(b.counts.damaged_targets, 1),
                ..b.counts
            },
        }
    } else {
        b
    }
}

/// The targets of a range skill are taken in one by one. Those that were hit
/// and damaged are remembered, and the caster with the first of them that is
/// the player.
pub open spec fn targets_taken_in(
    t: Tally,
    caster: u32,
    targets: Seq<RangeSkillTarget>,
    now: Instant,
    ids: PlayerAttackTargetIds,
) -> (Tally, bool)
    decreases targets.len(),
{
    if targets.len() == 0 {
        (t, false)
    } else {
        let (before, known) = targets_taken_in(t, caster, targets.drop_last(), now, ids);
        let x = targets.last();
        if x.hit && x.damage > 0 {
            let on_player = !known && is_attack_on_player(x.object_id, ids);
            let a = if on_player {
                Tally {
                    maps: with_attacker(before.maps, caster, now),
                    counts: ParsedEventCounts {
                        recent_attackers: capped_add(before.counts.recent_attackers, 1),
                        ..before.counts
                    },
                }
            } else {
                before
            };
            (
                Tally {
                    maps: with_damaged(a.maps, x.object_id, now),
                    counts: ParsedEventCounts {
                        damaged_targets: capped_add(a.counts.damaged_targets, 1),
                        ..a.counts
                    },
                },
                known || on_player,
            )
        } else {
            (before, known)
        }
    }
}

/// One report is taken in.
pub open spec fn taken_in(t: Tally, e: EventView, now: Instant, ids: PlayerAttackTargetIds) -> Tally {
    match e {
        EventView::RemoveObject { object_id } => Tally {
            maps: with_removed(t.maps, object_id, now),
            counts: ParsedEventCounts {
                remove_object: capped_add(t.counts.remove_object, 1),
                ..t.counts
            },
        },
        EventView::Action { object_id, action } => if action == ACTION_DIE {
            Tally {
                maps: with_removed(t.maps, object_id, now),
                counts: ParsedEventCounts {
                    action_die: capped_add(t.counts.action_die, 1),
                    ..t.counts
                },
            }
        } else {
            t
        },
        EventView::PutObject { object_id, status } => if status == ACTION_DIE {
            Tally {
                maps: with_removed(t.maps, object_id, now),
                counts: ParsedEventCounts {
                    put_object_die: capped_add(t.counts.put_object_die, 1),
                    ..t.counts
                },
            }
        } else {
            t
        },
        EventView::Attack { attacker_id, target_id, damage } => attack_taken_in(
            t,
            attacker_id,
            target_id,
            damage,
            now,
            ids,
        ),
        EventView::RangeSkill { caster_id, targets } => targets_taken_in(
            Tally {
                counts: ParsedEventCounts {
                    range_skill: capped_add(t.counts.range_skill, 1),
                    ..t.counts
                },
                ..t
            },
            caster_id,
            targets,
            now,
            ids,
        ).0,
        EventView::HpMeter { object_id, clear } => Tally {
            maps: if clear {
                t.maps
            } else {
                with_damaged(t.maps, object_id, now)
            },
            counts: ParsedEventCounts { hp_meter: capped_add(t.counts.hp_meter, 1), ..t.counts },
        },
        EventView::MoveObject { .. } => t,
    }
}

/// The reports as values.
pub open spec fn event_views(events: Seq<BotPacketEvent>) -> Seq<EventView> {
    events.map_values(|e: BotPacketEvent| e@)
}

/// Reports are taken in one by one, in their order.
pub open spec fn events_taken_in(
    t: Tally,
    events: Seq<EventView>,
    now: Instant,
    ids: PlayerAttackTargetIds,
) -> Tally
    decreases events.len(),
{
    if events.len() == 0 {
        t
    } else {
        taken_in(events_taken_in(t, events.drop_last(), now, ids), events.last(), now, ids)
    }
}

impl PacketState {
    fn record_removed_or_dead_target(&mut self, target_id: u32, now: Instant)
        requires
            now.has_room(),
        ensures
            final(self)@ == with_removed(old(self)@, target_id, now),
            final(self).player_ids == old(self).player_ids,
            final(self).debug_target_id == old(self).debug_target_id,
    {
        self.removed_or_dead.insert(
            target_id,
            Expiry { at: now.plus_ms(RECENT_TARGET_EVENT_TTL_MS) },
        );
        assert(self@ =~= with_removed(old(self)@, target_id, now));
    }

    fn record_damaged_target(&mut self, target_id: u32, now: Instant)
        requires
            now.has_room(),
        ensures
            final(self)@ == with_damaged(old(self)@, target_id, now),
            final(self).player_ids == old(self).player_ids,
            final(self).debug_target_id == old(self).debug_target_id,
    {
        self.damaged.retain_fresh(now, 0);
        self.damaged.insert(target_id, Expiry { at: now.plus_ms(RECENT_TARGET_DAMAGE_TTL_MS) });
        assert(self@ =~= with_damaged(old(self)@, target_id, now));
    }

    fn record_attack_event(
        &mut self,
        attacker_id: u32,
        target_id: u32,
        now: Instant,
        player_ids: PlayerAttackTargetIds,
    ) -> (r: bool)
        requires
            now.has_room(),
        ensures
            r == is_attack_on_player(target_id, player_ids),
            final(self)@ == (if r {
                with_attacker(old(self)@, attacker_id, now)
            } else {
                old(self)@
            }),
            final(self).player_ids == old(self).player_ids,
            final(self).debug_target_id == old(self).debug_target_id,
    {
        if !should_record_recent_attacker(target_id, player_ids) {
            return false;
        }
        self.attackers.retain_fresh(now, 0);
        self.attackers.insert(attacker_id, Expiry { at: now.plus_ms(RECENT_ATTACKER_TTL_MS) });
        assert(self@ =~= with_attacker(old(self)@, attacker_id, now));
        true
    }

    fn record_range_skill(
        &mut self,
        counts: &mut ParsedEventCounts,
        caster_id: u32,
        targets: &Vec<RangeSkillTarget>,
        now: Instant,
        player_ids: PlayerAttackTargetIds,
    )
        requires
            now.has_room(),
        ensures
            (Tally { maps: final(self)@, counts: *final(counts) }) == targets_taken_in(
                Tally { maps: old(self)@, counts: *old(counts) },
                caster_id,
                targets@,
                now,
                player_ids,
            ).0,
            final(self).player_ids == old(self).player_ids,
            final(self).debug_target_id == old(self).debug_target_id,
    {
        let ghost start = Tally { maps: self@, counts: *counts };
        let ghost ids0 = self.player_ids;
        let ghost debug0 = self.debug_target_id;
        let mut attacker_recorded: bool = false;
        let mut i: usize = 0;
        while i < targets.len()
            invariant
                now.has_room(),
                i <= targets@.len(),
                self.player_ids == ids0,
                self.debug_target_id == debug0,
                (Tally { maps: self@, counts: *counts }, attacker_recorded) == targets_taken_in(
                    start,
                    caster_id,
                    targets@.take(i as int),
                    now,
                    player_ids,
                ),
            decreases targets@.len() - i,
        {
            assert(targets@.take(i + 1).drop_last() =~= targets@.take(i as int));
            let target: RangeSkillTarget = targets[i];
            if target.hit && target.damage > 0 {
                if !attacker_recorded && self.record_attack_event(
                    caster_id,
                    target.object_id,
                    now,
                    player_ids,
                ) {
                    counts.recent_attackers = add_capped(counts.recent_attackers, 1);
                    attacker_recorded = true;
                }
                counts.damaged_targets = add_capped(counts.damaged_targets, 1);
                self.record_damaged_target(target.object_id, now);
            }
            i = i + 1;
        }
        assert(targets@.take(i as int) =~= targets@);
    }

    /// Takes in one report.
    pub fn record_event(
        &mut self,
        counts: &mut ParsedEventCounts,
        event: &BotPacketEvent,
        now: Instant,
        player_ids: PlayerAttackTargetIds,
    )
        requires
            now.has_room(),
        ensures
            (Tally { maps: final(self)@, counts: *final(counts) }) == taken_in(
                Tally { maps: old(self)@, counts: *old(counts) },
                event@,
                now,
                player_ids,
            ),
            final(self).player_ids == old(self).player_ids,
            final(self).debug_target_id == old(self).debug_target_id,
    {
        match event {
            BotPacketEvent::RemoveObject { object_id } => {
                counts.remove_object = add_capped(counts.remove_object, 1);
                self.record_removed_or_dead_target(*object_id, now);
            },
            BotPacketEvent::Action { object_id, action } => {
                if *action == ACTION_DIE {
                    counts.action_die = add_capped(counts.action_die, 1);
                    self.record_removed_or_dead_target(*object_id, now);
                }
            },
            BotPacketEvent::PutObject { object_id, status } => {
                if *status == ACTION_DIE {
                    counts.put_object_die = add_capped(counts.put_object_die, 1);
                    self.record_removed_or_dead_target(*object_id, now);
                }
            },
            BotPacketEvent::Attack { attacker_id, target_id, damage } => {
                counts.attack = add_capped(counts.attack, 1);
                if self.record_attack_event(*attacker_id, *target_id, now, player_ids) {
                    counts.recent_attackers = add_capped(counts.recent_attackers, 1);
                }
                if *damage > 0 {
                    counts.damaged_targets = add_capped(counts.damaged_targets, 1);
                    self.record_damaged_target(*target_id, now);
                }
            },
            BotPacketEvent::RangeSkill { caster_id, targets } => {
                counts.range_skill = add_capped(counts.range_skill, 1);
                self.record_range_skill(counts, *caster_id, targets, now, player_ids);
            },
            BotPacketEvent::HpMeter { object_id, clear } => {
                counts.hp_meter = add_capped(counts.hp_meter, 1);
                if !*clear {
                    self.record_damaged_target(*object_id, now);
                }
            },
            BotPacketEvent::MoveObject { .. } => {},
        }
    }
}

/// Takes in what the server's packets report, for a player known by some ids.
pub fn record_server_packet_events_at_with_player_ids(
    state: &mut PacketState,
    events: &Vec<BotPacketEvent>,
    now: Instant,
    player_ids: PlayerAttackTargetIds,
) -> (r: ParsedEventCounts)
    requires
        now.has_room(),
    ensures
        (Tally { maps: final(state)@, counts: r }) == events_taken_in(
            Tally { maps: old(state)@, counts: no_counts() },
            event_views(events@),
            now,
            player_ids,
        ),
        final(state).player_ids == old(state).player_ids,
        final(state).debug_target_id == old(state).debug_target_id,
{
    let mut counts: ParsedEventCounts = ParsedEventCounts::default();
    let ghost start = Tally { maps: state@, counts: no_counts() };
    let ghost views = event_views(events@);
    let ghost ids0 = state.player_ids;
    let ghost debug0 = state.debug_target_id;
    let mut i: usize = 0;
    while i < events.len()
        invariant
            now.has_room(),
            i <= events@.len(),
            views == event_views(events@),
            state.player_ids == ids0,
            state.debug_target_id == debug0,
            (Tally { maps: state@, counts }) == events_taken_in(
                start,
                views.take(i as int),
                now,
                player_ids,
            ),
        decreases events@.len() - i,
    {
        assert(views.take(i + 1).drop_last() =~= views.take(i as int));
        assert(views[i as int] == events@[i as int]@);
        state.record_event(&mut counts, &events[i], now, player_ids);
        i = i + 1;
    }
    assert(views.take(i as int) =~= views);
    counts
}

/// Takes in what the server's packets report, for the player as known.
pub fn record_server_packet_events_at(
    state: &mut PacketState,
    events: &Vec<BotPacketEvent>,
    now: Instant,
) -> (r: ParsedEventCounts)
    requires
        now.has_room(),
    ensures
        (Tally { maps: final(state)@, counts: r }) == events_taken_in(
            Tally { maps: old(state)@, counts: no_counts() },
            event_views(events@),
            now,
            old(state).player_ids,
        ),
        final(state).player_ids == old(state).player_ids,
        final(state).debug_target_id == old(state).debug_target_id,
{
    let ids: PlayerAttackTargetIds = state.player_ids;
    record_server_packet_events_at_with_player_ids(state, events, now, ids)
}

/// A target that is reported as removed counts as removed until its time is
/// up, and not from then on.
pub proof fn law_removed_counts_for_a_while(
    t: Tally,
    id: u32,
    now: Instant,
    later: Instant,
    ids: PlayerAttackTargetIds,
)
    requires
        now.has_room(),
    ensures
        is_recent(
            taken_in(t, EventView::RemoveObject { object_id: id }, now, ids).maps.removed,
            id,
            later,
        ) <==> later.nanos < now.nanos + crate::time::ms_nanos(RECENT_TARGET_EVENT_TTL_MS as int),
{
}

/// A target that is put on the map dying counts as dead until its time is up,
/// and not from then on; put there in any other state it changes nothing.
pub proof fn law_put_object_counts_when_dying(
    t: Tally,
    id: u32,
    status: u8,
    now: Instant,
    later: Instant,
    ids: PlayerAttackTargetIds,
)
    requires
        now.has_room(),
    ensures
        ({
            let after = taken_in(t, EventView::PutObject { object_id: id, status }, now, ids);
            if status == ACTION_DIE {
                &&& is_recent(after.maps.removed, id, later) <==> later.nanos < now.nanos
                    + crate::time::ms_nanos(RECENT_TARGET_EVENT_TTL_MS as int)
                &&& after.counts.put_object_die == capped_add(t.counts.put_object_die, 1)
            } else {
                after == t
            }
        }),
{
}

/// An attack with damage counts for the target and, on the player, for the
/// attacker; one without damage only for the attacker.
pub proof fn law_attack_counts(
    t: Tally,
    attacker: u32,
    target: u32,
    damage: u16,
    now: Instant,
    later: Instant,
    ids: PlayerAttackTargetIds,
)
    requires
        now.has_room(),
    ensures
        ({
            let after = taken_in(
                t,
                EventView::Attack { attacker_id: attacker, target_id: target, damage },
                now,
                ids,
            );
            &&& damage > 0 ==> (is_recent(after.maps.damaged, target, later) <==> later.nanos
                < now.nanos + crate::time::ms_nanos(RECENT_TARGET_DAMAGE_TTL_MS as int))
            &&& damage == 0 ==> after.maps.damaged == t.maps.damaged
            &&& is_attack_on_player(target, ids) ==> (is_recent(
                after.maps.attackers,
                attacker,
                later,
            ) <==> later.nanos < now.nanos + crate::time::ms_nanos(RECENT_ATTACKER_TTL_MS as int))
            &&& !is_attack_on_player(target, ids) ==> after.maps.attackers == t.maps.attackers
        }),
{
}

} // verus!
