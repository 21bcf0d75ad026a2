//! What a batch of reports means for every target and every moment after it.
use crate::client::packet_events::{EventView, RangeSkillTarget};
use crate::client::packet_state::{
    counts_sum, current, events_taken_in, is_recent, taken_in, targets_taken_in, Expiry,
    ParsedEventCounts, PlayerAttackTargetIds, Tally,
};
use crate::time::Instant;
use vstd::prelude::*;

verus! {

/// The report is that a target is gone: it was taken off the map, or it is seen
/// dying. The action of dying is the eighth.
pub open spec fn reports_gone(e: EventView, id: u32) -> bool {
    match e {
        EventView::RemoveObject { object_id } => object_id == id,
        EventView::Action { object_id, action } => object_id == id && action == 8,
        EventView::PutObject { object_id, status } => object_id == id && status == 8,
        _ => false,
    }
}

/// A target of a skill that it hurt.
pub open spec fn hurt(x: RangeSkillTarget) -> bool {
    x.hit && x.damage != 0
}

/// The report is that a target was hurt: by a blow, by a skill that hit it among
/// others, or seen from its meter.
pub open spec fn reports_hurt(e: EventView, id: u32) -> bool {
    match e {
        EventView::Attack { target_id, damage, .. } => target_id == id && damage != 0,
        EventView::RangeSkill { targets, .. } => exists|i: int|
            0 <= i < targets.len() && hurt(#[trigger] targets[i]) && targets[i].object_id == id,
        EventView::HpMeter { object_id, clear } => object_id == id && !clear,
        _ => false,
    }
}

/// The one that is attacked may be the player: it has one of the player's ids, or
/// none of them is known.
pub open spec fn may_be_player(id: u32, ids: PlayerAttackTargetIds) -> bool {
    ||| ids.self_char_id == 0 && ids.local_target_id == 0 && ids.local_alt_id == 0
    ||| id != 0 && (ids.self_char_id == id || ids.local_target_id == id || ids.local_alt_id == id)
}

/// The report is that `id` attacked the player: with a blow, or with a skill that
/// hurt the player among others.
pub open spec fn reports_attacker(e: EventView, id: u32, ids: PlayerAttackTargetIds) -> bool {
    match e {
        EventView::Attack { attacker_id, target_id, .. } => attacker_id == id && may_be_player(
            target_id,
            ids,
        ),
        EventView::RangeSkill { caster_id, targets } => caster_id == id && exists|i: int|
            0 <= i < targets.len() && hurt(#[trigger] targets[i]) && may_be_player(
                targets[i].object_id,
                ids,
            ),
        _ => false,
    }
}

proof fn lemma_range_skill(
    t: Tally,
    caster: u32,
    targets: Seq<RangeSkillTarget>,
    now: Instant,
    ids: PlayerAttackTargetIds,
    id: u32,
    later: Instant,
)
    requires
        now.has_room(),
        now.nanos <= later.nanos,
    ensures
        ({
            let after = targets_taken_in(t, caster, targets, now, ids);
            let struck = exists|i: int|
                0 <= i < targets.len() && hurt(#[trigger] targets[i]) && targets[i].object_id == id;
            let on_player = exists|i: int|
                0 <= i < targets.len() && hurt(#[trigger] targets[i]) && may_be_player(
                    targets[i].object_id,
                    ids,
                );
            &&& after.1 == on_player
            &&& after.0.maps.removed == t.maps.removed
            &&& is_recent(after.0.maps.damaged, id, later) == (if struck {
                later.nanos < now.nanos + 5_000_000_000
            } else {
                is_recent(t.maps.damaged, id, later)
            })
            &&& is_recent(after.0.maps.attackers, id, later) == (if on_player && caster == id {
                later.nanos < now.nanos + 10_000_000_000
            } else {
                is_recent(t.maps.attackers, id, later)
            })
        }),
    decreases targets.len(),
{
    if targets.len() > 0 {
        let before = targets.drop_last();
        lemma_range_skill(t, caster, before, now, ids, id, later);
        assert(targets =~= before.push(targets.last()));
        assert forall|i: int| 0 <= i < before.len() implies before[i] == targets[i] by {}
        let struck0 = exists|i: int|
            0 <= i < before.len() && hurt(#[trigger] before[i]) && before[i].object_id == id;
        if struck0 {
            let i = choose|i: int|
                0 <= i < before.len() && hurt(#[trigger] before[i]) && before[i].object_id == id;
            assert(hurt(targets[i]));
        }
        let on_player0 = exists|i: int|
            0 <= i < before.len() && hurt(#[trigger] before[i]) && may_be_player(
                before[i].object_id,
                ids,
            );
        if on_player0 {
            let i = choose|i: int|
                0 <= i < before.len() && hurt(#[trigger] before[i]) && may_be_player(
                    before[i].object_id,
                    ids,
                );
            assert(hurt(targets[i]));
        }
        assert(targets[targets.len() - 1] == targets.last());
        assert forall|i: int| 0 <= i < targets.len() && hurt(#[trigger] targets[i]) implies i
            == targets.len() - 1 || hurt(before[i]) by {}
    }
}

/// After any reports, whatever is asked of any target at any later moment: it
/// counts as gone for four seconds if one of the reports says so, and otherwise
/// as before; as hurt for five seconds in the same way; and as an attacker of
/// the player for ten.
pub proof fn law_reports_count_for_their_time(
    t: Tally,
    events: Seq<EventView>,
    now: Instant,
    ids: PlayerAttackTargetIds,
    id: u32,
    later: Instant,
)
    requires
        now.has_room(),
        now.nanos <= later.nanos,
    ensures
        ({
            let after = events_taken_in(t, events, now, ids).maps;
            let gone = exists|i: int| 0 <= i < events.len() && reports_gone(#[trigger] events[i], id);
            let harmed = exists|i: int|
                0 <= i < events.len() && reports_hurt(#[trigger] events[i], id);
            let attacker = exists|i: int|
                0 <= i < events.len() && reports_attacker(#[trigger] events[i], id, ids);
            &&& is_recent(after.removed, id, later) == (if gone {
                later.nanos < now.nanos + 4_000_000_000
            } else {
                is_recent(t.maps.removed, id, later)
            })
            &&& is_recent(after.damaged, id, later) == (if harmed {
                later.nanos < now.nanos + 5_000_000_000
            } else {
                is_recent(t.maps.damaged, id, later)
            })
            &&& is_recent(after.attackers, id, later) == (if attacker {
                later.nanos < now.nanos + 10_000_000_000
            } else {
                is_recent(t.maps.attackers, id, later)
            })
        }),
    decreases events.len(),
{
    if events.len() > 0 {
        let before = events.drop_last();
        let e = events.last();
        law_reports_count_for_their_time(t, before, now, ids, id, later);
        let mid = events_taken_in(t, before, now, ids);
        if let EventView::RangeSkill { caster_id, targets } = e {
            let counted = Tally {
                counts: ParsedEventCounts {
                    range_skill: crate::client::opcode_table::capped_add(
                        mid.counts.range_skill,
                        1,
                    ),
                    ..mid.counts
                },
                ..mid
            };
            lemma_range_skill(counted, caster_id, targets, now, ids, id, later);
        }
        assert(events[events.len() - 1] == e);
        assert forall|i: int| 0 <= i < before.len() implies before[i] == events[i] by {}
        if exists|i: int| 0 <= i < before.len() && reports_gone(#[trigger] before[i], id) {
            let i = choose|i: int| 0 <= i < before.len() && reports_gone(#[trigger] before[i], id);
            assert(reports_gone(events[i], id));
        }
        if exists|i: int| 0 <= i < before.len() && reports_hurt(#[trigger] before[i], id) {
            let i = choose|i: int| 0 <= i < before.len() && reports_hurt(#[trigger] before[i], id);
            assert(reports_hurt(events[i], id));
        }
        if exists|i: int| 0 <= i < before.len() && reports_attacker(#[trigger] before[i], id, ids) {
            let i = choose|i: int|
                0 <= i < before.len() && reports_attacker(#[trigger] before[i], id, ids);
            assert(reports_attacker(events[i], id, ids));
        }
        assert forall|i: int| 0 <= i < events.len() - 1 implies reports_gone(
            #[trigger] events[i],
            id,
        ) == reports_gone(before[i], id) by {}
        assert forall|i: int| 0 <= i < events.len() - 1 implies reports_hurt(
            #[trigger] events[i],
            id,
        ) == reports_hurt(before[i], id) by {}
        assert forall|i: int| 0 <= i < events.len() - 1 implies reports_attacker(
            #[trigger] events[i],
            id,
            ids,
        ) == reports_attacker(before[i], id, ids) by {}
    }
}

/// The number of targets that a skill hurt.
pub open spec fn number_hurt(targets: Seq<RangeSkillTarget>) -> nat {
    targets.filter(|x: RangeSkillTarget| hurt(x)).len()
}

/// A count after `n` more, which stops at the largest number.
pub open spec fn count_up(before: usize, n: nat) -> int {
    if before + n <= usize::MAX {
        before + n
    } else {
        usize::MAX as int
    }
}

proof fn lemma_range_skill_counts(
    t: Tally,
    caster: u32,
    targets: Seq<RangeSkillTarget>,
    now: Instant,
    ids: PlayerAttackTargetIds,
)
    ensures
        ({
            let after = targets_taken_in(t, caster, targets, now, ids);
            let on_player = exists|i: int|
                0 <= i < targets.len() && hurt(#[trigger] targets[i]) && may_be_player(
                    targets[i].object_id,
                    ids,
                );
            &&& after.1 == on_player
            &&& after.0.counts == (ParsedEventCounts {
                damaged_targets: count_up(t.counts.damaged_targets, number_hurt(targets)) as usize,
                recent_attackers: count_up(
                    t.counts.recent_attackers,
                    if on_player {
                        1
                    } else {
                        0
                    },
                ) as usize,
                ..t.counts
            })
        }),
    decreases targets.len(),
{
    reveal(Seq::filter);
    if targets.len() > 0 {
        let before = targets.drop_last();
        lemma_range_skill_counts(t, caster, before, now, ids);
        assert forall|i: int| 0 <= i < before.len() implies before[i] == targets[i] by {}
        assert(targets[targets.len() - 1] == targets.last());
        let on_player0 = exists|i: int|
            0 <= i < before.len() && hurt(#[trigger] before[i]) && may_be_player(
                before[i].object_id,
                ids,
            );
        if on_player0 {
            let i = choose|i: int|
                0 <= i < before.len() && hurt(#[trigger] before[i]) && may_be_player(
                    before[i].object_id,
                    ids,
                );
            assert(hurt(targets[i]));
        }
        assert forall|i: int| 0 <= i < targets.len() && hurt(#[trigger] targets[i]) implies i
            == targets.len() - 1 || hurt(before[i]) by {}
    }
}

/// What one report adds to the counts: one to the count of its kind, where dying
/// is asked for only if it is dying; one to the damaged for every target that it
/// hurts, but for a meter; and one to the attackers if it tells of one.
pub proof fn law_reports_are_counted(
    t: Tally,
    e: EventView,
    now: Instant,
    ids: PlayerAttackTargetIds,
)
    ensures
        ({
            let b = t.counts;
            let a = taken_in(t, e, now, ids).counts;
            let kind = |is: bool| if is { 1nat } else { 0nat };
            &&& a.attack == count_up(b.attack, kind(e is Attack))
            &&& a.range_skill == count_up(b.range_skill, kind(e is RangeSkill))
            &&& a.remove_object == count_up(b.remove_object, kind(e is RemoveObject))
            &&& a.action_die == count_up(
                b.action_die,
                kind(e matches EventView::Action { action, .. } && action == 8),
            )
            &&& a.put_object_die == count_up(
                b.put_object_die,
                kind(e matches EventView::PutObject { status, .. } && status == 8),
            )
            &&& a.hp_meter == count_up(b.hp_meter, kind(e is HpMeter))
            &&& a.damaged_targets == count_up(
                b.damaged_targets,
                match e {
                    EventView::Attack { damage, .. } => kind(damage != 0),
                    EventView::RangeSkill { targets, .. } => number_hurt(targets),
                    _ => 0,
                },
            )
            &&& a.recent_attackers == count_up(
                b.recent_attackers,
                kind(exists|id: u32| reports_attacker(e, id, ids)),
            )
        }),
{
    if let EventView::RangeSkill { caster_id, targets } = e {
        let counted = Tally {
            counts: ParsedEventCounts {
                range_skill: crate::client::opcode_table::capped_add(t.counts.range_skill, 1),
                ..t.counts
            },
            ..t
        };
        lemma_range_skill_counts(counted, caster_id, targets, now, ids);
        let on_player = exists|i: int|
            0 <= i < targets.len() && hurt(#[trigger] targets[i]) && may_be_player(
                targets[i].object_id,
                ids,
            );
        if on_player {
            assert(reports_attacker(e, caster_id, ids));
        }
    }
    if let EventView::Attack { attacker_id, target_id, .. } = e {
        if may_be_player(target_id, ids) {
            assert(reports_attacker(e, attacker_id, ids));
        }
    }
}

/// Reports are taken in all, one after the other: some reports and then more are
/// taken in as all of them together, one on its own as itself, and none change
/// nothing.
pub proof fn law_reports_add_up(
    t: Tally,
    first: Seq<EventView>,
    rest: Seq<EventView>,
    now: Instant,
    ids: PlayerAttackTargetIds,
)
    ensures
        events_taken_in(t, first + rest, now, ids) == events_taken_in(
            events_taken_in(t, first, now, ids),
            rest,
            now,
            ids,
        ),
        rest.len() == 1 ==> events_taken_in(t, rest, now, ids) == taken_in(t, rest[0], now, ids),
        rest.len() == 0 ==> events_taken_in(t, rest, now, ids) == t,
    decreases rest.len(),
{
    if rest.len() == 0 {
        assert(first + rest =~= first);
    } else {
        law_reports_add_up(t, first, rest.drop_last(), now, ids);
        assert((first + rest).drop_last() =~= first + rest.drop_last());
        if rest.len() == 1 {
            assert(rest.drop_last().len() == 0);
        }
    }
}

/// Asking changes no later answer: what is forgotten would not count any more.
pub proof fn law_asking_changes_no_answer(
    m: Map<u32, Expiry>,
    now: Instant,
    id: u32,
    later: Instant,
)
    requires
        now.nanos <= later.nanos,
    ensures
        is_recent(current(m, now), id, later) == is_recent(m, id, later),
        is_recent(m, id, later) == (m.dom().contains(id) && later.nanos < m[id].at.nanos),
{
}

/// Two tallies add up number by number, each up to the largest number.
pub proof fn law_tallies_add_up(a: ParsedEventCounts, b: ParsedEventCounts)
    ensures
        ({
            let s = counts_sum(a, b);
            &&& s.attack == count_up(a.attack, b.attack as nat)
            &&& s.range_skill == count_up(a.range_skill, b.range_skill as nat)
            &&& s.remove_object == count_up(a.remove_object, b.remove_object as nat)
            &&& s.action_die == count_up(a.action_die, b.action_die as nat)
            &&& s.put_object_die == count_up(a.put_object_die, b.put_object_die as nat)
            &&& s.hp_meter == count_up(a.hp_meter, b.hp_meter as nat)
            &&& s.damaged_targets == count_up(a.damaged_targets, b.damaged_targets as nat)
            &&& s.recent_attackers == count_up(a.recent_attackers, b.recent_attackers as nat)
        }),
{
}

} // verus!
