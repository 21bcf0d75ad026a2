//! What holds of every update of the memory.
use crate::hunt4::memory::{
    direction_to, escalated, is_applied, no_update, with_all, with_failures, ExploreDirectionKey,
    FailureRecord, MemoryUpdateView, TacticalMemory, FAILED_EXPLORE_DIRECTION_TTL_MS, OBSTACLE_TTL_MS, PORTAL_AVOID_TTL_MS,
    POSITION_HISTORY_CAP, REPEATED_FAILED_TARGET_TTL_MS,
};
use crate::time::{elapsed, ms_nanos, Instant};
use vstd::prelude::*;

verus! {

/// A map with no key among some insertions keeps what it says of that key.
proof fn lemma_untouched<K, V>(m: Map<K, V>, added: Seq<(K, V)>, key: K)
    requires
        forall|i: int| 0 <= i < added.len() ==> (#[trigger] added[i]).0 != key,
    ensures
        with_all(m, added).contains_key(key) == m.contains_key(key),
        m.contains_key(key) ==> with_all(m, added)[key] == m[key],
    decreases added.len(),
{
    if added.len() > 0 {
        assert(added.last().0 != key);
        assert forall|i: int| 0 <= i < added.drop_last().len() implies (
        #[trigger] added.drop_last()[i]).0 != key by {
            assert(added[i].0 != key);
        }
        lemma_untouched(m, added.drop_last(), key);
    }
}

/// Insertions of one and the same value for a key leave that value.
proof fn lemma_added<K, V>(m: Map<K, V>, added: Seq<(K, V)>, key: K, value: V)
    requires
        added.contains((key, value)),
        forall|i: int| 0 <= i < added.len() && (#[trigger] added[i]).0 == key ==> added[i].1 == value,
    ensures
        with_all(m, added).contains_key(key),
        with_all(m, added)[key] == value,
    decreases added.len(),
{
    let last = added.last();
    assert(last == added[added.len() - 1]);
    if last.0 != key {
        let i = choose|i: int| 0 <= i < added.len() && added[i] == (key, value);
        assert(added.drop_last()[i] == (key, value));
        assert forall|i: int|
            0 <= i < added.drop_last().len() && (#[trigger] added.drop_last()[i]).0
                == key implies added.drop_last()[i].1 == value by {
            assert(added[i].0 == key);
        }
        lemma_added(m, added.drop_last(), key, value);
    }
}

/// A tile that was found blocked counts as an obstacle from then on until its
/// time is over.
pub proof fn law_obstacle_lasts(
    before: TacticalMemory,
    u: MemoryUpdateView,
    now: Instant,
    after: TacticalMemory,
    tile: (i32, i32),
    later: Instant,
)
    requires
        is_applied(before, u, now, after),
        u.add_obstacles.contains((tile, now)),
        forall|i: int|
            0 <= i < u.add_obstacles.len() && (#[trigger] u.add_obstacles[i]).0 == tile
                ==> u.add_obstacles[i].1 == now,
        elapsed(later, now) < ms_nanos(OBSTACLE_TTL_MS as int),
    ensures
        after.obstacle_at(tile, later),
{
    lemma_added(before.obstacles@, u.add_obstacles, tile, now);
}

/// A tile that leads to another map is avoided from then on until its time is
/// over.
pub proof fn law_portal_avoided(
    before: TacticalMemory,
    u: MemoryUpdateView,
    now: Instant,
    after: TacticalMemory,
    tile: (i32, i32),
    later: Instant,
)
    requires
        is_applied(before, u, now, after),
        u.add_portal_avoid_tiles.contains((tile, now)),
        forall|i: int|
            0 <= i < u.add_portal_avoid_tiles.len() && (#[trigger] u.add_portal_avoid_tiles[i]).0
                == tile ==> u.add_portal_avoid_tiles[i].1 == now,
        elapsed(later, now) < ms_nanos(PORTAL_AVOID_TTL_MS as int),
    ensures
        after.obstacle_at(tile, later),
{
    lemma_added(before.portal_avoid_tiles@, u.add_portal_avoid_tiles, tile, now);
}

/// An update drops exactly what no question would find any more: a tile that it
/// does not name is an obstacle afterwards, at any later moment, just as before.
pub proof fn law_forgetting_is_invisible(
    before: TacticalMemory,
    u: MemoryUpdateView,
    now: Instant,
    after: TacticalMemory,
    tile: (i32, i32),
    later: Instant,
)
    requires
        is_applied(before, u, now, after),
        forall|i: int| 0 <= i < u.add_obstacles.len() ==> (#[trigger] u.add_obstacles[i]).0 != tile,
        forall|i: int|
            0 <= i < u.add_portal_avoid_tiles.len() ==> (#[trigger] u.add_portal_avoid_tiles[i]).0
                != tile,
        now.nanos <= later.nanos,
    ensures
        after.obstacle_at(tile, later) == before.obstacle_at(tile, later),
{
    lemma_untouched(before.obstacles@, u.add_obstacles, tile);
    lemma_untouched(before.portal_avoid_tiles@, u.add_portal_avoid_tiles, tile);
}

/// Nothing stale stays.
pub proof fn law_stale_is_forgotten(
    before: TacticalMemory,
    u: MemoryUpdateView,
    now: Instant,
    after: TacticalMemory,
)
    requires
        is_applied(before, u, now, after),
    ensures
        forall|tile: (i32, i32)| #[trigger]
            after.obstacles@.contains_key(tile) ==> elapsed(now, after.obstacles@[tile]) < ms_nanos(
                OBSTACLE_TTL_MS as int,
            ),
        forall|tile: (i32, i32)| #[trigger]
            after.portal_avoid_tiles@.contains_key(tile) ==> elapsed(
                now,
                after.portal_avoid_tiles@[tile],
            ) < ms_nanos(PORTAL_AVOID_TTL_MS as int),
        forall|key| #[trigger]
            after.failed_explore_directions@.contains_key(key) ==> elapsed(
                now,
                after.failed_explore_directions@[key],
            ) < ms_nanos(FAILED_EXPLORE_DIRECTION_TTL_MS as int),
        forall|id: u32| #[trigger]
            after.failed_targets@.contains_key(id) ==> after.failed_targets@[id].until.nanos
                > now.nanos,
{
}

/// The history of positions never outgrows its bound.
pub proof fn law_history_bounded(
    before: TacticalMemory,
    u: MemoryUpdateView,
    now: Instant,
    after: TacticalMemory,
)
    requires
        is_applied(before, u, now, after),
        before.recent_positions@.len() <= POSITION_HISTORY_CAP,
    ensures
        after.recent_positions@.len() <= POSITION_HISTORY_CAP,
{
}

/// A position that is recorded is the newest of the history.
pub proof fn law_newest_position(
    before: TacticalMemory,
    u: MemoryUpdateView,
    now: Instant,
    after: TacticalMemory,
    pos: (i32, i32),
    at: Instant,
)
    requires
        is_applied(before, u, now, after),
        u.push_position == Some((pos, at)),
        !u.clear_recent_positions,
    ensures
        after.recent_positions@.len() > 0,
        after.recent_positions@.last() == (pos.0, pos.1, at),
{
}

/// A target that failed is left alone until the moment that was set, or longer
/// where it was being left alone already.
pub proof fn law_failed_target_left_alone(
    before: TacticalMemory,
    u: MemoryUpdateView,
    now: Instant,
    after: TacticalMemory,
    id: u32,
    rec: FailureRecord,
    later: Instant,
)
    requires
        is_applied(before, u, now, after),
        u.add_failed_targets == seq![(id, rec)],
        now.has_room(),
        now.nanos <= later.nanos,
    ensures
        later.nanos < rec.until.nanos ==> after.target_failed(id, later),
        before.target_failed(id, now) && later.nanos < now.after_ms(
            REPEATED_FAILED_TARGET_TTL_MS as int,
        ).nanos ==> after.target_failed(id, later),
        !before.target_failed(id, now) && later.nanos >= rec.until.nanos ==> !after.target_failed(
            id,
            later,
        ),
{
    let added = u.add_failed_targets;
    assert(added.drop_last() =~= seq![]);
    assert(with_failures(before.failed_targets@, added.drop_last(), now) == before.failed_targets@);
    assert(with_failures(before.failed_targets@, added, now) == before.failed_targets@.insert(
        id,
        escalated(before.failed_targets@, id, rec, now),
    ));
}

/// A recorded visit counts one more for its tile, up to the largest count, and
/// leaves the counts of the others.
pub proof fn law_visits_count(
    before: TacticalMemory,
    u: MemoryUpdateView,
    now: Instant,
    after: TacticalMemory,
    map_id: u32,
    pos: (i32, i32),
    at: Instant,
)
    requires
        is_applied(before, u, now, after),
        u.record_visited_tile == Some((map_id, pos, at)),
    ensures
        after.visits(map_id, pos) == if before.visits(map_id, pos) < u16::MAX {
            before.visits(map_id, pos) + 1
        } else {
            u16::MAX as int
        },
        forall|other_map: u32, other: (i32, i32)|
            other_map != map_id || other != pos ==> #[trigger] after.visits(other_map, other)
                == before.visits(other_map, other),
{
    assert forall|other_map: u32, other: (i32, i32)|
        other_map != map_id || other != pos implies #[trigger] after.visits(other_map, other)
        == before.visits(other_map, other) by {
        if (other_map, other.0, other.1) == (map_id, pos.0, pos.1) {
            assert(other == pos);
        }
    }
}

/// An empty update changes the answer to no question: what is remembered now is
/// remembered then.
pub proof fn law_empty_update(before: TacticalMemory, now: Instant, after: TacticalMemory)
    requires
        is_applied(before, no_update(), now, after),
    ensures
        after.recent_positions@ == before.recent_positions@,
        after.visited_tiles@ == before.visited_tiles@,
        after.last_walk == before.last_walk,
        after.last_attack == before.last_attack,
        after.last_skill_cast == before.last_skill_cast,
        after.last_teleport == before.last_teleport,
        after.empty_explore_walks == before.empty_explore_walks,
        after.post_skill_basic_pending_target == before.post_skill_basic_pending_target,
        forall|id: u32, later: Instant|
            now.nanos <= later.nanos ==> #[trigger] after.target_failed(id, later)
                == before.target_failed(id, later),
        forall|tile: (i32, i32), later: Instant|
            now.nanos <= later.nanos ==> #[trigger] after.obstacle_at(tile, later)
                == before.obstacle_at(tile, later),
        forall|origin: (i32, i32), goal: (i32, i32), later: Instant|
            now.nanos <= later.nanos ==> #[trigger] after.direction_failed(origin, goal, later)
                == before.direction_failed(origin, goal, later),
{
    assert forall|origin: (i32, i32), goal: (i32, i32), later: Instant|
        now.nanos <= later.nanos implies #[trigger] after.direction_failed(origin, goal, later)
        == before.direction_failed(origin, goal, later) by {
        if before.direction_failed(origin, goal, later) {
            let key = choose|key: ExploreDirectionKey| #[trigger]
                before.failed_explore_directions@.contains_key(key) && TacticalMemory::rules_out(
                    key,
                    before.failed_explore_directions@[key],
                    origin,
                    direction_to(origin, goal)->0,
                    later,
                );
            assert(after.failed_explore_directions@.contains_key(key));
        }
    }
    assert forall|tile: (i32, i32), later: Instant|
        now.nanos <= later.nanos implies #[trigger] after.obstacle_at(tile, later)
        == before.obstacle_at(tile, later) by {
        law_forgetting_is_invisible(before, no_update(), now, after, tile, later);
    }
}

/// Less than so many milliseconds have gone by since a moment.
pub open spec fn less_than_ms(at: Instant, now: Instant, ms: int) -> bool {
    now.nanos < at.nanos + ms * 1_000_000
}

/// A tile is an obstacle for six seconds after it was found blocked, and for ten
/// minutes after it led to another map, and at no other time.
pub proof fn law_what_is_an_obstacle(m: TacticalMemory, tile: (i32, i32), now: Instant)
    ensures
        m.obstacle_at(tile, now) <==> {
            ||| m.obstacles@.contains_key(tile) && less_than_ms(m.obstacles@[tile], now, 6_000)
            ||| m.portal_avoid_tiles@.contains_key(tile) && less_than_ms(
                m.portal_avoid_tiles@[tile],
                now,
                600_000,
            )
        },
{
}

/// A target is left alone while its moment has not come.
pub proof fn law_who_is_left_alone(m: TacticalMemory, id: u32, now: Instant)
    ensures
        m.target_failed(id, now) <==> m.failed_targets@.contains_key(id) && now.nanos
            < m.failed_targets@[id].until.nanos,
{
}

/// A direction leads from one tile towards another.
pub open spec fn leads_to(direction: (i8, i8), from: (i32, i32), to: (i32, i32)) -> bool {
    &&& -1 <= direction.0 <= 1 && -1 <= direction.1 <= 1
    &&& direction.0 > 0 <==> to.0 > from.0
    &&& direction.0 < 0 <==> to.0 < from.0
    &&& direction.1 > 0 <==> to.1 > from.1
    &&& direction.1 < 0 <==> to.1 < from.1
}

/// A recorded failure tells against going from one tile to another: it is less
/// than eight seconds old, was made within three steps, and in that direction.
pub open spec fn tells_against(
    m: TacticalMemory,
    key: ExploreDirectionKey,
    origin: (i32, i32),
    goal: (i32, i32),
    now: Instant,
) -> bool {
    &&& m.failed_explore_directions@.contains_key(key)
    &&& less_than_ms(m.failed_explore_directions@[key], now, 8_000)
    &&& -3 <= key.origin.0 - origin.0 <= 3 && -3 <= key.origin.1 - origin.1 <= 3
    &&& leads_to(key.direction, origin, goal)
}

/// A direction has failed where a recorded failure tells against it, and only
/// there.
pub proof fn law_failed_direction(
    m: TacticalMemory,
    origin: (i32, i32),
    goal: (i32, i32),
    now: Instant,
)
    ensures
        m.direction_failed(origin, goal, now) <==> origin != goal && exists|
            key: ExploreDirectionKey,
        | #[trigger]
            tells_against(m, key, origin, goal, now),
{
    if m.direction_failed(origin, goal, now) {
        let key = choose|key: ExploreDirectionKey| #[trigger]
            m.failed_explore_directions@.contains_key(key) && TacticalMemory::rules_out(
                key,
                m.failed_explore_directions@[key],
                origin,
                direction_to(origin, goal)->0,
                now,
            );
        assert(tells_against(m, key, origin, goal, now));
    }
    if origin != goal && exists|key: ExploreDirectionKey| #[trigger]
        tells_against(m, key, origin, goal, now) {
        let key = choose|key: ExploreDirectionKey| #[trigger]
            tells_against(m, key, origin, goal, now);
        assert(m.failed_explore_directions@.contains_key(key) && TacticalMemory::rules_out(
            key,
            m.failed_explore_directions@[key],
            origin,
            direction_to(origin, goal)->0,
            now,
        ));
    }
}

/// The direction from one tile to another leads there.
pub proof fn law_direction_to(origin: (i32, i32), goal: (i32, i32))
    ensures
        direction_to(origin, goal) is None <==> origin == goal,
        origin != goal ==> leads_to(direction_to(origin, goal)->0, origin, goal),
{
}

/// Of several insertions for one key the last counts, and others leave it.
pub proof fn law_last_insertion_counts<K, V>(m: Map<K, V>, added: Seq<(K, V)>, key: K, k: int)
    ensures
        0 <= k < added.len() && added[k].0 == key && (forall|j: int|
            k < j < added.len() ==> (#[trigger] added[j]).0 != key) ==> with_all(
            m,
            added,
        ).contains_key(key) && with_all(m, added)[key] == added[k].1,
        (forall|j: int| 0 <= j < added.len() ==> (#[trigger] added[j]).0 != key) ==> with_all(
            m,
            added,
        ).contains_key(key) == m.contains_key(key) && (m.contains_key(key) ==> with_all(
            m,
            added,
        )[key] == m[key]),
    decreases added.len(),
{
    if added.len() > 0 {
        let rest = added.drop_last();
        law_last_insertion_counts(m, rest, key, k);
        assert(added.last() == added[added.len() - 1]);
        assert forall|j: int| 0 <= j < rest.len() implies #[trigger] rest[j] == added[j] by {}
    }
}

/// After an update there is of each kind what was there or was added and is not
/// too old: obstacles for six seconds, portals for ten minutes, directions for
/// eight seconds, and targets until their moment.
pub proof fn law_what_an_update_leaves(
    before: TacticalMemory,
    u: MemoryUpdateView,
    now: Instant,
    after: TacticalMemory,
    tile: (i32, i32),
    key: ExploreDirectionKey,
    id: u32,
)
    requires
        is_applied(before, u, now, after),
    ensures
        ({
            let o = with_all(before.obstacles@, u.add_obstacles);
            let p = with_all(before.portal_avoid_tiles@, u.add_portal_avoid_tiles);
            let d = with_all(before.failed_explore_directions@, u.add_failed_explore_directions);
            let t = with_failures(before.failed_targets@, u.add_failed_targets, now);
            &&& after.obstacles@.contains_key(tile) <==> o.contains_key(tile) && less_than_ms(
                o[tile],
                now,
                6_000,
            )
            &&& after.obstacles@.contains_key(tile) ==> after.obstacles@[tile] == o[tile]
            &&& after.portal_avoid_tiles@.contains_key(tile) <==> p.contains_key(tile)
                && less_than_ms(p[tile], now, 600_000)
            &&& after.portal_avoid_tiles@.contains_key(tile) ==> after.portal_avoid_tiles@[tile]
                == p[tile]
            &&& after.failed_explore_directions@.contains_key(key) <==> d.contains_key(key)
                && less_than_ms(d[key], now, 8_000)
            &&& after.failed_explore_directions@.contains_key(key)
                ==> after.failed_explore_directions@[key] == d[key]
            &&& after.failed_targets@.contains_key(id) <==> t.contains_key(id) && now.nanos
                < t[id].until.nanos
            &&& after.failed_targets@.contains_key(id) ==> after.failed_targets@[id] == t[id]
        }),
{
}

/// A failure is recorded with its reason. Where the target was being left alone
/// already it is left alone for at least sixteen seconds; else until the moment
/// that was set. Other targets stay as they are.
pub proof fn law_one_failure(
    m: Map<u32, FailureRecord>,
    id: u32,
    rec: FailureRecord,
    now: Instant,
    other: u32,
)
    requires
        now.has_room(),
    ensures
        ({
            let after = with_failures(m, seq![(id, rec)], now);
            let again = m.contains_key(id) && now.nanos < m[id].until.nanos;
            &&& after.contains_key(id)
            &&& after[id].cause == rec.cause
            &&& !again ==> after[id].until == rec.until
            &&& again ==> after[id].until.nanos >= rec.until.nanos && after[id].until.nanos
                >= now.nanos + 16_000_000_000 && (after[id].until.nanos == rec.until.nanos
                || after[id].until.nanos == now.nanos + 16_000_000_000)
            &&& other != id ==> after.contains_key(other) == m.contains_key(other) && (
            m.contains_key(other) ==> after[other] == m[other])
        }),
{
    let added = seq![(id, rec)];
    assert(added.drop_last() =~= seq![]);
    assert(with_failures(m, added.drop_last(), now) == m);
}

/// Failures are recorded one after the other.
pub proof fn law_failures_in_turn(
    m: Map<u32, FailureRecord>,
    a: Seq<(u32, FailureRecord)>,
    b: Seq<(u32, FailureRecord)>,
    now: Instant,
)
    ensures
        with_failures(m, a + b, now) == with_failures(with_failures(m, a, now), b, now),
    decreases b.len(),
{
    if b.len() > 0 {
        assert((a + b).drop_last() =~= a + b.drop_last());
        law_failures_in_turn(m, a, b.drop_last(), now);
    } else {
        assert(a + b =~= a);
    }
}

/// The history of positions holds the last eight, in their order, unless it is
/// cleared.
pub proof fn law_last_eight_positions(
    before: TacticalMemory,
    u: MemoryUpdateView,
    now: Instant,
    after: TacticalMemory,
)
    requires
        is_applied(before, u, now, after),
    ensures
        ({
            let s = before.recent_positions@;
            let t = after.recent_positions@;
            let (pos, at) = u.push_position->0;
            &&& u.clear_recent_positions ==> t.len() == 0
            &&& !u.clear_recent_positions && u.push_position is None ==> t == s
            &&& !u.clear_recent_positions && u.push_position is Some ==> {
                &&& t.len() == (if s.len() < 8 {
                    s.len() + 1
                } else {
                    8
                })
                &&& t[t.len() - 1] == (pos.0, pos.1, at)
                &&& forall|i: int|
                    1 <= i < t.len() ==> #[trigger] t[t.len() - 1 - i] == s[s.len() - i]
            }
        }),
{
}

/// A moment that is set replaces the one before, and no other changes.
pub proof fn law_moments(
    before: TacticalMemory,
    u: MemoryUpdateView,
    now: Instant,
    after: TacticalMemory,
)
    requires
        is_applied(before, u, now, after),
    ensures
        u.set_last_walk is Some ==> after.last_walk == u.set_last_walk,
        u.set_last_walk is None ==> after.last_walk == before.last_walk,
        u.set_last_attack is Some ==> after.last_attack == u.set_last_attack,
        u.set_last_attack is None ==> after.last_attack == before.last_attack,
        u.set_last_skill_cast is Some ==> after.last_skill_cast == u.set_last_skill_cast,
        u.set_last_skill_cast is None ==> after.last_skill_cast == before.last_skill_cast,
        u.set_last_position_change is Some ==> after.last_position_change
            == u.set_last_position_change,
        u.set_last_position_change is None ==> after.last_position_change
            == before.last_position_change,
        u.set_last_teleport is Some ==> after.last_teleport == u.set_last_teleport,
        u.set_last_teleport is None ==> after.last_teleport == before.last_teleport,
        u.record_visited_tile is None ==> after.visited_tiles@ == before.visited_tiles@,
{
}

/// The basic attack that is owed: clearing it wins over setting it. Since when there
/// is nothing to do: the first moment is kept until it is cleared. Empty walks are
/// counted from the last that was not.
pub proof fn law_marks(
    before: TacticalMemory,
    u: MemoryUpdateView,
    now: Instant,
    after: TacticalMemory,
)
    requires
        is_applied(before, u, now, after),
    ensures
        u.clear_post_skill_basic_pending ==> after.post_skill_basic_pending_target is None,
        !u.clear_post_skill_basic_pending && u.set_post_skill_basic_pending is Some
            ==> after.post_skill_basic_pending_target == u.set_post_skill_basic_pending,
        !u.clear_post_skill_basic_pending && u.set_post_skill_basic_pending is None
            ==> after.post_skill_basic_pending_target == before.post_skill_basic_pending_target,
        !u.clear_no_actionable_target_since && before.no_actionable_target_since is Some
            ==> after.no_actionable_target_since == before.no_actionable_target_since,
        u.clear_no_actionable_target_since || before.no_actionable_target_since is None
            ==> after.no_actionable_target_since == u.set_no_actionable_target_since,
        u.clear_empty_explore_walks && u.increment_empty_explore_walks ==> after.empty_explore_walks
            == 1,
        u.clear_empty_explore_walks && !u.increment_empty_explore_walks
            ==> after.empty_explore_walks == 0,
        !u.clear_empty_explore_walks && u.increment_empty_explore_walks
            && before.empty_explore_walks < 65_535 ==> after.empty_explore_walks
            == before.empty_explore_walks + 1,
        !u.clear_empty_explore_walks && u.increment_empty_explore_walks
            && before.empty_explore_walks == 65_535 ==> after.empty_explore_walks == 65_535,
        !u.clear_empty_explore_walks && !u.increment_empty_explore_walks
            ==> after.empty_explore_walks == before.empty_explore_walks,
{
}

/// The player has stalled where the last positions, all recorded at or after a
/// moment, are one tile; not where one of them differs, nor where too few are that
/// recent, nor for a window of less than two, nor without a moment.
pub proof fn law_stalled(m: TacticalMemory, window: int, since: Instant)
    ensures
        ({
            let s = m.recent_positions@;
            let n = s.len();
            let recent = forall|i: int|
                0 <= i && n - window <= i < n ==> since.nanos <= (#[trigger] s[i]).2.nanos;
            let still = forall|i: int|
                0 <= i && n - window <= i < n ==> (#[trigger] s[i]).0 == s[n - 1].0 && s[i].1 == s[n - 1].1;
            &&& 2 <= window <= n && recent ==> (m.stalled_since(window, Some(since)) <==> still)
            &&& window >= 2 && (forall|i: int|
                0 <= i <= n - window ==> (#[trigger] s[i]).2.nanos < since.nanos)
                ==> !m.stalled_since(window, Some(since))
            &&& window < 2 ==> !m.stalled_since(window, Some(since))
            &&& !m.stalled_since(window, None)
        }),
{
    let s = m.recent_positions@;
    let n = s.len();
    if 2 <= window <= n && forall|i: int|
        0 <= i && n - window <= i < n ==> since.nanos <= (#[trigger] s[i]).2.nanos {
        lemma_since_tail(s, since, window);
        let t = TacticalMemory::since_part(s, since);
        assert(t.last() == s[n - 1]) by {
            assert(t[t.len() - 1] == s[n - 1]);
        }
        if TacticalMemory::same_tail(t, window) {
            assert forall|i: int| 0 <= i && n - window <= i < n implies (#[trigger] s[i]).0 == s[n
                - 1].0 && s[i].1 == s[n - 1].1 by {
                assert(t[t.len() - 1 - (n - 1 - i)] == s[n - 1 - (n - 1 - i)]);
            }
        }
        if forall|i: int|
            0 <= i && n - window <= i < n ==> (#[trigger] s[i]).0 == s[n - 1].0 && s[i].1 == s[n - 1].1 {
            assert forall|i: int| t.len() - window <= i < t.len() implies (#[trigger] t[i]).0
                == t.last().0 && t[i].1 == t.last().1 by {
                assert(t[t.len() - 1 - (t.len() - 1 - i)] == s[n - 1 - (t.len() - 1 - i)]);
            }
        }
    }
    if window >= 2 && forall|i: int|
        0 <= i <= n - window ==> (#[trigger] s[i]).2.nanos < since.nanos {
        lemma_since_few(s, since, n - window + 1);
    }
}

proof fn lemma_since_tail(s: Seq<(i32, i32, Instant)>, since: Instant, k: int)
    requires
        0 <= k <= s.len(),
        forall|i: int| 0 <= i && s.len() - k <= i < s.len() ==> since.nanos <= (#[trigger] s[i]).2.nanos,
    ensures
        TacticalMemory::since_part(s, since).len() >= k,
        forall|i: int|
            0 <= i < k ==> #[trigger] TacticalMemory::since_part(s, since)[TacticalMemory::since_part(
                s,
                since,
            ).len() - 1 - i] == s[s.len() - 1 - i],
    decreases s.len(),
{
    if k > 0 {
        let rest = s.drop_last();
        assert forall|i: int| 0 <= i && rest.len() - (k - 1) <= i < rest.len() implies since.nanos <= (
        #[trigger] rest[i]).2.nanos by {
            assert(rest[i] == s[i]);
        }
        lemma_since_tail(rest, since, k - 1);
        let t = TacticalMemory::since_part(s, since);
        let u = TacticalMemory::since_part(rest, since);
        assert(s.last() == s[s.len() - 1]);
        assert(t == u.push(s.last()));
        assert forall|i: int| 0 <= i < k implies #[trigger] t[t.len() - 1 - i] == s[s.len() - 1 - i] by {
            if i > 0 {
                assert(u[u.len() - 1 - (i - 1)] == rest[rest.len() - 1 - (i - 1)]);
            }
        }
    }
}

proof fn lemma_since_few(s: Seq<(i32, i32, Instant)>, since: Instant, k: int)
    requires
        forall|i: int| 0 <= i < s.len() && i < k ==> (#[trigger] s[i]).2.nanos < since.nanos,
    ensures
        TacticalMemory::since_part(s, since).len() <= (if s.len() >= k && k >= 0 {
            s.len() - k
        } else if k < 0 {
            s.len() as int
        } else {
            0
        }),
    decreases s.len(),
{
    if s.len() > 0 {
        let rest = s.drop_last();
        assert forall|i: int| 0 <= i < rest.len() && i < k implies (#[trigger] rest[i]).2.nanos
            < since.nanos by {
            assert(rest[i] == s[i]);
        }
        lemma_since_few(rest, since, k);
        assert(s.last() == s[s.len() - 1]);
    }
}

} // verus!
