//! What the hunt remembers between ticks.
use crate::action::walk::{chebyshev_spec, sign, tile_distance};
use crate::keyed::{fresh_part, KeyedMap, MapKey, Perishable};
use crate::time::{elapsed, ms_nanos, Instant};
use std::collections::VecDeque;
use vstd::prelude::*;
use vstd::slice::slice_to_vec;

verus! {

pub const FAILED_TARGET_TTL_MS: u64 = 8_000;

pub const REPEATED_FAILED_TARGET_TTL_MS: u64 = 16_000;

pub const OBSTACLE_TTL_MS: u64 = 6_000;

pub const FAILED_EXPLORE_DIRECTION_TTL_MS: u64 = 8_000;

pub const FAILED_EXPLORE_ORIGIN_RADIUS_TILES: u32 = 3;

pub const PORTAL_AVOID_TTL_MS: u64 = 600_000;

pub const POSITION_HISTORY_CAP: usize = 8;

/// A direction of exploration from a tile, one of eight.
#[derive(Debug, Clone, Copy, PartialEq, Eq, Hash)]
pub struct ExploreDirectionKey {
    pub origin: (i32, i32),
    pub direction: (i8, i8),
}

impl MapKey for ExploreDirectionKey {
    fn same_key(&self, other: &Self) -> (r: bool) {
        self.origin.0 == other.origin.0 && self.origin.1 == other.origin.1 && self.direction.0
            == other.direction.0 && self.direction.1 == other.direction.1
    }
}

/// The signs of the way from `origin` to `goal`; none where they are the same.
pub open spec fn direction_to(origin: (i32, i32), goal: (i32, i32)) -> Option<(i8, i8)> {
    if origin == goal {
        None
    } else {
        Some((sign(goal.0 - origin.0) as i8, sign(goal.1 - origin.1) as i8))
    }
}

fn axis_sign(from: i32, to: i32) -> (r: i8)
    ensures
        r == sign(to - from),
{
    if to > from {
        1
    } else if to < from {
        -1
    } else {
        0
    }
}

fn explore_direction(origin: (i32, i32), goal: (i32, i32)) -> (r: Option<(i8, i8)>)
    ensures
        r == direction_to(origin, goal),
{
    let dx: i8 = axis_sign(origin.0, goal.0);
    let dy: i8 = axis_sign(origin.1, goal.1);
    if dx != 0 || dy != 0 {
        Some((dx, dy))
    } else {
        None
    }
}

impl ExploreDirectionKey {
    pub fn from_goal(origin: (i32, i32), goal: (i32, i32)) -> (r: Option<Self>)
        ensures
            r == (match direction_to(origin, goal) {
                Some(direction) => Some(ExploreDirectionKey { origin, direction }),
                None => None,
            }),
    {
        match explore_direction(origin, goal) {
            Some(direction) => Some(ExploreDirectionKey { origin, direction }),
            None => None,
        }
    }
}

/// How often a tile was visited, and when last.
#[derive(Debug, Clone, Copy, PartialEq, Eq, Structural)]
pub struct VisitRecord {
    pub count: u16,
    pub last_seen: Instant,
}

/// Why a target is left alone, and until when.
#[derive(Debug, Clone, Copy, PartialEq, Eq, Structural)]
pub struct FailureRecord {
    pub cause: FailureCause,
    pub until: Instant,
}

#[derive(Debug, Clone, Copy, PartialEq, Eq, Structural)]
pub enum FailureCause {
    Unreachable,
    AttackRejected,
}

/// A failure carries its own end: it is fresh until then.
impl Perishable for FailureRecord {
    open spec fn fresh(&self, now: Instant, ttl_ms: u64) -> bool {
        self.until.nanos > now.nanos
    }

    fn is_fresh(&self, now: Instant, ttl_ms: u64) -> (r: bool) {
        now.is_before(self.until)
    }
}

/// The memory of the hunt.
#[derive(Debug)]
pub struct TacticalMemory {
    /// Tiles that turned out to be blocked, and when.
    pub obstacles: KeyedMap<(i32, i32), Instant>,
    /// Tiles that led to another map, and when.
    pub portal_avoid_tiles: KeyedMap<(i32, i32), Instant>,
    pub failed_explore_directions: KeyedMap<ExploreDirectionKey, Instant>,
    pub failed_targets: KeyedMap<u32, FailureRecord>,
    /// The last positions, the newest at the back.
    pub recent_positions: VecDeque<(i32, i32, Instant)>,
    /// Visits, by map and tile.
    pub visited_tiles: KeyedMap<(u32, i32, i32), VisitRecord>,
    pub last_walk: Option<Instant>,
    pub last_attack: Option<Instant>,
    pub last_skill_cast: Option<Instant>,
    /// The target that gets a basic attack before the next skill.
    pub post_skill_basic_pending_target: Option<u32>,
    pub last_position_change: Option<Instant>,
    pub last_teleport: Option<Instant>,
    pub no_actionable_target_since: Option<Instant>,
    /// Steps of exploration since there last was a target.
    pub empty_explore_walks: u16,
}

impl Default for TacticalMemory {
    fn default() -> (r: Self)
        ensures
            r.obstacles@ == Map::<(i32, i32), Instant>::empty(),
            r.portal_avoid_tiles@ == Map::<(i32, i32), Instant>::empty(),
            r.failed_explore_directions@ == Map::<ExploreDirectionKey, Instant>::empty(),
            r.failed_targets@ == Map::<u32, FailureRecord>::empty(),
            r.recent_positions@.len() == 0,
            r.visited_tiles@ == Map::<(u32, i32, i32), VisitRecord>::empty(),
            r.last_walk is None,
            r.last_attack is None,
            r.last_skill_cast is None,
            r.post_skill_basic_pending_target is None,
            r.last_position_change is None,
            r.last_teleport is None,
            r.no_actionable_target_since is None,
            r.empty_explore_walks == 0,
    {
        TacticalMemory {
            obstacles: KeyedMap::new(),
            portal_avoid_tiles: KeyedMap::new(),
            failed_explore_directions: KeyedMap::new(),
            failed_targets: KeyedMap::new(),
            recent_positions: VecDeque::new(),
            visited_tiles: KeyedMap::new(),
            last_walk: None,
            last_attack: None,
            last_skill_cast: None,
            post_skill_basic_pending_target: None,
            last_position_change: None,
            last_teleport: None,
            no_actionable_target_since: None,
            empty_explore_walks: 0,
        }
    }
}

impl Clone for TacticalMemory {
    fn clone(&self) -> (r: Self)
        ensures
            r.obstacles@ == self.obstacles@,
            r.portal_avoid_tiles@ == self.portal_avoid_tiles@,
            r.failed_explore_directions@ == self.failed_explore_directions@,
            r.failed_targets@ == self.failed_targets@,
            r.recent_positions@ == self.recent_positions@,
            r.visited_tiles@ == self.visited_tiles@,
            r == (TacticalMemory {
                obstacles: r.obstacles,
                portal_avoid_tiles: r.portal_avoid_tiles,
                failed_explore_directions: r.failed_explore_directions,
                failed_targets: r.failed_targets,
                recent_positions: r.recent_positions,
                visited_tiles: r.visited_tiles,
                ..*self
            }),
    {
        let mut recent_positions: VecDeque<(i32, i32, Instant)> = VecDeque::new();
        let mut i: usize = 0;
        while i < self.recent_positions.len()
            invariant
                i <= self.recent_positions@.len(),
                recent_positions@ == self.recent_positions@.take(i as int),
            decreases self.recent_positions@.len() - i,
        {
            recent_positions.push_back(self.recent_positions[i]);
            assert(recent_positions@ =~= self.recent_positions@.take(i + 1));
            i = i + 1;
        }
        assert(recent_positions@ =~= self.recent_positions@);
        TacticalMemory {
            obstacles: self.obstacles.clone(),
            portal_avoid_tiles: self.portal_avoid_tiles.clone(),
            failed_explore_directions: self.failed_explore_directions.clone(),
            failed_targets: self.failed_targets.clone(),
            recent_positions,
            visited_tiles: self.visited_tiles.clone(),
            last_walk: self.last_walk,
            last_attack: self.last_attack,
            last_skill_cast: self.last_skill_cast,
            post_skill_basic_pending_target: self.post_skill_basic_pending_target,
            last_position_change: self.last_position_change,
            last_teleport: self.last_teleport,
            no_actionable_target_since: self.no_actionable_target_since,
            empty_explore_walks: self.empty_explore_walks,
        }
    }
}

/// What a tick adds to the memory.
#[derive(Debug)]
pub struct MemoryUpdate {
    pub add_obstacles: Vec<((i32, i32), Instant)>,
    pub add_portal_avoid_tiles: Vec<((i32, i32), Instant)>,
    pub add_failed_explore_directions: Vec<(ExploreDirectionKey, Instant)>,
    pub add_failed_targets: Vec<(u32, FailureRecord)>,
    pub push_position: Option<((i32, i32), Instant)>,
    pub clear_recent_positions: bool,
    pub record_visited_tile: Option<(u32, (i32, i32), Instant)>,
    pub set_last_walk: Option<Instant>,
    pub set_last_attack: Option<Instant>,
    pub set_last_skill_cast: Option<Instant>,
    pub set_post_skill_basic_pending: Option<u32>,
    pub clear_post_skill_basic_pending: bool,
    pub set_last_position_change: Option<Instant>,
    pub set_last_teleport: Option<Instant>,
    pub set_no_actionable_target_since: Option<Instant>,
    pub clear_no_actionable_target_since: bool,
    pub increment_empty_explore_walks: bool,
    pub clear_empty_explore_walks: bool,
}

/// An update as a value: lists as sequences.
#[verifier::ext_equal]
pub struct MemoryUpdateView {
    pub add_obstacles: Seq<((i32, i32), Instant)>,
    pub add_portal_avoid_tiles: Seq<((i32, i32), Instant)>,
    pub add_failed_explore_directions: Seq<(ExploreDirectionKey, Instant)>,
    pub add_failed_targets: Seq<(u32, FailureRecord)>,
    pub push_position: Option<((i32, i32), Instant)>,
    pub clear_recent_positions: bool,
    pub record_visited_tile: Option<(u32, (i32, i32), Instant)>,
    pub set_last_walk: Option<Instant>,
    pub set_last_attack: Option<Instant>,
    pub set_last_skill_cast: Option<Instant>,
    pub set_post_skill_basic_pending: Option<u32>,
    pub clear_post_skill_basic_pending: bool,
    pub set_last_position_change: Option<Instant>,
    pub set_last_teleport: Option<Instant>,
    pub set_no_actionable_target_since: Option<Instant>,
    pub clear_no_actionable_target_since: bool,
    pub increment_empty_explore_walks: bool,
    pub clear_empty_explore_walks: bool,
}

impl View for MemoryUpdate {
    type V = MemoryUpdateView;

    open spec fn view(&self) -> MemoryUpdateView {
        MemoryUpdateView {
            add_obstacles: self.add_obstacles@,
            add_portal_avoid_tiles: self.add_portal_avoid_tiles@,
            add_failed_explore_directions: self.add_failed_explore_directions@,
            add_failed_targets: self.add_failed_targets@,
            push_position: self.push_position,
            clear_recent_positions: self.clear_recent_positions,
            record_visited_tile: self.record_visited_tile,
            set_last_walk: self.set_last_walk,
            set_last_attack: self.set_last_attack,
            set_last_skill_cast: self.set_last_skill_cast,
            set_post_skill_basic_pending: self.set_post_skill_basic_pending,
            clear_post_skill_basic_pending: self.clear_post_skill_basic_pending,
            set_last_position_change: self.set_last_position_change,
            set_last_teleport: self.set_last_teleport,
            set_no_actionable_target_since: self.set_no_actionable_target_since,
            clear_no_actionable_target_since: self.clear_no_actionable_target_since,
            increment_empty_explore_walks: self.increment_empty_explore_walks,
            clear_empty_explore_walks: self.clear_empty_explore_walks,
        }
    }
}

/// The update that adds nothing.
pub open spec fn no_update() -> MemoryUpdateView {
    MemoryUpdateView {
        add_obstacles: seq![],
        add_portal_avoid_tiles: seq![],
        add_failed_explore_directions: seq![],
        add_failed_targets: seq![],
        push_position: None,
        clear_recent_positions: false,
        record_visited_tile: None,
        set_last_walk: None,
        set_last_attack: None,
        set_last_skill_cast: None,
        set_post_skill_basic_pending: None,
        clear_post_skill_basic_pending: false,
        set_last_position_change: None,
        set_last_teleport: None,
        set_no_actionable_target_since: None,
        clear_no_actionable_target_since: false,
        increment_empty_explore_walks: false,
        clear_empty_explore_walks: false,
    }
}

impl Clone for MemoryUpdate {
    fn clone(&self) -> (r: Self)
        ensures
            r@ == self@,
    {
        MemoryUpdate {
            add_obstacles: slice_to_vec(self.add_obstacles.as_slice()),
            add_portal_avoid_tiles: slice_to_vec(self.add_portal_avoid_tiles.as_slice()),
            add_failed_explore_directions: slice_to_vec(self.add_failed_explore_directions.as_slice()),
            add_failed_targets: slice_to_vec(self.add_failed_targets.as_slice()),
            push_position: self.push_position,
            clear_recent_positions: self.clear_recent_positions,
            record_visited_tile: self.record_visited_tile,
            set_last_walk: self.set_last_walk,
            set_last_attack: self.set_last_attack,
            set_last_skill_cast: self.set_last_skill_cast,
            set_post_skill_basic_pending: self.set_post_skill_basic_pending,
            clear_post_skill_basic_pending: self.clear_post_skill_basic_pending,
            set_last_position_change: self.set_last_position_change,
            set_last_teleport: self.set_last_teleport,
            set_no_actionable_target_since: self.set_no_actionable_target_since,
            clear_no_actionable_target_since: self.clear_no_actionable_target_since,
            increment_empty_explore_walks: self.increment_empty_explore_walks,
            clear_empty_explore_walks: self.clear_empty_explore_walks,
        }
    }
}

impl Default for MemoryUpdate {
    fn default() -> (r: Self)
        ensures
            r@ == no_update(),
    {
        let r = MemoryUpdate {
            add_obstacles: Vec::new(),
            add_portal_avoid_tiles: Vec::new(),
            add_failed_explore_directions: Vec::new(),
            add_failed_targets: Vec::new(),
            push_position: None,
            clear_recent_positions: false,
            record_visited_tile: None,
            set_last_walk: None,
            set_last_attack: None,
            set_last_skill_cast: None,
            set_post_skill_basic_pending: None,
            clear_post_skill_basic_pending: false,
            set_last_position_change: None,
            set_last_teleport: None,
            set_no_actionable_target_since: None,
            clear_no_actionable_target_since: false,
            increment_empty_explore_walks: false,
            clear_empty_explore_walks: false,
        };
        assert(r@ =~= no_update());
        r
    }
}

/// A map after some insertions, one after the other.
pub open spec fn with_all<K, V>(m: Map<K, V>, added: Seq<(K, V)>) -> Map<K, V>
    decreases added.len(),
{
    if added.len() == 0 {
        m
    } else {
        with_all(m, added.drop_last()).insert(added.last().0, added.last().1)
    }
}

/// A failure as it is recorded: a target that is still being left alone is left
/// alone for longer.
pub open spec fn escalated(
    m: Map<u32, FailureRecord>,
    id: u32,
    rec: FailureRecord,
    now: Instant,
) -> FailureRecord {
    if m.contains_key(id) && m[id].until.nanos > now.nanos {
        FailureRecord {
            cause: rec.cause,
            until: rec.until.later_of(now.after_ms(REPEATED_FAILED_TARGET_TTL_MS as int)),
        }
    } else {
        rec
    }
}

/// The failed targets after some failures, one after the other.
pub open spec fn with_failures(
    m: Map<u32, FailureRecord>,
    added: Seq<(u32, FailureRecord)>,
    now: Instant,
) -> Map<u32, FailureRecord>
    decreases added.len(),
{
    if added.len() == 0 {
        m
    } else {
        let before = with_failures(m, added.drop_last(), now);
        before.insert(added.last().0, escalated(before, added.last().0, added.last().1, now))
    }
}

/// The newest positions, at most as many as the history holds.
pub open spec fn capped(s: Seq<(i32, i32, Instant)>) -> Seq<(i32, i32, Instant)> {
    if s.len() <= POSITION_HISTORY_CAP {
        s
    } else {
        s.subrange(s.len() - POSITION_HISTORY_CAP, s.len() as int)
    }
}

pub open spec fn positions_after(
    s: Seq<(i32, i32, Instant)>,
    u: MemoryUpdateView,
) -> Seq<(i32, i32, Instant)> {
    if u.clear_recent_positions {
        seq![]
    } else {
        match u.push_position {
            Some((pos, at)) => capped(s.push((pos.0, pos.1, at))),
            None => s,
        }
    }
}

pub open spec fn visits_after(
    m: Map<(u32, i32, i32), VisitRecord>,
    u: MemoryUpdateView,
) -> Map<(u32, i32, i32), VisitRecord> {
    match u.record_visited_tile {
        Some((map_id, pos, at)) => {
            let key = (map_id, pos.0, pos.1);
            let count = if m.contains_key(key) {
                if m[key].count < u16::MAX {
                    (m[key].count + 1) as u16
                } else {
                    u16::MAX
                }
            } else {
                1u16
            };
            m.insert(key, VisitRecord { count, last_seen: at })
        },
        None => m,
    }
}

/// `new` where it is there, else `old`.
pub open spec fn replaced<T>(old: Option<T>, new: Option<T>) -> Option<T> {
    if new is Some {
        new
    } else {
        old
    }
}

/// The target that is owed a basic attack.
pub open spec fn pending_after(before: Option<u32>, u: MemoryUpdateView) -> Option<u32> {
    if u.clear_post_skill_basic_pending {
        None
    } else {
        replaced(before, u.set_post_skill_basic_pending)
    }
}

/// Since when there has been nothing to do: clearing comes first, and a moment
/// that is kept is not moved.
pub open spec fn idle_since_after(before: Option<Instant>, u: MemoryUpdateView) -> Option<Instant> {
    if u.clear_no_actionable_target_since || before is None {
        u.set_no_actionable_target_since
    } else {
        before
    }
}

/// Empty steps of exploration: clearing comes first.
pub open spec fn empty_walks_after(before: u16, u: MemoryUpdateView) -> u16 {
    let kept = if u.clear_empty_explore_walks {
        0u16
    } else {
        before
    };
    if u.increment_empty_explore_walks && kept < u16::MAX {
        (kept + 1) as u16
    } else {
        kept
    }
}

/// What an update makes of a memory at `now`: additions first, and then
/// whatever has gone stale is dropped.
pub open spec fn is_applied(
    before: TacticalMemory,
    u: MemoryUpdateView,
    now: Instant,
    after: TacticalMemory,
) -> bool {
    &&& after.obstacles@ == fresh_part(
        with_all(before.obstacles@, u.add_obstacles),
        now,
        OBSTACLE_TTL_MS,
    )
    &&& after.portal_avoid_tiles@ == fresh_part(
        with_all(before.portal_avoid_tiles@, u.add_portal_avoid_tiles),
        now,
        PORTAL_AVOID_TTL_MS,
    )
    &&& after.failed_explore_directions@ == fresh_part(
        with_all(before.failed_explore_directions@, u.add_failed_explore_directions),
        now,
        FAILED_EXPLORE_DIRECTION_TTL_MS,
    )
    &&& after.failed_targets@ == fresh_part(
        with_failures(before.failed_targets@, u.add_failed_targets, now),
        now,
        0,
    )
    &&& after.recent_positions@ == positions_after(before.recent_positions@, u)
    &&& after.visited_tiles@ == visits_after(before.visited_tiles@, u)
    &&& after.last_walk == replaced(before.last_walk, u.set_last_walk)
    &&& after.last_attack == replaced(before.last_attack, u.set_last_attack)
    &&& after.last_skill_cast == replaced(before.last_skill_cast, u.set_last_skill_cast)
    &&& after.post_skill_basic_pending_target == pending_after(
        before.post_skill_basic_pending_target,
        u,
    )
    &&& after.last_position_change == replaced(
        before.last_position_change,
        u.set_last_position_change,
    )
    &&& after.last_teleport == replaced(before.last_teleport, u.set_last_teleport)
    &&& after.no_actionable_target_since == idle_since_after(before.no_actionable_target_since, u)
    &&& after.empty_explore_walks == empty_walks_after(before.empty_explore_walks, u)
}

fn insert_all<K: MapKey + Copy>(m: &mut KeyedMap<K, Instant>, added: &Vec<(K, Instant)>)
    ensures
        final(m)@ == with_all(old(m)@, added@),
{
    let ghost start = m@;
    let mut i: usize = 0;
    assert(added@.take(0) =~= Seq::empty());
    while i < added.len()
        invariant
            i <= added@.len(),
            m@ == with_all(start, added@.take(i as int)),
        decreases added@.len() - i,
    {
        assert(added@.take(i + 1).drop_last() =~= added@.take(i as int));
        m.insert(added[i].0, added[i].1);
        i = i + 1;
    }
    assert(added@.take(i as int) =~= added@);
}

impl TacticalMemory {
    /// Takes an update in, and forgets what has gone stale.
    pub fn apply(&mut self, update: MemoryUpdate, now: Instant)
        requires
            now.has_room(),
        ensures
            is_applied(*old(self), update@, now, *final(self)),
    {
        self.record_tiles(&update);
        self.record_failures(&update.add_failed_targets, now);
        self.record_position(&update);
        self.record_visit(&update);
        self.record_moments(&update);
        self.forget_stale(now);
    }

    fn record_tiles(&mut self, update: &MemoryUpdate)
        ensures
            final(self).obstacles@ == with_all(old(self).obstacles@, update.add_obstacles@),
            final(self).portal_avoid_tiles@ == with_all(
                old(self).portal_avoid_tiles@,
                update.add_portal_avoid_tiles@,
            ),
            final(self).failed_explore_directions@ == with_all(
                old(self).failed_explore_directions@,
                update.add_failed_explore_directions@,
            ),
            *final(self) == (TacticalMemory {
                obstacles: final(self).obstacles,
                portal_avoid_tiles: final(self).portal_avoid_tiles,
                failed_explore_directions: final(self).failed_explore_directions,
                ..*old(self)
            }),
    {
        insert_all(&mut self.obstacles, &update.add_obstacles);
        insert_all(&mut self.portal_avoid_tiles, &update.add_portal_avoid_tiles);
        insert_all(&mut self.failed_explore_directions, &update.add_failed_explore_directions);
    }

    fn record_moments(&mut self, update: &MemoryUpdate)
        ensures
            *final(self) == (TacticalMemory {
                last_walk: replaced(old(self).last_walk, update.set_last_walk),
                last_attack: replaced(old(self).last_attack, update.set_last_attack),
                last_skill_cast: replaced(old(self).last_skill_cast, update.set_last_skill_cast),
                post_skill_basic_pending_target: pending_after(
                    old(self).post_skill_basic_pending_target,
                    update@,
                ),
                last_position_change: replaced(
                    old(self).last_position_change,
                    update.set_last_position_change,
                ),
                last_teleport: replaced(old(self).last_teleport, update.set_last_teleport),
                no_actionable_target_since: idle_since_after(
                    old(self).no_actionable_target_since,
                    update@,
                ),
                empty_explore_walks: empty_walks_after(old(self).empty_explore_walks, update@),
                ..*old(self)
            }),
    {
        if update.set_last_walk.is_some() {
            self.last_walk = update.set_last_walk;
        }
        if update.set_last_attack.is_some() {
            self.last_attack = update.set_last_attack;
        }
        if update.set_last_skill_cast.is_some() {
            self.last_skill_cast = update.set_last_skill_cast;
        }
        if update.set_post_skill_basic_pending.is_some() {
            self.post_skill_basic_pending_target = update.set_post_skill_basic_pending;
        }
        if update.clear_post_skill_basic_pending {
            self.post_skill_basic_pending_target = None;
        }
        if update.set_last_position_change.is_some() {
            self.last_position_change = update.set_last_position_change;
        }
        if update.set_last_teleport.is_some() {
            self.last_teleport = update.set_last_teleport;
        }
        if update.clear_no_actionable_target_since {
            self.no_actionable_target_since = None;
        }
        if self.no_actionable_target_since.is_none() {
            self.no_actionable_target_since = update.set_no_actionable_target_since;
        }
        if update.clear_empty_explore_walks {
            self.empty_explore_walks = 0;
        }
        if update.increment_empty_explore_walks {
            self.empty_explore_walks = self.empty_explore_walks.saturating_add(1);
        }
    }

    fn forget_stale(&mut self, now: Instant)
        ensures
            final(self).obstacles@ == fresh_part(old(self).obstacles@, now, OBSTACLE_TTL_MS),
            final(self).portal_avoid_tiles@ == fresh_part(
                old(self).portal_avoid_tiles@,
                now,
                PORTAL_AVOID_TTL_MS,
            ),
            final(self).failed_explore_directions@ == fresh_part(
                old(self).failed_explore_directions@,
                now,
                FAILED_EXPLORE_DIRECTION_TTL_MS,
            ),
            final(self).failed_targets@ == fresh_part(old(self).failed_targets@, now, 0),
            *final(self) == (TacticalMemory {
                obstacles: final(self).obstacles,
                portal_avoid_tiles: final(self).portal_avoid_tiles,
                failed_explore_directions: final(self).failed_explore_directions,
                failed_targets: final(self).failed_targets,
                ..*old(self)
            }),
    {
        self.obstacles.retain_fresh(now, OBSTACLE_TTL_MS);
        self.portal_avoid_tiles.retain_fresh(now, PORTAL_AVOID_TTL_MS);
        self.failed_explore_directions.retain_fresh(now, FAILED_EXPLORE_DIRECTION_TTL_MS);
        self.failed_targets.retain_fresh(now, 0);
    }

    fn record_failures(&mut self, added: &Vec<(u32, FailureRecord)>, now: Instant)
        requires
            now.has_room(),
        ensures
            final(self).failed_targets@ == with_failures(old(self).failed_targets@, added@, now),
            *final(self) == (TacticalMemory {
                failed_targets: final(self).failed_targets,
                ..*old(self)
            }),
    {
        let ghost start = self.failed_targets@;
        let ghost whole = *self;
        let mut i: usize = 0;
        assert(added@.take(0) =~= Seq::empty());
        while i < added.len()
            invariant
                now.has_room(),
                i <= added@.len(),
                self.failed_targets@ == with_failures(start, added@.take(i as int), now),
                *self == (TacticalMemory { failed_targets: self.failed_targets, ..whole }),
            decreases added@.len() - i,
        {
            assert(added@.take(i + 1).drop_last() =~= added@.take(i as int));
            let id: u32 = added[i].0;
            let mut rec: FailureRecord = added[i].1;
            let repeated: bool = match self.failed_targets.get(&id) {
                Some(old_rec) => now.is_before(old_rec.until),
                None => false,
            };
            if repeated {
                rec.until = rec.until.later(now.plus_ms(REPEATED_FAILED_TARGET_TTL_MS));
            }
            self.failed_targets.insert(id, rec);
            i = i + 1;
        }
        assert(added@.take(i as int) =~= added@);
    }

    fn record_position(&mut self, update: &MemoryUpdate)
        ensures
            final(self).recent_positions@ == positions_after(old(self).recent_positions@, update@),
            *final(self) == (TacticalMemory {
                recent_positions: final(self).recent_positions,
                ..*old(self)
            }),
    {
        let ghost start = self.recent_positions@;
        let ghost whole = *self;
        if let Some((pos, at)) = update.push_position {
            self.recent_positions.push_back((pos.0, pos.1, at));
            let ghost full = self.recent_positions@;
            let ghost mut gone: int = 0;
            assert(full.subrange(0, full.len() as int) =~= full);
            while self.recent_positions.len() > POSITION_HISTORY_CAP
                invariant
                    0 <= gone <= full.len(),
                    self.recent_positions@ == full.subrange(gone, full.len() as int),
                    full.len() <= POSITION_HISTORY_CAP ==> gone == 0,
                    full.len() > POSITION_HISTORY_CAP ==> gone <= full.len() - POSITION_HISTORY_CAP,
                    *self == (TacticalMemory { recent_positions: self.recent_positions, ..whole }),
                decreases self.recent_positions@.len(),
            {
                let _ = self.recent_positions.pop_front();
                proof {
                    assert(full.subrange(gone, full.len() as int).subrange(
                        1,
                        full.len() - gone,
                    ) =~= full.subrange(gone + 1, full.len() as int));
                    gone = gone + 1;
                }
            }
            assert(self.recent_positions@ =~= capped(full));
        }
        if update.clear_recent_positions {
            self.recent_positions.clear();
        }
    }

    fn record_visit(&mut self, update: &MemoryUpdate)
        ensures
            final(self).visited_tiles@ == visits_after(old(self).visited_tiles@, update@),
            *final(self) == (TacticalMemory {
                visited_tiles: final(self).visited_tiles,
                ..*old(self)
            }),
    {
        if let Some((map_id, pos, at)) = update.record_visited_tile {
            let key: (u32, i32, i32) = (map_id, pos.0, pos.1);
            let count: u16 = match self.visited_tiles.get(&key) {
                Some(record) => record.count.saturating_add(1),
                None => 1,
            };
            self.visited_tiles.insert(key, VisitRecord { count, last_seen: at });
        }
    }

    pub open spec fn target_failed(&self, target_id: u32, now: Instant) -> bool {
        self.failed_targets@.contains_key(target_id)
            && self.failed_targets@[target_id].until.nanos > now.nanos
    }

    /// Whether a target is being left alone.
    pub fn is_target_failed(&self, target_id: u32, now: Instant) -> (r: bool)
        ensures
            r == self.target_failed(target_id, now),
    {
        match self.failed_targets.get(&target_id) {
            Some(rec) => now.is_before(rec.until),
            None => false,
        }
    }

    pub open spec fn obstacle_at(&self, tile: (i32, i32), now: Instant) -> bool {
        ||| self.obstacles@.contains_key(tile) && elapsed(now, self.obstacles@[tile]) < ms_nanos(
            OBSTACLE_TTL_MS as int,
        )
        ||| self.portal_avoid_tiles@.contains_key(tile) && elapsed(
            now,
            self.portal_avoid_tiles@[tile],
        ) < ms_nanos(PORTAL_AVOID_TTL_MS as int)
    }

    /// Whether a tile is known to be blocked, or to lead to another map.
    pub fn is_obstacle(&self, tile: (i32, i32), now: Instant) -> (r: bool)
        ensures
            r == self.obstacle_at(tile, now),
    {
        let blocked: bool = match self.obstacles.get(&tile) {
            Some(at) => now.within_ms(*at, OBSTACLE_TTL_MS),
            None => false,
        };
        if blocked {
            return true;
        }
        match self.portal_avoid_tiles.get(&tile) {
            Some(at) => now.within_ms(*at, PORTAL_AVOID_TTL_MS),
            None => false,
        }
    }

    pub open spec fn visits(&self, map_id: u32, tile: (i32, i32)) -> u16 {
        if self.visited_tiles@.contains_key((map_id, tile.0, tile.1)) {
            self.visited_tiles@[(map_id, tile.0, tile.1)].count
        } else {
            0
        }
    }

    /// How often a tile of a map was visited.
    pub fn visit_count(&self, map_id: u32, tile: (i32, i32)) -> (r: u16)
        ensures
            r == self.visits(map_id, tile),
    {
        match self.visited_tiles.get(&(map_id, tile.0, tile.1)) {
            Some(record) => record.count,
            None => 0,
        }
    }

    /// A recorded failure speaks against exploring from `origin` in a direction.
    pub open spec fn rules_out(
        key: ExploreDirectionKey,
        at: Instant,
        origin: (i32, i32),
        direction: (i8, i8),
        now: Instant,
    ) -> bool {
        &&& key.direction == direction
        &&& elapsed(now, at) < ms_nanos(FAILED_EXPLORE_DIRECTION_TTL_MS as int)
        &&& chebyshev_spec(key.origin, origin) <= FAILED_EXPLORE_ORIGIN_RADIUS_TILES
    }

    pub open spec fn direction_failed(
        &self,
        origin: (i32, i32),
        goal: (i32, i32),
        now: Instant,
    ) -> bool {
        match direction_to(origin, goal) {
            Some(direction) => exists|key: ExploreDirectionKey| #[trigger]
                self.failed_explore_directions@.contains_key(key) && Self::rules_out(
                    key,
                    self.failed_explore_directions@[key],
                    origin,
                    direction,
                    now,
                ),
            None => false,
        }
    }

    /// Whether exploring in the direction of `goal` failed a short while ago from
    /// about here.
    pub fn is_explore_direction_failed(
        &self,
        origin: (i32, i32),
        goal: (i32, i32),
        now: Instant,
    ) -> (r: bool)
        ensures
            r == self.direction_failed(origin, goal, now),
    {
        let direction: (i8, i8) = match explore_direction(origin, goal) {
            Some(d) => d,
            None => {
                return false;
            },
        };
        let n: usize = self.failed_explore_directions.len();
        let ghost entries = self.failed_explore_directions.entry_seq();
        let ghost map = self.failed_explore_directions@;
        let mut i: usize = 0;
        while i < n
            invariant
                i <= n,
                n == entries.len(),
                entries == self.failed_explore_directions.entry_seq(),
                map == self.failed_explore_directions@,
                direction_to(origin, goal) == Some(direction),
                forall|j: int|
                    0 <= j < n ==> map.contains_key((#[trigger] entries[j]).0) && map[entries[j].0]
                        == entries[j].1,
                forall|j: int|
                    0 <= j < i ==> !Self::rules_out(
                        (#[trigger] entries[j]).0,
                        entries[j].1,
                        origin,
                        direction,
                        now,
                    ),
            decreases n - i,
        {
            let entry: &(ExploreDirectionKey, Instant) = self.failed_explore_directions.entry_at(i);
            if entry.0.direction.0 == direction.0 && entry.0.direction.1 == direction.1
                && now.within_ms(entry.1, FAILED_EXPLORE_DIRECTION_TTL_MS) && tile_distance(
                entry.0.origin,
                origin,
            ) <= FAILED_EXPLORE_ORIGIN_RADIUS_TILES {
                assert(map.contains_key(entries[i as int].0));
                return true;
            }
            i = i + 1;
        }
        false
    }

    /// The last `window` of some positions are one and the same tile.
    pub open spec fn same_tail(s: Seq<(i32, i32, Instant)>, window: int) -> bool {
        &&& s.len() >= window
        &&& forall|i: int|
            s.len() - window <= i < s.len() ==> (#[trigger] s[i]).0 == s.last().0 && s[i].1
                == s.last().1
    }

    /// The positions recorded at or after `since`, in their order.
    pub open spec fn since_part(s: Seq<(i32, i32, Instant)>, since: Instant) -> Seq<
        (i32, i32, Instant),
    >
        decreases s.len(),
    {
        if s.len() == 0 {
            seq![]
        } else if s.last().2.nanos >= since.nanos {
            Self::since_part(s.drop_last(), since).push(s.last())
        } else {
            Self::since_part(s.drop_last(), since)
        }
    }

    /// Whether the last `window` positions are one and the same tile.
    pub fn is_stalled(&self, window: usize) -> (r: bool)
        ensures
            r == (window >= 2 && Self::same_tail(self.recent_positions@, window as int)),
    {
        let n: usize = self.recent_positions.len();
        if window < 2 || n < window {
            return false;
        }
        let last: (i32, i32, Instant) = self.recent_positions[n - 1];
        let mut i: usize = n - window;
        while i < n
            invariant
                2 <= window <= n,
                n - window <= i <= n,
                n == self.recent_positions@.len(),
                last == self.recent_positions@[n - 1],
                forall|j: int|
                    n - window <= j < i ==> (#[trigger] self.recent_positions@[j]).0 == last.0
                        && self.recent_positions@[j].1 == last.1,
            decreases n - i,
        {
            let here: (i32, i32, Instant) = self.recent_positions[i];
            if here.0 != last.0 || here.1 != last.1 {
                assert(self.recent_positions@[i as int].0 != self.recent_positions@.last().0
                    || self.recent_positions@[i as int].1 != self.recent_positions@.last().1);
                return false;
            }
            i = i + 1;
        }
        true
    }

    pub open spec fn stalled_since(&self, window: int, since: Option<Instant>) -> bool {
        match since {
            Some(at) => window >= 2 && Self::same_tail(
                Self::since_part(self.recent_positions@, at),
                window,
            ),
            None => false,
        }
    }

    /// Whether the last `window` positions recorded at or after `since` are one
    /// and the same tile.
    pub fn is_stalled_since(&self, window: usize, since: Option<Instant>) -> (r: bool)
        ensures
            r == self.stalled_since(window as int, since),
    {
        let from: Instant = match since {
            Some(at) => at,
            None => {
                return false;
            },
        };
        if window < 2 {
            return false;
        }
        let mut samples: Vec<(i32, i32, Instant)> = Vec::new();
        let n: usize = self.recent_positions.len();
        let mut i: usize = 0;
        assert(self.recent_positions@.take(0) =~= Seq::empty());
        while i < n
            invariant
                i <= n,
                n == self.recent_positions@.len(),
                samples@ == Self::since_part(self.recent_positions@.take(i as int), from),
            decreases n - i,
        {
            assert(self.recent_positions@.take(i + 1).drop_last() =~= self.recent_positions@.take(
                i as int,
            ));
            let here: (i32, i32, Instant) = self.recent_positions[i];
            if !here.2.is_before(from) {
                samples.push(here);
            }
            i = i + 1;
        }
        assert(self.recent_positions@.take(i as int) =~= self.recent_positions@);
        let m: usize = samples.len();
        if m < window {
            return false;
        }
        let last: (i32, i32, Instant) = samples[m - 1];
        let mut k: usize = m - window;
        while k < m
            invariant
                2 <= window <= m,
                since == Some(from),
                samples@ == Self::since_part(self.recent_positions@, from),
                m - window <= k <= m,
                m == samples@.len(),
                last == samples@[m - 1],
                forall|j: int|
                    m - window <= j < k ==> (#[trigger] samples@[j]).0 == last.0 && samples@[j].1
                        == last.1,
            decreases m - k,
        {
            if samples[k].0 != last.0 || samples[k].1 != last.1 {
                assert(samples@[k as int].0 != samples@.last().0 || samples@[k as int].1
                    != samples@.last().1);
                return false;
            }
            k = k + 1;
        }
        true
    }
}

} // verus!
