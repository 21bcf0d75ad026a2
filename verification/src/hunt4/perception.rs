//! From what was scanned to what the hunt looks at.
use crate::action::screen_target::PlayerPosition;
use crate::action::walk::{chebyshev_spec, tile_distance};
use crate::decide::hunt::HuntConfig;
use crate::hunt4::model::{EntityClass, EntityView, Snapshot};
use crate::hunt4::overlay::same_tile;
use crate::text::{law_occurs, occurs_at, starts_with, trim, trim_str};
use vstd::prelude::*;

verus! {

/// An entity as it was found in the game.
#[derive(Debug)]
pub struct ScannedEntity {
    pub addr: u32,
    pub target_id: u32,
    pub sprite_id: u16,
    pub action_state: u8,
    pub name: String,
    pub raw_x: u32,
    pub y: u32,
}

/// What an entity was judged to be.
#[derive(Debug, Clone, Copy, PartialEq, Eq, Structural)]
pub struct Classification {
    pub entity_class: EntityClass,
    pub visible_confidence: u8,
    pub hostile_confidence: u8,
}

/// A scanned entity, what it was judged to be, and its decoded column.
#[derive(Debug)]
pub struct SeenEntity {
    pub scanned: ScannedEntity,
    pub class: Classification,
    pub tile_x: i32,
}

/// The entity as the hunt looks at it. Its row, read as a signed number, is
/// that of its tile.
pub open spec fn is_view_of(v: EntityView, s: SeenEntity) -> bool {
    &&& v.target_id == s.scanned.target_id
    &&& v.entity_ptr == s.scanned.addr
    &&& v.name == s.scanned.name
    &&& v.sprite_id == s.scanned.sprite_id
    &&& v.action_state == s.scanned.action_state
    &&& v.tile == (s.tile_x, s.scanned.y as i32)
    &&& v.raw_x == s.scanned.raw_x
    &&& v.y == s.scanned.y
    &&& v.class == s.class.entity_class
    &&& v.visible_confidence == s.class.visible_confidence
    &&& v.hostile_confidence == s.class.hostile_confidence
}

fn entity_from_scanned(entity: &SeenEntity) -> (r: EntityView)
    ensures
        is_view_of(r, *entity),
{
    EntityView {
        target_id: entity.scanned.target_id,
        entity_ptr: entity.scanned.addr,
        name: entity.scanned.name.clone(),
        sprite_id: entity.scanned.sprite_id,
        action_state: entity.scanned.action_state,
        tile: (entity.tile_x, entity.scanned.y as i32),
        raw_x: entity.scanned.raw_x,
        y: entity.scanned.y,
        class: entity.class.entity_class,
        visible_confidence: entity.class.visible_confidence,
        hostile_confidence: entity.class.hostile_confidence,
    }
}

/// What is seen of the world: the player's tile, and every entity in order.
pub fn snapshot_from_world(world: &Vec<SeenEntity>, player: Option<PlayerPosition>) -> (r: Snapshot)
    ensures
        r.player == (match player {
            Some(p) => Some((p.x, p.y)),
            None => None,
        }),
        r.entities@.len() == world@.len(),
        forall|i: int| 0 <= i < world@.len() ==> is_view_of(#[trigger] r.entities@[i], world@[i]),
{
    let mut entities: Vec<EntityView> = Vec::new();
    let mut i: usize = 0;
    while i < world.len()
        invariant
            i <= world@.len(),
            entities@.len() == i,
            forall|j: int| 0 <= j < i ==> is_view_of(#[trigger] entities@[j], world@[j]),
        decreases world@.len() - i,
    {
        entities.push(entity_from_scanned(&world[i]));
        i = i + 1;
    }
    let tile: Option<(i32, i32)> = match player {
        Some(p) => Some((p.x, p.y)),
        None => None,
    };
    Snapshot { player: tile, entities }
}

/// An entry that is not blank begins the name.
pub open spec fn is_blacklisted(name: Seq<char>, entries: Seq<String>) -> bool {
    exists|i: int|
        0 <= i < entries.len() && trim((#[trigger] entries[i])@).len() > 0 && occurs_at(
            name,
            trim(entries[i]@),
            0,
        )
}

/// Near enough to be hunted. 0 sets no limit, nor does what is beyond the
/// coordinates.
pub open spec fn in_hunt_range(tile: (i32, i32), player: (i32, i32), range: u32) -> bool {
    range == 0 || range > i32::MAX || chebyshev_spec(tile, player) <= range
}

/// What the hunt keeps of what is seen. Corpses are kept wherever they lie, so
/// that a lock on them ends; otherwise what is in range, not on the player's
/// own tile, and either in the way or a target that is not blacklisted.
pub open spec fn is_kept(e: EntityView, player: (i32, i32), cfg: HuntConfig) -> bool {
    e.dead() || (e.tile != player && in_hunt_range(e.tile, player, cfg.hunt_range_tiles) && (
    if e.live() {
        !is_blacklisted(e.name@, cfg.monster_blacklist@)
    } else {
        e.blocking()
    }))
}

/// The entities that are kept, in their order.
pub open spec fn kept_part(s: Seq<EntityView>, player: (i32, i32), cfg: HuntConfig) -> Seq<EntityView>
    decreases s.len(),
{
    if s.len() == 0 {
        seq![]
    } else if is_kept(s.last(), player, cfg) {
        kept_part(s.drop_last(), player, cfg).push(s.last())
    } else {
        kept_part(s.drop_last(), player, cfg)
    }
}

fn blacklisted(name: &str, entries: &Vec<String>) -> (r: bool)
    ensures
        r == is_blacklisted(name@, entries@),
{
    let mut i: usize = 0;
    while i < entries.len()
        invariant
            i <= entries@.len(),
            forall|j: int|
                0 <= j < i ==> !(trim((#[trigger] entries@[j])@).len() > 0 && occurs_at(
                    name@,
                    trim(entries@[j]@),
                    0,
                )),
        decreases entries@.len() - i,
    {
        let prefix: &str = trim_str(entries[i].as_str());
        if !prefix.is_empty() && starts_with(name, prefix) {
            assert(occurs_at(name@, trim(entries@[i as int]@), 0));
            return true;
        }
        i = i + 1;
    }
    false
}

fn keeps(e: &EntityView, player: (i32, i32), cfg: &HuntConfig) -> (r: bool)
    ensures
        r == is_kept(*e, player, *cfg),
{
    if e.is_dead() {
        return true;
    }
    if same_tile(e.tile, player) {
        return false;
    }
    let range: u32 = cfg.hunt_range_tiles;
    let in_range: bool = range == 0 || range > 0x7fff_ffff || tile_distance(e.tile, player) <= range;
    if !in_range {
        return false;
    }
    if !e.is_live_attackable() {
        return e.blocks_movement();
    }
    !blacklisted(e.name.as_str(), &cfg.monster_blacklist)
}

/// What the hunt looks at: nothing where the player's tile is unknown.
pub fn filter_snapshot(snapshot: &Snapshot, cfg: &HuntConfig) -> (r: Snapshot)
    ensures
        r.player == snapshot.player,
        match snapshot.player {
            Some(player) => r.entities@ == kept_part(snapshot.entities@, player, *cfg),
            None => r.entities@.len() == 0,
        },
{
    let player: (i32, i32) = match snapshot.player {
        Some(p) => p,
        None => {
            return Snapshot::default();
        },
    };
    let mut entities: Vec<EntityView> = Vec::new();
    let mut i: usize = 0;
    assert(entities@ =~= kept_part(snapshot.entities@.take(0), player, *cfg));
    while i < snapshot.entities.len()
        invariant
            i <= snapshot.entities@.len(),
            entities@ == kept_part(snapshot.entities@.take(i as int), player, *cfg),
        decreases snapshot.entities@.len() - i,
    {
        assert(snapshot.entities@.take(i + 1).drop_last() =~= snapshot.entities@.take(i as int));
        if keeps(&snapshot.entities[i], player, cfg) {
            entities.push(snapshot.entities[i].clone());
        }
        i = i + 1;
    }
    assert(snapshot.entities@.take(i as int) =~= snapshot.entities@);
    Snapshot { player: Some(player), entities }
}

/// Filtering what has been filtered changes nothing: whatever is kept would be
/// kept again.
pub proof fn law_filter_idempotent(s: Seq<EntityView>, player: (i32, i32), cfg: HuntConfig)
    ensures
        kept_part(kept_part(s, player, cfg), player, cfg) == kept_part(s, player, cfg),
        forall|i: int|
            0 <= i < kept_part(s, player, cfg).len() ==> is_kept(
                #[trigger] kept_part(s, player, cfg)[i],
                player,
                cfg,
            ),
    decreases s.len(),
{
    if s.len() > 0 {
        law_filter_idempotent(s.drop_last(), player, cfg);
        let k = kept_part(s.drop_last(), player, cfg);
        if is_kept(s.last(), player, cfg) {
            assert(k.push(s.last()).drop_last() =~= k);
        }
    }
}

/// What is left of what is seen after filtering: entities, in their order.
proof fn lemma_kept(s: Seq<EntityView>, player: (i32, i32), cfg: HuntConfig, e: EntityView)
    ensures
        kept_part(s, player, cfg).contains(e) <==> s.contains(e) && is_kept(e, player, cfg),
    decreases s.len(),
{
    if s.len() > 0 {
        let before = s.drop_last();
        let rest = kept_part(before, player, cfg);
        lemma_kept(before, player, cfg, e);
        assert(s =~= before.push(s.last()));
        if before.contains(e) {
            let i = choose|i: int| 0 <= i < before.len() && before[i] == e;
            assert(s[i] == e);
        }
        if s.contains(e) && e != s.last() {
            let i = choose|i: int| 0 <= i < s.len() && s[i] == e;
            assert(before[i] == e);
        }
        assert(s[s.len() - 1] == s.last());
        let more = rest.push(s.last());
        if rest.contains(e) {
            let i = choose|i: int| 0 <= i < rest.len() && rest[i] == e;
            assert(more[i] == e);
        }
        if more.contains(e) && e != s.last() {
            let i = choose|i: int| 0 <= i < more.len() && more[i] == e;
            assert(rest[i] == e);
        }
        assert(more[rest.len() as int] == s.last());
    }
}

/// A monster: of the class of those that can be attacked, and held to be
/// hostile.
pub open spec fn is_monster(e: EntityView) -> bool {
    e.class is AttackableMonster && e.hostile_confidence != 0
}

/// A corpse: of the class of the dead, or lying there. The dead lie in the
/// eighth state.
pub open spec fn is_corpse(e: EntityView) -> bool {
    e.class is DeadMonster || e.action_state == 8
}

/// A name begins with an entry of a list that is not blank.
pub open spec fn named_by(name: Seq<char>, entry: Seq<char>) -> bool {
    &&& trim(entry).len() > 0
    &&& trim(entry).len() <= name.len()
    &&& forall|k: int| 0 <= k < trim(entry).len() ==> name[k] == #[trigger] trim(entry)[k]
}

proof fn lemma_named_by(name: Seq<char>, entries: Seq<String>)
    ensures
        is_blacklisted(name, entries) <==> exists|i: int|
            0 <= i < entries.len() && named_by(name, (#[trigger] entries[i])@),
{
    assert forall|i: int| 0 <= i < entries.len() implies named_by(name, (#[trigger] entries[i])@)
        == (trim(entries[i]@).len() > 0 && occurs_at(name, trim(entries[i]@), 0)) by {
        law_occurs(name, trim(entries[i]@));
        let p = trim(entries[i]@);
        if named_by(name, entries[i]@) {
            assert forall|k: int| 0 <= k < p.len() implies name[k] == p[k] by {}
        }
    }
    if is_blacklisted(name, entries) {
        let i = choose|i: int|
            0 <= i < entries.len() && trim((#[trigger] entries[i])@).len() > 0 && occurs_at(
                name,
                trim(entries[i]@),
                0,
            );
        assert(named_by(name, entries[i]@));
    }
    if exists|i: int| 0 <= i < entries.len() && named_by(name, (#[trigger] entries[i])@) {
        let i = choose|i: int|
            0 <= i < entries.len() && named_by(name, (#[trigger] entries[i])@);
        assert(occurs_at(name, trim(entries[i]@), 0));
    }
}

/// A monster whose name begins with any entry of the blacklist, wherever the
/// entry stands in it, is not hunted.
pub proof fn law_blacklisted_is_dropped(
    s: Seq<EntityView>,
    player: (i32, i32),
    cfg: HuntConfig,
    e: EntityView,
    i: int,
)
    requires
        is_monster(e),
        !is_corpse(e),
        0 <= i < cfg.monster_blacklist@.len(),
        named_by(e.name@, cfg.monster_blacklist@[i]@),
    ensures
        !kept_part(s, player, cfg).contains(e),
{
    lemma_kept(s, player, cfg, e);
    lemma_named_by(e.name@, cfg.monster_blacklist@);
}

/// A longer blacklist never makes anything kept that was not kept.
pub proof fn law_blacklist_only_drops(
    s: Seq<EntityView>,
    player: (i32, i32),
    cfg: HuntConfig,
    longer: HuntConfig,
    e: EntityView,
)
    requires
        longer.hunt_range_tiles == cfg.hunt_range_tiles,
        forall|i: int|
            0 <= i < cfg.monster_blacklist@.len() ==> longer.monster_blacklist@.contains(
                #[trigger] cfg.monster_blacklist@[i],
            ),
        kept_part(s, player, longer).contains(e),
    ensures
        kept_part(s, player, cfg).contains(e),
{
    lemma_kept(s, player, cfg, e);
    lemma_kept(s, player, longer, e);
    lemma_named_by(e.name@, cfg.monster_blacklist@);
    lemma_named_by(e.name@, longer.monster_blacklist@);
    if is_blacklisted(e.name@, cfg.monster_blacklist@) {
        let i = choose|i: int|
            0 <= i < cfg.monster_blacklist@.len() && named_by(
                e.name@,
                (#[trigger] cfg.monster_blacklist@[i])@,
            );
        let entry = cfg.monster_blacklist@[i];
        assert(longer.monster_blacklist@.contains(entry));
        let j = choose|j: int|
            0 <= j < longer.monster_blacklist@.len() && longer.monster_blacklist@[j] == entry;
        assert(named_by(e.name@, longer.monster_blacklist@[j]@));
    }
}

/// The tile is no farther off than a range along either axis; a range of none
/// or beyond all coordinates sets no limit.
pub open spec fn within_range(tile: (i32, i32), player: (i32, i32), range: u32) -> bool {
    ||| range == 0
    ||| range >= 0x8000_0000
    ||| (-range <= tile.0 - player.0 <= range && -range <= tile.1 - player.1 <= range)
}

/// What is kept, and all of it: every corpse that is seen, wherever it lies; and
/// in range and off the player's own tile every monster that no entry of the
/// blacklist names, and everything else that has an id and is no mere decoration.
pub proof fn law_what_is_kept(
    s: Seq<EntityView>,
    player: (i32, i32),
    cfg: HuntConfig,
    e: EntityView,
)
    ensures
        kept_part(s, player, cfg).contains(e) <==> s.contains(e) && {
            ||| is_corpse(e)
            ||| e.tile != player && within_range(e.tile, player, cfg.hunt_range_tiles) && if is_monster(
                e,
            ) {
                forall|i: int|
                    0 <= i < cfg.monster_blacklist@.len() ==> !named_by(
                        e.name@,
                        (#[trigger] cfg.monster_blacklist@[i])@,
                    )
            } else {
                e.target_id != 0 && !(e.class is DecorationOrShadow)
            }
        },
{
    lemma_kept(s, player, cfg, e);
    lemma_named_by(e.name@, cfg.monster_blacklist@);
}

/// Filtering keeps the order, and treats each entity on its own: what is seen in
/// two parts is filtered part by part.
pub proof fn law_filter_part_by_part(
    first: Seq<EntityView>,
    rest: Seq<EntityView>,
    player: (i32, i32),
    cfg: HuntConfig,
)
    ensures
        kept_part(first + rest, player, cfg) == kept_part(first, player, cfg) + kept_part(
            rest,
            player,
            cfg,
        ),
        rest.len() == 1 && kept_part(rest, player, cfg).contains(rest[0]) ==> kept_part(
            rest,
            player,
            cfg,
        ) == rest,
    decreases rest.len(),
{
    if rest.len() == 0 {
        assert(first + rest =~= first);
        assert(kept_part(first, player, cfg) + kept_part(rest, player, cfg) =~= kept_part(
            first,
            player,
            cfg,
        ));
    } else {
        law_filter_part_by_part(first, rest.drop_last(), player, cfg);
        assert((first + rest).drop_last() =~= first + rest.drop_last());
        assert((first + rest).last() == rest.last());
        assert(kept_part(first + rest, player, cfg) =~= kept_part(first, player, cfg) + kept_part(
            rest,
            player,
            cfg,
        ));
        if rest.len() == 1 {
            assert(rest.drop_last() =~= seq![]);
            assert(kept_part(rest.drop_last(), player, cfg) =~= seq![]);
            lemma_kept(rest, player, cfg, rest[0]);
            if is_kept(rest[0], player, cfg) {
                assert(kept_part(rest, player, cfg) =~= rest);
            }
        }
    }
}

/// What is seen of an entity is what was found: its id, its address and its name,
/// and its place, of which the row is read as a signed number.
pub proof fn law_seen_as_found(v: EntityView, s: SeenEntity)
    requires
        is_view_of(v, s),
    ensures
        v.target_id == s.scanned.target_id && v.entity_ptr == s.scanned.addr,
        v.name@ == s.scanned.name@,
        v.sprite_id == s.scanned.sprite_id && v.action_state == s.scanned.action_state,
        v.tile.0 == s.tile_x,
        s.scanned.y <= i32::MAX ==> v.tile.1 == s.scanned.y,
        v.raw_x == s.scanned.raw_x && v.y == s.scanned.y,
        v.class == s.class.entity_class,
        v.visible_confidence == s.class.visible_confidence,
        v.hostile_confidence == s.class.hostile_confidence,
{
}

} // verus!
