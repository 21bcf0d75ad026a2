//! What the bot sees around the player.
use crate::action::walk::{chebyshev_spec, tile_distance};
use vstd::prelude::*;

verus! {

/// Within this many tiles targets are cleared before farther ones.
pub const LOCAL_CLEAR_RADIUS_TILES: u32 = 6;

/// Action state of a corpse.
pub const ACTION_STATE_DEAD: u8 = 0x08;

/// What kind of thing an entity is.
#[derive(Debug, Clone, Copy, PartialEq, Eq, Structural)]
pub enum EntityClass {
    AttackableMonster,
    DeadMonster,
    DecorationOrShadow,
    LocalOrInvalid,
    NonWorldMonsterState,
    Unknown,
}

/// An entity near the player.
#[derive(Debug, PartialEq, Eq)]
pub struct EntityView {
    pub target_id: u32,
    pub entity_ptr: u32,
    pub name: String,
    pub sprite_id: u16,
    pub action_state: u8,
    pub tile: (i32, i32),
    pub raw_x: u32,
    pub y: u32,
    pub class: EntityClass,
    pub visible_confidence: u8,
    pub hostile_confidence: u8,
}

impl Clone for EntityView {
    fn clone(&self) -> (r: Self)
        ensures
            r == *self,
    {
        EntityView {
            target_id: self.target_id,
            entity_ptr: self.entity_ptr,
            name: self.name.clone(),
            sprite_id: self.sprite_id,
            action_state: self.action_state,
            tile: self.tile,
            raw_x: self.raw_x,
            y: self.y,
            class: self.class,
            visible_confidence: self.visible_confidence,
            hostile_confidence: self.hostile_confidence,
        }
    }
}

impl EntityView {
    pub open spec fn live(self) -> bool {
        self.class == EntityClass::AttackableMonster && self.hostile_confidence > 0
    }

    pub open spec fn dead(self) -> bool {
        self.class == EntityClass::DeadMonster || self.action_state == ACTION_STATE_DEAD
    }

    pub open spec fn blocking(self) -> bool {
        self.target_id != 0 && !self.dead() && self.class != EntityClass::DecorationOrShadow
    }

    /// Steps from the player, a diagonal counting as one.
    pub fn distance_from(&self, player: (i32, i32)) -> (r: u32)
        ensures
            r == chebyshev_spec(self.tile, player),
    {
        tile_distance(self.tile, player)
    }

    pub fn is_live_attackable(&self) -> (r: bool)
        ensures
            r == self.live(),
    {
        self.class == EntityClass::AttackableMonster && self.hostile_confidence > 0
    }

    pub fn is_dead(&self) -> (r: bool)
        ensures
            r == self.dead(),
    {
        self.class == EntityClass::DeadMonster || self.action_state == ACTION_STATE_DEAD
    }

    /// Whether one cannot walk onto the entity's tile.
    pub fn blocks_movement(&self) -> (r: bool)
        ensures
            r == self.blocking(),
    {
        self.target_id != 0 && !self.is_dead() && self.class != EntityClass::DecorationOrShadow
    }
}

/// The player's tile and the entities around it.
#[derive(Debug, Clone)]
pub struct Snapshot {
    pub player: Option<(i32, i32)>,
    pub entities: Vec<EntityView>,
}

impl Default for Snapshot {
    fn default() -> (r: Self)
        ensures
            r.player is None,
            r.entities@.len() == 0,
    {
        Snapshot { player: None, entities: Vec::new() }
    }
}

/// The live targets among some entities, in their order.
pub open spec fn live_part(s: Seq<EntityView>) -> Seq<EntityView>
    decreases s.len(),
{
    if s.len() == 0 {
        seq![]
    } else if s.last().live() {
        live_part(s.drop_last()).push(s.last())
    } else {
        live_part(s.drop_last())
    }
}

/// What references refer to.
pub open spec fn referents<T>(s: Seq<&T>) -> Seq<T> {
    Seq::new(s.len(), |i: int| *s[i])
}

impl Snapshot {
    /// The entities that can be attacked, in their order.
    pub fn valid_targets(&self) -> (r: Vec<&EntityView>)
        ensures
            referents(r@) == live_part(self.entities@),
    {
        let mut out: Vec<&EntityView> = Vec::new();
        let mut i: usize = 0;
        assert(referents(out@) =~= live_part(self.entities@.take(0)));
        while i < self.entities.len()
            invariant
                i <= self.entities@.len(),
                referents(out@) == live_part(self.entities@.take(i as int)),
            decreases self.entities@.len() - i,
        {
            assert(self.entities@.take(i + 1).drop_last() =~= self.entities@.take(i as int));
            let ghost before = out@;
            if self.entities[i].is_live_attackable() {
                out.push(&self.entities[i]);
                assert(referents(out@) =~= referents(before).push(self.entities@[i as int]));
            }
            i = i + 1;
        }
        assert(self.entities@.take(i as int) =~= self.entities@);
        out
    }

    /// The first entity with an id.
    pub fn find(&self, target_id: u32) -> (r: Option<&EntityView>)
        ensures
            match r {
                Some(e) => exists|i: int|
                    0 <= i < self.entities@.len() && *e == #[trigger] self.entities@[i]
                        && e.target_id == target_id && forall|j: int|
                        0 <= j < i ==> (#[trigger] self.entities@[j]).target_id != target_id,
                None => forall|j: int|
                    0 <= j < self.entities@.len() ==> (#[trigger] self.entities@[j]).target_id
                        != target_id,
            },
    {
        let mut i: usize = 0;
        while i < self.entities.len()
            invariant
                i <= self.entities@.len(),
                forall|j: int|
                    0 <= j < i ==> (#[trigger] self.entities@[j]).target_id != target_id,
            decreases self.entities@.len() - i,
        {
            if self.entities[i].target_id == target_id {
                return Some(&self.entities[i]);
            }
            i = i + 1;
        }
        None
    }
}

/// A live target stands in the way of walking unless it has no id or is a
/// corpse; nothing is both alive by its class and a decoration.
pub proof fn law_live_blocks(e: EntityView)
    requires
        e.live(),
        e.target_id != 0,
        e.action_state != ACTION_STATE_DEAD,
    ensures
        e.blocking(),
        !e.dead(),
{
}

/// What can be attacked, what is dead and what stands in the way, by class, state
/// and confidence. The dead lie in the eighth state.
pub proof fn law_what_an_entity_is(e: EntityView)
    ensures
        e.live() <==> e.class is AttackableMonster && e.hostile_confidence >= 1,
        e.dead() <==> e.class is DeadMonster || e.action_state == 8,
        e.blocking() <==> e.target_id != 0 && !(e.class is DeadMonster) && !(e.class
            is DecorationOrShadow) && e.action_state != 8,
{
}

/// The targets of some entities are those among them that are live, in their
/// order.
pub proof fn law_live_part(first: Seq<EntityView>, rest: Seq<EntityView>)
    ensures
        live_part(first + rest) == live_part(first) + live_part(rest),
        rest.len() == 1 ==> live_part(rest) == (if rest[0].class is AttackableMonster
            && rest[0].hostile_confidence >= 1 {
            rest
        } else {
            seq![]
        }),
    decreases rest.len(),
{
    if rest.len() == 0 {
        assert(first + rest =~= first);
        assert(live_part(first) + live_part(rest) =~= live_part(first));
    } else {
        law_live_part(first, rest.drop_last());
        assert((first + rest).drop_last() =~= first + rest.drop_last());
        assert(live_part(first + rest) =~= live_part(first) + live_part(rest));
        if rest.len() == 1 {
            assert(rest.drop_last() =~= seq![]);
            assert(live_part(rest.drop_last()) =~= seq![]);
            assert(seq![].push(rest[0]) =~= rest);
        }
    }
}

} // verus!
