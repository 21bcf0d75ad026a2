//! A hash map keyed by tiles.
use std::collections::HashMap;
use vstd::prelude::*;

verus! {

broadcast use vstd::std_specs::hash::group_hash_axioms;

/// A tile as one number.
pub open spec fn packed(tile: (i32, i32)) -> u64 {
    ((tile.0 + 0x8000_0000) * 0x1_0000_0000 + (tile.1 + 0x8000_0000)) as u64
}

fn pack(tile: (i32, i32)) -> (r: u64)
    ensures
        r == packed(tile),
{
    let x: i64 = tile.0 as i64 + 0x8000_0000;
    let y: i64 = tile.1 as i64 + 0x8000_0000;
    (x as u64) * 0x1_0000_0000 + (y as u64)
}

proof fn lemma_packed_injective(a: (i32, i32), b: (i32, i32))
    requires
        packed(a) == packed(b),
    ensures
        a == b,
{
}

/// A map from tiles to values.
pub struct TileMap<V> {
    inner: HashMap<u64, V>,
}

impl<V> View for TileMap<V> {
    type V = Map<(i32, i32), V>;

    closed spec fn view(&self) -> Map<(i32, i32), V> {
        Map::new(
            |t: (i32, i32)| self.inner@.contains_key(packed(t)),
            |t: (i32, i32)| self.inner@[packed(t)],
        )
    }
}

impl<V> TileMap<V> {
    pub fn new() -> (r: TileMap<V>)
        ensures
            r@ == Map::<(i32, i32), V>::empty(),
    {
        let r = TileMap { inner: HashMap::new() };
        assert(r@ =~= Map::<(i32, i32), V>::empty());
        r
    }

    pub fn get(&self, tile: (i32, i32)) -> (r: Option<&V>)
        ensures
            match r {
                Some(v) => self@.contains_key(tile) && *v == self@[tile],
                None => !self@.contains_key(tile),
            },
    {
        self.inner.get(&pack(tile))
    }

    pub fn insert(&mut self, tile: (i32, i32), value: V)
        ensures
            final(self)@ == old(self)@.insert(tile, value),
    {
        let ghost before = self@;
        self.inner.insert(pack(tile), value);
        proof {
            assert forall|t: (i32, i32)| self@.contains_key(t) == before.insert(
                tile,
                value,
            ).contains_key(t) by {
                if packed(t) == packed(tile) {
                    lemma_packed_injective(t, tile);
                }
            }
            assert forall|t: (i32, i32)| #[trigger] self@.contains_key(t) implies self@[t]
                == before.insert(tile, value)[t] by {
                if packed(t) == packed(tile) {
                    lemma_packed_injective(t, tile);
                }
            }
            assert(self@ =~= before.insert(tile, value));
        }
    }
}

} // verus!
