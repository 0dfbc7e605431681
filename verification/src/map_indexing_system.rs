//! The authoritative spatial index: rebuilt every tick from the current
//! positions, after all movement and placement and before anything reads
//! tile occupancy.

use vstd::prelude::*;

use crate::components::Entity;
use crate::map::{GameMap, TileType};
use crate::world::World;

verus! {

/// The entity stands on tile `i`.
pub open spec fn positioned_at(w: &World, e: int, i: int) -> bool {
    &&& w.position@[e] is Some
    &&& w.map.spec_idx(w.position@[e]->Some_0.x as int, w.position@[e]->Some_0.y as int) == i
}

/// Rebuilds the blocking bitset and the per-tile occupancy lists.
pub struct MapIndexingSystem {}

impl MapIndexingSystem {
    /// Rebuild `blocked` (walls, plus every tile a blocking entity stands
    /// on) and `tile_content` (every positioned entity listed on exactly
    /// its own tile) from the current positions.
    pub fn run(w: &mut World)
        requires
            old(w).wf(),
        ensures
            final(w).wf(),
            *final(w) == (World { map: final(w).map, ..*old(w) }),
            final(w).map == (GameMap {
                blocked: final(w).map.blocked,
                tile_content: final(w).map.tile_content,
                ..old(w).map
            }),
            // a tile blocks when it is a wall or a blocking entity stands on it
            forall|i: int|
                0 <= i < final(w).map.blocked@.len() ==> (#[trigger] final(w).map.blocked@[i]) == (
                old(w).map.tiles@[i] == TileType::Wall || exists|e: int|
                    0 <= e < old(w).n && old(w).blocks_tile@[e] && positioned_at(old(w), e, i)),
            // every positioned entity is listed on its own tile
            forall|e: int|
                0 <= e < old(w).n && old(w).position@[e] is Some ==> World::queued(
                    final(w).map.tile_content@[old(w).map.spec_idx(
                        (#[trigger] old(w).position@[e])->Some_0.x as int,
                        old(w).position@[e]->Some_0.y as int,
                    )]@,
                    e,
                ),
            // and a tile lists only entities standing on it, each once
            forall|i: int, j: int|
                0 <= i < final(w).map.tile_content@.len() && 0 <= j
                    < final(w).map.tile_content@[i]@.len() ==> positioned_at(
                    old(w),
                    (#[trigger] final(w).map.tile_content@[i]@[j]) as int,
                    i,
                ),
            forall|i: int, j1: int, j2: int|
                0 <= i < final(w).map.tile_content@.len() && 0 <= j1 < j2 < final(w).map.tile_content@[i]@.len() ==> (#[trigger] final(w).map.tile_content@[i]@[j1])
                    != (#[trigger] final(w).map.tile_content@[i]@[j2]),
    {
        w.map.populate_blocked();
        w.map.clear_content_index();
        let n = w.n;
        let mut e: usize = 0;
        while e < n
            invariant
                e <= n,
                old(w).wf(),
                w.wf_lens(),
                w.wf_data(),
                w.map.wf(),
                n == w.n,
                *w == (World { map: w.map, ..*old(w) }),
                w.map == (GameMap {
                    blocked: w.map.blocked,
                    tile_content: w.map.tile_content,
                    ..old(w).map
                }),
                forall|i: int|
                    0 <= i < w.map.blocked@.len() ==> (#[trigger] w.map.blocked@[i]) == (old(
                        w,
                    ).map.tiles@[i] == TileType::Wall || exists|e2: int|
                        0 <= e2 < e && old(w).blocks_tile@[e2] && positioned_at(old(w), e2, i)),
                forall|e2: int|
                    0 <= e2 < e && old(w).position@[e2] is Some ==> World::queued(
                        w.map.tile_content@[old(w).map.spec_idx(
                            (#[trigger] old(w).position@[e2])->Some_0.x as int,
                            old(w).position@[e2]->Some_0.y as int,
                        )]@,
                        e2,
                    ),
                forall|i: int, j: int|
                    0 <= i < w.map.tile_content@.len() && 0 <= j < w.map.tile_content@[i]@.len()
                        ==> positioned_at(
                        old(w),
                        (#[trigger] w.map.tile_content@[i]@[j]) as int,
                        i,
                    ) && w.map.tile_content@[i]@[j] < e,
                forall|i: int, j1: int, j2: int|
                    0 <= i < w.map.tile_content@.len() && 0 <= j1 < j2
                        < w.map.tile_content@[i]@.len() ==> (
                    #[trigger] w.map.tile_content@[i]@[j1]) != (
                    #[trigger] w.map.tile_content@[i]@[j2]),
            decreases n - e,
        {
            let has_position = w.position[e].is_some();
            if has_position {
                let pos = w.position[e].unwrap();
                proof {
                    assert(w.position@[e as int] == old(w).position@[e as int]);
                }
                let idx = w.map.xy_idx(pos.x, pos.y);
                let ghost blocked0 = w.map.blocked@;
                let blocks = w.blocks_tile[e];
                if blocks {
                    w.map.blocked.set(idx, true);
                }
                proof {
                    assert forall|i: int|
                        0 <= i < w.map.blocked@.len() implies (#[trigger] w.map.blocked@[i]) == (
                    old(w).map.tiles@[i] == TileType::Wall || exists|e2: int|
                        0 <= e2 < e + 1 && old(w).blocks_tile@[e2] && positioned_at(
                            old(w),
                            e2,
                            i,
                        )) by {
                        if blocks && i == idx {
                            assert(old(w).blocks_tile@[e as int] && positioned_at(
                                old(w),
                                e as int,
                                i,
                            ));
                        } else {
                            assert(w.map.blocked@[i] == blocked0[i]);
                            if w.map.blocked@[i] {
                            } else {
                                if exists|e2: int|
                                    0 <= e2 < e + 1 && old(w).blocks_tile@[e2] && positioned_at(
                                        old(w),
                                        e2,
                                        i,
                                    ) {
                                    let e2 = choose|e2: int|
                                        0 <= e2 < e + 1 && old(w).blocks_tile@[e2]
                                            && positioned_at(old(w), e2, i);
                                    assert(e2 < e);
                                    assert(false);
                                }
                            }
                        }
                    }
                }
                let ghost tc0 = w.map.tile_content@;
                let mut occupants: Vec<Entity> = w.map.tile_content[idx].clone();
                occupants.push(e);
                w.map.tile_content.set(idx, occupants);
                proof {
                    assert(w.map.tile_content@[idx as int]@ == tc0[idx as int]@.push(e as usize));
                    assert(World::queued(w.map.tile_content@[idx as int]@, e as int)) by {
                        assert(w.map.tile_content@[idx as int]@[tc0[idx as int]@.len() as int]
                            == e as usize);
                    }
                    assert forall|e2: int|
                        0 <= e2 < e + 1 && old(w).position@[e2] is Some implies World::queued(
                        w.map.tile_content@[old(w).map.spec_idx(
                            (#[trigger] old(w).position@[e2])->Some_0.x as int,
                            old(w).position@[e2]->Some_0.y as int,
                        )]@,
                        e2,
                    ) by {
                        let i2 = old(w).map.spec_idx(
                            old(w).position@[e2]->Some_0.x as int,
                            old(w).position@[e2]->Some_0.y as int,
                        );
                        assert(old(w).map.in_bounds(
                            old(w).position@[e2]->Some_0.x as int,
                            old(w).position@[e2]->Some_0.y as int,
                        ));
                        old(w).map.lemma_idx_in_range(
                            old(w).position@[e2]->Some_0.x as int,
                            old(w).position@[e2]->Some_0.y as int,
                        );
                        if e2 < e {
                            assert(World::queued(tc0[i2]@, e2));
                            let j = choose|j: int|
                                0 <= j < tc0[i2]@.len() && #[trigger] tc0[i2]@[j] == e2;
                            assert(w.map.tile_content@[i2]@[j] == e2);
                        }
                    }
                }
            } else {
                proof {
                    assert forall|i: int|
                        0 <= i < w.map.blocked@.len() implies (#[trigger] w.map.blocked@[i]) == (
                    old(w).map.tiles@[i] == TileType::Wall || exists|e2: int|
                        0 <= e2 < e + 1 && old(w).blocks_tile@[e2] && positioned_at(
                            old(w),
                            e2,
                            i,
                        )) by {}
                }
            }
            e = e + 1;
        }
    }
}

} // verus!
