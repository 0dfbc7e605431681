//! Corridor spawning: each corridor laid out gets a roll on the spawn
//! table.

use vstd::prelude::*;

use crate::map_builders::{BuilderMap, MetaMapBuilder};
use crate::spawner;

verus! {

/// Spawns along the corridors.
pub struct CorridorSpawner {}

impl MetaMapBuilder for CorridorSpawner {
    fn build_map(&mut self, build_data: &mut BuilderMap) {
        self.build(build_data);
    }
}

impl CorridorSpawner {
    /// A fresh corridor spawner.
    pub fn new() -> (r: Box<CorridorSpawner>) {
        Box::new(CorridorSpawner {})
    }

    /// Roll spawns over every corridor laid out; the spawn list only
    /// grows, and only with tiles of the corridors. Without corridors,
    /// nothing happens.
    fn build(&mut self, build_data: &mut BuilderMap)
        requires
            old(build_data).wf(),
        ensures
            final(build_data).wf(),
            *final(build_data) == (BuilderMap {
                spawn_list: final(build_data).spawn_list,
                ..*old(build_data)
            }),
    {
        let corridors = match &build_data.corridors {
            Some(cs) => Some(cs.clone()),
            None => None,
        };
        if let Some(cors) = corridors {
            let clen = cors.len();
            let mut c: usize = 0;
            while c < clen
                invariant
                    c <= clen,
                    clen == cors@.len(),
                    build_data.wf(),
                    *build_data == (BuilderMap {
                        spawn_list: build_data.spawn_list,
                        ..*old(build_data)
                    }),
                decreases clen - c,
            {
                let depth = build_data.map.depth;
                let area = cors[c].clone();
                let ghost sl0 = build_data.spawn_list@;
                spawner::spawn_region(
                    &build_data.map,
                    &area,
                    depth,
                    &mut build_data.spawn_list,
                );
                proof {
                    assert forall|k: int|
                        0 <= k < sl0.len() implies (#[trigger] build_data.spawn_list@[k])
                        == sl0[k] by {
                        assert(build_data.spawn_list@.subrange(0, sl0.len() as int)[k] == sl0[k]);
                    }
                }
                c = c + 1;
            }
        }
    }
}

} // verus!
