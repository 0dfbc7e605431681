//! Door placement: a door fits on a floor tile that sits in a one-tile
//! corridor gap, either east-west or north-south.

use vstd::prelude::*;

use crate::map_builders::{BuilderMap, MetaMapBuilder};
use crate::map::TileType;
use crate::rng;

verus! {

/// Something already spawns on tile `idx`.
pub open spec fn spawn_taken(b: &BuilderMap, idx: int) -> bool {
    exists|k: int| 0 <= k < b.spawn_list@.len() && (#[trigger] b.spawn_list@[k]).0 == idx
}

/// A door fits on `idx`: a free floor tile in a one-tile horizontal or
/// vertical gap, away from the map rim.
pub open spec fn spec_door_possible(b: &BuilderMap, idx: int) -> bool {
    let w = b.map.width as int;
    let h = b.map.height as int;
    let x = idx % w;
    let y = idx / w;
    &&& !spawn_taken(b, idx)
    &&& b.map.tiles@[idx] == TileType::Floor
    &&& 1 < x < w - 2
    &&& 1 < y < h - 2
    &&& ((b.map.tiles@[idx - 1] == TileType::Floor && b.map.tiles@[idx + 1] == TileType::Floor
        && b.map.tiles@[idx - w] == TileType::Wall && b.map.tiles@[idx + w] == TileType::Wall) || (
    b.map.tiles@[idx - 1] == TileType::Wall && b.map.tiles@[idx + 1] == TileType::Wall
        && b.map.tiles@[idx - w] == TileType::Floor && b.map.tiles@[idx + w] == TileType::Floor))
}

/// Sprinkles doors over corridor gaps.
pub struct DoorPlacement {}

impl MetaMapBuilder for DoorPlacement {
    fn build_map(&mut self, build_data: &mut BuilderMap) {
        self.doors(build_data);
    }
}

impl DoorPlacement {
    /// A fresh door placer.
    pub fn new() -> (r: Box<DoorPlacement>) {
        Box::new(DoorPlacement {})
    }

    /// A door fits on tile `idx` of the map being built.
    pub fn door_possible(&self, build_data: &BuilderMap, idx: usize) -> (r: bool)
        requires
            build_data.wf(),
            idx < build_data.map.tiles@.len(),
        ensures
            r == spec_door_possible(build_data, idx as int),
    {
        let count = build_data.spawn_list.len();
        let mut k: usize = 0;
        let mut blocked = false;
        while k < count
            invariant
                k <= count,
                count == build_data.spawn_list@.len(),
                blocked == exists|j: int|
                    0 <= j < k && (#[trigger] build_data.spawn_list@[j]).0 == idx,
            decreases count - k,
        {
            if build_data.spawn_list[k].0 == idx {
                proof {
                    assert(build_data.spawn_list@[k as int].0 == idx);
                }
                blocked = true;
            }
            k = k + 1;
        }
        if blocked {
            return false;
        }
        let total_tiles = build_data.map.tiles.len();
        let w = build_data.map.width as usize;
        let x = idx % w;
        let y = idx / w;
        let h = build_data.map.height as usize;
        if !(w >= 4 && h >= 4 && x > 1 && x < w - 2 && y > 1 && y < h - 2) {
            return false;
        }
        proof {
            let wi = build_data.map.width as int;
            let hi = build_data.map.height as int;
            assert(idx as int % wi == x as int && idx as int / wi == y as int) by (nonlinear_arith)
                requires
                    wi > 0,
                    x == idx % (wi as usize),
                    y == idx / (wi as usize),
                    wi == build_data.map.width,
            ;
            assert((y as int) * wi + x < hi * wi) by (nonlinear_arith)
                requires
                    0 <= x < wi,
                    0 <= y as int,
                    (y as int) < hi - 2,
                    2 < hi,
            ;
            assert((y as int) * wi + x == idx) by (nonlinear_arith)
                requires
                    wi > 0,
                    x == idx as int % wi,
                    y as int == idx as int / wi,
            ;
            assert(((y as int) + 1) * wi == (y as int) * wi + wi) by (nonlinear_arith);
            assert(((y as int) - 1) * wi == (y as int) * wi - wi) by (nonlinear_arith);
            assert((((y as int) + 1) * wi + x) < hi * wi) by (nonlinear_arith)
                requires
                    0 <= x < wi,
                    0 <= (y as int) + 1 < hi,
            ;
            assert((y as int) * wi >= 2 * wi) by (nonlinear_arith)
                requires
                    y as int >= 2,
                    wi > 0,
            ;
            assert(hi * wi == wi * hi) by (nonlinear_arith);
            assert(build_data.map.tiles@.len() == wi * hi);
            assert(idx >= 2 * wi);
            assert(idx + wi < build_data.map.tiles@.len());
            assert(w as int == wi);
            assert(idx >= w);
            assert(idx + w < build_data.map.tiles@.len());
        }
        let floor_here = match build_data.map.tiles[idx] {
            TileType::Floor => true,
            _ => false,
        };
        if !floor_here {
            return false;
        }
        let west = build_data.map.tiles[idx - 1];
        let east = build_data.map.tiles[idx + 1];
        let north = build_data.map.tiles[idx - w];
        let south = build_data.map.tiles[idx + w];
        let ew = (match west {
            TileType::Floor => true,
            _ => false,
        }) && (match east {
            TileType::Floor => true,
            _ => false,
        }) && (match north {
            TileType::Wall => true,
            _ => false,
        }) && (match south {
            TileType::Wall => true,
            _ => false,
        });
        let ns = (match west {
            TileType::Wall => true,
            _ => false,
        }) && (match east {
            TileType::Wall => true,
            _ => false,
        }) && (match north {
            TileType::Floor => true,
            _ => false,
        }) && (match south {
            TileType::Floor => true,
            _ => false,
        });
        ew || ns
    }

    /// Walk the corridors (or, without any, the whole floor, with a die
    /// roll per tile) and spawn a door wherever one fits.
    fn doors(&mut self, build_data: &mut BuilderMap)
        requires
            old(build_data).wf(),
        ensures
            final(build_data).wf(),
    {
        let corridors = match &build_data.corridors {
            Some(cs) => Some(cs.clone()),
            None => None,
        };
        match corridors {
            Some(cors) => {
                let clen = cors.len();
                let mut c: usize = 0;
                while c < clen
                    invariant
                        c <= clen,
                        clen == cors@.len(),
                        build_data.wf(),
                    decreases clen - c,
                {
                    let cor = &cors[c];
                    if cor.len() > 2 {
                        let first = cor[0];
                        if first < build_data.map.tiles.len() {
                            if self.door_possible(build_data, first) {
                                build_data.spawn_list.push((first, String::from_str("Door")));
                            }
                        }
                    }
                    c = c + 1;
                }
            },
            None => {
                let count = build_data.map.tiles.len();
                let mut i: usize = 0;
                while i < count
                    invariant
                        i <= count,
                        build_data.wf(),
                        count == build_data.map.tiles@.len(),
                    decreases count - i,
                {
                    let is_floor = match build_data.map.tiles[i] {
                        TileType::Floor => true,
                        _ => false,
                    };
                    if is_floor && self.door_possible(build_data, i) && rng::range_1_to(3) == 1 {
                        build_data.spawn_list.push((i, String::from_str("Door")));
                    }
                    i = i + 1;
                }
            },
        }
    }
}

} // verus!
