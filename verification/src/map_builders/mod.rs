//! Procedural map building: an initial builder carves the level, meta
//! builders decorate it. The turn engine consumes the finished map and
//! spawn list; the building strategies themselves are collaborators of the
//! engine, here reduced to the simple room builder and its decorators.

use vstd::prelude::*;

use crate::components::Position;
use crate::map::{GameMap, TileType};
use crate::rect::Rect;

pub mod door_placement;
pub mod prefab_sections;
pub mod room_based_starting_position;
pub mod room_corridor_spawner;
pub mod simple_map;

verus! {

/// Everything a chain of builders accumulates: the map being carved, the
/// rooms and corridors laid so far, where the player starts, and what to
/// spawn where.
pub struct BuilderMap {
    pub spawn_list: Vec<(usize, String)>,
    pub map: GameMap,
    pub starting_position: Option<Position>,
    pub rooms: Option<Vec<Rect>>,
    pub corridors: Option<Vec<Vec<usize>>>,
    pub history: Vec<GameMap>,
}

impl BuilderMap {
    /// The carved map stays structurally sound and the spawn list stays on
    /// it.
    pub open spec fn wf(&self) -> bool {
        &&& self.map.wf()
        &&& forall|k: int|
            0 <= k < self.spawn_list@.len() ==> (#[trigger] self.spawn_list@[k]).0
                < self.map.tiles@.len()
    }

    /// Record a snapshot of the carving so far.
    pub fn take_snapshot(&mut self)
        requires
            old(self).wf(),
        ensures
            final(self).wf(),
            final(self).map == old(self).map,
            final(self).spawn_list@ == old(self).spawn_list@,
            final(self).history@.len() == old(self).history@.len() + 1,
    {
        let snapshot = GameMap {
            tiles: self.map.tiles.clone(),
            blocked: self.map.blocked.clone(),
            revealed_tiles: self.map.revealed_tiles.clone(),
            visible_tiles: self.map.visible_tiles.clone(),
            illuminated_tiles: self.map.illuminated_tiles.clone(),
            view_blocked: self.map.view_blocked.clone(),
            bloodstains: self.map.bloodstains.clone(),
            tile_content: Vec::new(),
            width: self.map.width,
            height: self.map.height,
            depth: self.map.depth,
        };
        self.history.push(snapshot);
    }
}

/// A builder that carves the initial level.
pub trait InitialMapBuilder {
    /// Carve the level into `build_data`.
    fn build_map(&mut self, build_data: &mut BuilderMap)
        requires
            old(build_data).wf(),
        ensures
            final(build_data).wf(),
    ;
}

/// A builder that decorates an already carved level.
pub trait MetaMapBuilder {
    /// Decorate the level in `build_data`.
    fn build_map(&mut self, build_data: &mut BuilderMap)
        requires
            old(build_data).wf(),
        ensures
            final(build_data).wf(),
    ;
}

/// Carve a room: every tile strictly inside the rectangle becomes floor.
pub fn apply_room_to_map(map: &mut GameMap, room: &Rect)
    requires
        old(map).wf(),
    ensures
        final(map).wf(),
        *final(map) == (GameMap { tiles: final(map).tiles, ..*old(map) }),
        final(map).tiles@.len() == old(map).tiles@.len(),
        forall|i: int|
            0 <= i < final(map).tiles@.len() && (#[trigger] final(map).tiles@[i]) != old(
                map,
            ).tiles@[i] ==> final(map).tiles@[i] == TileType::Floor,
{
    let mut y: i64 = room.y1 as i64 + 1;
    while y <= room.y2 as i64
        invariant
            y <= 0x8000_0000,
            old(map).wf(),
            map.wf(),
            *map == (GameMap { tiles: map.tiles, ..*old(map) }),
            map.tiles@.len() == old(map).tiles@.len(),
            forall|i: int|
                0 <= i < map.tiles@.len() && (#[trigger] map.tiles@[i]) != old(map).tiles@[i]
                    ==> map.tiles@[i] == TileType::Floor,
        decreases room.y2 as int + 1 - y as int,
    {
        let mut x: i64 = room.x1 as i64 + 1;
        while x <= room.x2 as i64
            invariant
                x <= 0x8000_0000,
                old(map).wf(),
                map.wf(),
                *map == (GameMap { tiles: map.tiles, ..*old(map) }),
                map.tiles@.len() == old(map).tiles@.len(),
                forall|i: int|
                    0 <= i < map.tiles@.len() && (#[trigger] map.tiles@[i]) != old(map).tiles@[i]
                        ==> map.tiles@[i] == TileType::Floor,
            decreases room.x2 as int + 1 - x as int,
        {
            if x >= 0 && x < map.width as i64 && y >= 0 && y < map.height as i64 {
                let idx = map.xy_idx(x as i32, y as i32);
                map.tiles.set(idx, TileType::Floor);
            }
            x = x + 1;
        }
        y = y + 1;
    }
}

/// Carve a one-tile-high horizontal tunnel along row `y`.
pub fn apply_horizontal_tunnel(map: &mut GameMap, x1: i32, x2: i32, y: i32)
    requires
        old(map).wf(),
    ensures
        final(map).wf(),
        *final(map) == (GameMap { tiles: final(map).tiles, ..*old(map) }),
        final(map).tiles@.len() == old(map).tiles@.len(),
        forall|i: int|
            0 <= i < final(map).tiles@.len() && (#[trigger] final(map).tiles@[i]) != old(
                map,
            ).tiles@[i] ==> final(map).tiles@[i] == TileType::Floor,
{
    let lo: i64 = if x1 < x2 {
        x1 as i64
    } else {
        x2 as i64
    };
    let hi: i64 = if x1 < x2 {
        x2 as i64
    } else {
        x1 as i64
    };
    let mut x: i64 = lo;
    while x <= hi
        invariant
            hi <= 0x7fff_ffff,
            old(map).wf(),
            map.wf(),
            *map == (GameMap { tiles: map.tiles, ..*old(map) }),
            map.tiles@.len() == old(map).tiles@.len(),
            forall|i: int|
                0 <= i < map.tiles@.len() && (#[trigger] map.tiles@[i]) != old(map).tiles@[i]
                    ==> map.tiles@[i] == TileType::Floor,
        decreases hi + 1 - x,
    {
        if x >= 0 && x < map.width as i64 && y >= 0 && y < map.height {
            let idx = map.xy_idx(x as i32, y);
            map.tiles.set(idx, TileType::Floor);
        }
        x = x + 1;
    }
}

/// Carve a one-tile-wide vertical tunnel along column `x`.
pub fn apply_vertical_tunnel(map: &mut GameMap, y1: i32, y2: i32, x: i32)
    requires
        old(map).wf(),
    ensures
        final(map).wf(),
        *final(map) == (GameMap { tiles: final(map).tiles, ..*old(map) }),
        final(map).tiles@.len() == old(map).tiles@.len(),
        forall|i: int|
            0 <= i < final(map).tiles@.len() && (#[trigger] final(map).tiles@[i]) != old(
                map,
            ).tiles@[i] ==> final(map).tiles@[i] == TileType::Floor,
{
    let lo: i64 = if y1 < y2 {
        y1 as i64
    } else {
        y2 as i64
    };
    let hi: i64 = if y1 < y2 {
        y2 as i64
    } else {
        y1 as i64
    };
    let mut y: i64 = lo;
    while y <= hi
        invariant
            hi <= 0x7fff_ffff,
            old(map).wf(),
            map.wf(),
            *map == (GameMap { tiles: map.tiles, ..*old(map) }),
            map.tiles@.len() == old(map).tiles@.len(),
            forall|i: int|
                0 <= i < map.tiles@.len() && (#[trigger] map.tiles@[i]) != old(map).tiles@[i]
                    ==> map.tiles@[i] == TileType::Floor,
        decreases hi + 1 - y,
    {
        if y >= 0 && y < map.height as i64 && x >= 0 && x < map.width {
            let idx = map.xy_idx(x, y as i32);
            map.tiles.set(idx, TileType::Floor);
        }
        y = y + 1;
    }
}

} // verus!
