//! The static per-level tile grid with its blocking / visibility /
//! illumination bitsets and the per-tile spatial index of entity occupancy.

use vstd::prelude::*;

use crate::components::Entity;

verus! {

/// What a map cell is made of.
#[derive(PartialEq, Eq, Structural, Clone, Copy, Debug)]
pub enum TileType {
    Wall,
    Floor,
    StairsDown,
}

/// A vector of `n` copies of `val`.
pub fn filled_vec<T: Copy>(n: usize, val: T) -> (r: Vec<T>)
    ensures
        r@.len() == n,
        forall|i: int| 0 <= i < n ==> r@[i] == val,
{
    let mut r: Vec<T> = Vec::new();
    let mut k: usize = 0;
    while k < n
        invariant
            k <= n,
            r@.len() == k,
            forall|i: int| 0 <= i < k ==> r@[i] == val,
        decreases n - k,
    {
        r.push(val);
        k = k + 1;
    }
    r
}

/// The level map. All per-tile vectors run row by row, `width` cells per
/// row; `tile_content` is rebuilt every tick by the map indexing system.
pub struct GameMap {
    pub tiles: Vec<TileType>,
    pub blocked: Vec<bool>,
    pub revealed_tiles: Vec<bool>,
    pub visible_tiles: Vec<bool>,
    pub illuminated_tiles: Vec<bool>,
    pub view_blocked: Vec<bool>,
    pub bloodstains: Vec<bool>,
    pub tile_content: Vec<Vec<Entity>>,
    pub width: i32,
    pub height: i32,
    pub depth: i32,
}

impl GameMap {
    /// Structural well-formedness: positive dimensions and one entry per
    /// tile in every per-tile vector.
    pub open spec fn wf(&self) -> bool {
        &&& 0 < self.width
        &&& 0 < self.height
        &&& self.tiles@.len() == self.width * self.height
        &&& self.blocked@.len() == self.tiles@.len()
        &&& self.revealed_tiles@.len() == self.tiles@.len()
        &&& self.visible_tiles@.len() == self.tiles@.len()
        &&& self.illuminated_tiles@.len() == self.tiles@.len()
        &&& self.view_blocked@.len() == self.tiles@.len()
        &&& self.bloodstains@.len() == self.tiles@.len()
        &&& self.tile_content@.len() == self.tiles@.len()
    }

    /// The point lies on the map.
    pub open spec fn in_bounds(&self, x: int, y: int) -> bool {
        &&& 0 <= x < self.width
        &&& 0 <= y < self.height
    }

    /// Row-major index of the cell at `(x, y)`.
    pub open spec fn spec_idx(&self, x: int, y: int) -> int {
        y * self.width + x
    }

    pub proof fn lemma_idx_in_range(&self, x: int, y: int)
        requires
            self.wf(),
            self.in_bounds(x, y),
        ensures
            0 <= self.spec_idx(x, y) < self.tiles@.len(),
    {
        let w = self.width as int;
        let h = self.height as int;
        assert(y * w + x < h * w) by (nonlinear_arith)
            requires
                0 <= x < w,
                0 <= y < h,
        ;
        assert(0 <= y * w + x) by (nonlinear_arith)
            requires
                0 <= x,
                0 <= y,
                0 < w,
        ;
        assert(h * w == w * h) by (nonlinear_arith);
    }

    /// Row-major index of the cell at `(x, y)`.
    pub fn xy_idx(&self, x: i32, y: i32) -> (idx: usize)
        requires
            self.wf(),
            self.in_bounds(x as int, y as int),
        ensures
            idx == self.spec_idx(x as int, y as int),
            idx < self.tiles@.len(),
    {
        let n = self.tiles.len();
        proof {
            self.lemma_idx_in_range(x as int, y as int);
        }
        (y as usize) * (self.width as usize) + (x as usize)
    }

    /// A fresh all-wall map of the given depth and dimensions, nothing yet
    /// revealed, visible, lit or occupied.
    pub fn new(new_depth: i32, width: i32, height: i32) -> (m: GameMap)
        requires
            0 < width,
            0 < height,
            width * height <= usize::MAX,
        ensures
            m.wf(),
            m.width == width,
            m.height == height,
            m.depth == new_depth,
            forall|i: int| 0 <= i < m.tiles@.len() ==> m.tiles@[i] == TileType::Wall,
            forall|i: int| 0 <= i < m.tiles@.len() ==> !m.revealed_tiles@[i],
            forall|i: int| 0 <= i < m.tiles@.len() ==> !m.visible_tiles@[i],
            forall|i: int| 0 <= i < m.tiles@.len() ==> m.tile_content@[i]@.len() == 0,
    {
        proof {
            assert(0 < width * height) by (nonlinear_arith)
                requires
                    0 < width,
                    0 < height,
            ;
            assert((width as usize) as int * (height as usize) as int == width * height);
        }
        let count: usize = (width as usize) * (height as usize);
        let mut tile_content: Vec<Vec<Entity>> = Vec::new();
        let mut k: usize = 0;
        while k < count
            invariant
                k <= count,
                tile_content@.len() == k,
                forall|i: int| 0 <= i < k ==> tile_content@[i]@.len() == 0,
            decreases count - k,
        {
            tile_content.push(Vec::new());
            k = k + 1;
        }
        GameMap {
            tiles: filled_vec(count, TileType::Wall),
            blocked: filled_vec(count, false),
            revealed_tiles: filled_vec(count, false),
            visible_tiles: filled_vec(count, false),
            illuminated_tiles: filled_vec(count, false),
            view_blocked: filled_vec(count, false),
            bloodstains: filled_vec(count, false),
            tile_content,
            width,
            height,
            depth: new_depth,
        }
    }

    /// Seed the blocking bitset from the tile grid alone: walls block,
    /// everything else is walkable until an entity stands on it.
    pub fn populate_blocked(&mut self)
        requires
            old(self).wf(),
        ensures
            final(self).wf(),
            *final(self) == (GameMap { blocked: final(self).blocked, ..*old(self) }),
            final(self).blocked@.len() == old(self).blocked@.len(),
            forall|i: int|
                0 <= i < final(self).blocked@.len() ==> final(self).blocked@[i] == (old(
                    self,
                ).tiles@[i] == TileType::Wall),
    {
        let n = self.tiles.len();
        let mut k: usize = 0;
        while k < n
            invariant
                k <= n,
                self.wf(),
                n == self.tiles@.len(),
                *self == (GameMap { blocked: self.blocked, ..*old(self) }),
                self.blocked@.len() == old(self).blocked@.len(),
                forall|i: int|
                    0 <= i < k ==> self.blocked@[i] == (old(self).tiles@[i] == TileType::Wall),
                forall|i: int| k <= i < n ==> self.blocked@[i] == old(self).blocked@[i],
            decreases n - k,
        {
            let is_wall = match self.tiles[k] {
                TileType::Wall => true,
                _ => false,
            };
            self.blocked.set(k, is_wall);
            k = k + 1;
        }
    }

    /// Empty every tile's occupancy list.
    pub fn clear_content_index(&mut self)
        requires
            old(self).wf(),
        ensures
            final(self).wf(),
            *final(self) == (GameMap { tile_content: final(self).tile_content, ..*old(self) }),
            final(self).tile_content@.len() == old(self).tile_content@.len(),
            forall|i: int|
                0 <= i < final(self).tile_content@.len()
                    ==> final(self).tile_content@[i]@.len() == 0,
    {
        let n = self.tile_content.len();
        let mut k: usize = 0;
        while k < n
            invariant
                k <= n,
                self.wf(),
                n == self.tile_content@.len(),
                *self == (GameMap { tile_content: self.tile_content, ..*old(self) }),
                self.tile_content@.len() == old(self).tile_content@.len(),
                forall|i: int| 0 <= i < k ==> self.tile_content@[i]@.len() == 0,
            decreases n - k,
        {
            self.tile_content.set(k, Vec::new());
            k = k + 1;
        }
    }
}

} // verus!
