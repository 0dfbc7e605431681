//! Spawning: the player's starting build, and the weighted random spawn
//! rolls that populate regions of the map with monsters and items.

use vstd::prelude::*;

use crate::components::{
    BasicAttack, Entity, Hunger, HungerState, Name, Position, Renderable, Resistances, Rgb, Stats,
    Viewshed,
};
use crate::map::GameMap;
use crate::rng;
use crate::world::World;

verus! {

/// A weighted spawn table: each entry is a name with its weight.
pub struct RandomTable {
    pub entries: Vec<(String, u32)>,
    pub total_weight: u64,
}

impl RandomTable {
    /// The recorded total matches the entries.
    pub open spec fn wf(&self) -> bool {
        &&& self.entries@.len() <= 64
        &&& self.total_weight <= self.entries@.len() * 1000
        &&& forall|k: int| 0 <= k < self.entries@.len() ==> (#[trigger] self.entries@[k]).1 <= 1000
    }

    /// An empty table.
    pub fn new() -> (r: Self)
        ensures
            r.wf(),
            r.entries@.len() == 0,
            r.total_weight == 0,
    {
        RandomTable { entries: Vec::new(), total_weight: 0 }
    }

    /// The table with one more weighted entry; a table already full, or an
    /// entry out of scale, leaves it as it stands.
    pub fn add(self, name: String, weight: u32) -> (r: Self)
        requires
            self.wf(),
        ensures
            r.wf(),
            (self.entries@.len() < 64 && weight <= 1000) ==> r.entries@.len()
                == self.entries@.len() + 1 && r.entries@.last().0@ == name@
                && r.entries@.last().1 == weight && r.entries@.take(self.entries@.len() as int)
                == self.entries@ && r.total_weight == self.total_weight + weight,
            !(self.entries@.len() < 64 && weight <= 1000) ==> r.entries@ == self.entries@
                && r.total_weight == self.total_weight,
    {
        if self.entries.len() < 64 && weight <= 1000 {
            let mut entries = self.entries;
            let ghost before = entries@;
            entries.push((name, weight));
            proof {
                assert(entries@.take(before.len() as int) =~= before);
            }
            RandomTable { entries, total_weight: self.total_weight + weight as u64 }
        } else {
            self
        }
    }

    /// Draw one name, each entry weighted by its weight; an empty or
    /// weightless table yields nothing. Which name comes back is random:
    /// all that is promised is that it is one of the entries.
    pub fn roll(&self) -> (r: Option<String>)
        requires
            self.wf(),
        ensures
            r is Some ==> exists|k: int|
                0 <= k < self.entries@.len() && (#[trigger] self.entries@[k]).0@ == r->Some_0@,
            self.entries@.len() == 0 ==> r is None,
    {
        if self.entries.len() == 0 || self.total_weight == 0 {
            return None;
        }
        let mut draw: u64 = rng::range_1_to(self.total_weight) as u64;
        let count = self.entries.len();
        let mut k: usize = 0;
        while k < count
            invariant
                k <= count,
                count == self.entries@.len(),
                self.wf(),
            decreases count - k,
        {
            let weight = self.entries[k].1 as u64;
            if draw <= weight {
                return Some(self.entries[k].0.clone());
            }
            draw = if draw > weight {
                draw - weight
            } else {
                0
            };
            k = k + 1;
        }
        Some(self.entries[0].0.clone())
    }
}

/// The spawn table for a level of the given depth: deeper levels weight
/// the nastier spawns higher.
pub fn room_table(map_depth: i32) -> (r: RandomTable)
    ensures
        r.wf(),
{
    let depth_weight: u32 = if map_depth > 0 && map_depth < 1000 {
        map_depth as u32
    } else {
        1
    };
    RandomTable::new().add(String::from_str("Goblin"), 10).add(
        String::from_str("Orc"),
        depth_weight,
    ).add(String::from_str("Health Potion"), 2).add(String::from_str("Fireball Scroll"), 1).add(
        String::from_str("Confusion Scroll"),
        1,
    ).add(String::from_str("Magic Missile Scroll"), 2).add(String::from_str("Knife"), 2).add(
        String::from_str("Leather Armor"),
        1,
    ).add(String::from_str("Torch"), 3).add(String::from_str("Bear Trap"), 1)
}

/// Roll spawns over a region of tiles: a random number of distinct tiles
/// from the area each take one rolled spawn. The spawn list only grows,
/// and only with in-map tiles.
pub fn spawn_region(
    map: &GameMap,
    area: &Vec<usize>,
    map_depth: i32,
    spawn_list: &mut Vec<(usize, String)>,
)
    requires
        map.wf(),
    ensures
        old(spawn_list)@.is_prefix_of(final(spawn_list)@),
        forall|k: int|
            old(spawn_list)@.len() <= k < final(spawn_list)@.len() ==> (#[trigger] final(spawn_list)@[k]).0 < map.tiles@.len(),
{
    proof {
        crate::components::lemma_prefix_refl(spawn_list@);
    }
    let spawn_table = room_table(map_depth);
    let mut areas: Vec<usize> = area.clone();
    if areas.len() == 0 {
        return ;
    }
    let budget: u64 = rng::range_1_to(7) as u64 + (if map_depth > 4 {
        map_depth as u64 - 4
    } else {
        0
    });
    let num_spawns: u64 = if budget < areas.len() as u64 {
        budget
    } else {
        areas.len() as u64
    };
    let mut s: u64 = 0;
    while s < num_spawns
        invariant
            map.wf(),
            spawn_table.wf(),
            old(spawn_list)@.is_prefix_of(spawn_list@),
            forall|k: int|
                old(spawn_list)@.len() <= k < spawn_list@.len() ==> (#[trigger] spawn_list@[k]).0
                    < map.tiles@.len(),
        decreases num_spawns - s,
    {
        s = s + 1;
        if areas.len() == 0 {
            break ;
        }
        let pick: usize = if areas.len() == 1 || areas.len() as u64 > 0x7fff_fffe {
            0
        } else {
            (rng::range_1_to(areas.len() as u64) - 1) as usize
        };
        let map_idx = areas.remove(pick);
        if map_idx < map.tiles.len() {
            if let Some(name) = spawn_table.roll() {
                let ghost sl0 = spawn_list@;
                spawn_list.push((map_idx, name));
                proof {
                    crate::components::lemma_prefix_push(
                        old(spawn_list)@,
                        sl0,
                        spawn_list@[spawn_list@.len() - 1],
                    );
                }
            }
        }
    }
}

/// Spawn the player at the given tile with its starting build, and return
/// its entity.
pub fn player(w: &mut World, x: i32, y: i32) -> (r: Entity)
    requires
        old(w).wf(),
        old(w).n < usize::MAX,
        old(w).map.in_bounds(x as int, y as int),
    ensures
        final(w).wf(),
        r == old(w).n,
        final(w).n == old(w).n + 1,
        final(w).player@[r as int],
        final(w).creature@[r as int],
        final(w).position@[r as int] == Some(Position { x, y }),
        final(w).stats@[r as int] == Some(
            Stats {
                max_hp: 8,
                hp: 8,
                max_fp: 8,
                fp: 8,
                max_mp: 8,
                mp: 8,
                mind: 1,
                body: 1,
                soul: 1,
            },
        ),
        final(w).basic_attack@[r as int] == Some(
            BasicAttack { base: crate::components::DamageAtom::Bludgeon(1), current: crate::components::DamageAtom::Bludgeon(1) },
        ),
        final(w).resistances@[r as int] == Some(
            Resistances {
                bludgeon: crate::components::DamageAtom::Bludgeon(0),
                pierce: crate::components::DamageAtom::Pierce(0),
                slash: crate::components::DamageAtom::Slash(0),
                thermal: crate::components::DamageAtom::Thermal(0),
            },
        ),
        final(w).hunger@[r as int] == Some(Hunger { state: HungerState::Satiated, clock: 300 }),
        forall|e: int| 0 <= e < old(w).n ==> World::slot_same(old(w), final(w), e),
{
    let e = w.create_entity();
    w.position.set(e, Some(Position { x, y }));
    w.renderable.set(
        e,
        Some(
            Renderable {
                glyph: 64,
                fg: Rgb { r: 255, g: 255, b: 0 },
                bg: Rgb { r: 0, g: 0, b: 0 },
                render_order: 0,
            },
        ),
    );
    w.creature.set(e, true);
    w.player.set(e, true);
    w.viewshed.set(e, Some(Viewshed { visible_tiles: Vec::new(), range: 5, dirty: true }));
    w.name.set(e, Some(Name { name: String::from_str("Player") }));
    w.stats.set(
        e,
        Some(
            Stats {
                max_hp: 8,
                hp: 8,
                max_fp: 8,
                fp: 8,
                max_mp: 8,
                mp: 8,
                mind: 1,
                body: 1,
                soul: 1,
            },
        ),
    );
    w.basic_attack.set(e, Some(BasicAttack::default()));
    w.resistances.set(e, Some(Resistances::default()));
    w.hunger.set(e, Some(Hunger { state: HungerState::Satiated, clock: 300 }));
    proof {
        assert forall|e2: int| 0 <= e2 < old(w).n implies World::slot_same(old(w), w, e2) by {}
    }
    e
}

} // verus!
