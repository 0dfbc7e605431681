//! The game world: an arena of entities with one optional component per
//! column, plus the shared resources (run state, player, map, log,
//! particle requests) that the systems read and write.

use vstd::prelude::*;

use crate::RunState;
use crate::components::{
    AoE, BasicAttack, Confusion, DamageOnUse, DamageQueue, Door, DropItemIntent, Entity,
    EntryTrigger, EquipIntent, Equippable, Equipped, Healing, Heals, Hunger, Immunities,
    InBackpack, Lightsource, MeleeIntent, Menuable, Name, Particle, ParticleRequest,
    PickUpIntent, Position, Ranged, Renderable, Resistances, Stats, Throwable, ThrowIntent,
    UnequipIntent, Useable, UseItemIntent, Viewshed, Weapon,
};
use crate::map::GameMap;

verus! {

/// Heterogeneous per-entity attribute bags with sparse occupancy: entity
/// `e` has a component exactly when column `c` holds `Some` (or `true` for
/// marker components) at index `e`. All columns always have length `n`.
pub struct World {
    pub n: usize,
    pub alive: Vec<bool>,
    // marker components
    pub player: Vec<bool>,
    pub hostile: Vec<bool>,
    pub creature: Vec<bool>,
    pub item: Vec<bool>,
    pub consumable: Vec<bool>,
    pub bleeding: Vec<bool>,
    pub flammable: Vec<bool>,
    pub aflame: Vec<bool>,
    pub hidden: Vec<bool>,
    pub just_moved: Vec<bool>,
    pub blocks_tile: Vec<bool>,
    pub blocks_visibility: Vec<bool>,
    pub magic_mapper: Vec<bool>,
    // data components
    pub position: Vec<Option<Position>>,
    pub stats: Vec<Option<Stats>>,
    pub name: Vec<Option<Name>>,
    pub renderable: Vec<Option<Renderable>>,
    pub particle: Vec<Option<Particle>>,
    pub viewshed: Vec<Option<Viewshed>>,
    pub damage_queue: Vec<Option<DamageQueue>>,
    pub resistances: Vec<Option<Resistances>>,
    pub basic_attack: Vec<Option<BasicAttack>>,
    pub weapon: Vec<Option<Weapon>>,
    pub equippable: Vec<Option<Equippable>>,
    pub equipped: Vec<Option<Equipped>>,
    pub in_backpack: Vec<Option<InBackpack>>,
    pub healing: Vec<Option<Healing>>,
    pub heals: Vec<Option<Heals>>,
    pub damage_on_use: Vec<Option<DamageOnUse>>,
    pub aoe: Vec<Option<AoE>>,
    pub confusion: Vec<Option<Confusion>>,
    pub hunger: Vec<Option<Hunger>>,
    pub throwable: Vec<Option<Throwable>>,
    pub useable: Vec<Option<Useable>>,
    pub menuable: Vec<Option<Menuable>>,
    pub lightsource: Vec<Option<Lightsource>>,
    pub entry_trigger: Vec<Option<EntryTrigger>>,
    pub ranged: Vec<Option<Ranged>>,
    pub immunities: Vec<Option<Immunities>>,
    pub door: Vec<Option<Door>>,
    // intent components
    pub melee_intent: Vec<Option<MeleeIntent>>,
    pub pickup_intent: Vec<Option<PickUpIntent>>,
    pub use_item_intent: Vec<Option<UseItemIntent>>,
    pub throw_intent: Vec<Option<ThrowIntent>>,
    pub drop_item_intent: Vec<Option<DropItemIntent>>,
    pub equip_intent: Vec<Option<EquipIntent>>,
    pub unequip_intent: Vec<Option<UnequipIntent>>,
    // shared resources
    pub run_state: RunState,
    pub player_entity: Entity,
    pub player_pos: Position,
    pub map: GameMap,
    pub log: Vec<String>,
    pub particles: Vec<ParticleRequest>,
    pub to_delete: Vec<Entity>,
}

impl World {
    /// Every component column has exactly one slot per entity.
    pub open spec fn wf_lens(&self) -> bool {
        &&& self.alive@.len() == self.n
        &&& self.player@.len() == self.n
        &&& self.hostile@.len() == self.n
        &&& self.creature@.len() == self.n
        &&& self.item@.len() == self.n
        &&& self.consumable@.len() == self.n
        &&& self.bleeding@.len() == self.n
        &&& self.flammable@.len() == self.n
        &&& self.aflame@.len() == self.n
        &&& self.hidden@.len() == self.n
        &&& self.just_moved@.len() == self.n
        &&& self.blocks_tile@.len() == self.n
        &&& self.blocks_visibility@.len() == self.n
        &&& self.magic_mapper@.len() == self.n
        &&& self.position@.len() == self.n
        &&& self.stats@.len() == self.n
        &&& self.name@.len() == self.n
        &&& self.renderable@.len() == self.n
        &&& self.particle@.len() == self.n
        &&& self.viewshed@.len() == self.n
        &&& self.damage_queue@.len() == self.n
        &&& self.resistances@.len() == self.n
        &&& self.basic_attack@.len() == self.n
        &&& self.weapon@.len() == self.n
        &&& self.equippable@.len() == self.n
        &&& self.equipped@.len() == self.n
        &&& self.in_backpack@.len() == self.n
        &&& self.healing@.len() == self.n
        &&& self.heals@.len() == self.n
        &&& self.damage_on_use@.len() == self.n
        &&& self.aoe@.len() == self.n
        &&& self.confusion@.len() == self.n
        &&& self.hunger@.len() == self.n
        &&& self.throwable@.len() == self.n
        &&& self.useable@.len() == self.n
        &&& self.menuable@.len() == self.n
        &&& self.lightsource@.len() == self.n
        &&& self.entry_trigger@.len() == self.n
        &&& self.ranged@.len() == self.n
        &&& self.immunities@.len() == self.n
        &&& self.door@.len() == self.n
        &&& self.melee_intent@.len() == self.n
        &&& self.pickup_intent@.len() == self.n
        &&& self.use_item_intent@.len() == self.n
        &&& self.throw_intent@.len() == self.n
        &&& self.drop_item_intent@.len() == self.n
        &&& self.equip_intent@.len() == self.n
        &&& self.unequip_intent@.len() == self.n
    }

    /// Every entity reference stored in a component or resource points at
    /// an existing slot.
    pub open spec fn wf_refs(&self) -> bool {
        &&& self.player_entity < self.n
        &&& forall|e: int|
            0 <= e < self.n && self.equipped@[e] is Some ==> self.equipped@[e]->Some_0.owner
                < self.n
        &&& forall|e: int|
            0 <= e < self.n && self.in_backpack@[e] is Some ==> self.in_backpack@[e]->Some_0.owner
                < self.n
        &&& forall|e: int|
            0 <= e < self.n && self.melee_intent@[e] is Some
                ==> self.melee_intent@[e]->Some_0.target < self.n
        &&& forall|e: int|
            0 <= e < self.n && self.pickup_intent@[e] is Some
                ==> self.pickup_intent@[e]->Some_0.item < self.n
                && self.pickup_intent@[e]->Some_0.desired_by < self.n
        &&& forall|e: int|
            0 <= e < self.n && self.use_item_intent@[e] is Some
                ==> self.use_item_intent@[e]->Some_0.item < self.n
        &&& forall|e: int|
            0 <= e < self.n && self.throw_intent@[e] is Some
                ==> self.throw_intent@[e]->Some_0.item < self.n
        &&& forall|e: int|
            0 <= e < self.n && self.drop_item_intent@[e] is Some
                ==> self.drop_item_intent@[e]->Some_0.item < self.n
        &&& forall|e: int|
            0 <= e < self.n && self.equip_intent@[e] is Some
                ==> self.equip_intent@[e]->Some_0.item < self.n
        &&& forall|e: int|
            0 <= e < self.n && self.unequip_intent@[e] is Some
                ==> self.unequip_intent@[e]->Some_0.item < self.n
        &&& forall|i: int| 0 <= i < self.to_delete@.len() ==> self.to_delete@[i] < self.n
        &&& forall|i: int, j: int|
            0 <= i < self.map.tile_content@.len() && 0 <= j < self.map.tile_content@[i]@.len()
                ==> self.map.tile_content@[i]@[j] < self.n
    }

    /// Data invariants: resource pools stay within their bounds, heals
    /// never drain, viewsheds stay on the map.
    pub open spec fn wf_data(&self) -> bool {
        &&& forall|e: int|
            0 <= e < self.n && self.stats@[e] is Some ==> (#[trigger] self.stats@[e])->Some_0.wf()
        &&& forall|e: int|
            0 <= e < self.n && self.healing@[e] is Some
                ==> (#[trigger] self.healing@[e])->Some_0.amount >= 0
        &&& forall|e: int|
            0 <= e < self.n && self.heals@[e] is Some
                ==> (#[trigger] self.heals@[e])->Some_0.amount >= 0
        &&& forall|e: int|
            0 <= e < self.n && self.position@[e] is Some ==> self.map.in_bounds(
                (#[trigger] self.position@[e])->Some_0.x as int,
                self.position@[e]->Some_0.y as int,
            )
        &&& forall|e: int|
            0 <= e < self.n && self.use_item_intent@[e] is Some
                && self.use_item_intent@[e]->Some_0.target is Some ==> self.map.in_bounds(
                (#[trigger] self.use_item_intent@[e])->Some_0.target->Some_0.x as int,
                self.use_item_intent@[e]->Some_0.target->Some_0.y as int,
            )
        &&& forall|e: int|
            0 <= e < self.n && self.throw_intent@[e] is Some
                && self.throw_intent@[e]->Some_0.target is Some ==> self.map.in_bounds(
                (#[trigger] self.throw_intent@[e])->Some_0.target->Some_0.x as int,
                self.throw_intent@[e]->Some_0.target->Some_0.y as int,
            )
        &&& forall|k: int|
            0 <= k < self.particles@.len() ==> self.map.in_bounds(
                (#[trigger] self.particles@[k]).x as int,
                self.particles@[k].y as int,
            )
        &&& forall|e: int, t: int|
            0 <= e < self.n && self.viewshed@[e] is Some && 0 <= t
                < self.viewshed@[e]->Some_0.visible_tiles@.len() ==> self.map.in_bounds(
                self.viewshed@[e]->Some_0.visible_tiles@[t].x as int,
                self.viewshed@[e]->Some_0.visible_tiles@[t].y as int,
            )
    }

    /// The world invariant every system preserves.
    pub open spec fn wf(&self) -> bool {
        &&& self.wf_lens()
        &&& self.wf_refs()
        &&& self.wf_data()
        &&& self.map.wf()
    }

    /// A fresh world over `map` with no entities, in the map-generation
    /// phase. The player entity slot is a placeholder until one is spawned.
    pub fn new(map: GameMap) -> (w: World)
        requires
            map.wf(),
            forall|i: int| 0 <= i < map.tile_content@.len() ==> map.tile_content@[i]@.len() == 0,
        ensures
            w.wf(),
            w.n == 1,
            w.map == map,
            w.run_state == RunState::MapGeneration,
            w.player_entity == 0,
            w.log@.len() == 0,
    {
        let mut w = World {
            n: 0,
            alive: Vec::new(),
            player: Vec::new(),
            hostile: Vec::new(),
            creature: Vec::new(),
            item: Vec::new(),
            consumable: Vec::new(),
            bleeding: Vec::new(),
            flammable: Vec::new(),
            aflame: Vec::new(),
            hidden: Vec::new(),
            just_moved: Vec::new(),
            blocks_tile: Vec::new(),
            blocks_visibility: Vec::new(),
            magic_mapper: Vec::new(),
            position: Vec::new(),
            stats: Vec::new(),
            name: Vec::new(),
            renderable: Vec::new(),
            particle: Vec::new(),
            viewshed: Vec::new(),
            damage_queue: Vec::new(),
            resistances: Vec::new(),
            basic_attack: Vec::new(),
            weapon: Vec::new(),
            equippable: Vec::new(),
            equipped: Vec::new(),
            in_backpack: Vec::new(),
            healing: Vec::new(),
            heals: Vec::new(),
            damage_on_use: Vec::new(),
            aoe: Vec::new(),
            confusion: Vec::new(),
            hunger: Vec::new(),
            throwable: Vec::new(),
            useable: Vec::new(),
            menuable: Vec::new(),
            lightsource: Vec::new(),
            entry_trigger: Vec::new(),
            ranged: Vec::new(),
            immunities: Vec::new(),
            door: Vec::new(),
            melee_intent: Vec::new(),
            pickup_intent: Vec::new(),
            use_item_intent: Vec::new(),
            throw_intent: Vec::new(),
            drop_item_intent: Vec::new(),
            equip_intent: Vec::new(),
            unequip_intent: Vec::new(),
            run_state: RunState::MapGeneration,
            player_entity: 0,
            player_pos: Position { x: 0, y: 0 },
            map,
            log: Vec::new(),
            particles: Vec::new(),
            to_delete: Vec::new(),
        };
        let _placeholder = w.create_entity();
        w
    }

    /// Add a fresh, component-less entity slot and return its id.
    pub fn create_entity(&mut self) -> (e: Entity)
        requires
            old(self).wf_lens(),
            old(self).n < usize::MAX,
        ensures
            final(self).wf_lens(),
            e == old(self).n,
            final(self).n == old(self).n + 1,
            old(self).wf() ==> final(self).wf(),
            // every pre-existing slot is unchanged, and the new slot is empty
            final(self).alive@ == old(self).alive@.push(true),
            final(self).player@ == old(self).player@.push(false),
            final(self).hostile@ == old(self).hostile@.push(false),
            final(self).creature@ == old(self).creature@.push(false),
            final(self).item@ == old(self).item@.push(false),
            final(self).consumable@ == old(self).consumable@.push(false),
            final(self).bleeding@ == old(self).bleeding@.push(false),
            final(self).flammable@ == old(self).flammable@.push(false),
            final(self).aflame@ == old(self).aflame@.push(false),
            final(self).hidden@ == old(self).hidden@.push(false),
            final(self).just_moved@ == old(self).just_moved@.push(false),
            final(self).blocks_tile@ == old(self).blocks_tile@.push(false),
            final(self).blocks_visibility@ == old(self).blocks_visibility@.push(false),
            final(self).magic_mapper@ == old(self).magic_mapper@.push(false),
            final(self).position@ == old(self).position@.push(None),
            final(self).stats@ == old(self).stats@.push(None),
            final(self).name@ == old(self).name@.push(None),
            final(self).renderable@ == old(self).renderable@.push(None),
            final(self).particle@ == old(self).particle@.push(None),
            final(self).viewshed@ == old(self).viewshed@.push(None),
            final(self).damage_queue@ == old(self).damage_queue@.push(None),
            final(self).resistances@ == old(self).resistances@.push(None),
            final(self).basic_attack@ == old(self).basic_attack@.push(None),
            final(self).weapon@ == old(self).weapon@.push(None),
            final(self).equippable@ == old(self).equippable@.push(None),
            final(self).equipped@ == old(self).equipped@.push(None),
            final(self).in_backpack@ == old(self).in_backpack@.push(None),
            final(self).healing@ == old(self).healing@.push(None),
            final(self).heals@ == old(self).heals@.push(None),
            final(self).damage_on_use@ == old(self).damage_on_use@.push(None),
            final(self).aoe@ == old(self).aoe@.push(None),
            final(self).confusion@ == old(self).confusion@.push(None),
            final(self).hunger@ == old(self).hunger@.push(None),
            final(self).throwable@ == old(self).throwable@.push(None),
            final(self).useable@ == old(self).useable@.push(None),
            final(self).menuable@ == old(self).menuable@.push(None),
            final(self).lightsource@ == old(self).lightsource@.push(None),
            final(self).entry_trigger@ == old(self).entry_trigger@.push(None),
            final(self).ranged@ == old(self).ranged@.push(None),
            final(self).immunities@ == old(self).immunities@.push(None),
            final(self).door@ == old(self).door@.push(None),
            final(self).melee_intent@ == old(self).melee_intent@.push(None),
            final(self).pickup_intent@ == old(self).pickup_intent@.push(None),
            final(self).use_item_intent@ == old(self).use_item_intent@.push(None),
            final(self).throw_intent@ == old(self).throw_intent@.push(None),
            final(self).drop_item_intent@ == old(self).drop_item_intent@.push(None),
            final(self).equip_intent@ == old(self).equip_intent@.push(None),
            final(self).unequip_intent@ == old(self).unequip_intent@.push(None),
            final(self).run_state == old(self).run_state,
            final(self).player_entity == old(self).player_entity,
            final(self).player_pos == old(self).player_pos,
            final(self).map == old(self).map,
            final(self).log@ == old(self).log@,
            final(self).particles@ == old(self).particles@,
            final(self).to_delete@ == old(self).to_delete@,
    {
        let e = self.n;
        self.alive.push(true);
        self.player.push(false);
        self.hostile.push(false);
        self.creature.push(false);
        self.item.push(false);
        self.consumable.push(false);
        self.bleeding.push(false);
        self.flammable.push(false);
        self.aflame.push(false);
        self.hidden.push(false);
        self.just_moved.push(false);
        self.blocks_tile.push(false);
        self.blocks_visibility.push(false);
        self.magic_mapper.push(false);
        self.position.push(None);
        self.stats.push(None);
        self.name.push(None);
        self.renderable.push(None);
        self.particle.push(None);
        self.viewshed.push(None);
        self.damage_queue.push(None);
        self.resistances.push(None);
        self.basic_attack.push(None);
        self.weapon.push(None);
        self.equippable.push(None);
        self.equipped.push(None);
        self.in_backpack.push(None);
        self.healing.push(None);
        self.heals.push(None);
        self.damage_on_use.push(None);
        self.aoe.push(None);
        self.confusion.push(None);
        self.hunger.push(None);
        self.throwable.push(None);
        self.useable.push(None);
        self.menuable.push(None);
        self.lightsource.push(None);
        self.entry_trigger.push(None);
        self.ranged.push(None);
        self.immunities.push(None);
        self.door.push(None);
        self.melee_intent.push(None);
        self.pickup_intent.push(None);
        self.use_item_intent.push(None);
        self.throw_intent.push(None);
        self.drop_item_intent.push(None);
        self.equip_intent.push(None);
        self.unequip_intent.push(None);
        self.n = self.n + 1;
        e
    }

    /// Entity `e` appears in the deletion list `s`.
    pub open spec fn queued(s: Seq<Entity>, e: int) -> bool {
        exists|i: int| 0 <= i < s.len() && #[trigger] s[i] == e
    }

    /// The slot at `e` is dead and carries no components.
    pub open spec fn slot_cleared(&self, e: int) -> bool {
        &&& !self.alive@[e]
        &&& !self.player@[e]
        &&& !self.hostile@[e]
        &&& !self.creature@[e]
        &&& !self.item@[e]
        &&& !self.consumable@[e]
        &&& !self.bleeding@[e]
        &&& !self.flammable@[e]
        &&& !self.aflame@[e]
        &&& !self.hidden@[e]
        &&& !self.just_moved@[e]
        &&& !self.blocks_tile@[e]
        &&& !self.blocks_visibility@[e]
        &&& !self.magic_mapper@[e]
        &&& self.position@[e] is None
        &&& self.stats@[e] is None
        &&& self.name@[e] is None
        &&& self.renderable@[e] is None
        &&& self.particle@[e] is None
        &&& self.viewshed@[e] is None
        &&& self.damage_queue@[e] is None
        &&& self.resistances@[e] is None
        &&& self.basic_attack@[e] is None
        &&& self.weapon@[e] is None
        &&& self.equippable@[e] is None
        &&& self.equipped@[e] is None
        &&& self.in_backpack@[e] is None
        &&& self.healing@[e] is None
        &&& self.heals@[e] is None
        &&& self.damage_on_use@[e] is None
        &&& self.aoe@[e] is None
        &&& self.confusion@[e] is None
        &&& self.hunger@[e] is None
        &&& self.throwable@[e] is None
        &&& self.useable@[e] is None
        &&& self.menuable@[e] is None
        &&& self.lightsource@[e] is None
        &&& self.entry_trigger@[e] is None
        &&& self.ranged@[e] is None
        &&& self.immunities@[e] is None
        &&& self.door@[e] is None
        &&& self.melee_intent@[e] is None
        &&& self.pickup_intent@[e] is None
        &&& self.use_item_intent@[e] is None
        &&& self.throw_intent@[e] is None
        &&& self.drop_item_intent@[e] is None
        &&& self.equip_intent@[e] is None
        &&& self.unequip_intent@[e] is None
    }

    /// Worlds `a` and `b` agree on every component of slot `e`.
    pub open spec fn slot_same(a: &World, b: &World, e: int) -> bool {
        &&& a.alive@[e] == b.alive@[e]
        &&& a.player@[e] == b.player@[e]
        &&& a.hostile@[e] == b.hostile@[e]
        &&& a.creature@[e] == b.creature@[e]
        &&& a.item@[e] == b.item@[e]
        &&& a.consumable@[e] == b.consumable@[e]
        &&& a.bleeding@[e] == b.bleeding@[e]
        &&& a.flammable@[e] == b.flammable@[e]
        &&& a.aflame@[e] == b.aflame@[e]
        &&& a.hidden@[e] == b.hidden@[e]
        &&& a.just_moved@[e] == b.just_moved@[e]
        &&& a.blocks_tile@[e] == b.blocks_tile@[e]
        &&& a.blocks_visibility@[e] == b.blocks_visibility@[e]
        &&& a.magic_mapper@[e] == b.magic_mapper@[e]
        &&& a.position@[e] == b.position@[e]
        &&& a.stats@[e] == b.stats@[e]
        &&& a.name@[e] == b.name@[e]
        &&& a.renderable@[e] == b.renderable@[e]
        &&& a.particle@[e] == b.particle@[e]
        &&& a.viewshed@[e] == b.viewshed@[e]
        &&& a.damage_queue@[e] == b.damage_queue@[e]
        &&& a.resistances@[e] == b.resistances@[e]
        &&& a.basic_attack@[e] == b.basic_attack@[e]
        &&& a.weapon@[e] == b.weapon@[e]
        &&& a.equippable@[e] == b.equippable@[e]
        &&& a.equipped@[e] == b.equipped@[e]
        &&& a.in_backpack@[e] == b.in_backpack@[e]
        &&& a.healing@[e] == b.healing@[e]
        &&& a.heals@[e] == b.heals@[e]
        &&& a.damage_on_use@[e] == b.damage_on_use@[e]
        &&& a.aoe@[e] == b.aoe@[e]
        &&& a.confusion@[e] == b.confusion@[e]
        &&& a.hunger@[e] == b.hunger@[e]
        &&& a.throwable@[e] == b.throwable@[e]
        &&& a.useable@[e] == b.useable@[e]
        &&& a.menuable@[e] == b.menuable@[e]
        &&& a.lightsource@[e] == b.lightsource@[e]
        &&& a.entry_trigger@[e] == b.entry_trigger@[e]
        &&& a.ranged@[e] == b.ranged@[e]
        &&& a.immunities@[e] == b.immunities@[e]
        &&& a.door@[e] == b.door@[e]
        &&& a.melee_intent@[e] == b.melee_intent@[e]
        &&& a.pickup_intent@[e] == b.pickup_intent@[e]
        &&& a.use_item_intent@[e] == b.use_item_intent@[e]
        &&& a.throw_intent@[e] == b.throw_intent@[e]
        &&& a.drop_item_intent@[e] == b.drop_item_intent@[e]
        &&& a.equip_intent@[e] == b.equip_intent@[e]
        &&& a.unequip_intent@[e] == b.unequip_intent@[e]
    }

    /// The shared resources and entity count of `a` and `b` agree.
    pub open spec fn resources_same(a: &World, b: &World) -> bool {
        &&& a.n == b.n
        &&& a.run_state == b.run_state
        &&& a.player_entity == b.player_entity
        &&& a.player_pos == b.player_pos
        &&& a.map == b.map
        &&& a.log@ == b.log@
        &&& a.particles@ == b.particles@
        &&& a.to_delete@ == b.to_delete@
    }

    /// Strip slot `e` of life and of every component, leaving all other
    /// slots and all resources alone.
    fn clear_slot(&mut self, e: Entity)
        requires
            old(self).wf_lens(),
            e < old(self).n,
        ensures
            final(self).wf_lens(),
            final(self).slot_cleared(e as int),
            forall|e2: int|
                0 <= e2 < final(self).n && e2 != e ==> Self::slot_same(old(self), final(self), e2),
            Self::resources_same(old(self), final(self)),
            old(self).wf_refs() ==> final(self).wf_refs(),
            old(self).wf_data() ==> final(self).wf_data(),
    {
        self.alive.set(e, false);
        self.player.set(e, false);
        self.hostile.set(e, false);
        self.creature.set(e, false);
        self.item.set(e, false);
        self.consumable.set(e, false);
        self.bleeding.set(e, false);
        self.flammable.set(e, false);
        self.aflame.set(e, false);
        self.hidden.set(e, false);
        self.just_moved.set(e, false);
        self.blocks_tile.set(e, false);
        self.blocks_visibility.set(e, false);
        self.magic_mapper.set(e, false);
        self.position.set(e, None);
        self.stats.set(e, None);
        self.name.set(e, None);
        self.renderable.set(e, None);
        self.particle.set(e, None);
        self.viewshed.set(e, None);
        self.damage_queue.set(e, None);
        self.resistances.set(e, None);
        self.basic_attack.set(e, None);
        self.weapon.set(e, None);
        self.equippable.set(e, None);
        self.equipped.set(e, None);
        self.in_backpack.set(e, None);
        self.healing.set(e, None);
        self.heals.set(e, None);
        self.damage_on_use.set(e, None);
        self.aoe.set(e, None);
        self.confusion.set(e, None);
        self.hunger.set(e, None);
        self.throwable.set(e, None);
        self.useable.set(e, None);
        self.menuable.set(e, None);
        self.lightsource.set(e, None);
        self.entry_trigger.set(e, None);
        self.ranged.set(e, None);
        self.immunities.set(e, None);
        self.door.set(e, None);
        self.melee_intent.set(e, None);
        self.pickup_intent.set(e, None);
        self.use_item_intent.set(e, None);
        self.throw_intent.set(e, None);
        self.drop_item_intent.set(e, None);
        self.equip_intent.set(e, None);
        self.unequip_intent.set(e, None);
    }

    /// World maintenance at tick end: apply every queued deletion, leaving
    /// every other slot untouched, and empty the deletion queue.
    pub fn maintain(&mut self)
        requires
            old(self).wf(),
        ensures
            final(self).wf(),
            final(self).to_delete@.len() == 0,
            forall|e: int|
                0 <= e < final(self).n && Self::queued(old(self).to_delete@, e)
                    ==> final(self).slot_cleared(e),
            forall|e: int|
                0 <= e < final(self).n && !Self::queued(old(self).to_delete@, e) ==> Self::slot_same(
                    old(self),
                    final(self),
                    e,
                ),
            final(self).n == old(self).n,
            final(self).run_state == old(self).run_state,
            final(self).player_entity == old(self).player_entity,
            final(self).player_pos == old(self).player_pos,
            final(self).map == old(self).map,
            final(self).log@ == old(self).log@,
            final(self).particles@ == old(self).particles@,
    {
        let ghost dels = self.to_delete@;
        let count = self.to_delete.len();
        let mut k: usize = 0;
        while k < count
            invariant
                k <= count,
                self.wf_lens(),
                self.wf_refs(),
                self.wf_data(),
                self.map.wf(),
                self.n == old(self).n,
                self.run_state == old(self).run_state,
                self.player_entity == old(self).player_entity,
                self.player_pos == old(self).player_pos,
                self.map == old(self).map,
                self.log@ == old(self).log@,
                self.particles@ == old(self).particles@,
                self.to_delete@ == dels,
                dels == old(self).to_delete@,
                count == dels.len(),
                forall|e: int|
                    0 <= e < self.n && Self::queued(dels.take(k as int), e) ==> self.slot_cleared(e),
                forall|e: int|
                    0 <= e < self.n && !Self::queued(dels.take(k as int), e) ==> Self::slot_same(
                        old(self),
                        self,
                        e,
                    ),
            decreases count - k,
        {
            let ghost prev = *self;
            let victim = self.to_delete[k];
            proof {
                assert(victim == dels[k as int]);
            }
            self.clear_slot(victim);
            k = k + 1;
            proof {
                assert(victim == dels[(k - 1) as int]);
                assert(dels.take(k as int)[(k - 1) as int] == victim);
                assert forall|e: int|
                    0 <= e < self.n && Self::queued(dels.take(k as int), e) implies self.slot_cleared(
                    e,
                ) by {
                    if e != victim {
                        assert(Self::queued(dels.take((k - 1) as int), e)) by {
                            let j = choose|j: int|
                                0 <= j < k && #[trigger] dels.take(k as int)[j] == e;
                            assert(j != k - 1);
                            assert(dels.take((k - 1) as int)[j] == e);
                        }
                        assert(prev.slot_cleared(e));
                        assert(Self::slot_same(&prev, self, e));
                    }
                }
                assert forall|e: int|
                    0 <= e < self.n && !Self::queued(dels.take(k as int), e) implies Self::slot_same(
                    old(self),
                    self,
                    e,
                ) by {
                    assert(!Self::queued(dels.take((k - 1) as int), e)) by {
                        if Self::queued(dels.take((k - 1) as int), e) {
                            let j = choose|j: int|
                                0 <= j < k - 1 && #[trigger] dels.take((k - 1) as int)[j] == e;
                            assert(dels.take(k as int)[j] == e);
                        }
                    }
                    assert(e != victim);
                    assert(Self::slot_same(old(self), &prev, e));
                    assert(Self::slot_same(&prev, self, e));
                }
            }
        }
        let ghost before_clear = *self;
        self.to_delete = Vec::new();
        proof {
            assert(dels.take(count as int) =~= dels);
            assert forall|e: int|
                0 <= e < self.n && Self::queued(dels, e) implies self.slot_cleared(e) by {
                assert(before_clear.slot_cleared(e));
            }
            assert forall|e: int|
                0 <= e < self.n && !Self::queued(dels, e) implies Self::slot_same(
                old(self),
                self,
                e,
            ) by {
                assert(Self::slot_same(old(self), &before_clear, e));
            }
        }
    }
}

} // verus!
