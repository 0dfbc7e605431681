//! Exercises the remaining systems: triggers, throwing, lighting,
//! visibility, indexing, hostile behaviour, menus and the arena itself.

use goblin_rl::c_menu_system::ContextMenuSystem;
use goblin_rl::bleed_system::BleedSystem;
use goblin_rl::components::{
    AoE, Confusion, DamageAtom, DamageOnUse, DamageQueue, EntryTrigger, Equippable,
    Healing, Heals, Lightsource, Menuable, MenuOption, Name, Position, Resistances, Stats,
    Throwable, ThrowIntent, Useable, UseItemIntent, Viewshed,
};
use goblin_rl::hostile_ai_system::{AiDecision, HostileAI};
use goblin_rl::inventory_system::ItemUseSystem;
use goblin_rl::light_system::LightSystem;
use goblin_rl::map::{GameMap, TileType};
use goblin_rl::map_indexing_system::MapIndexingSystem;
use goblin_rl::rect::Rect;
use goblin_rl::spawner;
use goblin_rl::throw_system::ThrowSystem;
use goblin_rl::trigger_system::TriggerSystem;
use goblin_rl::visibility_system::VisibilitySystem;
use goblin_rl::world::World;
use goblin_rl::RunState;

fn open_world() -> World {
    let mut map = GameMap::new(1, 16, 16);
    for t in map.tiles.iter_mut() {
        *t = TileType::Floor;
    }
    map.populate_blocked();
    let mut w = World::new(map);
    w.player[0] = true;
    w.position[0] = Some(Position { x: 1, y: 1 });
    w.name[0] = Some(Name { name: "Player".to_string() });
    w.stats[0] = Some(Stats {
        max_hp: 8,
        hp: 8,
        max_fp: 8,
        fp: 8,
        max_mp: 8,
        mp: 8,
        mind: 1,
        body: 1,
        soul: 1,
    });
    w
}

#[test]
fn saturating_arithmetic_clamps() {
    assert_eq!(goblin_rl::components::sat_add(i32::MAX, 1), i32::MAX);
    assert_eq!(goblin_rl::components::sat_sub(i32::MIN, 1), i32::MIN);
    assert_eq!(goblin_rl::components::sat_add(2, 3), 5);
    assert_eq!(goblin_rl::components::sat_sub(10, 3), 7);
}

#[test]
fn damage_atom_values() {
    assert_eq!(DamageAtom::Slash(7).value(), 7);
    assert_eq!(DamageAtom::Bleed.value(), 1);
    assert_eq!(DamageAtom::Venom.value(), 1);
}

#[test]
fn resistance_arithmetic_is_componentwise() {
    let a = Resistances {
        bludgeon: DamageAtom::Bludgeon(1),
        pierce: DamageAtom::Pierce(2),
        slash: DamageAtom::Slash(3),
        thermal: DamageAtom::Thermal(4),
    };
    let sum = a.plus(a);
    assert_eq!(sum.slash.value(), 6);
    let zero = sum.minus(sum);
    assert_eq!(zero.pierce.value(), 0);
}

#[test]
fn rects_know_their_centers_and_overlaps() {
    let a = Rect::new(0, 0, 10, 10);
    assert_eq!(a.center(), (5, 5));
    let b = Rect::new(8, 8, 4, 4);
    assert!(a.intersects(&b));
    let c = Rect::new(20, 20, 2, 2);
    assert!(!a.intersects(&c));
}

#[test]
fn map_indexing_rebuilds_occupancy() {
    let mut w = open_world();
    let monster = w.create_entity();
    w.position[monster] = Some(Position { x: 4, y: 4 });
    w.blocks_tile[monster] = true;
    MapIndexingSystem::run(&mut w);
    let idx = w.map.xy_idx(4, 4);
    assert!(w.map.blocked[idx]);
    assert!(w.map.tile_content[idx].contains(&monster));
    let player_idx = w.map.xy_idx(1, 1);
    assert!(w.map.tile_content[player_idx].contains(&0));
    assert!(!w.map.blocked[player_idx]);
}

#[test]
fn traps_spring_under_fresh_movers() {
    let mut w = open_world();
    let trap = w.create_entity();
    w.position[trap] = Some(Position { x: 1, y: 1 });
    w.entry_trigger[trap] = Some(EntryTrigger { repeatable: false });
    w.hidden[trap] = true;
    w.name[trap] = Some(Name { name: "Bear Trap".to_string() });
    w.damage_on_use[trap] = Some(DamageOnUse { dmg_atoms: vec![DamageAtom::Pierce(2)] });
    w.just_moved[0] = true;
    MapIndexingSystem::run(&mut w);
    TriggerSystem::run(&mut w);
    let queue = &w.damage_queue[0].as_ref().unwrap().queue;
    assert_eq!(queue[0], DamageAtom::Pierce(2));
    assert!(!w.hidden[trap]);
    assert!(w.entry_trigger[trap].is_none());
    assert!(!w.just_moved[0]);
}

#[test]
fn thrown_items_strike_and_land() {
    let mut w = open_world();
    let monster = w.create_entity();
    w.position[monster] = Some(Position { x: 5, y: 5 });
    w.stats[monster] = Some(w.stats[0].unwrap());
    let dagger = w.create_entity();
    w.in_backpack[dagger] = Some(goblin_rl::components::InBackpack { owner: 0 });
    w.throwable[dagger] = Some(Throwable { dmg: DamageAtom::Pierce(3) });
    w.throw_intent[0] = Some(ThrowIntent {
        item: dagger,
        target: Some(Position { x: 5, y: 5 }),
    });
    MapIndexingSystem::run(&mut w);
    ThrowSystem::run(&mut w);
    assert_eq!(w.position[dagger], Some(Position { x: 5, y: 5 }));
    assert!(w.in_backpack[dagger].is_none());
    let queue = &w.damage_queue[monster].as_ref().unwrap().queue;
    assert_eq!(queue[0], DamageAtom::Pierce(3));
    assert!(w.throw_intent[0].is_none());
}

#[test]
fn thermal_damage_ignites_flammables() {
    let mut w = open_world();
    let torch = w.create_entity();
    w.flammable[torch] = true;
    w.position[torch] = Some(Position { x: 3, y: 3 });
    DamageQueue::queue_damage(&mut w.damage_queue, torch, DamageAtom::Thermal(1));
    LightSystem::ignite(&mut w);
    assert!(w.aflame[torch]);
    let light = w.lightsource[torch].unwrap();
    assert!(light.is_lit);
    let requests = LightSystem::lit_requests(&w);
    assert_eq!(requests.len(), 1);
    assert_eq!(requests[0].0, torch);
}

#[test]
fn illumination_is_the_union_of_the_glows() {
    let mut w = open_world();
    let fovs = vec![
        vec![Position { x: 2, y: 2 }, Position { x: 3, y: 2 }],
        vec![Position { x: 9, y: 9 }, Position { x: -4, y: 2 }],
    ];
    LightSystem::apply_light(&mut w, &fovs);
    assert!(w.map.illuminated_tiles[w.map.xy_idx(2, 2)]);
    assert!(w.map.illuminated_tiles[w.map.xy_idx(9, 9)]);
    assert!(!w.map.illuminated_tiles[w.map.xy_idx(5, 5)]);
}

#[test]
fn viewsheds_come_out_clean_and_reveal_the_map() {
    let mut w = open_world();
    w.viewshed[0] = Some(Viewshed { visible_tiles: Vec::new(), range: 5, dirty: true });
    let requests = VisibilitySystem::visibility_requests(&w);
    assert_eq!(requests.len(), 1);
    assert_eq!(requests[0].0, 0);
    let near = vec![Position { x: 1, y: 1 }, Position { x: 2, y: 1 }, Position { x: 40, y: 1 }];
    let far: Vec<Position> = Vec::new();
    VisibilitySystem::apply_viewshed(&mut w, 0, &near, &far);
    let refreshed = w.viewshed[0].as_ref().unwrap();
    assert!(!refreshed.dirty);
    // the out-of-bounds tile was discarded
    assert_eq!(refreshed.visible_tiles.len(), 2);
    assert!(w.map.revealed_tiles[w.map.xy_idx(1, 1)]);
    assert!(w.map.visible_tiles[w.map.xy_idx(2, 1)]);
    assert!(!w.map.visible_tiles[w.map.xy_idx(8, 8)]);
}

#[test]
fn hostiles_decide_by_distance_and_sight() {
    let mut w = open_world();
    w.run_state = RunState::GameworldTurn;
    w.player_pos = Position { x: 1, y: 1 };
    let brute = w.create_entity();
    w.hostile[brute] = true;
    w.position[brute] = Some(Position { x: 2, y: 2 });
    w.viewshed[brute] = Some(Viewshed { visible_tiles: Vec::new(), range: 5, dirty: false });
    assert_eq!(HostileAI::decide(&w, brute), AiDecision::Melee);
    HostileAI::act(&mut w, brute, None);
    assert_eq!(w.melee_intent[brute].unwrap().target, 0);
    // out of reach but in sight: walk
    w.position[brute] = Some(Position { x: 6, y: 6 });
    w.viewshed[brute] = Some(Viewshed {
        visible_tiles: vec![Position { x: 1, y: 1 }],
        range: 5,
        dirty: false,
    });
    match HostileAI::decide(&w, brute) {
        AiDecision::Path { from, to } => {
            assert_eq!(from, Position { x: 6, y: 6 });
            assert_eq!(to, Position { x: 1, y: 1 });
        }
        other => panic!("unexpected decision {:?}", other),
    }
    HostileAI::act(&mut w, brute, Some(Position { x: 5, y: 6 }));
    assert_eq!(w.position[brute], Some(Position { x: 5, y: 6 }));
    assert!(w.viewshed[brute].as_ref().unwrap().dirty);
    // confusion wears off by one each turn
    w.confusion[brute] = Some(Confusion { turns: 2 });
    assert_eq!(HostileAI::decide(&w, brute), AiDecision::Confused);
    HostileAI::act(&mut w, brute, None);
    assert_eq!(w.confusion[brute].unwrap().turns, 1);
    HostileAI::act(&mut w, brute, None);
    assert!(w.confusion[brute].is_none());
}

#[test]
fn bleeders_stain_the_world_turn() {
    let mut w = open_world();
    w.run_state = RunState::GameworldTurn;
    w.bleeding[0] = true;
    BleedSystem::run(&mut w);
    let queue = &w.damage_queue[0].as_ref().unwrap().queue;
    assert_eq!(queue[0], DamageAtom::Bleed);
    assert!(w.map.bloodstains[w.map.xy_idx(1, 1)]);
    // not on the player's turn
    let mut w2 = open_world();
    w2.run_state = RunState::PlayerTurn;
    w2.bleeding[0] = true;
    BleedSystem::run(&mut w2);
    assert!(w2.damage_queue[0].is_none());
}

#[test]
fn menus_offer_what_the_entity_supports() {
    let mut w = open_world();
    let potion = w.create_entity();
    w.menuable[potion] = Some(Menuable { options: Vec::new() });
    w.item[potion] = true;
    w.useable[potion] = Some(Useable { menu_name: "Quaff".to_string() });
    w.position[potion] = Some(Position { x: 2, y: 2 });
    w.equippable[potion] = Some(Equippable {
        slot: goblin_rl::components::EquipmentSlot::Back,
    });
    ContextMenuSystem::run(&mut w);
    let tags: Vec<MenuOption> = w.menuable[potion]
        .as_ref()
        .unwrap()
        .options
        .iter()
        .map(|p| p.0)
        .collect();
    assert_eq!(tags, vec![MenuOption::Use, MenuOption::PickUp, MenuOption::Equip]);
}

#[test]
fn used_healing_items_attach_heals_and_vanish() {
    let mut w = open_world();
    let potion = w.create_entity();
    w.heals[potion] = Some(Heals { duration: 2, amount: 3 });
    w.consumable[potion] = true;
    w.use_item_intent[0] = Some(UseItemIntent { item: potion, target: None });
    let blasts: Vec<Vec<Position>> = Vec::new();
    ItemUseSystem::run(&mut w, &blasts);
    assert_eq!(w.healing[0], Some(Healing { duration: 2, amount: 3 }));
    assert!(w.to_delete.contains(&potion));
    assert!(w.use_item_intent[0].is_none());
}

#[test]
fn magic_mappers_start_the_reveal() {
    let mut w = open_world();
    w.run_state = RunState::PlayerTurn;
    let scroll = w.create_entity();
    w.magic_mapper[scroll] = true;
    w.consumable[scroll] = true;
    w.use_item_intent[0] = Some(UseItemIntent { item: scroll, target: None });
    let blasts: Vec<Vec<Position>> = Vec::new();
    ItemUseSystem::run(&mut w, &blasts);
    assert_eq!(w.run_state, RunState::MagicMapReveal { row: 0 });
}

#[test]
fn aimed_damage_items_hit_tile_occupants() {
    let mut w = open_world();
    let monster = w.create_entity();
    w.position[monster] = Some(Position { x: 6, y: 6 });
    w.stats[monster] = Some(w.stats[0].unwrap());
    let scroll = w.create_entity();
    w.damage_on_use[scroll] = Some(DamageOnUse { dmg_atoms: vec![DamageAtom::Thermal(4)] });
    w.aoe[scroll] = Some(AoE { radius: 2 });
    w.use_item_intent[0] = Some(UseItemIntent {
        item: scroll,
        target: Some(Position { x: 6, y: 6 }),
    });
    MapIndexingSystem::run(&mut w);
    let blasts = vec![vec![Position { x: 6, y: 6 }, Position { x: 7, y: 6 }]];
    ItemUseSystem::run(&mut w, &blasts);
    let queue = &w.damage_queue[monster].as_ref().unwrap().queue;
    assert_eq!(queue[0], DamageAtom::Thermal(4));
}

#[test]
fn the_arena_recycles_nothing() {
    let mut w = open_world();
    let a = w.create_entity();
    let b = w.create_entity();
    assert_ne!(a, b);
    w.to_delete.push(a);
    w.maintain();
    assert!(!w.alive[a]);
    assert!(w.alive[b]);
    let c = w.create_entity();
    assert_ne!(c, a);
}

#[test]
fn spawn_regions_only_grow_the_spawn_list() {
    let map = GameMap::new(3, 16, 16);
    let area: Vec<usize> = vec![17, 18, 19, 20];
    let mut spawn_list: Vec<(usize, String)> = vec![(5, "Door".to_string())];
    spawner::spawn_region(&map, &area, 3, &mut spawn_list);
    assert_eq!(spawn_list[0], (5, "Door".to_string()));
    for (idx, _) in spawn_list.iter().skip(1) {
        assert!(area.contains(idx));
    }
}

#[test]
fn the_spawn_table_draws_from_its_entries() {
    let table = spawner::room_table(2);
    for _ in 0..16 {
        let name = table.roll().unwrap();
        assert!([
            "Goblin",
            "Orc",
            "Health Potion",
            "Fireball Scroll",
            "Confusion Scroll",
            "Magic Missile Scroll",
            "Knife",
            "Leather Armor",
            "Torch",
            "Bear Trap",
        ]
        .contains(&name.as_str()));
    }
}

#[test]
fn spawned_players_start_whole() {
    let mut w = open_world();
    let player = spawner::player(&mut w, 4, 4);
    assert!(w.player[player]);
    let stats = w.stats[player].unwrap();
    assert_eq!(stats.hp, 8);
    assert_eq!(stats.max_hp, 8);
    assert_eq!(w.position[player], Some(Position { x: 4, y: 4 }));
    assert_eq!(
        w.hunger[player].unwrap().state,
        goblin_rl::components::HungerState::Satiated
    );
}

#[test]
fn lightsources_default_unlit() {
    let light = Lightsource::default();
    assert!(!light.is_lit);
    assert_eq!(light.radius, 10);
}
