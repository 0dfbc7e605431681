//! Exercises the turn engine end to end on small hand-built worlds.

use goblin_rl::components::{
    BasicAttack, DamageAtom, DamageQueue, EquipIntent, EquipmentSlot, Equippable, Equipped, Healing,
    Hunger, HungerState, MeleeIntent, Name, PickUpIntent, Position, Resistances, Stats,
    UnequipIntent, Weapon,
};
use goblin_rl::damage_system::{bleed_check, DamageSystem};
use goblin_rl::equip_system::EquipSystem;
use goblin_rl::game;
use goblin_rl::healing_system::HealingSystem;
use goblin_rl::hunger_system::HungerSystem;
use goblin_rl::inventory_system::{ItemCollectionSystem, ItemDropSystem};
use goblin_rl::map::GameMap;
use goblin_rl::melee_combat_system::MeleeCombatSystem;
use goblin_rl::world::World;
use goblin_rl::RunState;

fn base_stats(hp: i32, max_hp: i32) -> Stats {
    Stats { max_hp, hp, max_fp: 8, fp: 8, max_mp: 8, mp: 8, mind: 1, body: 1, soul: 1 }
}

fn flat_resistances(slash: i32) -> Resistances {
    Resistances {
        bludgeon: DamageAtom::Bludgeon(0),
        pierce: DamageAtom::Pierce(0),
        slash: DamageAtom::Slash(slash),
        thermal: DamageAtom::Thermal(0),
    }
}

fn test_world() -> World {
    let mut w = World::new(GameMap::new(1, 16, 16));
    // slot 0 is the placeholder player entity
    w.player[0] = true;
    w.position[0] = Some(Position { x: 1, y: 1 });
    w.name[0] = Some(Name { name: "Player".to_string() });
    w.stats[0] = Some(base_stats(8, 8));
    w
}

#[test]
fn slash_resistance_is_subtracted_before_damage() {
    // an entity with hp 8/8 and slash resistance 2, hit by a slash of 5,
    // takes 3 and ends at hp 5
    let mut w = test_world();
    w.resistances[0] = Some(flat_resistances(2));
    DamageQueue::queue_damage(&mut w.damage_queue, 0, DamageAtom::Slash(5));
    DamageSystem::run(&mut w);
    assert_eq!(w.stats[0].as_ref().unwrap().hp, 5);
}

#[test]
fn bleed_roll_compares_post_resistance_amount() {
    // a post-resistance slash of 3 bleeds exactly against rolls below 3
    assert!(bleed_check(&DamageAtom::Slash(3), 2));
    assert!(!bleed_check(&DamageAtom::Slash(3), 3));
    assert!(!bleed_check(&DamageAtom::Pierce(3), 2));
    assert!(bleed_check(&DamageAtom::Pierce(5), 2));
    assert!(!bleed_check(&DamageAtom::Bludgeon(8), 2));
    assert!(bleed_check(&DamageAtom::Bludgeon(9), 2));
}

#[test]
fn status_tags_never_bleed() {
    assert!(!goblin_rl::damage_system::bleed_roll(&DamageAtom::Bleed));
    assert!(!goblin_rl::damage_system::bleed_roll(&DamageAtom::Starvation));
}

#[test]
fn damage_queues_drain_every_tick() {
    let mut w = test_world();
    let monster = w.create_entity();
    w.name[monster] = Some(Name { name: "Goblin".to_string() });
    w.position[monster] = Some(Position { x: 2, y: 2 });
    w.stats[monster] = Some(base_stats(4, 4));
    DamageQueue::queue_damage(&mut w.damage_queue, 0, DamageAtom::Pierce(1));
    DamageQueue::queue_damage(&mut w.damage_queue, monster, DamageAtom::Bleed);
    // an entity without stats keeps no queue either
    let crate_entity = w.create_entity();
    DamageQueue::queue_damage(&mut w.damage_queue, crate_entity, DamageAtom::Thermal(2));
    DamageSystem::run(&mut w);
    for e in 0..w.n {
        assert!(w.damage_queue[e].is_none());
    }
}

#[test]
fn fatigue_absorbs_status_damage_first() {
    let mut w = test_world();
    w.stats[0] = Some(Stats {
        max_hp: 8,
        hp: 8,
        max_fp: 8,
        fp: 1,
        max_mp: 8,
        mp: 8,
        mind: 1,
        body: 1,
        soul: 1,
    });
    DamageQueue::queue_damage(&mut w.damage_queue, 0, DamageAtom::Starvation);
    DamageQueue::queue_damage(&mut w.damage_queue, 0, DamageAtom::Starvation);
    DamageSystem::run(&mut w);
    let stats = w.stats[0].unwrap();
    assert_eq!(stats.fp, 0);
    assert_eq!(stats.hp, 7);
}

#[test]
fn hp_never_drops_below_zero() {
    let mut w = test_world();
    DamageQueue::queue_damage(&mut w.damage_queue, 0, DamageAtom::Bludgeon(100));
    DamageSystem::run(&mut w);
    assert_eq!(w.stats[0].unwrap().hp, 0);
}

#[test]
fn healing_caps_at_max_hp() {
    let mut w = test_world();
    w.stats[0] = Some(base_stats(9, 10));
    w.healing[0] = Some(Healing { duration: 3, amount: 5 });
    HealingSystem::run(&mut w);
    let stats = w.stats[0].unwrap();
    assert_eq!(stats.hp, 10);
    assert_eq!(w.healing[0].unwrap().duration, 2);
}

#[test]
fn healing_staunches_bleeding_instead() {
    let mut w = test_world();
    w.stats[0] = Some(base_stats(4, 10));
    w.healing[0] = Some(Healing { duration: 2, amount: 3 });
    w.bleeding[0] = true;
    HealingSystem::run(&mut w);
    assert!(!w.bleeding[0]);
    assert_eq!(w.stats[0].unwrap().hp, 4);
}

#[test]
fn hunger_ladder_advances_on_the_player_turn() {
    // Satiated with a clock of 1, ticked on the owner's turn: the clock
    // runs out, the state moves to Hungry with a fresh clock of 500, and
    // one log line lands
    let mut w = test_world();
    w.run_state = RunState::PlayerTurn;
    w.hunger[0] = Some(Hunger { state: HungerState::Satiated, clock: 1 });
    let log_before = w.log.len();
    HungerSystem::run(&mut w);
    let hunger = w.hunger[0].unwrap();
    assert_eq!(hunger.state, HungerState::Hungry);
    assert_eq!(hunger.clock, 500);
    assert_eq!(w.log.len(), log_before + 1);
}

#[test]
fn starving_entities_take_starvation_damage() {
    let mut w = test_world();
    w.run_state = RunState::PlayerTurn;
    w.hunger[0] = Some(Hunger { state: HungerState::Starving, clock: 1 });
    HungerSystem::run(&mut w);
    let queue = &w.damage_queue[0].as_ref().unwrap().queue;
    assert_eq!(queue.len(), 1);
    assert_eq!(queue[0], DamageAtom::Starvation);
}

#[test]
fn hunger_waits_for_the_owners_turn() {
    let mut w = test_world();
    w.run_state = RunState::GameworldTurn;
    w.hunger[0] = Some(Hunger { state: HungerState::Satiated, clock: 1 });
    HungerSystem::run(&mut w);
    assert_eq!(w.hunger[0].unwrap().clock, 1);
}

#[test]
fn next_level_restores_half_the_missing_hp() {
    // hp 4 of 10: half the missing six come back, landing on 7
    let rested = game::next_level_heal(base_stats(4, 10));
    assert_eq!(rested.hp, 7);
}

#[test]
fn dead_player_flips_game_over_and_stays() {
    let mut w = test_world();
    w.stats[0] = Some(base_stats(0, 8));
    goblin_rl::damage_system::delete_the_dead(&mut w);
    assert_eq!(w.run_state, RunState::GameOver);
    assert!(!w.to_delete.contains(&0));
}

#[test]
fn dead_monster_is_deleted_at_maintenance() {
    let mut w = test_world();
    let monster = w.create_entity();
    w.name[monster] = Some(Name { name: "Goblin".to_string() });
    w.stats[monster] = Some(base_stats(0, 4));
    goblin_rl::damage_system::delete_the_dead(&mut w);
    assert!(w.to_delete.contains(&monster));
    w.maintain();
    assert!(!w.alive[monster]);
    assert!(w.stats[monster].is_none());
}

#[test]
fn melee_queues_the_current_attack() {
    let mut w = test_world();
    let monster = w.create_entity();
    w.stats[monster] = Some(base_stats(4, 4));
    w.basic_attack[0] = Some(BasicAttack {
        base: DamageAtom::Bludgeon(1),
        current: DamageAtom::Slash(2),
    });
    w.melee_intent[0] = Some(MeleeIntent { target: monster });
    MeleeCombatSystem::run(&mut w);
    let queue = &w.damage_queue[monster].as_ref().unwrap().queue;
    assert_eq!(queue.len(), 1);
    assert_eq!(queue[0], DamageAtom::Slash(2));
    assert!(w.melee_intent[0].is_none());
}

#[test]
fn pipeline_without_new_intents_changes_nothing() {
    // run the effect pipeline once to drain everything, snapshot, run it
    // again: no effect lands twice
    let mut w = test_world();
    let monster = w.create_entity();
    w.name[monster] = Some(Name { name: "Goblin".to_string() });
    w.position[monster] = Some(Position { x: 2, y: 2 });
    w.stats[monster] = Some(base_stats(4, 4));
    w.basic_attack[0] = Some(BasicAttack {
        base: DamageAtom::Bludgeon(1),
        current: DamageAtom::Bludgeon(1),
    });
    w.melee_intent[0] = Some(MeleeIntent { target: monster });
    MeleeCombatSystem::run(&mut w);
    game::resolve_effects(&mut w);
    let hp_after_first = w.stats[monster].unwrap().hp;
    assert_eq!(hp_after_first, 3);
    MeleeCombatSystem::run(&mut w);
    game::resolve_effects(&mut w);
    assert_eq!(w.stats[monster].unwrap().hp, hp_after_first);
}

#[test]
fn equip_displaces_the_old_item_to_the_backpack() {
    // equipping item a into an occupied slot moves the old item b to the
    // backpack and swaps b's resistance delta out before a's comes in
    let mut w = test_world();
    w.creature[0] = true;
    w.resistances[0] = Some(flat_resistances(5));
    let item_b = w.create_entity();
    w.equippable[item_b] = Some(Equippable { slot: EquipmentSlot::Armor });
    w.equipped[item_b] = Some(Equipped { owner: 0, slot: EquipmentSlot::Armor });
    w.resistances[item_b] = Some(flat_resistances(4));
    let item_a = w.create_entity();
    w.equippable[item_a] = Some(Equippable { slot: EquipmentSlot::Armor });
    w.resistances[item_a] = Some(flat_resistances(1));
    w.equip_intent[0] = Some(EquipIntent { item: item_a });
    EquipSystem::run(&mut w);
    assert!(w.equipped[item_b].is_none());
    assert_eq!(w.in_backpack[item_b].unwrap().owner, 0);
    assert_eq!(w.equipped[item_a].unwrap().slot, EquipmentSlot::Armor);
    // 5 - 4 + 1 = 2
    assert_eq!(w.resistances[0].unwrap().slash.value(), 2);
    assert!(w.equip_intent[0].is_none());
}

#[test]
fn unequip_restores_the_base_attack() {
    let mut w = test_world();
    w.creature[0] = true;
    w.basic_attack[0] = Some(BasicAttack {
        base: DamageAtom::Bludgeon(1),
        current: DamageAtom::Slash(3),
    });
    let sword = w.create_entity();
    w.weapon[sword] = Some(Weapon {
        primary: Some(DamageAtom::Slash(3)),
        secondary: None,
        tertiary: None,
    });
    w.equipped[sword] = Some(Equipped { owner: 0, slot: EquipmentSlot::RightHand });
    w.unequip_intent[0] = Some(UnequipIntent { item: sword });
    EquipSystem::run(&mut w);
    let attack = w.basic_attack[0].unwrap();
    assert_eq!(attack.current, DamageAtom::Bludgeon(1));
    assert_eq!(w.in_backpack[sword].unwrap().owner, 0);
}

#[test]
fn equipping_a_weapon_sets_the_current_attack() {
    let mut w = test_world();
    w.creature[0] = true;
    w.basic_attack[0] = Some(BasicAttack {
        base: DamageAtom::Bludgeon(1),
        current: DamageAtom::Bludgeon(1),
    });
    let knife = w.create_entity();
    w.equippable[knife] = Some(Equippable { slot: EquipmentSlot::RightHand });
    w.weapon[knife] = Some(Weapon {
        primary: None,
        secondary: Some(DamageAtom::Pierce(2)),
        tertiary: None,
    });
    w.equip_intent[0] = Some(EquipIntent { item: knife });
    EquipSystem::run(&mut w);
    assert_eq!(w.basic_attack[0].unwrap().current, DamageAtom::Pierce(2));
}

#[test]
fn picked_up_items_leave_the_floor() {
    let mut w = test_world();
    let potion = w.create_entity();
    w.item[potion] = true;
    w.position[potion] = Some(Position { x: 1, y: 1 });
    w.aflame[potion] = true;
    w.pickup_intent[0] = Some(PickUpIntent { item: potion, desired_by: 0 });
    ItemCollectionSystem::run(&mut w);
    assert!(w.position[potion].is_none());
    assert_eq!(w.in_backpack[potion].unwrap().owner, 0);
    assert!(!w.aflame[potion]);
    assert!(w.pickup_intent[0].is_none());
}

#[test]
fn dropped_items_land_at_the_droppers_feet() {
    let mut w = test_world();
    let potion = w.create_entity();
    w.item[potion] = true;
    w.in_backpack[potion] = Some(goblin_rl::components::InBackpack { owner: 0 });
    w.drop_item_intent[0] = Some(goblin_rl::components::DropItemIntent { item: potion });
    ItemDropSystem::run(&mut w);
    assert_eq!(w.position[potion], Some(Position { x: 1, y: 1 }));
    assert!(w.in_backpack[potion].is_none());
}

#[test]
fn magic_map_reveal_walks_the_rows() {
    let mut w = test_world();
    let next = game::magic_map_reveal(&mut w, 0);
    assert_eq!(next, RunState::MagicMapReveal { row: 1 });
    for x in 0..16 {
        let idx = w.map.xy_idx(x, 0);
        assert!(w.map.revealed_tiles[idx]);
    }
    let idx_elsewhere = w.map.xy_idx(3, 5);
    assert!(!w.map.revealed_tiles[idx_elsewhere]);
    let last = game::magic_map_reveal(&mut w, 15);
    assert_eq!(last, RunState::GameworldTurn);
}

#[test]
fn player_turn_hands_over_to_the_world() {
    let mut w = test_world();
    w.run_state = RunState::PlayerTurn;
    assert_eq!(game::player_turn_transition(&w), RunState::GameworldTurn);
    w.run_state = RunState::MagicMapReveal { row: 7 };
    assert_eq!(
        game::player_turn_transition(&w),
        RunState::MagicMapReveal { row: 0 }
    );
}

#[test]
fn level_change_spares_only_the_player_and_its_gear() {
    let mut w = test_world();
    let goblin = w.create_entity();
    w.stats[goblin] = Some(base_stats(4, 4));
    let goblin_loot = w.create_entity();
    w.in_backpack[goblin_loot] = Some(goblin_rl::components::InBackpack { owner: goblin });
    let player_potion = w.create_entity();
    w.in_backpack[player_potion] = Some(goblin_rl::components::InBackpack { owner: 0 });
    let player_sword = w.create_entity();
    w.equipped[player_sword] = Some(goblin_rl::components::Equipped {
        owner: 0,
        slot: goblin_rl::components::EquipmentSlot::RightHand,
    });
    game::goto_next_level_prep(&mut w);
    w.maintain();
    // the goblin and the loot it carried are gone; the player's gear stays
    assert!(!w.alive[goblin]);
    assert!(!w.alive[goblin_loot]);
    assert!(w.alive[0]);
    assert!(w.alive[player_potion]);
    assert!(w.alive[player_sword]);
}

#[test]
fn the_state_machine_dispatches_each_phase() {
    let menu = Some(goblin_rl::main_menu::Selection::NewGame);
    let over = Some(goblin_rl::game_over::Selection::NewGame);
    assert_eq!(
        game::next_state(RunState::MapGeneration, None, None, false, false),
        RunState::MainMenu
    );
    assert_eq!(game::next_state(RunState::MainMenu, menu, None, false, false), RunState::PreRun);
    assert_eq!(
        game::next_state(
            RunState::MainMenu,
            Some(goblin_rl::main_menu::Selection::LoadGame),
            None,
            false,
            false
        ),
        RunState::AwaitingInput
    );
    assert_eq!(game::next_state(RunState::PreRun, None, None, false, false), RunState::AwaitingInput);
    assert_eq!(
        game::next_state(RunState::AwaitingInput, None, None, true, false),
        RunState::PlayerTurn
    );
    assert_eq!(
        game::next_state(RunState::PlayerTurn, None, None, false, true),
        RunState::MagicMapReveal { row: 0 }
    );
    assert_eq!(
        game::next_state(RunState::GameworldTurn, None, None, false, false),
        RunState::AwaitingInput
    );
    assert_eq!(game::next_state(RunState::NextLevel, None, None, false, false), RunState::PreRun);
    assert_eq!(game::next_state(RunState::GameOver, None, over, false, false), RunState::PreRun);
    assert_eq!(game::next_state(RunState::SaveGame, None, None, false, false), RunState::MainMenu);
}

#[test]
fn death_notices_land_once_per_named_corpse() {
    let mut w = test_world();
    let named = w.create_entity();
    w.name[named] = Some(Name { name: "Goblin".to_string() });
    w.stats[named] = Some(base_stats(0, 4));
    let nameless = w.create_entity();
    w.stats[nameless] = Some(base_stats(0, 4));
    let log_before = w.log.len();
    goblin_rl::damage_system::delete_the_dead(&mut w);
    assert_eq!(w.log.len(), log_before + 1);
}

#[test]
fn pickup_notices_land_only_for_the_player() {
    let mut w = test_world();
    let potion = w.create_entity();
    w.item[potion] = true;
    w.name[potion] = Some(Name { name: "Health Potion".to_string() });
    w.position[potion] = Some(Position { x: 2, y: 2 });
    let goblin = w.create_entity();
    let rock = w.create_entity();
    w.item[rock] = true;
    w.name[rock] = Some(Name { name: "Rock".to_string() });
    w.position[rock] = Some(Position { x: 3, y: 3 });
    w.pickup_intent[0] = Some(PickUpIntent { item: potion, desired_by: 0 });
    w.pickup_intent[goblin] = Some(PickUpIntent { item: rock, desired_by: goblin });
    let log_before = w.log.len();
    ItemCollectionSystem::run(&mut w);
    assert_eq!(w.log.len(), log_before + 1);
    assert!(w.in_backpack[rock].is_some());
}
