//! Exercises the interface-layer pieces: commands, colors, widgets, the
//! YAML adapter, player actions, and the map builders.

use goblin_rl::command::{Command, CommandHistory, CommandQueue};
use goblin_rl::components::{Position, Rgb, Stats};
use goblin_rl::look_n_feel::{opposite_dir, ColorOption, Dir};
use goblin_rl::map::{GameMap, TileType};
use goblin_rl::map_builders::door_placement::DoorPlacement;
use goblin_rl::map_builders::BuilderMap;
use goblin_rl::observer::IdGenerator;
use goblin_rl::player;
use goblin_rl::scrollbar::{MoveCursorCommand, ScrollBar, ScrollCommand};
use goblin_rl::widget::{self, Widget, WidgetElement, WidgetRegistry};
use goblin_rl::world::World;
use goblin_rl::RunState;

#[test]
fn from_str_test01() {
    let test_str: &str = "blobs n' bits";
    let result = goblin_rl::yaml_parser::from_str(test_str);
    match result {
        Ok(v) => {
            assert_eq!(v, "blobs n' bits");
        }
        Err(e) => {
            println!("Error: {}", e);
        }
    }
}

#[test]
fn to_string_test00() {
    let result = goblin_rl::yaml_parser::to_string(&123456789u32);
    match result {
        Ok(v) => {
            assert_eq!(v, "---\n123456789\n");
        }
        Err(e) => {
            println!("Error: {}", e);
        }
    }
}

#[test]
fn yaml_parsing_unwraps_quoting() {
    // the parsed value differs from the raw document text
    let parsed = goblin_rl::yaml_parser::from_str("'quoted text'").unwrap();
    assert_eq!(parsed, "quoted text");
}

#[test]
fn command_queue_keeps_arrival_order() {
    let mut queue = CommandQueue::new();
    queue.push(Command::Grab);
    queue.push(Command::Wait);
    queue.push(Command::Move { dir: Dir::LEFT });
    assert_eq!(queue.pop(), Some(Command::Grab));
    assert_eq!(queue.rm_last(), Some(Command::Move { dir: Dir::LEFT }));
    assert_eq!(queue.pop(), Some(Command::Wait));
    assert_eq!(queue.pop(), None);
}

#[test]
fn command_queue_clear_and_iter() {
    let mut queue = CommandQueue::new();
    queue.push(Command::Select);
    queue.push(Command::Undo);
    let snapshot = queue.iter();
    assert_eq!(snapshot.items.len(), 2);
    queue.clear();
    assert_eq!(queue.pop(), None);
}

#[test]
fn command_history_is_last_in_first_out() {
    let mut history = CommandHistory::new();
    history.push(Command::Grab);
    history.push(Command::Wait);
    assert_eq!(history.pop(), Some(Command::Wait));
    assert_eq!(history.pop(), Some(Command::Grab));
    assert_eq!(history.pop(), None);
}

#[test]
fn directions_invert() {
    assert_eq!(opposite_dir(&Dir::UP), Dir::DOWN);
    assert_eq!(opposite_dir(&Dir::LEFT), Dir::RIGHT);
}

#[test]
fn color_options_map_to_colors() {
    assert_eq!(ColorOption::DEFAULT.value(), Rgb { r: 255, g: 255, b: 255 });
    assert_eq!(ColorOption::NONE.value(), Rgb { r: 0, g: 0, b: 0 });
}

#[test]
fn id_generator_never_repeats() {
    let mut generator = IdGenerator::new();
    let a = generator.generate_observer_id();
    let b = generator.generate_observer_id();
    let c = generator.generate_observer_id();
    assert_ne!(a, b);
    assert_ne!(a, c);
    assert_ne!(b, c);
}

#[test]
fn scrollbar_stops_at_both_ends() {
    let mut bar = ScrollBar::new(Position { x: 0, y: 0 }, 5, 3);
    bar.scroll(Dir::UP);
    assert_eq!(bar.slice_bounds, (0, 3));
    bar.scroll(Dir::DOWN);
    assert_eq!(bar.slice_bounds, (1, 4));
    bar.scroll(Dir::DOWN);
    bar.scroll(Dir::DOWN);
    assert_eq!(bar.slice_bounds, (2, 5));
    let command = ScrollCommand::new(Dir::UP);
    command.execute(&mut bar);
    assert_eq!(bar.slice_bounds, (1, 4));
    let mover = MoveCursorCommand::new(Dir::DOWN);
    assert_eq!(mover.direction, Dir::DOWN);
}

#[test]
fn widget_registry_round_trip() {
    let mut registry = WidgetRegistry::new();
    let name = "PlayerStats".to_string();
    widget::add(
        &mut registry,
        Widget {
            name: name.clone(),
            position: Position { x: 0, y: 0 },
            dimensions: Position { x: 10, y: 4 },
            elements: Vec::new(),
            border: None,
            selection: None,
        },
    );
    assert!(widget::contains(&registry, &name));
    let fresh = vec![WidgetElement::new("hp 8/8".to_string(), Rgb { r: 255, g: 255, b: 255 })];
    widget::store_widget_data(&mut registry, name.clone(), fresh);
    widget::update_all(&mut registry);
    assert_eq!(registry.widgets[0].elements.len(), 1);
    assert_eq!(registry.widgets[0].elements[0].to_draw, "hp 8/8");
    let removed = widget::rm(&mut registry, &name);
    assert!(removed.is_ok());
    assert!(!widget::contains(&registry, &name));
    assert!(widget::rm(&mut registry, &name).is_err());
}

#[test]
fn doors_fit_only_in_corridor_gaps() {
    let mut map = GameMap::new(1, 9, 9);
    // carve an east-west corridor through row 4
    for x in 1..8 {
        let idx = map.xy_idx(x, 4);
        map.tiles[idx] = TileType::Floor;
    }
    let build_data = BuilderMap {
        spawn_list: Vec::new(),
        map,
        starting_position: None,
        rooms: None,
        corridors: None,
        history: Vec::new(),
    };
    let placer = DoorPlacement::new();
    let fits = build_data.map.xy_idx(4, 4);
    assert!(placer.door_possible(&build_data, fits));
    let wall = build_data.map.xy_idx(4, 2);
    assert!(!placer.door_possible(&build_data, wall));
}

#[test]
fn player_cannot_walk_into_a_wall() {
    let mut w = World::new(GameMap::new(1, 16, 16));
    w.player[0] = true;
    w.position[0] = Some(Position { x: 2, y: 2 });
    w.viewshed[0] = Some(goblin_rl::components::Viewshed {
        visible_tiles: Vec::new(),
        range: 5,
        dirty: false,
    });
    w.player_pos = Position { x: 2, y: 2 };
    // everything is wall, so the tile east of the player blocks
    w.map.populate_blocked();
    let outcome = player::try_move_player(1, 0, &mut w);
    assert_eq!(outcome, RunState::AwaitingInput);
    assert_eq!(w.position[0], Some(Position { x: 2, y: 2 }));
    // carve the destination free and try again
    let idx = w.map.xy_idx(3, 2);
    w.map.blocked[idx] = false;
    let outcome = player::try_move_player(1, 0, &mut w);
    assert_eq!(outcome, RunState::PlayerTurn);
    assert_eq!(w.position[0], Some(Position { x: 3, y: 2 }));
    assert!(w.just_moved[0]);
}

#[test]
fn stairs_gate_the_next_level() {
    let mut w = World::new(GameMap::new(1, 16, 16));
    w.player[0] = true;
    w.player_pos = Position { x: 2, y: 2 };
    assert_eq!(player::try_next_level(&mut w), RunState::AwaitingInput);
    let idx = w.map.xy_idx(2, 2);
    w.map.tiles[idx] = TileType::StairsDown;
    assert_eq!(player::try_next_level(&mut w), RunState::NextLevel);
}

#[test]
fn grabbing_claims_the_item_underfoot() {
    let mut w = World::new(GameMap::new(1, 16, 16));
    w.player[0] = true;
    w.player_pos = Position { x: 2, y: 2 };
    let potion = w.create_entity();
    w.item[potion] = true;
    w.position[potion] = Some(Position { x: 2, y: 2 });
    assert_eq!(player::get_item(&mut w), RunState::PlayerTurn);
    let intent = w.pickup_intent[0].unwrap();
    assert_eq!(intent.item, potion);
    assert_eq!(intent.desired_by, 0);
}

#[test]
fn resting_heals_up_to_half_the_maximum() {
    let mut w = World::new(GameMap::new(1, 16, 16));
    w.player[0] = true;
    w.viewshed[0] = Some(goblin_rl::components::Viewshed {
        visible_tiles: Vec::new(),
        range: 5,
        dirty: false,
    });
    w.stats[0] = Some(Stats {
        max_hp: 10,
        hp: 3,
        max_fp: 8,
        fp: 8,
        max_mp: 8,
        mp: 8,
        mind: 1,
        body: 1,
        soul: 1,
    });
    w.hunger[0] = Some(goblin_rl::components::Hunger {
        state: goblin_rl::components::HungerState::Satiated,
        clock: 100,
    });
    assert_eq!(player::skip_turn(&mut w), RunState::PlayerTurn);
    assert_eq!(w.stats[0].unwrap().hp, 4);
    // a starving player does not heal
    w.hunger[0] = Some(goblin_rl::components::Hunger {
        state: goblin_rl::components::HungerState::Starving,
        clock: 0,
    });
    player::skip_turn(&mut w);
    assert_eq!(w.stats[0].unwrap().hp, 4);
}
