//! Turn-resolution engine for a tile-map dungeon crawler.
//!
//! The library models the game world as an arena of entities with optional
//! components, and resolves player and AI intents into damage, status
//! effects, inventory changes and map mutations in a fixed, dependency
//! ordered pipeline once per tick.

use vstd::prelude::*;

pub mod bleed_system;
pub mod c_menu_system;
pub mod command;
pub mod components;
pub mod damage_system;
pub mod equip_system;
pub mod game;
pub mod gamelog;
pub mod game_over;
pub mod healing_system;
pub mod hostile_ai_system;
pub mod hunger_system;
pub mod inventory_system;
pub mod light_system;
pub mod look_n_feel;
pub mod main_menu;
pub mod map;
pub mod map_builders;
pub mod map_indexing_system;
pub mod melee_combat_system;
pub mod observer;
pub mod particle_system;
pub mod player;
pub mod rect;
pub mod rng;
pub mod spawner;
pub mod scrollbar;
pub mod throw_system;
pub mod trigger_system;
pub mod visibility_system;
pub mod widget;
pub mod world;
pub mod yaml_parser;

verus! {

/// The top-level game-mode / turn-phase state machine. Exactly one value is
/// current at any time; it drives which systems run and what input is valid.
#[derive(PartialEq, Eq, Structural, Clone, Copy, Debug)]
pub enum RunState {
    AwaitingInput,
    GameOver,
    GameworldTurn,
    MagicMapReveal { row: i32 },
    MainMenu,
    MapGeneration,
    NextLevel,
    PreRun,
    PlayerTurn,
    ShowPlayerMenu,
    ShowContextMenu { selection: i8, focus: i8 },
    ShowTargeting { range: i32, item: usize },
    SaveGame,
}

} // verus!
