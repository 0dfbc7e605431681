//! The turn engine's fixed pipeline and the run-state transitions that the
//! tick takes around it. The ordering here is the contract that matters:
//! intents resolve before effects, the spatial index is rebuilt after all
//! movement and before anything reads tile occupancy, and damage resolves
//! after every system that can queue it and before the dead are collected.

use vstd::prelude::*;

use crate::c_menu_system::ContextMenuSystem;
use crate::bleed_system::BleedSystem;
use crate::components::{Entity, Position, Stats};
use crate::damage_system::DamageSystem;
use crate::equip_system::EquipSystem;
use crate::gamelog;
use crate::healing_system::HealingSystem;
use crate::hunger_system::HungerSystem;
use crate::inventory_system::{ItemCollectionSystem, ItemDropSystem, ItemUseSystem};
use crate::map_indexing_system::MapIndexingSystem;
use crate::melee_combat_system::MeleeCombatSystem;
use crate::particle_system::ParticleSpawnSystem;
use crate::throw_system::ThrowSystem;
use crate::trigger_system::TriggerSystem;
use crate::world::World;
use crate::RunState;

verus! {

/// The intent-resolution half of the pipeline, in its fixed order: the
/// context menus refresh, traps spring under whoever just moved, items are
/// used (with the given blast areas), dropped items hit the floor, melee
/// lands, and thermal-struck flammables catch fire. Every one of those
/// intent storages is drained.
pub fn resolve_intents(w: &mut World, blasts: &Vec<Vec<Position>>)
    requires
        old(w).wf(),
    ensures
        final(w).wf(),
        final(w).n == old(w).n,
        forall|e: int| 0 <= e < final(w).n ==> !(#[trigger] final(w).just_moved@[e]),
        forall|e: int| 0 <= e < final(w).n ==> (#[trigger] final(w).use_item_intent@[e]) is None,
        forall|e: int| 0 <= e < final(w).n ==> (#[trigger] final(w).drop_item_intent@[e]) is None,
        forall|e: int| 0 <= e < final(w).n ==> (#[trigger] final(w).melee_intent@[e]) is None,
{
    ContextMenuSystem::run(w);
    TriggerSystem::run(w);
    ItemUseSystem::run(w, blasts);
    ItemDropSystem::run(w);
    MeleeCombatSystem::run(w);
    crate::light_system::LightSystem::ignite(w);
}

/// The effect-resolution half of the pipeline, in its fixed order: the
/// spatial index is rebuilt first (after all movement, before anything
/// reads tile occupancy), heals tick, bleeders bleed, hunger advances,
/// throws land, then the damage system drains every queue, pick-ups and
/// equipment changes land, queued particles materialize, and world
/// maintenance applies the deferred deletions. Afterwards no damage queue
/// is pending, no intent of this half survives, and every resource pool
/// sits within its bounds.
#[verifier::rlimit(100)]
pub fn resolve_effects(w: &mut World)
    requires
        old(w).wf(),
    ensures
        final(w).wf(),
        forall|e: int| 0 <= e < final(w).n ==> (#[trigger] final(w).damage_queue@[e]) is None,
        forall|e: int| 0 <= e < final(w).n ==> (#[trigger] final(w).throw_intent@[e]) is None,
        forall|e: int| 0 <= e < final(w).n ==> (#[trigger] final(w).pickup_intent@[e]) is None,
        forall|e: int| 0 <= e < final(w).n ==> (#[trigger] final(w).equip_intent@[e]) is None,
        forall|e: int| 0 <= e < final(w).n ==> (#[trigger] final(w).unequip_intent@[e]) is None,
        final(w).to_delete@.len() == 0,
        forall|e: int|
            0 <= e < final(w).n && (#[trigger] final(w).stats@[e]) is Some ==> 0 <= final(w).stats@[e]->Some_0.hp <= final(w).stats@[e]->Some_0.max_hp,
        // intents drained by the first half of the pipeline stay drained
        (forall|e: int| 0 <= e < old(w).n ==> (#[trigger] old(w).melee_intent@[e]) is None)
            ==> (forall|e: int|
            0 <= e < final(w).n ==> (#[trigger] final(w).melee_intent@[e]) is None),
        (forall|e: int| 0 <= e < old(w).n ==> (#[trigger] old(w).use_item_intent@[e]) is None)
            ==> (forall|e: int|
            0 <= e < final(w).n ==> (#[trigger] final(w).use_item_intent@[e]) is None),
        (forall|e: int| 0 <= e < old(w).n ==> (#[trigger] old(w).drop_item_intent@[e]) is None)
            ==> (forall|e: int|
            0 <= e < final(w).n ==> (#[trigger] final(w).drop_item_intent@[e]) is None),
        (forall|e: int| 0 <= e < old(w).n ==> !(#[trigger] old(w).just_moved@[e])) ==> (forall|
            e: int,
        |
            0 <= e < final(w).n ==> !(#[trigger] final(w).just_moved@[e])),
{
    MapIndexingSystem::run(w);
    HealingSystem::run(w);
    BleedSystem::run(w);
    HungerSystem::run(w);
    ThrowSystem::run(w);
    DamageSystem::run(w);
    ItemCollectionSystem::run(w);
    EquipSystem::run(w);
    let ghost before_spawn = *w;
    if w.n <= usize::MAX - w.particles.len() {
        ParticleSpawnSystem::run(w);
    }
    proof {
        assert forall|e: int| 0 <= e < w.n implies (#[trigger] w.damage_queue@[e]) is None by {
            if e < before_spawn.n {
                assert(World::slot_same(&before_spawn, w, e));
            } else {
                let k = e - before_spawn.n;
                assert(w.damage_queue@[before_spawn.n + k] is None);
            }
        }
        assert forall|e: int| 0 <= e < w.n implies (#[trigger] w.throw_intent@[e]) is None by {
            if e < before_spawn.n {
                assert(World::slot_same(&before_spawn, w, e));
            } else {
                let k = e - before_spawn.n;
                assert(w.damage_queue@[before_spawn.n + k] is None);
                assert(w.throw_intent@[before_spawn.n + k] is None);
            }
        }
        assert forall|e: int| 0 <= e < w.n implies (#[trigger] w.pickup_intent@[e]) is None by {
            if e < before_spawn.n {
                assert(World::slot_same(&before_spawn, w, e));
            } else {
                let k = e - before_spawn.n;
                assert(w.damage_queue@[before_spawn.n + k] is None);
                assert(w.pickup_intent@[before_spawn.n + k] is None);
            }
        }
        assert forall|e: int| 0 <= e < w.n implies (#[trigger] w.equip_intent@[e]) is None by {
            if e < before_spawn.n {
                assert(World::slot_same(&before_spawn, w, e));
            } else {
                let k = e - before_spawn.n;
                assert(w.damage_queue@[before_spawn.n + k] is None);
                assert(w.equip_intent@[before_spawn.n + k] is None);
            }
        }
        assert forall|e: int| 0 <= e < w.n implies (#[trigger] w.unequip_intent@[e]) is None by {
            if e < before_spawn.n {
                assert(World::slot_same(&before_spawn, w, e));
            } else {
                let k = e - before_spawn.n;
                assert(w.damage_queue@[before_spawn.n + k] is None);
                assert(w.unequip_intent@[before_spawn.n + k] is None);
            }
        }
    }
    let ghost before_maintain = *w;
    w.maintain();
    proof {
        assert forall|e: int| 0 <= e < w.n implies (#[trigger] w.damage_queue@[e]) is None by {
            if World::queued(before_maintain.to_delete@, e) {
                assert(w.slot_cleared(e));
            } else {
                assert(World::slot_same(&before_maintain, w, e));
            }
        }
        if forall|e: int| 0 <= e < old(w).n ==> (#[trigger] old(w).melee_intent@[e]) is None {
            assert forall|e: int| 0 <= e < w.n implies (
            #[trigger] w.melee_intent@[e]) is None by {
                if !World::queued(before_maintain.to_delete@, e) {
                    assert(World::slot_same(&before_maintain, w, e));
                    if e < before_spawn.n {
                        assert(World::slot_same(&before_spawn, &before_maintain, e));
                    } else {
                        let k = e - before_spawn.n;
                        assert(before_maintain.melee_intent@[before_spawn.n + k] is None);
                    }
                } else {
                    assert(w.slot_cleared(e));
                }
            }
        }
        if forall|e: int| 0 <= e < old(w).n ==> (#[trigger] old(w).use_item_intent@[e]) is None {
            assert forall|e: int| 0 <= e < w.n implies (
            #[trigger] w.use_item_intent@[e]) is None by {
                if !World::queued(before_maintain.to_delete@, e) {
                    assert(World::slot_same(&before_maintain, w, e));
                    if e < before_spawn.n {
                        assert(World::slot_same(&before_spawn, &before_maintain, e));
                    } else {
                        let k = e - before_spawn.n;
                        assert(before_maintain.use_item_intent@[before_spawn.n + k] is None);
                    }
                } else {
                    assert(w.slot_cleared(e));
                }
            }
        }
        if forall|e: int| 0 <= e < old(w).n ==> (#[trigger] old(w).drop_item_intent@[e]) is None {
            assert forall|e: int| 0 <= e < w.n implies (
            #[trigger] w.drop_item_intent@[e]) is None by {
                if !World::queued(before_maintain.to_delete@, e) {
                    assert(World::slot_same(&before_maintain, w, e));
                    if e < before_spawn.n {
                        assert(World::slot_same(&before_spawn, &before_maintain, e));
                    } else {
                        let k = e - before_spawn.n;
                        assert(before_maintain.drop_item_intent@[before_spawn.n + k] is None);
                    }
                } else {
                    assert(w.slot_cleared(e));
                }
            }
        }
        if forall|e: int| 0 <= e < old(w).n ==> !(#[trigger] old(w).just_moved@[e]) {
            assert forall|e: int| 0 <= e < w.n implies !(#[trigger] w.just_moved@[e]) by {
                if !World::queued(before_maintain.to_delete@, e) {
                    assert(World::slot_same(&before_maintain, w, e));
                    if e < before_spawn.n {
                        assert(World::slot_same(&before_spawn, &before_maintain, e));
                    } else {
                        let k = e - before_spawn.n;
                        assert(!before_maintain.just_moved@[before_spawn.n + k]);
                    }
                } else {
                    assert(w.slot_cleared(e));
                }
            }
        }
        assert forall|e: int| 0 <= e < w.n implies (#[trigger] w.throw_intent@[e]) is None by {
            if World::queued(before_maintain.to_delete@, e) {
                assert(w.slot_cleared(e));
            } else {
                assert(World::slot_same(&before_maintain, w, e));
            }
        }
        assert forall|e: int| 0 <= e < w.n implies (#[trigger] w.pickup_intent@[e]) is None by {
            if World::queued(before_maintain.to_delete@, e) {
                assert(w.slot_cleared(e));
            } else {
                assert(World::slot_same(&before_maintain, w, e));
            }
        }
        assert forall|e: int| 0 <= e < w.n implies (#[trigger] w.equip_intent@[e]) is None by {
            if World::queued(before_maintain.to_delete@, e) {
                assert(w.slot_cleared(e));
            } else {
                assert(World::slot_same(&before_maintain, w, e));
            }
        }
        assert forall|e: int| 0 <= e < w.n implies (#[trigger] w.unequip_intent@[e]) is None by {
            if World::queued(before_maintain.to_delete@, e) {
                assert(w.slot_cleared(e));
            } else {
                assert(World::slot_same(&before_maintain, w, e));
            }
        }
    }
}

/// Reveal one map row during the magic-map reveal, and say which state the
/// tick moves to: the next row, or the world's turn once the last row is
/// shown.
pub fn magic_map_reveal(w: &mut World, row: i32) -> (r: RunState)
    requires
        old(w).wf(),
        0 <= row < old(w).map.height,
    ensures
        final(w).wf(),
        *final(w) == (World { map: final(w).map, ..*old(w) }),
        final(w).map == (crate::map::GameMap {
            revealed_tiles: final(w).map.revealed_tiles,
            ..old(w).map
        }),
        // exactly the revealed row is newly shown
        forall|i: int|
            0 <= i < final(w).map.revealed_tiles@.len() ==> (#[trigger] final(w).map.revealed_tiles@[i]) == (old(w).map.revealed_tiles@[i] || (exists|x: int|
                0 <= x < old(w).map.width && old(w).map.spec_idx(x, row as int) == i)),
        r == (if row == old(w).map.height - 1 {
            RunState::GameworldTurn
        } else {
            RunState::MagicMapReveal { row: (row + 1) as i32 }
        }),
{
    let width = w.map.width;
    let mut x: i32 = 0;
    while x < width
        invariant
            0 <= x <= width,
            old(w).wf(),
            w.wf(),
            0 <= row < w.map.height,
            width == w.map.width,
            *w == (World { map: w.map, ..*old(w) }),
            w.map == (crate::map::GameMap { revealed_tiles: w.map.revealed_tiles, ..old(w).map }),
            forall|i: int|
                0 <= i < w.map.revealed_tiles@.len() ==> (#[trigger] w.map.revealed_tiles@[i]) == (
                old(w).map.revealed_tiles@[i] || (exists|x2: int|
                    0 <= x2 < x && old(w).map.spec_idx(x2, row as int) == i)),
        decreases width - x,
    {
        let idx = w.map.xy_idx(x, row);
        let ghost rev0 = w.map.revealed_tiles@;
        w.map.revealed_tiles.set(idx, true);
        x = x + 1;
        proof {
            assert forall|i: int|
                0 <= i < w.map.revealed_tiles@.len() implies (#[trigger] w.map.revealed_tiles@[i])
                == (old(w).map.revealed_tiles@[i] || (exists|x2: int|
                0 <= x2 < x && old(w).map.spec_idx(x2, row as int) == i)) by {
                if i == idx {
                    assert(old(w).map.spec_idx(x - 1, row as int) == i);
                } else {
                    assert(w.map.revealed_tiles@[i] == rev0[i]);
                }
            }
        }
    }
    if row == w.map.height - 1 {
        RunState::GameworldTurn
    } else {
        RunState::MagicMapReveal { row: row + 1 }
    }
}

/// The tick's state dispatch, for every phase whose successor does not
/// depend on running the pipeline: menu choices select the next game,
/// committed input starts the player's turn, the level change falls into
/// the pre-run settle, and the menu-driven phases stay where the host's
/// menu flow leaves them.
pub fn next_state(
    current: RunState,
    menu: Option<crate::main_menu::Selection>,
    over: Option<crate::game_over::Selection>,
    input_committed: bool,
    magic_requested: bool,
) -> (r: RunState)
    ensures
        r == (match current {
            RunState::MapGeneration => RunState::MainMenu,
            RunState::MainMenu => (match menu {
                Some(crate::main_menu::Selection::NewGame) => RunState::PreRun,
                Some(crate::main_menu::Selection::LoadGame) => RunState::AwaitingInput,
                _ => RunState::MainMenu,
            }),
            RunState::PreRun => RunState::AwaitingInput,
            RunState::AwaitingInput => if input_committed {
                RunState::PlayerTurn
            } else {
                RunState::AwaitingInput
            },
            RunState::PlayerTurn => if magic_requested {
                RunState::MagicMapReveal { row: 0 }
            } else {
                RunState::GameworldTurn
            },
            RunState::GameworldTurn => RunState::AwaitingInput,
            RunState::NextLevel => RunState::PreRun,
            RunState::GameOver => (match over {
                Some(crate::game_over::Selection::NewGame) => RunState::PreRun,
                _ => RunState::GameOver,
            }),
            RunState::SaveGame => RunState::MainMenu,
            other => other,
        }),
{
    match current {
        RunState::MapGeneration => RunState::MainMenu,
        RunState::MainMenu => match menu {
            Some(crate::main_menu::Selection::NewGame) => RunState::PreRun,
            Some(crate::main_menu::Selection::LoadGame) => RunState::AwaitingInput,
            _ => RunState::MainMenu,
        },
        RunState::PreRun => RunState::AwaitingInput,
        RunState::AwaitingInput => if input_committed {
            RunState::PlayerTurn
        } else {
            RunState::AwaitingInput
        },
        RunState::PlayerTurn => if magic_requested {
            RunState::MagicMapReveal { row: 0 }
        } else {
            RunState::GameworldTurn
        },
        RunState::GameworldTurn => RunState::AwaitingInput,
        RunState::NextLevel => RunState::PreRun,
        RunState::GameOver => match over {
            Some(crate::game_over::Selection::NewGame) => RunState::PreRun,
            _ => RunState::GameOver,
        },
        RunState::SaveGame => RunState::MainMenu,
        other => other,
    }
}

/// Where the tick goes after the player's turn resolved: into the
/// magic-map reveal when a system asked for one, else to the world's turn.
pub fn player_turn_transition(w: &World) -> (r: RunState)
    ensures
        r == (match w.run_state {
            RunState::MagicMapReveal { .. } => RunState::MagicMapReveal { row: 0 },
            _ => RunState::GameworldTurn,
        }),
{
    match w.run_state {
        RunState::MagicMapReveal { .. } => RunState::MagicMapReveal { row: 0 },
        _ => RunState::GameworldTurn,
    }
}

/// The stats after the between-level rest: half the missing hit points
/// come back.
pub open spec fn spec_next_level_stats(stats: Stats) -> Stats {
    Stats { hp: (stats.hp + (stats.max_hp - stats.hp) / 2) as i32, ..stats }
}

/// Half the player's missing hit points come back on the way down.
pub fn next_level_heal(stats: Stats) -> (r: Stats)
    requires
        stats.wf(),
    ensures
        r == spec_next_level_stats(stats),
        r.wf(),
        r.hp == stats.hp + (stats.max_hp - stats.hp) / 2,
{
    let missing = stats.max_hp - stats.hp;
    Stats { hp: stats.hp + missing / 2, ..stats }
}

/// The entity lives through a level change: it is the player, or it is
/// carried in the player's backpack, or worn by the player.
pub open spec fn survives_level_change(w: &World, e: int) -> bool {
    ||| w.player@[e]
    ||| (w.in_backpack@[e] is Some && w.in_backpack@[e]->Some_0.owner == w.player_entity)
    ||| (w.equipped@[e] is Some && w.equipped@[e]->Some_0.owner == w.player_entity)
}

/// The entities that do not survive a level change: every live entity
/// except the player and the items the player carries or wears. The list
/// is complete, and holds survivors of no kind.
pub fn entities_to_remove_on_level_change(w: &World) -> (r: Vec<Entity>)
    requires
        w.wf(),
    ensures
        forall|k: int|
            0 <= k < r@.len() ==> (#[trigger] r@[k]) < w.n && w.alive@[r@[k] as int]
                && !survives_level_change(w, r@[k] as int),
        forall|e: int|
            0 <= e < w.n && w.alive@[e] && !survives_level_change(w, e) ==> exists|k: int|
                0 <= k < r@.len() && (#[trigger] r@[k]) == e,
{
    let n = w.n;
    let player = w.player_entity;
    let mut r: Vec<Entity> = Vec::new();
    let mut e: usize = 0;
    while e < n
        invariant
            e <= n,
            w.wf(),
            n == w.n,
            player == w.player_entity,
            forall|k: int|
                0 <= k < r@.len() ==> (#[trigger] r@[k]) < w.n && w.alive@[r@[k] as int]
                    && !survives_level_change(w, r@[k] as int),
            forall|e2: int|
                0 <= e2 < e && w.alive@[e2] && !survives_level_change(w, e2) ==> exists|k: int|
                    0 <= k < r@.len() && (#[trigger] r@[k]) == e2,
        decreases n - e,
    {
        let carried_by_player = match &w.in_backpack[e] {
            Some(pack) => pack.owner == player,
            None => false,
        };
        let worn_by_player = match &w.equipped[e] {
            Some(eq) => eq.owner == player,
            None => false,
        };
        if w.alive[e] && !w.player[e] && !carried_by_player && !worn_by_player {
            proof {
                assert(!survives_level_change(w, e as int));
            }
            let ghost r0 = r@;
            r.push(e);
            proof {
                assert(r@[r0.len() as int] == e);
                assert forall|e2: int|
                    0 <= e2 < e + 1 && w.alive@[e2] && !survives_level_change(
                        w,
                        e2,
                    ) implies exists|k: int| 0 <= k < r@.len() && (#[trigger] r@[k]) == e2 by {
                    if e2 < e {
                        let k = choose|k: int| 0 <= k < r0.len() && (#[trigger] r0[k]) == e2;
                        assert(r@[k] == e2);
                    }
                }
            }
        }
        e = e + 1;
    }
    r
}

/// Queue the level-change deletions and rest the player: everything but
/// the player and its belongings is queued for deletion, and half the
/// player's missing hit points come back. The caller regenerates the map
/// at the next depth.
pub fn goto_next_level_prep(w: &mut World)
    requires
        old(w).wf(),
        old(w).to_delete@.len() == 0,
    ensures
        final(w).wf(),
        *final(w) == (World {
            to_delete: final(w).to_delete,
            stats: final(w).stats,
            log: final(w).log,
            ..*old(w)
        }),
        // everything but the player and the player's belongings goes
        forall|e: int|
            0 <= e < final(w).n && old(w).alive@[e] && !survives_level_change(old(w), e)
                ==> World::queued(final(w).to_delete@, e),
        // and nothing else is queued: the player and its gear stay
        forall|e: int|
            World::queued(final(w).to_delete@, e) ==> 0 <= e < old(w).n && old(w).alive@[e]
                && !survives_level_change(old(w), e),
        // the player's rest restores half the missing hit points
        old(w).stats@[old(w).player_entity as int] is Some ==> final(w).stats@[old(
            w,
        ).player_entity as int] == Some(
            spec_next_level_stats(old(w).stats@[old(w).player_entity as int]->Some_0),
        ),
        forall|e: int|
            0 <= e < final(w).n && e != old(w).player_entity ==> (#[trigger] final(w).stats@[e])
                == old(w).stats@[e],
        old(w).log@.is_prefix_of(final(w).log@),
{
    proof {
        crate::components::lemma_prefix_refl(w.log@);
    }
    let doomed = entities_to_remove_on_level_change(w);
    let dlen = doomed.len();
    let mut k: usize = 0;
    while k < dlen
        invariant
            k <= dlen,
            dlen == doomed@.len(),
            old(w).wf(),
            w.wf(),
            *w == (World { to_delete: w.to_delete, ..*old(w) }),
            forall|k2: int|
                0 <= k2 < doomed@.len() ==> (#[trigger] doomed@[k2]) < w.n && old(
                    w,
                ).alive@[doomed@[k2] as int] && !survives_level_change(
                    old(w),
                    doomed@[k2] as int,
                ),
            forall|e2: int|
                0 <= e2 < w.n && old(w).alive@[e2] && !survives_level_change(old(w), e2)
                    ==> exists|k2: int| 0 <= k2 < doomed@.len() && (#[trigger] doomed@[k2]) == e2,
            forall|k2: int|
                0 <= k2 < k ==> World::queued(w.to_delete@, (#[trigger] doomed@[k2]) as int),
            forall|x: int|
                World::queued(w.to_delete@, x) ==> exists|k2: int|
                    0 <= k2 < doomed@.len() && (#[trigger] doomed@[k2]) == x,
        decreases dlen - k,
    {
        let victim = doomed[k];
        let ghost td0 = w.to_delete@;
        w.to_delete.push(victim);
        proof {
            assert(w.to_delete@[td0.len() as int] == victim);
            assert forall|k2: int|
                0 <= k2 < k + 1 implies World::queued(
                w.to_delete@,
                (#[trigger] doomed@[k2]) as int,
            ) by {
                if k2 < k {
                    let j = choose|j: int|
                        0 <= j < td0.len() && #[trigger] td0[j] == doomed@[k2] as int;
                    assert(w.to_delete@[j] == doomed@[k2] as usize);
                }
            }
            assert forall|x: int|
                World::queued(w.to_delete@, x) implies exists|k2: int|
                0 <= k2 < doomed@.len() && (#[trigger] doomed@[k2]) == x by {
                let j = choose|j: int|
                    0 <= j < w.to_delete@.len() && #[trigger] w.to_delete@[j] == x;
                if j < td0.len() {
                    assert(td0[j] == x);
                    assert(World::queued(td0, x));
                } else {
                    assert(doomed@[k as int] == x);
                }
            }
        }
        k = k + 1;
    }
    gamelog::push_line(
        &mut w.log,
        String::from_str("You descend to the next level and take a moment to rest."),
    );
    let player = w.player_entity;
    if w.stats[player].is_some() {
        let stats = w.stats[player].unwrap();
        let rested = next_level_heal(stats);
        w.stats.set(player, Some(rested));
    }
    proof {
        assert forall|e: int|
            0 <= e < w.n && old(w).alive@[e] && !survives_level_change(
            old(w),
            e,
        ) implies World::queued(w.to_delete@, e) by {
            let k2 = choose|k2: int|
                0 <= k2 < doomed@.len() && (#[trigger] doomed@[k2]) == e;
            assert(World::queued(w.to_delete@, doomed@[k2] as int));
        }
    }
}

/// Queue every live entity for deletion: the fresh start after a game
/// over. The caller respawns the player and regenerates the map.
pub fn queue_all_for_deletion(w: &mut World)
    requires
        old(w).wf(),
    ensures
        final(w).wf(),
        *final(w) == (World { to_delete: final(w).to_delete, ..*old(w) }),
        forall|e: int|
            0 <= e < final(w).n && old(w).alive@[e] ==> World::queued(final(w).to_delete@, e),
{
    let n = w.n;
    let mut e: usize = 0;
    while e < n
        invariant
            e <= n,
            old(w).wf(),
            w.wf(),
            n == w.n,
            *w == (World { to_delete: w.to_delete, ..*old(w) }),
            forall|e2: int|
                0 <= e2 < e && old(w).alive@[e2] ==> World::queued(w.to_delete@, e2),
        decreases n - e,
    {
        if w.alive[e] {
            let ghost td0 = w.to_delete@;
            w.to_delete.push(e);
            proof {
                assert(w.to_delete@[td0.len() as int] == e);
                assert forall|e2: int|
                    0 <= e2 < e + 1 && old(w).alive@[e2] implies World::queued(
                    w.to_delete@,
                    e2,
                ) by {
                    if e2 < e {
                        let j = choose|j: int| 0 <= j < td0.len() && #[trigger] td0[j] == e2;
                        assert(w.to_delete@[j] == td0[j]);
                    }
                }
            }
        }
        e = e + 1;
    }
}

} // verus!
