//! Player actions: movement with bump attacks, taking the stairs, grabbing
//! what lies underfoot, and resting a turn. A committed action hands the
//! tick to the player-turn phase; anything else keeps waiting for input.

use vstd::prelude::*;

use crate::command::{Command, CommandHistory, CommandQueue};
use crate::components::{HungerState, MeleeIntent, PickUpIntent, Position, Stats, Viewshed};
use crate::gamelog;
use crate::look_n_feel::Dir;
use crate::map::TileType;
use crate::world::World;
use crate::RunState;

verus! {

/// The player is fit to act: marked as the player, placed, and sighted.
pub open spec fn player_ready(w: &World) -> bool {
    &&& w.player@[w.player_entity as int]
    &&& w.position@[w.player_entity as int] is Some
    &&& w.viewshed@[w.player_entity as int] is Some
}

/// The step's destination, one tile from the player's position.
pub open spec fn step_dest(w: &World, dx: int, dy: int) -> Position {
    Position {
        x: (w.position@[w.player_entity as int]->Some_0.x + dx) as i32,
        y: (w.position@[w.player_entity as int]->Some_0.y + dy) as i32,
    }
}

/// The destination lies in the map's walkable interior.
pub open spec fn step_in_area(w: &World, dx: int, dy: int) -> bool {
    let pos = w.position@[w.player_entity as int]->Some_0;
    &&& 1 <= pos.x + dx <= w.map.width - 1
    &&& 1 <= pos.y + dy <= w.map.height - 1
}

/// The first occupant of the tile list at or above `from` that carries
/// stats: the bump-attack target.
pub open spec fn first_bump(w: &World, occ: Seq<crate::components::Entity>, from: int) -> Option<
    int,
>
    decreases occ.len() - from,
{
    if from < 0 || from >= occ.len() {
        None
    } else if w.stats@[occ[from] as int] is Some {
        Some(occ[from] as int)
    } else {
        first_bump(w, occ, from + 1)
    }
}

/// The occupants of the step's destination tile.
pub open spec fn dest_tile(w: &World, dx: int, dy: int) -> Seq<crate::components::Entity> {
    w.map.tile_content@[w.map.spec_idx(
        step_dest(w, dx, dy).x as int,
        step_dest(w, dx, dy).y as int,
    )]@
}

/// Move the player by one step, bump-attacking instead when a creature
/// with stats occupies the destination. A step out of the inner map area
/// or into a blocked tile does nothing and keeps waiting for input; a bump
/// raises a melee intent against the first such occupant and commits the
/// turn; a free step moves the player, dirties its sight, records the move
/// and commits the turn.
pub fn try_move_player(delta_x: i32, delta_y: i32, w: &mut World) -> (r: RunState)
    requires
        old(w).wf(),
        -1 <= delta_x <= 1,
        -1 <= delta_y <= 1,
    ensures
        final(w).wf(),
        *final(w) == (World {
            position: final(w).position,
            viewshed: final(w).viewshed,
            melee_intent: final(w).melee_intent,
            just_moved: final(w).just_moved,
            player_pos: final(w).player_pos,
            ..*old(w)
        }),
        r == RunState::PlayerTurn || r == RunState::AwaitingInput,
        r == RunState::AwaitingInput ==> *final(w) == *old(w),
        old(w).map.in_bounds(old(w).player_pos.x as int, old(w).player_pos.y as int) ==> final(w).map.in_bounds(final(w).player_pos.x as int, final(w).player_pos.y as int),
        // no player, or a step out of the interior: nothing happens
        !(player_ready(old(w)) && step_in_area(old(w), delta_x as int, delta_y as int)) ==> (
        *final(w) == *old(w) && r == RunState::AwaitingInput),
        // a creature in the way takes a bump attack instead
        (player_ready(old(w)) && step_in_area(old(w), delta_x as int, delta_y as int)
            && first_bump(old(w), dest_tile(old(w), delta_x as int, delta_y as int), 0) is Some)
            ==> (final(w).melee_intent@ == old(w).melee_intent@.update(
            old(w).player_entity as int,
            Some(
                MeleeIntent {
                    target: first_bump(
                        old(w),
                        dest_tile(old(w), delta_x as int, delta_y as int),
                        0,
                    )->Some_0 as crate::components::Entity,
                },
            ),
        ) && final(w).position@ == old(w).position@ && final(w).viewshed@ == old(w).viewshed@
            && final(w).just_moved@ == old(w).just_moved@ && final(w).player_pos == old(
            w,
        ).player_pos && r == RunState::PlayerTurn),
        // a blocked destination refuses the step
        (player_ready(old(w)) && step_in_area(old(w), delta_x as int, delta_y as int)
            && first_bump(old(w), dest_tile(old(w), delta_x as int, delta_y as int), 0) is None
            && old(w).map.blocked@[old(w).map.spec_idx(
            step_dest(old(w), delta_x as int, delta_y as int).x as int,
            step_dest(old(w), delta_x as int, delta_y as int).y as int,
        )]) ==> (*final(w) == *old(w) && r == RunState::AwaitingInput),
        // a free step commits the move
        (player_ready(old(w)) && step_in_area(old(w), delta_x as int, delta_y as int)
            && first_bump(old(w), dest_tile(old(w), delta_x as int, delta_y as int), 0) is None
            && !old(w).map.blocked@[old(w).map.spec_idx(
            step_dest(old(w), delta_x as int, delta_y as int).x as int,
            step_dest(old(w), delta_x as int, delta_y as int).y as int,
        )]) ==> (final(w).position@ == old(w).position@.update(
            old(w).player_entity as int,
            Some(step_dest(old(w), delta_x as int, delta_y as int)),
        ) && final(w).player_pos == step_dest(old(w), delta_x as int, delta_y as int) && final(w).just_moved@[old(w).player_entity as int] && final(w).viewshed@[old(
            w,
        ).player_entity as int]->Some_0.dirty && final(w).melee_intent@ == old(w).melee_intent@
            && r == RunState::PlayerTurn),
{
    let player = w.player_entity;
    if !(w.player[player] && w.position[player].is_some() && w.viewshed[player].is_some()) {
        return RunState::AwaitingInput;
    }
    let pos = w.position[player].unwrap();
    let nx: i64 = pos.x as i64 + delta_x as i64;
    let ny: i64 = pos.y as i64 + delta_y as i64;
    if nx < 1 || nx > w.map.width as i64 - 1 || ny < 1 || ny > w.map.height as i64 - 1 {
        proof {
            assert(!step_in_area(old(w), delta_x as int, delta_y as int));
        }
        return RunState::AwaitingInput;
    }
    let dest = Position { x: nx as i32, y: ny as i32 };
    proof {
        assert(player_ready(old(w)));
        assert(step_in_area(old(w), delta_x as int, delta_y as int));
        assert(dest == step_dest(old(w), delta_x as int, delta_y as int));
    }
    let idx = w.map.xy_idx(dest.x, dest.y);
    // bump attack: the first creature with stats on the destination
    let occupants = w.map.tile_content[idx].clone();
    proof {
        assert(occupants@ == dest_tile(old(w), delta_x as int, delta_y as int));
    }
    let olen = occupants.len();
    let mut j: usize = 0;
    while j < olen
        invariant
            j <= olen,
            olen == occupants@.len(),
            old(w).wf(),
            w.wf(),
            *w == *old(w),
            player == old(w).player_entity,
            player < w.n,
            player_ready(old(w)),
            step_in_area(old(w), delta_x as int, delta_y as int),
            occupants@ == dest_tile(old(w), delta_x as int, delta_y as int),
            forall|k: int| 0 <= k < occupants@.len() ==> (#[trigger] occupants@[k]) < w.n,
            first_bump(old(w), occupants@, 0) == first_bump(old(w), occupants@, j as int),
        decreases olen - j,
    {
        let target = occupants[j];
        if w.stats[target].is_some() {
            proof {
                assert(first_bump(old(w), occupants@, j as int) == Some(target as int));
            }
            w.melee_intent.set(player, Some(MeleeIntent { target }));
            return RunState::PlayerTurn;
        }
        j = j + 1;
    }
    if !w.map.blocked[idx] {
        w.position.set(player, Some(dest));
        let (vtiles, vrange) = match &w.viewshed[player] {
            Some(vs) => (vs.visible_tiles.clone(), vs.range),
            None => (Vec::new(), 0),
        };
        w.viewshed.set(
            player,
            Some(Viewshed { visible_tiles: vtiles, range: vrange, dirty: true }),
        );
        w.player_pos = dest;
        w.just_moved.set(player, true);
        return RunState::PlayerTurn;
    }
    RunState::AwaitingInput
}

/// Take the stairs down: moves to the next level exactly when the player
/// stands on a down staircase, and otherwise only says so in the log.
pub fn try_next_level(w: &mut World) -> (r: RunState)
    requires
        old(w).wf(),
        old(w).map.in_bounds(old(w).player_pos.x as int, old(w).player_pos.y as int),
    ensures
        final(w).wf(),
        *final(w) == (World { log: final(w).log, ..*old(w) }),
        r == (if old(w).map.tiles@[old(w).map.spec_idx(
            old(w).player_pos.x as int,
            old(w).player_pos.y as int,
        )] == TileType::StairsDown {
            RunState::NextLevel
        } else {
            RunState::AwaitingInput
        }),
        old(w).log@.is_prefix_of(final(w).log@),
{
    proof {
        crate::components::lemma_prefix_refl(w.log@);
    }
    let idx = w.map.xy_idx(w.player_pos.x, w.player_pos.y);
    let on_stairs = match w.map.tiles[idx] {
        TileType::StairsDown => true,
        _ => false,
    };
    if on_stairs {
        RunState::NextLevel
    } else {
        gamelog::push_line(&mut w.log, String::from_str("There is no way down from here."));
        RunState::AwaitingInput
    }
}

/// Grab whatever item lies under the player: raises a pick-up intent on
/// the player for the last such item, or only logs that nothing is there.
/// Either way the turn is spent.
pub fn get_item(w: &mut World) -> (r: RunState)
    requires
        old(w).wf(),
    ensures
        final(w).wf(),
        *final(w) == (World {
            pickup_intent: final(w).pickup_intent,
            log: final(w).log,
            ..*old(w)
        }),
        r == RunState::PlayerTurn,
        // an item underfoot is claimed for the player
        (exists|i: int|
            0 <= i < old(w).n && old(w).item@[i] && (#[trigger] old(w).position@[i]) == Some(
                old(w).player_pos,
            )) ==> final(w).pickup_intent@[old(w).player_entity as int] is Some && final(w).pickup_intent@[old(w).player_entity as int]->Some_0.desired_by == old(w).player_entity,
        old(w).log@.is_prefix_of(final(w).log@),
{
    proof {
        crate::components::lemma_prefix_refl(w.log@);
    }
    let n = w.n;
    let mut target_item: Option<usize> = None;
    let mut e: usize = 0;
    while e < n
        invariant
            e <= n,
            w.wf(),
            *w == *old(w),
            n == w.n,
            match target_item {
                Some(i) => i < n && w.item@[i as int] && w.position@[i as int] == Some(
                    w.player_pos,
                ),
                None => forall|i: int|
                    0 <= i < e && w.item@[i] ==> (#[trigger] w.position@[i]) != Some(w.player_pos),
            },
        decreases n - e,
    {
        let here = w.item[e] && (match &w.position[e] {
            Some(p) => p.x == w.player_pos.x && p.y == w.player_pos.y,
            None => false,
        });
        if here {
            proof {
                assert(w.position@[e as int] == Some(w.player_pos));
            }
            target_item = Some(e);
        }
        e = e + 1;
    }
    let player = w.player_entity;
    match target_item {
        None => {
            gamelog::push_line(
                &mut w.log,
                String::from_str("There is nothing here to pick up."),
            );
        },
        Some(item) => {
            w.pickup_intent.set(player, Some(PickUpIntent { item, desired_by: player }));
        },
    }
    RunState::PlayerTurn
}

/// A hostile stands on one of the player's visible tiles.
pub open spec fn hostile_in_sight(w: &World) -> bool {
    let tiles = w.viewshed@[w.player_entity as int]->Some_0.visible_tiles@;
    exists|k: int, j: int|
        0 <= k < tiles.len() && 0 <= j < w.map.tile_content@[w.map.spec_idx(
            (#[trigger] tiles[k]).x as int,
            tiles[k].y as int,
        )]@.len() && w.hostile@[#[trigger] w.map.tile_content@[w.map.spec_idx(
            tiles[k].x as int,
            tiles[k].y as int,
        )]@[j] as int]
}

/// The player may rest: it has sight and stats, no hostile is in view,
/// and its hunger clock exists and is not at starving.
pub open spec fn may_rest(w: &World) -> bool {
    let p = w.player_entity as int;
    &&& w.viewshed@[p] is Some
    &&& w.stats@[p] is Some
    &&& !hostile_in_sight(w)
    &&& w.hunger@[p] is Some
    &&& !(w.hunger@[p]->Some_0.state is Starving)
}

/// The player's stats after one rested turn: one hit point back, up to
/// half the maximum, and never downward.
pub open spec fn rested_stats(stats: Stats) -> Stats {
    let capped: int = if stats.hp + 1 < stats.max_hp / 2 {
        stats.hp + 1
    } else {
        stats.max_hp / 2
    };
    Stats {
        hp: if stats.hp > capped {
            stats.hp
        } else {
            capped as i32
        },
        ..stats
    }
}

/// Rest a turn. With no hostile in sight the player heals one hit point,
/// up to half its maximum; a starving player does not heal, and without a
/// hunger clock no rest heals at all. The turn is spent either way.
pub fn skip_turn(w: &mut World) -> (r: RunState)
    requires
        old(w).wf(),
    ensures
        final(w).wf(),
        *final(w) == (World { stats: final(w).stats, ..*old(w) }),
        r == RunState::PlayerTurn,
        may_rest(old(w)) ==> final(w).stats@ == old(w).stats@.update(
            old(w).player_entity as int,
            Some(rested_stats(old(w).stats@[old(w).player_entity as int]->Some_0)),
        ),
        !may_rest(old(w)) ==> final(w).stats@ == old(w).stats@,
{
    let player = w.player_entity;
    if w.viewshed[player].is_none() || w.stats[player].is_none() {
        return RunState::PlayerTurn;
    }
    // rest only without a hostile in any visible tile
    let tiles = match &w.viewshed[player] {
        Some(vs) => vs.visible_tiles.clone(),
        None => Vec::new(),
    };
    let tlen = tiles.len();
    let mut can_heal = true;
    let mut k: usize = 0;
    while k < tlen
        invariant
            k <= tlen,
            tlen == tiles@.len(),
            old(w).wf(),
            w.wf(),
            *w == *old(w),
            player == old(w).player_entity,
            player < w.n,
            old(w).viewshed@[player as int] is Some,
            tiles@ == old(w).viewshed@[player as int]->Some_0.visible_tiles@,
            forall|k2: int|
                0 <= k2 < tiles@.len() ==> w.map.in_bounds(
                    (#[trigger] tiles@[k2]).x as int,
                    tiles@[k2].y as int,
                ),
            can_heal == !(exists|k2: int, j: int|
                0 <= k2 < k && 0 <= j < w.map.tile_content@[w.map.spec_idx(
                    (#[trigger] tiles@[k2]).x as int,
                    tiles@[k2].y as int,
                )]@.len() && w.hostile@[#[trigger] w.map.tile_content@[w.map.spec_idx(
                    tiles@[k2].x as int,
                    tiles@[k2].y as int,
                )]@[j] as int]),
        decreases tlen - k,
    {
        let t = tiles[k];
        let idx = w.map.xy_idx(t.x, t.y);
        let occupants = w.map.tile_content[idx].clone();
        let olen = occupants.len();
        let mut o: usize = 0;
        while o < olen
            invariant
                o <= olen,
                olen == occupants@.len(),
                k < tlen,
                tlen == tiles@.len(),
                old(w).wf(),
                w.wf(),
                *w == *old(w),
                player == old(w).player_entity,
                player < w.n,
                old(w).viewshed@[player as int] is Some,
                tiles@ == old(w).viewshed@[player as int]->Some_0.visible_tiles@,
                forall|k2: int|
                    0 <= k2 < tiles@.len() ==> w.map.in_bounds(
                        (#[trigger] tiles@[k2]).x as int,
                        tiles@[k2].y as int,
                    ),
                occupants@ == w.map.tile_content@[w.map.spec_idx(
                    tiles@[k as int].x as int,
                    tiles@[k as int].y as int,
                )]@,
                forall|k2: int| 0 <= k2 < occupants@.len() ==> (#[trigger] occupants@[k2]) < w.n,
                can_heal == !((exists|k2: int, j: int|
                    0 <= k2 < k && 0 <= j < w.map.tile_content@[w.map.spec_idx(
                        (#[trigger] tiles@[k2]).x as int,
                        tiles@[k2].y as int,
                    )]@.len() && w.hostile@[#[trigger] w.map.tile_content@[w.map.spec_idx(
                        tiles@[k2].x as int,
                        tiles@[k2].y as int,
                    )]@[j] as int]) || (exists|j: int|
                    0 <= j < o && w.hostile@[(#[trigger] occupants@[j]) as int])),
            decreases olen - o,
        {
            if w.hostile[occupants[o]] {
                proof {
                    assert(w.hostile@[occupants@[o as int] as int]);
                }
                can_heal = false;
            }
            o = o + 1;
        }
        k = k + 1;
        proof {
            assert forall|k2: int, j: int|
                0 <= k2 < k && 0 <= j < w.map.tile_content@[w.map.spec_idx(
                    (#[trigger] tiles@[k2]).x as int,
                    tiles@[k2].y as int,
                )]@.len() && w.hostile@[#[trigger] w.map.tile_content@[w.map.spec_idx(
                    tiles@[k2].x as int,
                    tiles@[k2].y as int,
                )]@[j] as int] implies !can_heal by {
                if k2 == k - 1 {
                    assert(occupants@[j] == w.map.tile_content@[w.map.spec_idx(
                        tiles@[k2].x as int,
                        tiles@[k2].y as int,
                    )]@[j]);
                }
            }
        }
    }
    proof {
        assert(can_heal == !hostile_in_sight(old(w)));
    }
    if can_heal {
        let stats = w.stats[player].unwrap();
        let half_max = stats.max_hp / 2;
        let bumped: i64 = stats.hp as i64 + 1;
        let capped: i32 = if bumped < half_max as i64 {
            bumped as i32
        } else {
            half_max
        };
        let new_hp: i32 = if stats.hp > capped {
            stats.hp
        } else {
            capped
        };
        if let Some(h) = w.hunger[player] {
            match h.state {
                HungerState::Starving => {},
                _ => {
                    w.stats.set(player, Some(Stats { hp: new_hp, ..stats }));
                },
            }
        }
    }
    RunState::PlayerTurn
}

/// Translates committed player commands into world changes, in the order
/// they were queued.
pub struct PlayerController {
    pub cmd_queue: CommandQueue,
    pub cmd_hist: CommandHistory,
}

impl PlayerController {
    /// A controller with nothing queued.
    pub fn new() -> (r: Self)
        ensures
            r.cmd_queue.queue@.len() == 0,
            r.cmd_hist.history@.len() == 0,
    {
        PlayerController { cmd_queue: CommandQueue::new(), cmd_hist: CommandHistory::new() }
    }

    /// Queue a command for the next commit.
    pub fn send(&mut self, command: Command)
        ensures
            final(self).cmd_queue.queue@ == old(self).cmd_queue.queue@.push(command),
    {
        self.cmd_queue.push(command);
    }

    /// Execute every queued command in arrival order, draining the queue,
    /// and say which phase the tick moves to.
    pub fn process(&mut self, w: &mut World) -> (r: RunState)
        requires
            old(w).wf(),
            old(w).map.in_bounds(old(w).player_pos.x as int, old(w).player_pos.y as int),
        ensures
            final(w).wf(),
            final(self).cmd_queue.queue@.len() == 0,
            r == RunState::AwaitingInput || r == RunState::PlayerTurn || r
                == RunState::NextLevel,
    {
        let mut runstate = RunState::AwaitingInput;
        let mut next = self.cmd_queue.pop();
        while next.is_some()
            invariant
                w.wf(),
                w.map.in_bounds(w.player_pos.x as int, w.player_pos.y as int),
                runstate == RunState::AwaitingInput || runstate == RunState::PlayerTurn,
                next is None ==> self.cmd_queue.queue@.len() == 0,
            decreases self.cmd_queue.queue@.len() + (if next is Some {
                1int
            } else {
                0int
            }),
        {
            match next.unwrap() {
                Command::Grab => {
                    runstate = get_item(w);
                },
                Command::Move { dir } => {
                    runstate = match dir {
                        Dir::UP => try_move_player(0, -1, w),
                        Dir::DOWN => try_move_player(0, 1, w),
                        Dir::LEFT => try_move_player(-1, 0, w),
                        Dir::RIGHT => try_move_player(1, 0, w),
                    };
                },
                Command::Wait => {
                    runstate = skip_turn(w);
                },
                _ => {},
            }
            next = self.cmd_queue.pop();
        }
        runstate
    }
}

} // verus!
