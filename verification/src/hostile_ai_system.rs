//! Hostile behaviour on the world's turn. Each hostile decides: a confused
//! one sits the turn out, one adjacent to the player strikes, one that can
//! see the player walks a path toward it. Pathfinding itself is an outside
//! collaborator: the caller traces the path and hands back the next step.

use vstd::prelude::*;

use crate::components::{Confusion, Entity, MeleeIntent, Position, Viewshed};
use crate::map::GameMap;
use crate::world::World;
use crate::RunState;

verus! {

/// What a hostile does this turn.
#[derive(PartialEq, Eq, Structural, Clone, Copy, Debug)]
pub enum AiDecision {
    /// Not a hostile's turn, or not a sighted, placed hostile at all.
    Inactive,
    /// Confused: sit the turn out while the confusion ticks down.
    Confused,
    /// Adjacent to the player: strike.
    Melee,
    /// The player is in sight: walk one step along a path between the two
    /// points.
    Path { from: Position, to: Position },
    /// Nothing to do.
    Idle,
}

/// Squared-distance adjacency: within one tile, diagonals included.
pub open spec fn adjacent(a: Position, b: Position) -> bool {
    (a.x - b.x) * (a.x - b.x) + (a.y - b.y) * (a.y - b.y) <= 2
}

/// The entity's viewshed holds the given point.
pub open spec fn sees(w: &World, e: int, p: Position) -> bool {
    exists|k: int|
        0 <= k < w.viewshed@[e]->Some_0.visible_tiles@.len()
            && (#[trigger] w.viewshed@[e]->Some_0.visible_tiles@[k]) == p
}

/// The decision a hostile takes, as a function of the world alone.
pub open spec fn spec_decide(w: &World, e: int) -> AiDecision {
    if w.run_state != RunState::GameworldTurn || !w.hostile@[e] || w.viewshed@[e] is None
        || w.position@[e] is None {
        AiDecision::Inactive
    } else if w.confusion@[e] is Some {
        AiDecision::Confused
    } else if adjacent(w.position@[e]->Some_0, w.player_pos) {
        AiDecision::Melee
    } else if sees(w, e, w.player_pos) {
        AiDecision::Path { from: w.position@[e]->Some_0, to: w.player_pos }
    } else {
        AiDecision::Idle
    }
}

/// Decides and moves hostiles.
pub struct HostileAI {}

impl HostileAI {
    /// Decide what hostile `e` does this turn.
    pub fn decide(w: &World, e: Entity) -> (r: AiDecision)
        requires
            w.wf(),
            e < w.n,
        ensures
            r == spec_decide(w, e as int),
    {
        let gameworld = match w.run_state {
            RunState::GameworldTurn => true,
            _ => false,
        };
        if !gameworld || !w.hostile[e] || w.viewshed[e].is_none() || w.position[e].is_none() {
            return AiDecision::Inactive;
        }
        if w.confusion[e].is_some() {
            return AiDecision::Confused;
        }
        let pos = w.position[e].unwrap();
        let dx: i128 = pos.x as i128 - w.player_pos.x as i128;
        let dy: i128 = pos.y as i128 - w.player_pos.y as i128;
        proof {
            assert(0 <= dx * dx <= 0x1_0000_0000_0000_0000) by (nonlinear_arith)
                requires
                    -0x1_0000_0000 <= dx <= 0x1_0000_0000,
            ;
            assert(0 <= dy * dy <= 0x1_0000_0000_0000_0000) by (nonlinear_arith)
                requires
                    -0x1_0000_0000 <= dy <= 0x1_0000_0000,
            ;
        }
        if dx * dx + dy * dy <= 2 {
            return AiDecision::Melee;
        }
        // can the hostile see the player?
        let tiles = match &w.viewshed[e] {
            Some(vs) => vs.visible_tiles.clone(),
            None => Vec::new(),
        };
        let tlen = tiles.len();
        let mut seen = false;
        let mut k: usize = 0;
        while k < tlen
            invariant
                k <= tlen,
                tlen == tiles@.len(),
                tiles@ == w.viewshed@[e as int]->Some_0.visible_tiles@,
                seen == exists|j: int|
                    0 <= j < k && (#[trigger] tiles@[j]) == w.player_pos,
            decreases tlen - k,
        {
            let t = tiles[k];
            if t.x == w.player_pos.x && t.y == w.player_pos.y {
                proof {
                    assert(tiles@[k as int] == w.player_pos);
                }
                seen = true;
            }
            k = k + 1;
        }
        proof {
            assert(seen == sees(w, e as int, w.player_pos));
        }
        if seen {
            AiDecision::Path { from: pos, to: w.player_pos }
        } else {
            AiDecision::Idle
        }
    }

    /// Carry out hostile `e`'s decided turn. A confused hostile's
    /// confusion ticks down and lifts at zero; a striking hostile raises a
    /// melee intent against the player; a walking hostile takes the given
    /// in-bounds step, swapping which tile it blocks and dirtying its
    /// sight. A missing or out-of-bounds step, or any other decision,
    /// changes nothing.
    pub fn act(w: &mut World, e: Entity, step: Option<Position>)
        requires
            old(w).wf(),
            e < old(w).n,
        ensures
            final(w).wf(),
            *final(w) == (World {
                confusion: final(w).confusion,
                melee_intent: final(w).melee_intent,
                position: final(w).position,
                viewshed: final(w).viewshed,
                map: final(w).map,
                ..*old(w)
            }),
            final(w).map == (GameMap { blocked: final(w).map.blocked, ..old(w).map }),
            // a confused hostile sits the turn out, the confusion ticking down
            spec_decide(old(w), e as int) is Confused ==> final(w).confusion@[e as int] == (if old(
                w,
            ).confusion@[e as int]->Some_0.turns - 1 < 1 {
                None
            } else {
                Some(Confusion { turns: (old(w).confusion@[e as int]->Some_0.turns - 1) as i32 })
            }) && final(w).melee_intent@ == old(w).melee_intent@ && final(w).position@ == old(
                w,
            ).position@,
            // an adjacent hostile strikes the player
            spec_decide(old(w), e as int) is Melee ==> final(w).melee_intent@ == old(
                w,
            ).melee_intent@.update(e as int, Some(MeleeIntent { target: old(w).player_entity }))
                && final(w).position@ == old(w).position@ && final(w).confusion@ == old(
                w,
            ).confusion@,
            // a walking hostile takes the given in-bounds step
            (spec_decide(old(w), e as int) is Path && step is Some && old(w).map.in_bounds(
                step->Some_0.x as int,
                step->Some_0.y as int,
            )) ==> final(w).position@ == old(w).position@.update(e as int, step) && final(w).viewshed@[e as int]->Some_0.dirty && final(w).melee_intent@ == old(w).melee_intent@,
            // everything else leaves the world alone
            (spec_decide(old(w), e as int) is Inactive || spec_decide(old(w), e as int) is Idle || (
            spec_decide(old(w), e as int) is Path && !(step is Some && old(w).map.in_bounds(
                step->Some_0.x as int,
                step->Some_0.y as int,
            )))) ==> *final(w) == *old(w),
    {
        let decision = Self::decide(w, e);
        match decision {
            AiDecision::Inactive => {},
            AiDecision::Idle => {},
            AiDecision::Confused => {
                let turns = w.confusion[e].unwrap().turns;
                let left = crate::components::sat_sub(turns, 1);
                if left < 1 {
                    w.confusion.set(e, None);
                } else {
                    w.confusion.set(e, Some(Confusion { turns: left }));
                }
            },
            AiDecision::Melee => {
                let target = w.player_entity;
                w.melee_intent.set(e, Some(MeleeIntent { target }));
            },
            AiDecision::Path { from, to: _ } => {
                if let Some(p) = step {
                    if p.x >= 0 && p.x < w.map.width && p.y >= 0 && p.y < w.map.height {
                        // leave the old tile, claim the new one
                        let old_idx = w.map.xy_idx(from.x, from.y);
                        w.map.blocked.set(old_idx, false);
                        w.position.set(e, Some(p));
                        let new_idx = w.map.xy_idx(p.x, p.y);
                        w.map.blocked.set(new_idx, true);
                        let (vtiles, vrange) = match &w.viewshed[e] {
                            Some(vs) => (vs.visible_tiles.clone(), vs.range),
                            None => (Vec::new(), 0),
                        };
                        w.viewshed.set(
                            e,
                            Some(Viewshed { visible_tiles: vtiles, range: vrange, dirty: true }),
                        );
                    }
                }
            },
        }
    }
}

} // verus!
