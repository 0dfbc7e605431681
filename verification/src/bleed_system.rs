//! Damage over time from bleeding: on the world's turn every bleeding
//! entity with a position takes one bleed atom and stains its tile.

use vstd::prelude::*;

use crate::components::{DamageAtom, DamageQueue};
use crate::map::GameMap;
use crate::world::World;
use crate::RunState;

verus! {

/// The entity bleeds onto the map this tick.
pub open spec fn is_bleeder(w: &World, e: int) -> bool {
    &&& w.position@[e] is Some
    &&& w.bleeding@[e]
}

/// Queues bleed damage for every bleeding entity.
pub struct BleedSystem {}

impl BleedSystem {
    /// On the world's turn, queue one bleed atom onto every bleeding,
    /// positioned entity and stain its tile; on any other phase do
    /// nothing at all.
    pub fn run(w: &mut World)
        requires
            old(w).wf(),
        ensures
            final(w).wf(),
            old(w).run_state != RunState::GameworldTurn ==> *final(w) == *old(w),
            *final(w) == (World {
                damage_queue: final(w).damage_queue,
                map: final(w).map,
                ..*old(w)
            }),
            final(w).map == (GameMap { bloodstains: final(w).map.bloodstains, ..old(w).map }),
            forall|e: int|
                0 <= e < final(w).n && old(w).run_state == RunState::GameworldTurn && is_bleeder(
                    old(w),
                    e,
                ) ==> DamageQueue::pending(final(w).damage_queue@, e) == DamageQueue::pending(
                    old(w).damage_queue@,
                    e,
                ).push(DamageAtom::Bleed),
            forall|e: int|
                0 <= e < final(w).n && !(old(w).run_state == RunState::GameworldTurn && is_bleeder(
                    old(w),
                    e,
                )) ==> (#[trigger] final(w).damage_queue@[e]) == old(w).damage_queue@[e],
            forall|i: int|
                0 <= i < final(w).map.bloodstains@.len() ==> (#[trigger] final(w).map.bloodstains@[i]) == (old(w).map.bloodstains@[i] || (old(w).run_state
                    == RunState::GameworldTurn && exists|e: int|
                    0 <= e < old(w).n && is_bleeder(old(w), e) && old(w).map.spec_idx(
                        (#[trigger] old(w).position@[e])->Some_0.x as int,
                        old(w).position@[e]->Some_0.y as int,
                    ) == i)),
    {
        let gameworld_turn = match w.run_state {
            RunState::GameworldTurn => true,
            _ => false,
        };
        if !gameworld_turn {
            proof {
                assert forall|i: int| 0 <= i < w.map.bloodstains@.len() implies (
                #[trigger] w.map.bloodstains@[i]) == (old(w).map.bloodstains@[i] || (old(
                    w,
                ).run_state == RunState::GameworldTurn && exists|e: int|
                    0 <= e < old(w).n && is_bleeder(old(w), e) && old(w).map.spec_idx(
                        (#[trigger] old(w).position@[e])->Some_0.x as int,
                        old(w).position@[e]->Some_0.y as int,
                    ) == i)) by {}
            }
            return ;
        }
        let n = w.n;
        let mut e: usize = 0;
        while e < n
            invariant
                e <= n,
                w.wf(),
                n == w.n,
                old(w).run_state == RunState::GameworldTurn,
                *w == (World { damage_queue: w.damage_queue, map: w.map, ..*old(w) }),
                w.map == (GameMap { bloodstains: w.map.bloodstains, ..old(w).map }),
                forall|e2: int|
                    0 <= e2 < n && e2 < e && is_bleeder(old(w), e2) ==> DamageQueue::pending(
                        w.damage_queue@,
                        e2,
                    ) == DamageQueue::pending(old(w).damage_queue@, e2).push(DamageAtom::Bleed),
                forall|e2: int|
                    0 <= e2 < n && (e2 >= e || !is_bleeder(old(w), e2)) ==> (
                    #[trigger] w.damage_queue@[e2]) == old(w).damage_queue@[e2],
                forall|i: int|
                    0 <= i < w.map.bloodstains@.len() ==> (#[trigger] w.map.bloodstains@[i]) == (
                    old(w).map.bloodstains@[i] || exists|e2: int|
                        0 <= e2 < e && is_bleeder(old(w), e2) && old(w).map.spec_idx(
                            (#[trigger] old(w).position@[e2])->Some_0.x as int,
                            old(w).position@[e2]->Some_0.y as int,
                        ) == i),
            decreases n - e,
        {
            let bleeds = w.position[e].is_some() && w.bleeding[e];
            proof {
                assert(bleeds == is_bleeder(old(w), e as int));
            }
            if bleeds {
                DamageQueue::queue_damage(&mut w.damage_queue, e, DamageAtom::Bleed);
                let pos = w.position[e].unwrap();
                let idx = w.map.xy_idx(pos.x, pos.y);
                let ghost stains0 = w.map.bloodstains@;
                w.map.bloodstains.set(idx, true);
                proof {
                    assert forall|i: int|
                        0 <= i < w.map.bloodstains@.len() implies (#[trigger] w.map.bloodstains@[i])
                        == (old(w).map.bloodstains@[i] || exists|e2: int|
                        0 <= e2 < e + 1 && is_bleeder(old(w), e2) && old(w).map.spec_idx(
                            (#[trigger] old(w).position@[e2])->Some_0.x as int,
                            old(w).position@[e2]->Some_0.y as int,
                        ) == i) by {
                        if i == idx {
                            assert(is_bleeder(old(w), e as int) && old(w).map.spec_idx(
                                old(w).position@[e as int]->Some_0.x as int,
                                old(w).position@[e as int]->Some_0.y as int,
                            ) == i);
                        } else {
                            assert(w.map.bloodstains@[i] == stains0[i]);
                        }
                    }
                }
            } else {
                proof {
                    assert forall|i: int|
                        0 <= i < w.map.bloodstains@.len() implies (#[trigger] w.map.bloodstains@[i])
                        == (old(w).map.bloodstains@[i] || exists|e2: int|
                        0 <= e2 < e + 1 && is_bleeder(old(w), e2) && old(w).map.spec_idx(
                            (#[trigger] old(w).position@[e2])->Some_0.x as int,
                            old(w).position@[e2]->Some_0.y as int,
                        ) == i) by {}
                }
            }
            e = e + 1;
        }
    }
}

} // verus!
