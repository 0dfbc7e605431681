//! Visual effects: queued particle requests are materialized as fresh
//! short-lived entities; aging them out against frame time is a rendering
//! concern and stays with the host loop.

use vstd::prelude::*;

use crate::components::{Particle, Position, Renderable};
use crate::world::World;

verus! {

/// Materializes queued particle requests.
pub struct ParticleSpawnSystem {}

impl ParticleSpawnSystem {
    /// Spawn one fresh entity per queued request, carrying the requested
    /// position, look and lifetime, and empty the request queue. Every
    /// pre-existing slot is untouched.
    pub fn run(w: &mut World)
        requires
            old(w).wf(),
            old(w).n + old(w).particles@.len() <= usize::MAX,
            forall|k: int|
                0 <= k < old(w).particles@.len() ==> old(w).map.in_bounds(
                    (#[trigger] old(w).particles@[k]).x as int,
                    old(w).particles@[k].y as int,
                ),
        ensures
            final(w).wf(),
            final(w).n == old(w).n + old(w).particles@.len(),
            final(w).particles@.len() == 0,
            forall|e: int|
                0 <= e < old(w).n ==> World::slot_same(old(w), final(w), e),
            final(w).run_state == old(w).run_state,
            final(w).player_entity == old(w).player_entity,
            final(w).map == old(w).map,
            final(w).log@ == old(w).log@,
            final(w).to_delete@ == old(w).to_delete@,
            // a fresh particle entity carries no queue and no intents
            forall|k: int|
                0 <= k < old(w).particles@.len() ==> (#[trigger] final(w).damage_queue@[old(w).n
                    + k]) is None,
            forall|k: int|
                0 <= k < old(w).particles@.len() ==> (#[trigger] final(w).throw_intent@[old(w).n
                    + k]) is None,
            forall|k: int|
                0 <= k < old(w).particles@.len() ==> (#[trigger] final(w).pickup_intent@[old(w).n
                    + k]) is None,
            forall|k: int|
                0 <= k < old(w).particles@.len() ==> (#[trigger] final(w).equip_intent@[old(w).n
                    + k]) is None,
            forall|k: int|
                0 <= k < old(w).particles@.len() ==> (#[trigger] final(w).unequip_intent@[old(w).n
                    + k]) is None,
            forall|k: int|
                0 <= k < old(w).particles@.len() ==> (#[trigger] final(w).melee_intent@[old(w).n
                    + k]) is None,
            forall|k: int|
                0 <= k < old(w).particles@.len() ==> (#[trigger] final(w).use_item_intent@[old(w).n
                    + k]) is None,
            forall|k: int|
                0 <= k < old(w).particles@.len() ==> (#[trigger] final(w).drop_item_intent@[old(
                    w,
                ).n + k]) is None,
            forall|k: int|
                0 <= k < old(w).particles@.len() ==> !(#[trigger] final(w).just_moved@[old(w).n
                    + k]),
            // each new slot is a particle at its requested tile
            forall|k: int|
                0 <= k < old(w).particles@.len() ==> final(w).position@[old(w).n + k] == Some(
                    Position {
                        x: (#[trigger] old(w).particles@[k]).x,
                        y: old(w).particles@[k].y,
                    },
                ) && final(w).particle@[old(w).n + k] == Some(
                    Particle { lifetime_ms: old(w).particles@[k].lifetime_ms },
                ),
    {
        let requests = w.particles.len();
        let mut k: usize = 0;
        while k < requests
            invariant
                k <= requests,
                old(w).wf(),
                w.wf(),
                requests == old(w).particles@.len(),
                old(w).n + requests <= usize::MAX,
                forall|k2: int|
                    0 <= k2 < old(w).particles@.len() ==> old(w).map.in_bounds(
                        (#[trigger] old(w).particles@[k2]).x as int,
                        old(w).particles@[k2].y as int,
                    ),
                w.particles@ == old(w).particles@,
                w.n == old(w).n + k,
                forall|e: int| 0 <= e < old(w).n ==> World::slot_same(old(w), w, e),
                w.run_state == old(w).run_state,
                w.player_entity == old(w).player_entity,
                w.player_pos == old(w).player_pos,
                w.map == old(w).map,
                w.log@ == old(w).log@,
                w.to_delete@ == old(w).to_delete@,
                forall|k2: int|
                    0 <= k2 < k ==> (#[trigger] w.damage_queue@[old(w).n + k2]) is None,
                forall|k2: int|
                    0 <= k2 < k ==> (#[trigger] w.throw_intent@[old(w).n + k2]) is None,
                forall|k2: int|
                    0 <= k2 < k ==> (#[trigger] w.pickup_intent@[old(w).n + k2]) is None,
                forall|k2: int|
                    0 <= k2 < k ==> (#[trigger] w.equip_intent@[old(w).n + k2]) is None,
                forall|k2: int|
                    0 <= k2 < k ==> (#[trigger] w.unequip_intent@[old(w).n + k2]) is None,
                forall|k2: int|
                    0 <= k2 < k ==> (#[trigger] w.melee_intent@[old(w).n + k2]) is None,
                forall|k2: int|
                    0 <= k2 < k ==> (#[trigger] w.use_item_intent@[old(w).n + k2]) is None,
                forall|k2: int|
                    0 <= k2 < k ==> (#[trigger] w.drop_item_intent@[old(w).n + k2]) is None,
                forall|k2: int| 0 <= k2 < k ==> !(#[trigger] w.just_moved@[old(w).n + k2]),
                forall|k2: int|
                    0 <= k2 < k ==> w.position@[old(w).n + k2] == Some(
                        Position {
                            x: (#[trigger] old(w).particles@[k2]).x,
                            y: old(w).particles@[k2].y,
                        },
                    ) && w.particle@[old(w).n + k2] == Some(
                        Particle { lifetime_ms: old(w).particles@[k2].lifetime_ms },
                    ),
            decreases requests - k,
        {
            let request = w.particles[k];
            let ghost pre = *w;
            let p = w.create_entity();
            w.position.set(p, Some(Position { x: request.x, y: request.y }));
            w.renderable.set(
                p,
                Some(
                    Renderable {
                        glyph: request.glyph,
                        fg: request.fg,
                        bg: request.bg,
                        render_order: 0,
                    },
                ),
            );
            w.particle.set(p, Some(Particle { lifetime_ms: request.lifetime_ms }));
            proof {
                assert forall|e: int| 0 <= e < old(w).n implies World::slot_same(
                    old(w),
                    w,
                    e,
                ) by {
                    assert(World::slot_same(old(w), &pre, e));
                }
            }
            k = k + 1;
        }
        let ghost pre_clear = *w;
        w.particles = Vec::new();
        proof {
            assert forall|e: int| 0 <= e < old(w).n implies World::slot_same(old(w), w, e) by {
                assert(World::slot_same(old(w), &pre_clear, e));
            }
        }
    }
}

} // verus!
