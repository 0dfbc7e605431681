//! Inventory resolution: picking items up off the floor, using them on
//! targets, and dropping them at the owner's feet. Each system drains its
//! whole intent storage every tick.

use vstd::prelude::*;

use crate::components::{
    lemma_prefix_push, lemma_prefix_refl, lemma_prefix_trans, DamageAtom, DamageQueue, Healing,
    InBackpack, ParticleRequest, Position, Rgb, UnequipIntent,
};
use crate::gamelog;
use crate::world::World;
use crate::RunState;

verus! {

/// Entity `c` asked to pick item `i` up this tick.
pub open spec fn claims(w: &World, c: int, i: int) -> bool {
    &&& w.pickup_intent@[c] is Some
    &&& w.pickup_intent@[c]->Some_0.item == i
}

/// The items already lifted off the floor once the first `upto` claimants
/// have been served: each claim takes its item only while the item still
/// lies on the floor.
pub open spec fn picked_items(w: &World, upto: int) -> Set<int>
    decreases upto,
{
    if upto <= 0 {
        Set::empty()
    } else {
        let prev = picked_items(w, upto - 1);
        if w.pickup_intent@[upto - 1] is Some && w.position@[w.pickup_intent@[upto
            - 1]->Some_0.item as int] is Some && !prev.contains(
            w.pickup_intent@[upto - 1]->Some_0.item as int,
        ) {
            prev.insert(w.pickup_intent@[upto - 1]->Some_0.item as int)
        } else {
            prev
        }
    }
}

/// The number of pick-up notices the first `upto` claimants produce: one
/// for each named item the player lifts off the floor.
pub open spec fn pickup_notices(w: &World, upto: int) -> int
    decreases upto,
{
    if upto <= 0 {
        0
    } else {
        pickup_notices(w, upto - 1) + (if w.pickup_intent@[upto - 1] is Some
            && w.position@[w.pickup_intent@[upto - 1]->Some_0.item as int] is Some
            && !picked_items(w, upto - 1).contains(
            w.pickup_intent@[upto - 1]->Some_0.item as int,
        ) && w.pickup_intent@[upto - 1]->Some_0.desired_by == w.player_entity
            && w.name@[w.pickup_intent@[upto - 1]->Some_0.item as int] is Some {
            1int
        } else {
            0int
        })
    }
}

/// Moves picked-up items from the floor into a backpack.
pub struct ItemCollectionSystem {}

impl ItemCollectionSystem {
    /// Move every claimed item that still lies on the floor into a
    /// claimant's backpack, snuffing any flame on it, and batch-clear the
    /// pick-up intents. Unclaimed items do not move; with no intent
    /// pending nothing changes at all.
    pub fn run(w: &mut World)
        requires
            old(w).wf(),
        ensures
            final(w).wf(),
            *final(w) == (World {
                position: final(w).position,
                in_backpack: final(w).in_backpack,
                aflame: final(w).aflame,
                pickup_intent: final(w).pickup_intent,
                log: final(w).log,
                ..*old(w)
            }),
            forall|e: int| 0 <= e < final(w).n ==> (#[trigger] final(w).pickup_intent@[e]) is None,
            // a claimed item on the floor lands in a claimant's backpack
            forall|i: int|
                0 <= i < final(w).n && old(w).position@[i] is Some && (exists|c: int|
                    0 <= c < old(w).n && claims(old(w), c, i)) ==> (#[trigger] final(w).position@[i]) is None && final(w).in_backpack@[i] is Some && !final(w).aflame@[i]
                    && exists|c: int|
                    0 <= c < old(w).n && claims(old(w), c, i) && final(w).in_backpack@[i]->Some_0.owner == old(w).pickup_intent@[c]->Some_0.desired_by,
            // everything else keeps floor, backpack and flame state
            forall|i: int|
                0 <= i < final(w).n && !(old(w).position@[i] is Some && exists|c: int|
                    0 <= c < old(w).n && claims(old(w), c, i)) ==> (#[trigger] final(w).position@[i]) == old(w).position@[i] && final(w).in_backpack@[i] == old(
                    w,
                ).in_backpack@[i] && final(w).aflame@[i] == old(w).aflame@[i],
            old(w).log@.is_prefix_of(final(w).log@),
            // one notice per named item the player lifts off the floor
            final(w).log@.len() == old(w).log@.len() + pickup_notices(old(w), old(w).n as int),
            (forall|e: int| 0 <= e < old(w).n ==> (#[trigger] old(w).pickup_intent@[e]) is None)
                ==> (final(w).position@ == old(w).position@ && final(w).in_backpack@ == old(
                w,
            ).in_backpack@ && final(w).aflame@ == old(w).aflame@ && final(w).log@ == old(w).log@),
    {
        let n = w.n;
        let mut e: usize = 0;
        while e < n
            invariant
                e <= n,
                old(w).wf(),
                w.wf(),
                n == w.n,
                *w == (World {
                    position: w.position,
                    in_backpack: w.in_backpack,
                    aflame: w.aflame,
                    log: w.log,
                    ..*old(w)
                }),
                forall|i: int|
                    0 <= i < n && old(w).position@[i] is Some && (exists|c: int|
                        0 <= c < e && claims(old(w), c, i)) ==> (#[trigger] w.position@[i]) is None
                        && w.in_backpack@[i] is Some && !w.aflame@[i] && exists|c: int|
                        0 <= c < old(w).n && claims(old(w), c, i)
                            && w.in_backpack@[i]->Some_0.owner == old(
                            w,
                        ).pickup_intent@[c]->Some_0.desired_by,
                forall|i: int|
                    0 <= i < n && !(old(w).position@[i] is Some && exists|c: int|
                        0 <= c < e && claims(old(w), c, i)) ==> (#[trigger] w.position@[i]) == old(
                        w,
                    ).position@[i] && w.in_backpack@[i] == old(w).in_backpack@[i] && w.aflame@[i]
                        == old(w).aflame@[i],
                old(w).log@.is_prefix_of(w.log@),
                w.log@.len() == old(w).log@.len() + pickup_notices(old(w), e as int),
                forall|i: int|
                    0 <= i < n ==> ((#[trigger] w.position@[i]) is Some <==> (old(
                        w,
                    ).position@[i] is Some && !picked_items(old(w), e as int).contains(i))),
                (forall|e2: int|
                    0 <= e2 < old(w).n ==> (#[trigger] old(w).pickup_intent@[e2]) is None) ==> (
                w.position@ == old(w).position@ && w.in_backpack@ == old(w).in_backpack@
                    && w.aflame@ == old(w).aflame@ && w.log@ == old(w).log@),
            decreases n - e,
        {
            let intent = w.pickup_intent[e];
            if let Some(intent) = intent {
                let item = intent.item;
                if w.position[item].is_some() {
                    proof {
                        assert(old(w).position@[item as int] is Some);
                        assert(!picked_items(old(w), e as int).contains(item as int));
                        assert(claims(old(w), e as int, item as int));
                        assert(picked_items(old(w), e as int + 1) == picked_items(
                            old(w),
                            e as int,
                        ).insert(item as int));
                    }
                    w.position.set(item, None);
                    w.in_backpack.set(item, Some(InBackpack { owner: intent.desired_by }));
                    w.aflame.set(item, false);
                    if intent.desired_by == w.player_entity {
                        if let Some(nm) = &w.name[item] {
                            let name = nm.name.clone();
                            gamelog::log_name_suffix(&mut w.log, &name, " placed into inventory.");
                        } else {
                            proof {
                                assert(old(w).name@[item as int] is None);
                            }
                        }
                    }
                    proof {
                        assert forall|i: int|
                            0 <= i < n implies ((#[trigger] w.position@[i]) is Some <==> (old(
                            w,
                        ).position@[i] is Some && !picked_items(old(w), e as int + 1).contains(
                            i,
                        ))) by {
                            if i == item {
                            } else {
                                assert(picked_items(old(w), e as int + 1).contains(i)
                                    == picked_items(old(w), e as int).contains(i));
                            }
                        }
                    }
                } else {
                    proof {
                        assert(picked_items(old(w), e as int + 1) == picked_items(
                            old(w),
                            e as int,
                        ));
                    }
                }
            } else {
                proof {
                    assert(picked_items(old(w), e as int + 1) == picked_items(old(w), e as int));
                }
            }
            e = e + 1;
        }
        let ghost mid = *w;
        let mut k: usize = 0;
        while k < n
            invariant
                k <= n,
                w.wf(),
                n == w.n,
                *w == (World { pickup_intent: w.pickup_intent, ..mid }),
                forall|e2: int| 0 <= e2 < k ==> (#[trigger] w.pickup_intent@[e2]) is None,
            decreases n - k,
        {
            w.pickup_intent.set(k, None);
            k = k + 1;
        }
    }
}

/// Entity `d` asked to drop item `i` this tick and stands somewhere.
pub open spec fn drops(w: &World, d: int, i: int) -> bool {
    &&& w.drop_item_intent@[d] is Some
    &&& w.drop_item_intent@[d]->Some_0.item == i
    &&& w.position@[d] is Some
}

/// Puts dropped items back on the floor at the dropper's feet.
pub struct ItemDropSystem {}

impl ItemDropSystem {
    /// Re-attach a floor position (the dropper's, read when the drop
    /// resolves) to every dropped item, take it out of the backpack, and
    /// raise an unequip intent on the dropper for items dropped while
    /// worn; then batch-clear the drop intents.
    #[verifier::rlimit(60)]
    pub fn run(w: &mut World)
        requires
            old(w).wf(),
        ensures
            final(w).wf(),
            *final(w) == (World {
                position: final(w).position,
                in_backpack: final(w).in_backpack,
                unequip_intent: final(w).unequip_intent,
                drop_item_intent: final(w).drop_item_intent,
                log: final(w).log,
                ..*old(w)
            }),
            forall|e: int|
                0 <= e < final(w).n ==> (#[trigger] final(w).drop_item_intent@[e]) is None,
            // every dropped item lies at some dropper's feet, out of the pack
            forall|i: int|
                0 <= i < final(w).n && (exists|d: int| 0 <= d < old(w).n && drops(old(w), d, i))
                    ==> (#[trigger] final(w).position@[i]) is Some && final(w).in_backpack@[i] is None && exists|d: int|
                    0 <= d < old(w).n && drops(old(w), d, i) && final(w).position@[i] == old(
                        w,
                    ).position@[d],
            // undropped items do not move
            forall|i: int|
                0 <= i < final(w).n && !(exists|d: int| 0 <= d < old(w).n && drops(old(w), d, i))
                    ==> (#[trigger] final(w).position@[i]) == old(w).position@[i] && final(w).in_backpack@[i] == old(w).in_backpack@[i],
            // an item dropped while equipped raises an unequip intent on its
            // dropper, and nobody else's unequip intent moves
            forall|d: int|
                0 <= d < final(w).n && old(w).drop_item_intent@[d] is Some && old(
                    w,
                ).position@[d] is Some && old(w).equipped@[old(
                    w,
                ).drop_item_intent@[d]->Some_0.item as int] is Some ==> (#[trigger] final(w).unequip_intent@[d]) == Some(
                    UnequipIntent { item: old(w).drop_item_intent@[d]->Some_0.item },
                ),
            forall|d: int|
                0 <= d < final(w).n && !(old(w).drop_item_intent@[d] is Some && old(
                    w,
                ).position@[d] is Some && old(w).equipped@[old(
                    w,
                ).drop_item_intent@[d]->Some_0.item as int] is Some) ==> (#[trigger] final(w).unequip_intent@[d]) == old(w).unequip_intent@[d],
            old(w).log@.is_prefix_of(final(w).log@),
            (forall|e: int| 0 <= e < old(w).n ==> (#[trigger] old(w).drop_item_intent@[e]) is None)
                ==> (final(w).position@ == old(w).position@ && final(w).in_backpack@ == old(
                w,
            ).in_backpack@ && final(w).unequip_intent@ == old(w).unequip_intent@ && final(w).log@
                == old(w).log@),
    {
        let n = w.n;
        // first pass: read every drop while positions are still untouched
        let mut pending_drops: Vec<(usize, usize, Position)> = Vec::new();
        let mut e: usize = 0;
        while e < n
            invariant
                e <= n,
                w.wf(),
                n == w.n,
                *w == *old(w),
                forall|k: int|
                    0 <= k < pending_drops@.len() ==> drops(
                        old(w),
                        (#[trigger] pending_drops@[k]).0 as int,
                        pending_drops@[k].1 as int,
                    ) && pending_drops@[k].2 == old(w).position@[pending_drops@[k].0 as int]->Some_0
                        && pending_drops@[k].0 < n && pending_drops@[k].1 < n,
                forall|d: int|
                    0 <= d < e && drops(old(w), d, old(w).drop_item_intent@[d]->Some_0.item as int)
                        ==> exists|k: int|
                        0 <= k < pending_drops@.len() && (#[trigger] pending_drops@[k]).0 == d,
                pending_drops@.len() == 0 <==> (forall|d: int|
                    0 <= d < e ==> !drops(
                        old(w),
                        d,
                        old(w).drop_item_intent@[d]->Some_0.item as int,
                    )),
            decreases n - e,
        {
            let intent = w.drop_item_intent[e];
            let dropper_pos = w.position[e];
            if intent.is_some() && dropper_pos.is_some() {
                let item = intent.unwrap().item;
                let pos = dropper_pos.unwrap();
                proof {
                    assert(drops(old(w), e as int, item as int));
                }
                let ghost pd0 = pending_drops@;
                pending_drops.push((e, item, pos));
                proof {
                    assert(pending_drops@[pd0.len() as int].0 == e);
                    assert forall|d: int|
                        0 <= d < e + 1 && drops(
                            old(w),
                            d,
                            old(w).drop_item_intent@[d]->Some_0.item as int,
                        ) implies exists|k: int|
                        0 <= k < pending_drops@.len() && (#[trigger] pending_drops@[k]).0
                            == d by {
                        if d < e {
                            let k = choose|k: int|
                                0 <= k < pd0.len() && (#[trigger] pd0[k]).0 == d;
                            assert(pending_drops@[k].0 == d);
                        }
                    }
                }
            } else {
                proof {
                    assert(!drops(
                        old(w),
                        e as int,
                        old(w).drop_item_intent@[e as int]->Some_0.item as int,
                    ));
                }
            }
            e = e + 1;
        }
        // second pass: apply them
        let dlen = pending_drops.len();
        let mut k: usize = 0;
        while k < dlen
            invariant
                k <= dlen,
                dlen == pending_drops@.len(),
                old(w).wf(),
                w.wf(),
                n == w.n,
                *w == (World {
                    position: w.position,
                    in_backpack: w.in_backpack,
                    unequip_intent: w.unequip_intent,
                    log: w.log,
                    ..*old(w)
                }),
                forall|k2: int|
                    0 <= k2 < pending_drops@.len() ==> drops(
                        old(w),
                        (#[trigger] pending_drops@[k2]).0 as int,
                        pending_drops@[k2].1 as int,
                    ) && pending_drops@[k2].2 == old(w).position@[pending_drops@[k2].0 as int]->Some_0
                        && pending_drops@[k2].0 < n && pending_drops@[k2].1 < n,
                forall|k2: int|
                    0 <= k2 < k ==> (#[trigger] w.position@[pending_drops@[k2].1 as int]) is Some
                        && w.in_backpack@[pending_drops@[k2].1 as int] is None,
                forall|i: int|
                    0 <= i < n && (exists|k2: int|
                        0 <= k2 < k && (#[trigger] pending_drops@[k2]).1 == i) ==> exists|d: int|
                        0 <= d < old(w).n && drops(old(w), d, i) && (#[trigger] w.position@[i])
                            == old(w).position@[d],
                forall|i: int|
                    0 <= i < n && !(exists|k2: int|
                        0 <= k2 < k && (#[trigger] pending_drops@[k2]).1 == i) ==> w.position@[i]
                        == old(w).position@[i] && w.in_backpack@[i] == old(w).in_backpack@[i],
                forall|k2: int|
                    0 <= k2 < k && old(w).equipped@[pending_drops@[k2].1 as int] is Some ==> (
                    #[trigger] w.unequip_intent@[pending_drops@[k2].0 as int]) == Some(
                        UnequipIntent { item: pending_drops@[k2].1 },
                    ),
                forall|d: int|
                    0 <= d < n && !(exists|k2: int|
                        0 <= k2 < k && (#[trigger] pending_drops@[k2]).0 == d && old(
                            w,
                        ).equipped@[pending_drops@[k2].1 as int] is Some) ==> w.unequip_intent@[d]
                        == old(w).unequip_intent@[d],
                old(w).log@.is_prefix_of(w.log@),
                pending_drops@.len() == 0 ==> (w.position@ == old(w).position@ && w.in_backpack@
                    == old(w).in_backpack@ && w.unequip_intent@ == old(w).unequip_intent@
                    && w.log@ == old(w).log@),
            decreases dlen - k,
        {
            let (dropper, item, pos) = pending_drops[k];
            w.position.set(item, Some(pos));
            w.in_backpack.set(item, None);
            if w.equipped[item].is_some() {
                proof {
                    assert(w.equipped@[item as int] == old(w).equipped@[item as int]);
                }
                w.unequip_intent.set(dropper, Some(UnequipIntent { item }));
            }
            if dropper == w.player_entity {
                if let Some(nm) = &w.name[item] {
                    let name = nm.name.clone();
                    gamelog::log_name_suffix(&mut w.log, &name, " dropped.");
                }
            }
            k = k + 1;
        }
        proof {
            assert forall|i: int|
                0 <= i < n && (exists|d: int| 0 <= d < old(w).n && drops(old(w), d, i)) implies (
            #[trigger] w.position@[i]) is Some && w.in_backpack@[i] is None && exists|d: int|
                0 <= d < old(w).n && drops(old(w), d, i) && w.position@[i] == old(
                w,
            ).position@[d] by {
                let d = choose|d: int| 0 <= d < old(w).n && drops(old(w), d, i);
                assert(old(w).drop_item_intent@[d]->Some_0.item == i);
                assert(drops(old(w), d, old(w).drop_item_intent@[d]->Some_0.item as int));
                let k2 = choose|k2: int|
                    0 <= k2 < pending_drops@.len() && (#[trigger] pending_drops@[k2]).0 == d;
                assert(pending_drops@[k2].1 == i);
            }
            assert forall|i: int|
                0 <= i < n && !(exists|d: int| 0 <= d < old(w).n && drops(old(w), d, i)) implies (
            #[trigger] w.position@[i]) == old(w).position@[i] && w.in_backpack@[i] == old(
                w,
            ).in_backpack@[i] by {
                if exists|k2: int|
                    0 <= k2 < pending_drops@.len() && (#[trigger] pending_drops@[k2]).1 == i {
                    let k2 = choose|k2: int|
                        0 <= k2 < pending_drops@.len() && (#[trigger] pending_drops@[k2]).1 == i;
                    assert(drops(old(w), pending_drops@[k2].0 as int, i));
                }
            }
            assert forall|d: int|
                0 <= d < n && old(w).drop_item_intent@[d] is Some && old(
                w,
            ).position@[d] is Some && old(w).equipped@[old(
                w,
            ).drop_item_intent@[d]->Some_0.item as int] is Some implies (
            #[trigger] w.unequip_intent@[d]) == Some(
                UnequipIntent { item: old(w).drop_item_intent@[d]->Some_0.item },
            ) by {
                assert(drops(old(w), d, old(w).drop_item_intent@[d]->Some_0.item as int));
                let k2 = choose|k2: int|
                    0 <= k2 < pending_drops@.len() && (#[trigger] pending_drops@[k2]).0 == d;
                assert(pending_drops@[k2].1 == old(w).drop_item_intent@[d]->Some_0.item);
            }
        }
        let ghost mid = *w;
        let mut k: usize = 0;
        while k < n
            invariant
                k <= n,
                w.wf(),
                n == w.n,
                *w == (World { drop_item_intent: w.drop_item_intent, ..mid }),
                forall|e2: int| 0 <= e2 < k ==> (#[trigger] w.drop_item_intent@[e2]) is None,
            decreases n - k,
        {
            w.drop_item_intent.set(k, None);
            k = k + 1;
        }
    }
}

/// Entity `e` asked to use an item this tick.
pub open spec fn uses(w: &World, e: int) -> bool {
    w.use_item_intent@[e] is Some
}

/// Some user activates a magic-mapping item this tick.
pub open spec fn magic_map_used(w: &World) -> bool {
    exists|e: int|
        0 <= e < w.n && #[trigger] uses(w, e) && w.magic_mapper@[w.use_item_intent@[e]->Some_0.item as int]
}

/// What item use may change, relative to the pre-system world `o`, after
/// the users below `seen` have acted: damage only accrues, heals and
/// confusion land only from a used item, deletions are only of used
/// consumables, and the run state moves only to the magic-map reveal.
pub open spec fn use_step_inv(o: &World, w: &World, seen: int) -> bool {
    &&& *w == (World {
        healing: w.healing,
        confusion: w.confusion,
        damage_queue: w.damage_queue,
        run_state: w.run_state,
        to_delete: w.to_delete,
        log: w.log,
        particles: w.particles,
        use_item_intent: w.use_item_intent,
        ..*o
    })
    &&& (exists|e2: int|
        0 <= e2 < seen && #[trigger] uses(o, e2)
            && o.magic_mapper@[o.use_item_intent@[e2]->Some_0.item as int]) ==> w.run_state == (
    RunState::MagicMapReveal { row: 0 })
    &&& !(exists|e2: int|
        0 <= e2 < seen && #[trigger] uses(o, e2)
            && o.magic_mapper@[o.use_item_intent@[e2]->Some_0.item as int]) ==> w.run_state
        == o.run_state
    &&& forall|t: int|
        0 <= t < o.n ==> DamageQueue::pending(o.damage_queue@, t).is_prefix_of(
            DamageQueue::pending(w.damage_queue@, t),
        )
    &&& forall|t: int|
        0 <= t < o.n && (#[trigger] w.healing@[t]) != o.healing@[t] ==> exists|e2: int|
            0 <= e2 < o.n && #[trigger] uses(o, e2)
                && o.heals@[o.use_item_intent@[e2]->Some_0.item as int] is Some && w.healing@[t]
                == Some(
                Healing {
                    duration: o.heals@[o.use_item_intent@[e2]->Some_0.item as int]->Some_0.duration,
                    amount: o.heals@[o.use_item_intent@[e2]->Some_0.item as int]->Some_0.amount,
                },
            )
    &&& forall|t: int|
        0 <= t < o.n && (#[trigger] w.confusion@[t]) != o.confusion@[t] ==> exists|e2: int|
            0 <= e2 < o.n && #[trigger] uses(o, e2)
                && o.confusion@[o.use_item_intent@[e2]->Some_0.item as int] is Some
                && w.confusion@[t] == o.confusion@[o.use_item_intent@[e2]->Some_0.item as int]
    &&& o.to_delete@.is_prefix_of(w.to_delete@)
    &&& forall|x: int|
        World::queued(w.to_delete@, x) ==> World::queued(o.to_delete@, x) || (exists|e2: int|
            0 <= e2 < o.n && #[trigger] uses(o, e2) && o.use_item_intent@[e2]->Some_0.item == x
                && o.consumable@[x])
    &&& o.log@.is_prefix_of(w.log@)
    &&& o.particles@.is_prefix_of(w.particles@)
    &&& ((forall|e2: int| 0 <= e2 < o.n ==> !#[trigger] uses(o, e2)) ==> (w.healing@ == o.healing@
        && w.confusion@ == o.confusion@ && w.damage_queue@ == o.damage_queue@ && w.run_state
        == o.run_state && w.to_delete@ == o.to_delete@ && w.log@ == o.log@ && w.particles@
        == o.particles@))
}

/// Entity `t` is among the computed targets.
pub open spec fn in_targets(targets: Seq<crate::components::Entity>, t: int) -> bool {
    exists|k: int| 0 <= k < targets.len() && (#[trigger] targets[k]) == t
}

/// The atoms the first `upto` targets receive, in target order: each
/// occurrence of `t` in the list earns the whole atom list once.
pub open spec fn use_adds(
    targets: Seq<crate::components::Entity>,
    atoms: Seq<DamageAtom>,
    t: int,
    upto: int,
) -> Seq<DamageAtom>
    decreases upto,
{
    if upto <= 0 {
        Seq::empty()
    } else {
        let rest = use_adds(targets, atoms, t, upto - 1);
        if targets[upto - 1] == t {
            rest + atoms
        } else {
            rest
        }
    }
}

/// The atom list a damaging item delivers; an item that deals no damage
/// delivers none.
pub open spec fn spec_use_atoms(o: &World, item: int) -> Seq<DamageAtom> {
    if o.damage_on_use@[item] is Some {
        o.damage_on_use@[item]->Some_0.dmg_atoms@
    } else {
        Seq::empty()
    }
}

/// An empty atom list adds nothing, whoever the targets are.
pub proof fn lemma_use_adds_empty(
    targets: Seq<crate::components::Entity>,
    t: int,
    upto: int,
)
    ensures
        use_adds(targets, Seq::<DamageAtom>::empty(), t, upto) == Seq::<DamageAtom>::empty(),
    decreases upto,
{
    if upto > 0 {
        lemma_use_adds_empty(targets, t, upto - 1);
        assert(use_adds(targets, Seq::<DamageAtom>::empty(), t, upto) =~= Seq::<
            DamageAtom,
        >::empty());
    }
}

/// Whether this use consumed the item: a magic mapper always does; an
/// effect item (confusing, healing or damaging) only when it reached a
/// target; an item with no effect at all is spent regardless.
pub open spec fn spec_item_used(o: &World, item: int, tcount: int) -> bool {
    if o.magic_mapper@[item] {
        true
    } else if o.confusion@[item] is Some {
        tcount > 0
    } else if o.heals@[item] is Some {
        tcount > 0
    } else if o.damage_on_use@[item] is Some {
        tcount > 0
    } else {
        true
    }
}

/// Entity `u` holds the tick's only use intent.
pub open spec fn lone_user(w: &World, u: int) -> bool {
    &&& uses(w, u)
    &&& forall|u2: int| 0 <= u2 < w.n && u2 != u ==> (#[trigger] w.use_item_intent@[u2]) is None
}

/// Nothing of the item-use state moved between `o` and `w`.
pub open spec fn use_untouched(o: &World, w: &World) -> bool {
    &&& w.healing@ == o.healing@
    &&& w.confusion@ == o.confusion@
    &&& w.damage_queue@ == o.damage_queue@
    &&& w.run_state == o.run_state
    &&& w.to_delete@ == o.to_delete@
}

/// The point lies strictly inside the map rim.
pub open spec fn in_rim(m: &crate::map::GameMap, p: Position) -> bool {
    &&& p.x > 0
    &&& p.x < m.width - 1
    &&& p.y > 0
    &&& p.y < m.height - 1
}

/// The occupants of the first `upto` blast tiles, rim tiles left out, in
/// tile order.
pub open spec fn aoe_targets(o: &World, blast: Seq<Position>, upto: int) -> Seq<
    crate::components::Entity,
>
    decreases upto,
{
    if upto <= 0 {
        Seq::empty()
    } else {
        let rest = aoe_targets(o, blast, upto - 1);
        let p = blast[upto - 1];
        if in_rim(&o.map, p) {
            rest + o.map.tile_content@[o.map.spec_idx(p.x as int, p.y as int)]@
        } else {
            rest
        }
    }
}

/// The target list of `u`'s use: the player for an unaimed use, the aimed
/// tile's occupants for a plain aimed use, and the occupants of the first
/// supplied blast area for an area-effect use.
pub open spec fn spec_targets(o: &World, u: int, blasts: Seq<Vec<Position>>) -> Seq<
    crate::components::Entity,
> {
    let intent = o.use_item_intent@[u]->Some_0;
    if intent.target is None {
        seq![o.player_entity]
    } else if o.aoe@[intent.item as int] is None {
        o.map.tile_content@[o.map.spec_idx(
            intent.target->Some_0.x as int,
            intent.target->Some_0.y as int,
        )]@
    } else if blasts.len() > 0 {
        aoe_targets(o, blasts[0]@, blasts[0]@.len() as int)
    } else {
        Seq::empty()
    }
}

/// The full effect of using `item` on the computed `targets`, relative to
/// the pre-use world `o`: each target's queue gains the item's atoms, each
/// target takes the item's heal and confusion, a magic mapper moves the
/// run state to the first reveal row, and a consumed item is queued for
/// deletion.
pub open spec fn use_effects(
    o: &World,
    w: &World,
    item: int,
    targets: Seq<crate::components::Entity>,
) -> bool {
    &&& forall|t: int|
        0 <= t < o.n ==> DamageQueue::pending(w.damage_queue@, t) == DamageQueue::pending(
            o.damage_queue@,
            t,
        ) + use_adds(targets, spec_use_atoms(o, item), t, targets.len() as int)
    &&& forall|t: int|
        0 <= t < o.n && o.heals@[item] is Some && in_targets(targets, t) ==> (
        #[trigger] w.healing@[t]) == Some(
            Healing {
                duration: o.heals@[item]->Some_0.duration,
                amount: o.heals@[item]->Some_0.amount,
            },
        )
    &&& forall|t: int|
        0 <= t < o.n && !(o.heals@[item] is Some && in_targets(targets, t)) ==> (
        #[trigger] w.healing@[t]) == o.healing@[t]
    &&& forall|t: int|
        0 <= t < o.n && o.confusion@[item] is Some && in_targets(targets, t) ==> (
        #[trigger] w.confusion@[t]) == o.confusion@[item]
    &&& forall|t: int|
        0 <= t < o.n && !(o.confusion@[item] is Some && in_targets(targets, t)) ==> (
        #[trigger] w.confusion@[t]) == o.confusion@[t]
    &&& o.magic_mapper@[item] ==> w.run_state == (RunState::MagicMapReveal { row: 0 })
    &&& !o.magic_mapper@[item] ==> w.run_state == o.run_state
    &&& (spec_item_used(o, item, targets.len() as int) && o.consumable@[item]) ==> w.to_delete@
        == o.to_delete@.push(item as crate::components::Entity)
    &&& !(spec_item_used(o, item, targets.len() as int) && o.consumable@[item]) ==> w.to_delete@
        == o.to_delete@
}

/// Resolves use-item intents into damage, healing, confusion and
/// magic-mapping effects, consuming single-use items.
pub struct ItemUseSystem {}

impl ItemUseSystem {
    /// Resolve every use-item intent. An unaimed use targets the player;
    /// an aimed use targets the occupants of the target tile, or of every
    /// tile of the item's blast area (`blasts` supplies the area tile
    /// lists, one per aimed area-effect intent in entity order; tiles are
    /// kept only strictly inside the map rim). Damaging items queue their
    /// atoms on each target; healing items attach a heal-over-time;
    /// confusing items attach confusion; a magic-mapping item moves the
    /// run state to the first reveal row. Used consumables are queued for
    /// deletion, and the whole intent storage is cleared. The tick's one
    /// use lands its every effect, exactly as `use_effects` states.
    #[verifier::rlimit(100)]
    pub fn run(w: &mut World, blasts: &Vec<Vec<Position>>)
        requires
            old(w).wf(),
        ensures
            final(w).wf(),
            use_step_inv(old(w), final(w), old(w).n as int),
            magic_map_used(old(w)) ==> final(w).run_state == (RunState::MagicMapReveal { row: 0 }),
            !magic_map_used(old(w)) ==> final(w).run_state == old(w).run_state,
            forall|e: int|
                0 <= e < final(w).n ==> (#[trigger] final(w).use_item_intent@[e]) is None,
            // the tick's one use lands its every effect on its targets
            forall|u: int|
                0 <= u < old(w).n && #[trigger] lone_user(old(w), u) ==> use_effects(
                    old(w),
                    final(w),
                    old(w).use_item_intent@[u]->Some_0.item as int,
                    spec_targets(old(w), u, blasts@),
                ),
    {
        let n = w.n;
        let mut e: usize = 0;
        let mut blast_cursor: usize = 0;
        proof {
            assert forall|t: int|
                0 <= t < n implies DamageQueue::pending(old(w).damage_queue@, t).is_prefix_of(
                DamageQueue::pending(w.damage_queue@, t),
            ) by {
                lemma_prefix_refl(DamageQueue::pending(w.damage_queue@, t));
            }
            lemma_prefix_refl(w.to_delete@);
            lemma_prefix_refl(w.log@);
            lemma_prefix_refl(w.particles@);
        }
        while e < n
            invariant
                e <= n,
                old(w).wf(),
                w.wf(),
                n == w.n,
                n == old(w).n,
                w.use_item_intent@ == old(w).use_item_intent@,
                use_step_inv(old(w), w, e as int),
                forall|m: int|
                    0 <= m < n && #[trigger] lone_user(old(w), m) ==> (e <= m ==> (blast_cursor
                        == 0 && use_untouched(old(w), w))) && (e > m ==> use_effects(
                        old(w),
                        w,
                        old(w).use_item_intent@[m]->Some_0.item as int,
                        spec_targets(old(w), m, blasts@),
                    )),
            decreases n - e,
        {
            let ghost pre_iter = *w;
            let ghost cursor0 = blast_cursor;
            let intent = w.use_item_intent[e];
            if let Some(intent) = intent {
                proof {
                    assert(uses(old(w), e as int));
                    assert(old(w).use_item_intent@[e as int]->Some_0.item == intent.item);
                }
                let item = intent.item;
                let ghost lone_here = lone_user(old(w), e as int);
                let mut targets: Vec<usize> = Vec::new();
                match intent.target {
                    None => {
                        targets.push(w.player_entity);
                        proof {
                            if lone_here {
                                assert(targets@ =~= spec_targets(old(w), e as int, blasts@));
                            }
                        }
                    },
                    Some(target) => {
                        match w.aoe[item] {
                            None => {
                                // single tile: whoever stands there
                                proof {
                                    assert(w.use_item_intent@[e as int] == old(
                                        w,
                                    ).use_item_intent@[e as int]);
                                }
                                let idx = w.map.xy_idx(target.x, target.y);
                                let occupants = w.map.tile_content[idx].clone();
                                let olen = occupants.len();
                                let mut j: usize = 0;
                                while j < olen
                                    invariant
                                        j <= olen,
                                        olen == occupants@.len(),
                                        w.wf(),
                                        targets@ == occupants@.take(j as int),
                                        forall|k: int|
                                            0 <= k < targets@.len() ==> (#[trigger] targets@[k])
                                                < w.n,
                                        forall|k: int|
                                            0 <= k < occupants@.len() ==> (#[trigger] occupants@[k])
                                                < w.n,
                                    decreases olen - j,
                                {
                                    targets.push(occupants[j]);
                                    j = j + 1;
                                    proof {
                                        assert(targets@ =~= occupants@.take(j as int));
                                    }
                                }
                                proof {
                                    assert(occupants@.take(olen as int) =~= occupants@);
                                    if lone_here {
                                        assert(targets@ == spec_targets(old(w), e as int, blasts@));
                                    }
                                }
                            },
                            Some(_) => {
                                // area of effect: occupants of each blast tile
                                proof {
                                    if lone_here {
                                        assert(blast_cursor == 0);
                                    }
                                }
                                if blast_cursor < blasts.len() {
                                    let blast = &blasts[blast_cursor];
                                    blast_cursor = blast_cursor + 1;
                                    let blen = blast.len();
                                    let mut b: usize = 0;
                                    let mut flashes: Vec<ParticleRequest> = Vec::new();
                                    proof {
                                        assert(targets@ =~= aoe_targets(old(w), blast@, 0));
                                    }
                                    while b < blen
                                        invariant
                                            b <= blen,
                                            blen == blast@.len(),
                                            old(w).wf(),
                                            w.wf(),
                                            w.n == n,
                                            w.map == old(w).map,
                                            lone_here ==> targets@ == aoe_targets(
                                                old(w),
                                                blast@,
                                                b as int,
                                            ),
                                            forall|k: int|
                                                0 <= k < targets@.len() ==> (#[trigger] targets@[k])
                                                    < w.n,
                                            forall|k: int|
                                                0 <= k < flashes@.len() ==> w.map.in_bounds(
                                                    (#[trigger] flashes@[k]).x as int,
                                                    flashes@[k].y as int,
                                                ),
                                        decreases blen - b,
                                    {
                                        let p = blast[b];
                                        b = b + 1;
                                        let inside = p.x > 0 && p.x < w.map.width - 1 && p.y > 0
                                            && p.y < w.map.height - 1;
                                        proof {
                                            assert(inside == in_rim(&old(w).map, blast@[b - 1]));
                                        }
                                        if inside {
                                            let idx = w.map.xy_idx(p.x, p.y);
                                            let occupants = w.map.tile_content[idx].clone();
                                            let ghost t0 = targets@;
                                            let olen = occupants.len();
                                            let mut j: usize = 0;
                                            while j < olen
                                                invariant
                                                    j <= olen,
                                                    olen == occupants@.len(),
                                                    w.wf(),
                                                    w.n == n,
                                                    targets@ == t0 + occupants@.take(j as int),
                                                    forall|k: int|
                                                        0 <= k < targets@.len() ==> (
                                                        #[trigger] targets@[k]) < w.n,
                                                    forall|k: int|
                                                        0 <= k < occupants@.len() ==> (
                                                        #[trigger] occupants@[k]) < w.n,
                                                decreases olen - j,
                                            {
                                                targets.push(occupants[j]);
                                                j = j + 1;
                                                proof {
                                                    assert(targets@ =~= t0 + occupants@.take(
                                                        j as int,
                                                    ));
                                                }
                                            }
                                            proof {
                                                assert(occupants@.take(olen as int)
                                                    =~= occupants@);
                                                if lone_here {
                                                    assert(targets@ == aoe_targets(
                                                        old(w),
                                                        blast@,
                                                        b as int,
                                                    ));
                                                }
                                            }
                                            flashes.push(
                                                ParticleRequest {
                                                    x: p.x,
                                                    y: p.y,
                                                    fg: Rgb { r: 255, g: 165, b: 0 },
                                                    bg: Rgb { r: 0, g: 0, b: 0 },
                                                    glyph: 176,
                                                    lifetime_ms: 200,
                                                },
                                            );
                                        } else {
                                            proof {
                                                if lone_here {
                                                    assert(targets@ == aoe_targets(
                                                        old(w),
                                                        blast@,
                                                        b as int,
                                                    ));
                                                }
                                            }
                                        }
                                    }
                                    proof {
                                        if lone_here {
                                            assert(blast@ == blasts@[0]@);
                                            assert(targets@ == spec_targets(
                                                old(w),
                                                e as int,
                                                blasts@,
                                            ));
                                        }
                                    }
                                    // commit the visual flashes
                                    let ghost pre_flash = *w;
                                    let flen = flashes.len();
                                    let mut f: usize = 0;
                                    proof {
                                        lemma_prefix_refl(w.particles@);
                                    }
                                    while f < flen
                                        invariant
                                            f <= flen,
                                            flen == flashes@.len(),
                                            w.wf(),
                                            n == w.n,
                                            forall|k: int|
                                                0 <= k < flashes@.len() ==> w.map.in_bounds(
                                                    (#[trigger] flashes@[k]).x as int,
                                                    flashes@[k].y as int,
                                                ),
                                            *w == (World {
                                                particles: w.particles,
                                                ..pre_flash
                                            }),
                                            pre_flash.particles@.is_prefix_of(w.particles@),
                                            forall|k: int|
                                                0 <= k < targets@.len() ==> (#[trigger] targets@[k])
                                                    < w.n,
                                        decreases flen - f,
                                    {
                                        let ghost pp = w.particles@;
                                        w.particles.push(flashes[f]);
                                        proof {
                                            lemma_prefix_push(
                                                pre_flash.particles@,
                                                pp,
                                                flashes@[f as int],
                                            );
                                        }
                                        f = f + 1;
                                    }
                                    proof {
                                        lemma_prefix_trans(
                                            old(w).particles@,
                                            pre_flash.particles@,
                                            w.particles@,
                                        );
                                        assert(use_step_inv(old(w), w, e as int));
                                    }
                                } else {
                                    proof {
                                        if lone_here {
                                            assert(targets@ =~= spec_targets(
                                                old(w),
                                                e as int,
                                                blasts@,
                                            ));
                                        }
                                    }
                                }
                            },
                        }
                    },
                }
                let ghost pre = *w;
                Self::apply_item_effects(w, e, item, &targets);
                proof {
                    if lone_here {
                        assert(use_untouched(old(w), &pre));
                        assert(use_effects(old(w), w, item as int, targets@)) by {
                            assert(use_effects(&pre, w, item as int, targets@));
                            assert(spec_use_atoms(&pre, item as int) == spec_use_atoms(
                                old(w),
                                item as int,
                            ));
                        }
                    }
                    assert(use_step_inv(old(w), w, e as int + 1)) by {
                        if old(w).magic_mapper@[item as int] {
                            assert(w.run_state == (RunState::MagicMapReveal { row: 0 }));
                        } else {
                            assert(w.run_state == pre.run_state);
                            assert forall|e2: int|
                                0 <= e2 < e + 1 && #[trigger] uses(old(w), e2) && old(
                                w,
                            ).magic_mapper@[old(
                                w,
                            ).use_item_intent@[e2]->Some_0.item as int] implies e2 < e by {}
                        }
                        assert forall|t: int|
                            0 <= t < old(w).n implies DamageQueue::pending(
                            old(w).damage_queue@,
                            t,
                        ).is_prefix_of(DamageQueue::pending(w.damage_queue@, t)) by {
                            assert(DamageQueue::pending(pre.damage_queue@, t).is_prefix_of(
                                DamageQueue::pending(w.damage_queue@, t),
                            )) by {
                                assert(DamageQueue::pending(w.damage_queue@, t)
                                    == DamageQueue::pending(pre.damage_queue@, t) + use_adds(
                                    targets@,
                                    spec_use_atoms(&pre, item as int),
                                    t,
                                    targets@.len() as int,
                                ));
                                assert(DamageQueue::pending(w.damage_queue@, t).subrange(
                                    0,
                                    DamageQueue::pending(pre.damage_queue@, t).len() as int,
                                ) =~= DamageQueue::pending(pre.damage_queue@, t));
                            }
                            lemma_prefix_trans(
                                DamageQueue::pending(old(w).damage_queue@, t),
                                DamageQueue::pending(pre.damage_queue@, t),
                                DamageQueue::pending(w.damage_queue@, t),
                            );
                        }
                        lemma_prefix_trans(old(w).to_delete@, pre.to_delete@, w.to_delete@);
                        lemma_prefix_trans(old(w).log@, pre.log@, w.log@);
                        lemma_prefix_trans(old(w).particles@, pre.particles@, w.particles@);
                        assert forall|t: int|
                            0 <= t < old(w).n && (#[trigger] w.healing@[t]) != old(
                            w,
                        ).healing@[t] implies exists|e2: int|
                            0 <= e2 < old(w).n && #[trigger] uses(old(w), e2) && old(w).heals@[old(
                                w,
                            ).use_item_intent@[e2]->Some_0.item as int] is Some && w.healing@[t]
                                == Some(
                                Healing {
                                    duration: old(w).heals@[old(
                                        w,
                                    ).use_item_intent@[e2]->Some_0.item as int]->Some_0.duration,
                                    amount: old(w).heals@[old(
                                        w,
                                    ).use_item_intent@[e2]->Some_0.item as int]->Some_0.amount,
                                },
                            ) by {
                            if w.healing@[t] != pre.healing@[t] {
                                assert(uses(old(w), e as int));
                            }
                        }
                        assert forall|t: int|
                            0 <= t < old(w).n && (#[trigger] w.confusion@[t]) != old(
                            w,
                        ).confusion@[t] implies exists|e2: int|
                            0 <= e2 < old(w).n && #[trigger] uses(old(w), e2) && old(
                                w,
                            ).confusion@[old(
                                w,
                            ).use_item_intent@[e2]->Some_0.item as int] is Some && w.confusion@[t]
                                == old(w).confusion@[old(
                                w,
                            ).use_item_intent@[e2]->Some_0.item as int] by {
                            if w.confusion@[t] != pre.confusion@[t] {
                                assert(uses(old(w), e as int));
                            }
                        }
                        assert forall|x: int|
                            World::queued(w.to_delete@, x) implies World::queued(
                            old(w).to_delete@,
                            x,
                        ) || (exists|e2: int|
                            0 <= e2 < old(w).n && #[trigger] uses(old(w), e2) && old(
                                w,
                            ).use_item_intent@[e2]->Some_0.item == x && old(w).consumable@[x]) by {
                            if !World::queued(pre.to_delete@, x) {
                                assert(uses(old(w), e as int));
                            }
                        }
                    }
                }
            } else {
                proof {
                    assert(!uses(old(w), e as int));
                    assert forall|e2: int|
                        0 <= e2 < e + 1 && #[trigger] uses(old(w), e2) && old(w).magic_mapper@[old(
                        w,
                    ).use_item_intent@[e2]->Some_0.item as int] implies e2 < e by {}
                    assert(use_step_inv(old(w), w, e as int + 1));
                }
            }
            e = e + 1;
            proof {
                assert forall|m: int|
                    0 <= m < n && #[trigger] lone_user(old(w), m) implies (e <= m ==> (blast_cursor
                    == 0 && use_untouched(old(w), w))) && (e > m ==> use_effects(
                    old(w),
                    w,
                    old(w).use_item_intent@[m]->Some_0.item as int,
                    spec_targets(old(w), m, blasts@),
                )) by {
                    if m != e - 1 {
                        assert(old(w).use_item_intent@[e - 1] is None);
                        assert(*w == pre_iter);
                        assert(blast_cursor == cursor0);
                    }
                }
            }
        }
        // batch-clear the intent storage
        let ghost mid = *w;
        let mut k: usize = 0;
        while k < n
            invariant
                k <= n,
                old(w).wf(),
                w.wf(),
                n == w.n,
                n == old(w).n,
                *w == (World { use_item_intent: w.use_item_intent, ..mid }),
                use_step_inv(old(w), w, n as int),
                forall|m: int|
                    0 <= m < n && #[trigger] lone_user(old(w), m) ==> use_effects(
                        old(w),
                        &mid,
                        old(w).use_item_intent@[m]->Some_0.item as int,
                        spec_targets(old(w), m, blasts@),
                    ),
                forall|e2: int| 0 <= e2 < k ==> (#[trigger] w.use_item_intent@[e2]) is None,
            decreases n - k,
        {
            w.use_item_intent.set(k, None);
            k = k + 1;
        }
        proof {
            assert forall|m: int|
                0 <= m < n && #[trigger] lone_user(old(w), m) implies use_effects(
                old(w),
                w,
                old(w).use_item_intent@[m]->Some_0.item as int,
                spec_targets(old(w), m, blasts@),
            ) by {
                assert(use_effects(
                    old(w),
                    &mid,
                    old(w).use_item_intent@[m]->Some_0.item as int,
                    spec_targets(old(w), m, blasts@),
                ));
            }
        }
    }


    /// Apply one used item's effects to its computed target list, exactly
    /// as `use_effects` states, and queue the item for deletion when this
    /// use consumed it.
    #[verifier::rlimit(100)]
    fn apply_item_effects(w: &mut World, user: usize, item: usize, targets: &Vec<usize>)
        requires
            old(w).wf(),
            user < old(w).n,
            item < old(w).n,
            forall|k: int| 0 <= k < targets@.len() ==> (#[trigger] targets@[k]) < old(w).n,
        ensures
            final(w).wf(),
            final(w).n == old(w).n,
            *final(w) == (World {
                healing: final(w).healing,
                confusion: final(w).confusion,
                damage_queue: final(w).damage_queue,
                run_state: final(w).run_state,
                to_delete: final(w).to_delete,
                log: final(w).log,
                ..*old(w)
            }),
            use_effects(old(w), final(w), item as int, targets@),
            forall|t: int|
                0 <= t < final(w).n ==> DamageQueue::pending(old(w).damage_queue@, t).is_prefix_of(
                    DamageQueue::pending(final(w).damage_queue@, t),
                ),
            old(w).to_delete@.is_prefix_of(final(w).to_delete@),
            forall|x: int|
                World::queued(final(w).to_delete@, x) ==> World::queued(old(w).to_delete@, x) || (x
                    == item && old(w).consumable@[x]),
            old(w).log@.is_prefix_of(final(w).log@),
            final(w).particles@ == old(w).particles@,
    {
        let mut is_item_used = true;
        let tlen = targets.len();
        let ghost tseq = targets@;
        proof {
            assert forall|t: int|
                0 <= t < w.n implies DamageQueue::pending(old(w).damage_queue@, t).is_prefix_of(
                DamageQueue::pending(w.damage_queue@, t),
            ) by {
                lemma_prefix_refl(DamageQueue::pending(w.damage_queue@, t));
            }
            lemma_prefix_refl(w.log@);
            lemma_prefix_refl(w.to_delete@);
        }
        // damaging item logic: each target's queue gains every atom
        let has_damage = w.damage_on_use[item].is_some();
        if has_damage {
            is_item_used = false;
            let atoms = match &w.damage_on_use[item] {
                Some(d) => d.dmg_atoms.clone(),
                None => Vec::new(),
            };
            let alen = atoms.len();
            proof {
                assert(atoms@ == old(w).damage_on_use@[item as int]->Some_0.dmg_atoms@);
                assert forall|t: int|
                    0 <= t < w.n implies DamageQueue::pending(w.damage_queue@, t)
                    == DamageQueue::pending(old(w).damage_queue@, t) + use_adds(
                    tseq,
                    atoms@,
                    t,
                    0,
                ) by {
                    assert(use_adds(tseq, atoms@, t, 0) =~= Seq::<DamageAtom>::empty());
                    assert(DamageQueue::pending(old(w).damage_queue@, t) + Seq::<
                        DamageAtom,
                    >::empty() =~= DamageQueue::pending(old(w).damage_queue@, t));
                }
            }
            let mut k: usize = 0;
            while k < tlen
                invariant
                    k <= tlen,
                    tlen == tseq.len(),
                    tseq == targets@,
                    alen == atoms@.len(),
                    old(w).wf(),
                    w.wf(),
                    w.n == old(w).n,
                    item < w.n,
                    user < w.n,
                    is_item_used == (k > 0),
                    atoms@ == old(w).damage_on_use@[item as int]->Some_0.dmg_atoms@,
                    forall|j: int| 0 <= j < tseq.len() ==> (#[trigger] tseq[j]) < w.n,
                    *w == (World { damage_queue: w.damage_queue, log: w.log, ..*old(w) }),
                    forall|t: int|
                        0 <= t < w.n ==> DamageQueue::pending(w.damage_queue@, t)
                            == DamageQueue::pending(old(w).damage_queue@, t) + use_adds(
                            tseq,
                            atoms@,
                            t,
                            k as int,
                        ),
                    old(w).log@.is_prefix_of(w.log@),
                decreases tlen - k,
            {
                let mob = targets[k];
                let ghost dq_k = w.damage_queue@;
                let mut a: usize = 0;
                proof {
                    assert(atoms@.take(0) =~= Seq::<DamageAtom>::empty());
                    assert forall|t: int|
                        0 <= t < w.n implies DamageQueue::pending(w.damage_queue@, t)
                        == DamageQueue::pending(dq_k, t) + (if t == mob {
                        atoms@.take(0)
                    } else {
                        Seq::<DamageAtom>::empty()
                    }) by {
                        assert(DamageQueue::pending(dq_k, t) + Seq::<DamageAtom>::empty()
                            =~= DamageQueue::pending(dq_k, t));
                    }
                }
                while a < alen
                    invariant
                        a <= alen,
                        alen == atoms@.len(),
                        old(w).wf(),
                        w.wf(),
                        w.n == old(w).n,
                        mob < w.n,
                        item < w.n,
                        user < w.n,
                        *w == (World { damage_queue: w.damage_queue, log: w.log, ..*old(w) }),
                        forall|t: int|
                            0 <= t < w.n ==> DamageQueue::pending(w.damage_queue@, t)
                                == DamageQueue::pending(dq_k, t) + (if t == mob {
                                atoms@.take(a as int)
                            } else {
                                Seq::<DamageAtom>::empty()
                            }),
                        forall|t: int|
                            0 <= t < w.n && t != mob ==> (#[trigger] w.damage_queue@[t])
                                == dq_k[t],
                        old(w).log@.is_prefix_of(w.log@),
                    decreases alen - a,
                {
                    let ghost dq0 = w.damage_queue@;
                    DamageQueue::queue_damage(&mut w.damage_queue, mob, atoms[a]);
                    a = a + 1;
                    proof {
                        assert(DamageQueue::pending(w.damage_queue@, mob as int)
                            =~= DamageQueue::pending(dq_k, mob as int) + atoms@.take(a as int)) by {
                            assert(DamageQueue::pending(w.damage_queue@, mob as int)
                                == DamageQueue::pending(dq0, mob as int).push(atoms@[a - 1]));
                            assert(atoms@.take(a as int) =~= atoms@.take(a - 1).push(
                                atoms@[a - 1],
                            ));
                            assert(DamageQueue::pending(dq_k, mob as int) + atoms@.take(a - 1).push(
                                atoms@[a - 1],
                            ) =~= (DamageQueue::pending(dq_k, mob as int) + atoms@.take(a - 1)).push(
                                atoms@[a - 1],
                            ));
                        }
                        assert forall|t: int|
                            0 <= t < w.n && t != mob implies (#[trigger] w.damage_queue@[t])
                            == dq_k[t] by {
                            assert(w.damage_queue@[t] == dq0[t]);
                        }
                    }
                }
                if user == w.player_entity {
                    if w.name[mob].is_some() && w.name[item].is_some() {
                        let mob_name = match &w.name[mob] {
                            Some(nm) => nm.name.clone(),
                            None => String::new(),
                        };
                        let mut line = String::from_str("Used ");
                        let item_name = match &w.name[item] {
                            Some(nm) => nm.name.clone(),
                            None => String::new(),
                        };
                        line.append(item_name.as_str());
                        line.append(" on ");
                        line.append(mob_name.as_str());
                        line.append(".");
                        let ghost log0 = w.log@;
                        gamelog::push_line(&mut w.log, line);
                        proof {
                            lemma_prefix_trans(old(w).log@, log0, w.log@);
                        }
                    }
                }
                is_item_used = true;
                k = k + 1;
                proof {
                    assert(atoms@.take(alen as int) =~= atoms@);
                    assert forall|t: int|
                        0 <= t < w.n implies DamageQueue::pending(w.damage_queue@, t)
                        == DamageQueue::pending(old(w).damage_queue@, t) + use_adds(
                        tseq,
                        atoms@,
                        t,
                        k as int,
                    ) by {
                        assert(tseq[k - 1] == mob);
                        if t == mob {
                            assert(use_adds(tseq, atoms@, t, k as int) == use_adds(
                                tseq,
                                atoms@,
                                t,
                                k - 1,
                            ) + atoms@);
                            assert(DamageQueue::pending(old(w).damage_queue@, t) + (use_adds(
                                tseq,
                                atoms@,
                                t,
                                k - 1,
                            ) + atoms@) =~= (DamageQueue::pending(old(w).damage_queue@, t)
                                + use_adds(tseq, atoms@, t, k - 1)) + atoms@);
                        } else {
                            assert(use_adds(tseq, atoms@, t, k as int) == use_adds(
                                tseq,
                                atoms@,
                                t,
                                k - 1,
                            ));
                            assert(w.damage_queue@[t] == dq_k[t]);
                            assert(DamageQueue::pending(w.damage_queue@, t)
                                == DamageQueue::pending(dq_k, t));
                        }
                    }
                }
            }
        } else {
            proof {
                assert forall|t: int|
                    0 <= t < w.n implies DamageQueue::pending(w.damage_queue@, t)
                    == DamageQueue::pending(old(w).damage_queue@, t) + use_adds(
                    tseq,
                    Seq::<DamageAtom>::empty(),
                    t,
                    tlen as int,
                ) by {
                    lemma_use_adds_empty(tseq, t, tlen as int);
                    assert(DamageQueue::pending(old(w).damage_queue@, t) + Seq::<
                        DamageAtom,
                    >::empty() =~= DamageQueue::pending(old(w).damage_queue@, t));
                }
            }
        }
        // healing item logic: each target takes the item's heal
        if w.heals[item].is_some() {
            let heals = w.heals[item].unwrap();
            is_item_used = tlen > 0;
            let mut k: usize = 0;
            while k < tlen
                invariant
                    k <= tlen,
                    tlen == tseq.len(),
                    tseq == targets@,
                    old(w).wf(),
                    w.wf(),
                    w.n == old(w).n,
                    heals == old(w).heals@[item as int]->Some_0,
                    old(w).heals@[item as int] is Some,
                    item < w.n,
                    forall|j: int| 0 <= j < tseq.len() ==> (#[trigger] tseq[j]) < w.n,
                    *w == (World {
                        healing: w.healing,
                        damage_queue: w.damage_queue,
                        log: w.log,
                        ..*old(w)
                    }),
                    old(w).log@.is_prefix_of(w.log@),
                    forall|t: int|
                        0 <= t < w.n ==> DamageQueue::pending(w.damage_queue@, t)
                            == DamageQueue::pending(old(w).damage_queue@, t) + use_adds(
                            tseq,
                            spec_use_atoms(old(w), item as int),
                            t,
                            tlen as int,
                        ),
                    forall|t: int|
                        0 <= t < w.n && (exists|j: int|
                            0 <= j < k && (#[trigger] tseq[j]) == t) ==> w.healing@[t] == Some(
                            Healing { duration: heals.duration, amount: heals.amount },
                        ),
                    forall|t: int|
                        0 <= t < w.n && !(exists|j: int|
                            0 <= j < k && (#[trigger] tseq[j]) == t) ==> (
                        #[trigger] w.healing@[t]) == old(w).healing@[t],
                decreases tlen - k,
            {
                let t = targets[k];
                w.healing.set(t, Some(Healing { duration: heals.duration, amount: heals.amount }));
                k = k + 1;
                proof {
                    assert(tseq[k - 1] == t);
                    assert forall|t2: int|
                        0 <= t2 < w.n && !(exists|j: int|
                            0 <= j < k && (#[trigger] tseq[j]) == t2) implies (
                    #[trigger] w.healing@[t2]) == old(w).healing@[t2] by {
                        assert(t2 != t);
                        assert(!(exists|j: int| 0 <= j < k - 1 && (#[trigger] tseq[j]) == t2));
                    }
                }
            }
        }
        // confusion item logic: each target takes the item's confusion
        if w.confusion[item].is_some() {
            let turns = w.confusion[item].unwrap();
            is_item_used = tlen > 0;
            let mut k: usize = 0;
            while k < tlen
                invariant
                    k <= tlen,
                    tlen == tseq.len(),
                    tseq == targets@,
                    old(w).wf(),
                    w.wf(),
                    w.n == old(w).n,
                    item < w.n,
                    old(w).confusion@[item as int] is Some,
                    turns == old(w).confusion@[item as int]->Some_0,
                    forall|j: int| 0 <= j < tseq.len() ==> (#[trigger] tseq[j]) < w.n,
                    *w == (World {
                        healing: w.healing,
                        confusion: w.confusion,
                        damage_queue: w.damage_queue,
                        log: w.log,
                        ..*old(w)
                    }),
                    old(w).log@.is_prefix_of(w.log@),
                    forall|t: int|
                        0 <= t < w.n ==> DamageQueue::pending(w.damage_queue@, t)
                            == DamageQueue::pending(old(w).damage_queue@, t) + use_adds(
                            tseq,
                            spec_use_atoms(old(w), item as int),
                            t,
                            tlen as int,
                        ),
                    forall|t: int|
                        0 <= t < w.n && old(w).heals@[item as int] is Some && in_targets(tseq, t)
                            ==> (#[trigger] w.healing@[t]) == Some(
                            Healing {
                                duration: old(w).heals@[item as int]->Some_0.duration,
                                amount: old(w).heals@[item as int]->Some_0.amount,
                            },
                        ),
                    forall|t: int|
                        0 <= t < w.n && !(old(w).heals@[item as int] is Some && in_targets(
                            tseq,
                            t,
                        )) ==> (#[trigger] w.healing@[t]) == old(w).healing@[t],
                    forall|t: int|
                        0 <= t < w.n && (exists|j: int|
                            0 <= j < k && (#[trigger] tseq[j]) == t) ==> w.confusion@[t] == Some(
                            turns,
                        ),
                    forall|t: int|
                        0 <= t < w.n && !(exists|j: int|
                            0 <= j < k && (#[trigger] tseq[j]) == t) ==> (
                        #[trigger] w.confusion@[t]) == old(w).confusion@[t],
                decreases tlen - k,
            {
                let t = targets[k];
                w.confusion.set(t, Some(turns));
                k = k + 1;
                proof {
                    assert(tseq[k - 1] == t);
                    assert forall|t2: int|
                        0 <= t2 < w.n && !(exists|j: int|
                            0 <= j < k && (#[trigger] tseq[j]) == t2) implies (
                    #[trigger] w.confusion@[t2]) == old(w).confusion@[t2] by {
                        assert(t2 != t);
                        assert(!(exists|j: int| 0 <= j < k - 1 && (#[trigger] tseq[j]) == t2));
                    }
                }
            }
        }
        // magic mapper logic: request the reveal
        if w.magic_mapper[item] {
            w.run_state = RunState::MagicMapReveal { row: 0 };
            is_item_used = true;
            let ghost log0 = w.log@;
            gamelog::push_line(&mut w.log, String::from_str("The Witness is within you."));
            proof {
                lemma_prefix_trans(old(w).log@, log0, w.log@);
            }
        }
        // delete consumed consumables
        proof {
            assert(is_item_used == spec_item_used(old(w), item as int, tlen as int));
        }
        if is_item_used && w.consumable[item] {
            let ghost td0 = w.to_delete@;
            w.to_delete.push(item);
            proof {
                lemma_prefix_push(old(w).to_delete@, td0, item as usize);
                assert forall|x: int|
                    World::queued(w.to_delete@, x) implies World::queued(old(w).to_delete@, x) || (
                x == item && old(w).consumable@[x]) by {
                    if x != item {
                        let j = choose|j: int|
                            0 <= j < w.to_delete@.len() && #[trigger] w.to_delete@[j] == x;
                        assert(td0[j] == x);
                    }
                }
            }
        }
    }

}

} // verus!
