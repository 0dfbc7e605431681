//! Damage resolution: applies each entity's pending damage queue to its
//! stats (resistances first, then fatigue absorption, then hit points),
//! rolls for bleeding, and unconditionally drains every damage queue.

use vstd::prelude::*;

use crate::components::{
    clamp_i32, DamageAtom, DamageQueue, ParticleRequest, Resistances, Rgb, Stats,
};
use crate::gamelog;
use crate::rng;
use crate::world::World;
use crate::RunState;

verus! {

/// One atom after the matching resistance is subtracted (saturating in
/// `i32`); status tags are resistance-immune and pass through unchanged.
pub open spec fn post_resistance(atom: DamageAtom, res: Resistances) -> DamageAtom {
    match atom {
        DamageAtom::Bludgeon(v) => DamageAtom::Bludgeon(
            clamp_i32(v - res.bludgeon.spec_value()) as i32,
        ),
        DamageAtom::Pierce(v) => DamageAtom::Pierce(clamp_i32(v - res.pierce.spec_value()) as i32),
        DamageAtom::Slash(v) => DamageAtom::Slash(clamp_i32(v - res.slash.spec_value()) as i32),
        DamageAtom::Thermal(v) => DamageAtom::Thermal(
            clamp_i32(v - res.thermal.spec_value()) as i32,
        ),
        tag => tag,
    }
}

/// A whole queue after resistances; entities without a resistance component
/// take their queue raw.
pub open spec fn resisted_queue(q: Seq<DamageAtom>, res: Option<Resistances>) -> Seq<DamageAtom> {
    match res {
        Some(r) => q.map_values(|a: DamageAtom| post_resistance(a, r)),
        None => q,
    }
}

/// Folds a (post-resistance) queue into hit-point and fatigue-point loss:
/// numeric atoms always hit hp; each status tag drains 1 fatigue while any
/// fatigue is left, and spills onto hp once it is gone. Returns the pair
/// `(hp_loss, fp_loss)` given the victim's starting fatigue.
pub open spec fn dmg_fold(q: Seq<DamageAtom>, fp: int, hp_acc: int, fp_acc: int) -> (int, int)
    decreases q.len(),
{
    if q.len() == 0 {
        (hp_acc, fp_acc)
    } else {
        let a = q[0];
        if a.is_numeric() {
            dmg_fold(q.skip(1), fp, hp_acc + a.spec_value(), fp_acc)
        } else if fp - fp_acc > 0 {
            dmg_fold(q.skip(1), fp, hp_acc, fp_acc + 1)
        } else {
            dmg_fold(q.skip(1), fp, hp_acc + 1, fp_acc)
        }
    }
}

/// The stats of a victim after its queue `q` is resolved against optional
/// resistances `res`: each pool drops by its loss, floored at zero, and a
/// pool with no positive loss is untouched.
pub open spec fn damaged_stats(stats: Stats, q: Seq<DamageAtom>, res: Option<Resistances>) -> Stats {
    let rq = resisted_queue(q, res);
    let loss = dmg_fold(rq, stats.fp as int, 0, 0);
    let hp_dmg = loss.0;
    let fp_dmg = loss.1;
    Stats {
        hp: if hp_dmg > 0 {
            if stats.hp - hp_dmg > 0 {
                (stats.hp - hp_dmg) as i32
            } else {
                0
            }
        } else {
            stats.hp
        },
        fp: if fp_dmg > 0 {
            if stats.fp - fp_dmg > 0 {
                (stats.fp - fp_dmg) as i32
            } else {
                0
            }
        } else {
            stats.fp
        },
        ..stats
    }
}

/// Whether a (post-resistance) atom causes bleeding against this roll:
/// slashes bleed most easily, pierces need twice the amount, bludgeons four
/// times, and status tags never bleed.
pub open spec fn spec_bleeds(dmg: DamageAtom, roll: i32) -> bool {
    match dmg {
        DamageAtom::Slash(d) => d > roll,
        DamageAtom::Pierce(d) => d > 2 * roll,
        DamageAtom::Bludgeon(d) => d > 4 * roll,
        _ => false,
    }
}

/// Compare a post-resistance atom against a bleed roll.
pub fn bleed_check(dmg: &DamageAtom, roll: i32) -> (r: bool)
    ensures
        r == spec_bleeds(*dmg, roll),
{
    match *dmg {
        DamageAtom::Slash(d) => d as i64 > roll as i64,
        DamageAtom::Pierce(d) => d as i64 > 2 * (roll as i64),
        DamageAtom::Bludgeon(d) => d as i64 > 4 * (roll as i64),
        _ => false,
    }
}

/// Roll 1-9 and test whether `dmg` causes bleeding. The draw is random:
/// all that is promised is that the outcome matches `spec_bleeds` for some
/// roll in range, so a status tag never bleeds.
pub fn bleed_roll(dmg: &DamageAtom) -> (r: bool)
    ensures
        exists|roll: i32| 1 <= roll <= 9 && r == spec_bleeds(*dmg, roll),
{
    let roll: i32 = rng::range_1_to(9);
    bleed_check(dmg, roll)
}

/// An entity takes part in damage resolution when it carries stats, a
/// pending queue, a name and a position.
pub open spec fn resolves_damage(w: &World, e: int) -> bool {
    &&& w.stats@[e] is Some
    &&& w.damage_queue@[e] is Some
    &&& w.name@[e] is Some
    &&& w.position@[e] is Some
}

/// Drains every damage queue exactly once per tick.
pub struct DamageSystem {}

impl DamageSystem {
    /// Apply the resistances of `res` to every atom of `q`.
    fn apply_resistances(q: &Vec<DamageAtom>, res: &Resistances) -> (r: Vec<DamageAtom>)
        ensures
            r@ == resisted_queue(q@, Some(*res)),
    {
        let mut r: Vec<DamageAtom> = Vec::new();
        let len = q.len();
        let mut i: usize = 0;
        while i < len
            invariant
                i <= len,
                len == q@.len(),
                r@.len() == i,
                forall|j: int| 0 <= j < i ==> r@[j] == post_resistance(q@[j], *res),
            decreases len - i,
        {
            let atom = match q[i] {
                DamageAtom::Bludgeon(v) => DamageAtom::Bludgeon(
                    crate::components::sat_sub(v, res.bludgeon.value()),
                ),
                DamageAtom::Pierce(v) => DamageAtom::Pierce(
                    crate::components::sat_sub(v, res.pierce.value()),
                ),
                DamageAtom::Slash(v) => DamageAtom::Slash(
                    crate::components::sat_sub(v, res.slash.value()),
                ),
                DamageAtom::Thermal(v) => DamageAtom::Thermal(
                    crate::components::sat_sub(v, res.thermal.value()),
                ),
                tag => tag,
            };
            r.push(atom);
            i = i + 1;
        }
        proof {
            assert(r@ =~= resisted_queue(q@, Some(*res)));
        }
        r
    }

    /// Fold a post-resistance queue into `(hp_loss, fp_loss)` for a victim
    /// with `fp` fatigue left.
    fn sum_losses(rq: &Vec<DamageAtom>, fp: i32) -> (loss: (i128, i128))
        ensures
            (loss.0 as int, loss.1 as int) == dmg_fold(rq@, fp as int, 0, 0),
    {
        let len = rq.len();
        let mut hp_acc: i128 = 0;
        let mut fp_acc: i128 = 0;
        let mut i: usize = 0;
        proof {
            assert(rq@.skip(0) =~= rq@);
        }
        while i < len
            invariant
                i <= len,
                len == rq@.len(),
                -(i as int) * 0x8000_0000 <= hp_acc <= (i as int) * 0x8000_0000,
                0 <= fp_acc <= i as int,
                dmg_fold(rq@, fp as int, 0, 0) == dmg_fold(
                    rq@.skip(i as int),
                    fp as int,
                    hp_acc as int,
                    fp_acc as int,
                ),
            decreases len - i,
        {
            let ghost pre = rq@.skip(i as int);
            let ghost h0 = hp_acc;
            let ghost f0 = fp_acc;
            proof {
                assert(pre.len() == len - i);
                assert(pre[0] == rq@[i as int]);
                assert(pre.skip(1) =~= rq@.skip(i as int + 1));
            }
            let atom = rq[i];
            let numeric = match atom {
                DamageAtom::Bludgeon(_) | DamageAtom::Pierce(_) | DamageAtom::Slash(_)
                    | DamageAtom::Thermal(_) => true,
                _ => false,
            };
            if numeric {
                hp_acc = hp_acc + atom.value() as i128;
            } else if (fp as i128) - fp_acc > 0 {
                fp_acc = fp_acc + 1;
            } else {
                hp_acc = hp_acc + 1;
            }
            i = i + 1;
            proof {
                assert(dmg_fold(pre, fp as int, h0 as int, f0 as int) == dmg_fold(
                    pre.skip(1),
                    fp as int,
                    hp_acc as int,
                    fp_acc as int,
                ));
            }
        }
        proof {
            assert(rq@.skip(len as int) =~= Seq::<DamageAtom>::empty());
        }
        (hp_acc, fp_acc)
    }

    /// Resolve every pending damage queue, then clear them all.
    ///
    /// For each entity with stats, a queue, a name and a position, the new
    /// stats are exactly `damaged_stats` of the old: resistances subtracted
    /// atom by atom, fatigue absorbing status tags first, both pools
    /// floored at zero. Every damage queue in the world is empty
    /// afterwards, whether or not its owner was resolved. Bleeding is never
    /// cured here, and only resolved entities can start bleeding (by a
    /// random roll). With no queue pending anywhere, the world is unchanged.
    pub fn run(w: &mut World)
        requires
            old(w).wf(),
        ensures
            final(w).wf(),
            // the queues are drained, for every entity
            forall|e: int| 0 <= e < final(w).n ==> (#[trigger] final(w).damage_queue@[e]) is None,
            // resolved entities take exactly the folded damage
            forall|e: int|
                0 <= e < final(w).n && resolves_damage(old(w), e) ==> (#[trigger] final(w).stats@[e]) == Some(
                    damaged_stats(
                        old(w).stats@[e]->Some_0,
                        old(w).damage_queue@[e]->Some_0.queue@,
                        match old(w).resistances@[e] {
                            Some(r) => Some(r),
                            None => None,
                        },
                    ),
                ),
            // everyone else keeps their stats
            forall|e: int|
                0 <= e < final(w).n && !resolves_damage(old(w), e) ==> (#[trigger] final(w).stats@[e])
                    == old(w).stats@[e],
            // hit points never drop below zero
            forall|e: int|
                0 <= e < final(w).n && (#[trigger] final(w).stats@[e]) is Some ==> final(w).stats@[e]->Some_0.hp >= 0,
            // bleeding is monotone, and starts only on resolved entities
            forall|e: int|
                0 <= e < final(w).n && old(w).bleeding@[e] ==> #[trigger] final(w).bleeding@[e],
            forall|e: int|
                0 <= e < final(w).n && (#[trigger] final(w).bleeding@[e]) ==> old(w).bleeding@[e]
                    || resolves_damage(old(w), e),
            // nothing else moves
            final(w).n == old(w).n,
            final(w).run_state == old(w).run_state,
            final(w).player_entity == old(w).player_entity,
            final(w).player_pos == old(w).player_pos,
            final(w).map == old(w).map,
            final(w).to_delete@ == old(w).to_delete@,
            final(w).alive@ == old(w).alive@,
            final(w).just_moved@ == old(w).just_moved@,
            final(w).player@ == old(w).player@,
            final(w).hostile@ == old(w).hostile@,
            final(w).position@ == old(w).position@,
            final(w).name@ == old(w).name@,
            final(w).resistances@ == old(w).resistances@,
            final(w).healing@ == old(w).healing@,
            final(w).hunger@ == old(w).hunger@,
            final(w).equipped@ == old(w).equipped@,
            final(w).in_backpack@ == old(w).in_backpack@,
            final(w).basic_attack@ == old(w).basic_attack@,
            final(w).melee_intent@ == old(w).melee_intent@,
            final(w).pickup_intent@ == old(w).pickup_intent@,
            final(w).use_item_intent@ == old(w).use_item_intent@,
            final(w).throw_intent@ == old(w).throw_intent@,
            final(w).drop_item_intent@ == old(w).drop_item_intent@,
            final(w).equip_intent@ == old(w).equip_intent@,
            final(w).unequip_intent@ == old(w).unequip_intent@,
            old(w).log@.is_prefix_of(final(w).log@),
            old(w).particles@.is_prefix_of(final(w).particles@),
            // an idle system changes nothing
            (forall|e: int| 0 <= e < old(w).n ==> old(w).damage_queue@[e] is None)
                ==> (final(w).log@ == old(w).log@ && final(w).particles@ == old(w).particles@
                && final(w).bleeding@ == old(w).bleeding@ && final(w).stats@ == old(w).stats@),
    {
        let n = w.n;
        let mut e: usize = 0;
        let ghost w_entry = *w;
        while e < n
            invariant
                e <= n,
                w.wf(),
                n == w.n,
                n == old(w).n,
                w.run_state == old(w).run_state,
                w.player_entity == old(w).player_entity,
                w.player_pos == old(w).player_pos,
                w.map == old(w).map,
                w.to_delete@ == old(w).to_delete@,
                w.alive@ == old(w).alive@,
                w.just_moved@ == old(w).just_moved@,
                w.player@ == old(w).player@,
                w.hostile@ == old(w).hostile@,
                w.position@ == old(w).position@,
                w.name@ == old(w).name@,
                w.resistances@ == old(w).resistances@,
                w.healing@ == old(w).healing@,
                w.hunger@ == old(w).hunger@,
                w.equipped@ == old(w).equipped@,
                w.in_backpack@ == old(w).in_backpack@,
                w.basic_attack@ == old(w).basic_attack@,
                w.melee_intent@ == old(w).melee_intent@,
                w.pickup_intent@ == old(w).pickup_intent@,
                w.use_item_intent@ == old(w).use_item_intent@,
                w.throw_intent@ == old(w).throw_intent@,
                w.drop_item_intent@ == old(w).drop_item_intent@,
                w.equip_intent@ == old(w).equip_intent@,
                w.unequip_intent@ == old(w).unequip_intent@,
                w.damage_queue@ == old(w).damage_queue@,
                old(w).log@.is_prefix_of(w.log@),
                old(w).particles@.is_prefix_of(w.particles@),
                forall|e2: int|
                    0 <= e2 < n && e2 < e && resolves_damage(old(w), e2) ==> (#[trigger] w.stats@[e2]) == Some(
                        damaged_stats(
                            old(w).stats@[e2]->Some_0,
                            old(w).damage_queue@[e2]->Some_0.queue@,
                            match old(w).resistances@[e2] {
                                Some(r) => Some(r),
                                None => None,
                            },
                        ),
                    ),
                forall|e2: int|
                    0 <= e2 < n && (e2 >= e || !resolves_damage(old(w), e2)) ==> (
                    #[trigger] w.stats@[e2]) == old(w).stats@[e2],
                forall|e2: int| 0 <= e2 < n && old(w).bleeding@[e2] ==> #[trigger] w.bleeding@[e2],
                forall|e2: int|
                    0 <= e2 < n && (#[trigger] w.bleeding@[e2]) ==> old(w).bleeding@[e2] || (e2 < e
                        && resolves_damage(old(w), e2)),
                (forall|e2: int| 0 <= e2 < old(w).n ==> old(w).damage_queue@[e2] is None) ==> (
                w.log@ == old(w).log@ && w.particles@ == old(w).particles@ && w.bleeding@ == old(
                    w,
                ).bleeding@ && w.stats@ == old(w).stats@),
            decreases n - e,
        {
            let involved = w.stats[e].is_some() && w.damage_queue[e].is_some()
                && w.name[e].is_some() && w.position[e].is_some();
            proof {
                assert(involved == resolves_damage(old(w), e as int));
            }
            if involved {
                let stats = w.stats[e].unwrap();
                let queue = match &w.damage_queue[e] {
                    Some(dq) => dq.queue.clone(),
                    None => Vec::new(),
                };
                proof {
                    assert(queue@ == old(w).damage_queue@[e as int]->Some_0.queue@);
                }
                // apply resistances, if the entity has any
                let rq = match &w.resistances[e] {
                    Some(res) => Self::apply_resistances(&queue, res),
                    None => queue,
                };
                // check for bleeding
                let was_bleeding = w.bleeding[e];
                let mut start_bleeding = false;
                let rq_len = rq.len();
                let mut i: usize = 0;
                while i < rq_len
                    invariant
                        rq_len == rq@.len(),
                    decreases rq_len - i,
                {
                    if !was_bleeding && bleed_roll(&rq[i]) {
                        start_bleeding = true;
                    }
                    i = i + 1;
                }
                // fold the queue into hp and fp loss
                let (hp_dmg, fp_dmg) = Self::sum_losses(&rq, stats.fp);

                let mut new_stats = stats;
                if hp_dmg > 0 {
                    let diff: i128 = stats.hp as i128 - hp_dmg;
                    new_stats.hp = if diff > 0 {
                        diff as i32
                    } else {
                        0
                    };
                    // damage flash particle and log line
                    let pos = w.position[e].unwrap();
                    w.particles.push(
                        ParticleRequest {
                            x: pos.x,
                            y: pos.y,
                            fg: Rgb { r: 255, g: 165, b: 0 },
                            bg: Rgb { r: 0, g: 0, b: 0 },
                            glyph: 19,
                            lifetime_ms: 200,
                        },
                    );
                    let name = match &w.name[e] {
                        Some(nm) => nm.name.clone(),
                        None => String::new(),
                    };
                    gamelog::log_damage_suffered(&mut w.log, &name, hp_dmg as i64);
                }
                if fp_dmg > 0 {
                    let diff: i128 = stats.fp as i128 - fp_dmg;
                    new_stats.fp = if diff > 0 {
                        diff as i32
                    } else {
                        0
                    };
                    let name = match &w.name[e] {
                        Some(nm) => nm.name.clone(),
                        None => String::new(),
                    };
                    gamelog::log_fatigue_suffered(&mut w.log, &name, fp_dmg as i64);
                }
                w.stats.set(e, Some(new_stats));
                if start_bleeding {
                    w.bleeding.set(e, true);
                    let name = match &w.name[e] {
                        Some(nm) => nm.name.clone(),
                        None => String::new(),
                    };
                    gamelog::log_bleeding(&mut w.log, &name);
                }
                proof {
                    assert(w.stats@[e as int] == Some(
                        damaged_stats(
                            old(w).stats@[e as int]->Some_0,
                            old(w).damage_queue@[e as int]->Some_0.queue@,
                            match old(w).resistances@[e as int] {
                                Some(r) => Some(r),
                                None => None,
                            },
                        ),
                    ));
                }
            }
            e = e + 1;
        }
        // unconditionally clear the whole damage-queue storage
        let mut e2: usize = 0;
        let ghost mid = *w;
        while e2 < n
            invariant
                e2 <= n,
                w.wf(),
                n == w.n,
                *w == (World { damage_queue: w.damage_queue, ..mid }),
                w.damage_queue@.len() == n,
                forall|k: int| 0 <= k < e2 ==> w.damage_queue@[k] is None,
                forall|k: int| e2 <= k < n ==> w.damage_queue@[k] == mid.damage_queue@[k],
            decreases n - e2,
        {
            w.damage_queue.set(e2, None);
            e2 = e2 + 1;
        }
    }
}


/// The entity's hit points have fallen below 1.
pub open spec fn is_dead(w: &World, e: int) -> bool {
    &&& w.stats@[e] is Some
    &&& w.stats@[e]->Some_0.hp < 1
}

/// The number of dead, named non-players below `upto`: one death notice
/// lands in the log for each.
pub open spec fn death_notices(w: &World, upto: int) -> int
    decreases upto,
{
    if upto <= 0 {
        0
    } else {
        death_notices(w, upto - 1) + (if is_dead(w, upto - 1) && !w.player@[upto - 1]
            && w.name@[upto - 1] is Some {
            1int
        } else {
            0int
        })
    }
}

/// Scan for entities whose hit points fell below 1. A dead player flips
/// the run state to game over and is never deleted; every other dead
/// entity is queued for deletion, applied at the next world maintenance.
pub fn delete_the_dead(w: &mut World)
    requires
        old(w).wf(),
    ensures
        final(w).wf(),
        *final(w) == (World {
            run_state: final(w).run_state,
            to_delete: final(w).to_delete,
            log: final(w).log,
            ..*old(w)
        }),
        // a dead player means game over, and nothing else moves the state
        (exists|e: int| 0 <= e < old(w).n && is_dead(old(w), e) && old(w).player@[e]) ==> final(w).run_state == RunState::GameOver,
        !(exists|e: int| 0 <= e < old(w).n && is_dead(old(w), e) && old(w).player@[e]) ==> final(w).run_state == old(w).run_state,
        // every dead non-player is queued for deletion
        forall|e: int|
            0 <= e < old(w).n && is_dead(old(w), e) && !old(w).player@[e] ==> World::queued(
                final(w).to_delete@,
                e,
            ),
        // and nothing else is newly queued: a dead player stays
        forall|e: int|
            World::queued(final(w).to_delete@, e) ==> World::queued(old(w).to_delete@, e) || (0
                <= e < old(w).n && is_dead(old(w), e) && !old(w).player@[e]),
        old(w).log@.is_prefix_of(final(w).log@),
        // one death notice per dead, named non-player
        final(w).log@.len() == old(w).log@.len() + death_notices(old(w), old(w).n as int),
{
    let n = w.n;
    let mut e: usize = 0;
    let mut player_died = false;
    let ghost dels0 = w.to_delete@;
    while e < n
        invariant
            e <= n,
            w.wf(),
            n == w.n,
            *w == (World { to_delete: w.to_delete, log: w.log, ..*old(w) }),
            old(w).log@.is_prefix_of(w.log@),
            w.log@.len() == old(w).log@.len() + death_notices(old(w), e as int),
            dels0 == old(w).to_delete@,
            dels0.is_prefix_of(w.to_delete@),
            player_died == (exists|e2: int|
                0 <= e2 < e && is_dead(old(w), e2) && old(w).player@[e2]),
            forall|e2: int|
                0 <= e2 < e && is_dead(old(w), e2) && !old(w).player@[e2] ==> World::queued(
                    w.to_delete@,
                    e2,
                ),
            forall|e2: int|
                World::queued(w.to_delete@, e2) ==> World::queued(dels0, e2) || (0 <= e2 < e
                    && is_dead(old(w), e2) && !old(w).player@[e2]),
        decreases n - e,
    {
        let ghost td0 = w.to_delete@;
        let dead_here = match &w.stats[e] {
            Some(stats) => stats.hp < 1,
            None => false,
        };
        proof {
            assert(dead_here == is_dead(old(w), e as int));
        }
        if dead_here {
            if w.player[e] {
                player_died = true;
            } else {
                let ghost before = w.to_delete@;
                proof {
                    assert(before == td0);
                }
                w.to_delete.push(e);
                proof {
                    assert(w.to_delete@[before.len() as int] == e);
                    assert(dels0.is_prefix_of(w.to_delete@)) by {
                        assert(w.to_delete@.subrange(0, dels0.len() as int) =~= dels0);
                    }
                    assert forall|e2: int|
                        World::queued(w.to_delete@, e2) implies World::queued(dels0, e2) || (0
                        <= e2 < e + 1 && is_dead(old(w), e2) && !old(w).player@[e2]) by {
                        if e2 != e {
                            let j = choose|j: int|
                                0 <= j < w.to_delete@.len() && #[trigger] w.to_delete@[j] == e2;
                            assert(before[j] == e2);
                            assert(World::queued(before, e2));
                        }
                    }
                }
                if let Some(nm) = &w.name[e] {
                    let name = nm.name.clone();
                    gamelog::log_name_suffix(&mut w.log, &name, " has died.");
                }
            }
        }
        proof {
            assert forall|e2: int|
                0 <= e2 < e + 1 && is_dead(old(w), e2) && !old(w).player@[e2] implies World::queued(
                w.to_delete@,
                e2,
            ) by {
                if e2 < e {
                    assert(World::queued(td0, e2));
                    let j = choose|j: int| 0 <= j < td0.len() && #[trigger] td0[j] == e2;
                    assert(w.to_delete@[j] == e2);
                } else {
                    assert(w.to_delete@[td0.len() as int] == e);
                }
            }
        }
        e = e + 1;
    }
    if player_died {
        w.run_state = RunState::GameOver;
    }
}

} // verus!
