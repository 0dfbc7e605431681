//! Heal-over-time resolution: each active heal ticks down; on a bleeding
//! entity the tick staunches the bleed instead of restoring hit points,
//! otherwise hit points rise by the heal amount, capped at the maximum.

use vstd::prelude::*;

use crate::components::{Healing, Stats};
use crate::gamelog;
use crate::world::World;

verus! {

/// Stats after one heal tick of `amount`: hit points rise, capped at the
/// maximum.
pub open spec fn healed_stats(stats: Stats, amount: i32) -> Stats {
    Stats {
        hp: if stats.hp + amount > stats.max_hp {
            stats.max_hp
        } else {
            (stats.hp + amount) as i32
        },
        ..stats
    }
}

/// An entity takes part in healing resolution when it carries an active
/// heal, stats and a name.
pub open spec fn resolves_healing(w: &World, e: int) -> bool {
    &&& w.healing@[e] is Some
    &&& w.healing@[e]->Some_0.duration > 0
    &&& w.stats@[e] is Some
    &&& w.name@[e] is Some
}

/// Ticks every active heal-over-time effect.
pub struct HealingSystem {}

impl HealingSystem {
    /// Tick every active heal: its duration drops by one; a bleeding owner
    /// stops bleeding instead of healing; any other owner gains the heal
    /// amount of hit points, capped at `max_hp`. Hit points never exceed
    /// `max_hp` afterwards, for any entity.
    pub fn run(w: &mut World)
        requires
            old(w).wf(),
        ensures
            final(w).wf(),
            // only healing, stats, bleeding and the log can change
            *final(w) == (World {
                healing: final(w).healing,
                stats: final(w).stats,
                bleeding: final(w).bleeding,
                log: final(w).log,
                ..*old(w)
            }),
            // each active heal ticks down
            forall|e: int|
                0 <= e < final(w).n && resolves_healing(old(w), e) ==> (
                #[trigger] final(w).healing@[e]) == Some(
                    Healing {
                        duration: (old(w).healing@[e]->Some_0.duration - 1) as i32,
                        amount: old(w).healing@[e]->Some_0.amount,
                    },
                ),
            forall|e: int|
                0 <= e < final(w).n && !resolves_healing(old(w), e) ==> (
                #[trigger] final(w).healing@[e]) == old(w).healing@[e],
            // a bleeding owner is staunched instead of healed
            forall|e: int|
                0 <= e < final(w).n && resolves_healing(old(w), e) && old(w).bleeding@[e] ==> (
                #[trigger] final(w).bleeding@[e]) == false,
            forall|e: int|
                0 <= e < final(w).n && resolves_healing(old(w), e) && old(w).bleeding@[e] ==> (
                #[trigger] final(w).stats@[e]) == old(w).stats@[e],
            // everyone else heals, capped at the maximum
            forall|e: int|
                0 <= e < final(w).n && resolves_healing(old(w), e) && !old(w).bleeding@[e] ==> (
                #[trigger] final(w).stats@[e]) == Some(
                    healed_stats(old(w).stats@[e]->Some_0, old(w).healing@[e]->Some_0.amount),
                ),
            forall|e: int|
                0 <= e < final(w).n && resolves_healing(old(w), e) && !old(w).bleeding@[e] ==> (
                #[trigger] final(w).bleeding@[e]) == old(w).bleeding@[e],
            forall|e: int|
                0 <= e < final(w).n && !resolves_healing(old(w), e) ==> (
                #[trigger] final(w).stats@[e]) == old(w).stats@[e],
            forall|e: int|
                0 <= e < final(w).n && !resolves_healing(old(w), e) ==> (
                #[trigger] final(w).bleeding@[e]) == old(w).bleeding@[e],
            // hit points never exceed the maximum after this system
            forall|e: int|
                0 <= e < final(w).n && (#[trigger] final(w).stats@[e]) is Some ==> final(w).stats@[e]->Some_0.hp <= final(w).stats@[e]->Some_0.max_hp,
            old(w).log@.is_prefix_of(final(w).log@),
    {
        let n = w.n;
        let mut e: usize = 0;
        while e < n
            invariant
                e <= n,
                w.wf(),
                n == w.n,
                *w == (World {
                    healing: w.healing,
                    stats: w.stats,
                    bleeding: w.bleeding,
                    log: w.log,
                    ..*old(w)
                }),
                old(w).log@.is_prefix_of(w.log@),
                forall|e2: int|
                    0 <= e2 < n && e2 < e && resolves_healing(old(w), e2) ==> (
                    #[trigger] w.healing@[e2]) == Some(
                        Healing {
                            duration: (old(w).healing@[e2]->Some_0.duration - 1) as i32,
                            amount: old(w).healing@[e2]->Some_0.amount,
                        },
                    ),
                forall|e2: int|
                    0 <= e2 < n && (e2 >= e || !resolves_healing(old(w), e2)) ==> (
                    #[trigger] w.healing@[e2]) == old(w).healing@[e2],
                forall|e2: int|
                    0 <= e2 < n && e2 < e && resolves_healing(old(w), e2) && old(w).bleeding@[e2]
                        ==> (#[trigger] w.bleeding@[e2]) == false,
                forall|e2: int|
                    0 <= e2 < n && e2 < e && resolves_healing(old(w), e2) && old(w).bleeding@[e2]
                        ==> (#[trigger] w.stats@[e2]) == old(w).stats@[e2],
                forall|e2: int|
                    0 <= e2 < n && e2 < e && resolves_healing(old(w), e2) && !old(w).bleeding@[e2]
                        ==> (#[trigger] w.stats@[e2]) == Some(
                        healed_stats(
                            old(w).stats@[e2]->Some_0,
                            old(w).healing@[e2]->Some_0.amount,
                        ),
                    ),
                forall|e2: int|
                    0 <= e2 < n && e2 < e && resolves_healing(old(w), e2) && !old(w).bleeding@[e2]
                        ==> (#[trigger] w.bleeding@[e2]) == old(w).bleeding@[e2],
                forall|e2: int|
                    0 <= e2 < n && (e2 >= e || !resolves_healing(old(w), e2)) ==> (
                    #[trigger] w.stats@[e2]) == old(w).stats@[e2],
                forall|e2: int|
                    0 <= e2 < n && (e2 >= e || !resolves_healing(old(w), e2)) ==> (
                    #[trigger] w.bleeding@[e2]) == old(w).bleeding@[e2],
            decreases n - e,
        {
            let involved = match &w.healing[e] {
                Some(h) => h.duration > 0,
                None => false,
            } && w.stats[e].is_some() && w.name[e].is_some();
            proof {
                assert(involved == resolves_healing(old(w), e as int));
                assert(w.bleeding@[e as int] == old(w).bleeding@[e as int]);
                assert(w.stats@[e as int] == old(w).stats@[e as int]);
            }
            if involved {
                let healing = w.healing[e].unwrap();
                let stats = w.stats[e].unwrap();
                let name = match &w.name[e] {
                    Some(nm) => nm.name.clone(),
                    None => String::new(),
                };
                w.healing.set(
                    e,
                    Some(Healing { duration: healing.duration - 1, amount: healing.amount }),
                );
                if w.bleeding[e] {
                    w.bleeding.set(e, false);
                    gamelog::log_name_suffix(&mut w.log, &name, " stopped bleeding.");
                } else {
                    let hp_sum: i64 = stats.hp as i64 + healing.amount as i64;
                    let new_hp: i32 = if hp_sum > stats.max_hp as i64 {
                        stats.max_hp
                    } else {
                        hp_sum as i32
                    };
                    w.stats.set(e, Some(Stats { hp: new_hp, ..stats }));
                    gamelog::log_name_suffix(&mut w.log, &name, " is healing.");
                }
            }
            e = e + 1;
        }
    }
}

} // verus!
