//! Melee resolution: every living attacker with a melee intent queues its
//! current basic attack onto its living target, then the whole intent
//! storage is cleared.

use vstd::prelude::*;

use crate::components::{DamageAtom, DamageQueue};
use crate::world::World;

verus! {

/// Entity `a` lands a melee hit on `t` this tick: it wants to, it can
/// strike, and both sides are alive.
pub open spec fn melee_attacks(w: &World, a: int, t: int) -> bool {
    &&& w.melee_intent@[a] is Some
    &&& w.melee_intent@[a]->Some_0.target == t
    &&& w.basic_attack@[a] is Some
    &&& w.stats@[a] is Some
    &&& w.stats@[a]->Some_0.hp > 0
    &&& w.stats@[t] is Some
    &&& w.stats@[t]->Some_0.hp > 0
}

/// The damage atoms queued onto `t` by the attackers below `upto`, in
/// ascending attacker order.
pub open spec fn melee_adds(w: &World, t: int, upto: int) -> Seq<DamageAtom>
    decreases upto,
{
    if upto <= 0 {
        Seq::empty()
    } else {
        let rest = melee_adds(w, t, upto - 1);
        if melee_attacks(w, upto - 1, t) {
            rest.push(w.basic_attack@[upto - 1]->Some_0.current)
        } else {
            rest
        }
    }
}

/// With no melee intent pending anywhere, melee resolution adds nothing to
/// any damage queue: a pipeline run right after the intents drained
/// duplicates no melee effect.
pub proof fn lemma_no_intent_no_melee_damage(w: &World, t: int, upto: int)
    requires
        forall|e: int| 0 <= e < w.n ==> (#[trigger] w.melee_intent@[e]) is None,
        0 <= upto <= w.n,
    ensures
        melee_adds(w, t, upto) == Seq::<DamageAtom>::empty(),
    decreases upto,
{
    if upto > 0 {
        lemma_no_intent_no_melee_damage(w, t, upto - 1);
        assert(!melee_attacks(w, upto - 1, t));
    }
}

/// Resolves melee intents into queued damage.
pub struct MeleeCombatSystem {}

impl MeleeCombatSystem {
    /// Queue, for every living attacker with a melee intent and a basic
    /// attack, the attacker's current attack atom onto its living target,
    /// in attacker order; then clear the whole melee-intent storage.
    pub fn run(w: &mut World)
        requires
            old(w).wf(),
        ensures
            final(w).wf(),
            *final(w) == (World {
                damage_queue: final(w).damage_queue,
                melee_intent: final(w).melee_intent,
                ..*old(w)
            }),
            forall|t: int|
                0 <= t < final(w).n ==> DamageQueue::pending(final(w).damage_queue@, t)
                    == DamageQueue::pending(old(w).damage_queue@, t) + melee_adds(
                    old(w),
                    t,
                    old(w).n as int,
                ),
            forall|e: int| 0 <= e < final(w).n ==> (#[trigger] final(w).melee_intent@[e]) is None,
    {
        let n = w.n;
        let mut e: usize = 0;
        proof {
            assert forall|t: int| 0 <= t < n implies DamageQueue::pending(w.damage_queue@, t)
                == DamageQueue::pending(old(w).damage_queue@, t) + melee_adds(old(w), t, 0) by {
                assert(melee_adds(old(w), t, 0) =~= Seq::<DamageAtom>::empty());
                assert(DamageQueue::pending(old(w).damage_queue@, t) + Seq::<
                    DamageAtom,
                >::empty() =~= DamageQueue::pending(old(w).damage_queue@, t));
            }
        }
        while e < n
            invariant
                e <= n,
                w.wf(),
                n == w.n,
                *w == (World { damage_queue: w.damage_queue, ..*old(w) }),
                forall|t: int|
                    0 <= t < n ==> DamageQueue::pending(w.damage_queue@, t) == DamageQueue::pending(
                        old(w).damage_queue@,
                        t,
                    ) + melee_adds(old(w), t, e as int),
            decreases n - e,
        {
            let strikes = w.melee_intent[e].is_some() && w.basic_attack[e].is_some() && (match &w
                .stats[e] {
                Some(s) => s.hp > 0,
                None => false,
            });
            if strikes {
                let target = w.melee_intent[e].unwrap().target;
                let target_alive = match &w.stats[target] {
                    Some(s) => s.hp > 0,
                    None => false,
                };
                if target_alive {
                    let atk = w.basic_attack[e].unwrap().current;
                    proof {
                        assert(melee_attacks(old(w), e as int, target as int));
                        assert(atk == old(w).basic_attack@[e as int]->Some_0.current);
                    }
                    let ghost before = w.damage_queue@;
                    DamageQueue::queue_damage(&mut w.damage_queue, target, atk);
                    proof {
                        assert forall|t: int|
                            0 <= t < n implies DamageQueue::pending(w.damage_queue@, t)
                            == DamageQueue::pending(old(w).damage_queue@, t) + melee_adds(
                            old(w),
                            t,
                            e as int + 1,
                        ) by {
                            if t == target {
                                assert(melee_adds(old(w), t, e as int + 1) == melee_adds(
                                    old(w),
                                    t,
                                    e as int,
                                ).push(atk));
                                assert(DamageQueue::pending(w.damage_queue@, t)
                                    == DamageQueue::pending(before, t).push(atk));
                                assert(DamageQueue::pending(old(w).damage_queue@, t) + melee_adds(
                                    old(w),
                                    t,
                                    e as int,
                                ).push(atk) =~= (DamageQueue::pending(old(w).damage_queue@, t)
                                    + melee_adds(old(w), t, e as int)).push(atk));
                                assert(DamageQueue::pending(w.damage_queue@, t)
                                    =~= DamageQueue::pending(old(w).damage_queue@, t) + melee_adds(
                                    old(w),
                                    t,
                                    e as int + 1,
                                ));
                            } else {
                                assert(w.damage_queue@[t] == before[t]);
                                assert(DamageQueue::pending(w.damage_queue@, t)
                                    == DamageQueue::pending(before, t));
                                assert(!melee_attacks(old(w), e as int, t));
                                assert(melee_adds(old(w), t, e as int + 1) == melee_adds(
                                    old(w),
                                    t,
                                    e as int,
                                ));
                            }
                        }
                    }
                } else {
                    proof {
                        assert forall|t: int|
                            0 <= t < n implies melee_adds(old(w), t, e as int + 1) == melee_adds(
                            old(w),
                            t,
                            e as int,
                        ) by {
                            assert(!melee_attacks(old(w), e as int, t));
                        }
                    }
                }
            } else {
                proof {
                    assert forall|t: int|
                        0 <= t < n implies melee_adds(old(w), t, e as int + 1) == melee_adds(
                        old(w),
                        t,
                        e as int,
                    ) by {
                        assert(!melee_attacks(old(w), e as int, t));
                    }
                }
            }
            e = e + 1;
        }
        // batch-clear the intent storage, whatever was processed
        let ghost mid = *w;
        let mut k: usize = 0;
        while k < n
            invariant
                k <= n,
                w.wf(),
                n == w.n,
                *w == (World { melee_intent: w.melee_intent, ..mid }),
                forall|e2: int| 0 <= e2 < k ==> (#[trigger] w.melee_intent@[e2]) is None,
            decreases n - k,
        {
            w.melee_intent.set(k, None);
            k = k + 1;
        }
    }
}

} // verus!
