//! Entry triggers: an entity that just moved onto a trap's tile springs
//! it, taking the trap's damage; the trap is revealed, and a single-use
//! trap disarms itself.

use vstd::prelude::*;

use crate::components::{lemma_prefix_push, lemma_prefix_refl, lemma_prefix_trans, DamageAtom, DamageQueue};
use crate::gamelog;
use crate::world::World;

verus! {

/// What trigger resolution may change, relative to the pre-system world:
/// hidden flags only fall, entry triggers only disappear, damage only
/// accrues, and with nobody freshly moved nothing changes.
pub open spec fn trigger_inv(o: &World, w: &World) -> bool {
    &&& *w == (World {
        just_moved: w.just_moved,
        hidden: w.hidden,
        damage_queue: w.damage_queue,
        entry_trigger: w.entry_trigger,
        log: w.log,
        ..*o
    })
    &&& w.just_moved@ == o.just_moved@
    &&& forall|x: int| 0 <= x < o.n && (#[trigger] w.hidden@[x]) ==> o.hidden@[x]
    &&& forall|x: int|
        0 <= x < o.n && (#[trigger] w.entry_trigger@[x]) != o.entry_trigger@[x]
            ==> w.entry_trigger@[x] is None
    &&& forall|t: int|
        0 <= t < o.n ==> DamageQueue::pending(o.damage_queue@, t).is_prefix_of(
            DamageQueue::pending(w.damage_queue@, t),
        )
    &&& o.log@.is_prefix_of(w.log@)
    &&& ((forall|e: int| 0 <= e < o.n ==> !(#[trigger] o.just_moved@[e])) ==> (w.hidden@
        == o.hidden@ && w.entry_trigger@ == o.entry_trigger@ && w.damage_queue@ == o.damage_queue@
        && w.log@ == o.log@))
}

/// A sequence of entities without repeats.
pub open spec fn distinct_entities(s: Seq<crate::components::Entity>) -> bool {
    forall|j1: int, j2: int| 0 <= j1 < j2 < s.len() ==> (#[trigger] s[j1]) != (#[trigger] s[j2])
}

/// Entity `e` is the tick's only fresh mover, and stands somewhere.
pub open spec fn lone_mover(w: &World, e: int) -> bool {
    &&& w.just_moved@[e]
    &&& w.position@[e] is Some
    &&& forall|e2: int| 0 <= e2 < w.n && e2 != e ==> !(#[trigger] w.just_moved@[e2])
}

/// The occupant list of the mover's tile.
pub open spec fn mover_tile(w: &World, e: int) -> Seq<crate::components::Entity> {
    w.map.tile_content@[w.map.spec_idx(
        w.position@[e]->Some_0.x as int,
        w.position@[e]->Some_0.y as int,
    )]@
}

/// Occupant `x` of the mover's tile springs against mover `e`.
pub open spec fn springs(w: &World, e: int, x: int) -> bool {
    &&& exists|j: int| 0 <= j < mover_tile(w, e).len() && (#[trigger] mover_tile(w, e)[j]) == x
    &&& x != e
    &&& w.entry_trigger@[x] is Some
}

/// The damage the first `upto` occupants of the mover's tile deal to the
/// mover, in occupant order.
pub open spec fn sprung_adds(w: &World, e: int, upto: int) -> Seq<DamageAtom>
    decreases upto,
{
    if upto <= 0 {
        Seq::empty()
    } else {
        let rest = sprung_adds(w, e, upto - 1);
        let x = mover_tile(w, e)[upto - 1] as int;
        if x != e && w.entry_trigger@[x] is Some && w.damage_on_use@[x] is Some {
            rest + w.damage_on_use@[x]->Some_0.dmg_atoms@
        } else {
            rest
        }
    }
}

/// The full effect of the lone mover `e`'s step, relative to the pre-tick
/// world `o`: the mover's queue gains exactly the co-located traps' atoms
/// in occupant order, each sprung trap is revealed (and disarmed when
/// single-use), and nothing else moves.
pub open spec fn trigger_outcome(o: &World, w: &World, e: int) -> bool {
    &&& DamageQueue::pending(w.damage_queue@, e) == DamageQueue::pending(o.damage_queue@, e)
        + sprung_adds(o, e, mover_tile(o, e).len() as int)
    &&& forall|t: int|
        0 <= t < o.n && t != e ==> (#[trigger] w.damage_queue@[t]) == o.damage_queue@[t]
    &&& forall|x: int|
        0 <= x < o.n && #[trigger] springs(o, e, x) ==> !w.hidden@[x] && (if o.entry_trigger@[x]->Some_0.repeatable {
            w.entry_trigger@[x] == o.entry_trigger@[x]
        } else {
            w.entry_trigger@[x] is None
        })
    &&& forall|x: int|
        0 <= x < o.n && !springs(o, e, x) ==> (#[trigger] w.hidden@[x]) == o.hidden@[x]
            && w.entry_trigger@[x] == o.entry_trigger@[x]
}

/// Nothing of the trigger state moved between `o` and `w`.
pub open spec fn traps_untouched(o: &World, w: &World) -> bool {
    &&& w.hidden@ == o.hidden@
    &&& w.entry_trigger@ == o.entry_trigger@
    &&& w.damage_queue@ == o.damage_queue@
}

/// Springs traps under entities that just moved.
pub struct TriggerSystem {}

impl TriggerSystem {
    /// For every freshly moved entity, spring each other entity with an
    /// entry trigger on its tile: the trap's damage atoms are queued onto
    /// the mover, the trap is revealed, and a one-shot trap loses its
    /// trigger. The just-moved storage is batch-cleared.
    #[verifier::rlimit(60)]
    pub fn run(w: &mut World)
        requires
            old(w).wf(),
        ensures
            final(w).wf(),
            *final(w) == (World {
                just_moved: final(w).just_moved,
                hidden: final(w).hidden,
                damage_queue: final(w).damage_queue,
                entry_trigger: final(w).entry_trigger,
                log: final(w).log,
                ..*old(w)
            }),
            forall|e: int| 0 <= e < final(w).n ==> !(#[trigger] final(w).just_moved@[e]),
            forall|x: int| 0 <= x < old(w).n && (#[trigger] final(w).hidden@[x]) ==> old(w).hidden@[x],
            forall|x: int|
                0 <= x < old(w).n && (#[trigger] final(w).entry_trigger@[x]) != old(
                    w,
                ).entry_trigger@[x] ==> final(w).entry_trigger@[x] is None,
            forall|t: int|
                0 <= t < old(w).n ==> DamageQueue::pending(old(w).damage_queue@, t).is_prefix_of(
                    DamageQueue::pending(final(w).damage_queue@, t),
                ),
            old(w).log@.is_prefix_of(final(w).log@),
            (forall|e: int| 0 <= e < old(w).n ==> !(#[trigger] old(w).just_moved@[e])) ==> (final(w).hidden@ == old(w).hidden@ && final(w).entry_trigger@ == old(w).entry_trigger@
                && final(w).damage_queue@ == old(w).damage_queue@ && final(w).log@ == old(w).log@),
            // the tick's lone mover springs exactly its tile's traps
            forall|e: int|
                0 <= e < old(w).n && #[trigger] lone_mover(old(w), e) && distinct_entities(
                    mover_tile(old(w), e),
                ) ==> trigger_outcome(old(w), final(w), e),
    {
        let n = w.n;
        let mut e: usize = 0;
        proof {
            assert forall|t: int|
                0 <= t < n implies DamageQueue::pending(old(w).damage_queue@, t).is_prefix_of(
                DamageQueue::pending(w.damage_queue@, t),
            ) by {
                lemma_prefix_refl(DamageQueue::pending(w.damage_queue@, t));
            }
            lemma_prefix_refl(w.log@);
        }
        while e < n
            invariant
                e <= n,
                old(w).wf(),
                w.wf(),
                n == w.n,
                trigger_inv(old(w), w),
                forall|m: int|
                    0 <= m < n && #[trigger] lone_mover(old(w), m) && distinct_entities(
                        mover_tile(old(w), m),
                    ) ==> (e <= m ==> traps_untouched(old(w), w)) && (e > m ==> trigger_outcome(
                        old(w),
                        w,
                        m,
                    )),
            decreases n - e,
        {
            let ghost pre = *w;
            let moved = w.just_moved[e] && w.position[e].is_some();
            if moved {
                let pos = w.position[e].unwrap();
                let idx = w.map.xy_idx(pos.x, pos.y);
                let occupants = w.map.tile_content[idx].clone();
                let ghost lone_here = lone_mover(old(w), e as int) && distinct_entities(
                    mover_tile(old(w), e as int),
                );
                proof {
                    if lone_here {
                        assert(occupants@ == mover_tile(old(w), e as int));
                        assert(sprung_adds(old(w), e as int, 0) =~= Seq::<DamageAtom>::empty());
                        assert(DamageQueue::pending(old(w).damage_queue@, e as int) + Seq::<
                            DamageAtom,
                        >::empty() =~= DamageQueue::pending(old(w).damage_queue@, e as int));
                    }
                }
                let olen = occupants.len();
                let mut j: usize = 0;
                while j < olen
                    invariant
                        j <= olen,
                        olen == occupants@.len(),
                        old(w).wf(),
                        w.wf(),
                        n == w.n,
                        e < n,
                        old(w).just_moved@[e as int],
                        trigger_inv(old(w), w),
                        forall|k: int|
                            0 <= k < occupants@.len() ==> (#[trigger] occupants@[k]) < w.n,
                        lone_here == (lone_mover(old(w), e as int) && distinct_entities(
                            mover_tile(old(w), e as int),
                        )),
                        lone_here ==> occupants@ == mover_tile(old(w), e as int),
                        lone_here ==> DamageQueue::pending(w.damage_queue@, e as int)
                            == DamageQueue::pending(old(w).damage_queue@, e as int) + sprung_adds(
                            old(w),
                            e as int,
                            j as int,
                        ),
                        lone_here ==> (forall|t: int|
                            0 <= t < n && t != e ==> (#[trigger] w.damage_queue@[t]) == old(
                                w,
                            ).damage_queue@[t]),
                        lone_here ==> (forall|x: int|
                            0 <= x < n && (exists|jj: int|
                                0 <= jj < j && (#[trigger] occupants@[jj]) == x) && x != e && old(
                                w,
                            ).entry_trigger@[x] is Some ==> !w.hidden@[x] && (
                            if old(w).entry_trigger@[x]->Some_0.repeatable {
                                w.entry_trigger@[x] == old(w).entry_trigger@[x]
                            } else {
                                w.entry_trigger@[x] is None
                            })),
                        lone_here ==> (forall|x: int|
                            0 <= x < n && !((exists|jj: int|
                                0 <= jj < j && (#[trigger] occupants@[jj]) == x) && x != e && old(
                                w,
                            ).entry_trigger@[x] is Some) ==> w.hidden@[x] == old(w).hidden@[x]
                                && w.entry_trigger@[x] == old(w).entry_trigger@[x]),
                    decreases olen - j,
                {
                    let other = occupants[j];
                    j = j + 1;
                    proof {
                        if lone_here {
                            // a trap not seen among the earlier occupants still
                            // carries its pre-tick trigger and hidden flag
                            assert forall|jj: int|
                                0 <= jj < j - 1 implies occupants@[jj] != other as int by {
                                assert(mover_tile(old(w), e as int)[jj] != mover_tile(
                                    old(w),
                                    e as int,
                                )[j - 1]);
                            }
                            assert(w.entry_trigger@[other as int] == old(
                                w,
                            ).entry_trigger@[other as int]);
                        }
                    }
                    let sprang = other != e && w.entry_trigger[other].is_some();
                    let ghost pre_occ = *w;
                    if sprang {
                        let trigger = w.entry_trigger[other].unwrap();
                        if let Some(nm) = &w.name[other] {
                            let name = nm.name.clone();
                            let mut line = String::from_str("Triggered a ");
                            line.append(name.as_str());
                            line.append("!");
                            let ghost log0 = w.log@;
                            gamelog::push_line(&mut w.log, line);
                            proof {
                                lemma_prefix_trans(old(w).log@, log0, w.log@);
                            }
                        }
                        if w.damage_on_use[other].is_some() {
                            let atoms = match &w.damage_on_use[other] {
                                Some(d) => d.dmg_atoms.clone(),
                                None => Vec::new(),
                            };
                            proof {
                                assert(atoms@ == old(w).damage_on_use@[other as int]->Some_0.dmg_atoms@);
                                if lone_here {
                                    assert(atoms@.take(0) =~= Seq::<DamageAtom>::empty());
                                    assert(DamageQueue::pending(pre_occ.damage_queue@, e as int)
                                        + Seq::<DamageAtom>::empty() =~= DamageQueue::pending(
                                        pre_occ.damage_queue@,
                                        e as int,
                                    ));
                                }
                            }
                            let alen = atoms.len();
                            let mut a: usize = 0;
                            while a < alen
                                invariant
                                    a <= alen,
                                    alen == atoms@.len(),
                                    old(w).wf(),
                                    w.wf(),
                                    n == w.n,
                                    e < n,
                                    other < n,
                                    old(w).just_moved@[e as int],
                                    trigger_inv(old(w), w),
                                    w.hidden@ == pre_occ.hidden@,
                                    w.entry_trigger@ == pre_occ.entry_trigger@,
                                    lone_here ==> DamageQueue::pending(w.damage_queue@, e as int)
                                        == DamageQueue::pending(pre_occ.damage_queue@, e as int)
                                        + atoms@.take(a as int),
                                    lone_here ==> (forall|t: int|
                                        0 <= t < n && t != e ==> (#[trigger] w.damage_queue@[t])
                                            == pre_occ.damage_queue@[t]),
                                decreases alen - a,
                            {
                                let ghost dq0 = w.damage_queue@;
                                DamageQueue::queue_damage(&mut w.damage_queue, e, atoms[a]);
                                a = a + 1;
                                proof {
                                    assert forall|t: int|
                                        0 <= t < n implies DamageQueue::pending(
                                        old(w).damage_queue@,
                                        t,
                                    ).is_prefix_of(DamageQueue::pending(w.damage_queue@, t)) by {
                                        if t == e {
                                            lemma_prefix_push(
                                                DamageQueue::pending(old(w).damage_queue@, t),
                                                DamageQueue::pending(dq0, t),
                                                atoms@[a - 1],
                                            );
                                        } else {
                                            assert(w.damage_queue@[t] == dq0[t]);
                                            assert(DamageQueue::pending(w.damage_queue@, t)
                                                == DamageQueue::pending(dq0, t));
                                        }
                                    }
                                    if lone_here {
                                        assert(DamageQueue::pending(w.damage_queue@, e as int)
                                            =~= DamageQueue::pending(pre_occ.damage_queue@, e as int)
                                            + atoms@.take(a as int)) by {
                                            assert(DamageQueue::pending(w.damage_queue@, e as int)
                                                == DamageQueue::pending(dq0, e as int).push(
                                                atoms@[a - 1],
                                            ));
                                            assert(atoms@.take(a as int) =~= atoms@.take(
                                                a - 1,
                                            ).push(atoms@[a - 1]));
                                        }
                                    }
                                }
                            }
                            proof {
                                if lone_here {
                                    assert(atoms@.take(alen as int) =~= atoms@);
                                }
                            }
                        }
                        if !trigger.repeatable {
                            w.entry_trigger.set(other, None);
                        }
                        // the trap is no longer hidden
                        w.hidden.set(other, false);
                    }
                    proof {
                        if lone_here {
                            let oi = other as int;
                            let adds_now = sprung_adds(old(w), e as int, j as int);
                            let adds_before = sprung_adds(old(w), e as int, j - 1);
                            assert(mover_tile(old(w), e as int)[j - 1] == other);
                            if sprang && old(w).damage_on_use@[oi] is Some {
                                assert(adds_now == adds_before + old(
                                    w,
                                ).damage_on_use@[oi]->Some_0.dmg_atoms@);
                                assert(DamageQueue::pending(w.damage_queue@, e as int)
                                    =~= DamageQueue::pending(old(w).damage_queue@, e as int)
                                    + adds_now);
                            } else {
                                assert(adds_now == adds_before);
                                assert(DamageQueue::pending(w.damage_queue@, e as int)
                                    == DamageQueue::pending(pre_occ.damage_queue@, e as int));
                            }
                            assert forall|x: int|
                                0 <= x < n && (exists|jj: int|
                                    0 <= jj < j && (#[trigger] occupants@[jj]) == x) && x != e
                                    && old(w).entry_trigger@[x] is Some implies !w.hidden@[x] && (
                            if old(w).entry_trigger@[x]->Some_0.repeatable {
                                w.entry_trigger@[x] == old(w).entry_trigger@[x]
                            } else {
                                w.entry_trigger@[x] is None
                            }) by {
                                if x == oi {
                                    assert(sprang);
                                } else {
                                    let jj = choose|jj: int|
                                        0 <= jj < j && (#[trigger] occupants@[jj]) == x;
                                    assert(jj != j - 1);
                                    assert(w.hidden@[x] == pre_occ.hidden@[x]);
                                    assert(w.entry_trigger@[x] == pre_occ.entry_trigger@[x]);
                                }
                            }
                            assert forall|x: int|
                                0 <= x < n && !((exists|jj: int|
                                    0 <= jj < j && (#[trigger] occupants@[jj]) == x) && x != e
                                    && old(w).entry_trigger@[x] is Some) implies w.hidden@[x]
                                == old(w).hidden@[x] && w.entry_trigger@[x] == old(
                                w,
                            ).entry_trigger@[x] by {
                                if x == oi {
                                    assert(occupants@[j - 1] == x);
                                    assert(!sprang);
                                } else {
                                    assert(w.hidden@[x] == pre_occ.hidden@[x]);
                                    assert(w.entry_trigger@[x] == pre_occ.entry_trigger@[x]);
                                    assert(!((exists|jj: int|
                                        0 <= jj < j - 1 && (#[trigger] occupants@[jj]) == x) && x
                                        != e && old(w).entry_trigger@[x] is Some)) by {
                                        if (exists|jj: int|
                                            0 <= jj < j - 1 && (#[trigger] occupants@[jj]) == x)
                                            && x != e && old(w).entry_trigger@[x] is Some {
                                            let jj = choose|jj: int|
                                                0 <= jj < j - 1 && (#[trigger] occupants@[jj])
                                                    == x;
                                            assert(occupants@[jj] == x);
                                        }
                                    }
                                }
                            }
                        }
                    }
                }
            }
            e = e + 1;
            proof {
                assert forall|m: int|
                    0 <= m < n && #[trigger] lone_mover(old(w), m) && distinct_entities(
                        mover_tile(old(w), m),
                    ) implies (e <= m ==> traps_untouched(old(w), w)) && (e > m
                    ==> trigger_outcome(old(w), w, m)) by {
                    if m != e - 1 {
                        assert(!old(w).just_moved@[e - 1]);
                        assert(!moved);
                        assert(*w == pre);
                    }
                }
            }
        }
        // batch-clear the just-moved storage
        let ghost mid = *w;
        let mut k: usize = 0;
        while k < n
            invariant
                k <= n,
                w.wf(),
                n == w.n,
                *w == (World { just_moved: w.just_moved, ..mid }),
                forall|e2: int| 0 <= e2 < k ==> !(#[trigger] w.just_moved@[e2]),
                forall|e2: int| k <= e2 < n ==> w.just_moved@[e2] == mid.just_moved@[e2],
            decreases n - k,
        {
            w.just_moved.set(k, false);
            k = k + 1;
        }
    }
}

} // verus!
