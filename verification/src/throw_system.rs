//! Throw resolution: a thrown item strikes the first occupant of the
//! target tile and lands there, leaving backpack or hand; a thrown weapon
//! no longer drives its thrower's attack.

use vstd::prelude::*;

use crate::components::{lemma_prefix_push, lemma_prefix_refl, BasicAttack, DamageAtom, DamageQueue, Position};
use crate::gamelog;
use crate::world::World;

verus! {

/// Entity `e` throws a throwable item at a map point this tick.
pub open spec fn throws(w: &World, e: int) -> bool {
    &&& w.throw_intent@[e] is Some
    &&& w.throw_intent@[e]->Some_0.target is Some
    &&& w.throwable@[w.throw_intent@[e]->Some_0.item as int] is Some
}

/// What throw resolution may change: damage only accrues, backpack and
/// equipped entries only disappear, every basic attack keeps its base,
/// and with no throw pending nothing changes.
pub open spec fn throw_inv(o: &World, w: &World) -> bool {
    &&& *w == (World {
        position: w.position,
        in_backpack: w.in_backpack,
        equipped: w.equipped,
        basic_attack: w.basic_attack,
        damage_queue: w.damage_queue,
        throw_intent: w.throw_intent,
        log: w.log,
        ..*o
    })
    &&& forall|t: int|
        0 <= t < o.n ==> DamageQueue::pending(o.damage_queue@, t).is_prefix_of(
            DamageQueue::pending(w.damage_queue@, t),
        )
    &&& forall|x: int|
        0 <= x < o.n && (#[trigger] w.in_backpack@[x]) != o.in_backpack@[x]
            ==> w.in_backpack@[x] is None
    &&& forall|x: int|
        0 <= x < o.n && (#[trigger] w.equipped@[x]) != o.equipped@[x] ==> w.equipped@[x] is None
    &&& forall|x: int|
        0 <= x < o.n ==> ((#[trigger] w.basic_attack@[x]) is Some <==> o.basic_attack@[x] is Some)
    &&& forall|x: int|
        0 <= x < o.n && (#[trigger] w.basic_attack@[x]) is Some
            ==> w.basic_attack@[x]->Some_0.base == o.basic_attack@[x]->Some_0.base
    &&& o.log@.is_prefix_of(w.log@)
    &&& ((forall|e: int| 0 <= e < o.n ==> !#[trigger] throws(o, e)) ==> (w.position@ == o.position@
        && w.in_backpack@ == o.in_backpack@ && w.equipped@ == o.equipped@ && w.basic_attack@
        == o.basic_attack@ && w.damage_queue@ == o.damage_queue@ && w.log@ == o.log@))
}

/// Entity `e` holds the tick's only throw intent.
pub open spec fn lone_thrower(w: &World, e: int) -> bool {
    &&& throws(w, e)
    &&& forall|e2: int| 0 <= e2 < w.n && e2 != e ==> (#[trigger] w.throw_intent@[e2]) is None
}

/// The primary mode of the last weapon below `upto` still worn by
/// `thrower`, leaving the thrown item itself out.
pub open spec fn last_worn_primary(o: &World, thrower: int, thrown: int, upto: int) -> Option<
    DamageAtom,
>
    decreases upto,
{
    if upto <= 0 {
        None
    } else if upto - 1 != thrown && o.equipped@[upto - 1] is Some
        && o.equipped@[upto - 1]->Some_0.owner == thrower && o.weapon@[upto - 1] is Some
        && o.weapon@[upto - 1]->Some_0.primary is Some {
        o.weapon@[upto - 1]->Some_0.primary
    } else {
        last_worn_primary(o, thrower, thrown, upto - 1)
    }
}

/// Nothing of the throw state moved between `o` and `w`.
pub open spec fn throws_untouched(o: &World, w: &World) -> bool {
    &&& w.position@ == o.position@
    &&& w.in_backpack@ == o.in_backpack@
    &&& w.equipped@ == o.equipped@
    &&& w.basic_attack@ == o.basic_attack@
    &&& w.damage_queue@ == o.damage_queue@
}

/// The full effect of the lone thrower `e`'s throw, relative to the
/// pre-tick world `o`: the item's damage lands on the target tile's first
/// occupant, the item lands on the aimed point, an item thrown out of the
/// hand leaves backpack and equipment, and a thrower whose weapon left its
/// hand falls back to the last still-worn weapon's primary mode, or to its
/// base attack.
pub open spec fn throw_outcome(o: &World, w: &World, e: int) -> bool {
    let it = o.throw_intent@[e]->Some_0.item as int;
    let pt = o.throw_intent@[e]->Some_0.target->Some_0;
    let dmg = o.throwable@[it]->Some_0.dmg;
    let tile = o.map.tile_content@[o.map.spec_idx(pt.x as int, pt.y as int)]@;
    &&& tile.len() > 0 ==> DamageQueue::pending(w.damage_queue@, tile[0] as int)
        == DamageQueue::pending(o.damage_queue@, tile[0] as int).push(dmg)
    &&& forall|t: int|
        0 <= t < o.n && (tile.len() == 0 || t != tile[0]) ==> (#[trigger] w.damage_queue@[t])
            == o.damage_queue@[t]
    &&& w.position@[it] == Some(pt)
    &&& forall|x: int| 0 <= x < o.n && x != it ==> (#[trigger] w.position@[x]) == o.position@[x]
    &&& o.position@[it] is Some ==> w.in_backpack@ == o.in_backpack@ && w.equipped@ == o.equipped@
        && w.basic_attack@ == o.basic_attack@
    &&& o.position@[it] is None ==> {
        &&& w.in_backpack@[it] is None
        &&& w.equipped@[it] is None
        &&& forall|x: int|
            0 <= x < o.n && x != it ==> (#[trigger] w.in_backpack@[x]) == o.in_backpack@[x]
        &&& forall|x: int|
            0 <= x < o.n && x != it ==> (#[trigger] w.equipped@[x]) == o.equipped@[x]
        &&& (o.equipped@[it] is Some && o.weapon@[it] is Some && o.basic_attack@[e] is Some)
            ==> w.basic_attack@[e] == Some(
            BasicAttack {
                base: o.basic_attack@[e]->Some_0.base,
                current: match last_worn_primary(o, e, it, o.n as int) {
                    Some(p) => p,
                    None => o.basic_attack@[e]->Some_0.base,
                },
            },
        )
        &&& !(o.equipped@[it] is Some && o.weapon@[it] is Some && o.basic_attack@[e] is Some)
            ==> w.basic_attack@[e] == o.basic_attack@[e]
        &&& forall|x: int|
            0 <= x < o.n && x != e ==> (#[trigger] w.basic_attack@[x]) == o.basic_attack@[x]
    }
}

/// Resolves throw intents.
pub struct ThrowSystem {}

impl ThrowSystem {
    /// For every aimed throw of a throwable item: queue the item's damage
    /// onto the first occupant of the target tile, move the item to that
    /// tile (leaving backpack or hand), and let a thrower whose weapon
    /// left its hand fall back to its base attack (or another still
    /// equipped weapon's primary mode). The intent storage is cleared.
    #[verifier::rlimit(60)]
    pub fn run(w: &mut World)
        requires
            old(w).wf(),
        ensures
            final(w).wf(),
            throw_inv(old(w), final(w)),
            forall|e: int| 0 <= e < final(w).n ==> (#[trigger] final(w).throw_intent@[e]) is None,
            // every thrown item lands on the target tile
            forall|e: int|
                0 <= e < old(w).n && #[trigger] throws(old(w), e) ==> final(w).position@[old(
                    w,
                ).throw_intent@[e]->Some_0.item as int] is Some,
            // the tick's one throw does the full throw work
            forall|e: int|
                0 <= e < old(w).n && #[trigger] lone_thrower(old(w), e) ==> throw_outcome(
                    old(w),
                    final(w),
                    e,
                ),
    {
        let n = w.n;
        let mut e: usize = 0;
        proof {
            assert forall|t: int|
                0 <= t < n implies DamageQueue::pending(old(w).damage_queue@, t).is_prefix_of(
                DamageQueue::pending(w.damage_queue@, t),
            ) by {
                lemma_prefix_refl(DamageQueue::pending(w.damage_queue@, t));
            }
            lemma_prefix_refl(w.log@);
        }
        while e < n
            invariant
                e <= n,
                old(w).wf(),
                w.wf(),
                n == w.n,
                w.throw_intent@ == old(w).throw_intent@,
                throw_inv(old(w), w),
                forall|e2: int|
                    0 <= e2 < e && #[trigger] throws(old(w), e2) ==> w.position@[old(
                        w,
                    ).throw_intent@[e2]->Some_0.item as int] is Some,
                forall|m: int|
                    0 <= m < n && #[trigger] lone_thrower(old(w), m) ==> (e <= m
                        ==> throws_untouched(old(w), w)) && (e > m ==> throw_outcome(
                        old(w),
                        w,
                        m,
                    )),
            decreases n - e,
        {
            let ghost pre = *w;
            let throwing = match &w.throw_intent[e] {
                Some(intent) => intent.target.is_some(),
                None => false,
            };
            if throwing {
                let intent = w.throw_intent[e].unwrap();
                let item = intent.item;
                let target = intent.target.unwrap();
                if w.throwable[item].is_some() {
                    proof {
                        assert(throws(old(w), e as int));
                        assert(old(w).throw_intent@[e as int]->Some_0.item == item);
                        assert(old(w).throw_intent@[e as int]->Some_0.target->Some_0 == target);
                    }
                    let ghost lone_here = lone_thrower(old(w), e as int);
                    let dmg = w.throwable[item].unwrap().dmg;
                    // strike the first occupant of the target tile
                    let idx = w.map.xy_idx(target.x, target.y);
                    if w.map.tile_content[idx].len() > 0 {
                        let victim = w.map.tile_content[idx][0];
                        let ghost dq0 = w.damage_queue@;
                        DamageQueue::queue_damage(&mut w.damage_queue, victim, dmg);
                        proof {
                            assert forall|t: int|
                                0 <= t < n implies DamageQueue::pending(
                                old(w).damage_queue@,
                                t,
                            ).is_prefix_of(DamageQueue::pending(w.damage_queue@, t)) by {
                                if t == victim {
                                    lemma_prefix_push(
                                        DamageQueue::pending(old(w).damage_queue@, t),
                                        DamageQueue::pending(dq0, t),
                                        dmg,
                                    );
                                } else {
                                    assert(w.damage_queue@[t] == dq0[t]);
                                    assert(DamageQueue::pending(w.damage_queue@, t)
                                        == DamageQueue::pending(dq0, t));
                                }
                            }
                        }
                    }
                    // relocate or unequip the thrown item
                    let already_placed = w.position[item].is_some();
                    w.position.set(item, Some(Position { x: target.x, y: target.y }));
                    if !already_placed {
                        w.in_backpack.set(item, None);
                        let was_equipped = w.equipped[item].is_some();
                        w.equipped.set(item, None);
                        if was_equipped && w.weapon[item].is_some() {
                            let ghost pre_fall = *w;
                            BasicAttack::reset(&mut w.basic_attack, e);
                            // fall back to another still-equipped weapon
                            let mut o: usize = 0;
                            while o < n
                                invariant
                                    o <= n,
                                    old(w).wf(),
                                    w.wf(),
                                    n == w.n,
                                    e < n,
                                    item < n,
                                    throws(old(w), e as int),
                                    w.throw_intent@ == old(w).throw_intent@,
                                    throw_inv(old(w), w),
                                    forall|e2: int|
                                        0 <= e2 < e && #[trigger] throws(old(w), e2)
                                            ==> w.position@[old(
                                            w,
                                        ).throw_intent@[e2]->Some_0.item as int] is Some,
                                    w.position@[old(
                                        w,
                                    ).throw_intent@[e as int]->Some_0.item as int] is Some,
                                    *w == (World { basic_attack: w.basic_attack, ..pre_fall }),
                                    lone_here ==> item == old(
                                        w,
                                    ).throw_intent@[e as int]->Some_0.item,
                                    lone_here ==> pre_fall.weapon@ == old(w).weapon@,
                                    lone_here ==> (forall|x: int|
                                        0 <= x < n && x != item ==> (
                                        #[trigger] pre_fall.equipped@[x]) == old(w).equipped@[x]),
                                    lone_here ==> pre_fall.equipped@[item as int] is None,
                                    lone_here ==> (forall|x: int|
                                        0 <= x < n && x != e ==> (#[trigger] w.basic_attack@[x])
                                            == old(w).basic_attack@[x]),
                                    lone_here ==> (old(w).basic_attack@[e as int] is None
                                        ==> w.basic_attack@[e as int] is None),
                                    lone_here ==> (old(w).basic_attack@[e as int] is Some
                                        ==> w.basic_attack@[e as int] == Some(
                                        BasicAttack {
                                            base: old(w).basic_attack@[e as int]->Some_0.base,
                                            current: match last_worn_primary(
                                                old(w),
                                                e as int,
                                                item as int,
                                                o as int,
                                            ) {
                                                Some(p) => p,
                                                None => old(
                                                    w,
                                                ).basic_attack@[e as int]->Some_0.base,
                                            },
                                        },
                                    )),
                                decreases n - o,
                            {
                                let held = match &w.equipped[o] {
                                    Some(eq) => eq.owner == e,
                                    None => false,
                                };
                                if held && w.weapon[o].is_some() {
                                    let wp = w.weapon[o].unwrap();
                                    if let Some(primary) = wp.primary {
                                        BasicAttack::modify(&mut w.basic_attack, e, primary);
                                    }
                                }
                                o = o + 1;
                            }
                        }
                    }
                    if w.name[e].is_some() && w.name[item].is_some() {
                        let thrower_name = match &w.name[e] {
                            Some(nm) => nm.name.clone(),
                            None => String::new(),
                        };
                        let item_name = match &w.name[item] {
                            Some(nm) => nm.name.clone(),
                            None => String::new(),
                        };
                        let mut line = thrower_name;
                        line.append(" threw a ");
                        line.append(item_name.as_str());
                        line.append(".");
                        let ghost log0 = w.log@;
                        gamelog::push_line(&mut w.log, line);
                        proof {
                            crate::components::lemma_prefix_trans(old(w).log@, log0, w.log@);
                        }
                    }
                }
            }
            e = e + 1;
            proof {
                assert forall|m: int|
                    0 <= m < n && #[trigger] lone_thrower(old(w), m) implies (e <= m
                    ==> throws_untouched(old(w), w)) && (e > m ==> throw_outcome(
                    old(w),
                    w,
                    m,
                )) by {
                    if m != e - 1 {
                        assert(old(w).throw_intent@[e - 1] is None);
                        assert(!throwing);
                        assert(*w == pre);
                    } else {
                        if lone_thrower(old(w), m) {
                            assert(throws_untouched(old(w), &pre));
                            assert(throw_outcome(old(w), w, m));
                        }
                    }
                }
            }
        }
        // batch-clear the intent storage
        let ghost mid = *w;
        proof {
            assert forall|m: int|
                0 <= m < n && #[trigger] lone_thrower(old(w), m) implies throw_outcome(
                old(w),
                &mid,
                m,
            ) by {}
        }
        let mut k: usize = 0;
        while k < n
            invariant
                k <= n,
                w.wf(),
                n == w.n,
                *w == (World { throw_intent: w.throw_intent, ..mid }),
                forall|m: int|
                    0 <= m < n && #[trigger] lone_thrower(old(w), m) ==> throw_outcome(
                        old(w),
                        &mid,
                        m,
                    ),
                forall|e2: int| 0 <= e2 < k ==> (#[trigger] w.throw_intent@[e2]) is None,
            decreases n - k,
        {
            w.throw_intent.set(k, None);
            k = k + 1;
        }
        proof {
            assert forall|m: int|
                0 <= m < n && #[trigger] lone_thrower(old(w), m) implies throw_outcome(
                old(w),
                w,
                m,
            ) by {
                assert(throw_outcome(old(w), &mid, m));
            }
        }
    }
}

} // verus!
