//! Equipment resolution. Equipping into an occupied slot first displaces
//! the old item to the backpack and subtracts its resistance delta, then
//! adds the new item's; a wielded weapon sets the wearer's current basic
//! attack, and unequipping restores the base attack.

use vstd::prelude::*;

use crate::components::{
    res_minus, res_plus, weapon_mode, BasicAttack, Entity, EquipmentSlot, Equipped, InBackpack,
    Resistances,
};
use crate::gamelog;
use crate::world::World;

verus! {

/// The first entity at or above `from` currently equipped by `owner` in
/// `slot`.
pub open spec fn find_equipped(w: &World, owner: int, slot: EquipmentSlot, from: int) -> Option<
    int,
>
    decreases w.n - from,
{
    if from < 0 || from >= w.n {
        None
    } else if w.equipped@[from] is Some && w.equipped@[from]->Some_0.owner == owner
        && w.equipped@[from]->Some_0.slot == slot {
        Some(from)
    } else {
        find_equipped(w, owner, slot, from + 1)
    }
}

/// The owner's resistances after an equip: the displaced item's delta is
/// subtracted before the new item's is added, and an absent set on either
/// side leaves that step out.
pub open spec fn equip_resistance(w: &World, owner: int, item: int, displaced: Option<int>) -> Option<
    Resistances,
> {
    let r0 = w.resistances@[owner];
    let r1 = match displaced {
        Some(b) => if w.resistances@[b] is Some && r0 is Some {
            Some(res_minus(r0->Some_0, w.resistances@[b]->Some_0))
        } else {
            r0
        },
        None => r0,
    };
    if w.resistances@[item] is Some && r1 is Some {
        Some(res_plus(r1->Some_0, w.resistances@[item]->Some_0))
    } else {
        r1
    }
}

/// Creature `c` holds the only intent of the tick: an equip of an
/// equippable item, with no unequip of its own and no other creature
/// asking for anything.
pub open spec fn lone_equip(w: &World, c: int) -> bool {
    &&& w.creature@[c]
    &&& w.equip_intent@[c] is Some
    &&& w.equippable@[w.equip_intent@[c]->Some_0.item as int] is Some
    &&& w.unequip_intent@[c] is None
    &&& forall|c2: int|
        0 <= c2 < w.n && c2 != c ==> (#[trigger] w.equip_intent@[c2]) is None
            && w.unequip_intent@[c2] is None
}

/// Creature `c` holds the only intent of the tick: one unequip.
pub open spec fn lone_unequip(w: &World, c: int) -> bool {
    &&& w.creature@[c]
    &&& w.unequip_intent@[c] is Some
    &&& w.equip_intent@[c] is None
    &&& forall|c2: int|
        0 <= c2 < w.n && c2 != c ==> (#[trigger] w.equip_intent@[c2]) is None
            && w.unequip_intent@[c2] is None
}

/// Nothing of the equipment state (nor the log) moved between `o` and `w`.
pub open spec fn gear_untouched(o: &World, w: &World) -> bool {
    &&& w.equipped@ == o.equipped@
    &&& w.in_backpack@ == o.in_backpack@
    &&& w.position@ == o.position@
    &&& w.resistances@ == o.resistances@
    &&& w.basic_attack@ == o.basic_attack@
    &&& w.log@ == o.log@
}

/// The full effect of creature `c`'s equip, relative to the pre-tick world
/// `o`: the item is worn by `c`, off floor and pack; the displaced item is
/// unequipped into `c`'s backpack; `c`'s resistances change by the
/// displaced delta out, then the new delta in; a wielded weapon's first
/// mode becomes `c`'s current attack; nothing else moves.
pub open spec fn equip_outcome(o: &World, w: &World, c: int) -> bool {
    let a = o.equip_intent@[c]->Some_0.item as int;
    let slot = o.equippable@[a]->Some_0.slot;
    let disp = find_equipped(o, c, slot, 0);
    &&& w.equipped@[a] is Some
    &&& w.equipped@[a]->Some_0.owner == c
    &&& w.equipped@[a]->Some_0.slot == slot
    &&& w.in_backpack@[a] is None
    &&& w.position@[a] is None
    &&& (disp is Some && disp->Some_0 != a) ==> w.equipped@[disp->Some_0] is None
        && w.in_backpack@[disp->Some_0] is Some
        && w.in_backpack@[disp->Some_0]->Some_0.owner == c
    &&& forall|x: int|
        0 <= x < o.n && x != a && Some(x) != disp ==> (#[trigger] w.equipped@[x]) == o.equipped@[x]
    &&& forall|x: int|
        0 <= x < o.n && x != a && Some(x) != disp ==> (#[trigger] w.in_backpack@[x])
            == o.in_backpack@[x]
    &&& forall|x: int| 0 <= x < o.n && x != a ==> (#[trigger] w.position@[x]) == o.position@[x]
    &&& w.resistances@[c] == equip_resistance(o, c, a, disp)
    &&& forall|x: int|
        0 <= x < o.n && x != c ==> (#[trigger] w.resistances@[x]) == o.resistances@[x]
    &&& (o.weapon@[a] is Some && weapon_mode(o.weapon@[a]->Some_0) is Some
        && o.basic_attack@[c] is Some) ==> w.basic_attack@[c] == Some(
        BasicAttack {
            base: o.basic_attack@[c]->Some_0.base,
            current: weapon_mode(o.weapon@[a]->Some_0)->Some_0,
        },
    )
    &&& !(o.weapon@[a] is Some && weapon_mode(o.weapon@[a]->Some_0) is Some
        && o.basic_attack@[c] is Some) ==> w.basic_attack@[c] == o.basic_attack@[c]
    &&& forall|x: int|
        0 <= x < o.n && x != c ==> (#[trigger] w.basic_attack@[x]) == o.basic_attack@[x]
}

/// The full effect of creature `c`'s unequip, relative to the pre-tick
/// world `o`: the item returns to `c`'s backpack, its resistance delta
/// leaves `c`, and a weapon's wearer falls back to the base attack.
pub open spec fn unequip_outcome(o: &World, w: &World, c: int) -> bool {
    let u = o.unequip_intent@[c]->Some_0.item as int;
    &&& w.equipped@[u] is None
    &&& w.in_backpack@[u] is Some
    &&& w.in_backpack@[u]->Some_0.owner == c
    &&& forall|x: int|
        0 <= x < o.n && x != u ==> (#[trigger] w.equipped@[x]) == o.equipped@[x]
    &&& forall|x: int|
        0 <= x < o.n && x != u ==> (#[trigger] w.in_backpack@[x]) == o.in_backpack@[x]
    &&& w.position@ == o.position@
    &&& (o.resistances@[u] is Some && o.resistances@[c] is Some) ==> w.resistances@[c] == Some(
        res_minus(o.resistances@[c]->Some_0, o.resistances@[u]->Some_0),
    )
    &&& !(o.resistances@[u] is Some && o.resistances@[c] is Some) ==> w.resistances@[c]
        == o.resistances@[c]
    &&& forall|x: int|
        0 <= x < o.n && x != c ==> (#[trigger] w.resistances@[x]) == o.resistances@[x]
    &&& (o.weapon@[u] is Some && o.basic_attack@[c] is Some) ==> w.basic_attack@[c] == Some(
        BasicAttack {
            base: o.basic_attack@[c]->Some_0.base,
            current: o.basic_attack@[c]->Some_0.base,
        },
    )
    &&& !(o.weapon@[u] is Some && o.basic_attack@[c] is Some) ==> w.basic_attack@[c]
        == o.basic_attack@[c]
    &&& forall|x: int|
        0 <= x < o.n && x != c ==> (#[trigger] w.basic_attack@[x]) == o.basic_attack@[x]
}

/// Two worlds with the same equipment column agree on the slot search.
pub proof fn lemma_find_equipped_same(
    a: &World,
    b: &World,
    owner: int,
    slot: EquipmentSlot,
    from: int,
)
    requires
        a.equipped@ == b.equipped@,
        a.n == b.n,
    ensures
        find_equipped(a, owner, slot, from) == find_equipped(b, owner, slot, from),
    decreases a.n - from,
{
    if 0 <= from < a.n {
        lemma_find_equipped_same(a, b, owner, slot, from + 1);
    }
}

/// Resolves equip and unequip intents.
pub struct EquipSystem {}

impl EquipSystem {
    /// Search for the item `owner` currently wears in `slot`.
    fn displaced_item(w: &World, owner: Entity, slot: EquipmentSlot) -> (r: Option<Entity>)
        requires
            w.wf(),
        ensures
            match r {
                Some(b) => b < w.n && find_equipped(w, owner as int, slot, 0) == Some(b as int),
                None => find_equipped(w, owner as int, slot, 0) is None,
            },
    {
        let n = w.n;
        let mut e: usize = 0;
        while e < n
            invariant
                e <= n,
                w.wf(),
                n == w.n,
                find_equipped(w, owner as int, slot, 0) == find_equipped(
                    w,
                    owner as int,
                    slot,
                    e as int,
                ),
            decreases n - e,
        {
            let hit = match &w.equipped[e] {
                Some(eq) => eq.owner == owner && crate::equip_system::slot_eq(eq.slot, slot),
                None => false,
            };
            if hit {
                return Some(e);
            }
            e = e + 1;
        }
        None
    }

    /// Equip `item` into its slot on `owner`.
    ///
    /// If the slot is occupied, the old item is displaced to the backpack
    /// and its resistance delta subtracted before the new item's is added.
    /// The item leaves backpack and floor; a wielded weapon's first
    /// available mode becomes the owner's current attack.
    pub fn equip_one(w: &mut World, owner: Entity, item: Entity)
        requires
            old(w).wf(),
            owner < old(w).n,
            item < old(w).n,
            old(w).equippable@[item as int] is Some,
        ensures
            final(w).wf(),
            *final(w) == (World {
                equipped: final(w).equipped,
                in_backpack: final(w).in_backpack,
                position: final(w).position,
                resistances: final(w).resistances,
                basic_attack: final(w).basic_attack,
                log: final(w).log,
                ..*old(w)
            }),
            // the item is worn by the owner, off floor and out of backpack
            final(w).equipped@[item as int] == Some(
                Equipped { owner, slot: old(w).equippable@[item as int]->Some_0.slot },
            ),
            final(w).in_backpack@[item as int] is None,
            final(w).position@[item as int] is None,
            // a displaced item is unequipped into the owner's backpack
            ({
                let disp = find_equipped(
                    old(w),
                    owner as int,
                    old(w).equippable@[item as int]->Some_0.slot,
                    0,
                );
                &&& (disp is Some && disp->Some_0 != item) ==> final(w).equipped@[disp->Some_0] is None && final(w).in_backpack@[disp->Some_0] == Some(
                    InBackpack { owner },
                )
                &&& forall|e: int|
                    0 <= e < final(w).n && e != item && Some(e) != disp ==> (
                    #[trigger] final(w).equipped@[e]) == old(w).equipped@[e]
                &&& forall|e: int|
                    0 <= e < final(w).n && e != item && Some(e) != disp ==> (
                    #[trigger] final(w).in_backpack@[e]) == old(w).in_backpack@[e]
                // the old delta leaves before the new delta lands
                &&& final(w).resistances@[owner as int] == equip_resistance(
                    old(w),
                    owner as int,
                    item as int,
                    disp,
                )
            }),
            forall|e: int|
                0 <= e < final(w).n && e != item ==> (#[trigger] final(w).position@[e]) == old(
                    w,
                ).position@[e],
            forall|e: int|
                0 <= e < final(w).n && e != owner ==> (#[trigger] final(w).resistances@[e]) == old(
                    w,
                ).resistances@[e],
            // a wielded weapon sets the owner's current attack
            (old(w).weapon@[item as int] is Some && weapon_mode(
                old(w).weapon@[item as int]->Some_0,
            ) is Some && old(w).basic_attack@[owner as int] is Some) ==> final(w).basic_attack@[owner as int] == Some(
                BasicAttack {
                    base: old(w).basic_attack@[owner as int]->Some_0.base,
                    current: weapon_mode(old(w).weapon@[item as int]->Some_0)->Some_0,
                },
            ),
            !(old(w).weapon@[item as int] is Some && weapon_mode(
                old(w).weapon@[item as int]->Some_0,
            ) is Some && old(w).basic_attack@[owner as int] is Some) ==> final(w).basic_attack@[owner as int] == old(w).basic_attack@[owner as int],
            forall|e: int|
                0 <= e < final(w).n && e != owner ==> (#[trigger] final(w).basic_attack@[e]) == old(
                    w,
                ).basic_attack@[e],
            old(w).log@.is_prefix_of(final(w).log@),
    {
        let slot = w.equippable[item].unwrap().slot;
        let displaced = Self::displaced_item(w, owner, slot);
        // resistance bookkeeping, over the pre-equip values
        let r0_opt = w.resistances[owner];
        let rb_opt = match displaced {
            Some(b) => w.resistances[b],
            None => None,
        };
        let ri_opt = w.resistances[item];
        let mut new_r = r0_opt;
        let mut r_changed = false;
        if displaced.is_some() && rb_opt.is_some() && r0_opt.is_some() {
            let rb = rb_opt.unwrap();
            let r0 = r0_opt.unwrap();
            new_r = Some(r0.minus(rb));
            r_changed = true;
        }
        if ri_opt.is_some() && new_r.is_some() {
            let ri = ri_opt.unwrap();
            let r1 = new_r.unwrap();
            new_r = Some(r1.plus(ri));
            r_changed = true;
        }
        if let Some(b) = displaced {
            w.equipped.set(b, None);
            w.in_backpack.set(b, Some(InBackpack { owner }));
        }
        if r_changed {
            w.resistances.set(owner, new_r);
        }
        w.in_backpack.set(item, None);
        w.position.set(item, None);
        w.equipped.set(item, Some(Equipped { owner, slot }));
        if w.name[owner].is_some() && w.name[item].is_some() {
            let owner_name = match &w.name[owner] {
                Some(nm) => nm.name.clone(),
                None => String::new(),
            };
            let item_name = match &w.name[item] {
                Some(nm) => nm.name.clone(),
                None => String::new(),
            };
            let mut line = owner_name;
            line.append(" equipped ");
            line.append(item_name.as_str());
            line.append(".");
            gamelog::push_line(&mut w.log, line);
        }
        if w.weapon[item].is_some() {
            let wp = w.weapon[item].unwrap();
            let mode = if wp.primary.is_some() {
                wp.primary
            } else if wp.secondary.is_some() {
                wp.secondary
            } else {
                wp.tertiary
            };
            if let Some(m) = mode {
                BasicAttack::modify(&mut w.basic_attack, owner, m);
            }
        }
    }

    /// Take `item` off `owner`, back into the backpack: its resistance
    /// delta is subtracted and, if it was a weapon, the owner's current
    /// attack falls back to the base attack.
    pub fn unequip_one(w: &mut World, owner: Entity, item: Entity)
        requires
            old(w).wf(),
            owner < old(w).n,
            item < old(w).n,
        ensures
            final(w).wf(),
            *final(w) == (World {
                equipped: final(w).equipped,
                in_backpack: final(w).in_backpack,
                resistances: final(w).resistances,
                basic_attack: final(w).basic_attack,
                log: final(w).log,
                ..*old(w)
            }),
            final(w).equipped@[item as int] is None,
            final(w).in_backpack@[item as int] == Some(InBackpack { owner }),
            forall|e: int|
                0 <= e < final(w).n && e != item ==> (#[trigger] final(w).equipped@[e]) == old(
                    w,
                ).equipped@[e],
            forall|e: int|
                0 <= e < final(w).n && e != item ==> (#[trigger] final(w).in_backpack@[e]) == old(
                    w,
                ).in_backpack@[e],
            // the item's resistance delta leaves the owner
            (old(w).resistances@[item as int] is Some && old(w).resistances@[owner as int] is Some)
                ==> final(w).resistances@[owner as int] == Some(
                res_minus(
                    old(w).resistances@[owner as int]->Some_0,
                    old(w).resistances@[item as int]->Some_0,
                ),
            ),
            !(old(w).resistances@[item as int] is Some && old(
                w,
            ).resistances@[owner as int] is Some) ==> final(w).resistances@[owner as int] == old(
                w,
            ).resistances@[owner as int],
            forall|e: int|
                0 <= e < final(w).n && e != owner ==> (#[trigger] final(w).resistances@[e]) == old(
                    w,
                ).resistances@[e],
            // unequipping a weapon restores the wearer's base attack
            (old(w).weapon@[item as int] is Some && old(w).basic_attack@[owner as int] is Some)
                ==> final(w).basic_attack@[owner as int] == Some(
                BasicAttack {
                    base: old(w).basic_attack@[owner as int]->Some_0.base,
                    current: old(w).basic_attack@[owner as int]->Some_0.base,
                },
            ),
            !(old(w).weapon@[item as int] is Some && old(
                w,
            ).basic_attack@[owner as int] is Some) ==> final(w).basic_attack@[owner as int] == old(
                w,
            ).basic_attack@[owner as int],
            forall|e: int|
                0 <= e < final(w).n && e != owner ==> (#[trigger] final(w).basic_attack@[e]) == old(
                    w,
                ).basic_attack@[e],
            old(w).log@.is_prefix_of(final(w).log@),
    {
        w.equipped.set(item, None);
        w.in_backpack.set(item, Some(InBackpack { owner }));
        if w.name[owner].is_some() && w.name[item].is_some() {
            let owner_name = match &w.name[owner] {
                Some(nm) => nm.name.clone(),
                None => String::new(),
            };
            let item_name = match &w.name[item] {
                Some(nm) => nm.name.clone(),
                None => String::new(),
            };
            let mut line = owner_name;
            line.append(" unequipped ");
            line.append(item_name.as_str());
            line.append(".");
            gamelog::push_line(&mut w.log, line);
        }
        if w.resistances[item].is_some() && w.resistances[owner].is_some() {
            let ri = w.resistances[item].unwrap();
            let r0 = w.resistances[owner].unwrap();
            let reduced = r0.minus(ri);
            w.resistances.set(owner, Some(reduced));
        }
        if w.weapon[item].is_some() {
            BasicAttack::reset(&mut w.basic_attack, owner);
        }
    }

    /// Resolve, creature by creature, each equip intent and then each
    /// unequip intent, and batch-clear both intent storages. With no
    /// intent pending anywhere the equipment state is untouched.
    pub fn run(w: &mut World)
        requires
            old(w).wf(),
        ensures
            final(w).wf(),
            *final(w) == (World {
                equipped: final(w).equipped,
                in_backpack: final(w).in_backpack,
                position: final(w).position,
                resistances: final(w).resistances,
                basic_attack: final(w).basic_attack,
                log: final(w).log,
                equip_intent: final(w).equip_intent,
                unequip_intent: final(w).unequip_intent,
                ..*old(w)
            }),
            forall|e: int| 0 <= e < final(w).n ==> (#[trigger] final(w).equip_intent@[e]) is None,
            forall|e: int| 0 <= e < final(w).n ==> (#[trigger] final(w).unequip_intent@[e]) is None,
            (forall|e: int|
                0 <= e < old(w).n ==> (#[trigger] old(w).equip_intent@[e]) is None && old(
                    w,
                ).unequip_intent@[e] is None) ==> (final(w).equipped@ == old(w).equipped@ && final(w).in_backpack@ == old(w).in_backpack@ && final(w).position@ == old(w).position@
                && final(w).resistances@ == old(w).resistances@ && final(w).basic_attack@ == old(
                w,
            ).basic_attack@ && final(w).log@ == old(w).log@),
            old(w).log@.is_prefix_of(final(w).log@),
            // the tick's one equip does the full equip work
            forall|c: int|
                0 <= c < old(w).n && lone_equip(old(w), c) ==> equip_outcome(old(w), final(w), c),
            // the tick's one unequip does the full unequip work
            forall|c: int|
                0 <= c < old(w).n && lone_unequip(old(w), c) ==> unequip_outcome(
                    old(w),
                    final(w),
                    c,
                ),
    {
        let n = w.n;
        let ghost idle = forall|e: int|
            0 <= e < old(w).n ==> (#[trigger] old(w).equip_intent@[e]) is None && old(
                w,
            ).unequip_intent@[e] is None;
        let mut e: usize = 0;
        while e < n
            invariant
                e <= n,
                old(w).wf(),
                w.wf(),
                n == w.n,
                *w == (World {
                    equipped: w.equipped,
                    in_backpack: w.in_backpack,
                    position: w.position,
                    resistances: w.resistances,
                    basic_attack: w.basic_attack,
                    log: w.log,
                    ..*old(w)
                }),
                idle == (forall|e2: int|
                    0 <= e2 < old(w).n ==> (#[trigger] old(w).equip_intent@[e2]) is None && old(
                        w,
                    ).unequip_intent@[e2] is None),
                idle ==> gear_untouched(old(w), w),
                old(w).log@.is_prefix_of(w.log@),
                forall|c: int|
                    0 <= c < n && #[trigger] lone_equip(old(w), c) ==> (e <= c ==> gear_untouched(
                        old(w),
                        w,
                    )) && (e > c ==> equip_outcome(old(w), w, c)),
                forall|c: int|
                    0 <= c < n && #[trigger] lone_unequip(old(w), c) ==> (e <= c
                        ==> gear_untouched(old(w), w)) && (e > c ==> unequip_outcome(
                        old(w),
                        w,
                        c,
                    )),
            decreases n - e,
        {
            let ghost pre = *w;
            let is_creature = w.creature[e];
            let equip_wanted = if is_creature {
                match &w.equip_intent[e] {
                    Some(intent) => Some(intent.item),
                    None => None,
                }
            } else {
                None
            };
            let mut equipped_now = false;
            if let Some(item) = equip_wanted {
                if w.equippable[item].is_some() {
                    Self::equip_one(w, e, item);
                    equipped_now = true;
                }
            }
            let ghost after_equip = *w;
            let unequip_wanted = if is_creature {
                match &w.unequip_intent[e] {
                    Some(intent) => Some(intent.item),
                    None => None,
                }
            } else {
                None
            };
            let mut unequipped_now = false;
            if let Some(item) = unequip_wanted {
                Self::unequip_one(w, e, item);
                unequipped_now = true;
            }
            proof {
                assert forall|c: int|
                    0 <= c < n && #[trigger] lone_equip(old(w), c) implies (e + 1 <= c
                    ==> gear_untouched(old(w), w)) && (e + 1 > c ==> equip_outcome(
                    old(w),
                    w,
                    c,
                )) by {
                    if c != e {
                        // this iteration held no intent, so nothing moved
                        assert(old(w).equip_intent@[e as int] is None);
                        assert(old(w).unequip_intent@[e as int] is None);
                        assert(!equipped_now && !unequipped_now);
                        assert(*w == pre);
                    } else {
                        // the lone equip resolves here, from an untouched state
                        assert(gear_untouched(old(w), &pre));
                        let a = old(w).equip_intent@[c]->Some_0.item as int;
                        let slot = old(w).equippable@[a]->Some_0.slot;
                        assert(equip_wanted == Some(old(w).equip_intent@[c]->Some_0.item));
                        assert(equipped_now && !unequipped_now);
                        assert(*w == after_equip);
                        lemma_find_equipped_same(&pre, old(w), c, slot, 0);
                        assert(equip_resistance(&pre, c, a, find_equipped(old(w), c, slot, 0))
                            == equip_resistance(old(w), c, a, find_equipped(old(w), c, slot, 0)));
                        assert(equip_outcome(old(w), w, c));
                    }
                }
                assert forall|c: int|
                    0 <= c < n && #[trigger] lone_unequip(old(w), c) implies (e + 1 <= c
                    ==> gear_untouched(old(w), w)) && (e + 1 > c ==> unequip_outcome(
                    old(w),
                    w,
                    c,
                )) by {
                    if c != e {
                        assert(old(w).equip_intent@[e as int] is None);
                        assert(old(w).unequip_intent@[e as int] is None);
                        assert(!equipped_now && !unequipped_now);
                        assert(*w == pre);
                    } else {
                        assert(gear_untouched(old(w), &pre));
                        assert(equip_wanted is None);
                        assert(!equipped_now);
                        assert(unequipped_now);
                        assert(unequip_outcome(old(w), w, c));
                    }
                }
            }
            e = e + 1;
        }
        let ghost mid = *w;
        let mut k: usize = 0;
        while k < n
            invariant
                k <= n,
                w.wf(),
                n == w.n,
                *w == (World {
                    equip_intent: w.equip_intent,
                    unequip_intent: w.unequip_intent,
                    ..mid
                }),
                forall|e2: int| 0 <= e2 < k ==> (#[trigger] w.equip_intent@[e2]) is None,
                forall|e2: int| 0 <= e2 < k ==> (#[trigger] w.unequip_intent@[e2]) is None,
            decreases n - k,
        {
            w.equip_intent.set(k, None);
            w.unequip_intent.set(k, None);
            k = k + 1;
        }
    }
}

/// Two equipment slots are the same slot.
pub fn slot_eq(a: EquipmentSlot, b: EquipmentSlot) -> (r: bool)
    ensures
        r == (a == b),
{
    a == b
}

} // verus!
