//! Plain-data components. An entity is an index into the world's component
//! columns; each component here is one column's element type.

use vstd::prelude::*;

verus! {

/// Entities are plain indices into the world's component columns.
pub type Entity = usize;

/// A damage atom is either a typed numeric amount or a resistance-immune
/// status tag whose implied amount is a flat 1.
#[derive(PartialEq, Eq, Structural, Clone, Copy, Debug)]
pub enum DamageAtom {
    Bludgeon(i32),
    Pierce(i32),
    Slash(i32),
    Thermal(i32),
    Bleed,
    Poison,
    Starvation,
    Suffocation,
    Venom,
}

impl DamageAtom {
    /// The numeric amount carried by this atom; status tags count as 1.
    pub open spec fn spec_value(&self) -> i32 {
        match *self {
            DamageAtom::Bludgeon(v) => v,
            DamageAtom::Pierce(v) => v,
            DamageAtom::Slash(v) => v,
            DamageAtom::Thermal(v) => v,
            _ => 1,
        }
    }

    /// Whether this atom is one of the four numeric damage types.
    pub open spec fn is_numeric(&self) -> bool {
        match *self {
            DamageAtom::Bludgeon(_)
            | DamageAtom::Pierce(_)
            | DamageAtom::Slash(_)
            | DamageAtom::Thermal(_) => true,
            _ => false,
        }
    }

    #[verifier::when_used_as_spec(spec_value)]
    pub fn value(&self) -> (v: i32)
        ensures
            v == self.spec_value(),
    {
        match self {
            DamageAtom::Bludgeon(v) => *v,
            DamageAtom::Pierce(v) => *v,
            DamageAtom::Slash(v) => *v,
            DamageAtom::Thermal(v) => *v,
            _ => 1,
        }
    }
}

/// `x` clamped into the `i32` range.
pub open spec fn clamp_i32(x: int) -> int {
    if x > i32::MAX as int {
        i32::MAX as int
    } else if x < i32::MIN as int {
        i32::MIN as int
    } else {
        x
    }
}

/// Saturating `i32` addition: exact wherever the sum fits.
pub fn sat_add(a: i32, b: i32) -> (r: i32)
    ensures
        r == clamp_i32(a + b),
{
    let s: i64 = a as i64 + b as i64;
    if s > i32::MAX as i64 {
        i32::MAX
    } else if s < i32::MIN as i64 {
        i32::MIN
    } else {
        s as i32
    }
}

/// Saturating `i32` subtraction: exact wherever the difference fits.
pub fn sat_sub(a: i32, b: i32) -> (r: i32)
    ensures
        r == clamp_i32(a - b),
{
    let s: i64 = a as i64 - b as i64;
    if s > i32::MAX as i64 {
        i32::MAX
    } else if s < i32::MIN as i64 {
        i32::MIN
    } else {
        s as i32
    }
}

// --------------- Fieldless marker components -----------------
// In the world these are stored as one boolean column each: Hostile,
// Creature, BlocksTile, BlocksVisibility, Player, Consumable, Item,
// Bleeding, Flammable, Aflame, Hidden, JustMoved, MagicMapper.

/// An `(x, y)` integer tile coordinate.
#[derive(PartialEq, Eq, Structural, Clone, Copy, Debug)]
pub struct Position {
    pub x: i32,
    pub y: i32,
}

/// Resource pools and attributes of a creature.
/// Invariant (kept by the world): `0 <= hp <= max_hp`, and likewise for
/// `fp` and `mp`.
#[derive(PartialEq, Eq, Structural, Clone, Copy, Debug)]
pub struct Stats {
    pub max_hp: i32,
    pub hp: i32,
    pub max_fp: i32,
    pub fp: i32,
    pub max_mp: i32,
    pub mp: i32,
    pub mind: i32,
    pub body: i32,
    pub soul: i32,
}

impl Stats {
    /// The pool invariant: each resource sits between 0 and its maximum.
    pub open spec fn wf(&self) -> bool {
        &&& 0 <= self.hp <= self.max_hp
        &&& 0 <= self.fp <= self.max_fp
        &&& 0 <= self.mp <= self.max_mp
    }
}

/// A plain color, one byte per channel.
#[derive(PartialEq, Eq, Structural, Clone, Copy, Debug)]
pub struct Rgb {
    pub r: u8,
    pub g: u8,
    pub b: u8,
}

/// What an entity looks like on screen; colors are plain byte triples.
#[derive(PartialEq, Eq, Structural, Clone, Copy, Debug)]
pub struct Renderable {
    pub glyph: u16,
    pub fg: Rgb,
    pub bg: Rgb,
    pub render_order: i32,
}

/// A short-lived visual-effect entity.
#[derive(PartialEq, Eq, Structural, Clone, Copy, Debug)]
pub struct Particle {
    pub lifetime_ms: u32,
}

/// The set of tiles currently visible to an entity, recomputed on demand
/// via the dirty flag.
#[derive(Clone, Debug)]
pub struct Viewshed {
    pub visible_tiles: Vec<Position>,
    pub range: i32,
    pub dirty: bool,
}

/// Display name.
#[derive(Clone, Debug)]
pub struct Name {
    pub name: String,
}

/// Item or effect reach, in tiles.
#[derive(PartialEq, Eq, Structural, Clone, Copy, Debug)]
pub struct Ranged {
    pub range: i32,
}

/// Area-of-effect radius of an item's effect.
#[derive(PartialEq, Eq, Structural, Clone, Copy, Debug)]
pub struct AoE {
    pub radius: i32,
}

/// Confused for this many turns.
#[derive(PartialEq, Eq, Structural, Clone, Copy, Debug)]
pub struct Confusion {
    pub turns: i32,
}

/// An ongoing heal-over-time effect on a creature.
/// Invariant (kept by the world): `amount >= 0`.
#[derive(PartialEq, Eq, Structural, Clone, Copy, Debug)]
pub struct Healing {
    pub duration: i32,
    pub amount: i32,
}

/// An item property: using the item causes `Healing` on the target.
#[derive(PartialEq, Eq, Structural, Clone, Copy, Debug)]
pub struct Heals {
    pub duration: i32,
    pub amount: i32,
}

/// The hunger ladder, from most to least fed.
#[derive(PartialEq, Eq, Structural, Clone, Copy, Debug)]
pub enum HungerState {
    Stuffed,
    Satiated,
    Hungry,
    Famished,
    Starving,
}

/// A per-entity hunger clock; on reaching zero the state advances.
#[derive(PartialEq, Eq, Structural, Clone, Copy, Debug)]
pub struct Hunger {
    pub state: HungerState,
    pub clock: i32,
}

/// The item is stowed in `owner`'s backpack.
#[derive(PartialEq, Eq, Structural, Clone, Copy, Debug)]
pub struct InBackpack {
    pub owner: Entity,
}

/// Body slots equipment can occupy.
#[derive(PartialEq, Eq, Structural, Clone, Copy, Debug, Hash)]
pub enum EquipmentSlot {
    LeftHand,
    RightHand,
    Helm,
    Armor,
    Boots,
    Gloves,
    Necklace,
    Ring,
    Back,
}

/// The item can be equipped into `slot`.
#[derive(PartialEq, Eq, Structural, Clone, Copy, Debug)]
pub struct Equippable {
    pub slot: EquipmentSlot,
}

/// The item is currently worn or wielded by `owner` in `slot`.
#[derive(PartialEq, Eq, Structural, Clone, Copy, Debug)]
pub struct Equipped {
    pub owner: Entity,
    pub slot: EquipmentSlot,
}

/// The attack a weapon grants: its first available mode, in
/// primary-secondary-tertiary priority order.
pub open spec fn weapon_mode(wp: Weapon) -> Option<DamageAtom> {
    if wp.primary is Some {
        wp.primary
    } else if wp.secondary is Some {
        wp.secondary
    } else {
        wp.tertiary
    }
}

/// Attack modes of a weapon, in priority order.
#[derive(Clone, Copy, Debug)]
pub struct Weapon {
    pub primary: Option<DamageAtom>,
    pub secondary: Option<DamageAtom>,
    pub tertiary: Option<DamageAtom>,
}

/// A creature's default melee attack: `base` is what it falls back to when
/// nothing is wielded, `current` is what it strikes with now.
#[derive(PartialEq, Eq, Structural, Clone, Copy, Debug)]
pub struct BasicAttack {
    pub base: DamageAtom,
    pub current: DamageAtom,
}

impl BasicAttack {
    /// Set `current` on the targeted entity's attack, if it has one.
    pub fn modify(col: &mut Vec<Option<BasicAttack>>, target: Entity, delta: DamageAtom)
        requires
            target < old(col).len(),
        ensures
            final(col).len() == old(col).len(),
            old(col)@[target as int] is Some ==> final(col)@ == old(col)@.update(
                target as int,
                Some(
                    BasicAttack {
                        base: old(col)@[target as int]->Some_0.base,
                        current: delta,
                    },
                ),
            ),
            old(col)@[target as int] is None ==> final(col)@ == old(col)@,
    {
        if let Some(basic_attack) = &mut col[target] {
            basic_attack.current = delta;
            proof {
                assert(final(col)@ =~= old(col)@.update(
                    target as int,
                    Some(
                        BasicAttack {
                            base: old(col)@[target as int]->Some_0.base,
                            current: delta,
                        },
                    ),
                ));
            }
        } else {
            proof {
                assert(final(col)@ =~= old(col)@);
            }
        }
    }

    /// Reset `current` to `base` on the targeted entity's attack, if it has
    /// one.
    pub fn reset(col: &mut Vec<Option<BasicAttack>>, target: Entity)
        requires
            target < old(col).len(),
        ensures
            final(col).len() == old(col).len(),
            old(col)@[target as int] is Some ==> final(col)@ == old(col)@.update(
                target as int,
                Some(
                    BasicAttack {
                        base: old(col)@[target as int]->Some_0.base,
                        current: old(col)@[target as int]->Some_0.base,
                    },
                ),
            ),
            old(col)@[target as int] is None ==> final(col)@ == old(col)@,
    {
        if let Some(basic_attack) = &mut col[target] {
            basic_attack.current = basic_attack.base;
            proof {
                assert(final(col)@ =~= old(col)@.update(
                    target as int,
                    Some(
                        BasicAttack {
                            base: old(col)@[target as int]->Some_0.base,
                            current: old(col)@[target as int]->Some_0.base,
                        },
                    ),
                ));
            }
        } else {
            proof {
                assert(final(col)@ =~= old(col)@);
            }
        }
    }
}

impl Default for BasicAttack {
    /// A bare-handed strike.
    fn default() -> (r: BasicAttack)
        ensures
            r == (BasicAttack { base: DamageAtom::Bludgeon(1), current: DamageAtom::Bludgeon(1) }),
    {
        BasicAttack { base: DamageAtom::Bludgeon(1), current: DamageAtom::Bludgeon(1) }
    }
}

/// Pending damage atoms on a target entity, drained exactly once per tick
/// by the damage system.
#[derive(Clone, Debug)]
pub struct DamageQueue {
    pub queue: Vec<DamageAtom>,
}

impl DamageQueue {
    /// The atoms pending on `target` in column `col`; an absent queue holds
    /// nothing.
    pub open spec fn pending(col: Seq<Option<DamageQueue>>, target: int) -> Seq<DamageAtom> {
        if col[target] is Some {
            col[target]->Some_0.queue@
        } else {
            Seq::empty()
        }
    }

    /// Append `dmg` to the target's queue, creating the queue on its first
    /// use this tick.
    pub fn queue_damage(col: &mut Vec<Option<DamageQueue>>, target: Entity, dmg: DamageAtom)
        requires
            target < old(col).len(),
        ensures
            final(col).len() == old(col).len(),
            Self::pending(final(col)@, target as int) == Self::pending(old(col)@, target as int)
                .push(dmg),
            forall|e: int| 0 <= e < old(col).len() && e != target ==> final(col)@[e] == old(col)@[e],
            final(col)@[target as int] is Some,
    {
        let slot_taken = col[target].is_some();
        if slot_taken {
            let queue_ref = &mut col[target];
            match queue_ref {
                Some(damage_queue) => {
                    damage_queue.queue.push(dmg);
                },
                None => {},
            }
            proof {
                assert(Self::pending(final(col)@, target as int) =~= Self::pending(
                    old(col)@,
                    target as int,
                ).push(dmg));
            }
        } else {
            let mut queue: Vec<DamageAtom> = Vec::new();
            queue.push(dmg);
            col.set(target, Some(DamageQueue { queue }));
            proof {
                assert(Self::pending(final(col)@, target as int) =~= Self::pending(
                    old(col)@,
                    target as int,
                ).push(dmg));
            }
        }
    }
}

/// Flat reductions applied to incoming numeric damage, one per type.
#[derive(PartialEq, Eq, Structural, Clone, Copy, Debug)]
pub struct Resistances {
    pub bludgeon: DamageAtom,
    pub pierce: DamageAtom,
    pub slash: DamageAtom,
    pub thermal: DamageAtom,
}

/// Component-wise sum of two resistance sets, saturating in each component.
pub open spec fn res_plus(a: Resistances, b: Resistances) -> Resistances {
    Resistances {
        bludgeon: DamageAtom::Bludgeon(
            clamp_i32(a.bludgeon.spec_value() + b.bludgeon.spec_value()) as i32,
        ),
        pierce: DamageAtom::Pierce(clamp_i32(a.pierce.spec_value() + b.pierce.spec_value()) as i32),
        slash: DamageAtom::Slash(clamp_i32(a.slash.spec_value() + b.slash.spec_value()) as i32),
        thermal: DamageAtom::Thermal(
            clamp_i32(a.thermal.spec_value() + b.thermal.spec_value()) as i32,
        ),
    }
}

/// Component-wise difference of two resistance sets, saturating in each
/// component.
pub open spec fn res_minus(a: Resistances, b: Resistances) -> Resistances {
    Resistances {
        bludgeon: DamageAtom::Bludgeon(
            clamp_i32(a.bludgeon.spec_value() - b.bludgeon.spec_value()) as i32,
        ),
        pierce: DamageAtom::Pierce(clamp_i32(a.pierce.spec_value() - b.pierce.spec_value()) as i32),
        slash: DamageAtom::Slash(clamp_i32(a.slash.spec_value() - b.slash.spec_value()) as i32),
        thermal: DamageAtom::Thermal(
            clamp_i32(a.thermal.spec_value() - b.thermal.spec_value()) as i32,
        ),
    }
}

impl Resistances {
    /// Component-wise sum, saturating in each component.
    pub fn plus(self, other: Self) -> (r: Self)
        ensures
            r == res_plus(self, other),
    {
        Resistances {
            bludgeon: DamageAtom::Bludgeon(sat_add(self.bludgeon.value(), other.bludgeon.value())),
            pierce: DamageAtom::Pierce(sat_add(self.pierce.value(), other.pierce.value())),
            slash: DamageAtom::Slash(sat_add(self.slash.value(), other.slash.value())),
            thermal: DamageAtom::Thermal(sat_add(self.thermal.value(), other.thermal.value())),
        }
    }

    /// Component-wise difference, saturating in each component.
    pub fn minus(self, other: Self) -> (r: Self)
        ensures
            r == res_minus(self, other),
    {
        Resistances {
            bludgeon: DamageAtom::Bludgeon(sat_sub(self.bludgeon.value(), other.bludgeon.value())),
            pierce: DamageAtom::Pierce(sat_sub(self.pierce.value(), other.pierce.value())),
            slash: DamageAtom::Slash(sat_sub(self.slash.value(), other.slash.value())),
            thermal: DamageAtom::Thermal(sat_sub(self.thermal.value(), other.thermal.value())),
        }
    }
}

impl Default for Resistances {
    /// No resistance to anything.
    fn default() -> (r: Resistances)
        ensures
            r == (Resistances {
                bludgeon: DamageAtom::Bludgeon(0),
                pierce: DamageAtom::Pierce(0),
                slash: DamageAtom::Slash(0),
                thermal: DamageAtom::Thermal(0),
            }),
    {
        Resistances {
            bludgeon: DamageAtom::Bludgeon(0),
            pierce: DamageAtom::Pierce(0),
            slash: DamageAtom::Slash(0),
            thermal: DamageAtom::Thermal(0),
        }
    }
}

/// Flat immunities to the status tags.
#[derive(PartialEq, Eq, Structural, Clone, Copy, Debug)]
pub struct Immunities {
    pub bleed: DamageAtom,
    pub poison: DamageAtom,
    pub starvation: DamageAtom,
    pub suffocation: DamageAtom,
    pub venom: DamageAtom,
}

/// An item property: using the item queues these atoms on the target.
#[derive(Clone, Debug)]
pub struct DamageOnUse {
    pub dmg_atoms: Vec<DamageAtom>,
}

/// The item can be activated from a menu under this label.
#[derive(Clone, Debug)]
pub struct Useable {
    pub menu_name: String,
}

/// The item can be thrown, striking for `dmg`.
#[derive(PartialEq, Eq, Structural, Clone, Copy, Debug)]
pub struct Throwable {
    pub dmg: DamageAtom,
}

/// The entity sheds light of `radius` tiles while lit.
#[derive(PartialEq, Eq, Structural, Clone, Copy, Debug)]
pub struct Lightsource {
    pub is_lit: bool,
    pub radius: i32,
}

impl Default for Lightsource {
    /// Unlit, with a ten-tile radius once lit.
    fn default() -> (r: Lightsource)
        ensures
            r == (Lightsource { is_lit: false, radius: 10 }),
    {
        Lightsource { is_lit: false, radius: 10 }
    }
}

/// A door that can stand open or closed.
#[derive(PartialEq, Eq, Structural, Clone, Copy, Debug)]
pub struct Door {
    pub open: bool,
}

/// Stepping onto this entity's tile springs it.
#[derive(PartialEq, Eq, Structural, Clone, Copy, Debug)]
pub struct EntryTrigger {
    pub repeatable: bool,
}

// --------------- Intent components ----------------
// Each is a one-tick request attached to the acting entity, consumed and
// batch-cleared by exactly one system per tick.

/// Strike `target` in melee this tick.
#[derive(PartialEq, Eq, Structural, Clone, Copy, Debug)]
pub struct MeleeIntent {
    pub target: Entity,
}

/// Pick `item` up into `desired_by`'s backpack this tick.
#[derive(PartialEq, Eq, Structural, Clone, Copy, Debug)]
pub struct PickUpIntent {
    pub item: Entity,
    pub desired_by: Entity,
}

/// Use `item`, optionally aimed at a map point.
#[derive(Clone, Copy, Debug)]
pub struct UseItemIntent {
    pub item: Entity,
    pub target: Option<Position>,
}

/// Throw `item`, optionally aimed at a map point.
#[derive(Clone, Copy, Debug)]
pub struct ThrowIntent {
    pub item: Entity,
    pub target: Option<Position>,
}

/// Drop `item` at the dropper's feet.
#[derive(PartialEq, Eq, Structural, Clone, Copy, Debug)]
pub struct DropItemIntent {
    pub item: Entity,
}

/// Equip `item` into its slot.
#[derive(PartialEq, Eq, Structural, Clone, Copy, Debug)]
pub struct EquipIntent {
    pub item: Entity,
}

/// Take `item` off, back into the backpack.
#[derive(PartialEq, Eq, Structural, Clone, Copy, Debug)]
pub struct UnequipIntent {
    pub item: Entity,
}

/// Actions offered by a context menu.
#[derive(PartialEq, Eq, Structural, Clone, Copy, Debug)]
pub enum MenuOption {
    PickUp,
    DropIt,
    Use,
    Equip,
    Unequip,
    Attack,
    Throw,
}

/// Context-menu entries currently offered for an entity.
#[derive(Clone, Debug)]
pub struct Menuable {
    pub options: Vec<(MenuOption, String)>,
}

impl Default for Menuable {
    /// An empty menu.
    fn default() -> (r: Menuable)
        ensures
            r.options@.len() == 0,
    {
        Menuable { options: Vec::new() }
    }
}

/// A queued visual-effect request, materialized as a short-lived entity by
/// the particle spawn system.
#[derive(PartialEq, Eq, Structural, Clone, Copy, Debug)]
pub struct ParticleRequest {
    pub x: i32,
    pub y: i32,
    pub fg: Rgb,
    pub bg: Rgb,
    pub glyph: u16,
    pub lifetime_ms: u32,
}

/// Every sequence is a prefix of itself.
pub proof fn lemma_prefix_refl<T>(a: Seq<T>)
    ensures
        a.is_prefix_of(a),
{
    assert(a.subrange(0, a.len() as int) =~= a);
}

/// A prefix stays a prefix when the longer sequence grows.
pub proof fn lemma_prefix_push<T>(a: Seq<T>, b: Seq<T>, x: T)
    requires
        a.is_prefix_of(b),
    ensures
        a.is_prefix_of(b.push(x)),
{
    assert(b.push(x).subrange(0, a.len() as int) =~= a);
}

/// Prefixes chain.
pub proof fn lemma_prefix_trans<T>(a: Seq<T>, b: Seq<T>, c: Seq<T>)
    requires
        a.is_prefix_of(b),
        b.is_prefix_of(c),
    ensures
        a.is_prefix_of(c),
{
    assert(c.subrange(0, a.len() as int) =~= a);
}

} // verus!
