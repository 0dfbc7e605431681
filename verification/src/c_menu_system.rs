//! Context menus: each menu-bearing entity's option list is rebuilt every
//! tick from what the entity currently is and where it currently sits.

use vstd::prelude::*;

use crate::components::{Menuable, MenuOption};
use crate::world::World;

verus! {

/// The option tags an entity offers, in menu order.
pub open spec fn menu_tags(w: &World, e: int) -> Seq<MenuOption> {
    let base = Seq::<MenuOption>::empty();
    let with_item = if w.item@[e] {
        let a = if w.useable@[e] is Some {
            base.push(MenuOption::Use)
        } else {
            base
        };
        let b = if w.throwable@[e] is Some {
            a.push(MenuOption::Throw)
        } else {
            a
        };
        let c = if w.position@[e] is Some {
            b.push(MenuOption::PickUp)
        } else {
            b
        };
        let d = if w.in_backpack@[e] is Some {
            c.push(MenuOption::DropIt)
        } else {
            c
        };
        if w.equippable@[e] is Some {
            if w.equipped@[e] is Some {
                d.push(MenuOption::Unequip).push(MenuOption::DropIt)
            } else {
                d.push(MenuOption::Equip)
            }
        } else {
            d
        }
    } else {
        base
    };
    let with_attack = if w.hostile@[e] {
        with_item.push(MenuOption::Attack)
    } else {
        with_item
    };
    if w.entry_trigger@[e] is Some {
        with_attack.push(MenuOption::Use)
    } else {
        with_attack
    }
}

/// Populates menu components.
pub struct ContextMenuSystem {}

impl ContextMenuSystem {
    /// Rebuild every menu-bearing entity's option list from its current
    /// components; entities without a menu are untouched.
    pub fn run(w: &mut World)
        requires
            old(w).wf(),
        ensures
            final(w).wf(),
            *final(w) == (World { menuable: final(w).menuable, ..*old(w) }),
            forall|e: int|
                0 <= e < final(w).n && old(w).menuable@[e] is Some ==> (#[trigger] final(w).menuable@[e]) is Some && final(w).menuable@[e]->Some_0.options@.map_values(
                    |p: (MenuOption, String)| p.0,
                ) == menu_tags(old(w), e),
            forall|e: int|
                0 <= e < final(w).n && old(w).menuable@[e] is None ==> (#[trigger] final(w).menuable@[e]) is None,
    {
        let n = w.n;
        let mut e: usize = 0;
        while e < n
            invariant
                e <= n,
                old(w).wf(),
                w.wf(),
                n == w.n,
                *w == (World { menuable: w.menuable, ..*old(w) }),
                forall|e2: int|
                    0 <= e2 < e && old(w).menuable@[e2] is Some ==> (#[trigger] w.menuable@[e2]) is Some
                        && w.menuable@[e2]->Some_0.options@.map_values(
                        |p: (MenuOption, String)| p.0,
                    ) == menu_tags(old(w), e2),
                forall|e2: int|
                    0 <= e2 < n && (e2 >= e || old(w).menuable@[e2] is None) ==> (
                    #[trigger] w.menuable@[e2]) == old(w).menuable@[e2],
            decreases n - e,
        {
            if w.menuable[e].is_some() {
                let mut options: Vec<(MenuOption, String)> = Vec::new();
                if w.item[e] {
                    if w.useable[e].is_some() {
                        let label = match &w.useable[e] {
                            Some(u) => u.menu_name.clone(),
                            None => String::new(),
                        };
                        options.push((MenuOption::Use, label));
                    }
                    if w.throwable[e].is_some() {
                        options.push((MenuOption::Throw, String::from_str("Throw")));
                    }
                    if w.position[e].is_some() {
                        options.push((MenuOption::PickUp, String::from_str("Pick Up")));
                    }
                    if w.in_backpack[e].is_some() {
                        options.push((MenuOption::DropIt, String::from_str("Drop")));
                    }
                    if w.equippable[e].is_some() {
                        if w.equipped[e].is_some() {
                            options.push((MenuOption::Unequip, String::from_str("Unequip")));
                            options.push((MenuOption::DropIt, String::from_str("Unequip & Drop")));
                        } else {
                            options.push((MenuOption::Equip, String::from_str("Equip")));
                        }
                    }
                }
                if w.hostile[e] {
                    options.push((MenuOption::Attack, String::from_str("Attack")));
                }
                if w.entry_trigger[e].is_some() {
                    options.push((MenuOption::Use, String::from_str("Reset Trigger")));
                }
                proof {
                    assert(options@.map_values(|p: (MenuOption, String)| p.0) =~= menu_tags(
                        old(w),
                        e as int,
                    ));
                }
                w.menuable.set(e, Some(Menuable { options }));
            }
            e = e + 1;
        }
    }
}

} // verus!
