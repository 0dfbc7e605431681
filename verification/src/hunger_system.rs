//! The hunger clock. Whose clock ticks depends on the phase: the player's
//! only during the player's turn, everyone else's only during the world's
//! turn. A clock reaching zero advances the hunger ladder; a starving
//! entity takes starvation damage every following tick.

use vstd::prelude::*;

use crate::components::{clamp_i32, DamageAtom, DamageQueue, Hunger, HungerState};
use crate::gamelog;
use crate::world::World;
use crate::RunState;

verus! {

/// Whether entity `e`'s hunger advances in phase `rs`.
pub open spec fn hunger_gate(rs: RunState, e: int, player: int) -> bool {
    match rs {
        RunState::PlayerTurn => e == player,
        RunState::GameworldTurn => e != player,
        _ => false,
    }
}

/// One tick of a hunger clock: the clock drops by one (saturating); on
/// reaching zero the state advances down the ladder with a fresh clock,
/// except that a starving entity stays starving.
pub open spec fn ticked_hunger(h: Hunger) -> Hunger {
    let c = clamp_i32(h.clock - 1) as i32;
    if c < 1 {
        match h.state {
            HungerState::Stuffed => Hunger { state: HungerState::Satiated, clock: 400 },
            HungerState::Satiated => Hunger { state: HungerState::Hungry, clock: 500 },
            HungerState::Hungry => Hunger { state: HungerState::Famished, clock: 700 },
            HungerState::Famished => Hunger { state: HungerState::Starving, clock: 1000 },
            HungerState::Starving => Hunger { state: HungerState::Starving, clock: c },
        }
    } else {
        Hunger { state: h.state, clock: c }
    }
}

/// A starving entity whose clock has run out takes starvation damage.
pub open spec fn starves(h: Hunger) -> bool {
    clamp_i32(h.clock - 1) < 1 && h.state is Starving
}

/// Every ladder transition except leaving the stuffed state tells the
/// player about it.
pub open spec fn hunger_message(h: Hunger) -> bool {
    clamp_i32(h.clock - 1) < 1 && !(h.state is Stuffed)
}

/// The player's hunger advances this run and produces a log line.
pub open spec fn player_hunger_message(w: &World) -> bool {
    &&& hunger_gate(w.run_state, w.player_entity as int, w.player_entity as int)
    &&& w.hunger@[w.player_entity as int] is Some
    &&& hunger_message(w.hunger@[w.player_entity as int]->Some_0)
}

/// Advances each gated entity's hunger clock once per tick.
pub struct HungerSystem {}

impl HungerSystem {
    /// Tick every gated hunger clock: the clock drops and the ladder
    /// advances exactly as `ticked_hunger` says; starving entities queue
    /// one starvation atom onto their own damage queue; a player
    /// transition below stuffed emits exactly one log line.
    pub fn run(w: &mut World)
        requires
            old(w).wf(),
        ensures
            final(w).wf(),
            *final(w) == (World {
                hunger: final(w).hunger,
                damage_queue: final(w).damage_queue,
                log: final(w).log,
                ..*old(w)
            }),
            forall|e: int|
                0 <= e < final(w).n && hunger_gate(
                    old(w).run_state,
                    e,
                    old(w).player_entity as int,
                ) && old(w).hunger@[e] is Some ==> (#[trigger] final(w).hunger@[e]) == Some(
                    ticked_hunger(old(w).hunger@[e]->Some_0),
                ),
            forall|e: int|
                0 <= e < final(w).n && !(hunger_gate(
                    old(w).run_state,
                    e,
                    old(w).player_entity as int,
                ) && old(w).hunger@[e] is Some) ==> (#[trigger] final(w).hunger@[e]) == old(
                    w,
                ).hunger@[e],
            forall|e: int|
                0 <= e < final(w).n && hunger_gate(
                    old(w).run_state,
                    e,
                    old(w).player_entity as int,
                ) && old(w).hunger@[e] is Some && starves(old(w).hunger@[e]->Some_0)
                    ==> DamageQueue::pending(final(w).damage_queue@, e) == DamageQueue::pending(
                    old(w).damage_queue@,
                    e,
                ).push(DamageAtom::Starvation),
            forall|e: int|
                0 <= e < final(w).n && !(hunger_gate(
                    old(w).run_state,
                    e,
                    old(w).player_entity as int,
                ) && old(w).hunger@[e] is Some && starves(old(w).hunger@[e]->Some_0)) ==> (
                #[trigger] final(w).damage_queue@[e]) == old(w).damage_queue@[e],
            // exactly one log line, on the player's own transition
            player_hunger_message(old(w)) ==> final(w).log@.len() == old(w).log@.len() + 1,
            !player_hunger_message(old(w)) ==> final(w).log@ == old(w).log@,
            old(w).log@.is_prefix_of(final(w).log@),
    {
        let n = w.n;
        let player = w.player_entity;
        let mut e: usize = 0;
        while e < n
            invariant
                e <= n,
                w.wf(),
                n == w.n,
                player == old(w).player_entity,
                *w == (World {
                    hunger: w.hunger,
                    damage_queue: w.damage_queue,
                    log: w.log,
                    ..*old(w)
                }),
                forall|e2: int|
                    0 <= e2 < n && e2 < e && hunger_gate(old(w).run_state, e2, player as int)
                        && old(w).hunger@[e2] is Some ==> (#[trigger] w.hunger@[e2]) == Some(
                        ticked_hunger(old(w).hunger@[e2]->Some_0),
                    ),
                forall|e2: int|
                    0 <= e2 < n && (e2 >= e || !(hunger_gate(old(w).run_state, e2, player as int)
                        && old(w).hunger@[e2] is Some)) ==> (#[trigger] w.hunger@[e2]) == old(
                        w,
                    ).hunger@[e2],
                forall|e2: int|
                    0 <= e2 < n && e2 < e && hunger_gate(old(w).run_state, e2, player as int)
                        && old(w).hunger@[e2] is Some && starves(old(w).hunger@[e2]->Some_0)
                        ==> DamageQueue::pending(w.damage_queue@, e2) == DamageQueue::pending(
                        old(w).damage_queue@,
                        e2,
                    ).push(DamageAtom::Starvation),
                forall|e2: int|
                    0 <= e2 < n && (e2 >= e || !(hunger_gate(old(w).run_state, e2, player as int)
                        && old(w).hunger@[e2] is Some && starves(old(w).hunger@[e2]->Some_0)))
                        ==> (#[trigger] w.damage_queue@[e2]) == old(w).damage_queue@[e2],
                (player_hunger_message(old(w)) && e > player as int) ==> w.log@.len() == old(
                    w,
                ).log@.len() + 1,
                !(player_hunger_message(old(w)) && e > player as int) ==> w.log@ == old(w).log@,
                old(w).log@.is_prefix_of(w.log@),
            decreases n - e,
        {
            let gated = match w.run_state {
                RunState::PlayerTurn => e == player,
                RunState::GameworldTurn => e != player,
                _ => false,
            };
            proof {
                assert(gated == hunger_gate(old(w).run_state, e as int, player as int));
            }
            if gated && w.hunger[e].is_some() {
                let h = w.hunger[e].unwrap();
                let c = crate::components::sat_sub(h.clock, 1);
                let new_h: Hunger = if c < 1 {
                    match h.state {
                        HungerState::Stuffed => Hunger {
                            state: HungerState::Satiated,
                            clock: 400,
                        },
                        HungerState::Satiated => Hunger { state: HungerState::Hungry, clock: 500 },
                        HungerState::Hungry => Hunger { state: HungerState::Famished, clock: 700 },
                        HungerState::Famished => Hunger {
                            state: HungerState::Starving,
                            clock: 1000,
                        },
                        HungerState::Starving => Hunger { state: HungerState::Starving, clock: c },
                    }
                } else {
                    Hunger { state: h.state, clock: c }
                };
                w.hunger.set(e, Some(new_h));
                if c < 1 {
                    if e == player {
                        match h.state {
                            HungerState::Stuffed => {},
                            HungerState::Satiated => {
                                gamelog::push_line(
                                    &mut w.log,
                                    String::from_str("Your belly grumbles."),
                                );
                            },
                            HungerState::Hungry => {
                                gamelog::push_line(
                                    &mut w.log,
                                    String::from_str("You are famished!"),
                                );
                            },
                            HungerState::Famished => {
                                gamelog::push_line(
                                    &mut w.log,
                                    String::from_str("You are starving."),
                                );
                            },
                            HungerState::Starving => {
                                gamelog::push_line(
                                    &mut w.log,
                                    String::from_str("You are starving to death."),
                                );
                            },
                        }
                    }
                    let is_starving = match h.state {
                        HungerState::Starving => true,
                        _ => false,
                    };
                    if is_starving {
                        DamageQueue::queue_damage(&mut w.damage_queue, e, DamageAtom::Starvation);
                    }
                }
            }
            e = e + 1;
        }
    }
}

} // verus!
