//! The game-over screen's choices.

use vstd::prelude::*;

verus! {

/// What the game-over screen offers.
#[derive(PartialEq, Eq, Structural, Clone, Copy, Debug)]
pub enum Selection {
    NewGame,
    Quit,
}

} // verus!
