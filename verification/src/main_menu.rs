//! The main menu's choices.

use vstd::prelude::*;

verus! {

/// What the main menu offers.
#[derive(PartialEq, Eq, Structural, Clone, Copy, Debug)]
pub enum Selection {
    NewGame,
    LoadGame,
    Quit,
}

} // verus!
