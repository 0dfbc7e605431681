//! Prefabricated map sections: a fixed glyph template stamped onto one
//! edge or corner of a generated level.

use vstd::prelude::*;

verus! {

/// Where a section sits horizontally.
#[derive(PartialEq, Eq, Structural, Clone, Copy, Debug)]
pub enum HorizontalPlacement {
    Left,
    Center,
    Right,
}

/// Where a section sits vertically.
#[derive(PartialEq, Eq, Structural, Clone, Copy, Debug)]
pub enum VerticalPlacement {
    Top,
    Center,
    Bottom,
}

/// A rectangular glyph template with its size and placement.
#[derive(Clone, Copy)]
pub struct PrefabSection {
    pub template: &'static str,
    pub width: usize,
    pub height: usize,
    pub horizontal: HorizontalPlacement,
    pub vertical: VerticalPlacement,
}

impl PrefabSection {
    /// The section's template covers its stated rectangle.
    pub open spec fn wf(&self) -> bool {
        self.width * self.height <= self.template@.len()
    }
}

} // verus!
