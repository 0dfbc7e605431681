//! Standardized colors and orthogonal directions for the interface layer.

use vstd::prelude::*;

use crate::components::Rgb;

verus! {

/// Semantic color choices; the terminal maps each to a concrete color.
#[derive(PartialEq, Eq, Structural, Clone, Copy, Debug)]
pub enum ColorOption {
    FOCUS,
    ALERT,
    CAUTION,
    OK,
    NONE,
    DEFAULT,
}

impl ColorOption {
    /// The concrete color each option stands for.
    pub open spec fn spec_value(&self) -> Rgb {
        match *self {
            ColorOption::DEFAULT => Rgb { r: 255, g: 255, b: 255 },
            ColorOption::FOCUS => Rgb { r: 255, g: 0, b: 255 },
            ColorOption::ALERT => Rgb { r: 255, g: 0, b: 0 },
            ColorOption::CAUTION => Rgb { r: 255, g: 255, b: 0 },
            ColorOption::OK => Rgb { r: 0, g: 255, b: 0 },
            ColorOption::NONE => Rgb { r: 0, g: 0, b: 0 },
        }
    }

    #[verifier::when_used_as_spec(spec_value)]
    pub fn value(&self) -> (r: Rgb)
        ensures
            r == self.spec_value(),
    {
        match *self {
            ColorOption::DEFAULT => Rgb { r: 255, g: 255, b: 255 },
            ColorOption::FOCUS => Rgb { r: 255, g: 0, b: 255 },
            ColorOption::ALERT => Rgb { r: 255, g: 0, b: 0 },
            ColorOption::CAUTION => Rgb { r: 255, g: 255, b: 0 },
            ColorOption::OK => Rgb { r: 0, g: 255, b: 0 },
            ColorOption::NONE => Rgb { r: 0, g: 0, b: 0 },
        }
    }
}

/// An orthogonal direction.
#[derive(PartialEq, Eq, Structural, Clone, Copy, Debug)]
pub enum Dir {
    UP,
    DOWN,
    LEFT,
    RIGHT,
}

/// The direction opposite to `d`.
pub fn opposite_dir(d: &Dir) -> (r: Dir)
    ensures
        r == (match *d {
            Dir::UP => Dir::DOWN,
            Dir::DOWN => Dir::UP,
            Dir::LEFT => Dir::RIGHT,
            Dir::RIGHT => Dir::LEFT,
        }),
{
    match d {
        Dir::UP => Dir::DOWN,
        Dir::DOWN => Dir::UP,
        Dir::LEFT => Dir::RIGHT,
        Dir::RIGHT => Dir::LEFT,
    }
}

} // verus!
