//! A scroll bar: a movable window into a list, driven by commands.

use vstd::prelude::*;

use crate::components::Position;
use crate::look_n_feel::Dir;

verus! {

/// A self-contained scroll bar showing a window into `content_len` rows.
pub struct ScrollBar {
    pub pos: Position,
    pub slice_bounds: (usize, usize),
    pub content_len: usize,
}

impl ScrollBar {
    /// The window stays ordered and inside the content.
    pub open spec fn wf(&self) -> bool {
        &&& self.slice_bounds.0 <= self.slice_bounds.1
        &&& self.slice_bounds.1 <= self.content_len
    }

    /// A scroll bar at `pos` showing the first `depth` rows of a list of
    /// `content_len`.
    pub fn new(pos: Position, content_len: usize, depth: u8) -> (r: ScrollBar)
        requires
            depth as usize <= content_len,
        ensures
            r.wf(),
            r.pos == pos,
            r.slice_bounds == (0usize, depth as usize),
            r.content_len == content_len,
    {
        ScrollBar { pos, slice_bounds: (0, depth as usize), content_len }
    }

    /// Slide the window one row up or down, stopping at either end; other
    /// directions do nothing.
    pub fn scroll(&mut self, direction: Dir)
        requires
            old(self).wf(),
        ensures
            final(self).wf(),
            final(self).pos == old(self).pos,
            final(self).content_len == old(self).content_len,
            direction == Dir::UP && old(self).slice_bounds.0 > 0 ==> final(self).slice_bounds == (
                (old(self).slice_bounds.0 - 1) as usize,
                (old(self).slice_bounds.1 - 1) as usize,
            ),
            direction == Dir::DOWN && old(self).slice_bounds.1 < old(self).content_len ==> final(self).slice_bounds == (
                (old(self).slice_bounds.0 + 1) as usize,
                (old(self).slice_bounds.1 + 1) as usize,
            ),
            !(direction == Dir::UP && old(self).slice_bounds.0 > 0) && !(direction == Dir::DOWN
                && old(self).slice_bounds.1 < old(self).content_len) ==> final(self).slice_bounds == old(self).slice_bounds,
    {
        let (lo, hi) = self.slice_bounds;
        let up = match direction {
            Dir::UP => true,
            _ => false,
        };
        let down = match direction {
            Dir::DOWN => true,
            _ => false,
        };
        if up && lo > 0 {
            self.slice_bounds = (lo - 1, hi - 1);
        } else if down && hi < self.content_len {
            self.slice_bounds = (lo + 1, hi + 1);
        }
    }
}

/// Tells a scroll bar to slide its window.
pub struct ScrollCommand {
    pub direction: Dir,
}

impl ScrollCommand {
    /// A command to scroll one row toward `direction`.
    pub fn new(direction: Dir) -> (r: Self)
        ensures
            r.direction == direction,
    {
        ScrollCommand { direction }
    }

    /// Slide the scroll bar's window.
    pub fn execute(&self, scrollbar: &mut ScrollBar)
        requires
            old(scrollbar).wf(),
        ensures
            final(scrollbar).wf(),
    {
        scrollbar.scroll(self.direction);
    }
}

/// Tells a scroll bar's cursor to move, scrolling at the window's edges.
pub struct MoveCursorCommand {
    pub direction: Dir,
}

impl MoveCursorCommand {
    /// A command to move the cursor toward `direction`.
    pub fn new(direction: Dir) -> (r: Self)
        ensures
            r.direction == direction,
    {
        MoveCursorCommand { direction }
    }
}

} // verus!
