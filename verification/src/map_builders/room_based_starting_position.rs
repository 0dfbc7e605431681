//! The starting position: the center of the first room laid out.

use vstd::prelude::*;

use crate::components::Position;
use crate::map_builders::{BuilderMap, MetaMapBuilder};

verus! {

/// Starts the player in the first room.
pub struct RoomBasedStartingPosition {}

impl MetaMapBuilder for RoomBasedStartingPosition {
    fn build_map(&mut self, build_data: &mut BuilderMap) {
        self.build(build_data);
    }
}

impl RoomBasedStartingPosition {
    /// A fresh starting-position chooser.
    pub fn new() -> (r: Box<RoomBasedStartingPosition>) {
        Box::new(RoomBasedStartingPosition {})
    }

    /// Put the starting position at the first room's center. Rooms must
    /// already have been laid out; without any, nothing is chosen.
    fn build(&mut self, build_data: &mut BuilderMap)
        requires
            old(build_data).wf(),
        ensures
            final(build_data).wf(),
            *final(build_data) == (BuilderMap {
                starting_position: final(build_data).starting_position,
                ..*old(build_data)
            }),
    {
        let has_first = match &build_data.rooms {
            Some(rooms) => rooms.len() > 0,
            None => false,
        };
        if has_first {
            let first = match &build_data.rooms {
                Some(rooms) => rooms[0],
                None => crate::rect::Rect { x1: 0, y1: 0, x2: 0, y2: 0 },
            };
            let in_range = first.x1 as i64 + first.x2 as i64 <= i32::MAX as i64 && first.x1 as i64
                + first.x2 as i64 >= 0 && first.y1 as i64 + first.y2 as i64 <= i32::MAX as i64
                && first.y1 as i64 + first.y2 as i64 >= 0;
            if in_range {
                let (cx, cy) = first.center();
                build_data.starting_position = Some(Position { x: cx, y: cy });
            }
        }
    }
}

} // verus!
