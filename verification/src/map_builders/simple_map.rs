//! The simple room-and-corridor builder: up to thirty random rooms, each
//! joined to the previous one by an L-shaped tunnel.

use vstd::prelude::*;

use crate::map_builders::{
    apply_horizontal_tunnel, apply_room_to_map, apply_vertical_tunnel, BuilderMap,
    InitialMapBuilder,
};
use crate::rect::Rect;
use crate::rng;

verus! {

/// Carves random non-overlapping rooms joined by tunnels.
pub struct SimpleMapBuilder {}

impl InitialMapBuilder for SimpleMapBuilder {
    fn build_map(&mut self, build_data: &mut BuilderMap) {
        self.rooms_and_corridors(build_data);
    }
}

impl SimpleMapBuilder {
    /// A fresh simple builder.
    pub fn new() -> (r: Box<SimpleMapBuilder>) {
        Box::new(SimpleMapBuilder {})
    }

    /// Roll up to thirty rooms of random size and position; keep each that
    /// overlaps none before it, carving it and a tunnel to its
    /// predecessor. The rooms laid out are recorded for later builders.
    fn rooms_and_corridors(&mut self, build_data: &mut BuilderMap)
        requires
            old(build_data).wf(),
        ensures
            final(build_data).wf(),
            final(build_data).rooms is Some,
    {
        let max_rooms: u64 = 30;
        let mut rooms: Vec<Rect> = Vec::new();
        let mut i: u64 = 0;
        while i < max_rooms
            invariant
                build_data.wf(),
                forall|k: int|
                    0 <= k < rooms@.len() ==> 0 <= (#[trigger] rooms@[k]).x1 && 0 <= rooms@[k].y1
                        && rooms@[k].x1 <= rooms@[k].x2 && rooms@[k].y1 <= rooms@[k].y2
                        && rooms@[k].x2 <= 0x3fff_ffff && rooms@[k].y2 <= 0x3fff_ffff,
            decreases max_rooms - i,
        {
            i = i + 1;
            if build_data.map.width <= 12 || build_data.map.height <= 12
                || build_data.map.width > 0x3fff_ffff || build_data.map.height > 0x3fff_ffff {
                continue ;
            }
            let w = rng::range_1_to(4) as i64 + 5;
            let h = rng::range_1_to(4) as i64 + 5;
            let x_span: i64 = build_data.map.width as i64 - w - 1;
            let y_span: i64 = build_data.map.height as i64 - h - 1;
            if x_span < 1 || y_span < 1 {
                continue ;
            }
            let x = rng::range_1_to(x_span as u64) as i64 - 1;
            let y = rng::range_1_to(y_span as u64) as i64 - 1;
            let new_room = Rect::new(x as i32, y as i32, w as i32, h as i32);
            let rlen = rooms.len();
            let mut ok = true;
            let mut r: usize = 0;
            while r < rlen
                invariant
                    r <= rlen,
                    rlen == rooms@.len(),
                decreases rlen - r,
            {
                if new_room.intersects(&rooms[r]) {
                    ok = false;
                }
                r = r + 1;
            }
            if ok {
                apply_room_to_map(&mut build_data.map, &new_room);
                build_data.take_snapshot();
                if rooms.len() > 0 {
                    let (new_x, new_y) = new_room.center();
                    let prev = rooms[rooms.len() - 1];
                    let (prev_x, prev_y) = prev.center();
                    if rng::range_1_to(2) == 1 {
                        apply_horizontal_tunnel(&mut build_data.map, prev_x, new_x, prev_y);
                        apply_vertical_tunnel(&mut build_data.map, prev_y, new_y, new_x);
                    } else {
                        apply_vertical_tunnel(&mut build_data.map, prev_y, new_y, prev_x);
                        apply_horizontal_tunnel(&mut build_data.map, prev_x, new_x, new_y);
                    }
                }
                rooms.push(new_room);
                build_data.take_snapshot();
            }
        }
        build_data.rooms = Some(rooms);
    }
}

} // verus!
