//! Visibility. The opacity overlay is rebuilt from sight-blocking
//! entities; each dirty viewshed is refreshed from a caller-computed field
//! of view (near sight plus a far pass that only shows lit tiles); the
//! player's refresh also updates the map's revealed and visible bitsets
//! and may spot hidden entities.

use vstd::prelude::*;

use crate::components::{Entity, Position, Viewshed};
use crate::map::GameMap;
use crate::rng;
use crate::world::World;

verus! {

/// The entity's sight needs recomputing this tick.
pub open spec fn sight_dirty(w: &World, e: int) -> bool {
    &&& w.viewshed@[e] is Some
    &&& w.viewshed@[e]->Some_0.dirty
    &&& w.position@[e] is Some
}

/// The in-bounds prefix of a traced near field of view: tiles strictly
/// inside the map, in trace order, over the first `upto` entries.
pub open spec fn keep_near(m: &GameMap, s: Seq<Position>, upto: int) -> Seq<Position>
    decreases upto,
{
    if upto <= 0 {
        Seq::empty()
    } else {
        let rest = keep_near(m, s, upto - 1);
        let p = s[upto - 1];
        if p.x >= 0 && p.x < m.width - 1 && p.y >= 0 && p.y < m.height - 1 {
            rest.push(p)
        } else {
            rest
        }
    }
}

/// The in-bounds, lit prefix of a traced far field of view: tiles strictly
/// inside the map whose tile is illuminated, in trace order.
pub open spec fn keep_far(m: &GameMap, s: Seq<Position>, upto: int) -> Seq<Position>
    decreases upto,
{
    if upto <= 0 {
        Seq::empty()
    } else {
        let rest = keep_far(m, s, upto - 1);
        let p = s[upto - 1];
        if p.x >= 0 && p.x < m.width - 1 && p.y >= 0 && p.y < m.height - 1
            && m.illuminated_tiles@[m.spec_idx(p.x as int, p.y as int)] {
            rest.push(p)
        } else {
            rest
        }
    }
}

/// Tile `i` is covered by one of the first `upto` seen tiles.
pub open spec fn seen_among(m: &GameMap, tiles: Seq<Position>, upto: int, i: int) -> bool {
    exists|k: int|
        0 <= k < upto && k < tiles.len() && m.spec_idx(
            (#[trigger] tiles[k]).x as int,
            tiles[k].y as int,
        ) == i
}

/// Tile `i` is covered by one of the seen tiles.
pub open spec fn seen_at(m: &GameMap, tiles: Seq<Position>, i: int) -> bool {
    seen_among(m, tiles, tiles.len() as int, i)
}

/// Recomputes dirty viewsheds from caller-supplied fields of view.
pub struct VisibilitySystem {}

impl VisibilitySystem {
    /// Rebuild the view-blocked overlay: a tile blocks sight exactly when
    /// some sight-blocking entity stands on it.
    pub fn rebuild_view_blocked(w: &mut World)
        requires
            old(w).wf(),
        ensures
            final(w).wf(),
            *final(w) == (World { map: final(w).map, ..*old(w) }),
            final(w).map == (GameMap { view_blocked: final(w).map.view_blocked, ..old(w).map }),
            forall|i: int|
                0 <= i < final(w).map.view_blocked@.len() ==> (#[trigger] final(w).map.view_blocked@[i]) == (exists|e: int|
                    0 <= e < old(w).n && old(w).blocks_visibility@[e] && (#[trigger] old(
                        w,
                    ).position@[e]) is Some && old(w).map.spec_idx(
                        old(w).position@[e]->Some_0.x as int,
                        old(w).position@[e]->Some_0.y as int,
                    ) == i),
    {
        let len = w.map.view_blocked.len();
        let mut i: usize = 0;
        while i < len
            invariant
                i <= len,
                old(w).wf(),
                w.wf(),
                len == w.map.view_blocked@.len(),
                *w == (World { map: w.map, ..*old(w) }),
                w.map == (GameMap { view_blocked: w.map.view_blocked, ..old(w).map }),
                forall|x: int| 0 <= x < i ==> !(#[trigger] w.map.view_blocked@[x]),
            decreases len - i,
        {
            w.map.view_blocked.set(i, false);
            i = i + 1;
        }
        let n = w.n;
        let mut e: usize = 0;
        while e < n
            invariant
                e <= n,
                old(w).wf(),
                w.wf(),
                n == w.n,
                *w == (World { map: w.map, ..*old(w) }),
                w.map == (GameMap { view_blocked: w.map.view_blocked, ..old(w).map }),
                w.map.view_blocked@.len() == old(w).map.view_blocked@.len(),
                forall|x: int|
                    0 <= x < w.map.view_blocked@.len() ==> (#[trigger] w.map.view_blocked@[x]) == (
                    exists|e2: int|
                        0 <= e2 < e && old(w).blocks_visibility@[e2] && (#[trigger] old(
                            w,
                        ).position@[e2]) is Some && old(w).map.spec_idx(
                            old(w).position@[e2]->Some_0.x as int,
                            old(w).position@[e2]->Some_0.y as int,
                        ) == x),
            decreases n - e,
        {
            if w.blocks_visibility[e] && w.position[e].is_some() {
                let pos = w.position[e].unwrap();
                let idx = w.map.xy_idx(pos.x, pos.y);
                let ghost vb0 = w.map.view_blocked@;
                w.map.view_blocked.set(idx, true);
                proof {
                    assert forall|x: int|
                        0 <= x < w.map.view_blocked@.len() implies (
                    #[trigger] w.map.view_blocked@[x]) == (exists|e2: int|
                        0 <= e2 < e + 1 && old(w).blocks_visibility@[e2] && (#[trigger] old(
                            w,
                        ).position@[e2]) is Some && old(w).map.spec_idx(
                            old(w).position@[e2]->Some_0.x as int,
                            old(w).position@[e2]->Some_0.y as int,
                        ) == x) by {
                        if x == idx {
                            assert(old(w).blocks_visibility@[e as int] && old(
                                w,
                            ).position@[e as int] is Some && old(w).map.spec_idx(
                                old(w).position@[e as int]->Some_0.x as int,
                                old(w).position@[e as int]->Some_0.y as int,
                            ) == x);
                        } else {
                            assert(w.map.view_blocked@[x] == vb0[x]);
                        }
                    }
                }
            } else {
                proof {
                    assert forall|x: int|
                        0 <= x < w.map.view_blocked@.len() implies (
                    #[trigger] w.map.view_blocked@[x]) == (exists|e2: int|
                        0 <= e2 < e + 1 && old(w).blocks_visibility@[e2] && (#[trigger] old(
                            w,
                        ).position@[e2]) is Some && old(w).map.spec_idx(
                            old(w).position@[e2]->Some_0.x as int,
                            old(w).position@[e2]->Some_0.y as int,
                        ) == x) by {}
                }
            }
            e = e + 1;
        }
    }

    /// The dirty viewsheds the caller must trace: each with its origin and
    /// range. The far light-detecting pass uses ten times the range.
    pub fn visibility_requests(w: &World) -> (r: Vec<(Entity, Position, i32)>)
        requires
            w.wf(),
        ensures
            forall|k: int|
                0 <= k < r@.len() ==> (#[trigger] r@[k]).0 < w.n && sight_dirty(w, r@[k].0 as int)
                    && w.position@[r@[k].0 as int] == Some(r@[k].1)
                    && w.viewshed@[r@[k].0 as int]->Some_0.range == r@[k].2,
            forall|e: int|
                0 <= e < w.n && sight_dirty(w, e) ==> exists|k: int|
                    0 <= k < r@.len() && (#[trigger] r@[k]).0 == e,
    {
        let n = w.n;
        let mut r: Vec<(Entity, Position, i32)> = Vec::new();
        let mut e: usize = 0;
        while e < n
            invariant
                e <= n,
                w.wf(),
                n == w.n,
                forall|k: int|
                    0 <= k < r@.len() ==> (#[trigger] r@[k]).0 < w.n && sight_dirty(
                        w,
                        r@[k].0 as int,
                    ) && w.position@[r@[k].0 as int] == Some(r@[k].1)
                        && w.viewshed@[r@[k].0 as int]->Some_0.range == r@[k].2,
                forall|e2: int|
                    0 <= e2 < e && sight_dirty(w, e2) ==> exists|k: int|
                        0 <= k < r@.len() && (#[trigger] r@[k]).0 == e2,
            decreases n - e,
        {
            let dirty = match &w.viewshed[e] {
                Some(vs) => vs.dirty,
                None => false,
            } && w.position[e].is_some();
            if dirty {
                let pos = w.position[e].unwrap();
                let range = match &w.viewshed[e] {
                    Some(vs) => vs.range,
                    None => 0,
                };
                let ghost r0 = r@;
                r.push((e, pos, range));
                proof {
                    assert(r@[r0.len() as int].0 == e);
                    assert forall|e2: int|
                        0 <= e2 < e + 1 && sight_dirty(w, e2) implies exists|k: int|
                        0 <= k < r@.len() && (#[trigger] r@[k]).0 == e2 by {
                        if e2 < e {
                            let k = choose|k: int| 0 <= k < r0.len() && (#[trigger] r0[k]).0 == e2;
                            assert(r@[k].0 == e2);
                        }
                    }
                }
            }
            e = e + 1;
        }
        r
    }

    /// Refresh one entity's viewshed from a traced near field of view and
    /// a far light-detecting pass: the refreshed tiles are exactly the
    /// in-bounds near tiles followed by the lit in-bounds far tiles, and
    /// the viewshed comes out clean. For the player, the map's visible set
    /// becomes exactly the refreshed tiles, every seen tile is revealed
    /// for good, and each hidden entity on a seen tile has a small random
    /// chance of being spotted (so hidden flags only ever fall).
    #[verifier::rlimit(100)]
    pub fn apply_viewshed(w: &mut World, e: Entity, near: &Vec<Position>, far: &Vec<Position>)
        requires
            old(w).wf(),
            e < old(w).n,
            old(w).viewshed@[e as int] is Some,
        ensures
            final(w).wf(),
            *final(w) == (World {
                viewshed: final(w).viewshed,
                hidden: final(w).hidden,
                map: final(w).map,
                log: final(w).log,
                ..*old(w)
            }),
            final(w).map == (GameMap {
                revealed_tiles: final(w).map.revealed_tiles,
                visible_tiles: final(w).map.visible_tiles,
                ..old(w).map
            }),
            // the refreshed viewshed is clean, keeps its range, and holds
            // exactly the in-bounds near tiles then the lit far tiles
            final(w).viewshed@[e as int] is Some,
            !final(w).viewshed@[e as int]->Some_0.dirty,
            final(w).viewshed@[e as int]->Some_0.range == old(
                w,
            ).viewshed@[e as int]->Some_0.range,
            final(w).viewshed@[e as int]->Some_0.visible_tiles@ == keep_near(
                &old(w).map,
                near@,
                near@.len() as int,
            ) + keep_far(&old(w).map, far@, far@.len() as int),
            forall|x: int|
                0 <= x < final(w).n && x != e ==> (#[trigger] final(w).viewshed@[x]) == old(
                    w,
                ).viewshed@[x],
            // hidden flags only fall, and only for the player's refresh
            forall|x: int|
                0 <= x < final(w).n && (#[trigger] final(w).hidden@[x]) ==> old(w).hidden@[x],
            !old(w).player@[e as int] ==> final(w).hidden@ == old(w).hidden@ && final(w).map == old(
                w,
            ).map && final(w).log@ == old(w).log@,
            // the player's refresh writes the map's bitsets exactly
            old(w).player@[e as int] ==> (forall|i: int|
                0 <= i < final(w).map.visible_tiles@.len() ==> (#[trigger] final(w).map.visible_tiles@[i]) == seen_at(
                    &old(w).map,
                    final(w).viewshed@[e as int]->Some_0.visible_tiles@,
                    i,
                )),
            old(w).player@[e as int] ==> (forall|i: int|
                0 <= i < final(w).map.revealed_tiles@.len() ==> (#[trigger] final(w).map.revealed_tiles@[i]) == (old(w).map.revealed_tiles@[i] || seen_at(
                    &old(w).map,
                    final(w).viewshed@[e as int]->Some_0.visible_tiles@,
                    i,
                ))),
            old(w).log@.is_prefix_of(final(w).log@),
    {
        proof {
            crate::components::lemma_prefix_refl(w.log@);
        }
        let range = match &w.viewshed[e] {
            Some(vs) => vs.range,
            None => 0,
        };
        // keep near tiles strictly inside the map
        let mut visible: Vec<Position> = Vec::new();
        let nlen = near.len();
        let mut i: usize = 0;
        proof {
            assert(visible@ =~= keep_near(&old(w).map, near@, 0));
        }
        while i < nlen
            invariant
                i <= nlen,
                nlen == near@.len(),
                w.wf(),
                *w == *old(w),
                visible@ == keep_near(&old(w).map, near@, i as int),
                forall|k: int|
                    0 <= k < visible@.len() ==> w.map.in_bounds(
                        (#[trigger] visible@[k]).x as int,
                        visible@[k].y as int,
                    ),
            decreases nlen - i,
        {
            let p = near[i];
            i = i + 1;
            if p.x >= 0 && p.x < w.map.width - 1 && p.y >= 0 && p.y < w.map.height - 1 {
                visible.push(p);
            }
        }
        // far tiles count only while lit
        let ghost near_kept = visible@;
        let flen = far.len();
        let mut j: usize = 0;
        proof {
            assert(visible@ =~= near_kept + keep_far(&old(w).map, far@, 0));
        }
        while j < flen
            invariant
                j <= flen,
                flen == far@.len(),
                w.wf(),
                *w == *old(w),
                visible@ == near_kept + keep_far(&old(w).map, far@, j as int),
                forall|k: int|
                    0 <= k < visible@.len() ==> w.map.in_bounds(
                        (#[trigger] visible@[k]).x as int,
                        visible@[k].y as int,
                    ),
            decreases flen - j,
        {
            let p = far[j];
            j = j + 1;
            if p.x >= 0 && p.x < w.map.width - 1 && p.y >= 0 && p.y < w.map.height - 1 {
                let idx = w.map.xy_idx(p.x, p.y);
                if w.map.illuminated_tiles[idx] {
                    visible.push(p);
                    proof {
                        assert(visible@ =~= near_kept + keep_far(&old(w).map, far@, j as int));
                    }
                }
            }
        }
        let ghost vtiles = visible@;
        proof {
            assert(near_kept == keep_near(&old(w).map, near@, near@.len() as int));
        }
        let is_player = w.player[e];
        w.viewshed.set(e, Some(Viewshed { visible_tiles: visible.clone(), range, dirty: false }));
        if is_player {
            // wipe the map's visible set, then reveal what the player sees
            let len = w.map.visible_tiles.len();
            let mut x: usize = 0;
            while x < len
                invariant
                    x <= len,
                    old(w).wf(),
                    w.wf(),
                    len == w.map.visible_tiles@.len(),
                    e < w.n,
                    *w == (World { viewshed: w.viewshed, map: w.map, ..*old(w) }),
                    w.map == (GameMap { visible_tiles: w.map.visible_tiles, ..old(w).map }),
                    w.viewshed@[e as int] == Some(
                        Viewshed {
                            visible_tiles: w.viewshed@[e as int]->Some_0.visible_tiles,
                            range: old(w).viewshed@[e as int]->Some_0.range,
                            dirty: false,
                        },
                    ),
                    w.viewshed@[e as int]->Some_0.visible_tiles@ == vtiles,
                    forall|x2: int|
                        0 <= x2 < w.n && x2 != e ==> (#[trigger] w.viewshed@[x2]) == old(
                            w,
                        ).viewshed@[x2],
                    forall|i2: int| 0 <= i2 < x ==> !(#[trigger] w.map.visible_tiles@[i2]),
                decreases len - x,
            {
                w.map.visible_tiles.set(x, false);
                x = x + 1;
            }
            let vlen = visible.len();
            let mut k: usize = 0;
            proof {
                assert forall|i2: int|
                    0 <= i2 < w.map.visible_tiles@.len() implies (#[trigger] w.map.visible_tiles@[i2])
                    == seen_among(&old(w).map, vtiles, 0, i2) by {}
            }
            while k < vlen
                invariant
                    k <= vlen,
                    vlen == visible@.len(),
                    visible@ == vtiles,
                    old(w).wf(),
                    w.wf(),
                    e < w.n,
                    forall|k2: int|
                        0 <= k2 < visible@.len() ==> w.map.in_bounds(
                            (#[trigger] visible@[k2]).x as int,
                            visible@[k2].y as int,
                        ),
                    *w == (World {
                        viewshed: w.viewshed,
                        hidden: w.hidden,
                        map: w.map,
                        log: w.log,
                        ..*old(w)
                    }),
                    w.map == (GameMap {
                        revealed_tiles: w.map.revealed_tiles,
                        visible_tiles: w.map.visible_tiles,
                        ..old(w).map
                    }),
                    w.viewshed@[e as int] == Some(
                        Viewshed {
                            visible_tiles: w.viewshed@[e as int]->Some_0.visible_tiles,
                            range: old(w).viewshed@[e as int]->Some_0.range,
                            dirty: false,
                        },
                    ),
                    w.viewshed@[e as int]->Some_0.visible_tiles@ == vtiles,
                    forall|x2: int|
                        0 <= x2 < w.n && x2 != e ==> (#[trigger] w.viewshed@[x2]) == old(
                            w,
                        ).viewshed@[x2],
                    forall|x2: int|
                        0 <= x2 < w.n && (#[trigger] w.hidden@[x2]) ==> old(w).hidden@[x2],
                    forall|i2: int|
                        0 <= i2 < w.map.visible_tiles@.len() ==> (
                        #[trigger] w.map.visible_tiles@[i2]) == seen_among(
                            &old(w).map,
                            vtiles,
                            k as int,
                            i2,
                        ),
                    forall|i2: int|
                        0 <= i2 < w.map.revealed_tiles@.len() ==> (
                        #[trigger] w.map.revealed_tiles@[i2]) == (old(w).map.revealed_tiles@[i2]
                            || seen_among(&old(w).map, vtiles, k as int, i2)),
                    old(w).log@.is_prefix_of(w.log@),
                decreases vlen - k,
            {
                let p = visible[k];
                k = k + 1;
                let idx = w.map.xy_idx(p.x, p.y);
                let ghost vis0 = w.map.visible_tiles@;
                let ghost rev0 = w.map.revealed_tiles@;
                w.map.revealed_tiles.set(idx, true);
                w.map.visible_tiles.set(idx, true);
                proof {
                    assert(vtiles[k - 1] == p);
                    assert forall|i2: int|
                        0 <= i2 < w.map.visible_tiles@.len() implies (
                    #[trigger] w.map.visible_tiles@[i2]) == seen_among(
                        &old(w).map,
                        vtiles,
                        k as int,
                        i2,
                    ) by {
                        if i2 != idx {
                            assert(w.map.visible_tiles@[i2] == vis0[i2]);
                        } else {
                            assert(old(w).map.spec_idx(p.x as int, p.y as int) == i2);
                        }
                    }
                    assert forall|i2: int|
                        0 <= i2 < w.map.revealed_tiles@.len() implies (
                    #[trigger] w.map.revealed_tiles@[i2]) == (old(w).map.revealed_tiles@[i2]
                        || seen_among(&old(w).map, vtiles, k as int, i2)) by {
                        if i2 != idx {
                            assert(w.map.revealed_tiles@[i2] == rev0[i2]);
                        } else {
                            assert(old(w).map.spec_idx(p.x as int, p.y as int) == i2);
                        }
                    }
                }
                // chance to reveal hidden entities on this tile
                let occupants = w.map.tile_content[idx].clone();
                let olen = occupants.len();
                let mut o: usize = 0;
                while o < olen
                    invariant
                        o <= olen,
                        olen == occupants@.len(),
                        old(w).wf(),
                        w.wf(),
                        e < w.n,
                        visible@ == vtiles,
                        k <= visible@.len(),
                        forall|k2: int|
                            0 <= k2 < occupants@.len() ==> (#[trigger] occupants@[k2]) < w.n,
                        forall|k2: int|
                            0 <= k2 < visible@.len() ==> w.map.in_bounds(
                                (#[trigger] visible@[k2]).x as int,
                                visible@[k2].y as int,
                            ),
                        *w == (World {
                            viewshed: w.viewshed,
                            hidden: w.hidden,
                            map: w.map,
                            log: w.log,
                            ..*old(w)
                        }),
                        w.map == (GameMap {
                            revealed_tiles: w.map.revealed_tiles,
                            visible_tiles: w.map.visible_tiles,
                            ..old(w).map
                        }),
                        w.viewshed@[e as int] == Some(
                            Viewshed {
                                visible_tiles: w.viewshed@[e as int]->Some_0.visible_tiles,
                                range: old(w).viewshed@[e as int]->Some_0.range,
                                dirty: false,
                            },
                        ),
                        w.viewshed@[e as int]->Some_0.visible_tiles@ == vtiles,
                        forall|x2: int|
                            0 <= x2 < w.n && x2 != e ==> (#[trigger] w.viewshed@[x2]) == old(
                                w,
                            ).viewshed@[x2],
                        forall|x2: int|
                            0 <= x2 < w.n && (#[trigger] w.hidden@[x2]) ==> old(w).hidden@[x2],
                        forall|i2: int|
                            0 <= i2 < w.map.visible_tiles@.len() ==> (
                            #[trigger] w.map.visible_tiles@[i2]) == seen_among(
                                &old(w).map,
                                vtiles,
                                k as int,
                                i2,
                            ),
                        forall|i2: int|
                            0 <= i2 < w.map.revealed_tiles@.len() ==> (
                            #[trigger] w.map.revealed_tiles@[i2]) == (old(
                                w,
                            ).map.revealed_tiles@[i2] || seen_among(
                                &old(w).map,
                                vtiles,
                                k as int,
                                i2,
                            )),
                        old(w).log@.is_prefix_of(w.log@),
                    decreases olen - o,
                {
                    let other = occupants[o];
                    o = o + 1;
                    if w.hidden[other] {
                        if rng::range_1_to(50) == 1 {
                            if let Some(nm) = &w.name[other] {
                                let name = nm.name.clone();
                                let ghost log0 = w.log@;
                                crate::gamelog::log_name_suffix(&mut w.log, &name, " spotted!");
                                proof {
                                    crate::components::lemma_prefix_trans(
                                        old(w).log@,
                                        log0,
                                        w.log@,
                                    );
                                }
                            }
                            w.hidden.set(other, false);
                        }
                    }
                }
            }
            proof {
                assert forall|i2: int|
                    0 <= i2 < w.map.visible_tiles@.len() implies (#[trigger] w.map.visible_tiles@[i2])
                    == seen_at(&old(w).map, vtiles, i2) by {}
                assert forall|i2: int|
                    0 <= i2 < w.map.revealed_tiles@.len() implies (
                #[trigger] w.map.revealed_tiles@[i2]) == (old(w).map.revealed_tiles@[i2] || seen_at(
                    &old(w).map,
                    vtiles,
                    i2,
                )) by {}
            }
        }
    }

}

} // verus!
