//! Lighting. Flammables struck by thermal damage this tick catch fire;
//! burning things glow; the set of illuminated tiles is the union of the
//! fields of view of every lit source (computed by the caller, since the
//! field-of-view pass is an outside collaborator).

use vstd::prelude::*;

use crate::components::{DamageAtom, Entity, Lightsource, Position};
use crate::map::GameMap;
use crate::world::World;

verus! {

/// The entity's pending queue carries thermal damage.
pub open spec fn thermal_queued(w: &World, e: int) -> bool {
    w.damage_queue@[e] is Some && exists|k: int|
        0 <= k < w.damage_queue@[e]->Some_0.queue@.len()
            && (#[trigger] w.damage_queue@[e]->Some_0.queue@[k]) is Thermal
}

/// The entity glows: it is lit and has a position of its own or through
/// its wearer.
pub open spec fn lit_source_pos(w: &World, e: int) -> Option<Position> {
    if w.lightsource@[e] is Some && w.lightsource@[e]->Some_0.is_lit {
        if w.position@[e] is Some {
            Some(w.position@[e]->Some_0)
        } else if w.equipped@[e] is Some && w.position@[w.equipped@[e]->Some_0.owner as int] is Some {
            Some(w.position@[w.equipped@[e]->Some_0.owner as int]->Some_0)
        } else {
            Some(Position { x: 0, y: 0 })
        }
    } else {
        None
    }
}

/// Ignites and extinguishes; the illumination union is applied separately.
pub struct LightSystem {}

impl LightSystem {
    /// Ignite every flammable entity with thermal damage pending, then let
    /// every burning flammable glow (gaining a default light source if it
    /// has none) and every extinguished one go dark.
    pub fn ignite(w: &mut World)
        requires
            old(w).wf(),
        ensures
            final(w).wf(),
            *final(w) == (World {
                aflame: final(w).aflame,
                lightsource: final(w).lightsource,
                ..*old(w)
            }),
            // burning flammables glow, the rest of the flammables go dark
            forall|e: int|
                0 <= e < final(w).n ==> (#[trigger] final(w).aflame@[e]) == (old(w).aflame@[e] || (
                old(w).flammable@[e] && thermal_queued(old(w), e))),
            forall|e: int|
                0 <= e < final(w).n && old(w).flammable@[e] && final(w).aflame@[e] ==> (
                #[trigger] final(w).lightsource@[e]) is Some && final(w).lightsource@[e]->Some_0.is_lit,
            forall|e: int|
                0 <= e < final(w).n && old(w).flammable@[e] && !final(w).aflame@[e] && old(
                    w,
                ).lightsource@[e] is Some ==> (#[trigger] final(w).lightsource@[e]) == Some(
                    Lightsource { is_lit: false, radius: old(w).lightsource@[e]->Some_0.radius },
                ),
            forall|e: int|
                0 <= e < final(w).n && old(w).flammable@[e] && !final(w).aflame@[e] && old(
                    w,
                ).lightsource@[e] is None ==> (#[trigger] final(w).lightsource@[e]) is None,
            forall|e: int|
                0 <= e < final(w).n && !old(w).flammable@[e] ==> (#[trigger] final(w).lightsource@[e]) == old(w).lightsource@[e],
    {
        let n = w.n;
        let mut e: usize = 0;
        while e < n
            invariant
                e <= n,
                old(w).wf(),
                w.wf(),
                n == w.n,
                *w == (World { aflame: w.aflame, lightsource: w.lightsource, ..*old(w) }),
                w.lightsource@ == old(w).lightsource@,
                forall|e2: int|
                    0 <= e2 < n && e2 < e ==> (#[trigger] w.aflame@[e2]) == (old(w).aflame@[e2] || (
                    old(w).flammable@[e2] && thermal_queued(old(w), e2))),
                forall|e2: int|
                    0 <= e2 < n && e2 >= e ==> (#[trigger] w.aflame@[e2]) == old(w).aflame@[e2],
            decreases n - e,
        {
            if w.flammable[e] && w.damage_queue[e].is_some() {
                let queue = match &w.damage_queue[e] {
                    Some(dq) => dq.queue.clone(),
                    None => Vec::new(),
                };
                let qlen = queue.len();
                let mut burn = false;
                let mut k: usize = 0;
                while k < qlen
                    invariant
                        qlen == queue@.len(),
                        k <= qlen,
                        queue@ == old(w).damage_queue@[e as int]->Some_0.queue@,
                        e < n,
                        burn == exists|j: int|
                            0 <= j < k && (#[trigger] queue@[j]) is Thermal,
                    decreases qlen - k,
                {
                    let is_thermal = match queue[k] {
                        DamageAtom::Thermal(_) => true,
                        _ => false,
                    };
                    if is_thermal {
                        burn = true;
                    }
                    k = k + 1;
                }
                proof {
                    assert(burn == thermal_queued(old(w), e as int));
                }
                if burn {
                    w.aflame.set(e, true);
                }
            } else {
                proof {
                    assert(!(old(w).flammable@[e as int] && thermal_queued(old(w), e as int)));
                }
            }
            e = e + 1;
        }
        // light burning flammables and extinguish the rest
        let ghost mid = *w;
        let mut e2: usize = 0;
        while e2 < n
            invariant
                e2 <= n,
                old(w).wf(),
                w.wf(),
                n == w.n,
                *w == (World { lightsource: w.lightsource, ..mid }),
                mid.lightsource@ == old(w).lightsource@,
                mid.flammable@ == old(w).flammable@,
                forall|x: int|
                    0 <= x < n && x < e2 && old(w).flammable@[x] && mid.aflame@[x] ==> (
                    #[trigger] w.lightsource@[x]) is Some && w.lightsource@[x]->Some_0.is_lit,
                forall|x: int|
                    0 <= x < n && x < e2 && old(w).flammable@[x] && !mid.aflame@[x] && old(
                        w,
                    ).lightsource@[x] is Some ==> (#[trigger] w.lightsource@[x]) == Some(
                        Lightsource {
                            is_lit: false,
                            radius: old(w).lightsource@[x]->Some_0.radius,
                        },
                    ),
                forall|x: int|
                    0 <= x < n && x < e2 && old(w).flammable@[x] && !mid.aflame@[x] && old(
                        w,
                    ).lightsource@[x] is None ==> (#[trigger] w.lightsource@[x]) is None,
                forall|x: int|
                    0 <= x < n && (x >= e2 || !old(w).flammable@[x]) ==> (
                    #[trigger] w.lightsource@[x]) == old(w).lightsource@[x],
            decreases n - e2,
        {
            if w.flammable[e2] {
                if w.aflame[e2] {
                    match w.lightsource[e2] {
                        Some(ls) => {
                            w.lightsource.set(
                                e2,
                                Some(Lightsource { is_lit: true, radius: ls.radius }),
                            );
                        },
                        None => {
                            w.lightsource.set(
                                e2,
                                Some(Lightsource { is_lit: true, radius: 10 }),
                            );
                        },
                    }
                } else {
                    if let Some(ls) = w.lightsource[e2] {
                        w.lightsource.set(
                            e2,
                            Some(Lightsource { is_lit: false, radius: ls.radius }),
                        );
                    }
                }
            }
            e2 = e2 + 1;
        }
    }

    /// The lit sources whose glow the caller must trace: each with the
    /// tile it shines from and its radius.
    pub fn lit_requests(w: &World) -> (r: Vec<(Entity, Position, i32)>)
        requires
            w.wf(),
        ensures
            forall|k: int|
                0 <= k < r@.len() ==> (#[trigger] r@[k]).0 < w.n && lit_source_pos(
                    w,
                    r@[k].0 as int,
                ) == Some(r@[k].1) && w.lightsource@[r@[k].0 as int]->Some_0.radius == r@[k].2,
            forall|e: int|
                0 <= e < w.n && lit_source_pos(w, e) is Some ==> exists|k: int|
                    0 <= k < r@.len() && (#[trigger] r@[k]).0 == e,
    {
        let n = w.n;
        let mut r: Vec<(Entity, Position, i32)> = Vec::new();
        let mut e: usize = 0;
        while e < n
            invariant
                e <= n,
                w.wf(),
                n == w.n,
                forall|k: int|
                    0 <= k < r@.len() ==> (#[trigger] r@[k]).0 < w.n && lit_source_pos(
                        w,
                        r@[k].0 as int,
                    ) == Some(r@[k].1) && w.lightsource@[r@[k].0 as int]->Some_0.radius == r@[k].2,
                forall|e2: int|
                    0 <= e2 < e && lit_source_pos(w, e2) is Some ==> exists|k: int|
                        0 <= k < r@.len() && (#[trigger] r@[k]).0 == e2,
            decreases n - e,
        {
            let lit = match &w.lightsource[e] {
                Some(ls) => ls.is_lit,
                None => false,
            };
            if lit {
                let radius = w.lightsource[e].unwrap().radius;
                let pos: Position = if w.position[e].is_some() {
                    w.position[e].unwrap()
                } else if w.equipped[e].is_some() {
                    let owner = w.equipped[e].unwrap().owner;
                    match w.position[owner] {
                        Some(p) => p,
                        None => Position { x: 0, y: 0 },
                    }
                } else {
                    Position { x: 0, y: 0 }
                };
                let ghost r0 = r@;
                r.push((e, pos, radius));
                proof {
                    assert(r@[r0.len() as int].0 == e);
                    assert forall|e2: int|
                        0 <= e2 < e + 1 && lit_source_pos(w, e2) is Some implies exists|k: int|
                        0 <= k < r@.len() && (#[trigger] r@[k]).0 == e2 by {
                        if e2 < e {
                            let k = choose|k: int| 0 <= k < r0.len() && (#[trigger] r0[k]).0 == e2;
                            assert(r@[k].0 == e2);
                        }
                    }
                }
            }
            e = e + 1;
        }
        r
    }

    /// Replace the illuminated-tile bitset with exactly the in-bounds
    /// tiles of the given glow fields (one tile list per lit source).
    pub fn apply_light(w: &mut World, fovs: &Vec<Vec<Position>>)
        requires
            old(w).wf(),
        ensures
            final(w).wf(),
            *final(w) == (World { map: final(w).map, ..*old(w) }),
            final(w).map == (GameMap {
                illuminated_tiles: final(w).map.illuminated_tiles,
                ..old(w).map
            }),
            forall|i: int|
                0 <= i < final(w).map.illuminated_tiles@.len() ==> (#[trigger] final(w).map.illuminated_tiles@[i]) == (exists|k: int, j: int|
                    0 <= k < fovs@.len() && 0 <= j < fovs@[k]@.len() && old(w).map.in_bounds(
                        (#[trigger] fovs@[k]@[j]).x as int,
                        fovs@[k]@[j].y as int,
                    ) && old(w).map.spec_idx(fovs@[k]@[j].x as int, fovs@[k]@[j].y as int) == i),
    {
        // clear the set
        let len = w.map.illuminated_tiles.len();
        let mut i: usize = 0;
        while i < len
            invariant
                i <= len,
                old(w).wf(),
                w.wf(),
                len == w.map.illuminated_tiles@.len(),
                *w == (World { map: w.map, ..*old(w) }),
                w.map == (GameMap { illuminated_tiles: w.map.illuminated_tiles, ..old(w).map }),
                forall|x: int| 0 <= x < i ==> !(#[trigger] w.map.illuminated_tiles@[x]),
            decreases len - i,
        {
            w.map.illuminated_tiles.set(i, false);
            i = i + 1;
        }
        // union in each glow field
        let flen = fovs.len();
        let mut k: usize = 0;
        while k < flen
            invariant
                k <= flen,
                flen == fovs@.len(),
                old(w).wf(),
                w.wf(),
                *w == (World { map: w.map, ..*old(w) }),
                w.map == (GameMap { illuminated_tiles: w.map.illuminated_tiles, ..old(w).map }),
                w.map.illuminated_tiles@.len() == old(w).map.illuminated_tiles@.len(),
                forall|x: int|
                    0 <= x < w.map.illuminated_tiles@.len() ==> (
                    #[trigger] w.map.illuminated_tiles@[x]) == (exists|k2: int, j: int|
                        0 <= k2 < k && 0 <= j < fovs@[k2]@.len() && old(w).map.in_bounds(
                            (#[trigger] fovs@[k2]@[j]).x as int,
                            fovs@[k2]@[j].y as int,
                        ) && old(w).map.spec_idx(fovs@[k2]@[j].x as int, fovs@[k2]@[j].y as int)
                            == x),
            decreases flen - k,
        {
            let fov = &fovs[k];
            let glen = fov.len();
            let mut j: usize = 0;
            while j < glen
                invariant
                    j <= glen,
                    glen == fov@.len(),
                    fov@ == fovs@[k as int]@,
                    k < flen,
                    flen == fovs@.len(),
                    old(w).wf(),
                    w.wf(),
                    *w == (World { map: w.map, ..*old(w) }),
                    w.map == (GameMap {
                        illuminated_tiles: w.map.illuminated_tiles,
                        ..old(w).map
                    }),
                    w.map.illuminated_tiles@.len() == old(w).map.illuminated_tiles@.len(),
                    forall|x: int|
                        0 <= x < w.map.illuminated_tiles@.len() ==> (
                        #[trigger] w.map.illuminated_tiles@[x]) == ((exists|k2: int, j2: int|
                            0 <= k2 < k && 0 <= j2 < fovs@[k2]@.len() && old(w).map.in_bounds(
                                (#[trigger] fovs@[k2]@[j2]).x as int,
                                fovs@[k2]@[j2].y as int,
                            ) && old(w).map.spec_idx(
                                fovs@[k2]@[j2].x as int,
                                fovs@[k2]@[j2].y as int,
                            ) == x) || (exists|j2: int|
                            0 <= j2 < j && old(w).map.in_bounds(
                                (#[trigger] fov@[j2]).x as int,
                                fov@[j2].y as int,
                            ) && old(w).map.spec_idx(fov@[j2].x as int, fov@[j2].y as int) == x)),
                decreases glen - j,
            {
                let p = fov[j];
                j = j + 1;
                if p.x >= 0 && p.x < w.map.width && p.y >= 0 && p.y < w.map.height {
                    let idx = w.map.xy_idx(p.x, p.y);
                    let ghost lit0 = w.map.illuminated_tiles@;
                    w.map.illuminated_tiles.set(idx, true);
                    proof {
                        assert(old(w).map.in_bounds(
                            fov@[j - 1].x as int,
                            fov@[j - 1].y as int,
                        ));
                        assert forall|x: int|
                            0 <= x < w.map.illuminated_tiles@.len() implies (
                        #[trigger] w.map.illuminated_tiles@[x]) == ((exists|k2: int, j2: int|
                            0 <= k2 < k && 0 <= j2 < fovs@[k2]@.len() && old(w).map.in_bounds(
                                (#[trigger] fovs@[k2]@[j2]).x as int,
                                fovs@[k2]@[j2].y as int,
                            ) && old(w).map.spec_idx(
                                fovs@[k2]@[j2].x as int,
                                fovs@[k2]@[j2].y as int,
                            ) == x) || (exists|j2: int|
                            0 <= j2 < j && old(w).map.in_bounds(
                                (#[trigger] fov@[j2]).x as int,
                                fov@[j2].y as int,
                            ) && old(w).map.spec_idx(fov@[j2].x as int, fov@[j2].y as int)
                                == x)) by {
                            if x == idx {
                                assert(old(w).map.spec_idx(
                                    (fov@[j - 1]).x as int,
                                    fov@[j - 1].y as int,
                                ) == x);
                            } else {
                                assert(w.map.illuminated_tiles@[x] == lit0[x]);
                            }
                        }
                    }
                }
            }
            proof {
                assert forall|x: int|
                    0 <= x < w.map.illuminated_tiles@.len() implies (
                #[trigger] w.map.illuminated_tiles@[x]) == (exists|k2: int, j2: int|
                    0 <= k2 < k + 1 && 0 <= j2 < fovs@[k2]@.len() && old(w).map.in_bounds(
                        (#[trigger] fovs@[k2]@[j2]).x as int,
                        fovs@[k2]@[j2].y as int,
                    ) && old(w).map.spec_idx(fovs@[k2]@[j2].x as int, fovs@[k2]@[j2].y as int)
                        == x) by {
                    if w.map.illuminated_tiles@[x] {
                        if exists|j2: int|
                            0 <= j2 < glen && old(w).map.in_bounds(
                                (#[trigger] fov@[j2]).x as int,
                                fov@[j2].y as int,
                            ) && old(w).map.spec_idx(fov@[j2].x as int, fov@[j2].y as int) == x {
                            let j2 = choose|j2: int|
                                0 <= j2 < glen && old(w).map.in_bounds(
                                    (#[trigger] fov@[j2]).x as int,
                                    fov@[j2].y as int,
                                ) && old(w).map.spec_idx(fov@[j2].x as int, fov@[j2].y as int)
                                    == x;
                            assert(fovs@[k as int]@[j2] == fov@[j2]);
                        }
                    } else {
                        assert forall|k2: int, j2: int|
                            0 <= k2 < k + 1 && 0 <= j2 < fovs@[k2]@.len() && old(w).map.in_bounds(
                                (#[trigger] fovs@[k2]@[j2]).x as int,
                                fovs@[k2]@[j2].y as int,
                            ) implies old(w).map.spec_idx(
                            fovs@[k2]@[j2].x as int,
                            fovs@[k2]@[j2].y as int,
                        ) != x by {
                            if k2 == k {
                                assert(fov@[j2] == fovs@[k2]@[j2]);
                            }
                        }
                    }
                }
            }
            k = k + 1;
        }
    }
}

} // verus!
