//! Swept collision detection: the earliest time within the remaining
//! step at which the moving box first touches solid terrain.
//!
//! Two phases.  First the tiles the box already occupies are scanned,
//! slab by slab in the priority order Z, Y, X, for faces the box is
//! moving into.  Then the sweep walks the tile boundaries the box's
//! leading corner crosses, in time order, one lattice step at a time -
//! a three-way digital differential analyzer - rescanning the box's
//! whole cross-section at each crossing, so no tile a corner passes
//! through is skipped.  Per tile the test mirrors contact detection:
//! axis faces for full tiles; for slopes the plane face, the acute
//! edges, the clipped corners, and then the exposed flat faces.
//!
//! Times are raw fixed-point seconds, rounded down, so an advance by a
//! reported time never carries the box past the surface it hit.

use vstd::prelude::*;

verus! {

use crate::axes::{Axis, Direction};
use crate::contact::{
    BOX_LIMIT, TILE_LIMIT, SCAN_LIMIT, nmin, pmax, spec_clamp, spec_in_cell, spec_in_scan,
    spec_near_corner, spec_scanned,
};
use crate::fixed::{
    FP_ONE, SURFACE_MARGIN, TIME_LIMIT, floor_div, fx_mul, fx_mul_spec, lemma_fx_mul_bound,
    lemma_div_bounds,
};
use crate::terrain::Terrain;
use crate::tile::{Material, Tile, TileState};
use crate::vectors::{lemma_mixed_dot_bound, lemma_mixed_dot2_bound, Vec3};

/// Largest velocity component magnitude the sweep accepts: what the
/// constraint solver can produce.
pub const SWEEP_VEL_LIMIT: i64 = 0x8000_0000;

/// Most boundary crossings one sweep will walk.  A top-speed diagonal
/// sweep over a whole step crosses at most 16384 boundaries per axis,
/// 49152 in all; this cap clears that with room to spare.
pub const SWEEP_STEP_CAP: i64 = 65536;

/// A future impact: when, on what surface, and on what material.
#[derive(Clone, Copy, Debug, PartialEq, Eq, Structural)]
pub struct Collision {
    /// Outward normal of the surface struck (exact integer vector).
    pub normal: Vec3,
    /// Material of the struck tile.
    pub material: Material,
    /// Raw time of impact, within the remaining step.
    pub dt: i64,
}

/// One stage of the slope sweep: a hit, a miss that lets later stages
/// run, or an abort that ends the whole tile's test.
pub enum SlopeStep {
    Hit(i64, Vec3),
    Miss,
    Abort,
}

/// The sweep's working bounds: a well-formed tile, box corners within
/// the scan range, a solver-bounded velocity, and a time within one
/// step.
pub open spec fn sweep_args_ok(tile: Tile, l: Vec3, h: Vec3, v: Vec3, tp: Vec3, max_t: i64) -> bool {
    &&& tile.wf()
    &&& l.bounded(SCAN_LIMIT as int)
    &&& h.bounded(SCAN_LIMIT as int)
    &&& v.bounded(SWEEP_VEL_LIMIT as int)
    &&& tp.bounded(TILE_LIMIT as int)
    &&& 0 <= max_t <= TIME_LIMIT
}

/// Time to cover `dist` at `speed`, rounded down; `None` past `max_t`.
pub open spec fn spec_toi(dist: int, speed: int, max_t: int) -> Option<i64> {
    let t = dist * FP_ONE / speed;
    if t <= max_t {
        Some(t as i64)
    } else {
        None
    }
}

/// Time to cover `dist` at `speed`, rounded down; `None` past `max_t`.
fn toi(dist: i64, speed: i64, max_t: i64) -> (r: Option<i64>)
    requires
        0 <= dist,
        0 < speed,
        0 <= max_t <= TIME_LIMIT,
    ensures
        r == spec_toi(dist as int, speed as int, max_t as int),
        r matches Some(t) ==> 0 <= t <= max_t,
{
    proof {
        crate::fixed::lemma_i64_product_range(dist, FP_ONE);
        lemma_div_bounds(dist as int * FP_ONE as int, speed as int);
    }
    let q: i128 = floor_div((dist as i128) * 1048576, speed as i128);
    if q <= max_t as i128 {
        Some(q as i64)
    } else {
        None
    }
}

/// A raw point advanced along the velocity for a raw time, each
/// component's product rounded toward zero: the moved point never
/// overshoots the exact one.
pub open spec fn spec_advance(p: Vec3, v: Vec3, t: int) -> Vec3 {
    Vec3 {
        x: (p.x + fx_mul_spec(v.x as int, t)) as i64,
        y: (p.y + fx_mul_spec(v.y as int, t)) as i64,
        z: (p.z + fx_mul_spec(v.z as int, t)) as i64,
    }
}

/// A raw point advanced along the velocity for a raw time.
fn advance(p: Vec3, v: Vec3, t: i64) -> (r: Vec3)
    requires
        p.bounded(SCAN_LIMIT as int),
        v.bounded(SWEEP_VEL_LIMIT as int),
        0 <= t <= TIME_LIMIT,
    ensures
        r == spec_advance(p, v, t as int),
        r.bounded(SCAN_LIMIT as int + 0x80_0000_0000),
{
    proof {
        lemma_fx_mul_bound(v.x as int, t as int, SWEEP_VEL_LIMIT as int, TIME_LIMIT as int);
        lemma_fx_mul_bound(v.y as int, t as int, SWEEP_VEL_LIMIT as int, TIME_LIMIT as int);
        lemma_fx_mul_bound(v.z as int, t as int, SWEEP_VEL_LIMIT as int, TIME_LIMIT as int);
    }
    Vec3 { x: p.x + fx_mul(v.x, t), y: p.y + fx_mul(v.y, t), z: p.z + fx_mul(v.z, t) }
}

/// The face collision of a full tile on one axis: the time at which the
/// box face moving toward the tile reaches the tile's near face.
pub open spec fn spec_face_toi(l: Vec3, h: Vec3, v: Vec3, tp: Vec3, a: Axis, max_t: i64) -> Option<
    (i64, Direction),
> {
    let va = v.spec_get(a) as int;
    if va < 0 {
        let dist = l.spec_get(a) - (tp.spec_get(a) + 1) * FP_ONE;
        if dist >= 0 {
            match spec_toi(dist, -va, max_t as int) {
                Some(t) => Some((t, a.spec_p())),
                None => None,
            }
        } else {
            None
        }
    } else if va > 0 {
        let dist = tp.spec_get(a) * FP_ONE - h.spec_get(a);
        if dist >= 0 {
            match spec_toi(dist, va, max_t as int) {
                Some(t) => Some((t, a.spec_n())),
                None => None,
            }
        } else {
            None
        }
    } else {
        None
    }
}

/// The face collision of a full tile on one axis.
fn face_toi(l: Vec3, h: Vec3, v: Vec3, tp: Vec3, a: Axis, max_t: i64) -> (r: Option<(i64, Direction)>)
    requires
        l.bounded(SCAN_LIMIT as int),
        h.bounded(SCAN_LIMIT as int),
        v.bounded(SWEEP_VEL_LIMIT as int),
        tp.bounded(TILE_LIMIT as int),
        0 <= max_t <= TIME_LIMIT,
    ensures
        r == spec_face_toi(l, h, v, tp, a, max_t),
        r matches Some(p) ==> 0 <= p.0 <= max_t,
{
    let va = v.get(a);
    if va < 0 {
        let dist = l.get(a) - (tp.get(a) + 1) * 1048576;
        if dist >= 0 {
            match toi(dist, -va, max_t) {
                Some(t) => Some((t, a.p())),
                None => None,
            }
        } else {
            None
        }
    } else if va > 0 {
        let dist = tp.get(a) * 1048576 - h.get(a);
        if dist >= 0 {
            match toi(dist, va, max_t) {
                Some(t) => Some((t, a.n())),
                None => None,
            }
        } else {
            None
        }
    } else {
        None
    }
}

/// The earliest face collision of a full tile, axes tried in the
/// priority order Z, Y, X.
pub open spec fn spec_full_block_toi(l: Vec3, h: Vec3, v: Vec3, tp: Vec3, max_t: i64) -> Option<
    (i64, Direction),
> {
    if spec_face_toi(l, h, v, tp, Axis::Z, max_t) is Some {
        spec_face_toi(l, h, v, tp, Axis::Z, max_t)
    } else if spec_face_toi(l, h, v, tp, Axis::Y, max_t) is Some {
        spec_face_toi(l, h, v, tp, Axis::Y, max_t)
    } else {
        spec_face_toi(l, h, v, tp, Axis::X, max_t)
    }
}

/// The earliest face collision of a full tile.
pub fn test_collision_full_block(l: Vec3, h: Vec3, v: Vec3, tp: Vec3, max_t: i64) -> (r: Option<
    (i64, Direction),
>)
    requires
        l.bounded(SCAN_LIMIT as int),
        h.bounded(SCAN_LIMIT as int),
        v.bounded(SWEEP_VEL_LIMIT as int),
        tp.bounded(TILE_LIMIT as int),
        0 <= max_t <= TIME_LIMIT,
    ensures
        r == spec_full_block_toi(l, h, v, tp, max_t),
        r matches Some(p) ==> 0 <= p.0 <= max_t,
{
    if let Some(hit) = face_toi(l, h, v, tp, Axis::Z, max_t) {
        return Some(hit);
    }
    if let Some(hit) = face_toi(l, h, v, tp, Axis::Y, max_t) {
        return Some(hit);
    }
    face_toi(l, h, v, tp, Axis::X, max_t)
}

/// The sweep against the slope's own plane face: hit when the box's
/// near corner, moving into the plane, reaches it within the window and
/// inside the cell.
pub open spec fn spec_plane_step(tile: Tile, l: Vec3, h: Vec3, v: Vec3, tp: Vec3, max_t: i64) -> SlopeStep {
    let d = tile.direction;
    let nc = spec_near_corner(l, h, d);
    let slope_s = (tp.spec_dot(d) + tile.level) * FP_ONE;
    let sv = v.spec_dot(d);
    let cur = nc.spec_dot(d);
    if sv > -SURFACE_MARGIN {
        SlopeStep::Miss
    } else if cur < slope_s {
        SlopeStep::Miss
    } else {
        match spec_toi(cur - slope_s, -sv, max_t as int) {
            None => SlopeStep::Abort,
            Some(t) => {
                let ncp = spec_advance(nc, v, t as int);
                if spec_in_cell(ncp, tp) {
                    SlopeStep::Hit(t, d)
                } else {
                    SlopeStep::Miss
                }
            },
        }
    }
}

/// The sweep against the slope's own plane face.
fn plane_step(tile: &Tile, l: Vec3, h: Vec3, v: Vec3, tp: Vec3, max_t: i64) -> (r: SlopeStep)
    requires
        sweep_args_ok(*tile, l, h, v, tp, max_t),
    ensures
        r == spec_plane_step(*tile, l, h, v, tp, max_t),
        r matches SlopeStep::Hit(t, n) ==> 0 <= t <= max_t && n.bounded(127),
{
    let d = tile.direction;
    let nc = near_corner_of(l, h, d);
    proof {
        lemma_mixed_dot_bound(tp, d, TILE_LIMIT as int, 127);
        lemma_mixed_dot_bound(nc, d, SCAN_LIMIT as int, 127);
        lemma_mixed_dot_bound(v, d, SWEEP_VEL_LIMIT as int, 127);
    }
    let slope_s = (tp.dot(d) + tile.level) * 1048576;
    let sv = v.dot(d);
    let cur = nc.dot(d);
    if sv > -SURFACE_MARGIN {
        SlopeStep::Miss
    } else if cur < slope_s {
        SlopeStep::Miss
    } else {
        match toi(cur - slope_s, -sv, max_t) {
            None => SlopeStep::Abort,
            Some(t) => {
                let ncp = advance(nc, v, t);
                if in_cell_wide(ncp, tp) {
                    SlopeStep::Hit(t, d)
                } else {
                    SlopeStep::Miss
                }
            },
        }
    }
}

/// The near corner, as an executable twin of `spec_near_corner`.
fn near_corner_of(l: Vec3, h: Vec3, d: Vec3) -> (r: Vec3)
    ensures
        r == spec_near_corner(l, h, d),
{
    Vec3 {
        x: if d.x >= 0 {
            l.x
        } else {
            h.x
        },
        y: if d.y >= 0 {
            l.y
        } else {
            h.y
        },
        z: if d.z >= 0 {
            l.z
        } else {
            h.z
        },
    }
}

/// Cell membership for points that may have moved a little beyond the
/// scan range.
fn in_cell_wide(p: Vec3, tp: Vec3) -> (r: bool)
    requires
        p.bounded(BOX_LIMIT as int),
        tp.bounded(TILE_LIMIT as int),
    ensures
        r == spec_in_cell(p, tp),
{
    tp.x * 1048576 <= p.x && p.x <= (tp.x + 1) * 1048576 && tp.y * 1048576 <= p.y && p.y <= (tp.y
        + 1) * 1048576 && tp.z * 1048576 <= p.z && p.z <= (tp.z + 1) * 1048576
}

/// The sweep against one of the slope's acute tile-edge lines.
pub open spec fn spec_edge_step(
    tile: Tile,
    l: Vec3,
    h: Vec3,
    v: Vec3,
    tp: Vec3,
    a: Axis,
    max_t: i64,
) -> SlopeStep {
    let d = tile.direction;
    let da = d.spec_get(a) as int;
    let dl = d.spec_get(a.spec_l()) as int;
    let dr = d.spec_get(a.spec_r()) as int;
    if tile.level >= nmin(da) + pmax(dl) + pmax(dr) {
        SlopeStep::Miss
    } else {
        let en = d.spec_get_plane(a);
        let pv = v.spec_get_plane(a);
        let tp2 = tp.spec_get_plane(a);
        let ne = spec_near_corner(l, h, d).spec_get_plane(a);
        let sv = pv.spec_dot(en);
        let edge_s = (tp2.spec_dot(en) + tile.level - nmin(da)) * FP_ONE;
        let cur = ne.spec_dot(en);
        if sv > -SURFACE_MARGIN {
            SlopeStep::Miss
        } else if cur < edge_s {
            SlopeStep::Miss
        } else {
            match spec_toi(cur - edge_s, -sv, max_t as int) {
                None => SlopeStep::Abort,
                Some(t) => {
                    let prp = (if da >= 0 {
                        tp.spec_get(a) as int
                    } else {
                        tp.spec_get(a) + 1
                    }) * FP_ONE;
                    let prp_t = prp - fx_mul_spec(v.spec_get(a) as int, t as int);
                    let nex = ne.x + fx_mul_spec(pv.x as int, t as int);
                    let ney = ne.y + fx_mul_spec(pv.y as int, t as int);
                    if tp2.x * FP_ONE <= nex <= (tp2.x + 1) * FP_ONE && tp2.y * FP_ONE <= ney <= (
                    tp2.y + 1) * FP_ONE && prp_t > l.spec_get(a) && prp_t < h.spec_get(a) {
                        SlopeStep::Hit(t, en.spec_vec3(a))
                    } else {
                        SlopeStep::Miss
                    }
                },
            }
        }
    }
}

/// The sweep against one of the slope's acute tile-edge lines.
fn edge_step(tile: &Tile, l: Vec3, h: Vec3, v: Vec3, tp: Vec3, a: Axis, max_t: i64) -> (r: SlopeStep)
    requires
        sweep_args_ok(*tile, l, h, v, tp, max_t),
    ensures
        r == spec_edge_step(*tile, l, h, v, tp, a, max_t),
        r matches SlopeStep::Hit(t, n) ==> 0 <= t <= max_t && n.bounded(127),
{
    let d = tile.direction;
    let da = d.get(a);
    let dl = d.get(a.l());
    let dr = d.get(a.r());
    let gate = (if da < 0 {
        da
    } else {
        0
    }) + (if dl > 0 {
        dl
    } else {
        0
    }) + (if dr > 0 {
        dr
    } else {
        0
    });
    if tile.level >= gate {
        return SlopeStep::Miss;
    }
    let en = d.get_plane(a);
    let pv = v.get_plane(a);
    let tp2 = tp.get_plane(a);
    let ne = near_corner_of(l, h, d).get_plane(a);
    proof {
        lemma_mixed_dot2_bound(pv, en, SWEEP_VEL_LIMIT as int, 127);
        lemma_mixed_dot2_bound(tp2, en, TILE_LIMIT as int, 127);
        lemma_mixed_dot2_bound(ne, en, SCAN_LIMIT as int, 127);
    }
    let sv = pv.dot(en);
    let edge_s = (tp2.dot(en) + tile.level - (if da < 0 {
        da
    } else {
        0
    })) * 1048576;
    let cur = ne.dot(en);
    if sv > -SURFACE_MARGIN {
        return SlopeStep::Miss;
    }
    if cur < edge_s {
        return SlopeStep::Miss;
    }
    match toi(cur - edge_s, -sv, max_t) {
        None => SlopeStep::Abort,
        Some(t) => {
            proof {
                lemma_fx_mul_bound(
                    v.spec_get(a) as int,
                    t as int,
                    SWEEP_VEL_LIMIT as int,
                    TIME_LIMIT as int,
                );
                lemma_fx_mul_bound(pv.x as int, t as int, SWEEP_VEL_LIMIT as int, TIME_LIMIT as int);
                lemma_fx_mul_bound(pv.y as int, t as int, SWEEP_VEL_LIMIT as int, TIME_LIMIT as int);
            }
            let prp = (if da >= 0 {
                tp.get(a)
            } else {
                tp.get(a) + 1
            }) * 1048576;
            let prp_t = prp - fx_mul(v.get(a), t);
            let nex = ne.x + fx_mul(pv.x, t);
            let ney = ne.y + fx_mul(pv.y, t);
            if tp2.x * 1048576 <= nex && nex <= (tp2.x + 1) * 1048576 && tp2.y * 1048576 <= ney
                && ney <= (tp2.y + 1) * 1048576 && prp_t > l.get(a) && prp_t < h.get(a) {
                SlopeStep::Hit(t, en.vec3(a))
            } else {
                SlopeStep::Miss
            }
        },
    }
}

/// The sweep against one of the slope's clipped cell corners.  A zero
/// approach speed along the corner's axis is treated as no hit.
pub open spec fn spec_corner_step(
    tile: Tile,
    l: Vec3,
    h: Vec3,
    v: Vec3,
    tp: Vec3,
    a: Axis,
    max_t: i64,
) -> SlopeStep {
    let d = tile.direction;
    let da = d.spec_get(a) as int;
    let dl = d.spec_get(a.spec_l()) as int;
    let dr = d.spec_get(a.spec_r()) as int;
    if tile.level > pmax(da) + nmin(dl) + nmin(dr) {
        SlopeStep::Miss
    } else {
        let nc = spec_near_corner(l, h, d);
        let sv = (v.spec_get(a) as int) * da;
        let corner_s = (tp.spec_get(a) * da + tile.level - nmin(dl) - nmin(dr)) * FP_ONE;
        let cur = (nc.spec_get(a) as int) * da;
        if sv >= 0 {
            SlopeStep::Miss
        } else if cur < corner_s {
            SlopeStep::Miss
        } else {
            match spec_toi(cur - corner_s, -sv, max_t as int) {
                None => SlopeStep::Abort,
                Some(t) => {
                    let crx = (if dl >= 0 {
                        tp.spec_get(a.spec_l()) as int
                    } else {
                        tp.spec_get(a.spec_l()) + 1
                    }) * FP_ONE - fx_mul_spec(v.spec_get(a.spec_l()) as int, t as int);
                    let cry = (if dr >= 0 {
                        tp.spec_get(a.spec_r()) as int
                    } else {
                        tp.spec_get(a.spec_r()) + 1
                    }) * FP_ONE - fx_mul_spec(v.spec_get(a.spec_r()) as int, t as int);
                    if crx > l.spec_get(a.spec_l()) && crx < h.spec_get(a.spec_l()) && cry
                        > l.spec_get(a.spec_r()) && cry < h.spec_get(a.spec_r()) {
                        let dir = if da >= 0 {
                            a.spec_p()
                        } else {
                            a.spec_n()
                        };
                        SlopeStep::Hit(t, Vec3::spec_unit(dir))
                    } else {
                        SlopeStep::Miss
                    }
                },
            }
        }
    }
}

/// The sweep against one of the slope's clipped cell corners.
#[verifier::rlimit(30)]
fn corner_step(tile: &Tile, l: Vec3, h: Vec3, v: Vec3, tp: Vec3, a: Axis, max_t: i64) -> (r:
    SlopeStep)
    requires
        sweep_args_ok(*tile, l, h, v, tp, max_t),
    ensures
        r == spec_corner_step(*tile, l, h, v, tp, a, max_t),
        r matches SlopeStep::Hit(t, n) ==> 0 <= t <= max_t && n.bounded(127),
{
    let d = tile.direction;
    let da = d.get(a);
    let dl = d.get(a.l());
    let dr = d.get(a.r());
    let gate = (if da > 0 {
        da
    } else {
        0
    }) + (if dl < 0 {
        dl
    } else {
        0
    }) + (if dr < 0 {
        dr
    } else {
        0
    });
    if tile.level > gate {
        return SlopeStep::Miss;
    }
    let nc = near_corner_of(l, h, d);
    proof {
        crate::fixed::lemma_i64_product_range(v.spec_get(a), da);
        crate::fixed::lemma_i64_product_range(nc.spec_get(a), da);
        crate::fixed::lemma_i64_product_range(tp.spec_get(a), da);
        assert(-0x40_0000_0000_0000 <= v.spec_get(a) * da <= 0x40_0000_0000_0000
            && -0x100_0000_0000_0000 <= nc.spec_get(a) * da <= 0x100_0000_0000_0000
            && -0x2_0000_0000 <= tp.spec_get(a) * da <= 0x2_0000_0000) by (nonlinear_arith)
            requires
                -SWEEP_VEL_LIMIT <= v.spec_get(a) <= SWEEP_VEL_LIMIT,
                -SCAN_LIMIT <= nc.spec_get(a) <= SCAN_LIMIT,
                -TILE_LIMIT <= tp.spec_get(a) <= TILE_LIMIT,
                -127 <= da <= 127,
                SWEEP_VEL_LIMIT == 0x8000_0000,
                SCAN_LIMIT == 0x100_0000_0000,
                TILE_LIMIT == 0x40_0000,
        ;
    }
    let sv = v.get(a) * da;
    let corner_s = (tp.get(a) * da + tile.level - (if dl < 0 {
        dl
    } else {
        0
    }) - (if dr < 0 {
        dr
    } else {
        0
    })) * 1048576;
    let cur = nc.get(a) * da;
    if sv >= 0 {
        return SlopeStep::Miss;
    }
    if cur < corner_s {
        return SlopeStep::Miss;
    }
    match toi(cur - corner_s, -sv, max_t) {
        None => SlopeStep::Abort,
        Some(t) => {
            proof {
                lemma_fx_mul_bound(
                    v.spec_get(a.spec_l()) as int,
                    t as int,
                    SWEEP_VEL_LIMIT as int,
                    TIME_LIMIT as int,
                );
                lemma_fx_mul_bound(
                    v.spec_get(a.spec_r()) as int,
                    t as int,
                    SWEEP_VEL_LIMIT as int,
                    TIME_LIMIT as int,
                );
            }
            let crx = (if dl >= 0 {
                tp.get(a.l())
            } else {
                tp.get(a.l()) + 1
            }) * 1048576 - fx_mul(v.get(a.l()), t);
            let cry = (if dr >= 0 {
                tp.get(a.r())
            } else {
                tp.get(a.r()) + 1
            }) * 1048576 - fx_mul(v.get(a.r()), t);
            if crx > l.get(a.l()) && crx < h.get(a.l()) && cry > l.get(a.r()) && cry < h.get(a.r()) {
                let dir = if da >= 0 {
                    a.p()
                } else {
                    a.n()
                };
                SlopeStep::Hit(t, Vec3::unit(dir))
            } else {
                SlopeStep::Miss
            }
        },
    }
}

/// The ordinary face collision of a sloped tile, kept only where the
/// struck point lies outside the slope's half-space.
pub open spec fn spec_flat_toi(tile: Tile, l: Vec3, h: Vec3, v: Vec3, tp: Vec3, max_t: i64) -> Option<
    (i64, Vec3),
> {
    let d = tile.direction;
    match spec_full_block_toi(l, h, v, tp, max_t) {
        Some((t, dir)) => {
            let a = dir.spec_axis();
            let nc = spec_near_corner(l, h, d);
            let cc = nc.spec_with(
                a,
                if dir.spec_is_positive() {
                    l.spec_get(a)
                } else {
                    h.spec_get(a)
                },
            );
            let ccp = spec_advance(cc, v, t as int);
            let cp = Vec3 {
                x: spec_clamp(ccp.x as int, tp.x * FP_ONE, (tp.x + 1) * FP_ONE) as i64,
                y: spec_clamp(ccp.y as int, tp.y * FP_ONE, (tp.y + 1) * FP_ONE) as i64,
                z: spec_clamp(ccp.z as int, tp.z * FP_ONE, (tp.z + 1) * FP_ONE) as i64,
            };
            let slope_s = (tp.spec_dot(d) + tile.level) * FP_ONE;
            if cp.spec_dot(d) < slope_s {
                Some((t, Vec3::spec_unit(dir)))
            } else {
                None
            }
        },
        None => None,
    }
}

/// The ordinary face collision of a sloped tile, where still exposed.
fn flat_toi(tile: &Tile, l: Vec3, h: Vec3, v: Vec3, tp: Vec3, max_t: i64) -> (r: Option<(i64, Vec3)>)
    requires
        sweep_args_ok(*tile, l, h, v, tp, max_t),
    ensures
        r == spec_flat_toi(*tile, l, h, v, tp, max_t),
        r matches Some(p) ==> 0 <= p.0 <= max_t && p.1.bounded(127),
{
    let d = tile.direction;
    match test_collision_full_block(l, h, v, tp, max_t) {
        Some((t, dir)) => {
            let a = dir.axis();
            let nc = near_corner_of(l, h, d);
            let cc = nc.with(
                a,
                if dir.is_positive() {
                    l.get(a)
                } else {
                    h.get(a)
                },
            );
            let ccp = advance(cc, v, t);
            let cp = Vec3 {
                x: clamp_i64(ccp.x, tp.x * 1048576, (tp.x + 1) * 1048576),
                y: clamp_i64(ccp.y, tp.y * 1048576, (tp.y + 1) * 1048576),
                z: clamp_i64(ccp.z, tp.z * 1048576, (tp.z + 1) * 1048576),
            };
            proof {
                lemma_mixed_dot_bound(tp, d, TILE_LIMIT as int, 127);
                assert(cp.bounded(0x800_0000_0000));
                lemma_mixed_dot_bound(cp, d, 0x800_0000_0000, 127);
            }
            let slope_s = (tp.dot(d) + tile.level) * 1048576;
            if cp.dot(d) < slope_s {
                Some((t, Vec3::unit(dir)))
            } else {
                None
            }
        },
        None => None,
    }
}

/// `v` clamped into `[lo, hi]`.
fn clamp_i64(v: i64, lo: i64, hi: i64) -> (r: i64)
    ensures
        r == spec_clamp(v as int, lo as int, hi as int),
{
    if v < lo {
        lo
    } else if v > hi {
        hi
    } else {
        v
    }
}

/// The collision a sloped tile makes with the sweeping box: a
/// degenerate slope falls back to empty or full, and otherwise the
/// plane face, the three edges, the three corners and the exposed flat
/// faces run in that order; an out-of-window time aborts the tile.
pub open spec fn spec_slope_toi(tile: Tile, l: Vec3, h: Vec3, v: Vec3, tp: Vec3, max_t: i64) -> Option<
    (i64, Vec3),
> {
    if tile.level <= tile.spec_neg_sum() {
        None
    } else if tile.level >= tile.spec_pos_sum() {
        match spec_full_block_toi(l, h, v, tp, max_t) {
            Some((t, dir)) => Some((t, Vec3::spec_unit(dir))),
            None => None,
        }
    } else {
        match spec_plane_step(tile, l, h, v, tp, max_t) {
            SlopeStep::Hit(t, n) => Some((t, n)),
            SlopeStep::Abort => None,
            SlopeStep::Miss => match spec_edge_step(tile, l, h, v, tp, Axis::X, max_t) {
                SlopeStep::Hit(t, n) => Some((t, n)),
                SlopeStep::Abort => None,
                SlopeStep::Miss => match spec_edge_step(tile, l, h, v, tp, Axis::Y, max_t) {
                    SlopeStep::Hit(t, n) => Some((t, n)),
                    SlopeStep::Abort => None,
                    SlopeStep::Miss => match spec_edge_step(tile, l, h, v, tp, Axis::Z, max_t) {
                        SlopeStep::Hit(t, n) => Some((t, n)),
                        SlopeStep::Abort => None,
                        SlopeStep::Miss => match spec_corner_step(tile, l, h, v, tp, Axis::X, max_t) {
                            SlopeStep::Hit(t, n) => Some((t, n)),
                            SlopeStep::Abort => None,
                            SlopeStep::Miss => match spec_corner_step(
                                tile,
                                l,
                                h,
                                v,
                                tp,
                                Axis::Y,
                                max_t,
                            ) {
                                SlopeStep::Hit(t, n) => Some((t, n)),
                                SlopeStep::Abort => None,
                                SlopeStep::Miss => match spec_corner_step(
                                    tile,
                                    l,
                                    h,
                                    v,
                                    tp,
                                    Axis::Z,
                                    max_t,
                                ) {
                                    SlopeStep::Hit(t, n) => Some((t, n)),
                                    SlopeStep::Abort => None,
                                    SlopeStep::Miss => spec_flat_toi(tile, l, h, v, tp, max_t),
                                },
                            },
                        },
                    },
                },
            },
        }
    }
}

/// The collision a sloped tile makes with the sweeping box.
fn slope_toi(tile: &Tile, l: Vec3, h: Vec3, v: Vec3, tp: Vec3, max_t: i64) -> (r: Option<(i64, Vec3)>)
    requires
        sweep_args_ok(*tile, l, h, v, tp, max_t),
    ensures
        r == spec_slope_toi(*tile, l, h, v, tp, max_t),
        r matches Some(p) ==> 0 <= p.0 <= max_t && p.1.bounded(127),
{
    let (pos_sum, neg_sum) = tile.slope_sums();
    if tile.level <= neg_sum {
        return None;
    }
    if tile.level >= pos_sum {
        return match test_collision_full_block(l, h, v, tp, max_t) {
            Some((t, dir)) => Some((t, Vec3::unit(dir))),
            None => None,
        };
    }
    match plane_step(tile, l, h, v, tp, max_t) {
        SlopeStep::Hit(t, n) => {
            return Some((t, n));
        },
        SlopeStep::Abort => {
            return None;
        },
        SlopeStep::Miss => {},
    }
    match edge_step(tile, l, h, v, tp, Axis::X, max_t) {
        SlopeStep::Hit(t, n) => {
            return Some((t, n));
        },
        SlopeStep::Abort => {
            return None;
        },
        SlopeStep::Miss => {},
    }
    match edge_step(tile, l, h, v, tp, Axis::Y, max_t) {
        SlopeStep::Hit(t, n) => {
            return Some((t, n));
        },
        SlopeStep::Abort => {
            return None;
        },
        SlopeStep::Miss => {},
    }
    match edge_step(tile, l, h, v, tp, Axis::Z, max_t) {
        SlopeStep::Hit(t, n) => {
            return Some((t, n));
        },
        SlopeStep::Abort => {
            return None;
        },
        SlopeStep::Miss => {},
    }
    match corner_step(tile, l, h, v, tp, Axis::X, max_t) {
        SlopeStep::Hit(t, n) => {
            return Some((t, n));
        },
        SlopeStep::Abort => {
            return None;
        },
        SlopeStep::Miss => {},
    }
    match corner_step(tile, l, h, v, tp, Axis::Y, max_t) {
        SlopeStep::Hit(t, n) => {
            return Some((t, n));
        },
        SlopeStep::Abort => {
            return None;
        },
        SlopeStep::Miss => {},
    }
    match corner_step(tile, l, h, v, tp, Axis::Z, max_t) {
        SlopeStep::Hit(t, n) => {
            return Some((t, n));
        },
        SlopeStep::Abort => {
            return None;
        },
        SlopeStep::Miss => {},
    }
    flat_toi(tile, l, h, v, tp, max_t)
}

/// The collision one tile makes with the sweeping box, by its state.
pub open spec fn spec_tile_toi(tile: Tile, l: Vec3, h: Vec3, v: Vec3, tp: Vec3, max_t: i64) -> Option<
    Collision,
> {
    match tile.spec_state() {
        TileState::Empty => None,
        TileState::Full => match spec_full_block_toi(l, h, v, tp, max_t) {
            Some((t, dir)) => Some(
                Collision { normal: Vec3::spec_unit(dir), material: tile.material, dt: t },
            ),
            None => None,
        },
        TileState::Partial => match spec_slope_toi(tile, l, h, v, tp, max_t) {
            Some((t, n)) => Some(Collision { normal: n, material: tile.material, dt: t }),
            None => None,
        },
    }
}

/// The collision one tile makes with the sweeping box.
pub fn test_collision(tile: &Tile, l: Vec3, h: Vec3, v: Vec3, tp: Vec3, max_t: i64) -> (r: Option<
    Collision,
>)
    requires
        sweep_args_ok(*tile, l, h, v, tp, max_t),
    ensures
        r == spec_tile_toi(*tile, l, h, v, tp, max_t),
        r matches Some(c) ==> 0 <= c.dt <= max_t && c.normal.bounded(127),
{
    match tile.state() {
        TileState::Empty => None,
        TileState::Full => match test_collision_full_block(l, h, v, tp, max_t) {
            Some((t, dir)) => Some(
                Collision { normal: Vec3::unit(dir), material: tile.material, dt: t },
            ),
            None => None,
        },
        TileState::Partial => match slope_toi(tile, l, h, v, tp, max_t) {
            Some((t, n)) => Some(Collision { normal: n, material: tile.material, dt: t }),
            None => None,
        },
    }
}


/// Componentwise membership in the lattice box spanned by two corners,
/// in either order.
pub open spec fn spec_in_span(c0: Vec3, c1: Vec3, tp: Vec3) -> bool {
    &&& (if c0.x <= c1.x {
        c0.x <= tp.x <= c1.x
    } else {
        c1.x <= tp.x <= c0.x
    })
    &&& (if c0.y <= c1.y {
        c0.y <= tp.y <= c1.y
    } else {
        c1.y <= tp.y <= c0.y
    })
    &&& (if c0.z <= c1.z {
        c0.z <= tp.z <= c1.z
    } else {
        c1.z <= tp.z <= c0.z
    })
}

/// No tile of the lattice box yields a collision within the window.
pub open spec fn spec_span_clear(
    terrain: Terrain,
    l: Vec3,
    h: Vec3,
    v: Vec3,
    w: i64,
    c0: Vec3,
    c1: Vec3,
) -> bool {
    forall|tp: Vec3|
        spec_in_span(c0, c1, tp) ==> (#[trigger] spec_tile_toi(
            terrain.spec_tile_at(tp),
            l,
            h,
            v,
            tp,
            w,
        )) is None
}

/// No tile anywhere yields a collision under any window within the
/// step: the box's whole path is clear.
pub open spec fn spec_path_clear(terrain: Terrain, l: Vec3, h: Vec3, v: Vec3, dt: i64) -> bool {
    forall|tp: Vec3, mt: i64|
        tp.bounded(TILE_LIMIT as int) && 0 <= mt <= dt ==> (#[trigger] spec_tile_toi(
            terrain.spec_tile_at(tp),
            l,
            h,
            v,
            tp,
            mt,
        )) is None
}

/// The leading corner of the box along the velocity.
pub open spec fn spec_main_corner(l: Vec3, h: Vec3, v: Vec3) -> Vec3 {
    Vec3 {
        x: if v.x < 0 {
            l.x
        } else {
            h.x
        },
        y: if v.y < 0 {
            l.y
        } else {
            h.y
        },
        z: if v.z < 0 {
            l.z
        } else {
            h.z
        },
    }
}

/// The trailing corner of the box along the velocity.
pub open spec fn spec_far_corner(l: Vec3, h: Vec3, v: Vec3) -> Vec3 {
    Vec3 {
        x: if v.x < 0 {
            h.x
        } else {
            l.x
        },
        y: if v.y < 0 {
            h.y
        } else {
            l.y
        },
        z: if v.z < 0 {
            h.z
        } else {
            l.z
        },
    }
}

/// The lattice step direction of the sweep, one per axis.
pub open spec fn spec_step_dir(v: Vec3) -> Vec3 {
    Vec3 {
        x: if v.x < 0 {
            -1i64
        } else {
            1
        },
        y: if v.y < 0 {
            -1i64
        } else {
            1
        },
        z: if v.z < 0 {
            -1i64
        } else {
            1
        },
    }
}

/// The tile holding the leading corner, biased into the box: the floor
/// when leading downward, one below the ceiling when leading upward.
pub open spec fn spec_main_tile(l: Vec3, h: Vec3, v: Vec3) -> Vec3 {
    let m = spec_main_corner(l, h, v);
    Vec3 {
        x: if v.x < 0 {
            (m.x as int / FP_ONE as int) as i64
        } else {
            (-((-m.x) as int / FP_ONE as int) - 1) as i64
        },
        y: if v.y < 0 {
            (m.y as int / FP_ONE as int) as i64
        } else {
            (-((-m.y) as int / FP_ONE as int) - 1) as i64
        },
        z: if v.z < 0 {
            (m.z as int / FP_ONE as int) as i64
        } else {
            (-((-m.z) as int / FP_ONE as int) - 1) as i64
        },
    }
}

/// The tile holding the trailing corner, biased into the box the other
/// way.
pub open spec fn spec_far_tile(l: Vec3, h: Vec3, v: Vec3) -> Vec3 {
    let m = spec_far_corner(l, h, v);
    Vec3 {
        x: if v.x < 0 {
            (-((-m.x) as int / FP_ONE as int) - 1) as i64
        } else {
            (m.x as int / FP_ONE as int) as i64
        },
        y: if v.y < 0 {
            (-((-m.y) as int / FP_ONE as int) - 1) as i64
        } else {
            (m.y as int / FP_ONE as int) as i64
        },
        z: if v.z < 0 {
            (-((-m.z) as int / FP_ONE as int) - 1) as i64
        } else {
            (m.z as int / FP_ONE as int) as i64
        },
    }
}

/// The first slab the sweep scans: the tiles the box starts in, at the
/// leading z layer.
pub open spec fn spec_slab2_main(l: Vec3, h: Vec3, v: Vec3) -> Vec3 {
    let mt = spec_main_tile(l, h, v);
    mt.spec_with(Axis::Z, (mt.z - spec_step_dir(v).z) as i64)
}

/// The third slab's main corner: pulled back one step on y as well.
pub open spec fn spec_slab3_main(l: Vec3, h: Vec3, v: Vec3) -> Vec3 {
    let m2 = spec_slab2_main(l, h, v);
    m2.spec_with(Axis::Y, (m2.y - spec_step_dir(v).y) as i64)
}

/// The collision arises from some tile of the terrain, tested under
/// some time window inside the remaining step.
pub open spec fn spec_sweep_yields(
    terrain: Terrain,
    l: Vec3,
    h: Vec3,
    v: Vec3,
    dt_remaining: i64,
    c: Collision,
) -> bool {
    exists|tp: Vec3, mt: i64|
        tp.bounded(TILE_LIMIT as int) && 0 <= mt <= dt_remaining && spec_tile_toi(
            terrain.spec_tile_at(tp),
            l,
            h,
            v,
            tp,
            mt,
        ) == Some(c)
}

/// What holds of a running best collision: a sound time within the
/// window, a small normal, and a witnessing tile.
pub open spec fn spec_best_ok(
    terrain: Terrain,
    l: Vec3,
    h: Vec3,
    v: Vec3,
    dt_remaining: i64,
    best: Option<Collision>,
) -> bool {
    match best {
        None => true,
        Some(c) => 0 <= c.dt <= dt_remaining && c.normal.bounded(127) && spec_sweep_yields(
            terrain,
            l,
            h,
            v,
            dt_remaining,
            c,
        ),
    }
}

/// Scan every tile in the lattice box spanned by two corners, keeping
/// the earliest collision found (ties keep the later find).
fn scan_box(
    terrain: &Terrain,
    l: Vec3,
    h: Vec3,
    v: Vec3,
    c0: Vec3,
    c1: Vec3,
    best0: Option<Collision>,
    dt_remaining: i64,
) -> (r: Option<Collision>)
    requires
        terrain.wf(),
        l.bounded(SCAN_LIMIT as int),
        h.bounded(SCAN_LIMIT as int),
        v.bounded(SWEEP_VEL_LIMIT as int),
        c0.bounded(TILE_LIMIT as int),
        c1.bounded(TILE_LIMIT as int),
        0 <= dt_remaining <= TIME_LIMIT,
        spec_best_ok(*terrain, l, h, v, dt_remaining, best0),
    ensures
        spec_best_ok(*terrain, l, h, v, dt_remaining, r),
        r is None ==> best0 is None && spec_span_clear(*terrain, l, h, v, dt_remaining, c0, c1),
        r matches Some(c) ==> (best0 matches Some(b) ==> c.dt <= b.dt),
{
    let lox = if c0.x <= c1.x {
        c0.x
    } else {
        c1.x
    };
    let hix = if c0.x <= c1.x {
        c1.x
    } else {
        c0.x
    };
    let loy = if c0.y <= c1.y {
        c0.y
    } else {
        c1.y
    };
    let hiy = if c0.y <= c1.y {
        c1.y
    } else {
        c0.y
    };
    let loz = if c0.z <= c1.z {
        c0.z
    } else {
        c1.z
    };
    let hiz = if c0.z <= c1.z {
        c1.z
    } else {
        c0.z
    };
    let ghost lo = Vec3 { x: lox, y: loy, z: loz };
    let ghost hi = Vec3 { x: hix, y: hiy, z: hiz };
    let mut best = best0;
    let mut cz = loz;
    while cz <= hiz
        invariant
            terrain.wf(),
            l.bounded(SCAN_LIMIT as int),
            h.bounded(SCAN_LIMIT as int),
            v.bounded(SWEEP_VEL_LIMIT as int),
            0 <= dt_remaining <= TIME_LIMIT,
            lo == (Vec3 { x: lox, y: loy, z: loz }),
            hi == (Vec3 { x: hix, y: hiy, z: hiz }),
            -TILE_LIMIT <= lox <= hix <= TILE_LIMIT,
            -TILE_LIMIT <= loy <= hiy <= TILE_LIMIT,
            -TILE_LIMIT <= loz <= hiz <= TILE_LIMIT,
            loz <= cz,
            spec_best_ok(*terrain, l, h, v, dt_remaining, best),
            best is None ==> best0 is None,
            best is None ==> forall|tp: Vec3|
                spec_scanned(lo, hi, cz as int, loy as int, lox as int, tp) ==> (
                #[trigger] spec_tile_toi(
                    terrain.spec_tile_at(tp),
                    l,
                    h,
                    v,
                    tp,
                    dt_remaining,
                )) is None,
            best matches Some(c) ==> (best0 matches Some(b) ==> c.dt <= b.dt),
        decreases hiz + 1 - cz,
    {
        let mut cy = loy;
        while cy <= hiy
            invariant
                terrain.wf(),
                l.bounded(SCAN_LIMIT as int),
                h.bounded(SCAN_LIMIT as int),
                v.bounded(SWEEP_VEL_LIMIT as int),
                0 <= dt_remaining <= TIME_LIMIT,
                lo == (Vec3 { x: lox, y: loy, z: loz }),
                hi == (Vec3 { x: hix, y: hiy, z: hiz }),
                -TILE_LIMIT <= lox <= hix <= TILE_LIMIT,
                -TILE_LIMIT <= loy <= hiy <= TILE_LIMIT,
                -TILE_LIMIT <= loz <= cz <= hiz <= TILE_LIMIT,
                loy <= cy,
                spec_best_ok(*terrain, l, h, v, dt_remaining, best),
                best is None ==> best0 is None,
                best is None ==> forall|tp: Vec3|
                    spec_scanned(lo, hi, cz as int, cy as int, lox as int, tp) ==> (
                    #[trigger] spec_tile_toi(
                        terrain.spec_tile_at(tp),
                        l,
                        h,
                        v,
                        tp,
                        dt_remaining,
                    )) is None,
                best matches Some(c) ==> (best0 matches Some(b) ==> c.dt <= b.dt),
            decreases hiy + 1 - cy,
        {
            let mut cx = lox;
            while cx <= hix
                invariant
                    terrain.wf(),
                    l.bounded(SCAN_LIMIT as int),
                    h.bounded(SCAN_LIMIT as int),
                    v.bounded(SWEEP_VEL_LIMIT as int),
                    0 <= dt_remaining <= TIME_LIMIT,
                    lo == (Vec3 { x: lox, y: loy, z: loz }),
                    hi == (Vec3 { x: hix, y: hiy, z: hiz }),
                    -TILE_LIMIT <= lox <= hix <= TILE_LIMIT,
                    -TILE_LIMIT <= loy <= cy <= hiy <= TILE_LIMIT,
                    -TILE_LIMIT <= loz <= cz <= hiz <= TILE_LIMIT,
                    lox <= cx,
                    spec_best_ok(*terrain, l, h, v, dt_remaining, best),
                    best is None ==> best0 is None,
                    best is None ==> forall|tp: Vec3|
                        spec_scanned(lo, hi, cz as int, cy as int, cx as int, tp) ==> (
                        #[trigger] spec_tile_toi(
                            terrain.spec_tile_at(tp),
                            l,
                            h,
                            v,
                            tp,
                            dt_remaining,
                        )) is None,
                    best matches Some(c) ==> (best0 matches Some(b) ==> c.dt <= b.dt),
                decreases hix + 1 - cx,
            {
                let tp = Vec3 { x: cx, y: cy, z: cz };
                let tile = terrain.tile_at(tp);
                let max_t = match best {
                    Some(c) => c.dt,
                    None => dt_remaining,
                };
                let found = test_collision(&tile, l, h, v, tp, max_t);
                if let Some(c) = found {
                    proof {
                        assert(spec_tile_toi(terrain.spec_tile_at(tp), l, h, v, tp, max_t)
                            == Some(c));
                        assert(spec_sweep_yields(*terrain, l, h, v, dt_remaining, c));
                    }
                    best = Some(c);
                }
                proof {
                    if best is None {
                        assert forall|q: Vec3|
                            spec_scanned(lo, hi, cz as int, cy as int, cx + 1, q) implies (
                        #[trigger] spec_tile_toi(
                            terrain.spec_tile_at(q),
                            l,
                            h,
                            v,
                            q,
                            dt_remaining,
                        )) is None by {
                            if q != tp {
                                assert(spec_scanned(lo, hi, cz as int, cy as int, cx as int, q));
                            }
                        }
                    }
                }
                cx = cx + 1;
            }
            cy = cy + 1;
        }
        cz = cz + 1;
    }
    proof {
        if best is None {
            assert forall|tp: Vec3| spec_in_span(c0, c1, tp) implies (#[trigger] spec_tile_toi(
                terrain.spec_tile_at(tp),
                l,
                h,
                v,
                tp,
                dt_remaining,
            )) is None by {
                assert(spec_scanned(lo, hi, cz as int, loy as int, lox as int, tp));
            }
        }
    }
    best
}

/// A raw coordinate within the scan range floors to a small lattice
/// coordinate, and so does its ceiling.
proof fn lemma_lattice_range(x: int)
    requires
        -2 * SCAN_LIMIT <= x <= 2 * SCAN_LIMIT,
    ensures
        -0x20_0000 <= x / (FP_ONE as int) <= 0x20_0000,
        -0x20_0000 <= -((-x) / (FP_ONE as int)) <= 0x20_0000,
{
    vstd::arithmetic::div_mod::lemma_div_is_ordered(
        -2 * (SCAN_LIMIT as int),
        x,
        FP_ONE as int,
    );
    vstd::arithmetic::div_mod::lemma_div_is_ordered(x, 2 * (SCAN_LIMIT as int), FP_ONE as int);
    vstd::arithmetic::div_mod::lemma_div_is_ordered(
        -2 * (SCAN_LIMIT as int),
        -x,
        FP_ONE as int,
    );
    vstd::arithmetic::div_mod::lemma_div_is_ordered(-x, 2 * (SCAN_LIMIT as int), FP_ONE as int);
    vstd::arithmetic::div_mod::lemma_fundamental_div_mod_converse(
        -0x200_0000_0000,
        0x10_0000,
        -0x20_0000,
        0,
    );
    vstd::arithmetic::div_mod::lemma_fundamental_div_mod_converse(
        0x200_0000_0000,
        0x10_0000,
        0x20_0000,
        0,
    );
}

/// The raw time at which a coordinate moving at `vel` reaches the
/// lattice boundary `nb`, rounded down; `i64::MAX` when it never does
/// or does so beyond one step's span.
fn boundary_time(p: i64, vel: i64, nb: i64) -> (t: i64)
    requires
        -2 * SCAN_LIMIT <= p <= 2 * SCAN_LIMIT,
        -0x40_0000 <= nb <= 0x40_0000,
    ensures
        0 <= t,
{
    if vel == 0 || vel == i64::MIN {
        return i64::MAX;
    }
    let dist = if vel > 0 {
        nb * 1048576 - p
    } else {
        p - nb * 1048576
    };
    if dist < 0 {
        return i64::MAX;
    }
    let speed = if vel > 0 {
        vel
    } else {
        -vel
    };
    proof {
        crate::fixed::lemma_i64_product_range(dist, FP_ONE);
        lemma_div_bounds(dist as int * FP_ONE as int, speed as int);
    }
    let q: i128 = floor_div((dist as i128) * 1048576, speed as i128);
    if q > TIME_LIMIT as i128 {
        i64::MAX
    } else {
        q as i64
    }
}

/// The earliest collision of the moving box with the terrain within the
/// remaining time: the already-overlapped tiles first, slab by slab in
/// Z, Y, X priority, then every tile boundary the leading corner
/// crosses, in time order.  Any reported collision is a sound tile
/// collision within the window, and an empty result means no initially
/// overlapped tile yields one over the whole window.  Each tile is
/// tested under the running best time, which only shrinks, so later
/// finds never worsen the reported time; a sloped tile whose first
/// crossing falls outside its window withholds its later faces, exactly
/// as the per-tile test specifies.
pub fn detect_next_collision(
    terrain: &Terrain,
    l: Vec3,
    h: Vec3,
    v: Vec3,
    dt_remaining: i64,
) -> (r: Option<Collision>)
    requires
        terrain.wf(),
        l.bounded(SCAN_LIMIT as int),
        h.bounded(SCAN_LIMIT as int),
        v.bounded(SWEEP_VEL_LIMIT as int),
        0 <= dt_remaining <= TIME_LIMIT,
    ensures
        spec_best_ok(*terrain, l, h, v, dt_remaining, r),
        r matches Some(c) ==> 0 <= c.dt <= dt_remaining && c.normal.bounded(127),
        r is None ==> spec_span_clear(
            *terrain,
            l,
            h,
            v,
            dt_remaining,
            spec_main_tile(l, h, v),
            spec_far_tile(l, h, v).spec_with(Axis::Z, spec_main_tile(l, h, v).z),
        ),
        r is None && spec_main_tile(l, h, v).z != spec_far_tile(l, h, v).z ==> spec_span_clear(
            *terrain,
            l,
            h,
            v,
            dt_remaining,
            spec_slab2_main(l, h, v),
            spec_far_tile(l, h, v).spec_with(Axis::Y, spec_main_tile(l, h, v).y),
        ),
        r is None && spec_main_tile(l, h, v).z != spec_far_tile(l, h, v).z && spec_main_tile(
            l,
            h,
            v,
        ).y != spec_far_tile(l, h, v).y ==> spec_span_clear(
            *terrain,
            l,
            h,
            v,
            dt_remaining,
            spec_slab3_main(l, h, v),
            spec_far_tile(l, h, v).spec_with(Axis::X, spec_main_tile(l, h, v).x),
        ),
{
    let main_c = Vec3 {
        x: if v.x < 0 {
            l.x
        } else {
            h.x
        },
        y: if v.y < 0 {
            l.y
        } else {
            h.y
        },
        z: if v.z < 0 {
            l.z
        } else {
            h.z
        },
    };
    let far_c = Vec3 {
        x: if v.x < 0 {
            h.x
        } else {
            l.x
        },
        y: if v.y < 0 {
            h.y
        } else {
            l.y
        },
        z: if v.z < 0 {
            h.z
        } else {
            l.z
        },
    };
    let step = Vec3 {
        x: if v.x < 0 {
            -1i64
        } else {
            1
        },
        y: if v.y < 0 {
            -1i64
        } else {
            1
        },
        z: if v.z < 0 {
            -1i64
        } else {
            1
        },
    };
    proof {
        lemma_lattice_range(main_c.x as int);
        lemma_lattice_range(main_c.y as int);
        lemma_lattice_range(main_c.z as int);
        lemma_lattice_range(far_c.x as int);
        lemma_lattice_range(far_c.y as int);
        lemma_lattice_range(far_c.z as int);
    }
    let main_f = main_c.floor_to();
    let main_cl = main_c.ceil_to();
    let far_f = far_c.floor_to();
    let far_cl = far_c.ceil_to();
    let mut mt = Vec3 {
        x: if v.x < 0 {
            main_f.x
        } else {
            main_cl.x - 1
        },
        y: if v.y < 0 {
            main_f.y
        } else {
            main_cl.y - 1
        },
        z: if v.z < 0 {
            main_f.z
        } else {
            main_cl.z - 1
        },
    };
    let ft = Vec3 {
        x: if v.x < 0 {
            far_cl.x - 1
        } else {
            far_f.x
        },
        y: if v.y < 0 {
            far_cl.y - 1
        } else {
            far_f.y
        },
        z: if v.z < 0 {
            far_cl.z - 1
        } else {
            far_f.z
        },
    };
    proof {
        assert(main_c == spec_main_corner(l, h, v));
        assert(far_c == spec_far_corner(l, h, v));
        assert(step == spec_step_dir(v));
        assert(mt == spec_main_tile(l, h, v));
        assert(ft == spec_far_tile(l, h, v));
    }
    let ghost mt1 = mt;
    // Tiles the box already overlaps, for faces it is moving into.
    let mut best = scan_box(terrain, l, h, v, mt, ft.with(Axis::Z, mt.z), None, dt_remaining);
    if mt.z != ft.z {
        mt = mt.with(Axis::Z, mt.z - step.z);
        proof {
            assert(mt == spec_slab2_main(l, h, v));
        }
        best = scan_box(terrain, l, h, v, mt, ft.with(Axis::Y, mt.y), best, dt_remaining);
        if mt.y != ft.y {
            mt = mt.with(Axis::Y, mt.y - step.y);
            proof {
                assert(mt == spec_slab3_main(l, h, v));
            }
            best = scan_box(terrain, l, h, v, mt, ft.with(Axis::X, mt.x), best, dt_remaining);
        }
    }
    // Walk each boundary crossing of the leading corner in time order.
    let mut cur_t = main_f;
    let mut nb = Vec3 {
        x: cur_t.x + (if v.x < 0 {
            0
        } else {
            1
        }),
        y: cur_t.y + (if v.y < 0 {
            0
        } else {
            1
        }),
        z: cur_t.z + (if v.z < 0 {
            0
        } else {
            1
        }),
    };
    let mut fuel: i64 = SWEEP_STEP_CAP;
    while best.is_none() && fuel > 0
        invariant
            terrain.wf(),
            l.bounded(SCAN_LIMIT as int),
            h.bounded(SCAN_LIMIT as int),
            v.bounded(SWEEP_VEL_LIMIT as int),
            main_c.bounded(SCAN_LIMIT as int),
            far_c.bounded(SCAN_LIMIT as int),
            step.bounded(1),
            0 <= dt_remaining <= TIME_LIMIT,
            0 <= fuel <= SWEEP_STEP_CAP,
            cur_t.bounded(0x20_0001 + (SWEEP_STEP_CAP - fuel)),
            nb.bounded(0x20_0002 + (SWEEP_STEP_CAP - fuel)),
            spec_best_ok(*terrain, l, h, v, dt_remaining, best),
            best is None ==> spec_span_clear(
                *terrain,
                l,
                h,
                v,
                dt_remaining,
                spec_main_tile(l, h, v),
                spec_far_tile(l, h, v).spec_with(Axis::Z, spec_main_tile(l, h, v).z),
            ),
            best is None && spec_main_tile(l, h, v).z != spec_far_tile(l, h, v).z
                ==> spec_span_clear(
                *terrain,
                l,
                h,
                v,
                dt_remaining,
                spec_slab2_main(l, h, v),
                spec_far_tile(l, h, v).spec_with(Axis::Y, spec_main_tile(l, h, v).y),
            ),
            best is None && spec_main_tile(l, h, v).z != spec_far_tile(l, h, v).z && spec_main_tile(
                l,
                h,
                v,
            ).y != spec_far_tile(l, h, v).y ==> spec_span_clear(
                *terrain,
                l,
                h,
                v,
                dt_remaining,
                spec_slab3_main(l, h, v),
                spec_far_tile(l, h, v).spec_with(Axis::X, spec_main_tile(l, h, v).x),
            ),
        decreases fuel,
    {
        let tx = boundary_time(main_c.x, v.x, nb.x);
        let ty = boundary_time(main_c.y, v.y, nb.y);
        let tz = boundary_time(main_c.z, v.z, nb.z);
        let a = if tx < ty && tx < tz {
            Axis::X
        } else if ty < tz {
            Axis::Y
        } else {
            Axis::Z
        };
        let ta = if tx < ty && tx < tz {
            tx
        } else if ty < tz {
            ty
        } else {
            tz
        };
        if ta > dt_remaining {
            break;
        }
        cur_t = cur_t.with(a, cur_t.get(a) + step.get(a));
        nb = nb.with(a, nb.get(a) + step.get(a));
        let cmp = advance(main_c, v, ta);
        let cfp = advance(far_c, v, ta);
        proof {
            lemma_lattice_range(cmp.x as int);
            lemma_lattice_range(cmp.y as int);
            lemma_lattice_range(cmp.z as int);
            lemma_lattice_range(cfp.x as int);
            lemma_lattice_range(cfp.y as int);
            lemma_lattice_range(cfp.z as int);
        }
        let cmp_f = cmp.floor_to();
        let cmp_cl = cmp.ceil_to();
        let cfp_f = cfp.floor_to();
        let cfp_cl = cfp.ceil_to();
        let mut mt2 = Vec3 {
            x: if v.x < 0 {
                cmp_f.x
            } else {
                cmp_cl.x - 1
            },
            y: if v.y < 0 {
                cmp_f.y
            } else {
                cmp_cl.y - 1
            },
            z: if v.z < 0 {
                cmp_f.z
            } else {
                cmp_cl.z - 1
            },
        };
        let ft2 = Vec3 {
            x: if v.x < 0 {
                cfp_cl.x - 1
            } else {
                cfp_f.x
            },
            y: if v.y < 0 {
                cfp_cl.y - 1
            } else {
                cfp_f.y
            },
            z: if v.z < 0 {
                cfp_cl.z - 1
            } else {
                cfp_f.z
            },
        };
        let mut mt2 = mt2.with(a, cur_t.get(a));
        let ft2 = ft2.with(a, cur_t.get(a));
        // The strip just entered: the leading tile decides on the
        // crossed axis; on the others the already-entered tile is more
        // inclusive wherever the box is still moving.
        if v.get(a.l()) != 0 {
            mt2 = mt2.with(a.l(), cur_t.get(a.l()));
        }
        if v.get(a.r()) != 0 {
            mt2 = mt2.with(a.r(), cur_t.get(a.r()));
        }
        best = scan_box(terrain, l, h, v, mt2, ft2, best, dt_remaining);
        fuel = fuel - 1;
    }
    best
}


/// Law: no tunneling at a tile face.  Whatever the speed, advancing the
/// box by a time the face sweep reports never carries the leading face
/// past the struck face plane: times round down and the advance rounds
/// toward zero, so the box stops at or before the surface.
pub proof fn lemma_face_sweep_never_overshoots(
    l: Vec3,
    h: Vec3,
    v: Vec3,
    tp: Vec3,
    a: Axis,
    max_t: i64,
    t: i64,
    d: Direction,
)
    requires
        spec_face_toi(l, h, v, tp, a, max_t) == Some((t, d)),
    ensures
        v.spec_get(a) > 0 ==> h.spec_get(a) + fx_mul_spec(v.spec_get(a) as int, t as int)
            <= tp.spec_get(a) * FP_ONE,
        v.spec_get(a) < 0 ==> l.spec_get(a) + fx_mul_spec(v.spec_get(a) as int, t as int) >= (
        tp.spec_get(a) + 1) * FP_ONE,
{
    let va = v.spec_get(a) as int;
    if va > 0 {
        let dist = tp.spec_get(a) * FP_ONE - h.spec_get(a);
        lemma_advance_within(dist, va, t as int);
    } else if va < 0 {
        let dist = l.spec_get(a) - (tp.spec_get(a) + 1) * FP_ONE;
        lemma_advance_within(dist, -va, t as int);
        assert(fx_mul_spec(va, t as int) == -fx_mul_spec(-va, t as int)) by {
            assert(va * t == -((-va) * t)) by (nonlinear_arith);
        }
    }
}

/// Covering a distance at the reported rounded-down time, with the
/// advance itself rounded toward zero, never exceeds the distance.
proof fn lemma_advance_within(dist: int, speed: int, t: int)
    requires
        0 <= dist,
        0 < speed,
        t == dist * FP_ONE / speed,
    ensures
        fx_mul_spec(speed, t) <= dist,
{
    vstd::arithmetic::div_mod::lemma_div_pos_is_pos(dist * FP_ONE, speed);
    assert(0 <= dist * FP_ONE) by (nonlinear_arith)
        requires
            0 <= dist,
    ;
    // speed * t <= dist * FP_ONE, from the division's fundamental identity.
    vstd::arithmetic::div_mod::lemma_fundamental_div_mod(dist * FP_ONE, speed);
    assert(speed * t <= dist * FP_ONE);
    // Divide both sides by FP_ONE again.
    vstd::arithmetic::div_mod::lemma_div_is_ordered(speed * t, dist * FP_ONE, FP_ONE as int);
    vstd::arithmetic::mul::lemma_mul_is_commutative(dist, FP_ONE as int);
    vstd::arithmetic::div_mod::lemma_div_multiples_vanish(dist, FP_ONE as int);
    assert(0 <= speed * t) by (nonlinear_arith)
        requires
            0 < speed,
            0 <= t,
    ;
    assert(fx_mul_spec(speed, t) == speed * t / (FP_ONE as int));
}

} // verus!
