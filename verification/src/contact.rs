//! Contact detection: which surfaces a box is touching right now.
//!
//! For every tile in the margin-expanded range the box covers, at most
//! one contact is produced.  A full tile is tested face by face in the
//! priority order Z, Y, X.  A sloped tile is tested in the order the
//! geometry demands: its own plane face first, then the three tile-edge
//! lines where the plane meets a cell face, then the three clipped cell
//! corners, and last the ordinary cell faces, kept only where the face
//! is still exposed outside the slope's half-space.
//!
//! Normals are exact integer vectors: an axis unit for cell faces and
//! corners, the slope's `direction` for its plane, and `direction` with
//! one component zeroed for an edge.  A contact's `displacement` is the
//! offset to the surface along its normal, divided by the normal's
//! squared length and rounded toward zero; for axis faces that is
//! exactly the raw face offset.

use vstd::prelude::*;

verus! {

use crate::axes::{Axis, Direction};
use crate::fixed::{FP_ONE, SURFACE_MARGIN, div_trunc, div_trunc_spec, lemma_i64_product_range};
use crate::terrain::Terrain;
use crate::tile::{Material, Tile, TileState};
use crate::vectors::{lemma_mixed_dot_bound, lemma_mixed_dot2_bound, Vec3};

/// Largest raw magnitude of a box corner coordinate the geometry tests
/// accept.
pub const BOX_LIMIT: i64 = 0x200_0000_0000;

/// Largest tile-lattice coordinate magnitude the geometry tests accept.
pub const TILE_LIMIT: i64 = 0x40_0000;

/// A surface the box is currently touching.
#[derive(Clone, Copy, Debug, PartialEq, Eq, Structural)]
pub struct Contact {
    /// Outward surface normal: an exact, unnormalized integer vector.
    pub normal: Vec3,
    /// Material of the touched tile.
    pub material: Material,
    /// Offset to the surface along `normal`, divided by the normal's
    /// squared length, rounded toward zero (raw units).
    pub displacement: i64,
}

/// The inputs every geometry test works under: a well-formed tile and
/// bounded coordinates.
pub open spec fn contact_args_ok(tile: Tile, l: Vec3, h: Vec3, tp: Vec3) -> bool {
    &&& tile.wf()
    &&& l.bounded(BOX_LIMIT as int)
    &&& h.bounded(BOX_LIMIT as int)
    &&& tp.bounded(TILE_LIMIT as int)
}

/// The negative part of a component: `v` when below zero, else zero.
pub open spec fn nmin(v: int) -> int {
    if v < 0 {
        v
    } else {
        0
    }
}

/// The positive part of a component: `v` when above zero, else zero.
pub open spec fn pmax(v: int) -> int {
    if v > 0 {
        v
    } else {
        0
    }
}

/// `v` clamped into `[lo, hi]`.
pub open spec fn spec_clamp(v: int, lo: int, hi: int) -> int {
    if v < lo {
        lo
    } else if v > hi {
        hi
    } else {
        v
    }
}

/// Whether an offset of `delta` along a normal of squared length `nn`
/// is a true distance below the surface margin:
/// `|delta| / sqrt(nn) < SURFACE_MARGIN`, squared to stay in integers.
pub open spec fn spec_within_margin(delta: int, nn: int) -> bool {
    delta * delta < SURFACE_MARGIN * SURFACE_MARGIN * nn
}

/// Whether an offset of `delta` along a normal of squared length `nn`
/// is a true distance below the surface margin.
pub fn within_margin(delta: i64, nn: i64) -> (r: bool)
    ensures
        r == spec_within_margin(delta as int, nn as int),
{
    proof {
        lemma_i64_product_range(delta, delta);
    }
    let d2: i128 = (delta as i128) * (delta as i128);
    let m2: i128 = 10816 * (nn as i128);
    d2 < m2
}

/// Whether the box overlaps the tile's footprint on the given axis by
/// more than the surface margin.
pub open spec fn spec_overlaps(l: Vec3, h: Vec3, tp: Vec3, a: Axis) -> bool {
    &&& h.spec_get(a) - tp.spec_get(a) * FP_ONE > SURFACE_MARGIN
    &&& (tp.spec_get(a) + 1) * FP_ONE - l.spec_get(a) > SURFACE_MARGIN
}

/// The contact a full tile's two faces on one axis make with the box:
/// the face within margin of the matching box face, provided the box
/// overlaps the tile's footprint on the other two axes.
pub open spec fn spec_face_hit(l: Vec3, h: Vec3, tp: Vec3, a: Axis) -> Option<(Direction, i64)> {
    let hi = h.spec_get(a) - tp.spec_get(a) * FP_ONE;
    let li = (tp.spec_get(a) + 1) * FP_ONE - l.spec_get(a);
    if spec_overlaps(l, h, tp, a.spec_l()) && spec_overlaps(l, h, tp, a.spec_r()) {
        if -SURFACE_MARGIN < hi < SURFACE_MARGIN {
            Some((a.spec_n(), hi as i64))
        } else if -SURFACE_MARGIN < li < SURFACE_MARGIN {
            Some((a.spec_p(), li as i64))
        } else {
            None
        }
    } else {
        None
    }
}

/// The contact a full unit cube makes with the box: the first face hit
/// in the priority order Z, Y, X.
pub open spec fn spec_full_block_contact(l: Vec3, h: Vec3, tp: Vec3) -> Option<(Direction, i64)> {
    if spec_face_hit(l, h, tp, Axis::Z) is Some {
        spec_face_hit(l, h, tp, Axis::Z)
    } else if spec_face_hit(l, h, tp, Axis::Y) is Some {
        spec_face_hit(l, h, tp, Axis::Y)
    } else {
        spec_face_hit(l, h, tp, Axis::X)
    }
}

/// The corner of the box deepest into the slope's half-space: on each
/// axis the low corner where the normal points up the axis, else the
/// high corner.
pub open spec fn spec_near_corner(l: Vec3, h: Vec3, d: Vec3) -> Vec3 {
    Vec3 {
        x: if d.x >= 0 {
            l.x
        } else {
            h.x
        },
        y: if d.y >= 0 {
            l.y
        } else {
            h.y
        },
        z: if d.z >= 0 {
            l.z
        } else {
            h.z
        },
    }
}

/// Whether a raw point lies within the tile's unit cell (inclusive).
pub open spec fn spec_in_cell(p: Vec3, tp: Vec3) -> bool {
    &&& tp.x * FP_ONE <= p.x <= (tp.x + 1) * FP_ONE
    &&& tp.y * FP_ONE <= p.y <= (tp.y + 1) * FP_ONE
    &&& tp.z * FP_ONE <= p.z <= (tp.z + 1) * FP_ONE
}

/// The contact the slope's own plane face makes with the box's near
/// corner, when that corner is within margin of the plane and inside
/// the cell.
pub open spec fn spec_plane_contact(tile: Tile, l: Vec3, h: Vec3, tp: Vec3) -> Option<(Vec3, i64)> {
    let d = tile.direction;
    let nc = spec_near_corner(l, h, d);
    let slope_s = (tp.spec_dot(d) + tile.level) * FP_ONE;
    let cur = nc.spec_dot(d);
    let nn = d.spec_dot(d);
    if spec_within_margin(slope_s - cur, nn) && spec_in_cell(nc, tp) {
        Some((d, div_trunc_spec(slope_s - cur, nn) as i64))
    } else {
        None
    }
}

/// The contact one of the slope's acute tile-edge lines makes with the
/// box, on the edge orthogonal to the given axis.  Only relevant where
/// the slope plane does not span that cell face (the level gate).
pub open spec fn spec_edge_contact(tile: Tile, l: Vec3, h: Vec3, tp: Vec3, a: Axis) -> Option<
    (Vec3, i64),
> {
    let d = tile.direction;
    let da = d.spec_get(a) as int;
    let dl = d.spec_get(a.spec_l()) as int;
    let dr = d.spec_get(a.spec_r()) as int;
    if tile.level >= nmin(da) + pmax(dl) + pmax(dr) {
        None
    } else {
        let en = d.spec_get_plane(a);
        let tp2 = tp.spec_get_plane(a);
        let ne = spec_near_corner(l, h, d).spec_get_plane(a);
        let edge_s = (tp2.spec_dot(en) + tile.level - nmin(da)) * FP_ONE;
        let cur = ne.spec_dot(en);
        let nn = en.spec_dot(en);
        let prp = (if da >= 0 {
            tp.spec_get(a) as int
        } else {
            tp.spec_get(a) + 1
        }) * FP_ONE;
        if spec_within_margin(edge_s - cur, nn) && tp2.x * FP_ONE <= ne.x <= (tp2.x + 1) * FP_ONE
            && tp2.y * FP_ONE <= ne.y <= (tp2.y + 1) * FP_ONE && prp > l.spec_get(a) && prp
            < h.spec_get(a) {
            Some((en.spec_vec3(a), div_trunc_spec(edge_s - cur, nn) as i64))
        } else {
            None
        }
    }
}

/// The contact one of the slope's clipped cell corners makes with the
/// box, on the corner along the given axis.  Only relevant where the
/// slope plane clips that corner entirely (the level gate).
pub open spec fn spec_corner_contact(tile: Tile, l: Vec3, h: Vec3, tp: Vec3, a: Axis) -> Option<
    (Vec3, i64),
> {
    let d = tile.direction;
    let da = d.spec_get(a) as int;
    let dl = d.spec_get(a.spec_l()) as int;
    let dr = d.spec_get(a.spec_r()) as int;
    if tile.level > pmax(da) + nmin(dl) + nmin(dr) {
        None
    } else {
        let nc = spec_near_corner(l, h, d);
        let corner_s = (tp.spec_get(a) * da + tile.level - nmin(dl) - nmin(dr)) * FP_ONE;
        let cur = nc.spec_get(a) * da;
        let crx = (if dl >= 0 {
            tp.spec_get(a.spec_l()) as int
        } else {
            tp.spec_get(a.spec_l()) + 1
        }) * FP_ONE;
        let cry = (if dr >= 0 {
            tp.spec_get(a.spec_r()) as int
        } else {
            tp.spec_get(a.spec_r()) + 1
        }) * FP_ONE;
        if spec_within_margin(corner_s - cur, da * da) && crx > l.spec_get(a.spec_l()) && crx
            < h.spec_get(a.spec_l()) && cry > l.spec_get(a.spec_r()) && cry < h.spec_get(
            a.spec_r(),
        ) {
            let dir = if da >= 0 {
                a.spec_p()
            } else {
                a.spec_n()
            };
            Some((Vec3::spec_unit(dir), div_trunc_spec(corner_s - cur, da) as i64))
        } else {
            None
        }
    }
}

/// The ordinary cell-face contact of a sloped tile, kept only where the
/// touched point actually lies outside the slope's half-space - the
/// flat face is still exposed there.
pub open spec fn spec_flat_face_contact(tile: Tile, l: Vec3, h: Vec3, tp: Vec3) -> Option<
    (Vec3, i64),
> {
    let d = tile.direction;
    match spec_full_block_contact(l, h, tp) {
        Some((dir, disp)) => {
            let a = dir.spec_axis();
            let nc = spec_near_corner(l, h, d);
            let cc = nc.spec_with(
                a,
                if dir.spec_is_positive() {
                    l.spec_get(a)
                } else {
                    h.spec_get(a)
                },
            );
            let cp = Vec3 {
                x: spec_clamp(cc.x as int, tp.x * FP_ONE, (tp.x + 1) * FP_ONE) as i64,
                y: spec_clamp(cc.y as int, tp.y * FP_ONE, (tp.y + 1) * FP_ONE) as i64,
                z: spec_clamp(cc.z as int, tp.z * FP_ONE, (tp.z + 1) * FP_ONE) as i64,
            };
            let slope_s = (tp.spec_dot(d) + tile.level) * FP_ONE;
            if cp.spec_dot(d) < slope_s {
                Some((Vec3::spec_unit(dir), disp))
            } else {
                None
            }
        },
        None => None,
    }
}

/// The contact a sloped tile makes with the box: a degenerate slope
/// falls back to empty or full, and otherwise the plane face, the three
/// edges, the three corners and the exposed flat faces are tried in
/// that order.
pub open spec fn spec_slope_contact(tile: Tile, l: Vec3, h: Vec3, tp: Vec3) -> Option<(Vec3, i64)> {
    if tile.level <= tile.spec_neg_sum() {
        None
    } else if tile.level >= tile.spec_pos_sum() {
        match spec_full_block_contact(l, h, tp) {
            Some((dir, disp)) => Some((Vec3::spec_unit(dir), disp)),
            None => None,
        }
    } else if spec_plane_contact(tile, l, h, tp) is Some {
        spec_plane_contact(tile, l, h, tp)
    } else if spec_edge_contact(tile, l, h, tp, Axis::X) is Some {
        spec_edge_contact(tile, l, h, tp, Axis::X)
    } else if spec_edge_contact(tile, l, h, tp, Axis::Y) is Some {
        spec_edge_contact(tile, l, h, tp, Axis::Y)
    } else if spec_edge_contact(tile, l, h, tp, Axis::Z) is Some {
        spec_edge_contact(tile, l, h, tp, Axis::Z)
    } else if spec_corner_contact(tile, l, h, tp, Axis::X) is Some {
        spec_corner_contact(tile, l, h, tp, Axis::X)
    } else if spec_corner_contact(tile, l, h, tp, Axis::Y) is Some {
        spec_corner_contact(tile, l, h, tp, Axis::Y)
    } else if spec_corner_contact(tile, l, h, tp, Axis::Z) is Some {
        spec_corner_contact(tile, l, h, tp, Axis::Z)
    } else {
        spec_flat_face_contact(tile, l, h, tp)
    }
}

/// The contact one tile makes with the box, by the tile's state.
pub open spec fn spec_tile_contact(tile: Tile, l: Vec3, h: Vec3, tp: Vec3) -> Option<Contact> {
    match tile.spec_state() {
        TileState::Empty => None,
        TileState::Full => match spec_full_block_contact(l, h, tp) {
            Some((dir, disp)) => Some(
                Contact {
                    normal: Vec3::spec_unit(dir),
                    material: tile.material,
                    displacement: disp,
                },
            ),
            None => None,
        },
        TileState::Partial => match spec_slope_contact(tile, l, h, tp) {
            Some((n, disp)) => Some(
                Contact { normal: n, material: tile.material, displacement: disp },
            ),
            None => None,
        },
    }
}


/// The box overlaps the tile's footprint on the given axis by more
/// than the surface margin.
fn overlaps(l: Vec3, h: Vec3, tp: Vec3, a: Axis) -> (r: bool)
    requires
        l.bounded(BOX_LIMIT as int),
        h.bounded(BOX_LIMIT as int),
        tp.bounded(TILE_LIMIT as int),
    ensures
        r == spec_overlaps(l, h, tp, a),
{
    h.get(a) - tp.get(a) * 1048576 > SURFACE_MARGIN && (tp.get(a) + 1) * 1048576 - l.get(a)
        > SURFACE_MARGIN
}

/// The contact a full tile's two faces on one axis make with the box.
fn face_hit(l: Vec3, h: Vec3, tp: Vec3, a: Axis) -> (r: Option<(Direction, i64)>)
    requires
        l.bounded(BOX_LIMIT as int),
        h.bounded(BOX_LIMIT as int),
        tp.bounded(TILE_LIMIT as int),
    ensures
        r == spec_face_hit(l, h, tp, a),
{
    if overlaps(l, h, tp, a.l()) && overlaps(l, h, tp, a.r()) {
        let hi = h.get(a) - tp.get(a) * 1048576;
        let li = (tp.get(a) + 1) * 1048576 - l.get(a);
        if -SURFACE_MARGIN < hi && hi < SURFACE_MARGIN {
            Some((a.n(), hi))
        } else if -SURFACE_MARGIN < li && li < SURFACE_MARGIN {
            Some((a.p(), li))
        } else {
            None
        }
    } else {
        None
    }
}

/// The contact a full unit cube makes with the box, faces tried in the
/// priority order Z, Y, X.
pub fn test_contact_full_block(l: Vec3, h: Vec3, tp: Vec3) -> (r: Option<(Direction, i64)>)
    requires
        l.bounded(BOX_LIMIT as int),
        h.bounded(BOX_LIMIT as int),
        tp.bounded(TILE_LIMIT as int),
    ensures
        r == spec_full_block_contact(l, h, tp),
{
    if let Some(hit) = face_hit(l, h, tp, Axis::Z) {
        return Some(hit);
    }
    if let Some(hit) = face_hit(l, h, tp, Axis::Y) {
        return Some(hit);
    }
    face_hit(l, h, tp, Axis::X)
}

/// The corner of the box deepest into the slope's half-space.
fn near_corner(l: Vec3, h: Vec3, d: Vec3) -> (r: Vec3)
    ensures
        r == spec_near_corner(l, h, d),
{
    Vec3 {
        x: if d.x >= 0 {
            l.x
        } else {
            h.x
        },
        y: if d.y >= 0 {
            l.y
        } else {
            h.y
        },
        z: if d.z >= 0 {
            l.z
        } else {
            h.z
        },
    }
}

/// Whether a raw point lies within the tile's unit cell (inclusive).
fn in_cell(p: Vec3, tp: Vec3) -> (r: bool)
    requires
        p.bounded(BOX_LIMIT as int),
        tp.bounded(TILE_LIMIT as int),
    ensures
        r == spec_in_cell(p, tp),
{
    tp.x * 1048576 <= p.x && p.x <= (tp.x + 1) * 1048576 && tp.y * 1048576 <= p.y && p.y <= (tp.y
        + 1) * 1048576 && tp.z * 1048576 <= p.z && p.z <= (tp.z + 1) * 1048576
}

/// The contact of the slope's own plane face with the box.
fn plane_contact(tile: &Tile, l: Vec3, h: Vec3, tp: Vec3) -> (r: Option<(Vec3, i64)>)
    requires
        contact_args_ok(*tile, l, h, tp),
    ensures
        r == spec_plane_contact(*tile, l, h, tp),
        r matches Some(c) ==> c.0.bounded(127),
{
    let d = tile.direction;
    let nc = near_corner(l, h, d);
    proof {
        lemma_mixed_dot_bound(tp, d, TILE_LIMIT as int, 127);
        lemma_mixed_dot_bound(nc, d, BOX_LIMIT as int, 127);
        lemma_mixed_dot_bound(d, d, 127, 127);
    }
    let slope_s = (tp.dot(d) + tile.level) * 1048576;
    let cur = nc.dot(d);
    let nn = d.dot(d);
    if within_margin(slope_s - cur, nn) && in_cell(nc, tp) {
        proof {
            assert((slope_s - cur) * (slope_s - cur) >= 0) by (nonlinear_arith);
        }
        Some((d, div_trunc(slope_s - cur, nn)))
    } else {
        None
    }
}

/// The contact of one of the slope's acute tile-edge lines with the box.
fn edge_contact(tile: &Tile, l: Vec3, h: Vec3, tp: Vec3, a: Axis) -> (r: Option<(Vec3, i64)>)
    requires
        contact_args_ok(*tile, l, h, tp),
    ensures
        r == spec_edge_contact(*tile, l, h, tp, a),
        r matches Some(c) ==> c.0.bounded(127),
{
    let d = tile.direction;
    let da = d.get(a);
    let dl = d.get(a.l());
    let dr = d.get(a.r());
    let gate = (if da < 0 {
        da
    } else {
        0
    }) + (if dl > 0 {
        dl
    } else {
        0
    }) + (if dr > 0 {
        dr
    } else {
        0
    });
    if tile.level >= gate {
        return None;
    }
    let en = d.get_plane(a);
    let tp2 = tp.get_plane(a);
    let ne = near_corner(l, h, d).get_plane(a);
    proof {
        lemma_mixed_dot2_bound(tp2, en, TILE_LIMIT as int, 127);
        lemma_mixed_dot2_bound(ne, en, BOX_LIMIT as int, 127);
        lemma_mixed_dot2_bound(en, en, 127, 127);
    }
    let edge_s = (tp2.dot(en) + tile.level - (if da < 0 {
        da
    } else {
        0
    })) * 1048576;
    let cur = ne.dot(en);
    let nn = en.dot(en);
    let prp = (if da >= 0 {
        tp.get(a)
    } else {
        tp.get(a) + 1
    }) * 1048576;
    if within_margin(edge_s - cur, nn) && tp2.x * 1048576 <= ne.x && ne.x <= (tp2.x + 1) * 1048576
        && tp2.y * 1048576 <= ne.y && ne.y <= (tp2.y + 1) * 1048576 && prp > l.get(a) && prp
        < h.get(a) {
        proof {
            assert((edge_s - cur) * (edge_s - cur) >= 0) by (nonlinear_arith);
        }
        Some((en.vec3(a), div_trunc(edge_s - cur, nn)))
    } else {
        None
    }
}

/// The contact of one of the slope's clipped cell corners with the box.
#[verifier::rlimit(30)]
fn corner_contact(tile: &Tile, l: Vec3, h: Vec3, tp: Vec3, a: Axis) -> (r: Option<(Vec3, i64)>)
    requires
        contact_args_ok(*tile, l, h, tp),
    ensures
        r == spec_corner_contact(*tile, l, h, tp, a),
        r matches Some(c) ==> c.0.bounded(127),
{
    let d = tile.direction;
    let da = d.get(a);
    let dl = d.get(a.l());
    let dr = d.get(a.r());
    let gate = (if da > 0 {
        da
    } else {
        0
    }) + (if dl < 0 {
        dl
    } else {
        0
    }) + (if dr < 0 {
        dr
    } else {
        0
    });
    if tile.level > gate {
        return None;
    }
    let nc = near_corner(l, h, d);
    proof {
        lemma_i64_product_range(tp.spec_get(a), da);
        lemma_i64_product_range(nc.spec_get(a), da);
        assert(tp.spec_get(a) * da <= 0x2_0000_0000 && tp.spec_get(a) * da >= -0x2_0000_0000
            && nc.spec_get(a) * da <= 0x100_0000_0000_0000 && nc.spec_get(a) * da
            >= -0x100_0000_0000_0000 && 0 <= da * da <= 16129) by (nonlinear_arith)
            requires
                -TILE_LIMIT <= tp.spec_get(a) <= TILE_LIMIT,
                -BOX_LIMIT <= nc.spec_get(a) <= BOX_LIMIT,
                -127 <= da <= 127,
                TILE_LIMIT == 0x40_0000,
                BOX_LIMIT == 0x200_0000_0000,
        ;
    }
    let corner_s = (tp.get(a) * da + tile.level - (if dl < 0 {
        dl
    } else {
        0
    }) - (if dr < 0 {
        dr
    } else {
        0
    })) * 1048576;
    let cur = nc.get(a) * da;
    let crx = (if dl >= 0 {
        tp.get(a.l())
    } else {
        tp.get(a.l()) + 1
    }) * 1048576;
    let cry = (if dr >= 0 {
        tp.get(a.r())
    } else {
        tp.get(a.r()) + 1
    }) * 1048576;
    if within_margin(corner_s - cur, da * da) && crx > l.get(a.l()) && crx < h.get(a.l()) && cry
        > l.get(a.r()) && cry < h.get(a.r()) {
        proof {
            assert((corner_s - cur) * (corner_s - cur) >= 0) by (nonlinear_arith);
            if da == 0 {
                assert(da * da == 0) by (nonlinear_arith)
                    requires
                        da == 0,
                ;
            }
        }
        let dir = if da >= 0 {
            a.p()
        } else {
            a.n()
        };
        Some((Vec3::unit(dir), div_trunc(corner_s - cur, da)))
    } else {
        None
    }
}

/// `v` clamped into `[lo, hi]`.
fn clamp(v: i64, lo: i64, hi: i64) -> (r: i64)
    ensures
        r == spec_clamp(v as int, lo as int, hi as int),
{
    if v < lo {
        lo
    } else if v > hi {
        hi
    } else {
        v
    }
}

/// The exposed ordinary cell-face contact of a sloped tile.
fn flat_face_contact(tile: &Tile, l: Vec3, h: Vec3, tp: Vec3) -> (r: Option<(Vec3, i64)>)
    requires
        contact_args_ok(*tile, l, h, tp),
    ensures
        r == spec_flat_face_contact(*tile, l, h, tp),
        r matches Some(c) ==> c.0.bounded(127),
{
    let d = tile.direction;
    match test_contact_full_block(l, h, tp) {
        Some((dir, disp)) => {
            let a = dir.axis();
            let nc = near_corner(l, h, d);
            let cc = nc.with(
                a,
                if dir.is_positive() {
                    l.get(a)
                } else {
                    h.get(a)
                },
            );
            let cp = Vec3 {
                x: clamp(cc.x, tp.x * 1048576, (tp.x + 1) * 1048576),
                y: clamp(cc.y, tp.y * 1048576, (tp.y + 1) * 1048576),
                z: clamp(cc.z, tp.z * 1048576, (tp.z + 1) * 1048576),
            };
            proof {
                lemma_mixed_dot_bound(tp, d, TILE_LIMIT as int, 127);
                lemma_mixed_dot_bound(cp, d, BOX_LIMIT as int, 127);
            }
            let slope_s = (tp.dot(d) + tile.level) * 1048576;
            if cp.dot(d) < slope_s {
                Some((Vec3::unit(dir), disp))
            } else {
                None
            }
        },
        None => None,
    }
}

/// The contact a sloped tile makes with the box.
fn slope_contact(tile: &Tile, l: Vec3, h: Vec3, tp: Vec3) -> (r: Option<(Vec3, i64)>)
    requires
        contact_args_ok(*tile, l, h, tp),
    ensures
        r == spec_slope_contact(*tile, l, h, tp),
        r matches Some(c) ==> c.0.bounded(127),
{
    let (pos_sum, neg_sum) = tile.slope_sums();
    if tile.level <= neg_sum {
        return None;
    }
    if tile.level >= pos_sum {
        return match test_contact_full_block(l, h, tp) {
            Some((dir, disp)) => Some((Vec3::unit(dir), disp)),
            None => None,
        };
    }
    if let Some(hit) = plane_contact(tile, l, h, tp) {
        return Some(hit);
    }
    if let Some(hit) = edge_contact(tile, l, h, tp, Axis::X) {
        return Some(hit);
    }
    if let Some(hit) = edge_contact(tile, l, h, tp, Axis::Y) {
        return Some(hit);
    }
    if let Some(hit) = edge_contact(tile, l, h, tp, Axis::Z) {
        return Some(hit);
    }
    if let Some(hit) = corner_contact(tile, l, h, tp, Axis::X) {
        return Some(hit);
    }
    if let Some(hit) = corner_contact(tile, l, h, tp, Axis::Y) {
        return Some(hit);
    }
    if let Some(hit) = corner_contact(tile, l, h, tp, Axis::Z) {
        return Some(hit);
    }
    flat_face_contact(tile, l, h, tp)
}

/// The contact one tile makes with the box, by the tile's state.
pub fn test_contact(tile: &Tile, l: Vec3, h: Vec3, tp: Vec3) -> (r: Option<Contact>)
    requires
        contact_args_ok(*tile, l, h, tp),
    ensures
        r == spec_tile_contact(*tile, l, h, tp),
        r matches Some(c) ==> c.normal.bounded(127),
{
    match tile.state() {
        TileState::Empty => None,
        TileState::Full => match test_contact_full_block(l, h, tp) {
            Some((dir, disp)) => Some(
                Contact {
                    normal: Vec3::unit(dir),
                    material: tile.material,
                    displacement: disp,
                },
            ),
            None => None,
        },
        TileState::Partial => match slope_contact(tile, l, h, tp) {
            Some((n, disp)) => Some(
                Contact { normal: n, material: tile.material, displacement: disp },
            ),
            None => None,
        },
    }
}


/// Largest raw box-corner magnitude `detect_contacts` accepts; one tile
/// of slack below the geometry tests' own limit absorbs the margin
/// expansion.
pub const SCAN_LIMIT: i64 = 0x100_0000_0000;

/// The contact of the tile standing at a lattice coordinate.
pub open spec fn spec_contact_at(terrain: Terrain, l: Vec3, h: Vec3, tp: Vec3) -> Option<Contact> {
    spec_tile_contact(terrain.spec_tile_at(tp), l, h, tp)
}

/// Lowest lattice coordinate of the margin-expanded box.
pub open spec fn spec_scan_lo(l: Vec3) -> Vec3 {
    Vec3 {
        x: ((l.x - SURFACE_MARGIN) / (FP_ONE as int)) as i64,
        y: ((l.y - SURFACE_MARGIN) / (FP_ONE as int)) as i64,
        z: ((l.z - SURFACE_MARGIN) / (FP_ONE as int)) as i64,
    }
}

/// Highest lattice coordinate of the margin-expanded box.
pub open spec fn spec_scan_hi(h: Vec3) -> Vec3 {
    Vec3 {
        x: ((h.x + SURFACE_MARGIN) / (FP_ONE as int)) as i64,
        y: ((h.y + SURFACE_MARGIN) / (FP_ONE as int)) as i64,
        z: ((h.z + SURFACE_MARGIN) / (FP_ONE as int)) as i64,
    }
}

/// Componentwise-inclusive membership in a lattice box.
pub open spec fn spec_in_scan(lo: Vec3, hi: Vec3, tp: Vec3) -> bool {
    &&& lo.x <= tp.x <= hi.x
    &&& lo.y <= tp.y <= hi.y
    &&& lo.z <= tp.z <= hi.z
}

/// The contact arises from some tile of the scanned lattice box.
pub open spec fn spec_scan_yields(terrain: Terrain, l: Vec3, h: Vec3, c: Contact) -> bool {
    exists|tp: Vec3|
        spec_in_scan(spec_scan_lo(l), spec_scan_hi(h), tp) && spec_contact_at(terrain, l, h, tp)
            == Some(c)
}

/// The lattice coordinates already visited when the scan stands at
/// `(cz, cy, cx)`, walking x fastest, then y, then z.
pub open spec fn spec_scanned(lo: Vec3, hi: Vec3, cz: int, cy: int, cx: int, tp: Vec3) -> bool {
    spec_in_scan(lo, hi, tp) && (tp.z < cz || (tp.z == cz && (tp.y < cy || (tp.y == cy && tp.x
        < cx))))
}

/// The contacts of the scan region from a walk position on: at most one
/// entry per tile, tiles visited x fastest, then y, then z, ascending.
pub open spec fn spec_contacts_from(
    terrain: Terrain,
    l: Vec3,
    h: Vec3,
    lo: Vec3,
    hi: Vec3,
    cz: int,
    cy: int,
    cx: int,
) -> Seq<Contact>
    decreases hi.z + 1 - cz, hi.y + 1 - cy, hi.x + 1 - cx,
{
    if cz > hi.z {
        Seq::empty()
    } else if cy > hi.y {
        spec_contacts_from(terrain, l, h, lo, hi, cz + 1, lo.y as int, lo.x as int)
    } else if cx > hi.x {
        spec_contacts_from(terrain, l, h, lo, hi, cz, cy + 1, lo.x as int)
    } else {
        let rest = spec_contacts_from(terrain, l, h, lo, hi, cz, cy, cx + 1);
        match spec_contact_at(terrain, l, h, Vec3 { x: cx as i64, y: cy as i64, z: cz as i64 }) {
            Some(c) => seq![c] + rest,
            None => rest,
        }
    }
}

/// The whole sequence contact detection returns: the scan region's
/// contacts in visiting order.
pub open spec fn spec_detected_contacts(terrain: Terrain, l: Vec3, h: Vec3) -> Seq<Contact> {
    let lo = spec_scan_lo(l);
    let hi = spec_scan_hi(h);
    spec_contacts_from(terrain, l, h, lo, hi, lo.z as int, lo.y as int, lo.x as int)
}

/// Every surface the box is touching: one contact at most per tile of
/// the margin-expanded range the box covers.  The result is exactly the
/// scan region's contact sequence; in particular each returned contact
/// is the contact of some scanned tile, and every scanned tile that
/// makes a contact has it in the result.
#[verifier::rlimit(100)]
pub fn detect_contacts(terrain: &Terrain, l: Vec3, h: Vec3) -> (r: Vec<Contact>)
    requires
        terrain.wf(),
        l.bounded(SCAN_LIMIT as int),
        h.bounded(SCAN_LIMIT as int),
    ensures
        forall|i: int|
            0 <= i < r.len() ==> spec_scan_yields(*terrain, l, h, #[trigger] r[i])
                && r[i].normal.bounded(127),
        forall|tp: Vec3|
            spec_in_scan(spec_scan_lo(l), spec_scan_hi(h), tp) && (#[trigger] spec_contact_at(
                *terrain,
                l,
                h,
                tp,
            )) is Some ==> r@.contains(spec_contact_at(*terrain, l, h, tp).unwrap()),
        r@ == spec_detected_contacts(*terrain, l, h),
{
    let lo = l.sub(Vec3::all(SURFACE_MARGIN)).floor_to();
    let hi = h.add(Vec3::all(SURFACE_MARGIN)).floor_to();
    proof {
        lemma_scan_range_bounded(l);
        lemma_scan_range_bounded(h);
    }
    let mut out: Vec<Contact> = Vec::new();
    proof {
        assert(out@ + spec_contacts_from(
            *terrain,
            l,
            h,
            lo,
            hi,
            lo.z as int,
            lo.y as int,
            lo.x as int,
        ) =~= spec_detected_contacts(*terrain, l, h));
    }
    let mut cz = lo.z;
    while cz <= hi.z
        invariant
            terrain.wf(),
            l.bounded(SCAN_LIMIT as int),
            h.bounded(SCAN_LIMIT as int),
            lo == spec_scan_lo(l),
            hi == spec_scan_hi(h),
            lo.bounded(TILE_LIMIT as int),
            hi.bounded(TILE_LIMIT as int),
            lo.z <= cz,
            forall|i: int|
                0 <= i < out.len() ==> spec_scan_yields(*terrain, l, h, #[trigger] out[i])
                    && out[i].normal.bounded(127),
            forall|tp: Vec3|
                spec_scanned(lo, hi, cz as int, lo.y as int, lo.x as int, tp) && (
                #[trigger] spec_contact_at(*terrain, l, h, tp)) is Some ==> out@.contains(
                    spec_contact_at(*terrain, l, h, tp).unwrap(),
                ),
            out@ + spec_contacts_from(*terrain, l, h, lo, hi, cz as int, lo.y as int, lo.x as int)
                == spec_detected_contacts(*terrain, l, h),
        decreases hi.z + 1 - cz,
    {
        let mut cy = lo.y;
        while cy <= hi.y
            invariant
                terrain.wf(),
                l.bounded(SCAN_LIMIT as int),
                h.bounded(SCAN_LIMIT as int),
                lo == spec_scan_lo(l),
                hi == spec_scan_hi(h),
                lo.bounded(TILE_LIMIT as int),
                hi.bounded(TILE_LIMIT as int),
                lo.z <= cz <= hi.z,
                lo.y <= cy,
                forall|i: int|
                    0 <= i < out.len() ==> spec_scan_yields(*terrain, l, h, #[trigger] out[i])
                        && out[i].normal.bounded(127),
                forall|tp: Vec3|
                    spec_scanned(lo, hi, cz as int, cy as int, lo.x as int, tp) && (
                    #[trigger] spec_contact_at(*terrain, l, h, tp)) is Some ==> out@.contains(
                        spec_contact_at(*terrain, l, h, tp).unwrap(),
                    ),
                out@ + spec_contacts_from(
                    *terrain,
                    l,
                    h,
                    lo,
                    hi,
                    cz as int,
                    cy as int,
                    lo.x as int,
                ) == spec_detected_contacts(*terrain, l, h),
            decreases hi.y + 1 - cy,
        {
            let mut cx = lo.x;
            while cx <= hi.x
                invariant
                    terrain.wf(),
                    l.bounded(SCAN_LIMIT as int),
                    h.bounded(SCAN_LIMIT as int),
                    lo == spec_scan_lo(l),
                    hi == spec_scan_hi(h),
                    lo.bounded(TILE_LIMIT as int),
                    hi.bounded(TILE_LIMIT as int),
                    lo.z <= cz <= hi.z,
                    lo.y <= cy <= hi.y,
                    lo.x <= cx,
                    forall|i: int|
                        0 <= i < out.len() ==> spec_scan_yields(*terrain, l, h, #[trigger] out[i])
                            && out[i].normal.bounded(127),
                    forall|tp: Vec3|
                        spec_scanned(lo, hi, cz as int, cy as int, cx as int, tp) && (
                        #[trigger] spec_contact_at(*terrain, l, h, tp)) is Some ==> out@.contains(
                            spec_contact_at(*terrain, l, h, tp).unwrap(),
                        ),
                    out@ + spec_contacts_from(
                        *terrain,
                        l,
                        h,
                        lo,
                        hi,
                        cz as int,
                        cy as int,
                        cx as int,
                    ) == spec_detected_contacts(*terrain, l, h),
                decreases hi.x + 1 - cx,
            {
                let tp = Vec3 { x: cx, y: cy, z: cz };
                let tile = terrain.tile_at(tp);
                let ghost prev = out@;
                let found = test_contact(&tile, l, h, tp);
                if let Some(c) = found {
                    out.push(c);
                    proof {
                        assert(spec_in_scan(lo, hi, tp) && spec_contact_at(*terrain, l, h, tp)
                            == Some(c));
                        assert(spec_scan_yields(*terrain, l, h, c));
                    }
                }
                proof {
                    let rest = spec_contacts_from(
                        *terrain,
                        l,
                        h,
                        lo,
                        hi,
                        cz as int,
                        cy as int,
                        cx + 1,
                    );
                    assert(spec_contact_at(*terrain, l, h, tp) == found);
                    if found is Some {
                        assert(prev.push(found.unwrap()) + rest =~= prev + (seq![found.unwrap()]
                            + rest));
                    }
                    assert(out@ + rest == spec_detected_contacts(*terrain, l, h));
                    assert forall|v: Contact| prev.contains(v) implies out@.contains(v) by {
                        let i = choose|i: int| 0 <= i < prev.len() && prev[i] == v;
                        assert(out@[i] == v);
                    }
                    if found is Some {
                        assert(out@[prev.len() as int] == found.unwrap());
                        assert(out@.contains(found.unwrap()));
                    }
                    assert forall|q: Vec3|
                        spec_scanned(lo, hi, cz as int, cy as int, cx + 1, q) && (
                        #[trigger] spec_contact_at(*terrain, l, h, q)) is Some implies out@.contains(
                        spec_contact_at(*terrain, l, h, q).unwrap(),
                    ) by {
                        if q == tp {
                            assert(spec_contact_at(*terrain, l, h, q) == found);
                        } else {
                            assert(spec_scanned(lo, hi, cz as int, cy as int, cx as int, q));
                            assert(prev.contains(spec_contact_at(*terrain, l, h, q).unwrap()));
                        }
                    }
                }
                cx = cx + 1;
            }
            proof {
                assert(spec_contacts_from(*terrain, l, h, lo, hi, cz as int, cy as int, cx as int)
                    == spec_contacts_from(
                    *terrain,
                    l,
                    h,
                    lo,
                    hi,
                    cz as int,
                    cy + 1,
                    lo.x as int,
                ));
            }
            cy = cy + 1;
        }
        proof {
            assert(spec_contacts_from(*terrain, l, h, lo, hi, cz as int, cy as int, lo.x as int)
                == spec_contacts_from(*terrain, l, h, lo, hi, cz + 1, lo.y as int, lo.x as int));
        }
        cz = cz + 1;
    }
    proof {
        assert(spec_contacts_from(*terrain, l, h, lo, hi, cz as int, lo.y as int, lo.x as int)
            =~= Seq::<Contact>::empty());
        assert(out@ + Seq::<Contact>::empty() =~= out@);
    }
    out
}

/// A coordinate within the scan limit lands, after margin expansion and
/// flooring, within the lattice limit.
proof fn lemma_scan_range_bounded(v: Vec3)
    requires
        v.bounded(SCAN_LIMIT as int),
    ensures
        spec_scan_lo(v).bounded(TILE_LIMIT as int),
        spec_scan_hi(v).bounded(TILE_LIMIT as int),
        v.bounded(BOX_LIMIT as int),
{
    lemma_floor_in_tile_range(v.x as int);
    lemma_floor_in_tile_range(v.y as int);
    lemma_floor_in_tile_range(v.z as int);
}

/// Flooring a margin-expanded coordinate to the lattice keeps it small.
proof fn lemma_floor_in_tile_range(x: int)
    requires
        -SCAN_LIMIT <= x <= SCAN_LIMIT,
    ensures
        -TILE_LIMIT <= (x - SURFACE_MARGIN) / (FP_ONE as int) <= TILE_LIMIT,
        -TILE_LIMIT <= (x + SURFACE_MARGIN) / (FP_ONE as int) <= TILE_LIMIT,
{
    vstd::arithmetic::div_mod::lemma_div_is_ordered(
        -(SCAN_LIMIT as int) - SURFACE_MARGIN,
        x - SURFACE_MARGIN,
        FP_ONE as int,
    );
    vstd::arithmetic::div_mod::lemma_div_is_ordered(
        x - SURFACE_MARGIN,
        SCAN_LIMIT as int + SURFACE_MARGIN,
        FP_ONE as int,
    );
    vstd::arithmetic::div_mod::lemma_div_is_ordered(
        -(SCAN_LIMIT as int) - SURFACE_MARGIN,
        x + SURFACE_MARGIN,
        FP_ONE as int,
    );
    vstd::arithmetic::div_mod::lemma_div_is_ordered(
        x + SURFACE_MARGIN,
        SCAN_LIMIT as int + SURFACE_MARGIN,
        FP_ONE as int,
    );
    vstd::arithmetic::div_mod::lemma_fundamental_div_mod_converse(
        -0x100_0000_0068,
        0x10_0000,
        -0x10_0001,
        0xfff98,
    );
    vstd::arithmetic::div_mod::lemma_fundamental_div_mod_converse(
        0x100_0000_0068,
        0x10_0000,
        0x10_0000,
        0x68,
    );
}

} // verus!
