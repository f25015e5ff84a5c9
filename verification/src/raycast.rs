//! Ray casting against the terrain: the first solid point a ray from an
//! origin reaches within one ray length.
//!
//! The walk is the same three-way lattice traversal the sweep uses,
//! visiting every tile the ray crosses in time order, so thin geometry
//! is never skipped.  A full tile is hit at the point where the ray
//! enters it; a sloped tile at the entry point when that point is
//! already inside the half-space, else where the ray meets the slope
//! plane, if that is within the cell.

use vstd::prelude::*;

verus! {

use crate::axes::Axis;
use crate::collision::{spec_advance, spec_toi};
use crate::contact::{SCAN_LIMIT, TILE_LIMIT, spec_in_cell};
use crate::fixed::{FP_ONE, floor_div, fx_mul, lemma_fx_mul_bound, lemma_div_bounds};
use crate::terrain::Terrain;
use crate::tile::{Tile, TileState};
use crate::vectors::{lemma_mixed_dot_bound, Vec3};

/// Largest raw ray component: one step's reach at the sweep's top speed.
pub const RAY_LIMIT: i64 = 0x8000_0000;

/// Most lattice boundaries one cast will cross.
pub const RAY_STEP_CAP: i64 = 32768;

/// The cast's working bounds.
pub open spec fn ray_args_ok(tile: Tile, origin: Vec3, ray: Vec3, tp: Vec3) -> bool {
    &&& tile.wf()
    &&& origin.bounded(SCAN_LIMIT as int)
    &&& ray.bounded(RAY_LIMIT as int)
    &&& tp.bounded(TILE_LIMIT as int)
}

/// Where a ray first hits a sloped tile: the entry point when already
/// inside the half-space, else the ray's crossing of the slope plane,
/// kept when it lies within the cell and within the ray's length.
pub open spec fn spec_ray_slope_hit(
    tile: Tile,
    origin: Vec3,
    ray: Vec3,
    tp: Vec3,
    incidence: Option<Vec3>,
) -> Option<Vec3> {
    let d = tile.direction;
    if tile.level <= tile.spec_neg_sum() {
        None
    } else if tile.level >= tile.spec_pos_sum() {
        incidence
    } else {
        let slope_s = (tp.spec_dot(d) + tile.level) * FP_ONE;
        let inside_entry = match incidence {
            Some(p) => p.spec_dot(d) <= slope_s,
            None => false,
        };
        if inside_entry {
            incidence
        } else {
            let sv = ray.spec_dot(d);
            let origin_s = origin.spec_dot(d);
            if sv >= 0 {
                None
            } else if origin_s < slope_s {
                None
            } else {
                match spec_toi(origin_s - slope_s, -sv, FP_ONE as int) {
                    None => None,
                    Some(t) => {
                        let p = spec_advance(origin, ray, t as int);
                        if spec_in_cell(p, tp) {
                            Some(p)
                        } else {
                            None
                        }
                    },
                }
            }
        }
    }
}

/// Where a ray first hits one tile, by its state: full tiles at the
/// entry point, slopes by the half-space test.
pub open spec fn spec_ray_tile_hit(
    tile: Tile,
    origin: Vec3,
    ray: Vec3,
    tp: Vec3,
    incidence: Option<Vec3>,
) -> Option<Vec3> {
    match tile.spec_state() {
        TileState::Empty => None,
        TileState::Full => incidence,
        TileState::Partial => spec_ray_slope_hit(tile, origin, ray, tp, incidence),
    }
}

/// Where a ray first hits a sloped tile.
fn ray_slope_hit(tile: &Tile, origin: Vec3, ray: Vec3, tp: Vec3, incidence: Option<Vec3>) -> (r:
    Option<Vec3>)
    requires
        ray_args_ok(*tile, origin, ray, tp),
        incidence matches Some(p) ==> p.bounded(SCAN_LIMIT as int + 0x80_0000_0000),
        incidence matches Some(p) ==> exists|t: int|
            0 <= t <= FP_ONE && p == spec_advance(origin, ray, t),
    ensures
        r == spec_ray_slope_hit(*tile, origin, ray, tp, incidence),
        r matches Some(q) ==> exists|t: int| 0 <= t <= FP_ONE && q == spec_advance(origin, ray, t),
{
    let d = tile.direction;
    let (pos_sum, neg_sum) = tile.slope_sums();
    if tile.level <= neg_sum {
        return None;
    }
    if tile.level >= pos_sum {
        return incidence;
    }
    proof {
        lemma_mixed_dot_bound(tp, d, TILE_LIMIT as int, 127);
        lemma_mixed_dot_bound(origin, d, SCAN_LIMIT as int, 127);
        lemma_mixed_dot_bound(ray, d, RAY_LIMIT as int, 127);
    }
    let slope_s = (tp.dot(d) + tile.level) * 1048576;
    let inside_entry = match incidence {
        Some(p) => {
            proof {
                lemma_mixed_dot_bound(p, d, SCAN_LIMIT as int + 0x80_0000_0000, 127);
            }
            p.dot(d) <= slope_s
        },
        None => false,
    };
    if inside_entry {
        return incidence;
    }
    let sv = ray.dot(d);
    let origin_s = origin.dot(d);
    if sv >= 0 {
        return None;
    }
    if origin_s < slope_s {
        return None;
    }
    let delta = origin_s - slope_s;
    proof {
        crate::fixed::lemma_i64_product_range(delta, FP_ONE);
        lemma_div_bounds(delta as int * FP_ONE as int, -sv as int);
    }
    let q: i128 = floor_div((delta as i128) * 1048576, (-sv) as i128);
    if q > 1048576 {
        return None;
    }
    let t = q as i64;
    proof {
        lemma_fx_mul_bound(ray.x as int, t as int, RAY_LIMIT as int, FP_ONE as int);
        lemma_fx_mul_bound(ray.y as int, t as int, RAY_LIMIT as int, FP_ONE as int);
        lemma_fx_mul_bound(ray.z as int, t as int, RAY_LIMIT as int, FP_ONE as int);
    }
    let p = Vec3 {
        x: origin.x + fx_mul(ray.x, t),
        y: origin.y + fx_mul(ray.y, t),
        z: origin.z + fx_mul(ray.z, t),
    };
    proof {
        assert(p == spec_advance(origin, ray, t as int));
    }
    if tp.x * 1048576 <= p.x && p.x <= (tp.x + 1) * 1048576 && tp.y * 1048576 <= p.y && p.y <= (tp.y
        + 1) * 1048576 && tp.z * 1048576 <= p.z && p.z <= (tp.z + 1) * 1048576 {
        Some(p)
    } else {
        None
    }
}

/// Where a ray first hits one tile of the terrain.
fn cast_ray_on_tile(
    terrain: &Terrain,
    origin: Vec3,
    ray: Vec3,
    tp: Vec3,
    incidence: Option<Vec3>,
) -> (r: Option<Vec3>)
    requires
        terrain.wf(),
        origin.bounded(SCAN_LIMIT as int),
        ray.bounded(RAY_LIMIT as int),
        tp.bounded(TILE_LIMIT as int),
        incidence matches Some(p) ==> p.bounded(SCAN_LIMIT as int + 0x80_0000_0000),
        incidence matches Some(p) ==> exists|t: int|
            0 <= t <= FP_ONE && p == spec_advance(origin, ray, t),
    ensures
        r == spec_ray_tile_hit(terrain.spec_tile_at(tp), origin, ray, tp, incidence),
        r matches Some(q) ==> exists|t: int| 0 <= t <= FP_ONE && q == spec_advance(origin, ray, t),
{
    let tile = terrain.tile_at(tp);
    match tile.state() {
        TileState::Empty => None,
        TileState::Full => incidence,
        TileState::Partial => ray_slope_hit(&tile, origin, ray, tp, incidence),
    }
}

/// Cast a ray one ray-length forward: the first tile whose solid volume
/// the ray reaches, with the hit point.  Any hit returned really is a
/// hit of the reported tile.
pub fn cast_ray(terrain: &Terrain, origin: Vec3, ray: Vec3) -> (r: Option<(Vec3, Vec3)>)
    requires
        terrain.wf(),
        origin.bounded(SCAN_LIMIT as int),
        ray.bounded(RAY_LIMIT as int),
    ensures
        r matches Some(hit) ==> exists|inc: Option<Vec3>|
            spec_ray_tile_hit(terrain.spec_tile_at(hit.0), origin, ray, hit.0, inc) == Some(hit.1),
        r matches Some(hit) ==> exists|t: int|
            0 <= t <= FP_ONE && hit.1 == spec_advance(origin, ray, t),
{
    proof {
        crate::fixed::lemma_div_bounds(origin.x as int, FP_ONE as int);
    }
    let of = origin.floor_to();
    let ocl = origin.ceil_to();
    proof {
        lemma_ray_lattice(origin.x as int);
        lemma_ray_lattice(origin.y as int);
        lemma_ray_lattice(origin.z as int);
    }
    let mut cur = Vec3 {
        x: if ray.x < 0 {
            ocl.x - 1
        } else {
            of.x
        },
        y: if ray.y < 0 {
            ocl.y - 1
        } else {
            of.y
        },
        z: if ray.z < 0 {
            ocl.z - 1
        } else {
            of.z
        },
    };
    if let Some(p) = cast_ray_on_tile(terrain, origin, ray, cur, None) {
        return Some((cur, p));
    }
    let step = Vec3 {
        x: if ray.x < 0 {
            -1i64
        } else {
            1
        },
        y: if ray.y < 0 {
            -1i64
        } else {
            1
        },
        z: if ray.z < 0 {
            -1i64
        } else {
            1
        },
    };
    let mut nb = Vec3 {
        x: cur.x + (if ray.x < 0 {
            0
        } else {
            1
        }),
        y: cur.y + (if ray.y < 0 {
            0
        } else {
            1
        }),
        z: cur.z + (if ray.z < 0 {
            0
        } else {
            1
        }),
    };
    let mut fuel: i64 = RAY_STEP_CAP;
    while fuel > 0
        invariant
            terrain.wf(),
            origin.bounded(SCAN_LIMIT as int),
            ray.bounded(RAY_LIMIT as int),
            step.bounded(1),
            0 <= fuel <= RAY_STEP_CAP,
            cur.bounded(0x20_0001 + (RAY_STEP_CAP - fuel)),
            nb.bounded(0x20_0002 + (RAY_STEP_CAP - fuel)),
        decreases fuel,
    {
        let tx = ray_boundary_time(origin.x, ray.x, nb.x);
        let ty = ray_boundary_time(origin.y, ray.y, nb.y);
        let tz = ray_boundary_time(origin.z, ray.z, nb.z);
        let a = if tx < ty && tx < tz {
            Axis::X
        } else if ty < tz {
            Axis::Y
        } else {
            Axis::Z
        };
        let ta = if tx < ty && tx < tz {
            tx
        } else if ty < tz {
            ty
        } else {
            tz
        };
        if ta > 1048576 {
            return None;
        }
        cur = cur.with(a, cur.get(a) + step.get(a));
        nb = nb.with(a, nb.get(a) + step.get(a));
        proof {
            lemma_fx_mul_bound(ray.x as int, ta as int, RAY_LIMIT as int, FP_ONE as int);
            lemma_fx_mul_bound(ray.y as int, ta as int, RAY_LIMIT as int, FP_ONE as int);
            lemma_fx_mul_bound(ray.z as int, ta as int, RAY_LIMIT as int, FP_ONE as int);
        }
        let p = Vec3 {
            x: origin.x + fx_mul(ray.x, ta),
            y: origin.y + fx_mul(ray.y, ta),
            z: origin.z + fx_mul(ray.z, ta),
        };
        proof {
            assert(p == spec_advance(origin, ray, ta as int));
        }
        if let Some(hit) = cast_ray_on_tile(terrain, origin, ray, cur, Some(p)) {
            return Some((cur, hit));
        }
        fuel = fuel - 1;
    }
    None
}

/// The ray fraction at which a coordinate reaches the lattice boundary
/// `nb`, rounded down; `i64::MAX` when it never does within one length.
fn ray_boundary_time(p: i64, vel: i64, nb: i64) -> (t: i64)
    requires
        -SCAN_LIMIT <= p <= SCAN_LIMIT,
        -0x40_0000 <= nb <= 0x40_0000,
    ensures
        0 <= t,
{
    if vel == 0 || vel == i64::MIN {
        return i64::MAX;
    }
    let dist = if vel > 0 {
        nb * 1048576 - p
    } else {
        p - nb * 1048576
    };
    if dist < 0 {
        return i64::MAX;
    }
    let speed = if vel > 0 {
        vel
    } else {
        -vel
    };
    proof {
        crate::fixed::lemma_i64_product_range(dist, FP_ONE);
        lemma_div_bounds(dist as int * FP_ONE as int, speed as int);
    }
    let q: i128 = floor_div((dist as i128) * 1048576, speed as i128);
    if q > FP_ONE as i128 {
        i64::MAX
    } else {
        q as i64
    }
}

/// A coordinate within the scan range floors and ceils to a small
/// lattice coordinate.
proof fn lemma_ray_lattice(x: int)
    requires
        -SCAN_LIMIT <= x <= SCAN_LIMIT,
    ensures
        -0x10_0000 <= x / (FP_ONE as int) <= 0x10_0000,
        -0x10_0000 <= -((-x) / (FP_ONE as int)) <= 0x10_0000,
{
    vstd::arithmetic::div_mod::lemma_div_is_ordered(-(SCAN_LIMIT as int), x, FP_ONE as int);
    vstd::arithmetic::div_mod::lemma_div_is_ordered(x, SCAN_LIMIT as int, FP_ONE as int);
    vstd::arithmetic::div_mod::lemma_div_is_ordered(-(SCAN_LIMIT as int), -x, FP_ONE as int);
    vstd::arithmetic::div_mod::lemma_div_is_ordered(-x, SCAN_LIMIT as int, FP_ONE as int);
    vstd::arithmetic::div_mod::lemma_fundamental_div_mod_converse(
        -0x100_0000_0000,
        0x10_0000,
        -0x10_0000,
        0,
    );
    vstd::arithmetic::div_mod::lemma_fundamental_div_mod_converse(
        0x100_0000_0000,
        0x10_0000,
        0x10_0000,
        0,
    );
}

} // verus!
