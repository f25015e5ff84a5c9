//! The constraint solver: clip a velocity against the surfaces a box is
//! pressed into, so that it no longer drives into any of them.
//!
//! Contacts with equal normals are merged first.  Normals the velocity
//! already moves away from are set aside; if none opposes, the velocity
//! is returned unchanged.  Otherwise the solver tries, in order: the
//! projection of the velocity onto one opposing surface's tangent plane;
//! a slide along the intersection line of some pair of touched planes
//! (the exact integer cross product of their normals); and, when no
//! direction clears every touched surface, the box is wedged and the
//! velocity drops to zero.
//!
//! The pair stage draws its candidate pairs from the whole deduplicated
//! contact set, not only from the opposing normals: that covers in one
//! sweep both the plain two-wall wedge and the slide that a single
//! projection starts but a third, previously cleared surface blocks.
//! Whatever pair wins, the guarantee below holds of the result.
//!
//! Because normals are exact integer vectors and each projection divides
//! once, rounding down, the result provably has a non-negative dot
//! product with every input normal - with no epsilon.

use vstd::prelude::*;

verus! {

use crate::contact::Contact;
use crate::fixed::{VEL_LIMIT, div_floor};
use crate::tile::MaterialProperties;
use crate::vectors::{lemma_mixed_dot_bound, Vec3};

/// Componentwise bound every solver result respects: twice the velocity
/// limit, room enough for any projection of an in-range velocity.
pub const RESULT_LIMIT: i64 = 0x8000_0000;

/// One active surface constraint and the speed removed along it.
#[derive(Clone, Copy, Debug, PartialEq, Eq, Structural)]
pub struct Constraint {
    /// The surface normal (exact integer vector).
    pub normal: Vec3,
    /// Response parameters of the touched material.
    pub material_properties: MaterialProperties,
    /// How much velocity was removed, per unit of the normal's squared
    /// length (raw units); zero where a slide direction was solved
    /// directly.
    pub delta_v: i64,
}

/// How many surfaces ended up constraining the velocity.
#[derive(Clone, Copy, Debug)]
pub enum ConstraintSet {
    /// Nothing opposed the velocity.
    Free,
    /// One surface: the velocity slides in its tangent plane.
    Single(Constraint),
    /// Two surfaces: the velocity slides along their intersection line.
    Double(Constraint, Constraint),
    /// Wedged: no direction clears every touched surface.
    Triple,
}

/// The exact single-surface projection: `v - n * (v.n / n.n)`, the
/// quotient rounded down.
pub open spec fn spec_single_projection(v: Vec3, n: Vec3) -> Vec3 {
    let q = v.spec_dot(n) / n.spec_dot(n);
    Vec3 { x: (v.x - n.x * q) as i64, y: (v.y - n.y * q) as i64, z: (v.z - n.z * q) as i64 }
}

/// Whether the exact single-surface projection stays within the solver's
/// result range.
pub open spec fn spec_single_projection_fits(v: Vec3, n: Vec3) -> bool {
    let q = v.spec_dot(n) / n.spec_dot(n);
    &&& -RESULT_LIMIT <= v.x - n.x * q <= RESULT_LIMIT
    &&& -RESULT_LIMIT <= v.y - n.y * q <= RESULT_LIMIT
    &&& -RESULT_LIMIT <= v.z - n.z * q <= RESULT_LIMIT
}

/// The case one opposed surface pins exactly: a single contact whose
/// normal the velocity moves into, with an in-range projection.
pub open spec fn spec_single_case(v: Vec3, s: Seq<Contact>) -> bool {
    s.len() == 1 && v.spec_dot(s[0].normal) < 0 && spec_single_projection_fits(v, s[0].normal)
}

/// Exactly one touched normal opposes the velocity, and its tangent
/// projection clears every touched surface: the solver must then return
/// that single projection.
pub open spec fn spec_lone_opposed(v: Vec3, s: Seq<Contact>, n: Vec3) -> bool {
    &&& has_contact_normal(s, n)
    &&& v.spec_dot(n) < 0
    &&& forall|i: int|
        0 <= i < s.len() ==> ((#[trigger] s[i]).normal == n || v.spec_dot(s[i].normal) >= 0)
    &&& forall|i: int|
        0 <= i < s.len() ==> spec_single_projection(v, n).spec_dot((#[trigger] s[i]).normal) >= 0
    &&& spec_single_projection_fits(v, n)
}

/// Some entry of the list carries this normal.
pub open spec fn has_normal(s: Seq<(Vec3, MaterialProperties)>, n: Vec3) -> bool {
    exists|j: int| 0 <= j < s.len() && s[j].0 == n
}

/// Some contact of the list carries this normal.
pub open spec fn has_contact_normal(s: Seq<Contact>, n: Vec3) -> bool {
    exists|i: int| 0 <= i < s.len() && s[i].normal == n
}

/// Rearranging a product of three factors: `(a * b) * c == (c * b) * a`.
proof fn lemma_mul_shuffle(a: int, b: int, c: int)
    ensures
        (a * b) * c == (c * b) * a,
{
    vstd::arithmetic::mul::lemma_mul_is_associative(a, b, c);
    vstd::arithmetic::mul::lemma_mul_is_commutative(b, c);
    vstd::arithmetic::mul::lemma_mul_is_associative(a, c, b);
    vstd::arithmetic::mul::lemma_mul_is_commutative(a, c * b);
    vstd::arithmetic::mul::lemma_mul_is_associative(c, b, a);
    vstd::arithmetic::mul::lemma_mul_is_commutative(c * b, a);
    vstd::arithmetic::mul::lemma_mul_is_commutative(b, a);
    vstd::arithmetic::mul::lemma_mul_is_associative(c, a, b);
    vstd::arithmetic::mul::lemma_mul_is_commutative(c, a);
    vstd::arithmetic::mul::lemma_mul_is_commutative(a, c);
}

/// Scaling a vector scales every dot product with it.
proof fn lemma_scaled_dot(d: Vec3, q: int, w: Vec3, m: Vec3)
    requires
        w.x == d.x * q,
        w.y == d.y * q,
        w.z == d.z * q,
    ensures
        w.spec_dot(m) == q * d.spec_dot(m),
{
    let dx = d.x as int;
    let dy = d.y as int;
    let dz = d.z as int;
    let mx = m.x as int;
    let my = m.y as int;
    let mz = m.z as int;
    vstd::arithmetic::mul::lemma_mul_is_distributive_add(q, dx * mx + dy * my, dz * mz);
    vstd::arithmetic::mul::lemma_mul_is_distributive_add(q, dx * mx, dy * my);
    assert((dx * q) * mx == q * (dx * mx)) by {
        vstd::arithmetic::mul::lemma_mul_is_commutative(q, dx);
        vstd::arithmetic::mul::lemma_mul_is_associative(q, dx, mx);
    }
    assert((dy * q) * my == q * (dy * my)) by {
        vstd::arithmetic::mul::lemma_mul_is_commutative(q, dy);
        vstd::arithmetic::mul::lemma_mul_is_associative(q, dy, my);
    }
    assert((dz * q) * mz == q * (dz * mz)) by {
        vstd::arithmetic::mul::lemma_mul_is_commutative(q, dz);
        vstd::arithmetic::mul::lemma_mul_is_associative(q, dz, mz);
    }
}

/// Removing `q` copies of `n` from `v` shifts every dot product by
/// `q` times the dot with `n`.
proof fn lemma_project_dot(v: Vec3, n: Vec3, q: int, w: Vec3, m: Vec3)
    requires
        w.x == v.x - n.x * q,
        w.y == v.y - n.y * q,
        w.z == v.z - n.z * q,
    ensures
        w.spec_dot(m) == v.spec_dot(m) - q * n.spec_dot(m),
{
    let nx = n.x as int;
    let ny = n.y as int;
    let nz = n.z as int;
    let mx = m.x as int;
    let my = m.y as int;
    let mz = m.z as int;
    let vx = v.x as int;
    let vy = v.y as int;
    let vz = v.z as int;
    vstd::arithmetic::mul::lemma_mul_is_distributive_sub_other_way(mx, vx, nx * q);
    vstd::arithmetic::mul::lemma_mul_is_distributive_sub_other_way(my, vy, ny * q);
    vstd::arithmetic::mul::lemma_mul_is_distributive_sub_other_way(mz, vz, nz * q);
    assert((nx * q) * mx == q * (nx * mx)) by {
        vstd::arithmetic::mul::lemma_mul_is_commutative(q, nx);
        vstd::arithmetic::mul::lemma_mul_is_associative(q, nx, mx);
    }
    assert((ny * q) * my == q * (ny * my)) by {
        vstd::arithmetic::mul::lemma_mul_is_commutative(q, ny);
        vstd::arithmetic::mul::lemma_mul_is_associative(q, ny, my);
    }
    assert((nz * q) * mz == q * (nz * mz)) by {
        vstd::arithmetic::mul::lemma_mul_is_commutative(q, nz);
        vstd::arithmetic::mul::lemma_mul_is_associative(q, nz, mz);
    }
    vstd::arithmetic::mul::lemma_mul_is_distributive_add(q, nx * mx + ny * my, nz * mz);
    vstd::arithmetic::mul::lemma_mul_is_distributive_add(q, nx * mx, ny * my);
}

/// A floor-rounded tangent projection gains at most one squared normal
/// length of squared speed: the floor moves the quotient down by under
/// one, and the residual it leaves is below the normal's squared length.
proof fn lemma_projection_speed(v: Vec3, n: Vec3, q: int, w: Vec3)
    requires
        w.x == v.x - n.x * q,
        w.y == v.y - n.y * q,
        w.z == v.z - n.z * q,
        q <= -1,
        n.spec_dot(n) >= 1,
        0 <= v.spec_dot(n) - n.spec_dot(n) * q < n.spec_dot(n),
    ensures
        w.spec_dot(w) <= v.spec_dot(v) + n.spec_dot(n),
{
    let nn = n.spec_dot(n);
    let rr = v.spec_dot(n) - nn * q;
    lemma_project_dot(v, n, q, w, w);
    lemma_project_dot(v, n, q, w, v);
    lemma_project_dot(v, n, q, w, n);
    assert(w.spec_dot(v) == v.spec_dot(w) && w.spec_dot(n) == n.spec_dot(w) && v.spec_dot(n)
        == n.spec_dot(v)) by (nonlinear_arith);
    assert(w.spec_dot(w) == v.spec_dot(v) - q * v.spec_dot(n) - q * (v.spec_dot(n) - q * nn));
    assert(q * (rr + nn * q) == q * rr + nn * (q * q)) by (nonlinear_arith);
    assert(w.spec_dot(w) == v.spec_dot(v) - 2 * (q * rr) - nn * (q * q) - ((q * (v.spec_dot(n)))
        - (q * (rr + nn * q))));
    assert(-2 * (q * rr) - nn * (q * q) <= nn) by (nonlinear_arith)
        requires
            q <= -1,
            0 <= rr < nn,
            1 <= nn,
    ;
}

/// Sliding along a line never gains speed.  The residual `v - w` has a
/// non-negative squared length, which expands to exactly the needed
/// inequality once the floor-rounded quotient is used.
proof fn lemma_slide_speed(v: Vec3, d: Vec3, q: int, w: Vec3)
    requires
        v.bounded(0x1_0000_0000_0000),
        w.bounded(0x1_0000_0000_0000),
        w.x == d.x * q,
        w.y == d.y * q,
        w.z == d.z * q,
        q >= 0,
        d.spec_dot(d) >= 1,
        d.spec_dot(d) * q <= v.spec_dot(d),
    ensures
        w.spec_dot(w) <= v.spec_dot(v),
{
    let u = Vec3 { x: (v.x - w.x) as i64, y: (v.y - w.y) as i64, z: (v.z - w.z) as i64 };
    lemma_project_dot(v, w, 1, u, u);
    lemma_project_dot(v, w, 1, u, v);
    lemma_project_dot(v, w, 1, u, w);
    lemma_scaled_dot(d, q, w, v);
    lemma_scaled_dot(d, q, w, w);
    lemma_scaled_dot(d, q, w, d);
    assert(u.spec_dot(v) == v.spec_dot(u) && u.spec_dot(w) == w.spec_dot(u) && w.spec_dot(v)
        == v.spec_dot(w) && d.spec_dot(v) == v.spec_dot(d) && w.spec_dot(d) == d.spec_dot(
        w,
    )) by (nonlinear_arith);
    // The residual's squared length is non-negative.
    assert((v.x - w.x) * (v.x - w.x) + (v.y - w.y) * (v.y - w.y) + (v.z - w.z) * (v.z - w.z)
        >= 0) by (nonlinear_arith);
    assert(u.spec_dot(u) >= 0);
    // So v.v >= 2 q (v.d) - q (q (d.d)); the quotient bound finishes it.
    assert(v.spec_dot(v) - 2 * (q * v.spec_dot(d)) + q * (q * d.spec_dot(d)) >= 0);
    vstd::arithmetic::mul::lemma_mul_inequality(d.spec_dot(d) * q, v.spec_dot(d), q);
    assert(q * (q * d.spec_dot(d)) == (d.spec_dot(d) * q) * q) by (nonlinear_arith);
    assert(q * v.spec_dot(d) == v.spec_dot(d) * q) by (nonlinear_arith);
}

/// A nonzero integer vector has squared length at least one; a zero one
/// has every dot product zero.
proof fn lemma_normal_length(n: Vec3, v: Vec3)
    requires
        n.bounded(127),
    ensures
        n.x == 0 && n.y == 0 && n.z == 0 ==> v.spec_dot(n) == 0,
        !(n.x == 0 && n.y == 0 && n.z == 0) ==> 1 <= n.spec_dot(n) <= 48387,
{
    assert((n.x == 0 && n.y == 0 && n.z == 0 ==> v.spec_dot(n) == 0) && (!(n.x == 0 && n.y == 0
        && n.z == 0) ==> 1 <= n.spec_dot(n) <= 48387)) by (nonlinear_arith)
        requires
            n.bounded(127),
    ;
}

/// The cross product is orthogonal to both factors.
proof fn lemma_cross_orthogonal(a: Vec3, b: Vec3, d: Vec3)
    requires
        d.x == a.y * b.z - a.z * b.y,
        d.y == a.z * b.x - a.x * b.z,
        d.z == a.x * b.y - a.y * b.x,
    ensures
        d.spec_dot(a) == 0,
        d.spec_dot(b) == 0,
{
    let ax = a.x as int;
    let ay = a.y as int;
    let az = a.z as int;
    let bx = b.x as int;
    let by = b.y as int;
    let bz = b.z as int;
    vstd::arithmetic::mul::lemma_mul_is_distributive_sub_other_way(ax, ay * bz, az * by);
    vstd::arithmetic::mul::lemma_mul_is_distributive_sub_other_way(ay, az * bx, ax * bz);
    vstd::arithmetic::mul::lemma_mul_is_distributive_sub_other_way(az, ax * by, ay * bx);
    lemma_mul_shuffle(ay, bz, ax);
    lemma_mul_shuffle(az, bx, ay);
    lemma_mul_shuffle(ax, by, az);
    vstd::arithmetic::mul::lemma_mul_is_distributive_sub_other_way(bx, ay * bz, az * by);
    vstd::arithmetic::mul::lemma_mul_is_distributive_sub_other_way(by, az * bx, ax * bz);
    vstd::arithmetic::mul::lemma_mul_is_distributive_sub_other_way(bz, ax * by, ay * bx);
    lemma_mul_shuffle(ay, bz, bx);
    lemma_mul_shuffle(az, bx, by);
    lemma_mul_shuffle(ax, by, bz);
    lemma_mul_shuffle(az, by, bx);
    lemma_mul_shuffle(ax, bz, by);
    lemma_mul_shuffle(ay, bx, bz);
}

/// Whether the candidate velocity moves into none of the listed
/// surfaces.
fn all_dots_nonneg(w: Vec3, list: &Vec<(Vec3, MaterialProperties)>) -> (r: bool)
    requires
        w.bounded(RESULT_LIMIT as int),
        forall|j: int| 0 <= j < list.len() ==> (#[trigger] list@[j]).0.bounded(127),
    ensures
        r == forall|j: int| 0 <= j < list.len() ==> (#[trigger] w.spec_dot(list@[j].0)) >= 0,
{
    let mut j: usize = 0;
    while j < list.len()
        invariant
            0 <= j <= list.len(),
            w.bounded(RESULT_LIMIT as int),
            forall|k: int| 0 <= k < list.len() ==> (#[trigger] list@[k]).0.bounded(127),
            forall|k: int| 0 <= k < j ==> (#[trigger] w.spec_dot(list@[k].0)) >= 0,
        decreases list.len() - j,
    {
        let n = list[j].0;
        proof {
            lemma_mixed_dot_bound(w, n, RESULT_LIMIT as int, 127);
        }
        if w.dot(n) < 0 {
            return false;
        }
        j = j + 1;
    }
    true
}

/// Project the velocity onto the tangent plane of one opposing surface:
/// `w = v - n * (v.n / n.n)`, the quotient rounded down, so `w.n >= 0`
/// exactly.  `None` when the result would leave the representable
/// velocity range (a projection of an in-range velocity never does).
fn project_single(v: Vec3, n: Vec3) -> (r: Option<(Vec3, i64)>)
    requires
        v.bounded(VEL_LIMIT as int),
        n.bounded(127),
        v.spec_dot(n) < 0,
    ensures
        r matches Some(p) ==> {
            let q = v.spec_dot(n) / n.spec_dot(n);
            &&& p.0 == spec_single_projection(v, n)
            &&& p.0.spec_dot(n) >= 0
            &&& p.0.spec_dot(p.0) <= v.spec_dot(v) + n.spec_dot(n)
            &&& p.0.bounded(RESULT_LIMIT as int)
            &&& p.1 == -q
        },
        r is Some <==> spec_single_projection_fits(v, n),
{
    proof {
        lemma_normal_length(n, v);
        lemma_mixed_dot_bound(v, n, VEL_LIMIT as int, 127);
    }
    let vn = v.dot(n);
    let nn = n.dot(n);
    let q = div_floor(vn, nn);
    proof {
        assert(n.x * q <= 0x60_0000_0000_0000 && n.x * q >= -0x60_0000_0000_0000 && n.y * q
            <= 0x60_0000_0000_0000 && n.y * q >= -0x60_0000_0000_0000 && n.z * q
            <= 0x60_0000_0000_0000 && n.z * q >= -0x60_0000_0000_0000) by (nonlinear_arith)
            requires
                -127 <= n.x <= 127,
                -127 <= n.y <= 127,
                -127 <= n.z <= 127,
                -0x600_0000_0000 <= q <= 0x600_0000_0000,
        ;
    }
    let step = n.scaled_by(q);
    let w = v.sub(step);
    if w.x >= -RESULT_LIMIT && w.x <= RESULT_LIMIT && w.y >= -RESULT_LIMIT && w.y <= RESULT_LIMIT
        && w.z >= -RESULT_LIMIT && w.z <= RESULT_LIMIT {
        proof {
            lemma_project_dot(v, n, q as int, w, n);
            vstd::arithmetic::div_mod::lemma_fundamental_div_mod(
                v.spec_dot(n),
                n.spec_dot(n),
            );
            lemma_projection_speed(v, n, q as int, w);
        }
        Some((w, -q))
    } else {
        None
    }
}

/// The direction of the intersection line of two touched planes: their
/// cross product, negated if needed so the velocity does not oppose it.
fn edge_direction(v: Vec3, a: Vec3, b: Vec3) -> (d: Vec3)
    requires
        v.bounded(VEL_LIMIT as int),
        a.bounded(127),
        b.bounded(127),
    ensures
        d.bounded(0x10000),
        v.spec_dot(d) >= 0,
        d.spec_dot(a) == 0,
        d.spec_dot(b) == 0,
{
    let c = a.cross(b);
    proof {
        assert(c.bounded(0x10000)) by (nonlinear_arith)
            requires
                a.bounded(127),
                b.bounded(127),
                c.x == a.y * b.z - a.z * b.y,
                c.y == a.z * b.x - a.x * b.z,
                c.z == a.x * b.y - a.y * b.x,
        ;
        lemma_cross_orthogonal(a, b, c);
        lemma_mixed_dot_bound(v, c, VEL_LIMIT as int, 0x10000);
    }
    if v.dot(c) >= 0 {
        c
    } else {
        let d = c.neg();
        proof {
            assert(v.spec_dot(d) == -v.spec_dot(c) && d.spec_dot(a) == -c.spec_dot(a) && d.spec_dot(
                b,
            ) == -c.spec_dot(b)) by (nonlinear_arith)
                requires
                    d.x == -c.x && d.y == -c.y && d.z == -c.z,
        ;
        }
        d
    }
}

/// Slide the velocity along a line direction: `w = d * (v.d / d.d)`,
/// the quotient rounded down and never negative, so `w` points with
/// `d`.  `None` for a degenerate (zero) direction or a result out of
/// the representable range.
fn slide_along(v: Vec3, d: Vec3) -> (r: Option<Vec3>)
    requires
        v.bounded(VEL_LIMIT as int),
        d.bounded(0x10000),
        v.spec_dot(d) >= 0,
    ensures
        r matches Some(w) ==> {
            let q = v.spec_dot(d) / d.spec_dot(d);
            &&& q >= 0
            &&& w.x == d.x * q
            &&& w.y == d.y * q
            &&& w.z == d.z * q
            &&& w.spec_dot(w) <= v.spec_dot(v)
            &&& w.bounded(RESULT_LIMIT as int)
        },
{
    proof {
        lemma_mixed_dot_bound(v, d, VEL_LIMIT as int, 0x10000);
        lemma_mixed_dot_bound(d, d, 0x10000, 0x10000);
    }
    let dd = d.dot(d);
    if dd == 0 {
        return None;
    }
    proof {
        assert(d.spec_dot(d) > 0) by (nonlinear_arith)
            requires
                d.bounded(0x10000),
                d.spec_dot(d) != 0,
        ;
    }
    let vd = v.dot(d);
    let q = div_floor(vd, dd);
    proof {
        vstd::arithmetic::div_mod::lemma_fundamental_div_mod(vd as int, dd as int);
        assert(-(vd as int) <= d.x * q <= vd && -(vd as int) <= d.y * q <= vd && -(vd as int)
            <= d.z * q <= vd) by (nonlinear_arith)
            requires
                0 <= q,
                0 <= vd,
                (dd as int) * q <= vd,
                dd == d.x * d.x + d.y * d.y + d.z * d.z,
                -0x10000 <= d.x <= 0x10000,
                -0x10000 <= d.y <= 0x10000,
                -0x10000 <= d.z <= 0x10000,
        ;
    }
    let w = d.scaled_by(q);
    if w.x >= -RESULT_LIMIT && w.x <= RESULT_LIMIT && w.y >= -RESULT_LIMIT && w.y <= RESULT_LIMIT
        && w.z >= -RESULT_LIMIT && w.z <= RESULT_LIMIT {
        proof {
            lemma_slide_speed(v, d, q as int, w);
        }
        Some(w)
    } else {
        None
    }
}

/// Clip the velocity against a set of contact normals.  The returned
/// velocity never moves into any contact: its dot product with every
/// input normal is non-negative, exactly.  A velocity opposing nothing
/// comes back unchanged, and the classification tells the caller how
/// many surfaces acted.
pub fn find_constraints(velocity: Vec3, contacts: &Vec<Contact>) -> (r: (Vec3, ConstraintSet))
    requires
        velocity.bounded(VEL_LIMIT as int),
        forall|i: int| 0 <= i < contacts.len() ==> (#[trigger] contacts@[i]).normal.bounded(127),
    ensures
        forall|i: int|
            0 <= i < contacts.len() ==> (#[trigger] r.0.spec_dot(contacts@[i].normal)) >= 0,
        r.0.bounded(RESULT_LIMIT as int),
        r.1 is Free <==> (forall|i: int|
            0 <= i < contacts.len() ==> (#[trigger] velocity.spec_dot(contacts@[i].normal)) >= 0),
        r.1 is Free ==> r.0 == velocity,
        r.1 is Triple ==> r.0 == (Vec3 { x: 0, y: 0, z: 0 }),
        contacts.len() == 1 && velocity.spec_dot(contacts@[0].normal) < 0
            && spec_single_projection_fits(velocity, contacts@[0].normal) ==> r.0
            == spec_single_projection(velocity, contacts@[0].normal),
        forall|n: Vec3|
            spec_lone_opposed(velocity, contacts@, n) ==> r.0 == spec_single_projection(
                velocity,
                n,
            ) && (r.1 matches ConstraintSet::Single(con) && con.normal == n && con.delta_v == -(
            velocity.spec_dot(n) / n.spec_dot(n))),
        r.0.spec_dot(r.0) <= velocity.spec_dot(velocity) + 48387,
{
    let ghost single_case = spec_single_case(velocity, contacts@);
    // Merge contacts with equal normals, keeping the strongest materials.
    let mut filtered: Vec<(Vec3, MaterialProperties)> = Vec::new();
    let mut i: usize = 0;
    while i < contacts.len()
        invariant
            i <= contacts.len(),
            forall|k: int| 0 <= k < contacts.len() ==> (#[trigger] contacts@[k]).normal.bounded(127),
            forall|k: int| 0 <= k < i ==> has_normal(filtered@, (#[trigger] contacts@[k]).normal),
            forall|j: int|
                0 <= j < filtered.len() ==> (#[trigger] filtered@[j]).0.bounded(127)
                    && has_contact_normal(contacts@, filtered@[j].0),
            contacts@.len() == 1 && i == 0 ==> filtered@.len() == 0,
            contacts@.len() == 1 && i == 1 ==> filtered@.len() == 1 && filtered@[0].0
                == contacts@[0].normal,
        decreases contacts.len() - i,
    {
        let c = contacts[i];
        let mut unique = true;
        let mut j: usize = 0;
        while j < filtered.len() && unique
            invariant
                j <= filtered.len(),
                unique ==> forall|m: int| 0 <= m < j ==> (#[trigger] filtered@[m]).0 != c.normal,
                !unique ==> has_normal(filtered@, c.normal),
                forall|k: int| 0 <= k < i ==> has_normal(
                    filtered@,
                    (#[trigger] contacts@[k]).normal,
                ),
                forall|m: int|
                    0 <= m < filtered.len() ==> (#[trigger] filtered@[m]).0.bounded(127)
                        && has_contact_normal(contacts@, filtered@[m].0),
                contacts@.len() == 1 && i == 0 ==> filtered@.len() == 0,
            decreases filtered.len() - j + (if unique {
                1int
            } else {
                0
            }),
        {
            if filtered[j].0 == c.normal {
                let cur = filtered[j];
                let ghost before = filtered@;
                filtered.set(j, (cur.0, cur.1.merge_with(c.material.get_properties())));
                proof {
                    assert forall|k: int|
                        0 <= k < i implies has_normal(
                        filtered@,
                        (#[trigger] contacts@[k]).normal,
                    ) by {
                        let m = choose|m: int|
                            0 <= m < before.len() && before[m].0 == contacts@[k].normal;
                        assert(filtered@[m].0 == contacts@[k].normal);
                    }
                    assert(filtered@[j as int].0 == c.normal);
                }
                unique = false;
            } else {
                j = j + 1;
            }
        }
        if unique {
            let ghost before = filtered@;
            filtered.push((c.normal, c.material.get_properties()));
            proof {
                assert(filtered@[before.len() as int].0 == c.normal);
                assert forall|k: int|
                    0 <= k < i implies has_normal(filtered@, (#[trigger] contacts@[k]).normal) by {
                    let m = choose|m: int|
                        0 <= m < before.len() && before[m].0 == contacts@[k].normal;
                    assert(filtered@[m].0 == contacts@[k].normal);
                }
            }
        }
        i = i + 1;
    }
    // Partition by whether the velocity moves into the surface.
    let mut opposing: Vec<(Vec3, MaterialProperties)> = Vec::new();
    let mut remainder: Vec<(Vec3, MaterialProperties)> = Vec::new();
    let mut j: usize = 0;
    while j < filtered.len()
        invariant
            j <= filtered.len(),
            velocity.bounded(VEL_LIMIT as int),
            forall|k: int|
                0 <= k < filtered.len() ==> (#[trigger] filtered@[k]).0.bounded(127)
                    && has_contact_normal(contacts@, filtered@[k].0),
            forall|k: int|
                0 <= k < j ==> has_normal(opposing@, (#[trigger] filtered@[k]).0) || has_normal(
                    remainder@,
                    filtered@[k].0,
                ),
            forall|m: int|
                0 <= m < opposing.len() ==> (#[trigger] opposing@[m]).0.bounded(127)
                    && velocity.spec_dot(opposing@[m].0) < 0 && has_contact_normal(
                    contacts@,
                    opposing@[m].0,
                ),
            forall|m: int|
                0 <= m < remainder.len() ==> (#[trigger] remainder@[m]).0.bounded(127)
                    && velocity.spec_dot(remainder@[m].0) >= 0 && has_contact_normal(
                    contacts@,
                    remainder@[m].0,
                ),
            spec_single_case(velocity, contacts@) ==> filtered@.len() == 1 && filtered@[0].0 == contacts@[0].normal,
            spec_single_case(velocity, contacts@) && j == 0 ==> opposing@.len() == 0 && remainder@.len() == 0,
            spec_single_case(velocity, contacts@) && j == 1 ==> opposing@.len() == 1
                && opposing@[0].0 == contacts@[0].normal && remainder@.len() == 0,
        decreases filtered.len() - j,
    {
        let (n, props) = filtered[j];
        proof {
            lemma_mixed_dot_bound(velocity, n, VEL_LIMIT as int, 127);
        }
        if velocity.dot(n) < 0 {
            let ghost before = opposing@;
            opposing.push((n, props));
            proof {
                assert(opposing@[before.len() as int].0 == n);
                assert forall|k: int|
                    0 <= k < j + 1 implies has_normal(
                    opposing@,
                    (#[trigger] filtered@[k]).0,
                ) || has_normal(remainder@, filtered@[k].0) by {
                    if k < j && has_normal(before, filtered@[k].0) {
                        let m = choose|m: int|
                            0 <= m < before.len() && before[m].0 == filtered@[k].0;
                        assert(opposing@[m].0 == filtered@[k].0);
                    }
                }
            }
        } else {
            let ghost before = remainder@;
            remainder.push((n, props));
            proof {
                assert(remainder@[before.len() as int].0 == n);
                assert forall|k: int|
                    0 <= k < j + 1 implies has_normal(opposing@, (#[trigger] filtered@[k]).0)
                    || has_normal(remainder@, filtered@[k].0) by {
                    if k < j && has_normal(before, filtered@[k].0) {
                        let m = choose|m: int|
                            0 <= m < before.len() && before[m].0 == filtered@[k].0;
                        assert(remainder@[m].0 == filtered@[k].0);
                    }
                }
            }
        }
        j = j + 1;
    }
    if opposing.len() == 0 {
        proof {
            assert forall|i2: int|
                0 <= i2 < contacts.len() implies (#[trigger] velocity.spec_dot(
                contacts@[i2].normal,
            )) >= 0 by {
                let jf = choose|jf: int|
                    0 <= jf < filtered@.len() && filtered@[jf].0 == contacts@[i2].normal;
                assert(has_normal(remainder@, filtered@[jf].0) || has_normal(
                    opposing@,
                    filtered@[jf].0,
                ));
                let m = choose|m: int|
                    0 <= m < remainder@.len() && remainder@[m].0 == filtered@[jf].0;
                assert(velocity.spec_dot(remainder@[m].0) >= 0);
            }
            assert forall|nl: Vec3| spec_lone_opposed(velocity, contacts@, nl) implies false by {
                let i0 = choose|i0: int|
                    0 <= i0 < contacts@.len() && contacts@[i0].normal == nl;
                assert(velocity.spec_dot(contacts@[i0].normal) >= 0);
            }
        }
        return (velocity, ConstraintSet::Free);
    }
    // One opposing surface: slide in its tangent plane, if that clears
    // every other touched surface.
    let ghost some_opposed = opposing@[0].0;
    let mut fi: usize = 0;
    while fi < opposing.len()
        invariant
            fi <= opposing.len(),
            velocity.bounded(VEL_LIMIT as int),
            opposing.len() > 0,
            some_opposed == opposing@[0].0,
            spec_single_case(velocity, contacts@) ==> opposing@.len() == 1 && opposing@[0].0
                == contacts@[0].normal && remainder@.len() == 0,
            spec_single_case(velocity, contacts@) ==> fi == 0,
            forall|nl: Vec3| spec_lone_opposed(velocity, contacts@, nl) ==> fi == 0,
            forall|m: int|
                0 <= m < opposing.len() ==> (#[trigger] opposing@[m]).0.bounded(127)
                    && velocity.spec_dot(opposing@[m].0) < 0 && has_contact_normal(
                    contacts@,
                    opposing@[m].0,
                ),
            forall|m: int|
                0 <= m < remainder.len() ==> (#[trigger] remainder@[m]).0.bounded(127)
                    && velocity.spec_dot(remainder@[m].0) >= 0 && has_contact_normal(
                    contacts@,
                    remainder@[m].0,
                ),
            forall|k: int|
                0 <= k < contacts.len() ==> has_normal(
                    filtered@,
                    (#[trigger] contacts@[k]).normal,
                ),
            forall|k: int|
                0 <= k < filtered.len() ==> has_normal(opposing@, (#[trigger] filtered@[k]).0)
                    || has_normal(remainder@, filtered@[k].0),
            forall|k: int| 0 <= k < filtered.len() ==> (#[trigger] filtered@[k]).0.bounded(127),
        decreases opposing.len() - fi,
    {
        let (n1, props1) = opposing[fi];
        proof {
            // A lone opposed normal can only be this one: every other
            // touched normal the velocity moves away from.
            assert forall|nl: Vec3|
                spec_lone_opposed(velocity, contacts@, nl) implies nl == n1 by {
                let i0 = choose|i0: int|
                    0 <= i0 < contacts@.len() && contacts@[i0].normal == opposing@[fi as int].0;
                assert(contacts@[i0].normal == nl || velocity.spec_dot(contacts@[i0].normal) >= 0);
            }
        }
        match project_single(velocity, n1) {
            Some((w, dv)) => {
                if all_dots_nonneg(w, &opposing) && all_dots_nonneg(w, &remainder) {
                    proof {
                        lemma_result_clears_contacts(
                            w,
                            contacts@,
                            filtered@,
                            opposing@,
                            remainder@,
                        );
                        assert(velocity.spec_dot(some_opposed) < 0);
                        lemma_mixed_dot_bound(n1, n1, 127, 127);
                    }
                    return (
                        w,
                        ConstraintSet::Single(
                            Constraint { normal: n1, material_properties: props1, delta_v: dv },
                        ),
                    );
                }
                proof {
                    // In the single-contact case the projection clears
                    // the one and only surface, so this cannot fail.
                    if spec_single_case(velocity, contacts@) {
                        assert(w.spec_dot(opposing@[0].0) >= 0);
                        assert(false);
                    }
                    // Under a lone opposed normal every check passes,
                    // so this cannot fail either.
                    assert forall|nl: Vec3|
                        spec_lone_opposed(velocity, contacts@, nl) implies false by {
                        assert forall|m: int|
                            0 <= m < opposing.len() implies (#[trigger] w.spec_dot(
                            opposing@[m].0,
                        )) >= 0 by {
                            let i0 = choose|i0: int|
                                0 <= i0 < contacts@.len() && contacts@[i0].normal
                                    == opposing@[m].0;
                            assert(contacts@[i0].normal == nl || velocity.spec_dot(
                                contacts@[i0].normal,
                            ) >= 0);
                            assert(opposing@[m].0 == nl);
                        }
                        assert forall|m: int|
                            0 <= m < remainder.len() implies (#[trigger] w.spec_dot(
                            remainder@[m].0,
                        )) >= 0 by {
                            let i0 = choose|i0: int|
                                0 <= i0 < contacts@.len() && contacts@[i0].normal
                                    == remainder@[m].0;
                            assert(spec_single_projection(velocity, nl).spec_dot(
                                contacts@[i0].normal,
                            ) >= 0);
                        }
                        assert(false);
                    }
                }
            },
            None => {
                proof {
                    // In the single-contact case the projection fits,
                    // so it is always produced.
                    if spec_single_case(velocity, contacts@) {
                        assert(spec_single_projection_fits(velocity, n1));
                        assert(false);
                    }
                    // So does a lone opposed normal's projection.
                    assert forall|nl: Vec3|
                        spec_lone_opposed(velocity, contacts@, nl) implies false by {
                        assert(spec_single_projection_fits(velocity, n1));
                    }
                }
            },
        }
        fi = fi + 1;
    }
    proof {
        assert(!spec_single_case(velocity, contacts@));
        assert forall|nl: Vec3| spec_lone_opposed(velocity, contacts@, nl) implies false by {}
    }
    // Two surfaces: slide along the intersection line of some pair of
    // touched planes, if that clears every touched surface.
    let mut ai: usize = 0;
    while ai < filtered.len()
        invariant
            ai <= filtered.len(),
            velocity.bounded(VEL_LIMIT as int),
            opposing.len() > 0,
            some_opposed == opposing@[0].0,
            !spec_single_case(velocity, contacts@),
            forall|nl: Vec3| !spec_lone_opposed(velocity, contacts@, nl),
            forall|m: int|
                0 <= m < opposing.len() ==> (#[trigger] opposing@[m]).0.bounded(127)
                    && velocity.spec_dot(opposing@[m].0) < 0 && has_contact_normal(
                    contacts@,
                    opposing@[m].0,
                ),
            forall|m: int|
                0 <= m < remainder.len() ==> (#[trigger] remainder@[m]).0.bounded(127)
                    && velocity.spec_dot(remainder@[m].0) >= 0 && has_contact_normal(
                    contacts@,
                    remainder@[m].0,
                ),
            forall|k: int|
                0 <= k < contacts.len() ==> has_normal(
                    filtered@,
                    (#[trigger] contacts@[k]).normal,
                ),
            forall|k: int|
                0 <= k < filtered.len() ==> has_normal(opposing@, (#[trigger] filtered@[k]).0)
                    || has_normal(remainder@, filtered@[k].0),
            forall|k: int| 0 <= k < filtered.len() ==> (#[trigger] filtered@[k]).0.bounded(127),
        decreases filtered.len() - ai,
    {
        let mut bi: usize = ai + 1;
        while bi < filtered.len()
            invariant
                ai < bi || bi == ai + 1,
                ai < filtered.len(),
                bi <= filtered.len(),
                velocity.bounded(VEL_LIMIT as int),
                opposing.len() > 0,
                some_opposed == opposing@[0].0,
                !spec_single_case(velocity, contacts@),
                forall|nl: Vec3| !spec_lone_opposed(velocity, contacts@, nl),
            forall|nl: Vec3| !spec_lone_opposed(velocity, contacts@, nl),
                forall|m: int|
                    0 <= m < opposing.len() ==> (#[trigger] opposing@[m]).0.bounded(127)
                        && velocity.spec_dot(opposing@[m].0) < 0 && has_contact_normal(
                        contacts@,
                        opposing@[m].0,
                    ),
                forall|m: int|
                    0 <= m < remainder.len() ==> (#[trigger] remainder@[m]).0.bounded(127)
                        && velocity.spec_dot(remainder@[m].0) >= 0 && has_contact_normal(
                        contacts@,
                        remainder@[m].0,
                    ),
                forall|k: int|
                    0 <= k < contacts.len() ==> has_normal(
                        filtered@,
                        (#[trigger] contacts@[k]).normal,
                    ),
                forall|k: int|
                    0 <= k < filtered.len() ==> has_normal(opposing@, (#[trigger] filtered@[k]).0)
                        || has_normal(remainder@, filtered@[k].0),
                forall|k: int| 0 <= k < filtered.len() ==> (#[trigger] filtered@[k]).0.bounded(127),
            decreases filtered.len() - bi,
        {
            let (na, pa) = filtered[ai];
            let (nb, pb) = filtered[bi];
            let d = edge_direction(velocity, na, nb);
            if all_dots_nonneg(d, &opposing) && all_dots_nonneg(d, &remainder) {
                if let Some(w) = slide_along(velocity, d) {
                    proof {
                        let q = velocity.spec_dot(d) / d.spec_dot(d);
                        assert forall|m: int|
                            0 <= m < opposing.len() implies (#[trigger] w.spec_dot(
                            opposing@[m].0,
                        )) >= 0 by {
                            lemma_scaled_dot(d, q, w, opposing@[m].0);
                            assert(q * d.spec_dot(opposing@[m].0) >= 0) by (nonlinear_arith)
                                requires
                                    q >= 0,
                                    d.spec_dot(opposing@[m].0) >= 0,
                            ;
                        }
                        assert forall|m: int|
                            0 <= m < remainder.len() implies (#[trigger] w.spec_dot(
                            remainder@[m].0,
                        )) >= 0 by {
                            lemma_scaled_dot(d, q, w, remainder@[m].0);
                            assert(q * d.spec_dot(remainder@[m].0) >= 0) by (nonlinear_arith)
                                requires
                                    q >= 0,
                                    d.spec_dot(remainder@[m].0) >= 0,
                            ;
                        }
                        lemma_result_clears_contacts(
                            w,
                            contacts@,
                            filtered@,
                            opposing@,
                            remainder@,
                        );
                        assert(velocity.spec_dot(some_opposed) < 0);
                    }
                    return (
                        w,
                        ConstraintSet::Double(
                            Constraint { normal: na, material_properties: pa, delta_v: 0 },
                            Constraint { normal: nb, material_properties: pb, delta_v: 0 },
                        ),
                    );
                }
            }
            bi = bi + 1;
        }
        ai = ai + 1;
    }
    // Wedged: no direction clears every touched surface.
    let zero = Vec3 { x: 0, y: 0, z: 0 };
    proof {
        assert(zero.spec_dot(zero) == 0 && velocity.spec_dot(velocity) >= 0) by (nonlinear_arith)
            requires
                zero.x == 0 && zero.y == 0 && zero.z == 0,
        ;
        assert forall|i2: int|
            0 <= i2 < contacts.len() implies (#[trigger] zero.spec_dot(contacts@[i2].normal))
            >= 0 by {
            assert(zero.spec_dot(contacts@[i2].normal) == 0) by (nonlinear_arith)
                requires
                    zero.x == 0 && zero.y == 0 && zero.z == 0,
            ;
        }
        assert(velocity.spec_dot(some_opposed) < 0);
    }
    (zero, ConstraintSet::Triple)
}

/// A velocity that clears every partitioned surface clears every input
/// contact normal.
proof fn lemma_result_clears_contacts(
    w: Vec3,
    contacts: Seq<Contact>,
    filtered: Seq<(Vec3, MaterialProperties)>,
    opposing: Seq<(Vec3, MaterialProperties)>,
    remainder: Seq<(Vec3, MaterialProperties)>,
)
    requires
        forall|k: int| 0 <= k < contacts.len() ==> has_normal(
            filtered,
            (#[trigger] contacts[k]).normal,
        ),
        forall|k: int|
            0 <= k < filtered.len() ==> has_normal(opposing, (#[trigger] filtered[k]).0)
                || has_normal(remainder, filtered[k].0),
        forall|m: int| 0 <= m < opposing.len() ==> (#[trigger] w.spec_dot(opposing[m].0)) >= 0,
        forall|m: int| 0 <= m < remainder.len() ==> (#[trigger] w.spec_dot(remainder[m].0)) >= 0,
    ensures
        forall|i: int| 0 <= i < contacts.len() ==> (#[trigger] w.spec_dot(contacts[i].normal)) >= 0,
{
    assert forall|i: int|
        0 <= i < contacts.len() implies (#[trigger] w.spec_dot(contacts[i].normal)) >= 0 by {
        let jf = choose|jf: int| 0 <= jf < filtered.len() && filtered[jf].0 == contacts[i].normal;
        if has_normal(opposing, filtered[jf].0) {
            let m = choose|m: int| 0 <= m < opposing.len() && opposing[m].0 == filtered[jf].0;
            assert(w.spec_dot(opposing[m].0) >= 0);
        } else {
            let m = choose|m: int| 0 <= m < remainder.len() && remainder[m].0 == filtered[jf].0;
            assert(w.spec_dot(remainder[m].0) >= 0);
        }
    }
}

} // verus!
