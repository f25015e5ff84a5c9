//! Integer 3-vectors and planar 2-vectors.
//!
//! One vector type serves three roles, told apart by the bounds the
//! contracts ask for: raw fixed-point positions and velocities, whole
//! tile lattice coordinates, and small exact surface normals.

use vstd::prelude::*;

verus! {

use crate::axes::{Axis, Direction};
use crate::fixed::{fx_mul_spec, fx_mul, FP_ONE, floor_div};

/// A 3-vector of raw fixed-point values, lattice coordinates, or normal
/// components.
#[derive(Clone, Copy, Debug, PartialEq, Eq, Structural)]
pub struct Vec3 {
    pub x: i64,
    pub y: i64,
    pub z: i64,
}

/// A 2-vector: one coordinate plane of a `Vec3`.
#[derive(Clone, Copy, Debug, PartialEq, Eq, Structural)]
pub struct Vec2 {
    pub x: i64,
    pub y: i64,
}

impl Vec3 {
    /// Every component within `m` in magnitude.
    pub open spec fn bounded(self, m: int) -> bool {
        -m <= self.x <= m && -m <= self.y <= m && -m <= self.z <= m
    }

    /// The component on the given axis.
    pub open spec fn spec_get(self, a: Axis) -> i64 {
        match a {
            Axis::X => self.x,
            Axis::Y => self.y,
            Axis::Z => self.z,
        }
    }

    /// Dot product, as an unbounded integer.
    pub open spec fn spec_dot(self, o: Vec3) -> int {
        self.x * o.x + self.y * o.y + self.z * o.z
    }

    pub fn new(x: i64, y: i64, z: i64) -> (r: Vec3)
        ensures
            r == (Vec3 { x, y, z }),
    {
        Vec3 { x, y, z }
    }

    pub fn x(self) -> (r: i64)
        ensures
            r == self.x,
    {
        self.x
    }

    pub fn y(self) -> (r: i64)
        ensures
            r == self.y,
    {
        self.y
    }

    pub fn z(self) -> (r: i64)
        ensures
            r == self.z,
    {
        self.z
    }

    /// The same value on all three axes.
    pub fn all(c: i64) -> (r: Vec3)
        ensures
            r == (Vec3 { x: c, y: c, z: c }),
    {
        Vec3 { x: c, y: c, z: c }
    }

    /// The origin.
    pub fn zero() -> (r: Vec3)
        ensures
            r == (Vec3 { x: 0, y: 0, z: 0 }),
    {
        Vec3 { x: 0, y: 0, z: 0 }
    }

    /// The unit vector pointing the given way.
    pub fn unit(d: Direction) -> (r: Vec3)
        ensures
            r == Vec3::spec_unit(d),
    {
        match d {
            Direction::PX => Vec3 { x: 1, y: 0, z: 0 },
            Direction::PY => Vec3 { x: 0, y: 1, z: 0 },
            Direction::PZ => Vec3 { x: 0, y: 0, z: 1 },
            Direction::NX => Vec3 { x: -1i64, y: 0, z: 0 },
            Direction::NY => Vec3 { x: 0, y: -1i64, z: 0 },
            Direction::NZ => Vec3 { x: 0, y: 0, z: -1i64 },
        }
    }

    /// The unit vector pointing the given way.
    pub open spec fn spec_unit(d: Direction) -> Vec3 {
        match d {
            Direction::PX => Vec3 { x: 1, y: 0, z: 0 },
            Direction::PY => Vec3 { x: 0, y: 1, z: 0 },
            Direction::PZ => Vec3 { x: 0, y: 0, z: 1 },
            Direction::NX => Vec3 { x: -1i64, y: 0, z: 0 },
            Direction::NY => Vec3 { x: 0, y: -1i64, z: 0 },
            Direction::NZ => Vec3 { x: 0, y: 0, z: -1i64 },
        }
    }

    /// The component on the given axis.
    #[verifier::when_used_as_spec(spec_get)]
    pub fn get(self, a: Axis) -> (r: i64)
        ensures
            r == self.spec_get(a),
    {
        match a {
            Axis::X => self.x,
            Axis::Y => self.y,
            Axis::Z => self.z,
        }
    }

    /// The vector with the given axis replaced by `v`.
    pub open spec fn spec_with(self, a: Axis, v: i64) -> Vec3 {
        match a {
            Axis::X => Vec3 { x: v, ..self },
            Axis::Y => Vec3 { y: v, ..self },
            Axis::Z => Vec3 { z: v, ..self },
        }
    }

    /// The vector with the given axis replaced by `v`.
    #[verifier::when_used_as_spec(spec_with)]
    pub fn with(self, a: Axis, v: i64) -> (r: Vec3)
        ensures
            r == self.spec_with(a, v),
    {
        match a {
            Axis::X => Vec3 { x: v, ..self },
            Axis::Y => Vec3 { y: v, ..self },
            Axis::Z => Vec3 { z: v, ..self },
        }
    }

    /// Only the given axis kept, the other two zeroed.
    pub fn component(self, a: Axis) -> (r: Vec3)
        ensures
            r.spec_get(a) == self.spec_get(a),
            r.spec_get(a.spec_l()) == 0,
            r.spec_get(a.spec_r()) == 0,
    {
        match a {
            Axis::X => Vec3 { x: self.x, y: 0, z: 0 },
            Axis::Y => Vec3 { x: 0, y: self.y, z: 0 },
            Axis::Z => Vec3 { x: 0, y: 0, z: self.z },
        }
    }

    /// Componentwise sum.
    pub fn add(self, o: Vec3) -> (r: Vec3)
        requires
            i64::MIN <= self.x + o.x <= i64::MAX,
            i64::MIN <= self.y + o.y <= i64::MAX,
            i64::MIN <= self.z + o.z <= i64::MAX,
        ensures
            r.x == self.x + o.x,
            r.y == self.y + o.y,
            r.z == self.z + o.z,
    {
        Vec3 { x: self.x + o.x, y: self.y + o.y, z: self.z + o.z }
    }

    /// Componentwise difference.
    pub fn sub(self, o: Vec3) -> (r: Vec3)
        requires
            i64::MIN <= self.x - o.x <= i64::MAX,
            i64::MIN <= self.y - o.y <= i64::MAX,
            i64::MIN <= self.z - o.z <= i64::MAX,
        ensures
            r.x == self.x - o.x,
            r.y == self.y - o.y,
            r.z == self.z - o.z,
    {
        Vec3 { x: self.x - o.x, y: self.y - o.y, z: self.z - o.z }
    }

    /// Componentwise negation.
    pub fn neg(self) -> (r: Vec3)
        requires
            self.x > i64::MIN,
            self.y > i64::MIN,
            self.z > i64::MIN,
        ensures
            r.x == -self.x,
            r.y == -self.y,
            r.z == -self.z,
    {
        Vec3 { x: -self.x, y: -self.y, z: -self.z }
    }

    /// Dot product.  Computed through `i128`, so only the result must fit.
    pub fn dot(self, o: Vec3) -> (r: i64)
        requires
            self.bounded(0x4000_0000_0000_0000),
            o.bounded(0x4000_0000_0000_0000),
            i64::MIN <= self.spec_dot(o) <= i64::MAX,
        ensures
            r == self.spec_dot(o),
    {
        proof {
            crate::fixed::lemma_i64_product_range(self.x, o.x);
            crate::fixed::lemma_i64_product_range(self.y, o.y);
            crate::fixed::lemma_i64_product_range(self.z, o.z);
        }
        let p: i128 = (self.x as i128) * (o.x as i128) + (self.y as i128) * (o.y as i128) + (
        self.z as i128) * (o.z as i128);
        p as i64
    }

    /// Squared euclidean length.
    pub fn length_squared(self) -> (r: i64)
        requires
            self.bounded(0x4000_0000_0000_0000),
            i64::MIN <= self.spec_dot(self) <= i64::MAX,
        ensures
            r == self.spec_dot(self),
    {
        self.dot(self)
    }

    /// Cross product: the exact integer vector orthogonal to both inputs.
    pub open spec fn spec_cross(self, o: Vec3) -> Vec3 {
        Vec3 {
            x: (self.y * o.z - self.z * o.y) as i64,
            y: (self.z * o.x - self.x * o.z) as i64,
            z: (self.x * o.y - self.y * o.x) as i64,
        }
    }

    /// Cross product of two small vectors (surface normals).
    pub fn cross(self, o: Vec3) -> (r: Vec3)
        requires
            self.bounded(0x4000_0000),
            o.bounded(0x4000_0000),
        ensures
            r == self.spec_cross(o),
            r.x == self.y * o.z - self.z * o.y,
            r.y == self.z * o.x - self.x * o.z,
            r.z == self.x * o.y - self.y * o.x,
    {
        proof {
            lemma_small_products(self, o);
        }
        Vec3 {
            x: self.y * o.z - self.z * o.y,
            y: self.z * o.x - self.x * o.z,
            z: self.x * o.y - self.y * o.x,
        }
    }

    /// Componentwise fixed-point product (each component scaled by the
    /// matching component of `o`).
    pub fn scale(self, o: Vec3) -> (r: Vec3)
        requires
            i64::MIN <= fx_mul_spec(self.x as int, o.x as int) <= i64::MAX,
            i64::MIN <= fx_mul_spec(self.y as int, o.y as int) <= i64::MAX,
            i64::MIN <= fx_mul_spec(self.z as int, o.z as int) <= i64::MAX,
        ensures
            r.x == fx_mul_spec(self.x as int, o.x as int),
            r.y == fx_mul_spec(self.y as int, o.y as int),
            r.z == fx_mul_spec(self.z as int, o.z as int),
    {
        Vec3 { x: fx_mul(self.x, o.x), y: fx_mul(self.y, o.y), z: fx_mul(self.z, o.z) }
    }

    /// Product with a whole-number scalar (no fixed-point rescale).
    pub fn scaled_by(self, k: i64) -> (r: Vec3)
        requires
            i64::MIN <= self.x * k <= i64::MAX,
            i64::MIN <= self.y * k <= i64::MAX,
            i64::MIN <= self.z * k <= i64::MAX,
        ensures
            r.x == self.x * k,
            r.y == self.y * k,
            r.z == self.z * k,
    {
        proof {
            crate::fixed::lemma_i64_product_range(self.x, k);
            crate::fixed::lemma_i64_product_range(self.y, k);
            crate::fixed::lemma_i64_product_range(self.z, k);
        }
        let x: i128 = (self.x as i128) * (k as i128);
        let y: i128 = (self.y as i128) * (k as i128);
        let z: i128 = (self.z as i128) * (k as i128);
        Vec3 { x: x as i64, y: y as i64, z: z as i64 }
    }

    /// Whether all components are zero.
    pub fn is_zero(self) -> (r: bool)
        ensures
            r == (self.x == 0 && self.y == 0 && self.z == 0),
    {
        self.x == 0 && self.y == 0 && self.z == 0
    }

    /// The tile-lattice cell containing a raw fixed-point point: each
    /// component divided by `FP_ONE`, rounded down.
    pub fn floor_to(self) -> (r: Vec3)
        ensures
            r.x == self.x as int / FP_ONE as int,
            r.y == self.y as int / FP_ONE as int,
            r.z == self.z as int / FP_ONE as int,
    {
        Vec3 {
            x: floor_div(self.x as i128, 1048576) as i64,
            y: floor_div(self.y as i128, 1048576) as i64,
            z: floor_div(self.z as i128, 1048576) as i64,
        }
    }

    /// Each raw fixed-point component divided by `FP_ONE`, rounded up.
    pub fn ceil_to(self) -> (r: Vec3)
        ensures
            r.x == -((-self.x) as int / FP_ONE as int),
            r.y == -((-self.y) as int / FP_ONE as int),
            r.z == -((-self.z) as int / FP_ONE as int),
    {
        proof {
            crate::fixed::lemma_div_bounds(-(self.x as int), FP_ONE as int);
            crate::fixed::lemma_div_bounds(-(self.y as int), FP_ONE as int);
            crate::fixed::lemma_div_bounds(-(self.z as int), FP_ONE as int);
        }
        Vec3 {
            x: -(floor_div(-(self.x as i128), 1048576) as i64),
            y: -(floor_div(-(self.y as i128), 1048576) as i64),
            z: -(floor_div(-(self.z as i128), 1048576) as i64),
        }
    }

    /// The coordinate plane orthogonal to the given axis, in the fixed
    /// order Z keeps (x, y), Y keeps (x, z), X keeps (y, z).
    pub open spec fn spec_get_plane(self, a: Axis) -> Vec2 {
        match a {
            Axis::Z => Vec2 { x: self.x, y: self.y },
            Axis::Y => Vec2 { x: self.x, y: self.z },
            Axis::X => Vec2 { x: self.y, y: self.z },
        }
    }

    /// The coordinate plane orthogonal to the given axis.
    #[verifier::when_used_as_spec(spec_get_plane)]
    pub fn get_plane(self, a: Axis) -> (r: Vec2)
        ensures
            r == self.spec_get_plane(a),
    {
        match a {
            Axis::Z => Vec2 { x: self.x, y: self.y },
            Axis::Y => Vec2 { x: self.x, y: self.z },
            Axis::X => Vec2 { x: self.y, y: self.z },
        }
    }
}

/// The dot product of two bounded vectors stays within three times the
/// product of the bounds.
pub proof fn lemma_mixed_dot_bound(a: Vec3, b: Vec3, ba: int, bb: int)
    requires
        a.bounded(ba),
        b.bounded(bb),
        0 <= ba,
        0 <= bb,
    ensures
        -3 * (ba * bb) <= a.spec_dot(b) <= 3 * (ba * bb),
{
    assert(-3 * (ba * bb) <= a.spec_dot(b) <= 3 * (ba * bb)) by (nonlinear_arith)
        requires
            a.bounded(ba),
            b.bounded(bb),
            0 <= ba,
            0 <= bb,
    ;
}

/// The planar dot product of two bounded 2-vectors stays within twice
/// the product of the bounds.
pub proof fn lemma_mixed_dot2_bound(a: Vec2, b: Vec2, ba: int, bb: int)
    requires
        a.bounded(ba),
        b.bounded(bb),
        0 <= ba,
        0 <= bb,
    ensures
        -2 * (ba * bb) <= a.spec_dot(b) <= 2 * (ba * bb),
{
    assert(-2 * (ba * bb) <= a.spec_dot(b) <= 2 * (ba * bb)) by (nonlinear_arith)
        requires
            a.bounded(ba),
            b.bounded(bb),
            0 <= ba,
            0 <= bb,
    ;
}

/// Products of two vectors bounded by `2^30` fit comfortably in `i64`.
proof fn lemma_small_products(a: Vec3, b: Vec3)
    requires
        a.bounded(0x4000_0000),
        b.bounded(0x4000_0000),
    ensures
        -0x1000_0000_0000_0000 <= a.x * b.x <= 0x1000_0000_0000_0000,
        -0x1000_0000_0000_0000 <= a.x * b.y <= 0x1000_0000_0000_0000,
        -0x1000_0000_0000_0000 <= a.x * b.z <= 0x1000_0000_0000_0000,
        -0x1000_0000_0000_0000 <= a.y * b.x <= 0x1000_0000_0000_0000,
        -0x1000_0000_0000_0000 <= a.y * b.y <= 0x1000_0000_0000_0000,
        -0x1000_0000_0000_0000 <= a.y * b.z <= 0x1000_0000_0000_0000,
        -0x1000_0000_0000_0000 <= a.z * b.x <= 0x1000_0000_0000_0000,
        -0x1000_0000_0000_0000 <= a.z * b.y <= 0x1000_0000_0000_0000,
        -0x1000_0000_0000_0000 <= a.z * b.z <= 0x1000_0000_0000_0000,
{
    assert(-0x1000_0000_0000_0000 <= a.x * b.x <= 0x1000_0000_0000_0000
        && -0x1000_0000_0000_0000 <= a.x * b.y <= 0x1000_0000_0000_0000
        && -0x1000_0000_0000_0000 <= a.x * b.z <= 0x1000_0000_0000_0000
        && -0x1000_0000_0000_0000 <= a.y * b.x <= 0x1000_0000_0000_0000
        && -0x1000_0000_0000_0000 <= a.y * b.y <= 0x1000_0000_0000_0000
        && -0x1000_0000_0000_0000 <= a.y * b.z <= 0x1000_0000_0000_0000
        && -0x1000_0000_0000_0000 <= a.z * b.x <= 0x1000_0000_0000_0000
        && -0x1000_0000_0000_0000 <= a.z * b.y <= 0x1000_0000_0000_0000
        && -0x1000_0000_0000_0000 <= a.z * b.z <= 0x1000_0000_0000_0000) by (nonlinear_arith)
        requires
            a.bounded(0x4000_0000),
            b.bounded(0x4000_0000),
    ;
}

impl Vec2 {
    /// Every component within `m` in magnitude.
    pub open spec fn bounded(self, m: int) -> bool {
        -m <= self.x <= m && -m <= self.y <= m
    }

    /// Dot product, as an unbounded integer.
    pub open spec fn spec_dot(self, o: Vec2) -> int {
        self.x * o.x + self.y * o.y
    }

    pub fn x(self) -> (r: i64)
        ensures
            r == self.x,
    {
        self.x
    }

    pub fn y(self) -> (r: i64)
        ensures
            r == self.y,
    {
        self.y
    }

    /// The same value on both axes.
    pub fn all(c: i64) -> (r: Vec2)
        ensures
            r == (Vec2 { x: c, y: c }),
    {
        Vec2 { x: c, y: c }
    }

    /// Dot product.  Computed through `i128`, so only the result must fit.
    pub fn dot(self, o: Vec2) -> (r: i64)
        requires
            i64::MIN <= self.spec_dot(o) <= i64::MAX,
        ensures
            r == self.spec_dot(o),
    {
        proof {
            crate::fixed::lemma_i64_product_range(self.x, o.x);
            crate::fixed::lemma_i64_product_range(self.y, o.y);
        }
        let p: i128 = (self.x as i128) * (o.x as i128) + (self.y as i128) * (o.y as i128);
        p as i64
    }

    /// The planar cross product (a scalar).
    pub fn cross(self, o: Vec2) -> (r: i64)
        requires
            i64::MIN <= self.x * o.y - self.y * o.x <= i64::MAX,
        ensures
            r == self.x * o.y - self.y * o.x,
    {
        proof {
            crate::fixed::lemma_i64_product_range(self.x, o.y);
            crate::fixed::lemma_i64_product_range(self.y, o.x);
        }
        let p: i128 = (self.x as i128) * (o.y as i128) - (self.y as i128) * (o.x as i128);
        p as i64
    }

    /// Back to a 3-vector: the plane's two components spread around a zero
    /// on the given axis, inverting `Vec3::get_plane`.
    pub fn vec3(self, a: Axis) -> (r: Vec3)
        ensures
            r == self.spec_vec3(a),
            r.spec_get_plane(a) == self,
            r.spec_get(a) == 0,
    {
        match a {
            Axis::Z => Vec3 { x: self.x, y: self.y, z: 0 },
            Axis::Y => Vec3 { x: self.x, y: 0, z: self.y },
            Axis::X => Vec3 { x: 0, y: self.x, z: self.y },
        }
    }

    /// Back to a 3-vector, with zero on the given axis.
    pub open spec fn spec_vec3(self, a: Axis) -> Vec3 {
        match a {
            Axis::Z => Vec3 { x: self.x, y: self.y, z: 0 },
            Axis::Y => Vec3 { x: self.x, y: 0, z: self.y },
            Axis::X => Vec3 { x: 0, y: self.x, z: self.y },
        }
    }
}

} // verus!
