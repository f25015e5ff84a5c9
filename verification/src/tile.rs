//! The voxel cell descriptor.
//!
//! A tile's solid volume is derived from `direction` and `level`:
//! zero direction means the whole cell (empty when `level` is zero, a
//! full unit cube otherwise), and a nonzero direction means the
//! half-space `direction . (p - tile_origin) <= level` clipped to the
//! cell - a slope with a single plane face.

use vstd::prelude::*;

verus! {

use crate::fixed::FP_ONE;
use crate::vectors::Vec3;

/// What a solid tile is made of.
#[derive(Clone, Copy, Debug, PartialEq, Eq, Structural)]
pub enum Material {
    Grass,
    Mud,
    Dirt,
    Stone,
    Wood,
    Brick,
    Tiles,
}

/// What fills the empty part of a tile.
#[derive(Clone, Copy, Debug, PartialEq, Eq, Structural)]
pub enum Fluid {
    Air,
    Water,
}

/// Surface response parameters, in raw fixed-point units.
#[derive(Clone, Copy, Debug, PartialEq, Eq, Structural)]
pub struct MaterialProperties {
    /// Speed lost per second regardless of speed.
    pub friction_constant: i64,
    /// Fraction of speed lost per second.
    pub friction_linear: i64,
    /// How much of an impact is reflected: zero is no bounce, `FP_ONE`
    /// a perfect reflection.
    pub bounciness: i64,
    /// Extra force needed to leave rest.
    pub stickiness: i64,
}

impl Default for MaterialProperties {
    /// An inert surface: no friction, no bounce, no stickiness.
    fn default() -> (r: MaterialProperties)
        ensures
            r.friction_constant == 0,
            r.friction_linear == 0,
            r.bounciness == 0,
            r.stickiness == 0,
    {
        MaterialProperties { friction_constant: 0, friction_linear: 0, bounciness: 0, stickiness: 0 }
    }
}

impl MaterialProperties {
    /// All fields within one unit, so downstream products stay small.
    pub open spec fn wf(self) -> bool {
        &&& 0 <= self.friction_constant <= FP_ONE
        &&& 0 <= self.friction_linear <= FP_ONE
        &&& 0 <= self.bounciness <= FP_ONE
        &&& 0 <= self.stickiness <= FP_ONE
    }

    /// The strongest of each parameter, for a box touching two surfaces
    /// at once.
    pub fn merge_with(self, other: MaterialProperties) -> (r: MaterialProperties)
        ensures
            r.friction_constant == if self.friction_constant >= other.friction_constant {
                self.friction_constant
            } else {
                other.friction_constant
            },
            r.friction_linear == if self.friction_linear >= other.friction_linear {
                self.friction_linear
            } else {
                other.friction_linear
            },
            r.bounciness == if self.bounciness >= other.bounciness {
                self.bounciness
            } else {
                other.bounciness
            },
            r.stickiness == if self.stickiness >= other.stickiness {
                self.stickiness
            } else {
                other.stickiness
            },
            self.wf() && other.wf() ==> r.wf(),
    {
        MaterialProperties {
            friction_constant: if self.friction_constant >= other.friction_constant {
                self.friction_constant
            } else {
                other.friction_constant
            },
            friction_linear: if self.friction_linear >= other.friction_linear {
                self.friction_linear
            } else {
                other.friction_linear
            },
            bounciness: if self.bounciness >= other.bounciness {
                self.bounciness
            } else {
                other.bounciness
            },
            stickiness: if self.stickiness >= other.stickiness {
                self.stickiness
            } else {
                other.stickiness
            },
        }
    }
}

impl Material {
    /// The surface response of this material: half a unit of constant
    /// and of linear friction, no bounce, no stickiness.
    pub fn get_properties(&self) -> (r: MaterialProperties)
        ensures
            r.friction_constant == FP_ONE / 2,
            r.friction_linear == FP_ONE / 2,
            r.bounciness == 0,
            r.stickiness == 0,
            r.wf(),
    {
        MaterialProperties {
            friction_constant: 524288,
            friction_linear: 524288,
            bounciness: 0,
            stickiness: 0,
        }
    }

    /// This material's cell in the texture atlas.
    pub fn get_uv(&self) -> (r: (u16, u16))
        ensures
            r == self.spec_uv(),
    {
        match self {
            Material::Grass => (1, 0),
            Material::Mud => (2, 0),
            Material::Dirt => (3, 0),
            Material::Stone => (4, 0),
            Material::Wood => (0, 1),
            Material::Brick => (1, 1),
            Material::Tiles => (2, 1),
        }
    }

    /// This material's cell in the texture atlas.
    pub open spec fn spec_uv(self) -> (u16, u16) {
        match self {
            Material::Grass => (1u16, 0u16),
            Material::Mud => (2u16, 0u16),
            Material::Dirt => (3u16, 0u16),
            Material::Stone => (4u16, 0u16),
            Material::Wood => (0u16, 1u16),
            Material::Brick => (1u16, 1u16),
            Material::Tiles => (2u16, 1u16),
        }
    }
}

/// The derived occupancy class of a tile.
#[derive(Clone, Copy, Debug, PartialEq, Eq, Structural)]
pub enum TileState {
    Empty,
    Full,
    Partial,
}

/// One voxel cell.
#[derive(Clone, Copy, Debug, PartialEq, Eq, Structural)]
pub struct Tile {
    pub material: Material,
    pub fluid: Fluid,
    /// Plane offset of the slope half-space, in whole corner steps.
    pub level: i64,
    /// Normal of the slope half-space; zero for empty and full tiles.
    pub direction: Vec3,
}

impl Tile {
    /// Slope parameters stay small, so every product in the geometry
    /// tests fits.
    pub open spec fn wf(self) -> bool {
        self.direction.bounded(127) && -512 <= self.level <= 512
    }

    /// The derived occupancy class.
    pub open spec fn spec_state(self) -> TileState {
        if self.direction.x == 0 && self.direction.y == 0 && self.direction.z == 0 {
            if self.level == 0 {
                TileState::Empty
            } else {
                TileState::Full
            }
        } else {
            TileState::Partial
        }
    }

    /// The derived occupancy class.
    pub fn state(&self) -> (r: TileState)
        ensures
            r == self.spec_state(),
    {
        if self.direction.x == 0 && self.direction.y == 0 && self.direction.z == 0 {
            if self.level == 0 {
                TileState::Empty
            } else {
                TileState::Full
            }
        } else {
            TileState::Partial
        }
    }

    /// A full unit cube of the given material.
    pub fn full(material: Material) -> (r: Tile)
        ensures
            r.material == material,
            r.fluid == Fluid::Air,
            r.level == 1,
            r.direction == (Vec3 { x: 0, y: 0, z: 0 }),
            r.spec_state() == TileState::Full,
            r.wf(),
    {
        Tile { material, fluid: Fluid::Air, level: 1, direction: Vec3 { x: 0, y: 0, z: 0 } }
    }

    /// An empty cell holding the given fluid.
    pub fn empty(fluid: Fluid) -> (r: Tile)
        ensures
            r.fluid == fluid,
            r.level == 0,
            r.direction == (Vec3 { x: 0, y: 0, z: 0 }),
            r.spec_state() == TileState::Empty,
            r.wf(),
    {
        Tile { material: Material::Grass, fluid, level: 0, direction: Vec3 { x: 0, y: 0, z: 0 } }
    }

    /// A slope: the half-space `direction . (p - tile_origin) <= level`.
    pub fn slope(material: Material, direction: Vec3, level: i64) -> (r: Tile)
        requires
            direction.bounded(127),
            -512 <= level <= 512,
        ensures
            r.material == material,
            r.fluid == Fluid::Air,
            r.direction == direction,
            r.level == level,
            r.wf(),
    {
        Tile { material, fluid: Fluid::Air, level, direction }
    }

    pub fn is_empty(&self) -> (r: bool)
        ensures
            r == (self.spec_state() == TileState::Empty),
    {
        self.direction.x == 0 && self.direction.y == 0 && self.direction.z == 0 && self.level == 0
    }

    pub fn is_full(&self) -> (r: bool)
        ensures
            r == (self.spec_state() == TileState::Full),
    {
        self.direction.x == 0 && self.direction.y == 0 && self.direction.z == 0 && self.level != 0
    }

    /// Whether the slope half-space covers the given cell corner
    /// (components zero or one).  Meaningless for empty tiles.
    pub fn includes_corner(&self, corner: Vec3) -> (r: bool)
        requires
            self.wf(),
            corner.bounded(1),
        ensures
            r == (self.direction.spec_dot(corner) <= self.level),
    {
        proof {
            crate::vectors::lemma_mixed_dot_bound(self.direction, corner, 127, 1);
        }
        self.direction.dot(corner) <= self.level
    }

    /// Whether the point, in raw fixed-point cell-local coordinates
    /// (each axis running zero to `FP_ONE`), lies in this tile's solid
    /// region.
    pub open spec fn spec_occupied(self, p: Vec3) -> bool {
        match self.spec_state() {
            TileState::Empty => false,
            TileState::Full => true,
            TileState::Partial => self.direction.spec_dot(p) <= self.level * FP_ONE,
        }
    }

    /// Whether the point, in raw fixed-point cell-local coordinates,
    /// lies in this tile's solid region.
    pub fn occupied(&self, p: Vec3) -> (r: bool)
        requires
            self.wf(),
            p.bounded(4 * FP_ONE as int),
        ensures
            r == self.spec_occupied(p),
    {
        match self.state() {
            TileState::Empty => false,
            TileState::Full => true,
            TileState::Partial => {
                proof {
                    crate::vectors::lemma_mixed_dot_bound(self.direction, p, 127, 4 * FP_ONE as int);
                }
                self.direction.dot(p) <= self.level * 1048576
            },
        }
    }

    /// Sum of the positive components of `direction`: the largest value
    /// `direction . c` takes over the cell's corners.
    pub open spec fn spec_pos_sum(self) -> int {
        (if self.direction.x > 0 {
            self.direction.x as int
        } else {
            0
        }) + (if self.direction.y > 0 {
            self.direction.y as int
        } else {
            0
        }) + (if self.direction.z > 0 {
            self.direction.z as int
        } else {
            0
        })
    }

    /// Sum of the negative components of `direction`: the smallest value
    /// `direction . c` takes over the cell's corners.
    pub open spec fn spec_neg_sum(self) -> int {
        (if self.direction.x < 0 {
            self.direction.x as int
        } else {
            0
        }) + (if self.direction.y < 0 {
            self.direction.y as int
        } else {
            0
        }) + (if self.direction.z < 0 {
            self.direction.z as int
        } else {
            0
        })
    }

    /// Both corner-extreme sums of `direction` at once.
    pub fn slope_sums(&self) -> (r: (i64, i64))
        requires
            self.wf(),
        ensures
            r.0 == self.spec_pos_sum(),
            r.1 == self.spec_neg_sum(),
    {
        let mut pos: i64 = 0;
        let mut neg: i64 = 0;
        if self.direction.x > 0 {
            pos = pos + self.direction.x;
        } else {
            neg = neg + self.direction.x;
        }
        if self.direction.y > 0 {
            pos = pos + self.direction.y;
        } else {
            neg = neg + self.direction.y;
        }
        if self.direction.z > 0 {
            pos = pos + self.direction.z;
        } else {
            neg = neg + self.direction.z;
        }
        (pos, neg)
    }
}

impl Default for Tile {
    /// An empty air cell.
    fn default() -> (r: Tile)
        ensures
            r.spec_state() == TileState::Empty,
            r.fluid == Fluid::Air,
            r.wf(),
    {
        Tile {
            material: Material::Grass,
            fluid: Fluid::Air,
            level: 0,
            direction: Vec3 { x: 0, y: 0, z: 0 },
        }
    }
}

} // verus!
