//! The terrain snapshot the physics reads.
//!
//! A dense box of tiles over an integer lattice, plus one `outside` tile
//! returned for every coordinate beyond the box.  That makes the lookup
//! total, with an explicit policy for unloaded ground: pass a full tile
//! as `outside` to treat missing terrain as solid, or an empty one to
//! let boxes fall through.  Physics never writes a tile.

use vstd::prelude::*;

verus! {

use crate::tile::Tile;
use crate::vectors::Vec3;

/// Largest tile-lattice coordinate magnitude of the box origin.
pub const ORIGIN_LIMIT: i64 = 0x10_0000;

/// Largest extent of the box on one axis, in tiles.
pub const EXTENT_LIMIT: usize = 1024;

/// A dense box of tiles with a total lookup.
pub struct Terrain {
    /// Lattice coordinate of the box's lowest corner.
    pub origin: Vec3,
    /// Extent in tiles along x.
    pub size_x: usize,
    /// Extent in tiles along y.
    pub size_y: usize,
    /// Extent in tiles along z.
    pub size_z: usize,
    /// Row-major tile storage: x fastest, then y, then z.
    pub tiles: Vec<Tile>,
    /// What every coordinate outside the box holds.
    pub outside: Tile,
}

impl Terrain {
    /// The storage is exactly the box, every tile well formed, and the
    /// box small enough that index arithmetic stays exact.
    pub open spec fn wf(self) -> bool {
        &&& self.origin.bounded(ORIGIN_LIMIT as int)
        &&& 0 < self.size_x <= EXTENT_LIMIT
        &&& 0 < self.size_y <= EXTENT_LIMIT
        &&& 0 < self.size_z <= EXTENT_LIMIT
        &&& self.tiles.len() == self.size_x * self.size_y * self.size_z
        &&& forall|i: int| 0 <= i < self.tiles.len() ==> (#[trigger] self.tiles[i]).wf()
        &&& self.outside.wf()
    }

    /// Whether a lattice coordinate lies inside the stored box.
    pub open spec fn spec_in_bounds(self, p: Vec3) -> bool {
        &&& self.origin.x <= p.x < self.origin.x + self.size_x
        &&& self.origin.y <= p.y < self.origin.y + self.size_y
        &&& self.origin.z <= p.z < self.origin.z + self.size_z
    }

    /// Storage index of an in-bounds lattice coordinate.
    pub open spec fn spec_index(self, p: Vec3) -> int {
        ((p.z - self.origin.z) * self.size_y + (p.y - self.origin.y)) * self.size_x + (p.x
            - self.origin.x)
    }

    /// The tile at a lattice coordinate; `outside` beyond the box.
    pub open spec fn spec_tile_at(self, p: Vec3) -> Tile {
        if self.spec_in_bounds(p) {
            self.tiles[self.spec_index(p)]
        } else {
            self.outside
        }
    }

    /// An in-bounds index lands inside the storage.
    pub proof fn lemma_index_range(self, p: Vec3)
        requires
            self.wf(),
            self.spec_in_bounds(p),
        ensures
            0 <= self.spec_index(p) < self.tiles.len(),
    {
        let dx = p.x - self.origin.x;
        let dy = p.y - self.origin.y;
        let dz = p.z - self.origin.z;
        let sx = self.size_x as int;
        let sy = self.size_y as int;
        let sz = self.size_z as int;
        assert(0 <= (dz * sy + dy) * sx + dx < sx * sy * sz) by (nonlinear_arith)
            requires
                0 <= dx < sx,
                0 <= dy < sy,
                0 <= dz < sz,
        ;
    }

    /// Distinct in-bounds coordinates use distinct storage slots.
    pub proof fn lemma_index_injective(self, p: Vec3, q: Vec3)
        requires
            self.wf(),
            self.spec_in_bounds(p),
            self.spec_in_bounds(q),
            p != q,
        ensures
            self.spec_index(p) != self.spec_index(q),
    {
        let dxp = p.x - self.origin.x;
        let dyp = p.y - self.origin.y;
        let dzp = p.z - self.origin.z;
        let dxq = q.x - self.origin.x;
        let dyq = q.y - self.origin.y;
        let dzq = q.z - self.origin.z;
        let sx = self.size_x as int;
        let sy = self.size_y as int;
        assert((dzp * sy + dyp) * sx + dxp != (dzq * sy + dyq) * sx + dxq) by (nonlinear_arith)
            requires
                0 <= dxp < sx,
                0 <= dyp < sy,
                0 <= dxq < sx,
                0 <= dyq < sy,
                !(dxp == dxq && dyp == dyq && dzp == dzq),
        ;
    }

    /// A fresh box filled with one tile.
    pub fn new(
        origin: Vec3,
        size_x: usize,
        size_y: usize,
        size_z: usize,
        fill: Tile,
        outside: Tile,
    ) -> (r: Terrain)
        requires
            origin.bounded(ORIGIN_LIMIT as int),
            0 < size_x <= EXTENT_LIMIT,
            0 < size_y <= EXTENT_LIMIT,
            0 < size_z <= EXTENT_LIMIT,
            fill.wf(),
            outside.wf(),
        ensures
            r.wf(),
            r.origin == origin,
            r.size_x == size_x,
            r.size_y == size_y,
            r.size_z == size_z,
            r.outside == outside,
            forall|p: Vec3| r.spec_in_bounds(p) ==> #[trigger] r.spec_tile_at(p) == fill,
    {
        proof {
            assert(size_x * size_y <= 0x10_0000) by (nonlinear_arith)
                requires
                    0 < size_x <= 1024,
                    0 < size_y <= 1024,
            ;
            vstd::arithmetic::mul::lemma_mul_upper_bound(
                size_x * size_y,
                0x10_0000,
                size_z as int,
                1024,
            );
            vstd::arithmetic::mul::lemma_mul_nonnegative(size_x * size_y, size_z as int);
        }
        let total: usize = size_x * size_y * size_z;
        let mut tiles: Vec<Tile> = Vec::new();
        let mut i: usize = 0;
        while i < total
            invariant
                tiles.len() == i <= total,
                forall|j: int| 0 <= j < i ==> tiles[j] == fill,
            decreases total - i,
        {
            tiles.push(fill);
            i = i + 1;
        }
        let r = Terrain { origin, size_x, size_y, size_z, tiles, outside };
        proof {
            assert forall|p: Vec3| r.spec_in_bounds(p) implies #[trigger] r.spec_tile_at(p)
                == fill by {
                r.lemma_index_range(p);
            }
        }
        r
    }

    /// The tile at a lattice coordinate: a total, read-only lookup.
    pub fn tile_at(&self, p: Vec3) -> (t: Tile)
        requires
            self.wf(),
            p.bounded(0x4000_0000_0000_0000),
        ensures
            t == self.spec_tile_at(p),
            t.wf(),
    {
        if p.x >= self.origin.x && p.x - self.origin.x < self.size_x as i64 && p.y >= self.origin.y
            && p.y - self.origin.y < self.size_y as i64 && p.z >= self.origin.z && p.z
            - self.origin.z < self.size_z as i64 {
            let dx = (p.x - self.origin.x) as usize;
            let dy = (p.y - self.origin.y) as usize;
            let dz = (p.z - self.origin.z) as usize;
            proof {
                self.lemma_index_range(p);
                assert(dz * self.size_y <= 0x10_0000 && dz * self.size_y + dy <= 0x10_0400 && (dz
                    * self.size_y + dy) * self.size_x + dx < 0x4000_0000) by (nonlinear_arith)
                    requires
                        dx < self.size_x <= EXTENT_LIMIT,
                        dy < self.size_y <= EXTENT_LIMIT,
                        dz < self.size_z <= EXTENT_LIMIT,
                ;
            }
            let idx: usize = (dz * self.size_y + dy) * self.size_x + dx;
            self.tiles[idx]
        } else {
            self.outside
        }
    }

    /// Replace the tile at an in-bounds coordinate; every other
    /// coordinate keeps its tile.
    pub fn set_tile(&mut self, p: Vec3, t: Tile)
        requires
            old(self).wf(),
            old(self).spec_in_bounds(p),
            t.wf(),
        ensures
            final(self).wf(),
            final(self).origin == old(self).origin,
            final(self).size_x == old(self).size_x,
            final(self).size_y == old(self).size_y,
            final(self).size_z == old(self).size_z,
            final(self).outside == old(self).outside,
            final(self).spec_tile_at(p) == t,
            forall|q: Vec3| q != p ==> #[trigger] final(self).spec_tile_at(q) == old(
                self,
            ).spec_tile_at(q),
    {
        proof {
            self.lemma_index_range(p);
        }
        let dx = (p.x - self.origin.x) as usize;
        let dy = (p.y - self.origin.y) as usize;
        let dz = (p.z - self.origin.z) as usize;
        proof {
            assert(dz * self.size_y <= 0x10_0000 && dz * self.size_y + dy <= 0x10_0400 && (dz
                * self.size_y + dy) * self.size_x + dx < 0x4000_0000) by (nonlinear_arith)
                requires
                    dx < self.size_x <= EXTENT_LIMIT,
                    dy < self.size_y <= EXTENT_LIMIT,
                    dz < self.size_z <= EXTENT_LIMIT,
            ;
        }
        let idx: usize = (dz * self.size_y + dy) * self.size_x + dx;
        self.tiles.set(idx, t);
        proof {
            assert(idx == old(self).spec_index(p));
            assert forall|q: Vec3| q != p implies #[trigger] self.spec_tile_at(q) == old(
                self,
            ).spec_tile_at(q) by {
                if old(self).spec_in_bounds(q) {
                    old(self).lemma_index_injective(p, q);
                    old(self).lemma_index_range(q);
                }
            }
        }
    }
}

} // verus!
