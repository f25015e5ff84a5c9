//! Checks of the scalar fixed-point layer, the tile model and the
//! terrain lookup on exact values.

use voxelphys::axes::{Axis, Direction, DirectionalRange};
use voxelphys::fixed::{
    div_floor, div_trunc, fx_div, fx_mul, int_hash, isqrt, lerp, prel, Modulo, Sqrt, FP_ONE,
};
use voxelphys::raycast::cast_ray;
use voxelphys::step::{Entity, FacingDirection};
use voxelphys::terrain::Terrain;
use voxelphys::tile::{Fluid, Material, MaterialProperties, Tile, TileState};
use voxelphys::vectors::{Vec2, Vec3};

fn v3(x: i64, y: i64, z: i64) -> Vec3 {
    Vec3 { x, y, z }
}

#[test]
fn fixed_point_products_round_toward_zero() {
    assert_eq!(fx_mul(3 * FP_ONE, 2 * FP_ONE), 6 * FP_ONE);
    assert_eq!(fx_mul(FP_ONE / 2, FP_ONE / 2), FP_ONE / 4);
    assert_eq!(fx_mul(-3 * FP_ONE, 2 * FP_ONE), -6 * FP_ONE);
    // 1/3 * 3 loses the trailing remainder, toward zero on both signs.
    let third = FP_ONE / 3;
    assert_eq!(fx_mul(third, 3 * FP_ONE), third * 3);
    assert_eq!(fx_mul(-third, 3 * FP_ONE), -(third * 3));
}

#[test]
fn fixed_point_quotients() {
    assert_eq!(fx_div(6 * FP_ONE, 2 * FP_ONE), 3 * FP_ONE);
    assert_eq!(fx_div(2 * FP_ONE, 10 * FP_ONE), FP_ONE / 5);
    assert_eq!(fx_div(-2 * FP_ONE, 10 * FP_ONE), -(FP_ONE / 5));
    assert_eq!(div_floor(-7, 2), -4);
    assert_eq!(div_floor(7, 2), 3);
    assert_eq!(div_trunc(-7, 2), -3);
}

#[test]
fn lerp_and_prel_are_inverse_on_exact_points() {
    let a = 3 * FP_ONE;
    let b = 7 * FP_ONE;
    assert_eq!(lerp(a, b, FP_ONE / 2), 5 * FP_ONE);
    assert_eq!(prel(a, b, 5 * FP_ONE), FP_ONE / 2);
    assert_eq!(prel(a, b, a), 0);
    assert_eq!(prel(a, b, b), FP_ONE);
}

#[test]
fn integer_square_root_brackets() {
    assert_eq!(isqrt(0), 0);
    assert_eq!(isqrt(1), 1);
    assert_eq!(isqrt(15), 3);
    assert_eq!(isqrt(16), 4);
    assert_eq!(isqrt(u64::MAX), 0xffff_ffff);
    assert_eq!((9i64).sqrt(), 3);
    assert_eq!((-9i64).sqrt(), 0);
}

#[test]
fn modulo_wraps_into_range() {
    assert_eq!((-1i64).modulo(5), 4);
    assert_eq!((7i64).modulo(5), 2);
    assert_eq!((5i64).modulo(5), 0);
}

#[test]
fn lattice_hash_is_deterministic_and_mixed() {
    assert_eq!(int_hash(12345, 678), int_hash(12345, 678));
    assert_ne!(int_hash(12345, 678), int_hash(12346, 678));
    assert_ne!(int_hash(12345, 678), int_hash(12345, 679));
}

#[test]
fn axis_cycle_and_directions() {
    assert_eq!(Axis::X.l(), Axis::Z);
    assert_eq!(Axis::Y.l(), Axis::X);
    assert_eq!(Axis::Z.l(), Axis::Y);
    assert_eq!(Axis::X.r(), Axis::Y);
    assert_eq!(Axis::Z.p(), Direction::PZ);
    assert_eq!(Axis::Z.n(), Direction::NZ);
    assert_eq!(Direction::NX.axis(), Axis::X);
    assert!(Direction::PY.is_positive());
    assert!(Direction::NY.is_negative());
}

#[test]
fn directional_range_walks_both_ways() {
    let mut up = DirectionalRange::new(1, 3);
    assert_eq!(up.next(), Some(1));
    assert_eq!(up.next(), Some(2));
    assert_eq!(up.next(), Some(3));
    assert_eq!(up.next(), None);
    let mut down = DirectionalRange::new(2, 0);
    assert_eq!(down.next(), Some(2));
    assert_eq!(down.next(), Some(1));
    assert_eq!(down.next(), Some(0));
    assert_eq!(down.next(), None);
}

#[test]
fn vector_algebra() {
    let a = v3(1, 2, 3);
    let b = v3(4, -5, 6);
    assert_eq!(a.dot(b), 1 * 4 + 2 * -5 + 3 * 6);
    assert_eq!(a.cross(b), v3(2 * 6 - 3 * -5, 3 * 4 - 1 * 6, 1 * -5 - 2 * 4));
    assert_eq!(a.add(b), v3(5, -3, 9));
    assert_eq!(a.sub(b), v3(-3, 7, -3));
    assert_eq!(a.get(Axis::Y), 2);
    assert_eq!(a.with(Axis::Y, 9), v3(1, 9, 3));
    assert_eq!(a.component(Axis::Z), v3(0, 0, 3));
    assert_eq!(a.get_plane(Axis::Z), Vec2 { x: 1, y: 2 });
    assert_eq!(a.get_plane(Axis::X), Vec2 { x: 2, y: 3 });
    assert_eq!((Vec2 { x: 1, y: 2 }).vec3(Axis::Y), v3(1, 0, 2));
    assert_eq!(v3(3 * FP_ONE, 0, 0).floor_to(), v3(3, 0, 0));
    assert_eq!(v3(-FP_ONE / 2, 0, 0).floor_to(), v3(-1, 0, 0));
    assert_eq!(v3(FP_ONE / 2, 0, 0).ceil_to(), v3(1, 0, 0));
}

#[test]
fn tile_states_follow_direction_and_level() {
    assert_eq!(Tile::empty(Fluid::Water).state(), TileState::Empty);
    assert_eq!(Tile::full(Material::Mud).state(), TileState::Full);
    let ramp = Tile::slope(Material::Grass, v3(1, 0, 1), 1);
    assert_eq!(ramp.state(), TileState::Partial);
    assert!(Tile::full(Material::Mud).is_full());
    assert!(Tile::empty(Fluid::Air).is_empty());
    assert!(!ramp.is_empty());
    // Corners under the plane x + z <= 1 are included.
    assert!(ramp.includes_corner(v3(0, 0, 0)));
    assert!(ramp.includes_corner(v3(1, 1, 0)));
    assert!(!ramp.includes_corner(v3(1, 0, 1)));
    // Point queries agree, in raw cell-local coordinates.
    assert!(ramp.occupied(v3(FP_ONE / 4, FP_ONE / 2, FP_ONE / 4)));
    assert!(!ramp.occupied(v3(3 * FP_ONE / 4, FP_ONE / 2, 3 * FP_ONE / 4)));
    assert!(Tile::full(Material::Stone).occupied(v3(FP_ONE / 2, FP_ONE / 2, FP_ONE / 2)));
    assert!(!Tile::empty(Fluid::Air).occupied(v3(FP_ONE / 2, FP_ONE / 2, FP_ONE / 2)));
}

#[test]
fn material_properties_merge_to_the_strongest() {
    let a = MaterialProperties {
        friction_constant: 10,
        friction_linear: 900,
        bounciness: 5,
        stickiness: 0,
    };
    let b = MaterialProperties {
        friction_constant: 20,
        friction_linear: 100,
        bounciness: 5,
        stickiness: 7,
    };
    let m = a.merge_with(b);
    assert_eq!(m.friction_constant, 20);
    assert_eq!(m.friction_linear, 900);
    assert_eq!(m.bounciness, 5);
    assert_eq!(m.stickiness, 7);
    assert_eq!(Material::Grass.get_uv(), (1, 0));
    assert_eq!(Material::Wood.get_uv(), (0, 1));
}

#[test]
fn terrain_lookup_and_update() {
    let mut t = Terrain::new(
        v3(-2, -2, 0),
        4,
        4,
        2,
        Tile::empty(Fluid::Air),
        Tile::full(Material::Stone),
    );
    assert_eq!(t.tile_at(v3(0, 0, 0)).state(), TileState::Empty);
    // Outside the stored box the policy tile answers.
    assert_eq!(t.tile_at(v3(9, 9, 9)).state(), TileState::Full);
    t.set_tile(v3(1, -1, 1), Tile::full(Material::Brick));
    assert_eq!(t.tile_at(v3(1, -1, 1)).material, Material::Brick);
    assert_eq!(t.tile_at(v3(1, -1, 0)).state(), TileState::Empty);
}

#[test]
fn sprite_faces_the_dominant_input() {
    let mut e = Entity::new(v3(0, 0, 0), v3(FP_ONE, FP_ONE, FP_ONE));
    e.movement_input = v3(0, -FP_ONE, 0);
    e.update_sprite_status();
    assert_eq!(e.direction, FacingDirection::Up);
    e.movement_input = v3(FP_ONE, 0, 0);
    e.update_sprite_status();
    assert_eq!(e.direction, FacingDirection::Right);
    e.movement_input = v3(0, 0, 0);
    e.update_sprite_status();
    assert_eq!(e.direction, FacingDirection::Right);
}

#[test]
fn ray_hits_the_entered_face_point() {
    let mut t = Terrain::new(
        v3(0, 0, 0),
        8,
        4,
        4,
        Tile::empty(Fluid::Air),
        Tile::empty(Fluid::Air),
    );
    for y in 0..4 {
        for z in 0..4 {
            t.set_tile(v3(5, y, z), Tile::full(Material::Stone));
        }
    }
    let origin = v3(2 * FP_ONE, FP_ONE + FP_ONE / 2, FP_ONE + FP_ONE / 2);
    let ray = v3(4 * FP_ONE, 0, 0);
    let (tile, point) = cast_ray(&t, origin, ray).expect("ray must hit the wall");
    assert_eq!(tile, v3(5, 1, 1));
    // Entry at the wall's near face, three units along a four-unit ray.
    assert_eq!(point.x, 5 * FP_ONE);
    assert_eq!(point.y, origin.y);
    assert_eq!(point.z, origin.z);
}

#[test]
fn ray_misses_in_open_air() {
    let t = Terrain::new(
        v3(0, 0, 0),
        8,
        8,
        8,
        Tile::empty(Fluid::Air),
        Tile::empty(Fluid::Air),
    );
    let origin = v3(FP_ONE, FP_ONE, 6 * FP_ONE);
    assert!(cast_ray(&t, origin, v3(2 * FP_ONE, FP_ONE, FP_ONE)).is_none());
}

#[test]
fn ray_stops_on_a_ramp_plane() {
    let mut t = Terrain::new(
        v3(0, 0, 0),
        4,
        4,
        4,
        Tile::empty(Fluid::Air),
        Tile::empty(Fluid::Air),
    );
    // Solid below the diagonal plane y + z <= 3 within cell (1, 1, 1).
    t.set_tile(v3(1, 1, 1), Tile::slope(Material::Grass, v3(0, 1, 1), 1));
    // Fire straight down onto the middle of the ramp face.
    let origin = v3(FP_ONE + FP_ONE / 2, FP_ONE + FP_ONE / 2, 3 * FP_ONE);
    let ray = v3(0, 0, -2 * FP_ONE);
    let (tile, point) = cast_ray(&t, origin, ray).expect("ray must hit the ramp");
    assert_eq!(tile, v3(1, 1, 1));
    // The plane y + z = 3 under x = anything: at y = 1.5 the hit is z = 1.5.
    assert_eq!(point.z, FP_ONE + FP_ONE / 2);
}
