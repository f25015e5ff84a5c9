//! End-to-end checks of the physics core on concrete worlds.

use voxelphys::collision::detect_next_collision;
use voxelphys::constraints::{find_constraints, ConstraintSet};
use voxelphys::contact::{detect_contacts, Contact};
use voxelphys::fixed::FP_ONE;
use voxelphys::step::{physics_step, Entity};
use voxelphys::terrain::Terrain;
use voxelphys::tile::{Fluid, Material, Tile};
use voxelphys::vectors::Vec3;

fn v3(x: i64, y: i64, z: i64) -> Vec3 {
    Vec3 { x, y, z }
}

fn units(n: i64) -> i64 {
    n * FP_ONE
}

/// A world of air with a full stone floor at z = 0.
fn flat_floor_world() -> Terrain {
    let mut t = Terrain::new(
        v3(-4, -4, -1),
        16,
        16,
        8,
        Tile::empty(Fluid::Air),
        Tile::empty(Fluid::Air),
    );
    for x in -4..12 {
        for y in -4..12 {
            t.set_tile(v3(x, y, 0), Tile::full(Material::Stone));
        }
    }
    t
}

#[test]
fn single_wall_slide() {
    // Velocity (1, 0, -1) against one contact normal (-1, 0, 0)
    // resolves to (0, 0, -1): the tangential component is preserved and
    // the normal component removed.
    let v = v3(units(1), 0, -units(1));
    let contacts = vec![Contact {
        normal: v3(-1, 0, 0),
        material: Material::Stone,
        displacement: 0,
    }];
    let (w, set) = find_constraints(v, &contacts);
    assert_eq!(w, v3(0, 0, -units(1)));
    assert!(matches!(set, ConstraintSet::Single(_)));
}

#[test]
fn corner_lock() {
    // Velocity (1, 1, 0) against the two walls of an inside corner
    // resolves to a full stop.
    let v = v3(units(1), units(1), 0);
    let contacts = vec![
        Contact { normal: v3(-1, 0, 0), material: Material::Stone, displacement: 0 },
        Contact { normal: v3(0, -1, 0), material: Material::Stone, displacement: 0 },
    ];
    let (w, _set) = find_constraints(v, &contacts);
    assert_eq!(w, v3(0, 0, 0));
}

#[test]
fn free_velocity_unchanged() {
    // A velocity moving away from every touched surface is returned
    // unchanged and classified as free.
    let v = v3(units(2), -units(3), units(1));
    let contacts = vec![Contact {
        normal: v3(0, -1, 0),
        material: Material::Grass,
        displacement: 0,
    }];
    let (w, set) = find_constraints(v, &contacts);
    assert_eq!(w, v);
    assert!(matches!(set, ConstraintSet::Free));
}

#[test]
fn wedged_three_walls() {
    // Pressed into three mutually blocking surfaces, the box stops.
    let v = v3(units(1), units(1), -units(1));
    let contacts = vec![
        Contact { normal: v3(-1, 0, 0), material: Material::Stone, displacement: 0 },
        Contact { normal: v3(0, -1, 0), material: Material::Stone, displacement: 0 },
        Contact { normal: v3(0, 0, 1), material: Material::Stone, displacement: 0 },
    ];
    let (w, set) = find_constraints(v, &contacts);
    assert_eq!(w, v3(0, 0, 0));
    assert!(matches!(set, ConstraintSet::Triple));
}

#[test]
fn contact_non_violation_on_slope() {
    // The clipped velocity never moves into any touched surface, here a
    // 45-degree ramp normal and a wall.
    let v = v3(units(3), units(2), -units(5));
    let contacts = vec![
        Contact { normal: v3(0, 0, 1), material: Material::Grass, displacement: 0 },
        Contact { normal: v3(-1, 0, 1), material: Material::Grass, displacement: 0 },
    ];
    let (w, _set) = find_constraints(v, &contacts);
    for c in &contacts {
        let dot = w.x as i128 * c.normal.x as i128 + w.y as i128 * c.normal.y as i128
            + w.z as i128 * c.normal.z as i128;
        assert!(dot >= 0);
    }
}

#[test]
fn slope_floor_single_contact() {
    // A Partial tile with direction (0, 0, -1) and level 0 is a flat
    // floor expressed as a degenerate slope; a box resting on it makes
    // exactly one contact with normal (0, 0, 1) and no displacement.
    let mut t = Terrain::new(
        v3(0, 0, 0),
        4,
        4,
        4,
        Tile::empty(Fluid::Air),
        Tile::empty(Fluid::Air),
    );
    t.set_tile(v3(1, 1, 0), Tile::slope(Material::Grass, v3(0, 0, -1), 0));
    // Box footprint strictly inside tile (1, 1), resting on its top.
    let l = v3(units(1) + FP_ONE / 4, units(1) + FP_ONE / 4, units(1));
    let h = v3(units(2) - FP_ONE / 4, units(2) - FP_ONE / 4, units(2));
    let contacts = detect_contacts(&t, l, h);
    assert_eq!(contacts.len(), 1);
    assert_eq!(contacts[0].normal, v3(0, 0, 1));
    assert_eq!(contacts[0].displacement, 0);
}

#[test]
fn ramp_plane_contact() {
    // A genuine 45-degree ramp: direction (0, 1, 1), level 1 fills the
    // cell below the diagonal plane y + z <= 1.  A box whose near corner
    // rests exactly on the plane touches it with the slope's own normal.
    let mut t = Terrain::new(
        v3(0, 0, 0),
        4,
        4,
        4,
        Tile::empty(Fluid::Air),
        Tile::empty(Fluid::Air),
    );
    t.set_tile(v3(1, 1, 1), Tile::slope(Material::Grass, v3(0, 1, 1), 1));
    // The plane passes through local (x, 0.5, 0.5); rest the box's low
    // corner there: world (anything, 1.5, 1.5).
    let l = v3(units(1) + FP_ONE / 4, units(1) + FP_ONE / 2, units(1) + FP_ONE / 2);
    let h = v3(units(2) - FP_ONE / 4, units(2) + FP_ONE / 2, units(2) + FP_ONE / 2);
    let contacts = detect_contacts(&t, l, h);
    assert!(contacts.iter().any(|c| c.normal == v3(0, 1, 1) && c.displacement == 0));
}

#[test]
fn time_of_impact_toward_wall() {
    // A box moving at 10 units per second toward a wall two units away
    // strikes it at t = 0.2 (rounded down to the raw grid), on the
    // wall's facing side.
    let mut t = Terrain::new(
        v3(0, 0, 0),
        8,
        4,
        4,
        Tile::empty(Fluid::Air),
        Tile::empty(Fluid::Air),
    );
    for y in 0..4 {
        for z in 0..4 {
            t.set_tile(v3(3, y, z), Tile::full(Material::Brick));
        }
    }
    let l = v3(FP_ONE / 2, 0, 0);
    let h = v3(units(1), units(1), units(1));
    let v = v3(units(10), 0, 0);
    let hit = detect_next_collision(&t, l, h, v, FP_ONE).expect("collision expected");
    assert_eq!(hit.dt, 2 * FP_ONE / 10);
    assert_eq!(hit.normal, v3(-1, 0, 0));
    assert_eq!(hit.material, Material::Brick);
}

#[test]
fn no_collision_in_open_air() {
    let t = Terrain::new(
        v3(0, 0, 0),
        8,
        8,
        8,
        Tile::empty(Fluid::Air),
        Tile::empty(Fluid::Air),
    );
    let l = v3(units(2), units(2), units(2));
    let h = v3(units(3), units(3), units(3));
    assert!(detect_next_collision(&t, l, h, v3(units(5), 0, -units(5)), FP_ONE).is_none());
}

#[test]
fn idempotent_rest_on_floor() {
    // An entity at rest exactly on a flat floor, with no input, stays
    // exactly where it is through a step with gravity: the floor contact
    // reflects the gravity impulse away.
    let terrain = flat_floor_world();
    let mut e = Entity::new(v3(units(2) + FP_ONE / 2, units(2) + FP_ONE / 2, units(1)), v3(FP_ONE, FP_ONE, FP_ONE));
    let before = e.position;
    physics_step(&mut e, &terrain, FP_ONE / 64);
    assert_eq!(e.position, before);
    assert_eq!(e.velocity, v3(0, 0, 0));
    // And the state is a fixed point: another step changes nothing.
    physics_step(&mut e, &terrain, FP_ONE / 64);
    assert_eq!(e.position, before);
    assert_eq!(e.velocity, v3(0, 0, 0));
}

#[test]
fn falling_entity_lands_on_floor() {
    // An entity dropped above the floor lands on it and does not sink in.
    let terrain = flat_floor_world();
    let mut e = Entity::new(v3(units(2) + FP_ONE / 2, units(2) + FP_ONE / 2, units(3)), v3(FP_ONE, FP_ONE, FP_ONE));
    for _ in 0..120 {
        physics_step(&mut e, &terrain, FP_ONE / 32);
    }
    // The floor top is at z = 1; the feet must rest at or a hair above it.
    assert!(e.position.z >= units(1) - 110);
    assert!(e.position.z <= units(1) + FP_ONE / 16);
    assert_eq!(e.velocity.z, 0);
}

#[test]
fn no_tunneling_through_thin_wall() {
    // A very fast box swept at a one-voxel wall is stopped at the wall,
    // never carried through it.
    let mut t = Terrain::new(
        v3(0, -4, -4),
        16,
        8,
        8,
        Tile::empty(Fluid::Air),
        Tile::empty(Fluid::Air),
    );
    for y in -4..4 {
        for z in -4..4 {
            t.set_tile(v3(10, y, z), Tile::full(Material::Stone));
        }
    }
    let l = v3(0, -FP_ONE / 2, -FP_ONE / 2);
    let h = v3(units(1), FP_ONE / 2, FP_ONE / 2);
    // 1000 units per second: far more than one wall thickness per step.
    let v = v3(units(1000), 0, 0);
    let hit = detect_next_collision(&t, l, h, v, FP_ONE).expect("the wall must be hit");
    assert_eq!(hit.normal, v3(-1, 0, 0));
    // Time of impact covers 9 units at 1000 units per second.
    assert_eq!(hit.dt, 9 * FP_ONE / 1000);
    // Advancing to the impact leaves the box at the wall face, outside it.
    let reached = h.x as i128 + (v.x as i128 * hit.dt as i128) / FP_ONE as i128;
    assert!(reached <= units(10) as i128);
    assert!(reached >= units(10) as i128 - FP_ONE as i128 / 100);
}

#[test]
fn step_consumes_jump_on_ground() {
    let terrain = flat_floor_world();
    let mut e = Entity::new(v3(units(2) + FP_ONE / 2, units(2) + FP_ONE / 2, units(1)), v3(FP_ONE, FP_ONE, FP_ONE));
    e.jump_input = true;
    physics_step(&mut e, &terrain, FP_ONE / 64);
    assert!(!e.jump_input);
    assert!(e.velocity.z > 0);
    assert!(e.position.z > units(1));
}

#[test]
fn airborne_jump_is_kept_for_later() {
    // With nothing touched, a requested jump is not consumed.
    let terrain = flat_floor_world();
    let mut e = Entity::new(v3(units(2) + FP_ONE / 2, units(2) + FP_ONE / 2, units(3)), v3(FP_ONE, FP_ONE, FP_ONE));
    e.jump_input = true;
    physics_step(&mut e, &terrain, FP_ONE / 64);
    assert!(e.jump_input);
}

#[test]
fn zero_dt_is_a_no_op() {
    let terrain = flat_floor_world();
    let mut e = Entity::new(v3(units(2) + FP_ONE / 2, units(2) + FP_ONE / 2, units(2)), v3(FP_ONE, FP_ONE, FP_ONE));
    e.velocity = v3(units(3), units(2), units(1));
    e.jump_input = true;
    let before_pos = e.position;
    let before_vel = e.velocity;
    physics_step(&mut e, &terrain, 0);
    assert_eq!(e.position, before_pos);
    assert_eq!(e.velocity, before_vel);
    assert!(e.jump_input);
}

#[test]
fn grounded_input_ignores_vertical_intent() {
    // Standing on the floor, the intent's z-component is ignored: the
    // entity cannot fly by pressing up.
    let terrain = flat_floor_world();
    let mut e = Entity::new(v3(units(2) + FP_ONE / 2, units(2) + FP_ONE / 2, units(1)), v3(FP_ONE, FP_ONE, FP_ONE));
    e.movement_input = v3(0, 0, FP_ONE);
    physics_step(&mut e, &terrain, FP_ONE / 64);
    assert_eq!(e.velocity.z, 0);
    assert_eq!(e.position.z, units(1));
}

#[test]
fn missing_terrain_can_be_solid() {
    // The out-of-box policy is explicit: with a full outside tile, a box
    // beyond the stored terrain still finds support.
    let t = Terrain::new(
        v3(0, 0, 0),
        2,
        2,
        2,
        Tile::empty(Fluid::Air),
        Tile::full(Material::Stone),
    );
    let l = v3(units(10) + FP_ONE / 4, units(10) + FP_ONE / 4, units(8));
    let h = v3(units(11) - FP_ONE / 4, units(11) - FP_ONE / 4, units(9));
    let contacts = detect_contacts(&t, l, h);
    assert!(contacts.iter().any(|c| c.normal == v3(0, 0, 1)));
}
