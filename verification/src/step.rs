//! The physics step driver: one simulation tick for one entity.
//!
//! A tick applies the input acceleration and gravity, finds the resting
//! contacts, consumes a requested jump along the most floor-like contact
//! normal, and then eats the timestep: clip the velocity against the
//! contact set, sweep for the next collision, advance to it, reflect the
//! inbound velocity component (scaled up by the material's bounciness
//! above the bounce threshold), and repeat on the remaining time.  The
//! loop is capped; a pathological configuration that keeps colliding
//! without consuming time ends the tick with the velocity zeroed rather
//! than stalling the frame.
//!
//! Velocities are clamped componentwise to `VEL_LIMIT` (a terminal
//! velocity) and positions to `POS_LIMIT` (a world border), so a step
//! always hands back an entity the next step accepts.

use vstd::prelude::*;

verus! {

use crate::collision::{detect_next_collision, spec_path_clear};
use crate::constraints::{find_constraints, ConstraintSet};
use crate::contact::{
    detect_contacts, spec_clamp, spec_contact_at, spec_in_scan, spec_scan_lo, spec_scan_hi,
};
use crate::fixed::{
    FP_ONE, MIN_V_BOUNCE, TIME_LIMIT, VEL_LIMIT, div_floor, fx_mul, fx_mul_spec, isqrt,
    lemma_fx_mul_bound, floor_div, lemma_div_bounds,
};
use crate::terrain::Terrain;
use crate::vectors::{lemma_mixed_dot_bound, Vec3};

/// Gravity, in raw units per second squared (9.8, rounded down).
pub const GRAVITY: i64 = 10276044;

/// Upward speed granted by a jump, in raw units per second.
pub const JUMP_IMPULSE: i64 = 5 * 1048576;

/// Largest raw position coordinate a step accepts and returns.
pub const POS_LIMIT: i64 = 0x80_0000_0000;

/// Largest box extent on one axis, in raw units.
pub const SIZE_LIMIT: i64 = 16 * 1048576;

/// Most collision segments one tick will resolve before giving up and
/// zeroing the velocity.
pub const MAX_STEP_ITERATIONS: u64 = 8;

/// Which way an entity's sprite faces.
#[derive(Clone, Copy, Debug, PartialEq, Eq, Structural)]
pub enum FacingDirection {
    Up,
    Down,
    Left,
    Right,
}

/// One simulated box: an axis-aligned body, its motion state, and its
/// per-frame inputs.  The box spans `position - size/2` to
/// `position + size/2` on x and y, and `position` to `position + size`
/// on z.
pub struct Entity {
    /// Raw world position (bottom center of the box).
    pub position: Vec3,
    /// Raw velocity, units per second.
    pub velocity: Vec3,
    /// Raw box extents.
    pub size: Vec3,
    /// Mass, raw units.
    pub mass: i64,
    /// Which way the sprite faces.
    pub direction: FacingDirection,
    /// Top speed on the ground, raw units per second.
    pub ground_speed: i64,
    /// Top speed airborne.
    pub air_speed: i64,
    /// Top speed in water.
    pub water_speed: i64,
    /// Input acceleration on the ground, raw units per second squared.
    pub ground_acceleration: i64,
    /// Input acceleration airborne.
    pub air_acceleration: i64,
    /// Input acceleration in water.
    pub water_acceleration: i64,
    /// Drag coefficient.
    pub air_resistance: i64,
    /// Movement intent from input, a unit-ish raw vector.
    pub movement_input: Vec3,
    /// Whether a jump was requested; cleared when consumed.
    pub jump_input: bool,
    /// Whether the entity is drawn.
    pub show: bool,
}

impl Entity {
    /// The ranges every step preserves: position within the world
    /// border, velocity below terminal, a small box, bounded inputs and
    /// parameters.
    pub open spec fn wf(self) -> bool {
        &&& self.position.bounded(POS_LIMIT as int)
        &&& self.velocity.bounded(VEL_LIMIT as int)
        &&& 0 <= self.size.x <= SIZE_LIMIT
        &&& 0 <= self.size.y <= SIZE_LIMIT
        &&& 0 <= self.size.z <= SIZE_LIMIT
        &&& 0 < self.mass <= 1024 * FP_ONE
        &&& self.movement_input.bounded(4 * FP_ONE as int)
        &&& 0 <= self.ground_acceleration <= 1024 * FP_ONE
        &&& 0 <= self.air_acceleration <= 1024 * FP_ONE
        &&& 0 <= self.water_acceleration <= 1024 * FP_ONE
    }

    /// A fresh entity at a position, with the standard movement
    /// parameters and no motion or input.
    pub fn new(position: Vec3, size: Vec3) -> (r: Entity)
        requires
            position.bounded(POS_LIMIT as int),
            0 <= size.x <= SIZE_LIMIT,
            0 <= size.y <= SIZE_LIMIT,
            0 <= size.z <= SIZE_LIMIT,
        ensures
            r.position == position,
            r.size == size,
            r.velocity == (Vec3 { x: 0, y: 0, z: 0 }),
            r.mass == 70 * FP_ONE,
            !r.jump_input,
            r.wf(),
    {
        Entity {
            position,
            velocity: Vec3 { x: 0, y: 0, z: 0 },
            size,
            mass: 70 * 1048576,
            direction: FacingDirection::Down,
            ground_speed: 5 * 1048576,
            air_speed: 12 * 1048576,
            water_speed: 3 * 1048576,
            ground_acceleration: 60 * 1048576,
            air_acceleration: 4 * 1048576,
            water_acceleration: 25 * 1048576,
            air_resistance: 1048,
            movement_input: Vec3 { x: 0, y: 0, z: 0 },
            jump_input: false,
            show: true,
        }
    }

    /// Where the sprite should face given a movement input: toward the
    /// dominant input axis, unchanged when nothing dominates.
    pub open spec fn spec_facing(mi: Vec3, prev: FacingDirection) -> FacingDirection {
        let ax = if mi.x >= 0 {
            mi.x as int
        } else {
            -mi.x as int
        };
        let ay = if mi.y >= 0 {
            mi.y as int
        } else {
            -mi.y as int
        };
        if mi.y < -ax {
            FacingDirection::Up
        } else if mi.y > ax {
            FacingDirection::Down
        } else if mi.x < -ay {
            FacingDirection::Left
        } else if mi.x > ay {
            FacingDirection::Right
        } else {
            prev
        }
    }

    /// Turn the sprite toward the dominant movement input, if any input
    /// dominates.
    pub fn update_sprite_status(&mut self)
        requires
            old(self).movement_input.bounded(4 * FP_ONE as int),
        ensures
            final(self).direction == Entity::spec_facing(
                old(self).movement_input,
                old(self).direction,
            ),
            *final(self) == (Entity { direction: final(self).direction, ..*old(self) }),
    {
        let ax = if self.movement_input.x >= 0 {
            self.movement_input.x
        } else {
            -self.movement_input.x
        };
        let ay = if self.movement_input.y >= 0 {
            self.movement_input.y
        } else {
            -self.movement_input.y
        };
        if self.movement_input.y < -ax {
            self.direction = FacingDirection::Up;
        } else if self.movement_input.y > ax {
            self.direction = FacingDirection::Down;
        } else if self.movement_input.x < -ay {
            self.direction = FacingDirection::Left;
        } else if self.movement_input.x > ay {
            self.direction = FacingDirection::Right;
        }
    }
}

/// The box's low corner: half the footprint below the position, the
/// feet at the position's height.
pub fn low_corner(position: Vec3, size: Vec3) -> (r: Vec3)
    requires
        position.bounded(POS_LIMIT as int + 0x40_0000_0000),
        0 <= size.x <= SIZE_LIMIT,
        0 <= size.y <= SIZE_LIMIT,
        0 <= size.z <= SIZE_LIMIT,
    ensures
        r.x == position.x - size.x as int / 2,
        r.y == position.y - size.y as int / 2,
        r.z == position.z,
        r.bounded(POS_LIMIT as int + 0x40_0000_0000 + SIZE_LIMIT as int),
{
    proof {
        lemma_div_bounds(size.x as int, 2);
        lemma_div_bounds(size.y as int, 2);
    }
    Vec3 {
        x: position.x - div_floor(size.x, 2),
        y: position.y - div_floor(size.y, 2),
        z: position.z,
    }
}

/// The box's high corner: half the footprint beyond the position, the
/// head a full height above it.
pub fn high_corner(position: Vec3, size: Vec3) -> (r: Vec3)
    requires
        position.bounded(POS_LIMIT as int + 0x40_0000_0000),
        0 <= size.x <= SIZE_LIMIT,
        0 <= size.y <= SIZE_LIMIT,
        0 <= size.z <= SIZE_LIMIT,
    ensures
        r.x == position.x + size.x as int / 2,
        r.y == position.y + size.y as int / 2,
        r.z == position.z + size.z,
        r.bounded(POS_LIMIT as int + 0x40_0000_0000 + SIZE_LIMIT as int),
{
    proof {
        lemma_div_bounds(size.x as int, 2);
        lemma_div_bounds(size.y as int, 2);
    }
    Vec3 {
        x: position.x + div_floor(size.x, 2),
        y: position.y + div_floor(size.y, 2),
        z: position.z + size.z,
    }
}

/// A velocity clamped componentwise to the terminal speed.
fn clamp_velocity(v: Vec3) -> (r: Vec3)
    ensures
        r == spec_clamp_vel(v),
        r.bounded(VEL_LIMIT as int),
        v.bounded(VEL_LIMIT as int) ==> r == v,
{
    Vec3 {
        x: if v.x > VEL_LIMIT {
            VEL_LIMIT
        } else if v.x < -VEL_LIMIT {
            -VEL_LIMIT
        } else {
            v.x
        },
        y: if v.y > VEL_LIMIT {
            VEL_LIMIT
        } else if v.y < -VEL_LIMIT {
            -VEL_LIMIT
        } else {
            v.y
        },
        z: if v.z > VEL_LIMIT {
            VEL_LIMIT
        } else if v.z < -VEL_LIMIT {
            -VEL_LIMIT
        } else {
            v.z
        },
    }
}

/// A position clamped componentwise to the world border.
fn clamp_position(p: Vec3) -> (r: Vec3)
    ensures
        r == spec_clamp_pos(p),
        r.bounded(POS_LIMIT as int),
        p.bounded(POS_LIMIT as int) ==> r == p,
{
    Vec3 {
        x: if p.x > POS_LIMIT {
            POS_LIMIT
        } else if p.x < -POS_LIMIT {
            -POS_LIMIT
        } else {
            p.x
        },
        y: if p.y > POS_LIMIT {
            POS_LIMIT
        } else if p.y < -POS_LIMIT {
            -POS_LIMIT
        } else {
            p.y
        },
        z: if p.z > POS_LIMIT {
            POS_LIMIT
        } else if p.z < -POS_LIMIT {
            -POS_LIMIT
        } else {
            p.z
        },
    }
}

/// One simulation tick: apply input force and gravity, consume a jump
/// against a resting contact, then repeatedly clip the velocity against
/// the touched surfaces, sweep to the next collision and advance, until
/// the timestep is consumed or the iteration cap trips.  A zero step is
/// a no-op; a free path is coasted exactly.
pub fn physics_step(entity: &mut Entity, terrain: &Terrain, dt: i64)
    requires
        old(entity).wf(),
        terrain.wf(),
        0 <= dt <= TIME_LIMIT,
    ensures
        final(entity).wf(),
        final(entity).size == old(entity).size,
        final(entity).mass == old(entity).mass,
        final(entity).movement_input == old(entity).movement_input,
        final(entity).direction == old(entity).direction,
        final(entity).show == old(entity).show,
        final(entity).ground_speed == old(entity).ground_speed,
        final(entity).air_speed == old(entity).air_speed,
        final(entity).water_speed == old(entity).water_speed,
        final(entity).ground_acceleration == old(entity).ground_acceleration,
        final(entity).air_acceleration == old(entity).air_acceleration,
        final(entity).water_acceleration == old(entity).water_acceleration,
        final(entity).air_resistance == old(entity).air_resistance,
        dt == 0 ==> *final(entity) == *old(entity),
        -0x40_0000_0000 <= final(entity).position.x - old(entity).position.x <= 0x40_0000_0000,
        -0x40_0000_0000 <= final(entity).position.y - old(entity).position.y <= 0x40_0000_0000,
        -0x40_0000_0000 <= final(entity).position.z - old(entity).position.z <= 0x40_0000_0000,
        final(entity).jump_input ==> old(entity).jump_input,
        old(entity).jump_input && dt > 0 && spec_touching(
            *terrain,
            spec_low_corner(old(entity).position, old(entity).size),
            spec_high_corner(old(entity).position, old(entity).size),
        ) ==> !final(entity).jump_input,
        old(entity).jump_input && dt > 0 && !spec_touching(
            *terrain,
            spec_low_corner(old(entity).position, old(entity).size),
            spec_high_corner(old(entity).position, old(entity).size),
        ) ==> final(entity).jump_input,
        spec_free_path(*old(entity), *terrain, dt) ==> final(entity).velocity
            == spec_applied_velocity(*old(entity), dt, false) && final(entity).position
            == spec_coasted_position(*old(entity), dt),
{
    if dt == 0 {
        // A zero step is a no-op by the interface contract.
        return ;
    }
    let ghost e0 = *entity;
    let size = entity.size;
    let pos0 = entity.position;
    let mut pos = entity.position;
    let mut l = low_corner(pos, size);
    let mut h = high_corner(pos, size);
    let mut contacts = detect_contacts(terrain, l, h);
    let grounded = contacts.len() > 0;
    proof {
        if grounded {
            assert(crate::contact::spec_scan_yields(*terrain, l, h, contacts@[0]));
            let tp = choose|tp: Vec3|
                spec_in_scan(spec_scan_lo(l), spec_scan_hi(h), tp) && spec_contact_at(
                    *terrain,
                    l,
                    h,
                    tp,
                ) == Some(contacts@[0]);
            assert(spec_contact_at(*terrain, l, h, tp) is Some);
            assert(spec_touching(*terrain, l, h));
        } else {
            if spec_touching(*terrain, l, h) {
                let tp = choose|tp: Vec3|
                    spec_in_scan(spec_scan_lo(l), spec_scan_hi(h), tp) && (#[trigger] spec_contact_at(
                        *terrain,
                        l,
                        h,
                        tp,
                    )) is Some;
                assert(contacts@.contains(spec_contact_at(*terrain, l, h, tp).unwrap()));
                assert(false);
            }
        }
        assert(grounded == spec_touching(*terrain, l, h));
    }
    // The force of one step: movement intent scaled by the ground or air
    // acceleration (the intent's z-component counts only airborne), and
    // gravity, integrated over the step.
    let coeff = if grounded {
        entity.ground_acceleration
    } else {
        entity.air_acceleration
    };
    let miz = if grounded {
        0
    } else {
        entity.movement_input.z
    };
    proof {
        lemma_fx_mul_bound(
            entity.movement_input.x as int,
            coeff as int,
            4 * FP_ONE as int,
            1024 * FP_ONE as int,
        );
        lemma_fx_mul_bound(
            entity.movement_input.y as int,
            coeff as int,
            4 * FP_ONE as int,
            1024 * FP_ONE as int,
        );
        lemma_fx_mul_bound(miz as int, coeff as int, 4 * FP_ONE as int, 1024 * FP_ONE as int);
    }
    let ax = fx_mul(entity.movement_input.x, coeff);
    let ay = fx_mul(entity.movement_input.y, coeff);
    let az = fx_mul(miz, coeff) - GRAVITY;
    proof {
        lemma_fx_mul_bound(ax as int, dt as int, 0x1_0000_0000_0000, TIME_LIMIT as int);
        lemma_fx_mul_bound(ay as int, dt as int, 0x1_0000_0000_0000, TIME_LIMIT as int);
        lemma_fx_mul_bound(az as int, dt as int, 0x1_0000_0000_0000, TIME_LIMIT as int);
    }
    let mut v = clamp_velocity(
        Vec3 {
            x: entity.velocity.x + fx_mul(ax, dt),
            y: entity.velocity.y + fx_mul(ay, dt),
            z: entity.velocity.z + fx_mul(az, dt),
        },
    );
    proof {
        assert((Vec3 { x: ax, y: ay, z: az }) == spec_accel(e0, grounded));
        assert(v == spec_applied_velocity(e0, dt, grounded));
    }
    // A requested jump fires along the most floor-like touched normal.
    if entity.jump_input && contacts.len() > 0 {
        let mut best: usize = 0;
        let mut best_up: i64 = i64::MIN;
        let mut ci: usize = 0;
        while ci < contacts.len()
            invariant
                contacts.len() > 0,
                best < contacts.len(),
                forall|i: int|
                    0 <= i < contacts.len() ==> (#[trigger] contacts@[i]).normal.bounded(127),
            decreases contacts.len() - ci,
        {
            let n = contacts[ci].normal;
            proof {
                lemma_mixed_dot_bound(n, n, 127, 127);
            }
            let nn = n.dot(n);
            if nn > 0 {
                let up = div_floor(n.z * 1048576, nn);
                if up > best_up {
                    best_up = up;
                    best = ci;
                }
            }
            ci = ci + 1;
        }
        let n = contacts[best].normal;
        proof {
            lemma_mixed_dot_bound(n, n, 127, 127);
        }
        let nn = n.dot(n);
        if nn > 0 {
            let q = div_floor(JUMP_IMPULSE, nn);
            proof {
                lemma_div_bounds(JUMP_IMPULSE as int, nn as int);
                assert(-0x4000_0000_0000 <= n.x * q <= 0x4000_0000_0000 && -0x4000_0000_0000 <= n.y
                    * q <= 0x4000_0000_0000 && -0x4000_0000_0000 <= n.z * q
                    <= 0x4000_0000_0000) by (nonlinear_arith)
                    requires
                        -127 <= n.x <= 127,
                        -127 <= n.y <= 127,
                        -127 <= n.z <= 127,
                        0 <= q <= JUMP_IMPULSE,
                        JUMP_IMPULSE == 5242880,
                ;
            }
            v = clamp_velocity(Vec3 { x: v.x + n.x * q, y: v.y + n.y * q, z: v.z + n.z * q });
        }
        entity.jump_input = false;
    }
    // Consume the timestep, collision segment by collision segment.
    let mut dt_remaining = dt;
    let mut iter: u64 = 0;
    let mut finished = false;
    while iter < MAX_STEP_ITERATIONS && !finished
        invariant
            terrain.wf(),
            0 < dt <= TIME_LIMIT,
            0 <= dt_remaining <= dt,
            v.bounded(VEL_LIMIT as int),
            size == e0.size,
            0 <= size.x <= SIZE_LIMIT,
            0 <= size.y <= SIZE_LIMIT,
            0 <= size.z <= SIZE_LIMIT,
            pos.bounded(POS_LIMIT as int + 0x40_0000_0000),
            pos0 == e0.position,
            l == spec_low_corner(pos, size),
            h == spec_high_corner(pos, size),
            forall|i: int|
                0 <= i < contacts.len() ==> (#[trigger] contacts@[i]).normal.bounded(127),
            iter <= MAX_STEP_ITERATIONS,
            -0x4_0000_0000 * iter <= pos.x - pos0.x <= 0x4_0000_0000 * iter,
            -0x4_0000_0000 * iter <= pos.y - pos0.y <= 0x4_0000_0000 * iter,
            -0x4_0000_0000 * iter <= pos.z - pos0.z <= 0x4_0000_0000 * iter,
            pos0.bounded(POS_LIMIT as int),
            spec_free_path(e0, *terrain, dt) && iter == 0 ==> v == spec_applied_velocity(
                e0,
                dt,
                false,
            ) && pos == pos0 && dt_remaining == dt && contacts.len() == 0 && !finished,
            spec_free_path(e0, *terrain, dt) && iter >= 1 ==> finished && v
                == spec_applied_velocity(e0, dt, false) && pos == (Vec3 {
                x: (pos0.x + fx_mul_spec(
                    spec_applied_velocity(e0, dt, false).x as int,
                    dt as int,
                )) as i64,
                y: (pos0.y + fx_mul_spec(
                    spec_applied_velocity(e0, dt, false).y as int,
                    dt as int,
                )) as i64,
                z: (pos0.z + fx_mul_spec(
                    spec_applied_velocity(e0, dt, false).z as int,
                    dt as int,
                )) as i64,
            }),
        decreases MAX_STEP_ITERATIONS - iter,
    {
        let (clipped, cset) = find_constraints(v, &contacts);
        v = clamp_velocity(clipped);
        match detect_next_collision(terrain, l, h, v, dt_remaining) {
            Some(c) => {
                proof {
                    if spec_free_path(e0, *terrain, dt) {
                        // A clear path admits no collision witness.
                        assert(crate::collision::spec_sweep_yields(
                            *terrain,
                            l,
                            h,
                            v,
                            dt_remaining,
                            c,
                        ));
                        let (tp, mt): (Vec3, i64) = choose|tp: Vec3, mt: i64|
                            tp.bounded(crate::contact::TILE_LIMIT as int) && 0 <= mt <= dt_remaining
                                && crate::collision::spec_tile_toi(
                                terrain.spec_tile_at(tp),
                                l,
                                h,
                                v,
                                tp,
                                mt,
                            ) == Some(c);
                        assert(false);
                    }
                    lemma_fx_mul_bound(v.x as int, c.dt as int, VEL_LIMIT as int, TIME_LIMIT as int);
                    lemma_fx_mul_bound(v.y as int, c.dt as int, VEL_LIMIT as int, TIME_LIMIT as int);
                    lemma_fx_mul_bound(v.z as int, c.dt as int, VEL_LIMIT as int, TIME_LIMIT as int);
                }
                if c.dt > 0 {
                    pos = Vec3 {
                        x: pos.x + fx_mul(v.x, c.dt),
                        y: pos.y + fx_mul(v.y, c.dt),
                        z: pos.z + fx_mul(v.z, c.dt),
                    };
                }
                // Remove the inbound component along the struck normal,
                // amplified by the bounciness on a hard impact.
                let n = c.normal;
                proof {
                    lemma_mixed_dot_bound(n, n, 127, 127);
                    lemma_mixed_dot_bound(v, n, VEL_LIMIT as int, 127);
                }
                let nn = n.dot(n);
                if nn > 0 {
                    let q = div_floor(v.dot(n), nn);
                    let props = c.material.get_properties();
                    let factor = if q < -MIN_V_BOUNCE {
                        FP_ONE + props.bounciness
                    } else {
                        FP_ONE
                    };
                    proof {
                        lemma_fx_mul_bound(
                            q as int,
                            factor as int,
                            0x60_0000_0000,
                            2 * FP_ONE as int,
                        );
                    }
                    let k = fx_mul(q, factor);
                    proof {
                        assert(-0x40_0000_0000_0000 <= n.x * k <= 0x40_0000_0000_0000
                            && -0x40_0000_0000_0000 <= n.y * k <= 0x40_0000_0000_0000
                            && -0x40_0000_0000_0000 <= n.z * k
                            <= 0x40_0000_0000_0000) by (nonlinear_arith)
                            requires
                                -127 <= n.x <= 127,
                                -127 <= n.y <= 127,
                                -127 <= n.z <= 127,
                                -0x800_0000_0000 <= k <= 0x800_0000_0000,
                        ;
                    }
                    v = clamp_velocity(
                        Vec3 { x: v.x - n.x * k, y: v.y - n.y * k, z: v.z - n.z * k },
                    );
                }
                dt_remaining = dt_remaining - c.dt;
                l = low_corner(pos, size);
                h = high_corner(pos, size);
                contacts = detect_contacts(terrain, l, h);
            },
            None => {
                // No more collisions this step: apply sliding friction
                // and coast out the remaining time.
                if let ConstraintSet::Single(con) = cset {
                    v = apply_friction(
                        v,
                        con.material_properties.friction_constant,
                        con.material_properties.friction_linear,
                        con.delta_v,
                    );
                }
                proof {
                    lemma_fx_mul_bound(
                        v.x as int,
                        dt_remaining as int,
                        VEL_LIMIT as int,
                        TIME_LIMIT as int,
                    );
                    lemma_fx_mul_bound(
                        v.y as int,
                        dt_remaining as int,
                        VEL_LIMIT as int,
                        TIME_LIMIT as int,
                    );
                    lemma_fx_mul_bound(
                        v.z as int,
                        dt_remaining as int,
                        VEL_LIMIT as int,
                        TIME_LIMIT as int,
                    );
                }
                if dt_remaining > 0 {
                    pos = Vec3 {
                        x: pos.x + fx_mul(v.x, dt_remaining),
                        y: pos.y + fx_mul(v.y, dt_remaining),
                        z: pos.z + fx_mul(v.z, dt_remaining),
                    };
                }
                dt_remaining = 0;
                finished = true;
                l = low_corner(pos, size);
                h = high_corner(pos, size);
            },
        }
        iter = iter + 1;
    }
    if !finished {
        // Cap tripped: zero the residual velocity rather than stall.
        v = Vec3 { x: 0, y: 0, z: 0 };
    }
    entity.position = clamp_position(pos);
    entity.velocity = v;
}

/// A velocity clamped componentwise to the terminal speed.
pub open spec fn spec_clamp_vel(v: Vec3) -> Vec3 {
    Vec3 {
        x: spec_clamp(v.x as int, -VEL_LIMIT as int, VEL_LIMIT as int) as i64,
        y: spec_clamp(v.y as int, -VEL_LIMIT as int, VEL_LIMIT as int) as i64,
        z: spec_clamp(v.z as int, -VEL_LIMIT as int, VEL_LIMIT as int) as i64,
    }
}

/// A position clamped componentwise to the world border.
pub open spec fn spec_clamp_pos(p: Vec3) -> Vec3 {
    Vec3 {
        x: spec_clamp(p.x as int, -POS_LIMIT as int, POS_LIMIT as int) as i64,
        y: spec_clamp(p.y as int, -POS_LIMIT as int, POS_LIMIT as int) as i64,
        z: spec_clamp(p.z as int, -POS_LIMIT as int, POS_LIMIT as int) as i64,
    }
}

/// The acceleration one step applies: the movement intent scaled by the
/// ground or air acceleration constant (the input's z-component counts
/// only airborne), plus gravity.  The intent force scales with mass, so
/// the mass cancels out of the acceleration.
pub open spec fn spec_accel(e: Entity, grounded: bool) -> Vec3 {
    let coeff = if grounded {
        e.ground_acceleration
    } else {
        e.air_acceleration
    };
    let miz: int = if grounded {
        0
    } else {
        e.movement_input.z as int
    };
    Vec3 {
        x: fx_mul_spec(e.movement_input.x as int, coeff as int) as i64,
        y: fx_mul_spec(e.movement_input.y as int, coeff as int) as i64,
        z: (fx_mul_spec(miz, coeff as int) - GRAVITY) as i64,
    }
}

/// The velocity after one step's force application: the acceleration
/// integrated over the step, clamped at the terminal speed.
pub open spec fn spec_applied_velocity(e: Entity, dt: i64, grounded: bool) -> Vec3 {
    let a = spec_accel(e, grounded);
    spec_clamp_vel(
        Vec3 {
            x: (e.velocity.x + fx_mul_spec(a.x as int, dt as int)) as i64,
            y: (e.velocity.y + fx_mul_spec(a.y as int, dt as int)) as i64,
            z: (e.velocity.z + fx_mul_spec(a.z as int, dt as int)) as i64,
        },
    )
}

/// Whether the box with these corners is touching any surface: some
/// tile of the margin-expanded range makes a contact.
pub open spec fn spec_touching(terrain: Terrain, l: Vec3, h: Vec3) -> bool {
    exists|tp: Vec3|
        spec_in_scan(spec_scan_lo(l), spec_scan_hi(h), tp) && (#[trigger] spec_contact_at(
            terrain,
            l,
            h,
            tp,
        )) is Some
}

/// Free motion: the entity touches nothing where it stands, and no tile
/// yields a collision for its post-force velocity anywhere within the
/// step.
pub open spec fn spec_free_path(e: Entity, terrain: Terrain, dt: i64) -> bool {
    let l0 = spec_low_corner(e.position, e.size);
    let h0 = spec_high_corner(e.position, e.size);
    &&& dt > 0
    &&& !spec_touching(terrain, l0, h0)
    &&& spec_path_clear(terrain, l0, h0, spec_applied_velocity(e, dt, false), dt)
}

/// Where free motion ends the step: the position advanced by the
/// applied velocity over the whole step, inside the world border.
pub open spec fn spec_coasted_position(e: Entity, dt: i64) -> Vec3 {
    let va = spec_applied_velocity(e, dt, false);
    spec_clamp_pos(
        Vec3 {
            x: (e.position.x + fx_mul_spec(va.x as int, dt as int)) as i64,
            y: (e.position.y + fx_mul_spec(va.y as int, dt as int)) as i64,
            z: (e.position.z + fx_mul_spec(va.z as int, dt as int)) as i64,
        },
    )
}

/// The box's low corner, as the step loop tracks it.
pub open spec fn spec_low_corner(position: Vec3, size: Vec3) -> Vec3 {
    Vec3 {
        x: (position.x - size.x as int / 2) as i64,
        y: (position.y - size.y as int / 2) as i64,
        z: position.z,
    }
}

/// The box's high corner, as the step loop tracks it.
pub open spec fn spec_high_corner(position: Vec3, size: Vec3) -> Vec3 {
    Vec3 {
        x: (position.x + size.x as int / 2) as i64,
        y: (position.y + size.y as int / 2) as i64,
        z: (position.z + size.z) as i64,
    }
}

/// Slow a sliding velocity by the surface's friction: a constant part
/// and a part linear in the speed, both scaled by the contact's removed
/// velocity.  The direction is kept; speed never drops below zero.
fn apply_friction(v: Vec3, friction_constant: i64, friction_linear: i64, delta_v: i64) -> (r: Vec3)
    requires
        v.bounded(VEL_LIMIT as int),
    ensures
        r.bounded(VEL_LIMIT as int),
{
    let fc = if friction_constant < 0 {
        0
    } else if friction_constant > FP_ONE {
        FP_ONE
    } else {
        friction_constant
    };
    let fl = if friction_linear < 0 {
        0
    } else if friction_linear > FP_ONE {
        FP_ONE
    } else {
        friction_linear
    };
    proof {
        lemma_mixed_dot_bound(v, v, VEL_LIMIT as int, VEL_LIMIT as int);
    }
    let vv = v.dot(v);
    if vv <= 0 {
        return v;
    }
    let speed = isqrt(vv as u64) as i64;
    if speed <= 0 {
        return v;
    }
    proof {
        lemma_fx_mul_bound(fl as int, speed as int, FP_ONE as int, 0x1_0000_0000);
    }
    let slow_rate = fc + fx_mul(fl, speed);
    let dv = if delta_v >= 0 {
        delta_v
    } else {
        0
    };
    let friction_delta = if dv > 0x7fff_ffff {
        speed  // an overwhelming impact stops the slide outright
    } else {
        proof {
            lemma_fx_mul_bound(slow_rate as int, dv as int, 0x2_0000_0000, 0x8000_0000);
        }
        fx_mul(slow_rate, dv)
    };
    let new_speed = speed - friction_delta;
    if new_speed <= 0 {
        return Vec3 { x: 0, y: 0, z: 0 };
    }
    // Rescale each component by new_speed / speed, rounding down.
    proof {
        assert(-0x4000_0000_0000_0000 <= (v.x as int) * (new_speed as int) <= 0x4000_0000_0000_0000
            && -0x4000_0000_0000_0000 <= (v.y as int) * (new_speed as int)
            <= 0x4000_0000_0000_0000 && -0x4000_0000_0000_0000 <= (v.z as int) * (new_speed as int)
            <= 0x4000_0000_0000_0000) by (nonlinear_arith)
            requires
                v.bounded(VEL_LIMIT as int),
                0 < new_speed <= 0x1_0000_0000,
                VEL_LIMIT == 0x4000_0000,
        ;
        lemma_div_bounds(v.x as int * new_speed as int, speed as int);
        lemma_div_bounds(v.y as int * new_speed as int, speed as int);
        lemma_div_bounds(v.z as int * new_speed as int, speed as int);
    }
    let rx: i128 = floor_div((v.x as i128) * (new_speed as i128), speed as i128);
    let ry: i128 = floor_div((v.y as i128) * (new_speed as i128), speed as i128);
    let rz: i128 = floor_div((v.z as i128) * (new_speed as i128), speed as i128);
    clamp_velocity(Vec3 { x: rx as i64, y: ry as i64, z: rz as i64 })
}

} // verus!
