//! One tick of one car, from the driver's input to the surface it ends up on.

use vstd::prelude::*;
use crate::air;
use crate::air::{fly_by_stick, hold_jump, jump_again};
use crate::arena;
use crate::arena::confine;
use crate::car;
use crate::car::{turn, yaw_for, Car, Input};
use crate::drive;
use crate::drive::{burn_boost, drive_on_surface, limit_speed, measure, steer_car, Entry};
use crate::num;
use crate::num::{abs_i32, clamp_i32, min_i32, mul_div};
use crate::ramp;
use crate::ramp::car_surface_contact;
use crate::trig::{Angles, Trig};
use crate::tuning::{CAR_REST_Y, GOAL_DEPTH, HALF_X, HALF_Z, SHALLOW_UP, STICK_SPEED, SUPERSONIC_GRACE, SUPERSONIC_KEEP};
use crate::tuning::{SUPERSONIC_SPEED, SUSPENSION_DROOP, SUSPENSION_JOUNCE};
use crate::vec3;
use crate::vec3::{add_scaled, dot_q12, flatten, plus, V3};

verus! {

/// Height of a car's centre when its wheels are on the floor.
pub const CAR_FLOOR: i32 = 1792;
/// The highest a car's centre goes.
pub const CAR_CEILING: i32 = 127_488;
/// Half the width a car's centre has to be inside to drive into a goal.
pub const CAR_MOUTH: i32 = 51_776;
/// Circumference of a front wheel, in sub-units.
pub const WHEEL_ROUND: i32 = 5227;

// ---- motion ------------------------------------------------------------

/// The car moved by its velocity, falling if it is off the ground.
pub open spec fn moved(c: Car, gravity: int) -> Car {
    let v = if c.grounded {
        c.v
    } else {
        vec3::v3(c.v.x as int, c.v.y - gravity, c.v.z as int)
    };
    Car { v, p: vec3::add3(c.p, v), ..c }
}

/// A suspension spring's velocity after one tick toward `target`.
pub open spec fn spring_velocity(position: int, velocity: int, target: int) -> int {
    num::tdiv((velocity + num::tdiv(target - position, 4)) * 3, 4)
}

/// A suspension spring's position after one tick toward `target`.
pub open spec fn spring_position(position: int, velocity: int, target: int) -> int {
    num::clamp(
        position + spring_velocity(position, velocity, target),
        SUSPENSION_DROOP as int,
        SUSPENSION_JOUNCE as int,
    )
}

/// How much of an axle's load a change of speed along the nose shifts.
pub open spec fn weight_transfer(after: int, before: int) -> int {
    num::clamp(
        num::tdiv((after - before) * 256, 12),
        -SUSPENSION_JOUNCE as int,
        SUSPENSION_JOUNCE as int,
    )
}

/// The wheels after one tick. They turn with signed speed along the nose;
/// acceleration loads the rear axle, braking the front, and leaving the surface
/// lets both droop.
pub open spec fn wheeled(c: Car, e: Entry) -> Car {
    let after = vec3::dot(c.v, e.fwd);
    let shift = weight_transfer(after, e.along as int);
    let (front, rear) = if c.grounded {
        (-shift, shift)
    } else {
        (SUSPENSION_DROOP as int, SUSPENSION_DROOP as int)
    };
    let (p, v) = (c.suspension@, c.suspension_velocity@);
    Car {
        wheel_spin: car::turned(c.wheel_spin, -num::tdiv(after * 4096, WHEEL_ROUND as int)),
        suspension: car::axles(
            spring_position(p[0] as int, v[0] as int, front),
            spring_position(p[1] as int, v[1] as int, rear),
        ),
        suspension_velocity: car::axles(
            num::clamp(spring_velocity(p[0] as int, v[0] as int, front), -2048, 2048),
            num::clamp(spring_velocity(p[1] as int, v[1] as int, rear), -2048, 2048),
        ),
        ..c
    }
}

/// The car's countdowns after one tick.
pub open spec fn counted(c: Car) -> Car {
    Car {
        dodge_window: num::max(c.dodge_window - 1, 0) as u8,
        dodge_timer: num::max(c.dodge_timer - 1, 0) as u8,
        bump_cool: num::max(c.bump_cool - 1, 0) as u8,
        ..c
    }
}

/// The car's supersonic state after one tick: started by speed, and kept for a
/// while within reach of it.
pub open spec fn sonic(c: Car) -> Car {
    let quick = c.v.length();
    if quick >= SUPERSONIC_SPEED {
        Car { supersonic: true, sonic_grace: SUPERSONIC_GRACE, ..c }
    } else if c.supersonic && quick >= SUPERSONIC_KEEP && c.sonic_grace > 0 {
        Car { sonic_grace: (c.sonic_grace - 1) as u8, ..c }
    } else {
        Car { supersonic: false, sonic_grace: 0, ..c }
    }
}

/// The car kept above the floor and under the ceiling.
pub open spec fn leveled(c: Car) -> Car {
    let landed = if c.p.y <= CAR_FLOOR {
        car::settled(
            Car {
                p: V3 { y: CAR_FLOOR, ..c.p },
                v: V3 { y: 0, ..c.v },
                grounded: true,
                up: drive::world_up(),
                dodge_window: 0,
                ..c
            },
        )
    } else {
        c
    };
    if landed.p.y > CAR_CEILING {
        Car { p: V3 { y: CAR_CEILING, ..landed.p }, v: V3 { y: 0, ..landed.v }, ..landed }
    } else {
        landed
    }
}

// ---- walls -------------------------------------------------------------

/// A place a car can be at the end of a tick: between the floor and the
/// ceiling, inside the side walls, and no further than the back of a net.
pub open spec fn on_pitch(p: V3) -> bool {
    &&& CAR_FLOOR <= p.y <= CAR_CEILING
    &&& num::abs(p.x as int) <= (HALF_X - CAR_REST_Y) * 64
    &&& num::abs(p.z as int) <= (HALF_Z + GOAL_DEPTH - CAR_REST_Y) * 64
}

/// The car is lined up with a goal mouth.
pub open spec fn in_mouth(p: V3) -> bool {
    num::abs(p.x as int) < CAR_MOUTH
}

/// The car's place in the footprint once the curve has had it.
pub open spec fn car_confined(c: Car) -> arena::Flat {
    let p = ramp::car_on_ramp(c.p, in_mouth(c.p)).0;
    arena::confined(
        p.x as int,
        p.z as int,
        c.v.x as int,
        c.v.z as int,
        CAR_REST_Y as int,
        0,
        in_mouth(c.p),
    )
}

/// The car held inside the arena, before it decides what it is driving on.
pub open spec fn hemmed(c: Car) -> Car {
    let p = ramp::car_on_ramp(c.p, in_mouth(c.p)).0;
    let f = car_confined(c);
    Car { p: vec3::v3(f.x, p.y as int, f.z), v: vec3::v3(f.vx, c.v.y as int, f.vz), ..c }
}

/// The surface the car is up against, if any: the curve, or the flat wall
/// behind it.
pub open spec fn surface_met(c: Car) -> Option<V3> {
    match ramp::car_on_ramp(c.p, in_mouth(c.p)).1 {
        Some(n) => Some(n),
        None => if car_confined(c).normal == vec3::zero3() {
            None
        } else {
            Some(car_confined(c).normal)
        },
    }
}

/// A surface holds the car: it is shallow enough to rest on, or the car is
/// driving fast enough to stick.
pub open spec fn holds(t: Angles, c: Car, n: V3) -> bool {
    n.y >= SHALLOW_UP || num::abs(vec3::dot(c.v, car::nose(t, c.up, c.yaw))) >= STICK_SPEED
}

/// The yaw that carries a car's heading over onto a new surface: along the way
/// it is already travelling.
pub open spec fn carried_yaw(t: Angles, c: Car, n: V3) -> u16 {
    let along = vec3::flattened(c.v, n);
    if vec3::dot(c.up, n) < 4090 && along.length() > 0 {
        car::yaw_along(t, n, along.unit())
    } else {
        c.yaw
    }
}

/// The car driving on the surface with normal `n`: re-based onto it, its jumps
/// back, and its velocity into the surface gone.
pub open spec fn adopted(t: Angles, c: Car, n: V3) -> Car {
    car::settled(
        Car {
            yaw: carried_yaw(t, c, n),
            up: n,
            grounded: true,
            v: vec3::added(c.v, n, -num::min(vec3::dot(c.v, n), 0)),
            ..c
        },
    )
}

/// The car after the walls. Only a car that was attached to a wall falls off
/// one: an airborne car keeps whatever attitude it is in.
pub open spec fn walled(t: Angles, c: Car) -> Car {
    let h = hemmed(c);
    match surface_met(c) {
        Some(n) if holds(t, h, n) => adopted(t, h, n),
        _ => if h.grounded && h.up.y <= 3600 {
            Car { up: drive::world_up(), grounded: h.p.y <= CAR_FLOOR, ..h }
        } else {
            h
        },
    }
}

// ---- the whole tick ----------------------------------------------------

/// The car after its own machinery: steering, boost, engine or air control,
/// jumps, and the speed ceiling.
pub open spec fn powered(t: Angles, c: Car, input: Input) -> Car {
    let e = drive::entry_of(t, c);
    let lit = drive::boosted(drive::steered(c, input, e), input, e);
    let pushed = if lit.grounded {
        drive::driven(lit, input, e)
    } else {
        let flown = air::flown_by_stick(t, lit, input, e);
        if air::second_jump(flown, input) {
            air::jumped_again(t, flown, input)
        } else {
            flown
        }
    };
    air::held(drive::limited(pushed, e), input.jump_held)
}

/// The car after one tick of motion, before it meets a wall.
pub open spec fn coasted(t: Angles, c: Car, input: Input, gravity: int) -> Car {
    let e = drive::entry_of(t, c);
    leveled(sonic(counted(wheeled(moved(powered(t, c, input), gravity), e))))
}

/// The car after one tick.
pub open spec fn car_ticked(t: Angles, c: Car, input: Input, gravity: int) -> Car {
    walled(t, coasted(t, c, input, gravity))
}

/// Run the car's own machinery.
fn power<F: Fn(i32, i32) -> u16>(trig: &Trig<F>, c: &mut Car, input: &Input, e: &Entry)
    requires
        trig.wf(),
        old(c).valid(),
        old(c).in_range(),
        e.sized(),
        *e == drive::entry_of(trig.model(), *old(c)),
    ensures
        *final(c) == powered(trig.model(), *old(c), *input),
        final(c).valid(),
        final(c).p == old(c).p,
        final(c).v.within(8_394_000),
        final(c).up.within(vec3::DIR as int),
{
    steer_car(c, input, e);
    burn_boost(c, input, e);
    if c.grounded {
        drive_on_surface(c, input, e);
    } else {
        fly_by_stick(trig, c, input, e);
        if input.jump_pressed && c.jumps_used == 1 && c.dodge_window > 0 {
            jump_again(trig, c, input);
        }
    }
    limit_speed(c, e);
    hold_jump(c, input.jump_held);
}

/// Move the car by its velocity.
fn advance(c: &mut Car, gravity: i32)
    requires
        old(c).p.within(0x100_0000),
        old(c).v.within(8_394_000),
        -1_000_000 <= gravity <= 1_000_000,
    ensures
        *final(c) == moved(*old(c), gravity as int),
        final(c).p.within(0x200_0000),
        final(c).v.within(9_395_000),
{
    if !c.grounded {
        c.v.y = c.v.y - gravity;
    }
    c.p = plus(c.p, c.v);
}

/// One suspension spring, toward `target`: its new position and velocity.
fn spring(position: i16, velocity: i16, target: i32) -> (r: (i16, i16))
    requires
        -1024 <= target <= 1024,
    ensures
        r.0 == spring_position(position as int, velocity as int, target as int),
        r.1 == num::clamp(
            spring_velocity(position as int, velocity as int, target as int),
            -2048,
            2048,
        ),
{
    let at: i32 = position as i32;
    let pulled: i32 = velocity as i32 + (target - at) / 4;
    let speed: i32 = pulled * 3 / 4;
    (
        clamp_i32(at + speed, SUSPENSION_DROOP, SUSPENSION_JOUNCE) as i16,
        clamp_i32(speed, -2048, 2048) as i16,
    )
}

/// Turn the wheels and settle the springs.
fn roll_wheels(c: &mut Car, e: &Entry)
    requires
        e.sized(),
        old(c).v.within(9_395_000),
    ensures
        *final(c) == wheeled(*old(c), *e),
{
    let after: i32 = dot_q12(c.v, e.fwd);
    proof {
        vec3::lemma_dot(c.v, e.fwd, 9_395_000);
        num::lemma_tdiv_bound(after * 4096, WHEEL_ROUND as int, 28_185_000);
        num::lemma_tdiv_bound((after - e.along) * 256, 12, 0x3800_0000);
    }
    let turns: i32 = mul_div(after, 4096, WHEEL_ROUND);
    let shift: i32 = clamp_i32(
        mul_div(after - e.along, 256, 12),
        -SUSPENSION_JOUNCE,
        SUSPENSION_JOUNCE,
    );
    let (front, rear): (i32, i32) = if c.grounded {
        (-shift, shift)
    } else {
        (SUSPENSION_DROOP, SUSPENSION_DROOP)
    };
    let (p0, v0): (i16, i16) = spring(c.suspension[0], c.suspension_velocity[0], front);
    let (p1, v1): (i16, i16) = spring(c.suspension[1], c.suspension_velocity[1], rear);
    c.wheel_spin = turn(c.wheel_spin, -turns);
    c.suspension = [p0, p1];
    c.suspension_velocity = [v0, v1];
    proof {
        car::lemma_axles(c.suspension);
        car::lemma_axles(c.suspension_velocity);
    }
}

/// Run the car's countdowns and its supersonic state.
fn count_down(c: &mut Car)
    ensures
        *final(c) == sonic(counted(*old(c))),
{
    c.dodge_window = if c.dodge_window > 0 {
        c.dodge_window - 1
    } else {
        0
    };
    c.dodge_timer = if c.dodge_timer > 0 {
        c.dodge_timer - 1
    } else {
        0
    };
    c.bump_cool = if c.bump_cool > 0 {
        c.bump_cool - 1
    } else {
        0
    };
    let quick: i32 = c.v.len();
    if quick >= SUPERSONIC_SPEED {
        c.supersonic = true;
        c.sonic_grace = SUPERSONIC_GRACE;
    } else if c.supersonic && quick >= SUPERSONIC_KEEP && c.sonic_grace > 0 {
        c.sonic_grace = c.sonic_grace - 1;
    } else {
        c.supersonic = false;
        c.sonic_grace = 0;
    }
}

/// Keep the car above the floor and under the ceiling.
fn level(c: &mut Car)
    ensures
        *final(c) == leveled(*old(c)),
        CAR_FLOOR <= final(c).p.y <= CAR_CEILING,
        old(c).valid() ==> final(c).valid(),
{
    if c.p.y <= CAR_FLOOR {
        c.p.y = CAR_FLOOR;
        c.v.y = 0;
        c.grounded = true;
        c.up = V3::new(0, 4096, 0);
        c.clear_jump_state();
        c.dodge_window = 0;
    }
    if c.p.y > CAR_CEILING {
        c.p.y = CAR_CEILING;
        c.v.y = 0;
    }
}

/// Hold the car inside the arena. Returns the surface it is up against.
fn hem_in(c: &mut Car) -> (r: Option<V3>)
    requires
        old(c).p.within(0x200_0000),
        old(c).v.within(9_395_000),
    ensures
        *final(c) == hemmed(*old(c)),
        r == surface_met(*old(c)),
        r matches Some(n) ==> n.within(4096),
        final(c).v.within(37_580_004),
        CAR_FLOOR <= old(c).p.y <= CAR_CEILING ==> on_pitch(final(c).p),
{
    let open = abs_i32(c.p.x) < CAR_MOUTH;
    let curved = car_surface_contact(c, open);
    proof {
        arena::lemma_confined_speed(
            c.p.x as int,
            c.p.z as int,
            c.v.x as int,
            c.v.z as int,
            CAR_REST_Y as int,
            0,
            open,
            9_395_000,
        );
        arena::law_confined_is_inside(
            c.p.x as int,
            c.p.z as int,
            c.v.x as int,
            c.v.z as int,
            CAR_REST_Y as int,
            0,
            open,
        );
    }
    let (px, pz, vx, vz, wall): (i32, i32, i32, i32, V3) = confine(
        c.p.x,
        c.p.z,
        c.v.x,
        c.v.z,
        CAR_REST_Y,
        0,
        open,
    );
    c.p.x = px;
    c.p.z = pz;
    c.v.x = vx;
    c.v.z = vz;
    match curved {
        Some(n) => Some(n),
        None => if wall.x != 0 || wall.y != 0 || wall.z != 0 {
            Some(wall)
        } else {
            None
        },
    }
}

/// Put the car on the surface with normal `n`.
fn adopt<F: Fn(i32, i32) -> u16>(trig: &Trig<F>, c: &mut Car, n: V3)
    requires
        trig.wf(),
        n.within(4096),
        old(c).up.within(vec3::DIR as int),
        old(c).v.within(37_580_004),
    ensures
        *final(c) == adopted(trig.model(), *old(c), n),
        final(c).p == old(c).p,
        old(c).valid() ==> final(c).valid(),
{
    if dot_q12(c.up, n) < 4090 {
        let along = flatten(c.v, n);
        if along.len() > 0 {
            c.yaw = yaw_for(trig, n, along.unit_q12());
        }
    }
    c.up = n;
    c.grounded = true;
    c.clear_jump_state();
    let into: i32 = min_i32(dot_q12(c.v, n), 0);
    add_scaled(&mut c.v, n, -into);
}

/// Meet the walls, and decide what the car is driving on.
fn meet_walls<F: Fn(i32, i32) -> u16>(trig: &Trig<F>, c: &mut Car)
    requires
        trig.wf(),
        old(c).p.within(0x200_0000),
        old(c).v.within(9_395_000),
        old(c).up.within(vec3::DIR as int),
    ensures
        *final(c) == walled(trig.model(), *old(c)),
        CAR_FLOOR <= old(c).p.y <= CAR_CEILING ==> on_pitch(final(c).p),
        old(c).valid() ==> final(c).valid(),
{
    let met = hem_in(c);
    let (_, _, fwd) = c.basis(trig);
    let quick: i32 = abs_i32(dot_q12(c.v, fwd));
    if let Some(n) = met {
        if n.y >= SHALLOW_UP || quick >= STICK_SPEED {
            adopt(trig, c, n);
            return ;
        }
    }
    if c.grounded && c.up.y <= 3600 {
        c.up = V3::new(0, 4096, 0);
        c.grounded = c.p.y <= CAR_FLOOR;
    }
}

/// One tick of one car.
pub fn tick_car<F: Fn(i32, i32) -> u16>(trig: &Trig<F>, c: &mut Car, input: &Input, gravity: i32)
    requires
        trig.wf(),
        old(c).valid(),
        old(c).in_range(),
        -1_000_000 <= gravity <= 1_000_000,
    ensures
        *final(c) == car_ticked(trig.model(), *old(c), *input, gravity as int),
        final(c).valid(),
        on_pitch(final(c).p),
{
    let e = measure(trig, c);
    power(trig, c, input, &e);
    advance(c, gravity);
    roll_wheels(c, &e);
    count_down(c);
    level(c);
    meet_walls(trig, c);
}

} // verus!
