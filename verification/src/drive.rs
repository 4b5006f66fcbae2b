//! Steering, engine and tyres: what a car's own machinery does in one tick.

use vstd::prelude::*;
use crate::car;
use crate::car::{turn, Car, Input};
use crate::curve;
use crate::curve::curve;
use crate::num;
use crate::num::{abs_i32, clamp_i32, max_i32, min_i32, mul_div};
use crate::trig::{Angles, Trig};
use crate::tuning::{ACCEL_DEN, BOOST_DRAIN, BOOST_MIN_TICKS, CAR_ACCEL, CAR_BOOST_ACCEL_AIR_NUM};
use crate::tuning::{CAR_BOOST_ACCEL_NUM, CAR_BOOST_SPEED, CAR_BRAKE, CAR_COAST, CAR_GRIP};
use crate::tuning::{CAR_JUMP_V, CAR_MAX_SPEED, JUMP_SLICES_MIN, LAT_FRICTION, SLIDE_FALL};
use crate::tuning::{SLIDE_LOSS, SLIDE_RISE, SLIDE_STEER_CURVE, SLIP_FLOOR, STEER_CURVE, TORQUE_CURVE};
use crate::vec3;
use crate::vec3::{add_scaled, cap_length, damp, dot_q12, minus, plane_len, scale_down, V3};

verus! {

/// What a tick measures of a car before it changes anything.
#[derive(Copy, Clone, Debug, PartialEq, Eq, Structural)]
pub struct Entry {
    /// The car's right, Q12.
    pub right: V3,
    /// The normal of its surface, Q12.
    pub up: V3,
    /// Its nose, Q12.
    pub fwd: V3,
    /// Speed in the plane of its surface.
    pub speed: i32,
    /// Signed speed along its nose.
    pub along: i32,
}

/// What a tick measures of a car before it changes anything.
pub open spec fn entry_of(t: Angles, c: Car) -> Entry {
    let (right, up, fwd) = car::frame(t, c.up, c.yaw);
    Entry {
        right,
        up,
        fwd,
        speed: vec3::flattened(c.v, up).length() as i32,
        along: vec3::dot(c.v, fwd) as i32,
    }
}

impl Entry {
    /// The measurements of a car whose vectors are in range.
    pub open spec fn sized(self) -> bool {
        &&& self.right.within(4096)
        &&& self.up.within(4096)
        &&& self.fwd.within(4096)
        &&& 0 <= self.speed <= 46340
        &&& -3_145_728 <= self.along <= 3_145_728
    }
}

/// Measure a car.
pub fn measure<F: Fn(i32, i32) -> u16>(trig: &Trig<F>, c: &Car) -> (r: Entry)
    requires
        trig.wf(),
        c.in_range(),
    ensures
        r == entry_of(trig.model(), *c),
        r.sized(),
{
    let (right, up, fwd) = c.basis(trig);
    proof {
        vec3::lemma_dot(c.v, fwd, 0x10_0000);
    }
    Entry { right, up, fwd, speed: plane_len(c.v, up), along: dot_q12(c.v, fwd) }
}

// ---- steering ----------------------------------------------------------

/// How far into a powerslide the car is after this tick.
pub open spec fn slide_next(slide: int, handbrake: bool) -> int {
    if handbrake {
        num::min(slide + SLIDE_RISE, 1024)
    } else {
        num::max(slide - SLIDE_FALL, 0)
    }
}

/// Steering lock at this speed, blended toward the powerslide's.
pub open spec fn steer_lock(speed: int, slide: int) -> int {
    let lock = curve::value(STEER_CURVE@, speed);
    lock + num::tdiv((curve::value(SLIDE_STEER_CURVE@, speed) - lock) * slide, 1024)
}

/// How far a tick turns a grounded car. Reverse steers like a car, not like a
/// tank.
pub open spec fn steer_rate(along: int, steer: int) -> int {
    let rate = num::tdiv(num::abs(along) * steer, 34190);
    if along < 0 {
        -rate
    } else {
        rate
    }
}

/// The car after steering: a bicycle model driven by a steer-angle curve, so
/// the turn rate peaks in the mid range instead of growing with speed.
#[verifier::opaque]
pub open spec fn steered(c: Car, input: Input, e: Entry) -> Car {
    let slide = slide_next(c.slide as int, input.handbrake);
    let want = num::clamp(input.steer as int, -128, 128);
    let steer = num::tdiv(steer_lock(e.speed as int, slide) * want, 128);
    Car {
        slide: slide as i32,
        steer: steer as i32,
        yaw: if c.grounded {
            car::turned(c.yaw, steer_rate(e.along as int, steer))
        } else {
            c.yaw
        },
        ..c
    }
}

/// Steering lock at this speed and slide.
fn lock_at(speed: i32, slide: i32) -> (r: i32)
    requires
        0 <= slide <= 1024,
    ensures
        r == steer_lock(speed as int, slide as int),
        -6000 <= r <= 6000,
{
    assert(curve::spans(STEER_CURVE@, 142, 2431));
    assert(curve::spans(SLIDE_STEER_CURVE@, 519, 1697));
    let lock: i32 = curve(&STEER_CURVE, speed);
    let wide: i32 = curve(&SLIDE_STEER_CURVE, speed);
    proof {
        num::lemma_mul_bound(wide - lock, slide as int, 2000, 1024);
        num::lemma_tdiv_bound((wide - lock) * slide, 1024, 2000);
    }
    lock + mul_div(wide - lock, slide, 1024)
}

/// Steer the car.
pub fn steer_car(c: &mut Car, input: &Input, e: &Entry)
    requires
        e.sized(),
        old(c).valid(),
    ensures
        *final(c) == steered(*old(c), *input, *e),
        final(c).valid(),
        final(c).v == old(c).v,
        final(c).up == old(c).up,
        final(c).p == old(c).p,
        final(c).jump_normal == old(c).jump_normal,
{
    proof {
        reveal(steered);
    }
    let slide: i32 = if input.handbrake {
        min_i32(c.slide + SLIDE_RISE, 1024)
    } else {
        max_i32(c.slide - SLIDE_FALL, 0)
    };
    let want: i32 = clamp_i32(input.steer, -128, 128);
    let lock: i32 = lock_at(e.speed, slide);
    proof {
        num::lemma_mul_bound(lock as int, want as int, 6000, 128);
        num::lemma_tdiv_bound(lock * want, 128, 6000);
    }
    let steer: i32 = mul_div(lock, want, 128);
    c.slide = slide;
    c.steer = steer;
    if c.grounded {
        let size: i32 = abs_i32(e.along);
        proof {
            num::lemma_mul_bound(size as int, steer as int, 3_145_728, 6000);
            num::lemma_tdiv_bound(size * steer, 34190, 600_000);
        }
        let turned: i32 = mul_div(size, steer, 34190);
        let rate: i32 = if e.along < 0 {
            -turned
        } else {
            turned
        };
        c.yaw = turn(c.yaw, rate);
    }
}

// ---- boost -------------------------------------------------------------

/// Boost still owed by the minimum burn, at the start of this tick's burn.
pub open spec fn burn_owed(c: Car, input: Input) -> u8 {
    if input.boost && c.boost >= BOOST_DRAIN && c.boost_ticks == 0 {
        BOOST_MIN_TICKS
    } else {
        c.boost_ticks
    }
}

/// Boost burns this tick: there is a whole tick's worth in the tank, and the
/// button is down or the minimum burn is still running.
pub open spec fn burning(c: Car, input: Input) -> bool {
    c.boost >= BOOST_DRAIN && (input.boost || burn_owed(c, input) > 0)
}

/// The boost remainder with this tick's share added.
pub open spec fn boost_due(c: Car) -> int {
    c.boost_rem + if c.grounded {
        CAR_BOOST_ACCEL_NUM
    } else {
        CAR_BOOST_ACCEL_AIR_NUM
    }
}

/// The car after its boost: fuel spent and speed gained along the nose, or the
/// remainder dropped. Nothing ever refills the tank here.
#[verifier::opaque]
pub open spec fn boosted(c: Car, input: Input, e: Entry) -> Car {
    let owed = burn_owed(c, input);
    let lit = Car {
        boosting: burning(c, input),
        boost_ticks: num::max(owed - 1, 0) as u8,
        ..c
    };
    if burning(c, input) {
        Car {
            boost: (c.boost - BOOST_DRAIN) as i32,
            boost_rem: num::trem(boost_due(c), ACCEL_DEN as int) as i16,
            v: vec3::added(c.v, e.fwd, num::tdiv(boost_due(c), ACCEL_DEN as int)),
            ..lit
        }
    } else {
        Car { boost_rem: 0, ..lit }
    }
}

/// Burn boost.
pub fn burn_boost(c: &mut Car, input: &Input, e: &Entry)
    requires
        e.sized(),
        old(c).valid(),
        old(c).v.within(0x10_0000),
    ensures
        *final(c) == boosted(*old(c), *input, *e),
        final(c).v.within(1_048_640),
        final(c).valid(),
        final(c).up == old(c).up,
        final(c).p == old(c).p,
        final(c).jump_normal == old(c).jump_normal,
{
    proof {
        reveal(boosted);
    }
    let fuelled = c.boost >= BOOST_DRAIN;
    if input.boost && fuelled && c.boost_ticks == 0 {
        c.boost_ticks = BOOST_MIN_TICKS;
    }
    c.boosting = fuelled && (input.boost || c.boost_ticks > 0);
    c.boost_ticks = if c.boost_ticks > 0 {
        c.boost_ticks - 1
    } else {
        0
    };
    if c.boosting {
        c.boost = max_i32(c.boost - BOOST_DRAIN, 0);
        let accel: i32 = if c.grounded {
            CAR_BOOST_ACCEL_NUM
        } else {
            CAR_BOOST_ACCEL_AIR_NUM
        };
        let due: i32 = c.boost_rem as i32 + accel;
        c.boost_rem = (due % ACCEL_DEN) as i16;
        add_scaled(&mut c.v, e.fwd, due / ACCEL_DEN);
    } else {
        c.boost_rem = 0;
    }
}

// ---- engine and tyres --------------------------------------------------

/// Acceleration along the nose for a throttle. Throttle against the direction
/// of travel is a brake first.
pub open spec fn throttle_accel(throttle: int, along: int) -> int {
    let base = if (throttle > 0) == (along >= 0) {
        (CAR_ACCEL * curve::value(TORQUE_CURVE@, num::abs(along))) / 1024
    } else {
        CAR_BRAKE as int
    };
    num::tdiv(base * throttle, 128)
}

/// A grounded car's velocity after the engine: throttle, engine braking as a
/// flat deceleration, or a stop on the floor.
pub open spec fn engine(c: Car, input: Input, e: Entry) -> V3 {
    let throttle = num::clamp(input.throttle as int, -128, 128);
    if throttle != 0 {
        vec3::added(c.v, e.fwd, throttle_accel(throttle, e.along as int))
    } else if e.speed > CAR_COAST {
        vec3::sub3(c.v, vec3::scaled(c.v, CAR_COAST as int, e.speed as int))
    } else if c.up.y > 3600 {
        V3 { x: 0, z: 0, ..c.v }
    } else {
        c.v
    }
}

/// How sideways the car is going, out of 1024.
pub open spec fn slip_share(lateral: int, along: int) -> int {
    let slipping = num::abs(lateral);
    if slipping > SLIP_FLOOR {
        (slipping * 1024) / num::max(slipping + num::abs(along), 1)
    } else {
        0
    }
}

/// The share of the sideways speed the tyres take away. It falls as the car
/// goes sideways, and the handbrake takes nine tenths of what is left.
pub open spec fn tyre_grip(lateral: int, along: int, slide: int) -> int {
    let grip = (CAR_GRIP * curve::value(LAT_FRICTION@, slip_share(lateral, along))) / 1024;
    grip - (((grip * SLIDE_LOSS) / 1024) * slide) / 1024
}

/// A velocity with the tyres' share of its sideways part taken out.
pub open spec fn gripped(v: V3, e: Entry, slide: int) -> V3 {
    let lateral = vec3::dot(v, e.right);
    vec3::added(
        v,
        e.right,
        -vec3::damped(lateral, tyre_grip(lateral, e.along as int, slide)),
    )
}

/// Straight up, Q12.
pub open spec fn world_up() -> V3 {
    V3 { x: 0, y: 4096, z: 0 }
}

/// A car that has just left the surface it was on: pushed off along that
/// surface's normal, with the whole held phase ahead of it.
pub open spec fn jumped(c: Car, e: Entry) -> Car {
    Car {
        v: vec3::added(c.v, e.up, CAR_JUMP_V as int),
        grounded: false,
        jump_normal: e.up,
        up: world_up(),
        jumps_used: 1,
        jump_holding: true,
        jump_slices: 0,
        jump_min_left: JUMP_SLICES_MIN,
        jump_bonus_rem: 0,
        jump_sticky_rem: 0,
        dodge_window: 0,
        ..c
    }
}

/// A grounded car after its engine, its tyres and its first jump.
#[verifier::opaque]
pub open spec fn driven(c: Car, input: Input, e: Entry) -> Car {
    let rolling = Car { v: gripped(engine(c, input, e), e, c.slide as int), ..c };
    if input.jump_pressed {
        jumped(rolling, e)
    } else {
        rolling
    }
}

/// The engine's work on a grounded car.
fn run_engine(c: &mut Car, input: &Input, e: &Entry)
    requires
        e.sized(),
        old(c).v.within(1_048_840),
    ensures
        *final(c) == (Car { v: engine(*old(c), *input, *e), ..*old(c) }),
        final(c).v.within(2_098_000),
{
    let throttle: i32 = clamp_i32(input.throttle, -128, 128);
    if throttle != 0 {
        let base: i32 = if (throttle > 0) == (e.along >= 0) {
            assert(curve::spans(TORQUE_CURVE@, 0, 1024));
            let torque: i32 = CAR_ACCEL * curve(&TORQUE_CURVE, abs_i32(e.along));
            assert(torque >> 10 == torque / 1024) by (bit_vector);
            torque >> 10
        } else {
            CAR_BRAKE
        };
        proof {
            num::lemma_mul_bound(base as int, throttle as int, 62, 128);
            num::lemma_tdiv_bound(base * throttle, 128, 62);
        }
        add_scaled(&mut c.v, e.fwd, mul_div(base, throttle, 128));
    } else if e.speed > CAR_COAST {
        c.v = minus(c.v, scale_down(c.v, CAR_COAST, e.speed));
    } else if c.up.y > 3600 {
        c.v.x = 0;
        c.v.z = 0;
    }
}

/// The share of the sideways speed the tyres take away.
fn grip_at(lateral: i32, along: i32, slide: i32) -> (r: i32)
    requires
        -7_000_000 <= lateral <= 7_000_000,
        -3_145_728 <= along <= 3_145_728,
        0 <= slide <= 1024,
    ensures
        r == tyre_grip(lateral as int, along as int, slide as int),
        0 <= r <= 1024,
{
    let slipping: i32 = abs_i32(lateral);
    let slip: i32 = if slipping > SLIP_FLOOR {
        let whole: i32 = max_i32(slipping + abs_i32(along), 1);
        proof {
            num::lemma_tdiv_bound(slipping * 1024, whole as int, 1024);
        }
        mul_div(slipping, 1024, whole)
    } else {
        0
    };
    assert(curve::spans(LAT_FRICTION@, 205, 1024));
    let scaled: i32 = CAR_GRIP * curve(&LAT_FRICTION, slip);
    assert(scaled >> 10 == scaled / 1024) by (bit_vector);
    let grip: i32 = scaled >> 10;
    let cut: i32 = grip * SLIDE_LOSS / 1024;
    proof {
        assert(0 <= cut * slide <= cut * 1024) by (nonlinear_arith)
            requires
                0 <= cut,
                0 <= slide <= 1024,
        ;
    }
    grip - cut * slide / 1024
}

/// The tyres' work on a grounded car.
fn grip_tyres(c: &mut Car, e: &Entry)
    requires
        e.sized(),
        old(c).v.within(2_098_000),
        0 <= old(c).slide <= 1024,
    ensures
        *final(c) == (Car { v: gripped(old(c).v, *e, old(c).slide as int), ..*old(c) }),
        final(c).v.within(8_392_000),
{
    let lateral: i32 = dot_q12(c.v, e.right);
    let grip: i32 = grip_at(lateral, e.along, c.slide);
    add_scaled(&mut c.v, e.right, -damp(lateral, grip));
}

/// Push off the surface the car is on: jumping from a wall pushes away from the
/// wall. The surface is remembered before `up` is flattened.
fn leave_surface(c: &mut Car, e: &Entry)
    requires
        e.sized(),
        old(c).v.within(8_392_000),
    ensures
        *final(c) == jumped(*old(c), *e),
        final(c).v.within(8_393_000),
{
    add_scaled(&mut c.v, e.up, CAR_JUMP_V);
    c.grounded = false;
    c.jump_normal = e.up;
    c.up = V3::new(0, 4096, 0);
    c.jumps_used = 1;
    c.jump_holding = true;
    c.jump_slices = 0;
    c.jump_min_left = JUMP_SLICES_MIN;
    c.jump_bonus_rem = 0;
    c.jump_sticky_rem = 0;
    c.dodge_window = 0;
}

/// Drive a grounded car: engine, tyres, and the first jump.
pub fn drive_on_surface(c: &mut Car, input: &Input, e: &Entry)
    requires
        e.sized(),
        old(c).v.within(1_048_840),
        old(c).valid(),
    ensures
        *final(c) == driven(*old(c), *input, *e),
        final(c).v.within(8_393_000),
        final(c).valid(),
        final(c).p == old(c).p,
        final(c).up == old(c).up || final(c).up == world_up(),
        final(c).jump_normal == old(c).jump_normal || final(c).jump_normal.within(4096),
{
    proof {
        reveal(driven);
    }
    run_engine(c, input, e);
    grip_tyres(c, e);
    if input.jump_pressed {
        leave_surface(c, e);
    }
}

// ---- the speed ceiling -------------------------------------------------

/// How fast a car may be going: the boost ceiling while boosting, otherwise the
/// throttle ceiling or whatever it came in with.
pub open spec fn speed_limit(c: Car, e: Entry) -> int {
    if c.boosting {
        CAR_BOOST_SPEED as int
    } else {
        num::max(CAR_MAX_SPEED as int, e.speed as int)
    }
}

/// The car with its whole velocity brought under the ceiling.
#[verifier::opaque]
pub open spec fn limited(c: Car, e: Entry) -> Car {
    Car { v: vec3::capped(c.v, speed_limit(c, e)), ..c }
}

/// Bring the whole velocity under the ceiling, not only the part of it lying in
/// the driving surface.
pub fn limit_speed(c: &mut Car, e: &Entry)
    requires
        e.sized(),
        old(c).v.within(9_000_000),
    ensures
        *final(c) == limited(*old(c), *e),
        num::abs(final(c).v.x as int) <= num::abs(old(c).v.x as int),
        num::abs(final(c).v.y as int) <= num::abs(old(c).v.y as int),
        num::abs(final(c).v.z as int) <= num::abs(old(c).v.z as int),
        *final(c) == (Car { v: final(c).v, ..*old(c) }),
{
    proof {
        reveal(limited);
    }
    let limit: i32 = if c.boosting {
        CAR_BOOST_SPEED
    } else {
        max_i32(CAR_MAX_SPEED, e.speed)
    };
    c.v = cap_length(c.v, limit);
}

} // verus!
