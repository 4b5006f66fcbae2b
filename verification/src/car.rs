//! One car: its state, and the frame it carries.

use vstd::prelude::*;
use crate::num;
use crate::num::{abs_i32, shift12, wide_mul};
use crate::trig::{heading, Angles, Trig};
use crate::tuning::BOOST_MAX;
use crate::vec3;
use crate::vec3::{cross_q12, dot_q12, plus, times, V3};

verus! {

/// The widest velocity component a tick is stepped from. Past it its
/// product with a Q12 direction is more than twice what a machine word holds.
pub const SPEED_LIMIT: i32 = 0x10_0000;
/// The widest position component a tick is stepped from, in sub-units.
pub const FIELD_LIMIT: i32 = 0x80_0000;
/// The widest velocity component two cars meet with.
pub const CLASH_LIMIT: i32 = 0x20_0000;
/// The widest component of a surface normal a tick is stepped from: Q12 one.
pub const UP_LIMIT: i32 = 4096;

/// A car.
#[derive(Copy, Clone, Debug)]
pub struct Car {
    /// Centre position (`CAR_REST_Y` above the floor when parked).
    pub p: V3,
    /// Velocity.
    pub v: V3,
    /// Facing, Q12 angle.
    pub yaw: u16,
    /// Remaining boost, in 1/64 pips.
    pub boost: i32,
    /// True while the wheels are on a surface.
    pub grounded: bool,
    /// True on ticks where boost is actually burning.
    pub boosting: bool,
    /// Front-wheel steering tangent in Q12, signed.
    pub steer: i32,
    /// How far into a powerslide the car is, `0..=1024`.
    pub slide: i32,
    /// Accumulated wheel rotation, Q12 turns. Cosmetic.
    pub wheel_spin: u16,
    /// Front/rear wheel travel in Q8 visual uu. Negative is droop away from
    /// the chassis; positive is compression into it.
    pub suspension: [i16; 2],
    /// Spring velocity paired with [`Car::suspension`], also Q8.
    pub suspension_velocity: [i16; 2],
    /// Jumps spent since leaving the ground.
    pub jumps_used: u8,
    /// Ticks left of the window in which the second jump still counts.
    pub dodge_window: u8,
    /// Ticks left of a flip in progress.
    pub dodge_timer: u8,
    /// Q0.12 direction of the flip in progress, relative to the car's nose.
    pub dodge_dir: u16,
    /// Past 2200 uu/s: this car destroys any opponent it catches with its
    /// bumper.
    pub supersonic: bool,
    /// Ticks left of the grace that keeps the supersonic state alive.
    pub sonic_grace: u8,
    /// Ticks until a wrecked car is back in play; zero while it is playing.
    pub demo_timer: u16,
    /// Ticks until this car can bump another one again.
    pub bump_cool: u8,
    /// Unit normal (Q12) of the surface the car is driving on. Yaw is rotation
    /// about this.
    pub up: V3,
    /// 120 Hz slices of held-jump acceleration already spent.
    pub jump_slices: u8,
    /// Slices of the held phase that run whether or not the button is down.
    pub jump_min_left: u8,
    /// True while the first jump can still be extended by holding.
    pub jump_holding: bool,
    /// Remainder of the held-jump rational.
    pub jump_bonus_rem: i16,
    /// Remainder of the sticky rational.
    pub jump_sticky_rem: i16,
    /// Surface normal the jump left from, Q12.
    pub jump_normal: V3,
    /// Ticks of boost still owed by the minimum burn.
    pub boost_ticks: u8,
    /// Remainder of the boost rational.
    pub boost_rem: i16,
    /// Remainder of the air-throttle rational.
    pub air_throttle_rem: i16,
    /// Air-control pitch rate, Q12 turns a tick.
    pub w_pitch: i16,
    /// Air-control yaw rate, Q12 turns a tick.
    pub w_yaw: i16,
    /// Air-control roll rate, Q12 turns a tick.
    pub w_roll: i16,
}

/// One tick of driver intent. Throttle and steer are `-128..=127` so both a
/// D-pad and an analog stick can drive it.
#[derive(Copy, Clone, Debug)]
pub struct Input {
    /// Forward (+) / reverse (-).
    pub throttle: i32,
    /// Right (+) / left (-).
    pub steer: i32,
    /// Nose down (+) / nose up (-).
    pub pitch: i32,
    /// Hold to burn boost.
    pub boost: bool,
    /// The tick jump went down.
    pub jump_pressed: bool,
    /// Jump held this tick.
    pub jump_held: bool,
    /// Held: turns the steer axis into roll rather than yaw while airborne.
    pub air_roll: bool,
    /// Held: powerslide.
    pub handbrake: bool,
}

/// Hands off.
pub open spec fn no_input() -> Input {
    Input {
        throttle: 0,
        steer: 0,
        pitch: 0,
        boost: false,
        jump_pressed: false,
        jump_held: false,
        air_roll: false,
        handbrake: false,
    }
}

impl Default for Input {
    fn default() -> (r: Self)
        ensures
            r == no_input(),
    {
        Input {
            throttle: 0,
            steer: 0,
            pitch: 0,
            boost: false,
            jump_pressed: false,
            jump_held: false,
            air_roll: false,
            handbrake: false,
        }
    }
}

/// A pair of per-axle values, front then rear.
pub open spec fn axles(front: int, rear: int) -> [i16; 2] {
    choose|a: [i16; 2]| a@[0] == front && a@[1] == rear
}

/// Two axle pairs that agree are the same pair.
pub proof fn lemma_axles(a: [i16; 2])
    ensures
        a == axles(a@[0] as int, a@[1] as int),
{
    let b = axles(a@[0] as int, a@[1] as int);
    assert(a@[0] == a@[0] && a@[1] == a@[1]);
    assert(b@[0] == a@[0] && b@[1] == a@[1]);
    assert(a =~= b);
}

/// An axle pair holds what it was made of.
pub proof fn lemma_axles_hold(front: int, rear: int)
    requires
        i16::MIN <= front <= i16::MAX,
        i16::MIN <= rear <= i16::MAX,
    ensures
        axles(front, rear)@[0] == front,
        axles(front, rear)@[1] == rear,
{
    let blank: [i16; 2] = axles(0, 0);
    let a = vstd::array::spec_array_update(
        vstd::array::spec_array_update(blank, 0, front as i16),
        1,
        rear as i16,
    );
    assert(a@[0] == front && a@[1] == rear);
}

/// A car with nothing set: no position, no orientation, no fuel.
pub open spec fn blank_car() -> Car {
    Car {
        p: vec3::zero3(),
        v: vec3::zero3(),
        yaw: 0,
        boost: 0,
        grounded: false,
        boosting: false,
        steer: 0,
        slide: 0,
        wheel_spin: 0,
        suspension: axles(0, 0),
        suspension_velocity: axles(0, 0),
        jumps_used: 0,
        dodge_window: 0,
        dodge_timer: 0,
        dodge_dir: 0,
        supersonic: false,
        sonic_grace: 0,
        demo_timer: 0,
        bump_cool: 0,
        up: vec3::zero3(),
        jump_slices: 0,
        jump_min_left: 0,
        jump_holding: false,
        jump_bonus_rem: 0,
        jump_sticky_rem: 0,
        jump_normal: vec3::zero3(),
        boost_ticks: 0,
        boost_rem: 0,
        air_throttle_rem: 0,
        w_pitch: 0,
        w_yaw: 0,
        w_roll: 0,
    }
}

impl Default for Car {
    fn default() -> (r: Self)
        ensures
            r == blank_car(),
    {
        let rest: [i16; 2] = [0, 0];
        proof {
            lemma_axles(rest);
        }
        Car {
            p: V3::zero(),
            v: V3::zero(),
            yaw: 0,
            boost: 0,
            grounded: false,
            boosting: false,
            steer: 0,
            slide: 0,
            wheel_spin: 0,
            suspension: rest,
            suspension_velocity: rest,
            jumps_used: 0,
            dodge_window: 0,
            dodge_timer: 0,
            dodge_dir: 0,
            supersonic: false,
            sonic_grace: 0,
            demo_timer: 0,
            bump_cool: 0,
            up: V3::zero(),
            jump_slices: 0,
            jump_min_left: 0,
            jump_holding: false,
            jump_bonus_rem: 0,
            jump_sticky_rem: 0,
            jump_normal: V3::zero(),
            boost_ticks: 0,
            boost_rem: 0,
            air_throttle_rem: 0,
            w_pitch: 0,
            w_yaw: 0,
            w_roll: 0,
        }
    }
}

/// An angle turned by a signed amount, wrapping.
pub open spec fn turned(angle: u16, by: int) -> u16 {
    ((angle + by) % 65536) as u16
}

/// The two in-plane axes for a surface normal, such that yaw 0 points along
/// the second.
pub open spec fn plane_of(up: V3) -> (V3, V3) {
    let seed = if num::abs(up.z as int) < 3600 {
        V3 { x: 0, y: 0, z: 4096 }
    } else {
        V3 { x: 4096, y: 0, z: 0 }
    };
    let a = vec3::cross(up, seed).unit();
    (a, vec3::cross(a, up).unit())
}

/// `a * s + b * c`, all Q12.
#[verifier::opaque]
pub open spec fn blended(a: V3, b: V3, s: int, c: int) -> V3 {
    vec3::v3(
        (a.x * s + b.x * c) / 4096,
        (a.y * s + b.y * c) / 4096,
        (a.z * s + b.z * c) / 4096,
    )
}

/// The nose direction of a car with this normal and yaw.
pub open spec fn nose(t: Angles, up: V3, yaw: u16) -> V3 {
    let (a, b) = plane_of(up);
    blended(a, b, t.sin(yaw), t.cos(yaw)).unit()
}

/// The orientation of a car with this normal and yaw: right, up, forward.
pub open spec fn frame(t: Angles, up: V3, yaw: u16) -> (V3, V3, V3) {
    let forward = nose(t, up, yaw);
    (vec3::cross(up, forward).unit(), up, forward)
}

/// `v` turned about the perpendicular Q12 unit `axis` by a Q0.12 angle.
pub open spec fn spun(t: Angles, v: V3, axis: V3, angle: int) -> V3 {
    let a = (angle % 4096) as u16;
    vec3::add3(vec3::along(v, t.cos(a)), vec3::along(vec3::cross(axis, v), t.sin(a)))
}

/// The yaw that points a nose along `dir` on a surface with normal `up`.
pub open spec fn yaw_along(t: Angles, up: V3, dir: V3) -> u16 {
    let (a, b) = plane_of(up);
    t.atan2(vec3::dot(dir, a), vec3::dot(dir, b))
}

/// The jump machinery at rest.
pub open spec fn settled(c: Car) -> Car {
    Car {
        w_pitch: 0,
        w_yaw: 0,
        w_roll: 0,
        jumps_used: 0,
        jump_slices: 0,
        jump_min_left: 0,
        jump_holding: false,
        jump_bonus_rem: 0,
        jump_sticky_rem: 0,
        jump_normal: vec3::zero3(),
        ..c
    }
}

impl Car {
    /// The parts of a car that every tick keeps in range: the tank, the slide
    /// and the carried remainders.
    pub open spec fn valid(self) -> bool {
        &&& 0 <= self.boost <= BOOST_MAX
        &&& 0 <= self.slide <= 1024
        &&& -1000 <= self.jump_bonus_rem <= 1000
        &&& -1000 <= self.jump_sticky_rem <= 1000
        &&& -1000 <= self.boost_rem <= 1000
        &&& -1000 <= self.air_throttle_rem <= 1000
    }

    /// The car's vectors are small enough for one tick's arithmetic.
    pub open spec fn in_range(self) -> bool {
        &&& self.p.within(FIELD_LIMIT as int)
        &&& self.v.within(SPEED_LIMIT as int)
        &&& self.up.within(UP_LIMIT as int)
        &&& self.jump_normal.within(UP_LIMIT as int)
    }

    /// The car's vectors are small enough for it to meet another car.
    pub open spec fn can_clash(self) -> bool {
        &&& self.p.within(0x1000_0000)
        &&& self.v.within(CLASH_LIMIT as int)
        &&& self.up.within(UP_LIMIT as int)
    }

    /// This car is wrecked and waiting to come back.
    pub open spec fn is_wrecked(self) -> bool {
        self.demo_timer > 0
    }

    /// Whether the parts of the car that every tick keeps are in range.
    pub fn sound(&self) -> (r: bool)
        ensures
            r == self.valid(),
    {
        0 <= self.boost && self.boost <= BOOST_MAX && 0 <= self.slide && self.slide <= 1024
            && -1000 <= self.jump_bonus_rem && self.jump_bonus_rem <= 1000 && -1000
            <= self.jump_sticky_rem && self.jump_sticky_rem <= 1000 && -1000 <= self.boost_rem
            && self.boost_rem <= 1000 && -1000 <= self.air_throttle_rem && self.air_throttle_rem
            <= 1000
    }

    /// Whether the car's state is one a tick can be stepped from.
    pub fn steppable(&self) -> (r: bool)
        ensures
            r == (self.valid() && self.in_range()),
    {
        self.sound() && fits(self.p, FIELD_LIMIT) && fits(self.v, SPEED_LIMIT) && fits(
            self.up,
            UP_LIMIT,
        ) && fits(self.jump_normal, UP_LIMIT)
    }

    /// Whether the car can meet another.
    pub fn clashable(&self) -> (r: bool)
        ensures
            r == self.can_clash(),
    {
        fits(self.p, 0x1000_0000) && fits(self.v, CLASH_LIMIT) && fits(self.up, UP_LIMIT)
    }

    /// Put the jump machinery back to rest. Called wherever a car settles on a
    /// surface, so that the next jump starts with its whole budget and the car
    /// does not land still turning.
    pub fn clear_jump_state(&mut self)
        ensures
            *final(self) == settled(*old(self)),
    {
        self.w_pitch = 0;
        self.w_yaw = 0;
        self.w_roll = 0;
        self.jumps_used = 0;
        self.jump_slices = 0;
        self.jump_min_left = 0;
        self.jump_holding = false;
        self.jump_bonus_rem = 0;
        self.jump_sticky_rem = 0;
        self.jump_normal = V3::zero();
    }

    /// True while this car is wrecked and waiting to come back: it does not
    /// drive, it cannot touch the ball, and nothing can touch it.
    pub fn wrecked(&self) -> (r: bool)
        ensures
            r == self.is_wrecked(),
    {
        self.demo_timer > 0
    }

    /// Nose direction as a Q12 XZ pair. Only meaningful on the floor; the
    /// three-dimensional version is [`Car::basis`].
    pub fn forward<F: Fn(i32, i32) -> u16>(&self, trig: &Trig<F>) -> (r: (i32, i32))
        requires
            trig.wf(),
        ensures
            r.0 == trig.model().sin(self.yaw),
            r.1 == trig.model().cos(self.yaw),
    {
        heading(trig, self.yaw)
    }

    /// The car's full orientation as `(right, up, forward)`, all Q12 unit
    /// vectors. Yaw turns the nose within the surface plane.
    pub fn basis<F: Fn(i32, i32) -> u16>(&self, trig: &Trig<F>) -> (r: (V3, V3, V3))
        requires
            trig.wf(),
            self.up.within(vec3::DIR as int),
        ensures
            r == frame(trig.model(), self.up, self.yaw),
            r.0.within(4096),
            r.1 == self.up,
            r.2.within(4096),
    {
        let up = self.up;
        let (a, b) = plane_axes(up);
        let (s, c): (i32, i32) = heading(trig, self.yaw);
        let forward = blend(a, b, s, c).unit_q12();
        (cross_q12(up, forward).unit_q12(), up, forward)
    }
}

/// Whether no component of `v` is larger than `n` in magnitude.
pub fn fits(v: V3, n: i32) -> (r: bool)
    requires
        0 <= n,
    ensures
        r == v.within(n as int),
{
    -n <= v.x && v.x <= n && -n <= v.y && v.y <= n && -n <= v.z && v.z <= n
}

/// An angle turned by a signed amount, wrapping.
pub fn turn(angle: u16, by: i32) -> (r: u16)
    ensures
        r == turned(angle, by as int),
{
    let step: u16 = #[verifier::truncate] (by as u16);
    assert(by as u16 as i32 == by % 65536) by (bit_vector);
    let sum: u32 = angle as u32 + step as u32;
    let folded: u32 = sum % 65536;
    assert(folded == (angle + by) % 65536);
    folded as u16
}

/// `a * s + b * c`, all Q12.
pub fn blend(a: V3, b: V3, s: i32, c: i32) -> (r: V3)
    requires
        a.within(4096),
        b.within(4096),
        -4096 <= s <= 4096,
        -4096 <= c <= 4096,
    ensures
        r == blended(a, b, s as int, c as int),
        r.within(8192),
{
    proof {
        num::lemma_mul_bound(a.x as int, s as int, 4096, 4096);
        num::lemma_mul_bound(a.y as int, s as int, 4096, 4096);
        num::lemma_mul_bound(a.z as int, s as int, 4096, 4096);
        num::lemma_mul_bound(b.x as int, c as int, 4096, 4096);
        num::lemma_mul_bound(b.y as int, c as int, 4096, 4096);
        num::lemma_mul_bound(b.z as int, c as int, 4096, 4096);
        reveal(blended);
    }
    V3 {
        x: shift12(wide_mul(a.x, s) + wide_mul(b.x, c)),
        y: shift12(wide_mul(a.y, s) + wide_mul(b.y, c)),
        z: shift12(wide_mul(a.z, s) + wide_mul(b.z, c)),
    }
}

/// The two in-plane axes for a surface normal, such that yaw 0 points along
/// `b`. On the floor that is `(+X, +Z)`.
pub fn plane_axes(up: V3) -> (r: (V3, V3))
    requires
        up.within(vec3::DIR as int),
    ensures
        r == plane_of(up),
        r.0.within(4096),
        r.1.within(4096),
{
    // Any vector not parallel to `up` gives a starting tangent.
    let seed = if abs_i32(up.z) < 3600 {
        V3::new(0, 0, 4096)
    } else {
        V3::new(4096, 0, 0)
    };
    let a = cross_q12(up, seed).unit_q12();
    (a, cross_q12(a, up).unit_q12())
}

/// Rotate `v` about the Q12 unit `axis` by a Q0.12 angle.
///
/// Rodrigues, with the parallel term dropped: every use turns a basis vector
/// about another, and those are perpendicular.
pub fn rotate_about<F: Fn(i32, i32) -> u16>(trig: &Trig<F>, v: V3, axis: V3, angle: i32) -> (r: V3)
    requires
        trig.wf(),
        v.within(0x10_0000),
        axis.within(vec3::DIR as int),
    ensures
        r == spun(trig.model(), v, axis, angle as int),
        forall|n: int| #[trigger] v.within(n) ==> r.within(9 * n),
        axis.within(4096) ==> forall|n: int| #[trigger] v.within(n) ==> r.within(3 * n),
{
    assert(angle & 0xFFF == angle % 4096) by (bit_vector);
    let a: u16 = (angle & 0xFFF) as u16;
    let (s, c): (i32, i32) = heading(trig, a);
    let k = cross_q12(axis, v);
    let kept = times(v, c);
    let swung = times(k, s);
    plus(kept, swung)
}

/// The yaw that points a car's nose along `dir` on a surface with normal `up`.
pub fn yaw_for<F: Fn(i32, i32) -> u16>(trig: &Trig<F>, up: V3, dir: V3) -> (r: u16)
    requires
        trig.wf(),
        up.within(vec3::DIR as int),
        dir.within(vec3::WIDE as int),
    ensures
        r == yaw_along(trig.model(), up, dir),
{
    let (a, b) = plane_axes(up);
    trig.atan2_q12(dot_q12(dir, a), dot_q12(dir, b))
}

} // verus!
