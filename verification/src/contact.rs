//! What touches what: a car and the ball, and a car and a car.

use vstd::prelude::*;
use crate::ball;
use crate::ball::{ball_friction, Ball};
use crate::car;
use crate::car::Car;
use crate::curve;
use crate::curve::curve;
use crate::drive;
use crate::num;
use crate::num::{abs_i32, clamp_i32, min_i32};
use crate::trig::{Angles, Trig};
use crate::tuning::{BALL_R, BALL_SHARE, BUMP_AIR, BUMP_GROUND, BUMP_NOSE, BUMP_UP};
use crate::tuning::{CARBALL_EXTRA_CURVE, CARBALL_FRICTION, CARBALL_MAX_REL, CARBALL_UP_SCALE};
use crate::tuning::{CAR_R, CAR_SHARE};
use crate::vec3;
use crate::vec3::{add_scaled, damp, dot_q12, minus, times, V3};

verus! {

/// Half-diagonal of the car box, in uu, for the broad phase.
pub const CAR_BOUND_R: i32 = 104;
/// Car half width, in sub-units.
pub const BOX_X: i32 = 3712;
/// Car half height, in sub-units.
pub const BOX_Y: i32 = 1664;
/// Car half length, in sub-units.
pub const BOX_Z: i32 = 5248;
/// The part of a touch along the nose that is cut, over 1024.
pub const CARBALL_FWD_CUT: i32 = 358;
/// Two car radii, in sub-units.
pub const CAR_REACH: i32 = 10752;

// ---- a sphere against the car's box ------------------------------------

/// Where a sphere touches an oriented box.
#[derive(Copy, Clone, Debug, PartialEq, Eq, Structural)]
pub struct BoxContact {
    /// Unit normal in Q12, pointing out of the box toward the sphere.
    pub normal: V3,
    /// The touching point on the box surface, world sub-units.
    pub point: V3,
    /// How far past touching the sphere has sunk, sub-units.
    pub penetration: i32,
}

/// A gap short enough on every axis to be worth measuring.
pub open spec fn nearby(d: V3, reach: int) -> bool {
    &&& num::abs(d.x as int) < reach
    &&& num::abs(d.y as int) < reach
    &&& num::abs(d.z as int) < reach
}

/// A car-local offset: how far along the car's right, up and nose.
pub struct Local {
    /// Along its right.
    pub x: int,
    /// Along its up.
    pub y: int,
    /// Along its nose.
    pub z: int,
}

/// A world offset in the car's own frame.
pub open spec fn local_of(d: V3, right: V3, up: V3, fwd: V3) -> Local {
    Local { x: vec3::dot(d, right), y: vec3::dot(d, up), z: vec3::dot(d, fwd) }
}

/// The point of the box nearest to a car-local offset, in the world.
pub open spec fn box_point(p: V3, l: Local, right: V3, up: V3, fwd: V3) -> V3 {
    vec3::added(
        vec3::added(
            vec3::added(p, right, num::clamp(l.x, -BOX_X as int, BOX_X as int)),
            up,
            num::clamp(l.y, -BOX_Y as int, BOX_Y as int),
        ),
        fwd,
        num::clamp(l.z, -BOX_Z as int, BOX_Z as int),
    )
}

/// Depth of a car-local offset under each pair of faces.
pub open spec fn depths(l: Local) -> Local {
    Local { x: BOX_X - num::abs(l.x), y: BOX_Y - num::abs(l.y), z: BOX_Z - num::abs(l.z) }
}

/// `v` turned round where `l` is negative.
pub open spec fn facing(v: V3, l: int) -> V3 {
    if l < 0 {
        vec3::v3(-v.x, -v.y, -v.z)
    } else {
        v
    }
}

/// The nearest face to leave by from inside: its outward normal and its depth.
/// Ties resolve in the order right, up, forward.
pub open spec fn nearest_face(l: Local, right: V3, up: V3, fwd: V3) -> (V3, int) {
    let d = depths(l);
    if d.y < d.x {
        if d.z < d.y {
            (facing(fwd, l.z), d.z)
        } else {
            (facing(up, l.y), d.y)
        }
    } else if d.z < d.x {
        (facing(fwd, l.z), d.z)
    } else {
        (facing(right, l.x), d.x)
    }
}

/// Closest-point contact between a car's oriented box and a sphere of `radius`
/// uu. A sphere centred inside the box leaves by the nearest face.
pub open spec fn box_contact(t: Angles, c: Car, sphere: V3, radius: int) -> Option<BoxContact> {
    let d = vec3::sub3(sphere, c.p);
    let (right, up, fwd) = car::frame(t, c.up, c.yaw);
    let l = local_of(d, right, up, fwd);
    let point = box_point(c.p, l, right, up, fwd);
    let out = vec3::sub3(sphere, point);
    let want = radius * 64;
    if !nearby(d, (radius + CAR_BOUND_R) * 64) || out.square() >= want * want {
        None
    } else if out.square() == 0 {
        let (normal, depth) = nearest_face(l, right, up, fwd);
        Some(BoxContact { normal, point, penetration: (want + depth) as i32 })
    } else {
        Some(
            BoxContact {
                normal: out.unit(),
                point,
                penetration: (want - num::root(out.square())) as i32,
            },
        )
    }
}

/// `v` turned round where `l` is negative.
fn face(v: V3, l: i32) -> (r: V3)
    requires
        v.within(4096),
    ensures
        r == facing(v, l as int),
        r.within(4096),
{
    if l < 0 {
        V3::new(-v.x, -v.y, -v.z)
    } else {
        v
    }
}

proof fn lemma_out_square(out: V3)
    requires
        out.within(26_752),
    ensures
        0 <= out.square() <= i32::MAX,
{
    reveal(V3::square);
    num::lemma_mul_bound(out.x as int, out.x as int, 26_752, 26_752);
    num::lemma_mul_bound(out.y as int, out.y as int, 26_752, 26_752);
    num::lemma_mul_bound(out.z as int, out.z as int, 26_752, 26_752);
    assert(out.x * out.x >= 0 && out.y * out.y >= 0 && out.z * out.z >= 0) by (nonlinear_arith);
}

/// The point of the box nearest to a car-local offset, in the world.
fn point_on_box(p: V3, x: i32, y: i32, z: i32, right: V3, up: V3, fwd: V3) -> (r: V3)
    requires
        p.within(0x800_0000),
        right.within(4096),
        up.within(4096),
        fwd.within(4096),
    ensures
        r == box_point(p, (Local { x: x as int, y: y as int, z: z as int }), right, up, fwd),
        num::abs(r.x - p.x) <= 10624,
        num::abs(r.y - p.y) <= 10624,
        num::abs(r.z - p.z) <= 10624,
{
    let mut point = p;
    add_scaled(&mut point, right, clamp_i32(x, -BOX_X, BOX_X));
    add_scaled(&mut point, up, clamp_i32(y, -BOX_Y, BOX_Y));
    add_scaled(&mut point, fwd, clamp_i32(z, -BOX_Z, BOX_Z));
    point
}

/// Closest-point contact between the car's oriented box and a sphere. A sphere
/// of more than 148 uu could be further from the box than a 32-bit square holds.
pub fn car_box_contact<F: Fn(i32, i32) -> u16>(
    trig: &Trig<F>,
    c: &Car,
    sphere: V3,
    radius: i32,
) -> (r: Option<BoxContact>)
    requires
        trig.wf(),
        c.p.within(0x800_0000),
        c.up.within(4096),
        sphere.within(0x800_0000),
        0 <= radius <= 148,
    ensures
        r == box_contact(trig.model(), *c, sphere, radius as int),
        r matches Some(k) ==> {
            &&& k.normal.within(4096)
            &&& num::abs(k.point.x - c.p.x) <= 10624
            &&& num::abs(k.point.y - c.p.y) <= 10624
            &&& num::abs(k.point.z - c.p.z) <= 10624
        },
{
    let reach: i32 = (radius + CAR_BOUND_R) * 64;
    let d = minus(sphere, c.p);
    if abs_i32(d.x) >= reach || abs_i32(d.y) >= reach || abs_i32(d.z) >= reach {
        return None;
    }
    let (right, up, fwd) = c.basis(trig);
    let x: i32 = dot_q12(d, right);
    let y: i32 = dot_q12(d, up);
    let z: i32 = dot_q12(d, fwd);
    proof {
        vec3::lemma_dot(d, right, 16128);
        vec3::lemma_dot(d, up, 16128);
        vec3::lemma_dot(d, fwd, 16128);
    }
    let point = point_on_box(c.p, x, y, z, right, up, fwd);
    let out = minus(sphere, point);
    proof {
        lemma_out_square(out);
    }
    let want: i32 = radius * 64;
    let dist2: i32 = out.len2();
    assert(0 <= want * want <= 9472 * 9472) by (nonlinear_arith)
        requires
            0 <= want <= 9472,
    ;
    if dist2 >= want * want {
        return None;
    }
    if dist2 == 0 {
        let dx: i32 = BOX_X - abs_i32(x);
        let dy: i32 = BOX_Y - abs_i32(y);
        let dz: i32 = BOX_Z - abs_i32(z);
        let (normal, depth): (V3, i32) = if dy < dx {
            if dz < dy {
                (face(fwd, z), dz)
            } else {
                (face(up, y), dy)
            }
        } else if dz < dx {
            (face(fwd, z), dz)
        } else {
            (face(right, x), dx)
        };
        return Some(BoxContact { normal, point, penetration: want + depth });
    }
    let dist: i32 = out.len();
    Some(BoxContact { normal: out.unit_q12(), point, penetration: want - dist })
}

// ---- a touch -----------------------------------------------------------

/// What a touch hands the ball and takes off the car, as speeds.
pub struct Touch {
    /// Closing speed along the contact normal.
    pub close: int,
    /// Speed the ball gains along it.
    pub ball: int,
    /// Speed the car loses along it.
    pub car: int,
}

/// The rigid half of a touch. Restitution is zero: all it does is cancel the
/// closing speed, and the mass ratio says who moves.
pub open spec fn rigid(close: int) -> Touch {
    Touch {
        close,
        ball: vec3::damped(close, BALL_SHARE as int),
        car: vec3::damped(close, CAR_SHARE as int),
    }
}

/// Where a touch aims the ball: along the line from the car's centre, with its
/// vertical part squashed and the part along the nose cut.
pub open spec fn aim(radial: V3, fwd: V3) -> V3 {
    let flat = vec3::v3(
        radial.x as int,
        vec3::damped(radial.y as int, CARBALL_UP_SCALE as int),
        radial.z as int,
    ).unit();
    let bias = vec3::damped(vec3::dot(flat, fwd), CARBALL_FWD_CUT as int);
    vec3::sub3(flat, vec3::along(fwd, bias)).unit()
}

/// The extra speed a touch is worth along its aim. Fast touches give away less
/// of themselves.
pub open spec fn extra(rel: V3) -> int {
    let speed = num::min(rel.length(), CARBALL_MAX_REL as int);
    vec3::damped(speed, curve::value(CARBALL_EXTRA_CURVE@, speed))
}

/// The ball put clear of the face it touched.
pub open spec fn cleared(b: Ball, k: BoxContact) -> Ball {
    Ball { p: vec3::added(k.point, k.normal, BALL_R * 64), ..b }
}

/// The ball and the car after a touch that closes at `close`, and how hard it
/// was: the rigid contact, the car's grip, then the aimed extra.
pub open spec fn struck(t: Angles, b: Ball, c: Car, n: V3, radial: V3, close: int) -> (Ball, Car, int) {
    let hit = rigid(close);
    let car = Car { v: vec3::added(c.v, n, -hit.car), ..c };
    let rubbed = ball::rubbed(
        Ball { v: vec3::added(b.v, n, hit.ball), ..b },
        n,
        hit.ball,
        CARBALL_FRICTION as int,
        car.v,
    );
    let more = extra(vec3::sub3(b.v, c.v));
    let toward = aim(radial, car::nose(t, c.up, c.yaw));
    (
        Ball { v: vec3::added(rubbed.v, toward, more), grounded: false, ..rubbed },
        car,
        hit.ball + more,
    )
}

/// The ball and the car after they may have touched, and how hard it was.
pub open spec fn touched(t: Angles, b: Ball, c: Car) -> (Ball, Car, int) {
    match box_contact(t, c, b.p, BALL_R as int) {
        Some(k) => {
            let clear = cleared(b, k);
            let vn = vec3::dot(vec3::sub3(b.v, c.v), k.normal);
            if vn >= 0 {
                (clear, c, 0)
            } else {
                struck(t, clear, c, k.normal, vec3::sub3(b.p, c.p).unit(), -vn)
            }
        },
        None => (b, c, 0),
    }
}

/// Where a touch aims the ball.
fn aim_touch(radial: V3, fwd: V3) -> (r: V3)
    requires
        radial.within(4096),
        fwd.within(4096),
    ensures
        r == aim(radial, fwd),
        r.within(4096),
{
    let flat = V3::new(radial.x, damp(radial.y, CARBALL_UP_SCALE), radial.z).unit_q12();
    let bias: i32 = damp(dot_q12(flat, fwd), CARBALL_FWD_CUT);
    proof {
        vec3::lemma_dot(flat, fwd, 4096);
    }
    minus(flat, times(fwd, bias)).unit_q12()
}

/// The extra speed a touch is worth along its aim.
fn extra_speed(rel: V3) -> (r: i32)
    ensures
        r == extra(rel),
        0 <= r <= 4907,
{
    assert(curve::spans(CARBALL_EXTRA_CURVE@, 307, 666));
    let speed: i32 = min_i32(rel.len(), CARBALL_MAX_REL);
    let worth: i32 = curve(&CARBALL_EXTRA_CURVE, speed);
    damp(speed, worth)
}

/// The closing half of a touch.
fn strike<F: Fn(i32, i32) -> u16>(
    trig: &Trig<F>,
    b: &mut Ball,
    c: &mut Car,
    n: V3,
    radial: V3,
    close: i32,
) -> (r: i32)
    requires
        trig.wf(),
        n.within(4096),
        radial.within(4096),
        0 < close <= 7_345_728,
        old(b).v.within(1_400_000),
        old(b).w.within(0x300_0000),
        old(c).v.within(0x10_0000),
        old(c).up.within(4096),
    ensures
        ({
            let s = struck(trig.model(), *old(b), *old(c), n, radial, close as int);
            &&& *final(b) == s.0
            &&& *final(c) == s.1
            &&& r == s.2
        }),
        r >= 0,
{
    let rel = minus(b.v, c.v);
    let more: i32 = extra_speed(rel);
    let given: i32 = damp(close, BALL_SHARE);
    let taken: i32 = damp(close, CAR_SHARE);
    add_scaled(&mut b.v, n, given);
    add_scaled(&mut c.v, n, -taken);
    ball_friction(b, n, given, CARBALL_FRICTION, c.v);
    let (_, _, fwd) = c.basis(trig);
    let toward = aim_touch(radial, fwd);
    proof {
        ball::lemma_rubbed(
            Ball { v: vec3::added(old(b).v, n, given as int), ..*old(b) },
            n,
            given as int,
            2048,
            c.v,
            7_800_000,
            0x300_0000,
            0x20_0000,
        );
    }
    add_scaled(&mut b.v, toward, more);
    b.grounded = false;
    given + more
}

/// Resolve a car against the ball. Returns the impulse delivered, so the caller
/// can sound it.
pub fn collide_car_ball<F: Fn(i32, i32) -> u16>(trig: &Trig<F>, b: &mut Ball, c: &mut Car) -> (r: i32)
    requires
        trig.wf(),
        old(c).in_range(),
        old(b).can_be_touched(),
    ensures
        ({
            let s = touched(trig.model(), *old(b), *old(c));
            &&& *final(b) == s.0
            &&& *final(c) == s.1
            &&& r == s.2
        }),
        r >= 0,
{
    match car_box_contact(trig, c, b.p, BALL_R) {
        Some(k) => {
            let n = k.normal;
            let gap = minus(b.p, c.p);
            let radial = gap.unit_q12();
            b.p = k.point;
            add_scaled(&mut b.p, n, BALL_R * 64);
            let rel = minus(b.v, c.v);
            let vn: i32 = dot_q12(rel, n);
            if vn >= 0 {
                return 0;
            }
            strike(trig, b, c, n, radial, -vn)
        },
        None => 0,
    }
}

// ---- a car against a car -----------------------------------------------

/// The attacker runs into the victim: they overlap, the attacker is closing, and
/// closing faster than the victim is leaving, and the contact is on the
/// attacker's bumper rather than its flank.
pub open spec fn rams(t: Angles, attacker: Car, victim: Car) -> bool {
    let d = vec3::sub3(victim.p, attacker.p);
    let dir = d.unit();
    let closing = vec3::dot(attacker.v, dir);
    &&& nearby(d, CAR_REACH as int)
    &&& 0 < d.length() < CAR_REACH
    &&& closing > 0
    &&& closing > vec3::dot(victim.v, attacker.v.unit())
    &&& (CAR_R * vec3::dot(dir, car::nose(t, attacker.up, attacker.yaw))) / 4096 > BUMP_NOSE
}

/// The velocity a shove hands its victim: along the way the attacker was
/// travelling, and up off the victim's own surface.
pub open spec fn shove(attacker: Car, victim: Car) -> V3 {
    let d = vec3::sub3(victim.p, attacker.p);
    let closing = vec3::dot(attacker.v, d.unit());
    let level = if victim.grounded {
        curve::value(BUMP_GROUND@, closing)
    } else {
        curve::value(BUMP_AIR@, closing)
    };
    let up = if victim.grounded {
        victim.up
    } else {
        drive::world_up()
    };
    vec3::added(
        vec3::added(vec3::zero3(), attacker.v.unit(), level),
        up,
        curve::value(BUMP_UP@, closing),
    )
}

/// What one car does to another by running into it: nothing, or a wreck, or a
/// shove. Which of the two is decided by nothing but the attacker's supersonic
/// state.
pub open spec fn rammed(t: Angles, attacker: Car, victim: Car) -> Option<(bool, V3)> {
    if !rams(t, attacker, victim) {
        None
    } else if attacker.supersonic {
        Some((true, vec3::zero3()))
    } else {
        Some((false, shove(attacker, victim)))
    }
}

/// The velocity a shove hands its victim.
fn shove_of(victim: &Car, line: V3, closing: i32) -> (r: V3)
    requires
        line.within(0x3_0000),
        victim.up.within(4096),
    ensures
        r == vec3::added(
            vec3::added(
                vec3::zero3(),
                line,
                if victim.grounded {
                    curve::value(BUMP_GROUND@, closing as int)
                } else {
                    curve::value(BUMP_AIR@, closing as int)
                },
            ),
            if victim.grounded {
                victim.up
            } else {
                drive::world_up()
            },
            curve::value(BUMP_UP@, closing as int),
        ),
        r.within(200_000),
{
    assert(curve::spans(BUMP_GROUND@, 1, 1632));
    assert(curve::spans(BUMP_AIR@, 1, 2075));
    assert(curve::spans(BUMP_UP@, 1, 445));
    let level: i32 = if victim.grounded {
        curve(&BUMP_GROUND, closing)
    } else {
        curve(&BUMP_AIR, closing)
    };
    let mut push = V3::zero();
    add_scaled(&mut push, line, level);
    let up = if victim.grounded {
        victim.up
    } else {
        V3::new(0, 4096, 0)
    };
    add_scaled(&mut push, up, curve(&BUMP_UP, closing));
    push
}

/// What one car does to another by running into it: `None` if this is not a
/// hit at all, otherwise whether the victim is wrecked and, if not, the
/// velocity the shove hands them.
pub fn car_contact<F: Fn(i32, i32) -> u16>(trig: &Trig<F>, attacker: &Car, victim: &Car) -> (r: Option<
    (bool, V3),
>)
    requires
        trig.wf(),
        attacker.can_clash(),
        victim.can_clash(),
    ensures
        r == rammed(trig.model(), *attacker, *victim),
        r matches Some(hit) ==> hit.1.within(200_000),
{
    let d = minus(victim.p, attacker.p);
    if abs_i32(d.x) >= CAR_REACH || abs_i32(d.y) >= CAR_REACH || abs_i32(d.z) >= CAR_REACH {
        return None;
    }
    let dist: i32 = d.len();
    if dist == 0 || dist >= CAR_REACH {
        return None;
    }
    let dir = d.unit_q12();
    let line = attacker.v.unit_q12();
    let closing: i32 = dot_q12(attacker.v, dir);
    if closing <= 0 || closing <= dot_q12(victim.v, line) {
        return None;
    }
    let (_, _, fwd) = attacker.basis(trig);
    let nose: i32 = dot_q12(dir, fwd);
    proof {
        vec3::lemma_dot(dir, fwd, 4096);
    }
    let forward: i32 = CAR_R * nose;
    assert(forward >> 12 == forward / 4096) by (bit_vector);
    if forward >> 12 <= BUMP_NOSE {
        return None;
    }
    if attacker.supersonic {
        return Some((true, V3::zero()));
    }
    Some((false, shove_of(victim, line, closing)))
}

} // verus!
