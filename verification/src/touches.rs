//! A car against the ball, and a car against a car, told by what each of them
//! gains and loses.

use vstd::prelude::*;
use crate::ball;
use crate::ball::Ball;
use crate::car;
use crate::car::Car;
use crate::contact;
use crate::curve;
use crate::driving;
use crate::num;
use crate::rides;
use crate::surfaces;
use crate::trig::Angles;
use crate::tuning::{BUMP_AIR, BUMP_GROUND, BUMP_UP, CARBALL_EXTRA_CURVE};
use crate::vec3;
use crate::vec3::V3;

verus! {

// ---- one car runs into another -------------------------------------------------

/// A vector of this length up or down the pitch points straight along it.
pub proof fn lemma_straight(d: int)
    requires
        0 < num::abs(d) <= 40_000,
    ensures
        ({
            let v = vec3::v3(0, 0, d);
            &&& v.length() == num::abs(d)
            &&& v.unit() == vec3::v3(0, 0, if d > 0 {
                4096int
            } else {
                -4096int
            })
        }),
{
    let v = vec3::v3(0, 0, d);
    surfaces::lemma_level_length(v);
    let a = num::abs(d);
    reveal(vec3::scaled);
    assert((a * 4096) / a == 4096) by (nonlinear_arith)
        requires
            a > 0,
    ;
    assert(0int / a == 0) by (nonlinear_arith)
        requires
            a > 0,
    ;
    assert(0int * 4096 == 0);
}

/// Straight up or down the pitch, a car rams the one in front of it when it is
/// within reach, runs at it, faster than the other runs away, and meets it with
/// its nose: and then only.
pub proof fn law_a_car_rams_what_is_in_front_of_it(t: Angles, attacker: Car, victim: Car, d: int)
    requires
        attacker.p.within(0x100_0000),
        victim.p == vec3::v3(attacker.p.x as int, attacker.p.y as int, attacker.p.z + d),
        0 < num::abs(d) <= 20_000,
        attacker.v.x == 0 && attacker.v.y == 0 && -3000 <= attacker.v.z <= 3000,
        victim.v.within(3000),
        car::nose(t, attacker.up, attacker.yaw).within(4096),
    ensures
        ({
            let s = num::sign(d);
            let nose = car::nose(t, attacker.up, attacker.yaw);
            contact::rams(t, attacker, victim) <==> {
                &&& num::abs(d) < 10_752
                &&& attacker.v.z * s > 0
                &&& attacker.v.z * s > victim.v.z * s
                &&& nose.z * s >= 3170
            }
        }),
{
    let s = num::sign(d);
    let gap = vec3::sub3(victim.p, attacker.p);
    assert(gap == vec3::v3(0, 0, d));
    lemma_straight(d);
    reveal(vec3::dot);
    let nose = car::nose(t, attacker.up, attacker.yaw);
    let (az, vx, vy, vz) = (
        attacker.v.z as int,
        victim.v.x as int,
        victim.v.y as int,
        victim.v.z as int,
    );
    let (nx, ny, nz) = (nose.x as int, nose.y as int, nose.z as int);
    assert(vx * 0 == 0 && vy * 0 == 0 && 0 * nx == 0 && 0 * ny == 0 && 0int * 0int == 0)
        by (nonlinear_arith);
    lemma_signs(s, az);
    lemma_signs(s, vz);
    lemma_signs(s, nz);
    let dir = gap.unit();
    assert(vec3::dot(attacker.v, dir) == az * s);
    assert(vec3::dot(dir, nose) == nz * s);
    if az != 0 {
        assert(attacker.v == vec3::v3(0, 0, az));
        lemma_straight(az);
        let r = num::sign(az);
        lemma_signs(r, vz);
        assert(vec3::dot(victim.v, attacker.v.unit()) == vz * r);
    }
}

/// A vector straight across the pitch points straight across it.
pub proof fn lemma_straight_across(d: int)
    requires
        0 < num::abs(d) <= 40_000,
    ensures
        ({
            let v = vec3::v3(d, 0, 0);
            &&& v.length() == num::abs(d)
            &&& v.unit() == vec3::v3(if d > 0 {
                4096int
            } else {
                -4096int
            }, 0, 0)
        }),
{
    let v = vec3::v3(d, 0, 0);
    surfaces::lemma_across_length(v);
    let a = num::abs(d);
    reveal(vec3::scaled);
    assert((a * 4096) / a == 4096) by (nonlinear_arith)
        requires
            a > 0,
    ;
    assert(0int / a == 0) by (nonlinear_arith)
        requires
            a > 0,
    ;
    assert(0int * 4096 == 0);
}

/// The same straight across the pitch.
pub proof fn law_a_car_rams_what_is_across_from_it(t: Angles, attacker: Car, victim: Car, d: int)
    requires
        attacker.p.within(0x100_0000),
        victim.p == vec3::v3(attacker.p.x + d, attacker.p.y as int, attacker.p.z as int),
        0 < num::abs(d) <= 20_000,
        attacker.v.z == 0 && attacker.v.y == 0 && -3000 <= attacker.v.x <= 3000,
        victim.v.within(3000),
        car::nose(t, attacker.up, attacker.yaw).within(4096),
    ensures
        ({
            let s = num::sign(d);
            let nose = car::nose(t, attacker.up, attacker.yaw);
            contact::rams(t, attacker, victim) <==> {
                &&& num::abs(d) < 10_752
                &&& attacker.v.x * s > 0
                &&& attacker.v.x * s > victim.v.x * s
                &&& nose.x * s >= 3170
            }
        }),
{
    let s = num::sign(d);
    let gap = vec3::sub3(victim.p, attacker.p);
    assert(gap == vec3::v3(d, 0, 0));
    lemma_straight_across(d);
    reveal(vec3::dot);
    let nose = car::nose(t, attacker.up, attacker.yaw);
    let (ax, vx, vy, vz) = (
        attacker.v.x as int,
        victim.v.x as int,
        victim.v.y as int,
        victim.v.z as int,
    );
    let (nx, ny, nz) = (nose.x as int, nose.y as int, nose.z as int);
    assert(vz * 0 == 0 && vy * 0 == 0 && 0 * nz == 0 && 0 * ny == 0 && 0int * 0int == 0)
        by (nonlinear_arith);
    lemma_signs(s, ax);
    lemma_signs(s, vx);
    lemma_signs(s, nx);
    let dir = gap.unit();
    assert(vec3::dot(attacker.v, dir) == ax * s);
    assert(vec3::dot(dir, nose) == nx * s);
    if ax != 0 {
        assert(attacker.v == vec3::v3(ax, 0, 0));
        lemma_straight_across(ax);
        let r = num::sign(ax);
        lemma_signs(r, vx);
        assert(vec3::dot(victim.v, attacker.v.unit()) == vx * r);
    }
}

proof fn lemma_signs(s: int, v: int)
    ensures
        s == 1 ==> v * s == v && v * (4096 * s) == 4096 * v && (4096 * s) * v == 4096 * v,
        s == -1 ==> v * s == -v && v * (4096 * s) == -4096 * v && (4096 * s) * v == -4096 * v,
        v * 4096 == 4096 * v,
        v * (-4096) == -4096 * v,
        4096 * v == v * 4096,
        (-4096) * v == -4096 * v,
{
    assert(s == 1 ==> v * s == v && v * (4096 * s) == 4096 * v && (4096 * s) * v == 4096 * v)
        by (nonlinear_arith);
    assert(s == -1 ==> v * s == -v && v * (4096 * s) == -4096 * v && (4096 * s) * v == -4096 * v)
        by (nonlinear_arith);
}

/// A shove goes the way the rammer was going, and up. The faster the two close the
/// harder it is: 1632 along and 445 up at 2347, or 2075 along where the victim is
/// already in the air.
pub proof fn law_a_shove_goes_the_rammers_way(attacker: Car, victim: Car, d: int)
    requires
        attacker.p.within(0x100_0000),
        victim.p == vec3::v3(attacker.p.x as int, attacker.p.y as int, attacker.p.z + d),
        0 < num::abs(d) <= 20_000,
        attacker.v.x == 0 && attacker.v.y == 0 && -3000 <= attacker.v.z <= 3000,
        attacker.v.z * num::sign(d) > 0,
        victim.up == (V3 { x: 0, y: 4096, z: 0 }),
    ensures
        ({
            let s = num::sign(d);
            let push = contact::shove(attacker, victim);
            let closing = attacker.v.z * s;
            &&& push.x == 0
            &&& push.z * s > 0
            &&& push.y > 0
            &&& victim.grounded ==> push.z * s <= 1632
            &&& push.z * s <= 2075
            &&& push.y <= 445
            &&& closing > 2347 && victim.grounded ==> push.z * s == 1632
            &&& closing > 2347 && !victim.grounded ==> push.z * s == 2075
            &&& closing > 2347 ==> push.y == 445
        }),
{
    let s = num::sign(d);
    let az = attacker.v.z as int;
    let gap = vec3::sub3(victim.p, attacker.p);
    assert(gap == vec3::v3(0, 0, d));
    lemma_signs(s, az);
    lemma_straight(d);
    lemma_straight(az);
    assert(attacker.v == vec3::v3(0, 0, az));
    reveal(vec3::dot);
    assert(0int * 0int == 0);
    let closing = vec3::dot(attacker.v, gap.unit());
    assert(closing == az * s);
    curve::law_value_stays_in_range(BUMP_GROUND@, closing, 1, 1632);
    curve::law_value_stays_in_range(BUMP_AIR@, closing, 1, 2075);
    curve::law_value_stays_in_range(BUMP_UP@, closing, 1, 445);
    reveal_with_fuel(curve::value_from, 4);
    let level = if victim.grounded {
        curve::value(BUMP_GROUND@, closing)
    } else {
        curve::value(BUMP_AIR@, closing)
    };
    let up = curve::value(BUMP_UP@, closing);
    reveal(vec3::along);
    lemma_signs(s, level);
    lemma_signs(1, up);
    assert(0 * level == 0 && 0 * up == 0) by (nonlinear_arith);
    let push = contact::shove(attacker, victim);
    assert(push.z == level * s && push.y == up && push.x == 0);
    lemma_signs(s, push.z as int);
}

// ---- a car and the ball ----------------------------------------------------------

/// A touch is shared: of the speed the two close at the car loses 146 in 1024 along
/// the normal, and the blow is worth at least the ball's 878 in 1024. A ball that
/// is going away from the car is moved clear of it and otherwise left alone, and
/// one that is clear of it is not touched at all.
pub proof fn law_a_touch_is_shared(t: Angles, b: Ball, c: Car)
    requires
        b.v.within(20_000),
        c.v.within(20_000),
    ensures
        ({
            let (ball, car, hit) = contact::touched(t, b, c);
            match contact::box_contact(t, c, b.p, 91) {
                None => ball == b && car == c && hit == 0,
                Some(k) => k.normal.within(4096) ==> {
                    let closing = -vec3::dot(vec3::sub3(b.v, c.v), k.normal);
                    &&& closing <= 0 ==> ball.v == b.v && ball.w == b.w && car == c && hit == 0
                    &&& closing > 0 ==> {
                        &&& driving::pushed(c.v, car.v, k.normal, -((closing * 146) / 1024))
                        &&& 1024 * hit >= 878 * closing - 1023
                        &&& !ball.grounded
                        &&& car == (Car { v: car.v, ..c })
                    }
                },
            }
        }),
{
    if let Some(k) = contact::box_contact(t, c, b.p, 91) {
        if k.normal.within(4096) {
            let rel = vec3::sub3(b.v, c.v);
            vec3::lemma_dot(rel, k.normal, 40_000);
            let closing = -vec3::dot(rel, k.normal);
            reveal(vec3::damped);
            driving::lemma_pushed(c.v, k.normal, -((closing * 146) / 1024));
            lemma_extra(rel);
        }
    }
}

/// The extra a touch gives the ball: under two thirds of the speed the two meet at,
/// and 666 in 1024 of it up to 533.
proof fn lemma_extra(rel: V3)
    ensures
        0 <= contact::extra(rel),
        rel.within(40_000) && rel.x == 0 && rel.y == 0 && rel.z != 0 ==> {
            let speed = num::abs(rel.z as int);
            &&& contact::extra(rel) <= (666 * speed) / 1024
            &&& 0 < speed <= 532 ==> contact::extra(rel) == (666 * speed) / 1024
            &&& speed <= 4907 ==> 1024 * contact::extra(rel) >= 307 * speed - 1023
        },
{
    reveal(vec3::damped);
    let kept = num::min(rel.square(), i32::MAX as int);
    assert(kept >= 0) by {
        reveal(V3::square);
        let (x, y, z) = (rel.x as int, rel.y as int, rel.z as int);
        assert(x * x >= 0 && y * y >= 0 && z * z >= 0) by (nonlinear_arith);
    }
    vec3::lemma_root_exists(kept);
    let speed = num::min(rel.length(), 4907);
    curve::law_value_stays_in_range(CARBALL_EXTRA_CURVE@, speed, 307, 666);
    let share = curve::value(CARBALL_EXTRA_CURVE@, speed);
    let p = speed * share;
    assert(0 <= p <= 666 * speed && p >= 307 * speed) by (nonlinear_arith)
        requires
            p == speed * share,
            0 <= speed,
            307 <= share <= 666,
    ;
    if rel.within(40_000) && rel.x == 0 && rel.y == 0 && rel.z != 0 {
        surfaces::lemma_level_length(rel);
        if num::abs(rel.z as int) <= 532 {
            reveal_with_fuel(curve::value_from, 3);
            let q = (666 - 666) * (speed - 0);
            assert(q == 0);
            assert(share == 666);
            assert(p == 666 * speed) by (nonlinear_arith)
                requires
                    p == speed * share,
                    share == 666,
            ;
        }
    }
}

/// The extra goes to the side the ball is on: to the right for a ball to the right
/// of the car, to the left for one to the left, up for one above it.
pub proof fn law_the_extra_goes_to_the_balls_side(radial: V3)
    requires
        radial.within(4096),
    ensures
        ({
            let toward = contact::aim(radial, V3 { x: 0, y: 0, z: 4096 });
            &&& surfaces::same_way(toward.x as int, radial.x as int)
            &&& radial.y >= 0 ==> toward.y >= 0
            &&& radial.y <= 0 ==> toward.y <= 0
            &&& surfaces::same_way(toward.z as int, radial.z as int)
        }),
{
    let north = V3 { x: 0, y: 0, z: 4096 };
    reveal(vec3::damped);
    let low = vec3::damped(radial.y as int, 358);
    let d = vec3::v3(radial.x as int, low, radial.z as int);
    assert(d.within(4096));
    lemma_small_square(d);
    lemma_unit_way(d);
    let flat = d.unit();
    assert(flat.within(4096)) by {
        lemma_unit_within(d);
    }
    let ahead = vec3::dot(flat, north);
    assert(ahead == flat.z) by {
        reveal(vec3::dot);
        let (x, y, z) = (flat.x as int, flat.y as int, flat.z as int);
        assert(x * 0 == 0 && y * 0 == 0 && z * 4096 == 4096 * z) by (nonlinear_arith);
    }
    let bias = vec3::damped(ahead, 358);
    let cut = vec3::along(north, bias);
    assert(cut == vec3::v3(0, 0, bias)) by {
        reveal(vec3::along);
        assert(-4096 <= bias <= 4096);
        assert(0 * bias == 0) by (nonlinear_arith);
        assert(north.z * bias == 4096 * bias) by (nonlinear_arith)
            requires
                north.z == 4096,
        ;
    }
    let rest = vec3::sub3(flat, cut);
    assert(rest.within(4096));
    lemma_small_square(rest);
    lemma_unit_way(rest);
}

proof fn lemma_small_square(v: V3)
    requires
        v.within(4096),
    ensures
        v.square() <= i32::MAX,
{
    reveal(V3::square);
    num::lemma_mul_bound(v.x as int, v.x as int, 4096, 4096);
    num::lemma_mul_bound(v.y as int, v.y as int, 4096, 4096);
    num::lemma_mul_bound(v.z as int, v.z as int, 4096, 4096);
}

proof fn lemma_unit_within(v: V3)
    requires
        v.square() <= i32::MAX,
    ensures
        v.unit().within(4096),
{
    reveal(vec3::scaled);
    vec3::lemma_length_covers(v);
    let len = num::max(v.length(), 1);
    num::lemma_tdiv_bound(v.x * 4096, len, 4096);
    num::lemma_tdiv_bound(v.y * 4096, len, 4096);
    num::lemma_tdiv_bound(v.z * 4096, len, 4096);
}

/// The car is level and faces straight up the pitch.
pub open spec fn faces_up_the_pitch(t: Angles, c: Car) -> bool {
    &&& c.up == (V3 { x: 0, y: 4096, z: 0 })
    &&& t.sin(c.yaw) == 0 && t.cos(c.yaw) == 4096
    &&& c.p.within(0x100_0000)
}

/// The nearest point of a car's box to something this far from its middle.
pub open spec fn held_in_box(d: V3) -> V3 {
    vec3::v3(
        num::clamp(d.x as int, -3712, 3712),
        num::clamp(d.y as int, -1664, 1664),
        num::clamp(d.z as int, -5248, 5248),
    )
}

/// The ball touches a car when the nearest point of its box, 3712 to either side,
/// 1664 up and down and 5248 to the nose and the tail, is nearer than the ball's
/// radius, and the normal points from that point to the ball.
pub proof fn law_the_ball_touches_the_box(t: Angles, c: Car, d: V3)
    requires
        faces_up_the_pitch(t, c),
        d.within(12_000),
    ensures
        ({
            let q = held_in_box(d);
            let out = vec3::sub3(d, q);
            let gap = out.x * out.x + out.y * out.y + out.z * out.z;
            let k = contact::box_contact(t, c, vec3::add3(c.p, d), 91);
            &&& k is Some <==> gap < 5824 * 5824
            &&& k matches Some(k) ==> {
                &&& k.point == vec3::add3(c.p, q)
                &&& gap > 0 ==> {
                    &&& surfaces::same_way(k.normal.x as int, out.x as int)
                    &&& surfaces::same_way(k.normal.y as int, out.y as int)
                    &&& surfaces::same_way(k.normal.z as int, out.z as int)
                }
            }
        }),
{
    let sphere = vec3::add3(c.p, d);
    let q = held_in_box(d);
    let out = vec3::sub3(d, q);
    rides::lemma_level_frame(t, c.up, c.yaw);
    assert(vec3::sub3(sphere, c.p) == d);
    let (right, up, fwd) = car::frame(t, c.up, c.yaw);
    lemma_level_local(d);
    let l = contact::local_of(d, right, up, fwd);
    lemma_level_point(c.p, d);
    let point = contact::box_point(c.p, l, right, up, fwd);
    assert(point == vec3::add3(c.p, q));
    assert(vec3::sub3(sphere, point) == out);
    reveal(V3::square);
    let (x, y, z) = (out.x as int, out.y as int, out.z as int);
    assert(x * x >= 0 && y * y >= 0 && z * z >= 0) by (nonlinear_arith);
    if out.square() < 5824 * 5824 {
        assert(-5824 < x < 5824 && -5824 < y < 5824 && -5824 < z < 5824) by (nonlinear_arith)
            requires
                x * x + y * y + z * z < 5824 * 5824,
                x * x >= 0,
                y * y >= 0,
                z * z >= 0,
        ;
        vec3::lemma_root_exists(out.square());
        vec3::lemma_length_covers(out);
        lemma_unit_way(out);
    }
}

/// A ball whose middle is inside the box is pushed out through the face it is
/// nearest to: the roof or the floor, a side, or the nose or the tail.
pub proof fn law_a_ball_inside_the_box_leaves_by_the_nearest_face(t: Angles, c: Car, d: V3)
    requires
        faces_up_the_pitch(t, c),
        -3712 <= d.x <= 3712,
        -1664 <= d.y <= 1664,
        -5248 <= d.z <= 5248,
    ensures
        ({
            let k = contact::box_contact(t, c, vec3::add3(c.p, d), 91);
            let side = 3712 - num::abs(d.x as int);
            let roof = 1664 - num::abs(d.y as int);
            let end = 5248 - num::abs(d.z as int);
            &&& k is Some
            &&& k matches Some(k) ==> {
                &&& k.point == vec3::add3(c.p, d)
                &&& roof < side && roof < end ==> k.normal == vec3::v3(0, if d.y < 0 {
                    -4096int
                } else {
                    4096int
                }, 0) && k.penetration == 5824 + roof
                &&& side < roof && side < end ==> k.normal == vec3::v3(if d.x < 0 {
                    -4096int
                } else {
                    4096int
                }, 0, 0) && k.penetration == 5824 + side
                &&& end < roof && end < side ==> k.normal == vec3::v3(0, 0, if d.z < 0 {
                    -4096int
                } else {
                    4096int
                }) && k.penetration == 5824 + end
            }
        }),
{
    let sphere = vec3::add3(c.p, d);
    rides::lemma_level_frame(t, c.up, c.yaw);
    assert(vec3::sub3(sphere, c.p) == d);
    let (right, up, fwd) = car::frame(t, c.up, c.yaw);
    lemma_level_local(d);
    let l = contact::local_of(d, right, up, fwd);
    lemma_level_point(c.p, d);
    let point = contact::box_point(c.p, l, right, up, fwd);
    assert(point == sphere);
    let out = vec3::sub3(sphere, point);
    assert(out == vec3::zero3());
    assert(out.square() == 0) by {
        reveal(V3::square);
        assert(0int * 0int == 0);
    }
}

proof fn lemma_level_local(d: V3)
    requires
        d.within(12_000),
    ensures
        vec3::dot(d, V3 { x: 4096, y: 0, z: 0 }) == d.x,
        vec3::dot(d, V3 { x: 0, y: 4096, z: 0 }) == d.y,
        vec3::dot(d, V3 { x: 0, y: 0, z: 4096 }) == d.z,
{
    reveal(vec3::dot);
    let (x, y, z) = (d.x as int, d.y as int, d.z as int);
    assert(x * 0 == 0 && y * 0 == 0 && z * 0 == 0) by (nonlinear_arith);
}

proof fn lemma_level_point(p: V3, d: V3)
    requires
        p.within(0x100_0000),
        d.within(12_000),
    ensures
        contact::box_point(
            p,
            contact::Local { x: d.x as int, y: d.y as int, z: d.z as int },
            V3 { x: 4096, y: 0, z: 0 },
            V3 { x: 0, y: 4096, z: 0 },
            V3 { x: 0, y: 0, z: 4096 },
        ) == vec3::add3(p, held_in_box(d)),
{
    reveal(vec3::along);
    let q = held_in_box(d);
    let (x, y, z) = (q.x as int, q.y as int, q.z as int);
    assert(0 * x == 0 && 0 * y == 0 && 0 * z == 0) by (nonlinear_arith);
}

proof fn lemma_unit_way(v: V3)
    requires
        v.within(6000),
        v.square() <= i32::MAX,
    ensures
        surfaces::same_way(v.unit().x as int, v.x as int),
        surfaces::same_way(v.unit().y as int, v.y as int),
        surfaces::same_way(v.unit().z as int, v.z as int),
{
    reveal(vec3::scaled);
    vec3::lemma_length_covers(v);
    let len = num::max(v.length(), 1);
    lemma_part_way(v.x as int, len);
    lemma_part_way(v.y as int, len);
    lemma_part_way(v.z as int, len);
}

proof fn lemma_part_way(c: int, len: int)
    requires
        len >= 1,
        num::abs(c) <= 6000,
    ensures
        surfaces::same_way(num::tdiv(c * 4096, len), c),
        num::abs(num::tdiv(c * 4096, len)) <= 30_000_000,
{
    let p = c * 4096;
    assert(p >= 0 ==> 0 <= p / len <= p) by (nonlinear_arith)
        requires
            len >= 1,
    ;
    assert(p <= 0 ==> 0 <= (-p) / len <= -p) by (nonlinear_arith)
        requires
            len >= 1,
    ;
}

/// A car that runs into a ball dead ahead of it sends it on ahead: the ball leaves
/// with the ball's share of the closing speed and the extra on top, the car keeps
/// all but its own share, and the ball ends up clear of the nose.
pub proof fn law_a_car_strikes_the_ball_ahead(t: Angles, b: Ball, c: Car, d: int)
    requires
        faces_up_the_pitch(t, c),
        b.p == vec3::v3(c.p.x as int, c.p.y as int, c.p.z + d),
        5248 < d < 11_072,
        c.v.x == 0 && c.v.y == 0 && -3000 <= c.v.z <= 3000,
        b.v.x == 0 && b.v.y == 0 && -6400 <= b.v.z <= 6400,
        b.w == vec3::zero3(),
        c.v.z > b.v.z,
    ensures
        ({
            let (ball, car, hit) = contact::touched(t, b, c);
            let closing = c.v.z - b.v.z;
            let gain = ball.v.z - b.v.z;
            &&& ball.p == vec3::v3(c.p.x as int, c.p.y as int, c.p.z + 11_072)
            &&& ball.v.x == 0 && ball.v.y == 0 && car.v.x == 0 && car.v.y == 0
            &&& gain == hit
            &&& car.v.z == c.v.z - (146 * closing) / 1024
            &&& closing <= 532 ==> gain == (878 * closing) / 1024 + (666 * closing) / 1024
            &&& (878 * closing) / 1024 <= gain <= (878 * closing) / 1024 + (666 * closing) / 1024
            &&& closing <= 4907 ==> 1024 * gain >= 1185 * closing - 2046
            &&& ball.w == b.w && !ball.grounded
            &&& car.p == c.p && car.yaw == c.yaw
        }),
{
    let north = V3 { x: 0, y: 0, z: 4096 };
    rides::lemma_level_frame(t, c.up, c.yaw);
    let gap = vec3::v3(0, 0, d);
    assert(vec3::sub3(b.p, c.p) == gap);
    lemma_straight(d);
    lemma_straight(d - 5248);
    let (right, up, fwd) = car::frame(t, c.up, c.yaw);
    lemma_level_local(gap);
    lemma_level_point(c.p, gap);
    let l = contact::local_of(gap, right, up, fwd);
    let point = contact::box_point(c.p, l, right, up, fwd);
    assert(point == vec3::v3(c.p.x as int, c.p.y as int, c.p.z + 5248));
    let out = vec3::sub3(b.p, point);
    let e = d - 5248;
    assert(out == vec3::v3(0, 0, e));
    assert(out.square() == e * e) by {
        reveal(V3::square);
        assert(0int * 0int == 0);
    }
    assert(0 < e * e < 5824 * 5824) by (nonlinear_arith)
        requires
            0 < e < 5824,
    ;
    let k = contact::box_contact(t, c, b.p, 91);
    assert(k is Some && k->0.normal == north && k->0.point == point);
    reveal(vec3::along);
    reveal(vec3::damped);
    assert(contact::cleared(b, k->0).p == vec3::v3(c.p.x as int, c.p.y as int, c.p.z + 11_072));
    let closing = c.v.z - b.v.z;
    let rel = vec3::sub3(b.v, c.v);
    assert(vec3::dot(rel, north) == -closing) by {
        reveal(vec3::dot);
        assert(0int * 0int == 0 && 0int * 4096 == 0);
    }
    let hit = contact::rigid(closing);
    assert(hit.ball == (878 * closing) / 1024 && hit.car == (146 * closing) / 1024);
    let (hb, hc) = (hit.ball, hit.car);
    assert(0 * hb == 0 && 0 * (-hc) == 0) by (nonlinear_arith);
    let pushed = Ball { v: vec3::added(b.v, north, hb), ..contact::cleared(b, k->0) };
    let slowed = Car { v: vec3::added(c.v, north, -hc), ..c };
    assert(pushed.v == vec3::v3(0, 0, b.v.z + hb));
    assert(slowed.v == vec3::v3(0, 0, c.v.z - hc));
    lemma_no_rub(pushed, hb, slowed.v);
    lemma_extra(rel);
    let more = contact::extra(rel);
    lemma_aim_ahead();
    assert(0 * more == 0) by (nonlinear_arith);
    assert(contact::aim(gap.unit(), north) == north);
}

/// A car that slides into a ball straight to its right sends it on to the right, and
/// gives up its own share of the speed across.
pub proof fn law_a_car_strikes_the_ball_beside_it(t: Angles, b: Ball, c: Car, d: int)
    requires
        faces_up_the_pitch(t, c),
        b.p == vec3::v3(c.p.x + d, c.p.y as int, c.p.z as int),
        3712 < d < 9536,
        c.v.y == 0 && c.v.z == 0 && -3000 <= c.v.x <= 3000,
        b.v.y == 0 && b.v.z == 0 && -6400 <= b.v.x <= 6400,
        b.w == vec3::zero3(),
        c.v.x > b.v.x,
    ensures
        ({
            let (ball, car, hit) = contact::touched(t, b, c);
            let closing = c.v.x - b.v.x;
            let gain = ball.v.x - b.v.x;
            &&& ball.p == vec3::v3(c.p.x + 9536, c.p.y as int, c.p.z as int)
            &&& ball.v.y == 0 && ball.v.z == 0 && car.v.y == 0 && car.v.z == 0
            &&& gain == hit
            &&& (878 * closing) / 1024 <= gain
            &&& car.v.x == c.v.x - (146 * closing) / 1024
        }),
{
    let east = V3 { x: 4096, y: 0, z: 0 };
    let north = V3 { x: 0, y: 0, z: 4096 };
    rides::lemma_level_frame(t, c.up, c.yaw);
    let gap = vec3::v3(d, 0, 0);
    assert(vec3::sub3(b.p, c.p) == gap);
    lemma_straight_across(d);
    lemma_straight_across(d - 3712);
    let (right, up, fwd) = car::frame(t, c.up, c.yaw);
    lemma_level_local(gap);
    lemma_level_point(c.p, gap);
    let l = contact::local_of(gap, right, up, fwd);
    let point = contact::box_point(c.p, l, right, up, fwd);
    assert(point == vec3::v3(c.p.x + 3712, c.p.y as int, c.p.z as int));
    let out = vec3::sub3(b.p, point);
    let e = d - 3712;
    assert(out == vec3::v3(e, 0, 0));
    assert(out.square() == e * e) by {
        reveal(V3::square);
        assert(0int * 0int == 0);
    }
    assert(0 < e * e < 5824 * 5824) by (nonlinear_arith)
        requires
            0 < e < 5824,
    ;
    let k = contact::box_contact(t, c, b.p, 91);
    assert(k is Some && k->0.normal == east && k->0.point == point);
    reveal(vec3::along);
    reveal(vec3::damped);
    assert(contact::cleared(b, k->0).p == vec3::v3(c.p.x + 9536, c.p.y as int, c.p.z as int));
    let closing = c.v.x - b.v.x;
    let rel = vec3::sub3(b.v, c.v);
    assert(vec3::dot(rel, east) == -closing) by {
        reveal(vec3::dot);
        assert(0int * 0int == 0 && 0int * 4096 == 0);
    }
    let hit = contact::rigid(closing);
    assert(hit.ball == (878 * closing) / 1024 && hit.car == (146 * closing) / 1024);
    let (hb, hc) = (hit.ball, hit.car);
    assert(0 * hb == 0 && 0 * (-hc) == 0) by (nonlinear_arith);
    let pushed = Ball { v: vec3::added(b.v, east, hb), ..contact::cleared(b, k->0) };
    let slowed = Car { v: vec3::added(c.v, east, -hc), ..c };
    assert(pushed.v == vec3::v3(b.v.x + hb, 0, 0));
    assert(slowed.v == vec3::v3(c.v.x - hc, 0, 0));
    lemma_no_side_rub(pushed, hb, slowed.v);
    lemma_extra(rel);
    let more = contact::extra(rel);
    assert(more <= 60_000) by {
        lemma_extra_bound(rel);
    }
    lemma_aim_aside();
    assert(0 * more == 0) by (nonlinear_arith);
    assert(contact::aim(gap.unit(), north) == east);
}

proof fn lemma_extra_bound(rel: V3)
    ensures
        contact::extra(rel) <= 4907,
{
    reveal(vec3::damped);
    let kept = num::min(rel.square(), i32::MAX as int);
    assert(kept >= 0) by {
        reveal(V3::square);
        let (x, y, z) = (rel.x as int, rel.y as int, rel.z as int);
        assert(x * x >= 0 && y * y >= 0 && z * z >= 0) by (nonlinear_arith);
    }
    vec3::lemma_root_exists(kept);
    let speed = num::min(rel.length(), 4907);
    curve::law_value_stays_in_range(CARBALL_EXTRA_CURVE@, speed, 307, 666);
    let share = curve::value(CARBALL_EXTRA_CURVE@, speed);
    let p = speed * share;
    assert(p <= 666 * speed) by (nonlinear_arith)
        requires
            p == speed * share,
            0 <= speed,
            share <= 666,
    ;
}

proof fn lemma_no_side_rub(b: Ball, push: int, other_v: V3)
    requires
        b.v.z == 0 && b.v.y == 0 && -100_000 <= b.v.x <= 100_000,
        other_v.z == 0 && other_v.y == 0 && -100_000 <= other_v.x <= 100_000,
        b.w == vec3::zero3(),
    ensures
        ball::rubbed(b, V3 { x: 4096, y: 0, z: 0 }, push, 2048, other_v) == b,
{
    let n = V3 { x: 4096, y: 0, z: 0 };
    let arm = ball::contact_arm(n);
    let w = b.w;
    let (ax, ay, az) = (arm.x as int, arm.y as int, arm.z as int);
    assert(0 * ax == 0 && 0 * ay == 0 && 0 * az == 0) by (nonlinear_arith);
    assert(vec3::cross_over(w, arm, 65536) == vec3::zero3()) by {
        reveal(vec3::cross_over);
    }
    let rel = ball::patch_velocity(b, n, other_v);
    let x = b.v.x - other_v.x;
    assert(rel == vec3::v3(x, 0, 0));
    assert(vec3::dot(rel, n) == x) by {
        reveal(vec3::dot);
        assert(0int * 0int == 0);
    }
    assert(vec3::flattened(rel, n) == vec3::zero3()) by {
        reveal(vec3::along);
        assert(0 * x == 0) by (nonlinear_arith);
    }
    surfaces::lemma_level_length(vec3::zero3());
}

/// Struck dead to the side, the extra goes dead to the side.
proof fn lemma_aim_aside()
    ensures
        contact::aim(V3 { x: 4096, y: 0, z: 0 }, V3 { x: 0, y: 0, z: 4096 }) == (V3 {
            x: 4096,
            y: 0,
            z: 0,
        }),
{
    let east = V3 { x: 4096, y: 0, z: 0 };
    let north = V3 { x: 0, y: 0, z: 4096 };
    reveal(vec3::damped);
    reveal(vec3::dot);
    reveal(vec3::along);
    assert(0int * 358 == 0 && 0int * 0int == 0 && 4096int * 0 == 0 && 0int * 4096 == 0);
    lemma_straight_across(4096);
    assert(vec3::dot(east, north) == 0);
    assert(vec3::along(north, 0) == vec3::zero3());
}

/// A ball that moves straight out from a surface is not rubbed by it.
proof fn lemma_no_rub(b: Ball, push: int, other_v: V3)
    requires
        b.v.x == 0 && b.v.y == 0 && -100_000 <= b.v.z <= 100_000,
        other_v.x == 0 && other_v.y == 0 && -100_000 <= other_v.z <= 100_000,
        b.w == vec3::zero3(),
    ensures
        ball::rubbed(b, V3 { x: 0, y: 0, z: 4096 }, push, 2048, other_v) == b,
{
    let n = V3 { x: 0, y: 0, z: 4096 };
    let arm = ball::contact_arm(n);
    let w = b.w;
    let (ax, ay, az) = (arm.x as int, arm.y as int, arm.z as int);
    assert(0 * ax == 0 && 0 * ay == 0 && 0 * az == 0) by (nonlinear_arith);
    assert(vec3::cross_over(w, arm, 65536) == vec3::zero3()) by {
        reveal(vec3::cross_over);
    }
    let rel = ball::patch_velocity(b, n, other_v);
    let z = b.v.z - other_v.z;
    assert(rel == vec3::v3(0, 0, z));
    assert(vec3::dot(rel, n) == z) by {
        reveal(vec3::dot);
        assert(0int * 0int == 0);
    }
    assert(vec3::flattened(rel, n) == vec3::zero3()) by {
        reveal(vec3::along);
        assert(0 * z == 0) by (nonlinear_arith);
    }
    surfaces::lemma_level_length(vec3::zero3());
}

/// Struck dead ahead, the extra goes dead ahead.
proof fn lemma_aim_ahead()
    ensures
        contact::aim(V3 { x: 0, y: 0, z: 4096 }, V3 { x: 0, y: 0, z: 4096 }) == (V3 {
            x: 0,
            y: 0,
            z: 4096,
        }),
{
    let north = V3 { x: 0, y: 0, z: 4096 };
    reveal(vec3::damped);
    reveal(vec3::dot);
    reveal(vec3::along);
    assert(0int * 358 == 0 && 0int * 0int == 0 && 4096int * 4096 == 16_777_216);
    lemma_straight(4096);
    assert(vec3::dot(north, north) == 4096);
    let bias = vec3::damped(4096, 358);
    assert(4096int * 358 == 1_466_368);
    assert(bias == 1432);
    assert(0int * 1432 == 0 && 4096int * 1432 == 5_865_472);
    assert(vec3::along(north, bias) == vec3::v3(0, 0, 1432));
    lemma_straight(2664);
}

} // verus!
