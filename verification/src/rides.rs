//! A whole turn of a car: the pedals, the surface under it and gravity together.

use vstd::prelude::*;
use crate::air;
use crate::arena;
use crate::banks;
use crate::car;
use crate::car::{Car, Input};
use crate::compass;
use crate::drive;
use crate::drive::Entry;
use crate::driving;
use crate::leaps;
use crate::num;
use crate::ramp;
use crate::step;
use crate::surfaces;
use crate::trig::Angles;
use crate::vec3;
use crate::vec3::V3;

verus! {

// ---- steps of a turn -------------------------------------------------------

/// A car moves by the speed it has at the end of the step. In the air gravity
/// comes off its climb first; on its wheels it does not.
pub proof fn law_a_car_moves_by_its_speed(c: Car, gravity: int)
    requires
        c.p.within(0x100_0000),
        c.v.within(0x100_0000),
        0 <= gravity <= 1000,
    ensures
        ({
            let r = step::moved(c, gravity);
            &&& r.p.x == c.p.x + r.v.x && r.p.y == c.p.y + r.v.y && r.p.z == c.p.z + r.v.z
            &&& r.v.x == c.v.x && r.v.z == c.v.z
            &&& c.grounded ==> r.v.y == c.v.y
            &&& !c.grounded ==> r.v.y == c.v.y - gravity
        }),
{
}

/// A car goes supersonic at 2347, and holds on to it for sixty ticks while it
/// stays at 2240 or more. Below that it is lost at once.
pub proof fn law_supersonic_comes_and_goes(c: Car)
    ensures
        ({
            let r = step::sonic(c);
            let quick = c.v.length();
            &&& quick >= 2347 ==> r.supersonic && r.sonic_grace == 60
            &&& quick < 2240 ==> !r.supersonic
            &&& quick < 2347 && !c.supersonic ==> !r.supersonic
            &&& 2240 <= quick < 2347 && c.supersonic && c.sonic_grace > 0 ==> r.supersonic
                && r.sonic_grace == c.sonic_grace - 1
            &&& 2240 <= quick < 2347 && c.sonic_grace == 0 ==> !r.supersonic
            &&& r.v == c.v && r.p == c.p
        }),
{
}

/// A car that comes down to the floor stands on it: level, stopped falling, with
/// its jumps back. One above it flies on, and none rises over the ceiling.
pub proof fn law_a_car_lands_on_the_floor(c: Car)
    ensures
        ({
            let r = step::leveled(c);
            &&& c.p.y <= 1792 ==> {
                &&& r.p.y == 1792 && r.v.y == 0
                &&& r.grounded && r.jumps_used == 0
                &&& r.up == (V3 { x: 0, y: 4096, z: 0 })
            }
            &&& 1792 < c.p.y <= 127_488 ==> r == c
            &&& c.p.y > 127_488 ==> r.p.y == 127_488 && r.v.y == 0 && r.grounded == c.grounded
            &&& r.p.x == c.p.x && r.p.z == c.p.z && r.v.x == c.v.x && r.v.z == c.v.z
            &&& r.yaw == c.yaw
        }),
{
}

/// The counters run down by one and stop at none.
pub proof fn law_the_counters_run_down(c: Car)
    ensures
        ({
            let r = step::counted(c);
            &&& c.dodge_timer > 0 ==> r.dodge_timer == c.dodge_timer - 1
            &&& c.dodge_window > 0 ==> r.dodge_window == c.dodge_window - 1
            &&& c.bump_cool > 0 ==> r.bump_cool == c.bump_cool - 1
            &&& c.dodge_timer == 0 ==> r.dodge_timer == 0
            &&& c.dodge_window == 0 ==> r.dodge_window == 0
            &&& c.bump_cool == 0 ==> r.bump_cool == 0
        }),
{
}

/// Wheels roll with the car: forward turns them one way, backward the other. When
/// it gathers speed its nose rises and its tail squats, when it loses speed the
/// other way about, and off its wheels both axles droop.
pub proof fn law_the_wheels_follow_the_road(c: Car, e: Entry)
    requires
        c.v.within(3000),
        e.fwd.within(4096),
        -10_000 <= e.along <= 10_000,
        c.suspension@[0] == 0,
        c.suspension@[1] == 0,
        c.suspension_velocity@[0] == 0,
        c.suspension_velocity@[1] == 0,
    ensures
        ({
            let r = step::wheeled(c, e);
            let after = vec3::dot(c.v, e.fwd);
            let rolled = driving::bend(c.wheel_spin, r.wheel_spin);
            &&& after >= 0 ==> rolled <= 0
            &&& after <= 0 ==> rolled >= 0
            &&& after >= 2 ==> rolled < 0
            &&& after <= -2 ==> rolled > 0
            &&& c.grounded && after >= e.along ==> r.suspension@[0] <= 0 && r.suspension@[1] >= 0
            &&& c.grounded && after <= e.along ==> r.suspension@[0] >= 0 && r.suspension@[1] <= 0
            &&& c.grounded && after > e.along ==> r.suspension@[1] > 0
            &&& !c.grounded ==> r.suspension@[0] < 0 && r.suspension@[1] < 0
            &&& r.v == c.v && r.p == c.p && r.yaw == c.yaw
        }),
{
    vec3::lemma_dot(c.v, e.fwd, 3000);
    let after = vec3::dot(c.v, e.fwd);
    let by = -num::tdiv(after * 4096, 5227);
    driving::lemma_bend(c.wheel_spin, by);
    let shift = step::weight_transfer(after, e.along as int);
    let (front, rear) = if c.grounded {
        (-shift, shift)
    } else {
        (-1024int, -1024int)
    };
    car::lemma_axles_hold(
        step::spring_position(0, 0, front),
        step::spring_position(0, 0, rear),
    );
}

// ---- the surface under it ------------------------------------------------------

/// A surface holds a car that it is level enough to stand on, at any speed, and
/// any other only while the car runs along its nose at 700 or more.
pub proof fn law_a_steep_surface_needs_speed(t: Angles, c: Car, n: V3)
    ensures
        ({
            let run = vec3::dot(c.v, car::nose(t, c.up, c.yaw));
            &&& n.y >= 2896 ==> step::holds(t, c, n)
            &&& n.y < 2896 && -700 < run < 700 ==> !step::holds(t, c, n)
            &&& run >= 700 || run <= -700 ==> step::holds(t, c, n)
        }),
{
}

/// A car that takes to a surface stands on it and keeps the speed that leaves it:
/// what ran into the surface is taken out, along its normal, and no more.
pub proof fn law_taking_to_a_surface_stops_what_runs_into_it(t: Angles, c: Car, n: V3)
    requires
        c.v.within(0x10_0000),
        n.within(4096),
    ensures
        ({
            let r = step::adopted(t, c, n);
            let into = vec3::dot(c.v, n);
            &&& r.grounded && r.up == n && r.jumps_used == 0
            &&& into >= 0 ==> r.v == c.v
            &&& into < 0 ==> driving::pushed(c.v, r.v, n, -into)
            &&& r.p == c.p
        }),
{
    vec3::lemma_dot(c.v, n, 0x10_0000);
    let into = vec3::dot(c.v, n);
    if into < 0 {
        driving::lemma_pushed(c.v, n, -into);
    } else {
        reveal(vec3::along);
        let (x, y, z) = (n.x as int, n.y as int, n.z as int);
        assert(x * 0 == 0 && y * 0 == 0 && z * 0 == 0);
    }
}

/// A car that meets the side wall's quarter pipe, or the wall above it, fast enough
/// takes to it: it stands on it, square to it. One that was up a wall and is not
/// held there any more is let go, level, and is on its wheels only if it is on the
/// floor.
pub proof fn law_a_fast_car_rides_up_the_wall(t: Angles, c: Car)
    requires
        banks::by_a_side_wall(c.p),
        -16_640 <= c.p.y <= 200_000,
    ensures
        ({
            let r = step::walled(t, c);
            let h = step::hemmed(c);
            let run = vec3::dot(h.v, car::nose(t, c.up, c.yaw));
            let (out, down) = (banks::leans_out(c.p), banks::leans_down(c.p));
            let on_pipe = down > 0 && out > 0 && out * out + down * down >= 14_336 * 14_336;
            let on_wall = down <= 0 && 262_144 - num::abs(c.p.x as int) <= 2304;
            &&& (on_pipe || on_wall) && (run >= 700 || run <= -700) ==> {
                &&& r.grounded
                &&& c.p.x > 0 ==> r.up.x <= 0
                &&& c.p.x < 0 ==> r.up.x >= 0
                &&& r.up.y >= 0 && r.up.z == 0
                &&& on_wall ==> num::abs(r.up.x as int) == 4096 && r.up.y == 0
                &&& on_pipe && out >= down ==> num::abs(r.up.x as int) >= r.up.y
            }
            &&& on_wall && -700 < run < 700 && c.grounded && c.up.y <= 3600 ==> r.up == (V3 {
                x: 0,
                y: 4096,
                z: 0,
            }) && r.grounded == (r.p.y <= 1792)
        }),
{
    banks::law_a_car_meets_the_quarter_pipe(c.p, step::in_mouth(c.p));
}

/// A car that takes to a side wall keeps going the way it went: its nose on the wall
/// runs with what the wall leaves of its speed.
pub proof fn law_a_car_keeps_its_way_up_the_wall(t: Angles, c: Car, n: V3)
    requires
        compass::true_compass(t),
        c.v.within(10_000),
        c.up == (V3 { x: 0, y: 4096, z: 0 }),
        n.x == 4096 || n.x == -4096,
        n.y == 0,
        n.z == 0,
        c.v.y > 40 || c.v.y < -40 || c.v.z > 40 || c.v.z < -40,
    ensures
        ({
            let r = step::adopted(t, c, n);
            let (s, k) = (t.sin(r.yaw), t.cos(r.yaw));
            &&& n.x < 0 ==> c.v.y * s + c.v.z * k > 0
            &&& n.x > 0 ==> -c.v.y * s + c.v.z * k > 0
            &&& n.x < 0 ==> car::plane_of(n) == (V3 { x: 0, y: 4096, z: 0 }, V3 {
                x: 0,
                y: 0,
                z: 4096,
            })
        }),
{
    let (vx, vy, vz) = (c.v.x as int, c.v.y as int, c.v.z as int);
    let north = V3 { x: 0, y: 0, z: 4096 };
    assert(0int * 0int == 0 && 0int * 4096 == 0 && 4096int * 0 == 0 && 4096int * 4096 == 16_777_216);
    assert(vec3::dot(c.up, n) == 0) by {
        reveal(vec3::dot);
        let x = n.x as int;
        assert(0 * x == 0) by (nonlinear_arith);
    }
    let along = vec3::flattened(c.v, n);
    lemma_off_wall(c.v, n);
    assert(along == vec3::v3(0, vy, vz));
    lemma_flat_unit(along);
    let dir = along.unit();
    let up4096 = vec3::v3(0, if n.x < 0 {
        4096int
    } else {
        -4096int
    }, 0);
    lemma_wall_plane(n);
    assert(car::plane_of(n) == (up4096, north));
    let (py, pz) = (vec3::dot(dir, up4096), vec3::dot(dir, north));
    assert(pz == dir.z && py == if n.x < 0 {
        dir.y as int
    } else {
        -dir.y
    }) by {
        reveal(vec3::dot);
        let (x, y, z) = (dir.x as int, dir.y as int, dir.z as int);
        let uy = up4096.y as int;
        assert(x * 0 == 0 && y * 0 == 0 && z * 0 == 0 && z * 4096 == 4096 * z) by (nonlinear_arith);
        assert(uy == 4096 ==> y * uy == 4096 * y) by (nonlinear_arith);
        assert(uy == -4096 ==> y * uy == -(4096 * y)) by (nonlinear_arith);
    }
    let r = step::adopted(t, c, n);
    assert(r.yaw == t.atan2(py, pz));
    assert(py != 0 || pz != 0);
    assert(compass::points(t, (py as i32) as int, (pz as i32) as int));
    let (s, k) = (t.sin(r.yaw), t.cos(r.yaw));
    compass::lemma_goes_along(py, pz, s, k);
    let wy = if n.x < 0 {
        vy
    } else {
        -vy
    };
    lemma_same_side(wy, vz, py, pz, s, k);
    if n.x > 0 {
        assert(wy * s == -vy * s) by (nonlinear_arith)
            requires
                wy == -vy,
        ;
    }
}

/// What goes with a direction goes with anything on its side on both axes.
proof fn lemma_same_side(vy: int, vz: int, py: int, pz: int, s: int, k: int)
    requires
        surfaces::same_way(py, vy),
        surfaces::same_way(pz, vz),
        num::abs(vy) >= 41 ==> num::abs(py) >= 1,
        num::abs(vz) >= 41 ==> num::abs(pz) >= 1,
        num::abs(vy) >= 41 || num::abs(vz) >= 41,
        num::abs(py) >= num::abs(pz) ==> num::abs(vy) >= 1,
        num::abs(pz) >= num::abs(py) ==> num::abs(vz) >= 1,
        py >= 0 ==> s >= 0,
        py <= 0 ==> s <= 0,
        pz >= 0 ==> k >= 0,
        pz <= 0 ==> k <= 0,
        num::abs(py) >= num::abs(pz) ==> num::abs(s) >= 2800,
        num::abs(pz) >= num::abs(py) ==> num::abs(k) >= 2800,
    ensures
        vy * s + vz * k > 0,
{
    lemma_agree(vy, s);
    lemma_agree(vz, k);
}

proof fn lemma_agree(v: int, s: int)
    ensures
        v >= 0 && s >= 0 ==> v * s >= 0,
        v <= 0 && s <= 0 ==> v * s >= 0,
        v > 0 && s > 0 ==> v * s > 0,
        v < 0 && s < 0 ==> v * s > 0,
        s == 0 ==> v * s == 0,
{
    assert(v >= 0 && s >= 0 ==> v * s >= 0) by (nonlinear_arith);
    assert(v <= 0 && s <= 0 ==> v * s >= 0) by (nonlinear_arith);
    assert(v > 0 && s > 0 ==> v * s > 0) by (nonlinear_arith);
    assert(v < 0 && s < 0 ==> v * s > 0) by (nonlinear_arith);
    assert(s == 0 ==> v * s == 0) by (nonlinear_arith);
}

/// A side wall takes out the speed across the pitch.
proof fn lemma_off_wall(v: V3, n: V3)
    requires
        v.within(10_000),
        n.x == 4096 || n.x == -4096,
        n.y == 0,
        n.z == 0,
    ensures
        vec3::flattened(v, n) == vec3::v3(0, v.y as int, v.z as int),
{
    reveal(vec3::dot);
    reveal(vec3::along);
    let (x, y, z, m) = (v.x as int, v.y as int, v.z as int, n.x as int);
    assert(y * 0 == 0 && z * 0 == 0) by (nonlinear_arith);
    assert(m == 4096 ==> x * m == 4096 * x) by (nonlinear_arith);
    assert(m == -4096 ==> x * m == -(4096 * x)) by (nonlinear_arith);
    let d = vec3::dot(v, n);
    assert(0 * d == 0) by (nonlinear_arith);
    assert(m == 4096 ==> m * d == 4096 * d) by (nonlinear_arith);
    assert(m == -4096 ==> m * d == -(4096 * d)) by (nonlinear_arith);
}

proof fn lemma_wall_plane(n: V3)
    requires
        n.x == 4096 || n.x == -4096,
        n.y == 0,
        n.z == 0,
    ensures
        car::plane_of(n) == (
            vec3::v3(0, if n.x < 0 {
                4096int
            } else {
                -4096int
            }, 0),
            V3 { x: 0, y: 0, z: 4096 },
        ),
{
    let north = V3 { x: 0, y: 0, z: 4096 };
    assert(0int * 0int == 0 && 0int * 4096 == 0 && 4096int * 0 == 0 && 4096int * 4096 == 16_777_216);
    let a = vec3::cross(n, north);
    let m = n.x as int;
    assert(0 * m == 0 && m * 0 == 0) by (nonlinear_arith);
    assert(m == 4096 ==> m * 4096 == 16_777_216) by (nonlinear_arith);
    assert(m == -4096 ==> m * 4096 == -16_777_216) by (nonlinear_arith);
    let up = vec3::v3(0, if n.x < 0 {
        4096int
    } else {
        -4096int
    }, 0);
    assert(a == up) by {
        reveal(vec3::cross_over);
    }
    lemma_unit_upright(up);
    let b = vec3::cross(up, n);
    assert(b == north) by {
        reveal(vec3::cross_over);
        assert(up.y * m == -16_777_216) by (nonlinear_arith)
            requires
                m == 4096 && up.y == -4096 || m == -4096 && up.y == 4096,
        ;
        let y = up.y as int;
        assert(y * 0 == 0 && 0 * y == 0) by (nonlinear_arith);
    }
    lemma_unit_axes();
}

proof fn lemma_unit_upright(v: V3)
    requires
        v.x == 0,
        v.z == 0,
        v.y == 4096 || v.y == -4096,
    ensures
        v.unit() == v,
{
    reveal(vec3::scaled);
    reveal(V3::square);
    let y = v.y as int;
    assert(0int * 0int == 0 && 0int * 4096 == 0);
    assert(y * y == 16_777_216) by (nonlinear_arith)
        requires
            y == 4096 || y == -4096,
    ;
    vec3::lemma_length_covers(v);
    let len = v.length();
    assert(len == 4096) by {
        assert(4096int * 4096 == 16_777_216);
        num::lemma_root_unique(len, 4096, 16_777_216);
    }
}

/// What is left of a level-headed speed, as a direction.
proof fn lemma_flat_unit(v: V3)
    requires
        v.x == 0,
        v.within(10_000),
        v.y > 40 || v.y < -40 || v.z > 40 || v.z < -40,
    ensures
        v.length() > 0,
        v.unit().within(4096),
        surfaces::same_way(v.unit().y as int, v.y as int),
        surfaces::same_way(v.unit().z as int, v.z as int),
        num::abs(v.y as int) >= 41 ==> num::abs(v.unit().y as int) >= 1,
        num::abs(v.z as int) >= 41 ==> num::abs(v.unit().z as int) >= 1,
        num::abs(v.unit().y as int) >= num::abs(v.unit().z as int) ==> v.y != 0,
        num::abs(v.unit().z as int) >= num::abs(v.unit().y as int) ==> v.z != 0,
{
    reveal(vec3::scaled);
    reveal(V3::square);
    let (y, z) = (v.y as int, v.z as int);
    num::lemma_mul_bound(y, y, 10_000, 10_000);
    num::lemma_mul_bound(z, z, 10_000, 10_000);
    assert(0int * 0int == 0);
    vec3::lemma_length_covers(v);
    let len = v.length();
    assert(len <= 14_143) by (nonlinear_arith)
        requires
            0 <= len,
            len * len <= 200_000_000,
    ;
    lemma_side(y, len);
    lemma_side(z, len);
    lemma_side(0, len);
    lemma_counts(y, len);
    lemma_counts(z, len);
}

proof fn lemma_counts(c: int, len: int)
    requires
        1 <= len <= 14_143,
    ensures
        num::abs(c) >= 41 ==> num::abs(num::tdiv(c * 4096, len)) >= 1,
        c == 0 ==> num::tdiv(c * 4096, len) == 0,
{
    let p = num::abs(c) * 4096;
    assert(p >= 41 * 4096 ==> p / len >= 1) by (nonlinear_arith)
        requires
            1 <= len <= 14_143,
    ;
    assert(0int / len == 0) by (nonlinear_arith)
        requires
            len >= 1,
    ;
}

/// A level car faces its yaw: its nose points the way of the yaw's sine across the
/// pitch and of its cosine up it, and its right a quarter turn on from there.
pub proof fn law_a_level_car_faces_its_yaw(t: Angles, yaw: u16)
    requires
        compass::true_turns(t),
    ensures
        ({
            let up = V3 { x: 0, y: 4096, z: 0 };
            let (right, _, fwd) = car::frame(t, up, yaw);
            &&& surfaces::same_way(fwd.x as int, t.sin(yaw))
            &&& surfaces::same_way(fwd.z as int, t.cos(yaw))
            &&& surfaces::same_way(right.x as int, t.cos(yaw))
            &&& surfaces::same_way(right.z as int, -t.sin(yaw))
            &&& fwd.y == 0 && right.y == 0
            &&& car::frame(t, up, yaw).1 == up
        }),
{
    let up = V3 { x: 0, y: 4096, z: 0 };
    let east = V3 { x: 4096, y: 0, z: 0 };
    let north = V3 { x: 0, y: 0, z: 4096 };
    let (s, c) = (t.sin(yaw), t.cos(yaw));
    assert(compass::on_circle(t, yaw));
    assert(0int * 0int == 0 && 0int * 4096 == 0 && 4096int * 0 == 0 && 4096int * 4096 == 16_777_216);
    assert(vec3::cross(up, north) == east && vec3::cross(east, up) == north) by {
        reveal(vec3::cross_over);
    }
    lemma_unit_axes();
    assert(car::plane_of(up) == (east, north));
    let d = vec3::v3(s, 0, c);
    assert(car::blended(east, north, s, c) == d) by {
        reveal(car::blended);
        assert(east.x * s + north.x * c == 4096 * s && east.y * s + north.y * c == 0 && east.z * s
            + north.z * c == 4096 * c) by (nonlinear_arith)
            requires
                east.x == 4096,
                east.y == 0,
                east.z == 0,
                north.x == 0,
                north.y == 0,
                north.z == 4096,
        ;
        assert((4096 * s) / 4096 == s && (4096 * c) / 4096 == c);
    }
    lemma_unit_sides(d);
    let fwd = d.unit();
    let across = vec3::cross(up, fwd);
    assert(across == vec3::v3(fwd.z as int, 0, -fwd.x)) by {
        reveal(vec3::cross_over);
        let (x, z) = (fwd.x as int, fwd.z as int);
        assert(0 * x == 0 && 0 * z == 0) by (nonlinear_arith);
    }
    lemma_unit_sides(across);
}

/// A level vector scaled to a direction keeps its sides.
proof fn lemma_unit_sides(v: V3)
    requires
        v.y == 0,
        v.within(4096),
    ensures
        surfaces::same_way(v.unit().x as int, v.x as int),
        surfaces::same_way(v.unit().z as int, v.z as int),
        v.unit().y == 0,
        v.unit().within(4096),
{
    reveal(vec3::scaled);
    reveal(V3::square);
    let (x, z) = (v.x as int, v.z as int);
    num::lemma_mul_bound(x, x, 4096, 4096);
    num::lemma_mul_bound(z, z, 4096, 4096);
    assert(0int * 0int == 0);
    vec3::lemma_length_covers(v);
    let len = num::max(v.length(), 1);
    lemma_side(x, len);
    lemma_side(z, len);
    assert(0int * 4096 == 0);
    assert(0int / len == 0) by (nonlinear_arith)
        requires
            len > 0,
    ;
}

proof fn lemma_side(c: int, len: int)
    requires
        len >= 1,
        num::abs(c) <= len,
    ensures
        surfaces::same_way(num::tdiv(c * 4096, len), c),
        num::abs(num::tdiv(c * 4096, len)) <= 4096,
{
    let p = c * 4096;
    assert(p >= 0 ==> p / len >= 0) by (nonlinear_arith)
        requires
            len >= 1,
    ;
    assert(p <= 0 ==> (-p) / len >= 0) by (nonlinear_arith)
        requires
            len >= 1,
    ;
    num::lemma_tdiv_bound(p, len, 4096);
}

// ---- jumps ------------------------------------------------------------------

/// A press on its wheels jumps a car, a press in the air jumps it once more while
/// the window for it is open, and nothing else does. With the stick off centre the
/// second jump is a flip that lasts forty ticks.
pub proof fn law_a_press_jumps_twice_at_most(t: Angles, c: Car, input: Input)
    ensures
        ({
            let r = step::powered(t, c, input);
            let off_centre = input.steer > 40 || input.steer < -40 || input.pitch > 40 || input.pitch
                < -40;
            &&& c.grounded && input.jump_pressed ==> !r.grounded && r.jumps_used == 1
            &&& c.grounded && !input.jump_pressed ==> r.grounded && r.jumps_used == c.jumps_used
            &&& !c.grounded ==> !r.grounded
            &&& !c.grounded && input.jump_pressed && c.jumps_used == 1 && c.dodge_window > 0 ==> {
                &&& r.jumps_used == 2
                &&& r.dodge_timer == if off_centre {
                    40
                } else {
                    c.dodge_timer
                }
            }
            &&& !c.grounded && !(input.jump_pressed && c.jumps_used == 1 && c.dodge_window > 0) ==> {
                &&& r.jumps_used == c.jumps_used
                &&& r.dodge_timer == c.dodge_timer
            }
        }),
{
    reveal(drive::steered);
    reveal(drive::boosted);
    reveal(drive::driven);
    reveal(drive::limited);
    reveal(air::flown_by_stick);
    reveal(air::jumped_again);
    reveal(air::held);
}

// ---- a whole turn on the floor ---------------------------------------------------

/// The car faces straight up the pitch, on its wheels on the open floor, and
/// rolls along its nose.
pub open spec fn rolls_up_the_pitch(t: Angles, c: Car) -> bool {
    &&& t.sin(c.yaw) == 0 && t.cos(c.yaw) == 4096
    &&& c.grounded
    &&& c.up == (V3 { x: 0, y: 4096, z: 0 })
    &&& c.p.y == 1792
    &&& num::abs(c.p.x as int) <= 200_000
    &&& num::abs(c.p.z as int) <= 200_000
    &&& c.v.x == 0 && c.v.y == 0
    &&& -1300 <= c.v.z <= 1300
    &&& c.slide == 0
    &&& 0 <= c.boost <= 6400
    &&& 0 <= c.boost_rem < 27
    &&& !c.jump_holding
    &&& !c.supersonic
}

/// A turn on the open floor: the throttle drives the car up the pitch and the
/// brake slows it, boost adds to either, the car moves by its speed and stays on
/// its wheels. The wheel turns its nose right for right while it rolls forward
/// and left for right while it rolls backward.
pub proof fn law_a_turn_on_the_open_floor(t: Angles, c: Car, input: Input, gravity: int)
    requires
        rolls_up_the_pitch(t, c),
        !input.jump_pressed,
        !input.handbrake,
        0 <= gravity <= 20,
    ensures
        ({
            let r = step::car_ticked(t, c, input, gravity);
            let turn = driving::bend(c.yaw, r.yaw);
            let burns = c.boost >= 36 && (input.boost || c.boost_ticks > 0);
            let lift = if burns {
                17int
            } else {
                0
            };
            let gain = r.v.z - c.v.z;
            &&& r.v.x == 0 && r.v.y == 0
            &&& r.p.x == c.p.x && r.p.y == 1792 && r.p.z == c.p.z + r.v.z
            &&& r.grounded
            &&& burns == r.boosting
            &&& r.boost == if burns {
                c.boost - 36
            } else {
                c.boost as int
            }
            &&& input.throttle >= 128 && c.v.z >= 0 ==> lift + 2 <= gain <= lift + 29
            &&& input.throttle <= -128 && c.v.z >= 0 ==> lift - 62 <= gain <= lift - 61
            &&& input.throttle >= 128 && c.v.z < 0 ==> lift + 62 <= gain <= lift + 63
            &&& input.throttle == 0 && c.v.z > 9 && !burns ==> gain == -9
            &&& input.throttle == 0 && c.v.z < -9 && !burns ==> gain == 9
            &&& c.v.z > 0 && input.steer > 0 ==> turn >= 0
            &&& c.v.z > 0 && input.steer < 0 ==> turn <= 0
            &&& c.v.z < 0 && input.steer > 0 ==> turn <= 0
            &&& c.v.z < 0 && input.steer < 0 ==> turn >= 0
            &&& c.v.z >= 241 && input.steer >= 128 ==> turn > 0
            &&& c.v.z <= -241 && input.steer >= 128 ==> turn < 0
        }),
{
    let e = drive::entry_of(t, c);
    lemma_level_entry(t, c);
    driving::law_the_nose_follows_the_wheel(c, input, e);
    let s = drive::steered(c, input, e);
    assert(s == (Car { slide: s.slide, steer: s.steer, yaw: s.yaw, ..c }) && s.slide == 0) by {
        reveal(drive::steered);
    }
    driving::law_boost_pushes_along_the_nose(s, input, e);
    let lit = drive::boosted(s, input, e);
    let k = (c.boost_rem + 476 - lit.boost_rem) / 27;
    lemma_along_z(k);
    assert(lit.v.x == 0 && lit.v.y == 0);
    assert(lit.boosting ==> lit.v.z == c.v.z + k && 17 <= k <= 18);
    assert(lit == (Car {
        boosting: lit.boosting,
        boost_ticks: lit.boost_ticks,
        boost: lit.boost,
        boost_rem: lit.boost_rem,
        v: lit.v,
        ..s
    })) by {
        reveal(drive::boosted);
    }
    lemma_engine(lit, input, e);
    let d = drive::driven(lit, input, e);
    lemma_no_slide(lit, input, e);
    let lim = drive::limited(d, e);
    lemma_under_limit(d, e);
    let pow = step::powered(t, c, input);
    assert(pow == lim) by {
        reveal(air::held);
    }
    lemma_rest_of_turn(t, pow, e, gravity);
}

/// The car hangs in the open air, turning on no axis, and slow enough for no limit
/// to hold it back.
pub open spec fn hangs_in_the_air(c: Car) -> bool {
    &&& !c.grounded
    &&& 30_000 <= c.p.y <= 120_000
    &&& num::abs(c.p.x as int) <= 200_000
    &&& num::abs(c.p.z as int) <= 200_000
    &&& c.v.within(500)
    &&& c.up == (V3 { x: 0, y: 4096, z: 0 })
    &&& c.w_pitch == 0 && c.w_roll == 0 && c.w_yaw == 0
    &&& !c.jump_holding
    &&& c.boost == 0
    &&& 0 <= c.slide <= 1024
}

/// A turn in the open air with nothing pressed but the stick to the side: the car
/// falls freely, keeps its level speed, and turns its nose the way the stick is
/// pushed. The wheel does nothing there.
pub proof fn law_a_turn_in_the_open_air(t: Angles, c: Car, input: Input, gravity: int)
    requires
        hangs_in_the_air(c),
        input.throttle == 0,
        input.pitch == 0,
        !input.air_roll,
        !input.jump_pressed,
        0 <= gravity <= 20,
    ensures
        ({
            let r = step::car_ticked(t, c, input, gravity);
            let turn = driving::bend(c.yaw, r.yaw);
            &&& r.v.x == c.v.x && r.v.z == c.v.z && r.v.y == c.v.y - gravity
            &&& r.p.x == c.p.x + r.v.x && r.p.y == c.p.y + r.v.y && r.p.z == c.p.z + r.v.z
            &&& !r.grounded && r.up == c.up
            &&& input.steer >= 0 ==> turn >= 0
            &&& input.steer <= 0 ==> turn <= 0
            &&& input.steer >= 128 ==> turn > 0
            &&& input.steer <= -128 ==> turn < 0
        }),
{
    let e = drive::entry_of(t, c);
    let s = drive::steered(c, input, e);
    assert(s == (Car { slide: s.slide, steer: s.steer, ..c })) by {
        reveal(drive::steered);
    }
    let lit = drive::boosted(s, input, e);
    assert(lit == (Car { boosting: lit.boosting, boost_ticks: lit.boost_ticks, boost_rem: 0, ..s })
        && !lit.boosting) by {
        reveal(drive::boosted);
    }
    leaps::law_air_rates_chase_the_stick(lit, input);
    let spun = air::rates_stepped(lit, input);
    assert(spun.w_pitch == 0 && spun.w_roll == 0) by {
        reveal(vec3::damped);
    }
    let flown = air::flown_by_stick(t, lit, input, e);
    assert(flown == (Car { yaw: flown.yaw, air_throttle_rem: 0, ..spun }) && flown.yaw == car::turned(
        c.yaw,
        spun.w_yaw as int,
    )) by {
        reveal(air::flown_by_stick);
    }
    driving::lemma_bend(c.yaw, spun.w_yaw as int);
    assert(drive::limited(flown, e) == flown) by {
        reveal(drive::limited);
        lemma_slow(flown.v);
    }
    assert(step::powered(t, c, input) == flown) by {
        reveal(air::held);
    }
    lemma_rest_of_flight(t, flown, e, gravity);
}

proof fn lemma_slow(v: V3)
    requires
        v.within(500),
    ensures
        v.length() <= 1504,
{
    reveal(V3::square);
    num::lemma_mul_bound(v.x as int, v.x as int, 500, 500);
    num::lemma_mul_bound(v.y as int, v.y as int, 500, 500);
    num::lemma_mul_bound(v.z as int, v.z as int, 500, 500);
    vec3::lemma_length_covers(v);
    let r = v.length();
    assert(r <= 1504) by (nonlinear_arith)
        requires
            0 <= r,
            r * r <= 750_000,
    ;
}

/// In the open air the rest of a turn only falls.
proof fn lemma_rest_of_flight(t: Angles, c: Car, e: Entry, gravity: int)
    requires
        !c.grounded,
        c.up == (V3 { x: 0, y: 4096, z: 0 }),
        30_000 <= c.p.y <= 120_000,
        num::abs(c.p.x as int) <= 200_000,
        num::abs(c.p.z as int) <= 200_000,
        c.v.within(500),
        0 <= gravity <= 20,
    ensures
        ({
            let near = step::leveled(
                step::sonic(step::counted(step::wheeled(step::moved(c, gravity), e))),
            );
            let r = step::walled(t, near);
            &&& r.v == vec3::v3(c.v.x as int, c.v.y - gravity, c.v.z as int)
            &&& r.p == vec3::v3(c.p.x + c.v.x, c.p.y + c.v.y - gravity, c.p.z + c.v.z)
            &&& !r.grounded
            &&& r.yaw == c.yaw
            &&& r.up == c.up
        }),
{
    let near = step::leveled(step::sonic(step::counted(step::wheeled(step::moved(c, gravity), e))));
    assert(near.p == vec3::v3(c.p.x + c.v.x, c.p.y + c.v.y - gravity, c.p.z + c.v.z));
    assert(!near.grounded && near.yaw == c.yaw && near.up == c.up);
    reveal(arena::wall_near);
    let open = step::in_mouth(near.p);
    assert(arena::wall_near(near.p.x as int, near.p.z as int, open).distance >= 16_640);
    assert(ramp::car_on_ramp(near.p, open) == (near.p, None::<V3>));
    let f = step::car_confined(near);
    assert(f == arena::free(near.p.x as int, near.p.z as int, near.v.x as int, near.v.z as int));
    assert(step::surface_met(near) is None);
    assert(step::hemmed(near) == near);
}

proof fn lemma_along_z(k: int)
    ensures
        0 * k == 0,
        4096 * k == k * 4096,
{
    assert(0 * k == 0) by (nonlinear_arith);
}

/// What a turn measures of a car that faces straight up the pitch.
proof fn lemma_level_entry(t: Angles, c: Car)
    requires
        rolls_up_the_pitch(t, c),
    ensures
        drive::entry_of(t, c) == (Entry {
            right: V3 { x: 4096, y: 0, z: 0 },
            up: V3 { x: 0, y: 4096, z: 0 },
            fwd: V3 { x: 0, y: 0, z: 4096 },
            speed: num::abs(c.v.z as int) as i32,
            along: c.v.z,
        }),
{
    let up = c.up;
    let north = V3 { x: 0, y: 0, z: 4096 };
    lemma_level_frame(t, up, c.yaw);
    assert(0int * 0int == 0 && 0int * 4096 == 0);
    assert(vec3::dot(c.v, up) == 0 && vec3::dot(c.v, north) == c.v.z) by {
        reveal(vec3::dot);
        let z = c.v.z as int;
        assert(z * 0 == 0 && z * 4096 == 4096 * z) by (nonlinear_arith);
    }
    assert(vec3::flattened(c.v, up) == c.v) by {
        reveal(vec3::along);
    }
    surfaces::lemma_level_length(c.v);
}

/// The frame of a level car that faces straight up the pitch.
pub proof fn lemma_level_frame(t: Angles, up: V3, yaw: u16)
    requires
        up == (V3 { x: 0, y: 4096, z: 0 }),
        t.sin(yaw) == 0,
        t.cos(yaw) == 4096,
    ensures
        car::frame(t, up, yaw) == (
            V3 { x: 4096, y: 0, z: 0 },
            V3 { x: 0, y: 4096, z: 0 },
            V3 { x: 0, y: 0, z: 4096 },
        ),
        car::nose(t, up, yaw) == (V3 { x: 0, y: 0, z: 4096 }),
{
    let east = V3 { x: 4096, y: 0, z: 0 };
    let north = V3 { x: 0, y: 0, z: 4096 };
    assert(0int * 0int == 0 && 0int * 4096 == 0 && 4096int * 0 == 0 && 4096int * 4096 == 16_777_216);
    assert(vec3::cross(up, north) == east && vec3::cross(east, up) == north) by {
        reveal(vec3::cross_over);
    }
    lemma_unit_axes();
    assert(car::plane_of(up) == (east, north));
    assert(car::blended(east, north, 0, 4096) == north) by {
        reveal(car::blended);
    }
    assert(car::nose(t, up, yaw) == north);
}

proof fn lemma_unit_axes()
    ensures
        (V3 { x: 4096, y: 0, z: 0 }).unit() == (V3 { x: 4096, y: 0, z: 0 }),
        (V3 { x: 0, y: 0, z: 4096 }).unit() == (V3 { x: 0, y: 0, z: 4096 }),
{
    surfaces::lemma_across_length(V3 { x: 4096, y: 0, z: 0 });
    surfaces::lemma_level_length(V3 { x: 0, y: 0, z: 4096 });
    reveal(vec3::scaled);
    assert(0int * 4096 == 0 && 4096int * 4096 == 16_777_216);
}

proof fn lemma_engine(c: Car, input: Input, e: Entry)
    requires
        c.v.x == 0,
        c.v.y == 0,
        -1400 <= c.v.z <= 1400,
        e.fwd == (V3 { x: 0, y: 0, z: 4096 }),
        -1300 <= e.along <= 1300,
        e.speed == num::abs(e.along as int),
        c.v.z - 18 <= e.along <= c.v.z,
        c.up.y == 4096,
    ensures
        ({
            let r = drive::engine(c, input, e);
            let gain = r.z - c.v.z;
            &&& r.x == 0 && r.y == 0
            &&& -62 <= gain <= 62 || (r.z == 0 && input.throttle == 0 && -9 <= e.along <= 9)
            &&& input.throttle >= 128 && e.along >= 0 ==> 2 <= gain <= 28
            &&& input.throttle <= -128 && e.along >= 0 ==> gain == -62
            &&& input.throttle >= 128 && e.along < 0 ==> gain == 62
            &&& input.throttle == 0 && e.along > 9 && c.v.z == e.along ==> gain == -9
            &&& input.throttle == 0 && e.along < -9 && c.v.z == e.along ==> gain == 9
        }),
{
    if input.throttle != 0 {
        driving::law_the_throttle_pushes_along_the_nose(c, input, e);
        let k = drive::throttle_accel(num::clamp(input.throttle as int, -128, 128), e.along as int);
        lemma_along_z(k);
    } else if e.speed > 9 {
        driving::law_a_coasting_car_slows(c, input, e);
        reveal(vec3::scaled);
        let z = c.v.z as int;
        let sp = e.speed as int;
        assert(num::tdiv(0, sp) == 0) by {
            assert(0int / sp == 0) by (nonlinear_arith)
                requires
                    sp > 0,
            ;
        }
        assert(0int * 9 == 0);
        if z == -sp {
            assert((-(z * 9)) / sp == 9) by (nonlinear_arith)
                requires
                    z == -sp,
                    sp > 0,
            ;
        }
        let q = num::tdiv(z * 9, sp);
        num::lemma_tdiv_bound(z * 9, sp, 62);
    }
}

proof fn lemma_no_slide(c: Car, input: Input, e: Entry)
    requires
        drive::engine(c, input, e).x == 0,
        drive::engine(c, input, e).y == 0,
        e.right == (V3 { x: 4096, y: 0, z: 0 }),
        !input.jump_pressed,
    ensures
        drive::driven(c, input, e) == (Car { v: drive::engine(c, input, e), ..c }),
{
    reveal(drive::driven);
    reveal(vec3::dot);
    reveal(vec3::along);
    reveal(vec3::damped);
    let v = drive::engine(c, input, e);
    let z = v.z as int;
    assert(z * 0 == 0 && 0int * 4096 == 0 && 0int * 0int == 0);
    assert(vec3::dot(v, e.right) == 0);
    let g = drive::tyre_grip(0, e.along as int, c.slide as int);
    lemma_along_z(g);
    assert(vec3::damped(0, g) == 0);
    assert(drive::gripped(v, e, c.slide as int) == v);
}

proof fn lemma_under_limit(c: Car, e: Entry)
    requires
        c.v.x == 0,
        c.v.y == 0,
        -1500 <= c.v.z <= 1500,
    ensures
        drive::limited(c, e) == c,
{
    reveal(drive::limited);
    surfaces::lemma_level_length(c.v);
}

/// On the open floor the rest of a turn only moves the car.
proof fn lemma_rest_of_turn(t: Angles, c: Car, e: Entry, gravity: int)
    requires
        c.grounded,
        c.up == (V3 { x: 0, y: 4096, z: 0 }),
        c.p.y == 1792,
        num::abs(c.p.x as int) <= 200_000,
        num::abs(c.p.z as int) <= 200_000,
        c.v.x == 0,
        c.v.y == 0,
        -1500 <= c.v.z <= 1500,
    ensures
        ({
            let near = step::leveled(
                step::sonic(step::counted(step::wheeled(step::moved(c, gravity), e))),
            );
            let r = step::walled(t, near);
            &&& r.v == c.v
            &&& r.p == vec3::v3(c.p.x as int, 1792, c.p.z + c.v.z)
            &&& r.grounded
            &&& r.yaw == c.yaw
            &&& r.boosting == c.boosting
            &&& r.boost == c.boost
        }),
{
    let near = step::leveled(step::sonic(step::counted(step::wheeled(step::moved(c, gravity), e))));
    assert(near.p == vec3::v3(c.p.x as int, 1792, c.p.z + c.v.z));
    assert(near.v == c.v && near.grounded && near.yaw == c.yaw && near.up == c.up);
    reveal(arena::wall_near);
    let open = step::in_mouth(near.p);
    assert(arena::wall_near(near.p.x as int, near.p.z as int, open).distance >= 16_640);
    assert(ramp::car_on_ramp(near.p, open) == (near.p, None::<V3>));
    let f = step::car_confined(near);
    assert(f == arena::free(near.p.x as int, near.p.z as int, near.v.x as int, near.v.z as int));
    assert(step::surface_met(near) is None);
    assert(step::hemmed(near) == near);
}

} // verus!
