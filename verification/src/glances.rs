//! The ball off a surface at any angle: whatever it rubs and however it spins, it
//! comes away from what it ran into.

use vstd::prelude::*;
use crate::arena;
use crate::ball;
use crate::ball::Ball;
use crate::banks;
use crate::bounces;
use crate::flight;
use crate::frame;
use crate::num;
use crate::ramp;
use crate::rebound;
use crate::steady;
use crate::upright;
use crate::vec3;
use crate::vec3::V3;

verus! {

/// The speed of `v` along `n`, in 4096ths.
pub open spec fn across(v: V3, n: V3) -> int {
    v.x * n.x + v.y * n.y + v.z * n.z
}

/// A ball that runs into a surface at any angle comes away from it along its normal
/// at between four and seven tenths of the speed it ran in at.
pub proof fn law_a_ball_comes_away_from_what_it_hits(b: Ball, n: V3)
    requires
        upright::upright(n),
        b.v.within(6400),
        b.w.within(7000),
        across(b.v, n) <= -200 * 4096,
    ensures
        ({
            let r = frame::bounced(b, n);
            let into = -across(b.v, n);
            &&& 4 * into <= 10 * across(r.v, n) <= 7 * into
            &&& r.p == b.p
        }),
{
    let into = -across(b.v, n);
    let vn = vec3::dot(b.v, n);
    let a = -vn;
    assert(4096 * vn <= -into < 4096 * vn + 4096) by {
        reveal(vec3::dot);
    }
    assert(a <= 3 * 6400) by {
        vec3::lemma_dot(b.v, n, 6400);
    }
    let push = frame::bounce_push(vn);
    assert(1638 * a - 1023 <= 1024 * push <= 1638 * a) by {
        reveal(vec3::damped);
    }
    let turned = Ball { v: vec3::added(b.v, n, push), ..b };
    let nn = n.square();
    lemma_added(b.v, n, push);
    let d1 = across(turned.v, n);
    assert(4096 * d1 + into * 4096 - push * nn <= 50_331_648);
    assert(4096 * d1 + into * 4096 - push * nn >= -50_331_648);
    assert(push * nn >= 16_000_000 * push) by (nonlinear_arith)
        requires
            nn >= 16_000_000,
            push >= 0,
    ;
    assert(push * nn <= 16_809_984 * push) by (nonlinear_arith)
        requires
            nn <= 16_809_984,
            push >= 0,
    ;
    assert(a >= 200);
    assert(1024 * (16_000_000 * push) >= 16_000_000 * (1638 * a - 1023));
    assert(1024 * (16_809_984 * push) <= 16_809_984 * (1638 * a));
    assert(2000 * a <= d1 <= 2560 * a);
    vec3::lemma_along(n, push);
    lemma_rub_across(turned, n, push);
    let d2 = across(frame::bounced(b, n).v, n);
    assert(d2 - d1 <= d1 / 50 + 25_000 && d1 - d2 <= d1 / 50 + 25_000);
}

/// Adding `k` along a direction adds `k` times its square to the speed along it.
proof fn lemma_added(v: V3, n: V3, k: int)
    requires
        n.within(4096),
        v.within(0x10_0000),
        num::abs(k) <= 0x10_0000,
    ensures
        num::abs(4096 * across(vec3::added(v, n, k), n) - 4096 * across(v, n) - k * n.square())
            <= 50_331_648,
        vec3::added(v, n, k).within(0x20_0000),
        num::abs(4096 * across(vec3::along(n, k), n) - k * n.square()) <= 50_331_648,
{
    reveal(vec3::along);
    reveal(V3::square);
    let u = vec3::along(n, k);
    num::lemma_mul_bound(n.x as int, k, 4096, 0x10_0000);
    num::lemma_mul_bound(n.y as int, k, 4096, 0x10_0000);
    num::lemma_mul_bound(n.z as int, k, 4096, 0x10_0000);
    lemma_part(n.x as int, k, u.x as int);
    lemma_part(n.y as int, k, u.y as int);
    lemma_part(n.z as int, k, u.z as int);
    let s = vec3::added(v, n, k);
    lemma_sum(v.x as int, u.x as int, n.x as int);
    lemma_sum(v.y as int, u.y as int, n.y as int);
    lemma_sum(v.z as int, u.z as int, n.z as int);
    assert(k * (n.x * n.x + n.y * n.y + n.z * n.z) == k * (n.x * n.x) + k * (n.y * n.y) + k * (n.z * n.z))
        by (nonlinear_arith);
}

proof fn lemma_sum(v: int, u: int, n: int)
    ensures
        (v + u) * n == v * n + u * n,
{
    assert((v + u) * n == v * n + u * n) by (nonlinear_arith);
}

proof fn lemma_part(n: int, k: int, u: int)
    requires
        -4096 <= n <= 4096,
        u == (n * k) / 4096,
    ensures
        num::abs(4096 * (u * n) - k * (n * n)) <= 16_777_216,
{
    let e = n * k - 4096 * u;
    assert(0 <= e < 4096);
    num::lemma_mul_bound(n, e, 4096, 4096);
    assert(4096 * (u * n) == k * (n * n) - n * e) by (nonlinear_arith)
        requires
            4096 * u == n * k - e,
    ;
}

/// The patch of a spinning ball that touches a surface moves along it.
proof fn lemma_spin_across(w: V3, n: V3)
    requires
        n.within(4096),
        w.within(7000),
    ensures
        num::abs(across(vec3::cross_over(w, ball::contact_arm(n), 65536), n)) <= 15_000,
        vec3::cross_over(w, ball::contact_arm(n), 65536).within(2000),
{
    reveal(ball::contact_arm);
    reveal(vec3::cross_over);
    let a = ball::contact_arm(n);
    let (fx, fy, fz) = (-5824 * n.x - 4096 * a.x, -5824 * n.y - 4096 * a.y, -5824 * n.z - 4096 * a.z);
    assert(0 <= fx < 4096 && 0 <= fy < 4096 && 0 <= fz < 4096);
    let (wx, wy, wz) = (w.x as int, w.y as int, w.z as int);
    let (nx, ny, nz) = (n.x as int, n.y as int, n.z as int);
    let (ax, ay, az) = (a.x as int, a.y as int, a.z as int);
    num::lemma_mul_bound(wy, az, 7000, 5824);
    num::lemma_mul_bound(wz, ay, 7000, 5824);
    num::lemma_mul_bound(wz, ax, 7000, 5824);
    num::lemma_mul_bound(wx, az, 7000, 5824);
    num::lemma_mul_bound(wx, ay, 7000, 5824);
    num::lemma_mul_bound(wy, ax, 7000, 5824);
    let (kx, ky, kz) = (wy * az - wz * ay, wz * ax - wx * az, wx * ay - wy * ax);
    let c = vec3::cross_over(w, a, 65536);
    assert(c.x == kx / 65536 && c.y == ky / 65536 && c.z == kz / 65536);
    let (gx, gy, gz) = (kx - 65536 * c.x, ky - 65536 * c.y, kz - 65536 * c.z);
    assert(0 <= gx < 65536 && 0 <= gy < 65536 && 0 <= gz < 65536);
    let (bx, by, bz) = (ny * wz - nz * wy, nz * wx - nx * wz, nx * wy - ny * wx);
    num::lemma_mul_bound(ny, wz, 4096, 7000);
    num::lemma_mul_bound(nz, wy, 4096, 7000);
    num::lemma_mul_bound(nz, wx, 4096, 7000);
    num::lemma_mul_bound(nx, wz, 4096, 7000);
    num::lemma_mul_bound(nx, wy, 4096, 7000);
    num::lemma_mul_bound(ny, wx, 4096, 7000);
    lemma_triple(nx, ny, nz, wx, wy, wz, ax, ay, az);
    lemma_triple(nx, ny, nz, wx, wy, wz, nx, ny, nz);
    assert(nx * (wy * nz - wz * ny) + ny * (wz * nx - wx * nz) + nz * (wx * ny - wy * nx) == 0)
        by (nonlinear_arith);
    let t = nx * kx + ny * ky + nz * kz;
    assert(t == ax * bx + ay * by + az * bz);
    assert(4096 * (ax * bx) == (-5824 * nx - fx) * bx) by (nonlinear_arith)
        requires
            4096 * ax == -5824 * nx - fx,
    ;
    assert(4096 * (ay * by) == (-5824 * ny - fy) * by) by (nonlinear_arith)
        requires
            4096 * ay == -5824 * ny - fy,
    ;
    assert(4096 * (az * bz) == (-5824 * nz - fz) * bz) by (nonlinear_arith)
        requires
            4096 * az == -5824 * nz - fz,
    ;
    assert((-5824 * nx - fx) * bx == -5824 * (nx * bx) - fx * bx) by (nonlinear_arith);
    assert((-5824 * ny - fy) * by == -5824 * (ny * by) - fy * by) by (nonlinear_arith);
    assert((-5824 * nz - fz) * bz == -5824 * (nz * bz) - fz * bz) by (nonlinear_arith);
    assert(nx * bx + ny * by + nz * bz == 0);
    num::lemma_mul_bound(fx, bx, 4096, 57_344_000);
    num::lemma_mul_bound(fy, by, 4096, 57_344_000);
    num::lemma_mul_bound(fz, bz, 4096, 57_344_000);
    assert(num::abs(4096 * t) <= 704_643_072_000);
    assert(num::abs(t) <= 172_032_000);
    num::lemma_mul_bound(nx, gx, 4096, 65536);
    num::lemma_mul_bound(ny, gy, 4096, 65536);
    num::lemma_mul_bound(nz, gz, 4096, 65536);
    assert(65536 * (c.x * nx) == nx * kx - nx * gx) by (nonlinear_arith)
        requires
            65536 * c.x == kx - gx,
    ;
    assert(65536 * (c.y * ny) == ny * ky - ny * gy) by (nonlinear_arith)
        requires
            65536 * c.y == ky - gy,
    ;
    assert(65536 * (c.z * nz) == nz * kz - nz * gz) by (nonlinear_arith)
        requires
            65536 * c.z == kz - gz,
    ;
}

/// A triple product, taken about its last factor.
proof fn lemma_triple(nx: int, ny: int, nz: int, wx: int, wy: int, wz: int, ax: int, ay: int, az: int)
    ensures
        nx * (wy * az - wz * ay) + ny * (wz * ax - wx * az) + nz * (wx * ay - wy * ax) == ax * (ny * wz
            - nz * wy) + ay * (nz * wx - nx * wz) + az * (nx * wy - ny * wx),
{
    assert(nx * (wy * az - wz * ay) == az * (nx * wy) - ay * (nx * wz)) by (nonlinear_arith);
    assert(ny * (wz * ax - wx * az) == ax * (ny * wz) - az * (ny * wx)) by (nonlinear_arith);
    assert(nz * (wx * ay - wy * ax) == ay * (nz * wx) - ax * (nz * wy)) by (nonlinear_arith);
    assert(ax * (ny * wz - nz * wy) == ax * (ny * wz) - ax * (nz * wy)) by (nonlinear_arith);
    assert(ay * (nz * wx - nx * wz) == ay * (nz * wx) - ay * (nx * wz)) by (nonlinear_arith);
    assert(az * (nx * wy - ny * wx) == az * (nx * wy) - az * (ny * wx)) by (nonlinear_arith);
}

/// Rubbing hardly changes the speed along the normal.
proof fn lemma_rub_across(b: Ball, n: V3, push: int)
    requires
        upright::upright(n),
        b.v.within(0x1_8000),
        b.w.within(7000),
        push > 0,
        across(b.v, n) >= 0,
    ensures
        ({
            let d1 = across(b.v, n);
            let d2 = across(ball::rubbed(b, n, push, 358, vec3::zero3()).v, n);
            &&& d2 - d1 <= d1 / 50 + 25_000
            &&& d1 - d2 <= d1 / 50 + 25_000
        }),
{
    let d1 = across(b.v, n);
    lemma_spin_across(b.w, n);
    let spun = vec3::cross_over(b.w, ball::contact_arm(n), 65536);
    let rel = ball::patch_velocity(b, n, vec3::zero3());
    lemma_sum(b.v.x as int, spun.x as int, n.x as int);
    lemma_sum(b.v.y as int, spun.y as int, n.y as int);
    lemma_sum(b.v.z as int, spun.z as int, n.z as int);
    let dr = across(rel, n);
    assert(num::abs(dr - d1) <= 15_000);
    let k = vec3::dot(rel, n);
    assert(4096 * k <= dr < 4096 * k + 4096) by {
        reveal(vec3::dot);
    }
    vec3::lemma_dot(rel, n, 0x2_0000);
    let out = vec3::along(n, k);
    lemma_added(rel, n, k);
    vec3::lemma_along(n, k);
    let slip = vec3::flattened(rel, n);
    lemma_sum(rel.x - out.x, out.x as int, n.x as int);
    lemma_sum(rel.y - out.y, out.y as int, n.y as int);
    lemma_sum(rel.z - out.z, out.z as int, n.z as int);
    let ds = across(slip, n);
    assert(ds == dr - across(out, n));
    let nn = n.square();
    assert(num::abs(4096 * across(out, n) - k * nn) <= 50_331_648);
    assert(k >= 0 ==> 16_000_000 * k <= k * nn <= 16_809_984 * k) by (nonlinear_arith)
        requires
            16_000_000 <= nn <= 16_809_984,
    ;
    assert(k < 0 ==> 16_809_984 * k <= k * nn <= 16_000_000 * k) by (nonlinear_arith)
        requires
            16_000_000 <= nn <= 16_809_984,
    ;
    assert(num::abs(ds) <= d1 / 20 + 20_000);
    if slip.length() >= 2 {
        let take = ball::stopping_share(slip.length(), push, 358);
        lemma_share(slip.length(), push);
        let part = take * 2 / 7;
        lemma_taken_across(b.v, slip, n, part);
        num::lemma_mul_bound(part, ds, 1170, d1 / 20 + 20_000);
    }
}

proof fn lemma_share(slip: int, push: int)
    requires
        2 <= slip,
        0 < push,
    ensures
        0 <= ball::stopping_share(slip, push, 358) <= 4096,
{
    reveal(ball::stopping_share);
    let full = slip * 2 / 7;
    let cap = (push * 358) / 1024;
    if full > cap {
        assert(0 <= 4096 * cap / full <= 4096) by (nonlinear_arith)
            requires
                0 <= cap < full,
        ;
    }
}

proof fn lemma_taken_across(v: V3, slip: V3, n: V3, part: int)
    requires
        n.within(4096),
        v.within(0x10_0000),
        slip.within(0x80_0000),
        0 <= part <= 1170,
    ensures
        ({
            let r = vec3::sub3(v, vec3::along(slip, part));
            num::abs(4096 * (across(v, n) - across(r, n)) - part * across(slip, n)) <= 50_331_648
        }),
{
    reveal(vec3::along);
    let u = vec3::along(slip, part);
    num::lemma_mul_bound(slip.x as int, part, 0x80_0000, 1170);
    num::lemma_mul_bound(slip.y as int, part, 0x80_0000, 1170);
    num::lemma_mul_bound(slip.z as int, part, 0x80_0000, 1170);
    lemma_taken_part(slip.x as int, part, n.x as int, u.x as int);
    lemma_taken_part(slip.y as int, part, n.y as int, u.y as int);
    lemma_taken_part(slip.z as int, part, n.z as int, u.z as int);
    lemma_sum(v.x - u.x, u.x as int, n.x as int);
    lemma_sum(v.y - u.y, u.y as int, n.y as int);
    lemma_sum(v.z - u.z, u.z as int, n.z as int);
    assert(part * (slip.x * n.x + slip.y * n.y + slip.z * n.z) == part * (slip.x * n.x) + part * (slip.y
        * n.y) + part * (slip.z * n.z)) by (nonlinear_arith);
}

proof fn lemma_taken_part(s: int, part: int, n: int, u: int)
    requires
        -4096 <= n <= 4096,
        u == (s * part) / 4096,
    ensures
        num::abs(4096 * (u * n) - part * (s * n)) <= 16_777_216,
{
    let e = s * part - 4096 * u;
    assert(0 <= e < 4096);
    num::lemma_mul_bound(n, e, 4096, 4096);
    assert(4096 * (u * n) == part * (s * n) - n * e) by (nonlinear_arith)
        requires
            4096 * u == s * part - e,
    ;
}

/// A ball that runs into the side wall's quarter pipe is thrown off it: put on the
/// arc, and sent away along the normal there.
pub proof fn law_the_quarter_pipe_throws_the_ball_off(b: Ball)
    requires
        banks::by_a_side_wall(b.p),
        -16_640 <= b.p.y <= 200_000,
        b.v.within(6400),
        b.w.within(7000),
        banks::leans_out(b.p) > 0,
        banks::leans_down(b.p) > 0,
        ({
            let (h, v) = (banks::leans_out(b.p), banks::leans_down(b.p));
            h * h + v * v >= 10_817 * 10_817
        }),
    ensures
        ({
            let r = flight::up_ramp(b);
            let (q, normal) = ramp::ball_on_ramp(b.p, false);
            &&& normal matches Some(n) ==> {
                &&& r.p == q
                &&& across(b.v, n) >= 0 ==> r.v == b.v
                &&& across(b.v, n) <= -200 * 4096 ==> across(r.v, n) > 0
            }
        }),
{
    banks::law_the_ball_meets_the_quarter_pipe(b.p, false);
    let (q, normal) = ramp::ball_on_ramp(b.p, false);
    reveal(arena::ball_wall_near);
    let w = arena::ball_wall_near(b.p.x as int, b.p.z as int, false);
    let (h, v) = (ramp::lean(w.distance as int), ramp::lean(b.p.y as int));
    if let Some(n) = normal {
        steady::lemma_arc_normal(w.inward, h, v, 10_816);
        assert(upright::upright(n));
        let on = Ball { p: q, ..b };
        if across(b.v, n) <= -200 * 4096 {
            law_a_ball_comes_away_from_what_it_hits(on, n);
        } else if across(b.v, n) >= 0 {
            reveal(vec3::dot);
        }
    }
}

/// Beside a goal the quarter pipe runs up the end wall too: a ball low down against
/// it is lifted up it and back from it.
pub proof fn law_the_end_wall_has_its_quarter_pipe(b: Ball)
    requires
        60_000 <= num::abs(b.p.x as int) <= 150_000,
        315_000 <= num::abs(b.p.z as int) < 321_856,
        0 <= b.p.y <= 5900,
    ensures
        ({
            let r = flight::up_ramp(b);
            &&& r.p.y >= b.p.y
            &&& r.p.x == b.p.x
            &&& b.p.z > 0 ==> r.p.z < b.p.z
            &&& b.p.z < 0 ==> r.p.z > b.p.z
            &&& ramp::ball_on_ramp(b.p, false).1 matches Some(n) && {
                &&& b.p.z > 0 ==> n.z <= 0
                &&& b.p.z < 0 ==> n.z >= 0
                &&& n.y >= 0
            }
        }),
{
    reveal(arena::ball_wall_near);
    let w = arena::ball_wall_near(b.p.x as int, b.p.z as int, false);
    assert(w == arena::end_wall(b.p.z as int));
    let (h, v) = (ramp::lean(w.distance as int), ramp::lean(b.p.y as int));
    assert(h == num::abs(b.p.z as int) - 311_040 && v == 16_640 - b.p.y);
    num::lemma_mul_bound(h, h, 10_816, 10_816);
    num::lemma_mul_bound(v, v, 16_640, 16_640);
    assert(h * h >= 3960 * 3960 && v * v >= 10_740 * 10_740) by (nonlinear_arith)
        requires
            h >= 3960,
            v >= 10_740,
    ;
    banks::lemma_lean_root(h, v);
    let length = ramp::lean_length(h, v);
    banks::lemma_reaches(length, h * h + v * v, 10_817);
    ramp::lemma_lean_fits(h, v);
    steady::lemma_onto(h, 10_816, length);
    steady::lemma_onto(v, 10_816, length);
    reveal(ramp::onto_arc);
    let (ph, pv) = (ramp::onto_arc(h, 10_816, length), ramp::onto_arc(v, 10_816, length));
    assert(ph < h) by (nonlinear_arith)
        requires
            ph == (h * 10_816) / length,
            length >= 10_817,
            h >= 1,
    ;
    let k = ramp::RAMP - ph - w.distance;
    let m = w.inward.z as int;
    reveal(vec3::along);
    assert(0 * k == 0) by (nonlinear_arith);
    assert(m == 4096 ==> m * k == 4096 * k) by (nonlinear_arith);
    assert(m == -4096 ==> m * k == -(4096 * k)) by (nonlinear_arith);
    let n = ramp::arc_normal(w.inward, ph, pv, 10_816);
    lemma_arc_sides(w.inward, ph, pv);
    assert(ramp::ball_on_ramp(b.p, false).1 == Some(n));
}

/// The normal of an arc along an end wall faces away from the wall and up.
proof fn lemma_arc_sides(inward: V3, ph: int, pv: int)
    requires
        inward.z == 4096 || inward.z == -4096,
        inward.x == 0,
        inward.y == 0,
        0 <= ph <= 10_816,
        0 <= pv <= 10_816,
    ensures
        ({
            let n = ramp::arc_normal(inward, ph, pv, 10_816);
            &&& inward.z > 0 ==> n.z >= 0
            &&& inward.z < 0 ==> n.z <= 0
            &&& n.y >= 0
        }),
{
    reveal(ramp::arc_normal);
    let m = inward.z as int;
    assert(m == 4096 ==> m * ph == 4096 * ph) by (nonlinear_arith);
    assert(m == -4096 ==> m * ph == -(4096 * ph)) by (nonlinear_arith);
    assert(0 * ph == 0) by (nonlinear_arith);
    let z = num::tdiv(m * ph, 10_816);
    let y = (4096 * pv) / 10_816;
    let d = vec3::v3(0, y, z);
    assert(-4096 <= z <= 4096 && 0 <= y <= 4096);
    reveal(V3::square);
    num::lemma_mul_bound(z, z, 4096, 4096);
    num::lemma_mul_bound(y, y, 4096, 4096);
    assert(0int * 0int == 0);
    vec3::lemma_length_covers(d);
    let len = num::max(d.length(), 1);
    reveal(vec3::scaled);
    let (py, pz) = (y * 4096, z * 4096);
    assert(py / len >= 0) by (nonlinear_arith)
        requires
            py >= 0,
            len >= 1,
    ;
    assert(pz >= 0 ==> pz / len >= 0) by (nonlinear_arith)
        requires
            len >= 1,
    ;
    assert(pz <= 0 ==> (-pz) / len >= 0) by (nonlinear_arith)
        requires
            len >= 1,
    ;
    num::lemma_tdiv_bound(py, len, 4096);
    num::lemma_tdiv_bound(pz, len, 4096);
}

/// A ball that flies into a corner comes out of it: its speed toward the corner is
/// turned round.
pub proof fn law_a_ball_comes_out_of_a_corner(b: Ball, gravity: int)
    requires
        bounces::in_flight(b, gravity),
        b.w.within(7000),
        ({
            let to = bounces::heads_for(b, gravity);
            let (sx, sz) = (num::sign(to.x as int), num::sign(to.z as int));
            &&& 170_000 <= num::abs(to.x as int) <= 256_320
            &&& 200_000 <= num::abs(to.z as int) <= 320_000
            &&& num::abs(to.x as int) + num::abs(to.z as int) > 516_096
            &&& 60_000 <= to.y <= 124_992
            &&& b.v.x * sx >= 300 && b.v.z * sz >= 300
        }),
    ensures
        ({
            let r = flight::flown(b, gravity);
            let to = bounces::heads_for(b, gravity);
            let (sx, sz) = (num::sign(to.x as int), num::sign(to.z as int));
            r.v.x * sx + r.v.z * sz < 0
        }),
{
    bounces::lemma_drift(b, gravity);
    let d = flight::drifted(b, gravity);
    let level = flight::under_ceiling(flight::on_floor(d, gravity));
    assert(level == (Ball { grounded: false, ..d }));
    assert(frame::off_frame(level) == level);
    assert(flight::up_ramp(level) == level);
    let (x, z, vx, vz) = (level.p.x as int, level.p.z as int, level.v.x as int, level.v.z as int);
    let (sx, sz) = (num::sign(x), num::sign(z));
    rebound::law_a_corner_turns_a_body_back(x, z, vx, vz, 91, 614, false);
    let c = flight::ball_confined(level);
    rebound::lemma_times_sign(sx, b.v.x as int);
    rebound::lemma_times_sign(sz, b.v.z as int);
    rebound::lemma_times_sign(sx, vx);
    rebound::lemma_times_sign(sz, vz);
    rebound::lemma_times_sign(sx, c.vx);
    rebound::lemma_times_sign(sz, c.vz);
    rebound::lemma_times_sign(sx, c.normal.x as int);
    rebound::lemma_times_sign(sz, c.normal.z as int);
    let into = vx * sx + vz * sz;
    let after = c.vx * sx + c.vz * sz;
    assert(into >= 590 && into <= 6040);
    assert(-4000 <= after <= -330);
    assert(-8000 <= c.vx <= 8000 && -8000 <= c.vz <= 8000);
    let held = Ball {
        p: vec3::v3(c.x, level.p.y as int, c.z),
        v: vec3::v3(c.vx, level.v.y as int, c.vz),
        ..level
    };
    let n = c.normal;
    assert(upright::upright(n)) by {
        reveal(V3::square);
        lemma_corner_square(n.x as int, n.z as int);
        assert(0int * 0int == 0);
    }
    lemma_corner_across(held.v, n, sx, sz);
    lemma_corner_across(level.v, n, sx, sz);
    assert(across(held.v, n) == -2896 * after);
    assert(across(level.v, n) == -2896 * into);
    let push = vec3::dot(held.v, n) - vec3::dot(level.v, n);
    assert(push > 0) by {
        reveal(vec3::dot);
    }
    lemma_rub_across(held, n, push);
    let r = flight::within_walls(level);
    lemma_corner_across(r.v, n, sx, sz);
}

proof fn lemma_corner_square(nx: int, nz: int)
    requires
        nx == 2896 || nx == -2896,
        nz == 2896 || nz == -2896,
    ensures
        nx * nx + nz * nz == 16_773_632,
{
    assert(nx * nx == 8_386_816 && nz * nz == 8_386_816) by (nonlinear_arith)
        requires
            nx == 2896 || nx == -2896,
            nz == 2896 || nz == -2896,
    ;
}

proof fn lemma_corner_across(v: V3, n: V3, sx: int, sz: int)
    requires
        sx == 1 || sx == -1,
        sz == 1 || sz == -1,
        n.x * sx == -2896,
        n.z * sz == -2896,
        n.y == 0,
    ensures
        across(v, n) == -2896 * (v.x * sx + v.z * sz),
{
    let (x, y, z) = (v.x as int, v.y as int, v.z as int);
    rebound::lemma_times_sign(sx, n.x as int);
    rebound::lemma_times_sign(sz, n.z as int);
    rebound::lemma_times_sign(sx, x);
    rebound::lemma_times_sign(sz, z);
    assert(v.y * n.y == 0) by (nonlinear_arith)
        requires
            n.y == 0,
    ;
    assert(n.x == -2896 * sx && n.z == -2896 * sz);
    assert(v.x * n.x == -2896 * (v.x * sx)) by (nonlinear_arith)
        requires
            n.x == -2896 * sx,
    ;
    assert(v.z * n.z == -2896 * (v.z * sz)) by (nonlinear_arith)
        requires
            n.z == -2896 * sz,
    ;
}

} // verus!
