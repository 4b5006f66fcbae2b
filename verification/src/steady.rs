//! One tick of flight keeps the ball in range, whatever it meets on the way.
//!
//! The speed is capped before the ball meets anything. A bounce off a unit
//! normal adds no speed; off the goal frame, where the normal of a ball almost
//! dead centre on a post rounds to something longer than a unit, it can.

use vstd::prelude::*;
use crate::arena;
use crate::ball;
use crate::ball::Ball;
use crate::bounds;
use crate::flight;
use crate::frame;
use crate::num;
use crate::place;
use crate::ramp;
use crate::tuning::{BALL_BOUNCE, BALL_FRICTION, SPIN_PER_SLIP, SQRT2_Q12};
use crate::upright;
use crate::vec3;
use crate::vec3::V3;

verus! {

// ---- one rub -----------------------------------------------------------

/// The arm to a contact is one ball radius long, for a unit normal.
proof fn lemma_arm(n: V3)
    requires
        n.within(4096),
    ensures
        bounds::short(ball::contact_arm(n), 10_091),
        bounds::is_normal(n) ==> bounds::short(ball::contact_arm(n), 5832),
{
    let arm = ball::contact_arm(n);
    reveal(ball::contact_arm);
    bounds::lemma_direction(n);
    let (x, y, z) = (-(n.x * 5824), -(n.y * 5824), -(n.z * 5824));
    assert(bounds::sum_sq(x, y, z) == 33_918_976 * n.square()) by {
        reveal(V3::square);
        assert(x * x == 33_918_976 * (n.x * n.x) && y * y == 33_918_976 * (n.y * n.y) && z * z
            == 33_918_976 * (n.z * n.z)) by (nonlinear_arith)
            requires
                x == -(n.x * 5824),
                y == -(n.y * 5824),
                z == -(n.z * 5824),
        ;
    }
    reveal(V3::square);
    bounds::lemma_rounded(x, y, z, arm.x as int, arm.y as int, arm.z as int, 10_089);
    if bounds::is_normal(n) {
        bounds::lemma_rounded(x, y, z, arm.x as int, arm.y as int, arm.z as int, 5830);
    }
}

/// How fast the spin moves the ball's surface.
pub open spec fn surface(w: V3, n: V3) -> V3 {
    vec3::cross_over(w, ball::contact_arm(n), 65536)
}

proof fn lemma_surface_with(w: V3, arm: V3, wl: int, al: int)
    requires
        bounds::short(w, wl),
        bounds::short(arm, al),
        0 <= wl <= 0x10_0000,
        0 <= al <= 16384,
    ensures
        bounds::short(vec3::cross_over(w, arm, 65536), (wl * al) / 65536 + 3),
{
    bounds::lemma_within(w, wl);
    bounds::lemma_within(arm, al);
    let (x, y, z) = (
        w.y * arm.z - w.z * arm.y,
        w.z * arm.x - w.x * arm.z,
        w.x * arm.y - w.y * arm.x,
    );
    bounds::lemma_cross_length(
        w.x as int,
        w.y as int,
        w.z as int,
        arm.x as int,
        arm.y as int,
        arm.z as int,
    );
    let c = (wl * al) / 65536 + 1;
    assert(0 <= wl * al) by (nonlinear_arith)
        requires
            0 <= wl,
            0 <= al,
    ;
    assert(w.square() * arm.square() <= (wl * al) * (wl * al)) by {
        let (p, q) = (w.square(), arm.square());
        assert(0 <= p && 0 <= q) by {
            reveal(V3::square);
            assert(w.x * w.x >= 0 && w.y * w.y >= 0 && w.z * w.z >= 0 && arm.x * arm.x >= 0 && arm.y
                * arm.y >= 0 && arm.z * arm.z >= 0) by (nonlinear_arith);
        }
        let (m, n) = (wl * wl, al * al);
        assert(p * q <= m * n) by (nonlinear_arith)
            requires
                0 <= p <= m,
                0 <= q <= n,
        ;
        assert(m * n == (wl * al) * (wl * al)) by (nonlinear_arith)
            requires
                m == wl * wl,
                n == al * al,
        ;
    }
    bounds::lemma_square_grows(wl * al, 65536 * c);
    num::lemma_mul_bound(w.y as int, arm.z as int, wl, al);
    num::lemma_mul_bound(w.z as int, arm.y as int, wl, al);
    num::lemma_mul_bound(w.z as int, arm.x as int, wl, al);
    num::lemma_mul_bound(w.x as int, arm.z as int, wl, al);
    num::lemma_mul_bound(w.x as int, arm.y as int, wl, al);
    num::lemma_mul_bound(w.y as int, arm.x as int, wl, al);
    num::lemma_mul_bound(wl, al, 0x10_0000, 16384);
    reveal(V3::square);
    reveal(vec3::cross_over);
    let r = vec3::cross_over(w, arm, 65536);
    bounds::lemma_rounded_wide(x, y, z, r.x as int, r.y as int, r.z as int, c);
}

proof fn lemma_surface(w: V3, n: V3, wl: int)
    requires
        bounds::short(w, wl),
        n.within(4096),
        0 <= wl <= 0x10_0000,
    ensures
        bounds::short(surface(w, n), (wl * 10_091) / 65536 + 3),
        bounds::is_normal(n) ==> bounds::short(surface(w, n), (wl * 5832) / 65536 + 3),
{
    lemma_arm(n);
    lemma_surface_with(w, ball::contact_arm(n), wl, 10_091);
    if bounds::is_normal(n) {
        lemma_surface_with(w, ball::contact_arm(n), wl, 5832);
    }
}

/// One component of a slip turned about a direction.
proof fn lemma_turn(a: int, b: int, s: int, t: int, sl: int, nl: int)
    requires
        a * a + b * b <= nl * nl,
        s * s + t * t <= sl * sl,
        0 <= sl,
        0 <= nl,
    ensures
        4096 * num::abs((a * t - b * s) / 4096) <= sl * nl + 4096,
{
    let c = -b;
    assert(c * c == b * b && c * s == -(b * s)) by (nonlinear_arith)
        requires
            c == -b,
    ;
    assert(0int * 0int == 0);
    bounds::lemma_cauchy(t, s, 0, a, c, 0, sl, nl);
    assert(t * a == a * t && s * c == c * s) by (nonlinear_arith);
}

/// What one component of a turned slip pays into the spin.
proof fn lemma_paid(turn: int, take: int, m: int)
    requires
        num::abs(turn) <= m,
        0 <= take <= 4096,
    ensures
        1024 * num::abs(ball::spin_gain(turn, take)) <= 8230 * m + 1024,
{
    num::lemma_mul_bound(turn, take, m, 4096);
    let paid = (turn * take) / 4096;
    assert(num::abs(paid) <= m);
    assert(num::abs(paid * SPIN_PER_SLIP) <= 8230 * m);
    reveal(ball::spin_gain);
}

/// The spin after a rub whose slip is short.
proof fn lemma_spun(w: V3, n: V3, slip: V3, take: int, wb: int, sl: int)
    requires
        w.within(wb),
        n.within(4096),
        bounds::short(slip, sl),
        0 <= take <= 4096,
        0 <= wb <= 0x4_0000,
        0 <= sl <= 0x10_0000,
    ensures
        vec3::capped(ball::spun_up(w, n, slip, take), 6554).within(
            num::max(6554, (wb + 12 * sl + 20) / 7 + 1),
        ),
        bounds::is_normal(n) ==> vec3::capped(ball::spun_up(w, n, slip, take), 6554).within(
            num::max(6554, (wb + 9 * sl + 20) / 7 + 1),
        ),
{
    bounds::lemma_within(slip, sl);
    reveal(V3::square);
    let turn = vec3::cross(n, slip);
    vec3::lemma_cross(n, slip, sl);
    let (a, b, c) = (n.x as int, n.y as int, n.z as int);
    let (s, t, u) = (slip.x as int, slip.y as int, slip.z as int);
    assert(s * s >= 0 && t * t >= 0 && u * u >= 0 && a * a >= 0 && b * b >= 0 && c * c >= 0)
        by (nonlinear_arith);
    num::lemma_mul_bound(a, a, 4096, 4096);
    num::lemma_mul_bound(b, b, 4096, 4096);
    num::lemma_mul_bound(c, c, 4096, 4096);
    num::lemma_mul_bound(b, u, 4096, sl);
    num::lemma_mul_bound(c, t, 4096, sl);
    num::lemma_mul_bound(c, s, 4096, sl);
    num::lemma_mul_bound(a, u, 4096, sl);
    num::lemma_mul_bound(a, t, 4096, sl);
    num::lemma_mul_bound(b, s, 4096, sl);
    lemma_turn(b, c, t, u, sl, 5793);
    lemma_turn(c, a, u, s, sl, 5793);
    lemma_turn(a, b, s, t, sl, 5793);
    reveal(vec3::cross_over);
    let m = (5793 * sl) / 4096 + 1;
    lemma_paid(turn.x as int, take, m);
    lemma_paid(turn.y as int, take, m);
    lemma_paid(turn.z as int, take, m);
    let spun = ball::spun_up(w, n, slip, take);
    assert(spun.within(wb + 12 * sl + 20));
    vec3::lemma_capped(spun, 6554, wb + 12 * sl + 20);
    if bounds::is_normal(n) {
        lemma_turn(b, c, t, u, sl, 4100);
        lemma_turn(c, a, u, s, sl, 4100);
        lemma_turn(a, b, s, t, sl, 4100);
        let k = (4100 * sl) / 4096 + 1;
        lemma_paid(turn.x as int, take, k);
        lemma_paid(turn.y as int, take, k);
        lemma_paid(turn.z as int, take, k);
        assert(spun.within(wb + 9 * sl + 20));
        vec3::lemma_capped(spun, 6554, wb + 9 * sl + 20);
    }
}

/// What a rub against a unit normal leaves of the ball.
proof fn lemma_rub(b: Ball, n: V3, push: int, vb: int, wb: int, q: int)
    requires
        bounds::short(b.v, vb),
        b.w.within(wb),
        n.within(4096),
        bounds::is_normal(n),
        bounds::short(surface(b.w, n), q),
        0 <= vb <= 0x2_0000,
        0 <= wb <= 0x4_0000,
        0 <= q <= 0x2_0000,
    ensures
        ({
            let r = ball::rubbed(b, n, push, BALL_FRICTION as int, vec3::zero3());
            &&& bounds::short(r.v, vb + vb / 500 + q / 2 + 32)
            &&& r.w.within(num::max(num::max(wb, 6554), (wb + 9 * (vb + q + 4) + 20) / 7 + 1))
            &&& r.p == b.p
        }),
{
    let sp = surface(b.w, n);
    let u = vec3::add3(b.v, sp);
    bounds::lemma_within(b.v, vb);
    bounds::lemma_within(sp, q);
    assert(ball::patch_velocity(b, n, vec3::zero3()) == u);
    let slip = vec3::flattened(u, n);
    bounds::lemma_sum(b.v, sp, vb, q);
    bounds::lemma_flattened(u, n, vb + q);
    if push > 0 && slip.length() >= 2 {
        let take = ball::stopping_share(slip.length(), push, BALL_FRICTION as int);
        ball::lemma_share(slip.length(), push, BALL_FRICTION as int);
        bounds::lemma_rubbed(b.v, sp, n, take * 2 / 7, vb, q);
        lemma_spun(b.w, n, slip, take, wb, vb + q + 4);
    } else {
        bounds::lemma_longer(b.v, vb, vb + vb / 500 + q / 2 + 32);
    }
}

/// What a rub against any direction leaves of the ball.
proof fn lemma_scrape(b: Ball, n: V3, push: int, vb: int, wb: int, q: int)
    requires
        bounds::short(b.v, vb),
        b.w.within(wb),
        n.within(4096),
        bounds::short(surface(b.w, n), q),
        0 <= vb <= 0x2_0000,
        0 <= wb <= 0x4_0000,
        0 <= q <= 0x2_0000,
    ensures
        ({
            let r = ball::rubbed(b, n, push, BALL_FRICTION as int, vec3::zero3());
            let s = 2 * (vb + q) + (vb + q) / 100 + 6;
            &&& bounds::short(r.v, vb + (s * 1170) / 4096 + 3)
            &&& r.w.within(num::max(num::max(wb, 6554), (wb + 12 * s + 20) / 7 + 1))
            &&& r.p == b.p
        }),
{
    let sp = surface(b.w, n);
    let u = vec3::add3(b.v, sp);
    bounds::lemma_within(b.v, vb);
    bounds::lemma_within(sp, q);
    assert(ball::patch_velocity(b, n, vec3::zero3()) == u);
    let slip = vec3::flattened(u, n);
    let s = 2 * (vb + q) + (vb + q) / 100 + 6;
    bounds::lemma_sum(b.v, sp, vb, q);
    bounds::lemma_flattened(u, n, vb + q);
    if push > 0 && slip.length() >= 2 {
        let take = ball::stopping_share(slip.length(), push, BALL_FRICTION as int);
        ball::lemma_share(slip.length(), push, BALL_FRICTION as int);
        let k = take * 2 / 7;
        bounds::lemma_part(slip, k, s);
        assert((s * k) / 4096 <= (s * 1170) / 4096) by {
            assert(s * k <= s * 1170) by (nonlinear_arith)
                requires
                    0 <= k <= 1170,
                    0 <= s,
            ;
        }
        assert(0 <= s * k) by (nonlinear_arith)
            requires
                0 <= k,
                0 <= s,
        ;
        bounds::lemma_longer(
            vec3::along(slip, k),
            (s * k) / 4096 + 3,
            (s * 1170) / 4096 + 3,
        );
        bounds::lemma_sum(b.v, vec3::along(slip, k), vb, (s * 1170) / 4096 + 3);
        lemma_spun(b.w, n, slip, take, wb, s);
    } else {
        bounds::lemma_longer(b.v, vb, vb + (s * 1170) / 4096 + 3);
    }
}

// ---- the stages of a flight --------------------------------------------

/// Falling and drifting leaves the ball at the speed cap.
proof fn lemma_drift(b: Ball, gravity: int)
    requires
        b.p.within(480_000),
        b.v.within(25_000),
        0 <= gravity <= 1000,
    ensures
        ({
            let r = flight::drifted(b, gravity);
            &&& r.p.within(506_000)
            &&& bounds::short(r.v, 6401)
            &&& r.w == b.w
        }),
{
    let v = vec3::v3(b.v.x as int, b.v.y - gravity, b.v.z as int);
    num::lemma_mul_bound(v.x as int, 4094, 25_000, 4094);
    num::lemma_mul_bound(v.z as int, 4094, 25_000, 4094);
    reveal(vec3::damped12);
    let dragged = vec3::v3(
        vec3::damped12(v.x as int, 4094),
        v.y as int,
        vec3::damped12(v.z as int, 4094),
    );
    assert(dragged.within(26_000));
    assert(dragged.square() <= i32::MAX) by {
        reveal(V3::square);
        num::lemma_mul_bound(dragged.x as int, dragged.x as int, 26_000, 26_000);
        num::lemma_mul_bound(dragged.y as int, dragged.y as int, 26_000, 26_000);
        num::lemma_mul_bound(dragged.z as int, dragged.z as int, 26_000, 26_000);
    }
    bounds::lemma_capped(dragged, 6400);
}

/// The flat walls and the corner planes have unit normals.
pub proof fn lemma_axis(n: V3)
    requires
        vec3::is_axis(n) || vec3::is_chamfer(n),
    ensures
        bounds::is_normal(n),
        n.within(4096),
        vec3::is_axis(n) || num::abs(n.x as int) == 2896 && num::abs(n.z as int) == 2896
            ==> upright::upright(n),
{
    reveal(V3::square);
    let (a, b, c): (int, int, int) = if vec3::is_chamfer(n) {
        (2896, 0, 2896)
    } else {
        (num::abs(n.x as int), num::abs(n.y as int), num::abs(n.z as int))
    };
    num::lemma_mul_bound(n.x as int, n.x as int, a, a);
    num::lemma_mul_bound(n.y as int, n.y as int, b, b);
    num::lemma_mul_bound(n.z as int, n.z as int, c, c);
    assert(4096int * 4096int == 16_777_216 && 0int * 0int == 0 && 2896int * 2896int == 8_386_816);
    lemma_exact_square(n.x as int);
    lemma_exact_square(n.y as int);
    lemma_exact_square(n.z as int);
}

proof fn lemma_exact_square(c: int)
    ensures
        c * c >= 0,
        num::abs(c) == 4096 ==> c * c == 16_777_216,
        num::abs(c) == 2896 ==> c * c == 8_386_816,
{
    assert(c * c >= 0) by (nonlinear_arith);
    assert(4096int * 4096int == 16_777_216 && 2896int * 2896int == 8_386_816);
    assert((-4096int) * (-4096int) == 16_777_216 && (-2896int) * (-2896int) == 8_386_816);
}

/// A velocity with a smaller vertical part is no longer.
proof fn lemma_lower(v: V3, vy: int, b: int)
    requires
        bounds::short(v, b),
        num::abs(vy) <= num::abs(v.y as int),
        num::abs(v.y as int) <= 0x7fff_ffff,
    ensures
        bounds::short(V3 { y: vy as i32, ..v }, b),
{
    reveal(V3::square);
    num::lemma_mul_bound(vy, vy, num::abs(v.y as int), num::abs(v.y as int));
    assert(num::abs(v.y as int) * num::abs(v.y as int) == v.y * v.y) by (nonlinear_arith)
        requires
            num::abs(v.y as int) == v.y || num::abs(v.y as int) == -v.y,
    ;
    assert(vy * vy >= 0) by (nonlinear_arith);
}

/// The floor or the ceiling, whichever the ball met: never both.
proof fn lemma_level(b: Ball, gravity: int)
    requires
        b.p.within(506_000),
        bounds::short(b.v, 6401),
        b.w.length() <= 6554,
    ensures
        ({
            let r = flight::under_ceiling(flight::on_floor(b, gravity));
            &&& r.p.within(506_000)
            &&& flight::BALL_FLOOR <= r.p.y <= flight::BALL_CEILING
            &&& bounds::short(r.v, 6740)
            &&& r.w.within(9930)
        }),
{
    bounds::lemma_within(b.v, 6401);
    bounds::lemma_length_short(b.w, 6554);
    bounds::lemma_within(b.w, 6555);
    let floored = flight::on_floor(b, gravity);
    if b.p.y <= flight::BALL_FLOOR {
        let vy = flight::floor_speed(b.v.y as int);
        num::lemma_mul_bound(-b.v.y, 614, num::abs(b.v.y as int), 614);
        reveal(vec3::damped);
        let up = vec3::v3(0, 4096, 0);
        let moved = Ball {
            p: V3 { y: flight::BALL_FLOOR, ..b.p },
            v: V3 { y: vy as i32, ..b.v },
            grounded: true,
            ..b
        };
        lemma_lower(b.v, vy, 6401);
        lemma_axis(up);
        lemma_surface(b.w, up, 6555);
        let push = num::max(num::max(-b.v.y, 0) + vy, gravity);
        lemma_rub(moved, up, push, 6401, 6555, 586);
        bounds::lemma_longer(floored.v, 6738, 6740);
    } else {
        bounds::lemma_longer(b.v, 6401, 6740);
        if b.p.y > flight::BALL_CEILING {
            let vy = -vec3::damped(b.v.y as int, BALL_BOUNCE as int);
            num::lemma_mul_bound(b.v.y as int, 614, num::abs(b.v.y as int), 614);
            reveal(vec3::damped);
            let down = vec3::v3(0, -4096, 0);
            let moved = Ball {
                p: V3 { y: flight::BALL_CEILING, ..b.p },
                v: V3 { y: vy as i32, ..b.v },
                ..floored
            };
            lemma_lower(b.v, vy, 6401);
            lemma_axis(down);
            lemma_surface(b.w, down, 6555);
            lemma_rub(moved, down, num::max(b.v.y as int, 0) - vy, 6401, 6555, 586);
            bounds::lemma_longer(flight::under_ceiling(floored).v, 6738, 6740);
        }
    }
}

/// The goal frame, whose normals can be longer than a unit.
proof fn lemma_frame(b: Ball)
    requires
        b.p.within(506_000),
        bounds::short(b.v, 6740),
        b.w.within(9930),
    ensures
        ({
            let r = frame::off_frame(b);
            &&& num::abs(r.p.x - b.p.x) <= 6912
            &&& num::abs(r.p.y - b.p.y) <= 6912
            &&& num::abs(r.p.z - b.p.z) <= 6912
            &&& bounds::short(r.v, 42_940)
            &&& r.w.within(101_280)
        }),
{
    bounds::lemma_longer(b.v, 6740, 42_940);
    if let Some(d) = frame::frame_touch(b.p) {
        let n = frame::frame_normal(d, frame::goal_side(b.p.z as int));
        assert(frame::short(d));
        frame::lemma_short_square(d);
        assert(n.within(4096)) by {
            if d.square() != 0 {
                vec3::lemma_unit(d);
            }
        }
        vec3::lemma_root_exists(d.square());
        let root = num::root(d.square());
        assert(root <= 6912) by {
            if root > 6912 {
                bounds::lemma_square_grows(6912, root);
            }
        }
        let out = frame::FRAME_REACH - root;
        vec3::lemma_along(n, out);
        let moved = Ball { p: vec3::added(b.p, n, out), ..b };
        let vn = vec3::dot(b.v, n);
        if vn < 0 {
            frame::lemma_bounce_push(vn);
            let push = frame::bounce_push(vn);
            bounds::lemma_reflected(b.v, n, push, 6740);
            let back = Ball { v: vec3::added(b.v, n, push), ..moved };
            bounds::lemma_short(b.w, 9930);
            lemma_surface(b.w, n, 17_378);
            lemma_scrape(back, n, push, 26_297, 9930, 2678);
            bounds::lemma_longer(frame::off_frame(b).v, 42_937, 42_940);
        }
    }
}

// ---- the quarter pipe --------------------------------------------------

/// The normal on the quarter pipe is a unit normal, wherever the wall behind it
/// faces squarely inward.
pub proof fn lemma_arc_normal(inward: V3, h: int, v: int, arc: int)
    requires
        inward.y == 0,
        inward.within(4096),
        num::abs(inward.x as int) >= 2896 || num::abs(inward.z as int) >= 2896,
        0 <= h <= 2 * ramp::RAMP,
        0 <= v <= 2 * ramp::RAMP,
        ramp::lean_length(h, v) >= 10_000,
        10_000 <= arc <= ramp::RAMP,
    ensures
        ({
            let length = ramp::lean_length(h, v);
            let ph = ramp::onto_arc(h, arc, length);
            let pv = ramp::onto_arc(v, arc, length);
            let n = ramp::arc_normal(inward, ph, pv, arc);
            &&& upright::upright(n)
            &&& 0 <= ph <= arc
            &&& 0 <= pv <= arc
        }),
{
    let length = ramp::lean_length(h, v);
    ramp::lemma_lean_fits(h, v);
    let lean = vec3::v3(h, v, 0);
    assert(lean.square() == h * h + v * v) by {
        reveal(V3::square);
        assert(lean.z * lean.z == 0) by (nonlinear_arith)
            requires
                lean.z == 0,
        ;
    }
    num::lemma_mul_bound(h, h, 33_280, 33_280);
    num::lemma_mul_bound(v, v, 33_280, 33_280);
    assert(h * h >= 0 && v * v >= 0) by (nonlinear_arith);
    vec3::lemma_root_exists(num::min(lean.square(), i32::MAX as int));
    // The longer lean is more than half of the length.
    assert(2 * h >= length || 2 * v >= length) by {
        if 2 * h < length && 2 * v < length {
            assert(h * h + v * v < length * length) by (nonlinear_arith)
                requires
                    2 * h < length,
                    2 * v < length,
                    0 <= h,
                    0 <= v,
            ;
        }
    }
    let ph = ramp::onto_arc(h, arc, length);
    let pv = ramp::onto_arc(v, arc, length);
    reveal(ramp::onto_arc);
    lemma_onto(h, arc, length);
    lemma_onto(v, arc, length);
    let raw = vec3::v3(
        num::tdiv(inward.x * ph, arc),
        (4096 * pv) / arc,
        num::tdiv(inward.z * ph, arc),
    );
    num::lemma_mul_bound(inward.x as int, ph, 4096, arc);
    num::lemma_mul_bound(inward.z as int, ph, 4096, arc);
    num::lemma_mul_bound(4096, pv, 4096, arc);
    num::lemma_tdiv_bound(inward.x * ph, arc, 4096);
    num::lemma_tdiv_bound(inward.z * ph, arc, 4096);
    num::lemma_tdiv_bound(4096 * pv, arc, 4096);
    assert(0 <= 4096 * pv);
    assert(0 <= (4096 * pv) / arc) by (nonlinear_arith)
        requires
            0 <= 4096 * pv,
            arc > 0,
    ;
    assert(num::abs(raw.x as int) >= 1200 || num::abs(raw.y as int) >= 1200 || num::abs(raw.z as int)
        >= 1200) by {
        if 2 * v >= length {
            assert((4096 * pv) / arc >= 1200) by (nonlinear_arith)
                requires
                    2 * pv >= arc - 2,
                    arc >= 10_000,
            ;
        } else if num::abs(inward.x as int) >= 2896 {
            lemma_leans(inward.x as int, ph, arc);
        } else {
            lemma_leans(inward.z as int, ph, arc);
        }
    }
    assert(raw.square() >= 1200 * 1200) by {
        reveal(V3::square);
        lemma_long_part(raw.x as int);
        lemma_long_part(raw.y as int);
        lemma_long_part(raw.z as int);
    }
    upright::lemma_unit_is_upright(raw, 1200);
    reveal(ramp::arc_normal);
}

proof fn lemma_long_part(c: int)
    ensures
        c * c >= 0,
        num::abs(c) >= 1200 ==> c * c >= 1200 * 1200,
{
    assert(c * c >= 0) by (nonlinear_arith);
    if c >= 1200 {
        bounds::lemma_square_grows(1200, c);
    } else if c <= -1200 {
        bounds::lemma_square_grows(1200, -c);
        assert((-c) * (-c) == c * c) by (nonlinear_arith);
    }
}

proof fn lemma_leans(i: int, ph: int, arc: int)
    requires
        num::abs(i) >= 2896,
        2 * ph >= arc - 2,
        arc >= 10_000,
    ensures
        num::abs(num::tdiv(i * ph, arc)) >= 1200,
{
    let a = num::abs(i);
    assert((a * ph) / arc >= 1200) by (nonlinear_arith)
        requires
            a >= 2896,
            2 * ph >= arc - 2,
            arc >= 10_000,
    ;
    assert(i * ph == a * ph || i * ph == -(a * ph)) by (nonlinear_arith)
        requires
            i == a || i == -a,
    ;
    assert(a * ph > 0) by (nonlinear_arith)
        requires
            a >= 2896,
            ph > 0,
    ;
}

/// A lean scaled onto a circle is no longer than the circle's radius.
pub proof fn lemma_onto(lean: int, arc: int, length: int)
    requires
        0 <= lean <= length,
        0 < length,
        0 <= arc,
    ensures
        0 <= (lean * arc) / length <= arc,
        2 * lean >= length ==> 2 * ((lean * arc) / length) >= arc - 2,
        arc <= length ==> (lean * arc) / length <= lean,
{
    let r = (lean * arc) / length;
    assert(0 <= r <= arc) by (nonlinear_arith)
        requires
            r == (lean * arc) / length,
            0 <= lean <= length,
            0 < length,
            0 <= arc,
    ;
    if 2 * lean >= length {
        assert(2 * r >= arc - 2) by (nonlinear_arith)
            requires
                r == (lean * arc) / length,
                2 * lean >= length,
                0 < length,
                0 <= arc,
        ;
    }
    if arc <= length {
        assert(r <= lean) by (nonlinear_arith)
            requires
                r == (lean * arc) / length,
                0 <= lean,
                0 < length,
                0 <= arc <= length,
        ;
    }
}

/// The nearest wall of the pitch, if it is near enough to matter, faces squarely
/// inward.
pub proof fn lemma_wall_faces(x: int, z: int, mouth_open: bool)
    requires
        num::abs(x) <= 600_000,
        num::abs(z) <= 600_000,
        arena::wall_near(x, z, mouth_open).distance < ramp::RAMP,
    ensures
        ({
            let wall = arena::wall_near(x, z, mouth_open);
            &&& wall.inward.y == 0
            &&& wall.inward.within(4096)
            &&& num::abs(wall.inward.x as int) >= 2896 || num::abs(wall.inward.z as int) >= 2896
            &&& vec3::is_axis(wall.inward) || vec3::is_chamfer(wall.inward)
        }),
{
    reveal(arena::wall_near);
}

/// So does the wall that the ball's curve is swept along.
proof fn lemma_ball_wall_faces(x: int, z: int, mouth_open: bool)
    requires
        num::abs(x) <= 600_000,
        num::abs(z) <= 600_000,
        arena::ball_wall_near(x, z, mouth_open).distance < ramp::RAMP,
    ensures
        ({
            let wall = arena::ball_wall_near(x, z, mouth_open);
            &&& wall.inward.y == 0
            &&& wall.inward.within(4096)
            &&& num::abs(wall.inward.x as int) >= 2896 || num::abs(wall.inward.z as int) >= 2896
            &&& vec3::is_axis(wall.inward) || vec3::is_chamfer(wall.inward)
        }),
{
    reveal(arena::ball_wall_near);
}

/// The quarter pipe moves a ball that is not against an end no further than the
/// back of a net.
proof fn lemma_shift(p: V3, mouth_open: bool, ph: int)
    requires
        p.within(513_000),
        num::abs(p.z as int) < flight::BALL_END,
        0 <= ph <= ramp::BALL_ARC,
        arena::ball_wall_near(p.x as int, p.z as int, mouth_open).distance < ramp::RAMP,
    ensures
        ({
            let wall = arena::ball_wall_near(p.x as int, p.z as int, mouth_open);
            let z = vec3::added(p, wall.inward, ramp::RAMP - ph - wall.distance).z as int;
            &&& num::abs(z) <= 510_000
            &&& p.within(400_000) ==> num::abs(z) <= 340_000
        }),
{
    reveal(arena::ball_wall_near);
    let wall = arena::ball_wall_near(p.x as int, p.z as int, mouth_open);
    let scale = ramp::RAMP - ph - wall.distance;
    let i = wall.inward.z as int;
    assert(i == 0 || i == 4096 || i == -4096 || i == 2896 || i == -2896);
    assert(i == 4096 || i == -4096 ==> -11_000 <= scale <= 17_000);
    assert(i == 2896 || i == -2896 ==> -11_000 <= scale <= 480_000);
    assert((i == 2896 || i == -2896) && p.within(400_000) ==> scale <= 310_000);
    assert(i == 2896 ==> p.z < 0);
    assert(i == -2896 ==> p.z > 0);
    assert(0 * scale == 0);
    if i == 4096 || i == -4096 {
        num::lemma_mul_bound(i, scale, 4096, 17_000);
    } else if i == 2896 || i == -2896 {
        assert(2896 * scale == scale * 2896 && i * scale == if i == 2896 {
            2896 * scale
        } else {
            -(2896 * scale)
        }) by (nonlinear_arith)
            requires
                i == 2896 || i == -2896,
        ;
    } else {
        num::lemma_mul_bound(i, scale, 0, num::abs(scale));
        assert(0 * num::abs(scale) == 0);
    }
    reveal(vec3::along);
}

/// How fast a spin of this size can move the ball's surface against a unit
/// normal.
pub open spec fn surface_speed(wb: int) -> int {
    ((7 * wb / 4 + 1) * 5832) / 65536 + 3
}

/// The quarter pipe.
proof fn lemma_ramp(b: Ball, vb: int, wb: int)
    requires
        b.p.within(513_000),
        bounds::short(b.v, vb),
        b.w.within(wb),
        0 <= vb <= 0x1_0000,
        6554 <= wb <= 0x2_0000,
    ensures
        ({
            let r = flight::up_ramp(b);
            let q = surface_speed(wb);
            &&& r.p.within(513_000) || num::abs(r.p.z as int) <= 510_000 && 0 <= r.p.y <= ramp::RAMP
            &&& bounds::short(r.v, (vb + 9) + (vb + 9) / 500 + q / 2 + 32)
            &&& r.w.within(num::max(wb, (wb + 9 * (vb + q + 13) + 20) / 7 + 1))
        }),
{
    let q = surface_speed(wb);
    bounds::lemma_longer(b.v, vb, (vb + 9) + (vb + 9) / 500 + q / 2 + 32);
    let facing = num::abs(b.p.x as int) < frame::MOUTH;
    let (x, z) = (b.p.x as int, b.p.z as int);
    let wall = arena::ball_wall_near(x, z, facing);
    let (h, v) = (ramp::lean(wall.distance as int), ramp::lean(b.p.y as int));
    let length = ramp::lean_length(h, v);
    if num::abs(z) < flight::BALL_END && b.p.y < ramp::RAMP && wall.distance < ramp::RAMP && length
        > ramp::BALL_ARC {
        lemma_ball_wall_faces(x, z, facing);
        let arc = ramp::BALL_ARC as int;
        lemma_arc_normal(wall.inward, h, v, arc);
        let ph = ramp::onto_arc(h, arc, length);
        let pv = ramp::onto_arc(v, arc, length);
        let n = ramp::arc_normal(wall.inward, ph, pv, arc);
        let p = ramp::moved_onto_arc(b.p, wall, ph, pv);
        let scale = ramp::RAMP - ph - wall.distance;
        lemma_shift(b.p, facing, ph);
        let moved = Ball { p, ..b };
        let vn = vec3::dot(b.v, n);
        if vn < 0 {
            frame::lemma_bounce_push(vn);
            let push = frame::bounce_push(vn);
            bounds::lemma_reflected(b.v, n, push, vb);
            let back = Ball { v: vec3::added(b.v, n, push), ..moved };
            bounds::lemma_short(b.w, wb);
            lemma_surface(b.w, n, 7 * wb / 4 + 1);
            lemma_rub(back, n, push, vb + 9, wb, q);
        }
    }
}

// ---- the walls ---------------------------------------------------------

/// A square of a smaller magnitude is smaller.
proof fn lemma_slower(a: int, b: int)
    requires
        num::abs(a) <= num::abs(b),
    ensures
        a * a <= b * b,
{
    num::lemma_mul_bound(a, a, num::abs(b), num::abs(b));
    let m = num::abs(b);
    assert(m * m == b * b) by (nonlinear_arith)
        requires
            m == b || m == -b,
    ;
}

/// The walls never speed a body up.
pub proof fn lemma_confined_slows(
    x: int,
    z: int,
    vx: int,
    vz: int,
    r: int,
    bounce: int,
    mouth_open: bool,
)
    requires
        0 <= bounce <= 768,
    ensures
        ({
            let c = arena::confined(x, z, vx, vz, r, bounce, mouth_open);
            c.vx * c.vx + c.vz * c.vz <= vx * vx + vz * vz
        }),
{
    let sided = arena::between_sides(arena::free(x, z, vx, vz), arena::side_limit(z, r), bounce);
    let ended = arena::between_ends(sided, arena::end_limit(mouth_open, r), bounce);
    arena::lemma_reflected(vx, bounce);
    arena::lemma_reflected(vz, bounce);
    lemma_slower(sided.vx, vx);
    lemma_slower(ended.vz, vz);
    if !arena::past_goal_line(z) && arena::corner_over(ended, r) > 0 {
        lemma_corner_slows(ended, r, bounce);
    }
}

proof fn lemma_corner_slows(b: arena::Flat, r: int, bounce: int)
    requires
        0 <= bounce <= 768,
        arena::corner_over(b, r) > 0,
    ensures
        ({
            let c = arena::inside_corners(b, r, bounce);
            c.vx * c.vx + c.vz * c.vz <= b.vx * b.vx + b.vz * b.vz
        }),
{
    let (sx, sz) = (num::sign(b.x), num::sign(b.z));
    let step = arena::corner_step(b, bounce);
    let (p, q) = (b.vx * sx, b.vz * sz);
    let closing = p + q;
    let vn = (closing * SQRT2_Q12) / 8192;
    assert(0 <= step && (step == 0 || step <= closing)) by {
        if vn > 0 {
            num::lemma_mul_bound(vn, bounce, vn, 768);
            assert(0 <= vn * bounce) by (nonlinear_arith)
                requires
                    vn > 0,
                    bounce >= 0,
            ;
            reveal(vec3::damped);
        }
    }
    assert(1 * step == step && -1 * step == -step && 0 * step == 0);
    assert(b.vx * 1 == b.vx && b.vx * (-1) == -b.vx && b.vx * 0 == 0 && b.vz * 1 == b.vz && b.vz * (-1)
        == -b.vz && b.vz * 0 == 0);
    let c = arena::inside_corners(b, r, bounce);
    if step > 0 {
        if sx == 0 {
            lemma_eased(q, step);
            lemma_turned_square(b.vz, c.vz, q, q - step);
        } else if sz == 0 {
            lemma_eased(p, step);
            lemma_turned_square(b.vx, c.vx, p, p - step);
        } else {
            lemma_turned_square(b.vx, c.vx, p, p - step);
            lemma_turned_square(b.vz, c.vz, q, q - step);
            assert((p - step) * (p - step) + (q - step) * (q - step) <= p * p + q * q)
                by (nonlinear_arith)
                requires
                    0 <= step <= p + q,
            ;
        }
    }
}

proof fn lemma_eased(p: int, step: int)
    requires
        0 <= step <= p,
    ensures
        (p - step) * (p - step) <= p * p,
{
    assert((p - step) * (p - step) <= p * p) by (nonlinear_arith)
        requires
            0 <= step <= p,
    ;
}

proof fn lemma_turned_square(a: int, b: int, p: int, q: int)
    requires
        p == a && q == b || p == -a && q == -b,
    ensures
        a * a == p * p,
        b * b == q * q,
{
    assert(a * a == p * p && b * b == q * q) by (nonlinear_arith)
        requires
            p == a && q == b || p == -a && q == -b,
    ;
}

/// The walls.
proof fn lemma_walls(b: Ball, vb: int, wb: int)
    requires
        num::abs(b.p.z as int) <= 513_000,
        -513_000 <= b.p.y <= 513_000,
        bounds::short(b.v, vb),
        b.w.within(wb),
        0 <= vb <= 0x1_0000,
        6554 <= wb <= 0x2_0000,
    ensures
        ({
            let r = flight::within_walls(b);
            let q = surface_speed(wb);
            &&& r.p.within(524_288)
            &&& r.v.within(vb + vb / 500 + q / 2 + 32)
            &&& r.w.within(num::max(wb, (wb + 9 * (vb + q + 4) + 20) / 7 + 1))
        }),
{
    let q = surface_speed(wb);
    bounds::lemma_within(b.v, vb);
    let c = flight::ball_confined(b);
    let open = flight::through_mouth(b.p);
    let (x, z, vx, vz) = (b.p.x as int, b.p.z as int, b.v.x as int, b.v.z as int);
    arena::law_confined_is_inside(x, z, vx, vz, 91, 614, open);
    arena::lemma_confined_speed(x, z, vx, vz, 91, 614, open, vb);
    lemma_confined_slows(x, z, vx, vz, 91, 614, open);
    let held_v = vec3::v3(c.vx, b.v.y as int, c.vz);
    assert(bounds::short(held_v, vb)) by {
        reveal(V3::square);
        assert(c.vx * c.vx >= 0 && c.vz * c.vz >= 0) by (nonlinear_arith);
        assert(held_v.x == c.vx && held_v.y == b.v.y && held_v.z == c.vz);
    }
    bounds::lemma_within(held_v, vb);
    if !open && c.normal != vec3::zero3() {
        let held = Ball {
            p: vec3::v3(c.x, b.p.y as int, c.z),
            v: held_v,
            ..b
        };
        lemma_axis(c.normal);
        bounds::lemma_short(b.w, wb);
        lemma_surface(b.w, c.normal, 7 * wb / 4 + 1);
        let push = vec3::dot(held.v, c.normal) - vec3::dot(b.v, c.normal);
        lemma_rub(held, c.normal, push, vb, wb, q);
        bounds::lemma_within(flight::within_walls(b).v, vb + vb / 500 + q / 2 + 32);
    }
}

/// A ball on the pitch at anything up to four times its speed cap, spinning no
/// faster than its ceiling, can fly, and is still in range after a tick of it:
/// nothing it can meet takes it out of it.
pub proof fn law_flight_stays_in_range(b: Ball, gravity: int)
    requires
        b.p.within(480_000),
        b.v.within(25_000),
        b.w.length() <= 6554,
        0 <= gravity <= 1000,
    ensures
        flight::can_fly(b, gravity),
        flight::flown(b, gravity).in_range(),
        flight::flown(b, gravity).p.within(524_288),
        flight::flown(b, gravity).v.within(65_536),
        flight::flown(b, gravity).w.within(131_072),
{
    bounds::lemma_length_short(b.w, 6554);
    bounds::lemma_within(b.w, 6555);
    lemma_drift(b, gravity);
    let drifted = flight::drifted(b, gravity);
    lemma_level(drifted, gravity);
    let level = flight::under_ceiling(flight::on_floor(drifted, gravity));
    lemma_frame(level);
    let clear = frame::off_frame(level);
    bounds::lemma_within(clear.v, 42_940);
    lemma_ramp(clear, 42_940, 101_280);
    assert(surface_speed(101_280) == 15_775);
    let s = flight::surfaced(b, gravity);
    bounds::lemma_longer(s.v, 50_953, 50_960);
    lemma_walls(s, 50_960, 101_280);
}

/// A tick of flight takes a ball on the pitch no further along it than it was
/// going.
pub proof fn lemma_reach_of_flight(b: Ball, gravity: int)
    requires
        b.p.within(360_000),
        b.v.within(25_000),
        b.w.length() <= 6554,
        0 <= gravity <= 1000,
    ensures
        num::abs(flight::surfaced(b, gravity).p.z as int) <= 393_000,
{
    lemma_drift(b, gravity);
    let drifted = flight::drifted(b, gravity);
    assert(drifted.p.within(386_000));
    lemma_level(drifted, gravity);
    let level = flight::under_ceiling(flight::on_floor(drifted, gravity));
    assert(level.p.x == drifted.p.x && level.p.z == drifted.p.z);
    lemma_frame(level);
    let clear = frame::off_frame(level);
    let facing = num::abs(clear.p.x as int) < frame::MOUTH;
    let (x, y, z) = (clear.p.x as int, clear.p.y as int, clear.p.z as int);
    let wall = arena::ball_wall_near(x, z, facing);
    let (h, v) = (ramp::lean(wall.distance as int), ramp::lean(y));
    let length = ramp::lean_length(h, v);
    if num::abs(z) < flight::BALL_END && y < ramp::RAMP && wall.distance < ramp::RAMP && length
        > ramp::BALL_ARC {
        lemma_ball_wall_faces(x, z, facing);
        lemma_arc_normal(wall.inward, h, v, ramp::BALL_ARC as int);
        lemma_shift(clear.p, facing, ramp::onto_arc(h, ramp::BALL_ARC as int, length));
    }
}

/// A goal frame that is not dead centre bounces the ball as a wall does.
proof fn lemma_clear_frame(b: Ball)
    requires
        bounds::short(b.v, 6740),
        b.w.within(9930),
        clears_frame(b.p),
    ensures
        bounds::short(frame::off_frame(b).v, 7568),
        frame::off_frame(b).w.within(12_100),
{
    bounds::lemma_longer(b.v, 6740, 7568);
    if let Some(d) = frame::frame_touch(b.p) {
        let n = frame::frame_normal(d, frame::goal_side(b.p.z as int));
        let out = frame::FRAME_REACH - num::root(d.square());
        assert(frame::short(d));
        bounds::lemma_unit_is_normal(d, 1100);
        let moved = Ball { p: vec3::added(b.p, n, out), ..b };
        let vn = vec3::dot(b.v, n);
        if vn < 0 {
            frame::lemma_bounce_push(vn);
            let push = frame::bounce_push(vn);
            bounds::lemma_reflected(b.v, n, push, 6740);
            let back = Ball { v: vec3::added(b.v, n, push), ..moved };
            bounds::lemma_short(b.w, 9930);
            lemma_surface(b.w, n, 17_378);
            lemma_rub(back, n, push, 6749, 9930, 1549);
        }
    }
}

/// The ball is not within a fifth of its radius of the middle of a post or of the
/// bar, where its normal would round to something longer than a unit.
pub open spec fn clears_frame(p: V3) -> bool {
    frame::frame_touch(p) matches Some(d) ==> d.square() >= 1100 * 1100
}

/// A tick of flight slows a fast ball to the speeds of play: from anything up to
/// four times its speed cap it comes out under twice the cap and, short of a goal,
/// on the pitch.
pub proof fn law_a_flying_ball_stays_slow(b: Ball, gravity: int)
    requires
        b.p.within(480_000),
        b.v.within(25_000),
        b.w.length() <= 6554,
        0 <= gravity <= 1000,
        clears_frame(
            flight::under_ceiling(
                flight::on_floor(flight::drifted(b, gravity), gravity),
            ).p,
        ),
    ensures
        flight::flown(b, gravity).v.within(10_000),
        flight::goal_by(b, gravity) is None ==> flight::flown(b, gravity).p.within(333_504),
{
    lemma_drift(b, gravity);
    let drifted = flight::drifted(b, gravity);
    lemma_level(drifted, gravity);
    let level = flight::under_ceiling(flight::on_floor(drifted, gravity));
    lemma_frame(level);
    lemma_clear_frame(level);
    let clear = frame::off_frame(level);
    lemma_ramp(clear, 7568, 12_100);
    assert(surface_speed(12_100) == 1887);
    let s = flight::surfaced(b, gravity);
    bounds::lemma_longer(s.v, 8567, 8570);
    assert(s.w.within(13_910));
    lemma_walls(s, 8570, 13_910);
    assert(surface_speed(13_910) == 2169);
    place::law_ball_stays_in_the_arena(b, gravity);
}

} // verus!
