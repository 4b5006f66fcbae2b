//! A car keeps its attitude: whatever it does, the direction it calls up stays a
//! unit vector but for rounding.

use vstd::prelude::*;
use crate::air;
use crate::bounds;
use crate::car;
use crate::car::Car;
use crate::drive::Entry;
use crate::inplay;
use crate::num;
use crate::trig::Angles;
use crate::vec3;
use crate::vec3::V3;

verus! {

/// A Q12 unit vector, but for rounding.
pub open spec fn upright(u: V3) -> bool {
    &&& u.within(4096)
    &&& bounds::is_normal(u)
    &&& u.square() >= 16_000_000
}

// ---- unit vectors --------------------------------------------------------

/// A component scaled down loses less than one.
proof fn lemma_scaled_part(v: int, l: int)
    requires
        l > 0,
    ensures
        ({
            let r = num::tdiv(v * 4096, l);
            let a = num::abs(v) * 4096;
            (r * r) * (l * l) >= a * a - 2 * (a * l)
        }),
{
    let a = num::abs(v) * 4096;
    let r = num::tdiv(v * 4096, l);
    let q = a / l;
    assert(a >= 0);
    assert(q >= 0 && q * l <= a < (q + 1) * l) by (nonlinear_arith)
        requires
            a >= 0,
            l > 0,
            q == a / l,
    ;
    assert(r == q || r == -q);
    assert(r * r == q * q) by (nonlinear_arith)
        requires
            r == q || r == -q,
    ;
    let p = q * l;
    assert((q * q) * (l * l) == p * p) by (nonlinear_arith)
        requires
            p == q * l,
    ;
    assert(p > a - l) by (nonlinear_arith)
        requires
            p == q * l,
            a < (q + 1) * l,
    ;
    assert(p >= 0);
    assert(p * p >= a * a - 2 * (a * l)) by (nonlinear_arith)
        requires
            p > a - l,
            p >= 0,
            a >= 0,
            l > 0,
    ;
}

/// The unit vector of a long enough vector is upright.
pub proof fn lemma_unit_is_upright(v: V3, len: int)
    requires
        v.within(26_754),
        len * len <= v.square(),
        1100 <= len,
    ensures
        upright(v.unit()),
{
    bounds::lemma_unit_is_normal(v, len);
    vec3::lemma_unit(v);
    assert(v.square() <= i32::MAX) by {
        reveal(V3::square);
        num::lemma_mul_bound(v.x as int, v.x as int, 26_754, 26_754);
        num::lemma_mul_bound(v.y as int, v.y as int, 26_754, 26_754);
        num::lemma_mul_bound(v.z as int, v.z as int, 26_754, 26_754);
    }
    vec3::lemma_length_covers(v);
    let l = v.length();
    num::lemma_root_covers(l, v.square(), len);
    let r = v.unit();
    let (x, y, z) = (
        num::tdiv(v.x * 4096, l),
        num::tdiv(v.y * 4096, l),
        num::tdiv(v.z * 4096, l),
    );
    lemma_scaled_part(v.x as int, l);
    lemma_scaled_part(v.y as int, l);
    lemma_scaled_part(v.z as int, l);
    num::lemma_tdiv_bound(v.x * 4096, l, 4096);
    num::lemma_tdiv_bound(v.y * 4096, l, 4096);
    num::lemma_tdiv_bound(v.z * 4096, l, 4096);
    reveal(vec3::scaled);
    reveal(V3::square);
    let s = bounds::sum_sq(x, y, z);
    assert(r.square() == s);
    let ll = l * l;
    assert(s * ll == (x * x) * ll + (y * y) * ll + (z * z) * ll) by (nonlinear_arith)
        requires
            s == x * x + y * y + z * z,
    ;
    let (a, b, c) = (num::abs(v.x as int), num::abs(v.y as int), num::abs(v.z as int));
    lemma_square_of_part(v.x as int);
    lemma_square_of_part(v.y as int);
    lemma_square_of_part(v.z as int);
    assert((a * 4096) * l == 4096 * (a * l) && (b * 4096) * l == 4096 * (b * l) && (c * 4096) * l
        == 4096 * (c * l)) by (nonlinear_arith);
    assert(s * ll >= 16_777_216 * v.square() - 8192 * (a * l + b * l + c * l));
    assert(a * l <= ll && b * l <= ll && c * l <= ll) by (nonlinear_arith)
        requires
            0 <= a <= l,
            0 <= b <= l,
            0 <= c <= l,
            ll == l * l,
    ;
    assert(s * ll >= 16_777_216 * ll - 24_576 * ll);
    if s < 16_000_000 {
        assert(ll > 0) by (nonlinear_arith)
            requires
                ll == l * l,
                l >= 1100,
        ;
        assert(s * ll < 16_000_000 * ll) by (nonlinear_arith)
            requires
                s < 16_000_000,
                ll > 0,
        ;
    }
}

proof fn lemma_square_of_part(v: int)
    ensures
        (num::abs(v) * 4096) * (num::abs(v) * 4096) == 16_777_216 * (v * v),
{
    let a = num::abs(v);
    assert((a * 4096) * (a * 4096) == 16_777_216 * (v * v)) by (nonlinear_arith)
        requires
            a == v || a == -v,
    ;
}

// ---- turning -------------------------------------------------------------

/// The cross product of two directions is no longer than both make it.
proof fn lemma_cross_short(u: V3, v: V3, a: int, b: int)
    requires
        bounds::short(u, a),
        bounds::short(v, b),
        0 <= a <= 16384,
        0 <= b <= 16384,
    ensures
        bounds::short(vec3::cross(u, v), (a * b) / 4096 + 3),
{
    bounds::lemma_within(u, a);
    bounds::lemma_within(v, b);
    let (x, y, z) = (u.y * v.z - u.z * v.y, u.z * v.x - u.x * v.z, u.x * v.y - u.y * v.x);
    bounds::lemma_cross_length(
        u.x as int,
        u.y as int,
        u.z as int,
        v.x as int,
        v.y as int,
        v.z as int,
    );
    let c = (a * b) / 4096 + 1;
    assert(0 <= a * b) by (nonlinear_arith)
        requires
            0 <= a,
            0 <= b,
    ;
    assert(u.square() * v.square() <= (a * b) * (a * b)) by {
        let (p, q) = (u.square(), v.square());
        assert(0 <= p && 0 <= q) by {
            reveal(V3::square);
            assert(u.x * u.x >= 0 && u.y * u.y >= 0 && u.z * u.z >= 0 && v.x * v.x >= 0 && v.y
                * v.y >= 0 && v.z * v.z >= 0) by (nonlinear_arith);
        }
        let (m, n) = (a * a, b * b);
        assert(p * q <= m * n) by (nonlinear_arith)
            requires
                0 <= p <= m,
                0 <= q <= n,
        ;
        assert(m * n == (a * b) * (a * b)) by (nonlinear_arith)
            requires
                m == a * a,
                n == b * b,
        ;
    }
    bounds::lemma_square_grows(a * b, 4096 * c);
    num::lemma_mul_bound(u.y as int, v.z as int, a, b);
    num::lemma_mul_bound(u.z as int, v.y as int, a, b);
    num::lemma_mul_bound(u.z as int, v.x as int, a, b);
    num::lemma_mul_bound(u.x as int, v.z as int, a, b);
    num::lemma_mul_bound(u.x as int, v.y as int, a, b);
    num::lemma_mul_bound(u.y as int, v.x as int, a, b);
    num::lemma_mul_bound(a, b, 16384, 16384);
    reveal(V3::square);
    reveal(vec3::cross_over);
    let r = vec3::cross(u, v);
    bounds::lemma_rounded(x, y, z, r.x as int, r.y as int, r.z as int, c);
}

/// A small fraction of a vector, either way round, is short.
proof fn lemma_fraction_short(v: V3, k: int, m: int, b: int)
    requires
        bounds::short(v, b),
        0 <= b <= 0x10_0000,
        -m <= k <= m,
        0 <= m <= 4096,
    ensures
        bounds::short(vec3::along(v, k), (b * m) / 4096 + 3),
{
    bounds::lemma_within(v, b);
    let s = num::abs(k);
    let u = if k >= 0 {
        v
    } else {
        vec3::v3(-v.x, -v.y, -v.z)
    };
    assert(bounds::short(u, b)) by {
        reveal(V3::square);
        assert((-v.x) * (-v.x) == v.x * v.x && (-v.y) * (-v.y) == v.y * v.y && (-v.z) * (-v.z)
            == v.z * v.z) by (nonlinear_arith);
    }
    bounds::lemma_part(u, s, b);
    assert(vec3::along(u, s) == vec3::along(v, k)) by {
        reveal(vec3::along);
        assert((-v.x) * s == v.x * (-s) && (-v.y) * s == v.y * (-s) && (-v.z) * s == v.z * (-s))
            by (nonlinear_arith);
    }
    assert((b * s) / 4096 <= (b * m) / 4096) by (nonlinear_arith)
        requires
            0 <= s <= m,
            0 <= b,
    ;
    assert(0 <= b * s) by (nonlinear_arith)
        requires
            0 <= s,
            0 <= b,
    ;
    bounds::lemma_longer(vec3::along(v, k), (b * s) / 4096 + 3, (b * m) / 4096 + 3);
}

/// Turning by no more than a car's air rate moves a direction by little.
proof fn lemma_spun_near(t: Angles, v: V3, axis: V3, angle: int, a: int, b: int)
    requires
        inplay::smooth(t),
        -60 <= angle <= 60,
        bounds::short(v, b),
        bounds::short(axis, a),
        0 <= a <= 12_000,
        0 <= b <= 12_000,
    ensures
        ({
            let moved = vec3::sub3(car::spun(t, v, axis, angle), v);
            let k = (a * b) / 4096 + 3;
            bounds::short(moved, (b * 96) / 4096 + (k * 512) / 4096 + 6)
        }),
        bounds::short(
            car::spun(t, v, axis, angle),
            b + (b * 96) / 4096 + (((a * b) / 4096 + 3) * 512) / 4096 + 6,
        ),
{
    let w = (angle % 4096) as u16;
    assert(w < 4096 && (w <= 60 || w >= 4036));
    let (s, c) = (t.sin(w), t.cos(w));
    lemma_cross_short(axis, v, a, b);
    let turn = vec3::cross(axis, v);
    num::lemma_mul_bound(a, b, 12_000, 12_000);
    assert(0 <= a * b) by (nonlinear_arith)
        requires
            0 <= a,
            0 <= b,
    ;
    let k = (a * b) / 4096 + 3;
    lemma_fraction_short(turn, s, 512, k);
    lemma_fraction_short(v, c - 4096, 96, b);
    let (lost, gained) = (vec3::along(v, c - 4096), vec3::along(turn, s));
    let (lb, gb) = ((b * 96) / 4096 + 3, (k * 512) / 4096 + 3);
    bounds::lemma_within(v, b);
    bounds::lemma_within(lost, lb);
    bounds::lemma_within(gained, gb);
    bounds::lemma_sum(lost, gained, lb, gb);
    let moved = vec3::sub3(car::spun(t, v, axis, angle), v);
    assert(vec3::along(v, c) == vec3::add3(v, lost)) by {
        reveal(vec3::along);
        assert(v.x * (c - 4096) == v.x * c - 4096 * v.x && v.y * (c - 4096) == v.y * c - 4096 * v.y
            && v.z * (c - 4096) == v.z * c - 4096 * v.z) by (nonlinear_arith);
        let (x, y, z) = (v.x * c, v.y * c, v.z * c);
        num::lemma_mul_bound(v.x as int, c, b, 4096);
        num::lemma_mul_bound(v.y as int, c, b, 4096);
        num::lemma_mul_bound(v.z as int, c, b, 4096);
        assert((x - 4096 * v.x) / 4096 == x / 4096 - v.x);
        assert((y - 4096 * v.y) / 4096 == y / 4096 - v.y);
        assert((z - 4096 * v.z) / 4096 == z / 4096 - v.z);
    }
    assert(moved == vec3::add3(lost, gained));
    bounds::lemma_sum(v, moved, b, lb + gb);
    bounds::lemma_within(moved, lb + gb);
    assert(vec3::add3(v, moved) == car::spun(t, v, axis, angle));
}

/// What is not far from something long is long itself.
proof fn lemma_still_long(v: V3, r: V3, far: int, b: int, least: int)
    requires
        bounds::short(vec3::sub3(r, v), far),
        bounds::short(v, b),
        bounds::short(r, b),
        v.square() > (least + far) * (least + far),
        0 <= far <= 0x1_0000,
        0 <= b <= 0x1_0000,
        0 <= least <= 0x1_0000,
    ensures
        r.square() >= least * least,
{
    bounds::lemma_within(v, b);
    bounds::lemma_within(r, b);
    if r.square() < least * least {
        let moved = vec3::sub3(r, v);
        bounds::lemma_sum(r, moved, least, far);
        assert(vec3::sub3(r, moved) == v);
    }
}

/// Air control keeps a car's attitude.
pub proof fn lemma_tumbled(t: Angles, c: Car, e: Entry)
    requires
        inplay::smooth(t),
        -60 <= c.w_pitch <= 60,
        -60 <= c.w_roll <= 60,
        upright(c.up),
        e.up == c.up,
        e.right.within(4096),
        e.fwd.within(4096),
    ensures
        upright(air::tumbled(t, c, e).up),
{
    if c.w_pitch != 0 || c.w_roll != 0 {
        bounds::lemma_direction(e.right);
        bounds::lemma_direction(e.fwd);
        let (u1, f1) = if c.w_pitch != 0 {
            (
                car::spun(t, e.up, e.right, c.w_pitch as int),
                car::spun(t, e.fwd, e.right, c.w_pitch as int),
            )
        } else {
            (e.up, e.fwd)
        };
        assert(bounds::short(e.up, 4100)) by {
            assert(4100int * 4100int == 16_810_000);
        }
        bounds::lemma_longer(e.up, 4100, 5100);
        bounds::lemma_longer(e.fwd, 7095, 8900);
        if c.w_pitch != 0 {
            lemma_spun_near(t, e.up, e.right, c.w_pitch as int, 7095, 4100);
            lemma_spun_near(t, e.fwd, e.right, c.w_pitch as int, 7095, 7095);
            let far: int = 990;
            assert(far == (4100int * 96) / 4096 + (((7095int * 4100int) / 4096 + 3) * 512) / 4096
                + 6);
            assert(3990int * 3990int == 15_920_100);
            bounds::lemma_longer(u1, 4100 + far, 5100);
            assert(8803 == 7095 + (7095int * 96) / 4096 + (((7095int * 7095int) / 4096 + 3) * 512)
                / 4096 + 6);
            bounds::lemma_longer(f1, 8803, 8900);
            lemma_still_long(e.up, u1, 990, 5100, 3000);
        } else {
            assert(3000int * 3000int == 9_000_000);
        }
        assert(u1.square() >= 9_000_000 && bounds::short(u1, 5100) && bounds::short(f1, 8900));
        let u = air::attitude(t, c, e).0;
        if c.w_roll != 0 {
            lemma_spun_near(t, u1, f1, c.w_roll as int, 8900, 5100);
            let far: int = 1510;
            assert(far == (5100int * 96) / 4096 + (((8900int * 5100int) / 4096 + 3) * 512) / 4096
                + 6);
            bounds::lemma_longer(u1, 5100, 6610);
            assert(2610int * 2610int == 6_812_100);
            lemma_still_long(u1, u, 1510, 6610, 1100);
        } else {
            assert(1100int * 1100int <= 9_000_000);
            bounds::lemma_longer(u, 5100, 6610);
        }
        bounds::lemma_within(u, 6610);
        lemma_unit_is_upright(u, 1100);
    }
}

} // verus!
