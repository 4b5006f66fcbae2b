//! How long vectors can get: what adding, projecting, reflecting and rubbing do
//! to a vector's length, rounding included.

use vstd::prelude::*;
use crate::num;
use crate::vec3;
use crate::vec3::V3;

verus! {

/// The vector is no longer than `b`.
pub open spec fn short(v: V3, b: int) -> bool {
    v.square() <= b * b
}

// ---- three numbers at a time -------------------------------------------

/// The sum of three squares.
pub open spec fn sum_sq(x: int, y: int, z: int) -> int {
    x * x + y * y + z * z
}

proof fn lemma_sum_sq(x: int, y: int, z: int)
    ensures
        0 <= x * x <= sum_sq(x, y, z),
        0 <= y * y <= sum_sq(x, y, z),
        0 <= z * z <= sum_sq(x, y, z),
{
    assert(x * x >= 0 && y * y >= 0 && z * z >= 0) by (nonlinear_arith);
}

/// A square under a square is the square of something smaller.
pub proof fn lemma_under_square(c: int, b: int)
    requires
        c * c <= b * b,
        b >= 0,
    ensures
        -b <= c <= b,
{
    if c > b {
        assert(c * c > b * b) by (nonlinear_arith)
            requires
                c > b,
                b >= 0,
        ;
    }
    if c < -b {
        assert(c * c > b * b) by (nonlinear_arith)
            requires
                c < -b,
                b >= 0,
        ;
    }
}

/// Larger magnitudes have larger squares.
pub proof fn lemma_square_grows(a: int, b: int)
    requires
        0 <= a <= b,
    ensures
        a * a <= b * b,
{
    assert(a * a <= b * b) by (nonlinear_arith)
        requires
            0 <= a <= b,
    ;
}

proof fn lemma_pair(x: int, a: int, m: int, n: int)
    ensures
        2 * ((m * n) * (x * a)) <= (n * n) * (x * x) + (m * m) * (a * a),
        -2 * ((m * n) * (x * a)) <= (n * n) * (x * x) + (m * m) * (a * a),
{
    let (p, q) = (n * x, m * a);
    assert(p * p == (n * n) * (x * x)) by (nonlinear_arith)
        requires
            p == n * x,
    ;
    assert(q * q == (m * m) * (a * a)) by (nonlinear_arith)
        requires
            q == m * a,
    ;
    assert(p * q == (m * n) * (x * a)) by (nonlinear_arith)
        requires
            p == n * x,
            q == m * a,
    ;
    assert(2 * (p * q) <= p * p + q * q && -2 * (p * q) <= p * p + q * q) by (nonlinear_arith);
}

proof fn lemma_spread(k: int, a: int, b: int, c: int)
    ensures
        k * (a + b + c) == k * a + k * b + k * c,
{
    assert(k * (a + b + c) == k * a + k * b + k * c) by (nonlinear_arith);
}

/// The inner product of two triples is no larger than the product of their
/// lengths.
pub proof fn lemma_cauchy(x: int, y: int, z: int, a: int, b: int, c: int, m: int, n: int)
    requires
        sum_sq(x, y, z) <= m * m,
        sum_sq(a, b, c) <= n * n,
        0 <= m,
        0 <= n,
    ensures
        -(m * n) <= x * a + y * b + z * c <= m * n,
{
    let (p, r, d, k) = (sum_sq(x, y, z), sum_sq(a, b, c), x * a + y * b + z * c, m * n);
    lemma_sum_sq(x, y, z);
    lemma_sum_sq(a, b, c);
    if m == 0 {
        lemma_under_square(x, 0);
        lemma_under_square(y, 0);
        lemma_under_square(z, 0);
        assert(x * a == 0 && y * b == 0 && z * c == 0 && k == 0) by (nonlinear_arith)
            requires
                x == 0,
                y == 0,
                z == 0,
                m == 0,
                k == m * n,
        ;
    } else if n == 0 {
        lemma_under_square(a, 0);
        lemma_under_square(b, 0);
        lemma_under_square(c, 0);
        assert(x * a == 0 && y * b == 0 && z * c == 0 && k == 0) by (nonlinear_arith)
            requires
                a == 0,
                b == 0,
                c == 0,
                n == 0,
                k == m * n,
        ;
    } else {
        lemma_pair(x, a, m, n);
        lemma_pair(y, b, m, n);
        lemma_pair(z, c, m, n);
        lemma_spread(k, x * a, y * b, z * c);
        lemma_spread(n * n, x * x, y * y, z * z);
        lemma_spread(m * m, a * a, b * b, c * c);
        let (mm, nn) = (m * m, n * n);
        assert(nn * p <= nn * mm && mm * r <= mm * nn) by (nonlinear_arith)
            requires
                0 <= p <= mm,
                0 <= r <= nn,
        ;
        assert(nn * mm == k * k && mm * nn == k * k) by (nonlinear_arith)
            requires
                mm == m * m,
                nn == n * n,
                k == m * n,
        ;
        assert(k > 0) by (nonlinear_arith)
            requires
                k == m * n,
                m > 0,
                n > 0,
        ;
        assert(k * d <= k * k && -(k * d) <= k * k);
        assert(-k <= d <= k) by (nonlinear_arith)
            requires
                k > 0,
                k * d <= k * k,
                -(k * d) <= k * k,
        ;
    }
}

proof fn lemma_sum_square(x: int, a: int)
    ensures
        (x + a) * (x + a) == x * x + 2 * (x * a) + a * a,
{
    assert((x + a) * (x + a) == x * x + 2 * (x * a) + a * a) by (nonlinear_arith);
}

/// The triangle inequality.
pub proof fn lemma_triangle(x: int, y: int, z: int, a: int, b: int, c: int, m: int, n: int)
    requires
        sum_sq(x, y, z) <= m * m,
        sum_sq(a, b, c) <= n * n,
        0 <= m,
        0 <= n,
    ensures
        sum_sq(x + a, y + b, z + c) <= (m + n) * (m + n),
{
    lemma_cauchy(x, y, z, a, b, c, m, n);
    lemma_sum_square(x, a);
    lemma_sum_square(y, b);
    lemma_sum_square(z, c);
    lemma_sum_square(m, n);
}

proof fn lemma_product_square(x: int, k: int)
    ensures
        (x * k) * (x * k) == (k * k) * (x * x),
{
    assert((x * k) * (x * k) == (k * k) * (x * x)) by (nonlinear_arith);
}

/// A stretched triple is that much longer.
proof fn lemma_stretched(x: int, y: int, z: int, k: int)
    ensures
        sum_sq(x * k, y * k, z * k) == (k * k) * sum_sq(x, y, z),
{
    lemma_product_square(x, k);
    lemma_product_square(y, k);
    lemma_product_square(z, k);
    lemma_spread(k * k, x * x, y * y, z * z);
}

proof fn lemma_cross_square(y: int, c: int, z: int, b: int)
    ensures
        (y * c - z * b) * (y * c - z * b) == (y * y) * (c * c) - 2 * ((y * b) * (z * c)) + (z * z) * (
        b * b),
{
    let (p, q) = (y * c, z * b);
    assert((p - q) * (p - q) == p * p - 2 * (p * q) + q * q) by (nonlinear_arith);
    lemma_product_square(y, c);
    lemma_product_square(z, b);
    assert(p * q == (y * b) * (z * c)) by (nonlinear_arith)
        requires
            p == y * c,
            q == z * b,
    ;
    assert((c * c) * (y * y) == (y * y) * (c * c)) by (nonlinear_arith);
    assert((b * b) * (z * z) == (z * z) * (b * b)) by (nonlinear_arith);
}

/// The cross product of two triples is no longer than the product of their
/// lengths.
pub proof fn lemma_cross_length(x: int, y: int, z: int, a: int, b: int, c: int)
    ensures
        sum_sq(y * c - z * b, z * a - x * c, x * b - y * a) <= sum_sq(x, y, z) * sum_sq(a, b, c),
{
    lemma_cross_square(y, c, z, b);
    lemma_cross_square(z, a, x, c);
    lemma_cross_square(x, b, y, a);
    let (p, q, r) = (x * a, y * b, z * c);
    let d = p + q + r;
    assert(d * d == p * p + q * q + r * r + 2 * (p * q) + 2 * (q * r) + 2 * (r * p))
        by (nonlinear_arith)
        requires
            d == p + q + r,
    ;
    lemma_product_square(x, a);
    lemma_product_square(y, b);
    lemma_product_square(z, c);
    let (xx, yy, zz, aa, bb, cc) = (x * x, y * y, z * z, a * a, b * b, c * c);
    let ww = aa + bb + cc;
    lemma_spread(xx, aa, bb, cc);
    lemma_spread(yy, aa, bb, cc);
    lemma_spread(zz, aa, bb, cc);
    assert((xx + yy + zz) * ww == xx * ww + yy * ww + zz * ww) by (nonlinear_arith);
    assert(aa * xx == xx * aa && bb * yy == yy * bb && cc * zz == zz * cc) by (nonlinear_arith);
    assert(p * q == q * p && q * r == r * q && r * p == p * r) by (nonlinear_arith);
    assert(d * d >= 0) by (nonlinear_arith);
    assert(sum_sq(y * c - z * b, z * a - x * c, x * b - y * a) == (xx + yy + zz) * ww - d * d);
}

/// A triple whose multiples by 4096 are within 4096 of another triple on every
/// axis is at most two longer than that triple's share.
pub proof fn lemma_rounded(x: int, y: int, z: int, p: int, q: int, r: int, c: int)
    requires
        sum_sq(x, y, z) <= (4096 * c) * (4096 * c),
        0 <= c,
        -4096 <= 4096 * p - x <= 4096,
        -4096 <= 4096 * q - y <= 4096,
        -4096 <= 4096 * r - z <= 4096,
    ensures
        sum_sq(p, q, r) <= (c + 2) * (c + 2),
{
    let (a, b, d) = (4096 * p - x, 4096 * q - y, 4096 * r - z);
    assert(a * a <= 4096 * 4096 && b * b <= 4096 * 4096 && d * d <= 4096 * 4096) by (nonlinear_arith)
        requires
            -4096 <= a <= 4096,
            -4096 <= b <= 4096,
            -4096 <= d <= 4096,
    ;
    lemma_triangle(x, y, z, a, b, d, 4096 * c, 8192);
    let s = sum_sq(p, q, r);
    assert(sum_sq(x + a, y + b, z + d) == 16_777_216 * s) by (nonlinear_arith)
        requires
            x + a == 4096 * p,
            y + b == 4096 * q,
            z + d == 4096 * r,
            s == p * p + q * q + r * r,
    ;
    assert((4096 * c + 8192) * (4096 * c + 8192) == 16_777_216 * ((c + 2) * (c + 2)))
        by (nonlinear_arith);
}

/// The same rounding from 65536ths.
pub proof fn lemma_rounded_wide(x: int, y: int, z: int, p: int, q: int, r: int, c: int)
    requires
        sum_sq(x, y, z) <= (65536 * c) * (65536 * c),
        0 <= c,
        -65536 <= 65536 * p - x <= 65536,
        -65536 <= 65536 * q - y <= 65536,
        -65536 <= 65536 * r - z <= 65536,
    ensures
        sum_sq(p, q, r) <= (c + 2) * (c + 2),
{
    let (a, b, d) = (65536 * p - x, 65536 * q - y, 65536 * r - z);
    assert(a * a <= 65536 * 65536 && b * b <= 65536 * 65536 && d * d <= 65536 * 65536)
        by (nonlinear_arith)
        requires
            -65536 <= a <= 65536,
            -65536 <= b <= 65536,
            -65536 <= d <= 65536,
    ;
    lemma_triangle(x, y, z, a, b, d, 65536 * c, 131_072);
    let s = sum_sq(p, q, r);
    assert(sum_sq(x + a, y + b, z + d) == 4_294_967_296 * s) by (nonlinear_arith)
        requires
            x + a == 65536 * p,
            y + b == 65536 * q,
            z + d == 65536 * r,
            s == p * p + q * q + r * r,
    ;
    assert((65536 * c + 131_072) * (65536 * c + 131_072) == 4_294_967_296 * ((c + 2) * (c + 2)))
        by (nonlinear_arith);
}

// ---- vectors -----------------------------------------------------------

/// A short vector has short components.
pub proof fn lemma_within(v: V3, b: int)
    requires
        short(v, b),
        b >= 0,
    ensures
        v.within(b),
{
    reveal(V3::square);
    lemma_sum_sq(v.x as int, v.y as int, v.z as int);
    lemma_under_square(v.x as int, b);
    lemma_under_square(v.y as int, b);
    lemma_under_square(v.z as int, b);
}

/// A vector is never longer than seven quarters of its longest component.
pub proof fn lemma_short(v: V3, m: int)
    requires
        v.within(m),
        m >= 0,
    ensures
        short(v, 7 * m / 4 + 1),
{
    reveal(V3::square);
    num::lemma_mul_bound(v.x as int, v.x as int, m, m);
    num::lemma_mul_bound(v.y as int, v.y as int, m, m);
    num::lemma_mul_bound(v.z as int, v.z as int, m, m);
    let b = 7 * m / 4 + 1;
    assert(4 * b >= 7 * m);
    assert(16 * (b * b) >= 49 * (m * m)) by (nonlinear_arith)
        requires
            4 * b >= 7 * m,
            m >= 0,
    ;
    assert(m * m >= 0) by (nonlinear_arith);
}

/// A longer bound is a bound.
pub proof fn lemma_longer(v: V3, a: int, b: int)
    requires
        short(v, a),
        0 <= a <= b,
    ensures
        short(v, b),
{
    lemma_square_grows(a, b);
}

/// The sum and the difference of two vectors are no longer than both together.
pub proof fn lemma_sum(u: V3, v: V3, a: int, b: int)
    requires
        short(u, a),
        short(v, b),
        0 <= a <= 0x1000_0000,
        0 <= b <= 0x1000_0000,
    ensures
        short(vec3::add3(u, v), a + b),
        short(vec3::sub3(u, v), a + b),
{
    lemma_within(u, a);
    lemma_within(v, b);
    reveal(V3::square);
    lemma_triangle(
        u.x as int,
        u.y as int,
        u.z as int,
        v.x as int,
        v.y as int,
        v.z as int,
        a,
        b,
    );
    let (p, q, r) = (-(v.x as int), -(v.y as int), -(v.z as int));
    assert(p * p == v.x * v.x && q * q == v.y * v.y && r * r == v.z * v.z) by (nonlinear_arith)
        requires
            p == -(v.x as int),
            q == -(v.y as int),
            r == -(v.z as int),
    ;
    lemma_triangle(u.x as int, u.y as int, u.z as int, p, q, r, a, b);
}

/// A Q12 fraction of a vector, rounded down, is that fraction of its length and
/// at most three more.
pub proof fn lemma_part(v: V3, k: int, b: int)
    requires
        short(v, b),
        0 <= k <= 4096,
        0 <= b <= 0x1000_0000,
    ensures
        short(vec3::along(v, k), (b * k) / 4096 + 3),
{
    lemma_within(v, b);
    reveal(V3::square);
    reveal(vec3::along);
    let (x, y, z) = (v.x * k, v.y * k, v.z * k);
    let c = (b * k) / 4096 + 1;
    assert(0 <= b * k <= 4096 * b) by (nonlinear_arith)
        requires
            0 <= k <= 4096,
            0 <= b,
    ;
    lemma_stretched(v.x as int, v.y as int, v.z as int, k);
    assert(k * k >= 0) by (nonlinear_arith);
    assert((k * k) * v.square() <= (k * k) * (b * b)) by (nonlinear_arith)
        requires
            k * k >= 0,
            v.square() <= b * b,
    ;
    assert((k * k) * (b * b) == (b * k) * (b * k)) by (nonlinear_arith);
    lemma_square_grows(b * k, 4096 * c);
    num::lemma_mul_bound(v.x as int, k, b, 4096);
    num::lemma_mul_bound(v.y as int, k, b, 4096);
    num::lemma_mul_bound(v.z as int, k, b, 4096);
    lemma_rounded(x, y, z, x / 4096, y / 4096, z / 4096, c);
}

// ---- a normal ----------------------------------------------------------

/// A Q12 normal that is a unit vector but for rounding: its square is at most a
/// five-hundred-and-twelfth over.
pub open spec fn is_normal(n: V3) -> bool {
    n.square() <= 16_809_984
}

/// Any Q12 direction is at most `sqrt(3)` long.
pub proof fn lemma_direction(n: V3)
    requires
        n.within(4096),
    ensures
        0 <= n.square() <= 50_331_648,
        short(n, 7095),
{
    reveal(V3::square);
    lemma_sum_sq(n.x as int, n.y as int, n.z as int);
    num::lemma_mul_bound(n.x as int, n.x as int, 4096, 4096);
    num::lemma_mul_bound(n.y as int, n.y as int, 4096, 4096);
    num::lemma_mul_bound(n.z as int, n.z as int, 4096, 4096);
}

/// A component of a vector moved along another by `d`, in 4096ths.
proof fn lemma_moved_square(v: int, n: int, d: int)
    ensures
        (4096 * v + n * d) * (4096 * v + n * d) == 16_777_216 * (v * v) + 8192 * (d * (v * n)) + (d * d)
            * (n * n),
{
    let (p, q) = (4096 * v, n * d);
    assert((p + q) * (p + q) == p * p + 2 * (p * q) + q * q) by (nonlinear_arith);
    assert(p * p == 16_777_216 * (v * v)) by (nonlinear_arith)
        requires
            p == 4096 * v,
    ;
    assert(p * q == 4096 * (d * (v * n))) by (nonlinear_arith)
        requires
            p == 4096 * v,
            q == n * d,
    ;
    lemma_product_square(n, d);
}

/// How long a vector is once moved along another by `d`, in 4096ths.
proof fn lemma_moved(v: V3, n: V3, d: int)
    ensures
        sum_sq(4096 * v.x + n.x * d, 4096 * v.y + n.y * d, 4096 * v.z + n.z * d) == 16_777_216
            * v.square() + 8192 * (d * (v.x * n.x + v.y * n.y + v.z * n.z)) + (d * d) * n.square(),
{
    reveal(V3::square);
    lemma_moved_square(v.x as int, n.x as int, d);
    lemma_moved_square(v.y as int, n.y as int, d);
    lemma_moved_square(v.z as int, n.z as int, d);
    lemma_spread(d, v.x * n.x, v.y * n.y, v.z * n.z);
    lemma_spread(d * d, n.x * n.x, n.y * n.y, n.z * n.z);
}

/// How far along a direction a short vector reaches.
pub proof fn lemma_reach(v: V3, n: V3, b: int)
    requires
        short(v, b),
        n.within(4096),
        0 <= b <= 0x1000_0000,
    ensures
        4096 * num::abs(vec3::dot(v, n)) <= 7095 * b + 4096,
        is_normal(n) ==> 4096 * num::abs(vec3::dot(v, n)) <= 4100 * b + 4096,
{
    reveal(V3::square);
    reveal(vec3::dot);
    lemma_direction(n);
    lemma_cauchy(
        v.x as int,
        v.y as int,
        v.z as int,
        n.x as int,
        n.y as int,
        n.z as int,
        b,
        7095,
    );
    if is_normal(n) {
        lemma_cauchy(
            v.x as int,
            v.y as int,
            v.z as int,
            n.x as int,
            n.y as int,
            n.z as int,
            b,
            4100,
        );
    }
}

proof fn lemma_scaled_square(c: int)
    ensures
        (4096 * c) * (4096 * c) == 16_777_216 * (c * c),
{
    assert((4096 * c) * (4096 * c) == 16_777_216 * (c * c)) by (nonlinear_arith);
}

/// Taking the part along a normal out of a vector does not make it longer, and
/// taking it out along any direction at most doubles it.
pub proof fn lemma_flattened(v: V3, n: V3, b: int)
    requires
        short(v, b),
        n.within(4096),
        0 <= b <= 0x40_0000,
    ensures
        short(vec3::flattened(v, n), 2 * b + b / 100 + 6),
        is_normal(n) ==> short(vec3::flattened(v, n), b + 4),
{
    lemma_within(v, b);
    lemma_direction(n);
    lemma_reach(v, n, b);
    let d = vec3::dot(v, n);
    let big = v.x * n.x + v.y * n.y + v.z * n.z;
    let e = big - 4096 * d;
    assert(0 <= e <= 4095) by {
        reveal(vec3::dot);
    }
    let (x, y, z) = (4096 * v.x - n.x * d, 4096 * v.y - n.y * d, 4096 * v.z - n.z * d);
    lemma_moved(v, n, -d);
    assert(n.x * (-d) == -(n.x * d) && n.y * (-d) == -(n.y * d) && n.z * (-d) == -(n.z * d))
        by (nonlinear_arith);
    let dd = d * d;
    let a = num::abs(d);
    assert((-d) * (-d) == dd && (-d) * big == -(d * big) && dd == a * a && dd >= 0)
        by (nonlinear_arith)
        requires
            dd == d * d,
            a == d || a == -d,
    ;
    assert(d * big == 4096 * dd + d * e) by (nonlinear_arith)
        requires
            big == 4096 * d + e,
            dd == d * d,
    ;
    assert(d * e >= -4095 * a) by (nonlinear_arith)
        requires
            0 <= e <= 4095,
            a == d || a == -d,
            a >= 0,
    ;
    let q = v.square();
    let total = sum_sq(x, y, z);
    assert(total == 16_777_216 * q - 8192 * (d * big) + dd * n.square());
    num::lemma_mul_bound(n.x as int, d, 4096, a);
    num::lemma_mul_bound(n.y as int, d, 4096, a);
    num::lemma_mul_bound(n.z as int, d, 4096, a);
    reveal(vec3::along);
    let f = vec3::flattened(v, n);
    // Any direction.
    let t = a + 1;
    let c = 2 * b + b / 100 + 4;
    assert(dd * n.square() <= dd * 50_331_648) by (nonlinear_arith)
        requires
            dd >= 0,
            n.square() <= 50_331_648,
    ;
    assert(t * t == a * a + 2 * a + 1) by (nonlinear_arith)
        requires
            t == a + 1,
    ;
    assert(total <= 16_777_216 * (b * b + t * t));
    assert(b * b + t * t <= c * c) by (nonlinear_arith)
        requires
            4096 * t <= 7095 * b + 8192,
            t >= 0,
            100 * c >= 201 * b + 300,
            b >= 0,
    ;
    lemma_scaled_square(c);
    reveal(V3::square);
    lemma_rounded(x, y, z, f.x as int, f.y as int, f.z as int, c);
    // A normal.
    if is_normal(n) {
        assert(dd * n.square() <= dd * 16_809_984) by (nonlinear_arith)
            requires
                dd >= 0,
                n.square() <= 16_809_984,
        ;
        assert(-33_554_432 * dd + 33_554_432 * a + 16_809_984 * dd <= 33_554_432) by (nonlinear_arith)
            requires
                dd == a * a,
                a >= 0,
        ;
        let g = b + 2;
        assert(total <= 16_777_216 * (b * b + 2));
        assert(b * b + 2 <= g * g) by (nonlinear_arith)
            requires
                g == b + 2,
                b >= 0,
        ;
        lemma_scaled_square(g);
        lemma_rounded(x, y, z, f.x as int, f.y as int, f.z as int, g);
    }
}

/// Bouncing off a normal does not make a vector longer, and off any direction it
/// makes it at most four times as long.
pub proof fn lemma_reflected(v: V3, n: V3, p: int, b: int)
    requires
        short(v, b),
        n.within(4096),
        0 <= b <= 0x40_0000,
        vec3::dot(v, n) < 0,
        0 <= p,
        5 * p <= -8 * vec3::dot(v, n) + 5,
    ensures
        short(vec3::added(v, n, p), (39 * b) / 10 + 11),
        is_normal(n) ==> short(vec3::added(v, n, p), b + 9),
{
    lemma_within(v, b);
    lemma_direction(n);
    lemma_reach(v, n, b);
    let d = vec3::dot(v, n);
    let big = v.x * n.x + v.y * n.y + v.z * n.z;
    assert(big <= 4096 * d + 4095) by {
        reveal(vec3::dot);
    }
    let (x, y, z) = (4096 * v.x + n.x * p, 4096 * v.y + n.y * p, 4096 * v.z + n.z * p);
    lemma_moved(v, n, p);
    let a = -d;
    let pp = p * p;
    assert(p * big <= 4096 * (p * (1 - a))) by (nonlinear_arith)
        requires
            big <= 4096 * (1 - a),
            0 <= p,
    ;
    assert(pp >= 0) by (nonlinear_arith)
        requires
            pp == p * p,
    ;
    let total = sum_sq(x, y, z);
    let q = v.square();
    assert(total == 16_777_216 * q + 8192 * (p * big) + pp * n.square());
    num::lemma_mul_bound(n.x as int, p, 4096, p);
    num::lemma_mul_bound(n.y as int, p, 4096, p);
    num::lemma_mul_bound(n.z as int, p, 4096, p);
    reveal(vec3::along);
    let r = vec3::added(v, n, p);
    // Any direction.
    let c = (39 * b) / 10 + 9;
    assert(pp * n.square() <= pp * 50_331_648) by (nonlinear_arith)
        requires
            pp >= 0,
            n.square() <= 50_331_648,
    ;
    assert(25 * (2 * (p * (1 - a)) + 3 * pp) <= 112 * (a * a) + 300 * a + 200) by (nonlinear_arith)
        requires
            0 <= p,
            5 * p <= 8 * a + 5,
            a >= 1,
            pp == p * p,
    ;
    assert(25 * (b * b) + 112 * (a * a) + 300 * a + 200 <= 25 * (c * c)) by (nonlinear_arith)
        requires
            4096 * a <= 7095 * b + 4096,
            a >= 1,
            10 * c >= 39 * b + 81,
            b >= 0,
    ;
    assert(total <= 16_777_216 * (c * c));
    lemma_scaled_square(c);
    reveal(V3::square);
    lemma_rounded(x, y, z, r.x as int, r.y as int, r.z as int, c);
    // A normal.
    if is_normal(n) {
        assert(pp * n.square() <= pp * 16_809_984) by (nonlinear_arith)
            requires
                pp >= 0,
                n.square() <= 16_809_984,
        ;
        assert(33_554_432 * (p * (1 - a)) + 16_809_984 * pp <= 16_777_216 * 49) by (nonlinear_arith)
            requires
                0 <= p,
                5 * p <= 8 * a + 5,
                a >= 1,
                pp == p * p,
        ;
        let g = b + 7;
        assert(b * b + 49 <= g * g) by (nonlinear_arith)
            requires
                g == b + 7,
                b >= 0,
        ;
        lemma_scaled_square(g);
        lemma_rounded(x, y, z, r.x as int, r.y as int, r.z as int, g);
    }
}

// ---- a cap -------------------------------------------------------------

/// One component of a vector brought down in length.
proof fn lemma_capped_component(c: int, limit: int, len: int)
    requires
        0 <= limit,
        0 < len,
    ensures
        ({
            let r = num::tdiv(c * limit, len);
            (r * r) * (len * len) <= (limit * limit) * (c * c)
        }),
{
    let r = num::tdiv(c * limit, len);
    let p = c * limit;
    let a = num::abs(p);
    let ar = num::abs(r);
    assert(ar == a / len) by {
        if p < 0 {
            assert((-p) / len >= 0) by (nonlinear_arith)
                requires
                    -p >= 0,
                    len > 0,
            ;
        } else {
            assert(p / len >= 0) by (nonlinear_arith)
                requires
                    p >= 0,
                    len > 0,
            ;
        }
    }
    assert(0 <= (a / len) * len <= a && a / len >= 0) by (nonlinear_arith)
        requires
            a >= 0,
            len > 0,
    ;
    let m = ar * len;
    lemma_square_grows(m, a);
    assert(m * m == (r * r) * (len * len)) by (nonlinear_arith)
        requires
            m == ar * len,
            ar == r || ar == -r,
    ;
    assert(a * a == (limit * limit) * (c * c)) by (nonlinear_arith)
        requires
            a == c * limit || a == -(c * limit),
    ;
}

/// Capping really caps: a vector whose square a 32-bit value holds comes out no
/// longer than the limit.
pub proof fn lemma_capped(v: V3, limit: int)
    requires
        0 <= limit,
        v.square() <= i32::MAX,
    ensures
        vec3::capped(v, limit).square() < (limit + 1) * (limit + 1),
        vec3::capped(v, limit).length() <= limit,
        short(vec3::capped(v, limit), limit + 1),
{
    vec3::lemma_length_covers(v);
    let len = v.length();
    let r = vec3::capped(v, limit);
    if len > limit {
        let (x, y, z) = (
            num::tdiv(v.x * limit, len),
            num::tdiv(v.y * limit, len),
            num::tdiv(v.z * limit, len),
        );
        lemma_capped_component(v.x as int, limit, len);
        lemma_capped_component(v.y as int, limit, len);
        lemma_capped_component(v.z as int, limit, len);
        vec3::lemma_scale_down(v.x as int, limit, len);
        vec3::lemma_scale_down(v.y as int, limit, len);
        vec3::lemma_scale_down(v.z as int, limit, len);
        reveal(vec3::scaled);
        reveal(V3::square);
        let s = sum_sq(x, y, z);
        assert(r == vec3::scaled(v, limit, len));
        lemma_under_square(len, 46_341);
        assert(r.x == x && r.y == y && r.z == z);
        assert(r.square() == s);
        let (ll, mm, q) = (len * len, limit * limit, v.square());
        assert(s * ll == (x * x) * ll + (y * y) * ll + (z * z) * ll) by (nonlinear_arith)
            requires
                s == x * x + y * y + z * z,
        ;
        lemma_spread(mm, v.x * v.x, v.y * v.y, v.z * v.z);
        assert(s * ll <= mm * q);
        let g = limit + 1;
        if s >= g * g {
            assert(s * ll >= (g * g) * ll) by (nonlinear_arith)
                requires
                    s >= g * g,
                    ll >= 0,
                    ll == len * len,
            ;
            assert(mm * q < (g * g) * ll) by (nonlinear_arith)
                requires
                    mm == limit * limit,
                    0 <= q,
                    q < (len + 1) * (len + 1),
                    ll == len * len,
                    g == limit + 1,
                    0 <= limit < len,
            ;
        }
    } else {
        lemma_square_grows(len + 1, limit + 1);
    }
    lemma_short_length(r, limit);
}

/// A vector whose square is under the square after `b` has a length of at most
/// `b`.
pub proof fn lemma_short_length(v: V3, b: int)
    requires
        0 <= b,
        v.square() < (b + 1) * (b + 1),
    ensures
        v.length() <= b,
{
    reveal(V3::square);
    lemma_sum_sq(v.x as int, v.y as int, v.z as int);
    let kept = num::min(v.square(), i32::MAX as int);
    vec3::lemma_root_exists(kept);
    let r = v.length();
    if r > b {
        lemma_square_grows(b + 1, r);
    }
}

/// A vector of a length that has not saturated is hardly longer than it.
pub proof fn lemma_length_short(v: V3, b: int)
    requires
        v.length() <= b,
        0 <= b <= 46_339,
    ensures
        v.square() < (b + 1) * (b + 1),
        short(v, b + 1),
{
    reveal(V3::square);
    lemma_sum_sq(v.x as int, v.y as int, v.z as int);
    let kept = num::min(v.square(), i32::MAX as int);
    vec3::lemma_root_exists(kept);
    let r = v.length();
    lemma_square_grows(r + 1, b + 1);
    lemma_square_grows(b + 1, 46_340);
}

/// The unit vector of a long enough vector is a normal.
pub proof fn lemma_unit_is_normal(v: V3, len: int)
    requires
        v.within(26_754),
        len * len <= v.square(),
        1100 <= len,
    ensures
        is_normal(v.unit()),
        v.unit().within(4096),
{
    vec3::lemma_unit(v);
    assert(v.square() <= i32::MAX) by {
        reveal(V3::square);
        num::lemma_mul_bound(v.x as int, v.x as int, 26_754, 26_754);
        num::lemma_mul_bound(v.y as int, v.y as int, 26_754, 26_754);
        num::lemma_mul_bound(v.z as int, v.z as int, 26_754, 26_754);
    }
    vec3::lemma_length_covers(v);
    let l = v.length();
    num::lemma_root_covers(l, v.square(), len);
    let r = v.unit();
    let (x, y, z) = (
        num::tdiv(v.x * 4096, l),
        num::tdiv(v.y * 4096, l),
        num::tdiv(v.z * 4096, l),
    );
    lemma_capped_component(v.x as int, 4096, l);
    lemma_capped_component(v.y as int, 4096, l);
    lemma_capped_component(v.z as int, 4096, l);
    num::lemma_tdiv_bound(v.x * 4096, l, 4096);
    num::lemma_tdiv_bound(v.y * 4096, l, 4096);
    num::lemma_tdiv_bound(v.z * 4096, l, 4096);
    reveal(vec3::scaled);
    reveal(V3::square);
    let s = sum_sq(x, y, z);
    assert(r.square() == s);
    let (ll, q) = (l * l, v.square());
    assert(s * ll == (x * x) * ll + (y * y) * ll + (z * z) * ll) by (nonlinear_arith)
        requires
            s == x * x + y * y + z * z,
    ;
    assert(s * ll <= 16_777_216 * q);
    if s > 16_809_984 {
        assert(ll > 0) by (nonlinear_arith)
            requires
                ll == l * l,
                l >= 1100,
        ;
        assert(s * ll > 16_809_984 * ll) by (nonlinear_arith)
            requires
                s > 16_809_984,
                ll > 0,
        ;
        assert(16_777_216 * q <= 16_809_984 * ll) by (nonlinear_arith)
            requires
                q < (l + 1) * (l + 1),
                ll == l * l,
                l >= 1100,
        ;
    }
}

// ---- friction ----------------------------------------------------------

/// What a rounded step along a normal has in common with a vector, from below.
proof fn lemma_step_product(w: int, u: int, n: int, e: int)
    requires
        0 <= n * e - 4096 * w <= 4095,
    ensures
        4096 * (w * u) >= e * (u * n) - 4096 * num::abs(u),
{
    let f = n * e - 4096 * w;
    assert(4096 * (w * u) == e * (u * n) - f * u) by (nonlinear_arith)
        requires
            f == n * e - 4096 * w,
    ;
    num::lemma_mul_bound(f, u, 4095, num::abs(u));
}

/// A mixed product is covered by shares of the two squares.
proof fn lemma_mixed(x: int, y: int)
    ensures
        8192 * (x * y) <= 7000 * (y * y) + 2397 * (x * x),
{
    assert(8192 * (x * y) <= 7000 * (y * y) + 2397 * (x * x)) by (nonlinear_arith);
}

/// The part of a vector along a normal has next to nothing against what is left
/// of the vector without it.
proof fn lemma_left_over(u: V3, n: V3, big: int)
    requires
        short(u, big),
        n.within(4096),
        is_normal(n),
        0 <= big <= 0x10_0000,
    ensures
        ({
            let w = vec3::along(n, vec3::dot(u, n));
            let s = vec3::flattened(u, n);
            &&& s.x == u.x - w.x && s.y == u.y - w.y && s.z == u.z - w.z
            &&& -400 * (w.x * s.x + w.y * s.y + w.z * s.z) <= big * big + 4800 * big + 12_000
        }),
{
    lemma_within(u, big);
    lemma_reach(u, n, big);
    let e = vec3::dot(u, n);
    let a = num::abs(e);
    let prod = u.x * n.x + u.y * n.y + u.z * n.z;
    let g = prod - 4096 * e;
    assert(0 <= g <= 4095) by {
        reveal(vec3::dot);
    }
    let w = vec3::along(n, e);
    let s = vec3::flattened(u, n);
    num::lemma_mul_bound(n.x as int, e, 4096, a);
    num::lemma_mul_bound(n.y as int, e, 4096, a);
    num::lemma_mul_bound(n.z as int, e, 4096, a);
    reveal(vec3::along);
    lemma_step_product(w.x as int, u.x as int, n.x as int, e);
    lemma_step_product(w.y as int, u.y as int, n.y as int, e);
    lemma_step_product(w.z as int, u.z as int, n.z as int, e);
    lemma_spread(e, u.x * n.x, u.y * n.y, u.z * n.z);
    let aa = a * a;
    assert(e * prod >= 4096 * aa - 4095 * a) by (nonlinear_arith)
        requires
            prod == 4096 * e + g,
            0 <= g <= 4095,
            a == e || a == -e,
            a >= 0,
            aa == a * a,
    ;
    let wu = w.x * u.x + w.y * u.y + w.z * u.z;
    assert(wu >= aa - a - 3 * big);
    // The step itself is hardly longer than the reach.
    let c = a + a / 1000 + 1;
    lemma_stretched(n.x as int, n.y as int, n.z as int, e);
    assert(sum_sq(n.x * e, n.y * e, n.z * e) <= (4096 * c) * (4096 * c)) by {
        reveal(V3::square);
        let ee = e * e;
        assert(ee == aa && ee >= 0) by (nonlinear_arith)
            requires
                ee == e * e,
                aa == a * a,
                a == e || a == -e,
        ;
        assert(ee * n.square() <= ee * 16_810_000) by (nonlinear_arith)
            requires
                ee >= 0,
                n.square() <= 16_810_000,
        ;
        assert((4100 * a) * (4100 * a) == 16_810_000 * aa) by (nonlinear_arith)
            requires
                aa == a * a,
        ;
        lemma_square_grows(4100 * a, 4096 * c);
    }
    lemma_rounded(n.x * e, n.y * e, n.z * e, w.x as int, w.y as int, w.z as int, c);
    let ww = sum_sq(w.x as int, w.y as int, w.z as int);
    let h = a / 1000 + 3;
    assert((c + 2) * (c + 2) == aa + 2 * (a * h) + h * h) by (nonlinear_arith)
        requires
            c + 2 == a + h,
            aa == a * a,
    ;
    let rest = 2 * (a * h) + h * h + a + 3 * big;
    assert(w.x * s.x + w.y * s.y + w.z * s.z == wu - ww) by {
        assert(w.x * s.x == w.x * u.x - w.x * w.x) by (nonlinear_arith)
            requires
                s.x == u.x - w.x,
        ;
        assert(w.y * s.y == w.y * u.y - w.y * w.y) by (nonlinear_arith)
            requires
                s.y == u.y - w.y,
        ;
        assert(w.z * s.z == w.z * u.z - w.z * w.z) by (nonlinear_arith)
            requires
                s.z == u.z - w.z,
        ;
    }
    assert(400 * rest <= big * big + 4800 * big + 12_000) by (nonlinear_arith)
        requires
            rest == 2 * (a * h) + h * h + a + 3 * big,
            1000 * h <= a + 3000,
            h >= 0,
            a >= 0,
            big >= 0,
            4096 * a <= 4100 * big + 4096,
    ;
}

/// Friction against a normal: taking up to two sevenths of the slip out of a
/// velocity lengthens it by less than half of what the spin adds to the slip.
pub proof fn lemma_rubbed(v: V3, sp: V3, n: V3, k: int, b: int, q: int)
    requires
        short(v, b),
        short(sp, q),
        n.within(4096),
        is_normal(n),
        0 <= k <= 1170,
        0 <= b <= 0x4_0000,
        0 <= q <= 0x4_0000,
    ensures
        short(
            vec3::sub3(v, vec3::along(vec3::flattened(vec3::add3(v, sp), n), k)),
            b + b / 500 + q / 2 + 32,
        ),
{
    let u = vec3::add3(v, sp);
    let big = b + q;
    lemma_within(v, b);
    lemma_within(sp, q);
    lemma_sum(v, sp, b, q);
    lemma_left_over(u, n, big);
    let w = vec3::along(n, vec3::dot(u, n));
    let s = vec3::flattened(u, n);
    lemma_flattened(u, n, big);
    lemma_within(s, big + 4);
    let ws = w.x * s.x + w.y * s.y + w.z * s.z;
    let vs = v.x * s.x + v.y * s.y + v.z * s.z;
    let ps = sp.x * s.x + sp.y * s.y + sp.z * s.z;
    let ss = s.square();
    assert(vs == ss + ws - ps) by {
        reveal(V3::square);
        assert(v.x * s.x == s.x * s.x + w.x * s.x - sp.x * s.x) by (nonlinear_arith)
            requires
                s.x == v.x + sp.x - w.x,
        ;
        assert(v.y * s.y == s.y * s.y + w.y * s.y - sp.y * s.y) by (nonlinear_arith)
            requires
                s.y == v.y + sp.y - w.y,
        ;
        assert(v.z * s.z == s.z * s.z + w.z * s.z - sp.z * s.z) by (nonlinear_arith)
            requires
                s.z == v.z + sp.z - w.z,
        ;
    }
    assert(8192 * ps <= 7000 * ss + 2397 * (q * q)) by {
        reveal(V3::square);
        lemma_mixed(sp.x as int, s.x as int);
        lemma_mixed(sp.y as int, s.y as int);
        lemma_mixed(sp.z as int, s.z as int);
    }
    lemma_moved(v, s, -k);
    let (x, y, z) = (4096 * v.x - s.x * k, 4096 * v.y - s.y * k, 4096 * v.z - s.z * k);
    assert(s.x * (-k) == -(s.x * k) && s.y * (-k) == -(s.y * k) && s.z * (-k) == -(s.z * k)
        && (-k) * vs == -(k * vs) && (-k) * (-k) == k * k) by (nonlinear_arith);
    let total = sum_sq(x, y, z);
    assert(total == 16_777_216 * v.square() - 8192 * (k * vs) + (k * k) * ss);
    assert(ss >= 0) by {
        reveal(V3::square);
        lemma_sum_sq(s.x as int, s.y as int, s.z as int);
    }
    let qq = q * q;
    let r = big * big + 4800 * big + 12_000;
    assert(400 * (-8192 * (k * vs) + (k * k) * ss) <= 1170 * (8192 * r + 958_800 * qq)) by {
        let t = -8192 * vs + k * ss;
        assert(t <= -8192 * ws + 2397 * qq) by {
            assert(k * ss <= 1170 * ss) by (nonlinear_arith)
                requires
                    k <= 1170,
                    ss >= 0,
            ;
        }
        let m = 8192 * r + 958_800 * qq;
        assert(400 * t <= m);
        assert(0 <= m) by (nonlinear_arith)
            requires
                m == 8192 * r + 958_800 * qq,
                r == big * big + 4800 * big + 12_000,
                big >= 0,
                qq == q * q,
        ;
        assert(-8192 * (k * vs) + (k * k) * ss == k * t) by (nonlinear_arith)
            requires
                t == -8192 * vs + k * ss,
        ;
        assert(400 * (k * t) <= 1170 * m) by (nonlinear_arith)
            requires
                0 <= k <= 1170,
                400 * t <= m,
                0 <= m,
        ;
    }
    let g = b + b / 500 + q / 2 + 30;
    lemma_room(b, q, g, big, r, qq);
    assert(total <= 16_777_216 * (g * g));
    lemma_scaled_square(g);
    num::lemma_mul_bound(s.x as int, k, big + 4, 1170);
    num::lemma_mul_bound(s.y as int, k, big + 4, 1170);
    num::lemma_mul_bound(s.z as int, k, big + 4, 1170);
    reveal(vec3::along);
    reveal(V3::square);
    let f = vec3::sub3(v, vec3::along(s, k));
    lemma_rounded(x, y, z, f.x as int, f.y as int, f.z as int, g);
}

proof fn lemma_room(b: int, q: int, g: int, big: int, r: int, qq: int)
    requires
        0 <= b,
        0 <= q,
        g == b + b / 500 + q / 2 + 30,
        big == b + q,
        r == big * big + 4800 * big + 12_000,
        qq == q * q,
    ensures
        400 * (16_777_216 * (b * b)) + 1170 * (8192 * r + 958_800 * qq) <= 400 * (16_777_216 * (g * g)),
{
    let h = 1002 * b + 500 * q + 28_502;
    assert(1000 * g >= h);
    assert(1_000_000 * (g * g) >= h * h) by (nonlinear_arith)
        requires
            1000 * g >= h,
            h >= 0,
    ;
    let (bb, bq) = (b * b, b * q);
    assert(h * h == 1_004_004 * bb + 250_000 * qq + 1_002_000 * bq + 57_118_008 * b + 28_502_000 * q
        + 812_364_004) by (nonlinear_arith)
        requires
            h == 1002 * b + 500 * q + 28_502,
            bb == b * b,
            bq == b * q,
            qq == q * q,
    ;
    assert(big * big == bb + 2 * bq + qq) by (nonlinear_arith)
        requires
            big == b + q,
            bb == b * b,
            bq == b * q,
            qq == q * q,
    ;
    assert(bb >= 0 && bq >= 0 && qq >= 0) by (nonlinear_arith)
        requires
            bb == b * b,
            bq == b * q,
            qq == q * q,
            0 <= b,
            0 <= q,
    ;
}

} // verus!
