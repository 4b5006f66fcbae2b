//! Fixed-point vectors.
//!
//! Products are formed in 64 bits, so an operation is exact whenever its
//! result fits a 32-bit component. Each function states its exact result over
//! the mathematical integers, and beside it the size bound that callers chain.

use vstd::prelude::*;
use crate::num::{isqrt_i32, mul_div, shift10, shift12, shift16, wide_mul, wide_square};
use crate::num;

verus! {

/// The widest component of a vector that is multiplied by a Q12 unit vector.
pub const WIDE: i32 = 0x1000_0000;
/// The widest component of a vector that is multiplied by a direction.
pub const BROAD: i32 = 0x400_0000;
/// The widest component of a direction. A Q12 unit vector is a quarter of it.
pub const DIR: i32 = 0x4000;

/// A fixed-point 3D vector in sub-units.
#[derive(Copy, Clone, Debug, PartialEq, Eq, Structural)]
pub struct V3 {
    /// Right.
    pub x: i32,
    /// Up.
    pub y: i32,
    /// Forward.
    pub z: i32,
}

/// One of the two is a direction, and the other is not too wide to multiply
/// by it.
pub open spec fn multiply(a: V3, b: V3) -> bool {
    ||| a.within(WIDE as int) && b.within(4096)
    ||| a.within(4096) && b.within(WIDE as int)
    ||| a.within(BROAD as int) && b.within(DIR as int)
    ||| a.within(DIR as int) && b.within(BROAD as int)
    ||| a.within(0x20_0000) && b.within(0x3_0000)
}

/// The vector with these components.
pub open spec fn v3(x: int, y: int, z: int) -> V3 {
    V3 { x: x as i32, y: y as i32, z: z as i32 }
}

/// The zero vector.
pub open spec fn zero3() -> V3 {
    V3 { x: 0, y: 0, z: 0 }
}

/// Sum of two vectors.
pub open spec fn add3(a: V3, b: V3) -> V3 {
    v3(a.x + b.x, a.y + b.y, a.z + b.z)
}

/// Difference of two vectors.
pub open spec fn sub3(a: V3, b: V3) -> V3 {
    v3(a.x - b.x, a.y - b.y, a.z - b.z)
}

/// Dot product of `a` with a Q12 direction `b`, in the units of `a`.
#[verifier::opaque]
pub open spec fn dot(a: V3, b: V3) -> int {
    (a.x * b.x + a.y * b.y + a.z * b.z) / 4096
}

/// Cross product scaled down by `den`.
#[verifier::opaque]
pub open spec fn cross_over(a: V3, b: V3, den: int) -> V3 {
    v3(
        (a.y * b.z - a.z * b.y) / den,
        (a.z * b.x - a.x * b.z) / den,
        (a.x * b.y - a.y * b.x) / den,
    )
}

/// Cross product of two Q12 vectors.
pub open spec fn cross(a: V3, b: V3) -> V3 {
    cross_over(a, b, 4096)
}

/// `dir * scale` with `dir` a Q12 direction.
#[verifier::opaque]
pub open spec fn along(dir: V3, scale: int) -> V3 {
    v3((dir.x * scale) / 4096, (dir.y * scale) / 4096, (dir.z * scale) / 4096)
}

/// `v + dir * scale` with `dir` a Q12 direction.
pub open spec fn added(v: V3, dir: V3, scale: int) -> V3 {
    add3(v, along(dir, scale))
}

/// `v` with its part along the Q12 normal `up` taken out.
pub open spec fn flattened(v: V3, up: V3) -> V3 {
    sub3(v, along(up, dot(v, up)))
}

/// `v * num / den`, each component rounded toward zero.
#[verifier::opaque]
pub open spec fn scaled(v: V3, num: int, den: int) -> V3 {
    v3(num::tdiv(v.x * num, den), num::tdiv(v.y * num, den), num::tdiv(v.z * num, den))
}

/// `v * num / 1024` rounded down.
#[verifier::opaque]
pub open spec fn damped(v: int, num: int) -> int {
    (v * num) / 1024
}

/// `v * num / 4096` rounded down.
#[verifier::opaque]
pub open spec fn damped12(v: int, num: int) -> int {
    (v * num) / 4096
}

impl V3 {
    /// No component is larger than `n` in magnitude.
    pub open spec fn within(self, n: int) -> bool {
        &&& -n <= self.x <= n
        &&& -n <= self.y <= n
        &&& -n <= self.z <= n
    }

    /// Squared length.
    #[verifier::opaque]
    pub open spec fn square(self) -> int {
        self.x * self.x + self.y * self.y + self.z * self.z
    }

    /// Squared horizontal length.
    #[verifier::opaque]
    pub open spec fn square_xz(self) -> int {
        self.x * self.x + self.z * self.z
    }

    /// Length, for vectors whose square a 32-bit value holds; past that the
    /// square saturates, and with it the length.
    pub open spec fn length(self) -> int {
        num::root(num::min(self.square(), i32::MAX as int))
    }

    /// Horizontal length, saturating as [`V3::length`] does.
    pub open spec fn length_xz(self) -> int {
        num::root(num::min(self.square_xz(), i32::MAX as int))
    }

    /// This vector scaled to Q12 unit length. Zero stays zero.
    pub open spec fn unit(self) -> V3 {
        scaled(self, 4096, num::max(self.length(), 1))
    }

    /// A vector from its components.
    pub fn new(x: i32, y: i32, z: i32) -> (r: Self)
        ensures
            r == (V3 { x, y, z }),
    {
        V3 { x, y, z }
    }

    /// The zero vector.
    pub fn zero() -> (r: Self)
        ensures
            r == zero3(),
    {
        V3 { x: 0, y: 0, z: 0 }
    }

    /// Squared length of a vector short enough for it to fit.
    pub fn len2(self) -> (r: i32)
        requires
            self.square() <= i32::MAX,
        ensures
            r == self.square(),
            r >= 0,
    {
        let (xx, yy, zz): (i64, i64, i64) = (
            wide_square(self.x),
            wide_square(self.y),
            wide_square(self.z),
        );
        proof {
            reveal(V3::square);
        }
        (xx + yy + zz) as i32
    }

    /// Horizontal (XZ) length.
    pub fn len_xz(self) -> (r: i32)
        ensures
            r == self.length_xz(),
            0 <= r <= 46340,
    {
        let xx: i64 = wide_square(self.x);
        let zz: i64 = wide_square(self.z);
        proof {
            reveal(V3::square_xz);
        }
        let sum: i128 = xx as i128 + zz as i128;
        let kept: i32 = if sum > 0x7fff_ffff {
            0x7fff_ffff
        } else {
            sum as i32
        };
        isqrt_i32(kept)
    }

    /// Full length.
    pub fn len(self) -> (r: i32)
        ensures
            r == self.length(),
            0 <= r <= 46340,
            num::is_root(r as int, num::min(self.square(), i32::MAX as int)),
    {
        let xx: i64 = wide_square(self.x);
        let yy: i64 = wide_square(self.y);
        let zz: i64 = wide_square(self.z);
        proof {
            reveal(V3::square);
        }
        let sum: i128 = xx as i128 + yy as i128 + zz as i128;
        let kept: i32 = if sum > 0x7fff_ffff {
            0x7fff_ffff
        } else {
            sum as i32
        };
        isqrt_i32(kept)
    }

    /// This vector scaled to Q12 unit length. Zero stays zero.
    pub fn unit_q12(self) -> (r: V3)
        ensures
            r == self.unit(),
            self.square() <= i32::MAX ==> r.within(4096),
            self.within(46340) ==> r.within(4096),
            self.within(180_000) ==> r.within(DIR as int),
            self.within(0x20_0000) ==> r.within(0x3_0000),
            num::abs(r.x as int) <= num::max(4096, num::abs(self.x as int)),
            num::abs(r.y as int) <= num::max(4096, num::abs(self.y as int)),
            num::abs(r.z as int) <= num::max(4096, num::abs(self.z as int)),
    {
        let len: i32 = self.len();
        let den: i32 = if len < 1 {
            1
        } else {
            len
        };
        proof {
            lemma_unit_bounds(self, len as int);
            reveal(scaled);
        }
        V3 {
            x: mul_div(self.x, 4096, den),
            y: mul_div(self.y, 4096, den),
            z: mul_div(self.z, 4096, den),
        }
    }
}

impl Default for V3 {
    fn default() -> (r: Self)
        ensures
            r == zero3(),
    {
        V3 { x: 0, y: 0, z: 0 }
    }
}

/// A component is never longer than its vector, so a unit vector stays inside
/// Q12 one.
proof fn lemma_unit_bounds(v: V3, len: int)
    requires
        num::is_root(len, num::min(v.square(), i32::MAX as int)),
        0 <= len <= 46340,
    ensures
        v.square() <= i32::MAX || v.within(46340) ==> {
            &&& num::abs(num::tdiv(v.x * 4096, num::max(len, 1))) <= 4096
            &&& num::abs(num::tdiv(v.y * 4096, num::max(len, 1))) <= 4096
            &&& num::abs(num::tdiv(v.z * 4096, num::max(len, 1))) <= 4096
        },
        v.within(180_000) ==> {
            &&& num::abs(num::tdiv(v.x * 4096, num::max(len, 1))) <= DIR
            &&& num::abs(num::tdiv(v.y * 4096, num::max(len, 1))) <= DIR
            &&& num::abs(num::tdiv(v.z * 4096, num::max(len, 1))) <= DIR
        },
        v.within(0x20_0000) ==> {
            &&& num::abs(num::tdiv(v.x * 4096, num::max(len, 1))) <= 0x3_0000
            &&& num::abs(num::tdiv(v.y * 4096, num::max(len, 1))) <= 0x3_0000
            &&& num::abs(num::tdiv(v.z * 4096, num::max(len, 1))) <= 0x3_0000
        },
        num::abs(num::tdiv(v.x * 4096, num::max(len, 1))) <= num::max(4096, num::abs(v.x as int)),
        num::abs(num::tdiv(v.y * 4096, num::max(len, 1))) <= num::max(4096, num::abs(v.y as int)),
        num::abs(num::tdiv(v.z * 4096, num::max(len, 1))) <= num::max(4096, num::abs(v.z as int)),
{
    reveal(V3::square);
    assert(v.x * v.x >= 0 && v.y * v.y >= 0 && v.z * v.z >= 0) by (nonlinear_arith);
    let den = num::max(len, 1);
    if v.square() <= i32::MAX {
        num::lemma_root_covers(len, v.square(), v.x as int);
        num::lemma_root_covers(len, v.square(), v.y as int);
        num::lemma_root_covers(len, v.square(), v.z as int);
        num::lemma_tdiv_bound(v.x * 4096, den, 4096);
        num::lemma_tdiv_bound(v.y * 4096, den, 4096);
        num::lemma_tdiv_bound(v.z * 4096, den, 4096);
    } else {
        assert(46340 * 46340 <= 0x7fff_ffff);
        num::lemma_root_covers(len, i32::MAX as int, 46340);
        lemma_grows(num::abs(v.x as int), den);
        lemma_grows(num::abs(v.y as int), den);
        lemma_grows(num::abs(v.z as int), den);
        if v.within(0x20_0000) {
            num::lemma_tdiv_bound(v.x * 4096, den, 0x3_0000);
            num::lemma_tdiv_bound(v.y * 4096, den, 0x3_0000);
            num::lemma_tdiv_bound(v.z * 4096, den, 0x3_0000);
        }
        if v.within(180_000) {
            num::lemma_tdiv_bound(v.x * 4096, den, DIR as int);
            num::lemma_tdiv_bound(v.y * 4096, den, DIR as int);
            num::lemma_tdiv_bound(v.z * 4096, den, DIR as int);
        }
        if v.within(46340) {
            num::lemma_tdiv_bound(v.x * 4096, den, 4096);
            num::lemma_tdiv_bound(v.y * 4096, den, 4096);
            num::lemma_tdiv_bound(v.z * 4096, den, 4096);
        }
        num::lemma_tdiv_bound(v.x * 4096, den, num::abs(v.x as int));
        num::lemma_tdiv_bound(v.y * 4096, den, num::abs(v.y as int));
        num::lemma_tdiv_bound(v.z * 4096, den, num::abs(v.z as int));
    }
}

/// A unit vector stays inside Q12 one.
pub proof fn lemma_unit(v: V3)
    requires
        v.within(46340),
    ensures
        v.unit().within(4096),
{
    reveal(V3::square);
    assert(v.x * v.x >= 0 && v.y * v.y >= 0 && v.z * v.z >= 0) by (nonlinear_arith);
    lemma_root_exists(num::min(v.square(), i32::MAX as int));
    let len = v.length();
    if len > 46340 {
        assert(len * len >= 46341 * 46341) by (nonlinear_arith)
            requires
                len >= 46341,
        ;
    }
    lemma_unit_bounds(v, len);
    reveal(scaled);
}

proof fn lemma_grows(m: int, den: int)
    requires
        m >= 0,
        den >= 4096,
    ensures
        m * 4096 <= m * den,
{
    assert(m * 4096 <= m * den) by (nonlinear_arith)
        requires
            m >= 0,
            den >= 4096,
    ;
}

/// The length of a short vector covers each of its components.
pub proof fn lemma_length_covers(v: V3)
    requires
        v.square() <= i32::MAX,
    ensures
        num::is_root(v.length(), v.square()),
        num::abs(v.x as int) <= v.length(),
        num::abs(v.y as int) <= v.length(),
        num::abs(v.z as int) <= v.length(),
{
    reveal(V3::square);
    assert(v.x * v.x >= 0 && v.y * v.y >= 0 && v.z * v.z >= 0) by (nonlinear_arith);
    lemma_root_exists(v.square());
    let r = v.length();
    num::lemma_root_covers(r, v.square(), v.x as int);
    num::lemma_root_covers(r, v.square(), v.y as int);
    num::lemma_root_covers(r, v.square(), v.z as int);
}

/// Every non-negative integer has an integer square root.
pub proof fn lemma_root_exists(x: int)
    requires
        x >= 0,
    ensures
        num::is_root(num::root(x), x),
{
    let r = find_root(x, 0);
    assert(num::is_root(r, x));
}

/// Walks up from `from` to the root of `x`.
proof fn find_root(x: int, from: int) -> (r: int)
    requires
        0 <= from,
        from * from <= x,
    ensures
        num::is_root(r, x),
    decreases x - from,
{
    if x < (from + 1) * (from + 1) {
        from
    } else {
        assert(from < from * from + 1) by (nonlinear_arith)
            requires
                0 <= from,
        ;
        assert((from + 1) * (from + 1) > from) by (nonlinear_arith)
            requires
                0 <= from,
        ;
        find_root(x, from + 1)
    }
}

/// `a + b`, componentwise.
pub fn plus(a: V3, b: V3) -> (r: V3)
    requires
        i32::MIN <= a.x + b.x <= i32::MAX,
        i32::MIN <= a.y + b.y <= i32::MAX,
        i32::MIN <= a.z + b.z <= i32::MAX,
    ensures
        r == add3(a, b),
{
    V3 { x: a.x + b.x, y: a.y + b.y, z: a.z + b.z }
}

/// `a - b`, componentwise.
pub fn minus(a: V3, b: V3) -> (r: V3)
    requires
        i32::MIN <= a.x - b.x <= i32::MAX,
        i32::MIN <= a.y - b.y <= i32::MAX,
        i32::MIN <= a.z - b.z <= i32::MAX,
    ensures
        r == sub3(a, b),
{
    V3 { x: a.x - b.x, y: a.y - b.y, z: a.z - b.z }
}

/// What a product of wide components is bounded by.
proof fn lemma_wide_product(a: int, b: int)
    requires
        num::abs(a) <= WIDE && num::abs(b) <= 4096 || num::abs(a) <= 4096 && num::abs(b) <= WIDE
            || num::abs(a) <= BROAD && num::abs(b) <= DIR || num::abs(a) <= DIR && num::abs(b)
            <= BROAD || num::abs(a) <= 0x20_0000 && num::abs(b) <= 0x3_0000,
    ensures
        num::abs(a * b) <= 0x100_0000_0000,
        num::abs(b) <= 4096 ==> num::abs(a * b) <= 4096 * num::abs(a),
        num::abs(a) <= 4096 ==> num::abs(a * b) <= 4096 * num::abs(b),
        num::abs(a) <= DIR ==> num::abs(a * b) <= DIR * num::abs(b),
{
    if num::abs(a) <= WIDE && num::abs(b) <= 4096 {
        num::lemma_mul_bound(a, b, WIDE as int, 4096);
    } else if num::abs(a) <= 4096 && num::abs(b) <= WIDE {
        num::lemma_mul_bound(a, b, 4096, WIDE as int);
    } else if num::abs(a) <= BROAD && num::abs(b) <= DIR {
        num::lemma_mul_bound(a, b, BROAD as int, DIR as int);
    } else if num::abs(a) <= DIR && num::abs(b) <= BROAD {
        num::lemma_mul_bound(a, b, DIR as int, BROAD as int);
    } else {
        num::lemma_mul_bound(a, b, 0x20_0000, 0x3_0000);
    }
    if num::abs(b) <= 4096 {
        num::lemma_mul_bound(a, b, num::abs(a), 4096);
    }
    if num::abs(a) <= 4096 {
        num::lemma_mul_bound(a, b, 4096, num::abs(b));
    }
    if num::abs(a) <= DIR {
        num::lemma_mul_bound(a, b, DIR as int, num::abs(b));
    }
}

/// Dot of two Q12 vectors, result in the same units as `a`.
pub fn dot_q12(a: V3, b: V3) -> (r: i32)
    requires
        multiply(a, b),
    ensures
        r == dot(a, b),
        b.within(4096) ==> num::abs(r as int) <= num::abs(a.x as int) + num::abs(a.y as int) + num::abs(a.z as int),
        a.within(4096) ==> num::abs(r as int) <= num::abs(b.x as int) + num::abs(b.y as int) + num::abs(b.z as int),
        num::abs(r as int) <= 0x3000_0000,
{
    let x: i64 = wide_mul(a.x, b.x);
    let y: i64 = wide_mul(a.y, b.y);
    let z: i64 = wide_mul(a.z, b.z);
    proof {
        lemma_wide_product(a.x as int, b.x as int);
        lemma_wide_product(a.y as int, b.y as int);
        lemma_wide_product(a.z as int, b.z as int);
        reveal(dot);
    }
    shift12(x + y + z)
}

/// Cross product of two Q12 vectors, result Q12.
pub fn cross_q12(a: V3, b: V3) -> (r: V3)
    requires
        multiply(a, b),
    ensures
        r == cross(a, b),
        b.within(4096) ==> {
            &&& num::abs(r.x as int) <= num::abs(a.y as int) + num::abs(a.z as int)
            &&& num::abs(r.y as int) <= num::abs(a.z as int) + num::abs(a.x as int)
            &&& num::abs(r.z as int) <= num::abs(a.x as int) + num::abs(a.y as int)
        },
        a.within(4096) ==> {
            &&& num::abs(r.x as int) <= num::abs(b.y as int) + num::abs(b.z as int)
            &&& num::abs(r.y as int) <= num::abs(b.z as int) + num::abs(b.x as int)
            &&& num::abs(r.z as int) <= num::abs(b.x as int) + num::abs(b.y as int)
        },
        a.within(DIR as int) ==> {
            &&& num::abs(r.x as int) <= 4 * (num::abs(b.y as int) + num::abs(b.z as int))
            &&& num::abs(r.y as int) <= 4 * (num::abs(b.z as int) + num::abs(b.x as int))
            &&& num::abs(r.z as int) <= 4 * (num::abs(b.x as int) + num::abs(b.y as int))
        },
{
    proof {
        lemma_wide_product(a.y as int, b.z as int);
        lemma_wide_product(a.z as int, b.y as int);
        lemma_wide_product(a.z as int, b.x as int);
        lemma_wide_product(a.x as int, b.z as int);
        lemma_wide_product(a.x as int, b.y as int);
        lemma_wide_product(a.y as int, b.x as int);
        reveal(cross_over);
    }
    V3 {
        x: shift12(wide_mul(a.y, b.z) - wide_mul(a.z, b.y)),
        y: shift12(wide_mul(a.z, b.x) - wide_mul(a.x, b.z)),
        z: shift12(wide_mul(a.x, b.y) - wide_mul(a.y, b.x)),
    }
}

/// Cross product of an angular velocity in Q16 radians with an arm in
/// sub-units: the surface speed at the end of the arm, in sub-units.
pub fn cross_spin(a: V3, b: V3) -> (r: V3)
    requires
        multiply(a, b),
    ensures
        r == cross_over(a, b, 65536),
        b.within(8192) ==> {
            &&& num::abs(r.x as int) <= (num::abs(a.y as int) + num::abs(a.z as int)) / 8 + 1
            &&& num::abs(r.y as int) <= (num::abs(a.z as int) + num::abs(a.x as int)) / 8 + 1
            &&& num::abs(r.z as int) <= (num::abs(a.x as int) + num::abs(a.y as int)) / 8 + 1
        },
{
    proof {
        lemma_wide_product(a.y as int, b.z as int);
        lemma_wide_product(a.z as int, b.y as int);
        lemma_wide_product(a.z as int, b.x as int);
        lemma_wide_product(a.x as int, b.z as int);
        lemma_wide_product(a.x as int, b.y as int);
        lemma_wide_product(a.y as int, b.x as int);
        if b.within(8192) {
            num::lemma_mul_bound(a.y as int, b.z as int, num::abs(a.y as int), 8192);
            num::lemma_mul_bound(a.z as int, b.y as int, num::abs(a.z as int), 8192);
            num::lemma_mul_bound(a.z as int, b.x as int, num::abs(a.z as int), 8192);
            num::lemma_mul_bound(a.x as int, b.z as int, num::abs(a.x as int), 8192);
            num::lemma_mul_bound(a.x as int, b.y as int, num::abs(a.x as int), 8192);
            num::lemma_mul_bound(a.y as int, b.x as int, num::abs(a.y as int), 8192);
        }
        reveal(cross_over);
    }
    V3 {
        x: shift16(wide_mul(a.y, b.z) - wide_mul(a.z, b.y)),
        y: shift16(wide_mul(a.z, b.x) - wide_mul(a.x, b.z)),
        z: shift16(wide_mul(a.x, b.y) - wide_mul(a.y, b.x)),
    }
}

/// `dir * scale`, with one of the two a Q12 quantity.
pub fn times(dir: V3, scale: i32) -> (r: V3)
    requires
        dir.within(4096) && -WIDE <= scale <= WIDE || dir.within(WIDE as int) && -4096 <= scale
            <= 4096 || dir.within(DIR as int) && -BROAD <= scale <= BROAD,
    ensures
        r == along(dir, scale as int),
        dir.within(4096) ==> r.within(num::abs(scale as int)),
        dir.within(DIR as int) ==> r.within(4 * num::abs(scale as int)),
        -4096 <= scale <= 4096 ==> {
            &&& num::abs(r.x as int) <= num::abs(dir.x as int)
            &&& num::abs(r.y as int) <= num::abs(dir.y as int)
            &&& num::abs(r.z as int) <= num::abs(dir.z as int)
        },
        r.within(0x1000_0000),
{
    proof {
        lemma_wide_product(dir.x as int, scale as int);
        lemma_wide_product(dir.y as int, scale as int);
        lemma_wide_product(dir.z as int, scale as int);
        reveal(along);
    }
    V3 {
        x: shift12(wide_mul(dir.x, scale)),
        y: shift12(wide_mul(dir.y, scale)),
        z: shift12(wide_mul(dir.z, scale)),
    }
}

/// `v += dir * scale`, with `dir` a Q12 direction.
pub fn add_scaled(v: &mut V3, dir: V3, scale: i32)
    requires
        old(v).within(0x1000_0000),
        dir.within(4096) && -WIDE <= scale <= WIDE || dir.within(DIR as int) && -BROAD <= scale
            <= BROAD || dir.within(WIDE as int) && -4096 <= scale <= 4096,
    ensures
        *final(v) == added(*old(v), dir, scale as int),
        dir.within(4096) ==> {
            &&& num::abs(final(v).x - old(v).x) <= num::abs(scale as int)
            &&& num::abs(final(v).y - old(v).y) <= num::abs(scale as int)
            &&& num::abs(final(v).z - old(v).z) <= num::abs(scale as int)
        },
        dir.within(DIR as int) ==> {
            &&& num::abs(final(v).x - old(v).x) <= 4 * num::abs(scale as int)
            &&& num::abs(final(v).y - old(v).y) <= 4 * num::abs(scale as int)
            &&& num::abs(final(v).z - old(v).z) <= 4 * num::abs(scale as int)
        },
        -4096 <= scale <= 4096 ==> {
            &&& num::abs(final(v).x - old(v).x) <= num::abs(dir.x as int)
            &&& num::abs(final(v).y - old(v).y) <= num::abs(dir.y as int)
            &&& num::abs(final(v).z - old(v).z) <= num::abs(dir.z as int)
        },
        final(v).within(0x2000_0000),
{
    let step = times(dir, scale);
    *v = plus(*v, step);
}

/// `v` with its part along the Q12 normal `up` taken out.
pub fn flatten(v: V3, up: V3) -> (r: V3)
    requires
        v.within(BROAD as int),
        up.within(4096),
    ensures
        r == flattened(v, up),
        r.within(0x1000_0000),
{
    let n: i32 = dot_q12(v, up);
    minus(v, times(up, n))
}

/// Length of `v` projected into the plane whose normal is the Q12 unit `up`.
pub fn plane_len(v: V3, up: V3) -> (r: i32)
    requires
        v.within(BROAD as int),
        up.within(4096),
    ensures
        r == flattened(v, up).length(),
        0 <= r <= 46340,
{
    flatten(v, up).len()
}

/// `v * num / den` toward zero, for `num` no larger than `den`: a vector brought
/// down in size without being turned.
pub fn scale_down(v: V3, num: i32, den: i32) -> (r: V3)
    requires
        0 <= num <= den,
        den > 0,
        v.within(0x7fff_ffff),
    ensures
        r == scaled(v, num as int, den as int),
        num::abs(r.x as int) <= num::abs(v.x as int),
        num::abs(r.y as int) <= num::abs(v.y as int),
        num::abs(r.z as int) <= num::abs(v.z as int),
{
    proof {
        lemma_scale_down(v.x as int, num as int, den as int);
        lemma_scale_down(v.y as int, num as int, den as int);
        lemma_scale_down(v.z as int, num as int, den as int);
        reveal(scaled);
    }
    V3 {
        x: mul_div(v.x, num, den),
        y: mul_div(v.y, num, den),
        z: mul_div(v.z, num, den),
    }
}

/// A fraction of a value is no larger than the value.
pub proof fn lemma_scale_down(v: int, num: int, den: int)
    requires
        0 <= num <= den,
        den > 0,
    ensures
        num::abs(num::tdiv(v * num, den)) <= num::abs(v),
{
    assert(num::abs(v * num) <= num::abs(v) * den) by (nonlinear_arith)
        requires
            0 <= num <= den,
            num::abs(v) == v || num::abs(v) == -v,
            num::abs(v) >= 0,
            num::abs(v * num) == v * num || num::abs(v * num) == -(v * num),
    ;
    num::lemma_tdiv_bound(v * num, den, num::abs(v));
}

/// `v` brought down to `limit` in length, if it is longer.
pub open spec fn capped(v: V3, limit: int) -> V3 {
    if v.length() > limit {
        scaled(v, limit, v.length())
    } else {
        v
    }
}

/// `v` brought down to `limit` in length, if it is longer.
pub fn cap_length(v: V3, limit: i32) -> (r: V3)
    requires
        0 <= limit,
        v.within(0x7fff_ffff),
    ensures
        r == capped(v, limit as int),
        num::abs(r.x as int) <= num::abs(v.x as int),
        num::abs(r.y as int) <= num::abs(v.y as int),
        num::abs(r.z as int) <= num::abs(v.z as int),
{
    let len: i32 = v.len();
    if len > limit {
        scale_down(v, limit, len)
    } else {
        v
    }
}

/// Capping brings every component under the cap, for a vector whose length does
/// not saturate; past that it still shrinks by the ratio of the cap to the
/// longest length there is.
pub proof fn lemma_capped(v: V3, limit: int, m: int)
    requires
        0 <= limit <= 6620,
        0 <= m,
        v.within(m),
        m <= 0x7fff_ffff,
    ensures
        capped(v, limit).within(num::max(limit, m / 7 + 1)),
        m <= 46340 ==> capped(v, limit).within(limit),
{
    reveal(V3::square);
    reveal(scaled);
    assert(v.x * v.x >= 0 && v.y * v.y >= 0 && v.z * v.z >= 0) by (nonlinear_arith);
    let kept = num::min(v.square(), i32::MAX as int);
    lemma_root_exists(kept);
    let len = v.length();
    if v.square() <= i32::MAX {
        num::lemma_root_covers(len, v.square(), v.x as int);
        num::lemma_root_covers(len, v.square(), v.y as int);
        num::lemma_root_covers(len, v.square(), v.z as int);
        if len > limit {
            lemma_cap_component(v.x as int, limit, len);
            lemma_cap_component(v.y as int, limit, len);
            lemma_cap_component(v.z as int, limit, len);
        }
    } else {
        assert(46340 * 46340 <= 0x7fff_ffff);
        num::lemma_root_covers(len, i32::MAX as int, 46340);
        if m <= 46340 {
            lemma_cap_component(v.x as int, limit, len);
            lemma_cap_component(v.y as int, limit, len);
            lemma_cap_component(v.z as int, limit, len);
        }
        lemma_cap_shrinks(v.x as int, limit, len, m);
        lemma_cap_shrinks(v.y as int, limit, len, m);
        lemma_cap_shrinks(v.z as int, limit, len, m);
    }
}

proof fn lemma_cap_shrinks(c: int, limit: int, len: int, m: int)
    requires
        0 <= limit <= 6620,
        len >= 46340,
        num::abs(c) <= m,
    ensures
        num::abs(num::tdiv(c * limit, len)) <= m / 7 + 1,
{
    num::lemma_mul_bound(c, limit, m, 6620);
    let q = m / 7 + 1;
    assert(q * len >= q * 46340) by (nonlinear_arith)
        requires
            q >= 0,
            len >= 46340,
    ;
    num::lemma_tdiv_bound(c * limit, len, q);
}

proof fn lemma_cap_component(c: int, limit: int, len: int)
    requires
        0 <= limit < len,
        num::abs(c) <= len,
    ensures
        num::abs(num::tdiv(c * limit, len)) <= limit,
{
    num::lemma_mul_bound(c, limit, len, limit);
    assert(len * limit == limit * len) by (nonlinear_arith);
    num::lemma_tdiv_bound(c * limit, len, limit);
}

/// `v * num / 1024`, rounded down.
pub fn damp(v: i32, num: i32) -> (r: i32)
    requires
        -0x1000_0000 <= v <= 0x1000_0000,
        0 <= num <= 4096,
    ensures
        r == damped(v as int, num as int),
        num <= 1024 ==> num::abs(r as int) <= num::abs(v as int),
        num::abs(r as int) <= 4 * num::abs(v as int),
        num::abs(r as int) * 1024 <= num::abs(v as int) * num + 1024,
        v >= 0 ==> r >= 0,
{
    proof {
        num::lemma_mul_bound(v as int, num as int, num::abs(v as int), 4096);
        num::lemma_mul_bound(v as int, num as int, num::abs(v as int), num as int);
        if num <= 1024 {
            num::lemma_mul_bound(v as int, num as int, num::abs(v as int), 1024);
        }
        if v >= 0 {
            assert(v * num >= 0) by (nonlinear_arith)
                requires
                    v >= 0,
                    num >= 0,
            ;
        }
        reveal(damped);
    }
    shift10(wide_mul(v, num))
}

/// `v * num / 4096`, rounded down.
pub fn damp12(v: i32, num: i32) -> (r: i32)
    requires
        -0x1000_0000 <= v <= 0x1000_0000,
        0 <= num <= 4096,
    ensures
        r == damped12(v as int, num as int),
        num::abs(r as int) <= num::abs(v as int),
{
    proof {
        num::lemma_mul_bound(v as int, num as int, num::abs(v as int), 4096);
        reveal(damped12);
    }
    shift12(wide_mul(v, num))
}

/// Bound on a dot product with a Q12 direction.
pub proof fn lemma_dot(a: V3, b: V3, m: int)
    requires
        a.within(m),
        b.within(4096),
    ensures
        num::abs(dot(a, b)) <= 3 * m,
{
    num::lemma_mul_bound(a.x as int, b.x as int, m, 4096);
    num::lemma_mul_bound(a.y as int, b.y as int, m, 4096);
    num::lemma_mul_bound(a.z as int, b.z as int, m, 4096);
    reveal(dot);
}

/// Bound on a step along a Q12 direction.
pub proof fn lemma_along(dir: V3, scale: int)
    requires
        dir.within(4096),
        num::abs(scale) <= 0x7fff_ffff,
    ensures
        along(dir, scale).within(num::abs(scale)),
{
    num::lemma_mul_bound(dir.x as int, scale, 4096, num::abs(scale));
    num::lemma_mul_bound(dir.y as int, scale, 4096, num::abs(scale));
    num::lemma_mul_bound(dir.z as int, scale, 4096, num::abs(scale));
    reveal(along);
}

/// Bound on a Q12 fraction of a vector.
pub proof fn lemma_fraction(v: V3, share: int, m: int)
    requires
        v.within(m),
        0 <= share <= 4096,
        m <= 0x7fff_ffff,
    ensures
        along(v, share).within((m * share) / 4096 + 1),
{
    num::lemma_mul_bound(v.x as int, share, m, share);
    num::lemma_mul_bound(v.y as int, share, m, share);
    num::lemma_mul_bound(v.z as int, share, m, share);
    num::lemma_mul_bound(m, share, 0x7fff_ffff, 4096);
    reveal(along);
}

/// Bound on the cross product of a Q12 direction with a vector.
pub proof fn lemma_cross(a: V3, b: V3, m: int)
    requires
        a.within(4096),
        b.within(m),
        m <= 0x3fff_ffff,
    ensures
        cross(a, b).within(2 * m),
        is_axis(a) ==> cross(a, b).within(m),
{
    num::lemma_mul_bound(a.y as int, b.z as int, 4096, m);
    num::lemma_mul_bound(a.z as int, b.y as int, 4096, m);
    num::lemma_mul_bound(a.z as int, b.x as int, 4096, m);
    num::lemma_mul_bound(a.x as int, b.z as int, 4096, m);
    num::lemma_mul_bound(a.x as int, b.y as int, 4096, m);
    num::lemma_mul_bound(a.y as int, b.x as int, 4096, m);
    reveal(cross_over);
    if is_axis(a) {
        lemma_axis_product(a.x as int, b.y as int);
        lemma_axis_product(a.x as int, b.z as int);
        lemma_axis_product(a.y as int, b.x as int);
        lemma_axis_product(a.y as int, b.z as int);
        lemma_axis_product(a.z as int, b.x as int);
        lemma_axis_product(a.z as int, b.y as int);
    }
}

proof fn lemma_axis_product(n: int, a: int)
    requires
        n == 0 || n == 4096 || n == -4096,
    ensures
        n == 0 ==> n * a == 0 && a * n == 0,
        n == 4096 ==> n * a == 4096 * a && a * n == 4096 * a,
        n == -4096 ==> n * a == -4096 * a && a * n == -4096 * a,
{
    if n == 0 {
        assert(n * a == 0 && a * n == 0) by (nonlinear_arith)
            requires
                n == 0,
        ;
    } else if n == 4096 {
        assert(n * a == 4096 * a && a * n == 4096 * a) by (nonlinear_arith)
            requires
                n == 4096,
        ;
    } else {
        assert(n * a == -4096 * a && a * n == -4096 * a) by (nonlinear_arith)
            requires
                n == -4096,
        ;
    }
}

/// Bound on the surface speed that a spin gives at the end of an arm.
pub proof fn lemma_cross_spin(w: V3, arm: V3, m: int)
    requires
        w.within(m),
        arm.within(8192),
        m <= 0x3fff_ffff,
    ensures
        cross_over(w, arm, 65536).within(m / 4 + 1),
{
    num::lemma_mul_bound(w.y as int, arm.z as int, m, 8192);
    num::lemma_mul_bound(w.z as int, arm.y as int, m, 8192);
    num::lemma_mul_bound(w.z as int, arm.x as int, m, 8192);
    num::lemma_mul_bound(w.x as int, arm.z as int, m, 8192);
    num::lemma_mul_bound(w.x as int, arm.y as int, m, 8192);
    num::lemma_mul_bound(w.y as int, arm.x as int, m, 8192);
    reveal(cross_over);
}

/// `n` is one of the six axis directions, Q12.
pub open spec fn is_axis(n: V3) -> bool {
    ||| (n.x == 4096 || n.x == -4096) && n.y == 0 && n.z == 0
    ||| n.x == 0 && (n.y == 4096 || n.y == -4096) && n.z == 0
    ||| n.x == 0 && n.y == 0 && (n.z == 4096 || n.z == -4096)
}

/// `n` is level and points no more than a Q12 `1/sqrt(2)` along either axis: the
/// normal of a 45-degree corner plane, or a part of one.
pub open spec fn is_chamfer(n: V3) -> bool {
    &&& n.y == 0
    &&& -2896 <= n.x <= 2896
    &&& -2896 <= n.z <= 2896
}

/// Bound on a vector with its part along a corner plane's normal taken out.
pub proof fn lemma_flattened_chamfer(v: V3, n: V3, m: int)
    requires
        v.within(m),
        is_chamfer(n),
        m <= 0x1000_0000,
    ensures
        flattened(v, n).within(2 * m + 2),
{
    num::lemma_mul_bound(v.x as int, n.x as int, m, 2896);
    num::lemma_mul_bound(v.z as int, n.z as int, m, 2896);
    lemma_axis_product(0, v.y as int);
    reveal(dot);
    let d = dot(v, n);
    let e = (m * 5792) / 4096 + 1;
    assert(num::abs(d) <= e);
    num::lemma_mul_bound(n.x as int, d, 2896, e);
    num::lemma_mul_bound(n.z as int, d, 2896, e);
    lemma_axis_product(0, d);
    reveal(along);
}

/// Bound on a vector with its part along a Q12 normal taken out. Along an axis
/// that is one component zeroed, and nothing grows.
pub proof fn lemma_flattened(v: V3, n: V3, m: int)
    requires
        v.within(m),
        n.within(4096),
        m <= 0x1000_0000,
    ensures
        flattened(v, n).within(4 * m),
        is_axis(n) ==> flattened(v, n).within(m),
{
    lemma_dot(v, n, m);
    lemma_along(n, dot(v, n));
    if is_axis(n) {
        let d = dot(v, n);
        reveal(dot);
        reveal(along);
        lemma_axis_product(n.x as int, v.x as int);
        lemma_axis_product(n.y as int, v.y as int);
        lemma_axis_product(n.z as int, v.z as int);
        lemma_axis_product(n.x as int, d);
        lemma_axis_product(n.y as int, d);
        lemma_axis_product(n.z as int, d);
    }
}

} // verus!
