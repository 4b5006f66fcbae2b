//! What is expected of the trigonometry a match is given: that its tables run
//! round a circle, and that its bearings point where they are asked to.
//!
//! The library works with any tables and any bearing function. The laws that
//! speak of directions hold for those that meet these conditions, which a sine
//! rounded to Q12 and a bearing rounded to one 4096th of a turn do with room to
//! spare.

use vstd::prelude::*;
use crate::num;
use crate::trig::Angles;

verus! {

/// The bearing of `(x, y)` points into the quarter the pair lies in, and leans
/// toward the longer of the two. It is under one turn.
pub open spec fn points(t: Angles, y: int, x: int) -> bool {
    let (s, c) = (t.sin(t.atan2(y, x)), t.cos(t.atan2(y, x)));
    &&& t.atan2(y, x) < 4096
    &&& y >= 0 ==> s >= 0
    &&& y <= 0 ==> s <= 0
    &&& x >= 0 ==> c >= 0
    &&& x <= 0 ==> c <= 0
    &&& num::abs(y) >= num::abs(x) ==> num::abs(s) >= 2800
    &&& num::abs(x) >= num::abs(y) ==> num::abs(c) >= 2800
    &&& 8 * num::abs(y) >= num::abs(x) ==> num::abs(s) >= 400
    &&& 8 * num::abs(x) >= num::abs(y) ==> num::abs(c) >= 400
    &&& num::abs(y * c - x * s) <= 64 * (num::abs(x) + num::abs(y))
}

/// Bearings point where they are asked to.
pub open spec fn true_bearings(t: Angles) -> bool {
    forall|y: i32, x: i32|
        y != 0 || x != 0 ==> #[trigger] points(t, y as int, x as int)
}

/// An angle's sine and cosine lie on a Q12 circle.
pub open spec fn on_circle(t: Angles, a: u16) -> bool {
    let (s, c) = (t.sin(a), t.cos(a));
    &&& -4096 <= s <= 4096
    &&& -4096 <= c <= 4096
    &&& 4096 * 4096 - 32768 <= s * s + c * c <= 4096 * 4096 + 32768
}

/// Turning by one angle and another turns by their sum.
pub open spec fn adds(t: Angles, a: u16, b: u16) -> bool {
    let ab = crate::car::turned(a, b as int);
    &&& num::abs(4096 * t.sin(ab) - (t.sin(a) * t.cos(b) + t.cos(a) * t.sin(b))) <= 32768
    &&& num::abs(4096 * t.cos(ab) - (t.cos(a) * t.cos(b) - t.sin(a) * t.sin(b))) <= 32768
}

/// The tables run round a circle.
pub open spec fn true_turns(t: Angles) -> bool {
    &&& forall|a: u16| #[trigger] on_circle(t, a)
    &&& forall|a: u16, b: u16| #[trigger] adds(t, a, b)
}

/// No turn, an eighth and a quarter are where they belong.
pub open spec fn true_marks(t: Angles) -> bool {
    &&& t.sin(0) == 0 && t.cos(0) == 4096
    &&& 2890 <= t.sin(512) <= 2902 && 2890 <= t.cos(512) <= 2902
    &&& t.sin(1024) == 4096 && t.cos(1024) == 0
}

/// Bearings and tables that agree on which way is which.
pub open spec fn true_compass(t: Angles) -> bool {
    true_bearings(t) && true_turns(t) && true_marks(t)
}

/// A bearing goes the way of the pair it was taken of.
pub proof fn lemma_goes_along(y: int, x: int, s: int, c: int)
    requires
        y >= 0 ==> s >= 0,
        y <= 0 ==> s <= 0,
        x >= 0 ==> c >= 0,
        x <= 0 ==> c <= 0,
        num::abs(y) >= num::abs(x) ==> num::abs(s) >= 2800,
        num::abs(x) >= num::abs(y) ==> num::abs(c) >= 2800,
    ensures
        y * s + x * c >= 2800 * num::max(num::abs(y), num::abs(x)),
{
    assert(y * s == num::abs(y) * num::abs(s)) by (nonlinear_arith)
        requires
            y >= 0 ==> s >= 0,
            y <= 0 ==> s <= 0,
            num::abs(y) == if y < 0 {
                -y
            } else {
                y
            },
            num::abs(s) == if s < 0 {
                -s
            } else {
                s
            },
    ;
    assert(x * c == num::abs(x) * num::abs(c)) by (nonlinear_arith)
        requires
            x >= 0 ==> c >= 0,
            x <= 0 ==> c <= 0,
            num::abs(x) == if x < 0 {
                -x
            } else {
                x
            },
            num::abs(c) == if c < 0 {
                -c
            } else {
                c
            },
    ;
    let (ay, ax, a_s, a_c) = (num::abs(y), num::abs(x), num::abs(s), num::abs(c));
    assert(a_s >= 2800 ==> ay * a_s >= 2800 * ay) by (nonlinear_arith)
        requires
            ay >= 0,
    ;
    assert(a_c >= 2800 ==> ax * a_c >= 2800 * ax) by (nonlinear_arith)
        requires
            ax >= 0,
    ;
    assert(ay * a_s >= 0 && ax * a_c >= 0) by (nonlinear_arith)
        requires
            ay >= 0,
            ax >= 0,
            a_s >= 0,
            a_c >= 0,
    ;
}

/// A bearing turned on from another splits, across and along the other, as its
/// own sine and cosine do.
pub proof fn lemma_split(sy: int, cy: int, sl: int, cl: int, sw: int, cw: int)
    requires
        -4096 <= sy <= 4096,
        -4096 <= cy <= 4096,
        -4096 <= sl <= 4096,
        -4096 <= cl <= 4096,
        4096 * 4096 - 32768 <= sy * sy + cy * cy <= 4096 * 4096 + 32768,
        num::abs(4096 * sw - (sy * cl + cy * sl)) <= 32768,
        num::abs(4096 * cw - (cy * cl - sy * sl)) <= 32768,
    ensures
        num::abs((sw * cy - cw * sy) - 4096 * sl) <= 98304,
        num::abs((sw * sy + cw * cy) - 4096 * cl) <= 98304,
{
    let e = 4096 * sw - (sy * cl + cy * sl);
    let f = 4096 * cw - (cy * cl - sy * sl);
    let one = sy * sy + cy * cy;
    num::lemma_mul_bound(e, cy, 32768, 4096);
    num::lemma_mul_bound(e, sy, 32768, 4096);
    num::lemma_mul_bound(f, cy, 32768, 4096);
    num::lemma_mul_bound(f, sy, 32768, 4096);
    num::lemma_mul_bound(one - 4096 * 4096, sl, 32768, 4096);
    num::lemma_mul_bound(one - 4096 * 4096, cl, 32768, 4096);
    assert(4096 * (sw * cy - cw * sy) == e * cy - f * sy + one * sl) by (nonlinear_arith)
        requires
            4096 * sw == e + sy * cl + cy * sl,
            4096 * cw == f + cy * cl - sy * sl,
            one == sy * sy + cy * cy,
    ;
    assert(4096 * (sw * sy + cw * cy) == e * sy + f * cy + one * cl) by (nonlinear_arith)
        requires
            4096 * sw == e + sy * cl + cy * sl,
            4096 * cw == f + cy * cl - sy * sl,
            one == sy * sy + cy * cy,
    ;
    assert((one - 4096 * 4096) * sl == one * sl - 4096 * 4096 * sl) by (nonlinear_arith);
    assert((one - 4096 * 4096) * cl == one * cl - 4096 * 4096 * cl) by (nonlinear_arith);
}

} // verus!
