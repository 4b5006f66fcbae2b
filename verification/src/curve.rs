//! Linear interpolation over a rising table.

use vstd::prelude::*;
use crate::num;
use crate::num::mul_div;
use crate::vec3;

verus! {

/// The x column never falls.
pub open spec fn rising(t: Seq<(i32, i32)>) -> bool {
    &&& t.len() > 0
    &&& forall|i: int, j: int| 0 <= i <= j < t.len() ==> (#[trigger] t[i]).0 <= (#[trigger] t[j]).0
}

/// Every entry of the table fits well inside a 32-bit difference.
pub open spec fn tame(t: Seq<(i32, i32)>) -> bool {
    forall|i: int|
        0 <= i < t.len() ==> {
            &&& -0x10_0000 <= (#[trigger] t[i]).0 <= 0x10_0000
            &&& -0x10_0000 <= t[i].1 <= 0x10_0000
        }
}

/// Every y of the table lies in `lo..=hi`.
pub open spec fn spans(t: Seq<(i32, i32)>, lo: int, hi: int) -> bool {
    forall|i: int| 0 <= i < t.len() ==> lo <= (#[trigger] t[i]).1 <= hi
}

/// The line through two table entries, rounded toward the first.
pub open spec fn between(a: (i32, i32), b: (i32, i32), x: int) -> int {
    a.1 + num::tdiv((b.1 - a.1) * (x - a.0), num::max(b.0 - a.0, 1))
}

/// The table's value at `x`, looking from entry `i` on: the first segment whose
/// end reaches `x` decides, and past the last entry the table is flat.
pub open spec fn value_from(t: Seq<(i32, i32)>, i: int, x: int) -> int
    decreases t.len() - i,
{
    if i + 1 >= t.len() {
        t[t.len() - 1].1 as int
    } else if x <= t[i + 1].0 {
        between(t[i], t[i + 1], x)
    } else {
        value_from(t, i + 1, x)
    }
}

/// The table's value at `x`, clamped at both ends.
pub open spec fn value(t: Seq<(i32, i32)>, x: int) -> int {
    let at = num::max(x, 0);
    if at <= t[0].0 {
        t[0].1 as int
    } else {
        value_from(t, 0, at)
    }
}

/// Inside a segment the line stays between the segment's ends.
proof fn lemma_between(a: (i32, i32), b: (i32, i32), x: int, lo: int, hi: int)
    requires
        a.0 < x <= b.0,
        lo <= a.1 <= hi,
        lo <= b.1 <= hi,
    ensures
        lo <= between(a, b, x) <= hi,
{
    let rise = b.1 - a.1;
    let (part, run) = (x - a.0, b.0 - a.0);
    vec3::lemma_scale_down(rise, part, run);
    if rise >= 0 {
        assert(rise * part >= 0) by (nonlinear_arith)
            requires
                rise >= 0,
                part >= 0,
        ;
        assert((rise * part) / run >= 0) by (nonlinear_arith)
            requires
                rise * part >= 0,
                run > 0,
        ;
    } else {
        assert(rise * part <= 0) by (nonlinear_arith)
            requires
                rise < 0,
                part >= 0,
        ;
        assert((-(rise * part)) / run >= 0) by (nonlinear_arith)
            requires
                -(rise * part) >= 0,
                run > 0,
        ;
    }
}

/// A table never gives a value outside the range of its own entries.
pub proof fn law_value_stays_in_range(t: Seq<(i32, i32)>, x: int, lo: int, hi: int)
    requires
        rising(t),
        spans(t, lo, hi),
    ensures
        lo <= value(t, x) <= hi,
{
    let at = num::max(x, 0);
    if at > t[0].0 {
        lemma_value_from(t, 0, at, lo, hi);
    }
}

proof fn lemma_value_from(t: Seq<(i32, i32)>, i: int, x: int, lo: int, hi: int)
    requires
        rising(t),
        spans(t, lo, hi),
        0 <= i < t.len(),
        t[i].0 < x,
    ensures
        lo <= value_from(t, i, x) <= hi,
    decreases t.len() - i,
{
    if i + 1 < t.len() {
        if x <= t[i + 1].0 {
            lemma_between(t[i], t[i + 1], x, lo, hi);
        } else {
            lemma_value_from(t, i + 1, x, lo, hi);
        }
    }
}

/// Linear interpolation over a rising `(x, y)` table, clamped at both ends.
pub fn curve(table: &[(i32, i32)], x: i32) -> (r: i32)
    requires
        rising(table@),
        tame(table@),
    ensures
        r == value(table@, x as int),
        forall|lo: int, hi: int| #[trigger] spans(table@, lo, hi) ==> lo <= r <= hi,
{
    proof {
        assert forall|lo: int, hi: int| #[trigger]
            spans(table@, lo, hi) implies lo <= value(table@, x as int) <= hi by {
            law_value_stays_in_range(table@, x as int, lo, hi);
        }
    }
    let at: i32 = if x < 0 {
        0
    } else {
        x
    };
    if at <= table[0].0 {
        return table[0].1;
    }
    let mut i: usize = 0;
    while i < table.len() - 1
        invariant
            rising(table@),
            tame(table@),
            0 <= i < table@.len(),
            at > table@[i as int].0,
            at == num::max(x as int, 0),
            value(table@, x as int) == value_from(table@, i as int, at as int),
            forall|lo: int, hi: int| #[trigger]
                spans(table@, lo, hi) ==> lo <= value(table@, x as int) <= hi,
        decreases table@.len() - i,
    {
        let (x0, y0): (i32, i32) = table[i];
        let (x1, y1): (i32, i32) = table[i + 1];
        if at <= x1 {
            proof {
                vec3::lemma_scale_down(y1 - y0, at - x0, x1 - x0);
            }
            return y0 + mul_div(y1 - y0, at - x0, x1 - x0);
        }
        i = i + 1;
    }
    table[table.len() - 1].1
}

} // verus!
