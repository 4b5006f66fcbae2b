//! The quarter pipe: where it is, which way it faces, and where it puts what
//! runs into it.

use vstd::prelude::*;
use crate::arena;
use crate::num;
use crate::ramp;
use crate::steady;
use crate::vec3;
use crate::vec3::V3;

verus! {

/// How far a point is past the side wall's quarter pipe, measured level from the
/// middle of its arc.
pub open spec fn leans_out(p: V3) -> int {
    num::abs(p.x as int) - 245_504
}

/// How far a point is under the middle of the arc.
pub open spec fn leans_down(p: V3) -> int {
    16_640 - p.y
}

/// Nearer to a side wall than to anything else.
pub open spec fn by_a_side_wall(p: V3) -> bool {
    &&& 240_000 <= num::abs(p.x as int) <= 270_000
    &&& num::abs(p.z as int) <= 200_000
}

/// The nearest wall is the nearest of the side wall, the end wall where the mouth
/// is shut, and the corner plane, and it faces the middle of the pitch.
pub proof fn law_the_nearest_wall_faces_the_pitch(x: int, z: int, mouth_open: bool)
    requires
        num::abs(x) <= 0x40_0000,
        num::abs(z) <= 0x40_0000,
    ensures
        ({
            let w = arena::wall_near(x, z, mouth_open);
            let side = 262_144 - num::abs(x);
            let end = 327_680 - num::abs(z);
            let corner = ((516_096 - num::abs(x) - num::abs(z)) * 5793) / 8192;
            &&& w.distance <= side && w.distance <= corner && (!mouth_open ==> w.distance <= end)
            &&& w.distance == side || w.distance == corner || (!mouth_open && w.distance == end)
            &&& x >= 0 ==> w.inward.x <= 0
            &&& x <= 0 ==> w.inward.x >= 0
            &&& z >= 0 ==> w.inward.z <= 0
            &&& z <= 0 ==> w.inward.z >= 0
            &&& w.inward.y == 0
            &&& side < corner && (mouth_open || side < end) && x != 0 ==> num::abs(
                w.inward.x as int,
            ) == 4096 && w.inward.z == 0
            &&& end < side && end < corner && !mouth_open && z != 0 ==> num::abs(
                w.inward.z as int,
            ) == 4096 && w.inward.x == 0
            &&& corner < side && (mouth_open || corner < end) && x != 0 && z != 0 ==> num::abs(
                w.inward.x as int,
            ) == 2896 && num::abs(w.inward.z as int) == 2896
        }),
{
    reveal(arena::wall_near);
}

/// The ball meets the side wall's quarter pipe once it is 10816 from the middle of
/// its arc, outward and down. There it is put back on the arc, and the surface
/// faces it: in from the wall and up from the floor, more of the one or of the
/// other as the ball is further round.
pub proof fn law_the_ball_meets_the_quarter_pipe(p: V3, mouth_open: bool)
    requires
        by_a_side_wall(p),
        -16_640 <= p.y <= 200_000,
    ensures
        ({
            let (q, normal) = ramp::ball_on_ramp(p, mouth_open);
            let (h, v) = (leans_out(p), leans_down(p));
            &&& normal is Some <==> h > 0 && v > 0 && h * h + v * v >= 10_817 * 10_817
            &&& normal is None ==> q == p
            &&& normal matches Some(n) ==> {
                &&& p.x > 0 ==> n.x <= 0
                &&& p.x < 0 ==> n.x >= 0
                &&& n.y >= 0 && n.z == 0
                &&& h >= v ==> num::abs(n.x as int) >= n.y
                &&& v >= h ==> n.y + 2 >= num::abs(n.x as int)
                &&& q.y >= p.y && q.z == p.z
                &&& p.x > 0 ==> 245_504 <= q.x <= p.x
                &&& p.x < 0 ==> p.x <= q.x <= -245_504
                &&& leans_out(q) <= 10_816 && leans_down(q) <= 10_816
                &&& leans_out(q) >= 0 && leans_down(q) >= 0
            }
        }),
{
    reveal(arena::ball_wall_near);
    let w = arena::ball_wall_near(p.x as int, p.z as int, mouth_open);
    assert(w == arena::side_wall(p.x as int));
    lemma_bank(p, 10_816);
}

/// A car's wheels meet the same pipe 512 before they are 14848 from the middle of
/// its arc. Past that it is put back on the arc; either way the surface under it
/// faces in and up. Above the pipe they meet the wall itself.
pub proof fn law_a_car_meets_the_quarter_pipe(p: V3, mouth_open: bool)
    requires
        by_a_side_wall(p),
        -16_640 <= p.y <= 200_000,
    ensures
        ({
            let (q, normal) = ramp::car_on_ramp(p, mouth_open);
            let (h, v) = (leans_out(p), leans_down(p));
            let off = 262_144 - num::abs(p.x as int);
            &&& v > 0 ==> (normal is Some <==> h > 0 && h * h + v * v >= 14_336 * 14_336)
            &&& v <= 0 ==> (normal is Some <==> off <= 2304)
            &&& normal is None ==> q == p
            &&& normal matches Some(n) ==> {
                &&& p.x > 0 ==> n.x <= 0
                &&& p.x < 0 ==> n.x >= 0
                &&& n.y >= 0 && n.z == 0
                &&& v > 0 && h >= v ==> num::abs(n.x as int) >= n.y
                &&& v > 0 && v >= h ==> n.y + 2 >= num::abs(n.x as int)
                &&& v <= 0 ==> num::abs(n.x as int) == 4096 && n.y == 0
                &&& v <= 0 && off >= 1792 ==> q == p
                &&& v <= 0 && off < 1792 ==> num::abs(q.x as int) == 260_352 && q.y == p.y
                &&& v > 0 && h * h + v * v < 14_849 * 14_849 ==> q == p
                &&& v > 0 && h * h + v * v >= 14_849 * 14_849 ==> {
                    &&& q.y >= p.y && q.z == p.z
                    &&& num::abs(q.x as int) <= num::abs(p.x as int)
                    &&& 0 <= leans_out(q) <= 14_848
                    &&& 0 <= leans_down(q) <= 14_848
                }
            }
        }),
{
    reveal(arena::wall_near);
    let w = arena::wall_near(p.x as int, p.z as int, mouth_open);
    assert(w == arena::side_wall(p.x as int));
    if p.y < 16_640 {
        lemma_bank(p, 14_848);
    } else {
        reveal(vec3::along);
        let k = 1792 - w.distance;
        assert(0 * k == 0);
        if p.x > 0 {
            assert(w.inward.x * k == -4096 * k) by (nonlinear_arith)
                requires
                    w.inward.x == -4096,
            ;
        } else {
            assert(w.inward.x * k == 4096 * k) by (nonlinear_arith)
                requires
                    w.inward.x == 4096,
            ;
        }
    }
}

/// The side wall's arc, at whichever radius.
proof fn lemma_bank(p: V3, arc: int)
    requires
        by_a_side_wall(p),
        -16_640 <= p.y <= 200_000,
        arc == 10_816 || arc == 14_848,
    ensures
        ({
            let w = arena::side_wall(p.x as int);
            let (h, v) = (ramp::lean(w.distance as int), ramp::lean(p.y as int));
            let length = ramp::lean_length(h, v);
            let (ph, pv) = (ramp::onto_arc(h, arc, length), ramp::onto_arc(v, arc, length));
            let n = ramp::arc_normal(w.inward, ph, pv, arc);
            let q = ramp::moved_onto_arc(p, w, ph, pv);
            let (lo, ld) = (leans_out(p), leans_down(p));
            &&& lo > 0 && ld > 0 ==> h == lo && v == ld
            &&& lo > 0 && ld > 0 ==> (length > arc <==> lo * lo + ld * ld >= (arc + 1) * (arc + 1))
            &&& lo > 0 && ld > 0 ==> (length >= arc - 512 <==> lo * lo + ld * ld >= (arc - 512) * (arc
                - 512))
            &&& lo > 0 && ld > 0 && length >= 10_000 ==> {
                &&& p.x > 0 ==> n.x <= 0
                &&& p.x < 0 ==> n.x >= 0
                &&& n.y >= 0 && n.z == 0
                &&& lo >= ld ==> num::abs(n.x as int) >= n.y
                &&& ld >= lo ==> n.y + 2 >= num::abs(n.x as int)
                &&& length > arc ==> {
                    &&& q.y >= p.y && q.z == p.z
                    &&& p.x > 0 ==> 245_504 <= q.x <= p.x
                    &&& p.x < 0 ==> p.x <= q.x <= -245_504
                    &&& leans_out(q) == ph && leans_down(q) == pv
                    &&& 0 <= ph <= arc && 0 <= pv <= arc
                }
            }
        }),
{
    let w = arena::side_wall(p.x as int);
    let (h, v) = (ramp::lean(w.distance as int), ramp::lean(p.y as int));
    let length = ramp::lean_length(h, v);
    let (lo, ld) = (leans_out(p), leans_down(p));
    if lo > 0 && ld > 0 {
        num::lemma_mul_bound(h, h, 24_496, 24_496);
        num::lemma_mul_bound(v, v, 33_280, 33_280);
        lemma_lean_root(h, v);
        lemma_reaches(length, h * h + v * v, arc + 1);
        lemma_reaches(length, h * h + v * v, arc - 512);
        if length >= 10_000 {
            reveal(ramp::onto_arc);
            let (ph, pv) = (ramp::onto_arc(h, arc, length), ramp::onto_arc(v, arc, length));
            ramp::lemma_lean_fits(h, v);
            steady::lemma_onto(h, arc, length);
            steady::lemma_onto(v, arc, length);
            lemma_onto_order(h, v, arc, length);
            lemma_arc_face(w.inward, ph, pv, arc);
            reveal(vec3::along);
            let k = ramp::RAMP - ph - w.distance;
            assert(0 * k == 0) by (nonlinear_arith);
            if p.x > 0 {
                assert(w.inward.x * k == -4096 * k) by (nonlinear_arith)
                    requires
                        w.inward.x == -4096,
                ;
            } else {
                assert(w.inward.x * k == 4096 * k) by (nonlinear_arith)
                    requires
                        w.inward.x == 4096,
                ;
            }
        }
    }
}

pub proof fn lemma_lean_root(h: int, v: int)
    requires
        0 < h <= 33_280,
        0 < v <= 33_280,
        h * h + v * v <= 0x7fff_ffff,
    ensures
        num::is_root(ramp::lean_length(h, v), h * h + v * v),
{
    let d = vec3::v3(h, v, 0);
    reveal(V3::square);
    assert(0int * 0int == 0);
    assert(d.square() == h * h + v * v);
    vec3::lemma_length_covers(d);
}

pub proof fn lemma_reaches(r: int, x: int, k: int)
    requires
        num::is_root(r, x),
        0 <= k,
    ensures
        r >= k <==> x >= k * k,
{
    if r >= k {
        assert(r * r >= k * k) by (nonlinear_arith)
            requires
                r >= k >= 0,
        ;
    } else {
        assert((r + 1) * (r + 1) <= k * k) by (nonlinear_arith)
            requires
                0 <= r,
                r + 1 <= k,
        ;
    }
}

proof fn lemma_onto_order(h: int, v: int, arc: int, length: int)
    requires
        0 <= h,
        0 <= v,
        0 < length,
        0 < arc,
    ensures
        h >= v ==> (h * arc) / length >= (v * arc) / length,
        v >= h ==> (v * arc) / length >= (h * arc) / length,
{
    assert(h >= v ==> (h * arc) / length >= (v * arc) / length) by (nonlinear_arith)
        requires
            0 < length,
            0 < arc,
    ;
    assert(v >= h ==> (v * arc) / length >= (h * arc) / length) by (nonlinear_arith)
        requires
            0 < length,
            0 < arc,
    ;
}

/// The normal of an arc swept along a side wall leans the way the arc does.
proof fn lemma_arc_face(inward: V3, ph: int, pv: int, arc: int)
    requires
        inward.x == 4096 || inward.x == -4096,
        inward.y == 0,
        inward.z == 0,
        arc == 10_816 || arc == 14_848,
        0 <= ph <= arc,
        0 <= pv <= arc,
    ensures
        ({
            let n = ramp::arc_normal(inward, ph, pv, arc);
            &&& inward.x > 0 ==> n.x >= 0
            &&& inward.x < 0 ==> n.x <= 0
            &&& n.y >= 0 && n.z == 0
            &&& ph >= pv ==> num::abs(n.x as int) >= n.y
            &&& pv >= ph ==> n.y >= num::abs(n.x as int)
        }),
{
    let x = num::tdiv(inward.x * ph, arc);
    let y = (4096 * pv) / arc;
    assert(inward.x == 4096 ==> inward.x * ph == 4096 * ph) by (nonlinear_arith);
    assert(inward.x == -4096 ==> inward.x * ph == -(4096 * ph)) by (nonlinear_arith);
    assert(0 * ph == 0);
    let z = num::tdiv(inward.z * ph, arc);
    assert(z == 0);
    let m = (4096 * ph) / arc;
    assert(0 <= m <= 4096 && 0 <= y <= 4096) by (nonlinear_arith)
        requires
            m == (4096 * ph) / arc,
            y == (4096 * pv) / arc,
            0 <= ph <= arc,
            0 <= pv <= arc,
            0 < arc,
    ;
    assert(ph >= pv ==> m >= y) by (nonlinear_arith)
        requires
            m == (4096 * ph) / arc,
            y == (4096 * pv) / arc,
            0 < arc,
    ;
    assert(pv >= ph ==> y >= m) by (nonlinear_arith)
        requires
            m == (4096 * ph) / arc,
            y == (4096 * pv) / arc,
            0 < arc,
    ;
    assert(num::abs(x) == m);
    let d = vec3::v3(x, y, z);
    let len = num::max(d.length(), 1);
    reveal(vec3::scaled);
    reveal(V3::square);
    assert(0int * 0int == 0);
    num::lemma_mul_bound(x, x, 4096, 4096);
    num::lemma_mul_bound(y, y, 4096, 4096);
    assert(x * x >= 0 && y * y >= 0) by (nonlinear_arith);
    vec3::lemma_length_covers(d);
    let (a, b) = ((m * 4096) / len, (y * 4096) / len);
    assert(0 * 4096 == 0int);
    assert(0 <= a <= 4096 && 0 <= b <= 4096) by (nonlinear_arith)
        requires
            0 <= m <= len,
            0 <= y <= len,
            len > 0,
            a == (m * 4096) / len,
            b == (y * 4096) / len,
    ;
    assert(m >= y ==> a >= b) by (nonlinear_arith)
        requires
            len > 0,
            a == (m * 4096) / len,
            b == (y * 4096) / len,
    ;
    assert(y >= m ==> b >= a) by (nonlinear_arith)
        requires
            len > 0,
            a == (m * 4096) / len,
            b == (y * 4096) / len,
    ;
    assert(0int / len == 0) by (nonlinear_arith)
        requires
            len > 0,
    ;
    reveal(ramp::arc_normal);
    let n = ramp::arc_normal(inward, ph, pv, arc);
    assert(n.y == b);
    assert(num::abs(n.x as int) == a);
    assert(n.z == 0);
}

} // verus!
