//! The goal frame: two uprights and the bar across their tops, and the bounce
//! the ball takes off any arena surface.

use vstd::prelude::*;
use crate::ball;
use crate::ball::{ball_friction, Ball};
use crate::num;
use crate::num::{abs_i32, clamp_i32, isqrt_i32};
use crate::tuning::{BALL_BOUNCE, BALL_FRICTION};
use crate::vec3;
use crate::vec3::{add_scaled, damp, dot_q12, minus, V3};

verus! {

/// Ball and post radius together, in sub-units.
pub const FRAME_REACH: i32 = 6912;
/// Distance of a goal plane from the middle, in sub-units.
pub const GOAL_LINE: i32 = 327_680;
/// Half the width of a goal mouth, in sub-units.
pub const MOUTH: i32 = 57_152;
/// Height of the bar, in sub-units.
pub const BAR: i32 = 41_152;

// ---- bounce ------------------------------------------------------------

/// How hard the arena pushes a ball that arrives along `n` at `-vn`.
pub open spec fn bounce_push(vn: int) -> int {
    vec3::damped(-vn, BALL_BOUNCE as int) - vn
}

/// The ball after bouncing off an arena surface with normal `n`: a ball that is
/// already leaving is left alone.
pub open spec fn bounced(b: Ball, n: V3) -> Ball {
    let vn = vec3::dot(b.v, n);
    if vn < 0 {
        let push = bounce_push(vn);
        ball::rubbed(
            Ball { v: vec3::added(b.v, n, push), ..b },
            n,
            push,
            BALL_FRICTION as int,
            vec3::zero3(),
        )
    } else {
        b
    }
}

/// A bounce pushes away from the surface, by at most eight fifths of the speed
/// into it.
pub proof fn lemma_bounce_push(vn: int)
    requires
        vn < 0,
    ensures
        0 <= bounce_push(vn),
        bounce_push(vn) * 5 <= -vn * 8 + 5,
{
    reveal(vec3::damped);
}

/// Bounce the ball off an arena surface with normal `n`, rubbing as it goes.
pub fn bounce_off(b: &mut Ball, n: V3)
    requires
        n.within(4096),
        old(b).v.within(0x10_0000),
        old(b).w.within(0x400_0000),
    ensures
        *final(b) == bounced(*old(b), n),
{
    let vn: i32 = dot_q12(b.v, n);
    if vn < 0 {
        proof {
            vec3::lemma_dot(b.v, n, 0x10_0000);
            lemma_bounce_push(vn as int);
        }
        let push: i32 = damp(-vn, BALL_BOUNCE) - vn;
        add_scaled(&mut b.v, n, push);
        ball_friction(b, n, push, BALL_FRICTION, V3::zero());
    }
}

/// Bounds on what a bounce leaves of the ball's velocity and spin.
pub proof fn lemma_bounced(b: Ball, n: V3, vb: int, wb: int)
    requires
        n.within(4096),
        b.v.within(vb),
        b.w.within(wb),
        0 <= vb <= 0x10_0000,
        0 <= wb <= 0x400_0000,
    ensures
        ({
            let r = bounced(b, n);
            let rs = ball::patch_bound(6 * vb + 1, wb, 0);
            &&& r.v.within(6 * vb + 2 * rs + 2)
            &&& r.w.within(num::max(wb, num::max(6554, (wb + 72 * rs) / 7 + 1)))
            &&& r.p == b.p
        }),
{
    let vn = vec3::dot(b.v, n);
    if vn < 0 {
        vec3::lemma_dot(b.v, n, vb);
        lemma_bounce_push(vn);
        let push = bounce_push(vn);
        vec3::lemma_along(n, push);
        let moved = Ball { v: vec3::added(b.v, n, push), ..b };
        assert(moved.v.within(6 * vb + 1));
        ball::lemma_rubbed(
            moved,
            n,
            push,
            BALL_FRICTION as int,
            vec3::zero3(),
            6 * vb + 1,
            wb,
            0,
        );
    }
}

// ---- the frame ---------------------------------------------------------

/// Which goal plane is within reach: 1 or -1, or 0 for neither.
pub open spec fn goal_side(z: int) -> int {
    if z > GOAL_LINE - FRAME_REACH {
        1
    } else if z < -GOAL_LINE + FRAME_REACH {
        -1
    } else {
        0
    }
}

/// From the nearest point of one upright to the ball.
pub open spec fn gap_to_post(p: V3, at: int, side: int) -> V3 {
    vec3::sub3(p, vec3::v3(at, num::clamp(p.y as int, 0, BAR as int), side * GOAL_LINE))
}

/// From the nearest point of the bar to the ball.
pub open spec fn gap_to_bar(p: V3, side: int) -> V3 {
    vec3::sub3(
        p,
        vec3::v3(num::clamp(p.x as int, -MOUTH as int, MOUTH as int), BAR as int, side * GOAL_LINE),
    )
}

/// A gap short enough on every axis to be worth measuring.
pub open spec fn short(d: V3) -> bool {
    &&& num::abs(d.x as int) < FRAME_REACH
    &&& num::abs(d.y as int) < FRAME_REACH
    &&& num::abs(d.z as int) < FRAME_REACH
}

/// The shorter of the best gap so far and another, the earlier where they are
/// equally long.
pub open spec fn shorter(best: Option<V3>, d: V3) -> Option<V3> {
    if !short(d) {
        best
    } else {
        match best {
            Some(b) => if d.square() < b.square() {
                Some(d)
            } else {
                best
            },
            None => Some(d),
        }
    }
}

/// From the nearest part of the frame to the ball, if any part is near.
pub open spec fn frame_gap(p: V3) -> Option<V3> {
    let side = goal_side(p.z as int);
    if side == 0 {
        None
    } else {
        shorter(
            shorter(
                shorter(None, gap_to_post(p, -MOUTH as int, side)),
                gap_to_post(p, MOUTH as int, side),
            ),
            gap_to_bar(p, side),
        )
    }
}

/// The gap to the frame, if the ball is touching it.
pub open spec fn frame_touch(p: V3) -> Option<V3> {
    match frame_gap(p) {
        Some(d) => if d.square() < FRAME_REACH * FRAME_REACH {
            Some(d)
        } else {
            None
        },
        None => None,
    }
}

/// Which way the frame pushes a ball this gap away. Dead centre on the bar it
/// pushes it back the way it came in.
pub open spec fn frame_normal(d: V3, side: int) -> V3 {
    if d.square() == 0 {
        vec3::v3(0, 0, -side * 4096)
    } else {
        d.unit()
    }
}

/// The ball after meeting the goal frame, if it is touching it.
pub open spec fn off_frame(b: Ball) -> Ball {
    match frame_touch(b.p) {
        Some(d) => {
            let n = frame_normal(d, goal_side(b.p.z as int));
            let out = FRAME_REACH - num::root(d.square());
            bounced(Ball { p: vec3::added(b.p, n, out), ..b }, n)
        },
        None => b,
    }
}

/// The best gap so far, improved by another.
fn keep_shorter(best: Option<V3>, d: V3) -> (r: Option<V3>)
    requires
        best matches Some(b) ==> short(b),
        d.within(0x200_0000),
    ensures
        r == shorter(best, d),
        r matches Some(b) ==> short(b),
{
    if abs_i32(d.x) >= FRAME_REACH || abs_i32(d.y) >= FRAME_REACH || abs_i32(d.z) >= FRAME_REACH {
        return best;
    }
    match best {
        Some(b) => {
            proof {
                lemma_short_square(b);
                lemma_short_square(d);
            }
            if d.len2() < b.len2() {
                Some(d)
            } else {
                best
            }
        },
        None => Some(d),
    }
}

/// The square of a short gap fits easily.
pub proof fn lemma_short_square(d: V3)
    requires
        short(d),
    ensures
        0 <= d.square() < 0x1000_0000,
{
    reveal(V3::square);
    num::lemma_mul_bound(d.x as int, d.x as int, 6912, 6912);
    num::lemma_mul_bound(d.y as int, d.y as int, 6912, 6912);
    num::lemma_mul_bound(d.z as int, d.z as int, 6912, 6912);
    assert(d.x * d.x >= 0 && d.y * d.y >= 0 && d.z * d.z >= 0) by (nonlinear_arith);
}

/// The gap to the frame and the goal side, if the ball is touching it.
fn touch_frame(p: V3) -> (r: Option<(V3, i32)>)
    requires
        p.within(0x100_0000),
    ensures
        r is Some <==> frame_touch(p) is Some,
        r matches Some(t) ==> frame_touch(p) == Some(t.0) && t.1 == goal_side(p.z as int) && short(
            t.0,
        ) && -1 <= t.1 <= 1,
{
    let side: i32 = if p.z > GOAL_LINE - FRAME_REACH {
        1
    } else if p.z < -GOAL_LINE + FRAME_REACH {
        -1
    } else {
        return None;
    };
    let plane: i32 = side * GOAL_LINE;
    let low: i32 = clamp_i32(p.y, 0, BAR);
    let left = minus(p, V3::new(-MOUTH, low, plane));
    let right = minus(p, V3::new(MOUTH, low, plane));
    let bar = minus(p, V3::new(clamp_i32(p.x, -MOUTH, MOUTH), BAR, plane));
    let best = keep_shorter(keep_shorter(keep_shorter(None, left), right), bar);
    match best {
        Some(d) => {
            proof {
                lemma_short_square(d);
            }
            if d.len2() < FRAME_REACH * FRAME_REACH {
                Some((d, side))
            } else {
                None
            }
        },
        None => None,
    }
}

/// Bounce the ball off a goal post or the crossbar, if it is touching one.
///
/// The frame is three axis-aligned segments in the end-wall plane, so the
/// closest point on each is a clamp. Returns whether it touched.
pub fn ball_hits_goal_frame(b: &mut Ball) -> (r: bool)
    requires
        old(b).p.within(0x100_0000),
        old(b).v.within(0x10_0000),
        old(b).w.within(0x400_0000),
    ensures
        *final(b) == off_frame(*old(b)),
        r == (frame_touch(old(b).p) is Some),
{
    match touch_frame(b.p) {
        Some((d, side)) => {
            proof {
                lemma_short_square(d);
            }
            let d2: i32 = d.len2();
            let n = if d2 == 0 {
                V3::new(0, 0, -side * 4096)
            } else {
                d.unit_q12()
            };
            let dist: i32 = isqrt_i32(d2);
            add_scaled(&mut b.p, n, FRAME_REACH - dist);
            bounce_off(b, n);
            true
        },
        None => false,
    }
}

/// Bounds on what the frame leaves of the ball.
pub proof fn lemma_off_frame(b: Ball, vb: int, wb: int, pb: int)
    requires
        b.p.within(pb),
        b.v.within(vb),
        b.w.within(wb),
        0 <= pb <= 0x100_0000,
        0 <= vb <= 0x10_0000,
        0 <= wb <= 0x400_0000,
    ensures
        ({
            let r = off_frame(b);
            let rs = ball::patch_bound(6 * vb + 1, wb, 0);
            &&& r.v.within(6 * vb + 2 * rs + 2)
            &&& r.w.within(num::max(wb, num::max(6554, (wb + 72 * rs) / 7 + 1)))
            &&& r.p.within(pb + 60_000)
        }),
{
    match frame_touch(b.p) {
        Some(d) => {
            let n = frame_normal(d, goal_side(b.p.z as int));
            assert(short(d));
            lemma_short_square(d);
            assert(n.within(4096)) by {
                if d.square() != 0 {
                    vec3::lemma_unit(d);
                }
            }
            vec3::lemma_root_exists(d.square());
            let root = num::root(d.square());
            assert(root <= 16384) by {
                if root > 16384 {
                    assert(root * root >= 16384 * 16384) by (nonlinear_arith)
                        requires
                            root >= 16384,
                    ;
                }
            }
            let out = FRAME_REACH - root;
            vec3::lemma_along(n, out);
            lemma_bounced(Ball { p: vec3::added(b.p, n, out), ..b }, n, vb, wb);
        },
        None => {},
    }
}

} // verus!
