//! The quarter pipe that joins the floor to the walls.
//!
//! In a slice along a wall's normal the visible surface is a quarter circle of
//! radius [`RAMP`]. A body's centre follows the concentric circle its own
//! clearance inside it; projecting onto that circle gives both the corrected
//! position and the continuously turning contact normal. At a chamfer the ball's
//! curve is half as wide as a car's.

use vstd::prelude::*;
use crate::arena;
use crate::arena::{nearest_arena_wall, nearest_ball_wall, WallDistance};
use crate::ball::Ball;
use crate::car::Car;
use crate::num;
use crate::num::{clamp_i32, mul_div};
use crate::vec3;
use crate::vec3::{add_scaled, V3};

verus! {

/// Ramp radius in sub-units.
pub const RAMP: i32 = 16640;
/// Radius of the circle the ball's centre follows.
pub const BALL_ARC: i32 = 10816;
/// Radius of the circle a car's centre follows.
pub const CAR_ARC: i32 = 14848;
/// A car's ride height in sub-units.
pub const RIDE: i32 = 1792;
/// How near a surface a car has to be to count as on it.
pub const NEAR: i32 = 512;

/// How far past the start of the curve a distance from a surface is.
pub open spec fn lean(distance: int) -> int {
    num::clamp(RAMP - distance, 0, 2 * RAMP)
}

/// Distance from the curve's centre, from the two leans.
pub open spec fn lean_length(h: int, v: int) -> int {
    vec3::v3(h, v, 0).length()
}

/// A lean scaled onto the circle of radius `arc`.
#[verifier::opaque]
pub open spec fn onto_arc(lean: int, arc: int, length: int) -> int {
    (lean * arc) / length
}

/// The contact normal on the curve, from the leans on the circle.
#[verifier::opaque]
pub open spec fn arc_normal(inward: V3, ph: int, pv: int, arc: int) -> V3 {
    vec3::v3(
        num::tdiv(inward.x * ph, arc),
        (4096 * pv) / arc,
        num::tdiv(inward.z * ph, arc),
    ).unit()
}

/// A position moved onto the circle of radius `arc`.
pub open spec fn moved_onto_arc(p: V3, wall: WallDistance, ph: int, pv: int) -> V3 {
    V3 { y: (RAMP - pv) as i32, ..vec3::added(p, wall.inward, RAMP - ph - wall.distance) }
}

/// The ball against the curve: where it ends up, and the normal it met.
pub open spec fn ball_on_ramp(p: V3, mouth_open: bool) -> (V3, Option<V3>) {
    let wall = arena::ball_wall_near(p.x as int, p.z as int, mouth_open);
    let (h, v) = (lean(wall.distance as int), lean(p.y as int));
    let length = lean_length(h, v);
    if p.y >= RAMP || wall.distance >= RAMP || length <= BALL_ARC {
        (p, None)
    } else {
        let ph = onto_arc(h, BALL_ARC as int, length);
        let pv = onto_arc(v, BALL_ARC as int, length);
        (
            moved_onto_arc(p, wall, ph, pv),
            Some(arc_normal(wall.inward, ph, pv, BALL_ARC as int)),
        )
    }
}

/// A car against the curve and the straight wall above it: where it ends up,
/// and the normal its wheels are on.
pub open spec fn car_on_ramp(p: V3, mouth_open: bool) -> (V3, Option<V3>) {
    let wall = arena::wall_near(p.x as int, p.z as int, mouth_open);
    if p.y >= RAMP {
        if wall.distance > RIDE + NEAR {
            (p, None)
        } else if wall.distance < RIDE {
            (vec3::added(p, wall.inward, RIDE - wall.distance), Some(wall.inward))
        } else {
            (p, Some(wall.inward))
        }
    } else {
        let (h, v) = (lean(wall.distance as int), lean(p.y as int));
        let length = lean_length(h, v);
        if wall.distance >= RAMP || length < CAR_ARC - NEAR {
            (p, None)
        } else {
            let ph = onto_arc(h, CAR_ARC as int, length);
            let pv = onto_arc(v, CAR_ARC as int, length);
            let at = if length > CAR_ARC {
                moved_onto_arc(p, wall, ph, pv)
            } else {
                p
            };
            (at, Some(arc_normal(wall.inward, ph, pv, CAR_ARC as int)))
        }
    }
}

/// A lean is never longer than the distance it is part of.
pub proof fn lemma_lean_fits(h: int, v: int)
    requires
        0 <= h <= 2 * RAMP,
        0 <= v <= 2 * RAMP,
    ensures
        h <= lean_length(h, v),
        v <= lean_length(h, v),
        lean_length(h, v) >= 0,
{
    let d = vec3::v3(h, v, 0);
    reveal(V3::square);
    assert(h * h >= 0 && v * v >= 0) by (nonlinear_arith);
    let kept = num::min(d.square(), i32::MAX as int);
    vec3::lemma_root_exists(kept);
    if d.square() <= i32::MAX {
        num::lemma_root_covers(d.length(), kept, h);
        num::lemma_root_covers(d.length(), kept, v);
    } else {
        assert(46340 * 46340 <= 0x7fff_ffff);
        num::lemma_root_covers(d.length(), kept, 46340);
    }
}

/// A lean scaled onto a circle.
fn project(lean: i32, arc: i32, length: i32) -> (r: i32)
    requires
        0 <= lean <= length,
        0 < length,
        0 <= arc <= RAMP,
    ensures
        r == onto_arc(lean as int, arc as int, length as int),
        0 <= r <= arc,
{
    proof {
        num::lemma_mul_bound(lean as int, arc as int, length as int, arc as int);
        assert(0 <= lean * arc) by (nonlinear_arith)
            requires
                0 <= lean,
                0 <= arc,
        ;
        assert(length * arc == arc * length) by (nonlinear_arith);
        num::lemma_tdiv_bound(lean * arc, length as int, arc as int);
        assert(0 <= (lean * arc) / length as int) by (nonlinear_arith)
            requires
                0 <= lean * arc,
                0 < length,
        ;
        reveal(onto_arc);
    }
    mul_div(lean, arc, length)
}

/// The contact normal on the curve.
fn normal_on_arc(inward: V3, ph: i32, pv: i32, arc: i32) -> (r: V3)
    requires
        inward.within(4096),
        0 <= ph <= arc,
        0 <= pv <= arc,
        0 < arc <= RAMP,
    ensures
        r == arc_normal(inward, ph as int, pv as int, arc as int),
        r.within(4096),
{
    proof {
        num::lemma_mul_bound(inward.x as int, ph as int, 4096, arc as int);
        num::lemma_mul_bound(inward.z as int, ph as int, 4096, arc as int);
        num::lemma_mul_bound(4096, pv as int, 4096, arc as int);
        num::lemma_tdiv_bound(inward.x * ph, arc as int, 4096);
        num::lemma_tdiv_bound(inward.z * ph, arc as int, 4096);
        num::lemma_tdiv_bound(4096 * pv, arc as int, 4096);
        reveal(arc_normal);
    }
    V3::new(mul_div(inward.x, ph, arc), mul_div(4096, pv, arc), mul_div(inward.z, ph, arc)).unit_q12()
}

/// Resolve the ball against the quarter pipe the cars drive on. Its centre
/// follows the circle one ball radius inside the visible surface.
///
/// Returns the Q12 contact normal, if the ball met the curve.
pub fn ball_surface_contact(ball: &mut Ball, mouth_open: bool) -> (r: Option<V3>)
    requires
        old(ball).p.within(0x200_0000),
    ensures
        final(ball).p == ball_on_ramp(old(ball).p, mouth_open).0,
        r == ball_on_ramp(old(ball).p, mouth_open).1,
        *final(ball) == (Ball { p: final(ball).p, ..*old(ball) }),
        r matches Some(n) ==> n.within(4096),
        final(ball).p.within(0x1000_0000),
{
    let wall = nearest_ball_wall(ball.p.x, ball.p.z, mouth_open);
    // Above the sweep the wall is straight.
    if ball.p.y >= RAMP || wall.distance >= RAMP {
        return None;
    }
    let horizontal: i32 = clamp_i32(RAMP - wall.distance, 0, RAMP * 2);
    let vertical: i32 = clamp_i32(RAMP - ball.p.y, 0, RAMP * 2);
    let length: i32 = V3::new(horizontal, vertical, 0).len();
    if length <= BALL_ARC {
        return None;
    }
    proof {
        lemma_lean_fits(horizontal as int, vertical as int);
    }
    let ph: i32 = project(horizontal, BALL_ARC, length);
    let pv: i32 = project(vertical, BALL_ARC, length);
    add_scaled(&mut ball.p, wall.inward, RAMP - ph - wall.distance);
    ball.p.y = RAMP - pv;
    Some(normal_on_arc(wall.inward, ph, pv, BALL_ARC))
}

/// Resolve a car against the quarter pipe and the straight wall above it.
///
/// Returns the Q12 normal of the surface its wheels are on, if any.
pub fn car_surface_contact(car: &mut Car, mouth_open: bool) -> (r: Option<V3>)
    requires
        old(car).p.within(0x200_0000),
    ensures
        final(car).p == car_on_ramp(old(car).p, mouth_open).0,
        r == car_on_ramp(old(car).p, mouth_open).1,
        *final(car) == (Car { p: final(car).p, ..*old(car) }),
        r matches Some(n) ==> n.within(4096),
        final(car).p.within(0x1000_0000),
        RIDE <= old(car).p.y ==> RIDE <= final(car).p.y <= num::max(old(car).p.y as int, RAMP as int),
{
    let (at, normal): (V3, Option<V3>) = place_car(car.p, mouth_open);
    car.p = at;
    normal
}

/// Where the quarter pipe and the wall above it put a car, and the normal its
/// wheels are on.
fn place_car(p: V3, mouth_open: bool) -> (r: (V3, Option<V3>))
    requires
        p.within(0x200_0000),
    ensures
        r == car_on_ramp(p, mouth_open),
        r.1 matches Some(n) ==> n.within(4096),
        r.0.within(0x1000_0000),
        RIDE <= p.y ==> RIDE <= r.0.y <= num::max(p.y as int, RAMP as int),
{
    let wall = nearest_arena_wall(p.x, p.z, mouth_open);
    let mut at = p;
    // Above the quarter pipe, the same sweep is a straight wall.
    if p.y >= RAMP {
        if wall.distance > RIDE + NEAR {
            return (p, None);
        }
        if wall.distance < RIDE {
            add_scaled(&mut at, wall.inward, RIDE - wall.distance);
            proof {
                reveal(vec3::along);
            }
        }
        return (at, Some(wall.inward));
    }
    // Well inside the pitch and below the ramp: ordinary floor.
    if wall.distance >= RAMP {
        return (p, None);
    }
    let horizontal: i32 = clamp_i32(RAMP - wall.distance, 0, RAMP * 2);
    let vertical: i32 = clamp_i32(RAMP - p.y, 0, RAMP * 2);
    let length: i32 = V3::new(horizontal, vertical, 0).len();
    if length < CAR_ARC - NEAR {
        return (p, None);
    }
    proof {
        lemma_lean_fits(horizontal as int, vertical as int);
    }
    let ph: i32 = project(horizontal, CAR_ARC, length);
    let pv: i32 = project(vertical, CAR_ARC, length);
    if length > CAR_ARC {
        add_scaled(&mut at, wall.inward, RAMP - ph - wall.distance);
        at.y = RAMP - pv;
    }
    (at, Some(normal_on_arc(wall.inward, ph, pv, CAR_ARC)))
}

} // verus!
