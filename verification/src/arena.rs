//! The walled pitch: where its surfaces are and what meeting one does.
//!
//! The footprint is a rectangle with its four corners cut at 45 degrees and a
//! goal box behind each end. A quarter pipe joins the floor to the walls.

use vstd::prelude::*;
use crate::num;
use crate::num::{abs_i32, shift13, sign_i32, wide_mul};
use crate::tuning::{CORNER, GOAL_DEPTH, GOAL_HALF_W, HALF_X, HALF_Z, SQRT2_Q12};
use crate::vec3;
use crate::vec3::{damp, V3};

verus! {

// ---- walls -------------------------------------------------------------

/// A wall seen from a point: how far it is, and which way is away from it.
#[derive(Copy, Clone, Debug, PartialEq, Eq, Structural)]
pub struct WallDistance {
    /// Signed perpendicular distance from the arena wall into the pitch.
    pub distance: i32,
    /// Q12 unit vector pointing from the wall into the pitch.
    pub inward: V3,
}

/// The side wall nearest to a point.
pub open spec fn side_wall(x: int) -> WallDistance {
    WallDistance {
        distance: (HALF_X * 64 - num::abs(x)) as i32,
        inward: vec3::v3(-num::sign(x) * 4096, 0, 0),
    }
}

/// The end wall nearest to a point.
pub open spec fn end_wall(z: int) -> WallDistance {
    WallDistance {
        distance: (HALF_Z * 64 - num::abs(z)) as i32,
        inward: vec3::v3(0, 0, -num::sign(z) * 4096),
    }
}

/// The corner plane nearest to a point. The plane meets the axes at
/// [`CORNER`], so its perpendicular distance is the axis intercept times
/// `1/sqrt(2)`.
pub open spec fn corner_wall(x: int, z: int) -> WallDistance {
    WallDistance {
        distance: (((CORNER * 64 - num::abs(x) - num::abs(z)) * SQRT2_Q12) / 8192) as i32,
        inward: vec3::v3(-num::sign(x) * 2896, 0, -num::sign(z) * 2896),
    }
}

/// The corner plane nearest to a point, as the ball's quarter pipe reckons it:
/// twice as far as it is. The curve the ball meets at a chamfer is that much
/// tighter, so that a ball fired into a corner comes back off it instead of being
/// carried up it.
pub open spec fn tight_corner_wall(x: int, z: int) -> WallDistance {
    WallDistance {
        distance: (((CORNER * 64 - num::abs(x) - num::abs(z)) * SQRT2_Q12) / 4096) as i32,
        ..corner_wall(x, z)
    }
}

/// The nearer of two walls, the first where they are equally far.
pub open spec fn nearer(a: WallDistance, b: WallDistance) -> WallDistance {
    if b.distance < a.distance {
        b
    } else {
        a
    }
}

/// The side or end wall nearest to a point. With the mouth open the end walls are
/// not there.
pub open spec fn flat_wall(x: int, z: int, mouth_open: bool) -> WallDistance {
    if mouth_open {
        side_wall(x)
    } else {
        nearer(side_wall(x), end_wall(z))
    }
}

/// The wall of the main footprint nearest to a point.
#[verifier::opaque]
pub open spec fn wall_near(x: int, z: int, mouth_open: bool) -> WallDistance {
    nearer(flat_wall(x, z, mouth_open), corner_wall(x, z))
}

/// The wall that the ball's quarter pipe is swept along at a point.
#[verifier::opaque]
pub open spec fn ball_wall_near(x: int, z: int, mouth_open: bool) -> WallDistance {
    nearer(flat_wall(x, z, mouth_open), tight_corner_wall(x, z))
}

/// Nearest wall of the main arena footprint.
///
/// Distances are perpendicular, including at a chamfer, so the same quarter
/// circle can be swept around side walls, end walls and corners.
pub fn nearest_arena_wall(x: i32, z: i32, mouth_open: bool) -> (r: WallDistance)
    requires
        -0x1000_0000 <= x <= 0x1000_0000,
        -0x1000_0000 <= z <= 0x1000_0000,
    ensures
        r == wall_near(x as int, z as int, mouth_open),
        r.inward.within(4096),
        r.inward.y == 0,
        -(num::abs(x as int) + num::abs(z as int)) <= r.distance <= 262_144,
{
    proof {
        reveal(wall_near);
    }
    let flat = nearest_flat_wall(x, z, mouth_open);
    let intercept: i32 = CORNER * 64 - abs_i32(x) - abs_i32(z);
    let corner = WallDistance {
        distance: shift13(wide_mul(intercept, SQRT2_Q12)),
        inward: V3::new(-sign_i32(x) * 2896, 0, -sign_i32(z) * 2896),
    };
    if corner.distance < flat.distance {
        corner
    } else {
        flat
    }
}

/// Nearest side or end wall.
fn nearest_flat_wall(x: i32, z: i32, mouth_open: bool) -> (r: WallDistance)
    requires
        -0x1000_0000 <= x <= 0x1000_0000,
        -0x1000_0000 <= z <= 0x1000_0000,
    ensures
        r == flat_wall(x as int, z as int, mouth_open),
{
    let side = WallDistance {
        distance: HALF_X * 64 - abs_i32(x),
        inward: V3::new(-sign_i32(x) * 4096, 0, 0),
    };
    let end = WallDistance {
        distance: HALF_Z * 64 - abs_i32(z),
        inward: V3::new(0, 0, -sign_i32(z) * 4096),
    };
    if !mouth_open && end.distance < side.distance {
        end
    } else {
        side
    }
}

/// The wall that the ball's quarter pipe is swept along.
pub fn nearest_ball_wall(x: i32, z: i32, mouth_open: bool) -> (r: WallDistance)
    requires
        -0x1000_0000 <= x <= 0x1000_0000,
        -0x1000_0000 <= z <= 0x1000_0000,
    ensures
        r == ball_wall_near(x as int, z as int, mouth_open),
        r.inward.within(4096),
        r.inward.y == 0,
        -2 * (num::abs(x as int) + num::abs(z as int)) <= r.distance <= 262_144,
{
    proof {
        reveal(ball_wall_near);
    }
    let flat = nearest_flat_wall(x, z, mouth_open);
    let intercept: i32 = CORNER * 64 - abs_i32(x) - abs_i32(z);
    let corner = WallDistance {
        distance: num::shift12(wide_mul(intercept, SQRT2_Q12)),
        inward: V3::new(-sign_i32(x) * 2896, 0, -sign_i32(z) * 2896),
    };
    if corner.distance < flat.distance {
        corner
    } else {
        flat
    }
}

// ---- the footprint -----------------------------------------------------

/// What a wall makes of a speed into it: a stop, or a bounce of `bounce/1024`.
pub open spec fn reflected(v: int, bounce: int) -> int {
    if bounce == 0 {
        0
    } else {
        vec3::damped(-v, bounce)
    }
}

/// A body in the horizontal plane: position, velocity, and the Q12 normal of
/// what it is up against (zero for nothing).
pub struct Flat {
    /// Position across the pitch.
    pub x: int,
    /// Position along the pitch.
    pub z: int,
    /// Speed across the pitch.
    pub vx: int,
    /// Speed along the pitch.
    pub vz: int,
    /// What it is up against.
    pub normal: V3,
}

/// A body kept between two side walls.
pub open spec fn between_sides(b: Flat, lim: int, bounce: int) -> Flat {
    if b.x < -lim {
        Flat { x: -lim, vx: reflected(b.vx, bounce), normal: vec3::v3(4096, 0, 0), ..b }
    } else if b.x > lim {
        Flat { x: lim, vx: reflected(b.vx, bounce), normal: vec3::v3(-4096, 0, 0), ..b }
    } else {
        b
    }
}

/// A body kept between two end walls.
pub open spec fn between_ends(b: Flat, lim: int, bounce: int) -> Flat {
    if b.z < -lim {
        Flat { z: -lim, vz: reflected(b.vz, bounce), normal: vec3::v3(0, 0, 4096), ..b }
    } else if b.z > lim {
        Flat { z: lim, vz: reflected(b.vz, bounce), normal: vec3::v3(0, 0, -4096), ..b }
    } else {
        b
    }
}

/// The axis intercept that keeps a sphere of radius `r` uu off a corner plane:
/// backing off by `r` along the normal costs `r * sqrt(2)` of it.
pub open spec fn corner_limit(r: int) -> int {
    CORNER * 64 - (r * 64 * SQRT2_Q12) / 4096
}

/// Half of an overshoot past a corner plane, which is what each axis takes
/// back.
pub open spec fn corner_over(b: Flat, r: int) -> int {
    num::abs(b.x) + num::abs(b.z) - corner_limit(r)
}

/// What a corner plane takes off each axis of a body's velocity.
pub open spec fn corner_step(b: Flat, bounce: int) -> int {
    let vn = ((b.vx * num::sign(b.x) + b.vz * num::sign(b.z)) * SQRT2_Q12) / 8192;
    let j = if bounce == 0 {
        vn
    } else {
        vn + vec3::damped(vn, bounce)
    };
    if vn > 0 {
        (j * SQRT2_Q12) / 8192
    } else {
        0
    }
}

/// A body kept inside the four corner planes. The chamfer wins over a flat
/// wall: a body against one is by definition not against the other.
pub open spec fn inside_corners(b: Flat, r: int, bounce: int) -> Flat {
    let over = corner_over(b, r);
    if over <= 0 {
        b
    } else {
        let (sx, sz) = (num::sign(b.x), num::sign(b.z));
        let step = corner_step(b, bounce);
        Flat {
            x: b.x - sx * (over / 2),
            z: b.z - sz * (over / 2),
            vx: b.vx - sx * step,
            vz: b.vz - sz * step,
            normal: vec3::v3(-sx * 2896, 0, -sz * 2896),
        }
    }
}

/// Past a goal line the walls are the goal box's, not the pitch's.
pub open spec fn past_goal_line(z: int) -> bool {
    num::abs(z) > HALF_Z * 64
}

/// How far across a sphere of radius `r` uu may be.
pub open spec fn side_limit(z: int, r: int) -> int {
    if past_goal_line(z) {
        (GOAL_HALF_W - r) * 64
    } else {
        (HALF_X - r) * 64
    }
}

/// How far along a sphere of radius `r` uu may be.
pub open spec fn end_limit(mouth_open: bool, r: int) -> int {
    if mouth_open {
        (HALF_Z + GOAL_DEPTH - r) * 64
    } else {
        (HALF_Z - r) * 64
    }
}

/// A body before it meets anything.
pub open spec fn free(x: int, z: int, vx: int, vz: int) -> Flat {
    Flat { x, z, vx, vz, normal: vec3::zero3() }
}

/// A sphere of radius `r` uu kept inside the arena footprint.
pub open spec fn confined(
    x: int,
    z: int,
    vx: int,
    vz: int,
    r: int,
    bounce: int,
    mouth_open: bool,
) -> Flat {
    let sided = between_sides(free(x, z, vx, vz), side_limit(z, r), bounce);
    let ended = between_ends(sided, end_limit(mouth_open, r), bounce);
    if past_goal_line(z) {
        ended
    } else {
        inside_corners(ended, r, bounce)
    }
}

/// What a wall makes of a speed into it.
fn reflect(v: i32, bounce: i32) -> (r: i32)
    requires
        -0x800_0000 <= v <= 0x800_0000,
        0 <= bounce <= 1024,
    ensures
        r == reflected(v as int, bounce as int),
        num::abs(r as int) <= num::abs(v as int),
{
    if bounce == 0 {
        0
    } else {
        damp(-v, bounce)
    }
}

/// A body in the horizontal plane.
#[derive(Copy, Clone)]
struct Footing {
    x: i32,
    z: i32,
    vx: i32,
    vz: i32,
    normal: V3,
}

impl Footing {
    /// The same body over the integers.
    spec fn flat(self) -> Flat {
        Flat {
            x: self.x as int,
            z: self.z as int,
            vx: self.vx as int,
            vz: self.vz as int,
            normal: self.normal,
        }
    }

    /// The body's speeds are within this.
    spec fn slower(self, m: int) -> bool {
        &&& num::abs(self.vx as int) <= m
        &&& num::abs(self.vz as int) <= m
    }

    fn keep_between_sides(&mut self, lim: i32, bounce: i32)
        requires
            0 <= lim <= 0x1000_0000,
            0 <= bounce <= 1024,
            old(self).slower(0x800_0000),
        ensures
            final(self).flat() == between_sides(old(self).flat(), lim as int, bounce as int),
            final(self).slower(0x800_0000),
    {
        if self.x < -lim {
            self.x = -lim;
            self.vx = reflect(self.vx, bounce);
            self.normal = V3::new(4096, 0, 0);
        } else if self.x > lim {
            self.x = lim;
            self.vx = reflect(self.vx, bounce);
            self.normal = V3::new(-4096, 0, 0);
        }
    }

    fn keep_between_ends(&mut self, lim: i32, bounce: i32)
        requires
            0 <= lim <= 0x1000_0000,
            0 <= bounce <= 1024,
            old(self).slower(0x800_0000),
        ensures
            final(self).flat() == between_ends(old(self).flat(), lim as int, bounce as int),
            final(self).slower(0x800_0000),
    {
        if self.z < -lim {
            self.z = -lim;
            self.vz = reflect(self.vz, bounce);
            self.normal = V3::new(0, 0, 4096);
        } else if self.z > lim {
            self.z = lim;
            self.vz = reflect(self.vz, bounce);
            self.normal = V3::new(0, 0, -4096);
        }
    }

    /// What a corner plane takes off each axis of the body's velocity.
    fn corner_push(&self, bounce: i32) -> (r: i32)
        requires
            self.slower(0x800_0000),
            0 <= bounce <= 1024,
        ensures
            r == corner_step(self.flat(), bounce as int),
            0 <= r <= 0x1800_0004,
    {
        proof {
            lemma_corner_step(self.flat(), bounce as int, 0x800_0000);
        }
        let (sx, sz): (i32, i32) = (sign_i32(self.x), sign_i32(self.z));
        let closing: i32 = signed(self.vx, sx) + signed(self.vz, sz);
        let vn: i32 = shift13(wide_mul(closing, SQRT2_Q12));
        if vn > 0 {
            let j: i32 = if bounce == 0 {
                vn
            } else {
                vn + damp(vn, bounce)
            };
            shift13(wide_mul(j, SQRT2_Q12))
        } else {
            0
        }
    }

    fn keep_inside_corners(&mut self, r: i32, bounce: i32)
        requires
            0 <= r <= GOAL_HALF_W,
            0 <= bounce <= 1024,
            old(self).slower(0x800_0000),
            num::abs(old(self).x as int) <= 0x1000_0000,
            num::abs(old(self).z as int) <= 0x1000_0000,
        ensures
            final(self).flat() == inside_corners(old(self).flat(), r as int, bounce as int),
    {
        let back: i32 = num::shift12(wide_mul(r * 64, SQRT2_Q12));
        let limit: i32 = CORNER * 64 - back;
        let over: i32 = abs_i32(self.x) + abs_i32(self.z) - limit;
        assert(over == corner_over(self.flat(), r as int));
        if over > 0 {
            let (sx, sz): (i32, i32) = (sign_i32(self.x), sign_i32(self.z));
            let half: i32 = over / 2;
            let step: i32 = self.corner_push(bounce);
            self.x = self.x - signed(half, sx);
            self.z = self.z - signed(half, sz);
            self.vx = self.vx - signed(step, sx);
            self.vz = self.vz - signed(step, sz);
            self.normal = V3::new(-sx * 2896, 0, -sz * 2896);
        }
    }
}

/// `v` with the sign `s` put on it, `s` being -1, 0 or 1.
fn signed(v: i32, s: i32) -> (r: i32)
    requires
        -1 <= s <= 1,
        v > i32::MIN,
    ensures
        r == v * s,
        r == s * v,
        num::abs(r as int) <= num::abs(v as int),
{
    assert(v * 1 == v && v * 0 == 0 && v * (-1) == -v);
    if s == 0 {
        0
    } else if s > 0 {
        v
    } else {
        -v
    }
}

/// Keep a sphere of radius `r` (uu) inside the arena footprint: side walls,
/// end walls, the four 45-degree corner planes, and the goal box walls once
/// past a goal line. `bounce` is the restitution `/1024`; pass `0` for a car,
/// which stops dead instead of rebounding.
///
/// `mouth_open` is whether the end wall has a hole in it for this body right
/// now. The caller decides, because it depends on height and this works in the
/// horizontal plane.
///
/// Returns the corrected `(x, z, vx, vz)` in sub-units, plus the Q12 unit
/// normal of the surface it ended up against (zero if it touched nothing).
pub fn confine(x: i32, z: i32, vx: i32, vz: i32, r: i32, bounce: i32, mouth_open: bool) -> (out: (
    i32,
    i32,
    i32,
    i32,
    V3,
))
    requires
        -0x1000_0000 <= x <= 0x1000_0000,
        -0x1000_0000 <= z <= 0x1000_0000,
        -0x800_0000 <= vx <= 0x800_0000,
        -0x800_0000 <= vz <= 0x800_0000,
        0 <= r <= GOAL_HALF_W,
        0 <= bounce <= 1024,
    ensures
        ({
            let c = confined(
                x as int,
                z as int,
                vx as int,
                vz as int,
                r as int,
                bounce as int,
                mouth_open,
            );
            &&& out.0 == c.x
            &&& out.1 == c.z
            &&& out.2 == c.vx
            &&& out.3 == c.vz
            &&& out.4 == c.normal
        }),
{
    let mut body = Footing { x, z, vx, vz, normal: V3::zero() };
    let in_goal = abs_i32(z) > HALF_Z * 64;
    let lim_x: i32 = if in_goal {
        (GOAL_HALF_W - r) * 64
    } else {
        (HALF_X - r) * 64
    };
    body.keep_between_sides(lim_x, bounce);
    let lim_z: i32 = if mouth_open {
        (HALF_Z + GOAL_DEPTH - r) * 64
    } else {
        (HALF_Z - r) * 64
    };
    body.keep_between_ends(lim_z, bounce);
    if !in_goal {
        body.keep_inside_corners(r, bounce);
    }
    (body.x, body.z, body.vx, body.vz, body.normal)
}

/// A sphere of radius `r` uu centred here is inside the footprint: within the
/// side walls, within the end walls or the back of the net, inside the goal box
/// past a goal line, and off the corner planes, to within one sub-unit, before
/// it.
pub open spec fn inside(x: int, z: int, r: int, mouth_open: bool) -> bool {
    &&& num::abs(x) <= (HALF_X - r) * 64
    &&& num::abs(z) <= end_limit(mouth_open, r)
    &&& past_goal_line(z) ==> num::abs(x) <= (GOAL_HALF_W - r) * 64
    &&& !past_goal_line(z) ==> num::abs(x) + num::abs(z) <= corner_limit(r) + 1
}

/// Whatever comes in, what [`confine`] gives back is inside the arena: within
/// the side walls (or, past a goal line, the goal box), within the end walls
/// or the back of the net, and off the corner planes to within one sub-unit.
pub proof fn law_confined_is_inside(
    x: int,
    z: int,
    vx: int,
    vz: int,
    r: int,
    bounce: int,
    mouth_open: bool,
)
    requires
        0 <= r <= GOAL_HALF_W,
    ensures
        ({
            let c = confined(x, z, vx, vz, r, bounce, mouth_open);
            &&& num::abs(c.x) <= side_limit(z, r)
            &&& num::abs(c.z) <= end_limit(mouth_open, r)
            &&& !past_goal_line(z) ==> num::abs(c.x) + num::abs(c.z) <= corner_limit(r) + 1
            &&& inside(c.x, c.z, r, mouth_open)
        }),
{
    let sided = between_sides(free(x, z, vx, vz), side_limit(z, r), bounce);
    let ended = between_ends(sided, end_limit(mouth_open, r), bounce);
    if !past_goal_line(z) {
        let over = corner_over(ended, r);
        if over > 0 {
            let h = over / 2;
            assert(1 * h == h && -1 * h == -h && 0 * h == 0);
        }
    }
}

/// A body already inside the footprint is left exactly as it is.
pub proof fn law_confine_leaves_the_inside_alone(
    x: int,
    z: int,
    vx: int,
    vz: int,
    r: int,
    bounce: int,
    mouth_open: bool,
)
    requires
        num::abs(x) <= side_limit(z, r),
        num::abs(z) <= end_limit(mouth_open, r),
        past_goal_line(z) || num::abs(x) + num::abs(z) <= corner_limit(r),
    ensures
        confined(x, z, vx, vz, r, bounce, mouth_open) == free(x, z, vx, vz),
{
}

/// Bound on the speeds a confined body leaves with.
pub proof fn lemma_confined_speed(
    x: int,
    z: int,
    vx: int,
    vz: int,
    r: int,
    bounce: int,
    mouth_open: bool,
    m: int,
)
    requires
        num::abs(vx) <= m,
        num::abs(vz) <= m,
        0 <= bounce <= 1024,
    ensures
        ({
            let c = confined(x, z, vx, vz, r, bounce, mouth_open);
            &&& num::abs(c.vx) <= 4 * m + 4
            &&& num::abs(c.vz) <= 4 * m + 4
            &&& bounce <= 768 ==> num::abs(c.vx) <= 3 * m + 4 && num::abs(c.vz) <= 3 * m + 4
            &&& c.normal == vec3::zero3() || vec3::is_axis(c.normal) || vec3::is_chamfer(c.normal)
            &&& c.normal.within(4096)
        }),
{
    let sided = between_sides(free(x, z, vx, vz), side_limit(z, r), bounce);
    let ended = between_ends(sided, end_limit(mouth_open, r), bounce);
    lemma_reflected(vx, bounce);
    lemma_reflected(vz, bounce);
    if !past_goal_line(z) && corner_over(ended, r) > 0 {
        lemma_corner_step(ended, bounce, m);
        let step = corner_step(ended, bounce);
        assert(1 * step == step && -1 * step == -step && 0 * step == 0);
    }
}

/// A wall never makes a speed larger.
pub proof fn lemma_reflected(v: int, bounce: int)
    requires
        0 <= bounce <= 1024,
    ensures
        num::abs(reflected(v, bounce)) <= num::abs(v),
{
    num::lemma_mul_bound(-v, bounce, num::abs(v), 1024);
    reveal(vec3::damped);
}

proof fn lemma_corner_step(b: Flat, bounce: int, m: int)
    requires
        num::abs(b.vx) <= m,
        num::abs(b.vz) <= m,
        0 <= bounce <= 1024,
    ensures
        0 <= corner_step(b, bounce) <= 3 * m + 4,
        bounce <= 768 ==> corner_step(b, bounce) <= 2 * m + 4,
{
    let (sx, sz) = (num::sign(b.x), num::sign(b.z));
    num::lemma_mul_bound(b.vx, sx, m, 1);
    num::lemma_mul_bound(b.vz, sz, m, 1);
    let vn = ((b.vx * sx + b.vz * sz) * SQRT2_Q12) / 8192;
    if vn > 0 {
        num::lemma_mul_bound(vn, bounce, vn, 1024);
        if bounce <= 768 {
            num::lemma_mul_bound(vn, bounce, vn, 768);
        }
        assert(0 <= vn * bounce) by (nonlinear_arith)
            requires
                vn > 0,
                bounce >= 0,
        ;
        reveal(vec3::damped);
    }
}

} // verus!
