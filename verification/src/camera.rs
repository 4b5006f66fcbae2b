//! The chase camera: where it stands behind a car, and what it looks at.
//!
//! Lengths are uu in render space, where Y points down.

use vstd::prelude::*;
use crate::ball::Ball;
use crate::car;
use crate::car::Car;
use crate::num;
use crate::num::{abs_i32, clamp_i32, isqrt_i32, max_i32, min_i32, mul_shift12, sign_i32};
use crate::trig::{Angles, Trig};
use crate::tuning::{CAR_HALF_H, CORNER, HALF_X, HALF_Z};
use crate::vec3;
use crate::vec3::V3;

verus! {

/// Follow distance.
pub const CAM_DIST: i32 = 800;
/// Height over the car.
pub const CAM_HEIGHT: i32 = 330;
/// The closest it stands on the ground plane, where there is room.
pub const CAM_MIN_FLAT_DIST: i32 = 650;
/// How much of the chase distance turns vertical straight up a wall.
pub const CAM_WALL_TRAIL: i32 = 500;
/// The close camera's follow distance.
pub const CLOSE_DIST: i32 = 430;
/// The close camera's height over the car, on a wall as on the pitch.
pub const CLOSE_HEIGHT: i32 = 190;
/// The closest the close camera stands on the ground plane.
pub const CLOSE_MIN_FLAT_DIST: i32 = 400;
/// How far round from behind the close camera stands, Q12: a three-quarter view,
/// with the front steer and both axles' travel in one frame.
pub const CLOSE_TURN: u16 = 512;
/// Closer than this, the line to the ball is not worth following.
pub const CAM_MIN_SEP: i32 = 300;
/// How far up it may look on the pitch, Q12.
pub const CAM_PITCH_MIN: i32 = -260;
/// How far up it may look on a wall, Q12.
pub const CAM_WALL_PITCH_MIN: i32 = -620;
/// How far down it may look, Q12.
pub const CAM_PITCH_MAX: i32 = 700;
/// How far ahead it aims with the ball on the lens.
pub const CAM_FALLBACK_AIM: i32 = 900;
/// The widest horizontal angle off the car that ball cam keeps, Q12.
pub const CAM_BALL_CAR_YAW: i32 = 330;
/// Its vertical equivalent.
pub const CAM_BALL_CAR_PITCH: i32 = 260;
/// How far past the nose car cam looks.
pub const CAM_CAR_AIM: i32 = 120;
/// The most any part of the view moves in a frame.
pub const CAM_STEP: i32 = 96;
/// The widest position component a camera films, in sub-units: well past the back
/// of either net.
pub const FILM_LIMIT: i32 = 524_288;
/// Margin it keeps from the walls.
pub const CAM_WALL_MARGIN: i32 = 180;

/// What a camera remembers between frames.
#[derive(Copy, Clone, Debug, PartialEq, Eq, Structural)]
pub struct CameraState {
    /// A frame has been drawn.
    pub valid: bool,
    /// Where it stood, relative to its car.
    pub offset: V3,
    /// Which way it looked.
    pub yaw: u16,
    /// How far down it looked.
    pub pitch: i32,
}

/// A camera: where it stands, and its axes in Q12.
#[derive(Copy, Clone, Debug, PartialEq, Eq, Structural)]
pub struct Sight {
    /// Right across the screen.
    pub right: V3,
    /// Down the screen.
    pub down: V3,
    /// Into the screen.
    pub fwd: V3,
    /// Where it stands.
    pub eye: V3,
}

/// Sub-units to whole uu.
pub open spec fn whole(v: int) -> int {
    v / 64
}

/// Sub-units to whole uu.
pub fn to_whole(v: i32) -> (r: i32)
    ensures
        r == whole(v as int),
{
    assert(v >> 6 == v / 64) by (bit_vector);
    v >> 6
}

/// An angle brought into one turn.
pub open spec fn one_turn(a: int) -> int {
    a % 4096
}

fn into_turn(a: i32) -> (r: i32)
    ensures
        r == one_turn(a as int),
        0 <= r < 4096,
{
    let m: i32 = a % 4096;
    if m < 0 {
        m + 4096
    } else {
        m
    }
}

/// The way round from one angle to another: at most half a turn either way.
pub open spec fn swing(from: int, to: int) -> int {
    one_turn(to - from + 2048) - 2048
}

fn swing_to(from: i32, to: i32) -> (r: i32)
    requires
        -0x10_0000 <= from <= 0x10_0000,
        -0x10_0000 <= to <= 0x10_0000,
    ensures
        r == swing(from as int, to as int),
        -2048 <= r < 2048,
{
    into_turn(to - from + 2048) - 2048
}

/// An unsigned bearing as a signed tilt.
pub open spec fn tilt(raw: u16) -> int {
    if raw > 2048 {
        raw - 4096
    } else {
        raw as int
    }
}

fn to_tilt(raw: u16) -> (r: i32)
    ensures
        r == tilt(raw),
        -2048 <= r <= 65535,
{
    if raw > 2048 {
        raw as i32 - 4096
    } else {
        raw as i32
    }
}

/// `from` moved towards `to`, by at most a step.
pub open spec fn eased(from: int, to: int) -> int {
    from + num::clamp(to - from, -CAM_STEP as int, CAM_STEP as int)
}

fn ease(from: i32, to: i32) -> (r: i32)
    requires
        -0x1000_0000 <= from <= 0x1000_0000,
        -0x1000_0000 <= to <= 0x1000_0000,
    ensures
        r == eased(from as int, to as int),
        from <= to ==> from <= r <= to,
        to <= from ==> to <= r <= from,
{
    from + clamp_i32(to - from, -CAM_STEP, CAM_STEP)
}

/// How far it is between two points on the ground plane.
pub open spec fn apart(ax: int, az: int, bx: int, bz: int) -> int {
    num::root((ax - bx) * (ax - bx) + (az - bz) * (az - bz))
}

/// The squares of two offsets, added.
pub open spec fn squares(dx: int, dz: int) -> int {
    dx * dx + dz * dz
}

fn square_sum(dx: i32, dz: i32) -> (r: i32)
    requires
        -32000 <= dx <= 32000,
        -32000 <= dz <= 32000,
    ensures
        r == squares(dx as int, dz as int),
        0 <= r <= 2_048_000_000,
{
    assert(0 <= dx * dx <= 1_024_000_000) by (nonlinear_arith)
        requires
            -32000 <= dx <= 32000,
    ;
    assert(0 <= dz * dz <= 1_024_000_000) by (nonlinear_arith)
        requires
            -32000 <= dz <= 32000,
    ;
    dx * dx + dz * dz
}

fn gap(ax: i32, az: i32, bx: i32, bz: i32) -> (r: i32)
    requires
        -16000 <= ax <= 16000,
        -16000 <= az <= 16000,
        -16000 <= bx <= 16000,
        -16000 <= bz <= 16000,
    ensures
        r == apart(ax as int, az as int, bx as int, bz as int),
        0 <= r <= 46340,
{
    isqrt_i32(square_sum(ax - bx, az - bz))
}

/// `(a * b) >> 12`.
pub open spec fn q12(a: int, b: int) -> int {
    (a * b) / 4096
}

/// `(a * b) >> 12`.
pub fn mul12(a: i32, b: i32) -> (r: i32)
    requires
        -4096 <= a <= 4096,
        -0x1000_0000 <= b <= 0x1000_0000,
    ensures
        r == q12(a as int, b as int),
        b >= 0 ==> -b <= r <= b,
        b < 0 ==> b <= r <= -b,
{
    proof {
        num::lemma_mul_bound(a as int, b as int, 4096, num::abs(b as int));
        assert(4096 * num::abs(b as int) <= 4096 * 0x1000_0000);
        assert(-(4096 * num::abs(b as int)) <= a * b <= 4096 * num::abs(b as int));
    }
    mul_shift12(a, b)
}

// ---- staying inside --------------------------------------------------------

/// A point pulled inside the arena's footprint: side walls, end walls and the
/// corner chamfers, with a margin.
pub open spec fn kept(x: int, z: int) -> (int, int) {
    let cx = num::clamp(x, -3916, 3916);
    let cz = num::clamp(z, -4940, 4940);
    let over = num::abs(cx) + num::abs(cz) - 7794;
    if over > 0 {
        (cx - num::sign(cx) * (over / 2), cz - num::sign(cz) * (over / 2))
    } else {
        (cx, cz)
    }
}

/// Pull a point inside the arena's footprint.
pub fn keep_inside(x: i32, z: i32) -> (r: (i32, i32))
    ensures
        (r.0 as int, r.1 as int) == kept(x as int, z as int),
        -3916 <= r.0 <= 3916,
        -4940 <= r.1 <= 4940,
        num::abs(r.0 as int) + num::abs(r.1 as int) <= 7795,
{
    let cx: i32 = clamp_i32(x, -(HALF_X - CAM_WALL_MARGIN), HALF_X - CAM_WALL_MARGIN);
    let cz: i32 = clamp_i32(z, -(HALF_Z - CAM_WALL_MARGIN), HALF_Z - CAM_WALL_MARGIN);
    let over: i32 = abs_i32(cx) + abs_i32(cz) - (CORNER - CAM_WALL_MARGIN * 3 / 2);
    if over > 0 {
        let half: i32 = over / 2;
        let sx: i32 = sign_i32(cx);
        let sz: i32 = sign_i32(cz);
        let dx: i32 = if sx > 0 {
            half
        } else if sx < 0 {
            -half
        } else {
            0
        };
        let dz: i32 = if sz > 0 {
            half
        } else if sz < 0 {
            -half
        } else {
            0
        };
        proof {
            let (s, h) = (num::sign(cx as int), over as int / 2);
            assert(s * h == dx) by (nonlinear_arith)
                requires
                    s == 1 && dx == h || s == -1 && dx == -h || s == 0 && dx == 0,
            ;
            let t = num::sign(cz as int);
            assert(t * h == dz) by (nonlinear_arith)
                requires
                    t == 1 && dz == h || t == -1 && dz == -h || t == 0 && dz == 0,
            ;
        }
        (cx - dx, cz - dz)
    } else {
        (cx, cz)
    }
}

// ---- looking ---------------------------------------------------------------

/// A camera at `eye` looking along `yaw` with `pitch` below the horizontal.
pub open spec fn looking(t: Angles, eye: V3, yaw: u16, pitch: u16) -> Sight {
    let (sp, cp) = (t.sin(pitch), t.cos(pitch));
    let (sy, cy) = (t.sin(yaw), t.cos(yaw));
    Sight {
        right: vec3::v3(cy, 0, -sy),
        down: vec3::v3(q12(-sy, sp), cp, q12(-cy, sp)),
        fwd: vec3::v3(q12(sy, cp), sp, q12(cy, cp)),
        eye,
    }
}

impl Sight {
    /// Every axis is a Q12 direction.
    pub open spec fn wf(self) -> bool {
        &&& self.right.within(4096)
        &&& self.down.within(4096)
        &&& self.fwd.within(4096)
    }
}

/// A camera at `eye` looking along `yaw` with `pitch` below the horizontal.
pub fn look_from<F: Fn(i32, i32) -> u16>(
    trig: &Trig<F>,
    eye: V3,
    yaw: u16,
    pitch: u16,
) -> (r: Sight)
    requires
        trig.wf(),
    ensures
        r == looking(trig.model(), eye, yaw, pitch),
        r.wf(),
{
    let sp: i32 = trig.sin_q12(pitch);
    let cp: i32 = trig.cos_q12(pitch);
    let sy: i32 = trig.sin_q12(yaw);
    let cy: i32 = trig.cos_q12(yaw);
    Sight {
        right: V3 { x: cy, y: 0, z: -sy },
        down: V3 { x: mul12(-sy, sp), y: cp, z: mul12(-cy, sp) },
        fwd: V3 { x: mul12(sy, cp), y: sp, z: mul12(cy, cp) },
        eye,
    }
}

// ---- following -------------------------------------------------------------

/// What a camera is asked to film.
#[derive(Copy, Clone, Debug)]
pub struct Scene {
    /// The ball.
    pub ball: Ball,
    /// The car it follows.
    pub car: Car,
    /// Aim at the ball rather than past the nose.
    pub ball_cam: bool,
    /// Give up some of the aim to keep the car in frame.
    pub hold_car: bool,
    /// Stand close, to inspect the wheels.
    pub close: bool,
}

impl Scene {
    /// The car and the ball are where a camera can film them.
    pub open spec fn in_range(self) -> bool {
        &&& self.ball.p.within(FILM_LIMIT as int)
        &&& self.car.p.within(FILM_LIMIT as int)
        &&& self.car.up.within(4096)
    }

    /// Follow distance.
    pub open spec fn dist(self) -> int {
        if self.close {
            430
        } else {
            800
        }
    }

    /// Height over the car.
    pub open spec fn height(self) -> int {
        if self.close {
            190
        } else {
            330
        }
    }

    /// The closest the camera stands on the ground plane, where there is room.
    pub open spec fn min_flat(self) -> int {
        if self.close {
            400
        } else {
            650
        }
    }

    /// How far out along the surface's normal it stands on a wall.
    pub open spec fn wall_boom(self) -> int {
        if self.close {
            190
        } else {
            720
        }
    }

    /// How much of the chase distance turns vertical straight up a wall.
    pub open spec fn wall_trail(self) -> int {
        if self.close {
            0
        } else {
            500
        }
    }

    /// Where the car is, on the ground plane.
    pub open spec fn at(self) -> (int, int) {
        (whole(self.car.p.x as int), whole(self.car.p.z as int))
    }

    /// The car's nose.
    pub open spec fn nose(self, t: Angles) -> V3 {
        car::frame(t, self.car.up, self.car.yaw).2
    }
}

/// The line the camera goes by: the car's own heading, or the line to the ball
/// while they are far enough apart.
#[verifier::opaque]
pub open spec fn line_yaw(t: Angles, s: Scene) -> u16 {
    let fwd = s.nose(t);
    let dx = whole(s.ball.p.x - s.car.p.x);
    let dz = whole(s.ball.p.z - s.car.p.z);
    if !s.ball_cam || squares(dx, dz) <= 90_000 {
        t.atan2(fwd.x as int, fwd.z as int)
    } else {
        t.atan2(dx, dz)
    }
}

/// The way the camera follows: along its line, or round from it up close.
pub open spec fn follow_yaw(t: Angles, s: Scene) -> u16 {
    if s.close {
        ((line_yaw(t, s) + 512) % 65536) as u16
    } else {
        line_yaw(t, s)
    }
}

/// How far the car's surface has rolled away from the pitch, Q12.
pub open spec fn wall_amount(s: Scene) -> int {
    4096 - num::clamp(s.car.up.y as int, 0, 4096)
}

/// How far out the camera stands along the surface's normal.
pub open spec fn surface_boom(s: Scene) -> int {
    s.height() + ((s.wall_boom() - s.height()) * wall_amount(s)) / 4096
}

/// How far it trails on the ground plane. A nose pointing up a wall leaves
/// little of it.
#[verifier::opaque]
pub open spec fn flat_trail(t: Angles, s: Scene) -> int {
    let fwd = s.nose(t);
    let flat = if s.ball_cam {
        4096
    } else {
        num::min(num::root(squares(fwd.x as int, fwd.z as int)), 4096)
    };
    (s.dist() * flat) / 4096
}

/// Behind the car, then pulled back inside.
#[verifier::opaque]
pub open spec fn behind(t: Angles, s: Scene) -> (int, int) {
    let yaw = follow_yaw(t, s);
    let trail = flat_trail(t, s);
    let boom = surface_boom(s);
    kept(
        s.at().0 - q12(t.sin(yaw), trail) + q12(s.car.up.x as int, boom),
        s.at().1 - q12(t.cos(yaw), trail) + q12(s.car.up.z as int, boom),
    )
}

/// A spot along the wall from `p`, `side` to one hand or the other.
pub open spec fn aside(t: Angles, s: Scene, p: (int, int), side: int, sign: int) -> (int, int) {
    let yaw = follow_yaw(t, s);
    if sign > 0 {
        kept(p.0 + q12(t.cos(yaw), side), p.1 - q12(t.sin(yaw), side))
    } else {
        kept(p.0 - q12(t.cos(yaw), side), p.1 + q12(t.sin(yaw), side))
    }
}

/// Where the camera wants to stand: behind the car, or slid along the wall
/// where there is no room behind it, to whichever hand leaves it further.
#[verifier::opaque]
pub open spec fn station(t: Angles, s: Scene) -> (int, int) {
    let p = behind(t, s);
    let (x, z) = s.at();
    let flat = apart(x, z, p.0, p.1);
    if flat >= s.min_flat() {
        p
    } else {
        let side = num::root(s.min_flat() * s.min_flat() - flat * flat);
        let a = aside(t, s, p, side, 1);
        let b = aside(t, s, p, side, -1);
        if squares(x - a.0, z - a.1) >= squares(x - b.0, z - b.1) {
            a
        } else {
            b
        }
    }
}

/// How far below the car it hangs while climbing, and over it otherwise.
#[verifier::opaque]
pub open spec fn hang(t: Angles, s: Scene) -> int {
    q12(q12(s.nose(t).y as int, s.wall_trail()), wall_amount(s)) - q12(
        s.car.up.y as int,
        s.height(),
    )
}

/// Where the camera wants to stand, relative to its car.
pub open spec fn wanted(t: Angles, s: Scene) -> V3 {
    let p = station(t, s);
    vec3::v3(p.0 - s.at().0, hang(t, s), p.1 - s.at().1)
}

/// Where it does stand, relative to its car: a step at a time.
pub open spec fn boom(t: Angles, s: Scene, prev: CameraState) -> V3 {
    let want = wanted(t, s);
    if !prev.valid {
        want
    } else {
        vec3::v3(
            eased(prev.offset.x as int, want.x as int),
            eased(prev.offset.y as int, want.y as int),
            eased(prev.offset.z as int, want.z as int),
        )
    }
}

/// Where the camera stands.
#[verifier::opaque]
pub open spec fn eye(t: Angles, s: Scene, prev: CameraState) -> V3 {
    let b = boom(t, s, prev);
    let p = kept(s.at().0 + b.x, s.at().1 + b.z);
    vec3::v3(p.0, -whole(s.car.p.y as int) + b.y, p.1)
}

/// What car cam looks at: just past the nose.
pub open spec fn nose_aim(t: Angles, s: Scene) -> V3 {
    let fwd = s.nose(t);
    vec3::v3(
        s.at().0 + q12(fwd.x as int, 120),
        -whole(s.car.p.y as int) - q12(s.car.up.y as int, CAR_HALF_H as int) - q12(
            q12(fwd.y as int, 120),
            wall_amount(s),
        ),
        s.at().1 + q12(fwd.z as int, 120),
    )
}

/// What ball cam looks at: the ball, at half its rise.
pub open spec fn ball_aim(s: Scene) -> V3 {
    let car_y = -whole(s.car.p.y as int);
    let ball_y = -whole(s.ball.p.y as int);
    vec3::v3(
        whole(s.ball.p.x as int),
        car_y + num::tdiv(ball_y - car_y, 2),
        whole(s.ball.p.z as int),
    )
}

/// What it looks at with the ball on the lens: down the line it follows.
pub open spec fn fallback_aim(t: Angles, s: Scene) -> V3 {
    let yaw = follow_yaw(t, s);
    vec3::v3(
        s.at().0 + q12(t.sin(yaw), 900),
        -whole(s.car.p.y as int),
        s.at().1 + q12(t.cos(yaw), 900),
    )
}

/// What the camera looks at from `from`.
#[verifier::opaque]
pub open spec fn aim(t: Angles, s: Scene, from: V3) -> V3 {
    if !s.ball_cam {
        nose_aim(t, s)
    } else {
        let at = ball_aim(s);
        if apart(at.x as int, at.z as int, from.x as int, from.z as int) < 450 {
            fallback_aim(t, s)
        } else {
            at
        }
    }
}

/// The tilt from one point to another.
pub open spec fn tilt_to(t: Angles, from: V3, to: V3) -> int {
    let flat = num::max(apart(to.x as int, to.z as int, from.x as int, from.z as int), 1);
    tilt(t.atan2(to.y - from.y, flat))
}

/// An angle moved towards another by as much as it is out of reach.
pub open spec fn held_within(a: int, delta: int, reach: int) -> int {
    a + num::sign(delta) * num::max(num::abs(delta) - reach, 0)
}

/// Where the car is, in render space.
pub open spec fn car_at(s: Scene) -> V3 {
    vec3::v3(s.at().0, -whole(s.car.p.y as int), s.at().1)
}

/// How far down the camera wants to look.
#[verifier::opaque]
pub open spec fn wanted_pitch(t: Angles, s: Scene, from: V3, to: V3) -> int {
    let straight = tilt_to(t, from, to);
    let held = if s.ball_cam && s.hold_car {
        held_within(straight, tilt_to(t, from, car_at(s)) - straight, CAM_BALL_CAR_PITCH as int)
    } else {
        straight
    };
    let lowest = CAM_PITCH_MIN + (-360 * wall_amount(s)) / 4096;
    num::clamp(held, lowest, CAM_PITCH_MAX as int)
}

/// Which way the camera wants to look.
#[verifier::opaque]
pub open spec fn wanted_yaw(t: Angles, s: Scene, from: V3, to: V3) -> u16 {
    let straight = t.atan2(to.x - from.x, to.z - from.z);
    if s.ball_cam && s.hold_car {
        let car_yaw = t.atan2(s.at().0 - from.x, s.at().1 - from.z);
        one_turn(
            held_within(
                straight as int,
                swing(straight as int, car_yaw as int),
                CAM_BALL_CAR_YAW as int,
            ),
        ) as u16
    } else {
        straight
    }
}

/// A camera's memory of this frame.
pub open spec fn remembered(t: Angles, s: Scene, prev: CameraState) -> CameraState {
    let from = eye(t, s, prev);
    let to = aim(t, s, from);
    let yaw = wanted_yaw(t, s, from, to);
    let pitch = wanted_pitch(t, s, from, to);
    CameraState {
        valid: true,
        offset: vec3::v3(
            from.x - s.at().0,
            from.y + whole(s.car.p.y as int),
            from.z - s.at().1,
        ),
        yaw: if prev.valid {
            one_turn(
                prev.yaw + num::clamp(
                    swing(prev.yaw as int, yaw as int),
                    -CAM_STEP as int,
                    CAM_STEP as int,
                ),
            ) as u16
        } else {
            yaw
        },
        pitch: if prev.valid {
            eased(prev.pitch as int, pitch) as i32
        } else {
            pitch as i32
        },
    }
}

/// The view of this frame.
pub open spec fn filmed(t: Angles, s: Scene, prev: CameraState) -> Sight {
    let now = remembered(t, s, prev);
    looking(t, eye(t, s, prev), now.yaw, one_turn(now.pitch as int) as u16)
}

impl CameraState {
    /// Within what any frame leaves behind.
    pub open spec fn wf(self) -> bool {
        &&& -16000 <= self.offset.x <= 16000
        &&& -2000 <= self.offset.y <= 2000
        &&& -16000 <= self.offset.z <= 16000
        &&& CAM_WALL_PITCH_MIN <= self.pitch <= CAM_PITCH_MAX
    }

    /// No frame drawn yet.
    pub fn empty() -> (r: Self)
        ensures
            r == (CameraState { valid: false, offset: vec3::zero3(), yaw: 0, pitch: 0 }),
            r.wf(),
    {
        CameraState { valid: false, offset: V3::zero(), yaw: 0, pitch: 0 }
    }
}

fn find_line_yaw<F: Fn(i32, i32) -> u16>(trig: &Trig<F>, s: &Scene, fwd: V3) -> (r: u16)
    requires
        trig.wf(),
        s.in_range(),
        fwd == s.nose(trig.model()),
    ensures
        r == line_yaw(trig.model(), *s),
{
    proof {
        reveal(line_yaw);
    }
    if !s.ball_cam {
        return trig.atan2_q12(fwd.x, fwd.z);
    }
    let dx: i32 = to_whole(s.ball.p.x - s.car.p.x);
    let dz: i32 = to_whole(s.ball.p.z - s.car.p.z);
    if square_sum(dx, dz) <= CAM_MIN_SEP * CAM_MIN_SEP {
        trig.atan2_q12(fwd.x, fwd.z)
    } else {
        trig.atan2_q12(dx, dz)
    }
}

fn find_follow_yaw<F: Fn(i32, i32) -> u16>(trig: &Trig<F>, s: &Scene, fwd: V3) -> (r: u16)
    requires
        trig.wf(),
        s.in_range(),
        fwd == s.nose(trig.model()),
    ensures
        r == follow_yaw(trig.model(), *s),
{
    let line: u16 = find_line_yaw(trig, s, fwd);
    if s.close {
        line.wrapping_add(CLOSE_TURN)
    } else {
        line
    }
}

fn find_trail<F: Fn(i32, i32) -> u16>(trig: &Trig<F>, s: &Scene, fwd: V3) -> (r: i32)
    requires
        trig.wf(),
        fwd == s.nose(trig.model()),
        fwd.within(4096),
    ensures
        r == flat_trail(trig.model(), *s),
        0 <= r <= 800,
{
    proof {
        reveal(flat_trail);
    }
    let flat: i32 = if s.ball_cam {
        4096
    } else {
        min_i32(isqrt_i32(square_sum(fwd.x, fwd.z)), 4096)
    };
    let dist: i32 = if s.close {
        CLOSE_DIST
    } else {
        CAM_DIST
    };
    assert(0 <= dist * flat <= 800 * 4096) by (nonlinear_arith)
        requires
            0 <= dist <= 800,
            0 <= flat <= 4096,
    ;
    dist * flat / 4096
}

fn find_wall(s: &Scene) -> (r: i32)
    ensures
        r == wall_amount(*s),
        0 <= r <= 4096,
{
    4096 - clamp_i32(s.car.up.y, 0, 4096)
}

fn find_behind<F: Fn(i32, i32) -> u16>(
    trig: &Trig<F>,
    s: &Scene,
    yaw: u16,
    trail: i32,
) -> (r: (i32, i32))
    requires
        trig.wf(),
        s.in_range(),
        yaw == follow_yaw(trig.model(), *s),
        trail == flat_trail(trig.model(), *s),
        0 <= trail <= 800,
    ensures
        (r.0 as int, r.1 as int) == behind(trig.model(), *s),
        -3916 <= r.0 <= 3916,
        -4940 <= r.1 <= 4940,
{
    proof {
        reveal(behind);
    }
    let wall: i32 = find_wall(s);
    proof {
        let (rise, w) = (s.wall_boom() - s.height(), wall as int);
        assert(rise * w == if s.close {
            0
        } else {
            390 * w
        }) by (nonlinear_arith)
            requires
                rise == if s.close {
                    0int
                } else {
                    390
                },
        ;
    }
    let boom: i32 = if s.close {
        CLOSE_HEIGHT
    } else {
        CAM_HEIGHT + 390 * wall / 4096
    };
    let x: i32 = to_whole(s.car.p.x) - mul12(trig.sin_q12(yaw), trail) + mul12(s.car.up.x, boom);
    let z: i32 = to_whole(s.car.p.z) - mul12(trig.cos_q12(yaw), trail) + mul12(s.car.up.z, boom);
    keep_inside(x, z)
}

fn find_aside<F: Fn(i32, i32) -> u16>(
    trig: &Trig<F>,
    s: &Scene,
    yaw: u16,
    p: (i32, i32),
    side: i32,
    sign: i32,
) -> (r: (i32, i32))
    requires
        trig.wf(),
        yaw == follow_yaw(trig.model(), *s),
        -4940 <= p.0 <= 4940,
        -4940 <= p.1 <= 4940,
        0 <= side <= 1000,
    ensures
        (r.0 as int, r.1 as int) == aside(
            trig.model(),
            *s,
            (p.0 as int, p.1 as int),
            side as int,
            sign as int,
        ),
        -3916 <= r.0 <= 3916,
        -4940 <= r.1 <= 4940,
{
    let c: i32 = mul12(trig.cos_q12(yaw), side);
    let n: i32 = mul12(trig.sin_q12(yaw), side);
    if sign > 0 {
        keep_inside(p.0 + c, p.1 - n)
    } else {
        keep_inside(p.0 - c, p.1 + n)
    }
}

fn find_station<F: Fn(i32, i32) -> u16>(
    trig: &Trig<F>,
    s: &Scene,
    yaw: u16,
    p: (i32, i32),
) -> (r: (i32, i32))
    requires
        trig.wf(),
        s.in_range(),
        yaw == follow_yaw(trig.model(), *s),
        (p.0 as int, p.1 as int) == behind(trig.model(), *s),
        -3916 <= p.0 <= 3916,
        -4940 <= p.1 <= 4940,
    ensures
        (r.0 as int, r.1 as int) == station(trig.model(), *s),
        -3916 <= r.0 <= 3916,
        -4940 <= r.1 <= 4940,
{
    proof {
        reveal(station);
    }
    let x: i32 = to_whole(s.car.p.x);
    let z: i32 = to_whole(s.car.p.z);
    let flat: i32 = gap(x, z, p.0, p.1);
    let least: i32 = if s.close {
        CLOSE_MIN_FLAT_DIST
    } else {
        CAM_MIN_FLAT_DIST
    };
    if flat >= least {
        return p;
    }
    assert(0 <= flat * flat <= least * least <= 422_500) by (nonlinear_arith)
        requires
            0 <= flat < least <= 650,
    ;
    let side: i32 = isqrt_i32(least * least - flat * flat);
    assert(side <= 1000) by (nonlinear_arith)
        requires
            side * side <= 422_500,
            side >= 0,
    ;
    let a = find_aside(trig, s, yaw, p, side, 1);
    let b = find_aside(trig, s, yaw, p, side, -1);
    if square_sum(x - a.0, z - a.1) >= square_sum(x - b.0, z - b.1) {
        a
    } else {
        b
    }
}

fn find_hang<F: Fn(i32, i32) -> u16>(trig: &Trig<F>, s: &Scene, fwd: V3) -> (r: i32)
    requires
        trig.wf(),
        s.in_range(),
        fwd == s.nose(trig.model()),
        fwd.within(4096),
    ensures
        r == hang(trig.model(), *s),
        -1000 <= r <= 1000,
{
    proof {
        reveal(hang);
    }
    let wall: i32 = find_wall(s);
    let (trail, height): (i32, i32) = if s.close {
        (0, CLOSE_HEIGHT)
    } else {
        (CAM_WALL_TRAIL, CAM_HEIGHT)
    };
    let climb: i32 = mul12(fwd.y, trail);
    let lost: i32 = mul12(climb, wall);
    assert(-500 <= lost <= 500) by {
        lemma_part(climb as int, wall as int, 500);
    }
    lost - mul12(s.car.up.y, height)
}

/// A Q12 part of a value is no bigger than the value.
proof fn lemma_part(a: int, part: int, m: int)
    requires
        0 <= part <= 4096,
        0 <= m,
        -m <= a <= m,
    ensures
        -m <= q12(a, part) <= m,
{
    assert(-(m * 4096) <= a * part <= m * 4096) by (nonlinear_arith)
        requires
            0 <= part <= 4096,
            -m <= a <= m,
            0 <= m,
    ;
}

fn find_boom<F: Fn(i32, i32) -> u16>(
    trig: &Trig<F>,
    s: &Scene,
    prev: &CameraState,
    fwd: V3,
    yaw: u16,
) -> (r: V3)
    requires
        trig.wf(),
        s.in_range(),
        prev.wf(),
        fwd == s.nose(trig.model()),
        fwd.within(4096),
        yaw == follow_yaw(trig.model(), *s),
    ensures
        r == boom(trig.model(), *s, *prev),
        -16000 <= r.x <= 16000,
        -2000 <= r.y <= 2000,
        -16000 <= r.z <= 16000,
{
    let trail: i32 = find_trail(trig, s, fwd);
    let back = find_behind(trig, s, yaw, trail);
    let p = find_station(trig, s, yaw, back);
    let x: i32 = p.0 - to_whole(s.car.p.x);
    let y: i32 = find_hang(trig, s, fwd);
    let z: i32 = p.1 - to_whole(s.car.p.z);
    if !prev.valid {
        V3 { x, y, z }
    } else {
        V3 {
            x: ease(prev.offset.x, x),
            y: ease(prev.offset.y, y),
            z: ease(prev.offset.z, z),
        }
    }
}

fn find_eye<F: Fn(i32, i32) -> u16>(
    trig: &Trig<F>,
    s: &Scene,
    prev: &CameraState,
    fwd: V3,
    yaw: u16,
) -> (r: V3)
    requires
        trig.wf(),
        s.in_range(),
        prev.wf(),
        fwd == s.nose(trig.model()),
        fwd.within(4096),
        yaw == follow_yaw(trig.model(), *s),
    ensures
        r == eye(trig.model(), *s, *prev),
        -3916 <= r.x <= 3916,
        -4940 <= r.z <= 4940,
        num::abs(r.x as int) + num::abs(r.z as int) <= 7795,
        -2000 <= r.y + whole(s.car.p.y as int) <= 2000,
{
    proof {
        reveal(eye);
    }
    let b = find_boom(trig, s, prev, fwd, yaw);
    let p = keep_inside(to_whole(s.car.p.x) + b.x, to_whole(s.car.p.z) + b.z);
    V3 { x: p.0, y: -to_whole(s.car.p.y) + b.y, z: p.1 }
}

fn find_aim<F: Fn(i32, i32) -> u16>(
    trig: &Trig<F>,
    s: &Scene,
    fwd: V3,
    yaw: u16,
    from: V3,
) -> (r: V3)
    requires
        trig.wf(),
        s.in_range(),
        fwd == s.nose(trig.model()),
        fwd.within(4096),
        yaw == follow_yaw(trig.model(), *s),
        -5000 <= from.x <= 5000,
        -5000 <= from.z <= 5000,
    ensures
        r == aim(trig.model(), *s, from),
        -10000 <= r.x <= 10000,
        -20000 <= r.y <= 20000,
        -10000 <= r.z <= 10000,
{
    proof {
        reveal(aim);
    }
    let x: i32 = to_whole(s.car.p.x);
    let y: i32 = -to_whole(s.car.p.y);
    let z: i32 = to_whole(s.car.p.z);
    if !s.ball_cam {
        let wall: i32 = find_wall(s);
        let rise: i32 = mul12(fwd.y, CAM_CAR_AIM);
        let lost: i32 = mul12(rise, wall);
        proof {
            lemma_part(rise as int, wall as int, 120);
        }
        return V3 {
            x: x + mul12(fwd.x, CAM_CAR_AIM),
            y: y - mul12(s.car.up.y, CAR_HALF_H) - lost,
            z: z + mul12(fwd.z, CAM_CAR_AIM),
        };
    }
    let bx: i32 = to_whole(s.ball.p.x);
    let by: i32 = -to_whole(s.ball.p.y);
    let bz: i32 = to_whole(s.ball.p.z);
    if gap(bx, bz, from.x, from.z) < CAM_FALLBACK_AIM / 2 {
        V3 {
            x: x + mul12(trig.sin_q12(yaw), CAM_FALLBACK_AIM),
            y,
            z: z + mul12(trig.cos_q12(yaw), CAM_FALLBACK_AIM),
        }
    } else {
        V3 { x: bx, y: y + (by - y) / 2, z: bz }
    }
}

fn find_tilt<F: Fn(i32, i32) -> u16>(trig: &Trig<F>, from: V3, to: V3) -> (r: i32)
    requires
        trig.wf(),
        -16000 <= from.x <= 16000,
        -32000 <= from.y <= 32000,
        -16000 <= from.z <= 16000,
        -16000 <= to.x <= 16000,
        -32000 <= to.y <= 32000,
        -16000 <= to.z <= 16000,
    ensures
        r == tilt_to(trig.model(), from, to),
        -2048 <= r <= 65535,
{
    let flat: i32 = max_i32(gap(to.x, to.z, from.x, from.z), 1);
    to_tilt(trig.atan2_q12(to.y - from.y, flat))
}

fn hold_within(a: i32, delta: i32, reach: i32) -> (r: i32)
    requires
        -0x10_0000 <= a <= 0x10_0000,
        -0x10_0000 <= delta <= 0x10_0000,
        0 <= reach <= 0x1000,
    ensures
        r == held_within(a as int, delta as int, reach as int),
        -0x20_0000 <= r <= 0x20_0000,
{
    let shift: i32 = max_i32(abs_i32(delta) - reach, 0);
    proof {
        let (s, h) = (num::sign(delta as int), shift as int);
        assert(s * h == if s > 0 {
            h
        } else if s < 0 {
            -h
        } else {
            0
        }) by (nonlinear_arith)
            requires
                s == 1 || s == -1 || s == 0,
        ;
    }
    if delta > 0 {
        a + shift
    } else if delta < 0 {
        a - shift
    } else {
        a
    }
}

fn find_pitch<F: Fn(i32, i32) -> u16>(trig: &Trig<F>, s: &Scene, from: V3, to: V3) -> (r: i32)
    requires
        trig.wf(),
        s.in_range(),
        -16000 <= from.x <= 16000,
        -32000 <= from.y <= 32000,
        -16000 <= from.z <= 16000,
        -16000 <= to.x <= 16000,
        -32000 <= to.y <= 32000,
        -16000 <= to.z <= 16000,
    ensures
        r == wanted_pitch(trig.model(), *s, from, to),
        CAM_WALL_PITCH_MIN <= r <= CAM_PITCH_MAX,
{
    proof {
        reveal(wanted_pitch);
    }
    let straight: i32 = find_tilt(trig, from, to);
    let held: i32 = if s.ball_cam && s.hold_car {
        let there = V3 {
            x: to_whole(s.car.p.x),
            y: -to_whole(s.car.p.y),
            z: to_whole(s.car.p.z),
        };
        let car_pitch: i32 = find_tilt(trig, from, there);
        hold_within(straight, car_pitch - straight, CAM_BALL_CAR_PITCH)
    } else {
        straight
    };
    let wall: i32 = find_wall(s);
    let lowest: i32 = CAM_PITCH_MIN + mul_shift12(CAM_WALL_PITCH_MIN - CAM_PITCH_MIN, wall);
    clamp_i32(held, lowest, CAM_PITCH_MAX)
}

fn find_yaw<F: Fn(i32, i32) -> u16>(trig: &Trig<F>, s: &Scene, from: V3, to: V3) -> (r: u16)
    requires
        trig.wf(),
        s.in_range(),
        -16000 <= from.x <= 16000,
        -16000 <= from.z <= 16000,
        -16000 <= to.x <= 16000,
        -16000 <= to.z <= 16000,
    ensures
        r == wanted_yaw(trig.model(), *s, from, to),
{
    proof {
        reveal(wanted_yaw);
    }
    let straight: u16 = trig.atan2_q12(to.x - from.x, to.z - from.z);
    if s.ball_cam && s.hold_car {
        let x: i32 = to_whole(s.car.p.x);
        let z: i32 = to_whole(s.car.p.z);
        let car_yaw: u16 = trig.atan2_q12(x - from.x, z - from.z);
        let delta: i32 = swing_to(straight as i32, car_yaw as i32);
        into_turn(hold_within(straight as i32, delta, CAM_BALL_CAR_YAW)) as u16
    } else {
        straight
    }
}

/// The chase camera for one player, and what it remembers of this frame.
///
/// It stands behind its car and inside the arena, and moves there a step at a
/// time. Ball cam aims at the ball; with `hold_car` it gives up just enough of
/// that to keep the car in frame.
pub fn camera<F: Fn(i32, i32) -> u16>(
    trig: &Trig<F>,
    s: &Scene,
    prev: &CameraState,
) -> (r: (Sight, CameraState))
    requires
        trig.wf(),
        s.in_range(),
        prev.wf(),
    ensures
        r.0 == filmed(trig.model(), *s, *prev),
        r.1 == remembered(trig.model(), *s, *prev),
        r.0.wf(),
        r.0.eye.within(16000),
        r.1.wf(),
{
    let (_side, _up, fwd) = s.car.basis(trig);
    let follow: u16 = find_follow_yaw(trig, s, fwd);
    let from = find_eye(trig, s, prev, fwd, follow);
    let to = find_aim(trig, s, fwd, follow, from);
    let want_pitch: i32 = find_pitch(trig, s, from, to);
    let want_yaw: u16 = find_yaw(trig, s, from, to);
    let yaw: u16 = if prev.valid {
        let turn: i32 = swing_to(prev.yaw as i32, want_yaw as i32);
        into_turn(prev.yaw as i32 + clamp_i32(turn, -CAM_STEP, CAM_STEP)) as u16
    } else {
        want_yaw
    };
    let pitch: i32 = if prev.valid {
        ease(prev.pitch, want_pitch)
    } else {
        want_pitch
    };
    let now = CameraState {
        valid: true,
        offset: V3 {
            x: from.x - to_whole(s.car.p.x),
            y: from.y + to_whole(s.car.p.y),
            z: from.z - to_whole(s.car.p.z),
        },
        yaw,
        pitch,
    };
    (look_from(trig, from, yaw, into_turn(pitch) as u16), now)
}

/// The close camera: the chase camera's rules from half as far, a quarter of the
/// way round to the car's side, and at one height on any surface.
pub fn close_camera<F: Fn(i32, i32) -> u16>(
    trig: &Trig<F>,
    s: &Scene,
    prev: &CameraState,
) -> (r: (Sight, CameraState))
    requires
        trig.wf(),
        s.in_range(),
        prev.wf(),
    ensures
        r.0 == filmed(trig.model(), (Scene { close: true, ..*s }), *prev),
        r.1 == remembered(trig.model(), (Scene { close: true, ..*s }), *prev),
        r.0.wf(),
        r.0.eye.within(16000),
        r.1.wf(),
{
    camera(trig, &Scene { close: true, ..*s }, prev)
}

// ---- laws ------------------------------------------------------------------

/// A point kept inside is inside the walls and the corner chamfers, with room
/// to spare for the lens, and one that was inside already stays put.
pub proof fn law_kept_points_are_inside(x: int, z: int)
    ensures
        num::abs(kept(x, z).0) <= HALF_X - CAM_WALL_MARGIN,
        num::abs(kept(x, z).1) <= HALF_Z - CAM_WALL_MARGIN,
        num::abs(kept(x, z).0) + num::abs(kept(x, z).1) <= 7795,
        num::abs(x) <= 3916 && num::abs(z) <= 4940 && num::abs(x) + num::abs(z) <= 7794 ==> kept(
            x,
            z,
        ) == (x, z),
{
    let cx = num::clamp(x, -3916, 3916);
    let cz = num::clamp(z, -4940, 4940);
    let over = num::abs(cx) + num::abs(cz) - 7794;
    let h = over / 2;
    let (s, t) = (num::sign(cx), num::sign(cz));
    assert(s * h == if s > 0 {
        h
    } else if s < 0 {
        -h
    } else {
        0
    }) by (nonlinear_arith)
        requires
            s == 1 || s == -1 || s == 0,
    ;
    assert(t * h == if t > 0 {
        h
    } else if t < 0 {
        -h
    } else {
        0
    }) by (nonlinear_arith)
        requires
            t == 1 || t == -1 || t == 0,
    ;
}

/// The lens never leaves the arena, however hard it is driven at a wall: it
/// stays a margin inside the walls and one and a half of it, give or take one
/// unit, inside the corner planes.
pub proof fn law_the_lens_stays_inside(t: Angles, s: Scene, prev: CameraState)
    requires
        num::abs(s.at().0) <= 8192,
        num::abs(s.at().1) <= 8192,
    ensures
        num::abs(eye(t, s, prev).x as int) <= HALF_X - CAM_WALL_MARGIN,
        num::abs(eye(t, s, prev).z as int) <= HALF_Z - CAM_WALL_MARGIN,
        num::abs(eye(t, s, prev).x as int) + num::abs(eye(t, s, prev).z as int) <= 7795,
{
    reveal(eye);
    let b = boom(t, s, prev);
    law_kept_points_are_inside(s.at().0 + b.x, s.at().1 + b.z);
}

/// Once a frame has been drawn, the view turns and tips by no more than a step
/// a frame: a discontinuous surface cannot snap it round.
pub proof fn law_the_view_never_snaps(t: Angles, s: Scene, prev: CameraState)
    requires
        prev.valid,
        prev.wf(),
        prev.yaw < 4096,
    ensures
        -CAM_STEP <= swing(prev.yaw as int, remembered(t, s, prev).yaw as int) <= CAM_STEP,
        num::abs(remembered(t, s, prev).pitch - prev.pitch) <= CAM_STEP,
        remembered(t, s, prev).yaw < 4096,
{
    reveal(wanted_pitch);
}

/// Easing gets there: it stops at its target, and never passes it.
pub proof fn law_easing_arrives(from: int, to: int)
    ensures
        num::abs(to - from) <= CAM_STEP ==> eased(from, to) == to,
        num::abs(to - eased(from, to)) <= num::abs(to - from),
        num::abs(eased(from, to) - from) <= CAM_STEP,
{
}

} // verus!
