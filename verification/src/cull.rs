//! Whole-object rejection: is any of a box worth projecting?
//!
//! Conservative on purpose: the box's reach is added on every test, so
//! something straddling a plane is kept.

use vstd::prelude::*;
use crate::camera::Sight;
use crate::num;
use crate::num::{abs_i32, max_i32, mul_div};
use crate::vec3;
use crate::vec3::{dot_q12, V3};
use crate::view::{Bounds, PROJ_H};

verus! {

/// A camera and the band of screen it draws into.
#[derive(Copy, Clone, Debug)]
pub struct Cull {
    /// The camera.
    pub view: Sight,
    /// The accept band.
    pub bounds: Bounds,
}

/// A vector with every part made positive.
pub open spec fn folded(v: V3) -> V3 {
    vec3::v3(num::abs(v.x as int), num::abs(v.y as int), num::abs(v.z as int))
}

/// How far a box with these half-extents reaches along `n`.
pub open spec fn reach(n: V3, h: V3) -> int {
    vec3::dot(h, folded(n))
}

/// How far into the screen the furthest corner of a box is.
pub open spec fn deepest(v: Sight, c: V3, h: V3) -> int {
    vec3::dot(vec3::sub3(c, v.eye), v.fwd) + reach(v.fwd, h)
}

/// A box is inside one pair of side planes: its nearest point across the screen
/// is within the frustum at its deepest.
pub open spec fn inside_planes(v: Sight, axis: V3, half: int, c: V3, h: V3) -> bool {
    let z = deepest(v, c, h);
    z > 0 && num::abs(vec3::dot(vec3::sub3(c, v.eye), axis)) - reach(axis, h) <= num::tdiv(
        z * half,
        PROJ_H as int,
    )
}

impl Cull {
    /// A camera that stands on the pitch or near it, and a band no wider than
    /// a screen with slack.
    pub open spec fn wf(self) -> bool {
        &&& self.view.wf()
        &&& self.view.eye.within(16000)
        &&& 0 <= self.bounds.half_w <= 1000
        &&& 0 <= self.bounds.half_h <= 1000
    }

    /// A box is in view from side to side.
    pub open spec fn sees(self, c: V3, h: V3) -> bool {
        inside_planes(self.view, self.view.right, self.bounds.half_w as int, c, h)
    }

    /// A box is in view from top to bottom.
    pub open spec fn sees_vertically(self, c: V3, h: V3) -> bool {
        inside_planes(self.view, self.view.down, self.bounds.half_h as int, c, h)
    }

    /// The larger of the two ground-plane distances to a point.
    pub open spec fn flat(self, x: int, z: int) -> int {
        num::max(num::abs(x - self.view.eye.x), num::abs(z - self.view.eye.z))
    }

    fn within_planes(&self, axis: V3, half: i32, c: V3, h: V3) -> (r: bool)
        requires
            self.wf(),
            axis.within(4096),
            0 <= half <= 1000,
            c.within(16000),
            h.within(16000),
        ensures
            r == inside_planes(self.view, axis, half as int, c, h),
    {
        let v = &self.view;
        let d = V3 { x: c.x - v.eye.x, y: c.y - v.eye.y, z: c.z - v.eye.z };
        let into = V3 { x: abs_i32(v.fwd.x), y: abs_i32(v.fwd.y), z: abs_i32(v.fwd.z) };
        let z: i32 = dot_q12(d, v.fwd) + dot_q12(h, into);
        if z <= 0 {
            return false;
        }
        let across = V3 { x: abs_i32(axis.x), y: abs_i32(axis.y), z: abs_i32(axis.z) };
        let x: i32 = dot_q12(d, axis);
        let spread: i32 = dot_q12(h, across);
        proof {
            num::lemma_mul_bound(z as int, half as int, 200_000, 1000);
            num::lemma_tdiv_bound(z * half, PROJ_H as int, 1_000_000);
        }
        abs_i32(x) - spread <= mul_div(z, half, PROJ_H)
    }

    /// Is any part of the box at `c` with half-extents `h` in view from side to
    /// side?
    pub fn visible(&self, c: V3, h: V3) -> (r: bool)
        requires
            self.wf(),
            c.within(16000),
            h.within(16000),
        ensures
            r == self.sees(c, h),
    {
        self.within_planes(self.view.right, self.bounds.half_w, c, h)
    }

    /// The vertical half of the same test.
    pub fn visible_vertically(&self, c: V3, h: V3) -> (r: bool)
        requires
            self.wf(),
            c.within(16000),
            h.within(16000),
        ensures
            r == self.sees_vertically(c, h),
    {
        self.within_planes(self.view.down, self.bounds.half_h, c, h)
    }

    /// The distance the detail bands key off: the larger of the two ground-plane
    /// distances.
    pub fn flat_distance(&self, x: i32, z: i32) -> (r: i32)
        requires
            self.wf(),
            -16000 <= x <= 16000,
            -16000 <= z <= 16000,
        ensures
            r == self.flat(x as int, z as int),
            0 <= r <= 32000,
    {
        max_i32(abs_i32(x - self.view.eye.x), abs_i32(z - self.view.eye.z))
    }
}

/// Where a point is in camera space: across, down and into the screen.
pub open spec fn camera_space(v: Sight, p: V3) -> V3 {
    let d = vec3::sub3(p, v.eye);
    vec3::v3(vec3::dot(d, v.right), vec3::dot(d, v.down), vec3::dot(d, v.fwd))
}

/// Where a point is in camera space.
pub fn to_camera(v: &Sight, p: V3) -> (r: V3)
    requires
        v.wf(),
        v.eye.within(16000),
        p.within(16000),
    ensures
        r == camera_space(*v, p),
        r.within(96000),
{
    let d = V3 { x: p.x - v.eye.x, y: p.y - v.eye.y, z: p.z - v.eye.z };
    V3 { x: dot_q12(d, v.right), y: dot_q12(d, v.down), z: dot_q12(d, v.fwd) }
}

/// A point is inside a box.
pub open spec fn in_box(c: V3, h: V3, p: V3) -> bool {
    &&& num::abs(p.x - c.x) <= h.x
    &&& num::abs(p.y - c.y) <= h.y
    &&& num::abs(p.z - c.z) <= h.z
}

/// A point is between a pair of side planes, by as much as rounding can take.
pub open spec fn well_inside(v: Sight, axis: V3, half: int, p: V3) -> bool {
    let z = vec3::dot(vec3::sub3(p, v.eye), v.fwd);
    z >= 2 && num::abs(vec3::dot(vec3::sub3(p, v.eye), axis)) + 2 <= num::tdiv(
        (z - 1) * half,
        PROJ_H as int,
    )
}

/// Nothing in view is dropped: a box with any point at least two units in front
/// of the camera and two units inside the side planes is kept. So is one that
/// reaches that far inside the planes above and below.
pub proof fn law_nothing_in_view_is_dropped(cull: Cull, c: V3, h: V3, p: V3)
    requires
        cull.wf(),
        c.within(16000),
        h.within(16000),
        in_box(c, h, p),
    ensures
        well_inside(cull.view, cull.view.right, cull.bounds.half_w as int, p) ==> cull.sees(c, h),
        well_inside(cull.view, cull.view.down, cull.bounds.half_h as int, p)
            ==> cull.sees_vertically(c, h),
{
    let v = cull.view;
    lemma_reach(v.eye, v.fwd, c, h, p);
    lemma_reach(v.eye, v.right, c, h, p);
    lemma_reach(v.eye, v.down, c, h, p);
    let z = vec3::dot(vec3::sub3(p, v.eye), v.fwd);
    let far = deepest(v, c, h);
    if z >= 2 {
        lemma_wider(z - 1, far, cull.bounds.half_w as int);
        lemma_wider(z - 1, far, cull.bounds.half_h as int);
    }
}

/// A deeper point has no less room to the sides.
proof fn lemma_wider(a: int, b: int, half: int)
    requires
        0 <= a <= b,
        0 <= half,
    ensures
        num::tdiv(a * half, 260) <= num::tdiv(b * half, 260),
{
    assert(0 <= a * half <= b * half) by (nonlinear_arith)
        requires
            0 <= a <= b,
            0 <= half,
    ;
}

/// A box reaches as far along a direction as any of its points, but for one unit
/// of rounding.
proof fn lemma_reach(eye: V3, n: V3, c: V3, h: V3, p: V3)
    requires
        eye.within(16000),
        n.within(4096),
        c.within(16000),
        h.within(16000),
        in_box(c, h, p),
    ensures
        vec3::dot(vec3::sub3(p, eye), n) - 1 <= vec3::dot(vec3::sub3(c, eye), n) + reach(n, h),
        num::abs(vec3::dot(vec3::sub3(c, eye), n)) - reach(n, h) <= num::abs(
            vec3::dot(vec3::sub3(p, eye), n),
        ) + 2,
{
    reveal(vec3::dot);
    let (d, e) = (vec3::sub3(c, eye), vec3::sub3(p, eye));
    let f = folded(n);
    lemma_part(e.x - d.x, h.x as int, n.x as int);
    lemma_part(e.y - d.y, h.y as int, n.y as int);
    lemma_part(e.z - d.z, h.z as int, n.z as int);
    assert((e.x - d.x) * n.x == e.x * n.x - d.x * n.x) by (nonlinear_arith);
    assert((e.y - d.y) * n.y == e.y * n.y - d.y * n.y) by (nonlinear_arith);
    assert((e.z - d.z) * n.z == e.z * n.z - d.z * n.z) by (nonlinear_arith);
}

/// One part of the reach.
proof fn lemma_part(x: int, h: int, n: int)
    requires
        num::abs(x) <= h,
    ensures
        num::abs(x * n) <= h * num::abs(n),
{
    assert(-(h * num::abs(n)) <= x * n <= h * num::abs(n)) by (nonlinear_arith)
        requires
            -h <= x <= h,
            num::abs(n) == n && n >= 0 || num::abs(n) == -n && n < 0,
    ;
}

} // verus!
