//! Rotation matrices in Q12, as the renderer's objects use them.

use vstd::prelude::*;
use crate::num;
use crate::num::{clamp_i32, shift12, wide_mul};
use crate::trig::{Angles, Trig};
use crate::vec3;
use crate::vec3::V3;

verus! {

/// A three by three matrix in Q12, by rows.
#[derive(Copy, Clone, Debug, PartialEq, Eq, Structural)]
pub struct Mat3 {
    /// The row that gives X.
    pub x: V3,
    /// The row that gives Y.
    pub y: V3,
    /// The row that gives Z.
    pub z: V3,
}

impl Mat3 {
    /// No entry is larger than this.
    pub open spec fn within(self, n: int) -> bool {
        self.x.within(n) && self.y.within(n) && self.z.within(n)
    }

    /// The matrix that reflects Y, from up to down.
    pub open spec fn reflect_y() -> Mat3 {
        Mat3 { x: vec3::v3(4096, 0, 0), y: vec3::v3(0, -4096, 0), z: vec3::v3(0, 0, 4096) }
    }

    /// The matrix that leaves everything alone.
    pub open spec fn unturned() -> Mat3 {
        Mat3 { x: vec3::v3(4096, 0, 0), y: vec3::v3(0, 4096, 0), z: vec3::v3(0, 0, 4096) }
    }

    /// Maps an object's Y, which is up, onto the drawn Y, which is down.
    pub fn flip_y() -> (r: Self)
        ensures
            r == Self::reflect_y(),
    {
        Mat3 { x: V3::new(4096, 0, 0), y: V3::new(0, -4096, 0), z: V3::new(0, 0, 4096) }
    }

    /// The identity.
    pub fn identity() -> (r: Self)
        ensures
            r == Self::unturned(),
    {
        Mat3 { x: V3::new(4096, 0, 0), y: V3::new(0, 4096, 0), z: V3::new(0, 0, 4096) }
    }
}

/// A yaw about Y, taking local +Z onto `(sin a, 0, cos a)`.
pub open spec fn yawed(t: Angles, a: u16) -> Mat3 {
    let (s, c) = (t.sin(a), t.cos(a));
    Mat3 { x: vec3::v3(c, 0, s), y: vec3::v3(0, 4096, 0), z: vec3::v3(-s, 0, c) }
}

/// A roll about X.
pub open spec fn rolled(t: Angles, a: u16) -> Mat3 {
    let (s, c) = (t.sin(a), t.cos(a));
    Mat3 { x: vec3::v3(4096, 0, 0), y: vec3::v3(0, c, -s), z: vec3::v3(0, s, c) }
}

/// A yaw about Y from a Q0.12 angle, taking local +Z onto `(sin a, 0, cos a)`.
pub fn rot_y_q12<F: Fn(i32, i32) -> u16>(trig: &Trig<F>, a: u16) -> (r: Mat3)
    requires
        trig.wf(),
    ensures
        r == yawed(trig.model(), a),
        r.within(4096),
{
    let s: i32 = trig.sin_q12(a);
    let c: i32 = trig.cos_q12(a);
    Mat3 { x: V3::new(c, 0, s), y: V3::new(0, 4096, 0), z: V3::new(-s, 0, c) }
}

/// A roll about X, which for a rolling ball is the axis it turns on.
pub fn rot_x_q12<F: Fn(i32, i32) -> u16>(trig: &Trig<F>, a: u16) -> (r: Mat3)
    requires
        trig.wf(),
    ensures
        r == rolled(trig.model(), a),
        r.within(4096),
{
    let s: i32 = trig.sin_q12(a);
    let c: i32 = trig.cos_q12(a);
    Mat3 { x: V3::new(4096, 0, 0), y: V3::new(0, c, -s), z: V3::new(0, s, c) }
}

/// A vector turned by a matrix.
pub open spec fn turned(m: Mat3, v: V3) -> V3 {
    vec3::v3(vec3::dot(m.x, v), vec3::dot(m.y, v), vec3::dot(m.z, v))
}

fn row(r: V3, v: V3) -> (o: i32)
    requires
        r.within(32768),
        v.within(0x1_0000),
    ensures
        o == vec3::dot(r, v),
        -0x20_0000 <= o <= 0x20_0000,
{
    proof {
        reveal(vec3::dot);
        num::lemma_mul_bound(r.x as int, v.x as int, 32768, 0x1_0000);
        num::lemma_mul_bound(r.y as int, v.y as int, 32768, 0x1_0000);
        num::lemma_mul_bound(r.z as int, v.z as int, 32768, 0x1_0000);
    }
    shift12(wide_mul(r.x, v.x) + wide_mul(r.y, v.y) + wide_mul(r.z, v.z))
}

/// A vector turned by a matrix, Q12.
pub fn apply(m: &Mat3, v: V3) -> (r: V3)
    requires
        m.within(32768),
        v.within(0x1_0000),
    ensures
        r == turned(*m, v),
        r.within(0x20_0000),
{
    V3::new(row(m.x, v), row(m.y, v), row(m.z, v))
}

/// Multiplies matrices. The product itself is worked out outside.
pub struct Product<M> {
    multiply: M,
}

/// `f` may be asked about every pair.
pub open spec fn multiplies_all<M: Fn(Mat3, Mat3) -> Mat3>(f: M) -> bool {
    forall|a: Mat3, b: Mat3| #[trigger] f.requires((a, b))
}

/// `f` gives each pair one product.
pub open spec fn one_product<M: Fn(Mat3, Mat3) -> Mat3>(f: M) -> bool {
    forall|a: Mat3, b: Mat3, p: Mat3, q: Mat3| #[trigger]
        f.ensures((a, b), p) && #[trigger] f.ensures((a, b), q) ==> p == q
}

/// `f` gives only what the hardware's registers hold.
pub open spec fn holds_products<M: Fn(Mat3, Mat3) -> Mat3>(f: M) -> bool {
    forall|a: Mat3, b: Mat3, p: Mat3| #[trigger] f.ensures((a, b), p) ==> p.within(32768)
}

impl<M: Fn(Mat3, Mat3) -> Mat3> Product<M> {
    /// The product of two matrices.
    pub closed spec fn of(&self, a: Mat3, b: Mat3) -> Mat3 {
        choose|p: Mat3| self.multiply.ensures((a, b), p)
    }

    /// Every pair has one product, and it fits.
    pub closed spec fn wf(&self) -> bool {
        &&& multiplies_all(self.multiply)
        &&& one_product(self.multiply)
        &&& holds_products(self.multiply)
    }

    /// Takes the multiplication.
    pub fn new(multiply: M) -> (r: Self)
        requires
            multiplies_all(multiply),
            one_product(multiply),
            holds_products(multiply),
        ensures
            r.wf(),
            forall|a: Mat3, b: Mat3, p: Mat3| #[trigger]
                multiply.ensures((a, b), p) ==> r.of(a, b) == p,
    {
        Product { multiply }
    }

    /// The product of two matrices.
    pub fn mul(&self, a: Mat3, b: Mat3) -> (r: Mat3)
        requires
            self.wf(),
        ensures
            r == self.of(a, b),
            r.within(32768),
    {
        (self.multiply)(a, b)
    }
}

/// One entry of an object's matrix, held to what the hardware's register can.
pub fn entry(v: i32) -> (r: i32)
    ensures
        r == num::clamp(v as int, -32767, 32767),
        -32767 <= r <= 32767,
{
    clamp_i32(v, -32767, 32767)
}

/// A yaw turns +Z onto its heading and leaves up alone, and a roll leaves its
/// axle alone.
pub proof fn law_a_yaw_points_forward(t: Angles, a: u16)
    requires
        -4096 <= t.sin(a) <= 4096,
        -4096 <= t.cos(a) <= 4096,
    ensures
        turned(yawed(t, a), vec3::v3(0, 0, 4096)) == vec3::v3(t.sin(a), 0, t.cos(a)),
        turned(yawed(t, a), vec3::v3(0, 4096, 0)) == vec3::v3(0, 4096, 0),
        turned(rolled(t, a), vec3::v3(4096, 0, 0)) == vec3::v3(4096, 0, 0),
{
    let (y, r) = (yawed(t, a), rolled(t, a));
    lemma_axes(y.x);
    lemma_axes(y.y);
    lemma_axes(y.z);
    lemma_axes(r.x);
    lemma_axes(r.y);
    lemma_axes(r.z);
}

/// Dotted with one axis, a row gives the entry under it.
proof fn lemma_axes(r: V3)
    ensures
        vec3::dot(r, vec3::v3(4096, 0, 0)) == r.x,
        vec3::dot(r, vec3::v3(0, 4096, 0)) == r.y,
        vec3::dot(r, vec3::v3(0, 0, 4096)) == r.z,
{
    reveal(vec3::dot);
    let (x, y, z) = (vec3::v3(4096, 0, 0), vec3::v3(0, 4096, 0), vec3::v3(0, 0, 4096));
    assert(r.x * x.x + r.y * x.y + r.z * x.z == r.x * 4096) by (nonlinear_arith)
        requires
            x.x == 4096 && x.y == 0 && x.z == 0,
    ;
    assert(r.x * y.x + r.y * y.y + r.z * y.z == r.y * 4096) by (nonlinear_arith)
        requires
            y.x == 0 && y.y == 4096 && y.z == 0,
    ;
    assert(r.x * z.x + r.y * z.y + r.z * z.z == r.z * 4096) by (nonlinear_arith)
        requires
            z.x == 0 && z.y == 0 && z.z == 4096,
    ;
}

} // verus!
