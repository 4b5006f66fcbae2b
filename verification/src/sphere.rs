//! The ball, drawn: a lit sphere of flat facets that rolls.

use vstd::prelude::*;
use crate::blast;
use crate::blast::to_drawn;
use crate::camera::{mul12, Sight};
use crate::colour;
use crate::colour::shade;
use crate::lens;
use crate::lens::{file, flat_tint, Dot, Lens, Packet};
use crate::num;
use crate::num::{clamp_i32, shift12, wide_mul};
use crate::sim::Sim;
use crate::trig::{Angles, Trig};
use crate::turn;
use crate::turn::{apply, rot_x_q12, rot_y_q12, Mat3, Product};
use crate::tuning::BALL_R;
use crate::vec3;
use crate::vec3::V3;
use crate::view::Rgb;

verus! {

/// Bands from pole to pole.
pub const BALL_LAT: usize = 5;

// ---- the mesh --------------------------------------------------------------

/// The latitude of a ring, from pole to pole, as an angle of a turn.
pub open spec fn latitude(j: int) -> u16 {
    ((64_512 + (2048 * j) / 5) % 65_536) as u16
}

/// A point of the ball's mesh.
pub open spec fn mesh_point(t: Angles, j: int, i: int) -> V3 {
    let y = (t.sin(latitude(j)) * 91) / 4096;
    let ring = (t.cos(latitude(j)) * 91) / 4096;
    let lon = (256 * i) as u16;
    vec3::v3((t.sin(lon) * ring) / 4096, y, (t.cos(lon) * ring) / 4096)
}

/// The ball's mesh, ring by ring.
pub open spec fn ball_mesh(t: Angles) -> Seq<V3> {
    Seq::new(96, |n: int| mesh_point(t, n / 16, n % 16))
}

/// A mesh of the right size, with nothing outside the ball.
pub open spec fn is_mesh(m: Seq<V3>) -> bool {
    &&& m.len() == 96
    &&& forall|n: int| 0 <= n < 96 ==> (#[trigger] m[n]).within(91)
}

fn find_mesh_point<F: Fn(i32, i32) -> u16>(trig: &Trig<F>, j: i32, i: i32) -> (r: V3)
    requires
        trig.wf(),
        0 <= j < 6,
        0 <= i < 16,
    ensures
        r == mesh_point(trig.model(), j as int, i as int),
        r.within(91),
{
    let lat: u16 = ((64_512 + 2048 * j / 5) % 65_536) as u16;
    let y: i32 = mul12(trig.sin_q12(lat), BALL_R);
    let ring: i32 = mul12(trig.cos_q12(lat), BALL_R);
    let lon: u16 = (256 * i) as u16;
    let x: i32 = mul12(trig.sin_q12(lon), ring);
    let z: i32 = mul12(trig.cos_q12(lon), ring);
    V3::new(x, y, z)
}

/// Builds the ball's mesh, once.
pub fn build_meshes<F: Fn(i32, i32) -> u16>(trig: &Trig<F>) -> (r: Vec<V3>)
    requires
        trig.wf(),
    ensures
        r@ == ball_mesh(trig.model()),
        is_mesh(r@),
{
    let mut out: Vec<V3> = Vec::new();
    let mut n: i32 = 0;
    while n < 96
        invariant
            0 <= n <= 96,
            trig.wf(),
            out.len() == n,
            forall|k: int|
                0 <= k < n ==> #[trigger] out[k] == mesh_point(trig.model(), k / 16, k % 16)
                    && out[k].within(91),
        decreases 96 - n,
    {
        out.push(find_mesh_point(trig, n / 16, n % 16));
        n += 1;
    }
    assert(out@ =~= ball_mesh(trig.model()));
    out
}

// ---- its spin --------------------------------------------------------------

/// The ball's matrix: a roll about its axis, then a yaw onto the way it rolls,
/// with Y reflected. Reflecting reverses a rotation, so the roll is taken
/// backwards.
pub open spec fn ball_matrix<M: Fn(Mat3, Mat3) -> Mat3>(
    p: &Product<M>,
    t: Angles,
    s: Sim,
) -> Mat3 {
    let visible_roll = ((0x1_0000 - s.ball.roll) % 0x1_0000) as u16;
    p.of(
        p.of(turn::yawed(t, s.ball.roll_dir), turn::rolled(t, visible_roll)),
        Mat3::reflect_y(),
    )
}

/// The ball's matrix, as it has rolled.
pub fn ball_world<M: Fn(Mat3, Mat3) -> Mat3, F: Fn(i32, i32) -> u16>(
    product: &Product<M>,
    trig: &Trig<F>,
    s: &Sim,
) -> (r: Mat3)
    requires
        product.wf(),
        trig.wf(),
    ensures
        r == ball_matrix(product, trig.model(), *s),
        r.within(32768),
{
    let visible_roll: u16 = ((0x1_0000 - s.ball.roll as i32) % 0x1_0000) as u16;
    let spin = product.mul(rot_y_q12(trig, s.ball.roll_dir), rot_x_q12(trig, visible_roll));
    product.mul(spin, Mat3::flip_y())
}

// ---- its facets ------------------------------------------------------------

/// The corners of a facet.
pub open spec fn facet_corners(m: Seq<V3>, step: int, j: int, i: int) -> (V3, V3, V3, V3) {
    let i2 = (i + step) % 16;
    (m[j * 16 + i], m[j * 16 + i2], m[j * 16 + 16 + i], m[j * 16 + 16 + i2])
}

/// The way out of a facet: its corners are all on the ball, so their sum points
/// straight out of it.
pub open spec fn facet_normal(world: Mat3, c: (V3, V3, V3, V3)) -> V3 {
    turn::turned(
        world,
        vec3::v3(
            (c.0.x + c.1.x + c.2.x + c.3.x) * 11,
            (c.0.y + c.1.y + c.2.y + c.3.y) * 11,
            (c.0.z + c.1.z + c.2.z + c.3.z) * 11,
        ),
    )
}

/// A facet's light, Q12.
pub open spec fn facet_light(n: V3) -> int {
    let dot = (n.x * 0x400 - n.y * 0xE00 - n.z * 0x500) / 4096;
    num::clamp(2500 + num::tdiv(dot, 2), 1100, 4096)
}

/// A facet's own colour: dark panels two facets wide, staggered from band to
/// band, and none at the poles.
pub open spec fn facet_base(j: int, i: int) -> Rgb {
    if j != 0 && j != 4 && (i / 2 + j) % 3 == 0 {
        (34, 34, 46)
    } else {
        (242, 242, 248)
    }
}

/// A facet faces the camera.
pub open spec fn faces(n: V3, to_cam: V3) -> bool {
    n.x * to_cam.x + n.y * to_cam.y + n.z * to_cam.z > 0
}

/// One facet of the ball, if it faces the camera.
#[verifier::opaque]
pub open spec fn facet<P: Fn(V3) -> Dot>(
    l: &Lens<P>,
    m: Seq<V3>,
    world: Mat3,
    to_cam: V3,
    step: int,
    j: int,
    i: int,
) -> Seq<Packet> {
    let c = facet_corners(m, step, j, i);
    let (p, q, r, s) = (l.at(c.0), l.at(c.1), l.at(c.2), l.at(c.3));
    let n = facet_normal(world, c);
    if lens::in_front(p, q, r, s) && faces(n, to_cam) {
        seq![
            lens::over(
                p,
                q,
                r,
                s,
                lens::flat(colour::shaded(facet_base(j, i), facet_light(n), 4096)),
                0,
                None,
                false,
            ),
        ]
    } else {
        Seq::empty()
    }
}

/// The first so many facets of a band.
pub open spec fn band<P: Fn(V3) -> Dot>(
    l: &Lens<P>,
    m: Seq<V3>,
    world: Mat3,
    to_cam: V3,
    step: int,
    j: int,
    k: int,
) -> Seq<Packet>
    decreases k,
{
    if k <= 0 {
        Seq::empty()
    } else {
        band(l, m, world, to_cam, step, j, k - 1) + facet(
            l,
            m,
            world,
            to_cam,
            step,
            j,
            (k - 1) * step,
        )
    }
}

/// How many columns apart a facet's sides are: half as many facets in half a
/// view.
pub open spec fn column_step(split: bool) -> int {
    if split {
        2
    } else {
        1
    }
}

/// The first so many bands.
pub open spec fn bands<P: Fn(V3) -> Dot>(
    l: &Lens<P>,
    m: Seq<V3>,
    world: Mat3,
    to_cam: V3,
    split: bool,
    j: int,
) -> Seq<Packet>
    decreases j,
{
    if j <= 0 {
        Seq::empty()
    } else {
        bands(l, m, world, to_cam, split, j - 1) + band(
            l,
            m,
            world,
            to_cam,
            column_step(split),
            j - 1,
            16int / column_step(split),
        )
    }
}

/// From the ball to the camera.
pub open spec fn to_eye(view: Sight, s: Sim) -> V3 {
    vec3::sub3(view.eye, blast::drawn(s.ball.p))
}

fn find_normal(world: &Mat3, a: V3, b: V3, c: V3, d: V3) -> (r: V3)
    requires
        world.within(32768),
        a.within(91),
        b.within(91),
        c.within(91),
        d.within(91),
    ensures
        r == facet_normal(*world, (a, b, c, d)),
        r.within(96_130),
{
    let v = V3::new(
        (a.x + b.x + c.x + d.x) * 11,
        (a.y + b.y + c.y + d.y) * 11,
        (a.z + b.z + c.z + d.z) * 11,
    );
    proof {
        lemma_row(world.x, v);
        lemma_row(world.y, v);
        lemma_row(world.z, v);
    }
    apply(world, v)
}

proof fn lemma_row(r: V3, v: V3)
    requires
        r.within(32768),
        v.within(4004),
    ensures
        -96_130 <= vec3::dot(r, v) <= 96_130,
{
    reveal(vec3::dot);
    num::lemma_mul_bound(r.x as int, v.x as int, 32768, 4004);
    num::lemma_mul_bound(r.y as int, v.y as int, 32768, 4004);
    num::lemma_mul_bound(r.z as int, v.z as int, 32768, 4004);
}

fn is_facing(n: V3, to_cam: V3) -> (r: bool)
    requires
        n.within(96_130),
        to_cam.within(0x10_0000),
    ensures
        r == faces(n, to_cam),
{
    proof {
        num::lemma_mul_bound(n.x as int, to_cam.x as int, 96_130, 0x10_0000);
        num::lemma_mul_bound(n.y as int, to_cam.y as int, 96_130, 0x10_0000);
        num::lemma_mul_bound(n.z as int, to_cam.z as int, 96_130, 0x10_0000);
    }
    wide_mul(n.x, to_cam.x) + wide_mul(n.y, to_cam.y) + wide_mul(n.z, to_cam.z) > 0
}

fn light_facet(n: V3) -> (r: i32)
    requires
        n.within(96_130),
    ensures
        r == facet_light(n),
        1100 <= r <= 4096,
{
    let sum: i32 = n.x * 0x400 - n.y * 0xE00 - n.z * 0x500;
    let dot: i32 = shift12(sum as i64);
    clamp_i32(2500 + dot / 2, 1100, 4096)
}

fn push_facet<P: Fn(V3) -> Dot>(
    out: &mut Vec<Packet>,
    lens: &Lens<P>,
    m: &Vec<V3>,
    world: &Mat3,
    to_cam: V3,
    step: usize,
    j: usize,
    i: usize,
)
    requires
        lens.wf(),
        is_mesh(m@),
        world.within(32768),
        to_cam.within(0x10_0000),
        step == 1 || step == 2,
        j < 5,
        i < 16,
    ensures
        final(out)@ == old(out)@ + facet(
            lens,
            m@,
            *world,
            to_cam,
            step as int,
            j as int,
            i as int,
        ),
{
    proof {
        reveal(facet);
    }
    let ghost before = out@;
    let i2: usize = (i + step) % 16;
    let a = m[j * 16 + i];
    let b = m[j * 16 + i2];
    let c = m[j * 16 + 16 + i];
    let d = m[j * 16 + 16 + i2];
    let p = lens.project(a);
    let q = lens.project(b);
    let r = lens.project(c);
    let s = lens.project(d);
    if p.sz != 0 && q.sz != 0 && r.sz != 0 && s.sz != 0 {
        let n = find_normal(world, a, b, c, d);
        if is_facing(n, to_cam) {
            let lit: i32 = light_facet(n);
            let base: Rgb = if j != 0 && j != 4 && (i / 2 + j) % 3 == 0 {
                (34, 34, 46)
            } else {
                (242, 242, 248)
            };
            out.push(file(p, q, r, s, flat_tint(shade(base, lit, 4096)), 0, None, false));
        }
    }
    assert(out@ =~= before + facet(
        lens,
        m@,
        *world,
        to_cam,
        step as int,
        j as int,
        i as int,
    ));
}

fn push_band<P: Fn(V3) -> Dot>(
    out: &mut Vec<Packet>,
    lens: &Lens<P>,
    m: &Vec<V3>,
    world: &Mat3,
    to_cam: V3,
    step: usize,
    j: usize,
)
    requires
        lens.wf(),
        is_mesh(m@),
        world.within(32768),
        to_cam.within(0x10_0000),
        step == 1 || step == 2,
        j < 5,
    ensures
        final(out)@ == old(out)@ + band(
            lens,
            m@,
            *world,
            to_cam,
            step as int,
            j as int,
            16int / (step as int),
        ),
{
    let ghost before = out@;
    let n: usize = 16 / step;
    let mut k: usize = 0;
    assert(out@ =~= before + band(lens, m@, *world, to_cam, step as int, j as int, 0));
    while k < n
        invariant
            k <= n,
            lens.wf(),
            is_mesh(m@),
            world.within(32768),
            to_cam.within(0x10_0000),
            step == 1 && n == 16 || step == 2 && n == 8,
            j < 5,
            out@ == before + band(lens, m@, *world, to_cam, step as int, j as int, k as int),
        decreases n - k,
    {
        assert(k * step < 16) by (nonlinear_arith)
            requires
                step == 1 && k < 16 || step == 2 && k < 8,
        ;
        push_facet(out, lens, m, world, to_cam, step, j, k * step);
        k += 1;
        assert(out@ =~= before + band(
            lens,
            m@,
            *world,
            to_cam,
            step as int,
            j as int,
            k as int,
        ));
    }
}

/// The ball, through a lens that stands where it does, with the matrix its
/// facets are turned by.
pub fn ball<P: Fn(V3) -> Dot>(
    out: &mut Vec<Packet>,
    lens: &Lens<P>,
    mesh: &Vec<V3>,
    world: &Mat3,
    s: &Sim,
    view: &Sight,
    split: bool,
)
    requires
        lens.wf(),
        is_mesh(mesh@),
        world.within(32768),
        view.eye.within(0x4_0000),
        blast::drawn(s.ball.p).within(0x4_0000),
    ensures
        final(out)@ == old(out)@ + bands(lens, mesh@, *world, to_eye(*view, *s), split, 5),
{
    let ghost before = out@;
    let at = to_drawn(s.ball.p);
    let to_cam = V3::new(view.eye.x - at.x, view.eye.y - at.y, view.eye.z - at.z);
    let step: usize = if split {
        2
    } else {
        1
    };
    let mut j: usize = 0;
    assert(out@ =~= before + bands(lens, mesh@, *world, to_cam, split, 0));
    while j < BALL_LAT
        invariant
            j <= 5,
            lens.wf(),
            is_mesh(mesh@),
            world.within(32768),
            to_cam.within(0x10_0000),
            step == column_step(split),
            out@ == before + bands(lens, mesh@, *world, to_cam, split, j as int),
        decreases 5 - j,
    {
        push_band(out, lens, mesh, world, to_cam, step, j);
        j += 1;
        assert(out@ =~= before + bands(lens, mesh@, *world, to_cam, split, j as int));
    }
}

/// A facet turned away from the camera is never drawn, and one at a pole is
/// never dark.
pub proof fn law_only_facing_facets_are_drawn<P: Fn(V3) -> Dot>(
    l: &Lens<P>,
    m: Seq<V3>,
    world: Mat3,
    to_cam: V3,
    step: int,
    j: int,
    i: int,
)
    ensures
        !faces(facet_normal(world, facet_corners(m, step, j, i)), to_cam) ==> facet(
            l,
            m,
            world,
            to_cam,
            step,
            j,
            i,
        ).len() == 0,
        facet_base(0, i) == facet_base(4, i),
        facet_base(0, i) == ((242u8, 242u8, 248u8)),
{
    reveal(facet);
}

} // verus!
