//! Drawing a car: how it stands, how its wheels are posed, the order its faces
//! go down in, and the stand-in for one too far off to be worth a mesh.

use vstd::prelude::*;
use vstd::seq_lib::*;
use vstd::relations::*;
use crate::actors::{car_ground, FAR_CAR_DISTANCE, NEAR};
use crate::actors;
use crate::car;
use crate::car::Car;
use crate::cars;
use crate::cars::{Face, CAR_FACE_CAP, CAR_MAX_VERTS};
use crate::colour::{Livery, PAINTS};
use crate::cull;
use crate::cull::{to_camera, Cull};
use crate::lens::Dot;
use crate::num;
use crate::num::{clamp_i32, max_i32};
use crate::trig::{Angles, Trig};
use crate::turn;
use crate::turn::{apply, entry, rot_x_q12, rot_y_q12, Mat3, Product};
use crate::tuning::DODGE_TICKS;
use crate::vec3;
use crate::vec3::V3;
use crate::view::{Rgb, PROJ_H};

verus! {

/// How far a car reaches from its middle, whichever way it is turned.
pub const CAR_BOUND_R: i32 = 128;

/// A projected, lit vertex.
#[derive(Copy, Clone, Debug, PartialEq, Eq)]
pub struct Lit {
    /// Where it lands.
    pub at: Dot,
    /// Its colour.
    pub tint: Rgb,
}

/// A triangle ready to draw, filed at a depth.
#[derive(Copy, Clone, Debug, PartialEq, Eq)]
pub struct Tri {
    /// Its corners, on the screen.
    pub at: ((i16, i16), (i16, i16), (i16, i16)),
    /// Their colours.
    pub tint: (Rgb, Rgb, Rgb),
    /// The depth it is filed at.
    pub depth: i32,
}

// ---- the faces' order ------------------------------------------------------

/// A projected triangle is wound clockwise on screen, or is a sliver: it faces
/// away.
pub open spec fn faces_away(a: Dot, b: Dot, c: Dot) -> bool {
    (b.sx - a.sx) * (c.sy - a.sy) - (b.sy - a.sy) * (c.sx - a.sx) <= 0
}

/// Is a projected triangle wound clockwise on screen, and so facing away?
pub fn car_back_facing(a: Dot, b: Dot, c: Dot) -> (r: bool)
    ensures
        r == faces_away(a, b, c),
{
    let abx: i64 = b.sx as i64 - a.sx as i64;
    let aby: i64 = b.sy as i64 - a.sy as i64;
    let acx: i64 = c.sx as i64 - a.sx as i64;
    let acy: i64 = c.sy as i64 - a.sy as i64;
    proof {
        num::lemma_mul_bound(abx as int, acy as int, 65535, 65535);
        num::lemma_mul_bound(aby as int, acx as int, 65535, 65535);
    }
    abx * acy - aby * acx <= 0
}

/// The vertices of a face.
pub open spec fn corners(f: Face, p: Seq<Lit>) -> (Lit, Lit, Lit) {
    (p[f.0 as int], p[f.1 as int], p[f.2 as int])
}

/// The depth of a face: the average of its vertices'.
pub open spec fn face_depth(f: Face, p: Seq<Lit>) -> int {
    let (a, b, c) = corners(f, p);
    (a.at.sz + b.at.sz + c.at.sz) / 3
}

/// The key a face is ordered by: its depth, then its number.
pub open spec fn face_key(f: Face, p: Seq<Lit>, i: int) -> u32 {
    (face_depth(f, p) * 65_536 + i) as u32
}

/// A face is turned towards the camera.
pub open spec fn face_shows(f: Face, p: Seq<Lit>) -> bool {
    let (a, b, c) = corners(f, p);
    !faces_away(a.at, b.at, c.at)
}

/// The keys of the faces that show, of the first `n`.
pub open spec fn face_keys(faces: Seq<Face>, p: Seq<Lit>, n: int) -> Seq<u32>
    decreases n,
{
    if n <= 0 {
        Seq::empty()
    } else if face_shows(faces[n - 1], p) {
        face_keys(faces, p, n - 1).push(face_key(faces[n - 1], p, n - 1))
    } else {
        face_keys(faces, p, n - 1)
    }
}

/// Nearer, or as near and numbered lower.
pub open spec fn nearer() -> spec_fn(u32, u32) -> bool {
    |a: u32, b: u32| a <= b
}

/// The keys of the faces that show, nearest first.
pub open spec fn draw_order(faces: Seq<Face>, p: Seq<Lit>) -> Seq<u32> {
    face_keys(faces, p, faces.len() as int).sort_by(nearer())
}

/// The triangle a key stands for.
pub open spec fn tri_of(faces: Seq<Face>, p: Seq<Lit>, key: u32) -> Tri {
    let (a, b, c) = corners(faces[(key % 65_536) as int], p);
    Tri {
        at: ((a.at.sx, a.at.sy), (b.at.sx, b.at.sy), (c.at.sx, c.at.sy)),
        tint: (a.tint, b.tint, c.tint),
        depth: (key / 65_536) as i32,
    }
}

/// A car's faces, nearest first.
pub open spec fn painted_faces(faces: Seq<Face>, p: Seq<Lit>) -> Seq<Tri> {
    draw_order(faces, p).map_values(|key: u32| tri_of(faces, p, key))
}

/// Every face's vertices are among the projected ones.
pub open spec fn all_fit(faces: Seq<Face>, count: int) -> bool {
    forall|i: int| 0 <= i < faces.len() ==> cars::fits(#[trigger] faces[i], count)
}

proof fn lemma_nearer_is_total()
    ensures
        total_ordering(nearer()),
{
}

/// Adding one item to a part adds it to the whole.
proof fn lemma_one_more(whole: Seq<u32>, a: Seq<u32>, b: Seq<u32>, x: u32)
    requires
        whole.to_multiset() == a.to_multiset().add(b.to_multiset()),
    ensures
        whole.push(x).to_multiset() == a.push(x).to_multiset().add(b.to_multiset()),
        whole.push(x).to_multiset() == a.to_multiset().add(b.push(x).to_multiset()),
{
    broadcast use group_to_multiset_ensures;

    assert(whole.push(x).to_multiset() =~= whole.to_multiset().insert(x));
    assert(a.push(x).to_multiset() =~= a.to_multiset().insert(x));
    assert(b.push(x).to_multiset() =~= b.to_multiset().insert(x));
    assert(a.to_multiset().add(b.to_multiset()).insert(x) =~= a.to_multiset().insert(x).add(
        b.to_multiset(),
    ));
    assert(a.to_multiset().add(b.to_multiset()).insert(x) =~= a.to_multiset().add(
        b.to_multiset().insert(x),
    ));
}

fn merge(a: &Vec<u32>, b: &Vec<u32>) -> (r: Vec<u32>)
    requires
        sorted_by(a@, nearer()),
        sorted_by(b@, nearer()),
        a.len() + b.len() <= usize::MAX,
    ensures
        sorted_by(r@, nearer()),
        r@.to_multiset() == a@.to_multiset().add(b@.to_multiset()),
{
    broadcast use group_to_multiset_ensures;

    let ghost leq = nearer();
    let mut out: Vec<u32> = Vec::new();
    let mut i: usize = 0;
    let mut j: usize = 0;
    assert(a@.take(0) =~= Seq::<u32>::empty());
    assert(b@.take(0) =~= Seq::<u32>::empty());
    assert(out@.to_multiset() =~= a@.take(0).to_multiset().add(b@.take(0).to_multiset()));
    while i < a.len() || j < b.len()
        invariant
            i <= a.len(),
            j <= b.len(),
            leq == nearer(),
            sorted_by(a@, leq),
            sorted_by(b@, leq),
            a.len() + b.len() <= usize::MAX,
            forall|p: int, q: int| 0 <= p < q < out.len() ==> out[p] <= out[q],
            forall|p: int, q: int| 0 <= p < out.len() && i <= q < a.len() ==> out[p] <= a[q],
            forall|p: int, q: int| 0 <= p < out.len() && j <= q < b.len() ==> out[p] <= b[q],
            out@.to_multiset() == a@.take(i as int).to_multiset().add(
                b@.take(j as int).to_multiset(),
            ),
        decreases a.len() - i + b.len() - j,
    {
        assert forall|p: int, q: int| 0 <= p < q < a.len() implies a[p] <= a[q] by {
            assert(leq(a@[p], a@[q]));
        }
        assert forall|p: int, q: int| 0 <= p < q < b.len() implies b[p] <= b[q] by {
            assert(leq(b@[p], b@[q]));
        }
        let from_a = j >= b.len() || (i < a.len() && a[i] <= b[j]);
        let ghost before = out@;
        if from_a {
            let x: u32 = a[i];
            out.push(x);
            proof {
                assert(a@.take(i + 1) =~= a@.take(i as int).push(x));
                lemma_one_more(before, a@.take(i as int), b@.take(j as int), x);
            }
            i += 1;
        } else {
            let x: u32 = b[j];
            out.push(x);
            proof {
                assert(b@.take(j + 1) =~= b@.take(j as int).push(x));
                lemma_one_more(before, a@.take(i as int), b@.take(j as int), x);
            }
            j += 1;
        }
    }
    assert(a@.take(a.len() as int) =~= a@);
    assert(b@.take(b.len() as int) =~= b@);
    out
}

fn sort_range(v: &Vec<u32>, lo: usize, hi: usize) -> (r: Vec<u32>)
    requires
        lo <= hi <= v.len(),
        v.len() <= 100_000,
    ensures
        sorted_by(r@, nearer()),
        r@.to_multiset() == v@.subrange(lo as int, hi as int).to_multiset(),
    decreases hi - lo,
{
    broadcast use group_to_multiset_ensures;

    if hi - lo <= 1 {
        let mut out: Vec<u32> = Vec::new();
        if lo < hi {
            out.push(v[lo]);
        }
        assert(out@ =~= v@.subrange(lo as int, hi as int));
        return out;
    }
    let mid: usize = lo + (hi - lo) / 2;
    let a = sort_range(v, lo, mid);
    let b = sort_range(v, mid, hi);
    let ghost (x, y) = (v@.subrange(lo as int, mid as int), v@.subrange(mid as int, hi as int));
    proof {
        assert(x + y =~= v@.subrange(lo as int, hi as int));
        vstd::seq_lib::lemma_multiset_commutative(x, y);
        assert(a@.to_multiset().len() == a@.len() && x.to_multiset().len() == x.len());
        assert(b@.to_multiset().len() == b@.len() && y.to_multiset().len() == y.len());
    }
    merge(&a, &b)
}

fn sort_keys(v: &Vec<u32>) -> (r: Vec<u32>)
    requires
        v.len() <= 100_000,
    ensures
        r@ == v@.sort_by(nearer()),
{
    let out = sort_range(v, 0, v.len());
    proof {
        assert(v@.subrange(0, v.len() as int) =~= v@);
        lemma_nearer_is_total();
        v@.lemma_sort_by_ensures(nearer());
        lemma_sorted_unique(out@, v@.sort_by(nearer()), nearer());
    }
    out
}

fn gather_keys(faces: &Vec<Face>, p: &Vec<Lit>) -> (r: Vec<u32>)
    requires
        all_fit(faces@, p.len() as int),
        faces.len() <= CAR_FACE_CAP,
    ensures
        r@ == face_keys(faces@, p@, faces.len() as int),
        r.len() <= faces.len(),
        forall|k: int| 0 <= k < r.len() ==> (#[trigger] r[k]) % 65_536 < faces.len(),
{
    let mut out: Vec<u32> = Vec::new();
    let mut i: usize = 0;
    while i < faces.len()
        invariant
            i <= faces.len(),
            faces.len() <= CAR_FACE_CAP,
            all_fit(faces@, p.len() as int),
            out.len() <= i,
            out@ == face_keys(faces@, p@, i as int),
            forall|k: int| 0 <= k < out.len() ==> (#[trigger] out[k]) % 65_536 < faces.len(),
        decreases faces.len() - i,
    {
        let f = faces[i];
        assert(cars::fits(faces@[i as int], p.len() as int));
        let a = p[f.0 as usize];
        let b = p[f.1 as usize];
        let c = p[f.2 as usize];
        if !car_back_facing(a.at, b.at, c.at) {
            let depth: u32 = (a.at.sz as u32 + b.at.sz as u32 + c.at.sz as u32) / 3;
            let key: u32 = depth * 65_536 + i as u32;
            assert(key % 65_536 == i);
            out.push(key);
        }
        i += 1;
    }
    out
}

/// Builds one car's triangles: the faces turned towards the camera, nearest
/// first. The table prepends within a slot, so the last to go in is the first
/// to be drawn, and a car's faces then cover each other as they should even
/// where they share one.
pub fn submit_car_faces(out: &mut Vec<Tri>, faces: &Vec<Face>, projected: &Vec<Lit>)
    requires
        all_fit(faces@, projected.len() as int),
        faces.len() <= CAR_FACE_CAP,
    ensures
        final(out)@ == old(out)@ + painted_faces(faces@, projected@),
{
    let ghost before = out@;
    let keys = gather_keys(faces, projected);
    let order = sort_keys(&keys);
    let ghost all = painted_faces(faces@, projected@);
    proof {
        lemma_nearer_is_total();
        keys@.lemma_sort_by_ensures(nearer());
        assert forall|k: int| 0 <= k < order.len() implies (#[trigger] order[k]) % 65_536
            < faces.len() by {
            assert(order@.contains(order@[k]));
            assert(keys@.contains(order@[k]));
            let m = choose|m: int| 0 <= m < keys.len() && keys@[m] == order@[k];
            assert(keys[m] % 65_536 < faces.len());
        }
    }
    let mut k: usize = 0;
    while k < order.len()
        invariant
            k <= order.len(),
            order@ == draw_order(faces@, projected@),
            all == painted_faces(faces@, projected@),
            all_fit(faces@, projected.len() as int),
            forall|i: int| 0 <= i < order.len() ==> (#[trigger] order[i]) % 65_536 < faces.len(),
            out@ == before + all.take(k as int),
        decreases order.len() - k,
    {
        let key: u32 = order[k];
        assert(order[k as int] % 65_536 < faces.len());
        let f = faces[(key % 65_536) as usize];
        assert(cars::fits(faces@[(key % 65_536) as int], projected.len() as int));
        let a = projected[f.0 as usize];
        let b = projected[f.1 as usize];
        let c = projected[f.2 as usize];
        out.push(
            Tri {
                at: ((a.at.sx, a.at.sy), (b.at.sx, b.at.sy), (c.at.sx, c.at.sy)),
                tint: (a.tint, b.tint, c.tint),
                depth: (key / 65_536) as i32,
            },
        );
        k += 1;
        assert(all.take(k as int) =~= all.take(k - 1).push(all[k - 1]));
        assert(out@ =~= before + all.take(k as int));
    }
    assert(all.take(all.len() as int) =~= all);
}

/// A car's faces go down nearest first.
pub proof fn law_faces_go_down_nearest_first(faces: Seq<Face>, p: Seq<Lit>)
    ensures
        forall|i: int, j: int|
            0 <= i < j < painted_faces(faces, p).len() ==> (#[trigger] painted_faces(faces, p)[i]).depth
                <= (#[trigger] painted_faces(faces, p)[j]).depth,
        draw_order(faces, p).to_multiset() == face_keys(
            faces,
            p,
            faces.len() as int,
        ).to_multiset(),
{
    lemma_nearer_is_total();
    let keys = face_keys(faces, p, faces.len() as int);
    keys.lemma_sort_by_ensures(nearer());
    let order = draw_order(faces, p);
    let leq = nearer();
    assert forall|i: int, j: int| 0 <= i < j < painted_faces(faces, p).len() implies (
    #[trigger] painted_faces(faces, p)[i]).depth <= (#[trigger] painted_faces(faces, p)[j]).depth by {
        assert(leq(order[i], order[j]));
        assert(order[i] / 65_536 <= order[j] / 65_536);
    }
}

// ---- how it stands ---------------------------------------------------------

/// A car's orientation as an object's matrix: its columns are where its right,
/// up and forward go, with Y turned over for drawing.
pub open spec fn stance(t: Angles, c: Car) -> Mat3 {
    let (right, up, fwd) = car::frame(t, c.up, c.yaw);
    Mat3 {
        x: vec3::v3(right.x as int, up.x as int, fwd.x as int),
        y: vec3::v3(-right.y as int, -up.y as int, -fwd.y as int),
        z: vec3::v3(right.z as int, up.z as int, fwd.z as int),
    }
}

/// The car's orientation as an object's matrix, built from its own axes, so that
/// a car on a wall leans onto it.
pub fn car_world<F: Fn(i32, i32) -> u16>(trig: &Trig<F>, c: &Car) -> (r: Mat3)
    requires
        trig.wf(),
        c.up.within(4096),
    ensures
        r == stance(trig.model(), *c),
        r.within(4096),
{
    let (right, up, fwd) = c.basis(trig);
    Mat3 {
        x: V3::new(entry(right.x), entry(up.x), entry(fwd.x)),
        y: V3::new(entry(-right.y), entry(-up.y), entry(-fwd.y)),
        z: V3::new(entry(right.z), entry(up.z), entry(fwd.z)),
    }
}

/// How far round a flip a car is.
pub open spec fn flip_angle(timer: int) -> u16 {
    (((40 - timer) * 4096) / 40) as u16
}

/// The matrix a car is drawn with. One in the middle of a flip is spun about the
/// axis across its dodge: turned into the dodge's frame, tumbled, and turned
/// back out.
pub open spec fn car_matrix<M: Fn(Mat3, Mat3) -> Mat3>(
    p: &Product<M>,
    t: Angles,
    c: Car,
) -> Mat3 {
    let world = stance(t, c);
    if c.dodge_timer > 0 {
        p.of(
            p.of(
                p.of(world, turn::yawed(t, c.dodge_dir)),
                turn::rolled(t, flip_angle(c.dodge_timer as int)),
            ),
            turn::yawed(t, ((0x1_0000 - c.dodge_dir) % 0x1_0000) as u16),
        )
    } else {
        world
    }
}

/// The matrix a car is drawn with.
pub fn car_transform<M: Fn(Mat3, Mat3) -> Mat3, F: Fn(i32, i32) -> u16>(
    product: &Product<M>,
    trig: &Trig<F>,
    c: &Car,
) -> (r: Mat3)
    requires
        product.wf(),
        trig.wf(),
        c.up.within(4096),
        c.dodge_timer <= 40,
    ensures
        r == car_matrix(product, trig.model(), *c),
        r.within(32768),
{
    let world = car_world(trig, c);
    if c.dodge_timer > 0 {
        let done: i32 = (DODGE_TICKS - c.dodge_timer) as i32;
        let spin: u16 = (done * 4096 / DODGE_TICKS as i32) as u16;
        let back: u16 = ((0x1_0000 - c.dodge_dir as i32) % 0x1_0000) as u16;
        let into = product.mul(world, rot_y_q12(trig, c.dodge_dir));
        let tumbled = product.mul(into, rot_x_q12(trig, spin));
        product.mul(tumbled, rot_y_q12(trig, back))
    } else {
        world
    }
}

// ---- its wheels ------------------------------------------------------------

/// How a car's wheels stand: a matrix for the front pair and one for the rear,
/// and how far each axle has travelled.
#[derive(Copy, Clone, Debug, PartialEq, Eq)]
pub struct WheelPose {
    /// The front wheels'.
    pub front: Mat3,
    /// The rear wheels'.
    pub rear: Mat3,
    /// Front and rear travel, in whole uu.
    pub travel: (i32, i32),
}

/// How a car's wheels stand: rolled about their axle, and the front ones then
/// turned by the steering.
pub open spec fn wheel_stance<M: Fn(Mat3, Mat3) -> Mat3>(
    p: &Product<M>,
    t: Angles,
    c: Car,
) -> WheelPose {
    let roll = turn::rolled(t, c.wheel_spin);
    WheelPose {
        front: p.of(turn::yawed(t, t.atan2(c.steer as int, 4096)), roll),
        rear: roll,
        travel: ((c.suspension[0] as int / 256) as i32, (c.suspension[1] as int / 256) as i32),
    }
}

fn whole_travel(v: i16) -> (r: i32)
    ensures
        r == v as int / 256,
        -128 <= r <= 127,
{
    let w: i32 = v as i32;
    assert(w >> 8 == w / 256) by (bit_vector);
    w >> 8
}

/// How a car's wheels stand.
pub fn wheel_pose<M: Fn(Mat3, Mat3) -> Mat3, F: Fn(i32, i32) -> u16>(
    product: &Product<M>,
    trig: &Trig<F>,
    c: &Car,
) -> (r: WheelPose)
    requires
        product.wf(),
        trig.wf(),
    ensures
        r == wheel_stance(product, trig.model(), *c),
        r.wf(),
{
    let steer: u16 = trig.atan2_q12(c.steer, 4096);
    let roll = rot_x_q12(trig, c.wheel_spin);
    WheelPose {
        front: product.mul(rot_y_q12(trig, steer), roll),
        rear: roll,
        travel: (whole_travel(c.suspension[0]), whole_travel(c.suspension[1])),
    }
}

impl WheelPose {
    /// Within what the hardware's registers hold.
    pub open spec fn wf(self) -> bool {
        &&& self.front.within(32768)
        &&& self.rear.within(32768)
        &&& -32768 <= self.travel.0 <= 32767
        &&& -32768 <= self.travel.1 <= 32767
    }
}

/// Held to a register's range.
pub open spec fn in_register(v: V3) -> V3 {
    vec3::v3(
        num::clamp(v.x as int, -32768, 32767),
        num::clamp(v.y as int, -32768, 32767),
        num::clamp(v.z as int, -32768, 32767),
    )
}

/// A vertex as its wheel poses it: turned about the wheel's pivot and moved with
/// its axle. A vertex of the body is left alone.
pub open spec fn posed(
    position: V3,
    normal: V3,
    slot: u8,
    centres: Seq<V3>,
    pose: WheelPose,
) -> (V3, V3) {
    if slot >= 4 {
        (position, normal)
    } else {
        let rotation = if slot >= 2 {
            pose.front
        } else {
            pose.rear
        };
        let travel = if slot >= 2 {
            pose.travel.0
        } else {
            pose.travel.1
        };
        let centre = centres[slot as int];
        let spun = turn::turned(rotation, vec3::sub3(position, centre));
        (
            in_register(
                vec3::v3(
                    centre.x + spun.x,
                    centre.y + spun.y + travel,
                    centre.z + spun.z,
                ),
            ),
            in_register(turn::turned(rotation, normal)),
        )
    }
}

fn hold(v: V3) -> (r: V3)
    ensures
        r == in_register(v),
        r.within(32768),
{
    V3::new(
        clamp_i32(v.x, -32768, 32767),
        clamp_i32(v.y, -32768, 32767),
        clamp_i32(v.z, -32768, 32767),
    )
}

/// A mesh vertex and its normal, with its wheel's steering, roll and suspension.
pub fn animated_car_vertex(
    position: V3,
    normal: V3,
    slot: u8,
    centres: &Vec<V3>,
    pose: &WheelPose,
) -> (r: (V3, V3))
    requires
        position.within(32768),
        normal.within(32768),
        centres.len() == 4,
        cars::narrow(centres@),
        pose.wf(),
    ensures
        r == posed(position, normal, slot, centres@, *pose),
{
    if slot >= 4 {
        return (position, normal);
    }
    let (rotation, travel): (Mat3, i32) = if slot >= 2 {
        (pose.front, pose.travel.0)
    } else {
        (pose.rear, pose.travel.1)
    };
    let centre = centres[slot as usize];
    assert(centres@[slot as int].within(32768));
    let local = V3::new(position.x - centre.x, position.y - centre.y, position.z - centre.z);
    let spun = apply(&rotation, local);
    let lit = apply(&rotation, normal);
    (
        hold(V3::new(centre.x + spun.x, centre.y + spun.y + travel, centre.z + spun.z)),
        hold(lit),
    )
}

/// A vertex ready to be projected and lit.
#[derive(Copy, Clone, Debug, PartialEq, Eq)]
pub struct Posed {
    /// Where it is, in the car's own space.
    pub at: V3,
    /// Its normal.
    pub normal: V3,
    /// Its colour.
    pub paint: Rgb,
}

/// How many of a mesh's vertices are drawn.
pub open spec fn vert_count(verts: int, slots: int) -> int {
    num::min(num::min(verts, CAR_MAX_VERTS as int), slots)
}

/// A car's vertices, posed and painted.
pub open spec fn posed_mesh(
    verts: Seq<V3>,
    normals: Seq<V3>,
    slots: Seq<u8>,
    centres: Seq<V3>,
    paints: Seq<Rgb>,
    pose: WheelPose,
) -> Seq<Posed> {
    Seq::new(
        vert_count(verts.len() as int, slots.len() as int) as nat,
        |i: int|
            {
                let (at, normal) = posed(verts[i], normals[i], slots[i], centres, pose);
                Posed { at, normal, paint: paints[i] }
            },
    )
}

/// A car's vertices, posed and painted, in the order they are projected.
pub fn project_car_animated(
    verts: &Vec<V3>,
    normals: &Vec<V3>,
    slots: &Vec<u8>,
    centres: &Vec<V3>,
    paints: &Vec<Rgb>,
    pose: &WheelPose,
) -> (r: Vec<Posed>)
    requires
        cars::narrow(verts@),
        cars::narrow(normals@),
        normals.len() == verts.len(),
        centres.len() == 4,
        cars::narrow(centres@),
        paints.len() == CAR_MAX_VERTS,
        pose.wf(),
    ensures
        r@ == posed_mesh(verts@, normals@, slots@, centres@, paints@, *pose),
{
    let mut count: usize = if verts.len() < CAR_MAX_VERTS {
        verts.len()
    } else {
        CAR_MAX_VERTS
    };
    if slots.len() < count {
        count = slots.len();
    }
    let ghost all = posed_mesh(verts@, normals@, slots@, centres@, paints@, *pose);
    let mut out: Vec<Posed> = Vec::new();
    let mut i: usize = 0;
    while i < count
        invariant
            i <= count,
            count <= verts.len(),
            count <= slots.len(),
            count <= CAR_MAX_VERTS,
            all.len() == count,
            cars::narrow(verts@),
            cars::narrow(normals@),
            normals.len() == verts.len(),
            centres.len() == 4,
            cars::narrow(centres@),
            paints.len() == CAR_MAX_VERTS,
            pose.wf(),
            all == posed_mesh(verts@, normals@, slots@, centres@, paints@, *pose),
            out@ == all.take(i as int),
        decreases count - i,
    {
        assert(verts@[i as int].within(32768) && normals@[i as int].within(32768));
        let (at, normal) = animated_car_vertex(verts[i], normals[i], slots[i], centres, pose);
        out.push(Posed { at, normal, paint: paints[i] });
        i += 1;
        assert(out@ =~= all.take(i as int));
    }
    assert(all.take(count as int) =~= all);
    out
}

/// Posing leaves the body alone: only a wheel's own vertices ever move.
pub proof fn law_only_wheels_are_posed(
    position: V3,
    normal: V3,
    slot: u8,
    centres: Seq<V3>,
    pose: WheelPose,
)
    requires
        slot >= 4,
    ensures
        posed(position, normal, slot, centres, pose) == (position, normal),
{
}

// ---- far off ---------------------------------------------------------------

/// A length at a depth, in pixels, and never nothing.
pub open spec fn shrunk(uu: int, z: int) -> int {
    num::max((uu * 260) / z, 1)
}

/// A flat slab of the screen, as two triangles.
pub open spec fn slab(
    x0: i16,
    x1: i16,
    y0: i16,
    y1: i16,
    top: Rgb,
    bottom: Rgb,
    depth: i32,
) -> Seq<Tri> {
    seq![
        Tri { at: ((x0, y0), (x1, y0), (x0, y1)), tint: (top, top, bottom), depth },
        Tri { at: ((x1, y0), (x1, y1), (x0, y1)), tint: (top, bottom, bottom), depth },
    ]
}

/// The stand-in for a distant car: a dark band of running gear, and a block of
/// body paint over it. `t` is where the car stands in camera space and `cx` the
/// middle of the view.
pub open spec fn stand_in(t: V3, cx: int, body: Rgb, dark: Rgb) -> Seq<Tri> {
    if t.z < 120 {
        Seq::empty()
    } else {
        let z = t.z as int;
        let sx = cx + num::tdiv(t.x * 260, z);
        let sy = 120 + num::tdiv(t.y * 260, z);
        let hw = shrunk(70, z);
        let (x0, x1) = ((sx - hw) as i16, (sx + hw) as i16);
        let waist = (sy - shrunk(22, z)) as i16;
        slab(x0, x1, waist, sy as i16, dark, (12, 12, 16), t.z) + slab(
            x0,
            x1,
            (sy - shrunk(52, z)) as i16,
            waist,
            body,
            dark,
            t.z,
        )
    }
}

fn shrink(uu: i32, z: i32) -> (r: i32)
    requires
        0 <= uu <= 1000,
        120 <= z,
    ensures
        r == shrunk(uu as int, z as int),
        1 <= r <= 260_000,
{
    assert(0 <= (uu * 260) / (z as int) <= uu * 260) by (nonlinear_arith)
        requires
            0 <= uu,
            1 <= z,
    ;
    max_i32(uu * PROJ_H / z, 1)
}

fn push_slab(
    out: &mut Vec<Tri>,
    x: (i16, i16),
    y: (i16, i16),
    top: Rgb,
    bottom: Rgb,
    depth: i32,
)
    ensures
        final(out)@ == old(out)@ + slab(x.0, x.1, y.0, y.1, top, bottom, depth),
{
    let ghost before = out@;
    out.push(
        Tri { at: ((x.0, y.0), (x.1, y.0), (x.0, y.1)), tint: (top, top, bottom), depth },
    );
    out.push(
        Tri { at: ((x.1, y.0), (x.1, y.1), (x.0, y.1)), tint: (top, bottom, bottom), depth },
    );
    assert(out@ =~= before + slab(x.0, x.1, y.0, y.1, top, bottom, depth));
}

/// The middle of the view, from side to side.
pub open spec fn view_middle(c: Cull) -> int {
    num::tdiv(c.bounds.min_x + c.bounds.max_x, 2)
}

/// The paint a seat wears.
pub open spec fn seat_paint(l: Livery, seat: int) -> (Rgb, Rgb, Rgb) {
    PAINTS[num::min(
        if seat == 0 {
            l.one as int
        } else {
            l.two as int
        },
        7,
    )]
}

/// A distant car in half a view: two slabs where its mesh would be.
pub fn draw_far_car(out: &mut Vec<Tri>, seat: usize, body: &Car, cull: &Cull, livery: &Livery)
    requires
        seat < 2,
        cull.wf(),
        body.p.within(0x400_0000),
        actors::ground_of(*body).within(16000),
        -4096 <= cull.bounds.min_x <= 4096,
        -4096 <= cull.bounds.max_x <= 4096,
    ensures
        final(out)@ == old(out)@ + stand_in(
            cull::camera_space(cull.view, actors::ground_of(*body)),
            view_middle(*cull),
            seat_paint(*livery, seat as int).0,
            seat_paint(*livery, seat as int).1,
        ),
{
    let ghost before = out@;
    let t = to_camera(&cull.view, car_ground(body));
    let paint: usize = if seat == 0 {
        livery.one
    } else {
        livery.two
    };
    let (body_tint, dark, _signal) = PAINTS[if paint < 7 {
        paint
    } else {
        7
    }];
    let cx: i32 = (cull.bounds.min_x as i32 + cull.bounds.max_x as i32) / 2;
    if t.z >= NEAR {
        proof {
            num::lemma_tdiv_bound(t.x * 260, t.z as int, 0x200_0000);
            num::lemma_tdiv_bound(t.y * 260, t.z as int, 0x200_0000);
        }
        let sx: i32 = cx + t.x * PROJ_H / t.z;
        let sy: i32 = 120 + t.y * PROJ_H / t.z;
        let hw: i32 = shrink(70, t.z);
        let (x0, x1): (i16, i16) = ((sx - hw) as i16, (sx + hw) as i16);
        let waist: i16 = (sy - shrink(22, t.z)) as i16;
        push_slab(out, (x0, x1), (waist, sy as i16), dark, (12, 12, 16), t.z);
        let top: i16 = (sy - shrink(52, t.z)) as i16;
        push_slab(out, (x0, x1), (top, waist), body_tint, dark, t.z);
    }
    assert(out@ =~= before + stand_in(t, cx as int, body_tint, dark));
}

// ---- which way a car is drawn ----------------------------------------------

/// How a car is drawn.
#[derive(Copy, Clone, Debug, PartialEq, Eq, Structural)]
pub enum CarPlan {
    /// Not at all: it is wrecked, or out of view.
    Gone,
    /// As two slabs.
    Far,
    /// As its mesh.
    Mesh,
}

/// How a car is drawn: a wreck is not on the pitch, a car out of view costs
/// nothing, and in half a view a distant one is two slabs.
pub open spec fn car_plan(c: Cull, body: Car) -> CarPlan {
    let g = actors::ground_of(body);
    if body.is_wrecked() || !c.sees(
        vec3::v3(g.x as int, g.y - 128, g.z as int),
        vec3::v3(128, 128, 128),
    ) {
        CarPlan::Gone
    } else if c.bounds.split && c.flat(g.x as int, g.z as int) > 2200 {
        CarPlan::Far
    } else {
        CarPlan::Mesh
    }
}

/// How a car is drawn.
pub fn plan_car(cull: &Cull, body: &Car) -> (r: CarPlan)
    requires
        cull.wf(),
        body.p.within(0x400_0000),
        actors::ground_of(*body).within(15_000),
    ensures
        r == car_plan(*cull, *body),
{
    if body.wrecked() {
        return CarPlan::Gone;
    }
    let g = car_ground(body);
    if !cull.visible(
        V3::new(g.x, g.y - CAR_BOUND_R, g.z),
        V3::new(CAR_BOUND_R, CAR_BOUND_R, CAR_BOUND_R),
    ) {
        return CarPlan::Gone;
    }
    if cull.bounds.split && cull.flat_distance(g.x, g.z) > FAR_CAR_DISTANCE {
        CarPlan::Far
    } else {
        CarPlan::Mesh
    }
}

/// A wreck is never drawn, and a whole view never swaps a car for its stand-in.
pub proof fn law_a_wreck_is_not_drawn(c: Cull, body: Car)
    ensures
        body.is_wrecked() ==> car_plan(c, body) == CarPlan::Gone,
        !c.bounds.split ==> car_plan(c, body) != CarPlan::Far,
{
}

} // verus!
