//! The cars' meshes: what each vertex is painted, where a wheel turns about,
//! how a wheel's vertices are posed, and the order the faces go down in.

use vstd::prelude::*;
use vstd::seq_lib::*;
use crate::num;
use crate::vec3;
use crate::vec3::V3;
use crate::view::Rgb;

verus! {

/// The most vertices a car's mesh may have.
pub const CAR_MAX_VERTS: usize = 1344;
/// The most faces a car's mesh may have.
pub const CAR_FACE_CAP: usize = 1248;
/// The colour of a vertex no face has claimed.
pub const UNCLAIMED: Rgb = (128, 128, 128);

/// A triangle of a mesh, by the numbers of its vertices.
pub type Face = (u16, u16, u16);

// ---- colours ---------------------------------------------------------------

/// A face has this vertex.
pub open spec fn uses(f: Face, v: int) -> bool {
    f.0 == v || f.1 == v || f.2 == v
}

/// The colour of a vertex: that of the first face to use it, looking from face
/// `f` on.
pub open spec fn claimed_from(faces: Seq<Face>, colours: Seq<Rgb>, f: int, v: int) -> Rgb
    decreases faces.len() - f,
{
    if f < 0 || f >= faces.len() || f >= colours.len() {
        UNCLAIMED
    } else if uses(faces[f], v) {
        colours[f]
    } else {
        claimed_from(faces, colours, f + 1, v)
    }
}

/// The colour of every vertex a mesh may have.
pub open spec fn materials(faces: Seq<Face>, colours: Seq<Rgb>, verts: int) -> Seq<Rgb> {
    Seq::new(
        CAR_MAX_VERTS as nat,
        |v: int|
            if v < verts {
                claimed_from(faces, colours, 0, v)
            } else {
                UNCLAIMED
            },
    )
}

/// After `f` faces, one vertex has its colour if it was claimed, and is still to
/// be claimed if it was not.
spec fn settled(
    faces: Seq<Face>,
    colours: Seq<Rgb>,
    verts: int,
    f: int,
    v: int,
    c: Rgb,
    taken: bool,
) -> bool {
    if taken {
        v < verts && c == claimed_from(faces, colours, 0, v)
    } else {
        &&& c == UNCLAIMED
        &&& v < verts ==> claimed_from(faces, colours, 0, v) == claimed_from(faces, colours, f, v)
    }
}

/// Every vertex is settled after `f` faces.
spec fn claiming(
    faces: Seq<Face>,
    colours: Seq<Rgb>,
    verts: int,
    f: int,
    out: Seq<Rgb>,
    claimed: Seq<bool>,
) -> bool {
    &&& out.len() == CAR_MAX_VERTS
    &&& claimed.len() == CAR_MAX_VERTS
    &&& forall|v: int|
        #![trigger out[v]]
        0 <= v < CAR_MAX_VERTS ==> settled(faces, colours, verts, f, v, out[v], claimed[v])
}

fn claim(out: &mut Vec<Rgb>, claimed: &mut Vec<bool>, verts: usize, v: u16, c: Rgb)
    requires
        old(out).len() == CAR_MAX_VERTS,
        old(claimed).len() == CAR_MAX_VERTS,
        verts <= CAR_MAX_VERTS,
    ensures
        final(out).len() == CAR_MAX_VERTS,
        final(claimed).len() == CAR_MAX_VERTS,
        forall|i: int|
            0 <= i < CAR_MAX_VERTS ==> #[trigger] final(claimed)[i] == (old(claimed)[i] || (i == v
                && v < verts)),
        forall|i: int|
            0 <= i < CAR_MAX_VERTS ==> #[trigger] final(out)[i] == if i == v && v < verts
                && !old(claimed)[i] {
                c
            } else {
                old(out)[i]
            },
{
    let n: usize = v as usize;
    if n < verts && !claimed[n] {
        claimed.set(n, true);
        out.set(n, c);
    }
}

/// Resolves a mesh's per-vertex colours from its faces': walking the faces in
/// order, each vertex keeps the first colour to claim it. `colours` holds the
/// faces' colours up to the first face without one.
pub fn car_materials_for(vert_count: usize, faces: &Vec<Face>, colours: &Vec<Rgb>) -> (r: Vec<Rgb>)
    ensures
        r@ == materials(faces@, colours@, num::min(vert_count as int, CAR_MAX_VERTS as int)),
{
    let verts: usize = if vert_count < CAR_MAX_VERTS {
        vert_count
    } else {
        CAR_MAX_VERTS
    };
    let mut out: Vec<Rgb> = Vec::new();
    let mut claimed: Vec<bool> = Vec::new();
    let mut i: usize = 0;
    while i < CAR_MAX_VERTS
        invariant
            i <= CAR_MAX_VERTS,
            out.len() == i,
            claimed.len() == i,
            forall|v: int| 0 <= v < i ==> #[trigger] out[v] == UNCLAIMED,
            forall|v: int| 0 <= v < i ==> !#[trigger] claimed[v],
        decreases CAR_MAX_VERTS - i,
    {
        out.push(UNCLAIMED);
        claimed.push(false);
        i += 1;
    }
    let mut f: usize = 0;
    while f < faces.len() && f < colours.len()
        invariant
            f <= faces.len(),
            f <= colours.len(),
            verts <= CAR_MAX_VERTS,
            claiming(faces@, colours@, verts as int, f as int, out@, claimed@),
        decreases faces.len() - f,
    {
        let c = colours[f];
        let face = faces[f];
        let ghost was = claimed@;
        let ghost had = out@;
        claim(&mut out, &mut claimed, verts, face.0, c);
        claim(&mut out, &mut claimed, verts, face.1, c);
        claim(&mut out, &mut claimed, verts, face.2, c);
        proof {
            assert forall|v: int| #![trigger out@[v]] 0 <= v < CAR_MAX_VERTS implies settled(
                faces@,
                colours@,
                verts as int,
                f + 1,
                v,
                out@[v],
                claimed@[v],
            ) by {
                assert(settled(faces@, colours@, verts as int, f as int, v, had[v], was[v]));
                assert(claimed[v] == (was[v] || (uses(face, v) && v < verts)));
                assert(out[v] == if uses(face, v) && v < verts && !was[v] {
                    c
                } else {
                    had[v]
                });
            }
        }
        f += 1;
    }
    proof {
        assert forall|v: int| 0 <= v < CAR_MAX_VERTS implies out@[v] == materials(
            faces@,
            colours@,
            verts as int,
        )[v] by {
            assert(settled(faces@, colours@, verts as int, f as int, v, out@[v], claimed@[v]));
        }
    }
    assert(out@ =~= materials(faces@, colours@, verts as int));
    out
}

// ---- faces -----------------------------------------------------------------

/// Every vertex of a face is among the first `count`.
pub open spec fn fits(f: Face, count: int) -> bool {
    f.0 < count && f.1 < count && f.2 < count
}

/// The faces a car keeps, of its first `n`: those whose vertices were all kept.
pub open spec fn kept_faces(faces: Seq<Face>, count: int, n: int) -> Seq<Face>
    decreases n,
{
    if n <= 0 {
        Seq::empty()
    } else if fits(faces[n - 1], count) {
        kept_faces(faces, count, n - 1).push(faces[n - 1])
    } else {
        kept_faces(faces, count, n - 1)
    }
}

/// The faces of a mesh worth keeping: no more than a car may have, and none that
/// reaches past the vertices that were kept.
pub fn decode_car_geometry(vert_count: usize, faces: &Vec<Face>) -> (r: Vec<Face>)
    ensures
        r@ == kept_faces(
            faces@,
            num::min(vert_count as int, CAR_MAX_VERTS as int),
            num::min(faces.len() as int, CAR_FACE_CAP as int),
        ),
        r.len() <= CAR_FACE_CAP,
{
    let count: usize = if vert_count < CAR_MAX_VERTS {
        vert_count
    } else {
        CAR_MAX_VERTS
    };
    let cap: usize = if faces.len() < CAR_FACE_CAP {
        faces.len()
    } else {
        CAR_FACE_CAP
    };
    let mut out: Vec<Face> = Vec::new();
    let mut f: usize = 0;
    while f < cap
        invariant
            f <= cap,
            cap <= faces.len(),
            cap <= CAR_FACE_CAP,
            out.len() <= f,
            out@ == kept_faces(faces@, count as int, f as int),
        decreases cap - f,
    {
        let face = faces[f];
        if (face.0 as usize) < count && (face.1 as usize) < count && (face.2 as usize) < count {
            out.push(face);
        }
        f += 1;
    }
    out
}

/// A kept face never reaches past the kept vertices.
pub proof fn law_kept_faces_fit(faces: Seq<Face>, count: int, n: int)
    requires
        0 <= n <= faces.len(),
    ensures
        forall|i: int|
            0 <= i < kept_faces(faces, count, n).len() ==> fits(
                #[trigger] kept_faces(faces, count, n)[i],
                count,
            ),
    decreases n,
{
    if n > 0 {
        law_kept_faces_fit(faces, count, n - 1);
        let (less, all) = (kept_faces(faces, count, n - 1), kept_faces(faces, count, n));
        assert forall|i: int| 0 <= i < all.len() implies fits(#[trigger] all[i], count) by {
            if i < less.len() {
                assert(all[i] == less[i]);
            }
        }
    }
}

// ---- wheels ----------------------------------------------------------------

/// The box round a wheel's vertices.
#[derive(Copy, Clone, Debug, PartialEq, Eq, Structural)]
pub struct Extent {
    /// Its least corner.
    pub lo: V3,
    /// Its greatest corner.
    pub hi: V3,
}

/// A box grown to take a point.
pub open spec fn grown(e: Option<Extent>, p: V3) -> Option<Extent> {
    match e {
        None => Some(Extent { lo: p, hi: p }),
        Some(b) => Some(
            Extent {
                lo: vec3::v3(
                    num::min(b.lo.x as int, p.x as int),
                    num::min(b.lo.y as int, p.y as int),
                    num::min(b.lo.z as int, p.z as int),
                ),
                hi: vec3::v3(
                    num::max(b.hi.x as int, p.x as int),
                    num::max(b.hi.y as int, p.y as int),
                    num::max(b.hi.z as int, p.z as int),
                ),
            },
        ),
    }
}

/// The box round a wheel's vertices, of the first `n` of a mesh.
pub open spec fn extent(verts: Seq<V3>, slots: Seq<u8>, slot: int, n: int) -> Option<Extent>
    decreases n,
{
    if n <= 0 {
        None
    } else if slots[n - 1] == slot {
        grown(extent(verts, slots, slot, n - 1), verts[n - 1])
    } else {
        extent(verts, slots, slot, n - 1)
    }
}

/// The middle of a box, or the origin where there is none.
pub open spec fn middle(e: Option<Extent>) -> V3 {
    match e {
        None => vec3::zero3(),
        Some(b) => vec3::v3(
            num::tdiv(b.lo.x + b.hi.x, 2),
            num::tdiv(b.lo.y + b.hi.y, 2),
            num::tdiv(b.lo.z + b.hi.z, 2),
        ),
    }
}

/// The point each wheel turns about: the middle of the box round its vertices.
pub open spec fn wheel_pivots(verts: Seq<V3>, slots: Seq<u8>) -> Seq<V3> {
    Seq::new(
        4,
        |slot: int|
            middle(extent(verts, slots, slot, num::min(verts.len() as int, slots.len() as int))),
    )
}

/// Every vertex fits the hardware's registers.
pub open spec fn narrow(verts: Seq<V3>) -> bool {
    forall|i: int| 0 <= i < verts.len() ==> (#[trigger] verts[i]).within(32768)
}

fn grow(e: Option<Extent>, p: V3) -> (r: Option<Extent>)
    ensures
        r == grown(e, p),
{
    match e {
        None => Some(Extent { lo: p, hi: p }),
        Some(b) => Some(
            Extent {
                lo: V3::new(
                    num::min_i32(b.lo.x, p.x),
                    num::min_i32(b.lo.y, p.y),
                    num::min_i32(b.lo.z, p.z),
                ),
                hi: V3::new(
                    num::max_i32(b.hi.x, p.x),
                    num::max_i32(b.hi.y, p.y),
                    num::max_i32(b.hi.z, p.z),
                ),
            },
        ),
    }
}

fn find_pivot(verts: &Vec<V3>, slots: &Vec<u8>, slot: u8) -> (r: V3)
    requires
        narrow(verts@),
    ensures
        r == middle(
            extent(
                verts@,
                slots@,
                slot as int,
                num::min(verts.len() as int, slots.len() as int),
            ),
        ),
{
    let count: usize = if verts.len() < slots.len() {
        verts.len()
    } else {
        slots.len()
    };
    let mut e: Option<Extent> = None;
    let mut i: usize = 0;
    while i < count
        invariant
            i <= count,
            count <= verts.len(),
            count <= slots.len(),
            narrow(verts@),
            e == extent(verts@, slots@, slot as int, i as int),
            e matches Some(b) ==> b.lo.within(32768) && b.hi.within(32768),
        decreases count - i,
    {
        let p = verts[i];
        if slots[i] == slot {
            e = grow(e, p);
        }
        i += 1;
    }
    match e {
        None => V3::zero(),
        Some(b) => V3::new(
            (b.lo.x + b.hi.x) / 2,
            (b.lo.y + b.hi.y) / 2,
            (b.lo.z + b.hi.z) / 2,
        ),
    }
}

/// One pivot for each wheel, from the vertices its group holds. The middle of
/// the box round them, rather than their average, so that it does not move with
/// how finely a rim or a tyre is cut. A wheel with no vertices has its pivot at
/// the origin.
pub fn build_car_wheel_centres(verts: &Vec<V3>, slots: &Vec<u8>) -> (r: Vec<V3>)
    requires
        narrow(verts@),
    ensures
        r@ == wheel_pivots(verts@, slots@),
{
    let mut out: Vec<V3> = Vec::new();
    out.push(find_pivot(verts, slots, 0));
    out.push(find_pivot(verts, slots, 1));
    out.push(find_pivot(verts, slots, 2));
    out.push(find_pivot(verts, slots, 3));
    assert(out@ =~= wheel_pivots(verts@, slots@));
    out
}

/// A point is inside a box.
pub open spec fn boxed(b: Extent, p: V3) -> bool {
    &&& b.lo.x <= p.x <= b.hi.x
    &&& b.lo.y <= p.y <= b.hi.y
    &&& b.lo.z <= p.z <= b.hi.z
}

/// Cutting a wheel finer does not move its pivot: a vertex inside the box that
/// its others make leaves the box, and so the middle of it, where it was.
pub proof fn law_a_pivot_ignores_tessellation(b: Extent, p: V3)
    requires
        boxed(b, p),
    ensures
        grown(Some(b), p) == Some(b),
        middle(grown(Some(b), p)) == middle(Some(b)),
{
}

} // verus!
