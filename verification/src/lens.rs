//! Projected geometry. The projection itself is done outside: a [`Lens`] takes
//! a point to the screen, and everything here decides from where it lands.

use vstd::prelude::*;
use crate::view;
use crate::view::{quad_overlaps_view, Bounds, Rgb};
use crate::panels::ScreenQuad;
use crate::vec3::V3;

verus! {

/// Where a point lands on the screen, and how deep. A depth of zero is behind
/// the near plane.
#[derive(Copy, Clone, Debug, PartialEq, Eq, Structural)]
pub struct Dot {
    /// Column.
    pub sx: i16,
    /// Row.
    pub sy: i16,
    /// Depth.
    pub sz: u16,
}

/// Takes points to the screen.
pub struct Lens<P> {
    project: P,
}

/// `f` may be asked about every point.
pub open spec fn projects_all<P: Fn(V3) -> Dot>(f: P) -> bool {
    forall|p: V3| #[trigger] f.requires((p,))
}

/// `f` takes each point to one place.
pub open spec fn one_place<P: Fn(V3) -> Dot>(f: P) -> bool {
    forall|p: V3, a: Dot, b: Dot| #[trigger]
        f.ensures((p,), a) && #[trigger] f.ensures((p,), b) ==> a == b
}

/// `f` keeps every point near the screen.
pub open spec fn near_screen<P: Fn(V3) -> Dot>(f: P) -> bool {
    forall|p: V3, a: Dot| #[trigger] f.ensures((p,), a) ==> a.near()
}

impl Dot {
    /// Near the screen: points that miss it are held at its edge.
    pub open spec fn near(self) -> bool {
        -4096 <= self.sx <= 4096 && -4096 <= self.sy <= 4096
    }
}

impl<P: Fn(V3) -> Dot> Lens<P> {
    /// Where a point lands.
    pub closed spec fn at(&self, p: V3) -> Dot {
        choose|d: Dot| self.project.ensures((p,), d)
    }

    /// Every point lands somewhere near the screen, and always in the same
    /// place.
    pub closed spec fn wf(&self) -> bool {
        &&& projects_all(self.project)
        &&& one_place(self.project)
        &&& near_screen(self.project)
    }

    /// Takes the projection.
    pub fn new(project: P) -> (r: Self)
        requires
            projects_all(project),
            one_place(project),
            near_screen(project),
        ensures
            r.wf(),
            forall|p: V3, d: Dot| #[trigger] project.ensures((p,), d) ==> r.at(p) == d,
    {
        Lens { project }
    }

    /// Where a point lands.
    pub fn project(&self, p: V3) -> (r: Dot)
        requires
            self.wf(),
        ensures
            r == self.at(p),
            r.near(),
    {
        (self.project)(p)
    }
}

/// The atlas page and palette a textured quad samples.
#[derive(Copy, Clone, Debug, PartialEq, Eq, Structural)]
pub enum Page {
    /// The plain pitch.
    Grass,
    /// The barrier panel.
    Wall,
    /// The honeycomb enclosure, and the goal nets.
    Cover,
    /// The marked pitch, left half.
    MarkedLeft,
    /// The marked pitch, right half.
    MarkedRight,
}

/// A texture on a quad: its page, and a packed coordinate at each corner.
#[derive(Copy, Clone, Debug, PartialEq, Eq)]
pub struct Skin {
    /// Page and palette.
    pub page: Page,
    /// Packed coordinates, in the order of the corners.
    pub uv: (u16, u16, u16, u16),
}

/// Where a packet is filed: a fixed slot, or at a depth.
#[derive(Copy, Clone, Debug, PartialEq, Eq, Structural)]
pub enum Filing {
    /// A fixed slot of the ordering table.
    Slot(usize),
    /// A camera-space depth.
    At(i32),
}

/// A quad ready to draw, corners in Z order.
#[derive(Copy, Clone, Debug, PartialEq, Eq)]
pub struct Packet {
    /// Corners, on the screen.
    pub at: ((i16, i16), (i16, i16), (i16, i16), (i16, i16)),
    /// Where it is filed.
    pub filing: Filing,
    /// Colours at the corners.
    pub tint: (Rgb, Rgb, Rgb, Rgb),
    /// Its texture, if it has one.
    pub skin: Option<Skin>,
    /// Averaged with what is behind it, rather than covering it.
    pub blended: bool,
}

/// Four points in the world, in Z order.
pub type Corners = (V3, V3, V3, V3);

/// Four colours, in the same order.
pub type Tints = (Rgb, Rgb, Rgb, Rgb);

/// Four dots as screen points.
pub open spec fn points(a: Dot, b: Dot, c: Dot, d: Dot) -> Seq<(i16, i16)> {
    seq![(a.sx, a.sy), (b.sx, b.sy), (c.sx, c.sy), (d.sx, d.sy)]
}

/// Every corner is in front of the near plane.
pub open spec fn in_front(a: Dot, b: Dot, c: Dot, d: Dot) -> bool {
    a.sz != 0 && b.sz != 0 && c.sz != 0 && d.sz != 0
}

/// The depth four corners are filed at: their average, and a bias.
pub open spec fn mean_depth(a: Dot, b: Dot, c: Dot, d: Dot, bias: int) -> int {
    (a.sz + b.sz + c.sz + d.sz) / 4 + bias
}

/// A quad over four dots.
pub open spec fn over(
    a: Dot,
    b: Dot,
    c: Dot,
    d: Dot,
    tint: Tints,
    bias: int,
    skin: Option<Skin>,
    blended: bool,
) -> Packet {
    Packet {
        at: ((a.sx, a.sy), (b.sx, b.sy), (c.sx, c.sy), (d.sx, d.sy)),
        filing: Filing::At(mean_depth(a, b, c, d, bias) as i32),
        tint,
        skin,
        blended,
    }
}

/// The packet a quad in the world makes: none with a corner behind the camera
/// or with nothing on screen.
#[verifier::opaque]
pub open spec fn quad<P: Fn(V3) -> Dot>(
    l: &Lens<P>,
    b: Bounds,
    c: Corners,
    tint: Tints,
    bias: int,
    skin: Option<Skin>,
    blended: bool,
) -> Seq<Packet> {
    let (p, q, r, s) = (l.at(c.0), l.at(c.1), l.at(c.2), l.at(c.3));
    if in_front(p, q, r, s) && view::overlaps(b, points(p, q, r, s)) {
        seq![over(p, q, r, s, tint, bias, skin, blended)]
    } else {
        Seq::empty()
    }
}

/// One colour at every corner.
pub open spec fn flat(c: Rgb) -> Tints {
    (c, c, c, c)
}

/// A colour along the top and another along the bottom.
pub open spec fn banded(top: Rgb, bottom: Rgb) -> Tints {
    (top, top, bottom, bottom)
}

/// One colour at every corner.
pub fn flat_tint(c: Rgb) -> (r: Tints)
    ensures
        r == flat(c),
{
    (c, c, c, c)
}

/// A colour along the top and another along the bottom.
pub fn band_tint(top: Rgb, bottom: Rgb) -> (r: Tints)
    ensures
        r == banded(top, bottom),
{
    (top, top, bottom, bottom)
}

/// Files a quad over four dots.
pub fn file(
    a: Dot,
    b: Dot,
    c: Dot,
    d: Dot,
    tint: Tints,
    bias: i32,
    skin: Option<Skin>,
    blended: bool,
) -> (r: Packet)
    requires
        -0x10_0000 <= bias <= 0x10_0000,
    ensures
        r == over(a, b, c, d, tint, bias as int, skin, blended),
{
    let sum: i32 = a.sz as i32 + b.sz as i32 + c.sz as i32 + d.sz as i32;
    Packet {
        at: ((a.sx, a.sy), (b.sx, b.sy), (c.sx, c.sy), (d.sx, d.sy)),
        filing: Filing::At(sum / 4 + bias),
        tint,
        skin,
        blended,
    }
}

/// Whether four dots make a quad that reaches the screen.
pub fn dots_overlap(bounds: &Bounds, a: Dot, b: Dot, c: Dot, d: Dot) -> (r: bool)
    ensures
        r == view::overlaps(*bounds, points(a, b, c, d)),
{
    let sp: [(i16, i16); 4] = [(a.sx, a.sy), (b.sx, b.sy), (c.sx, c.sy), (d.sx, d.sy)];
    assert(sp@ =~= points(a, b, c, d));
    quad_overlaps_view(bounds, &sp)
}

/// Projects four corners and files the quad at its average depth. Drops quads
/// with a corner behind the camera and quads entirely off screen.
pub fn push_quad<P: Fn(V3) -> Dot>(
    out: &mut Vec<Packet>,
    lens: &Lens<P>,
    bounds: &Bounds,
    c: Corners,
    tint: Tints,
    bias: i32,
    skin: Option<Skin>,
    blended: bool,
)
    requires
        lens.wf(),
        -0x10_0000 <= bias <= 0x10_0000,
    ensures
        final(out)@ == old(out)@ + quad(lens, *bounds, c, tint, bias as int, skin, blended),
{
    proof {
        reveal(quad);
    }
    let ghost before = out@;
    let p = lens.project(c.0);
    let q = lens.project(c.1);
    let r = lens.project(c.2);
    let s = lens.project(c.3);
    if p.sz != 0 && q.sz != 0 && r.sz != 0 && s.sz != 0 && dots_overlap(bounds, p, q, r, s) {
        out.push(file(p, q, r, s, tint, bias, skin, blended));
    }
    assert(out@ =~= before + quad(lens, *bounds, c, tint, bias as int, skin, blended));
}

/// A fixed quad of the screen, as a packet.
pub open spec fn on_glass(q: ScreenQuad) -> Packet {
    Packet {
        at: (q.a, q.b, q.c, q.d),
        filing: Filing::Slot(q.slot),
        tint: q.tint,
        skin: None,
        blended: false,
    }
}

/// Fixed quads of the screen, as packets.
pub open spec fn all_on_glass(q: Seq<ScreenQuad>) -> Seq<Packet> {
    q.map_values(|s: ScreenQuad| on_glass(s))
}

/// Appends fixed quads of the screen.
pub fn push_glass(out: &mut Vec<Packet>, quads: &Vec<ScreenQuad>)
    ensures
        final(out)@ == old(out)@ + all_on_glass(quads@),
{
    let ghost before = out@;
    let mut i: usize = 0;
    while i < quads.len()
        invariant
            i <= quads.len(),
            out@ == before + all_on_glass(quads@).take(i as int),
        decreases quads.len() - i,
    {
        let q = quads[i];
        out.push(
            Packet {
                at: (q.a, q.b, q.c, q.d),
                filing: Filing::Slot(q.slot),
                tint: q.tint,
                skin: None,
                blended: false,
            },
        );
        i += 1;
        assert(out@ =~= before + all_on_glass(quads@).take(i as int));
    }
    assert(out@ =~= before + all_on_glass(quads@));
}

/// One texture coordinate, packed: the row above the column.
pub open spec fn packed(u: int, v: int) -> u16 {
    (u + v * 256) as u16
}

/// One texture coordinate, packed.
pub fn uvw(u: u8, v: u8) -> (r: u16)
    ensures
        r == packed(u as int, v as int),
{
    u as u16 + v as u16 * 256
}

/// The packed corners of a rectangle of texture.
pub open spec fn patch(u0: int, u1: int, v0: int, v1: int) -> (u16, u16, u16, u16) {
    (packed(u0, v0), packed(u1, v0), packed(u0, v1), packed(u1, v1))
}

/// The packed corners of a rectangle of texture.
pub fn uv_patch(u0: u8, u1: u8, v0: u8, v1: u8) -> (r: (u16, u16, u16, u16))
    ensures
        r == patch(u0 as int, u1 as int, v0 as int, v1 as int),
{
    (uvw(u0, v0), uvw(u1, v0), uvw(u0, v1), uvw(u1, v1))
}

/// A quad with a corner behind the camera is never drawn.
pub proof fn law_nothing_behind_the_lens_is_drawn<P: Fn(V3) -> Dot>(
    l: &Lens<P>,
    b: Bounds,
    c: Corners,
    tint: Tints,
    bias: int,
    skin: Option<Skin>,
    blended: bool,
)
    requires
        l.at(c.0).sz == 0 || l.at(c.1).sz == 0 || l.at(c.2).sz == 0 || l.at(c.3).sz == 0,
    ensures
        quad(l, b, c, tint, bias, skin, blended).len() == 0,
{
    reveal(quad);
}

} // verus!
