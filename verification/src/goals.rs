//! The goals: a dark box at each end, netting hung inside it, and bright posts.

use vstd::prelude::*;
use crate::colour;
use crate::colour::{shade, Livery};
use crate::lens;
use crate::lens::{band_tint, flat_tint, push_quad, uv_patch, Corners, Dot, Lens, Packet, Page, Skin};
use crate::shell;
use crate::shell::net_texels;
use crate::tuning::{GOAL_DEPTH, GOAL_H, GOAL_HALF_W, HALF_Z};
use crate::vec3;
use crate::vec3::V3;
use crate::view::{Bounds, Rgb};

verus! {

/// The dark inside a goal, at the floor.
pub const GOAL_VOID: Rgb = (18, 20, 30);
/// The dark inside a goal, up at the crossbar.
pub const GOAL_VOID_HI: Rgb = (34, 38, 52);
/// The colour of a strand of net.
pub const COVER_STRAND: Rgb = (152, 156, 168);
/// How far inside the box the net hangs, so that it never ties with it.
pub const NET_HANG: i32 = 60;
/// Half a post's width.
pub const POST: i32 = 34;
/// Row the net's texture starts at.
pub const NET_V0: u8 = 64;

/// A panel across the goal, at one depth, between two heights.
pub open spec fn across(w: int, y0: int, y1: int, z: int) -> Corners {
    (vec3::v3(-w, y0, z), vec3::v3(w, y0, z), vec3::v3(-w, y1, z), vec3::v3(w, y1, z))
}

/// A panel down one side of the goal.
pub open spec fn aside(x: int, y1: int, z0: int, z1: int) -> Corners {
    (vec3::v3(x, 0, z0), vec3::v3(x, 0, z1), vec3::v3(x, y1, z0), vec3::v3(x, y1, z1))
}

/// A level panel, front to back.
pub open spec fn level(w: int, y: int, z0: int, z1: int) -> Corners {
    (vec3::v3(-w, y, z0), vec3::v3(w, y, z0), vec3::v3(-w, y, z1), vec3::v3(w, y, z1))
}

/// An upright post.
pub open spec fn post(x: int, z: int) -> Corners {
    (
        vec3::v3(x - 34, 0, z),
        vec3::v3(x + 34, 0, z),
        vec3::v3(x - 34, -643, z),
        vec3::v3(x + 34, -643, z),
    )
}

/// A patch of the net's texture.
pub open spec fn net_skin(w: int, h: int) -> Option<Skin> {
    Some(Skin { page: Page::Cover, uv: lens::patch(0, w, 64, 64 + h) })
}

/// A plain panel of one colour.
pub open spec fn panel<P: Fn(V3) -> Dot>(l: &Lens<P>, b: Bounds, c: Corners, tint: Rgb) -> Seq<
    Packet,
> {
    lens::quad(l, b, c, lens::flat(tint), 0, None, false)
}

/// The box behind the net: dark at the back and the floor, a shade of the
/// seat's colour round the sides.
#[verifier::opaque]
pub open spec fn goal_box<P: Fn(V3) -> Dot>(
    l: &Lens<P>,
    b: Bounds,
    line: int,
    back: int,
    color: Rgb,
) -> Seq<Packet> {
    let dim = colour::shaded(color, 1, 5);
    lens::quad(
        l,
        b,
        across(893, 0, -643, back),
        lens::banded(GOAL_VOID, GOAL_VOID_HI),
        0,
        None,
        false,
    ) + panel(l, b, aside(-893, -643, line, back), dim) + panel(
        l,
        b,
        aside(893, -643, line, back),
        dim,
    ) + panel(l, b, level(893, -643, line, back), dim) + panel(
        l,
        b,
        level(893, 0, line, back),
        GOAL_VOID,
    )
}

/// One face of the netting.
pub open spec fn net_face<P: Fn(V3) -> Dot>(
    l: &Lens<P>,
    b: Bounds,
    c: Corners,
    w: int,
    h: int,
    top: Rgb,
    bottom: Rgb,
) -> Seq<Packet> {
    lens::quad(l, b, c, lens::banded(top, bottom), 0, net_skin(w, h), true)
}

/// The netting: back, both sides and roof, hung well inside the box.
#[verifier::opaque]
pub open spec fn goal_net<P: Fn(V3) -> Dot>(
    l: &Lens<P>,
    b: Bounds,
    line: int,
    far: int,
) -> Seq<Packet> {
    let hi = colour::shaded(COVER_STRAND, 3400, 4096);
    let lo = colour::shaded(COVER_STRAND, 2400, 4096);
    let wide = shell::net_span(1786);
    let tall = shell::net_span(643);
    let deep = shell::net_span(880);
    net_face(l, b, across(833, 0, -583, far), wide, tall, lo, hi) + net_face(
        l,
        b,
        aside(-833, -583, line, far),
        deep,
        tall,
        lo,
        hi,
    ) + net_face(l, b, aside(833, -583, line, far), deep, tall, lo, hi) + net_face(
        l,
        b,
        level(833, -583, line, far),
        wide,
        deep,
        hi,
        hi,
    )
}

/// The posts and the crossbar.
#[verifier::opaque]
pub open spec fn goal_posts<P: Fn(V3) -> Dot>(
    l: &Lens<P>,
    b: Bounds,
    line: int,
    color: Rgb,
) -> Seq<Packet> {
    let bright = colour::shaded(color, 3, 2);
    panel(l, b, post(-893, line), bright) + panel(l, b, post(893, line), bright) + panel(
        l,
        b,
        across(893, -609, -677, line),
        bright,
    )
}

/// One goal.
pub open spec fn goal<P: Fn(V3) -> Dot>(l: &Lens<P>, b: Bounds, sz: int, color: Rgb) -> Seq<
    Packet,
> {
    goal_box(l, b, sz * 5120, sz * 6000, color) + goal_net(l, b, sz * 5120, sz * 5940)
        + goal_posts(l, b, sz * 5120, color)
}

/// Both goals. The one a seat shoots at wears the other seat's colour.
pub open spec fn both_goals<P: Fn(V3) -> Dot>(l: &Lens<P>, b: Bounds, livery: Livery) -> Seq<
    Packet,
> {
    goal(l, b, 1, livery.signal_of(1)) + goal(l, b, -1, livery.signal_of(0))
}

fn make_across(w: i32, y0: i32, y1: i32, z: i32) -> (r: Corners)
    requires
        0 <= w <= 2000,
    ensures
        r == across(w as int, y0 as int, y1 as int, z as int),
{
    (
        V3 { x: -w, y: y0, z },
        V3 { x: w, y: y0, z },
        V3 { x: -w, y: y1, z },
        V3 { x: w, y: y1, z },
    )
}

fn make_aside(x: i32, y1: i32, z0: i32, z1: i32) -> (r: Corners)
    ensures
        r == aside(x as int, y1 as int, z0 as int, z1 as int),
{
    (
        V3 { x, y: 0, z: z0 },
        V3 { x, y: 0, z: z1 },
        V3 { x, y: y1, z: z0 },
        V3 { x, y: y1, z: z1 },
    )
}

fn make_level(w: i32, y: i32, z0: i32, z1: i32) -> (r: Corners)
    requires
        0 <= w <= 2000,
    ensures
        r == level(w as int, y as int, z0 as int, z1 as int),
{
    (
        V3 { x: -w, y, z: z0 },
        V3 { x: w, y, z: z0 },
        V3 { x: -w, y, z: z1 },
        V3 { x: w, y, z: z1 },
    )
}

fn make_post(x: i32, z: i32) -> (r: Corners)
    requires
        -2000 <= x <= 2000,
    ensures
        r == post(x as int, z as int),
{
    (
        V3 { x: x - POST, y: 0, z },
        V3 { x: x + POST, y: 0, z },
        V3 { x: x - POST, y: -GOAL_H, z },
        V3 { x: x + POST, y: -GOAL_H, z },
    )
}

fn push_panel<P: Fn(V3) -> Dot>(
    out: &mut Vec<Packet>,
    lens: &Lens<P>,
    bounds: &Bounds,
    c: Corners,
    tint: Rgb,
)
    requires
        lens.wf(),
    ensures
        final(out)@ == old(out)@ + panel(lens, *bounds, c, tint),
{
    push_quad(out, lens, bounds, c, flat_tint(tint), 0, None, false);
}

fn push_box<P: Fn(V3) -> Dot>(
    out: &mut Vec<Packet>,
    lens: &Lens<P>,
    bounds: &Bounds,
    line: i32,
    back: i32,
    color: Rgb,
)
    requires
        lens.wf(),
    ensures
        final(out)@ == old(out)@ + goal_box(lens, *bounds, line as int, back as int, color),
{
    proof {
        reveal(goal_box);
    }
    let ghost before = out@;
    let dim = shade(color, 1, 5);
    push_quad(
        out,
        lens,
        bounds,
        make_across(GOAL_HALF_W, 0, -GOAL_H, back),
        band_tint((18, 20, 30), (34, 38, 52)),
        0,
        None,
        false,
    );
    push_panel(out, lens, bounds, make_aside(-GOAL_HALF_W, -GOAL_H, line, back), dim);
    push_panel(out, lens, bounds, make_aside(GOAL_HALF_W, -GOAL_H, line, back), dim);
    push_panel(out, lens, bounds, make_level(GOAL_HALF_W, -GOAL_H, line, back), dim);
    push_panel(out, lens, bounds, make_level(GOAL_HALF_W, 0, line, back), (18, 20, 30));
    assert(out@ =~= before + goal_box(lens, *bounds, line as int, back as int, color));
}

fn push_face<P: Fn(V3) -> Dot>(
    out: &mut Vec<Packet>,
    lens: &Lens<P>,
    bounds: &Bounds,
    c: Corners,
    w: u8,
    h: u8,
    top: Rgb,
    bottom: Rgb,
)
    requires
        lens.wf(),
        h <= 96,
    ensures
        final(out)@ == old(out)@ + net_face(
            lens,
            *bounds,
            c,
            w as int,
            h as int,
            top,
            bottom,
        ),
{
    let skin = Some(Skin { page: Page::Cover, uv: uv_patch(0, w, NET_V0, NET_V0 + h) });
    push_quad(out, lens, bounds, c, band_tint(top, bottom), 0, skin, true);
}

fn push_net<P: Fn(V3) -> Dot>(
    out: &mut Vec<Packet>,
    lens: &Lens<P>,
    bounds: &Bounds,
    line: i32,
    far: i32,
)
    requires
        lens.wf(),
    ensures
        final(out)@ == old(out)@ + goal_net(lens, *bounds, line as int, far as int),
{
    proof {
        reveal(goal_net);
    }
    let ghost before = out@;
    let hi = shade((152, 156, 168), 3400, 4096);
    let lo = shade((152, 156, 168), 2400, 4096);
    let wide: u8 = net_texels(2 * GOAL_HALF_W);
    let tall: u8 = net_texels(GOAL_H);
    let deep: u8 = net_texels(GOAL_DEPTH);
    let w: i32 = GOAL_HALF_W - NET_HANG;
    let y: i32 = NET_HANG - GOAL_H;
    push_face(out, lens, bounds, make_across(w, 0, y, far), wide, tall, lo, hi);
    push_face(out, lens, bounds, make_aside(-w, y, line, far), deep, tall, lo, hi);
    push_face(out, lens, bounds, make_aside(w, y, line, far), deep, tall, lo, hi);
    push_face(out, lens, bounds, make_level(w, y, line, far), wide, deep, hi, hi);
    assert(out@ =~= before + goal_net(lens, *bounds, line as int, far as int));
}

fn push_posts<P: Fn(V3) -> Dot>(
    out: &mut Vec<Packet>,
    lens: &Lens<P>,
    bounds: &Bounds,
    line: i32,
    color: Rgb,
)
    requires
        lens.wf(),
    ensures
        final(out)@ == old(out)@ + goal_posts(lens, *bounds, line as int, color),
{
    proof {
        reveal(goal_posts);
    }
    let ghost before = out@;
    let bright = shade(color, 3, 2);
    push_panel(out, lens, bounds, make_post(-GOAL_HALF_W, line), bright);
    push_panel(out, lens, bounds, make_post(GOAL_HALF_W, line), bright);
    push_panel(
        out,
        lens,
        bounds,
        make_across(GOAL_HALF_W, POST - GOAL_H, -GOAL_H - POST, line),
        bright,
    );
    assert(out@ =~= before + goal_posts(lens, *bounds, line as int, color));
}

fn push_goal<P: Fn(V3) -> Dot>(
    out: &mut Vec<Packet>,
    lens: &Lens<P>,
    bounds: &Bounds,
    sz: i32,
    color: Rgb,
)
    requires
        lens.wf(),
        sz == 1 || sz == -1,
    ensures
        final(out)@ == old(out)@ + goal(lens, *bounds, sz as int, color),
{
    let ghost before = out@;
    let line: i32 = sz * HALF_Z;
    let back: i32 = sz * (HALF_Z + GOAL_DEPTH);
    let far: i32 = sz * (HALF_Z + GOAL_DEPTH - NET_HANG);
    push_box(out, lens, bounds, line, back, color);
    push_net(out, lens, bounds, line, far);
    push_posts(out, lens, bounds, line, color);
    assert(out@ =~= before + goal(lens, *bounds, sz as int, color));
}

/// Both goals, each wearing the colour of the seat that defends it.
pub fn goals<P: Fn(V3) -> Dot>(
    out: &mut Vec<Packet>,
    lens: &Lens<P>,
    bounds: &Bounds,
    livery: &Livery,
)
    requires
        lens.wf(),
        livery.wf(),
    ensures
        final(out)@ == old(out)@ + both_goals(lens, *bounds, *livery),
{
    let ghost before = out@;
    push_goal(out, lens, bounds, 1, livery.seat_signal(1));
    push_goal(out, lens, bounds, -1, livery.seat_signal(0));
    assert(out@ =~= before + both_goals(lens, *bounds, *livery));
}

/// The net fits its texture on every face, with nothing to tile.
pub proof fn law_the_net_fits_its_texture()
    ensures
        shell::net_span(2 * GOAL_HALF_W) <= 96,
        shell::net_span(GOAL_H as int) <= 48,
        shell::net_span(GOAL_DEPTH as int) <= 48,
{
}

} // verus!
