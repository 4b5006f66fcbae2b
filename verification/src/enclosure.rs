//! The translucent enclosure: over the goal mouths and over the roof, and the
//! floodlights hung under it.

use vstd::prelude::*;
use crate::cull::Cull;
use crate::lens;
use crate::lens::{band_tint, flat_tint, push_quad, uv_patch, Dot, Lens, Packet, Page, Skin, Tints};
use crate::light;
use crate::light::{Lighting, LAMPS};
use crate::num;
use crate::num::{abs_i32, clamp_i32};
use crate::shell;
use crate::shell::{
    cover_texels, roof_corner_x, roof_corner_z, PROFILE_LEN, ROOF_COLS, ROOF_HALF_X, ROOF_HALF_Z,
    ROOF_ROWS, SPAN_COUNT, WALL_TOP_RING,
};
use crate::tuning::{CEIL, GOAL_HALF_W, HALF_Z};
use crate::vec3;
use crate::vec3::V3;
use crate::view::Rgb;
use crate::walls;
use crate::walls::{inside_goal, wall_span, Walls};

verus! {

// ---- over the goal mouths --------------------------------------------------

/// A point of the cross-section at a goal mouth, on one side of it.
pub open spec fn mouth_point(sz: int, x: int, p: (int, int)) -> V3 {
    vec3::v3(x, -p.1, sz * 5120 - sz * p.0)
}

/// One band of the enclosure across a goal mouth.
#[verifier::opaque]
pub open spec fn mouth_band<P: Fn(V3) -> Dot>(
    l: &Lens<P>,
    c: Cull,
    sz: int,
    lo: (int, int),
    hi: (int, int),
    v0: int,
    v1: int,
    tint: Tints,
) -> Seq<Packet> {
    lens::quad(
        l,
        c.bounds,
        (
            mouth_point(sz, -893, lo),
            mouth_point(sz, 893, lo),
            mouth_point(sz, -893, hi),
            mouth_point(sz, 893, hi),
        ),
        tint,
        0,
        Some(Skin { page: Page::Cover, uv: lens::patch(134, 216, v0, v1) }),
        true,
    )
}

/// The run of wall on the left of a goal mouth.
pub open spec fn left_run(sz: int) -> int {
    if sz < 0 {
        20
    } else {
        22
    }
}

/// The tints at the two posts of a goal mouth, borrowed from the walls beside
/// it so that the shared edges match.
pub open spec fn post_tints(w: &Lighting, sz: int, ri: int) -> (Rgb, Rgb) {
    let look = light::look_of(w.time);
    (
        light::wall_tint(w.angles@, look, w.livery, left_run(sz), ri, 4),
        light::wall_tint(w.angles@, look, w.livery, left_run(sz) + 1, ri, 0),
    )
}

/// One channel part of the way up the straight wall.
pub open spec fn part_channel(x: u8, y: u8, den: int) -> u8 {
    num::clamp(x + num::tdiv((y - x) * 243, den), 0, 255) as u8
}

/// A tint at the height of the crossbar, between the rail's and the wall top's.
pub open spec fn part_tint(a: Rgb, b: Rgb, den: int) -> Rgb {
    (part_channel(a.0, b.0, den), part_channel(a.1, b.1, den), part_channel(a.2, b.2, den))
}

/// The straight net from the crossbar to the roof curve.
#[verifier::opaque]
pub open spec fn crossbar_band<P: Fn(V3) -> Dot>(
    l: &Lens<P>,
    w: &Lighting,
    c: Cull,
    sz: int,
) -> Seq<Packet> {
    let t = w.angles@;
    let top = shell::ring(t, 11);
    let den = top.1 - 400;
    let rail = post_tints(w, sz, 10);
    let wall = post_tints(w, sz, 11);
    mouth_band(
        l,
        c,
        sz,
        (0, 643),
        top,
        (shell::ring_v(t, 11) * 243) / den,
        shell::ring_v(t, 11),
        (part_tint(rail.0, wall.0, den), part_tint(rail.1, wall.1, den), wall.0, wall.1),
    )
}

/// One band of the roof curve over a goal mouth.
#[verifier::opaque]
pub open spec fn arc_band<P: Fn(V3) -> Dot>(
    l: &Lens<P>,
    w: &Lighting,
    c: Cull,
    sz: int,
    ri: int,
) -> Seq<Packet> {
    let t = w.angles@;
    let lo = post_tints(w, sz, ri);
    let hi = post_tints(w, sz, ri + 1);
    mouth_band(
        l,
        c,
        sz,
        shell::ring(t, ri),
        shell::ring(t, ri + 1),
        shell::ring_v(t, ri),
        shell::ring_v(t, ri + 1),
        (lo.0, lo.1, hi.0, hi.1),
    )
}

/// The roof curve over a goal mouth, up to a ring.
pub open spec fn arc_bands<P: Fn(V3) -> Dot>(
    l: &Lens<P>,
    w: &Lighting,
    c: Cull,
    sz: int,
    ri: int,
) -> Seq<Packet>
    decreases ri,
{
    if ri <= 11 {
        Seq::empty()
    } else {
        arc_bands(l, w, c, sz, ri - 1) + arc_band(l, w, c, sz, ri - 1)
    }
}

/// The enclosure over one goal mouth. Nothing from inside the goal.
#[verifier::opaque]
pub open spec fn lintel<P: Fn(V3) -> Dot>(
    l: &Lens<P>,
    w: &Lighting,
    c: Cull,
    sz: int,
) -> Seq<Packet> {
    if walls::in_goal(c, sz) {
        Seq::empty()
    } else {
        crossbar_band(l, w, c, sz) + arc_bands(l, w, c, sz, 19)
    }
}

/// The walls: every run, and the enclosure over both goal mouths.
pub open spec fn all_walls<P: Fn(V3) -> Dot>(l: &Lens<P>, w: &Lighting, c: Cull) -> Seq<Packet> {
    walls::all_swept(l, w, c, 24) + lintel(l, w, c, -1) + lintel(l, w, c, 1)
}

fn push_mouth_band<P: Fn(V3) -> Dot>(
    out: &mut Vec<Packet>,
    lens: &Lens<P>,
    cull: &Cull,
    sz: i32,
    lo: (i32, i32),
    hi: (i32, i32),
    v0: u8,
    v1: u8,
    tint: Tints,
)
    requires
        lens.wf(),
        sz == 1 || sz == -1,
        0 <= lo.0 <= 4096,
        0 <= lo.1 <= 4096,
        0 <= hi.0 <= 4096,
        0 <= hi.1 <= 4096,
    ensures
        final(out)@ == old(out)@ + mouth_band(
            lens,
            *cull,
            sz as int,
            (lo.0 as int, lo.1 as int),
            (hi.0 as int, hi.1 as int),
            v0 as int,
            v1 as int,
            tint,
        ),
{
    proof {
        reveal(mouth_band);
    }
    let za: i32 = if sz > 0 {
        HALF_Z - lo.0
    } else {
        lo.0 - HALF_Z
    };
    let zb: i32 = if sz > 0 {
        HALF_Z - hi.0
    } else {
        hi.0 - HALF_Z
    };
    assert(za == sz * 5120 - sz * lo.0 && zb == sz * 5120 - sz * hi.0) by (nonlinear_arith)
        requires
            sz == 1 && za == 5120 - lo.0 && zb == 5120 - hi.0 || sz == -1 && za == lo.0 - 5120
                && zb == hi.0 - 5120,
    ;
    push_quad(
        out,
        lens,
        &cull.bounds,
        (
            V3 { x: -GOAL_HALF_W, y: -lo.1, z: za },
            V3 { x: GOAL_HALF_W, y: -lo.1, z: za },
            V3 { x: -GOAL_HALF_W, y: -hi.1, z: zb },
            V3 { x: GOAL_HALF_W, y: -hi.1, z: zb },
        ),
        tint,
        0,
        Some(Skin { page: Page::Cover, uv: uv_patch(134, 216, v0, v1) }),
        true,
    );
}

fn find_posts(w: &Walls<'_>, sz: i32, ri: usize) -> (r: (Rgb, Rgb))
    requires
        w.wf(),
        sz == 1 || sz == -1,
        ri < PROFILE_LEN,
    ensures
        r == post_tints(w.lights, sz as int, ri as int),
{
    let left: usize = if sz < 0 {
        20
    } else {
        22
    };
    (w.lights.wall_at(left, ri, 4), w.lights.wall_at(left + 1, ri, 0))
}

fn part(x: u8, y: u8, den: i32) -> (r: u8)
    requires
        243 <= den <= 4096,
    ensures
        r == part_channel(x, y, den as int),
{
    let d: i32 = y as i32 - x as i32;
    proof {
        num::lemma_tdiv_bound(d * 243, den as int, 255);
    }
    clamp_i32(x as i32 + d * 243 / den, 0, 255) as u8
}

fn find_part(a: Rgb, b: Rgb, den: i32) -> (r: Rgb)
    requires
        243 <= den <= 4096,
    ensures
        r == part_tint(a, b, den as int),
{
    (part(a.0, b.0, den), part(a.1, b.1, den), part(a.2, b.2, den))
}

fn push_crossbar<P: Fn(V3) -> Dot>(
    out: &mut Vec<Packet>,
    lens: &Lens<P>,
    w: &Walls<'_>,
    cull: &Cull,
    sz: i32,
)
    requires
        lens.wf(),
        w.wf(),
        sz == 1 || sz == -1,
    ensures
        final(out)@ == old(out)@ + crossbar_band(lens, w.lights, *cull, sz as int),
{
    proof {
        reveal(crossbar_band);
        shell::lemma_ring(w.lights.angles@, 11);
    }
    let top = w.profile.rings[WALL_TOP_RING];
    let den: i32 = top.1 - 400;
    let row: u8 = w.profile.rows[WALL_TOP_RING];
    let rail = find_posts(w, sz, 10);
    let wall = find_posts(w, sz, 11);
    assert(0 <= (row * 243) / (den as int) <= 255) by (nonlinear_arith)
        requires
            0 <= row <= 255,
            den >= 1124,
    ;
    let v: u8 = (row as i32 * 243 / den) as u8;
    push_mouth_band(
        out,
        lens,
        cull,
        sz,
        (0, 643),
        top,
        v,
        row,
        (find_part(rail.0, wall.0, den), find_part(rail.1, wall.1, den), wall.0, wall.1),
    );
}

fn push_lintel<P: Fn(V3) -> Dot>(
    out: &mut Vec<Packet>,
    lens: &Lens<P>,
    w: &Walls<'_>,
    cull: &Cull,
    sz: i32,
)
    requires
        lens.wf(),
        w.wf(),
        cull.wf(),
        sz == 1 || sz == -1,
    ensures
        final(out)@ == old(out)@ + lintel(lens, w.lights, *cull, sz as int),
{
    proof {
        reveal(lintel);
    }
    let ghost before = out@;
    if inside_goal(cull, sz) {
        assert(out@ =~= before + lintel(lens, w.lights, *cull, sz as int));
        return ;
    }
    push_crossbar(out, lens, w, cull, sz);
    let ghost first = crossbar_band(lens, w.lights, *cull, sz as int);
    let mut ri: usize = 11;
    assert(out@ =~= before + first + arc_bands(lens, w.lights, *cull, sz as int, 11));
    while ri < 19
        invariant
            11 <= ri <= 19,
            lens.wf(),
            w.wf(),
            sz == 1 || sz == -1,
            out@ == before + first + arc_bands(lens, w.lights, *cull, sz as int, ri as int),
        decreases 19 - ri,
    {
        proof {
            reveal(arc_band);
            shell::lemma_ring(w.lights.angles@, ri as int);
            shell::lemma_ring(w.lights.angles@, ri + 1);
        }
        let lo = find_posts(w, sz, ri);
        let hi = find_posts(w, sz, ri + 1);
        push_mouth_band(
            out,
            lens,
            cull,
            sz,
            w.profile.rings[ri],
            w.profile.rings[ri + 1],
            w.profile.rows[ri],
            w.profile.rows[ri + 1],
            (lo.0, lo.1, hi.0, hi.1),
        );
        ri += 1;
        assert(out@ =~= before + first + arc_bands(lens, w.lights, *cull, sz as int, ri as int));
    }
    assert(out@ =~= before + lintel(lens, w.lights, *cull, sz as int));
}

/// The walls: every run of the perimeter, and the enclosure continued over both
/// goal mouths.
pub fn walls<P: Fn(V3) -> Dot>(
    out: &mut Vec<Packet>,
    lens: &Lens<P>,
    w: &Walls<'_>,
    cull: &Cull,
)
    requires
        lens.wf(),
        w.wf(),
        cull.wf(),
    ensures
        final(out)@ == old(out)@ + all_walls(lens, w.lights, *cull),
{
    let ghost before = out@;
    let mut si: usize = 0;
    assert(out@ =~= before + walls::all_swept(lens, w.lights, *cull, 0));
    while si < SPAN_COUNT
        invariant
            si <= SPAN_COUNT,
            lens.wf(),
            w.wf(),
            cull.wf(),
            out@ == before + walls::all_swept(lens, w.lights, *cull, si as nat),
        decreases SPAN_COUNT - si,
    {
        wall_span(out, lens, w, cull, si);
        si += 1;
        assert(out@ =~= before + walls::all_swept(lens, w.lights, *cull, si as nat));
    }
    push_lintel(out, lens, w, cull, -1);
    push_lintel(out, lens, w, cull, 1);
    assert(out@ =~= before + all_walls(lens, w.lights, *cull));
}

// ---- the roof --------------------------------------------------------------

/// The flat roof is in view.
pub open spec fn roof_seen(c: Cull) -> bool {
    let at = vec3::v3(0, -2044, 0);
    let h = vec3::v3(3836, 0, 4860);
    c.sees(at, h) && c.sees_vertically(at, h)
}

/// One patch of the roof.
#[verifier::opaque]
pub open spec fn roof_patch<P: Fn(V3) -> Dot>(
    l: &Lens<P>,
    w: &Lighting,
    c: Cull,
    ix: int,
    iz: int,
) -> Seq<Packet> {
    let (x0, x1) = (shell::roof_x(ix), shell::roof_x(ix + 1));
    let (z0, z1) = (shell::roof_z(iz), shell::roof_z(iz + 1));
    let look = light::look_of(w.time);
    if !c.sees(
        vec3::v3(num::tdiv(x0 + x1, 2), -2044, num::tdiv(z0 + z1, 2)),
        vec3::v3(704, 0, 308),
    ) {
        Seq::empty()
    } else {
        let u = 128 + shell::cover_span(x1 - x0);
        let v = num::clamp(num::tdiv(z1 - z0 + 21, 22), 1, 28);
        lens::quad(
            l,
            c.bounds,
            (
                vec3::v3(x0, -2044, z0),
                vec3::v3(x1, -2044, z0),
                vec3::v3(x0, -2044, z1),
                vec3::v3(x1, -2044, z1),
            ),
            (
                light::roof_tint(look, ix, iz),
                light::roof_tint(look, ix + 1, iz),
                light::roof_tint(look, ix, iz + 1),
                light::roof_tint(look, ix + 1, iz + 1),
            ),
            0,
            Some(Skin { page: Page::Cover, uv: lens::patch(128, u, 0, v) }),
            true,
        )
    }
}

/// The first `k` patches of the roof, a row at a time.
pub open spec fn roof_patches<P: Fn(V3) -> Dot>(
    l: &Lens<P>,
    w: &Lighting,
    c: Cull,
    k: nat,
) -> Seq<Packet>
    decreases k,
{
    if k == 0 {
        Seq::empty()
    } else {
        roof_patches(l, w, c, (k - 1) as nat) + roof_patch(l, w, c, (k - 1) % 6, (k - 1) / 6)
    }
}

/// The roof.
pub open spec fn roof<P: Fn(V3) -> Dot>(l: &Lens<P>, w: &Lighting, c: Cull) -> Seq<Packet> {
    if roof_seen(c) {
        roof_patches(l, w, c, 96)
    } else {
        Seq::empty()
    }
}

fn push_patch<P: Fn(V3) -> Dot>(
    out: &mut Vec<Packet>,
    lens: &Lens<P>,
    lights: &Lighting,
    cull: &Cull,
    ix: usize,
    iz: usize,
)
    requires
        lens.wf(),
        lights.wf(),
        cull.wf(),
        ix < ROOF_COLS,
        iz < ROOF_ROWS,
    ensures
        final(out)@ == old(out)@ + roof_patch(lens, lights, *cull, ix as int, iz as int),
{
    proof {
        reveal(roof_patch);
    }
    let ghost before = out@;
    let x0: i32 = roof_corner_x(ix);
    let x1: i32 = roof_corner_x(ix + 1);
    let z0: i32 = roof_corner_z(iz);
    let z1: i32 = roof_corner_z(iz + 1);
    let at = V3 { x: (x0 + x1) / 2, y: -CEIL, z: (z0 + z1) / 2 };
    if !cull.visible(at, V3 { x: 704, y: 0, z: 308 }) {
        assert(out@ =~= before + roof_patch(lens, lights, *cull, ix as int, iz as int));
        return ;
    }
    let wide: u8 = cover_texels(x1 - x0);
    assert(wide <= 64) by {
        assert(x1 - x0 <= 1408);
    }
    let tall: i32 = clamp_i32((z1 - z0 + 21) / 22, 1, 28);
    push_quad(
        out,
        lens,
        &cull.bounds,
        (
            V3 { x: x0, y: -CEIL, z: z0 },
            V3 { x: x1, y: -CEIL, z: z0 },
            V3 { x: x0, y: -CEIL, z: z1 },
            V3 { x: x1, y: -CEIL, z: z1 },
        ),
        (
            lights.roof_at(ix, iz),
            lights.roof_at(ix + 1, iz),
            lights.roof_at(ix, iz + 1),
            lights.roof_at(ix + 1, iz + 1),
        ),
        0,
        Some(Skin { page: Page::Cover, uv: uv_patch(128, 128 + wide, 0, tall as u8) }),
        true,
    );
}

/// The translucent cover over the roof, in patches at exact texture repeats.
pub fn ceiling<P: Fn(V3) -> Dot>(
    out: &mut Vec<Packet>,
    lens: &Lens<P>,
    lights: &Lighting,
    cull: &Cull,
)
    requires
        lens.wf(),
        lights.wf(),
        cull.wf(),
    ensures
        final(out)@ == old(out)@ + roof(lens, lights, *cull),
{
    let ghost before = out@;
    let at = V3 { x: 0, y: -CEIL, z: 0 };
    let h = V3 { x: ROOF_HALF_X, y: 0, z: ROOF_HALF_Z };
    if !cull.visible(at, h) || !cull.visible_vertically(at, h) {
        assert(out@ =~= before + roof(lens, lights, *cull));
        return ;
    }
    let mut k: usize = 0;
    assert(out@ =~= before + roof_patches(lens, lights, *cull, 0));
    while k < 96
        invariant
            k <= 96,
            lens.wf(),
            lights.wf(),
            cull.wf(),
            out@ == before + roof_patches(lens, lights, *cull, k as nat),
        decreases 96 - k,
    {
        push_patch(out, lens, lights, cull, k % 6, k / 6);
        k += 1;
        assert(out@ =~= before + roof_patches(lens, lights, *cull, k as nat));
    }
}

// ---- the floodlights -------------------------------------------------------

/// Half the length of a floodlight bar.
pub const LAMP_HALF_W: i32 = 680;
/// Half the height of its glowing face.
pub const LAMP_HALF_H: i32 = 84;

/// Where a floodlight hangs, in uu.
pub open spec fn hung_at(i: int) -> V3 {
    let p = LAMPS@[i].0;
    vec3::v3(p.0 * 64, p.1 * 64, p.2 * 64)
}

/// The way a floodlight's bar runs: along the wall it hangs on, or along the
/// chamfer in a corner.
pub open spec fn bar_along(p: V3) -> (int, int) {
    if num::abs(p.x as int) > 3000 && num::abs(p.z as int) > 3000 {
        (
            if p.x < 0 {
                680
            } else {
                -680int
            },
            if p.z < 0 {
                -680int
            } else {
                680
            },
        )
    } else if num::abs(p.x as int) > num::abs(p.z as int) {
        (0, 680)
    } else {
        (680, 0)
    }
}

/// An upright panel along a bar, between two heights.
pub open spec fn bar_corners(p: V3, along: (int, int), top: int, bottom: int) -> lens::Corners {
    (
        vec3::v3(p.x - along.0, top, p.z - along.1),
        vec3::v3(p.x + along.0, top, p.z + along.1),
        vec3::v3(p.x - along.0, bottom, p.z - along.1),
        vec3::v3(p.x + along.0, bottom, p.z + along.1),
    )
}

/// One floodlight: the glowing bar, and the housing over it.
#[verifier::opaque]
pub open spec fn fixture<P: Fn(V3) -> Dot>(l: &Lens<P>, c: Cull, i: int) -> Seq<Packet> {
    let p = hung_at(i);
    if !c.sees(p, vec3::v3(680, 200, 680)) {
        Seq::empty()
    } else {
        let a = bar_along(p);
        let top = p.y - 84;
        lens::quad(
            l,
            c.bounds,
            bar_corners(p, a, top, p.y + 84),
            lens::banded((255, 252, 236), (214, 206, 170)),
            0,
            None,
            false,
        ) + lens::quad(
            l,
            c.bounds,
            bar_corners(p, a, top - 110, top),
            lens::flat((46, 50, 62)),
            0,
            None,
            false,
        )
    }
}

/// The first `k` floodlights.
pub open spec fn fixtures<P: Fn(V3) -> Dot>(l: &Lens<P>, c: Cull, k: nat) -> Seq<Packet>
    decreases k,
{
    if k == 0 {
        Seq::empty()
    } else {
        fixtures(l, c, (k - 1) as nat) + fixture(l, c, k - 1)
    }
}

/// One panel of the rig over the centre spot, seen from underneath.
pub open spec fn rig_corners(ox: int, oz: int) -> lens::Corners {
    (
        vec3::v3(ox * 380 - 340, -1954, oz * 380 - 340),
        vec3::v3(ox * 380 + 340, -1954, oz * 380 - 340),
        vec3::v3(ox * 380 - 340, -1954, oz * 380 + 340),
        vec3::v3(ox * 380 + 340, -1954, oz * 380 + 340),
    )
}

/// One panel of the rig.
pub open spec fn rig_panel<P: Fn(V3) -> Dot>(l: &Lens<P>, c: Cull, ox: int, oz: int) -> Seq<
    Packet,
> {
    lens::quad(
        l,
        c.bounds,
        rig_corners(ox, oz),
        lens::flat((255, 252, 236)),
        0,
        None,
        false,
    )
}

/// The rig over the centre spot.
#[verifier::opaque]
pub open spec fn rig<P: Fn(V3) -> Dot>(l: &Lens<P>, c: Cull) -> Seq<Packet> {
    if c.sees(vec3::v3(0, -1984, 0), vec3::v3(760, 40, 760)) {
        rig_panel(l, c, -1, -1) + rig_panel(l, c, 1, -1) + rig_panel(l, c, -1, 1) + rig_panel(
            l,
            c,
            1,
            1,
        )
    } else {
        Seq::empty()
    }
}

/// Every floodlight.
pub open spec fn floodlights<P: Fn(V3) -> Dot>(l: &Lens<P>, c: Cull) -> Seq<Packet> {
    fixtures(l, c, 8) + rig(l, c)
}

fn find_bar(p: V3) -> (r: (i32, i32))
    requires
        p.within(16000),
    ensures
        (r.0 as int, r.1 as int) == bar_along(p),
        -680 <= r.0 <= 680,
        -680 <= r.1 <= 680,
{
    if abs_i32(p.x) > 3000 && abs_i32(p.z) > 3000 {
        (
            if p.x < 0 {
                LAMP_HALF_W
            } else {
                -LAMP_HALF_W
            },
            if p.z < 0 {
                -LAMP_HALF_W
            } else {
                LAMP_HALF_W
            },
        )
    } else if abs_i32(p.x) > abs_i32(p.z) {
        (0, LAMP_HALF_W)
    } else {
        (LAMP_HALF_W, 0)
    }
}

fn find_panel(p: V3, along: (i32, i32), top: i32, bottom: i32) -> (r: lens::Corners)
    requires
        p.within(16000),
        -680 <= along.0 <= 680,
        -680 <= along.1 <= 680,
    ensures
        r == bar_corners(p, (along.0 as int, along.1 as int), top as int, bottom as int),
{
    (
        V3 { x: p.x - along.0, y: top, z: p.z - along.1 },
        V3 { x: p.x + along.0, y: top, z: p.z + along.1 },
        V3 { x: p.x - along.0, y: bottom, z: p.z - along.1 },
        V3 { x: p.x + along.0, y: bottom, z: p.z + along.1 },
    )
}

fn push_fixture<P: Fn(V3) -> Dot>(
    out: &mut Vec<Packet>,
    lens: &Lens<P>,
    cull: &Cull,
    i: usize,
)
    requires
        lens.wf(),
        cull.wf(),
        i < 8,
    ensures
        final(out)@ == old(out)@ + fixture(lens, *cull, i as int),
{
    proof {
        reveal(fixture);
    }
    let ghost before = out@;
    let (q, _reach, _peak) = LAMPS[i];
    assert(-100 <= q.0 <= 100 && -100 <= q.1 <= 100 && -100 <= q.2 <= 100) by {
        assert(i == 0 || i == 1 || i == 2 || i == 3 || i == 4 || i == 5 || i == 6 || i == 7);
    }
    let p = V3 { x: q.0 * 64, y: q.1 * 64, z: q.2 * 64 };
    if cull.visible(p, V3 { x: LAMP_HALF_W, y: 200, z: LAMP_HALF_W }) {
        let along = find_bar(p);
        let top: i32 = p.y - LAMP_HALF_H;
        let face = find_panel(p, along, top, p.y + LAMP_HALF_H);
        push_quad(
            out,
            lens,
            &cull.bounds,
            face,
            band_tint((255, 252, 236), (214, 206, 170)),
            0,
            None,
            false,
        );
        let housing = find_panel(p, along, top - 110, top);
        push_quad(
            out,
            lens,
            &cull.bounds,
            housing,
            flat_tint((46, 50, 62)),
            0,
            None,
            false,
        );
    }
    assert(out@ =~= before + fixture(lens, *cull, i as int));
}

fn push_rig_panel<P: Fn(V3) -> Dot>(
    out: &mut Vec<Packet>,
    lens: &Lens<P>,
    cull: &Cull,
    ox: i32,
    oz: i32,
)
    requires
        lens.wf(),
        ox == 1 || ox == -1,
        oz == 1 || oz == -1,
    ensures
        final(out)@ == old(out)@ + rig_panel(lens, *cull, ox as int, oz as int),
{
    let x: i32 = ox * 380;
    let z: i32 = oz * 380;
    push_quad(
        out,
        lens,
        &cull.bounds,
        (
            V3 { x: x - 340, y: -1954, z: z - 340 },
            V3 { x: x + 340, y: -1954, z: z - 340 },
            V3 { x: x - 340, y: -1954, z: z + 340 },
            V3 { x: x + 340, y: -1954, z: z + 340 },
        ),
        flat_tint((255, 252, 236)),
        0,
        None,
        false,
    );
}

/// The floodlights themselves, where the light comes from: eight bars on the
/// walls, and a rig over the centre spot.
pub fn lamps<P: Fn(V3) -> Dot>(out: &mut Vec<Packet>, lens: &Lens<P>, cull: &Cull)
    requires
        lens.wf(),
        cull.wf(),
    ensures
        final(out)@ == old(out)@ + floodlights(lens, *cull),
{
    let ghost before = out@;
    let mut i: usize = 0;
    assert(out@ =~= before + fixtures(lens, *cull, 0));
    while i < 8
        invariant
            i <= 8,
            lens.wf(),
            cull.wf(),
            out@ == before + fixtures(lens, *cull, i as nat),
        decreases 8 - i,
    {
        push_fixture(out, lens, cull, i);
        i += 1;
        assert(out@ =~= before + fixtures(lens, *cull, i as nat));
    }
    let ghost so_far = out@;
    if cull.visible(V3 { x: 0, y: -1984, z: 0 }, V3 { x: 760, y: 40, z: 760 }) {
        push_rig_panel(out, lens, cull, -1, -1);
        push_rig_panel(out, lens, cull, 1, -1);
        push_rig_panel(out, lens, cull, -1, 1);
        push_rig_panel(out, lens, cull, 1, 1);
    }
    proof {
        reveal(rig);
    }
    assert(out@ =~= so_far + rig(lens, *cull));
    assert(out@ =~= before + floodlights(lens, *cull));
}

/// From inside a goal nothing of the wall over its mouth is drawn: it is closer
/// than the near plane and would smear across the view.
pub proof fn law_no_lintel_from_inside<P: Fn(V3) -> Dot>(
    l: &Lens<P>,
    w: &Lighting,
    c: Cull,
    sz: int,
)
    requires
        walls::in_goal(c, sz),
    ensures
        lintel(l, w, c, sz).len() == 0,
{
    reveal(lintel);
}

} // verus!
