//! What stands on the pitch besides the cars: boost pads, shadows, the ball,
//! and the plume behind a boosting car.

use vstd::prelude::*;
use crate::blast;
use crate::blast::to_drawn;
use crate::camera::{mul12, Sight};
use crate::car::Car;
use crate::colour;
use crate::colour::{shade, tinted};
use crate::cull;
use crate::cull::{to_camera, Cull};
use crate::lens;
use crate::lens::{band_tint, flat_tint, push_quad, Dot, Filing, Lens, Packet};
use crate::light;
use crate::light::Lighting;
use crate::num;
use crate::num::{max_i32, min_i32};
use crate::pads;
use crate::pads::{Pad, PAD_COUNT};
use crate::pitch::GRASS_A;
use crate::sim::Sim;
use crate::trig::{Angles, Trig};
use crate::tuning::{CAR_HALF_L, CAR_REST_Y};
use crate::vec3;
use crate::vec3::V3;
use crate::view::{Bounds, Rgb};

verus! {

/// How far behind its average depth a shadow is filed.
pub const SHADOW_DEPTH_BIAS: i32 = 60;
/// How far behind its average depth a pad's orb is filed.
pub const PAD_BIAS: i32 = 30;
/// How far in front of its average depth a plume is filed.
pub const FLAME_BIAS: i32 = -300;
/// The near plane, in uu.
pub const NEAR: i32 = 120;
/// Past this far in half a view, a car is drawn as two flat slabs.
pub const FAR_CAR_DISTANCE: i32 = 2200;

// ---- boost pads ------------------------------------------------------------

/// A lit orb.
pub const ORB_BRIGHT: Rgb = (255, 214, 84);
/// The rim of a lit orb.
pub const ORB_DIM: Rgb = (196, 132, 30);

/// The radius of a pad's orb.
pub open spec fn orb_radius(p: Pad) -> int {
    if p.big {
        62
    } else {
        42
    }
}

/// How high a pad's orb floats.
pub open spec fn orb_lift(p: Pad) -> int {
    if p.big {
        78
    } else {
        58
    }
}

/// A diamond lying on the pitch.
pub open spec fn plate<P: Fn(V3) -> Dot>(
    l: &Lens<P>,
    b: Bounds,
    p: Pad,
    reach: int,
    y: int,
    c: Rgb,
    bias: int,
) -> Seq<Packet> {
    lens::quad(
        l,
        b,
        (
            vec3::v3(p.x - reach, y, p.z as int),
            vec3::v3(p.x as int, y, p.z - reach),
            vec3::v3(p.x as int, y, p.z + reach),
            vec3::v3(p.x + reach, y, p.z as int),
        ),
        lens::flat(c),
        bias,
        None,
        false,
    )
}

/// A diamond standing up, turned one way or the other.
pub open spec fn diamond<P: Fn(V3) -> Dot>(
    l: &Lens<P>,
    b: Bounds,
    p: Pad,
    ax: int,
    az: int,
) -> Seq<Packet> {
    let (r, lift) = (orb_radius(p), orb_lift(p));
    lens::quad(
        l,
        b,
        (
            vec3::v3(p.x as int, -(lift + r), p.z as int),
            vec3::v3(p.x - ax, -lift, p.z - az),
            vec3::v3(p.x + ax, -lift, p.z + az),
            vec3::v3(p.x as int, r - lift, p.z as int),
        ),
        (ORB_BRIGHT, ORB_DIM, ORB_DIM, ORB_BRIGHT),
        30,
        None,
        false,
    )
}

/// A pad is worth drawing: in view, and not lost to distance in half a view.
pub open spec fn pad_shows(c: Cull, p: Pad) -> bool {
    let r = orb_radius(p);
    let half = (orb_lift(p) + r) / 2;
    let at = vec3::v3(p.x as int, -half, p.z as int);
    let h = vec3::v3(r, half, r);
    c.sees(at, h) && c.sees_vertically(at, h) && !(c.bounds.split && c.flat(
        p.x as int,
        p.z as int,
    ) > 3000)
}

/// One pad: a plate that is always there, lit while there is something to
/// collect, and an orb of two crossed diamonds while there is.
#[verifier::opaque]
pub open spec fn pad<P: Fn(V3) -> Dot>(l: &Lens<P>, c: Cull, p: Pad, live: bool) -> Seq<Packet> {
    if pad_shows(c, p) {
        let r = orb_radius(p);
        let g = (r * 3) / 4;
        let plates = if c.bounds.split && c.flat(p.x as int, p.z as int) > 2000 {
            Seq::empty()
        } else {
            plate(l, c.bounds, p, g, -4, (52, 56, 70), 50) + plate(
                l,
                c.bounds,
                p,
                g / 2,
                -6,
                if live {
                    ORB_DIM
                } else {
                    (34, 38, 50)
                },
                40,
            )
        };
        if live {
            plates + diamond(l, c.bounds, p, r, 0) + diamond(l, c.bounds, p, 0, r)
        } else {
            plates
        }
    } else {
        Seq::empty()
    }
}

/// The first so many pads.
pub open spec fn pads_drawn<P: Fn(V3) -> Dot>(l: &Lens<P>, c: Cull, s: Sim, n: int) -> Seq<Packet>
    decreases n,
{
    if n <= 0 {
        Seq::empty()
    } else {
        pads_drawn(l, c, s, n - 1) + pad(l, c, pads::pad_at(n - 1), s.pad_timers[n - 1] == 0)
    }
}

fn push_plate<P: Fn(V3) -> Dot>(
    out: &mut Vec<Packet>,
    lens: &Lens<P>,
    bounds: &Bounds,
    p: &Pad,
    reach: i32,
    y: i32,
    c: Rgb,
    bias: i32,
)
    requires
        lens.wf(),
        -10_000 <= p.x <= 10_000,
        -10_000 <= p.z <= 10_000,
        0 <= reach <= 100,
        0 <= bias <= 100,
    ensures
        final(out)@ == old(out)@ + plate(
            lens,
            *bounds,
            *p,
            reach as int,
            y as int,
            c,
            bias as int,
        ),
{
    let corners = (
        V3::new(p.x - reach, y, p.z),
        V3::new(p.x, y, p.z - reach),
        V3::new(p.x, y, p.z + reach),
        V3::new(p.x + reach, y, p.z),
    );
    push_quad(out, lens, bounds, corners, flat_tint(c), bias, None, false);
}

fn push_diamond<P: Fn(V3) -> Dot>(
    out: &mut Vec<Packet>,
    lens: &Lens<P>,
    bounds: &Bounds,
    p: &Pad,
    ax: i32,
    az: i32,
)
    requires
        lens.wf(),
        -10_000 <= p.x <= 10_000,
        -10_000 <= p.z <= 10_000,
        0 <= ax <= 100,
        0 <= az <= 100,
    ensures
        final(out)@ == old(out)@ + diamond(lens, *bounds, *p, ax as int, az as int),
{
    let (r, lift): (i32, i32) = if p.big {
        (62, 78)
    } else {
        (42, 58)
    };
    let corners = (
        V3::new(p.x, -(lift + r), p.z),
        V3::new(p.x - ax, -lift, p.z - az),
        V3::new(p.x + ax, -lift, p.z + az),
        V3::new(p.x, r - lift, p.z),
    );
    push_quad(
        out,
        lens,
        bounds,
        corners,
        (ORB_BRIGHT, ORB_DIM, ORB_DIM, ORB_BRIGHT),
        PAD_BIAS,
        None,
        false,
    );
}

fn push_pad<P: Fn(V3) -> Dot>(
    out: &mut Vec<Packet>,
    lens: &Lens<P>,
    cull: &Cull,
    p: &Pad,
    live: bool,
)
    requires
        lens.wf(),
        cull.wf(),
        -10_000 <= p.x <= 10_000,
        -10_000 <= p.z <= 10_000,
    ensures
        final(out)@ == old(out)@ + pad(lens, *cull, *p, live),
{
    proof {
        reveal(pad);
    }
    let ghost before = out@;
    let (r, lift): (i32, i32) = if p.big {
        (62, 78)
    } else {
        (42, 58)
    };
    let half: i32 = (lift + r) / 2;
    let at = V3::new(p.x, -half, p.z);
    let h = V3::new(r, half, r);
    if !cull.visible(at, h) || !cull.visible_vertically(at, h) {
        assert(out@ =~= before + pad(lens, *cull, *p, live));
        return;
    }
    let distance: i32 = cull.flat_distance(p.x, p.z);
    if cull.bounds.split && distance > 3000 {
        assert(out@ =~= before + pad(lens, *cull, *p, live));
        return;
    }
    let g: i32 = r * 3 / 4;
    if !(cull.bounds.split && distance > 2000) {
        push_plate(out, lens, &cull.bounds, p, g, -4, (52, 56, 70), PAD_BIAS + 20);
        let inner: Rgb = if live {
            ORB_DIM
        } else {
            (34, 38, 50)
        };
        push_plate(out, lens, &cull.bounds, p, g / 2, -6, inner, PAD_BIAS + 10);
    }
    if live {
        push_diamond(out, lens, &cull.bounds, p, r, 0);
        push_diamond(out, lens, &cull.bounds, p, 0, r);
    }
    assert(out@ =~= before + pad(lens, *cull, *p, live));
}

/// Boost pads, as orbs floating over the pitch.
pub fn pads<P: Fn(V3) -> Dot>(out: &mut Vec<Packet>, lens: &Lens<P>, s: &Sim, cull: &Cull)
    requires
        lens.wf(),
        cull.wf(),
    ensures
        final(out)@ == old(out)@ + pads_drawn(lens, *cull, *s, 34),
{
    let ghost before = out@;
    let mut i: usize = 0;
    assert(out@ =~= before + pads_drawn(lens, *cull, *s, 0));
    while i < PAD_COUNT
        invariant
            i <= 34,
            lens.wf(),
            cull.wf(),
            out@ == before + pads_drawn(lens, *cull, *s, i as int),
        decreases 34 - i,
    {
        let p = Pad::at(i);
        let live = s.pad_timers[i] == 0;
        push_pad(out, lens, cull, &p, live);
        i += 1;
        assert(out@ =~= before + pads_drawn(lens, *cull, *s, i as int));
    }
}

/// A taken pad never shows an orb: it draws at most its two plates, and a live
/// one at most those and the orb's two diamonds.
pub proof fn law_a_taken_pad_has_no_orb<P: Fn(V3) -> Dot>(l: &Lens<P>, c: Cull, p: Pad)
    ensures
        pad(l, c, p, false).len() <= 2,
        pad(l, c, p, true).len() <= 4,
        forall|i: int|
            0 <= i < pad(l, c, p, false).len() ==> (#[trigger] pad(l, c, p, false)[i]).tint
                == lens::flat((52, 56, 70)) || pad(l, c, p, false)[i].tint == lens::flat(
                (34, 38, 50),
            ),
{
    reveal(pad);
    reveal(lens::quad);
}

// ---- shadows ---------------------------------------------------------------

/// How large a shadow is for a height, Q12: full size on the ground, and never
/// shrunk to nothing.
pub open spec fn shadow_scale(height: int) -> int {
    num::max(4096 - num::min((num::max(height, 0) * 2048) / 681, 3000), 900)
}

/// A shadow's colour: the pitch's own, with half the light taken out of it, and
/// less the higher its caster.
pub open spec fn shadow_tint(scale: int, under: Rgb) -> Rgb {
    colour::tint_of(
        colour::shaded(GRASS_A, (2048 + (4096 - scale) / 2) / 2, 4096),
        under,
    )
}

/// A point on the rim of a shadow: an ellipse turned with its caster.
pub open spec fn rim(
    a: Angles,
    x: int,
    z: int,
    ex: int,
    ez: int,
    yaw: u16,
    side: int,
) -> V3 {
    let angle = (512 * side) as u16;
    let ox = (a.cos(angle) * ex) / 4096;
    let oz = (a.sin(angle) * ez) / 4096;
    vec3::v3(
        x + (ox * a.cos(yaw) + oz * a.sin(yaw)) / 4096,
        -2,
        z + (oz * a.cos(yaw) - ox * a.sin(yaw)) / 4096,
    )
}

/// Eight dots all in front of the camera.
pub open spec fn all_in_front(d: Seq<Dot>) -> bool {
    forall|i: int| 0 <= i < d.len() ==> (#[trigger] d[i]).sz != 0
}

/// Some dot is on the accept band.
pub open spec fn any_on_view(b: Bounds, d: Seq<Dot>) -> bool {
    exists|i: int|
        0 <= i < d.len() && b.holds((#[trigger] d[i]).sx as int, d[i].sy as int)
}

/// The depths of dots, summed.
pub open spec fn depth_sum(d: Seq<Dot>) -> int
    decreases d.len(),
{
    if d.len() == 0 {
        0
    } else {
        depth_sum(d.drop_last()) + d.last().sz
    }
}

/// A blended quad over four of a shadow's dots.
pub open spec fn strip(d: Seq<Dot>, p: int, q: int, r: int, s: int, depth: int, c: Rgb) -> Packet {
    Packet {
        at: (
            (d[p].sx, d[p].sy),
            (d[q].sx, d[q].sy),
            (d[r].sx, d[r].sy),
            (d[s].sx, d[s].sy),
        ),
        filing: Filing::At(depth as i32),
        tint: lens::flat(c),
        skin: None,
        blended: true,
    }
}

/// An octagon as three quads, worked inwards from both ends.
pub open spec fn octagon(b: Bounds, d: Seq<Dot>, c: Rgb) -> Seq<Packet> {
    if all_in_front(d) && any_on_view(b, d) {
        let depth = depth_sum(d) / 8 + 60;
        seq![
            strip(d, 7, 0, 6, 1, depth, c),
            strip(d, 6, 1, 5, 2, depth, c),
            strip(d, 5, 2, 4, 3, depth, c),
        ]
    } else {
        Seq::empty()
    }
}

/// What casts a shadow: where it is, how high, its half-extents, and the way it
/// faces.
#[derive(Copy, Clone, Debug, PartialEq, Eq, Structural)]
pub struct Caster {
    /// Across the pitch.
    pub x: i32,
    /// How far off the ground.
    pub height: i32,
    /// Along the pitch.
    pub z: i32,
    /// Half its width.
    pub rx: i32,
    /// Half its length.
    pub rz: i32,
    /// The way it faces.
    pub yaw: u16,
}

impl Caster {
    /// Near the pitch, and no larger than a house.
    pub open spec fn wf(self) -> bool {
        &&& -0x10_0000 <= self.x <= 0x10_0000
        &&& -0x10_0000 <= self.z <= 0x10_0000
        &&& self.height <= 0xf_ffff
        &&& 0 <= self.rx <= 1000
        &&& 0 <= self.rz <= 1000
    }

    /// Where its shadow's rim lands.
    pub open spec fn rim_dots<P: Fn(V3) -> Dot>(self, l: &Lens<P>, a: Angles) -> Seq<Dot> {
        let k = shadow_scale(self.height as int);
        Seq::new(
            8,
            |i: int|
                l.at(
                    rim(
                        a,
                        self.x as int,
                        self.z as int,
                        (self.rx * k) / 4096,
                        (self.rz * k) / 4096,
                        self.yaw,
                        i,
                    ),
                ),
        )
    }
}

/// The shadow under something.
#[verifier::opaque]
pub open spec fn shade_under<P: Fn(V3) -> Dot>(
    l: &Lens<P>,
    b: Bounds,
    a: Angles,
    look: light::ArenaLook,
    c: Caster,
) -> Seq<Packet> {
    octagon(
        b,
        c.rim_dots(l, a),
        shadow_tint(
            shadow_scale(c.height as int),
            light::tint_under(look, c.x as int, c.z as int),
        ),
    )
}

fn scale_shadow(height: i32) -> (r: i32)
    requires
        height <= 0xf_ffff,
    ensures
        r == shadow_scale(height as int),
        900 <= r <= 4096,
{
    max_i32(4096 - min_i32(max_i32(height, 0) * 2048 / 681, 3000), 900)
}

fn find_rim<F: Fn(i32, i32) -> u16>(
    trig: &Trig<F>,
    c: &Caster,
    ex: i32,
    ez: i32,
    side: i32,
) -> (r: V3)
    requires
        trig.wf(),
        c.wf(),
        0 <= ex <= 1000,
        0 <= ez <= 1000,
        0 <= side < 8,
    ensures
        r == rim(
            trig.model(),
            c.x as int,
            c.z as int,
            ex as int,
            ez as int,
            c.yaw,
            side as int,
        ),
{
    let angle: u16 = (512 * side) as u16;
    let ys: i32 = trig.sin_q12(c.yaw);
    let yc: i32 = trig.cos_q12(c.yaw);
    let ox: i32 = mul12(trig.cos_q12(angle), ex);
    let oz: i32 = mul12(trig.sin_q12(angle), ez);
    proof {
        num::lemma_mul_bound(ox as int, yc as int, 1000, 4096);
        num::lemma_mul_bound(oz as int, ys as int, 1000, 4096);
        num::lemma_mul_bound(oz as int, yc as int, 1000, 4096);
        num::lemma_mul_bound(ox as int, ys as int, 1000, 4096);
    }
    let ax: i32 = num::shift12((ox * yc + oz * ys) as i64);
    let az: i32 = num::shift12((oz * yc - ox * ys) as i64);
    V3::new(c.x + ax, -2, c.z + az)
}

fn find_rim_dots<P: Fn(V3) -> Dot, F: Fn(i32, i32) -> u16>(
    lens: &Lens<P>,
    trig: &Trig<F>,
    c: &Caster,
    k: i32,
) -> (r: Vec<Dot>)
    requires
        lens.wf(),
        trig.wf(),
        c.wf(),
        k == shadow_scale(c.height as int),
        900 <= k <= 4096,
    ensures
        r@ == c.rim_dots(lens, trig.model()),
{
    let ex: i32 = mul12(k, c.rx);
    let ez: i32 = mul12(k, c.rz);
    assert(k * c.rx == c.rx * k && k * c.rz == c.rz * k) by (nonlinear_arith);
    assert(0 <= c.rx * k && 0 <= c.rz * k) by (nonlinear_arith)
        requires
            0 <= c.rx,
            0 <= c.rz,
            0 <= k,
    ;
    let mut out: Vec<Dot> = Vec::new();
    let mut i: i32 = 0;
    while i < 8
        invariant
            0 <= i <= 8,
            lens.wf(),
            trig.wf(),
            c.wf(),
            0 <= ex <= 1000,
            0 <= ez <= 1000,
            out.len() == i,
            forall|j: int|
                0 <= j < i ==> #[trigger] out[j] == lens.at(
                    rim(
                        trig.model(),
                        c.x as int,
                        c.z as int,
                        ex as int,
                        ez as int,
                        c.yaw,
                        j,
                    ),
                ),
        decreases 8 - i,
    {
        out.push(lens.project(find_rim(trig, c, ex, ez, i)));
        i += 1;
    }
    assert(out@ =~= c.rim_dots(lens, trig.model()));
    out
}

fn make_strip(
    d: &Vec<Dot>,
    p: usize,
    q: usize,
    r: usize,
    s: usize,
    depth: i32,
    c: Rgb,
) -> (o: Packet)
    requires
        p < d.len(),
        q < d.len(),
        r < d.len(),
        s < d.len(),
    ensures
        o == strip(d@, p as int, q as int, r as int, s as int, depth as int, c),
{
    Packet {
        at: (
            (d[p].sx, d[p].sy),
            (d[q].sx, d[q].sy),
            (d[r].sx, d[r].sy),
            (d[s].sx, d[s].sy),
        ),
        filing: Filing::At(depth),
        tint: flat_tint(c),
        skin: None,
        blended: true,
    }
}

fn push_octagon(out: &mut Vec<Packet>, bounds: &Bounds, d: &Vec<Dot>, c: Rgb)
    requires
        d.len() == 8,
    ensures
        final(out)@ == old(out)@ + octagon(*bounds, d@, c),
{
    let ghost before = out@;
    let mut sum: i32 = 0;
    let mut front = true;
    let mut seen = false;
    let mut i: usize = 0;
    while i < 8
        invariant
            i <= 8,
            d.len() == 8,
            0 <= sum <= i * 65535,
            sum == depth_sum(d@.take(i as int)),
            front == all_in_front(d@.take(i as int)),
            seen == any_on_view(*bounds, d@.take(i as int)),
        decreases 8 - i,
    {
        let v = d[i];
        let ghost part = d@.take(i as int);
        let ghost next = d@.take(i + 1);
        assert(next.drop_last() =~= part);
        assert(next.last() == v);
        assert(forall|j: int| 0 <= j < part.len() ==> next[j] == part[j]);
        assert(next[i as int] == v);
        proof {
            if bounds.holds(v.sx as int, v.sy as int) {
                assert(any_on_view(*bounds, next));
            }
            if any_on_view(*bounds, part) {
                let j = choose|j: int|
                    0 <= j < part.len() && bounds.holds(
                        (#[trigger] part[j]).sx as int,
                        part[j].sy as int,
                    );
                assert(bounds.holds(next[j].sx as int, next[j].sy as int));
            }
            if all_in_front(next) {
                assert forall|j: int| 0 <= j < part.len() implies (#[trigger] part[j]).sz != 0 by {
                    assert(next[j].sz != 0);
                }
            }
        }
        if v.sz == 0 {
            front = false;
        }
        if bounds.on_view(v.sx, v.sy) {
            seen = true;
        }
        sum += v.sz as i32;
        i += 1;
    }
    assert(d@.take(8) =~= d@);
    if front && seen {
        let depth: i32 = sum / 8 + SHADOW_DEPTH_BIAS;
        out.push(make_strip(d, 7, 0, 6, 1, depth, c));
        out.push(make_strip(d, 6, 1, 5, 2, depth, c));
        out.push(make_strip(d, 5, 2, 4, 3, depth, c));
    }
    assert(out@ =~= before + octagon(*bounds, d@, c));
}

/// A patch on the floor under something airborne, so that a high ball can be
/// told from a near one.
pub fn shadow<P: Fn(V3) -> Dot, F: Fn(i32, i32) -> u16>(
    out: &mut Vec<Packet>,
    lens: &Lens<P>,
    bounds: &Bounds,
    trig: &Trig<F>,
    lights: &Lighting,
    c: &Caster,
)
    requires
        lens.wf(),
        trig.wf(),
        lights.wf(),
        c.wf(),
    ensures
        final(out)@ == old(out)@ + shade_under(
            lens,
            *bounds,
            trig.model(),
            light::look_of(lights.time),
            *c,
        ),
{
    proof {
        reveal(shade_under);
    }
    let k: i32 = scale_shadow(c.height);
    let dim: i32 = 2048 + (4096 - k) / 2;
    let tint = tinted(shade(GRASS_A, dim / 2, 4096), lights.floor_tint(c.x, c.z));
    let dots = find_rim_dots(lens, trig, c, k);
    push_octagon(out, bounds, &dots, tint);
}

/// A shadow only shrinks and only fades as its caster rises.
pub proof fn law_a_shadow_shrinks_with_height(low: int, high: int, under: Rgb)
    requires
        low <= high,
    ensures
        900 <= shadow_scale(high) <= shadow_scale(low) <= 4096,
        shadow_tint(shadow_scale(low), under).0 <= shadow_tint(shadow_scale(high), under).0,
        shadow_tint(shadow_scale(low), under).1 <= shadow_tint(shadow_scale(high), under).1,
        shadow_tint(shadow_scale(low), under).2 <= shadow_tint(shadow_scale(high), under).2,
{
    let (a, b) = (shadow_scale(low), shadow_scale(high));
    assert(b <= a);
    let (m, n) = ((2048 + (4096 - a) / 2) / 2, (2048 + (4096 - b) / 2) / 2);
    assert(m <= n);
    lemma_brighter(GRASS_A.0, m, n, under.0);
    lemma_brighter(GRASS_A.1, m, n, under.1);
    lemma_brighter(GRASS_A.2, m, n, under.2);
}

proof fn lemma_brighter(c: u8, m: int, n: int, under: u8)
    requires
        0 <= m <= n <= 4096,
    ensures
        colour::tinted_channel(colour::scaled_channel(c, m, 4096), under)
            <= colour::tinted_channel(colour::scaled_channel(c, n, 4096), under),
{
    assert(0 <= c * m <= c * n <= 255 * 4096) by (nonlinear_arith)
        requires
            0 <= c <= 255,
            0 <= m <= n <= 4096,
    ;
    let (p, q) = (colour::scaled_channel(c, m, 4096), colour::scaled_channel(c, n, 4096));
    assert(p <= q);
    assert(0 <= p * under <= q * under) by (nonlinear_arith)
        requires
            0 <= p <= q,
            0 <= under,
    ;
}

// ---- the plume -------------------------------------------------------------

/// Where a car's mesh stands: on the ground under the middle of its box.
pub open spec fn ground_of(c: Car) -> V3 {
    let p = blast::drawn(c.p);
    vec3::v3(p.x as int, p.y + CAR_REST_Y, p.z as int)
}

/// Where a car's mesh stands, in the space it is drawn in.
pub fn car_ground(c: &Car) -> (r: V3)
    requires
        c.p.within(0x400_0000),
    ensures
        r == ground_of(*c),
{
    let p = to_drawn(c.p);
    V3::new(p.x, p.y + CAR_REST_Y, p.z)
}

/// The plume's flicker.
pub open spec fn flicker(wheel_spin: int) -> int {
    if (wheel_spin / 64) % 2 == 0 {
        0
    } else {
        28
    }
}

/// How long a plume is: never so long that it reaches the near plane.
pub open spec fn plume_len(depth: int, flick: int) -> int {
    num::max(num::min(170 + flick, depth - 218), 24)
}

/// A plume is drawn: from a boosting car that is clear of the camera, and not
/// lost to distance in half a view.
pub open spec fn plume_shows(c: Car, depth: int, split: bool) -> bool {
    c.boosting && depth >= 242 && !(split && depth > 2200)
}

/// Half the width of the plume's flat sheet at each joint.
pub const PLUME_W: [i32; 4] = [14, 9, 5, 1];
/// Half the height of the plume's upright sheet at each joint.
pub const PLUME_H: [i32; 4] = [13, 8, 4, 1];
/// The plume's colour at each joint: hot at the root, ember at the tip.
pub const PLUME_TINT: [Rgb; 4] = [(255, 226, 130), (255, 140, 40), (255, 80, 24), (160, 40, 16)];

/// One joint of the plume to the next: a flat sheet and an upright one,
/// crossed.
pub open spec fn plume_joint<P: Fn(V3) -> Dot>(
    l: &Lens<P>,
    b: Bounds,
    len: int,
    i: int,
) -> Seq<Packet> {
    let (z0, z1) = (-82 - (len * i) / 3, -82 - (len * (i + 1)) / 3);
    let tint = lens::banded(PLUME_TINT[i], PLUME_TINT[i + 1]);
    let (w0, w1) = (PLUME_W[i] as int, PLUME_W[i + 1] as int);
    let (h0, h1) = (PLUME_H[i] as int, PLUME_H[i + 1] as int);
    lens::quad(
        l,
        b,
        (vec3::v3(-w0, 20, z0), vec3::v3(w0, 20, z0), vec3::v3(-w1, 20, z1), vec3::v3(w1, 20, z1)),
        tint,
        -300,
        None,
        true,
    ) + lens::quad(
        l,
        b,
        (
            vec3::v3(0, 20 - h0, z0),
            vec3::v3(0, 20 + h0, z0),
            vec3::v3(0, 20 - h1, z1),
            vec3::v3(0, 20 + h1, z1),
        ),
        tint,
        -300,
        None,
        true,
    )
}

/// The plume behind a car, in the car's own space.
#[verifier::opaque]
pub open spec fn plume<P: Fn(V3) -> Dot>(l: &Lens<P>, b: Bounds, c: Car, depth: int) -> Seq<
    Packet,
> {
    if plume_shows(c, depth, b.split) {
        let len = plume_len(depth, flicker(c.wheel_spin as int));
        plume_joint(l, b, len, 0) + plume_joint(l, b, len, 1) + plume_joint(l, b, len, 2)
    } else {
        Seq::empty()
    }
}

fn push_joint<P: Fn(V3) -> Dot>(
    out: &mut Vec<Packet>,
    lens: &Lens<P>,
    bounds: &Bounds,
    len: i32,
    i: usize,
)
    requires
        lens.wf(),
        0 <= len <= 1000,
        i < 3,
    ensures
        final(out)@ == old(out)@ + plume_joint(lens, *bounds, len as int, i as int),
{
    let ghost before = out@;
    assert(0 <= len * i <= 2000 && 0 <= len * (i + 1) <= 3000) by (nonlinear_arith)
        requires
            0 <= len <= 1000,
            0 <= i < 3,
    ;
    let k: i32 = i as i32;
    let z0: i32 = -CAR_HALF_L - len * k / 3;
    let z1: i32 = -CAR_HALF_L - len * (k + 1) / 3;
    let (w0, w1): (i32, i32) = (PLUME_W[i], PLUME_W[i + 1]);
    let (h0, h1): (i32, i32) = (PLUME_H[i], PLUME_H[i + 1]);
    let tint = band_tint(PLUME_TINT[i], PLUME_TINT[i + 1]);
    assert(1 <= w0 <= 14 && 1 <= w1 <= 14 && 1 <= h0 <= 13 && 1 <= h1 <= 13);
    push_quad(
        out,
        lens,
        bounds,
        (V3::new(-w0, 20, z0), V3::new(w0, 20, z0), V3::new(-w1, 20, z1), V3::new(w1, 20, z1)),
        tint,
        FLAME_BIAS,
        None,
        true,
    );
    push_quad(
        out,
        lens,
        bounds,
        (
            V3::new(0, 20 - h0, z0),
            V3::new(0, 20 + h0, z0),
            V3::new(0, 20 - h1, z1),
            V3::new(0, 20 + h1, z1),
        ),
        tint,
        FLAME_BIAS,
        None,
        true,
    );
    assert(out@ =~= before + plume_joint(lens, *bounds, len as int, i as int));
}

/// The boost flame, through a lens that stands where the car does. A plume with
/// a corner behind the camera would smear across the screen, so one is drawn
/// only when the car is well clear of it, and cut short of it.
pub fn car_flame<P: Fn(V3) -> Dot>(
    out: &mut Vec<Packet>,
    lens: &Lens<P>,
    bounds: &Bounds,
    view: &Sight,
    c: &Car,
)
    requires
        lens.wf(),
        view.wf(),
        view.eye.within(16000),
        ground_of(*c).within(16000),
        c.p.within(0x400_0000),
    ensures
        final(out)@ == old(out)@ + plume(
            lens,
            *bounds,
            *c,
            cull::camera_space(*view, ground_of(*c)).z as int,
        ),
{
    proof {
        reveal(plume);
    }
    let ghost before = out@;
    let depth: i32 = to_camera(view, car_ground(c)).z;
    if c.boosting && depth >= NEAR + CAR_HALF_L + 40 && !(bounds.split && depth
        > FAR_CAR_DISTANCE) {
        let flick: i32 = if (c.wheel_spin / 64) % 2 == 0 {
            0
        } else {
            28
        };
        let reach: i32 = depth - NEAR - CAR_HALF_L - 16;
        let len: i32 = max_i32(min_i32(170 + flick, reach), 24);
        push_joint(out, lens, bounds, len, 0);
        push_joint(out, lens, bounds, len, 1);
        push_joint(out, lens, bounds, len, 2);
    }
    assert(out@ =~= before + plume(
        lens,
        *bounds,
        *c,
        cull::camera_space(*view, ground_of(*c)).z as int,
    ));
}

/// A plume that points straight at the camera still stops short of the near
/// plane, and is never cut away to nothing.
pub proof fn law_a_plume_stops_short_of_the_lens(c: Car, depth: int, split: bool)
    requires
        plume_shows(c, depth, split),
    ensures
        24 <= plume_len(depth, flicker(c.wheel_spin as int)) <= 198,
        depth - CAR_HALF_L - plume_len(depth, flicker(c.wheel_spin as int)) >= NEAR + 16,
{
}

} // verus!
