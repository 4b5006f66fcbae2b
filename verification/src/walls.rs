//! The walls, swept round the pitch from the cross-section, the enclosure over
//! the goal mouths and the roof, and the floodlights hung on it all.

use vstd::prelude::*;
use crate::cull::Cull;
use crate::lens;
use crate::lens::{dots_overlap, file, uv_patch, Dot, Lens, Packet, Page, Skin};
use crate::light;
use crate::light::Lighting;
use crate::num;
use crate::num::{abs_i32, isqrt_i32, min_i32, mul_shift12};
use crate::pitch;
use crate::pitch::floor_split;
use crate::shell;
use crate::shell::{cover_texels, span, Profile, Span, PROFILE_LEN, SPAN_COUNT};
use crate::trig::Angles;
use crate::vec3;
use crate::vec3::{dot_q12, V3};
use crate::view;

verus! {

/// Everything a wall is drawn from.
pub struct Walls<'a> {
    /// The cross-section.
    pub profile: &'a Profile,
    /// The tints.
    pub lights: &'a Lighting,
}

impl<'a> Walls<'a> {
    /// The cross-section and the tints belong together.
    pub open spec fn wf(&self) -> bool {
        &&& self.lights.wf()
        &&& self.profile.wf(self.lights.angles@)
        &&& forall|a: u16| -4096 <= #[trigger] self.lights.angles@.sin(a) <= 4096
        &&& forall|a: u16| -4096 <= #[trigger] self.lights.angles@.cos(a) <= 4096
    }
}

/// Halfway along a run of wall.
pub open spec fn middle(s: Span) -> (int, int) {
    (num::tdiv(s.a.0 + s.b.0, 2), num::tdiv(s.a.1 + s.b.1, 2))
}

/// The camera is inside the goal on this side.
pub open spec fn in_goal(c: Cull, sz: int) -> bool {
    c.view.eye.z * sz > 5120 && num::abs(c.view.eye.x as int) < 893
}

/// A run of wall beside a goal, seen from inside it.
pub open spec fn beside_goal(c: Cull, s: Span) -> bool {
    s.a.1 == s.b.1 && num::abs(s.a.1 as int) == 5120 && in_goal(c, num::sign(s.a.1 as int))
}

/// A run of wall is worth drawing.
#[verifier::opaque]
pub open spec fn span_seen(c: Cull, s: Span) -> bool {
    let m = middle(s);
    !beside_goal(c, s) && c.sees(
        vec3::v3(m.0, -1022, m.1),
        vec3::v3(
            num::abs(s.b.0 - s.a.0) / 2 + 260,
            1022,
            num::abs(s.b.1 - s.a.1) / 2 + 260,
        ),
    )
}

/// How many columns a run of wall is split into.
pub open spec fn span_split(c: Cull, s: Span) -> int {
    num::min(
        pitch::split_of(c.flat(middle(s).0, middle(s).1), c.bounds.split),
        if c.bounds.split {
            2
        } else {
            3
        },
    )
}

/// How many rings of a curve one band covers.
#[verifier::opaque]
pub open spec fn curve_stride(c: Cull, s: Span) -> int {
    let m = middle(s);
    let d = c.flat(m.0, m.1);
    let ahead = vec3::dot(
        vec3::v3(m.0 - c.view.eye.x, 0, m.1 - c.view.eye.z),
        c.view.fwd,
    ) > 0;
    if ahead && d < 1400 {
        1
    } else if ahead && d < (if c.bounds.split {
        2400int
    } else {
        3600
    }) {
        2
    } else if d > 3600 && c.bounds.split {
        8
    } else {
        4
    }
}

/// The ring a band reaches from another: a stride along a curve, never past its
/// end, and one ring at a time between.
pub open spec fn next_ring(ri: int, stride: int) -> int {
    if ri < 8 {
        num::min(ri + stride, 8)
    } else if ri >= 11 {
        num::min(ri + stride, 19)
    } else {
        ri + 1
    }
}

/// The split position vertex `k` of a run split `n` ways lands on.
pub open spec fn slot_of(n: int, k: int) -> int {
    if k == 0 {
        0
    } else if k == n {
        4
    } else if n == 2 {
        2
    } else if k == 1 {
        1
    } else {
        3
    }
}

/// A vertex of the sweep.
#[verifier::opaque]
pub open spec fn wall_point(t: Angles, s: Span, n: int, ri: int, k: int) -> V3 {
    let (inset, height) = shell::ring(t, ri);
    vec3::v3(
        s.a.0 + num::tdiv((s.b.0 - s.a.0) * k, n) + (s.n.0 * inset) / 4096,
        -height,
        s.a.1 + num::tdiv((s.b.1 - s.a.1) * k, n) + (s.n.1 * inset) / 4096,
    )
}

/// Texels of enclosure along a run of wall.
pub open spec fn span_texels(s: Span) -> int {
    shell::cover_span(
        num::root((s.b.0 - s.a.0) * (s.b.0 - s.a.0) + (s.b.1 - s.a.1) * (s.b.1 - s.a.1)),
    )
}

/// A wall quad's texture: the enclosure above the rail, the panel below it.
pub open spec fn wall_skin(t: Angles, s: Span, n: int, ri: int, top: int, k: int) -> Skin {
    if ri >= 10 {
        Skin {
            page: Page::Cover,
            uv: lens::patch(
                128 + (span_texels(s) * k) / n,
                128 + (span_texels(s) * (k + 1)) / n,
                shell::ring_v(t, ri),
                shell::ring_v(t, top),
            ),
        }
    } else {
        Skin {
            page: Page::Wall,
            uv: lens::patch(
                num::min(64 + (32 * k) / n, 95),
                num::min(64 + (32 * (k + 1)) / n, 95),
                0,
                31,
            ),
        }
    }
}

/// One quad of the sweep.
#[verifier::opaque]
pub open spec fn wall_cell<P: Fn(V3) -> Dot>(
    l: &Lens<P>,
    w: &Lighting,
    c: Cull,
    si: int,
    n: int,
    ri: int,
    top: int,
    k: int,
) -> Seq<Packet> {
    let t = w.angles@;
    let s = shell::span_of(si);
    let p = l.at(wall_point(t, s, n, ri, k));
    let q = l.at(wall_point(t, s, n, ri, k + 1));
    let r = l.at(wall_point(t, s, n, top, k));
    let u = l.at(wall_point(t, s, n, top, k + 1));
    if lens::in_front(p, q, r, u) && view::overlaps(c.bounds, lens::points(p, q, r, u)) {
        let look = light::look_of(w.time);
        let tint = (
            light::wall_tint(t, look, w.livery, si, ri, slot_of(n, k)),
            light::wall_tint(t, look, w.livery, si, ri, slot_of(n, k + 1)),
            light::wall_tint(t, look, w.livery, si, top, slot_of(n, k)),
            light::wall_tint(t, look, w.livery, si, top, slot_of(n, k + 1)),
        );
        seq![lens::over(p, q, r, u, tint, 0, Some(wall_skin(t, s, n, ri, top, k)), ri >= 10)]
    } else {
        Seq::empty()
    }
}

/// The first `k` quads of one band of the sweep.
pub open spec fn band<P: Fn(V3) -> Dot>(
    l: &Lens<P>,
    w: &Lighting,
    c: Cull,
    si: int,
    n: int,
    ri: int,
    top: int,
    k: nat,
) -> Seq<Packet>
    decreases k,
{
    if k == 0 {
        Seq::empty()
    } else {
        band(l, w, c, si, n, ri, top, (k - 1) as nat) + wall_cell(l, w, c, si, n, ri, top, k - 1)
    }
}

/// The bands of the sweep from a ring up.
pub open spec fn bands_from<P: Fn(V3) -> Dot>(
    l: &Lens<P>,
    w: &Lighting,
    c: Cull,
    si: int,
    n: int,
    stride: int,
    ri: int,
) -> Seq<Packet>
    decreases 19 - ri,
{
    if ri >= 19 || stride < 1 {
        Seq::empty()
    } else {
        let top = next_ring(ri, stride);
        band(l, w, c, si, n, ri, top, n as nat) + bands_from(l, w, c, si, n, stride, top)
    }
}

/// Everything one run of wall draws.
#[verifier::opaque]
pub open spec fn swept<P: Fn(V3) -> Dot>(
    l: &Lens<P>,
    w: &Lighting,
    c: Cull,
    si: int,
) -> Seq<Packet> {
    let s = shell::span_of(si);
    if span_seen(c, s) {
        bands_from(l, w, c, si, span_split(c, s), curve_stride(c, s), 0)
    } else {
        Seq::empty()
    }
}

/// The first `k` runs of wall.
pub open spec fn all_swept<P: Fn(V3) -> Dot>(
    l: &Lens<P>,
    w: &Lighting,
    c: Cull,
    k: nat,
) -> Seq<Packet>
    decreases k,
{
    if k == 0 {
        Seq::empty()
    } else {
        all_swept(l, w, c, (k - 1) as nat) + swept(l, w, c, k - 1)
    }
}

fn find_middle(s: &Span) -> (r: (i32, i32))
    requires
        s.fits(),
    ensures
        (r.0 as int, r.1 as int) == middle(*s),
        -4096 <= r.0 <= 4096,
        -5120 <= r.1 <= 5120,
{
    ((s.a.0 + s.b.0) / 2, (s.a.1 + s.b.1) / 2)
}

/// Whether the lens is inside the goal at this end.
pub fn inside_goal(cull: &Cull, sz: i32) -> (r: bool)
    requires
        cull.wf(),
        sz == 1 || sz == -1,
    ensures
        r == in_goal(*cull, sz as int),
{
    let z: i32 = if sz > 0 {
        cull.view.eye.z
    } else {
        -cull.view.eye.z
    };
    assert(z == cull.view.eye.z * sz) by (nonlinear_arith)
        requires
            sz == 1 && z == cull.view.eye.z || sz == -1 && z == -cull.view.eye.z,
    ;
    z > 5120 && abs_i32(cull.view.eye.x) < 893
}

fn sees_span(cull: &Cull, s: &Span) -> (r: bool)
    requires
        cull.wf(),
        s.fits(),
    ensures
        r == span_seen(*cull, *s),
{
    proof {
        reveal(span_seen);
    }
    if s.a.1 == s.b.1 && (s.a.1 == 5120 || s.a.1 == -5120) {
        let sz: i32 = if s.a.1 > 0 {
            1
        } else {
            -1
        };
        if inside_goal(cull, sz) {
            return false;
        }
    }
    let m = find_middle(s);
    let h = V3 {
        x: abs_i32(s.b.0 - s.a.0) / 2 + 260,
        y: 1022,
        z: abs_i32(s.b.1 - s.a.1) / 2 + 260,
    };
    cull.visible(V3 { x: m.0, y: -1022, z: m.1 }, h)
}

fn find_stride(cull: &Cull, s: &Span) -> (r: i32)
    requires
        cull.wf(),
        s.fits(),
    ensures
        r == curve_stride(*cull, *s),
        r == 1 || r == 2 || r == 4 || r == 8,
{
    proof {
        reveal(curve_stride);
    }
    let m = find_middle(s);
    let d: i32 = cull.flat_distance(m.0, m.1);
    let to = V3 { x: m.0 - cull.view.eye.x, y: 0, z: m.1 - cull.view.eye.z };
    let ahead = dot_q12(to, cull.view.fwd) > 0;
    let reach: i32 = if cull.bounds.split {
        2400
    } else {
        3600
    };
    if ahead && d < 1400 {
        1
    } else if ahead && d < reach {
        2
    } else if d > 3600 && cull.bounds.split {
        8
    } else {
        4
    }
}

fn find_span_split(cull: &Cull, s: &Span) -> (r: i32)
    requires
        cull.wf(),
        s.fits(),
    ensures
        r == span_split(*cull, *s),
        1 <= r <= 3,
{
    let m = find_middle(s);
    let d: i32 = cull.flat_distance(m.0, m.1);
    let most: i32 = if cull.bounds.split {
        2
    } else {
        3
    };
    min_i32(floor_split(d, cull.bounds.split), most)
}

/// Every run of wall is short enough for the enclosure's texture.
proof fn lemma_span_texels(si: int)
    requires
        0 <= si < SPAN_COUNT,
    ensures
        ({
            let s = shell::span_of(si);
            let d2 = (s.b.0 - s.a.0) * (s.b.0 - s.a.0) + (s.b.1 - s.a.1) * (s.b.1 - s.a.1);
            &&& 0 <= d2 <= 4_206_601
            &&& 1 <= span_texels(s) <= 95
        }),
{
    reveal(shell::span_of);
    let s = shell::span_of(si);
    let dx = s.b.0 - s.a.0;
    let dz = s.b.1 - s.a.1;
    assert(dx == 0 && dz == 992 || (dx == 1152 || dx == -1152) && (dz == 1152 || dz == -1152)
        || dx == 2051 && dz == 0) by {
        assert(si < 16 || si < 20 || si < 24);
    }
    let d2 = dx * dx + dz * dz;
    assert(d2 == 984_064 || d2 == 2_654_208 || d2 == 4_206_601) by (nonlinear_arith)
        requires
            d2 == dx * dx + dz * dz,
            dx == 0 && dz == 992 || (dx == 1152 || dx == -1152) && (dz == 1152 || dz == -1152)
                || dx == 2051 && dz == 0,
    ;
    vec3::lemma_root_exists(d2);
    let r = num::root(d2);
    assert(r <= 2051) by (nonlinear_arith)
        requires
            r * r <= d2,
            d2 <= 4_206_601,
            r >= 0,
    ;
}

fn find_span_texels(si: usize, s: &Span) -> (r: i32)
    requires
        si < SPAN_COUNT,
        *s == shell::span_of(si as int),
        s.fits(),
    ensures
        r == span_texels(*s),
        1 <= r <= 95,
{
    proof {
        lemma_span_texels(si as int);
    }
    let dx: i32 = s.b.0 - s.a.0;
    let dz: i32 = s.b.1 - s.a.1;
    assert(0 <= dx * dx && 0 <= dz * dz) by (nonlinear_arith);
    cover_texels(isqrt_i32(dx * dx + dz * dz)) as i32
}

/// A share of the way along a run.
proof fn lemma_share(d: int, k: int, n: int)
    requires
        1 <= n <= 3,
        0 <= k <= n,
        -10240 <= d <= 10240,
    ensures
        -10240 <= num::tdiv(d * k, n) <= 10240,
        -30720 <= d * k <= 30720,
{
    assert(num::abs(d * k) <= 10240 * n) by (nonlinear_arith)
        requires
            0 <= k <= n,
            -10240 <= d <= 10240,
            1 <= n,
    ;
    assert(-30720 <= d * k <= 30720) by (nonlinear_arith)
        requires
            0 <= k <= 3,
            -10240 <= d <= 10240,
    ;
    num::lemma_tdiv_bound(d * k, n, 10240);
}

fn find_wall_point(w: &Walls<'_>, s: &Span, n: i32, ri: usize, k: i32) -> (r: V3)
    requires
        w.wf(),
        s.fits(),
        1 <= n <= 3,
        0 <= k <= n,
        ri < PROFILE_LEN,
    ensures
        r == wall_point(w.lights.angles@, *s, n as int, ri as int, k as int),
{
    proof {
        reveal(wall_point);
        shell::lemma_ring(w.lights.angles@, ri as int);
        lemma_share(s.b.0 - s.a.0, k as int, n as int);
        lemma_share(s.b.1 - s.a.1, k as int, n as int);
    }
    let (inset, height) = w.profile.rings[ri];
    proof {
        num::lemma_mul_bound(s.n.0 as int, inset as int, 4096, 520);
        num::lemma_mul_bound(s.n.1 as int, inset as int, 4096, 520);
    }
    V3 {
        x: s.a.0 + (s.b.0 - s.a.0) * k / n + mul_shift12(s.n.0, inset),
        y: -height,
        z: s.a.1 + (s.b.1 - s.a.1) * k / n + mul_shift12(s.n.1, inset),
    }
}

fn find_slot_of(n: i32, k: i32) -> (r: usize)
    requires
        1 <= n <= 3,
        0 <= k <= n,
    ensures
        r == slot_of(n as int, k as int),
        r < 5,
{
    if k == 0 {
        0
    } else if k == n {
        4
    } else if n == 2 {
        2
    } else if k == 1 {
        1
    } else {
        3
    }
}

fn find_wall_skin(
    w: &Walls<'_>,
    s: &Span,
    texels: i32,
    n: i32,
    ri: usize,
    top: usize,
    k: i32,
) -> (r: Skin)
    requires
        w.wf(),
        texels == span_texels(*s),
        1 <= texels <= 95,
        1 <= n <= 3,
        0 <= k < n,
        ri < PROFILE_LEN,
        top < PROFILE_LEN,
    ensures
        r == wall_skin(w.lights.angles@, *s, n as int, ri as int, top as int, k as int),
{
    if ri >= 10 {
        assert(0 <= texels * k <= 95 * n && 0 <= texels * (k + 1) <= 95 * n) by (nonlinear_arith)
            requires
                1 <= texels <= 95,
                0 <= k < n,
        ;
        assert((texels * k) / n as int <= 95 && (texels * (k + 1)) / n as int <= 95 && 0 <= (texels
            * k) / n as int && 0 <= (texels * (k + 1)) / n as int) by (nonlinear_arith)
            requires
                0 <= texels * k <= 95 * n,
                0 <= texels * (k + 1) <= 95 * n,
                1 <= n,
        ;
        let u0: i32 = 128 + texels * k / n;
        let u1: i32 = 128 + texels * (k + 1) / n;
        Skin {
            page: Page::Cover,
            uv: uv_patch(u0 as u8, u1 as u8, w.profile.rows[ri], w.profile.rows[top]),
        }
    } else {
        let u0: i32 = min_i32(64 + 32 * k / n, 95);
        let u1: i32 = min_i32(64 + 32 * (k + 1) / n, 95);
        assert(u0 >= 64 && u1 >= 64) by (nonlinear_arith)
            requires
                0 <= k,
                1 <= n,
                u0 == num::min(64 + (32 * k) / (n as int), 95),
                u1 == num::min(64 + (32 * (k + 1)) / (n as int), 95),
        ;
        Skin { page: Page::Wall, uv: uv_patch(u0 as u8, u1 as u8, 0, 31) }
    }
}

fn push_wall_cell<P: Fn(V3) -> Dot>(
    out: &mut Vec<Packet>,
    lens: &Lens<P>,
    w: &Walls<'_>,
    cull: &Cull,
    si: usize,
    s: &Span,
    texels: i32,
    n: i32,
    ri: usize,
    top: usize,
    k: i32,
)
    requires
        lens.wf(),
        w.wf(),
        si < SPAN_COUNT,
        *s == shell::span_of(si as int),
        s.fits(),
        texels == span_texels(*s),
        1 <= texels <= 95,
        1 <= n <= 3,
        0 <= k < n,
        ri < PROFILE_LEN,
        top < PROFILE_LEN,
    ensures
        final(out)@ == old(out)@ + wall_cell(
            lens,
            w.lights,
            *cull,
            si as int,
            n as int,
            ri as int,
            top as int,
            k as int,
        ),
{
    proof {
        reveal(wall_cell);
    }
    let ghost before = out@;
    let p = lens.project(find_wall_point(w, s, n, ri, k));
    let q = lens.project(find_wall_point(w, s, n, ri, k + 1));
    let r = lens.project(find_wall_point(w, s, n, top, k));
    let u = lens.project(find_wall_point(w, s, n, top, k + 1));
    if p.sz != 0 && q.sz != 0 && r.sz != 0 && u.sz != 0 && dots_overlap(
        &cull.bounds,
        p,
        q,
        r,
        u,
    ) {
        let a: usize = find_slot_of(n, k);
        let b: usize = find_slot_of(n, k + 1);
        let tint = (
            w.lights.wall_at(si, ri, a),
            w.lights.wall_at(si, ri, b),
            w.lights.wall_at(si, top, a),
            w.lights.wall_at(si, top, b),
        );
        let skin = find_wall_skin(w, s, texels, n, ri, top, k);
        out.push(file(p, q, r, u, tint, 0, Some(skin), ri >= 10));
    }
    assert(out@ =~= before + wall_cell(
        lens,
        w.lights,
        *cull,
        si as int,
        n as int,
        ri as int,
        top as int,
        k as int,
    ));
}

fn push_band<P: Fn(V3) -> Dot>(
    out: &mut Vec<Packet>,
    lens: &Lens<P>,
    w: &Walls<'_>,
    cull: &Cull,
    si: usize,
    s: &Span,
    texels: i32,
    n: i32,
    ri: usize,
    top: usize,
)
    requires
        lens.wf(),
        w.wf(),
        si < SPAN_COUNT,
        *s == shell::span_of(si as int),
        s.fits(),
        texels == span_texels(*s),
        1 <= texels <= 95,
        1 <= n <= 3,
        ri < PROFILE_LEN,
        top < PROFILE_LEN,
    ensures
        final(out)@ == old(out)@ + band(
            lens,
            w.lights,
            *cull,
            si as int,
            n as int,
            ri as int,
            top as int,
            n as nat,
        ),
{
    let ghost before = out@;
    let mut k: i32 = 0;
    assert(out@ =~= before + band(
        lens,
        w.lights,
        *cull,
        si as int,
        n as int,
        ri as int,
        top as int,
        0,
    ));
    while k < n
        invariant
            0 <= k <= n,
            lens.wf(),
            w.wf(),
            si < SPAN_COUNT,
            *s == shell::span_of(si as int),
            s.fits(),
            texels == span_texels(*s),
            1 <= texels <= 95,
            1 <= n <= 3,
            ri < PROFILE_LEN,
            top < PROFILE_LEN,
            out@ == before + band(
                lens,
                w.lights,
                *cull,
                si as int,
                n as int,
                ri as int,
                top as int,
                k as nat,
            ),
        decreases n - k,
    {
        push_wall_cell(out, lens, w, cull, si, s, texels, n, ri, top, k);
        k += 1;
        assert(out@ =~= before + band(
            lens,
            w.lights,
            *cull,
            si as int,
            n as int,
            ri as int,
            top as int,
            k as nat,
        ));
    }
}

fn find_next_ring(ri: usize, stride: usize) -> (r: usize)
    requires
        ri < 19,
        1 <= stride <= 8,
    ensures
        r == next_ring(ri as int, stride as int),
        ri < r <= 19,
{
    if ri < 8 {
        if ri + stride < 8 {
            ri + stride
        } else {
            8
        }
    } else if ri >= 11 {
        if ri + stride < 19 {
            ri + stride
        } else {
            19
        }
    } else {
        ri + 1
    }
}

/// Sweeps the cross-section along one run of wall.
pub fn wall_span<P: Fn(V3) -> Dot>(
    out: &mut Vec<Packet>,
    lens: &Lens<P>,
    w: &Walls<'_>,
    cull: &Cull,
    si: usize,
)
    requires
        lens.wf(),
        w.wf(),
        cull.wf(),
        si < SPAN_COUNT,
    ensures
        final(out)@ == old(out)@ + swept(lens, w.lights, *cull, si as int),
{
    proof {
        reveal(swept);
    }
    let ghost before = out@;
    let s = span(si);
    if !sees_span(cull, &s) {
        assert(out@ =~= before + swept(lens, w.lights, *cull, si as int));
        return ;
    }
    let n: i32 = find_span_split(cull, &s);
    let stride: i32 = find_stride(cull, &s);
    let texels: i32 = find_span_texels(si, &s);
    let mut ri: usize = 0;
    let ghost all = bands_from(lens, w.lights, *cull, si as int, n as int, stride as int, 0);
    while ri < 19
        invariant
            ri <= 19,
            lens.wf(),
            w.wf(),
            si < SPAN_COUNT,
            s == shell::span_of(si as int),
            s.fits(),
            texels == span_texels(s),
            1 <= texels <= 95,
            1 <= n <= 3,
            stride == 1 || stride == 2 || stride == 4 || stride == 8,
            out@ + bands_from(
                lens,
                w.lights,
                *cull,
                si as int,
                n as int,
                stride as int,
                ri as int,
            ) == before + all,
        decreases 19 - ri,
    {
        let top: usize = find_next_ring(ri, stride as usize);
        let ghost so_far = out@;
        push_band(out, lens, w, cull, si, &s, texels, n, ri, top);
        proof {
            let b = band(
                lens,
                w.lights,
                *cull,
                si as int,
                n as int,
                ri as int,
                top as int,
                n as nat,
            );
            let rest = bands_from(
                lens,
                w.lights,
                *cull,
                si as int,
                n as int,
                stride as int,
                top as int,
            );
            assert((so_far + b) + rest =~= so_far + (b + rest));
        }
        ri = top;
    }
    assert(out@ =~= before + all);
}

} // verus!
