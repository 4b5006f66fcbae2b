//! Explosions, as a function of their age alone: a flash, sparks that fly and
//! fall, and smoke that outlives both. Nothing is remembered between frames, so
//! two views of one blast agree.

use vstd::prelude::*;
use crate::camera;
use crate::camera::{mul12, to_whole};
use crate::car::Car;
use crate::colour;
use crate::colour::{mix, shade, Livery};
use crate::flight::Team;
use crate::lens;
use crate::lens::{flat_tint, push_quad, Dot, Filing, Lens, Packet};
use crate::num;
use crate::num::{clamp_i32, isqrt_i32, max_i32, min_i32, mul_shift12};
use crate::sim::Sim;
use crate::trig::{Angles, Trig};
use crate::tuning::{DEMO_RESPAWN, GOAL_FREEZE_TICKS, HALF_Z};
use crate::vec3;
use crate::vec3::V3;
use crate::view::{Bounds, Rgb, PROJ_H};

verus! {

/// Ticks a blast lasts.
pub const BURST_LIFE: i32 = 40;
/// Ticks its flash lasts.
pub const FLASH_LIFE: i32 = 8;
/// A blast at life size, Q12.
pub const LIFE_SIZE: i32 = 4096;
/// A goal's blast: three and a half times life size, Q12.
pub const GOAL_BURST_SCALE: i32 = 14_336;

/// A size in uu at a depth, in pixels: at least one, and at most a ceiling.
pub open spec fn in_pixels(size: int, sz: int, most: int) -> int {
    num::min(num::max((size * 260) / sz, 1), most)
}

fn to_pixels(size: i32, sz: u16, most: i32) -> (r: i32)
    requires
        0 <= size <= 100_000,
        sz > 0,
        1 <= most <= 1000,
    ensures
        r == in_pixels(size as int, sz as int, most as int),
        1 <= r <= most,
{
    assert(0 <= (size * 260) / (sz as int)) by (nonlinear_arith)
        requires
            size >= 0,
            sz > 0,
    ;
    min_i32(max_i32(size * PROJ_H / sz as i32, 1), most)
}

/// A dot is in front of the camera and on the accept band.
pub open spec fn shows(b: Bounds, d: Dot) -> bool {
    d.sz != 0 && b.holds(d.sx as int, d.sy as int)
}

// ---- streaks ---------------------------------------------------------------

/// The way a streak points on screen, and how long it is: never longer than a
/// ceiling.
pub open spec fn streak_way(h: Dot, t: Dot) -> (int, int, int) {
    let (dx, dy) = (h.sx - t.sx, h.sy - t.sy);
    let len = num::max(num::root(dx * dx + dy * dy), 1);
    if len > 26 {
        (num::tdiv(dx * 26, len), num::tdiv(dy * 26, len), 26)
    } else {
        (dx, dy, len)
    }
}

/// Across a streak: half its width, at right angles to it, and a square for one
/// that has barely moved.
pub open spec fn streak_across(dx: int, dy: int, len: int, half: int) -> (int, int) {
    let px = num::tdiv(-dy * half, len);
    let py = num::tdiv(dx * half, len);
    if px == 0 && py == 0 {
        (half, 0)
    } else {
        (px, py)
    }
}

/// One piece of debris, as a streak from where it was to where it is.
#[verifier::opaque]
pub open spec fn streak<P: Fn(V3) -> Dot>(
    l: &Lens<P>,
    b: Bounds,
    head: V3,
    tail: V3,
    w: int,
    hot: Rgb,
    cold: Rgb,
) -> Seq<Packet> {
    let h = l.at(head);
    let t = l.at(tail);
    if h.sz == 0 || t.sz == 0 || !b.holds(h.sx as int, h.sy as int) {
        Seq::empty()
    } else {
        let half = in_pixels(w, h.sz as int, 5);
        let (dx, dy, len) = streak_way(h, t);
        let (px, py) = streak_across(dx, dy, len, half);
        let (tx, ty) = (h.sx - dx, h.sy - dy);
        seq![
            Packet {
                at: (
                    ((h.sx + px) as i16, (h.sy + py) as i16),
                    ((h.sx - px) as i16, (h.sy - py) as i16),
                    ((tx + px) as i16, (ty + py) as i16),
                    ((tx - px) as i16, (ty - py) as i16),
                ),
                filing: Filing::At(h.sz as i32),
                tint: (hot, hot, cold, cold),
                skin: None,
                blended: false,
            },
        ]
    }
}

fn find_way(h: Dot, t: Dot) -> (r: (i32, i32, i32))
    requires
        h.near(),
        t.near(),
    ensures
        (r.0 as int, r.1 as int, r.2 as int) == streak_way(h, t),
        -r.2 <= r.0 <= r.2,
        -r.2 <= r.1 <= r.2,
        1 <= r.2 <= 26,
{
    let dx: i32 = h.sx as i32 - t.sx as i32;
    let dy: i32 = h.sy as i32 - t.sy as i32;
    assert(0 <= dx * dx <= 67_108_864 && 0 <= dy * dy <= 67_108_864) by (nonlinear_arith)
        requires
            -8192 <= dx <= 8192,
            -8192 <= dy <= 8192,
    ;
    let root: i32 = isqrt_i32(dx * dx + dy * dy);
    let len: i32 = max_i32(root, 1);
    proof {
        num::lemma_root_covers(root as int, dx * dx + dy * dy, dx as int);
        num::lemma_root_covers(root as int, dx * dx + dy * dy, dy as int);
    }
    if len > 26 {
        proof {
            num::lemma_tdiv_bound(dx * 26, len as int, 26);
            num::lemma_tdiv_bound(dy * 26, len as int, 26);
        }
        (dx * 26 / len, dy * 26 / len, 26)
    } else {
        (dx, dy, len)
    }
}

fn find_across(dx: i32, dy: i32, len: i32, half: i32) -> (r: (i32, i32))
    requires
        -len <= dx <= len,
        -len <= dy <= len,
        1 <= len <= 26,
        1 <= half <= 5,
    ensures
        (r.0 as int, r.1 as int) == streak_across(dx as int, dy as int, len as int, half as int),
        -half <= r.0 <= half,
        -half <= r.1 <= half,
{
    assert(-(half * len) <= -dy * half <= half * len && -(half * len) <= dx * half <= half * len)
        by (nonlinear_arith)
        requires
            -len <= dx <= len,
            -len <= dy <= len,
            1 <= half <= 5,
    ;
    assert(half * len <= 130) by (nonlinear_arith)
        requires
            1 <= len <= 26,
            1 <= half <= 5,
    ;
    proof {
        num::lemma_tdiv_bound(-dy * half, len as int, half as int);
        num::lemma_tdiv_bound(dx * half, len as int, half as int);
    }
    let px: i32 = -dy * half / len;
    let py: i32 = dx * half / len;
    if px == 0 && py == 0 {
        (half, 0)
    } else {
        (px, py)
    }
}

fn push_streak<P: Fn(V3) -> Dot>(
    out: &mut Vec<Packet>,
    lens: &Lens<P>,
    bounds: &Bounds,
    head: V3,
    tail: V3,
    w: i32,
    hot: Rgb,
    cold: Rgb,
)
    requires
        lens.wf(),
        0 <= w <= 1000,
    ensures
        final(out)@ == old(out)@ + streak(lens, *bounds, head, tail, w as int, hot, cold),
{
    proof {
        reveal(streak);
    }
    let ghost before = out@;
    let h = lens.project(head);
    let t = lens.project(tail);
    if h.sz != 0 && t.sz != 0 && bounds.on_view(h.sx, h.sy) {
        let half: i32 = to_pixels(w, h.sz, 5);
        let (dx, dy, len): (i32, i32, i32) = find_way(h, t);
        let (px, py): (i32, i32) = find_across(dx, dy, len, half);
        let (hx, hy): (i32, i32) = (h.sx as i32, h.sy as i32);
        let (tx, ty): (i32, i32) = (hx - dx, hy - dy);
        out.push(
            Packet {
                at: (
                    ((hx + px) as i16, (hy + py) as i16),
                    ((hx - px) as i16, (hy - py) as i16),
                    ((tx + px) as i16, (ty + py) as i16),
                    ((tx - px) as i16, (ty - py) as i16),
                ),
                filing: Filing::At(h.sz as i32),
                tint: (hot, hot, cold, cold),
                skin: None,
                blended: false,
            },
        );
    }
    assert(out@ =~= before + streak(lens, *bounds, head, tail, w as int, hot, cold));
}

// ---- soft squares ----------------------------------------------------------

/// A square of light or smoke facing the camera, averaged with what is behind
/// it.
#[verifier::opaque]
pub open spec fn puff<P: Fn(V3) -> Dot>(
    l: &Lens<P>,
    b: Bounds,
    p: V3,
    size: int,
    most: int,
    c: Rgb,
) -> Seq<Packet> {
    let d = l.at(p);
    if shows(b, d) {
        let h = in_pixels(size, d.sz as int, most);
        let (x0, x1) = ((d.sx - h) as i16, (d.sx + h) as i16);
        let (y0, y1) = ((d.sy - h) as i16, (d.sy + h) as i16);
        seq![
            Packet {
                at: ((x0, y0), (x1, y0), (x0, y1), (x1, y1)),
                filing: Filing::At(d.sz as i32),
                tint: lens::flat(c),
                skin: None,
                blended: true,
            },
        ]
    } else {
        Seq::empty()
    }
}

fn push_puff<P: Fn(V3) -> Dot>(
    out: &mut Vec<Packet>,
    lens: &Lens<P>,
    bounds: &Bounds,
    p: V3,
    size: i32,
    most: i32,
    c: Rgb,
)
    requires
        lens.wf(),
        0 <= size <= 100_000,
        1 <= most <= 1000,
    ensures
        final(out)@ == old(out)@ + puff(lens, *bounds, p, size as int, most as int, c),
{
    proof {
        reveal(puff);
    }
    let ghost before = out@;
    let d = lens.project(p);
    if d.sz != 0 && bounds.on_view(d.sx, d.sy) {
        let h: i32 = to_pixels(size, d.sz, most);
        let (x0, x1): (i16, i16) = ((d.sx as i32 - h) as i16, (d.sx as i32 + h) as i16);
        let (y0, y1): (i16, i16) = ((d.sy as i32 - h) as i16, (d.sy as i32 + h) as i16);
        out.push(
            Packet {
                at: ((x0, y0), (x1, y0), (x0, y1), (x1, y1)),
                filing: Filing::At(d.sz as i32),
                tint: flat_tint(c),
                skin: None,
                blended: true,
            },
        );
    }
    assert(out@ =~= before + puff(lens, *bounds, p, size as int, most as int, c));
}

/// The blast's own numbers: where it went off, how long ago, in whose colour,
/// how large (Q12), and whether it is drawn with half its pieces.
#[derive(Copy, Clone, Debug, PartialEq, Eq)]
pub struct Blast {
    /// Where it went off.
    pub origin: V3,
    /// Ticks since.
    pub age: i32,
    /// The colour of what blew up.
    pub colour: Rgb,
    /// Size, Q12.
    pub scale: i32,
    /// Drawn with half its pieces.
    pub half_detail: bool,
}

impl Blast {
    /// Within the arena's surroundings, and no more than four times life size.
    pub open spec fn wf(self) -> bool {
        self.origin.within(0x10_0000) && 0 <= self.scale <= 16_384
    }

    /// How many sparks it throws.
    pub open spec fn sparks(self) -> int {
        if self.half_detail {
            9
        } else {
            18
        }
    }

    /// How many puffs of smoke it leaves.
    pub open spec fn puffs(self) -> int {
        if self.half_detail {
            4
        } else {
            9
        }
    }

    /// A length at life size, at this blast's size.
    pub open spec fn sized(self, n: int) -> int {
        (n * self.scale) / 4096
    }

    fn size(&self, n: i32) -> (r: i32)
        requires
            self.wf(),
            0 <= n <= 1000,
        ensures
            r == self.sized(n as int),
            0 <= r <= 4 * n,
    {
        assert(0 <= n * self.scale <= n * 16_384) by (nonlinear_arith)
            requires
                0 <= n,
                0 <= self.scale <= 16_384,
        ;
        mul_shift12(n, self.scale)
    }
}

// ---- the flash -------------------------------------------------------------

/// The flash: a wide dim square under a small white one, both growing fast and
/// gone in a few ticks.
#[verifier::opaque]
pub open spec fn flash<P: Fn(V3) -> Dot>(l: &Lens<P>, b: Bounds, k: Blast) -> Seq<Packet> {
    if k.age < 8 {
        let grow = (k.age + 2) * 512;
        let fade = (8 - k.age) * 512;
        let wide = k.sized(70) * grow;
        puff(
            l,
            b,
            k.origin,
            wide / 4096,
            26,
            colour::shaded(colour::mixed(k.colour, (255, 236, 170), 10), fade, 4096),
        ) + puff(
            l,
            b,
            k.origin,
            wide / 8192,
            26,
            colour::shaded((255, 250, 226), fade, 4096),
        )
    } else {
        Seq::empty()
    }
}

fn push_flash<P: Fn(V3) -> Dot>(out: &mut Vec<Packet>, lens: &Lens<P>, bounds: &Bounds, k: &Blast)
    requires
        lens.wf(),
        k.wf(),
        0 <= k.age < 40,
    ensures
        final(out)@ == old(out)@ + flash(lens, *bounds, *k),
{
    proof {
        reveal(flash);
    }
    let ghost before = out@;
    if k.age < FLASH_LIFE {
        let grow: i32 = (k.age + 2) * 4096 / FLASH_LIFE;
        let fade: i32 = (FLASH_LIFE - k.age) * 4096 / FLASH_LIFE;
        let r: i32 = k.size(70);
        assert(0 <= r * grow <= 280 * 4608) by (nonlinear_arith)
            requires
                0 <= r <= 280,
                0 <= grow <= 4608,
        ;
        let wide: i32 = r * grow;
        push_puff(
            out,
            lens,
            bounds,
            k.origin,
            wide / 4096,
            26,
            shade(mix(k.colour, (255, 236, 170), 10), fade, 4096),
        );
        push_puff(
            out,
            lens,
            bounds,
            k.origin,
            wide / 8192,
            26,
            shade((255, 250, 226), fade, 4096),
        );
    }
    assert(out@ =~= before + flash(lens, *bounds, *k));
}

// ---- sparks ----------------------------------------------------------------

/// How long a spark lives. Every other one is fire, which burns out first; the
/// rest is debris.
pub open spec fn spark_life(i: int) -> int {
    if i % 2 == 0 {
        13
    } else {
        30
    }
}

/// The tick a spark is thrown.
pub open spec fn spark_born(i: int) -> int {
    (i * 3) % 5
}

/// The heading a spark leaves on: spread round a ring, with an elevation that
/// walks around it.
pub open spec fn spark_dir(t: Angles, i: int, n: int) -> V3 {
    let yaw = ((4096 * i) / n + (i * 1013) % 256) as u16;
    let elev = ((i * 577) % 1024 + 128) as u16;
    vec3::v3(
        (t.sin(yaw) * t.cos(elev)) / 4096,
        t.sin(elev),
        (t.cos(yaw) * t.cos(elev)) / 4096,
    )
}

/// How fast a spark leaves, in uu a tick.
pub open spec fn spark_speed(k: Blast, i: int) -> int {
    k.sized(
        (if i % 2 == 0 {
            46int
        } else {
            26int
        }) - (i * 7) % 16,
    )
}

/// How far a spark has come: nearly all of it in the first few ticks.
pub open spec fn spark_travel(speed: int, life: int, t: int) -> int {
    (speed * t * (2 * life - t)) / (2 * life)
}

/// Where a spark is after `t` ticks of flight.
pub open spec fn spark_at(origin: V3, dir: V3, speed: int, life: int, t: int) -> V3 {
    let travel = spark_travel(speed, life, t);
    vec3::v3(
        origin.x + (dir.x * travel) / 4096,
        origin.y - (dir.y * travel) / 4096 + (t * t * 128) / 256,
        origin.z + (dir.z * travel) / 4096,
    )
}

/// A spark's colour: held bright for most of the flight, and dropped over the
/// last third. Fire runs from white to the colour of what blew up.
pub open spec fn spark_tint(c: Rgb, i: int, left: int) -> Rgb {
    let life = spark_life(i);
    let fade = num::min(left * 3, life);
    if i % 2 == 0 {
        colour::shaded(colour::mixed(c, (255, 248, 226), (14 * left) / life), fade, life)
    } else {
        colour::shaded(colour::mixed(c, (40, 36, 36), 8), fade, life)
    }
}

/// A spark is in the air.
pub open spec fn spark_flies(age: int, i: int) -> bool {
    spark_born(i) <= age < spark_born(i) + spark_life(i)
}

/// One spark, as a streak from where it was a moment ago.
#[verifier::opaque]
pub open spec fn spark<P: Fn(V3) -> Dot>(
    l: &Lens<P>,
    b: Bounds,
    a: Angles,
    k: Blast,
    i: int,
) -> Seq<Packet> {
    if spark_flies(k.age as int, i) {
        let life = spark_life(i);
        let t = k.age - spark_born(i);
        let dir = spark_dir(a, i, k.sparks());
        let speed = spark_speed(k, i);
        let hot = spark_tint(k.colour, i, life - t);
        streak(
            l,
            b,
            spark_at(k.origin, dir, speed, life, t),
            spark_at(k.origin, dir, speed, life, num::max(t - 3, 0)),
            k.sized(
                if i % 2 == 0 {
                    5
                } else {
                    6
                },
            ),
            hot,
            colour::shaded(hot, 1, 3),
        )
    } else {
        Seq::empty()
    }
}

/// The first so many sparks.
pub open spec fn sparks<P: Fn(V3) -> Dot>(
    l: &Lens<P>,
    b: Bounds,
    a: Angles,
    k: Blast,
    n: int,
) -> Seq<Packet>
    decreases n,
{
    if n <= 0 {
        Seq::empty()
    } else {
        sparks(l, b, a, k, n - 1) + spark(l, b, a, k, n - 1)
    }
}

fn aim_spark<F: Fn(i32, i32) -> u16>(trig: &Trig<F>, i: i32, n: i32) -> (r: V3)
    requires
        trig.wf(),
        0 <= i < n <= 18,
    ensures
        r == spark_dir(trig.model(), i as int, n as int),
        r.within(4096),
{
    assert(0 <= (4096 * i) / (n as int) <= 4096) by (nonlinear_arith)
        requires
            0 <= i < n,
    ;
    let yaw: u16 = (4096 * i / n + (i * 1013) % 256) as u16;
    let elev: u16 = ((i * 577) % 1024 + 128) as u16;
    let ce: i32 = trig.cos_q12(elev);
    let se: i32 = trig.sin_q12(elev);
    let x: i32 = mul12(trig.sin_q12(yaw), ce);
    let z: i32 = mul12(trig.cos_q12(yaw), ce);
    V3::new(x, se, z)
}

fn place_spark(origin: V3, dir: V3, speed: i32, life: i32, t: i32) -> (r: V3)
    requires
        origin.within(0x10_0000),
        dir.within(4096),
        0 <= speed <= 184,
        1 <= life <= 30,
        0 <= t < life,
    ensures
        r == spark_at(origin, dir, speed as int, life as int, t as int),
{
    assert(0 <= speed * t <= 184 * 30) by (nonlinear_arith)
        requires
            0 <= speed <= 184,
            0 <= t <= 30,
    ;
    let gone: i32 = speed * t;
    assert(0 <= gone * (2 * life - t) <= gone * (2 * life)) by (nonlinear_arith)
        requires
            0 <= gone,
            0 <= t <= life,
    ;
    assert(gone * (2 * life) <= 5520 * 60) by (nonlinear_arith)
        requires
            0 <= gone <= 5520,
            0 <= life <= 30,
    ;
    let travel: i32 = gone * (2 * life - t) / (2 * life);
    assert(0 <= travel <= gone) by (nonlinear_arith)
        requires
            travel == (gone * (2 * life - t)) / (2 * life),
            0 <= gone * (2 * life - t) <= gone * (2 * life),
            1 <= life,
    ;
    assert(0 <= t * t <= 900) by (nonlinear_arith)
        requires
            0 <= t <= 30,
    ;
    let drop: i32 = t * t * 128 / 256;
    let dx: i32 = mul12(dir.x, travel);
    let dy: i32 = mul12(dir.y, travel);
    let dz: i32 = mul12(dir.z, travel);
    V3::new(origin.x + dx, origin.y - dy + drop, origin.z + dz)
}

fn tint_spark(c: Rgb, i: i32, left: i32) -> (r: Rgb)
    requires
        0 <= i < 18,
        1 <= left <= spark_life(i as int),
    ensures
        r == spark_tint(c, i as int, left as int),
{
    if i % 2 == 0 {
        shade(mix(c, (255, 248, 226), 14 * left / 13), min_i32(left * 3, 13), 13)
    } else {
        shade(mix(c, (40, 36, 36), 8), min_i32(left * 3, 30), 30)
    }
}

fn push_spark<P: Fn(V3) -> Dot, F: Fn(i32, i32) -> u16>(
    out: &mut Vec<Packet>,
    lens: &Lens<P>,
    bounds: &Bounds,
    trig: &Trig<F>,
    k: &Blast,
    n: i32,
    i: i32,
)
    requires
        lens.wf(),
        trig.wf(),
        k.wf(),
        0 <= k.age < 40,
        n == k.sparks(),
        0 <= i < n,
    ensures
        final(out)@ == old(out)@ + spark(lens, *bounds, trig.model(), *k, i as int),
{
    proof {
        reveal(spark);
    }
    let ghost before = out@;
    let fire = i % 2 == 0;
    let life: i32 = if fire {
        13
    } else {
        30
    };
    let born: i32 = (i * 3) % 5;
    if k.age < born || k.age - born >= life {
        assert(out@ =~= before + spark(lens, *bounds, trig.model(), *k, i as int));
        return;
    }
    let t: i32 = k.age - born;
    let dir = aim_spark(trig, i, n);
    let pace: i32 = if fire {
        46
    } else {
        26
    };
    let speed: i32 = k.size(pace - (i * 7) % 16);
    let hot = tint_spark(k.colour, i, life - t);
    let head = place_spark(k.origin, dir, speed, life, t);
    let tail = place_spark(k.origin, dir, speed, life, max_i32(t - 3, 0));
    let w: i32 = k.size(
        if fire {
            5
        } else {
            6
        },
    );
    push_streak(out, lens, bounds, head, tail, w, hot, shade(hot, 1, 3));
}

fn push_sparks<P: Fn(V3) -> Dot, F: Fn(i32, i32) -> u16>(
    out: &mut Vec<Packet>,
    lens: &Lens<P>,
    bounds: &Bounds,
    trig: &Trig<F>,
    k: &Blast,
)
    requires
        lens.wf(),
        trig.wf(),
        k.wf(),
        0 <= k.age < 40,
    ensures
        final(out)@ == old(out)@ + sparks(lens, *bounds, trig.model(), *k, k.sparks()),
{
    let ghost before = out@;
    let n: i32 = if k.half_detail {
        9
    } else {
        18
    };
    let mut i: i32 = 0;
    assert(out@ =~= before + sparks(lens, *bounds, trig.model(), *k, 0));
    while i < n
        invariant
            0 <= i <= n,
            n == k.sparks(),
            lens.wf(),
            trig.wf(),
            k.wf(),
            0 <= k.age < 40,
            out@ == before + sparks(lens, *bounds, trig.model(), *k, i as int),
        decreases n - i,
    {
        push_spark(out, lens, bounds, trig, k, n, i);
        i += 1;
        assert(out@ =~= before + sparks(lens, *bounds, trig.model(), *k, i as int));
    }
}

// ---- smoke -----------------------------------------------------------------

/// Where a puff of smoke is, `t` ticks after it came off: drifting out and up.
pub open spec fn smoke_at(a: Angles, k: Blast, i: int, t: int) -> V3 {
    let yaw = ((4096 * i) / k.puffs() + 400) as u16;
    let travel = k.sized(5) * t;
    vec3::v3(
        k.origin.x + (a.sin(yaw) * travel) / 4096,
        k.origin.y - (k.sized(26) * t) / 8,
        k.origin.z + (a.cos(yaw) * travel) / 4096,
    )
}

/// One puff of smoke: growing, and dark and getting darker.
#[verifier::opaque]
pub open spec fn smoke<P: Fn(V3) -> Dot>(
    l: &Lens<P>,
    b: Bounds,
    a: Angles,
    k: Blast,
    i: int,
) -> Seq<Packet> {
    let t = k.age - i * 2;
    if t >= 0 {
        let left = 40 - k.age;
        puff(
            l,
            b,
            smoke_at(a, k, i, t),
            k.sized(12 + (13 * t) / 8),
            16,
            colour::shaded((132, 128, 132), (left * left) / 20, 40),
        )
    } else {
        Seq::empty()
    }
}

/// The first so many puffs.
pub open spec fn cloud<P: Fn(V3) -> Dot>(
    l: &Lens<P>,
    b: Bounds,
    a: Angles,
    k: Blast,
    n: int,
) -> Seq<Packet>
    decreases n,
{
    if n <= 0 {
        Seq::empty()
    } else {
        cloud(l, b, a, k, n - 1) + smoke(l, b, a, k, n - 1)
    }
}

fn place_smoke<F: Fn(i32, i32) -> u16>(trig: &Trig<F>, k: &Blast, n: i32, i: i32, t: i32) -> (r: V3)
    requires
        trig.wf(),
        k.wf(),
        n == k.puffs(),
        0 <= i < n,
        0 <= t < 40,
    ensures
        r == smoke_at(trig.model(), *k, i as int, t as int),
{
    assert(0 <= (4096 * i) / (n as int) <= 4096) by (nonlinear_arith)
        requires
            0 <= i < n,
    ;
    let yaw: u16 = (4096 * i / n + 400) as u16;
    let out: i32 = k.size(5);
    let up: i32 = k.size(26);
    assert(0 <= out * t <= 800 && 0 <= up * t <= 4160) by (nonlinear_arith)
        requires
            0 <= out <= 20,
            0 <= up <= 104,
            0 <= t < 40,
    ;
    let dx: i32 = mul12(trig.sin_q12(yaw), out * t);
    let dz: i32 = mul12(trig.cos_q12(yaw), out * t);
    V3::new(k.origin.x + dx, k.origin.y - up * t / 8, k.origin.z + dz)
}

fn push_smoke<P: Fn(V3) -> Dot, F: Fn(i32, i32) -> u16>(
    out: &mut Vec<Packet>,
    lens: &Lens<P>,
    bounds: &Bounds,
    trig: &Trig<F>,
    k: &Blast,
    n: i32,
    i: i32,
)
    requires
        lens.wf(),
        trig.wf(),
        k.wf(),
        0 <= k.age < 40,
        n == k.puffs(),
        0 <= i < n,
    ensures
        final(out)@ == old(out)@ + smoke(lens, *bounds, trig.model(), *k, i as int),
{
    proof {
        reveal(smoke);
    }
    let ghost before = out@;
    let born: i32 = i * 2;
    if k.age < born {
        assert(out@ =~= before + smoke(lens, *bounds, trig.model(), *k, i as int));
        return;
    }
    let t: i32 = k.age - born;
    let left: i32 = BURST_LIFE - k.age;
    assert(0 <= left * left <= 1600) by (nonlinear_arith)
        requires
            0 <= left <= 40,
    ;
    let p = place_smoke(trig, k, n, i, t);
    let r: i32 = k.size(12 + 13 * t / 8);
    push_puff(out, lens, bounds, p, r, 16, shade((132, 128, 132), left * left / 20, BURST_LIFE));
}

fn push_cloud<P: Fn(V3) -> Dot, F: Fn(i32, i32) -> u16>(
    out: &mut Vec<Packet>,
    lens: &Lens<P>,
    bounds: &Bounds,
    trig: &Trig<F>,
    k: &Blast,
)
    requires
        lens.wf(),
        trig.wf(),
        k.wf(),
        0 <= k.age < 40,
    ensures
        final(out)@ == old(out)@ + cloud(lens, *bounds, trig.model(), *k, k.puffs()),
{
    let ghost before = out@;
    let n: i32 = if k.half_detail {
        4
    } else {
        9
    };
    let mut i: i32 = 0;
    assert(out@ =~= before + cloud(lens, *bounds, trig.model(), *k, 0));
    while i < n
        invariant
            0 <= i <= n,
            n == k.puffs(),
            lens.wf(),
            trig.wf(),
            k.wf(),
            0 <= k.age < 40,
            out@ == before + cloud(lens, *bounds, trig.model(), *k, i as int),
        decreases n - i,
    {
        push_smoke(out, lens, bounds, trig, k, n, i);
        i += 1;
        assert(out@ =~= before + cloud(lens, *bounds, trig.model(), *k, i as int));
    }
}

// ---- the whole blast -------------------------------------------------------

/// A blast: the flash, the sparks and the smoke, and nothing once it is over.
pub open spec fn explosion<P: Fn(V3) -> Dot>(l: &Lens<P>, b: Bounds, a: Angles, k: Blast) -> Seq<
    Packet,
> {
    if 0 <= k.age < 40 {
        flash(l, b, k) + sparks(l, b, a, k, k.sparks()) + cloud(l, b, a, k, k.puffs())
    } else {
        Seq::empty()
    }
}

/// A burst of debris, its whole flight a function of its age alone.
pub fn burst<P: Fn(V3) -> Dot, F: Fn(i32, i32) -> u16>(
    out: &mut Vec<Packet>,
    lens: &Lens<P>,
    bounds: &Bounds,
    trig: &Trig<F>,
    k: &Blast,
)
    requires
        lens.wf(),
        trig.wf(),
        k.wf(),
    ensures
        final(out)@ == old(out)@ + explosion(lens, *bounds, trig.model(), *k),
{
    let ghost before = out@;
    if 0 <= k.age && k.age < BURST_LIFE {
        push_flash(out, lens, bounds, k);
        push_sparks(out, lens, bounds, trig, k);
        push_cloud(out, lens, bounds, trig, k);
    }
    assert(out@ =~= before + explosion(lens, *bounds, trig.model(), *k));
}

// ---- wrecks ----------------------------------------------------------------

/// A point of the match in the space it is drawn in, where down is positive.
pub open spec fn drawn(p: V3) -> V3 {
    vec3::v3(camera::whole(p.x as int), -camera::whole(p.y as int), camera::whole(p.z as int))
}

/// A point of the match in the space it is drawn in, where down is positive.
pub fn to_drawn(p: V3) -> (r: V3)
    ensures
        r == drawn(p),
        r.within(0x200_0000),
        p.within(0x400_0000) ==> r.within(0x10_0000),
{
    let y: i32 = to_whole(p.y);
    V3::new(to_whole(p.x), -y, to_whole(p.z))
}

/// The blast a wreck leaves behind, at life size and in its seat's colour.
pub open spec fn wreck_blast(c: Car, tint: Rgb, half_detail: bool) -> Blast {
    Blast {
        origin: drawn(c.p),
        age: (180 - c.demo_timer) as i32,
        colour: tint,
        scale: 4096,
        half_detail,
    }
}

/// What a wrecked car shows: its blast, until it is over.
pub open spec fn wreck<P: Fn(V3) -> Dot>(
    l: &Lens<P>,
    b: Bounds,
    a: Angles,
    c: Car,
    tint: Rgb,
) -> Seq<Packet> {
    if c.is_wrecked() {
        explosion(l, b, a, wreck_blast(c, tint, b.split))
    } else {
        Seq::empty()
    }
}

/// A wreck's timer is one a match sets.
pub open spec fn timed(c: Car) -> bool {
    c.demo_timer <= 180 && c.p.within(0x400_0000)
}

fn push_wreck<P: Fn(V3) -> Dot, F: Fn(i32, i32) -> u16>(
    out: &mut Vec<Packet>,
    lens: &Lens<P>,
    bounds: &Bounds,
    trig: &Trig<F>,
    car: &Car,
    tint: Rgb,
)
    requires
        lens.wf(),
        trig.wf(),
        timed(*car),
    ensures
        final(out)@ == old(out)@ + wreck(lens, *bounds, trig.model(), *car, tint),
{
    let ghost before = out@;
    if car.wrecked() {
        let k = Blast {
            origin: to_drawn(car.p),
            age: (DEMO_RESPAWN - car.demo_timer) as i32,
            colour: tint,
            scale: LIFE_SIZE,
            half_detail: bounds.split,
        };
        burst(out, lens, bounds, trig, &k);
    }
    assert(out@ =~= before + wreck(lens, *bounds, trig.model(), *car, tint));
}

/// The blast of each wrecked car, where it was hit.
pub open spec fn wrecks<P: Fn(V3) -> Dot>(
    l: &Lens<P>,
    b: Bounds,
    a: Angles,
    s: Sim,
    livery: Livery,
) -> Seq<Packet> {
    wreck(l, b, a, s.car, livery.signal_of(0)) + wreck(
        l,
        b,
        a,
        s.opponent,
        livery.signal_of(1),
    )
}

/// The explosion each demolished car leaves behind.
pub fn demo_burst<P: Fn(V3) -> Dot, F: Fn(i32, i32) -> u16>(
    out: &mut Vec<Packet>,
    lens: &Lens<P>,
    bounds: &Bounds,
    trig: &Trig<F>,
    s: &Sim,
    livery: &Livery,
)
    requires
        lens.wf(),
        trig.wf(),
        livery.wf(),
        timed(s.car),
        timed(s.opponent),
    ensures
        final(out)@ == old(out)@ + wrecks(lens, *bounds, trig.model(), *s, *livery),
{
    let ghost before = out@;
    push_wreck(out, lens, bounds, trig, &s.car, livery.seat_signal(0));
    push_wreck(out, lens, bounds, trig, &s.opponent, livery.seat_signal(1));
    assert(out@ =~= before + wrecks(lens, *bounds, trig.model(), *s, *livery));
}

// ---- goals -----------------------------------------------------------------

/// A point of the shockwave, on the floor round the ball.
pub open spec fn ring_point(a: Angles, bx: int, bz: int, angle: u16, r: int) -> V3 {
    vec3::v3(bx + (a.sin(angle) * r) / 4096, -5, bz + (a.cos(angle) * r) / 4096)
}

/// One segment of the shockwave.
#[verifier::opaque]
pub open spec fn ring_segment<P: Fn(V3) -> Dot>(
    l: &Lens<P>,
    b: Bounds,
    a: Angles,
    bx: int,
    bz: int,
    r: int,
    c: Rgb,
    i: int,
) -> Seq<Packet> {
    let from = ((4096 * i) / 10) as u16;
    let to = ((4096 * (i + 1)) / 10) as u16;
    lens::quad(
        l,
        b,
        (
            ring_point(a, bx, bz, from, r - 40),
            ring_point(a, bx, bz, from, r),
            ring_point(a, bx, bz, to, r - 40),
            ring_point(a, bx, bz, to, r),
        ),
        lens::flat(c),
        -80,
        None,
        false,
    )
}

/// The first so many segments of the shockwave.
pub open spec fn ring<P: Fn(V3) -> Dot>(
    l: &Lens<P>,
    b: Bounds,
    a: Angles,
    bx: int,
    bz: int,
    r: int,
    c: Rgb,
    n: int,
) -> Seq<Packet>
    decreases n,
{
    if n <= 0 {
        Seq::empty()
    } else {
        ring(l, b, a, bx, bz, r, c, n - 1) + ring_segment(l, b, a, bx, bz, r, c, n - 1)
    }
}

fn on_ring<F: Fn(i32, i32) -> u16>(trig: &Trig<F>, bx: i32, bz: i32, angle: u16, r: i32) -> (p: V3)
    requires
        trig.wf(),
        -0x200_0000 <= bx <= 0x200_0000,
        -0x200_0000 <= bz <= 0x200_0000,
        0 <= r <= 10_000,
    ensures
        p == ring_point(trig.model(), bx as int, bz as int, angle, r as int),
{
    let dx: i32 = mul12(trig.sin_q12(angle), r);
    let dz: i32 = mul12(trig.cos_q12(angle), r);
    V3::new(bx + dx, -5, bz + dz)
}

fn push_ring_segment<P: Fn(V3) -> Dot, F: Fn(i32, i32) -> u16>(
    out: &mut Vec<Packet>,
    lens: &Lens<P>,
    bounds: &Bounds,
    trig: &Trig<F>,
    at: (i32, i32),
    r: i32,
    c: Rgb,
    i: i32,
)
    requires
        lens.wf(),
        trig.wf(),
        -0x200_0000 <= at.0 <= 0x200_0000,
        -0x200_0000 <= at.1 <= 0x200_0000,
        40 <= r <= 10_000,
        0 <= i < 10,
    ensures
        final(out)@ == old(out)@ + ring_segment(
            lens,
            *bounds,
            trig.model(),
            at.0 as int,
            at.1 as int,
            r as int,
            c,
            i as int,
        ),
{
    proof {
        reveal(ring_segment);
    }
    let from: u16 = (4096 * i / 10) as u16;
    let to: u16 = (4096 * (i + 1) / 10) as u16;
    let corners = (
        on_ring(trig, at.0, at.1, from, r - 40),
        on_ring(trig, at.0, at.1, from, r),
        on_ring(trig, at.0, at.1, to, r - 40),
        on_ring(trig, at.0, at.1, to, r),
    );
    push_quad(out, lens, bounds, corners, flat_tint(c), -80, None, false);
}

fn push_ring<P: Fn(V3) -> Dot, F: Fn(i32, i32) -> u16>(
    out: &mut Vec<Packet>,
    lens: &Lens<P>,
    bounds: &Bounds,
    trig: &Trig<F>,
    at: (i32, i32),
    r: i32,
    c: Rgb,
)
    requires
        lens.wf(),
        trig.wf(),
        -0x200_0000 <= at.0 <= 0x200_0000,
        -0x200_0000 <= at.1 <= 0x200_0000,
        40 <= r <= 10_000,
    ensures
        final(out)@ == old(out)@ + ring(
            lens,
            *bounds,
            trig.model(),
            at.0 as int,
            at.1 as int,
            r as int,
            c,
            10,
        ),
{
    let ghost before = out@;
    let ghost a = trig.model();
    let mut i: i32 = 0;
    assert(out@ =~= before + ring(lens, *bounds, a, at.0 as int, at.1 as int, r as int, c, 0));
    while i < 10
        invariant
            0 <= i <= 10,
            lens.wf(),
            trig.wf(),
            a == trig.model(),
            -0x200_0000 <= at.0 <= 0x200_0000,
            -0x200_0000 <= at.1 <= 0x200_0000,
            40 <= r <= 10_000,
            out@ == before + ring(
                lens,
                *bounds,
                a,
                at.0 as int,
                at.1 as int,
                r as int,
                c,
                i as int,
            ),
        decreases 10 - i,
    {
        push_ring_segment(out, lens, bounds, trig, at, r, c, i);
        i += 1;
        assert(out@ =~= before + ring(
            lens,
            *bounds,
            a,
            at.0 as int,
            at.1 as int,
            r as int,
            c,
            i as int,
        ));
    }
}

/// The colour of the seat that scored last.
pub open spec fn scorer_tint(s: Sim, livery: Livery) -> Rgb {
    match s.last_scorer {
        Team::Blue => livery.signal_of(0),
        Team::Orange => livery.signal_of(1),
    }
}

/// The blast of a goal: on the goal line, where it can be seen, rather than in
/// the back of the net.
pub open spec fn goal_blast(s: Sim, livery: Livery, half_detail: bool) -> Blast {
    let p = drawn(s.ball.p);
    Blast {
        origin: vec3::v3(p.x as int, p.y as int, num::clamp(p.z as int, -5120, 5120)),
        age: (150 - s.goal_freeze) as i32,
        colour: scorer_tint(s, livery),
        scale: 14_336,
        half_detail,
    }
}

/// A goal's celebration: while the match is frozen, a shockwave on the floor
/// that spreads and fades, and a blast between the posts.
#[verifier::opaque]
pub open spec fn celebration<P: Fn(V3) -> Dot>(
    l: &Lens<P>,
    b: Bounds,
    a: Angles,
    s: Sim,
    livery: Livery,
) -> Seq<Packet> {
    if s.goal_freeze == 0 {
        Seq::empty()
    } else {
        let age = 150 - s.goal_freeze;
        let p = drawn(s.ball.p);
        let wave = if age < 70 {
            ring(
                l,
                b,
                a,
                p.x as int,
                p.z as int,
                120 + age * 26,
                colour::shaded(scorer_tint(s, livery), ((70 - age) * 4096) / 70, 4096),
                10,
            )
        } else {
            Seq::empty()
        };
        wave + explosion(l, b, a, goal_blast(s, livery, b.split))
    }
}

/// The goal celebration, drawn only while the world is frozen after a goal.
pub fn goal_burst<P: Fn(V3) -> Dot, F: Fn(i32, i32) -> u16>(
    out: &mut Vec<Packet>,
    lens: &Lens<P>,
    bounds: &Bounds,
    trig: &Trig<F>,
    s: &Sim,
    livery: &Livery,
)
    requires
        lens.wf(),
        trig.wf(),
        livery.wf(),
        s.goal_freeze <= 150,
        s.ball.p.within(0x400_0000),
    ensures
        final(out)@ == old(out)@ + celebration(
            lens,
            *bounds,
            trig.model(),
            *s,
            *livery,
        ),
{
    proof {
        reveal(celebration);
    }
    let ghost before = out@;
    if s.goal_freeze != 0 {
        let age: i32 = (GOAL_FREEZE_TICKS - s.goal_freeze) as i32;
        let team = match s.last_scorer {
            Team::Blue => livery.seat_signal(0),
            Team::Orange => livery.seat_signal(1),
        };
        let p = to_drawn(s.ball.p);
        if age < 70 {
            let fade: i32 = (70 - age) * 4096 / 70;
            push_ring(
                out,
                lens,
                bounds,
                trig,
                (p.x, p.z),
                120 + age * 26,
                shade(team, fade, 4096),
            );
        }
        let k = Blast {
            origin: V3::new(p.x, p.y, clamp_i32(p.z, -HALF_Z, HALF_Z)),
            age,
            colour: team,
            scale: GOAL_BURST_SCALE,
            half_detail: bounds.split,
        };
        burst(out, lens, bounds, trig, &k);
    }
    assert(out@ =~= before + celebration(
        lens,
        *bounds,
        trig.model(),
        *s,
        *livery,
    ));
}

// ---- what holds of every blast ---------------------------------------------

/// A blast is over after its life, whatever it was: it draws nothing more.
pub proof fn law_a_blast_ends<P: Fn(V3) -> Dot>(l: &Lens<P>, b: Bounds, a: Angles, k: Blast)
    requires
        k.age >= BURST_LIFE,
    ensures
        explosion(l, b, a, k).len() == 0,
{
}

/// A blast costs at most two quads of flash and one each for a spark and a puff
/// of smoke, and one at half detail costs at most half the sparks and smoke.
pub proof fn law_a_blast_has_a_budget<P: Fn(V3) -> Dot>(
    l: &Lens<P>,
    b: Bounds,
    a: Angles,
    k: Blast,
)
    ensures
        explosion(l, b, a, k).len() <= 2 + k.sparks() + k.puffs(),
        explosion(l, b, a, k).len() <= 29,
        k.half_detail ==> explosion(l, b, a, k).len() <= 15,
{
    reveal(flash);
    reveal(puff);
    lemma_sparks(l, b, a, k, k.sparks());
    lemma_cloud(l, b, a, k, k.puffs());
}

proof fn lemma_sparks<P: Fn(V3) -> Dot>(l: &Lens<P>, b: Bounds, a: Angles, k: Blast, n: int)
    requires
        0 <= n,
    ensures
        sparks(l, b, a, k, n).len() <= n,
    decreases n,
{
    if n > 0 {
        lemma_sparks(l, b, a, k, n - 1);
        reveal(spark);
        reveal(streak);
    }
}

proof fn lemma_cloud<P: Fn(V3) -> Dot>(l: &Lens<P>, b: Bounds, a: Angles, k: Blast, n: int)
    requires
        0 <= n,
    ensures
        cloud(l, b, a, k, n).len() <= n,
    decreases n,
{
    if n > 0 {
        lemma_cloud(l, b, a, k, n - 1);
        reveal(smoke);
        reveal(puff);
    }
}

/// Whatever throws a piece past the lens, a streak on screen is at most a
/// ceiling long and a ceiling wide.
pub proof fn law_a_streak_never_fills_the_screen<P: Fn(V3) -> Dot>(
    l: &Lens<P>,
    head: V3,
    tail: V3,
    w: int,
)
    requires
        0 <= w <= 100_000,
    ensures
        l.at(head).sz > 0 ==> 1 <= in_pixels(w, l.at(head).sz as int, 5) <= 5,
        1 <= streak_way(l.at(head), l.at(tail)).2 <= 26,
{
    let (h, t) = (l.at(head), l.at(tail));
    if h.sz > 0 {
        assert(0 <= (w * 260) / (h.sz as int)) by (nonlinear_arith)
            requires
                w >= 0,
                h.sz > 0,
        ;
    }
}

} // verus!
