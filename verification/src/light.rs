//! The arena's light: three looks, nine floodlights, and the tints they give
//! the pitch, the walls and the roof.
//!
//! Nothing that is lit ever moves, so every tint is worked out once and read
//! back from a table.

use vstd::prelude::*;
use crate::camera::Sight;
use crate::colour;
use crate::colour::{curb, mix, Livery};
use crate::num;
use crate::num::{abs_i32, clamp_i32, isqrt_i32, max_i32, min_i32, mul_shift12};
use crate::shell;
use crate::shell::{
    chamfer, roof_corner_x, roof_corner_z, span, Profile, CURVE_SEGS, PROFILE_LEN, RAIL_HI_RING,
    RAIL_LO_RING, ROOF_COLS, ROOF_HALF_X, ROOF_HALF_Z, ROOF_ROWS, SPAN_COUNT, WALL_TOP_RING,
};
use crate::trig::{Angles, Trig};
use crate::tuning::{CEIL, HALF_X, HALF_Z};
use crate::vec3;
use crate::vec3::V3;
use crate::view::{ArenaTime, Rgb};

verus! {

/// Sky and baked lighting for one arena preset.
#[derive(Copy, Clone, Debug, PartialEq, Eq)]
pub struct ArenaLook {
    /// The sky overhead.
    pub zenith: Rgb,
    /// The sky at the horizon.
    pub horizon: Rgb,
    /// Light with no lamp behind it.
    pub ambient: (i32, i32, i32),
    /// The floodlights' share, where 256 is the night rig.
    pub lamp_scale: i32,
    /// The cast over the baked result.
    pub world_tint: Rgb,
    /// Sixteenths of that cast.
    pub world_mix: i32,
}

/// The look of a preset.
pub open spec fn look_of(t: ArenaTime) -> ArenaLook {
    match t {
        ArenaTime::Day => ArenaLook {
            zenith: (58, 110, 214),
            horizon: (120, 167, 255),
            ambient: (92, 98, 112),
            lamp_scale: 96,
            world_tint: (148, 164, 190),
            world_mix: 2,
        },
        ArenaTime::Sunset => ArenaLook {
            zenith: (24, 36, 88),
            horizon: (78, 88, 146),
            ambient: (58, 52, 62),
            lamp_scale: 192,
            world_tint: (190, 114, 78),
            world_mix: 3,
        },
        ArenaTime::Night => ArenaLook {
            zenith: (4, 6, 28),
            horizon: (12, 18, 58),
            ambient: (44, 45, 54),
            lamp_scale: 256,
            world_tint: (128, 128, 128),
            world_mix: 0,
        },
    }
}

impl ArenaLook {
    /// Within what the light arithmetic holds.
    pub open spec fn modest(self) -> bool {
        &&& 0 <= self.ambient.0 <= 255 && 0 <= self.ambient.1 <= 255 && 0 <= self.ambient.2 <= 255
        &&& 0 <= self.lamp_scale <= 256
    }
}

/// The look of a preset.
pub fn arena_look(time: ArenaTime) -> (r: ArenaLook)
    ensures
        r == look_of(time),
        r.modest(),
{
    match time {
        ArenaTime::Day => ArenaLook {
            zenith: (58, 110, 214),
            horizon: (120, 167, 255),
            ambient: (92, 98, 112),
            lamp_scale: 96,
            world_tint: (148, 164, 190),
            world_mix: 2,
        },
        ArenaTime::Sunset => ArenaLook {
            zenith: (24, 36, 88),
            horizon: (78, 88, 146),
            ambient: (58, 52, 62),
            lamp_scale: 192,
            world_tint: (190, 114, 78),
            world_mix: 3,
        },
        ArenaTime::Night => ArenaLook {
            zenith: (4, 6, 28),
            horizon: (12, 18, 58),
            ambient: (44, 45, 54),
            lamp_scale: 256,
            world_tint: (128, 128, 128),
            world_mix: 0,
        },
    }
}

// ---- the sky ---------------------------------------------------------------

/// The low sun's glow.
pub const SUNSET_GLOW: Rgb = (236, 122, 60);

/// The horizon towards a direction at sunset: a little warmth all round, most
/// of it towards the sun.
pub open spec fn warmed(horizon: Rgb, facing: int) -> Rgb {
    colour::mixed(horizon, SUNSET_GLOW, 3 + (num::max(facing, 0) * 10) / 4096)
}

/// The backdrop for a camera, corner by corner.
pub open spec fn sky_of(v: Sight, t: ArenaTime) -> (Rgb, Rgb, Rgb, Rgb) {
    let look = look_of(t);
    if t != ArenaTime::Sunset {
        (look.zenith, look.zenith, look.horizon, look.horizon)
    } else {
        let across = num::tdiv(v.right.z * 3, 5);
        (
            look.zenith,
            look.zenith,
            warmed(look.horizon, v.fwd.z - across),
            warmed(look.horizon, v.fwd.z + across),
        )
    }
}

fn warm(horizon: Rgb, facing: i32) -> (r: Rgb)
    requires
        -20000 <= facing <= 20000,
    ensures
        r == warmed(horizon, facing as int),
{
    mix(horizon, (236, 122, 60), 3 + max_i32(facing, 0) * 10 / 4096)
}

/// Backdrop colours for a camera. Sunset keeps a cool zenith and warms the
/// horizon most strongly towards a fixed sun.
pub fn arena_sky(view: &Sight, time: ArenaTime) -> (r: (Rgb, Rgb, Rgb, Rgb))
    requires
        view.wf(),
    ensures
        r == sky_of(*view, time),
{
    let look = arena_look(time);
    match time {
        ArenaTime::Sunset => {
            let across: i32 = view.right.z * 3 / 5;
            (
                look.zenith,
                look.zenith,
                warm(look.horizon, view.fwd.z - across),
                warm(look.horizon, view.fwd.z + across),
            )
        },
        _ => (look.zenith, look.zenith, look.horizon, look.horizon),
    }
}

// ---- the lamps -------------------------------------------------------------

/// A floodlight: where it hangs in sixty-fourths of a uu, the square of its
/// reach in the same units, and its peak.
pub type Lamp = ((i32, i32, i32), i32, (i32, i32, i32));

/// How many there are: one over each corner, one halfway along each side and
/// end, and a rig over the centre spot.
pub const LAMP_COUNT: usize = 9;

/// The floodlights.
pub const LAMPS: [((i32, i32, i32), i32, (i32, i32, i32)); 9] = [
    ((-53, -28, -68), 729, (216, 220, 236)),
    ((52, -28, -68), 729, (216, 220, 236)),
    ((-53, -28, 68), 729, (216, 220, 236)),
    ((52, -28, 68), 729, (216, 220, 236)),
    ((-60, -28, 0), 676, (200, 200, 212)),
    ((60, -28, 0), 676, (200, 200, 212)),
    ((0, -28, -76), 576, (196, 188, 176)),
    ((0, -28, 76), 576, (196, 188, 176)),
    ((0, -31, 0), 900, (600, 610, 615)),
];

/// A floodlight is near the arena, and no brighter than the sums hold.
pub open spec fn modest_lamp(l: Lamp) -> bool {
    &&& -100 <= l.0.0 <= 100 && -100 <= l.0.1 <= 100 && -100 <= l.0.2 <= 100
    &&& 100 <= l.1 <= 1000
    &&& 0 <= l.2.0 <= 700 && 0 <= l.2.1 <= 700 && 0 <= l.2.2 <= 700
}

/// A point in the lamps' units.
pub open spec fn lamp_units(p: V3) -> V3 {
    vec3::v3(p.x as int / 64, p.y as int / 64, p.z as int / 64)
}

/// How much of a lamp's light reaches a point, Q12: squared, so that each lamp
/// is a pool with a dark edge.
pub open spec fn pool(r2: int, d2: int) -> int {
    let f = (r2 * 4096) / (r2 + d2);
    (f * f) / 4096
}

/// How squarely a surface faces a lamp, Q12: turned away it keeps half.
pub open spec fn facing(nd: int, dist: int) -> int {
    num::clamp(2048 + num::tdiv(num::tdiv(nd, dist), 2), 0, 4096)
}

/// The square of the distance to a lamp.
pub open spec fn lamp_d2(l: Lamp, q: V3) -> int {
    (l.0.0 - q.x) * (l.0.0 - q.x) + (l.0.1 - q.y) * (l.0.1 - q.y) + (l.0.2 - q.z) * (l.0.2 - q.z)
}

/// A facing with the direction to a lamp.
pub open spec fn lamp_nd(l: Lamp, q: V3, n: V3) -> int {
    n.x * (l.0.0 - q.x) + n.y * (l.0.1 - q.y) + n.z * (l.0.2 - q.z)
}

/// How much of one lamp's light lands on a surface. No facing counts as facing
/// every lamp.
#[verifier::opaque]
pub open spec fn falls(l: Lamp, q: V3, n: V3) -> int {
    let d2 = lamp_d2(l, q);
    let f = pool(l.1 as int, d2);
    if n == vec3::zero3() {
        f
    } else {
        (f * facing(lamp_nd(l, q, n), num::max(num::root(d2), 1))) / 4096
    }
}

/// One channel of one lamp's light.
pub open spec fn given(c: int, f: int, scale: int) -> int {
    (((c * f) / 4096) * scale) / 256
}

/// The light of the first `k` lamps over the ambient.
pub open spec fn gathered(look: ArenaLook, q: V3, n: V3, k: nat) -> (int, int, int)
    decreases k,
{
    if k == 0 {
        (look.ambient.0 as int, look.ambient.1 as int, look.ambient.2 as int)
    } else {
        let (r, g, b) = gathered(look, q, n, (k - 1) as nat);
        let l = LAMPS@[k - 1];
        let f = falls(l, q, n);
        (
            r + given(l.2.0 as int, f, look.lamp_scale as int),
            g + given(l.2.1 as int, f, look.lamp_scale as int),
            b + given(l.2.2 as int, f, look.lamp_scale as int),
        )
    }
}

/// A channel brought into a byte.
pub open spec fn byte(v: int) -> u8 {
    num::clamp(v, 0, 255) as u8
}

/// The tint at a point of a surface.
#[verifier::opaque]
pub open spec fn lit(look: ArenaLook, p: V3, n: V3) -> Rgb {
    let (r, g, b) = gathered(look, lamp_units(p), n, LAMP_COUNT as nat);
    colour::mixed((byte(r), byte(g), byte(b)), look.world_tint, look.world_mix as int)
}

fn to_byte(v: i32) -> (r: u8)
    ensures
        r == byte(v as int),
{
    clamp_i32(v, 0, 255) as u8
}

fn find_pool(r2: i32, d2: i32) -> (r: i32)
    requires
        100 <= r2 <= 1000,
        0 <= d2 <= 1_000_000,
    ensures
        r == pool(r2 as int, d2 as int),
        0 <= r <= 4096,
{
    let f: i32 = r2 * 4096 / (r2 + d2);
    assert(0 <= f <= 4096) by (nonlinear_arith)
        requires
            r2 > 0,
            d2 >= 0,
            f == (r2 * 4096) / (r2 + d2),
    ;
    assert(0 <= f * f <= 4096 * 4096) by (nonlinear_arith)
        requires
            0 <= f <= 4096,
    ;
    f * f / 4096
}

fn find_facing(nd: i32, dist: i32) -> (r: i32)
    requires
        -0x1000_0000 <= nd <= 0x1000_0000,
        1 <= dist,
    ensures
        r == facing(nd as int, dist as int),
        0 <= r <= 4096,
{
    proof {
        assert(num::abs(nd as int) <= 0x1000_0000 * dist) by (nonlinear_arith)
            requires
                -0x1000_0000 <= nd <= 0x1000_0000,
                1 <= dist,
        ;
        num::lemma_tdiv_bound(nd as int, dist as int, 0x1000_0000);
    }
    let cos: i32 = nd / dist;
    clamp_i32(2048 + cos / 2, 0, 4096)
}

fn find_falls(l: Lamp, q: V3, n: V3) -> (r: i32)
    requires
        modest_lamp(l),
        q.within(250),
        n.within(4096),
    ensures
        r == falls(l, q, n),
        0 <= r <= 4096,
{
    proof {
        reveal(falls);
    }
    let dx: i32 = l.0.0 - q.x;
    let dy: i32 = l.0.1 - q.y;
    let dz: i32 = l.0.2 - q.z;
    assert(0 <= dx * dx <= 122_500 && 0 <= dy * dy <= 122_500 && 0 <= dz * dz <= 122_500)
        by (nonlinear_arith)
        requires
            -350 <= dx <= 350,
            -350 <= dy <= 350,
            -350 <= dz <= 350,
    ;
    let d2: i32 = dx * dx + dy * dy + dz * dz;
    let f: i32 = find_pool(l.1, d2);
    if n.x == 0 && n.y == 0 && n.z == 0 {
        return f;
    }
    assert(-1_433_600 <= n.x * dx <= 1_433_600 && -1_433_600 <= n.y * dy <= 1_433_600 && -1_433_600
        <= n.z * dz <= 1_433_600) by (nonlinear_arith)
        requires
            -350 <= dx <= 350,
            -350 <= dy <= 350,
            -350 <= dz <= 350,
            -4096 <= n.x <= 4096,
            -4096 <= n.y <= 4096,
            -4096 <= n.z <= 4096,
    ;
    let nd: i32 = n.x * dx + n.y * dy + n.z * dz;
    let dist: i32 = max_i32(isqrt_i32(d2), 1);
    let k: i32 = find_facing(nd, dist);
    assert(0 <= f * k <= 4096 * 4096) by (nonlinear_arith)
        requires
            0 <= f <= 4096,
            0 <= k <= 4096,
    ;
    f * k / 4096
}

fn give(c: i32, f: i32, scale: i32) -> (r: i32)
    requires
        0 <= c <= 700,
        0 <= f <= 4096,
        0 <= scale <= 256,
    ensures
        r == given(c as int, f as int, scale as int),
        0 <= r <= 700,
{
    assert(0 <= c * f <= 700 * 4096) by (nonlinear_arith)
        requires
            0 <= c <= 700,
            0 <= f <= 4096,
    ;
    let a: i32 = c * f / 4096;
    assert(0 <= a * scale <= 700 * 256) by (nonlinear_arith)
        requires
            0 <= a <= 700,
            0 <= scale <= 256,
    ;
    a * scale / 256
}

fn lamp(i: usize) -> (r: Lamp)
    requires
        i < LAMP_COUNT,
    ensures
        r == LAMPS@[i as int],
        modest_lamp(r),
{
    LAMPS[i]
}

/// The tint at `p` for a surface facing `n` (Q12, render space). A zero facing
/// is a surface with none.
pub fn lamp_light(look: &ArenaLook, p: V3, n: V3) -> (r: Rgb)
    requires
        look.modest(),
        p.within(16000),
        n.within(4096),
    ensures
        r == lit(*look, p, n),
{
    proof {
        reveal(lit);
    }
    assert(p.x >> 6 == p.x / 64 && p.y >> 6 == p.y / 64 && p.z >> 6 == p.z / 64) by {
        lemma_shift6(p.x);
        lemma_shift6(p.y);
        lemma_shift6(p.z);
    }
    let q = V3 { x: p.x >> 6, y: p.y >> 6, z: p.z >> 6 };
    let mut red: i32 = look.ambient.0;
    let mut green: i32 = look.ambient.1;
    let mut blue: i32 = look.ambient.2;
    let mut i: usize = 0;
    while i < LAMP_COUNT
        invariant
            i <= LAMP_COUNT,
            look.modest(),
            q == lamp_units(p),
            q.within(250),
            n.within(4096),
            (red as int, green as int, blue as int) == gathered(*look, q, n, i as nat),
            0 <= red <= 255 + i * 700,
            0 <= green <= 255 + i * 700,
            0 <= blue <= 255 + i * 700,
        decreases LAMP_COUNT - i,
    {
        let l = lamp(i);
        let f: i32 = find_falls(l, q, n);
        red = red + give(l.2.0, f, look.lamp_scale);
        green = green + give(l.2.1, f, look.lamp_scale);
        blue = blue + give(l.2.2, f, look.lamp_scale);
        i += 1;
    }
    mix((to_byte(red), to_byte(green), to_byte(blue)), look.world_tint, look.world_mix)
}

proof fn lemma_shift6(v: i32)
    ensures
        v >> 6 == v as int / 64,
{
    assert(v >> 6 == v / 64) by (bit_vector);
}

// ---- the pitch -------------------------------------------------------------

/// Light points across the pitch.
pub const FLOOR_GX: usize = 33;
/// Light points along the pitch.
pub const FLOOR_GZ: usize = 41;

/// How far each end is warmed towards its team, in sixteenths.
pub open spec fn end_warmth(z: int) -> int {
    num::min((num::max(num::abs(z) - 2600, 0) * 16) / 2520, 5)
}

/// The colour an end is warmed towards.
pub open spec fn end_colour(z: int) -> Rgb {
    if z < 0 {
        (86, 132, 210)
    } else {
        (226, 152, 74)
    }
}

/// One channel of a mown stripe.
pub open spec fn mown_channel(c: u8, k: int) -> u8 {
    byte((c * k) / 256)
}

/// The pitch's tint at a light point, on the plain stripe or the bright one.
#[verifier::opaque]
pub open spec fn pitch_tint(look: ArenaLook, stripe: int, gx: int, gz: int) -> Rgb {
    let at = shell::chamfered(-4096 + gx * 256, -5120 + gz * 256);
    let c = colour::mixed(
        lit(look, vec3::v3(at.0, 0, at.1), vec3::v3(0, -4096, 0)),
        end_colour(at.1),
        end_warmth(at.1),
    );
    let k = if stripe == 0 {
        256
    } else {
        274int
    };
    (mown_channel(c.0, k), mown_channel(c.1, k), mown_channel(c.2, k))
}

fn mow(c: u8, k: i32) -> (r: u8)
    requires
        0 <= k <= 512,
    ensures
        r == mown_channel(c, k as int),
{
    assert(0 <= c * k <= 255 * 512) by (nonlinear_arith)
        requires
            0 <= c <= 255,
            0 <= k <= 512,
    ;
    to_byte(c as i32 * k / 256)
}

fn find_pitch_tint(look: &ArenaLook, stripe: usize, gx: usize, gz: usize) -> (r: Rgb)
    requires
        look.modest(),
        gx < FLOOR_GX,
        gz < FLOOR_GZ,
    ensures
        r == pitch_tint(*look, stripe as int, gx as int, gz as int),
{
    proof {
        reveal(pitch_tint);
    }
    let (x, z): (i32, i32) = chamfer(-HALF_X + gx as i32 * 256, -HALF_Z + gz as i32 * 256);
    let base = lamp_light(look, V3 { x, y: 0, z }, V3 { x: 0, y: -4096, z: 0 });
    let w: i32 = min_i32(max_i32(abs_i32(z) - 2600, 0) * 16 / 2520, 5);
    let team: Rgb = if z < 0 {
        (86, 132, 210)
    } else {
        (226, 152, 74)
    };
    let c = mix(base, team, w);
    let k: i32 = if stripe == 0 {
        256
    } else {
        274
    };
    (mow(c.0, k), mow(c.1, k), mow(c.2, k))
}

/// The light point a world column falls on.
pub open spec fn column_of(x: int) -> int {
    num::clamp(num::tdiv((x + 4096) * 32, 8192), 0, 32)
}

/// The light point a world row falls on.
pub open spec fn row_of(z: int) -> int {
    num::clamp(num::tdiv((z + 5120) * 40, 10240), 0, 40)
}

/// The plain pitch's tint under a world point.
pub open spec fn tint_under(look: ArenaLook, x: int, z: int) -> Rgb {
    pitch_tint(look, 0, column_of(x), row_of(z))
}

// ---- the walls -------------------------------------------------------------

/// Split positions along a run of wall.
pub const SLOTS: usize = 5;
/// How far along each is, in twelfths.
pub const SLOT_TWELFTHS: [i32; 5] = [0, 4, 6, 8, 12];
/// What the lit rail glows at.
pub const RAIL_TINT: Rgb = (238, 242, 255);
/// Height at which the bounce has fallen to half.
pub const BOUNCE_FALL: i32 = 560;

/// A split position, on the ground plane.
pub open spec fn slot_at(si: int, slot: int) -> (int, int) {
    let s = shell::span_of(si);
    let k = SLOT_TWELFTHS@[slot];
    (
        s.a.0 + num::tdiv((s.b.0 - s.a.0) * k, 12),
        s.a.1 + num::tdiv((s.b.1 - s.a.1) * k, 12),
    )
}

/// Where a ring of the wall passes a split position.
pub open spec fn wall_at(t: Angles, si: int, ri: int, slot: int) -> V3 {
    let s = shell::span_of(si);
    let at = slot_at(si, slot);
    let (inset, height) = shell::ring(t, ri);
    vec3::v3(at.0 + (s.n.0 * inset) / 4096, -height, at.1 + (s.n.1 * inset) / 4096)
}

/// The lift on the rings that read as edges.
pub open spec fn ring_lift(ri: int) -> int {
    if ri == 11 {
        40
    } else if ri == 8 {
        132
    } else {
        0
    }
}

/// Light off the pitch below, falling away with height.
pub open spec fn bounced(v: u8, height: int, w: int) -> int {
    let k = 2_293_760int / (560 + num::max(height, 0));
    (((v * k) / 4096) * w) / 256
}

/// The wall's own tint at a ring and a split position, before the seats'
/// colours are laid over the barrier.
#[verifier::opaque]
pub open spec fn wall_base(t: Angles, look: ArenaLook, si: int, ri: int, slot: int) -> Rgb {
    if ri == 9 || ri == 10 {
        RAIL_TINT
    } else {
        let s = shell::span_of(si);
        let p = wall_at(t, si, ri, slot);
        let height = shell::ring(t, ri).1;
        let c = lit(look, p, V3 { x: s.n.0, y: 0, z: s.n.1 });
        let below = tint_under(look, p.x as int, p.z as int);
        let lift = ring_lift(ri);
        (
            byte(c.0 + lift + bounced(below.0, height, 72)),
            byte(c.1 + lift + bounced(below.1, height, 118)),
            byte(c.2 + lift + bounced(below.2, height, 52)),
        )
    }
}

/// The wall's tint. The barrier at its foot carries the colour of the half of
/// the pitch it stands on.
#[verifier::opaque]
pub open spec fn wall_tint(
    t: Angles,
    look: ArenaLook,
    livery: Livery,
    si: int,
    ri: int,
    slot: int,
) -> Rgb {
    let base = wall_base(t, look, si, ri, slot);
    if ri <= 9 {
        colour::tint_of(base, colour::curb_tint(livery, slot_at(si, slot).1))
    } else {
        base
    }
}

fn find_slot(si: usize, slot: usize) -> (r: (i32, i32))
    requires
        si < SPAN_COUNT,
        slot < SLOTS,
    ensures
        (r.0 as int, r.1 as int) == slot_at(si as int, slot as int),
        -20000 <= r.0 <= 20000,
        -20000 <= r.1 <= 20000,
{
    let s = span(si);
    let k: i32 = SLOT_TWELFTHS[slot];
    assert(0 <= k <= 12);
    let dx: i32 = s.b.0 - s.a.0;
    let dz: i32 = s.b.1 - s.a.1;
    assert(-122_880 <= dx * k <= 122_880 && -122_880 <= dz * k <= 122_880) by (nonlinear_arith)
        requires
            -10240 <= dx <= 10240,
            -10240 <= dz <= 10240,
            0 <= k <= 12,
    ;
    (s.a.0 + dx * k / 12, s.a.1 + dz * k / 12)
}

fn bounce(v: u8, height: i32, w: i32) -> (r: i32)
    requires
        0 <= height <= 4096,
        0 <= w <= 256,
    ensures
        r == bounced(v, height as int, w as int),
        0 <= r <= 255,
{
    let k: i32 = 2_293_760 / (BOUNCE_FALL + height);
    assert(0 <= k <= 4096) by (nonlinear_arith)
        requires
            k == 2_293_760int / (560 + height),
            0 <= height,
    ;
    assert(0 <= v * k <= 255 * 4096) by (nonlinear_arith)
        requires
            0 <= v <= 255,
            0 <= k <= 4096,
    ;
    let a: i32 = v as i32 * k / 4096;
    assert(0 <= a * w <= 255 * 256) by (nonlinear_arith)
        requires
            0 <= a <= 255,
            0 <= w <= 256,
    ;
    a * w / 256
}

// ---- the roof --------------------------------------------------------------

/// The tint at one corner of the roof.
pub open spec fn ceil_tint(look: ArenaLook, sx: int, sz: int) -> Rgb {
    lit(look, vec3::v3(sx * 3836, -2044, sz * 4860), vec3::v3(0, 4096, 0))
}

/// The tint at a corner of a roof patch: its four corners blended.
#[verifier::opaque]
pub open spec fn roof_tint(look: ArenaLook, ix: int, iz: int) -> Rgb {
    let tx = num::clamp(((shell::roof_x(ix) + 3836) * 16) / 7672, 0, 16);
    let tz = num::clamp(((shell::roof_z(iz) + 4860) * 16) / 9720, 0, 16);
    colour::mixed(
        colour::mixed(ceil_tint(look, -1, -1), ceil_tint(look, 1, -1), tx),
        colour::mixed(ceil_tint(look, -1, 1), ceil_tint(look, 1, 1), tx),
        tz,
    )
}

fn find_ceil(look: &ArenaLook, sx: i32, sz: i32) -> (r: Rgb)
    requires
        look.modest(),
        sx == 1 || sx == -1,
        sz == 1 || sz == -1,
    ensures
        r == ceil_tint(*look, sx as int, sz as int),
{
    let x: i32 = if sx > 0 {
        ROOF_HALF_X
    } else {
        -ROOF_HALF_X
    };
    let z: i32 = if sz > 0 {
        ROOF_HALF_Z
    } else {
        -ROOF_HALF_Z
    };
    lamp_light(look, V3 { x, y: -CEIL, z }, V3 { x: 0, y: 4096, z: 0 })
}

// ---- the tables ------------------------------------------------------------

/// Every static tint, worked out once.
pub struct Lighting {
    /// The look they were worked out for.
    pub time: ArenaTime,
    /// The seats' colours they were worked out for.
    pub livery: Livery,
    /// The sines and cosines they were worked out with.
    pub angles: Ghost<Angles>,
    /// The pitch's, by stripe, column and row.
    pub floor: Vec<Rgb>,
    /// The walls', by run, ring and split position.
    pub wall: Vec<Rgb>,
    /// The roof's, by column and row.
    pub roof: Vec<Rgb>,
}

impl Lighting {
    /// Every tint is the one the lamps give.
    pub open spec fn wf(&self) -> bool {
        let t = self.angles@;
        let look = look_of(self.time);
        let livery = self.livery;
        &&& self.floor.len() == 2706
        &&& self.wall.len() == 2400
        &&& self.roof.len() == 119
        &&& forall|k: int|
            0 <= k < 2706 ==> #[trigger] self.floor[k] == pitch_tint(
                look,
                k / 1353,
                (k / 41) % 33,
                k % 41,
            )
        &&& forall|k: int|
            0 <= k < 2400 ==> #[trigger] self.wall[k] == wall_tint(
                t,
                look,
                livery,
                k / 100,
                (k / 5) % 20,
                k % 5,
            )
        &&& forall|k: int|
            0 <= k < 119 ==> #[trigger] self.roof[k] == roof_tint(look, k / 17, k % 17)
    }

    /// The pitch's tint at a light point.
    pub fn floor_at(
        &self,
        stripe: usize,
        gx: usize,
        gz: usize,
    ) -> (r: Rgb)
        requires
            self.wf(),
            stripe < 2,
            gx < FLOOR_GX,
            gz < FLOOR_GZ,
        ensures
            r == pitch_tint(look_of(self.time), stripe as int, gx as int, gz as int),
    {
        let k: usize = (stripe * 33 + gx) * 41 + gz;
        assert(k as int / 1353 == stripe && (k as int / 41) % 33 == gx && k as int % 41 == gz);
        self.floor[k]
    }

    /// The walls' tint at a ring and a split position.
    pub fn wall_at(
        &self,
        si: usize,
        ri: usize,
        slot: usize,
    ) -> (r: Rgb)
        requires
            self.wf(),
            si < SPAN_COUNT,
            ri < PROFILE_LEN,
            slot < SLOTS,
        ensures
            r == wall_tint(
                self.angles@,
                look_of(self.time),
                self.livery, si as int, ri as int, slot as int),
    {
        let k: usize = (si * 20 + ri) * 5 + slot;
        assert(k as int / 100 == si && (k as int / 5) % 20 == ri && k as int % 5 == slot);
        self.wall[k]
    }

    /// The roof's tint at a patch corner.
    pub fn roof_at(
        &self,
        ix: usize,
        iz: usize,
    ) -> (r: Rgb)
        requires
            self.wf(),
            ix <= ROOF_COLS,
            iz <= ROOF_ROWS,
        ensures
            r == roof_tint(look_of(self.time), ix as int, iz as int),
    {
        let k: usize = ix * 17 + iz;
        assert(k as int / 17 == ix && k as int % 17 == iz);
        self.roof[k]
    }

    /// The plain pitch's tint under a world point.
    pub fn floor_tint(
        &self,
        x: i32,
        z: i32,
    ) -> (r: Rgb)
        requires
            self.wf(),
            -0x10_0000 <= x <= 0x10_0000,
            -0x10_0000 <= z <= 0x10_0000,
        ensures
            r == tint_under(look_of(self.time), x as int, z as int),
    {
        let gx: i32 = clamp_i32((x + HALF_X) * 32 / 8192, 0, 32);
        let gz: i32 = clamp_i32((z + HALF_Z) * 40 / 10240, 0, 40);
        self.floor_at(
            0,
            gx as usize,
            gz as usize,
        )
    }
}

fn bake_floor(look: &ArenaLook) -> (r: Vec<Rgb>)
    requires
        look.modest(),
    ensures
        r.len() == 2706,
        forall|k: int|
            0 <= k < 2706 ==> #[trigger] r[k] == pitch_tint(
                *look,
                k / 1353,
                (k / 41) % 33,
                k % 41,
            ),
{
    let mut out: Vec<Rgb> = Vec::new();
    let mut k: usize = 0;
    while k < 2706
        invariant
            k <= 2706,
            out.len() == k,
            look.modest(),
            forall|j: int|
                0 <= j < k ==> #[trigger] out[j] == pitch_tint(
                    *look,
                    j / 1353,
                    (j / 41) % 33,
                    j % 41,
                ),
        decreases 2706 - k,
    {
        out.push(find_pitch_tint(look, k / 1353, (k / 41) % 33, k % 41));
        k += 1;
    }
    out
}

fn under(look: &ArenaLook, floor: &Vec<Rgb>, x: i32, z: i32) -> (r: Rgb)
    requires
        floor.len() == 2706,
        forall|k: int|
            0 <= k < 2706 ==> #[trigger] floor[k] == pitch_tint(
                *look,
                k / 1353,
                (k / 41) % 33,
                k % 41,
            ),
        -0x10_0000 <= x <= 0x10_0000,
        -0x10_0000 <= z <= 0x10_0000,
    ensures
        r == tint_under(*look, x as int, z as int),
{
    let gx: i32 = clamp_i32((x + HALF_X) * 32 / 8192, 0, 32);
    let gz: i32 = clamp_i32((z + HALF_Z) * 40 / 10240, 0, 40);
    let k: usize = gx as usize * 41 + gz as usize;
    assert(k as int / 1353 == 0 && (k as int / 41) % 33 == gx && k as int % 41 == gz);
    floor[k]
}

fn find_wall_at<F: Fn(i32, i32) -> u16>(
    trig: &Trig<F>,
    profile: &Profile,
    si: usize,
    ri: usize,
    slot: usize,
) -> (r: V3)
    requires
        trig.wf(),
        profile.wf(trig.model()),
        si < SPAN_COUNT,
        ri < PROFILE_LEN,
        slot < SLOTS,
    ensures
        r == wall_at(trig.model(), si as int, ri as int, slot as int),
        -25000 <= r.x <= 25000,
        -4096 <= r.y <= 0,
        -25000 <= r.z <= 25000,
{
    let s = span(si);
    let (ax, az) = find_slot(si, slot);
    let (inset, height) = profile.rings[ri];
    proof {
        trig.lemma_waves();
        shell::lemma_ring(trig.model(), ri as int);
        num::lemma_mul_bound(s.n.0 as int, inset as int, 4096, 520);
        num::lemma_mul_bound(s.n.1 as int, inset as int, 4096, 520);
    }
    V3 { x: ax + mul_shift12(s.n.0, inset), y: -height, z: az + mul_shift12(s.n.1, inset) }
}

/// Every split position is on the arena's outline.
proof fn lemma_slot(si: int, slot: int)
    requires
        0 <= si < SPAN_COUNT,
        0 <= slot < SLOTS,
    ensures
        -4096 <= slot_at(si, slot).0 <= 4096,
        -5120 <= slot_at(si, slot).1 <= 5120,
{
    reveal(shell::span_of);
    let s = shell::span_of(si);
    let k = SLOT_TWELFTHS@[slot] as int;
    assert(0 <= k <= 12) by {
        assert(slot == 0 || slot == 1 || slot == 2 || slot == 3 || slot == 4);
    }
    lemma_between(s.a.0 as int, s.b.0 as int, k);
    lemma_between(s.a.1 as int, s.b.1 as int, k);
}

/// A number of twelfths of the way from `a` to `b` lies between them.
proof fn lemma_between(a: int, b: int, k: int)
    requires
        0 <= k <= 12,
    ensures
        num::min(a, b) <= a + num::tdiv((b - a) * k, 12) <= num::max(a, b),
{
    let d = num::abs(b - a);
    assert(0 <= d * k <= d * 12) by (nonlinear_arith)
        requires
            0 <= k <= 12,
            0 <= d,
    ;
    if b >= a {
        assert((b - a) * k == d * k);
    } else {
        assert((b - a) * k == -(d * k)) by (nonlinear_arith)
            requires
                d == a - b,
        ;
    }
}

fn find_wall_base<F: Fn(i32, i32) -> u16>(
    trig: &Trig<F>,
    look: &ArenaLook,
    profile: &Profile,
    floor: &Vec<Rgb>,
    si: usize,
    ri: usize,
    slot: usize,
) -> (r: Rgb)
    requires
        trig.wf(),
        look.modest(),
        profile.wf(trig.model()),
        floor.len() == 2706,
        forall|k: int|
            0 <= k < 2706 ==> #[trigger] floor[k] == pitch_tint(
                *look,
                k / 1353,
                (k / 41) % 33,
                k % 41,
            ),
        si < SPAN_COUNT,
        ri < PROFILE_LEN,
        slot < SLOTS,
    ensures
        r == wall_base(trig.model(), *look, si as int, ri as int, slot as int),
{
    proof {
        reveal(wall_base);
        lemma_slot(si as int, slot as int);
        trig.lemma_waves();
        shell::lemma_ring(trig.model(), ri as int);
    }
    if ri == RAIL_LO_RING || ri == RAIL_HI_RING {
        return (238, 242, 255);
    }
    let s = span(si);
    let p = find_wall_at(trig, profile, si, ri, slot);
    let (inset, height) = profile.rings[ri];
    proof {
        num::lemma_mul_bound(s.n.0 as int, inset as int, 4096, 520);
        num::lemma_mul_bound(s.n.1 as int, inset as int, 4096, 520);
    }
    let c = lamp_light(look, p, V3 { x: s.n.0, y: 0, z: s.n.1 });
    let below = under(look, floor, p.x, p.z);
    let lift: i32 = if ri == WALL_TOP_RING {
        40
    } else if ri == CURVE_SEGS {
        132
    } else {
        0
    };
    (
        to_byte(c.0 as i32 + lift + bounce(below.0, height, 72)),
        to_byte(c.1 as i32 + lift + bounce(below.1, height, 118)),
        to_byte(c.2 as i32 + lift + bounce(below.2, height, 52)),
    )
}

fn find_wall_tint<F: Fn(i32, i32) -> u16>(
    trig: &Trig<F>,
    look: &ArenaLook,
    livery: &Livery,
    profile: &Profile,
    floor: &Vec<Rgb>,
    si: usize,
    ri: usize,
    slot: usize,
) -> (r: Rgb)
    requires
        trig.wf(),
        look.modest(),
        profile.wf(trig.model()),
        floor.len() == 2706,
        forall|k: int|
            0 <= k < 2706 ==> #[trigger] floor[k] == pitch_tint(
                *look,
                k / 1353,
                (k / 41) % 33,
                k % 41,
            ),
        si < SPAN_COUNT,
        ri < PROFILE_LEN,
        slot < SLOTS,
    ensures
        r == wall_tint(trig.model(), *look, *livery, si as int, ri as int, slot as int),
{
    proof {
        reveal(wall_tint);
    }
    let base = find_wall_base(trig, look, profile, floor, si, ri, slot);
    if ri <= RAIL_LO_RING {
        let at = find_slot(si, slot);
        curb(livery, base, at.1)
    } else {
        base
    }
}

fn bake_wall<F: Fn(i32, i32) -> u16>(
    trig: &Trig<F>,
    look: &ArenaLook,
    livery: &Livery,
    profile: &Profile,
    floor: &Vec<Rgb>,
) -> (r: Vec<Rgb>)
    requires
        trig.wf(),
        look.modest(),
        profile.wf(trig.model()),
        floor.len() == 2706,
        forall|k: int|
            0 <= k < 2706 ==> #[trigger] floor[k] == pitch_tint(
                *look,
                k / 1353,
                (k / 41) % 33,
                k % 41,
            ),
    ensures
        r.len() == 2400,
        forall|k: int|
            0 <= k < 2400 ==> #[trigger] r[k] == wall_tint(
                trig.model(),
                *look,
                *livery,
                k / 100,
                (k / 5) % 20,
                k % 5,
            ),
{
    let mut out: Vec<Rgb> = Vec::new();
    let mut k: usize = 0;
    while k < 2400
        invariant
            k <= 2400,
            out.len() == k,
            trig.wf(),
            look.modest(),
            profile.wf(trig.model()),
            floor.len() == 2706,
            forall|j: int|
                0 <= j < 2706 ==> #[trigger] floor[j] == pitch_tint(
                    *look,
                    j / 1353,
                    (j / 41) % 33,
                    j % 41,
                ),
            forall|j: int|
                0 <= j < k ==> #[trigger] out[j] == wall_tint(
                    trig.model(),
                    *look,
                    *livery,
                    j / 100,
                    (j / 5) % 20,
                    j % 5,
                ),
        decreases 2400 - k,
    {
        out.push(
            find_wall_tint(trig, look, livery, profile, floor, k / 100, (k / 5) % 20, k % 5),
        );
        k += 1;
    }
    out
}

fn bake_roof(look: &ArenaLook) -> (r: Vec<Rgb>)
    requires
        look.modest(),
    ensures
        r.len() == 119,
        forall|k: int| 0 <= k < 119 ==> #[trigger] r[k] == roof_tint(*look, k / 17, k % 17),
{
    let a = find_ceil(look, -1, -1);
    let b = find_ceil(look, 1, -1);
    let c = find_ceil(look, -1, 1);
    let d = find_ceil(look, 1, 1);
    let mut out: Vec<Rgb> = Vec::new();
    let mut k: usize = 0;
    while k < 119
        invariant
            k <= 119,
            out.len() == k,
            a == ceil_tint(*look, -1, -1),
            b == ceil_tint(*look, 1, -1),
            c == ceil_tint(*look, -1, 1),
            d == ceil_tint(*look, 1, 1),
            forall|j: int| 0 <= j < k ==> #[trigger] out[j] == roof_tint(*look, j / 17, j % 17),
        decreases 119 - k,
    {
        let tx: i32 = clamp_i32((roof_corner_x(k / 17) + ROOF_HALF_X) * 16 / 7672, 0, 16);
        let tz: i32 = clamp_i32((roof_corner_z(k % 17) + ROOF_HALF_Z) * 16 / 9720, 0, 16);
        proof {
            reveal(roof_tint);
        }
        out.push(mix(mix(a, b, tx), mix(c, d, tx), tz));
        k += 1;
    }
    out
}

/// Bake every static light table.
pub fn build_lighting<F: Fn(i32, i32) -> u16>(
    trig: &Trig<F>,
    time: ArenaTime,
    livery: &Livery,
    profile: &Profile,
) -> (r: Lighting)
    requires
        trig.wf(),
        profile.wf(trig.model()),
    ensures
        r.wf(),
        r.angles@ == trig.model(),
        r.time == time,
        r.livery == *livery,
{
    let look = arena_look(time);
    let floor = bake_floor(&look);
    let wall = bake_wall(trig, &look, livery, profile, &floor);
    let roof = bake_roof(&look);
    Lighting { time, livery: *livery, angles: Ghost(trig.model()), floor, wall, roof }
}

// ---- laws ------------------------------------------------------------------

/// A lamp's pool is brightest under it and only fades with distance.
pub proof fn law_pools_fade_with_distance(r2: int, near: int, far: int)
    requires
        0 < r2 <= 1000,
        0 <= near <= far,
    ensures
        0 <= pool(r2, far) <= pool(r2, near) <= 4096,
        pool(r2, 0) == 4096,
{
    let a = (r2 * 4096) / (r2 + near);
    let b = (r2 * 4096) / (r2 + far);
    assert(0 <= b <= a <= 4096) by (nonlinear_arith)
        requires
            0 < r2,
            0 <= near <= far,
            a == (r2 * 4096) / (r2 + near),
            b == (r2 * 4096) / (r2 + far),
    ;
    assert(b * b <= a * a && 0 <= b * b && a * a <= 4096 * 4096) by (nonlinear_arith)
        requires
            0 <= b <= a <= 4096,
    ;
    assert((r2 * 4096) / (r2 + 0) == 4096) by (nonlinear_arith)
        requires
            0 < r2,
    ;
}

/// A surface turned away from a lamp keeps some of its light only down to
/// nothing, and one turned to it gets no more than all of it.
pub proof fn law_facing_is_a_share(nd: int, dist: int)
    ensures
        0 <= facing(nd, dist) <= 4096,
        facing(0, dist) == 2048 || dist == 0,
{
    if dist != 0 {
        assert(0int / dist == 0) by (nonlinear_arith)
            requires
                dist != 0,
        ;
    }
}

/// The rail is an emitter: no look, lamp or seat dims its upper edge.
pub proof fn law_the_rail_always_glows(
    t: Angles,
    look: ArenaLook,
    livery: Livery,
    si: int,
    slot: int,
)
    ensures
        wall_tint(t, look, livery, si, RAIL_HI_RING as int, slot) == RAIL_TINT,
{
    reveal(wall_tint);
    reveal(wall_base);
}

} // verus!
