//! The arena's drawn shape: the pitch's outline, the wall's cross-section swept
//! round it, and the scale its textures are laid at.

use vstd::prelude::*;
use crate::num;
use crate::num::{abs_i32, clamp_i32, isqrt_i32, min_i32, mul_shift12};
use crate::trig::{Angles, Trig};
use crate::tuning::{CEIL, GOAL_HALF_W, HALF_X, HALF_Z, WALL_RAMP_R};

verus! {

/// Radius of the curve where the wall rolls over into the roof.
pub const CEIL_R: i32 = 260;
/// Segments in each quarter-circle of the wall.
pub const CURVE_SEGS: usize = 8;
/// Rings in the wall's cross-section.
pub const PROFILE_LEN: usize = 20;
/// The ring under the lit rail.
pub const RAIL_LO_RING: usize = 9;
/// The ring over the lit rail.
pub const RAIL_HI_RING: usize = 10;
/// The ring at the top of the straight wall.
pub const WALL_TOP_RING: usize = 11;
/// Height of the rail's lower edge.
pub const RAIL_LO_Y: i32 = 320;
/// Height of the rail's upper edge.
pub const RAIL_HI_Y: i32 = 400;
/// Where the side wall stops and the corner chamfer begins, on Z.
pub const CORNER_Z: i32 = 3968;
/// Where the chamfer meets the end wall, on X.
pub const CORNER_X: i32 = 2944;
/// Runs of wall round the perimeter.
pub const SPAN_COUNT: usize = 24;
/// World units one texel of the enclosure covers.
pub const COVER_UU_PER_TEXEL: i32 = 22;
/// Width of the enclosure's texture.
pub const COVER_W: i32 = 128;
/// Height of the enclosure's texture.
pub const COVER_H: i32 = 84;
/// Width of the goal net's texture.
pub const NET_W: i32 = 96;
/// Half the flat roof, across.
pub const ROOF_HALF_X: i32 = 3836;
/// Half the flat roof, along.
pub const ROOF_HALF_Z: i32 = 4860;
/// Width of a roof patch.
pub const ROOF_STEP_X: i32 = 1408;
/// Length of a roof patch.
pub const ROOF_STEP_Z: i32 = 616;
/// Roof patches across.
pub const ROOF_COLS: usize = 6;
/// Roof patches along.
pub const ROOF_ROWS: usize = 16;

// ---- the pitch -------------------------------------------------------------

/// A floor point pulled to where the swept wall picks the pitch up: a ramp's
/// radius in from every wall and corner, but out to the line before a goal.
pub open spec fn chamfered(x: int, z: int) -> (int, int) {
    let foot_z = if num::abs(x) < GOAL_HALF_W {
        5120
    } else {
        4860int
    };
    let cx = num::clamp(x, -3836, 3836);
    let cz = num::clamp(z, -foot_z, foot_z);
    let sum = num::abs(cx) + num::abs(cz);
    if sum <= 7697 {
        (cx, cz)
    } else {
        (num::tdiv(cx * 7697, sum), num::tdiv(cz * 7697, sum))
    }
}

/// Pull a floor point inside the foot of the walls.
pub fn chamfer(x: i32, z: i32) -> (r: (i32, i32))
    requires
        -16000 <= x <= 16000,
        -16000 <= z <= 16000,
    ensures
        (r.0 as int, r.1 as int) == chamfered(x as int, z as int),
        -3836 <= r.0 <= 3836,
        -5120 <= r.1 <= 5120,
{
    let foot_x: i32 = HALF_X - WALL_RAMP_R;
    let foot_z: i32 = if abs_i32(x) < GOAL_HALF_W {
        HALF_Z
    } else {
        HALF_Z - WALL_RAMP_R
    };
    let cx: i32 = clamp_i32(x, -foot_x, foot_x);
    let cz: i32 = clamp_i32(z, -foot_z, foot_z);
    let sum: i32 = abs_i32(cx) + abs_i32(cz);
    if sum <= 7697 {
        (cx, cz)
    } else {
        proof {
            lemma_pulled(cx as int, sum as int, 3836);
            lemma_pulled(cz as int, sum as int, 5120);
        }
        (cx * 7697 / sum, cz * 7697 / sum)
    }
}

/// Scaling by less than one never grows a value.
proof fn lemma_pulled(a: int, sum: int, m: int)
    requires
        sum > 7697,
        -m <= a <= m,
        0 <= m,
    ensures
        -m <= num::tdiv(a * 7697, sum) <= m,
{
    let b = num::abs(a);
    assert(b * 7697 <= m * sum) by (nonlinear_arith)
        requires
            0 <= b <= m,
            7697 <= sum,
    ;
    assert(num::abs(a * 7697) == b * 7697);
    num::lemma_tdiv_bound(a * 7697, sum, m);
}

// ---- the cross-section -----------------------------------------------------

/// One ring of the wall's cross-section: how far in from the wall, and how
/// high. The floor curves up into the wall, the rail splits it, and it curves
/// over into the roof.
#[verifier::opaque]
pub open spec fn ring(t: Angles, i: int) -> (int, int) {
    if i <= 8 {
        let a = (128 * i) as u16;
        (260 - (t.sin(a) * 260) / 4096, 260 - (t.cos(a) * 260) / 4096)
    } else if i == 9 {
        (0, 320)
    } else if i == 10 {
        (0, 400)
    } else {
        let a = (128 * (i - 11)) as u16;
        (260 - (t.cos(a) * 260) / 4096, 1784 + (t.sin(a) * 260) / 4096)
    }
}

/// Texels of enclosure over a length.
pub open spec fn cover_span(span: int) -> int {
    num::clamp(num::tdiv(span + 21, 22), 1, 128)
}

/// Texels of goal net over a length.
pub open spec fn net_span(span: int) -> int {
    num::clamp(num::tdiv(span + 21, 22), 1, 96)
}

/// How far it is along the surface from one ring to the next.
pub open spec fn ring_gap(t: Angles, i: int) -> int {
    let a = ring(t, i - 1);
    let b = ring(t, i);
    num::root((b.0 - a.0) * (b.0 - a.0) + (b.1 - a.1) * (b.1 - a.1))
}

/// How far it is along the surface from the upper rail to a ring.
pub open spec fn ring_run(t: Angles, i: int) -> int
    decreases i,
{
    if i <= 10 {
        0
    } else {
        ring_run(t, i - 1) + ring_gap(t, i)
    }
}

/// The enclosure's texture row at a ring, measured along the surface from the
/// upper rail, so one scale runs through the wall and round the curve.
pub open spec fn ring_v(t: Angles, i: int) -> int {
    if i <= 10 {
        0
    } else {
        num::min(cover_span(ring_run(t, i)), COVER_H as int)
    }
}

/// Texels of enclosure over a length, shared by walls and roof.
pub fn cover_texels(span: i32) -> (r: u8)
    requires
        -0x100_0000 <= span <= 0x100_0000,
    ensures
        r == cover_span(span as int),
        1 <= r <= 128,
{
    clamp_i32((span + COVER_UU_PER_TEXEL - 1) / COVER_UU_PER_TEXEL, 1, COVER_W) as u8
}

/// Texels of goal net over a length, at the enclosure's own scale.
pub fn net_texels(span: i32) -> (r: u8)
    requires
        -0x100_0000 <= span <= 0x100_0000,
    ensures
        r == net_span(span as int),
        1 <= r <= 96,
{
    clamp_i32((span + COVER_UU_PER_TEXEL - 1) / COVER_UU_PER_TEXEL, 1, NET_W) as u8
}

/// The wall's cross-section, worked out once.
#[derive(Debug)]
pub struct Profile {
    /// Inset and height of each ring.
    pub rings: Vec<(i32, i32)>,
    /// The enclosure's texture row at each ring.
    pub rows: Vec<u8>,
}

impl Profile {
    /// Every ring is where the cross-section puts it.
    pub open spec fn wf(&self, t: Angles) -> bool {
        &&& self.rings.len() == PROFILE_LEN
        &&& self.rows.len() == PROFILE_LEN
        &&& forall|i: int|
            0 <= i < PROFILE_LEN ==> {
                let r = #[trigger] self.rings[i];
                (r.0 as int, r.1 as int) == ring(t, i)
            }
        &&& forall|i: int| 0 <= i < PROFILE_LEN ==> #[trigger] self.rows[i] == ring_v(t, i)
    }

    /// The wall's cross-section, from the floor's edge up and over to the
    /// roof's.
    pub fn build<F: Fn(i32, i32) -> u16>(trig: &Trig<F>) -> (r: Self)
        requires
            trig.wf(),
        ensures
            r.wf(trig.model()),
    {
        let mut rings: Vec<(i32, i32)> = Vec::new();
        let mut i: usize = 0;
        while i < PROFILE_LEN
            invariant
                i <= PROFILE_LEN,
                trig.wf(),
                rings.len() == i,
                forall|j: int|
                    0 <= j < i ==> {
                        let r = #[trigger] rings[j];
                        (r.0 as int, r.1 as int) == ring(trig.model(), j)
                    },
            decreases PROFILE_LEN - i,
        {
            rings.push(find_ring(trig, i));
            i += 1;
        }
        let mut rows: Vec<u8> = Vec::new();
        let mut run: i32 = 0;
        let mut k: usize = 0;
        while k < PROFILE_LEN
            invariant
                k <= PROFILE_LEN,
                trig.wf(),
                rings.len() == PROFILE_LEN,
                forall|j: int|
                    0 <= j < PROFILE_LEN ==> {
                        let r = #[trigger] rings[j];
                        (r.0 as int, r.1 as int) == ring(trig.model(), j)
                    },
                rows.len() == k,
                run == ring_run(trig.model(), k - 1),
                0 <= run <= k * 46340,
                forall|j: int| 0 <= j < k ==> #[trigger] rows[j] == ring_v(trig.model(), j),
            decreases PROFILE_LEN - k,
        {
            if k <= RAIL_HI_RING {
                rows.push(0);
            } else {
                let a = rings[k - 1];
                let b = rings[k];
                proof {
                    trig.lemma_waves();
                    lemma_ring(trig.model(), k - 1);
                    lemma_ring(trig.model(), k as int);
                }
                let dx: i32 = b.0 - a.0;
                let dy: i32 = b.1 - a.1;
                assert(0 <= dx * dx <= 25_000_000 && 0 <= dy * dy <= 25_000_000)
                    by (nonlinear_arith)
                    requires
                        -5000 <= dx <= 5000,
                        -5000 <= dy <= 5000,
                ;
                run = run + isqrt_i32(dx * dx + dy * dy);
                let v: u8 = cover_texels(run);
                rows.push(
                    if v > 84 {
                        84
                    } else {
                        v
                    },
                );
            }
            k += 1;
        }
        Profile { rings, rows }
    }
}

/// Every ring is a modest distance from the wall's foot, for any sines and
/// cosines in range.
pub proof fn lemma_ring(t: Angles, i: int)
    requires
        forall|a: u16| -4096 <= #[trigger] t.sin(a) <= 4096,
        forall|a: u16| -4096 <= #[trigger] t.cos(a) <= 4096,
        0 <= i < PROFILE_LEN,
    ensures
        0 <= ring(t, i).0 <= 520,
        0 <= ring(t, i).1 <= 2044,
        i >= 11 ==> 1524 <= ring(t, i).1,
{
    reveal(ring);
}

fn find_ring<F: Fn(i32, i32) -> u16>(trig: &Trig<F>, i: usize) -> (r: (i32, i32))
    requires
        trig.wf(),
        i < PROFILE_LEN,
    ensures
        (r.0 as int, r.1 as int) == ring(trig.model(), i as int),
{
    proof {
        reveal(ring);
    }
    if i <= CURVE_SEGS {
        let a: u16 = (128 * i) as u16;
        let c: i32 = trig.cos_q12(a);
        let s: i32 = trig.sin_q12(a);
        (
            WALL_RAMP_R - mul_shift12(s, WALL_RAMP_R),
            WALL_RAMP_R - mul_shift12(c, WALL_RAMP_R),
        )
    } else if i == RAIL_LO_RING {
        (0, RAIL_LO_Y)
    } else if i == RAIL_HI_RING {
        (0, RAIL_HI_Y)
    } else {
        let a: u16 = (128 * (i - 11)) as u16;
        let c: i32 = trig.cos_q12(a);
        let s: i32 = trig.sin_q12(a);
        (CEIL_R - mul_shift12(c, CEIL_R), CEIL - CEIL_R + mul_shift12(s, CEIL_R))
    }
}

// ---- the perimeter ---------------------------------------------------------

/// A run of wall, and the direction into the pitch from it, Q12.
#[derive(Copy, Clone, Debug, PartialEq, Eq)]
pub struct Span {
    /// One end.
    pub a: (i32, i32),
    /// The other.
    pub b: (i32, i32),
    /// Into the pitch.
    pub n: (i32, i32),
}

/// The runs of wall: eight down each side, the four corners, and two beside
/// each goal.
#[verifier::opaque]
pub open spec fn span_of(i: int) -> Span {
    if i < 16 {
        let z = -3968 + (i / 2) * 992;
        if i % 2 == 0 {
            Span {
                a: ((-4096) as i32, z as i32),
                b: ((-4096) as i32, (z + 992) as i32),
                n: (4096, 0),
            }
        } else {
            Span { a: (4096, z as i32), b: (4096, (z + 992) as i32), n: ((-4096) as i32, 0) }
        }
    } else if i < 20 {
        let sx = if i < 18 {
            -1
        } else {
            1int
        };
        let sz = if i % 2 == 0 {
            -1
        } else {
            1int
        };
        Span {
            a: ((sx * 4096) as i32, (sz * 3968) as i32),
            b: ((sx * 2944) as i32, (sz * 5120) as i32),
            n: ((-sx * 2896) as i32, (-sz * 2896) as i32),
        }
    } else {
        let sz = if i < 22 {
            -1
        } else {
            1int
        };
        if i % 2 == 0 {
            Span {
                a: ((-2944) as i32, (sz * 5120) as i32),
                b: ((-893) as i32, (sz * 5120) as i32),
                n: (0, (-sz * 4096) as i32),
            }
        } else {
            Span {
                a: (893, (sz * 5120) as i32),
                b: (2944, (sz * 5120) as i32),
                n: (0, (-sz * 4096) as i32),
            }
        }
    }
}

impl Span {
    /// Inside the arena's outline.
    pub open spec fn fits(self) -> bool {
        &&& -4096 <= self.a.0 <= 4096 && -5120 <= self.a.1 <= 5120
        &&& -4096 <= self.b.0 <= 4096 && -5120 <= self.b.1 <= 5120
        &&& -4096 <= self.n.0 <= 4096 && -4096 <= self.n.1 <= 4096
    }
}

/// A run of wall.
pub fn span(i: usize) -> (r: Span)
    requires
        i < SPAN_COUNT,
    ensures
        r == span_of(i as int),
        r.fits(),
{
    proof {
        reveal(span_of);
    }
    if i < 16 {
        let z: i32 = -CORNER_Z + (i as i32 / 2) * 992;
        if i % 2 == 0 {
            Span { a: (-HALF_X, z), b: (-HALF_X, z + 992), n: (4096, 0) }
        } else {
            Span { a: (HALF_X, z), b: (HALF_X, z + 992), n: (-4096, 0) }
        }
    } else if i < 20 {
        let sx: i32 = if i < 18 {
            -1
        } else {
            1
        };
        let sz: i32 = if i % 2 == 0 {
            -1
        } else {
            1
        };
        Span {
            a: (sx * HALF_X, sz * CORNER_Z),
            b: (sx * CORNER_X, sz * HALF_Z),
            n: (-sx * 2896, -sz * 2896),
        }
    } else {
        let sz: i32 = if i < 22 {
            -1
        } else {
            1
        };
        if i % 2 == 0 {
            Span {
                a: (-CORNER_X, sz * HALF_Z),
                b: (-GOAL_HALF_W, sz * HALF_Z),
                n: (0, -sz * 4096),
            }
        } else {
            Span {
                a: (GOAL_HALF_W, sz * HALF_Z),
                b: (CORNER_X, sz * HALF_Z),
                n: (0, -sz * 4096),
            }
        }
    }
}

// ---- the roof --------------------------------------------------------------

/// World X of a column of roof corners. The last is clipped to the edge.
pub open spec fn roof_x(ix: int) -> int {
    num::min(-3836 + ix * 1408, 3836)
}

/// World Z of a row of roof corners. The last is clipped to the edge.
pub open spec fn roof_z(iz: int) -> int {
    num::min(-4860 + iz * 616, 4860)
}

/// World X of a column of roof corners.
pub fn roof_corner_x(ix: usize) -> (r: i32)
    requires
        ix <= ROOF_COLS,
    ensures
        r == roof_x(ix as int),
        -3836 <= r <= 3836,
{
    min_i32(-ROOF_HALF_X + ix as i32 * ROOF_STEP_X, ROOF_HALF_X)
}

/// World Z of a row of roof corners.
pub fn roof_corner_z(iz: usize) -> (r: i32)
    requires
        iz <= ROOF_ROWS,
    ensures
        r == roof_z(iz as int),
        -4860 <= r <= 4860,
{
    min_i32(-ROOF_HALF_Z + iz as i32 * ROOF_STEP_Z, ROOF_HALF_Z)
}

// ---- laws ------------------------------------------------------------------

/// The pitch never pokes out from under the walls, and before a goal mouth it
/// runs out to the line.
pub proof fn law_the_pitch_stays_under_the_walls(x: int, z: int)
    ensures
        num::abs(chamfered(x, z).0) <= HALF_X - WALL_RAMP_R,
        num::abs(chamfered(x, z).1) <= HALF_Z,
        num::abs(x) >= GOAL_HALF_W ==> num::abs(chamfered(x, z).1) <= HALF_Z - WALL_RAMP_R,
        num::abs(chamfered(x, z).0) + num::abs(chamfered(x, z).1) <= 7697,
{
    let foot_z = if num::abs(x) < GOAL_HALF_W {
        5120
    } else {
        4860int
    };
    let cx = num::clamp(x, -3836, 3836);
    let cz = num::clamp(z, -foot_z, foot_z);
    let sum = num::abs(cx) + num::abs(cz);
    if sum > 7697 {
        lemma_pulled(cx, sum, 3836);
        lemma_pulled(cz, sum, foot_z);
        let (p, q) = (num::abs(cx), num::abs(cz));
        assert((p * 7697) / sum + (q * 7697) / sum <= 7697) by (nonlinear_arith)
            requires
                sum == p + q,
                p >= 0,
                q >= 0,
                sum > 0,
        ;
        assert(num::abs(num::tdiv(cx * 7697, sum)) == (p * 7697) / sum);
        assert(num::abs(num::tdiv(cz * 7697, sum)) == (q * 7697) / sum);
    }
}

/// The runs of wall join up: each side is unbroken from corner to corner, and
/// the corners meet the side and end walls.
pub proof fn law_the_wall_is_unbroken(k: int)
    requires
        0 <= k < 7,
    ensures
        span_of(2 * k).b == span_of(2 * k + 2).a,
        span_of(2 * k + 1).b == span_of(2 * k + 3).a,
        span_of(16).a == span_of(0).a,
        span_of(17).a == span_of(14).b,
        span_of(18).a == span_of(1).a,
        span_of(19).a == span_of(15).b,
        span_of(16).b == span_of(20).a,
        span_of(18).b == span_of(21).b,
        span_of(17).b == span_of(22).a,
        span_of(19).b == span_of(23).b,
{
    reveal(span_of);
    assert((2 * k) / 2 == k && (2 * k + 1) / 2 == k && (2 * k + 2) / 2 == k + 1 && (2 * k + 3) / 2
        == k + 1);
}

/// The roof's patches cover it from edge to edge.
pub proof fn law_the_roof_is_covered()
    ensures
        roof_x(0) == -ROOF_HALF_X,
        roof_z(0) == -ROOF_HALF_Z,
        roof_x(ROOF_COLS as int) == ROOF_HALF_X,
        roof_z(ROOF_ROWS as int) == ROOF_HALF_Z,
{
}

} // verus!
