//! Colours: scaling, mixing, tinting, and the paints the seats wear.

use vstd::prelude::*;
use crate::num;
use crate::num::{clamp_i32, min_i32};
use crate::view::Rgb;

verus! {

/// Cars the select screen cycles through.
pub const CAR_COUNT: usize = 3;
/// Paints the select screen offers.
pub const PAINT_COUNT: usize = 8;
/// The body colour a paint replaces.
pub const BODY_KEY: Rgb = (32, 80, 168);
/// The darker bodywork a paint replaces.
pub const BODY_DARK_KEY: Rgb = (16, 34, 80);

/// Paints: main body colour, the darker bodywork that goes with it, and the
/// signal colour, which is the same hue with the ceiling taken off.
pub const PAINTS: [(Rgb, Rgb, Rgb); 8] = [
    ((32, 80, 168), (16, 34, 80), (54, 118, 240)),
    ((72, 148, 208), (28, 62, 104), (104, 196, 255)),
    ((24, 132, 124), (10, 56, 54), (32, 196, 184)),
    ((108, 168, 40), (44, 72, 16), (150, 232, 56)),
    ((208, 160, 32), (92, 66, 12), (255, 206, 48)),
    ((208, 96, 24), (88, 38, 10), (250, 138, 34)),
    ((176, 40, 52), (74, 16, 22), (240, 58, 74)),
    ((124, 68, 176), (52, 26, 78), (172, 96, 244)),
];

/// What a paint is called.
pub open spec fn paint_title(paint: int) -> &'static str {
    if paint == 0 {
        "COBALT"
    } else if paint == 1 {
        "SKY"
    } else if paint == 2 {
        "TEAL"
    } else if paint == 3 {
        "LIME"
    } else if paint == 4 {
        "GOLD"
    } else if paint == 5 {
        "EMBER"
    } else if paint == 6 {
        "CRIMSON"
    } else {
        "VIOLET"
    }
}

/// What a car is called.
pub open spec fn car_title(car: int) -> &'static str {
    if car == 0 {
        "COMET"
    } else if car == 1 {
        "HATCH"
    } else {
        "SPRINTER"
    }
}

/// What a paint is called.
pub fn paint_name(paint: usize) -> (r: &'static str)
    requires
        paint < PAINT_COUNT,
    ensures
        r == paint_title(paint as int),
{
    match paint {
        0 => "COBALT",
        1 => "SKY",
        2 => "TEAL",
        3 => "LIME",
        4 => "GOLD",
        5 => "EMBER",
        6 => "CRIMSON",
        _ => "VIOLET",
    }
}

/// What a car is called. One past the last counts as the last.
pub fn car_name(car: usize) -> (r: &'static str)
    ensures
        r == car_title(car as int),
{
    match car {
        0 => "COMET",
        1 => "HATCH",
        _ => "SPRINTER",
    }
}

// ---- arithmetic ------------------------------------------------------------

/// One channel of a colour scaled by `num / den`.
pub open spec fn scaled_channel(c: u8, num: int, den: int) -> u8 {
    num::clamp(num::tdiv(c * num, den), 0, 255) as u8
}

/// A colour scaled by `num / den`.
pub open spec fn shaded(c: Rgb, num: int, den: int) -> Rgb {
    (scaled_channel(c.0, num, den), scaled_channel(c.1, num, den), scaled_channel(c.2, num, den))
}

/// One channel of two colours blended in sixteenths.
pub open spec fn mixed_channel(a: u8, b: u8, w: int) -> u8 {
    ((a * (16 - w) + b * w) / 16) as u8
}

/// Two colours blended, with this many sixteenths of the second.
pub open spec fn mixed(a: Rgb, b: Rgb, weight_b: int) -> Rgb {
    let w = num::clamp(weight_b, 0, 16);
    (mixed_channel(a.0, b.0, w), mixed_channel(a.1, b.1, w), mixed_channel(a.2, b.2, w))
}

/// One channel modulated by a tint, where 128 leaves it alone.
pub open spec fn tinted_channel(base: u8, tint: u8) -> u8 {
    num::min((base * tint) / 128, 255) as u8
}

/// A surface colour modulated by a tint.
pub open spec fn tint_of(base: Rgb, tint: Rgb) -> Rgb {
    (
        tinted_channel(base.0, tint.0),
        tinted_channel(base.1, tint.1),
        tinted_channel(base.2, tint.2),
    )
}

fn shade_channel(c: u8, num: i32, den: i32) -> (r: u8)
    requires
        -0x40_0000 <= num <= 0x40_0000,
        den > 0,
    ensures
        r == scaled_channel(c, num as int, den as int),
{
    assert(-0x4000_0000 <= c * num <= 0x4000_0000) by (nonlinear_arith)
        requires
            0 <= c <= 255,
            -0x40_0000 <= num <= 0x40_0000,
    ;
    clamp_i32(c as i32 * num / den, 0, 255) as u8
}

/// A colour scaled by `num / den`, each channel held to its range.
pub fn shade(c: Rgb, num: i32, den: i32) -> (r: Rgb)
    requires
        -0x40_0000 <= num <= 0x40_0000,
        den > 0,
    ensures
        r == shaded(c, num as int, den as int),
{
    (shade_channel(c.0, num, den), shade_channel(c.1, num, den), shade_channel(c.2, num, den))
}

fn mix_channel(a: u8, b: u8, w: i32) -> (r: u8)
    requires
        0 <= w <= 16,
    ensures
        r == mixed_channel(a, b, w as int),
        num::min(a as int, b as int) <= r <= num::max(a as int, b as int),
{
    proof {
        lemma_mixed_channel(a, b, w as int);
    }
    ((a as i32 * (16 - w) + b as i32 * w) / 16) as u8
}

proof fn lemma_mixed_channel(a: u8, b: u8, w: int)
    requires
        0 <= w <= 16,
    ensures
        0 <= a * (16 - w) <= 4080,
        0 <= b * w <= 4080,
        num::min(a as int, b as int) <= (a * (16 - w) + b * w) / 16 <= num::max(
            a as int,
            b as int,
        ),
        w == 0 ==> (a * (16 - w) + b * w) / 16 == a,
        w == 16 ==> (a * (16 - w) + b * w) / 16 == b,
{
    assert(w == 0 ==> a * (16 - w) == 16 * a && b * w == 0) by (nonlinear_arith);
    assert(w == 16 ==> a * (16 - w) == 0 && b * w == 16 * b) by (nonlinear_arith);
    let lo = num::min(a as int, b as int);
    let hi = num::max(a as int, b as int);
    assert(lo * (16 - w) <= a * (16 - w) <= hi * (16 - w)) by (nonlinear_arith)
        requires
            lo <= a <= hi,
            0 <= 16 - w,
    ;
    assert(lo * w <= b * w <= hi * w) by (nonlinear_arith)
        requires
            lo <= b <= hi,
            0 <= w,
    ;
    assert(lo * (16 - w) + lo * w == lo * 16) by (nonlinear_arith);
    assert(hi * (16 - w) + hi * w == hi * 16) by (nonlinear_arith);
    assert(0 <= a * (16 - w) <= 255 * 16) by (nonlinear_arith)
        requires
            0 <= a <= 255,
            0 <= 16 - w <= 16,
    ;
    assert(0 <= b * w <= 255 * 16) by (nonlinear_arith)
        requires
            0 <= b <= 255,
            0 <= w <= 16,
    ;
}

/// Two colours blended, with this many sixteenths of the second.
pub fn mix(a: Rgb, b: Rgb, weight_b: i32) -> (r: Rgb)
    ensures
        r == mixed(a, b, weight_b as int),
{
    let w: i32 = clamp_i32(weight_b, 0, 16);
    (mix_channel(a.0, b.0, w), mix_channel(a.1, b.1, w), mix_channel(a.2, b.2, w))
}

fn tint_channel(base: u8, tint: u8) -> (r: u8)
    ensures
        r == tinted_channel(base, tint),
{
    assert(0 <= base * tint <= 65025) by (nonlinear_arith)
        requires
            0 <= base <= 255,
            0 <= tint <= 255,
    ;
    min_i32(base as i32 * tint as i32 / 128, 255) as u8
}

/// A surface colour modulated by a tint, the way a texture is.
pub fn tinted(base: Rgb, tint: Rgb) -> (r: Rgb)
    ensures
        r == tint_of(base, tint),
{
    (tint_channel(base.0, tint.0), tint_channel(base.1, tint.1), tint_channel(base.2, tint.2))
}

// ---- paints ----------------------------------------------------------------

/// A paint that exists: one past the last counts as the last.
pub open spec fn known_paint(paint: usize) -> usize {
    if paint < PAINT_COUNT {
        paint
    } else {
        7
    }
}

/// A paint's signal colour.
pub open spec fn signal(paint: usize) -> Rgb {
    PAINTS@[known_paint(paint) as int].2
}

/// One channel of a colour brought to a constant total.
pub open spec fn hue_channel(c: u8, sum: int) -> u8 {
    num::min((c * 384) / sum, 255) as u8
}

/// A colour's hue: brought to a constant total and pulled back toward neutral,
/// so that it can tint a surface without changing how bright it ends up.
pub open spec fn hue_of(c: Rgb) -> Rgb {
    let sum = num::max(c.0 + c.1 + c.2, 1);
    mixed(
        (128, 128, 128),
        (hue_channel(c.0, sum), hue_channel(c.1, sum), hue_channel(c.2, sum)),
        10,
    )
}

fn full_channel(c: u8, sum: i32) -> (r: u8)
    requires
        sum > 0,
    ensures
        r == hue_channel(c, sum as int),
{
    assert(0 <= (c * 384) / sum as int) by (nonlinear_arith)
        requires
            0 <= c,
            sum > 0,
    ;
    min_i32(c as i32 * 384 / sum, 255) as u8
}

/// A paint's hue, for tinting.
pub fn hue(c: Rgb) -> (r: Rgb)
    ensures
        r == hue_of(c),
{
    let total: i32 = c.0 as i32 + c.1 as i32 + c.2 as i32;
    let sum: i32 = if total < 1 {
        1
    } else {
        total
    };
    mix((128, 128, 128), (full_channel(c.0, sum), full_channel(c.1, sum), full_channel(c.2, sum)), 10)
}

/// Which paint each seat wears, and the hues that follow from it.
#[derive(Copy, Clone, Debug, PartialEq, Eq)]
pub struct Livery {
    /// Seat 0's paint.
    pub one: usize,
    /// Seat 1's paint.
    pub two: usize,
    /// Seat 0's hue.
    pub hue_one: Rgb,
    /// Seat 1's hue.
    pub hue_two: Rgb,
}

/// The livery two paints make.
pub open spec fn livery_of(one: usize, two: usize) -> Livery {
    Livery {
        one: known_paint(one),
        two: known_paint(two),
        hue_one: hue_of(signal(one)),
        hue_two: hue_of(signal(two)),
    }
}

impl Livery {
    /// The paints exist, and the hues are theirs.
    pub open spec fn wf(self) -> bool {
        &&& self.one < PAINT_COUNT
        &&& self.two < PAINT_COUNT
        &&& self == livery_of(self.one, self.two)
    }

    /// A seat's signal colour.
    pub open spec fn signal_of(self, seat: int) -> Rgb {
        if seat == 0 {
            signal(self.one)
        } else {
            signal(self.two)
        }
    }

    /// Tell the renderer which paints the two seats picked.
    pub fn set_seat_paints(one: usize, two: usize) -> (r: Self)
        ensures
            r == livery_of(one, two),
            r.wf(),
    {
        let a: usize = if one < PAINT_COUNT {
            one
        } else {
            PAINT_COUNT - 1
        };
        let b: usize = if two < PAINT_COUNT {
            two
        } else {
            PAINT_COUNT - 1
        };
        Livery { one: a, two: b, hue_one: hue(PAINTS[a].2), hue_two: hue(PAINTS[b].2) }
    }

    /// The flat colour that stands for a seat away from its car.
    pub fn seat_signal(&self, seat: usize) -> (r: Rgb)
        requires
            self.wf(),
        ensures
            r == self.signal_of(seat as int),
    {
        if seat == 0 {
            PAINTS[self.one].2
        } else {
            PAINTS[self.two].2
        }
    }
}

/// How far either side of halfway the barrier's two hues blend, in uu.
pub const CURB_BLEND: i32 = 1400;

/// The barrier's tint at a point along the pitch: a seat's own hue at its end,
/// blending through the middle.
pub open spec fn curb_tint(l: Livery, z: int) -> Rgb {
    mixed(l.hue_one, l.hue_two, num::clamp(num::tdiv((z + CURB_BLEND) * 16, 2800), 0, 16))
}

/// The barrier's light at a point along the pitch.
pub fn curb(livery: &Livery, light: Rgb, z: i32) -> (r: Rgb)
    requires
        -0x100_0000 <= z <= 0x100_0000,
    ensures
        r == tint_of(light, curb_tint(*livery, z as int)),
{
    let t: i32 = clamp_i32((z + CURB_BLEND) * 16 / 2800, 0, 16);
    tinted(light, mix(livery.hue_one, livery.hue_two, t))
}

/// A mesh colour under a paint: only the two body colours move.
pub open spec fn painted(base: Rgb, paint: usize) -> Rgb {
    if base == BODY_KEY {
        PAINTS@[known_paint(paint) as int].0
    } else if base == BODY_DARK_KEY {
        PAINTS@[known_paint(paint) as int].1
    } else {
        base
    }
}

/// Repaint a mesh's colours. Only the two body roles move; glass, tyres, lamps
/// and chassis keep the colours they came with.
pub fn set_appearance(base: &Vec<Rgb>, paint: usize) -> (r: Vec<Rgb>)
    ensures
        r@ == base@.map_values(|c: Rgb| painted(c, paint)),
{
    let which: usize = if paint < PAINT_COUNT {
        paint
    } else {
        PAINT_COUNT - 1
    };
    let body = PAINTS[which].0;
    let dark = PAINTS[which].1;
    let mut out: Vec<Rgb> = Vec::new();
    let mut i: usize = 0;
    while i < base.len()
        invariant
            i <= base.len(),
            out.len() == i,
            which == known_paint(paint),
            body == PAINTS@[which as int].0,
            dark == PAINTS@[which as int].1,
            forall|j: int| 0 <= j < i ==> #[trigger] out[j] == painted(base[j], paint),
        decreases base.len() - i,
    {
        let c = base[i];
        let body_key = c.0 == 32 && c.1 == 80 && c.2 == 168;
        let dark_key = c.0 == 16 && c.1 == 34 && c.2 == 80;
        out.push(
            if body_key {
                body
            } else if dark_key {
                dark
            } else {
                c
            },
        );
        i += 1;
    }
    assert(out@ =~= base@.map_values(|c: Rgb| painted(c, paint)));
    out
}

/// A blend lies between its two colours in every channel, and is one of them at
/// either end.
pub proof fn law_mix_stays_between(a: Rgb, b: Rgb, w: int)
    ensures
        num::min(a.0 as int, b.0 as int) <= mixed(a, b, w).0 <= num::max(a.0 as int, b.0 as int),
        num::min(a.1 as int, b.1 as int) <= mixed(a, b, w).1 <= num::max(a.1 as int, b.1 as int),
        num::min(a.2 as int, b.2 as int) <= mixed(a, b, w).2 <= num::max(a.2 as int, b.2 as int),
        w <= 0 ==> mixed(a, b, w) == a,
        w >= 16 ==> mixed(a, b, w) == b,
{
    let v = num::clamp(w, 0, 16);
    lemma_mixed_channel(a.0, b.0, v);
    lemma_mixed_channel(a.1, b.1, v);
    lemma_mixed_channel(a.2, b.2, v);
}

/// A seat in the factory body colours looks the same after a repaint: the first
/// paint is the one the meshes come in.
pub proof fn law_first_paint_is_the_factory_one(c: Rgb)
    ensures
        painted(c, 0) == c,
{
}

} // verus!
