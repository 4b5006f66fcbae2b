//! The match's furniture on the glass: the scoreboard's fascia, and the boost
//! dial.

use vstd::prelude::*;
use crate::colour;
use crate::colour::{shade, Livery};
use crate::num;
use crate::num::{mul_shift12};
use crate::panels::ScreenQuad;
use crate::trig::{Angles, Trig};
use crate::tuning::BOOST_MAX_PIPS;
use crate::view::Rgb;

verus! {

/// Depth slot of the scoreboard's plate.
pub const HUD_PLATE_SLOT: usize = 3;
/// Depth slot of the team blocks on it.
pub const HUD_BLOCK_SLOT: usize = 2;
/// Depth slot of the rule under it.
pub const HUD_RULE_SLOT: usize = 1;
/// Segments of the boost dial.
pub const DIAL_SEGS: i32 = 18;

/// A four-cornered piece of the glass.
pub open spec fn pane(
    slot: usize,
    a: (i16, i16),
    b: (i16, i16),
    c: (i16, i16),
    d: (i16, i16),
    top: Rgb,
    bottom: Rgb,
) -> ScreenQuad {
    ScreenQuad { slot, a, b, c, d, tint: (top, top, bottom, bottom) }
}

/// The scoreboard: a dark plate, a block of each seat's colour at its ends, and
/// a bright rule under it.
pub open spec fn fascia(l: Livery) -> Seq<ScreenQuad> {
    let one = l.signal_of(0);
    let two = l.signal_of(1);
    seq![
        pane(3, (89, 0), (231, 0), (82, 26), (238, 26), (18, 22, 34), (28, 34, 50)),
        pane(2, (89, 0), (126, 0), (82, 26), (126, 26), colour::shaded(one, 5, 8), one),
        pane(2, (194, 0), (231, 0), (194, 26), (238, 26), colour::shaded(two, 5, 8), two),
        pane(1, (82, 24), (238, 24), (81, 26), (239, 26), (150, 178, 230), (150, 178, 230)),
    ]
}

fn make_pane(
    slot: usize,
    a: (i16, i16),
    b: (i16, i16),
    c: (i16, i16),
    d: (i16, i16),
    top: Rgb,
    bottom: Rgb,
) -> (r: ScreenQuad)
    ensures
        r == pane(slot, a, b, c, d, top, bottom),
{
    ScreenQuad { slot, a, b, c, d, tint: (top, top, bottom, bottom) }
}

/// The scoreboard's fascia, for the score digits to sit on. The colour of a
/// block says whose score it is.
pub fn scoreboard(livery: &Livery) -> (r: Vec<ScreenQuad>)
    requires
        livery.wf(),
    ensures
        r@ == fascia(*livery),
{
    let one = livery.seat_signal(0);
    let two = livery.seat_signal(1);
    let mut out: Vec<ScreenQuad> = Vec::new();
    out.push(
        make_pane(
            HUD_PLATE_SLOT,
            (89, 0),
            (231, 0),
            (82, 26),
            (238, 26),
            (18, 22, 34),
            (28, 34, 50),
        ),
    );
    out.push(
        make_pane(HUD_BLOCK_SLOT, (89, 0), (126, 0), (82, 26), (126, 26), shade(one, 5, 8), one),
    );
    out.push(
        make_pane(HUD_BLOCK_SLOT, (194, 0), (231, 0), (194, 26), (238, 26), shade(two, 5, 8), two),
    );
    out.push(
        make_pane(
            HUD_RULE_SLOT,
            (82, 24),
            (238, 24),
            (81, 26),
            (239, 26),
            (150, 178, 230),
            (150, 178, 230),
        ),
    );
    assert(out@ =~= fascia(*livery));
    out
}

// ---- the boost dial --------------------------------------------------------

/// How many of the dial's segments a tank lights.
pub open spec fn lit_segments(pips: int) -> int {
    num::tdiv(pips * 18, 100)
}

/// A segment's colour: warmer towards the top of the tank, dark when spent.
pub open spec fn segment_tint(i: int, filled: int) -> Rgb {
    if i < filled {
        (255, (150 + ((i * 255) / 18) / 3) as u8, 40)
    } else {
        (44, 48, 62)
    }
}

/// A point on the dial.
pub open spec fn dial_point(t: Angles, cx: int, cy: int, angle: u16, r: int) -> (i16, i16) {
    ((cx + (t.sin(angle) * r) / 4096) as i16, (cy - (t.cos(angle) * r) / 4096) as i16)
}

/// One segment of the dial. It sweeps three quarters of a turn.
#[verifier::opaque]
pub open spec fn segment(
    t: Angles,
    cx: int,
    cy: int,
    filled: int,
    half_view: bool,
    i: int,
) -> ScreenQuad {
    let (outer, inner) = if half_view {
        (20int, 15int)
    } else {
        (30int, 22int)
    };
    let a = (1300 + (3000 * i) / 18) as u16;
    let b = (1260 + (3000 * (i + 1)) / 18) as u16;
    let c = segment_tint(i, filled);
    pane(
        1,
        dial_point(t, cx, cy, a, inner),
        dial_point(t, cx, cy, a, outer),
        dial_point(t, cx, cy, b, inner),
        dial_point(t, cx, cy, b, outer),
        c,
        c,
    )
}

/// The whole dial.
pub open spec fn dial(t: Angles, cx: int, cy: int, pips: int, half_view: bool) -> Seq<ScreenQuad> {
    Seq::new(18, |i: int| segment(t, cx, cy, lit_segments(pips), half_view, i))
}

fn on_dial<F: Fn(i32, i32) -> u16>(
    trig: &Trig<F>,
    cx: i16,
    cy: i16,
    angle: u16,
    r: i32,
) -> (p: (i16, i16))
    requires
        trig.wf(),
        -1000 <= cx <= 1000,
        -1000 <= cy <= 1000,
        0 <= r <= 100,
    ensures
        p == dial_point(trig.model(), cx as int, cy as int, angle, r as int),
{
    let s: i32 = trig.sin_q12(angle);
    let c: i32 = trig.cos_q12(angle);
    proof {
        num::lemma_mul_bound(s as int, r as int, 4096, 100);
        num::lemma_mul_bound(c as int, r as int, 4096, 100);
    }
    let dx: i32 = mul_shift12(s, r);
    let dy: i32 = mul_shift12(c, r);
    ((cx as i32 + dx) as i16, (cy as i32 - dy) as i16)
}

fn make_segment<F: Fn(i32, i32) -> u16>(
    trig: &Trig<F>,
    cx: i16,
    cy: i16,
    filled: i32,
    half_view: bool,
    i: i32,
) -> (r: ScreenQuad)
    requires
        trig.wf(),
        -1000 <= cx <= 1000,
        -1000 <= cy <= 1000,
        0 <= i < 18,
    ensures
        r == segment(trig.model(), cx as int, cy as int, filled as int, half_view, i as int),
{
    proof {
        reveal(segment);
    }
    let (outer, inner): (i32, i32) = if half_view {
        (20, 15)
    } else {
        (30, 22)
    };
    let c: Rgb = if i < filled {
        (255, (150 + (i * 255 / DIAL_SEGS) / 3) as u8, 40)
    } else {
        (44, 48, 62)
    };
    let a: u16 = (1300 + 3000 * i / DIAL_SEGS) as u16;
    let b: u16 = (1300 + 3000 * (i + 1) / DIAL_SEGS - 40) as u16;
    make_pane(
        1,
        on_dial(trig, cx, cy, a, inner),
        on_dial(trig, cx, cy, a, outer),
        on_dial(trig, cx, cy, b, inner),
        on_dial(trig, cx, cy, b, outer),
        c,
        c,
    )
}

/// The boost dial, centred on a point of the screen: an arc that fills as the
/// tank does. Smaller in half a view.
pub fn boost_gauge<F: Fn(i32, i32) -> u16>(
    trig: &Trig<F>,
    cx: i16,
    cy: i16,
    pips: i32,
    half_view: bool,
) -> (r: Vec<ScreenQuad>)
    requires
        trig.wf(),
        -1000 <= cx <= 1000,
        -1000 <= cy <= 1000,
        -0x100_0000 <= pips <= 0x100_0000,
    ensures
        r@ == dial(trig.model(), cx as int, cy as int, pips as int, half_view),
{
    let filled: i32 = pips * DIAL_SEGS / BOOST_MAX_PIPS;
    let mut out: Vec<ScreenQuad> = Vec::new();
    let mut i: i32 = 0;
    while i < DIAL_SEGS
        invariant
            0 <= i <= 18,
            trig.wf(),
            -1000 <= cx <= 1000,
            -1000 <= cy <= 1000,
            filled == lit_segments(pips as int),
            out.len() == i,
            forall|j: int|
                0 <= j < i ==> #[trigger] out[j] == segment(
                    trig.model(),
                    cx as int,
                    cy as int,
                    filled as int,
                    half_view,
                    j,
                ),
        decreases 18 - i,
    {
        out.push(make_segment(trig, cx, cy, filled, half_view, i));
        i += 1;
    }
    assert(out@ =~= dial(trig.model(), cx as int, cy as int, pips as int, half_view));
    out
}

/// An empty tank lights nothing, a full one everything, and more boost never
/// lights less.
pub proof fn law_the_dial_fills_with_the_tank(a: int, b: int)
    requires
        0 <= a <= b <= BOOST_MAX_PIPS,
    ensures
        lit_segments(0) == 0,
        lit_segments(BOOST_MAX_PIPS as int) == DIAL_SEGS,
        0 <= lit_segments(a) <= lit_segments(b) <= DIAL_SEGS,
{
}

} // verus!
