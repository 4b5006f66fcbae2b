//! The rest of the type over the picture: the boot splash, the now-playing
//! plate with its spinning disc, and the select screen.

use vstd::prelude::*;
use crate::colour;
use crate::colour::{car_name, paint_name};
use crate::game;
use crate::game::{Game, Seat, INTRO_FADE_IN, INTRO_HOLD, INTRO_TOTAL, ROW_ARENA, ROW_RULE};
use crate::hud;
use crate::hud::{cast_shadow, centre, lay, seat_name, tint_row, Font, Label, Text, Type};
use crate::music;
use crate::music::BANNER_TICKS;
use crate::num;
use crate::num::{abs_i32, clamp_i32, max_i32, shift12};
use crate::panels;
use crate::panels::{stage_car_screen_x, MENU_SLANT, MENU_SWEEP_TICKS};
use crate::trig::{Angles, Trig};
use crate::view::{ArenaTime, Rgb, SCREEN_W};

verus! {

// ---- the boot splash -------------------------------------------------------

/// Letters in the splash's line.
pub const TAG_LEN: usize = 18;

/// The splash's line.
pub open spec fn tag() -> Text {
    Text::Word("Built with PSoXide")
}

/// How bright the splash is, of 128: in, held, and out again.
pub open spec fn intro_level(t: int) -> int {
    num::clamp(
        if t < INTRO_FADE_IN {
            num::tdiv(t * 128, INTRO_FADE_IN as int)
        } else if t < INTRO_FADE_IN + INTRO_HOLD {
            128
        } else {
            num::tdiv((INTRO_TOTAL - t) * 128, 44)
        },
        0,
        128,
    )
}

/// How much of the sheen a letter catches, of 18.
pub open spec fn sheen(t: int, i: int) -> int {
    num::max(18 - num::abs(i - (t / 2) % 36) * 6, 0)
}

/// One channel of a letter.
pub open spec fn letter_channel(base: int, level: int, amount: int) -> u8 {
    let dim = (base * level) / 128;
    (dim + ((level - dim) * amount) / 18) as u8
}

/// A letter's colour.
pub open spec fn letter_tint(t: int, i: int) -> Rgb {
    let level = intro_level(t);
    let amount = sheen(t, i);
    (
        letter_channel(76, level, amount),
        letter_channel(108, level, amount),
        letter_channel(128, level, amount),
    )
}

/// Where a letter stands: after every letter before it.
pub open spec fn letter_x<M: Fn(Font, Text) -> u16>(f: &Type<M>, i: nat) -> int
    decreases i,
{
    if i == 0 {
        160 - f.width(Font::Small, tag()) as int / 2
    } else {
        letter_x(f, (i - 1) as nat) + f.width(Font::Small, Text::Letter((i - 1) as usize))
    }
}

/// One letter of the splash's line.
pub open spec fn letter<M: Fn(Font, Text) -> u16>(f: &Type<M>, t: int, i: int) -> Label {
    hud::plain(
        Font::Small,
        letter_x(f, i as nat),
        150,
        Text::Letter(i as usize),
        256,
        letter_tint(t, i),
    )
}

/// How bright the splash is, of 128.
pub fn splash_level(t: i32) -> (r: i32)
    requires
        0 <= t <= INTRO_TOTAL,
    ensures
        r == intro_level(t as int),
        0 <= r <= 128,
{
    let level: i32 = if t < INTRO_FADE_IN {
        t * 128 / INTRO_FADE_IN
    } else if t < INTRO_FADE_IN + INTRO_HOLD {
        128
    } else {
        (INTRO_TOTAL - t) * 128 / 44
    };
    clamp_i32(level, 0, 128)
}

fn channel(base: i32, level: i32, amount: i32) -> (r: u8)
    requires
        0 <= base <= 128,
        0 <= level <= 128,
        0 <= amount <= 18,
    ensures
        r == letter_channel(base as int, level as int, amount as int),
{
    assert(0 <= base * level <= 128 * level) by (nonlinear_arith)
        requires
            0 <= base <= 128,
            0 <= level,
    ;
    let dim: i32 = base * level / 128;
    let over: i32 = level - dim;
    assert(0 <= over * amount <= 128 * 18) by (nonlinear_arith)
        requires
            0 <= over <= 128,
            0 <= amount <= 18,
    ;
    (dim + over * amount / 18) as u8
}

/// The boot splash's line, with the sheen sweeping across it.
pub fn draw_intro<M: Fn(Font, Text) -> u16>(t: i32, face: &Type<M>) -> (r: Vec<Label>)
    requires
        face.wf(),
        0 <= t <= INTRO_TOTAL,
    ensures
        r@ == Seq::new(TAG_LEN as nat, |i: int| letter(face, t as int, i)),
{
    let level: i32 = splash_level(t);
    let head: i32 = (t / 2) % 36;
    let mut x: i16 = 160 - face.text_width(Font::Small, Text::Word("Built with PSoXide")) / 2;
    let mut out: Vec<Label> = Vec::new();
    let mut i: usize = 0;
    while i < TAG_LEN
        invariant
            i <= TAG_LEN,
            face.wf(),
            0 <= t <= INTRO_TOTAL,
            level == intro_level(t as int),
            0 <= level <= 128,
            head == (t as int / 2) % 36,
            x == letter_x(face, i as nat),
            -400 <= x <= 160 + i * 1000,
            out@ == Seq::new(i as nat, |i: int| letter(face, t as int, i)),
        decreases TAG_LEN - i,
    {
        let amount: i32 = max_i32(18 - abs_i32(i as i32 - head) * 6, 0);
        let tint: Rgb = (
            channel(76, level, amount),
            channel(108, level, amount),
            channel(128, level, amount),
        );
        out.push(lay(Font::Small, x, 150, Text::Letter(i), 256, tint));
        let w: i16 = face.text_width(Font::Small, Text::Letter(i));
        x = x + w;
        i += 1;
    }
    out
}

// ---- now playing -----------------------------------------------------------

/// A shape on the overlay.
#[derive(Copy, Clone, Debug, PartialEq, Eq)]
pub enum Shape {
    /// A triangle, one colour a corner.
    Tri((i16, i16), (i16, i16), (i16, i16), (Rgb, Rgb, Rgb)),
    /// A quad of one colour, corners in Z order.
    Quad((i16, i16), (i16, i16), (i16, i16), (i16, i16), Rgb),
}

/// A point on a circle, rounded to the pixel.
pub open spec fn rim(a: Angles, cx: int, cy: int, angle: u16, r: int) -> (i16, i16) {
    (
        (cx + (a.cos(angle) * r + 2048) / 4096) as i16,
        (cy + (a.sin(angle) * r + 2048) / 4096) as i16,
    )
}

/// One wedge of a disc of `segs`.
pub open spec fn wedge(
    a: Angles,
    cx: int,
    cy: int,
    r: int,
    segs: int,
    tint: Rgb,
    i: int,
) -> Shape {
    Shape::Tri(
        (cx as i16, cy as i16),
        rim(a, cx, cy, ((i * 4096) / segs) as u16, r),
        rim(a, cx, cy, (((i + 1) * 4096) / segs) as u16, r),
        (tint, tint, tint),
    )
}

/// A disc, as a fan of wedges.
#[verifier::opaque]
pub open spec fn fan(
    a: Angles,
    cx: int,
    cy: int,
    r: int,
    segs: int,
    tint: Rgb,
) -> Seq<Shape> {
    Seq::new(segs as nat, |i: int| wedge(a, cx, cy, r, segs, tint, i))
}

/// One of the two bright wedges that carry the spin.
#[verifier::opaque]
pub open spec fn gleam(a: Angles, cx: int, cy: int, at: int) -> Shape {
    Shape::Quad(
        rim(a, cx, cy, at as u16, 5),
        rim(a, cx, cy, at as u16, 9),
        rim(a, cx, cy, (at + 460) as u16, 5),
        rim(a, cx, cy, (at + 460) as u16, 9),
        (244, 248, 255),
    )
}

/// A compact disc: silver body, two moving gleams, a hub ring and a spindle
/// hole.
pub open spec fn disc_shapes(a: Angles, cx: int, cy: int, tick: u32) -> Seq<Shape> {
    let spin = (tick * 85) % 4096;
    fan(a, cx, cy, 9, 12, (170, 178, 196)) + seq![
        gleam(a, cx, cy, spin),
        gleam(a, cx, cy, spin + 2048),
    ] + fan(a, cx, cy, 4, 8, (226, 232, 244)) + fan(a, cx, cy, 2, 8, (24, 28, 44))
}

fn on_rim<F: Fn(i32, i32) -> u16>(
    trig: &Trig<F>,
    cx: i16,
    cy: i16,
    angle: u16,
    r: i32,
) -> (p: (i16, i16))
    requires
        trig.wf(),
        -4000 <= cx <= 4000,
        -4000 <= cy <= 4000,
        0 <= r <= 9,
    ensures
        p == rim(trig.model(), cx as int, cy as int, angle, r as int),
{
    let c: i32 = trig.cos_q12(angle);
    let s: i32 = trig.sin_q12(angle);
    assert(-36864 <= c * r <= 36864 && -36864 <= s * r <= 36864) by (nonlinear_arith)
        requires
            -4096 <= c <= 4096,
            -4096 <= s <= 4096,
            0 <= r <= 9,
    ;
    let dx: i32 = shift12((c * r + 2048) as i64);
    let dy: i32 = shift12((s * r + 2048) as i64);
    ((cx as i32 + dx) as i16, (cy as i32 + dy) as i16)
}

fn push_fan<F: Fn(i32, i32) -> u16>(
    out: &mut Vec<Shape>,
    trig: &Trig<F>,
    cx: i16,
    cy: i16,
    r: i32,
    segs: u32,
    tint: Rgb,
)
    requires
        trig.wf(),
        -4000 <= cx <= 4000,
        -4000 <= cy <= 4000,
        0 <= r <= 9,
        0 < segs <= 12,
    ensures
        final(out)@ == old(out)@ + fan(
            trig.model(),
            cx as int,
            cy as int,
            r as int,
            segs as int,
            tint,
        ),
{
    let ghost before = out@;
    let mut i: u32 = 0;
    while i < segs
        invariant
            i <= segs,
            0 < segs <= 12,
            trig.wf(),
            -4000 <= cx <= 4000,
            -4000 <= cy <= 4000,
            0 <= r <= 9,
            out@ == before + Seq::new(
                i as nat,
                |i: int| wedge(trig.model(), cx as int, cy as int, r as int, segs as int, tint, i),
            ),
        decreases segs - i,
    {
        assert(0 <= (i * 4096) / segs as int <= 49152 && 0 <= ((i + 1) * 4096) / segs as int
            <= 53248) by (nonlinear_arith)
            requires
                0 < segs,
                0 <= i < 12,
        ;
        let a0: u16 = (i * 4096 / segs) as u16;
        let a1: u16 = ((i + 1) * 4096 / segs) as u16;
        let p = on_rim(trig, cx, cy, a0, r);
        let q = on_rim(trig, cx, cy, a1, r);
        out.push(Shape::Tri((cx, cy), p, q, (tint, tint, tint)));
        i += 1;
        assert(out@ =~= before + Seq::new(
            i as nat,
            |i: int| wedge(trig.model(), cx as int, cy as int, r as int, segs as int, tint, i),
        ));
    }
    proof {
        reveal(fan);
    }
    assert(out@ =~= before + fan(
        trig.model(),
        cx as int,
        cy as int,
        r as int,
        segs as int,
        tint,
    ));
}

fn lay_gleam<F: Fn(i32, i32) -> u16>(trig: &Trig<F>, cx: i16, cy: i16, at: u16) -> (r: Shape)
    requires
        trig.wf(),
        -4000 <= cx <= 4000,
        -4000 <= cy <= 4000,
        at <= 8192,
    ensures
        r == gleam(trig.model(), cx as int, cy as int, at as int),
{
    proof {
        reveal(gleam);
    }
    Shape::Quad(
        on_rim(trig, cx, cy, at, 5),
        on_rim(trig, cx, cy, at, 9),
        on_rim(trig, cx, cy, at + 460, 5),
        on_rim(trig, cx, cy, at + 460, 9),
        (244, 248, 255),
    )
}

/// A spinning compact disc, one turn about every forty-eight ticks.
pub fn draw_disc<F: Fn(i32, i32) -> u16>(
    trig: &Trig<F>,
    cx: i16,
    cy: i16,
    tick: u32,
) -> (r: Vec<Shape>)
    requires
        trig.wf(),
        -4000 <= cx <= 4000,
        -4000 <= cy <= 4000,
    ensures
        r@ == disc_shapes(trig.model(), cx as int, cy as int, tick),
{
    let mut out: Vec<Shape> = Vec::new();
    let turned: u32 = tick.wrapping_mul(85) % 4096;
    assert(turned == (tick * 85) % 4096) by {
        assert((tick * 85) % 0x1_0000_0000 % 4096 == (tick * 85) % 4096);
    }
    let spin: u16 = turned as u16;
    push_fan(&mut out, trig, cx, cy, 9, 12, (170, 178, 196));
    out.push(lay_gleam(trig, cx, cy, spin));
    out.push(lay_gleam(trig, cx, cy, spin + 2048));
    push_fan(&mut out, trig, cx, cy, 4, 8, (226, 232, 244));
    push_fan(&mut out, trig, cx, cy, 2, 8, (24, 28, 44));
    assert(out@ =~= disc_shapes(trig.model(), cx as int, cy as int, tick));
    out
}

/// How far the plate still is from its seat: out at the first tick, home by the
/// tenth, and out again over the last ten.
pub open spec fn slide(travel: int, elapsed: int) -> int {
    let left = BANNER_TICKS - elapsed;
    if elapsed < MENU_SWEEP_TICKS {
        (travel * (MENU_SWEEP_TICKS - elapsed)) / (MENU_SWEEP_TICKS as int)
    } else if left < MENU_SWEEP_TICKS {
        (travel * (MENU_SWEEP_TICKS - left)) / (MENU_SWEEP_TICKS as int)
    } else {
        0
    }
}

/// How wide the banner's type is.
pub open spec fn banner_width<M: Fn(Font, Text) -> u16>(f: &Type<M>, name: &'static str) -> int {
    num::max(
        f.width(Font::Small, Text::Word("NOW PLAYING")) as int,
        f.width(Font::Small, Text::Word(name)) as int,
    )
}

/// Left end of the plate, at home.
pub open spec fn banner_x<M: Fn(Font, Text) -> u16>(f: &Type<M>, name: &'static str) -> int {
    274 - banner_width(f, name)
}

/// How far the plate is shifted this tick.
pub open spec fn banner_off<M: Fn(Font, Text) -> u16>(
    f: &Type<M>,
    name: &'static str,
    elapsed: int,
) -> int {
    slide(320 - banner_x(f, name), elapsed)
}

/// The plate: the menu row's shear and gradient, run past the screen's edge.
pub open spec fn banner_plate(x0: int, off: int) -> Seq<Shape> {
    let hi = (40, 46, 66);
    let lo = (24, 28, 44);
    let tl = ((x0 + 9 + off) as i16, 25i16);
    let tr = ((329 + off) as i16, 25i16);
    let bl = ((x0 + off) as i16, 55i16);
    let br = ((329 + off) as i16, 55i16);
    seq![Shape::Tri(tl, tr, bl, (hi, hi, lo)), Shape::Tri(bl, tr, br, (lo, hi, lo))]
}

/// The banner's type.
pub open spec fn banner_words<M: Fn(Font, Text) -> u16>(
    f: &Type<M>,
    name: &'static str,
    off: int,
) -> Seq<Label> {
    let head = Text::Word("NOW PLAYING");
    let title = Text::Word(name);
    seq![
        hud::shadowed(
            Font::Small,
            312 - f.width(Font::Small, head) + off,
            30,
            head,
            (146, 202, 255),
        ),
        hud::shadowed(
            Font::Small,
            312 - f.width(Font::Small, title) + off,
            42,
            title,
            (255, 255, 255),
        ),
    ]
}

fn slide_by(travel: i32, elapsed: u32) -> (r: i32)
    requires
        0 <= travel <= 2000,
        elapsed <= BANNER_TICKS,
    ensures
        r == slide(travel as int, elapsed as int),
        0 <= r <= travel,
{
    let sweep: i32 = MENU_SWEEP_TICKS as i32;
    let gone: i32 = elapsed as i32;
    let left: i32 = BANNER_TICKS as i32 - gone;
    let k: i32 = if gone < sweep {
        sweep - gone
    } else if left < sweep {
        sweep - left
    } else {
        0
    };
    assert(0 <= travel * k <= travel * 10) by (nonlinear_arith)
        requires
            0 <= travel,
            0 <= k <= 10,
    ;
    assert(k == 0 ==> travel * k == 0) by (nonlinear_arith);
    travel * k / sweep
}

/// The now-playing popup, while a song's start is fresh: the plate with its
/// disc, and the type. It slides in from the right and back out.
pub fn draw_now_playing<F: Fn(i32, i32) -> u16, M: Fn(Font, Text) -> u16>(
    game: &Game,
    trig: &Trig<F>,
    face: &Type<M>,
    tick: u32,
) -> (r: Option<(Vec<Shape>, Vec<Label>)>)
    requires
        trig.wf(),
        face.wf(),
        game.music.wf(),
    ensures
        r is Some <==> music::playable(game.music) && (game.music.announced_at matches Some(at)
            && music::ticks_since(tick, at) <= BANNER_TICKS),
        r matches Some(drawn) ==> {
            let name = music::song_title(game.music.index);
            let elapsed = music::ticks_since(tick, game.music.announced_at.unwrap());
            let x0 = banner_x(face, name);
            let off = banner_off(face, name, elapsed);
            &&& drawn.0@ == banner_plate(x0, off) + disc_shapes(
                trig.model(),
                x0 + 23 + off,
                40,
                tick,
            )
            &&& drawn.1@ == banner_words(face, name, off)
        },
{
    match game.music.now_playing(tick) {
        None => None,
        Some((name, elapsed)) => {
            let head = Text::Word("NOW PLAYING");
            let title = Text::Word(name);
            let hw: i16 = face.text_width(Font::Small, head);
            let nw: i16 = face.text_width(Font::Small, title);
            let tw: i16 = if hw > nw {
                hw
            } else {
                nw
            };
            let x0: i16 = SCREEN_W - 8 - tw - 38;
            let off: i16 = slide_by((SCREEN_W - x0) as i32, elapsed) as i16;
            let hi: Rgb = (40, 46, 66);
            let lo: Rgb = (24, 28, 44);
            let tl: (i16, i16) = (x0 + MENU_SLANT + off, 25);
            let tr: (i16, i16) = (SCREEN_W + MENU_SLANT + off, 25);
            let bl: (i16, i16) = (x0 + off, 55);
            let br: (i16, i16) = (SCREEN_W + MENU_SLANT + off, 55);
            let mut shapes: Vec<Shape> = Vec::new();
            shapes.push(Shape::Tri(tl, tr, bl, (hi, hi, lo)));
            shapes.push(Shape::Tri(bl, tr, br, (lo, hi, lo)));
            assert(shapes@ =~= banner_plate(x0 as int, off as int));
            let mut disc = draw_disc(trig, x0 + 23 + off, 40, tick);
            shapes.append(&mut disc);
            let mut words: Vec<Label> = Vec::new();
            words.push(cast_shadow(Font::Small, SCREEN_W - 8 - hw + off, 30, head, (146, 202, 255)));
            words.push(
                cast_shadow(Font::Small, SCREEN_W - 8 - nw + off, 42, title, (255, 255, 255)),
            );
            assert(words@ =~= banner_words(face, name, off as int));
            Some((shapes, words))
        },
    }
}

// ---- the select screen -----------------------------------------------------

/// Top of a seat's labels.
pub const SELECT_TOP: i16 = 134;
/// Distance between a seat's rows.
pub const SELECT_ROW_STEP: i16 = 20;
/// Top of the shared arena bar.
pub const SELECT_ARENA_Y: i16 = 188;
/// Top of the shared win-condition bar.
pub const SELECT_RULE_Y: i16 = 208;
/// How far out from the centre the arrows sit.
pub const SELECT_ARROW: i16 = 52;

/// Somebody is editing this seat. With two pads both are live.
pub open spec fn live(g: Game, seat: int) -> bool {
    g.two_player || seat == g.focus
}

/// A seat shows as locked in. Nobody readies the opponent up.
pub open spec fn shown_ready(g: Game, seat: int) -> bool {
    game::seat_of(g, seat).ready && (g.two_player || seat == 0)
}

/// Column a seat's panel is centred on.
pub open spec fn seat_column(g: Game, seat: int) -> int {
    if game::alone(g) {
        160
    } else {
        panels::stage_screen_x(seat, true)
    }
}

/// A seat's heading.
pub open spec fn seat_heading<M: Fn(Font, Text) -> u16>(
    f: &Type<M>,
    g: Game,
    seat: int,
) -> Label {
    let ready = shown_ready(g, seat);
    hud::centred(
        f,
        Font::Small,
        seat_column(g, seat),
        134,
        Text::Word(
            if ready {
                "READY"
            } else {
                hud::name_of(seat, g.two_player)
            },
        ),
        if ready {
            (140, 240, 160)
        } else if live(g, seat) {
            (255, 210, 110)
        } else {
            (120, 130, 152)
        },
    )
}

/// The arrows either side of a lit row.
pub open spec fn arrows(cx: int, y: int, lit: bool) -> Seq<Label> {
    if lit {
        seq![
            hud::shadowed(Font::Small, cx - 52, y, Text::Word("<"), hud::arrow_gold()),
            hud::shadowed(Font::Small, cx + 46, y, Text::Word(">"), hud::arrow_gold()),
        ]
    } else {
        Seq::empty()
    }
}

/// One row: a value on its column, with arrows while it is lit.
#[verifier::opaque]
pub open spec fn rowed<M: Fn(Font, Text) -> u16>(
    f: &Type<M>,
    cx: int,
    y: int,
    label: &'static str,
    lit: bool,
) -> Seq<Label> {
    arrows(cx, y, lit) + seq![
        hud::centred(f, Font::Small, cx, y, Text::Word(label), hud::row_tint(lit)),
    ]
}

/// One of a seat's own rows: its car, or its paint.
pub open spec fn choice<M: Fn(Font, Text) -> u16>(
    f: &Type<M>,
    g: Game,
    seat: int,
    row: int,
) -> Seq<Label> {
    let s = game::seat_of(g, seat);
    let cx = seat_column(g, seat);
    let y = 152 + row * 20;
    let lit = live(g, seat) && !s.ready && row == s.row;
    let value = if row == 0 {
        colour::car_title(s.car as int)
    } else {
        colour::paint_title(s.paint as int)
    };
    rowed(f, cx, y, value, lit)
}

/// A seat's whole panel.
#[verifier::opaque]
pub open spec fn seat_words<M: Fn(Font, Text) -> u16>(
    f: &Type<M>,
    g: Game,
    seat: int,
) -> Seq<Label> {
    seq![seat_heading(f, g, seat)] + choice(f, g, seat, 0) + choice(f, g, seat, 1)
}

/// Somebody who has not locked in stands on a shared row.
pub open spec fn shared_lit(g: Game, row: int) -> bool {
    ||| live(g, 0) && !shown_ready(g, 0) && g.one.row == row
    ||| live(g, 1) && !shown_ready(g, 1) && g.two.row == row
}

/// What the shared arena row says.
pub open spec fn arena_word(t: ArenaTime) -> &'static str {
    match t {
        ArenaTime::Day => "ARENA: DAY",
        ArenaTime::Sunset => "ARENA: SUNSET",
        ArenaTime::Night => "ARENA: NIGHT",
    }
}

/// What the shared win-condition row says.
pub open spec fn rule_word(i: int) -> &'static str {
    if i == 0 {
        "TIME: 1:00"
    } else if i == 1 {
        "TIME: 3:00"
    } else if i == 2 {
        "TIME: 5:00"
    } else if i == 3 {
        "FIRST TO: 1"
    } else if i == 4 {
        "FIRST TO: 3"
    } else {
        "FIRST TO: 5"
    }
}

/// What to do next.
pub open spec fn hint_word(g: Game) -> &'static str {
    if game::locked_in(g) {
        "STARTING"
    } else if g.two_player || game::alone(g) {
        "X READY"
    } else {
        "L1/R1 SWAP  X READY"
    }
}

/// The hint, which blinks.
#[verifier::opaque]
pub open spec fn hint<M: Fn(Font, Text) -> u16>(f: &Type<M>, g: Game, tick: u32) -> Seq<Label> {
    if (tick as int / 32) % 2 == 0 {
        seq![
            hud::centred(f, Font::Small, 160, 229, Text::Word(hint_word(g)), (240, 240, 160)),
        ]
    } else {
        Seq::empty()
    }
}

/// The whole select screen.
pub open spec fn select_words<M: Fn(Font, Text) -> u16>(
    f: &Type<M>,
    g: Game,
    tick: u32,
) -> Seq<Label> {
    let head = seq![
        hud::shadowed(Font::Display, 10, 6, Text::Word("SELECT"), (146, 202, 255)),
    ];
    let seats = if game::alone(g) {
        seat_words(f, g, 0)
    } else {
        seat_words(f, g, 0) + seat_words(f, g, 1)
    };
    head + seats + rowed(f, 160, 192, arena_word(g.arena_time), shared_lit(g, 2))
        + rowed(f, 160, 212, rule_word(g.match_rule as int), shared_lit(g, 3)) + hint(f, g, tick)
}

fn push_row<M: Fn(Font, Text) -> u16>(
    out: &mut Vec<Label>,
    face: &Type<M>,
    cx: i16,
    y: i16,
    label: &'static str,
    lit: bool,
)
    requires
        face.wf(),
        0 <= cx <= 320,
    ensures
        final(out)@ == old(out)@ + rowed(face, cx as int, y as int, label, lit),
{
    let ghost before = out@;
    if lit {
        out.push(cast_shadow(Font::Small, cx - SELECT_ARROW, y, Text::Word("<"), (255, 210, 110)));
        out.push(
            cast_shadow(Font::Small, cx + SELECT_ARROW - 6, y, Text::Word(">"), (255, 210, 110)),
        );
    }
    out.push(centre(face, Font::Small, cx, y, Text::Word(label), tint_row(lit)));
    proof {
        reveal(rowed);
    }
    assert(out@ =~= before + rowed(face, cx as int, y as int, label, lit));
}

fn push_seat<M: Fn(Font, Text) -> u16>(
    out: &mut Vec<Label>,
    game: &Game,
    face: &Type<M>,
    seat: usize,
)
    requires
        face.wf(),
        game.wf(),
        seat < 2,
    ensures
        final(out)@ == old(out)@ + seat_words(face, *game, seat as int),
{
    let ghost before = out@;
    let s: Seat = if seat == 0 {
        game.one
    } else {
        game.two
    };
    let cx: i16 = if game.select_solo() {
        SCREEN_W / 2
    } else {
        stage_car_screen_x(seat, true)
    };
    let on = game.two_player || seat == game.focus;
    let ready = s.ready && (game.two_player || seat == 0);
    let word: &'static str = if ready {
        "READY"
    } else {
        seat_name(game, seat)
    };
    let tint: Rgb = if ready {
        (140, 240, 160)
    } else if on {
        (255, 210, 110)
    } else {
        (120, 130, 152)
    };
    out.push(centre(face, Font::Small, cx, SELECT_TOP, Text::Word(word), tint));
    let ghost first = out@;
    push_row(out, face, cx, 152, car_name(s.car), on && !s.ready && s.row == 0);
    push_row(out, face, cx, 172, paint_name(s.paint), on && !s.ready && s.row == 1);
    proof {
        reveal(seat_words);
    }
    assert(first =~= before + seq![seat_heading(face, *game, seat as int)]);
    assert(out@ =~= before + seat_words(face, *game, seat as int));
}

fn on_shared(game: &Game, row: usize) -> (r: bool)
    ensures
        r == shared_lit(*game, row as int),
{
    let one = (game.two_player || game.focus == 0) && !game.one.ready && game.one.row == row;
    let two = (game.two_player || game.focus == 1) && !(game.two.ready && game.two_player)
        && game.two.row == row;
    one || two
}

fn rule_name(i: usize) -> (r: &'static str)
    ensures
        r == rule_word(i as int),
{
    match i {
        0 => "TIME: 1:00",
        1 => "TIME: 3:00",
        2 => "TIME: 5:00",
        3 => "FIRST TO: 1",
        4 => "FIRST TO: 3",
        _ => "FIRST TO: 5",
    }
}

fn push_hint<M: Fn(Font, Text) -> u16>(
    out: &mut Vec<Label>,
    game: &Game,
    face: &Type<M>,
    tick: u32,
)
    requires
        face.wf(),
    ensures
        final(out)@ == old(out)@ + hint(face, *game, tick),
{
    proof {
        reveal(hint);
    }
    let ghost before = out@;
    if (tick / 32) % 2 == 0 {
        let word: &'static str = if game.all_ready() {
            "STARTING"
        } else if game.two_player || game.select_solo() {
            "X READY"
        } else {
            "L1/R1 SWAP  X READY"
        };
        out.push(centre(face, Font::Small, SCREEN_W / 2, 229, Text::Word(word), (240, 240, 160)));
    }
    assert(out@ =~= before + hint(face, *game, tick));
}

/// The select screen's type: a panel a seat under the car it drives, the two
/// shared rows, and a hint. Practice with one pad shows seat 0 alone.
pub fn draw_select<M: Fn(Font, Text) -> u16>(
    game: &Game,
    face: &Type<M>,
    tick: u32,
) -> (r: Vec<Label>)
    requires
        face.wf(),
        game.wf(),
    ensures
        r@ == select_words(face, *game, tick),
{
    let mut out: Vec<Label> = Vec::new();
    out.push(cast_shadow(Font::Display, 10, 6, Text::Word("SELECT"), (146, 202, 255)));
    let solo = game.select_solo();
    push_seat(&mut out, game, face, 0);
    if !solo {
        push_seat(&mut out, game, face, 1);
    }
    let arena: &'static str = match game.arena_time {
        ArenaTime::Day => "ARENA: DAY",
        ArenaTime::Sunset => "ARENA: SUNSET",
        ArenaTime::Night => "ARENA: NIGHT",
    };
    push_row(&mut out, face, SCREEN_W / 2, SELECT_ARENA_Y + 4, arena, on_shared(game, ROW_ARENA));
    push_row(
        &mut out,
        face,
        SCREEN_W / 2,
        SELECT_RULE_Y + 4,
        rule_name(game.match_rule),
        on_shared(game, ROW_RULE),
    );
    push_hint(&mut out, game, face, tick);
    assert(out@ =~= select_words(face, *game, tick));
    out
}

/// The splash is dark at either end and full in the middle, and a letter is
/// never brighter than it.
pub proof fn law_splash_fades_in_and_out(t: int)
    requires
        0 <= t <= INTRO_TOTAL,
    ensures
        intro_level(0) == 0,
        intro_level(INTRO_TOTAL as int) == 0,
        INTRO_FADE_IN <= t < INTRO_FADE_IN + INTRO_HOLD ==> intro_level(t) == 128,
        0 <= intro_level(t) <= 128,
{
}

/// The plate starts and ends off the screen, and stands still between.
pub proof fn law_banner_slides_home(travel: int, elapsed: int)
    requires
        0 <= travel,
        0 <= elapsed <= BANNER_TICKS,
    ensures
        slide(travel, 0) == travel,
        slide(travel, BANNER_TICKS as int) == travel,
        MENU_SWEEP_TICKS <= elapsed <= BANNER_TICKS - MENU_SWEEP_TICKS ==> slide(travel, elapsed)
            == 0,
{
    assert((travel * 10) / 10 == travel) by (nonlinear_arith);
}

} // verus!
