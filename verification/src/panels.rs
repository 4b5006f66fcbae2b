//! The front end's furniture: where the menu rows and the staged cars stand,
//! and the fascia drawn under the type.

use vstd::prelude::*;
use crate::colour;
use crate::colour::{mix, Livery, PAINTS};
use crate::num;
use crate::num::clamp_i32;
use crate::view::{Rgb, PROJ_H, SCREEN_W};

verus! {

/// Rows in the front end's list.
pub const MENU_ROWS: usize = 3;
/// Left edge of a menu row.
pub const MENU_X: i16 = 10;
/// Width of a menu row.
pub const MENU_W: i16 = 164;
/// Top of the first menu row.
pub const MENU_TOP: i16 = 156;
/// Distance between menu rows.
pub const MENU_STEP: i16 = 25;
/// Height of a menu row's panel.
pub const MENU_ROW_H: i16 = 21;
/// How far the top edge of a panel leads its bottom edge.
pub const MENU_SLANT: i16 = 9;
/// Ticks the highlight takes to cross a row.
pub const MENU_SWEEP_TICKS: u32 = 10;

/// Depth slot of the gold nib.
pub const UI_NIB_SLOT: usize = 0;
/// Depth slot of the sweeping highlight.
pub const UI_FILL_SLOT: usize = 1;
/// Depth slot of the unlit plate.
pub const UI_PANEL_SLOT: usize = 2;

/// How far the front-end camera stands back from the stage.
pub const STAGE_CAM_BACK: i32 = 520;
/// How far up it stands.
pub const STAGE_CAM_UP: i32 = 150;
/// How far it looks down.
pub const STAGE_CAM_PITCH: u16 = 168;
/// How far down the pitch the stage stands.
pub const STAGE_Z: i32 = 0;
/// How far each seat's car stands from the middle on the select screen.
pub const STAGE_PAIR_X: i32 = 150;
/// How far right of centre the one car on the title screen stands.
pub const STAGE_SOLO_X: i32 = 150;

/// Width of a select-screen bar.
pub const SELECT_W: i16 = 128;
/// Height of a select-screen bar.
pub const SELECT_H: i16 = 18;

/// A filled quad on the screen, corners in Z order, one colour each. Nearer
/// slots are drawn over further ones.
#[derive(Copy, Clone, Debug, PartialEq, Eq)]
pub struct ScreenQuad {
    /// Depth slot.
    pub slot: usize,
    /// Top left corner.
    pub a: (i16, i16),
    /// Top right corner.
    pub b: (i16, i16),
    /// Bottom left corner.
    pub c: (i16, i16),
    /// Bottom right corner.
    pub d: (i16, i16),
    /// Colours at the corners, in the same order.
    pub tint: (Rgb, Rgb, Rgb, Rgb),
}

/// What the front-end row list should look like.
#[derive(Copy, Clone, Debug, PartialEq, Eq, Structural)]
pub struct MenuRows {
    /// The highlighted row.
    pub selected: usize,
    /// How many rows to draw.
    pub rows: usize,
    /// How far the highlight has swept across the selected row, Q12.
    pub fill: i32,
}

/// One seat's column on the select screen.
#[derive(Copy, Clone, Debug, PartialEq, Eq, Structural)]
pub struct SeatPanel {
    /// The seat is presently controlled.
    pub live: bool,
    /// The seat has locked in: it loses its highlight and gets a green plate.
    pub ready: bool,
    /// The row the seat has selected.
    pub selected: usize,
}

/// What the select screen's fascia should look like.
#[derive(Copy, Clone, Debug, PartialEq, Eq, Structural)]
pub struct SelectPanels {
    /// Screen Y of the seat headings. Each bar derives its Y from this.
    pub top: i16,
    /// Vertical distance between the car and paint bars.
    pub row_step: i16,
    /// Screen Y of the shared arena bar.
    pub arena_y: i16,
    /// Screen Y of the shared win-condition bar.
    pub rule_y: i16,
    /// Seat 0's column.
    pub one: SeatPanel,
    /// Seat 1's column.
    pub two: SeatPanel,
    /// Both seats staged, or seat 0 alone.
    pub pair: bool,
}

/// Which fascia the front end lays over its live arena.
#[derive(Copy, Clone, Debug, PartialEq, Eq, Structural)]
pub enum FrontPanels {
    /// The row list.
    Title(MenuRows),
    /// The select screen.
    Select(SelectPanels),
}

// ---- where things stand ----------------------------------------------------

/// Top of a menu row's panel.
pub open spec fn row_top(row: int) -> int {
    MENU_TOP + row * MENU_STEP
}

/// Screen Y of the top edge of a menu row's panel.
pub fn menu_row_y(row: usize) -> (r: i16)
    requires
        row <= 1300,
    ensures
        r == row_top(row as int),
{
    MENU_TOP + row as i16 * MENU_STEP
}

/// How far the highlight has crossed its row.
pub open spec fn swept(elapsed: int) -> int {
    (num::min(elapsed, MENU_SWEEP_TICKS as int) * 4096) / (MENU_SWEEP_TICKS as int)
}

/// How far the highlight has crossed its row, Q12, `elapsed` ticks after the
/// selection last moved.
pub fn menu_sweep(elapsed: u32) -> (r: i32)
    ensures
        r == swept(elapsed as int),
        0 <= r <= 4096,
{
    let t: u32 = if elapsed < MENU_SWEEP_TICKS {
        elapsed
    } else {
        MENU_SWEEP_TICKS
    };
    ((t * 4096) / MENU_SWEEP_TICKS) as i32
}

/// Where a seat's car stands on the stage.
pub open spec fn stage_x(seat: int, pair: bool) -> int {
    if !pair {
        STAGE_SOLO_X as int
    } else if seat == 0 {
        -STAGE_PAIR_X as int
    } else {
        STAGE_PAIR_X as int
    }
}

/// Where the front end parks a seat's car, in world uu.
pub fn stage_car_x(seat: usize, pair: bool) -> (r: i32)
    ensures
        r == stage_x(seat as int, pair),
{
    if !pair {
        return STAGE_SOLO_X;
    }
    if seat == 0 {
        -STAGE_PAIR_X
    } else {
        STAGE_PAIR_X
    }
}

/// Where a staged car lands on screen.
pub open spec fn stage_screen_x(seat: int, pair: bool) -> int {
    160 + num::tdiv(PROJ_H * stage_x(seat, pair), STAGE_CAM_BACK as int)
}

/// Screen X a staged car projects to, for the overlay to line its panel up
/// with.
pub fn stage_car_screen_x(seat: usize, pair: bool) -> (r: i16)
    ensures
        r == stage_screen_x(seat as int, pair),
        r == if pair && seat == 0 {
            85
        } else {
            235int
        },
{
    let x: i32 = stage_car_x(seat, pair);
    (SCREEN_W as i32 / 2 + PROJ_H * x / STAGE_CAM_BACK) as i16
}

// ---- the row list ----------------------------------------------------------

/// The two shades of an unlit plate.
pub open spec fn plate() -> (Rgb, Rgb) {
    ((40, 46, 66), (24, 28, 44))
}

/// The two shades of the highlight.
pub open spec fn lit() -> (Rgb, Rgb) {
    ((92, 200, 242), (46, 138, 190))
}

/// The gold of a nib.
pub open spec fn gold() -> Rgb {
    (255, 232, 150)
}

/// A sheared bar: the top edge leads the bottom one by `lead`.
pub open spec fn bar(
    slot: usize,
    x: int,
    y: int,
    w: int,
    h: int,
    lead: int,
    top: Rgb,
    bottom: Rgb,
) -> ScreenQuad {
    ScreenQuad {
        slot,
        a: ((x + lead) as i16, y as i16),
        b: ((x + w + lead) as i16, y as i16),
        c: (x as i16, (y + h) as i16),
        d: ((x + w) as i16, (y + h) as i16),
        tint: (top, top, bottom, bottom),
    }
}

/// The panels of one menu row: the plate, and on the selected row the sweep and
/// the nib over it.
pub open spec fn row_panels(row: int, menu: MenuRows) -> Seq<ScreenQuad> {
    let y = row_top(row);
    let base = seq![
        bar(
            UI_PANEL_SLOT,
            MENU_X as int,
            y,
            MENU_W as int,
            MENU_ROW_H as int,
            MENU_SLANT as int,
            plate().0,
            plate().1,
        ),
    ];
    if row != menu.selected {
        base
    } else {
        base + seq![
            bar(
                UI_FILL_SLOT,
                MENU_X as int,
                y,
                (MENU_W * num::clamp(menu.fill as int, 0, 4096)) / 4096,
                MENU_ROW_H as int,
                MENU_SLANT as int,
                lit().0,
                lit().1,
            ),
            bar(
                UI_NIB_SLOT,
                MENU_X as int,
                y,
                5,
                MENU_ROW_H as int,
                MENU_SLANT as int,
                gold(),
                gold(),
            ),
        ]
    }
}

/// The panels of the first `n` menu rows.
pub open spec fn list_panels(n: nat, menu: MenuRows) -> Seq<ScreenQuad>
    decreases n,
{
    if n == 0 {
        Seq::empty()
    } else {
        list_panels((n - 1) as nat, menu) + row_panels(n - 1, menu)
    }
}

/// How many rows of a list are drawn.
pub open spec fn rows_drawn(menu: MenuRows) -> nat {
    if menu.rows < MENU_ROWS {
        menu.rows as nat
    } else {
        MENU_ROWS as nat
    }
}

fn sheared(
    slot: usize,
    x: i16,
    y: i16,
    w: i16,
    h: i16,
    lead: i16,
    top: Rgb,
    bottom: Rgb,
) -> (r: ScreenQuad)
    requires
        -8192 <= x <= 8192,
        -8192 <= y <= 8192,
        0 <= w <= 1024,
        0 <= h <= 1024,
        -1024 <= lead <= 1024,
    ensures
        r == bar(slot, x as int, y as int, w as int, h as int, lead as int, top, bottom),
{
    ScreenQuad {
        slot,
        a: (x + lead, y),
        b: (x + w + lead, y),
        c: (x, y + h),
        d: (x + w, y + h),
        tint: (top, top, bottom, bottom),
    }
}

/// Panels for the front-end row list. Every row gets the unlit plate, the
/// selected one included: the highlight is drawn over it and may not have
/// reached the far end yet.
pub fn menu_panels(menu: &MenuRows) -> (r: Vec<ScreenQuad>)
    ensures
        r@ == list_panels(rows_drawn(*menu), *menu),
{
    let rows: usize = if menu.rows < MENU_ROWS {
        menu.rows
    } else {
        MENU_ROWS
    };
    let mut out: Vec<ScreenQuad> = Vec::new();
    let mut row: usize = 0;
    while row < rows
        invariant
            row <= rows <= MENU_ROWS,
            out@ == list_panels(row as nat, *menu),
        decreases rows - row,
    {
        let ghost before = out@;
        let y: i16 = menu_row_y(row);
        out.push(
            sheared(
                UI_PANEL_SLOT,
                MENU_X,
                y,
                MENU_W,
                MENU_ROW_H,
                MENU_SLANT,
                (40, 46, 66),
                (24, 28, 44),
            ),
        );
        if row == menu.selected {
            let w: i16 = (MENU_W as i32 * clamp_i32(menu.fill, 0, 4096) / 4096) as i16;
            out.push(
                sheared(
                    UI_FILL_SLOT,
                    MENU_X,
                    y,
                    w,
                    MENU_ROW_H,
                    MENU_SLANT,
                    (92, 200, 242),
                    (46, 138, 190),
                ),
            );
            out.push(
                sheared(
                    UI_NIB_SLOT,
                    MENU_X,
                    y,
                    5,
                    MENU_ROW_H,
                    MENU_SLANT,
                    (255, 232, 150),
                    (255, 232, 150),
                ),
            );
        }
        assert(out@ =~= before + row_panels(row as int, *menu));
        row += 1;
    }
    out
}

// ---- the select screen -----------------------------------------------------

/// The two shades of a seat's plates.
pub open spec fn seat_plate(p: SeatPanel) -> (Rgb, Rgb) {
    if p.ready {
        ((34, 72, 58), (20, 44, 36))
    } else if p.live {
        ((40, 46, 66), (24, 28, 44))
    } else {
        ((28, 32, 46), (16, 19, 31))
    }
}

/// The seat's highlight stands on this row.
pub open spec fn seat_on(p: SeatPanel, row: int) -> bool {
    p.live && !p.ready && p.selected == row
}

/// Screen X a seat's column is centred on.
pub open spec fn column(seat: int, pair: bool) -> int {
    if pair {
        stage_screen_x(seat, true)
    } else {
        160
    }
}

/// A plain rectangle of one colour.
pub open spec fn block(slot: usize, x: int, y: int, w: int, h: int, c: Rgb) -> ScreenQuad {
    bar(slot, x, y, w, h, 0, c, c)
}

/// The panels of one row of a seat's column.
pub open spec fn option_panels(
    l: Livery,
    p: SelectPanels,
    seat: int,
    row: int,
) -> Seq<ScreenQuad> {
    let panel = if seat == 0 {
        p.one
    } else {
        p.two
    };
    let cx = column(seat, p.pair);
    let x = cx - 64;
    let lead = if seat == 0 {
        MENU_SLANT as int
    } else {
        -MENU_SLANT as int
    };
    let y = p.top + 14 + row * p.row_step;
    let (top, bottom) = seat_plate(panel);
    let paint = PAINTS@[if seat == 0 {
        l.one
    } else {
        l.two
    } as int];
    let base = seq![bar(UI_PANEL_SLOT, x, y, 128, 18, lead, top, bottom)];
    let highlight = if seat_on(panel, row) {
        seq![
            bar(
                UI_FILL_SLOT,
                x,
                y,
                128,
                18,
                lead,
                colour::mixed(lit().0, l.signal_of(seat), 5),
                colour::mixed(lit().1, l.signal_of(seat), 5),
            ),
            bar(
                UI_NIB_SLOT,
                if seat == 0 {
                    x
                } else {
                    x + 123
                },
                y,
                5,
                18,
                lead,
                gold(),
                gold(),
            ),
        ]
    } else {
        Seq::empty()
    };
    let swatch = if row == 1 {
        seq![
            block(UI_NIB_SLOT, cx - 16, y + 15, 16, 3, paint.0),
            block(UI_NIB_SLOT, cx, y + 15, 16, 3, paint.1),
        ]
    } else {
        Seq::empty()
    };
    base + highlight + swatch
}

/// The panels of a seat's column.
pub open spec fn seat_panels(l: Livery, p: SelectPanels, seat: int) -> Seq<ScreenQuad> {
    option_panels(l, p, seat, 0) + option_panels(l, p, seat, 1)
}

/// A symmetric trapezoid: both player cards' shears at once, so it belongs to
/// neither seat.
pub open spec fn trapezoid(slot: usize, y: int, top: Rgb, bottom: Rgb) -> ScreenQuad {
    ScreenQuad {
        slot,
        a: (105, y as i16),
        b: (215, y as i16),
        c: (96, (y + 18) as i16),
        d: (224, (y + 18) as i16),
        tint: (top, top, bottom, bottom),
    }
}

/// The panels of one shared bar. A left or right nib records which seat has it;
/// with both on it, both edges light.
pub open spec fn shared_panels(p: SelectPanels, y: int, row: int) -> Seq<ScreenQuad> {
    let one = seat_on(p.one, row);
    let two = seat_on(p.two, row);
    let base = seq![trapezoid(UI_PANEL_SLOT, y, plate().0, plate().1)];
    let fill = if one || two {
        seq![trapezoid(UI_FILL_SLOT, y, lit().0, lit().1)]
    } else {
        Seq::empty()
    };
    let left = if one {
        seq![bar(UI_NIB_SLOT, 96, y, 5, 18, 9, gold(), gold())]
    } else {
        Seq::empty()
    };
    let right = if two {
        seq![bar(UI_NIB_SLOT, 219, y, 5, 18, -9, gold(), gold())]
    } else {
        Seq::empty()
    };
    base + fill + left + right
}

/// The panels of the whole select screen.
pub open spec fn select_fascia(l: Livery, p: SelectPanels) -> Seq<ScreenQuad> {
    let seats = if p.pair {
        seat_panels(l, p, 0) + seat_panels(l, p, 1)
    } else {
        seat_panels(l, p, 0)
    };
    seats + shared_panels(p, p.arena_y as int, 2) + shared_panels(p, p.rule_y as int, 3)
}

/// Appends the panels of one row of a seat's column.
fn push_option(
    out: &mut Vec<ScreenQuad>,
    livery: &Livery,
    panels: &SelectPanels,
    seat: usize,
    row: usize,
)
    requires
        livery.wf(),
        seat < 2,
        row < 2,
        -4096 <= panels.top <= 4096,
        -2048 <= panels.row_step <= 2048,
    ensures
        final(out)@ == old(out)@ + option_panels(*livery, *panels, seat as int, row as int),
{
    let panel = if seat == 0 {
        panels.one
    } else {
        panels.two
    };
    let cx: i16 = if panels.pair {
        stage_car_screen_x(seat, true)
    } else {
        SCREEN_W / 2
    };
    let x: i16 = cx - SELECT_W / 2;
    let lead: i16 = if seat == 0 {
        MENU_SLANT
    } else {
        -MENU_SLANT
    };
    let step: i16 = if row == 0 {
        0
    } else {
        panels.row_step
    };
    let y: i16 = panels.top + 14 + step;
    let plates: (Rgb, Rgb) = if panel.ready {
        ((34, 72, 58), (20, 44, 36))
    } else if panel.live {
        ((40, 46, 66), (24, 28, 44))
    } else {
        ((28, 32, 46), (16, 19, 31))
    };
    let ghost before = out@;
    assert(y == panels.top + 14 + row * panels.row_step) by {
        assert(row == 0 || row == 1);
    }
    out.push(sheared(UI_PANEL_SLOT, x, y, SELECT_W, SELECT_H, lead, plates.0, plates.1));
    if panel.live && !panel.ready && panel.selected == row {
        let signal = livery.seat_signal(seat);
        let hi = mix((92, 200, 242), signal, 5);
        let lo = mix((46, 138, 190), signal, 5);
        out.push(sheared(UI_FILL_SLOT, x, y, SELECT_W, SELECT_H, lead, hi, lo));
        let nib: i16 = if seat == 0 {
            x
        } else {
            x + SELECT_W - 5
        };
        out.push(
            sheared(UI_NIB_SLOT, nib, y, 5, SELECT_H, lead, (255, 232, 150), (255, 232, 150)),
        );
    }
    if row == 1 {
        let which: usize = if seat == 0 {
            livery.one
        } else {
            livery.two
        };
        let paint = PAINTS[which];
        let sy: i16 = y + SELECT_H - 3;
        out.push(sheared(UI_NIB_SLOT, cx - 16, sy, 16, 3, 0, paint.0, paint.0));
        out.push(sheared(UI_NIB_SLOT, cx, sy, 16, 3, 0, paint.1, paint.1));
    }
    assert(out@ =~= before + option_panels(*livery, *panels, seat as int, row as int));
}

/// Appends the panels of one shared bar.
fn push_shared(out: &mut Vec<ScreenQuad>, panels: &SelectPanels, y: i16, row: usize)
    requires
        -8192 <= y <= 8192,
    ensures
        final(out)@ == old(out)@ + shared_panels(*panels, y as int, row as int),
{
    let ghost before = out@;
    let one = panels.one.live && !panels.one.ready && panels.one.selected == row;
    let two = panels.two.live && !panels.two.ready && panels.two.selected == row;
    let plain: (Rgb, Rgb) = ((40, 46, 66), (24, 28, 44));
    out.push(
        ScreenQuad {
            slot: UI_PANEL_SLOT,
            a: (105, y),
            b: (215, y),
            c: (96, y + SELECT_H),
            d: (224, y + SELECT_H),
            tint: (plain.0, plain.0, plain.1, plain.1),
        },
    );
    if one || two {
        let hot: (Rgb, Rgb) = ((92, 200, 242), (46, 138, 190));
        out.push(
            ScreenQuad {
                slot: UI_FILL_SLOT,
                a: (105, y),
                b: (215, y),
                c: (96, y + SELECT_H),
                d: (224, y + SELECT_H),
                tint: (hot.0, hot.0, hot.1, hot.1),
            },
        );
    }
    if one {
        out.push(
            sheared(UI_NIB_SLOT, 96, y, 5, SELECT_H, 9, (255, 232, 150), (255, 232, 150)),
        );
    }
    if two {
        out.push(
            sheared(UI_NIB_SLOT, 219, y, 5, SELECT_H, -9, (255, 232, 150), (255, 232, 150)),
        );
    }
    assert(out@ =~= before + shared_panels(*panels, y as int, row as int));
}

/// Panels for the select screen: two option bars a seat under the car it
/// drives, player one's leaning with the title rows and player two's mirrored,
/// and the two shared bars between them.
pub fn select_panels(livery: &Livery, panels: &SelectPanels) -> (r: Vec<ScreenQuad>)
    requires
        livery.wf(),
        -4096 <= panels.top <= 4096,
        -2048 <= panels.row_step <= 2048,
        -8192 <= panels.arena_y <= 8192,
        -8192 <= panels.rule_y <= 8192,
    ensures
        r@ == select_fascia(*livery, *panels),
{
    let mut out: Vec<ScreenQuad> = Vec::new();
    push_option(&mut out, livery, panels, 0, 0);
    push_option(&mut out, livery, panels, 0, 1);
    if panels.pair {
        push_option(&mut out, livery, panels, 1, 0);
        push_option(&mut out, livery, panels, 1, 1);
    }
    push_shared(&mut out, panels, panels.arena_y, 2);
    push_shared(&mut out, panels, panels.rule_y, 3);
    assert(out@ =~= select_fascia(*livery, *panels));
    out
}

/// The sweep starts empty, ends full, and never runs back.
pub proof fn law_sweep_only_grows(a: int, b: int)
    requires
        0 <= a <= b,
    ensures
        swept(0) == 0,
        swept(a) <= swept(b),
        b >= MENU_SWEEP_TICKS ==> swept(b) == 4096,
{
}

/// A pair stands mirrored about the middle of the screen.
pub proof fn law_a_pair_is_mirrored()
    ensures
        stage_screen_x(0, true) + stage_screen_x(1, true) == SCREEN_W,
{
}

/// A seat that has locked in has no highlight anywhere on its column.
pub proof fn law_a_ready_seat_has_no_highlight(p: SeatPanel, row: int)
    requires
        p.ready,
    ensures
        !seat_on(p, row),
{
}

} // verus!
