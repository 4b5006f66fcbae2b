//! The screen: which slice of it a player looks through, what is close enough
//! to be worth drawing, and the arena's three looks.

use vstd::prelude::*;

verus! {

/// Screen width in pixels.
pub const SCREEN_W: i16 = 320;
/// Screen height in pixels.
pub const SCREEN_H: i16 = 240;
/// Projection plane distance.
pub const PROJ_H: i32 = 260;
/// How far in from a view's right edge the boost dial's centre sits.
pub const BOOST_GAUGE_INSET: i16 = 52;
/// How far up from a view's bottom edge the boost dial's centre sits.
pub const BOOST_GAUGE_RISE: i16 = 50;
/// Slack around the viewport that the rejection tests allow, so a quad that
/// straddles an edge is kept rather than popped.
pub const EDGE_SLACK: i16 = 80;
/// Horizontal centre of the scoreboard, which the clock is centred on.
pub const HUD_CENTRE_X: i16 = 160;

/// A colour, red first.
pub type Rgb = (u8, u8, u8);

/// One player's slice of the screen, in display pixels.
#[derive(Copy, Clone, Debug, PartialEq, Eq, Structural)]
pub struct Viewport {
    /// Left edge.
    pub x: i16,
    /// Top edge.
    pub y: i16,
    /// Width.
    pub w: i16,
    /// Height.
    pub h: i16,
}

/// The whole screen.
pub open spec fn whole() -> Viewport {
    Viewport { x: 0, y: 0, w: 320, h: 240 }
}

/// The upper half of a split.
pub open spec fn upper() -> Viewport {
    Viewport { x: 0, y: 0, w: 320, h: 120 }
}

/// The lower half of a split.
pub open spec fn lower() -> Viewport {
    Viewport { x: 0, y: 120, w: 320, h: 120 }
}

impl Viewport {
    /// A slice of the screen, and not an empty one.
    pub open spec fn on_screen(self) -> bool {
        &&& 0 <= self.x && 0 < self.w && self.x + self.w <= SCREEN_W
        &&& 0 <= self.y && 0 < self.h && self.y + self.h <= SCREEN_H
    }

    /// The whole screen: one player.
    pub fn full() -> (r: Self)
        ensures
            r == whole(),
            r.on_screen(),
    {
        Viewport { x: 0, y: 0, w: SCREEN_W, h: SCREEN_H }
    }

    /// Player one's half of a top-and-bottom split.
    pub fn top() -> (r: Self)
        ensures
            r == upper(),
            r.on_screen(),
    {
        Viewport { x: 0, y: 0, w: SCREEN_W, h: SCREEN_H / 2 }
    }

    /// Player two's half.
    pub fn bottom() -> (r: Self)
        ensures
            r == lower(),
            r.on_screen(),
    {
        Viewport { x: 0, y: SCREEN_H / 2, w: SCREEN_W, h: SCREEN_H / 2 }
    }
}

/// Horizontal centre of the boost dial, and its readout, for one view.
pub fn boost_gauge_x(vp: Viewport) -> (r: i16)
    requires
        i16::MIN <= vp.x + vp.w <= i16::MAX,
        i16::MIN <= vp.x + vp.w - BOOST_GAUGE_INSET,
    ensures
        r == vp.x + vp.w - BOOST_GAUGE_INSET,
{
    vp.x + vp.w - BOOST_GAUGE_INSET
}

/// Vertical centre of the boost dial for one view.
pub fn boost_gauge_y(vp: Viewport) -> (r: i16)
    requires
        i16::MIN <= vp.y + vp.h <= i16::MAX,
        i16::MIN <= vp.y + vp.h - BOOST_GAUGE_RISE,
    ensures
        r == vp.y + vp.h - BOOST_GAUGE_RISE,
{
    vp.y + vp.h - BOOST_GAUGE_RISE
}

/// The accept band for projected points, and the frustum it goes with: both
/// follow the viewport being drawn.
#[derive(Copy, Clone, Debug, PartialEq, Eq, Structural)]
pub struct Bounds {
    /// Leftmost accepted column.
    pub min_x: i16,
    /// First column past the accepted ones.
    pub max_x: i16,
    /// Half the frustum's width over the projection plane.
    pub half_w: i32,
    /// Topmost accepted row.
    pub min_y: i16,
    /// First row past the accepted ones.
    pub max_y: i16,
    /// Half the frustum's height over the projection plane.
    pub half_h: i32,
    /// The view is a part of the screen. Detail follows it.
    pub split: bool,
}

/// The accept band around a viewport.
pub open spec fn bounds_of(vp: Viewport) -> Bounds {
    Bounds {
        min_x: (vp.x - EDGE_SLACK) as i16,
        max_x: (vp.x + vp.w + EDGE_SLACK) as i16,
        half_w: (vp.w as int / 2 + EDGE_SLACK) as i32,
        min_y: (vp.y - EDGE_SLACK) as i16,
        max_y: (vp.y + vp.h + EDGE_SLACK) as i16,
        half_h: (vp.h as int / 2 + EDGE_SLACK) as i32,
        split: vp.w < SCREEN_W || vp.h < SCREEN_H,
    }
}

impl Bounds {
    /// Inside the accept band.
    pub open spec fn holds(self, x: int, y: int) -> bool {
        self.min_x <= x < self.max_x && self.min_y <= y < self.max_y
    }

    /// The accept band around a viewport.
    pub fn around(vp: Viewport) -> (r: Self)
        requires
            vp.on_screen(),
        ensures
            r == bounds_of(vp),
    {
        Bounds {
            min_x: vp.x - EDGE_SLACK,
            max_x: vp.x + vp.w + EDGE_SLACK,
            half_w: (vp.w / 2 + EDGE_SLACK) as i32,
            min_y: vp.y - EDGE_SLACK,
            max_y: vp.y + vp.h + EDGE_SLACK,
            half_h: (vp.h / 2 + EDGE_SLACK) as i32,
            split: vp.w < SCREEN_W || vp.h < SCREEN_H,
        }
    }

    /// Is a projected point close enough to the viewport to keep?
    pub fn on_view(&self, sx: i16, sy: i16) -> (r: bool)
        ensures
            r == self.holds(sx as int, sy as int),
    {
        sx >= self.min_x && sx < self.max_x && sy >= self.min_y && sy < self.max_y
    }
}

/// A point is inside a quad's bounding box.
pub open spec fn boxed(sp: Seq<(i16, i16)>, x: int, y: int) -> bool {
    &&& exists|i: int| 0 <= i < sp.len() && (#[trigger] sp[i]).0 <= x
    &&& exists|i: int| 0 <= i < sp.len() && (#[trigger] sp[i]).0 >= x
    &&& exists|i: int| 0 <= i < sp.len() && (#[trigger] sp[i]).1 <= y
    &&& exists|i: int| 0 <= i < sp.len() && (#[trigger] sp[i]).1 >= y
}

/// A quad's bounding box reaches into the accept band, from all four sides.
pub open spec fn overlaps(b: Bounds, sp: Seq<(i16, i16)>) -> bool {
    &&& exists|i: int| 0 <= i < sp.len() && (#[trigger] sp[i]).0 >= b.min_x
    &&& exists|i: int| 0 <= i < sp.len() && (#[trigger] sp[i]).0 < b.max_x
    &&& exists|i: int| 0 <= i < sp.len() && (#[trigger] sp[i]).1 >= b.min_y
    &&& exists|i: int| 0 <= i < sp.len() && (#[trigger] sp[i]).1 < b.max_y
}

/// Does a projected quad's bounding box overlap the view?
///
/// Testing whether one corner is inside is not conservative: a patch close to
/// the camera can surround the whole screen with all four corners outside it.
pub fn quad_overlaps_view(bounds: &Bounds, sp: &[(i16, i16); 4]) -> (r: bool)
    ensures
        r == overlaps(*bounds, sp@),
{
    let a = sp[0];
    let b = sp[1];
    let c = sp[2];
    let d = sp[3];
    assert(sp@[0] == a && sp@[1] == b && sp@[2] == c && sp@[3] == d);
    assert forall|i: int| 0 <= i < sp@.len() implies (#[trigger] sp@[i] == a || sp@[i] == b || sp@[i]
        == c || sp@[i] == d) by {
        assert(i == 0 || i == 1 || i == 2 || i == 3);
    }
    let right = a.0 >= bounds.min_x || b.0 >= bounds.min_x || c.0 >= bounds.min_x || d.0
        >= bounds.min_x;
    let left = a.0 < bounds.max_x || b.0 < bounds.max_x || c.0 < bounds.max_x || d.0 < bounds.max_x;
    let below = a.1 >= bounds.min_y || b.1 >= bounds.min_y || c.1 >= bounds.min_y || d.1
        >= bounds.min_y;
    let above = a.1 < bounds.max_y || b.1 < bounds.max_y || c.1 < bounds.max_y || d.1
        < bounds.max_y;
    right && left && below && above
}

/// The centre a viewport's points are projected around, in whole-screen pixels.
pub fn screen_centre(vp: Viewport) -> (r: (i32, i32))
    requires
        vp.on_screen(),
    ensures
        r.0 == vp.x + vp.w as int / 2,
        r.1 == vp.y + vp.h as int / 2,
{
    ((vp.x + vp.w / 2) as i32, (vp.y + vp.h / 2) as i32)
}

/// A rectangle of the framebuffer, both corners inside it.
#[derive(Copy, Clone, Debug, PartialEq, Eq, Structural)]
pub struct Scissor {
    /// Leftmost column.
    pub x0: u16,
    /// Topmost row.
    pub y0: u16,
    /// Rightmost column.
    pub x1: u16,
    /// Bottommost row.
    pub y1: u16,
}

/// The part of the framebuffer a viewport may draw into, when its buffer starts
/// at row `buffer_y`.
pub fn scissor(vp: Viewport, buffer_y: u16) -> (r: Scissor)
    requires
        vp.on_screen(),
        buffer_y + SCREEN_H <= u16::MAX,
    ensures
        r.x0 == vp.x,
        r.y0 == buffer_y + vp.y,
        r.x1 == vp.x + vp.w - 1,
        r.y1 == buffer_y + vp.y + vp.h - 1,
{
    Scissor {
        x0: vp.x as u16,
        y0: buffer_y + vp.y as u16,
        x1: (vp.x + vp.w) as u16 - 1,
        y1: buffer_y + (vp.y + vp.h) as u16 - 1,
    }
}

/// The three authored arena looks. Discrete presets rather than a clock.
#[derive(Copy, Clone, Debug, PartialEq, Eq, Structural)]
pub enum ArenaTime {
    /// Daylight.
    Day,
    /// Sunset.
    Sunset,
    /// Floodlit.
    Night,
}

/// The look after this one.
pub open spec fn later(t: ArenaTime) -> ArenaTime {
    match t {
        ArenaTime::Day => ArenaTime::Sunset,
        ArenaTime::Sunset => ArenaTime::Night,
        ArenaTime::Night => ArenaTime::Day,
    }
}

/// The look before this one.
pub open spec fn earlier(t: ArenaTime) -> ArenaTime {
    match t {
        ArenaTime::Day => ArenaTime::Night,
        ArenaTime::Sunset => ArenaTime::Day,
        ArenaTime::Night => ArenaTime::Sunset,
    }
}

impl ArenaTime {
    /// The next look.
    pub fn next(self) -> (r: Self)
        ensures
            r == later(self),
    {
        match self {
            ArenaTime::Day => ArenaTime::Sunset,
            ArenaTime::Sunset => ArenaTime::Night,
            ArenaTime::Night => ArenaTime::Day,
        }
    }

    /// The previous look.
    pub fn prev(self) -> (r: Self)
        ensures
            r == earlier(self),
    {
        match self {
            ArenaTime::Day => ArenaTime::Night,
            ArenaTime::Sunset => ArenaTime::Day,
            ArenaTime::Night => ArenaTime::Sunset,
        }
    }
}

/// A quad that covers any accepted point is kept, even when it surrounds the
/// whole screen.
pub proof fn law_no_visible_quad_is_dropped(b: Bounds, sp: Seq<(i16, i16)>, x: int, y: int)
    requires
        b.holds(x, y),
        boxed(sp, x, y),
    ensures
        overlaps(b, sp),
{
    let right = choose|i: int| 0 <= i < sp.len() && (#[trigger] sp[i]).0 >= x;
    let left = choose|i: int| 0 <= i < sp.len() && (#[trigger] sp[i]).0 <= x;
    let below = choose|i: int| 0 <= i < sp.len() && (#[trigger] sp[i]).1 >= y;
    let above = choose|i: int| 0 <= i < sp.len() && (#[trigger] sp[i]).1 <= y;
    assert(sp[right].0 >= b.min_x);
    assert(sp[left].0 < b.max_x);
    assert(sp[below].1 >= b.min_y);
    assert(sp[above].1 < b.max_y);
}

/// The two halves of a split tile the screen: every pixel belongs to one.
pub proof fn law_halves_tile_the_screen(x: int, y: int)
    requires
        0 <= x < SCREEN_W,
        0 <= y < SCREEN_H,
    ensures
        (upper().y <= y < upper().y + upper().h) != (lower().y <= y < lower().y + lower().h),
        upper().x <= x < upper().x + upper().w,
        lower().x <= x < lower().x + lower().w,
{
}

/// Forward and back again is where it was, and three steps go all the way
/// round.
pub proof fn law_looks_go_round(t: ArenaTime)
    ensures
        earlier(later(t)) == t,
        later(earlier(t)) == t,
        later(later(later(t))) == t,
{
}

} // verus!
