//! The pitch: eighty tiles, finer near the camera, with the edges between
//! detail bands made to meet.

use vstd::prelude::*;
use crate::colour;
use crate::colour::tinted;
use crate::cull::Cull;
use crate::lens;
use crate::lens::{file, uv_patch, Dot, Filing, Lens, Packet, Page, Skin};
use crate::light;
use crate::light::Lighting;
use crate::num;
use crate::num::min_i32;
use crate::shell;
use crate::shell::chamfer;
use crate::vec3;
use crate::vec3::V3;
use crate::view::{Bounds, Rgb};

verus! {

/// Tiles across the pitch.
pub const TILES_X: i32 = 8;
/// Tiles along the pitch.
pub const TILES_Z: i32 = 10;
/// How much deeper than its place the pitch is filed, so nothing standing on it
/// can tie with it.
pub const FLOOR_BIAS: i32 = 150;
/// How much deeper the strips behind a band's edge are filed.
pub const UNDERDRAW_BIAS: i32 = 1150;
/// The pitch's own green.
pub const GRASS_A: Rgb = (30, 62, 40);

/// How many ways a tile is split at a distance: dense where you are, coarse
/// where you are not.
pub open spec fn split_of(distance: int, half_view: bool) -> int {
    let (near, mid) = if half_view {
        (400int, 1200int)
    } else {
        (2200int, 4000int)
    };
    if distance < near {
        4
    } else if distance < mid {
        2
    } else {
        1
    }
}

/// How many ways to split a tile at this distance.
pub fn floor_split(distance: i32, half_view: bool) -> (r: i32)
    ensures
        r == split_of(distance as int, half_view),
        r == 1 || r == 2 || r == 4,
{
    let (near, mid): (i32, i32) = if half_view {
        (400, 1200)
    } else {
        (2200, 4000)
    };
    if distance < near {
        4
    } else if distance < mid {
        2
    } else {
        1
    }
}

/// World X of a tile's near edge.
pub open spec fn tile_x(ix: int) -> int {
    -4096 + ix * 1024
}

/// World Z of a tile's near edge.
pub open spec fn tile_z(iz: int) -> int {
    -5120 + iz * 1024
}

/// How many ways a tile is split.
pub open spec fn tile_split(c: Cull, ix: int, iz: int) -> int {
    split_of(c.flat(tile_x(ix) + 512, tile_z(iz) + 512), c.bounds.split)
}

/// A tile is in view.
pub open spec fn tile_seen(c: Cull, ix: int, iz: int) -> bool {
    let at = vec3::v3(tile_x(ix) + 512, 0, tile_z(iz) + 512);
    let h = vec3::v3(512, 0, 512);
    c.sees(at, h) && c.sees_vertically(at, h)
}

/// Whether a point landed on the accept band.
pub open spec fn on_band(b: Bounds, d: Dot) -> bool {
    b.holds(d.sx as int, d.sy as int)
}

/// Where a corner of a split tile lands, if it is in front of the camera.
#[verifier::opaque]
pub open spec fn corner<P: Fn(V3) -> Dot>(
    l: &Lens<P>,
    ix: int,
    iz: int,
    n: int,
    sx: int,
    sz: int,
) -> Option<Dot> {
    let at = shell::chamfered(tile_x(ix) + (1024 * sx) / n, tile_z(iz) + (1024 * sz) / n);
    let d = l.at(vec3::v3(at.0, 0, at.1));
    if d.sz == 0 {
        None
    } else {
        Some(d)
    }
}

/// A tile's texture: the marked rows sample the markings, the rest plain grass.
pub open spec fn tile_page(ix: int, iz: int) -> (Page, int, int) {
    if 3 <= iz < 7 {
        (
            if ix < 4 {
                Page::MarkedLeft
            } else {
                Page::MarkedRight
            },
            (ix % 4) * 64,
            (iz - 3) * 64,
        )
    } else {
        (Page::Grass, 0, 0)
    }
}

/// A texture coordinate along a split tile.
pub open spec fn along(base: int, i: int, n: int) -> int {
    base + num::min((64 * i) / n, 63)
}

// ---- the edges between bands -----------------------------------------------

/// The neighbour across an edge: left, right, near, far.
pub open spec fn edge_step(k: int) -> (int, int) {
    if k == 0 {
        (-1, 0)
    } else if k == 1 {
        (1, 0)
    } else if k == 2 {
        (0, -1)
    } else {
        (0, 1)
    }
}

/// How many of this tile's steps one of a coarser neighbour's covers, or zero
/// where the neighbour is no coarser.
#[verifier::opaque]
pub open spec fn edge_ratio(c: Cull, ix: int, iz: int, n: int, k: int) -> int {
    let (dx, dz) = edge_step(k);
    if !(0 <= ix + dx < 8 && 0 <= iz + dz < 10) {
        0
    } else {
        let m = tile_split(c, ix + dx, iz + dz);
        if m >= n {
            0
        } else {
            n / m
        }
    }
}

/// The edge a corner stands on, away from the tile's own corners, and how far
/// along it.
pub open spec fn edge_at(n: int, sx: int, sz: int) -> (int, int) {
    if sx == 0 && 0 < sz < n {
        (0, sz)
    } else if sx == n && 0 < sz < n {
        (1, sz)
    } else if sz == 0 && 0 < sx < n {
        (2, sx)
    } else if sz == n && 0 < sx < n {
        (3, sx)
    } else {
        (-1, 0)
    }
}

/// The corner `i` along an edge.
pub open spec fn on_edge(n: int, k: int, i: int) -> (int, int) {
    if k == 0 {
        (0, i)
    } else if k == 1 {
        (n, i)
    } else if k == 2 {
        (i, 0)
    } else {
        (i, n)
    }
}

/// `t / m` of the way from one value to another.
pub open spec fn between(u: int, v: int, t: int, m: int) -> int {
    u + num::tdiv((v - u) * t, m)
}

/// `t / m` of the way from one dot to another.
pub open spec fn dot_between(a: Dot, b: Dot, t: int, m: int) -> Dot {
    Dot {
        sx: between(a.sx as int, b.sx as int, t, m) as i16,
        sy: between(a.sy as int, b.sy as int, t, m) as i16,
        sz: between(a.sz as int, b.sz as int, t, m) as u16,
    }
}

/// A corner of a split tile, with the edge points a coarser neighbour does not
/// sample snapped onto the straight segment between the points it does.
#[verifier::opaque]
pub open spec fn snapped<P: Fn(V3) -> Dot>(
    l: &Lens<P>,
    c: Cull,
    ix: int,
    iz: int,
    n: int,
    sx: int,
    sz: int,
) -> Option<Dot> {
    let here = corner(l, ix, iz, n, sx, sz);
    let (k, i) = edge_at(n, sx, sz);
    let m = edge_ratio(c, ix, iz, n, k);
    if k < 0 || m == 0 || i % m == 0 {
        here
    } else {
        let lo = on_edge(n, k, i - i % m);
        let hi = on_edge(n, k, i - i % m + m);
        match (corner(l, ix, iz, n, lo.0, lo.1), corner(l, ix, iz, n, hi.0, hi.1)) {
            (Some(a), Some(b)) => Some(dot_between(a, b, i % m, m)),
            _ => here,
        }
    }
}

/// The light points at an edge's two ends, on the tile's own grid.
pub open spec fn edge_lights(k: int) -> ((int, int), (int, int)) {
    if k == 0 {
        ((0, 0), (0, 4))
    } else if k == 1 {
        ((4, 0), (4, 4))
    } else if k == 2 {
        ((0, 0), (4, 0))
    } else {
        ((0, 4), (4, 4))
    }
}

/// The pitch's tint at a point of a tile's grid.
pub open spec fn grid_tint(look: light::ArenaLook, ix: int, iz: int, a: int, b: int) -> Rgb {
    light::pitch_tint(look, ix % 2, ix * 4 + a, iz * 4 + b)
}

/// The thin strip laid behind an edge that was made to meet a coarser one. It
/// shows through the single-pixel holes that rounding still leaves.
#[verifier::opaque]
pub open spec fn strip<P: Fn(V3) -> Dot>(
    l: &Lens<P>,
    look: light::ArenaLook,
    c: Cull,
    ix: int,
    iz: int,
    n: int,
    k: int,
) -> Seq<Packet> {
    let lo = on_edge(n, k, 0);
    let hi = on_edge(n, k, n);
    if edge_ratio(c, ix, iz, n, k) == 0 {
        Seq::empty()
    } else {
        match (corner(l, ix, iz, n, lo.0, lo.1), corner(l, ix, iz, n, hi.0, hi.1)) {
            (Some(a), Some(b)) => {
                let p = ((a.sx - 1) as i16, (a.sy - 1) as i16);
                let q = ((b.sx + 1) as i16, (b.sy - 1) as i16);
                let r = ((a.sx - 1) as i16, (a.sy + 1) as i16);
                let s = ((b.sx + 1) as i16, (b.sy + 1) as i16);
                let holds = |v: (i16, i16)| c.bounds.holds(v.0 as int, v.1 as int);
                if holds(p) || holds(q) || holds(r) || holds(s) {
                    let ends = edge_lights(k);
                    let ta = colour::tint_of(
                        GRASS_A,
                        grid_tint(look, ix, iz, ends.0.0, ends.0.1),
                    );
                    let tb = colour::tint_of(
                        GRASS_A,
                        grid_tint(look, ix, iz, ends.1.0, ends.1.1),
                    );
                    seq![
                        Packet {
                            at: (p, q, r, s),
                            filing: Filing::At(((a.sz + b.sz) / 2 + UNDERDRAW_BIAS) as i32),
                            tint: (ta, tb, ta, tb),
                            skin: None,
                            blended: false,
                        },
                    ]
                } else {
                    Seq::empty()
                }
            },
            _ => Seq::empty(),
        }
    }
}

// ---- tiles -----------------------------------------------------------------

/// One cell of a split tile.
#[verifier::opaque]
pub open spec fn cell<P: Fn(V3) -> Dot>(
    l: &Lens<P>,
    look: light::ArenaLook,
    c: Cull,
    ix: int,
    iz: int,
    n: int,
    sx: int,
    sz: int,
) -> Seq<Packet> {
    match (
        snapped(l, c, ix, iz, n, sx, sz),
        snapped(l, c, ix, iz, n, sx + 1, sz),
        snapped(l, c, ix, iz, n, sx, sz + 1),
        snapped(l, c, ix, iz, n, sx + 1, sz + 1),
    ) {
        (Some(p), Some(q), Some(r), Some(s)) => if on_band(c.bounds, p) || on_band(c.bounds, q)
            || on_band(c.bounds, r) || on_band(c.bounds, s) {
            let (page, u0, v0) = tile_page(ix, iz);
            let step = 4int / n;
            let tint = (
                grid_tint(look, ix, iz, sx * step, sz * step),
                grid_tint(look, ix, iz, (sx + 1) * step, sz * step),
                grid_tint(look, ix, iz, sx * step, (sz + 1) * step),
                grid_tint(look, ix, iz, (sx + 1) * step, (sz + 1) * step),
            );
            let uv = lens::patch(
                along(u0, sx, n),
                along(u0, sx + 1, n),
                along(v0, sz, n),
                along(v0, sz + 1, n),
            );
            seq![lens::over(p, q, r, s, tint, 150, Some(Skin { page, uv }), false)]
        } else {
            Seq::empty()
        },
        _ => Seq::empty(),
    }
}

/// The first `m` cells of a tile, a column at a time.
pub open spec fn cells<P: Fn(V3) -> Dot>(
    l: &Lens<P>,
    look: light::ArenaLook,
    c: Cull,
    ix: int,
    iz: int,
    n: int,
    m: nat,
) -> Seq<Packet>
    decreases m,
{
    if m == 0 {
        Seq::empty()
    } else {
        let k = m - 1;
        cells(l, look, c, ix, iz, n, k as nat) + cell(l, look, c, ix, iz, n, k / n, k % n)
    }
}

/// Everything a tile draws: the strips behind its met edges, then its cells. A
/// far tile is one cell.
#[verifier::opaque]
pub open spec fn tile<P: Fn(V3) -> Dot>(
    l: &Lens<P>,
    look: light::ArenaLook,
    c: Cull,
    ix: int,
    iz: int,
) -> Seq<Packet> {
    let n = tile_split(c, ix, iz);
    if !tile_seen(c, ix, iz) {
        Seq::empty()
    } else {
        strip(l, look, c, ix, iz, n, 0) + strip(l, look, c, ix, iz, n, 1) + strip(
            l,
            look,
            c,
            ix,
            iz,
            n,
            2,
        ) + strip(l, look, c, ix, iz, n, 3) + cells(l, look, c, ix, iz, n, (n * n) as nat)
    }
}

/// The first `m` tiles of the pitch.
pub open spec fn tiles<P: Fn(V3) -> Dot>(
    l: &Lens<P>,
    look: light::ArenaLook,
    c: Cull,
    m: nat,
) -> Seq<Packet>
    decreases m,
{
    if m == 0 {
        Seq::empty()
    } else {
        let k = m - 1;
        tiles(l, look, c, k as nat) + tile(l, look, c, k / 10, k % 10)
    }
}

fn find_corner<P: Fn(V3) -> Dot>(
    lens: &Lens<P>,
    ix: i32,
    iz: i32,
    n: i32,
    sx: i32,
    sz: i32,
) -> (r: Option<Dot>)
    requires
        lens.wf(),
        0 <= ix < 8,
        0 <= iz < 10,
        n == 1 || n == 2 || n == 4,
        0 <= sx <= n,
        0 <= sz <= n,
    ensures
        r == corner(lens, ix as int, iz as int, n as int, sx as int, sz as int),
        r matches Some(d) ==> d.near(),
{
    proof {
        reveal(corner);
    }
    let at = chamfer(-4096 + ix * 1024 + 1024 * sx / n, -5120 + iz * 1024 + 1024 * sz / n);
    let d = lens.project(V3 { x: at.0, y: 0, z: at.1 });
    if d.sz == 0 {
        None
    } else {
        Some(d)
    }
}

/// A grid holds every corner of a split tile.
pub open spec fn holds_corners<P: Fn(V3) -> Dot>(
    g: Seq<Option<Dot>>,
    l: &Lens<P>,
    ix: int,
    iz: int,
    n: int,
) -> bool {
    &&& g.len() == 25
    &&& forall|k: int|
        0 <= k < 25 && k / 5 <= n && k % 5 <= n ==> #[trigger] g[k] == corner(
            l,
            ix,
            iz,
            n,
            k / 5,
            k % 5,
        )
    &&& forall|k: int| 0 <= k < 25 ==> (#[trigger] g[k] matches Some(d) ==> d.near())
}

/// A grid holds every snapped corner of a split tile.
pub open spec fn holds_snapped<P: Fn(V3) -> Dot>(
    g: Seq<Option<Dot>>,
    l: &Lens<P>,
    c: Cull,
    ix: int,
    iz: int,
    n: int,
) -> bool {
    &&& g.len() == 25
    &&& forall|k: int|
        0 <= k < 25 && k / 5 <= n && k % 5 <= n ==> #[trigger] g[k] == snapped(
            l,
            c,
            ix,
            iz,
            n,
            k / 5,
            k % 5,
        )
}

/// Projects a tile's corner grid once: every interior corner is shared by four
/// cells.
fn corner_grid<P: Fn(V3) -> Dot>(lens: &Lens<P>, ix: i32, iz: i32, n: i32) -> (g: Vec<Option<Dot>>)
    requires
        lens.wf(),
        0 <= ix < 8,
        0 <= iz < 10,
        n == 1 || n == 2 || n == 4,
    ensures
        holds_corners(g@, lens, ix as int, iz as int, n as int),
{
    let mut g: Vec<Option<Dot>> = Vec::new();
    let mut k: i32 = 0;
    while k < 25
        invariant
            0 <= k <= 25,
            lens.wf(),
            0 <= ix < 8,
            0 <= iz < 10,
            n == 1 || n == 2 || n == 4,
            g.len() == k,
            forall|j: int|
                0 <= j < k && j / 5 <= n && j % 5 <= n ==> #[trigger] g[j] == corner(
                    lens,
                    ix as int,
                    iz as int,
                    n as int,
                    j / 5,
                    j % 5,
                ),
            forall|j: int| 0 <= j < k ==> (#[trigger] g[j] matches Some(d) ==> d.near()),
        decreases 25 - k,
    {
        let sx: i32 = k / 5;
        let sz: i32 = k % 5;
        if sx <= n && sz <= n {
            g.push(find_corner(lens, ix, iz, n, sx, sz));
        } else {
            g.push(None);
        }
        k += 1;
    }
    g
}

fn find_split(cull: &Cull, ix: i32, iz: i32) -> (r: i32)
    requires
        cull.wf(),
        0 <= ix < 8,
        0 <= iz < 10,
    ensures
        r == tile_split(*cull, ix as int, iz as int),
        r == 1 || r == 2 || r == 4,
{
    let d: i32 = cull.flat_distance(-4096 + ix * 1024 + 512, -5120 + iz * 1024 + 512);
    floor_split(d, cull.bounds.split)
}

fn find_ratio(cull: &Cull, ix: i32, iz: i32, n: i32, k: i32) -> (r: i32)
    requires
        cull.wf(),
        0 <= ix < 8,
        0 <= iz < 10,
        n == 1 || n == 2 || n == 4,
        0 <= k < 4,
    ensures
        r == edge_ratio(*cull, ix as int, iz as int, n as int, k as int),
        r == 0 || r == 2 || r == 4,
        r <= n,
        r == 4 ==> n == 4,
        r == 2 ==> n == 2 || n == 4,
{
    proof {
        reveal(edge_ratio);
    }
    let (dx, dz): (i32, i32) = if k == 0 {
        (-1, 0)
    } else if k == 1 {
        (1, 0)
    } else if k == 2 {
        (0, -1)
    } else {
        (0, 1)
    };
    let jx: i32 = ix + dx;
    let jz: i32 = iz + dz;
    if jx < 0 || jx >= TILES_X || jz < 0 || jz >= TILES_Z {
        return 0;
    }
    let m: i32 = find_split(cull, jx, jz);
    if m >= n {
        0
    } else {
        proof {
            lemma_ratio(n as int, m as int);
        }
        n / m
    }
}

/// The splits divide each other.
proof fn lemma_ratio(n: int, m: int)
    requires
        n == 2 || n == 4,
        m == 1 || m == 2,
        m < n,
    ensures
        n / m == if m == 1 {
            n
        } else {
            2
        },
        n % (n / m) == 0,
{
    assert(n / m == if m == 1 {
        n
    } else {
        2
    }) by (nonlinear_arith)
        requires
            n == 2 || n == 4,
            m == 1 || m == 2,
            m < n,
    ;
    let q = n / m;
    assert(n % q == 0) by (nonlinear_arith)
        requires
            q == n && n > 0 || q == 2 && n == 4,
    ;
}

fn lerp(u: i32, v: i32, t: i32, m: i32) -> (r: i32)
    requires
        -70000 <= u <= 70000,
        -70000 <= v <= 70000,
        0 < t < m,
        m == 2 || m == 4,
    ensures
        r == between(u as int, v as int, t as int, m as int),
        num::min(u as int, v as int) <= r <= num::max(u as int, v as int),
{
    proof {
        let d = v - u;
        assert(t == 1 || t == 2 || t == 3);
        assert(d * t == if t == 1 {
            d
        } else if t == 2 {
            2 * d
        } else {
            3 * d
        }) by (nonlinear_arith)
            requires
                t == 1 || t == 2 || t == 3,
        ;
    }
    u + (v - u) * t / m
}

fn lerp_dot(a: Dot, b: Dot, t: i32, m: i32) -> (r: Dot)
    requires
        a.near(),
        b.near(),
        0 < t < m,
        m == 2 || m == 4,
    ensures
        r == dot_between(a, b, t as int, m as int),
        r.near(),
{
    Dot {
        sx: lerp(a.sx as i32, b.sx as i32, t, m) as i16,
        sy: lerp(a.sy as i32, b.sy as i32, t, m) as i16,
        sz: lerp(a.sz as i32, b.sz as i32, t, m) as u16,
    }
}

fn find_snapped<P: Fn(V3) -> Dot>(
    lens: &Lens<P>,
    cull: &Cull,
    g: &Vec<Option<Dot>>,
    ix: i32,
    iz: i32,
    n: i32,
    sx: i32,
    sz: i32,
) -> (r: Option<Dot>)
    requires
        lens.wf(),
        cull.wf(),
        holds_corners(g@, lens, ix as int, iz as int, n as int),
        0 <= ix < 8,
        0 <= iz < 10,
        n == 1 || n == 2 || n == 4,
        0 <= sx <= n,
        0 <= sz <= n,
    ensures
        r == snapped(lens, *cull, ix as int, iz as int, n as int, sx as int, sz as int),
{
    proof {
        reveal(snapped);
    }
    let at: usize = (sx * 5 + sz) as usize;
    assert(at as int / 5 == sx && at as int % 5 == sz);
    let here = g[at];
    assert(here == corner(lens, ix as int, iz as int, n as int, sx as int, sz as int));
    let (k, i): (i32, i32) = if sx == 0 && 0 < sz && sz < n {
        (0, sz)
    } else if sx == n && 0 < sz && sz < n {
        (1, sz)
    } else if sz == 0 && 0 < sx && sx < n {
        (2, sx)
    } else if sz == n && 0 < sx && sx < n {
        (3, sx)
    } else {
        return here;
    };
    let m: i32 = find_ratio(cull, ix, iz, n, k);
    if m == 0 || i % m == 0 {
        return here;
    }
    let t: i32 = i % m;
    let lo: i32 = i - t;
    let hi: i32 = lo + m;
    assert(0 < t < m && 0 <= lo && hi <= n) by (nonlinear_arith)
        requires
            n == 2 || n == 4,
            m == 2 || m == 4 && n == 4,
            0 < i < n,
            t == i % m,
            t != 0,
            lo == i - t,
            hi == lo + m,
    ;
    let (ka, kb): (i32, i32) = if k == 0 {
        (lo, hi)
    } else if k == 1 {
        (n * 5 + lo, n * 5 + hi)
    } else if k == 2 {
        (lo * 5, hi * 5)
    } else {
        (lo * 5 + n, hi * 5 + n)
    };
    let a = g[ka as usize];
    let b = g[kb as usize];
    proof {
        let p = on_edge(n as int, k as int, lo as int);
        let q = on_edge(n as int, k as int, hi as int);
        assert(ka as int / 5 == p.0 && ka as int % 5 == p.1);
        assert(kb as int / 5 == q.0 && kb as int % 5 == q.1);
        assert(a == corner(lens, ix as int, iz as int, n as int, p.0, p.1));
        assert(b == corner(lens, ix as int, iz as int, n as int, q.0, q.1));
    }
    match (a, b) {
        (Some(a), Some(b)) => Some(lerp_dot(a, b, t, m)),
        _ => here,
    }
}

/// Snaps the edge points a coarser neighbour does not sample onto the segments
/// it draws, so both tiles rasterise the same edge.
fn conform_tile<P: Fn(V3) -> Dot>(
    lens: &Lens<P>,
    cull: &Cull,
    g: &Vec<Option<Dot>>,
    ix: i32,
    iz: i32,
    n: i32,
) -> (r: Vec<Option<Dot>>)
    requires
        lens.wf(),
        cull.wf(),
        holds_corners(g@, lens, ix as int, iz as int, n as int),
        0 <= ix < 8,
        0 <= iz < 10,
        n == 1 || n == 2 || n == 4,
    ensures
        holds_snapped(r@, lens, *cull, ix as int, iz as int, n as int),
{
    let mut out: Vec<Option<Dot>> = Vec::new();
    let mut k: i32 = 0;
    while k < 25
        invariant
            0 <= k <= 25,
            lens.wf(),
            cull.wf(),
            holds_corners(g@, lens, ix as int, iz as int, n as int),
            0 <= ix < 8,
            0 <= iz < 10,
            n == 1 || n == 2 || n == 4,
            out.len() == k,
            forall|j: int|
                0 <= j < k && j / 5 <= n && j % 5 <= n ==> #[trigger] out[j] == snapped(
                    lens,
                    *cull,
                    ix as int,
                    iz as int,
                    n as int,
                    j / 5,
                    j % 5,
                ),
        decreases 25 - k,
    {
        let sx: i32 = k / 5;
        let sz: i32 = k % 5;
        if sx <= n && sz <= n {
            out.push(find_snapped(lens, cull, g, ix, iz, n, sx, sz));
        } else {
            out.push(None);
        }
        k += 1;
    }
    out
}

fn find_tint(lights: &Lighting, ix: i32, iz: i32, a: i32, b: i32) -> (r: Rgb)
    requires
        lights.wf(),
        0 <= ix < 8,
        0 <= iz < 10,
        0 <= a <= 4,
        0 <= b <= 4,
    ensures
        r == grid_tint(light::look_of(lights.time), ix as int, iz as int, a as int, b as int),
{
    lights.floor_at((ix % 2) as usize, (ix * 4 + a) as usize, (iz * 4 + b) as usize)
}

/// Lays a thin strip behind one met edge, in the pitch's own tints.
fn underdraw_edge<P: Fn(V3) -> Dot>(
    out: &mut Vec<Packet>,
    lens: &Lens<P>,
    lights: &Lighting,
    cull: &Cull,
    g: &Vec<Option<Dot>>,
    ix: i32,
    iz: i32,
    n: i32,
    k: i32,
)
    requires
        lens.wf(),
        cull.wf(),
        lights.wf(),
        holds_corners(g@, lens, ix as int, iz as int, n as int),
        0 <= ix < 8,
        0 <= iz < 10,
        n == 1 || n == 2 || n == 4,
        0 <= k < 4,
    ensures
        final(out)@ == old(out)@ + strip(
            lens,
            light::look_of(lights.time),
            *cull,
            ix as int,
            iz as int,
            n as int,
            k as int,
        ),
{
    proof {
        reveal(strip);
    }
    let ghost before = out@;
    let ghost want = strip(
        lens,
        light::look_of(lights.time),
        *cull,
        ix as int,
        iz as int,
        n as int,
        k as int,
    );
    if find_ratio(cull, ix, iz, n, k) == 0 {
        assert(out@ =~= before + want);
        return ;
    }
    let (ka, kb): (i32, i32) = if k == 0 {
        (0, n)
    } else if k == 1 {
        (n * 5, n * 5 + n)
    } else if k == 2 {
        (0, n * 5)
    } else {
        (n, n * 5 + n)
    };
    let a = g[ka as usize];
    let b = g[kb as usize];
    proof {
        let p = on_edge(n as int, k as int, 0);
        let q = on_edge(n as int, k as int, n as int);
        assert(ka as int / 5 == p.0 && ka as int % 5 == p.1);
        assert(kb as int / 5 == q.0 && kb as int % 5 == q.1);
        assert(a == corner(lens, ix as int, iz as int, n as int, p.0, p.1));
        assert(b == corner(lens, ix as int, iz as int, n as int, q.0, q.1));
    }
    match (a, b) {
        (Some(a), Some(b)) => {
            let p: (i16, i16) = (a.sx - 1, a.sy - 1);
            let q: (i16, i16) = (b.sx + 1, b.sy - 1);
            let r: (i16, i16) = (a.sx - 1, a.sy + 1);
            let s: (i16, i16) = (b.sx + 1, b.sy + 1);
            let w = &cull.bounds;
            if w.on_view(p.0, p.1) || w.on_view(q.0, q.1) || w.on_view(r.0, r.1) || w.on_view(
                s.0,
                s.1,
            ) {
                let ((a0, b0), (a1, b1)): ((i32, i32), (i32, i32)) = if k == 0 {
                    ((0, 0), (0, 4))
                } else if k == 1 {
                    ((4, 0), (4, 4))
                } else if k == 2 {
                    ((0, 0), (4, 0))
                } else {
                    ((0, 4), (4, 4))
                };
                let ta = tinted((30, 62, 40), find_tint(lights, ix, iz, a0, b0));
                let tb = tinted((30, 62, 40), find_tint(lights, ix, iz, a1, b1));
                let depth: i32 = (a.sz as i32 + b.sz as i32) / 2 + UNDERDRAW_BIAS;
                out.push(
                    Packet {
                        at: (p, q, r, s),
                        filing: Filing::At(depth),
                        tint: (ta, tb, ta, tb),
                        skin: None,
                        blended: false,
                    },
                );
            }
        },
        _ => {},
    }
    assert(out@ =~= before + want);
}

fn find_page(ix: i32, iz: i32) -> (r: (Page, i32, i32))
    requires
        0 <= ix < 8,
        0 <= iz < 10,
    ensures
        (r.0, r.1 as int, r.2 as int) == tile_page(ix as int, iz as int),
        0 <= r.1 <= 192,
        0 <= r.2 <= 192,
{
    if iz >= 3 && iz < 7 {
        let page = if ix < 4 {
            Page::MarkedLeft
        } else {
            Page::MarkedRight
        };
        (page, (ix % 4) * 64, (iz - 3) * 64)
    } else {
        (Page::Grass, 0, 0)
    }
}

fn find_along(base: i32, i: i32, n: i32) -> (r: u8)
    requires
        0 <= base <= 192,
        n == 1 || n == 2 || n == 4,
        0 <= i <= n,
    ensures
        r == along(base as int, i as int, n as int),
{
    (base + min_i32(64 * i / n, 63)) as u8
}

/// One cell of a split tile.
fn push_cell<P: Fn(V3) -> Dot>(
    out: &mut Vec<Packet>,
    lens: &Lens<P>,
    lights: &Lighting,
    cull: &Cull,
    g: &Vec<Option<Dot>>,
    ix: i32,
    iz: i32,
    n: i32,
    sx: i32,
    sz: i32,
)
    requires
        lens.wf(),
        cull.wf(),
        lights.wf(),
        holds_snapped(g@, lens, *cull, ix as int, iz as int, n as int),
        0 <= ix < 8,
        0 <= iz < 10,
        n == 1 || n == 2 || n == 4,
        0 <= sx < n,
        0 <= sz < n,
    ensures
        final(out)@ == old(out)@ + cell(
            lens,
            light::look_of(lights.time),
            *cull,
            ix as int,
            iz as int,
            n as int,
            sx as int,
            sz as int,
        ),
{
    proof {
        reveal(cell);
    }
    let ghost before = out@;
    let ka: i32 = sx * 5 + sz;
    let kb: i32 = (sx + 1) * 5 + sz;
    assert(ka as int / 5 == sx && ka as int % 5 == sz);
    assert(kb as int / 5 == sx + 1 && kb as int % 5 == sz);
    assert((ka + 1) as int / 5 == sx && (ka + 1) as int % 5 == sz + 1);
    assert((kb + 1) as int / 5 == sx + 1 && (kb + 1) as int % 5 == sz + 1);
    match (g[ka as usize], g[kb as usize], g[(ka + 1) as usize], g[(kb + 1) as usize]) {
        (Some(p), Some(q), Some(r), Some(s)) => {
            let w = &cull.bounds;
            if w.on_view(p.sx, p.sy) || w.on_view(q.sx, q.sy) || w.on_view(r.sx, r.sy)
                || w.on_view(s.sx, s.sy) {
                let (page, u0, v0): (Page, i32, i32) = find_page(ix, iz);
                let step: i32 = 4 / n;
                assert(0 <= sx * step && (sx + 1) * step <= 4 && 0 <= sz * step && (sz + 1) * step
                    <= 4) by (nonlinear_arith)
                    requires
                        n == 1 || n == 2 || n == 4,
                        step == 4int / n as int,
                        0 <= sx < n,
                        0 <= sz < n,
                ;
                let tint = (
                    find_tint(lights, ix, iz, sx * step, sz * step),
                    find_tint(lights, ix, iz, (sx + 1) * step, sz * step),
                    find_tint(lights, ix, iz, sx * step, (sz + 1) * step),
                    find_tint(lights, ix, iz, (sx + 1) * step, (sz + 1) * step),
                );
                let uv = uv_patch(
                    find_along(u0, sx, n),
                    find_along(u0, sx + 1, n),
                    find_along(v0, sz, n),
                    find_along(v0, sz + 1, n),
                );
                out.push(file(p, q, r, s, tint, FLOOR_BIAS, Some(Skin { page, uv }), false));
            }
        },
        _ => {},
    }
    assert(out@ =~= before + cell(
        lens,
        light::look_of(lights.time),
        *cull,
        ix as int,
        iz as int,
        n as int,
        sx as int,
        sz as int,
    ));
}

fn push_cells<P: Fn(V3) -> Dot>(
    out: &mut Vec<Packet>,
    lens: &Lens<P>,
    lights: &Lighting,
    cull: &Cull,
    g: &Vec<Option<Dot>>,
    ix: i32,
    iz: i32,
    n: i32,
)
    requires
        lens.wf(),
        cull.wf(),
        lights.wf(),
        holds_snapped(g@, lens, *cull, ix as int, iz as int, n as int),
        0 <= ix < 8,
        0 <= iz < 10,
        n == 1 || n == 2 || n == 4,
    ensures
        final(out)@ == old(out)@ + cells(
            lens,
            light::look_of(lights.time),
            *cull,
            ix as int,
            iz as int,
            n as int,
            (n * n) as nat,
        ),
{
    let ghost before = out@;
    let ghost look = light::look_of(lights.time);
    let all: i32 = if n == 1 {
        1
    } else if n == 2 {
        4
    } else {
        16
    };
    assert(all == n * n) by (nonlinear_arith)
        requires
            n == 1 && all == 1 || n == 2 && all == 4 || n == 4 && all == 16,
    ;
    let mut k: i32 = 0;
    assert(out@ =~= before + cells(lens, look, *cull, ix as int, iz as int, n as int, 0));
    while k < all
        invariant
            0 <= k <= all,
            n == 1 && all == 1 || n == 2 && all == 4 || n == 4 && all == 16,
            lens.wf(),
            cull.wf(),
            lights.wf(),
            look == light::look_of(lights.time),
            holds_snapped(g@, lens, *cull, ix as int, iz as int, n as int),
            0 <= ix < 8,
            0 <= iz < 10,
            out@ == before + cells(
                lens,
                look,
                *cull,
                ix as int,
                iz as int,
                n as int,
                k as nat,
            ),
        decreases all - k,
    {
        let sx: i32 = k / n;
        let sz: i32 = k % n;
        push_cell(out, lens, lights, cull, g, ix, iz, n, sx, sz);
        k += 1;
        assert(out@ =~= before + cells(
            lens,
            look,
            *cull,
            ix as int,
            iz as int,
            n as int,
            k as nat,
        ));
    }
}

/// One tile of the pitch.
fn push_tile<P: Fn(V3) -> Dot>(
    out: &mut Vec<Packet>,
    lens: &Lens<P>,
    lights: &Lighting,
    cull: &Cull,
    ix: i32,
    iz: i32,
)
    requires
        lens.wf(),
        cull.wf(),
        lights.wf(),
        0 <= ix < 8,
        0 <= iz < 10,
    ensures
        final(out)@ == old(out)@ + tile(
            lens,
            light::look_of(lights.time),
            *cull,
            ix as int,
            iz as int,
        ),
{
    proof {
        reveal(tile);
    }
    let ghost before = out@;
    let ghost look = light::look_of(lights.time);
    let at = V3 { x: -4096 + ix * 1024 + 512, y: 0, z: -5120 + iz * 1024 + 512 };
    let h = V3 { x: 512, y: 0, z: 512 };
    if cull.visible(at, h) && cull.visible_vertically(at, h) {
        let n: i32 = find_split(cull, ix, iz);
        let g = corner_grid(lens, ix, iz, n);
        underdraw_edge(out, lens, lights, cull, &g, ix, iz, n, 0);
        underdraw_edge(out, lens, lights, cull, &g, ix, iz, n, 1);
        underdraw_edge(out, lens, lights, cull, &g, ix, iz, n, 2);
        underdraw_edge(out, lens, lights, cull, &g, ix, iz, n, 3);
        let met = conform_tile(lens, cull, &g, ix, iz, n);
        push_cells(out, lens, lights, cull, &met, ix, iz, n);
    }
    assert(out@ =~= before + tile(lens, look, *cull, ix as int, iz as int));
}

/// The pitch. Tiles out of view are dropped whole; the rest are split by
/// distance, with their edges made to meet coarser neighbours'.
pub fn floor<P: Fn(V3) -> Dot>(
    out: &mut Vec<Packet>,
    lens: &Lens<P>,
    lights: &Lighting,
    cull: &Cull,
)
    requires
        lens.wf(),
        cull.wf(),
        lights.wf(),
    ensures
        final(out)@ == old(out)@ + tiles(lens, light::look_of(lights.time), *cull, 80),
{
    let ghost before = out@;
    let ghost look = light::look_of(lights.time);
    let mut k: i32 = 0;
    assert(out@ =~= before + tiles(lens, look, *cull, 0));
    while k < 80
        invariant
            0 <= k <= 80,
            lens.wf(),
            cull.wf(),
            lights.wf(),
            look == light::look_of(lights.time),
            out@ == before + tiles(lens, look, *cull, k as nat),
        decreases 80 - k,
    {
        push_tile(out, lens, lights, cull, k / 10, k % 10);
        k += 1;
        assert(out@ =~= before + tiles(lens, look, *cull, k as nat));
    }
}

// ---- laws ------------------------------------------------------------------

/// Detail only ever falls off with distance.
pub proof fn law_detail_falls_off(near: int, far: int, half_view: bool)
    requires
        near <= far,
    ensures
        split_of(far, half_view) <= split_of(near, half_view),
        split_of(near, true) <= split_of(near, false),
{
}

/// A tile that meets a coarser one touches it exactly: along the shared edge
/// the only free points are the ones the coarser tile samples too.
pub proof fn law_met_edges_are_straight<P: Fn(V3) -> Dot>(
    l: &Lens<P>,
    c: Cull,
    ix: int,
    iz: int,
    n: int,
    k: int,
    i: int,
)
    requires
        0 <= k < 4,
        n == 2 || n == 4,
        0 < i < n,
        edge_ratio(c, ix, iz, n, k) != 0,
        i % edge_ratio(c, ix, iz, n, k) != 0,
        edge_ratio(c, ix, iz, n, k) == 2 || edge_ratio(c, ix, iz, n, k) == 4,
        ({
            let m = edge_ratio(c, ix, iz, n, k);
            let lo = on_edge(n, k, i - i % m);
            let hi = on_edge(n, k, i - i % m + m);
            corner(l, ix, iz, n, lo.0, lo.1) is Some && corner(l, ix, iz, n, hi.0, hi.1) is Some
        }),
    ensures
        ({
            let m = edge_ratio(c, ix, iz, n, k);
            let at = on_edge(n, k, i);
            let lo = on_edge(n, k, i - i % m);
            let hi = on_edge(n, k, i - i % m + m);
            snapped(l, c, ix, iz, n, at.0, at.1) == Some(
                dot_between(
                    corner(l, ix, iz, n, lo.0, lo.1).unwrap(),
                    corner(l, ix, iz, n, hi.0, hi.1).unwrap(),
                    i % m,
                    m,
                ),
            )
        }),
{
    reveal(snapped);
}

/// A neighbour that draws the far half of an edge is never finer than half the
/// steps it covers, so the two tiles share every point the coarser one has.
pub proof fn law_edge_ratios_divide(c: Cull, ix: int, iz: int, n: int, k: int)
    requires
        n == 1 || n == 2 || n == 4,
    ensures
        edge_ratio(c, ix, iz, n, k) == 0 || edge_ratio(c, ix, iz, n, k) == 2 || edge_ratio(
            c,
            ix,
            iz,
            n,
            k,
        ) == 4,
        edge_ratio(c, ix, iz, n, k) != 0 ==> n % edge_ratio(c, ix, iz, n, k) == 0,
{
    reveal(edge_ratio);
    let (dx, dz) = edge_step(k);
    let m = tile_split(c, ix + dx, iz + dz);
    if m < n {
        lemma_ratio(n, m);
    }
}

} // verus!
