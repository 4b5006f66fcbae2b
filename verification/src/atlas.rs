//! The arena's texture, as it is cut up for the video memory: three pages of
//! texels, one above another, and four palettes.

use vstd::prelude::*;

verus! {

/// Width of the sheet, in texels.
pub const TEX_W: usize = 256;
/// Height of the sheet, in texels.
pub const TEX_H: usize = 768;
/// Halfwords in a row of four-bit texels.
pub const TEX_HALFWORDS_PER_ROW: usize = 64;
/// Pages the sheet is cut into.
pub const PAGES: usize = 3;
/// Bytes in a page.
pub const PAGE_BYTES: usize = 32_768;
/// Palettes that go with it.
pub const PALETTES: usize = 4;
/// Bytes in a palette: sixteen colours.
pub const PALETTE_BYTES: usize = 32;

/// A texture's header, and how much data came with it.
#[derive(Copy, Clone, Debug, PartialEq, Eq, Structural)]
pub struct Sheet {
    /// Width, in texels.
    pub width: usize,
    /// Height, in texels.
    pub height: usize,
    /// Halfwords in a row.
    pub halfwords_per_row: usize,
    /// Bytes of texels.
    pub pixel_bytes: usize,
    /// Palette entries.
    pub clut_entries: usize,
    /// Bytes of palette.
    pub clut_bytes: usize,
}

impl Sheet {
    /// This is the arena's sheet, whole.
    pub open spec fn is_arena(self) -> bool {
        &&& self.width == 256
        &&& self.height == 768
        &&& self.halfwords_per_row == 64
        &&& self.pixel_bytes == 98_304
        &&& self.clut_entries == 64
        &&& self.clut_bytes == 128
    }

    /// Whether this is the arena's sheet, whole. Anything else is refused before
    /// a byte of it is uploaded.
    pub fn valid(&self) -> (r: bool)
        ensures
            r == self.is_arena(),
    {
        self.width == TEX_W && self.height == TEX_H && self.halfwords_per_row
            == TEX_HALFWORDS_PER_ROW && self.pixel_bytes == TEX_HALFWORDS_PER_ROW * TEX_H * 2
            && self.clut_entries == 16 * PALETTES && self.clut_bytes == 16 * PALETTES * 2
    }
}

/// The bytes of one page of the sheet: from the first to past the last.
pub fn page_span(page: usize) -> (r: (usize, usize))
    requires
        page < PAGES,
    ensures
        r.0 == page * PAGE_BYTES,
        r.1 == (page + 1) * PAGE_BYTES,
{
    (page * PAGE_BYTES, (page + 1) * PAGE_BYTES)
}

/// The bytes of one palette: from the first to past the last.
pub fn palette_span(row: usize) -> (r: (usize, usize))
    requires
        row < PALETTES,
    ensures
        r.0 == row * PALETTE_BYTES,
        r.1 == (row + 1) * PALETTE_BYTES,
{
    (row * PALETTE_BYTES, (row + 1) * PALETTE_BYTES)
}

/// The pages and the palettes of an accepted sheet take up all of it and reach
/// past none of it.
pub proof fn law_pages_and_palettes_tile_the_sheet(s: Sheet)
    requires
        s.is_arena(),
    ensures
        PAGES * PAGE_BYTES == s.pixel_bytes,
        PALETTES * PALETTE_BYTES == s.clut_bytes,
        forall|p: int| 0 <= p < PAGES ==> #[trigger] ((p + 1) * PAGE_BYTES) <= s.pixel_bytes,
        forall|r: int| 0 <= r < PALETTES ==> #[trigger] ((r + 1) * PALETTE_BYTES) <= s.clut_bytes,
{
}

} // verus!
