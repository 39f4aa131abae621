//! The atomic styled-character unit of the screen grid.

use vstd::prelude::*;

verus! {

/// A logical color reference.  Resolution to a concrete RGB value is the
/// palette's business, outside this crate; the model only carries the
/// reference.
#[derive(Debug, Copy, Clone, Eq, PartialEq, Structural)]
pub enum ColorRef {
    Default,
    Indexed(u8),
    Rgb(u8, u8, u8),
}

/// Rendition attributes of one cell.
#[derive(Debug, Copy, Clone, Eq, PartialEq, Structural)]
pub struct CellAttributes {
    pub bold: bool,
    pub italic: bool,
    pub underline: bool,
    pub strikethrough: bool,
    pub inverse: bool,
    pub blink: bool,
    pub invisible: bool,
    pub fg: ColorRef,
    pub bg: ColorRef,
}

impl CellAttributes {
    /// The all-off rendition with default colors.
    pub open spec fn plain_spec() -> CellAttributes {
        CellAttributes {
            bold: false,
            italic: false,
            underline: false,
            strikethrough: false,
            inverse: false,
            blink: false,
            invisible: false,
            fg: ColorRef::Default,
            bg: ColorRef::Default,
        }
    }

    pub fn plain() -> (r: CellAttributes)
        ensures
            r == CellAttributes::plain_spec(),
    {
        CellAttributes {
            bold: false,
            italic: false,
            underline: false,
            strikethrough: false,
            inverse: false,
            blink: false,
            invisible: false,
            fg: ColorRef::Default,
            bg: ColorRef::Default,
        }
    }
}

impl Default for CellAttributes {
    fn default() -> (r: Self)
        ensures
            r == CellAttributes::plain_spec(),
    {
        CellAttributes::plain()
    }
}

/// One cell of the grid: a glyph (stored as its Unicode scalar value),
/// its display width, rendition attributes, and an optional reference
/// into the hyperlink arena (see the `hyperlink` module).
///
/// `width` is 1 for a narrow glyph and 2 for a full-width glyph; a cell
/// with `width` 0 is the placeholder occupying the column behind a
/// full-width glyph and never stands on its own (see `line::wide_paired`).
#[derive(Debug, Copy, Clone, Eq, PartialEq, Structural)]
pub struct Cell {
    pub cp: u32,
    pub width: u8,
    pub attrs: CellAttributes,
    pub link: Option<u64>,
}

impl Cell {
    /// A default-attribute space.
    pub open spec fn blank_spec() -> Cell {
        Cell { cp: 0x20, width: 1, attrs: CellAttributes::plain_spec(), link: None }
    }

    pub fn blank() -> (r: Cell)
        ensures
            r == Cell::blank_spec(),
    {
        Cell { cp: 0x20, width: 1, attrs: CellAttributes::plain(), link: None }
    }

    /// The placeholder cell that trails a full-width glyph.
    pub open spec fn wide_trailer_spec(attrs: CellAttributes) -> Cell {
        Cell { cp: 0x20, width: 0, attrs, link: None }
    }

    pub fn wide_trailer(attrs: CellAttributes) -> (r: Cell)
        ensures
            r == Cell::wide_trailer_spec(attrs),
    {
        Cell { cp: 0x20, width: 0, attrs, link: None }
    }

    /// A cell is well formed when its width is one of the three legal values.
    pub open spec fn wf(self) -> bool {
        self.width == 0 || self.width == 1 || self.width == 2
    }
}

/// Display width of a glyph: 2 for the common full-width ranges (CJK and
/// friends), 0 for combining marks and other zero-width scalars, 1
/// otherwise.
pub open spec fn glyph_width_spec(cp: u32) -> u8 {
    if is_wide_glyph(cp) {
        2u8
    } else if is_zero_width_glyph(cp) {
        0u8
    } else {
        1u8
    }
}

pub open spec fn is_wide_glyph(cp: u32) -> bool {
    ||| (0x1100 <= cp && cp <= 0x115F)
    ||| (0x2E80 <= cp && cp <= 0x303E)
    ||| (0x3041 <= cp && cp <= 0x33FF)
    ||| (0x3400 <= cp && cp <= 0x4DBF)
    ||| (0x4E00 <= cp && cp <= 0x9FFF)
    ||| (0xA000 <= cp && cp <= 0xA4CF)
    ||| (0xAC00 <= cp && cp <= 0xD7A3)
    ||| (0xF900 <= cp && cp <= 0xFAFF)
    ||| (0xFE30 <= cp && cp <= 0xFE4F)
    ||| (0xFF00 <= cp && cp <= 0xFF60)
    ||| (0xFFE0 <= cp && cp <= 0xFFE6)
    ||| (0x20000 <= cp && cp <= 0x2FFFD)
    ||| (0x30000 <= cp && cp <= 0x3FFFD)
}

pub open spec fn is_zero_width_glyph(cp: u32) -> bool {
    ||| (0x0300 <= cp && cp <= 0x036F)
    ||| (0x200B <= cp && cp <= 0x200F)
    ||| (0xFE00 <= cp && cp <= 0xFE0F)
}

/// Executable twin of `glyph_width_spec`.
pub fn glyph_width(cp: u32) -> (w: u8)
    ensures
        w == glyph_width_spec(cp),
{
    if (0x1100 <= cp && cp <= 0x115F) || (0x2E80 <= cp && cp <= 0x303E)
        || (0x3041 <= cp && cp <= 0x33FF) || (0x3400 <= cp && cp <= 0x4DBF)
        || (0x4E00 <= cp && cp <= 0x9FFF) || (0xA000 <= cp && cp <= 0xA4CF)
        || (0xAC00 <= cp && cp <= 0xD7A3) || (0xF900 <= cp && cp <= 0xFAFF)
        || (0xFE30 <= cp && cp <= 0xFE4F) || (0xFF00 <= cp && cp <= 0xFF60)
        || (0xFFE0 <= cp && cp <= 0xFFE6) || (0x20000 <= cp && cp <= 0x2FFFD)
        || (0x30000 <= cp && cp <= 0x3FFFD) {
        2
    } else if (0x0300 <= cp && cp <= 0x036F) || (0x200B <= cp && cp <= 0x200F)
        || (0xFE00 <= cp && cp <= 0xFE0F) {
        0
    } else {
        1
    }
}

} // verus!
