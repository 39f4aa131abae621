//! The selection engine: anchor/lead tracking, semantic expansion and
//! normalization.
//!
//! The engine never scrolls the screen itself; extending past the window
//! only reports a scroll-follow intent to the caller.

use vstd::prelude::*;
use crate::screen::Screen;
use crate::ScrollbackOrVisibleRowIndex;

verus! {

/// The unit by which a selection boundary snaps.
#[derive(Debug, Copy, Clone, Eq, PartialEq, Structural)]
pub enum Granularity {
    Character,
    Word,
    Line,
    Block,
}

/// A selection endpoint: a column and a scrollback-or-visible row (0 is
/// the first visible row; negative rows reach into scrollback).
#[derive(Debug, Copy, Clone, Eq, PartialEq, Structural)]
pub struct SelectionCoordinate {
    pub x: usize,
    pub y: ScrollbackOrVisibleRowIndex,
}

/// A normalized selected range: `start` never comes after `end`.
#[derive(Debug, Copy, Clone, Eq, PartialEq, Structural)]
pub struct SelectionRange {
    pub start: SelectionCoordinate,
    pub end: SelectionCoordinate,
}

/// Reading order on coordinates: row-major, then column.
pub open spec fn coord_le(a: SelectionCoordinate, b: SelectionCoordinate) -> bool {
    a.y < b.y || (a.y == b.y && a.x <= b.x)
}

/// What the caller should do to keep a drag visible; the engine itself
/// never scrolls.
#[derive(Debug, Copy, Clone, Eq, PartialEq, Structural)]
pub enum ScrollIntent {
    Stay,
    /// The lead is `n` rows above the window.
    Up(u32),
    /// The lead is `n` rows below the window.
    Down(u32),
}

/// A coordinate with its column clamped into the grid.
pub open spec fn clamp_coord(c: SelectionCoordinate, cols: int) -> SelectionCoordinate {
    SelectionCoordinate {
        x: if c.x <= cols - 1 {
            c.x as usize
        } else {
            (cols - 1) as usize
        },
        y: c.y,
    }
}

/// The two coordinates in reading order, whichever role each was issued
/// in.  Swapping the arguments swaps nothing observable.
pub open spec fn normalize_pair(a: SelectionCoordinate, b: SelectionCoordinate) -> (
    SelectionCoordinate,
    SelectionCoordinate,
) {
    if coord_le(a, b) {
        (a, b)
    } else {
        (b, a)
    }
}

/// `x` is the left boundary of the word run containing `x0`: everything
/// from `x` to `x0` is word glyphs and nothing word-like precedes `x`.
pub open spec fn word_run_left(cells: Seq<crate::cell::Cell>, x0: int, x: int) -> bool {
    &&& 0 <= x <= x0
    &&& (forall|j: int| x <= j <= x0 ==> is_word_cp_spec((#[trigger] cells[j]).cp))
    &&& (x == 0 || !is_word_cp_spec(cells[x - 1].cp))
}

/// `x` is the right boundary of the word run containing `x0` in a row of
/// `cols` columns.
pub open spec fn word_run_right(
    cells: Seq<crate::cell::Cell>,
    x0: int,
    x: int,
    cols: int,
) -> bool {
    &&& x0 <= x < cols
    &&& (forall|j: int| x0 <= j <= x ==> is_word_cp_spec((#[trigger] cells[j]).cp))
    &&& (x == cols - 1 || !is_word_cp_spec(cells[x + 1].cp))
}

/// Word expansion is idempotent: expanding an already-expanded left
/// boundary moves nothing (and symmetrically on the right).
pub proof fn lemma_word_expansion_idempotent(
    cells: Seq<crate::cell::Cell>,
    x0: int,
    x1: int,
    x2: int,
    cols: int,
)
    requires
        word_run_left(cells, x0, x1) && word_run_left(cells, x1, x2) || word_run_right(
            cells,
            x0,
            x1,
            cols,
        ) && word_run_right(cells, x1, x2, cols),
    ensures
        x2 == x1,
{
}

/// A glyph that belongs to a word, for word-granularity expansion.
pub open spec fn is_word_cp_spec(cp: u32) -> bool {
    ||| (0x30 <= cp && cp <= 0x39)
    ||| (0x41 <= cp && cp <= 0x5a)
    ||| (0x61 <= cp && cp <= 0x7a)
    ||| cp == 0x5f
    ||| cp >= 0x80
}

pub fn is_word_cp(cp: u32) -> (r: bool)
    ensures
        r == is_word_cp_spec(cp),
{
    (0x30 <= cp && cp <= 0x39) || (0x41 <= cp && cp <= 0x5a) || (0x61 <= cp && cp <= 0x7a)
        || cp == 0x5f || cp >= 0x80
}

/// Anchor/lead selection state.
#[derive(Debug, Copy, Clone, Eq, PartialEq, Structural)]
pub struct Selection {
    /// Fixed where the selection started.
    pub anchor: Option<SelectionCoordinate>,
    /// Follows the pointer.
    pub lead: Option<SelectionCoordinate>,
    pub granularity: Granularity,
}

impl Selection {
    /// No selection.
    pub fn new() -> (r: Selection)
        ensures
            r.anchor is None,
            r.lead is None,
    {
        Selection { anchor: None, lead: None, granularity: Granularity::Character }
    }

    /// Start a selection at `c` with the given granularity.
    pub fn begin(&mut self, c: SelectionCoordinate, granularity: Granularity)
        ensures
            final(self).anchor == Some(c),
            final(self).lead == Some(c),
            final(self).granularity == granularity,
    {
        self.anchor = Some(c);
        self.lead = Some(c);
        self.granularity = granularity;
    }

    /// Drop the selection.
    pub fn clear(&mut self)
        ensures
            final(self).anchor is None,
            final(self).lead is None,
    {
        self.anchor = None;
        self.lead = None;
    }

    /// Move the lead to `c` and report whether the caller should scroll
    /// to keep the drag visible.  Without an anchor this is a no-op.
    pub fn extend(&mut self, c: SelectionCoordinate, rows: usize) -> (intent: ScrollIntent)
        requires
            rows >= 1,
            rows <= 0x3FFF_FFFF,
        ensures
            old(self).anchor is Some ==> final(self).lead == Some(c),
            old(self).anchor is None ==> *final(self) == *old(self),
            final(self).anchor == old(self).anchor,
            intent == (if old(self).anchor is None {
                ScrollIntent::Stay
            } else if c.y < 0 {
                ScrollIntent::Up((-(c.y as int)) as u32)
            } else if c.y as int >= rows as int {
                ScrollIntent::Down((c.y as int - rows as int + 1) as u32)
            } else {
                ScrollIntent::Stay
            }),
    {
        if self.anchor.is_none() {
            return ScrollIntent::Stay;
        }
        self.lead = Some(c);
        if c.y < 0 {
            let up: i64 = -(c.y as i64);
            ScrollIntent::Up(up as u32)
        } else if c.y as i64 >= rows as i64 {
            let down: i64 = c.y as i64 - rows as i64 + 1;
            ScrollIntent::Down(down as u32)
        } else {
            ScrollIntent::Stay
        }
    }

    /// The normalized, granularity-expanded range, or `None` when no
    /// selection is active.  Regardless of drag direction the reported
    /// range always runs start-before-end; with block granularity both
    /// axes are ordered independently.
    pub fn current_range(&self, screen: &Screen) -> (r: Option<SelectionRange>)
        requires
            screen.wf(),
        ensures
            r matches Some(sr) ==> coord_le(sr.start, sr.end),
            r is Some <==> self.anchor is Some && self.lead is Some,
            // character granularity: exactly the clamped pair in reading
            // order, so the result is independent of which coordinate was
            // the anchor and which the lead
            self.granularity == Granularity::Character ==> (match (self.anchor, self.lead) {
                (Some(a), Some(b)) => {
                    let (lo, hi) = normalize_pair(
                        clamp_coord(a, screen.cols as int),
                        clamp_coord(b, screen.cols as int),
                    );
                    r == Some(SelectionRange { start: lo, end: hi })
                },
                _ => r is None,
            }),
            // block granularity: both axes normalized independently
            self.granularity == Granularity::Block ==> (match (self.anchor, self.lead) {
                (Some(a), Some(b)) => {
                    let a1 = clamp_coord(a, screen.cols as int);
                    let b1 = clamp_coord(b, screen.cols as int);
                    r == Some(
                        SelectionRange {
                            start: SelectionCoordinate {
                                x: (if a1.x <= b1.x {
                                    a1.x
                                } else {
                                    b1.x
                                }) as usize,
                                y: (if a1.y <= b1.y {
                                    a1.y
                                } else {
                                    b1.y
                                }) as i32,
                            },
                            end: SelectionCoordinate {
                                x: (if a1.x <= b1.x {
                                    b1.x
                                } else {
                                    a1.x
                                }) as usize,
                                y: (if a1.y <= b1.y {
                                    b1.y
                                } else {
                                    a1.y
                                }) as i32,
                            },
                        },
                    )
                },
                _ => r is None,
            }),
            // word granularity: the normalized rows are kept and each
            // column snaps to its word-run boundary (identity on
            // non-word glyphs)
            self.granularity == Granularity::Word ==> (match (self.anchor, self.lead) {
                (Some(a), Some(b)) => {
                    let (lo, hi) = normalize_pair(
                        clamp_coord(a, screen.cols as int),
                        clamp_coord(b, screen.cols as int),
                    );
                    let scells = screen.lines@[screen.phys_row_spec(lo.y as int)].cells@;
                    let ecells = screen.lines@[screen.phys_row_spec(hi.y as int)].cells@;
                    r matches Some(sr) && sr.start.y == lo.y && sr.end.y == hi.y && (
                    if is_word_cp_spec(scells[lo.x as int].cp) {
                        word_run_left(scells, lo.x as int, sr.start.x as int)
                    } else {
                        sr.start.x == lo.x
                    }) && (if is_word_cp_spec(ecells[hi.x as int].cp) {
                        word_run_right(ecells, hi.x as int, sr.end.x as int, screen.cols as int)
                    } else {
                        sr.end.x == hi.x
                    })
                },
                _ => r is None,
            }),
            // line granularity: whole rows
            self.granularity == Granularity::Line ==> (r matches Some(sr) ==> sr.start.x
                == 0 && sr.end.x + 1 == screen.cols),
    {
        let (a0, b0) = match (self.anchor, self.lead) {
            (Some(a), Some(b)) => (a, b),
            _ => {
                return None;
            },
        };
        let cols = screen.cols;
        // Clamp columns into the grid.
        let a1 = SelectionCoordinate {
            x: if a0.x <= cols - 1 {
                a0.x
            } else {
                cols - 1
            },
            y: a0.y,
        };
        let b1 = SelectionCoordinate {
            x: if b0.x <= cols - 1 {
                b0.x
            } else {
                cols - 1
            },
            y: b0.y,
        };
        if matches!(self.granularity, Granularity::Block) {
            let (lo_x, hi_x) = if a1.x <= b1.x {
                (a1.x, b1.x)
            } else {
                (b1.x, a1.x)
            };
            let (lo_y, hi_y) = if a1.y <= b1.y {
                (a1.y, b1.y)
            } else {
                (b1.y, a1.y)
            };
            return Some(
                SelectionRange {
                    start: SelectionCoordinate { x: lo_x, y: lo_y },
                    end: SelectionCoordinate { x: hi_x, y: hi_y },
                },
            );
        }
        // Normalize to reading order.
        let (mut s, mut e) = if a1.y < b1.y || (a1.y == b1.y && a1.x <= b1.x) {
            (a1, b1)
        } else {
            (b1, a1)
        };
        match self.granularity {
            Granularity::Character => {},
            Granularity::Word => {
                // Expand the start leftward over word glyphs.
                let sp = screen.phys_row_from_scrollback(s.y);
                let scell = screen.get_cell(sp, s.x);
                if is_word_cp(scell.cp) {
                    let mut x = s.x;
                    let mut done = false;
                    while x > 0 && !done
                        invariant
                            screen.wf(),
                            sp < screen.lines@.len(),
                            sp == screen.phys_row_spec(s.y as int),
                            x <= s.x,
                            x < cols,
                            cols == screen.cols,
                            forall|j: int| x <= j <= s.x ==> is_word_cp_spec((
                            #[trigger] screen.lines@[sp as int].cells@[j]).cp),
                            done ==> x > 0 && !is_word_cp_spec(
                                screen.lines@[sp as int].cells@[x - 1].cp,
                            ),
                        decreases x + (if done {
                            0int
                        } else {
                            1int
                        }),
                    {
                        let prev = screen.get_cell(sp, x - 1);
                        if is_word_cp(prev.cp) {
                            x = x - 1;
                        } else {
                            done = true;
                        }
                    }
                    proof {
                        assert(word_run_left(
                            screen.lines@[sp as int].cells@,
                            s.x as int,
                            x as int,
                        ));
                    }
                    s = SelectionCoordinate { x, y: s.y };
                }
                // Expand the end rightward over word glyphs.
                let ep = screen.phys_row_from_scrollback(e.y);
                let ecell = screen.get_cell(ep, e.x);
                if is_word_cp(ecell.cp) {
                    let mut x = e.x;
                    let mut done = false;
                    while x + 1 < cols && !done
                        invariant
                            screen.wf(),
                            ep < screen.lines@.len(),
                            ep == screen.phys_row_spec(e.y as int),
                            e.x <= x,
                            x < cols,
                            cols == screen.cols,
                            forall|j: int| e.x <= j <= x ==> is_word_cp_spec((
                            #[trigger] screen.lines@[ep as int].cells@[j]).cp),
                            done ==> x + 1 < cols && !is_word_cp_spec(
                                screen.lines@[ep as int].cells@[x + 1].cp,
                            ),
                        decreases cols - x + (if done {
                            0int
                        } else {
                            1int
                        }),
                    {
                        let next = screen.get_cell(ep, x + 1);
                        if is_word_cp(next.cp) {
                            x = x + 1;
                        } else {
                            done = true;
                        }
                    }
                    proof {
                        assert(word_run_right(
                            screen.lines@[ep as int].cells@,
                            e.x as int,
                            x as int,
                            cols as int,
                        ));
                    }
                    e = SelectionCoordinate { x, y: e.y };
                }
            },
            Granularity::Line => {
                // Whole rows; a soft-wrap continuation is a seam, not a
                // boundary, so walk to the start and end of the logical
                // line.
                let mut sp = screen.phys_row_from_scrollback(s.y);
                while sp > 0 && screen.is_soft_wrapped(sp)
                    invariant
                        screen.wf(),
                        sp < screen.lines@.len(),
                    decreases sp,
                {
                    sp = sp - 1;
                }
                let mut ep = screen.phys_row_from_scrollback(e.y);
                while ep + 1 < screen.lines.len() && screen.is_soft_wrapped(ep + 1)
                    invariant
                        screen.wf(),
                        ep < screen.lines@.len(),
                    decreases screen.lines@.len() - ep,
                {
                    ep = ep + 1;
                }
                let sy = rebase_row(screen, sp);
                let ey = rebase_row(screen, ep);
                let (lo_y, hi_y) = if sy <= ey {
                    (sy, ey)
                } else {
                    (ey, sy)
                };
                s = SelectionCoordinate { x: 0, y: lo_y };
                e = SelectionCoordinate { x: cols - 1, y: hi_y };
            },
            Granularity::Block => {},
        }
        proof {
            assert(coord_le(s, e));
        }
        Some(SelectionRange { start: s, end: e })
    }
}

/// Convert a physical row back into the scrollback-or-visible space,
/// saturating at the type's bounds.
fn rebase_row(screen: &Screen, phys: usize) -> (r: ScrollbackOrVisibleRowIndex)
    requires
        screen.wf(),
        phys < screen.lines@.len(),
    ensures
        r as int == {
            let t = phys as int - screen.visible_base();
            if t < -0x8000_0000 {
                -0x8000_0000
            } else if t > 0x7FFF_FFFF {
                0x7FFF_FFFF
            } else {
                t
            }
        },
{
    let base = screen.lines.len() - screen.rows;
    let t: i128 = phys as i128 - base as i128;
    if t < -0x8000_0000i128 {
        (-0x8000_0000i64) as i32
    } else if t > 0x7FFF_FFFFi128 {
        0x7FFF_FFFFi32
    } else {
        t as i32
    }
}

} // verus!
