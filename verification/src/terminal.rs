//! The terminal state machine: cursor, mode register, tab stops, pen,
//! scroll region, and the orchestration that applies parsed actions to
//! the screen.
//!
//! Failure policy: any action with out-of-range operands is clamped to
//! the nearest valid configuration, never rejected; after every chunk of
//! input the state is self-consistent (`wf`), so a reader interleaved
//! between chunks never observes a torn state.

use vstd::prelude::*;
use crate::cell::{Cell, CellAttributes, ColorRef, glyph_width};
use crate::hyperlink::{LinkArena, rescan_line};
use crate::parser::{Action, Parser};
use crate::screen::Screen;
use crate::selection::Selection;
use crate::{CursorPosition, Position, TermError, device_ident};

verus! {

/// Independently toggled terminal modes.
#[derive(Debug, Copy, Clone, Eq, PartialEq, Structural)]
pub struct Modes {
    /// DECOM: cursor addressing is relative to the scroll region.
    pub origin: bool,
    /// DECAWM: writing past the last column wraps to the next row.
    pub autowrap: bool,
    /// IRM: glyphs are inserted, shifting the rest of the row right.
    pub insert: bool,
    /// DECCKM: cursor keys send application sequences (held for the
    /// input encoder, not consumed here).
    pub application_cursor_keys: bool,
    /// Bracketed paste (held for the input encoder, not consumed here).
    pub bracketed_paste: bool,
}

impl Modes {
    pub open spec fn initial_spec() -> Modes {
        Modes {
            origin: false,
            autowrap: true,
            insert: false,
            application_cursor_keys: false,
            bracketed_paste: false,
        }
    }

    pub fn initial() -> (r: Modes)
        ensures
            r == Modes::initial_spec(),
    {
        Modes {
            origin: false,
            autowrap: true,
            insert: false,
            application_cursor_keys: false,
            bracketed_paste: false,
        }
    }
}

/// The state machine that owns the screen and everything the protocol
/// mutates.
#[derive(Debug)]
pub struct TerminalState {
    pub screen: Screen,
    pub cursor: CursorPosition,
    pub modes: Modes,
    /// One flag per column; true marks a tab stop.
    pub tab_stops: Vec<bool>,
    /// Rendition applied to subsequently written cells.
    pub pen: CellAttributes,
    /// Scroll region bounds, inclusive visible rows; `top <= bottom`.
    pub scroll_top: usize,
    pub scroll_bottom: usize,
    pub parser: Parser,
    /// Bytes owed to the host (device-attribute responses).
    pub answerback: Vec<u8>,
    /// Open explicit hyperlink applied to subsequently written cells.
    pub current_link: Option<u64>,
    pub links: LinkArena,
    /// Literal patterns matched against modified lines for implicit links.
    pub patterns: Vec<Vec<u32>>,
    /// Saved cursor and pen for ESC 7 / ESC 8.
    pub saved_cursor: CursorPosition,
    pub saved_pen: CellAttributes,
    /// The active selection; cleared when the geometry changes.
    pub selection: Selection,
}

/// A CSI parameter: absent or zero means the default.
pub open spec fn csi_param(params: Seq<u16>, i: int, default: u16) -> u16 {
    if 0 <= i < params.len() && params[i] != 0 {
        params[i]
    } else {
        default
    }
}

/// A CSI parameter taken raw: only absence means the default.
pub open spec fn csi_param_raw(params: Seq<u16>, i: int, default: u16) -> u16 {
    if 0 <= i < params.len() {
        params[i]
    } else {
        default
    }
}

/// The clamped scroll region that DECSTBM with the given 1-based
/// operands configures at a window of `rows` rows.
pub open spec fn clamped_region(top_1based: u16, bottom_1based: u16, rows: int) -> (
    int,
    int,
) {
    let t0: int = if top_1based == 0 {
        0
    } else {
        top_1based - 1
    };
    let b0: int = if bottom_1based == 0 {
        rows - 1
    } else {
        bottom_1based - 1
    };
    let top: int = if t0 <= rows - 1 {
        t0
    } else {
        rows - 1
    };
    let bottom0: int = if b0 <= rows - 1 {
        b0
    } else {
        rows - 1
    };
    let bottom: int = if bottom0 >= top {
        bottom0
    } else {
        top
    };
    (top, bottom)
}

impl TerminalState {
    /// The clamping invariant: the cursor always lies inside the visible
    /// window, the scroll region is ordered and inside the window, and
    /// screen, parser and tab stops are well formed.
    pub open spec fn wf(self) -> bool {
        &&& self.screen.wf()
        &&& (self.cursor.x as int) < (self.screen.cols as int)
        &&& 0 <= self.cursor.y
        &&& (self.cursor.y as int) < (self.screen.rows as int)
        &&& self.scroll_top <= self.scroll_bottom
        &&& (self.scroll_bottom as int) < (self.screen.rows as int)
        &&& self.tab_stops@.len() == self.screen.cols
        &&& self.parser.wf()
    }

    /// A fresh terminal.  Degenerate geometry is the one loud error.
    pub fn new(rows: usize, cols: usize, scrollback_limit: usize, patterns: Vec<Vec<u32>>)
        -> (r: Result<TerminalState, TermError>)
        requires
            rows <= 0x3FFF_FFFF,
            cols <= 0x3FFF_FFFF,
            scrollback_limit <= 0x3FFF_FFFF,
        ensures
            rows == 0 ==> r == Result::<TerminalState, TermError>::Err(TermError::ZeroRows),
            rows > 0 && cols == 0 ==> r == Result::<TerminalState, TermError>::Err(
                TermError::ZeroCols,
            ),
            rows > 0 && cols > 0 ==> (r matches Ok(t) && t.wf() && t.screen.rows == rows
                && t.screen.cols == cols && t.cursor == (CursorPosition { x: 0, y: 0 })
                && t.modes == Modes::initial_spec() && t.scroll_top == 0 && t.scroll_bottom
                + 1 == rows),
    {
        let screen = match Screen::new(rows, cols, scrollback_limit) {
            Ok(s) => s,
            Err(e) => {
                return Err(e);
            },
        };
        let mut tab_stops: Vec<bool> = Vec::new();
        let mut i: usize = 0;
        while i < cols
            invariant
                i <= cols,
                tab_stops@.len() == i,
            decreases cols - i,
        {
            tab_stops.push(i % 8 == 0);
            i = i + 1;
        }
        Ok(
            TerminalState {
                screen,
                cursor: CursorPosition { x: 0, y: 0 },
                modes: Modes::initial(),
                tab_stops,
                pen: CellAttributes::plain(),
                scroll_top: 0,
                scroll_bottom: rows - 1,
                parser: Parser::new(),
                answerback: Vec::new(),
                current_link: None,
                links: LinkArena::new(),
                patterns,
                saved_cursor: CursorPosition { x: 0, y: 0 },
                saved_pen: CellAttributes::plain(),
                selection: Selection::new(),
            },
        )
    }

    /// Deferred motion resolution: the single choke point where a motion
    /// target meets live cursor state and is clamped.  With origin mode
    /// the window is the scroll region, otherwise the whole viewport.
    pub open spec fn resolve_position_spec(self, pos: Position) -> int {
        let lo: int = if self.modes.origin {
            self.scroll_top as int
        } else {
            0
        };
        let hi: int = if self.modes.origin {
            self.scroll_bottom as int
        } else {
            self.screen.rows as int - 1
        };
        let target: int = match pos {
            Position::Absolute(a) => lo + a as int,
            Position::Relative(d) => self.cursor.y as int + d as int,
        };
        if target < lo {
            lo
        } else if target > hi {
            hi
        } else {
            target
        }
    }

    /// Resolve a deferred motion target against the live cursor, clamped
    /// into the valid row range; resolution never wraps.
    pub fn resolve_position(&self, pos: &Position) -> (r: i64)
        requires
            self.wf(),
        ensures
            r as int == self.resolve_position_spec(*pos),
            0 <= r,
            (r as int) < (self.screen.rows as int),
    {
        let lo: i128 = if self.modes.origin {
            self.scroll_top as i128
        } else {
            0
        };
        let hi: i128 = if self.modes.origin {
            self.scroll_bottom as i128
        } else {
            self.screen.rows as i128 - 1
        };
        let target: i128 = match pos {
            Position::Absolute(a) => lo + *a as i128,
            Position::Relative(d) => self.cursor.y as i128 + *d as i128,
        };
        let clamped: i128 = if target < lo {
            lo
        } else if target > hi {
            hi
        } else {
            target
        };
        clamped as i64
    }

    /// Move the cursor to a resolved row, clamped; column clamped too.
    fn set_cursor_clamped(&mut self, x: usize, y: i64)
        requires
            old(self).wf(),
            0 <= y,
            (y as int) < (old(self).screen.rows as int),
        ensures
            final(self).wf(),
            *final(self) == (TerminalState {
                cursor: CursorPosition {
                    x: if x as int <= old(self).screen.cols - 1 {
                        x
                    } else {
                        (old(self).screen.cols - 1) as usize
                    },
                    y,
                },
                ..*old(self)
            }),
    {
        let cols = self.screen.cols;
        self.cursor.x = if x <= cols - 1 {
            x
        } else {
            cols - 1
        };
        self.cursor.y = y;
    }

    /// Scroll the region up by one row.
    fn scroll_region_up(&mut self)
        requires
            old(self).wf(),
        ensures
            final(self).wf(),
            final(self).screen.rows == old(self).screen.rows,
            final(self).screen.cols == old(self).screen.cols,
            final(self).cursor == old(self).cursor,
            final(self).scroll_top == old(self).scroll_top,
            final(self).scroll_bottom == old(self).scroll_bottom,
            *final(self) == (TerminalState {
                screen: final(self).screen,
                links: final(self).links,
                ..*old(self)
            }),
    {
        let rows = self.screen.rows;
        if self.scroll_top == 0 && self.scroll_bottom == rows - 1 {
            self.screen.scroll_up_full();
            let keep = self.current_link;
            self.links.sweep(&self.screen, keep);
        } else {
            let pt = self.screen.phys_row(self.scroll_top as i64);
            let pb = self.screen.phys_row(self.scroll_bottom as i64);
            proof {
                assert(pt <= pb);
            }
            self.screen.scroll_up_region(pt, pb);
        }
    }

    /// Scroll the region down by one row.
    fn scroll_region_down(&mut self)
        requires
            old(self).wf(),
        ensures
            final(self).wf(),
            final(self).screen.rows == old(self).screen.rows,
            final(self).screen.cols == old(self).screen.cols,
            final(self).cursor == old(self).cursor,
            final(self).scroll_top == old(self).scroll_top,
            final(self).scroll_bottom == old(self).scroll_bottom,
            *final(self) == (TerminalState { screen: final(self).screen, ..*old(self) }),
    {
        let pt = self.screen.phys_row(self.scroll_top as i64);
        let pb = self.screen.phys_row(self.scroll_bottom as i64);
        proof {
            assert(pt <= pb);
        }
        self.screen.scroll_down_region(pt, pb);
    }

    /// Line feed: move down one row, scrolling the region when the
    /// cursor sits on its bottom row.
    fn advance_row(&mut self)
        requires
            old(self).wf(),
        ensures
            final(self).wf(),
            final(self).screen.rows == old(self).screen.rows,
            final(self).screen.cols == old(self).screen.cols,
            final(self).cursor.x == old(self).cursor.x,
            *final(self) == (TerminalState {
                screen: final(self).screen,
                cursor: final(self).cursor,
                links: final(self).links,
                ..*old(self)
            }),
            old(self).cursor.y != old(self).scroll_bottom as i64 && (old(self).cursor.y
                as int) < old(self).screen.rows - 1 ==> *final(self) == (TerminalState {
                cursor: CursorPosition {
                    x: old(self).cursor.x,
                    y: (old(self).cursor.y + 1) as i64,
                },
                ..*old(self)
            }),
            old(self).cursor.y != old(self).scroll_bottom as i64 && (old(self).cursor.y
                as int) >= old(self).screen.rows - 1 ==> *final(self) == *old(self),
    {
        let rows = self.screen.rows;
        if self.cursor.y == self.scroll_bottom as i64 {
            self.scroll_region_up();
        } else if self.cursor.y < (rows - 1) as i64 {
            self.cursor.y = self.cursor.y + 1;
        }
    }

    /// Wrap to the start of the next row, marking the row the cursor
    /// lands on as a soft-wrap continuation.
    fn wrap_to_next_row(&mut self)
        requires
            old(self).wf(),
        ensures
            final(self).wf(),
            final(self).cursor.x == 0,
            final(self).screen.rows == old(self).screen.rows,
            final(self).screen.cols == old(self).screen.cols,
            *final(self) == (TerminalState {
                screen: final(self).screen,
                cursor: final(self).cursor,
                links: final(self).links,
                ..*old(self)
            }),
            old(self).cursor.y != old(self).scroll_bottom as i64 && (old(self).cursor.y
                as int) < old(self).screen.rows - 1 ==> ({
                let phys = old(self).screen.phys_row_spec(old(self).cursor.y + 1);
                &&& final(self).cursor.y == old(self).cursor.y + 1
                &&& final(self).links == old(self).links
                &&& final(self).screen.lines@.len() == old(self).screen.lines@.len()
                &&& final(self).screen.lines@[phys].cells@ == old(self).screen.lines@[
                    phys].cells@
                &&& final(self).screen.lines@[phys].soft_wrapped
                &&& (forall|i: int| 0 <= i < old(self).screen.lines@.len() && i != phys
                    ==> final(self).screen.lines@[i] == old(self).screen.lines@[i])
            }),
    {
        self.advance_row();
        let phys = self.screen.phys_row(self.cursor.y);
        self.screen.set_soft_wrapped(phys, true);
        self.cursor.x = 0;
    }

    /// Write one glyph at the cursor, honoring autowrap, insert mode,
    /// wide-glyph pairing and the open hyperlink, and advance the cursor.
    pub fn print_glyph(&mut self, cp: u32)
        requires
            old(self).wf(),
        ensures
            final(self).wf(),
            final(self).screen.rows == old(self).screen.rows,
            final(self).screen.cols == old(self).screen.cols,
            // the common case pinned down exactly: a narrow glyph in
            // replace mode, short of the last column, lands at the cursor
            // with the current pen and open link, and the cursor moves
            // one column right
            *final(self) == (TerminalState {
                screen: final(self).screen,
                cursor: final(self).cursor,
                links: final(self).links,
                ..*old(self)
            }),
            // P6's second scenario pinned down: a full-width glyph at the
            // last column with autowrap on wraps whole to the start of
            // the next row (when no scroll is needed), never split
            (crate::cell::glyph_width_spec(cp) == 2 && !old(self).modes.insert && old(self).modes.autowrap && old(self).screen.cols >= 3 && old(self).cursor.x + 1
                >= old(self).screen.cols && old(self).cursor.y != old(self).scroll_bottom
                as i64 && (old(self).cursor.y as int) < old(self).screen.rows - 1) ==> ({
                let phys = old(self).screen.phys_row_spec(old(self).cursor.y + 1);
                let glyph = Cell {
                    cp,
                    width: 2,
                    attrs: old(self).pen,
                    link: old(self).current_link,
                };
                &&& final(self).cursor.y == old(self).cursor.y + 1
                &&& final(self).cursor.x == 2
                &&& final(self).screen.lines@.len() == old(self).screen.lines@.len()
                &&& final(self).screen.lines@[phys].cells@
                    == crate::line::Line::store_wide_spec(
                    old(self).screen.lines@[phys].cells@,
                    0,
                    glyph,
                )
                &&& final(self).screen.lines@[phys].soft_wrapped
                &&& (forall|i: int| 0 <= i < old(self).screen.lines@.len() && i != phys
                    ==> final(self).screen.lines@[i] == old(self).screen.lines@[i])
            }),
            (crate::cell::glyph_width_spec(cp) == 1 && !old(self).modes.insert && old(self).cursor.x + 1 < old(self).screen.cols) ==> ({
                let phys = old(self).screen.phys_row_spec(old(self).cursor.y as int);
                &&& final(self).screen.lines@[phys].cells@ == crate::line::Line::store_narrow_spec(
                    old(self).screen.lines@[phys].cells@,
                    old(self).cursor.x as int,
                    Cell {
                        cp,
                        width: 1,
                        attrs: old(self).pen,
                        link: old(self).current_link,
                    },
                )
                &&& final(self).cursor.x == old(self).cursor.x + 1
                &&& final(self).cursor.y == old(self).cursor.y
                &&& forall|i: int| 0 <= i < old(self).screen.lines@.len() && i != phys
                    ==> final(self).screen.lines@[i] == old(self).screen.lines@[i]
            }),
    {
        let w = glyph_width(cp);
        if w == 0 {
            // Combining marks and other zero-width scalars leave the
            // grid untouched.
            return ;
        }
        let cols = self.screen.cols;
        if w == 2 {
            if cols < 2 {
                return ;
            }
            if self.cursor.x + 1 >= cols {
                // The glyph does not fit in the remaining columns: wrap
                // whole, never split (or clamp without autowrap).
                if self.modes.autowrap {
                    self.wrap_to_next_row();
                } else {
                    self.cursor.x = cols - 2;
                }
            }
            if self.cursor.x + 1 >= cols {
                self.cursor.x = cols - 2;
            }
            let cell = Cell { cp, width: 2, attrs: self.pen, link: self.current_link };
            let phys = self.screen.phys_row(self.cursor.y);
            if self.modes.insert {
                let blank = Cell::blank();
                self.screen.insert_cell_at(phys, self.cursor.x, blank);
                self.screen.insert_cell_at(phys, self.cursor.x, blank);
            }
            self.screen.set_wide_cell_at(phys, self.cursor.x, cell);
            if self.cursor.x + 2 < cols {
                self.cursor.x = self.cursor.x + 2;
            } else if self.modes.autowrap {
                self.wrap_to_next_row();
            } else {
                self.cursor.x = cols - 1;
            }
        } else {
            let cell = Cell { cp, width: 1, attrs: self.pen, link: self.current_link };
            let phys = self.screen.phys_row(self.cursor.y);
            if self.modes.insert {
                self.screen.insert_cell_at(phys, self.cursor.x, cell);
            } else {
                self.screen.set_cell_at(phys, self.cursor.x, cell);
            }
            if self.cursor.x + 1 < cols {
                self.cursor.x = self.cursor.x + 1;
            } else if self.modes.autowrap {
                self.wrap_to_next_row();
            }
            // without autowrap the cursor sticks at the last column
        }
    }

    /// Horizontal tab: move to the next tab stop, or the last column.
    fn horizontal_tab(&mut self)
        requires
            old(self).wf(),
        ensures
            final(self).wf(),
            final(self).screen == old(self).screen,
            final(self).cursor.y == old(self).cursor.y,
            *final(self) == (TerminalState { cursor: final(self).cursor, ..*old(self) }),
    {
        let cols = self.screen.cols;
        let mut x = self.cursor.x;
        let mut found = false;
        let mut i = self.cursor.x + 1;
        while i < cols
            invariant
                self.wf(),
                cols == self.screen.cols,
                x < cols,
            decreases cols - i,
        {
            if !found && self.tab_stops[i] {
                x = i;
                found = true;
            }
            i = i + 1;
        }
        if !found {
            x = cols - 1;
        }
        self.cursor.x = x;
    }

    /// One CSI parameter, with `default` filling in absent or zero values.
    fn param_or(params: &Vec<u16>, i: usize, default: u16) -> (r: u16)
        ensures
            default > 0 ==> r > 0,
            r == csi_param(params@, i as int, default),
    {
        if i < params.len() {
            let v = params[i];
            if v == 0 {
                default
            } else {
                v
            }
        } else {
            default
        }
    }

    /// The raw value of one CSI parameter (zero kept as zero).
    fn param_raw(params: &Vec<u16>, i: usize, default: u16) -> (r: u16)
        ensures
            r == csi_param_raw(params@, i as int, default),
    {
        if i < params.len() {
            params[i]
        } else {
            default
        }
    }

    /// Erase part of the current row (EL selectivity 0/1/2): cells go
    /// back to default attributes, the buffer size never changes.
    fn erase_in_line(&mut self, which: u16)
        requires
            old(self).wf(),
        ensures
            final(self).wf(),
            final(self).cursor == old(self).cursor,
            final(self).screen.rows == old(self).screen.rows,
            final(self).screen.cols == old(self).screen.cols,
            *final(self) == (TerminalState { screen: final(self).screen, ..*old(self) }),
            final(self).screen.lines@.len() == old(self).screen.lines@.len(),
            which > 2 ==> *final(self) == *old(self),
            which <= 2 ==> ({
                let phys = old(self).screen.phys_row_spec(old(self).cursor.y as int);
                let cells = old(self).screen.lines@[phys].cells@;
                let start0: int = if which == 1 || which == 2 {
                    0
                } else {
                    old(self).cursor.x as int
                };
                let end0: int = if which == 0 || which == 2 {
                    cells.len() as int
                } else {
                    old(self).cursor.x + 1
                };
                let (sp, ep) = crate::line::Line::erase_span(cells, start0, end0);
                &&& (forall|j: int| 0 <= j < cells.len() ==> final(self).screen.lines@[
                    phys].cells@[j] == (if sp <= j < ep {
                    Cell::blank_spec()
                } else {
                    cells[j]
                }))
                &&& final(self).screen.lines@[phys].soft_wrapped == old(self).screen.lines@[phys].soft_wrapped
                &&& (forall|i: int| 0 <= i < old(self).screen.lines@.len() && i != phys
                    ==> final(self).screen.lines@[i] == old(self).screen.lines@[i])
            }),
    {
        let cols = self.screen.cols;
        let phys = self.screen.phys_row(self.cursor.y);
        if which == 0 {
            self.screen.erase_in_line(phys, self.cursor.x, cols);
        } else if which == 1 {
            self.screen.erase_in_line(phys, 0, self.cursor.x + 1);
        } else if which == 2 {
            self.screen.erase_in_line(phys, 0, cols);
        }
    }

    /// Erase part of the display (ED selectivity 0/1/2).
    fn erase_in_display(&mut self, which: u16)
        requires
            old(self).wf(),
        ensures
            final(self).wf(),
            final(self).cursor == old(self).cursor,
            final(self).screen.rows == old(self).screen.rows,
            final(self).screen.cols == old(self).screen.cols,
            *final(self) == (TerminalState { screen: final(self).screen, ..*old(self) }),
    {
        let rows = self.screen.rows;
        let cols = self.screen.cols;
        if which == 0 {
            self.erase_in_line(0);
            let mut y: i64 = self.cursor.y + 1;
            while y < rows as i64
                invariant
                    self.wf(),
                    rows == self.screen.rows,
                    cols == self.screen.cols,
                    self.cursor == old(self).cursor,
                    *self == (TerminalState { screen: self.screen, ..*old(self) }),
                    0 <= y,
                decreases rows as i64 - y,
            {
                let phys = self.screen.phys_row(y);
                self.screen.erase_in_line(phys, 0, cols);
                y = y + 1;
            }
        } else if which == 1 {
            self.erase_in_line(1);
            let mut y: i64 = 0;
            while y < self.cursor.y
                invariant
                    self.wf(),
                    rows == self.screen.rows,
                    cols == self.screen.cols,
                    self.cursor == old(self).cursor,
                    *self == (TerminalState { screen: self.screen, ..*old(self) }),
                    0 <= y,
                decreases self.cursor.y - y,
            {
                let phys = self.screen.phys_row(y);
                self.screen.erase_in_line(phys, 0, cols);
                y = y + 1;
            }
        } else if which == 2 {
            let mut y: i64 = 0;
            while y < rows as i64
                invariant
                    self.wf(),
                    rows == self.screen.rows,
                    cols == self.screen.cols,
                    self.cursor == old(self).cursor,
                    *self == (TerminalState { screen: self.screen, ..*old(self) }),
                    0 <= y,
                decreases rows as i64 - y,
            {
                let phys = self.screen.phys_row(y);
                self.screen.erase_in_line(phys, 0, cols);
                y = y + 1;
            }
        }
    }

    /// DECSTBM: set the scroll region, clamping out-of-range operands to
    /// the nearest valid ordered configuration, and home the cursor.
    pub fn set_scroll_region(&mut self, top_1based: u16, bottom_1based: u16)
        requires
            old(self).wf(),
        ensures
            final(self).wf(),
            final(self).scroll_top <= final(self).scroll_bottom,
            (final(self).scroll_bottom as int) < (final(self).screen.rows as int),
            final(self).cursor.x == 0,
            final(self).screen == old(self).screen,
            ({
                let (top, bottom) = clamped_region(
                    top_1based,
                    bottom_1based,
                    old(self).screen.rows as int,
                );
                &&& final(self).scroll_top == top
                &&& final(self).scroll_bottom == bottom
                &&& final(self).cursor.y == (if old(self).modes.origin {
                    top
                } else {
                    0
                })
            }),
            *final(self) == (TerminalState {
                scroll_top: final(self).scroll_top,
                scroll_bottom: final(self).scroll_bottom,
                cursor: final(self).cursor,
                ..*old(self)
            }),
    {
        let rows = self.screen.rows;
        let t0: usize = if top_1based == 0 {
            0
        } else {
            (top_1based - 1) as usize
        };
        let b0: usize = if bottom_1based == 0 {
            rows - 1
        } else {
            (bottom_1based - 1) as usize
        };
        let top = if t0 <= rows - 1 {
            t0
        } else {
            rows - 1
        };
        let bottom0 = if b0 <= rows - 1 {
            b0
        } else {
            rows - 1
        };
        let bottom = if bottom0 >= top {
            bottom0
        } else {
            top
        };
        self.scroll_top = top;
        self.scroll_bottom = bottom;
        let home_y: i64 = if self.modes.origin {
            top as i64
        } else {
            0
        };
        self.set_cursor_clamped(0, home_y);
    }

    /// Apply one SGR parameter to the pen.
    fn apply_sgr(&mut self, v: u16)
        ensures
            *final(self) == (TerminalState { pen: final(self).pen, ..*old(self) }),
    {
        if v == 0 {
            self.pen = CellAttributes::plain();
        } else if v == 1 {
            self.pen.bold = true;
        } else if v == 3 {
            self.pen.italic = true;
        } else if v == 4 {
            self.pen.underline = true;
        } else if v == 5 {
            self.pen.blink = true;
        } else if v == 7 {
            self.pen.inverse = true;
        } else if v == 8 {
            self.pen.invisible = true;
        } else if v == 9 {
            self.pen.strikethrough = true;
        } else if v == 22 {
            self.pen.bold = false;
        } else if v == 23 {
            self.pen.italic = false;
        } else if v == 24 {
            self.pen.underline = false;
        } else if v == 25 {
            self.pen.blink = false;
        } else if v == 27 {
            self.pen.inverse = false;
        } else if v == 28 {
            self.pen.invisible = false;
        } else if v == 29 {
            self.pen.strikethrough = false;
        } else if 30 <= v && v <= 37 {
            self.pen.fg = ColorRef::Indexed((v - 30) as u8);
        } else if v == 39 {
            self.pen.fg = ColorRef::Default;
        } else if 40 <= v && v <= 47 {
            self.pen.bg = ColorRef::Indexed((v - 40) as u8);
        } else if v == 49 {
            self.pen.bg = ColorRef::Default;
        } else if 90 <= v && v <= 97 {
            self.pen.fg = ColorRef::Indexed((v - 90 + 8) as u8);
        } else if 100 <= v && v <= 107 {
            self.pen.bg = ColorRef::Indexed((v - 100 + 8) as u8);
        }
        // other renditions are ignored
    }

    /// Set or reset one mode.  `private` marks DEC private modes (`?`).
    fn set_mode(&mut self, private: bool, num: u16, value: bool)
        requires
            old(self).wf(),
        ensures
            final(self).wf(),
            final(self).screen == old(self).screen,
            *final(self) == (TerminalState {
                modes: final(self).modes,
                cursor: final(self).cursor,
                ..*old(self)
            }),
    {
        if private {
            if num == 1 {
                self.modes.application_cursor_keys = value;
            } else if num == 6 {
                self.modes.origin = value;
                let home_y: i64 = if value {
                    self.scroll_top as i64
                } else {
                    0
                };
                self.set_cursor_clamped(0, home_y);
            } else if num == 7 {
                self.modes.autowrap = value;
            } else if num == 2004 {
                self.modes.bracketed_paste = value;
            }
            // unrecognized private modes are ignored
        } else {
            if num == 4 {
                self.modes.insert = value;
            }
            // unrecognized modes are ignored
        }
    }

    /// Handle a complete OSC string.  OSC 8 opens or closes an explicit
    /// hyperlink for subsequently written cells; everything else is
    /// ignored.
    fn handle_osc(&mut self, bytes: &Vec<u8>)
        requires
            old(self).wf(),
        ensures
            final(self).wf(),
            final(self).screen == old(self).screen,
            final(self).cursor == old(self).cursor,
            *final(self) == (TerminalState {
                links: final(self).links,
                current_link: final(self).current_link,
                ..*old(self)
            }),
    {
        let n = bytes.len();
        if n >= 2 && bytes[0] == 0x38 && bytes[1] == 0x3b {
            // "8;params;uri"
            let mut semi: usize = 2;
            let mut found = false;
            let mut i: usize = 2;
            while i < n
                invariant
                    2 <= i,
                    i <= n,
                    n == bytes@.len(),
                    2 <= semi,
                    semi <= n,
                    found ==> semi < n,
                decreases n - i,
            {
                if !found && bytes[i] == 0x3b {
                    semi = i;
                    found = true;
                }
                i = i + 1;
            }
            if found {
                // id attribute: everything between the semicolons.
                let mut idb: Vec<u8> = Vec::new();
                let mut k: usize = 2;
                while k < semi
                    invariant
                        semi <= n,
                        n == bytes@.len(),
                        k <= semi,
                    decreases semi - k,
                {
                    idb.push(bytes[k]);
                    k = k + 1;
                }
                let mut uri: Vec<u8> = Vec::new();
                let mut j: usize = semi + 1;
                while j < n
                    invariant
                        n == bytes@.len(),
                        j <= n || j == semi + 1,
                        semi < n,
                    decreases n - j,
                {
                    uri.push(bytes[j]);
                    j = j + 1;
                }
                if uri.len() == 0 {
                    self.current_link = None;
                } else {
                    let id = self.links.intern(uri, idb, false);
                    self.current_link = Some(id);
                }
            }
        }
    }

    /// Apply one parsed action to the state.
    pub fn apply_action(&mut self, action: &Action)
        requires
            old(self).wf(),
        ensures
            final(self).wf(),
            final(self).screen.rows == old(self).screen.rows,
            final(self).screen.cols == old(self).screen.cols,
            final(self).parser == old(self).parser,
            action@ is Ignored ==> *final(self) == *old(self),
            action@ is DcsDispatch ==> *final(self) == *old(self),
            // carriage return: column zero, nothing else
            action@ == crate::parser::ActionV::Control(0x0du8) ==> *final(self)
                == (TerminalState {
                cursor: CursorPosition { x: 0, y: old(self).cursor.y },
                ..*old(self)
            }),
            // backspace: one column left, clamped
            action@ == crate::parser::ActionV::Control(0x08u8) ==> *final(self)
                == (TerminalState {
                cursor: CursorPosition {
                    x: (if old(self).cursor.x > 0 {
                        old(self).cursor.x - 1
                    } else {
                        0
                    }) as usize,
                    y: old(self).cursor.y,
                },
                ..*old(self)
            }),
            // any other control byte that the model does not consume
            // leaves the state untouched
            (action@ matches crate::parser::ActionV::Control(b) ==> (b != 0x08 && b
                != 0x09 && b != 0x0a && b != 0x0b && b != 0x0c && b != 0x0d ==> *final(self) == *old(self))),
            // a narrow glyph in replace mode, short of the last column,
            // lands at the cursor and moves it one column right
            (action@ matches crate::parser::ActionV::Print(cp) ==> ((
            crate::cell::glyph_width_spec(cp) == 1 && !old(self).modes.insert && old(
                self,
            ).cursor.x + 1 < old(self).screen.cols) ==> ({
                let phys = old(self).screen.phys_row_spec(old(self).cursor.y as int);
                &&& final(self).screen.lines@[phys].cells@
                    == crate::line::Line::store_narrow_spec(
                    old(self).screen.lines@[phys].cells@,
                    old(self).cursor.x as int,
                    Cell {
                        cp,
                        width: 1,
                        attrs: old(self).pen,
                        link: old(self).current_link,
                    },
                )
                &&& final(self).cursor.x == old(self).cursor.x + 1
                &&& final(self).cursor.y == old(self).cursor.y
                &&& (forall|i: int| 0 <= i < old(self).screen.lines@.len() && i != phys
                    ==> final(self).screen.lines@[i] == old(self).screen.lines@[i])
            }))),
            // a full-width glyph at the last column with autowrap wraps
            // whole to the start of the next row, never split
            (action@ matches crate::parser::ActionV::Print(cp) ==> ((
            crate::cell::glyph_width_spec(cp) == 2 && !old(self).modes.insert && old(
                self,
            ).modes.autowrap && old(self).screen.cols >= 3 && old(self).cursor.x + 1
                >= old(self).screen.cols && old(self).cursor.y != old(self).scroll_bottom
                as i64 && (old(self).cursor.y as int) < old(self).screen.rows - 1) ==> ({
                let phys = old(self).screen.phys_row_spec(old(self).cursor.y + 1);
                let glyph = Cell {
                    cp,
                    width: 2,
                    attrs: old(self).pen,
                    link: old(self).current_link,
                };
                &&& final(self).cursor.y == old(self).cursor.y + 1
                &&& final(self).cursor.x == 2
                &&& final(self).screen.lines@[phys].cells@
                    == crate::line::Line::store_wide_spec(
                    old(self).screen.lines@[phys].cells@,
                    0,
                    glyph,
                )
                &&& final(self).screen.lines@[phys].soft_wrapped
                &&& (forall|i: int| 0 <= i < old(self).screen.lines@.len() && i != phys
                    ==> final(self).screen.lines@[i] == old(self).screen.lines@[i])
            }))),
            // cursor-up / cursor-down: the clamped relative target (CSI A/B)
            (action@ matches crate::parser::ActionV::CsiDispatch(ps, ints, f) ==> (f
                == 0x41 ==> *final(self) == (TerminalState {
                cursor: CursorPosition {
                    x: old(self).cursor.x,
                    y: old(self).resolve_position_spec(
                        Position::Relative((-(csi_param(ps, 0, 1) as int)) as i64),
                    ) as i64,
                },
                ..*old(self)
            }))),
            (action@ matches crate::parser::ActionV::CsiDispatch(ps, ints, f) ==> (f
                == 0x42 || f == 0x65 ==> *final(self) == (TerminalState {
                cursor: CursorPosition {
                    x: old(self).cursor.x,
                    y: old(self).resolve_position_spec(
                        Position::Relative(csi_param(ps, 0, 1) as i64),
                    ) as i64,
                },
                ..*old(self)
            }))),
            // cursor-right, clamped at the last column (CSI C)
            (action@ matches crate::parser::ActionV::CsiDispatch(ps, ints, f) ==> (f
                == 0x43 || f == 0x61 ==> *final(self) == (TerminalState {
                cursor: CursorPosition {
                    x: (if old(self).cursor.x + csi_param(ps, 0, 1) < old(
                        self,
                    ).screen.cols {
                        old(self).cursor.x + csi_param(ps, 0, 1)
                    } else {
                        old(self).screen.cols - 1
                    }) as usize,
                    y: old(self).cursor.y,
                },
                ..*old(self)
            }))),
            // select-graphic-rendition touches only the pen (CSI m)
            (action@ matches crate::parser::ActionV::CsiDispatch(ps, ints, f) ==> (f
                == 0x6d ==> *final(self) == (TerminalState {
                pen: final(self).pen,
                ..*old(self)
            }))),
            // cursor-left, clamped at column zero (CSI D)
            (action@ matches crate::parser::ActionV::CsiDispatch(ps, ints, f) ==> (f
                == 0x44 ==> *final(self) == (TerminalState {
                cursor: CursorPosition {
                    x: (if csi_param(ps, 0, 1) as int <= old(self).cursor.x as int {
                        old(self).cursor.x - csi_param(ps, 0, 1)
                    } else {
                        0
                    }) as usize,
                    y: old(self).cursor.y,
                },
                ..*old(self)
            }))),
            // cursor-position, both coordinates resolved and clamped (CSI H)
            (action@ matches crate::parser::ActionV::CsiDispatch(ps, ints, f) ==> (f
                == 0x48 || f == 0x66 ==> *final(self) == (TerminalState {
                cursor: CursorPosition {
                    x: (if csi_param(ps, 1, 1) - 1 <= old(self).screen.cols - 1 {
                        csi_param(ps, 1, 1) - 1
                    } else {
                        old(self).screen.cols - 1
                    }) as usize,
                    y: old(self).resolve_position_spec(
                        Position::Absolute((csi_param(ps, 0, 1) - 1) as i64),
                    ) as i64,
                },
                ..*old(self)
            }))),
            // erase to end of line (CSI K with default selectivity)
            (action@ matches crate::parser::ActionV::CsiDispatch(ps, ints, f) ==> (f
                == 0x4b && csi_param_raw(ps, 0, 0) == 0 ==> ({
                let phys = old(self).screen.phys_row_spec(old(self).cursor.y as int);
                let cells = old(self).screen.lines@[phys].cells@;
                let (sp, ep) = crate::line::Line::erase_span(
                    cells,
                    old(self).cursor.x as int,
                    cells.len() as int,
                );
                &&& *final(self) == (TerminalState {
                    screen: final(self).screen,
                    ..*old(self)
                })
                &&& final(self).screen.lines@.len() == old(self).screen.lines@.len()
                &&& (forall|j: int| 0 <= j < cells.len() ==> final(self).screen.lines@[
                    phys].cells@[j] == (if sp <= j < ep {
                    Cell::blank_spec()
                } else {
                    cells[j]
                }))
                &&& final(self).screen.lines@[phys].soft_wrapped == old(
                    self,
                ).screen.lines@[phys].soft_wrapped
                &&& (forall|i: int| 0 <= i < old(self).screen.lines@.len() && i != phys
                    ==> final(self).screen.lines@[i] == old(self).screen.lines@[i])
            }))),
    {
        match action {
            Action::Print(cp) => {
                self.print_glyph(*cp);
            },
            Action::Control(b) => {
                let c = *b;
                if c == 0x08 {
                    if self.cursor.x > 0 {
                        self.cursor.x = self.cursor.x - 1;
                    }
                } else if c == 0x09 {
                    self.horizontal_tab();
                } else if c == 0x0a || c == 0x0b || c == 0x0c {
                    self.advance_row();
                } else if c == 0x0d {
                    self.cursor.x = 0;
                }
                // BEL and the rest of C0 leave the model untouched
            },
            Action::EscDispatch(b) => {
                let c = *b;
                if c == 0x44 {
                    // IND
                    self.advance_row();
                } else if c == 0x45 {
                    // NEL
                    self.cursor.x = 0;
                    self.advance_row();
                } else if c == 0x4d {
                    // RI
                    if self.cursor.y == self.scroll_top as i64 {
                        self.scroll_region_down();
                    } else if self.cursor.y > 0 {
                        self.cursor.y = self.cursor.y - 1;
                    }
                } else if c == 0x48 {
                    // HTS
                    let x = self.cursor.x;
                    self.tab_stops.set(x, true);
                } else if c == 0x37 {
                    // DECSC
                    self.saved_cursor = self.cursor;
                    self.saved_pen = self.pen;
                } else if c == 0x38 {
                    // DECRC
                    let saved = self.saved_cursor;
                    let y: i64 = if 0 <= saved.y && saved.y < self.screen.rows as i64 {
                        saved.y
                    } else {
                        0
                    };
                    self.set_cursor_clamped(saved.x, y);
                    self.pen = self.saved_pen;
                }
                // other escape dispatches are ignored
            },
            Action::CsiDispatch(params, intermediates, fin) => {
                self.apply_csi(params, intermediates, *fin);
            },
            Action::OscDispatch(bytes) => {
                self.handle_osc(bytes);
            },
            Action::DcsDispatch(_) => {
                // DCS passthrough carries nothing this model consumes
            },
            Action::Ignored => {},
        }
    }

    /// Apply a complete CSI sequence.
    fn apply_csi(&mut self, params: &Vec<u16>, intermediates: &Vec<u8>, fin: u8)
        requires
            old(self).wf(),
        ensures
            final(self).wf(),
            final(self).screen.rows == old(self).screen.rows,
            final(self).screen.cols == old(self).screen.cols,
            final(self).parser == old(self).parser,
            // cursor-up: the row is the clamped relative target
            fin == 0x41 ==> *final(self) == (TerminalState {
                cursor: CursorPosition {
                    x: old(self).cursor.x,
                    y: old(self).resolve_position_spec(
                        Position::Relative((-(csi_param(params@, 0, 1) as int)) as i64),
                    ) as i64,
                },
                ..*old(self)
            }),
            // cursor-down
            fin == 0x42 || fin == 0x65 ==> *final(self) == (TerminalState {
                cursor: CursorPosition {
                    x: old(self).cursor.x,
                    y: old(self).resolve_position_spec(
                        Position::Relative(csi_param(params@, 0, 1) as i64),
                    ) as i64,
                },
                ..*old(self)
            }),
            // cursor-right: clamped at the last column
            fin == 0x43 || fin == 0x61 ==> *final(self) == (TerminalState {
                cursor: CursorPosition {
                    x: (if old(self).cursor.x + csi_param(params@, 0, 1) < old(self).screen.cols {
                        old(self).cursor.x + csi_param(params@, 0, 1)
                    } else {
                        old(self).screen.cols - 1
                    }) as usize,
                    y: old(self).cursor.y,
                },
                ..*old(self)
            }),
            // cursor-left: clamped at column zero
            fin == 0x44 ==> *final(self) == (TerminalState {
                cursor: CursorPosition {
                    x: (if csi_param(params@, 0, 1) as int <= old(self).cursor.x as int {
                        old(self).cursor.x - csi_param(params@, 0, 1)
                    } else {
                        0
                    }) as usize,
                    y: old(self).cursor.y,
                },
                ..*old(self)
            }),
            // cursor-position: both coordinates resolved and clamped
            fin == 0x48 || fin == 0x66 ==> *final(self) == (TerminalState {
                cursor: CursorPosition {
                    x: (if csi_param(params@, 1, 1) - 1 <= old(self).screen.cols - 1 {
                        csi_param(params@, 1, 1) - 1
                    } else {
                        old(self).screen.cols - 1
                    }) as usize,
                    y: old(self).resolve_position_spec(
                        Position::Absolute((csi_param(params@, 0, 1) - 1) as i64),
                    ) as i64,
                },
                ..*old(self)
            }),
            // select-graphic-rendition touches only the pen
            fin == 0x6d ==> *final(self) == (TerminalState {
                pen: final(self).pen,
                ..*old(self)
            }),
            // erase-to-end-of-line: the cells from the cursor (widened
            // over a straddled wide pair) become blanks, nothing else
            fin == 0x4b && csi_param_raw(params@, 0, 0) == 0 ==> ({
                let phys = old(self).screen.phys_row_spec(old(self).cursor.y as int);
                let cells = old(self).screen.lines@[phys].cells@;
                let (sp, ep) = crate::line::Line::erase_span(
                    cells,
                    old(self).cursor.x as int,
                    cells.len() as int,
                );
                &&& *final(self) == (TerminalState {
                    screen: final(self).screen,
                    ..*old(self)
                })
                &&& final(self).screen.lines@.len() == old(self).screen.lines@.len()
                &&& (forall|j: int| 0 <= j < cells.len() ==> final(self).screen.lines@[
                    phys].cells@[j] == (if sp <= j < ep {
                    Cell::blank_spec()
                } else {
                    cells[j]
                }))
                &&& final(self).screen.lines@[phys].soft_wrapped == old(self).screen.lines@[phys].soft_wrapped
                &&& (forall|i: int| 0 <= i < old(self).screen.lines@.len() && i != phys
                    ==> final(self).screen.lines@[i] == old(self).screen.lines@[i])
            }),
    {
        let private = intermediates.len() > 0 && intermediates[0] == 0x3f;
        let rows = self.screen.rows;
        let cols = self.screen.cols;
        if fin == 0x41 || fin == 0x6b {
            // CUU
            let n = TerminalState::param_or(params, 0, 1);
            let y = self.resolve_position(&Position::Relative(-(n as i64)));
            let x = self.cursor.x;
            self.set_cursor_clamped(x, y);
        } else if fin == 0x42 || fin == 0x65 {
            // CUD / VPR
            let n = TerminalState::param_or(params, 0, 1);
            let y = self.resolve_position(&Position::Relative(n as i64));
            let x = self.cursor.x;
            self.set_cursor_clamped(x, y);
        } else if fin == 0x43 || fin == 0x61 {
            // CUF
            let n = TerminalState::param_or(params, 0, 1) as usize;
            let x = if self.cursor.x + n < cols {
                self.cursor.x + n
            } else {
                cols - 1
            };
            self.cursor.x = x;
        } else if fin == 0x44 {
            // CUB
            let n = TerminalState::param_or(params, 0, 1) as usize;
            let x = if n <= self.cursor.x {
                self.cursor.x - n
            } else {
                0
            };
            self.cursor.x = x;
        } else if fin == 0x47 || fin == 0x60 {
            // CHA
            let n = TerminalState::param_or(params, 0, 1) as usize;
            let x = n - 1;
            let y = self.cursor.y;
            self.set_cursor_clamped(x, y);
        } else if fin == 0x64 {
            // VPA
            let n = TerminalState::param_or(params, 0, 1);
            let y = self.resolve_position(&Position::Absolute((n - 1) as i64));
            let x = self.cursor.x;
            self.set_cursor_clamped(x, y);
        } else if fin == 0x48 || fin == 0x66 {
            // CUP / HVP
            let row = TerminalState::param_or(params, 0, 1);
            let col = TerminalState::param_or(params, 1, 1);
            let y = self.resolve_position(&Position::Absolute((row - 1) as i64));
            self.set_cursor_clamped((col - 1) as usize, y);
        } else if fin == 0x4a {
            // ED
            let which = TerminalState::param_raw(params, 0, 0);
            self.erase_in_display(which);
        } else if fin == 0x4b {
            // EL
            let which = TerminalState::param_raw(params, 0, 0);
            self.erase_in_line(which);
        } else if fin == 0x4c {
            // IL
            let n = TerminalState::param_or(params, 0, 1);
            if self.cursor.y >= self.scroll_top as i64 && self.cursor.y
                <= self.scroll_bottom as i64 {
                let mut k: u16 = 0;
                while k < n
                    invariant
                        self.wf(),
                        rows == self.screen.rows,
                        cols == self.screen.cols,
                        self.parser == old(self).parser,
                        0 <= self.cursor.y,
                        (self.cursor.y as int) < (rows as int),
                    decreases n - k,
                {
                    let pt = self.screen.phys_row(self.cursor.y);
                    let pb = self.screen.phys_row(self.scroll_bottom as i64);
                    if pt <= pb {
                        self.screen.scroll_down_region(pt, pb);
                    }
                    k = k + 1;
                }
            }
        } else if fin == 0x4d {
            // DL
            let n = TerminalState::param_or(params, 0, 1);
            if self.cursor.y >= self.scroll_top as i64 && self.cursor.y
                <= self.scroll_bottom as i64 {
                let mut k: u16 = 0;
                while k < n
                    invariant
                        self.wf(),
                        rows == self.screen.rows,
                        cols == self.screen.cols,
                        self.parser == old(self).parser,
                        0 <= self.cursor.y,
                        (self.cursor.y as int) < (rows as int),
                    decreases n - k,
                {
                    let pt = self.screen.phys_row(self.cursor.y);
                    let pb = self.screen.phys_row(self.scroll_bottom as i64);
                    if pt <= pb {
                        self.screen.scroll_up_region(pt, pb);
                    }
                    k = k + 1;
                }
            }
        } else if fin == 0x40 {
            // ICH
            let n = TerminalState::param_or(params, 0, 1);
            let phys = self.screen.phys_row(self.cursor.y);
            let mut k: u16 = 0;
            while k < n
                invariant
                    self.wf(),
                    rows == self.screen.rows,
                    cols == self.screen.cols,
                    self.parser == old(self).parser,
                    phys < self.screen.lines@.len(),
                    self.cursor.x < cols,
                decreases n - k,
            {
                let blank = Cell::blank();
                self.screen.insert_cell_at(phys, self.cursor.x, blank);
                k = k + 1;
            }
        } else if fin == 0x50 {
            // DCH
            let n = TerminalState::param_or(params, 0, 1);
            let phys = self.screen.phys_row(self.cursor.y);
            let mut k: u16 = 0;
            while k < n
                invariant
                    self.wf(),
                    rows == self.screen.rows,
                    cols == self.screen.cols,
                    self.parser == old(self).parser,
                    phys < self.screen.lines@.len(),
                    self.cursor.x < cols,
                decreases n - k,
            {
                self.screen.delete_cell_at(phys, self.cursor.x);
                k = k + 1;
            }
        } else if fin == 0x53 {
            // SU
            let n = TerminalState::param_or(params, 0, 1);
            let mut k: u16 = 0;
            while k < n
                invariant
                    self.wf(),
                    rows == self.screen.rows,
                    cols == self.screen.cols,
                    self.parser == old(self).parser,
                decreases n - k,
            {
                self.scroll_region_up();
                k = k + 1;
            }
        } else if fin == 0x54 {
            // SD
            let n = TerminalState::param_or(params, 0, 1);
            let mut k: u16 = 0;
            while k < n
                invariant
                    self.wf(),
                    rows == self.screen.rows,
                    cols == self.screen.cols,
                    self.parser == old(self).parser,
                decreases n - k,
            {
                self.scroll_region_down();
                k = k + 1;
            }
        } else if fin == 0x6d {
            // SGR
            if params.len() == 0 {
                self.apply_sgr(0);
            } else {
                let mut k: usize = 0;
                while k < params.len()
                    invariant
                        self.wf(),
                        rows == self.screen.rows,
                        cols == self.screen.cols,
                        *self == (TerminalState { pen: self.pen, ..*old(self) }),
                    decreases params@.len() - k,
                {
                    let v = params[k];
                    self.apply_sgr(v);
                    k = k + 1;
                }
            }
        } else if fin == 0x72 {
            // DECSTBM
            if !private {
                let t = TerminalState::param_raw(params, 0, 0);
                let b = TerminalState::param_raw(params, 1, 0);
                self.set_scroll_region(t, b);
            }
        } else if fin == 0x63 {
            // DA: answer with the fixed identification reply
            if !private && TerminalState::param_raw(params, 0, 0) == 0 {
                let ident = device_ident();
                let mut k: usize = 0;
                while k < ident.len()
                    invariant
                        self.wf(),
                        rows == self.screen.rows,
                        cols == self.screen.cols,
                        self.parser == old(self).parser,
                    decreases ident@.len() - k,
                {
                    self.answerback.push(ident[k]);
                    k = k + 1;
                }
            }
        } else if fin == 0x67 {
            // TBC
            let which = TerminalState::param_raw(params, 0, 0);
            if which == 0 {
                let x = self.cursor.x;
                self.tab_stops.set(x, false);
            } else if which == 3 {
                let mut k: usize = 0;
                while k < self.tab_stops.len()
                    invariant
                        self.wf(),
                        rows == self.screen.rows,
                        cols == self.screen.cols,
                        self.parser == old(self).parser,
                        self.tab_stops@.len() == cols,
                    decreases self.tab_stops@.len() - k,
                {
                    self.tab_stops.set(k, false);
                    k = k + 1;
                }
            }
        } else if fin == 0x68 {
            // SM / DECSET
            let mut k: usize = 0;
            while k < params.len()
                invariant
                    self.wf(),
                    rows == self.screen.rows,
                    cols == self.screen.cols,
                    self.parser == old(self).parser,
                decreases params@.len() - k,
            {
                let v = params[k];
                self.set_mode(private, v, true);
                k = k + 1;
            }
        } else if fin == 0x6c {
            // RM / DECRST
            let mut k: usize = 0;
            while k < params.len()
                invariant
                    self.wf(),
                    rows == self.screen.rows,
                    cols == self.screen.cols,
                    self.parser == old(self).parser,
                decreases params@.len() - k,
            {
                let v = params[k];
                self.set_mode(private, v, false);
                k = k + 1;
            }
        }
        // any other final byte is ignored
    }

    /// Feed one chunk of raw bytes: parse, apply every resulting action,
    /// then rescan the cursor row for implicit hyperlink patterns.  After
    /// the call the state is self-consistent, whatever the bytes were.
    pub fn advance_bytes(&mut self, bytes: &[u8])
        requires
            old(self).wf(),
        ensures
            final(self).wf(),
            final(self).screen.rows == old(self).screen.rows,
            final(self).screen.cols == old(self).screen.cols,
            // the parser advances by exactly the per-byte fold, whatever
            // the chunk boundaries: this is what makes feeding resumable
            final(self).parser@ == crate::parser::run_spec(old(self).parser@, bytes@).st,
    {
        let actions = self.parser.advance(bytes);
        let ghost parsed = self.parser@;
        let rows = self.screen.rows;
        let cols = self.screen.cols;
        let mut i: usize = 0;
        while i < actions.len()
            invariant
                self.wf(),
                rows == self.screen.rows,
                cols == self.screen.cols,
                self.parser@ == parsed,
            decreases actions@.len() - i,
        {
            self.apply_action(&actions[i]);
            i = i + 1;
        }
        if self.patterns.len() > 0 {
            let phys = self.screen.phys_row(self.cursor.y);
            rescan_line(&mut self.screen, &mut self.links, &self.patterns, phys);
        }
    }

    /// Resize to a new geometry: the screen is reflowed (see the
    /// `reflow` module), the selection is cleared, the scroll region is
    /// re-clamped to the full new window, the tab stops are rebuilt and
    /// the cursor is clamped into the new bounds.  Zero rows or columns
    /// is the one loud error, and leaves the state untouched.
    pub fn resize(&mut self, new_rows: usize, new_cols: usize) -> (r: Result<(), TermError>)
        requires
            old(self).wf(),
            new_rows <= 0x3FFF_FFFF,
            new_cols <= 0x3FFF_FFFF,
        ensures
            new_rows == 0 ==> r == Result::<(), TermError>::Err(TermError::ZeroRows)
                && *final(self) == *old(self),
            new_rows > 0 && new_cols == 0 ==> r == Result::<(), TermError>::Err(
                TermError::ZeroCols,
            ) && *final(self) == *old(self),
            new_rows > 0 && new_cols > 0 ==> (r == Result::<(), TermError>::Ok(()) && final(self).wf() && final(self).screen.rows == new_rows && final(self).screen.cols
                == new_cols && final(self).selection.anchor is None && final(self).scroll_top == 0 && final(self).scroll_bottom + 1 == new_rows
                && final(self).cursor.x == (if old(self).cursor.x < new_cols {
                old(self).cursor.x as int
            } else {
                new_cols - 1
            }) && final(self).cursor.y == (if old(self).cursor.y < new_rows as i64 {
                old(self).cursor.y as int
            } else {
                new_rows - 1
            })
                && crate::reflow::lines_view(final(self).screen.lines@)
                == crate::reflow::trim_front(
                crate::reflow::reflow_spec(
                    crate::reflow::lines_view(old(self).screen.lines@),
                    new_rows as nat,
                    new_cols as nat,
                ),
                (new_rows + old(self).screen.scrollback_limit) as nat,
            )),
    {
        match self.screen.resize(new_rows, new_cols) {
            Err(e) => {
                return Err(e);
            },
            Ok(()) => {},
        }
        self.scroll_top = 0;
        self.scroll_bottom = new_rows - 1;
        if self.cursor.x >= new_cols {
            self.cursor.x = new_cols - 1;
        }
        if self.cursor.y >= new_rows as i64 {
            self.cursor.y = new_rows as i64 - 1;
        }
        self.selection.clear();
        let mut tab_stops: Vec<bool> = Vec::new();
        let mut i: usize = 0;
        while i < new_cols
            invariant
                i <= new_cols,
                tab_stops@.len() == i,
            decreases new_cols - i,
        {
            tab_stops.push(i % 8 == 0);
            i = i + 1;
        }
        self.tab_stops = tab_stops;
        Ok(())
    }

    /// Drain the bytes owed to the host (device-attribute responses).
    pub fn take_answerback(&mut self) -> (r: Vec<u8>)
        ensures
            r@ == old(self).answerback@,
            *final(self) == (TerminalState { answerback: final(self).answerback, ..*old(self) }),
            final(self).answerback@.len() == 0,
    {
        let mut out: Vec<u8> = Vec::new();
        core::mem::swap(&mut out, &mut self.answerback);
        out
    }

    /// The cursor, for renderers and selection.
    pub fn cursor_position(&self) -> (r: CursorPosition)
        ensures
            r == self.cursor,
    {
        self.cursor
    }
}

/// The clamping law: in every well-formed terminal state — which `new`
/// establishes and `advance_bytes`, `apply_action` and `resize` preserve
/// for arbitrary (including out-of-range) operands — the cursor lies
/// within `[0, rows) x [0, cols)` and the scroll region is ordered and
/// inside the window.
pub proof fn lemma_clamping_invariant(t: TerminalState)
    requires
        t.wf(),
    ensures
        0 <= t.cursor.y,
        (t.cursor.y as int) < (t.screen.rows as int),
        (t.cursor.x as int) < (t.screen.cols as int),
        t.scroll_top <= t.scroll_bottom,
        (t.scroll_bottom as int) < (t.screen.rows as int),
{
}

} // verus!
