//! The buffer of rows spanning scrollback and the visible viewport.
//!
//! Rows are addressed physically (`PhysRowIndex`, 0 = oldest retained
//! row).  The visible window is the last `rows` entries of the buffer;
//! `VisibleRowIndex` values are resolved against that window and clamped,
//! never wrapped.

use vstd::prelude::*;
use crate::cell::Cell;
use crate::line::{Line, pair_ok, all_cells_wf};
use crate::{TermError, VisibleRowIndex, ScrollbackOrVisibleRowIndex};

verus! {

/// The buffer of retained rows plus the configured geometry.
#[derive(Debug)]
pub struct Screen {
    /// All retained rows, oldest first.  The visible window is the last
    /// `rows` entries.
    pub lines: Vec<Line>,
    /// Height of the visible window, in rows.
    pub rows: usize,
    /// Width of every row, in columns.
    pub cols: usize,
    /// How many rows beyond the visible window are retained before the
    /// oldest are trimmed.
    pub scrollback_limit: usize,
}

impl Screen {
    /// Geometry is non-degenerate, the buffer always holds at least a
    /// full window of rows, and every row is well formed at the current
    /// column count.
    pub open spec fn wf(self) -> bool {
        &&& self.rows >= 1
        &&& self.cols >= 1
        &&& self.rows <= 0x3FFF_FFFF
        &&& self.cols <= 0x3FFF_FFFF
        &&& self.scrollback_limit <= 0x3FFF_FFFF
        &&& self.lines@.len() >= self.rows
        &&& self.lines@.len() <= 0xFFFF_FFFF
        &&& forall|i: int| 0 <= i < self.lines@.len() ==> (#[trigger] self.lines@[i]).wf(
            self.cols as nat)
    }

    /// Physical index of the first visible row.
    pub open spec fn visible_base(self) -> int {
        self.lines@.len() - self.rows
    }

    /// Resolution of a visible row index to a physical row, clamped to
    /// the buffer bounds: out-of-range requests never wrap.
    pub open spec fn phys_row_spec(self, y: int) -> int {
        let t = self.visible_base() + y;
        if t < 0 {
            0
        } else if t >= self.lines@.len() {
            self.lines@.len() - 1
        } else {
            t
        }
    }

    /// A fresh screen: `rows` blank visible rows, no scrollback yet.
    /// Degenerate geometry is the one loud, caller-visible error.
    pub fn new(rows: usize, cols: usize, scrollback_limit: usize) -> (r: Result<
        Screen,
        TermError,
    >)
        requires
            rows <= 0x3FFF_FFFF,
            cols <= 0x3FFF_FFFF,
            scrollback_limit <= 0x3FFF_FFFF,
        ensures
            rows == 0 ==> r == Result::<Screen, TermError>::Err(TermError::ZeroRows),
            rows > 0 && cols == 0 ==> r == Result::<Screen, TermError>::Err(
                TermError::ZeroCols,
            ),
            rows > 0 && cols > 0 ==> (r matches Ok(s) && s.wf() && s.rows == rows && s.cols
                == cols && s.scrollback_limit == scrollback_limit && s.lines@.len() == rows
                && (forall|i: int| 0 <= i < rows ==> (#[trigger] s.lines@[i]).cells@
                =~= Line::blank_line_spec(cols as nat) && !s.lines@[i].soft_wrapped)),
    {
        if rows == 0 {
            return Err(TermError::ZeroRows);
        }
        if cols == 0 {
            return Err(TermError::ZeroCols);
        }
        let mut lines: Vec<Line> = Vec::new();
        let mut i: usize = 0;
        while i < rows
            invariant
                i <= rows,
                cols >= 1,
                lines@.len() == i,
                forall|j: int| 0 <= j < i ==> (#[trigger] lines@[j]).wf(cols as nat)
                    && lines@[j].cells@ =~= Line::blank_line_spec(cols as nat)
                    && !lines@[j].soft_wrapped,
            decreases rows - i,
        {
            lines.push(Line::blank(cols));
            i = i + 1;
        }
        Ok(Screen { lines, rows, cols, scrollback_limit })
    }

    /// Resolve a visible row index to a physical row, clamping to the
    /// buffer bounds.
    pub fn phys_row(&self, y: VisibleRowIndex) -> (r: usize)
        requires
            self.wf(),
        ensures
            r == self.phys_row_spec(y as int),
            r < self.lines@.len(),
    {
        let len = self.lines.len();
        let t: i128 = (len - self.rows) as i128 + y as i128;
        if t < 0 {
            0
        } else if t >= len as i128 {
            len - 1
        } else {
            t as usize
        }
    }

    /// Resolve a scrollback-or-visible row index (which may point above
    /// the window) to a physical row, clamping to the buffer bounds.
    pub fn phys_row_from_scrollback(&self, y: ScrollbackOrVisibleRowIndex) -> (r: usize)
        requires
            self.wf(),
        ensures
            r == self.phys_row_spec(y as int),
            r < self.lines@.len(),
    {
        let len = self.lines.len();
        let t: i128 = (len - self.rows) as i128 + y as i128;
        if t < 0 {
            0
        } else if t >= len as i128 {
            len - 1
        } else {
            t as usize
        }
    }

    /// Read one cell.
    pub fn get_cell(&self, phys: usize, x: usize) -> (c: Cell)
        requires
            self.wf(),
            phys < self.lines@.len(),
            x < self.cols,
        ensures
            c == self.lines@[phys as int].cells@[x as int],
    {
        self.lines[phys].cells[x]
    }

    /// Whether the given row is a soft-wrap continuation of the row above.
    pub fn is_soft_wrapped(&self, phys: usize) -> (r: bool)
        requires
            self.wf(),
            phys < self.lines@.len(),
        ensures
            r == self.lines@[phys as int].soft_wrapped,
    {
        self.lines[phys].soft_wrapped
    }

    /// Store a narrow cell at `(phys, x)` (see `Line::set_cell`).
    pub fn set_cell_at(&mut self, phys: usize, x: usize, c: Cell)
        requires
            old(self).wf(),
            phys < old(self).lines@.len(),
            x < old(self).cols,
            c.width == 1,
        ensures
            final(self).wf(),
            final(self).rows == old(self).rows,
            final(self).cols == old(self).cols,
            final(self).scrollback_limit == old(self).scrollback_limit,
            final(self).lines@.len() == old(self).lines@.len(),
            final(self).lines@[phys as int].cells@ == Line::store_narrow_spec(
                old(self).lines@[phys as int].cells@,
                x as int,
                c,
            ),
            final(self).lines@[phys as int].soft_wrapped == old(self).lines@[
                phys as int].soft_wrapped,
            forall|i: int| 0 <= i < old(self).lines@.len() && i != phys ==> final(self).lines@[i] == old(self).lines@[i],
    {
        let line = &mut self.lines[phys];
        line.set_cell(x, c);
    }

    /// Store a full-width glyph with its leading cell at `(phys, x)`
    /// (see `Line::set_wide_cell`).
    pub fn set_wide_cell_at(&mut self, phys: usize, x: usize, c: Cell)
        requires
            old(self).wf(),
            phys < old(self).lines@.len(),
            x + 1 < old(self).cols,
            c.width == 2,
        ensures
            final(self).wf(),
            final(self).rows == old(self).rows,
            final(self).cols == old(self).cols,
            final(self).scrollback_limit == old(self).scrollback_limit,
            final(self).lines@.len() == old(self).lines@.len(),
            final(self).lines@[phys as int].cells@ == Line::store_wide_spec(
                old(self).lines@[phys as int].cells@,
                x as int,
                c,
            ),
            final(self).lines@[phys as int].soft_wrapped == old(self).lines@[
                phys as int].soft_wrapped,
            forall|i: int| 0 <= i < old(self).lines@.len() && i != phys ==> final(self).lines@[i] == old(self).lines@[i],
    {
        let line = &mut self.lines[phys];
        line.set_wide_cell(x, c);
    }

    /// Blank the columns `[start, end)` of one row (clamped and widened
    /// per `Line::erase_span`).
    pub fn erase_in_line(&mut self, phys: usize, start: usize, end: usize)
        requires
            old(self).wf(),
            phys < old(self).lines@.len(),
        ensures
            final(self).wf(),
            final(self).rows == old(self).rows,
            final(self).cols == old(self).cols,
            final(self).scrollback_limit == old(self).scrollback_limit,
            final(self).lines@.len() == old(self).lines@.len(),
            final(self).lines@[phys as int].cells@.len() == old(self).lines@[
                phys as int].cells@.len(),
            final(self).lines@[phys as int].soft_wrapped == old(self).lines@[
                phys as int].soft_wrapped,
            forall|i: int| 0 <= i < old(self).lines@.len() && i != phys ==> final(self).lines@[i] == old(self).lines@[i],
            ({
                let cells = old(self).lines@[phys as int].cells@;
                let start0 = if start as int <= cells.len() as int {
                    start as int
                } else {
                    cells.len() as int
                };
                let end0 = if end as int <= cells.len() as int {
                    end as int
                } else {
                    cells.len() as int
                };
                let (s, e) = Line::erase_span(cells, start0, end0);
                forall|j: int| 0 <= j < cells.len() ==> final(self).lines@[
                    phys as int].cells@[j] == (if s <= j < e {
                    Cell::blank_spec()
                } else {
                    cells[j]
                })
            }),
    {
        let line = &mut self.lines[phys];
        line.erase_range(start, end);
    }

    /// Shift cells right and insert a narrow cell (see `Line::insert_cell`).
    pub fn insert_cell_at(&mut self, phys: usize, x: usize, c: Cell)
        requires
            old(self).wf(),
            phys < old(self).lines@.len(),
            x < old(self).cols,
            c.width == 1,
        ensures
            final(self).wf(),
            final(self).rows == old(self).rows,
            final(self).cols == old(self).cols,
            final(self).scrollback_limit == old(self).scrollback_limit,
            final(self).lines@.len() == old(self).lines@.len(),
            final(self).lines@[phys as int].cells@ == Line::insert_spec(
                old(self).lines@[phys as int].cells@,
                x as int,
                c,
            ),
            final(self).lines@[phys as int].cells@[x as int] == c,
            final(self).lines@[phys as int].soft_wrapped == old(self).lines@[
                phys as int].soft_wrapped,
            forall|i: int| 0 <= i < old(self).lines@.len() && i != phys ==> final(self).lines@[i] == old(self).lines@[i],
    {
        let line = &mut self.lines[phys];
        line.insert_cell(x, c);
    }

    /// Delete a cell, shifting the rest left (see `Line::delete_cell`).
    pub fn delete_cell_at(&mut self, phys: usize, x: usize)
        requires
            old(self).wf(),
            phys < old(self).lines@.len(),
            x < old(self).cols,
        ensures
            final(self).wf(),
            final(self).rows == old(self).rows,
            final(self).cols == old(self).cols,
            final(self).scrollback_limit == old(self).scrollback_limit,
            final(self).lines@.len() == old(self).lines@.len(),
            final(self).lines@[phys as int].cells@ == Line::delete_spec(
                old(self).lines@[phys as int].cells@,
                x as int,
            ),
            final(self).lines@[phys as int].soft_wrapped == old(self).lines@[
                phys as int].soft_wrapped,
            forall|i: int| 0 <= i < old(self).lines@.len() && i != phys ==> final(self).lines@[i] == old(self).lines@[i],
    {
        let line = &mut self.lines[phys];
        line.delete_cell(x);
    }

    /// Set or clear the soft-wrap flag of one row.
    pub fn set_soft_wrapped(&mut self, phys: usize, flag: bool)
        requires
            old(self).wf(),
            phys < old(self).lines@.len(),
        ensures
            final(self).wf(),
            final(self).rows == old(self).rows,
            final(self).cols == old(self).cols,
            final(self).scrollback_limit == old(self).scrollback_limit,
            final(self).lines@.len() == old(self).lines@.len(),
            final(self).lines@[phys as int].cells@ == old(self).lines@[phys as int].cells@,
            final(self).lines@[phys as int].soft_wrapped == flag,
            forall|i: int| 0 <= i < old(self).lines@.len() && i != phys ==> final(self).lines@[i] == old(self).lines@[i],
    {
        let line = &mut self.lines[phys];
        line.soft_wrapped = flag;
    }

    /// Drop the oldest rows until the scrollback is back within its
    /// configured retention limit.  Silent, never an error.
    pub fn trim_scrollback(&mut self)
        requires
            old(self).wf(),
        ensures
            final(self).wf(),
            final(self).rows == old(self).rows,
            final(self).cols == old(self).cols,
            final(self).scrollback_limit == old(self).scrollback_limit,
            final(self).lines@.len() >= final(self).rows,
            final(self).lines@.len() - final(self).rows <= final(self).scrollback_limit,
            final(self).lines@.len() <= old(self).lines@.len(),
            forall|i: int| 0 <= i < final(self).lines@.len() ==> final(self).lines@[i]
                == old(self).lines@[i + (old(self).lines@.len() - final(self).lines@.len())],
    {
        while self.lines.len() - self.rows > self.scrollback_limit
            invariant
                self.wf(),
                self.rows == old(self).rows,
                self.cols == old(self).cols,
                self.scrollback_limit == old(self).scrollback_limit,
                self.lines@.len() <= old(self).lines@.len(),
                forall|i: int| 0 <= i < self.lines@.len() ==> self.lines@[i] == old(self).lines@[i + (old(self).lines@.len() - self.lines@.len())],
            decreases self.lines@.len(),
        {
            self.lines.remove(0);
        }
    }

    /// Scroll the whole window up by one row: the top visible row moves
    /// into scrollback, a blank row appears at the bottom, and the oldest
    /// rows are trimmed to the retention limit.
    pub fn scroll_up_full(&mut self)
        requires
            old(self).wf(),
        ensures
            final(self).wf(),
            final(self).rows == old(self).rows,
            final(self).cols == old(self).cols,
            final(self).scrollback_limit == old(self).scrollback_limit,
            final(self).lines@.len() >= final(self).rows,
            final(self).lines@.len() - final(self).rows <= final(self).scrollback_limit,
            final(self).lines@.len() <= old(self).lines@.len() + 1,
            forall|i: int| 0 <= i < final(self).lines@.len() - 1 ==> final(self).lines@[i]
                == old(self).lines@[i + (old(self).lines@.len() + 1 - final(self).lines@.len())],
            final(self).lines@.last().cells@ =~= Line::blank_line_spec(old(self).cols as nat),
            !final(self).lines@.last().soft_wrapped,
    {
        self.trim_scrollback();
        if self.lines.len() - self.rows >= self.scrollback_limit {
            self.lines.remove(0);
        }
        let blank = Line::blank(self.cols);
        self.lines.push(blank);
        proof {
            assert forall|i: int| 0 <= i < self.lines@.len() implies (
            #[trigger] self.lines@[i]).wf(self.cols as nat) by {}
        }
    }

    /// Rotate the rows `[top, bottom]` up by one: row `top` is dropped,
    /// rows shift up, and a blank row appears at `bottom`.  Used for
    /// scrolling inside a scroll region.
    pub fn scroll_up_region(&mut self, top: usize, bottom: usize)
        requires
            old(self).wf(),
            top <= bottom,
            bottom < old(self).lines@.len(),
        ensures
            final(self).wf(),
            final(self).rows == old(self).rows,
            final(self).cols == old(self).cols,
            final(self).scrollback_limit == old(self).scrollback_limit,
            final(self).lines@.len() == old(self).lines@.len(),
            final(self).lines@ =~= old(self).lines@.take(top as int) + old(self).lines@.subrange(top as int + 1, bottom as int + 1) + seq![
                final(self).lines@[bottom as int],
            ] + old(self).lines@.skip(bottom as int + 1),
            final(self).lines@[bottom as int].cells@ =~= Line::blank_line_spec(
                old(self).cols as nat,
            ),
            !final(self).lines@[bottom as int].soft_wrapped,
    {
        self.lines.remove(top);
        let blank = Line::blank(self.cols);
        self.lines.insert(bottom, blank);
        proof {
            assert(final(self).lines@ =~= old(self).lines@.take(top as int) + old(self).lines@.subrange(top as int + 1, bottom as int + 1) + seq![
                self.lines@[bottom as int],
            ] + old(self).lines@.skip(bottom as int + 1));
            assert forall|i: int| 0 <= i < self.lines@.len() implies (
            #[trigger] self.lines@[i]).wf(self.cols as nat) by {}
        }
    }

    /// Resize to a new geometry, reflowing the buffer: logical lines
    /// (hard-newline-delimited runs) are preserved and re-wrapped to the
    /// new width, the buffer is padded back up to the window height, and
    /// the oldest rows are trimmed to the retention limit.  Zero rows or
    /// columns is the one loud, caller-visible error.
    pub fn resize(&mut self, new_rows: usize, new_cols: usize) -> (r: Result<(), TermError>)
        requires
            old(self).wf(),
            new_rows <= 0x3FFF_FFFF,
            new_cols <= 0x3FFF_FFFF,
        ensures
            new_rows == 0 ==> r == Result::<(), TermError>::Err(TermError::ZeroRows)
                && *final(self) == *old(self),
            new_rows > 0 && new_cols == 0 ==> r == Result::<(), TermError>::Err(
                TermError::ZeroCols,
            ) && *final(self) == *old(self),
            new_rows > 0 && new_cols > 0 ==> r == Result::<(), TermError>::Ok(())
                && final(self).wf() && final(self).rows == new_rows && final(self).cols
                == new_cols && final(self).scrollback_limit == old(self).scrollback_limit
                && crate::reflow::lines_view(final(self).lines@)
                == crate::reflow::trim_front(
                crate::reflow::reflow_spec(
                    crate::reflow::lines_view(old(self).lines@),
                    new_rows as nat,
                    new_cols as nat,
                ),
                (new_rows + old(self).scrollback_limit) as nat,
            ),
    {
        if new_rows == 0 {
            return Err(TermError::ZeroRows);
        }
        if new_cols == 0 {
            return Err(TermError::ZeroCols);
        }
        proof {
            assert forall|i: int| 0 <= i < self.lines@.len() implies all_cells_wf(
                (#[trigger] self.lines@[i]).cells@,
            ) by {
                assert(self.lines@[i].wf(self.cols as nat));
            }
        }
        let out = crate::reflow::reflow_buffer(&self.lines, new_rows, new_cols);
        self.lines = out;
        self.rows = new_rows;
        self.cols = new_cols;
        let ghost full = crate::reflow::lines_view(self.lines@);
        let bound = new_rows + self.scrollback_limit;
        while self.lines.len() > bound
            invariant
                bound == new_rows + self.scrollback_limit,
                new_rows >= 1,
                new_cols >= 1,
                new_rows <= 0x3FFF_FFFF,
                new_cols <= 0x3FFF_FFFF,
                self.rows == new_rows,
                self.cols == new_cols,
                self.scrollback_limit == old(self).scrollback_limit,
                self.scrollback_limit <= 0x3FFF_FFFF,
                self.lines@.len() >= new_rows,
                crate::reflow::lines_view(self.lines@) == full.skip(
                    full.len() - self.lines@.len(),
                ),
                self.lines@.len() <= full.len(),
                self.lines@.len() >= bound || self.lines@.len() == full.len(),
                forall|i: int| 0 <= i < self.lines@.len() ==> (#[trigger] self.lines@[i]).wf(
                    new_cols as nat,
                ),
            decreases self.lines@.len(),
        {
            let ghost pre = self.lines@;
            self.lines.remove(0);
            proof {
                assert(self.lines@ =~= pre.skip(1));
                assert forall|i: int| 0 <= i < self.lines@.len() implies
                    #[trigger] crate::reflow::lines_view(self.lines@)[i]
                    == crate::reflow::lines_view(pre).skip(1)[i] by {
                    assert(crate::reflow::lines_view(self.lines@)[i] == self.lines@[i]@);
                    assert(crate::reflow::lines_view(pre)[i + 1] == pre[i + 1]@);
                }
                assert(crate::reflow::lines_view(self.lines@)
                    =~= crate::reflow::lines_view(pre).skip(1));
                assert(crate::reflow::lines_view(pre).skip(1) =~= full.skip(
                    full.len() - self.lines@.len(),
                ));
            }
        }
        proof {
            assert(full.skip(0) =~= full);
            if self.lines@.len() == full.len() {
                assert(full.len() <= bound);
                assert(crate::reflow::lines_view(self.lines@) =~= crate::reflow::trim_front(
                    full,
                    bound as nat,
                ));
            } else {
                assert(self.lines@.len() == bound);
                assert(crate::reflow::lines_view(self.lines@) =~= crate::reflow::trim_front(
                    full,
                    bound as nat,
                ));
            }
        }
        Ok(())
    }

    /// Rotate the rows `[top, bottom]` down by one: row `bottom` is
    /// dropped, rows shift down, and a blank row appears at `top`.
    pub fn scroll_down_region(&mut self, top: usize, bottom: usize)
        requires
            old(self).wf(),
            top <= bottom,
            bottom < old(self).lines@.len(),
        ensures
            final(self).wf(),
            final(self).rows == old(self).rows,
            final(self).cols == old(self).cols,
            final(self).scrollback_limit == old(self).scrollback_limit,
            final(self).lines@.len() == old(self).lines@.len(),
            final(self).lines@ =~= old(self).lines@.take(top as int) + seq![
                final(self).lines@[top as int],
            ] + old(self).lines@.subrange(top as int, bottom as int) + old(self).lines@.skip(bottom as int + 1),
            final(self).lines@[top as int].cells@ =~= Line::blank_line_spec(
                old(self).cols as nat,
            ),
            !final(self).lines@[top as int].soft_wrapped,
    {
        self.lines.remove(bottom);
        let blank = Line::blank(self.cols);
        self.lines.insert(top, blank);
        proof {
            assert(final(self).lines@ =~= old(self).lines@.take(top as int) + seq![
                self.lines@[top as int],
            ] + old(self).lines@.subrange(top as int, bottom as int) + old(self).lines@.skip(bottom as int + 1));
            assert forall|i: int| 0 <= i < self.lines@.len() implies (
            #[trigger] self.lines@[i]).wf(self.cols as nat) by {}
        }
    }
}

/// Reflow idempotence at the screen level: for any well-formed screen
/// whose logical lines wrap cleanly at both widths (all-narrow text
/// always does), resizing to `(r, c)` and back to `(r0, c0)` preserves
/// the hard-newline-delimited text.  `Screen::resize` computes exactly
/// `reflow_spec` followed by scrollback trimming (`trim_front`), so the
/// law carries over to it whenever the re-wrapped buffer stays within
/// the retention bound.
pub proof fn lemma_screen_reflow_round_trip(s: Screen, r: nat, c: nat, r0: nat, c0: nat)
    requires
        s.wf(),
        c >= 1,
        c0 >= 1,
        forall|i: int|
            0 <= i < crate::reflow::logical_lines(
                crate::reflow::lines_view(s.lines@),
            ).len() ==> crate::reflow::wraps_cleanly(
                #[trigger] crate::reflow::logical_lines(
                    crate::reflow::lines_view(s.lines@),
                )[i],
                c as int,
            ) && crate::reflow::wraps_cleanly(
                crate::reflow::logical_lines(crate::reflow::lines_view(s.lines@))[i],
                c0 as int,
            ),
    ensures
        crate::reflow::logical_text(
            crate::reflow::reflow_spec(
                crate::reflow::reflow_spec(crate::reflow::lines_view(s.lines@), r, c),
                r0,
                c0,
            ),
        ) == crate::reflow::logical_text(crate::reflow::lines_view(s.lines@)),
{
    let lv = crate::reflow::lines_view(s.lines@);
    assert forall|i: int| 0 <= i < lv.len() implies all_cells_wf((#[trigger] lv[i]).cells) by {
        assert(s.lines@[i].wf(s.cols as nat));
        assert(lv[i] == s.lines@[i]@);
    }
    crate::reflow::lemma_logical_lines_wf(lv);
    crate::reflow::lemma_reflow_round_trip(lv, r, c, r0, c0);
}

/// The wide-character pairing law: in every well-formed screen — which
/// every write, erase, scroll and resize operation preserves — a width-0
/// placeholder cell is always immediately preceded by its width-2
/// leading cell in the same row, so no placeholder ever stands alone.
pub proof fn lemma_wide_pairing(s: Screen, r: int, c: int)
    requires
        s.wf(),
        0 <= r < s.lines@.len(),
        0 <= c < s.lines@[r].cells@.len(),
        s.lines@[r].cells@[c].width == 0,
    ensures
        c > 0,
        s.lines@[r].cells@[c - 1].width == 2,
{
    assert(s.lines@[r].wf(s.cols as nat));
    assert(pair_ok(s.lines@[r].cells@, c));
}

} // verus!
