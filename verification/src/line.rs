//! One row of the grid: a fixed-width sequence of cells plus the
//! soft-wrap flag that marks the row as a continuation of the row above.

use vstd::prelude::*;
use crate::cell::{Cell, CellAttributes};

verus! {

/// Every full-width glyph occupies exactly two columns: a leading cell of
/// width 2 immediately followed by a placeholder cell of width 0, and a
/// placeholder never appears anywhere else.
pub open spec fn pair_ok(cells: Seq<Cell>, i: int) -> bool {
    &&& (cells[i].width == 0 ==> i > 0 && cells[i - 1].width == 2)
    &&& (cells[i].width == 2 ==> i + 1 < cells.len() && cells[i + 1].width == 0)
}

pub open spec fn wide_paired(cells: Seq<Cell>) -> bool {
    forall|i: int| 0 <= i < cells.len() ==> #[trigger] pair_ok(cells, i)
}

pub open spec fn all_cells_wf(cells: Seq<Cell>) -> bool {
    forall|i: int| 0 <= i < cells.len() ==> (#[trigger] cells[i]).wf()
}

/// The mathematical image of a `Line`: its cells as a sequence, and the
/// soft-wrap flag.
pub struct LineV {
    pub cells: Seq<Cell>,
    pub soft_wrapped: bool,
}

/// A row of the screen.
#[derive(Debug)]
pub struct Line {
    pub cells: Vec<Cell>,
    /// True when this row continues the row above it: the break between
    /// them was inserted by column overflow, not by a hard newline.
    pub soft_wrapped: bool,
}

impl View for Line {
    type V = LineV;

    open spec fn view(&self) -> LineV {
        LineV { cells: self.cells@, soft_wrapped: self.soft_wrapped }
    }
}

impl Line {
    /// Well-formedness at a given column count: exactly `cols` cells, all
    /// of legal width, and wide glyphs correctly paired.
    pub open spec fn wf(self, cols: nat) -> bool {
        &&& self.cells@.len() == cols
        &&& all_cells_wf(self.cells@)
        &&& wide_paired(self.cells@)
    }

    pub open spec fn blank_line_spec(cols: nat) -> Seq<Cell> {
        Seq::new(cols, |i: int| Cell::blank_spec())
    }

    /// A fresh hard (not soft-wrapped) row of default-attribute blanks.
    pub fn blank(cols: usize) -> (r: Line)
        ensures
            r.wf(cols as nat),
            r.cells@ =~= Line::blank_line_spec(cols as nat),
            !r.soft_wrapped,
    {
        let mut cells: Vec<Cell> = Vec::new();
        let mut i: usize = 0;
        while i < cols
            invariant
                i <= cols,
                cells@.len() == i,
                forall|j: int| 0 <= j < i ==> cells@[j] == Cell::blank_spec(),
            decreases cols - i,
        {
            cells.push(Cell::blank());
            i = i + 1;
        }
        Line { cells, soft_wrapped: false }
    }

    /// What the cells look like after a narrow cell is stored at `x`:
    /// the half of any wide glyph that the write would orphan is blanked.
    pub open spec fn store_narrow_spec(cells: Seq<Cell>, x: int, c: Cell) -> Seq<Cell> {
        let cleared = if cells[x].width == 0 {
            cells.update(x - 1, Cell::blank_spec())
        } else if cells[x].width == 2 {
            cells.update(x + 1, Cell::blank_spec())
        } else {
            cells
        };
        cleared.update(x, c)
    }

    /// Store a narrow cell at column `x`, blanking the orphaned half of a
    /// wide glyph if the write lands on either of its cells.
    #[verifier::rlimit(60)]
    pub fn set_cell(&mut self, x: usize, c: Cell)
        requires
            old(self).wf(old(self).cells@.len() as nat),
            x < old(self).cells@.len(),
            c.width == 1,
        ensures
            final(self).wf(old(self).cells@.len() as nat),
            final(self).cells@ == Line::store_narrow_spec(old(self).cells@, x as int, c),
            final(self).soft_wrapped == old(self).soft_wrapped,
    {
        let len = self.cells.len();
        proof {
            assert(pair_ok(old(self).cells@, x as int));
        }
        let w = self.cells[x].width;
        if w == 0 {
            self.cells.set(x - 1, Cell::blank());
        } else if w == 2 {
            self.cells.set(x + 1, Cell::blank());
        }
        self.cells.set(x, c);
        proof {
            let oldc = old(self).cells@;
            let newc = self.cells@;
            assert(newc =~= Line::store_narrow_spec(oldc, x as int, c));
            assert forall|i: int| 0 <= i < newc.len() implies #[trigger] pair_ok(newc, i) by {
                assert(pair_ok(oldc, i));
                if i > 0 {
                    assert(pair_ok(oldc, i - 1));
                }
                if i + 1 < oldc.len() {
                    assert(pair_ok(oldc, i + 1));
                }
                assert(pair_ok(oldc, x as int));
            }
        }
    }

    /// What the cells look like after a wide glyph is stored with its
    /// leading cell at `x`: lead at `x`, placeholder at `x + 1`, and any
    /// wide glyph that the pair would cut in half is blanked.
    pub open spec fn store_wide_spec(cells: Seq<Cell>, x: int, c: Cell) -> Seq<Cell> {
        let a = if cells[x].width == 0 {
            cells.update(x - 1, Cell::blank_spec())
        } else {
            cells
        };
        let b = if a[x + 1].width == 2 {
            a.update(x + 2, Cell::blank_spec())
        } else {
            a
        };
        b.update(x, c).update(x + 1, Cell::wide_trailer_spec(c.attrs))
    }

    /// Store a full-width glyph whose leading cell is at column `x`.
    #[verifier::rlimit(60)]
    pub fn set_wide_cell(&mut self, x: usize, c: Cell)
        requires
            old(self).wf(old(self).cells@.len() as nat),
            x + 1 < old(self).cells@.len(),
            c.width == 2,
        ensures
            final(self).wf(old(self).cells@.len() as nat),
            final(self).cells@ == Line::store_wide_spec(old(self).cells@, x as int, c),
            final(self).soft_wrapped == old(self).soft_wrapped,
    {
        let len = self.cells.len();
        proof {
            assert(x + 1 < len);
            assert(pair_ok(old(self).cells@, x as int));
            assert(pair_ok(old(self).cells@, x + 1));
        }
        if self.cells[x].width == 0 {
            self.cells.set(x - 1, Cell::blank());
        }
        let next = x + 1;
        if self.cells[next].width == 2 {
            self.cells.set(x + 2, Cell::blank());
        }
        self.cells.set(x, c);
        self.cells.set(next, Cell::wide_trailer(c.attrs));
        proof {
            let oldc = old(self).cells@;
            let newc = self.cells@;
            assert(newc =~= Line::store_wide_spec(oldc, x as int, c));
            assert forall|i: int| 0 <= i < newc.len() implies #[trigger] pair_ok(newc, i) by {
                assert(pair_ok(oldc, i));
                if i > 0 {
                    assert(pair_ok(oldc, i - 1));
                }
                if i + 1 < oldc.len() {
                    assert(pair_ok(oldc, i + 1));
                }
                if i + 2 < oldc.len() {
                    assert(pair_ok(oldc, i + 2));
                }
                assert(pair_ok(oldc, x as int));
                assert(pair_ok(oldc, x + 1));
            }
        }
    }

    /// The column span `[start, end)` widened just enough that no wide
    /// glyph is cut in half when the span is blanked: a lead whose
    /// placeholder sits inside the span joins it, as does a placeholder
    /// whose lead sits inside.
    pub open spec fn erase_span(cells: Seq<Cell>, start: int, end: int) -> (int, int) {
        let s = if start > 0 && cells[start - 1].width == 2 {
            start - 1
        } else {
            start
        };
        let e = if end < cells.len() && cells[end].width == 0 {
            end + 1
        } else {
            end
        };
        (s, e)
    }

    /// Blank every cell with column in `[start, end)`, widened per
    /// `erase_span`; all other cells are untouched.  Out-of-range bounds
    /// are clamped, never an error.
    pub fn erase_range(&mut self, start: usize, end: usize)
        requires
            old(self).wf(old(self).cells@.len() as nat),
        ensures
            final(self).wf(old(self).cells@.len() as nat),
            final(self).cells@.len() == old(self).cells@.len(),
            final(self).soft_wrapped == old(self).soft_wrapped,
            ({
                let start0 = if start as int <= old(self).cells@.len() as int {
                    start as int
                } else {
                    old(self).cells@.len() as int
                };
                let end0 = if end as int <= old(self).cells@.len() as int {
                    end as int
                } else {
                    old(self).cells@.len() as int
                };
                let (s, e) = Line::erase_span(old(self).cells@, start0, end0);
                forall|i: int| 0 <= i < old(self).cells@.len() ==> final(self).cells@[i] == (
                    if s <= i < e {
                        Cell::blank_spec()
                    } else {
                        old(self).cells@[i]
                    })
            }),
    {
        let len = self.cells.len();
        let start0 = if start <= len { start } else { len };
        let end0 = if end <= len { end } else { len };
        let s = if start0 > 0 && self.cells[start0 - 1].width == 2 {
            start0 - 1
        } else {
            start0
        };
        let e = if end0 < len && self.cells[end0].width == 0 {
            end0 + 1
        } else {
            end0
        };
        let mut i: usize = s;
        while i < e
            invariant
                s <= i,
                i <= e || i == s,
                e <= self.cells@.len(),
                self.cells@.len() == old(self).cells@.len(),
                self.soft_wrapped == old(self).soft_wrapped,
                forall|j: int| 0 <= j < self.cells@.len() ==> self.cells@[j] == (
                    if s <= j < i {
                        Cell::blank_spec()
                    } else {
                        old(self).cells@[j]
                    }),
            decreases e - i,
        {
            self.cells.set(i, Cell::blank());
            i = i + 1;
        }
        proof {
            let oldc = old(self).cells@;
            let newc = self.cells@;
            let si = s as int;
            let ei = e as int;
            assert forall|i: int| 0 <= i < newc.len() implies #[trigger] pair_ok(newc, i) by {
                assert(pair_ok(oldc, i));
                if i > 0 {
                    assert(pair_ok(oldc, i - 1));
                }
                if i + 1 < oldc.len() {
                    assert(pair_ok(oldc, i + 1));
                }
                if si > 0 {
                    assert(pair_ok(oldc, si - 1));
                }
                if ei < oldc.len() {
                    assert(pair_ok(oldc, ei));
                }
            }
        }
    }

    /// Change only the hyperlink reference of the cell at `x`.  Widths
    /// are untouched, so pairing is trivially preserved.
    pub fn set_link(&mut self, x: usize, link: Option<u64>)
        requires
            old(self).wf(old(self).cells@.len() as nat),
            x < old(self).cells@.len(),
        ensures
            final(self).wf(old(self).cells@.len() as nat),
            final(self).cells@.len() == old(self).cells@.len(),
            final(self).soft_wrapped == old(self).soft_wrapped,
            final(self).cells@[x as int].link == link,
            final(self).cells@[x as int].cp == old(self).cells@[x as int].cp,
            final(self).cells@[x as int].width == old(self).cells@[x as int].width,
            final(self).cells@[x as int].attrs == old(self).cells@[x as int].attrs,
            forall|i: int| 0 <= i < old(self).cells@.len() && i != x ==> final(self).cells@[i] == old(self).cells@[i],
    {
        let mut c = self.cells[x];
        c.link = link;
        self.cells.set(x, c);
        proof {
            let oldc = old(self).cells@;
            let newc = self.cells@;
            assert forall|i: int| 0 <= i < newc.len() implies #[trigger] pair_ok(newc, i) by {
                assert(pair_ok(oldc, i));
                assert(newc[i].width == oldc[i].width);
                if i > 0 {
                    assert(newc[i - 1].width == oldc[i - 1].width);
                }
                if i + 1 < oldc.len() {
                    assert(newc[i + 1].width == oldc[i + 1].width);
                }
            }
        }
    }

    /// The wide pair straddling column `x` blanked, then the wide pair
    /// whose placeholder would fall off the end blanked: the preparation
    /// step shared by `insert_spec` below.
    pub open spec fn insert_fix_spec(cells: Seq<Cell>, x: int) -> Seq<Cell> {
        let a = if cells[x].width == 0 {
            cells.update(x - 1, Cell::blank_spec()).update(x, Cell::blank_spec())
        } else {
            cells
        };
        if a.len() >= 2 && a[a.len() - 2].width == 2 {
            a.update(a.len() - 2, Cell::blank_spec()).update(a.len() - 1, Cell::blank_spec())
        } else {
            a
        }
    }

    /// What the cells look like after inserting `c` at `x`: the prepared
    /// row with everything from `x` shifted one right, the last cell
    /// dropped.
    pub open spec fn insert_spec(cells: Seq<Cell>, x: int, c: Cell) -> Seq<Cell> {
        let a = Line::insert_fix_spec(cells, x);
        a.take(x) + seq![c] + a.subrange(x, a.len() - 1)
    }

    /// Shift the cells at and after `x` one column right, dropping the
    /// last cell, and store a narrow cell at `x`.  Wide glyphs that the
    /// shift would cut in half (at `x` or at the dropped edge) are
    /// blanked first.
    #[verifier::rlimit(100)]
    pub fn insert_cell(&mut self, x: usize, c: Cell)
        requires
            old(self).wf(old(self).cells@.len() as nat),
            x < old(self).cells@.len(),
            c.width == 1,
        ensures
            final(self).wf(old(self).cells@.len() as nat),
            final(self).cells@.len() == old(self).cells@.len(),
            final(self).soft_wrapped == old(self).soft_wrapped,
            final(self).cells@ == Line::insert_spec(old(self).cells@, x as int, c),
            final(self).cells@[x as int] == c,
            forall|i: int| 0 <= i && i + 1 < x ==> final(self).cells@[i] == old(self).cells@[i],
    {
        let len = self.cells.len();
        // Blank a wide pair that straddles the insertion point.
        if self.cells[x].width == 0 {
            proof {
                assert(pair_ok(self.cells@, x as int));
            }
            self.cells.set(x - 1, Cell::blank());
            self.cells.set(x, Cell::blank());
            proof {
                assert forall|i: int| 0 <= i < self.cells@.len() implies #[trigger] pair_ok(
                    self.cells@,
                    i,
                ) by {
                    assert(pair_ok(old(self).cells@, i));
                    if i > 0 {
                        assert(pair_ok(old(self).cells@, i - 1));
                    }
                    if i + 1 < old(self).cells@.len() {
                        assert(pair_ok(old(self).cells@, i + 1));
                    }
                }
            }
        }
        // Blank a wide pair whose placeholder would fall off the end.
        if len >= 2 && self.cells[len - 2].width == 2 {
            let ghost mid = self.cells@;
            self.cells.set(len - 2, Cell::blank());
            self.cells.set(len - 1, Cell::blank());
            proof {
                assert forall|i: int| 0 <= i < self.cells@.len() implies #[trigger] pair_ok(
                    self.cells@,
                    i,
                ) by {
                    assert(pair_ok(mid, i));
                    if i > 0 {
                        assert(pair_ok(mid, i - 1));
                    }
                    if i + 1 < mid.len() {
                        assert(pair_ok(mid, i + 1));
                    }
                }
            }
        }
        // Shift right from the tail down to `x`, then store.
        let ghost mid2 = self.cells@;
        let mut j: usize = len - 1;
        while j > x
            invariant
                x <= j < mid2.len(),
                self.cells@.len() == mid2.len(),
                self.soft_wrapped == old(self).soft_wrapped,
                forall|i: int| 0 <= i <= j ==> self.cells@[i] == mid2[i],
                forall|i: int| j < i < mid2.len() ==> self.cells@[i] == mid2[i - 1],
            decreases j,
        {
            let moved = self.cells[j - 1];
            self.cells.set(j, moved);
            j = j - 1;
        }
        self.cells.set(x, c);
        proof {
            let newc = self.cells@;
            assert forall|i: int| 0 <= i < newc.len() implies #[trigger] pair_ok(newc, i) by {
                assert(pair_ok(mid2, i));
                if i > 0 {
                    assert(pair_ok(mid2, i - 1));
                    if i - 1 > 0 {
                        assert(pair_ok(mid2, i - 2));
                    }
                }
                if i + 1 < mid2.len() {
                    assert(pair_ok(mid2, i + 1));
                }
                assert(pair_ok(mid2, x as int));
                if x + 1 < mid2.len() {
                    assert(pair_ok(mid2, x + 1));
                }
                if mid2.len() >= 2 {
                    assert(pair_ok(mid2, mid2.len() - 2));
                    assert(pair_ok(mid2, mid2.len() - 1));
                }
            }
            assert(all_cells_wf(newc)) by {
                assert forall|i: int| 0 <= i < newc.len() implies (#[trigger] newc[i]).wf() by {
                    assert(mid2[i].wf());
                    if i > 0 {
                        assert(mid2[i - 1].wf());
                    }
                }
            }
            assert forall|i: int| 0 <= i && i + 1 < x implies newc[i] == old(self).cells@[i] by {
                assert(newc[i] == mid2[i]);
            }
            assert(mid2 =~= Line::insert_fix_spec(old(self).cells@, x as int));
            assert(newc =~= Line::insert_spec(old(self).cells@, x as int, c));
        }
    }

    /// The whole wide pair containing column `x` blanked: the
    /// preparation step shared by `delete_spec` below.
    pub open spec fn delete_fix_spec(cells: Seq<Cell>, x: int) -> Seq<Cell> {
        if cells[x].width == 0 {
            cells.update(x - 1, Cell::blank_spec()).update(x, Cell::blank_spec())
        } else if cells[x].width == 2 {
            cells.update(x + 1, Cell::blank_spec()).update(x, Cell::blank_spec())
        } else {
            cells
        }
    }

    /// What the cells look like after deleting the cell at `x`: the
    /// prepared row with everything after `x` shifted one left and a
    /// blank appended at the end.
    pub open spec fn delete_spec(cells: Seq<Cell>, x: int) -> Seq<Cell> {
        let a = Line::delete_fix_spec(cells, x);
        a.take(x) + a.subrange(x + 1, a.len() as int) + seq![Cell::blank_spec()]
    }

    /// Remove the cell at `x`, shifting the rest left and appending a
    /// blank at the end.  Wide glyphs cut in half by the removal are
    /// blanked first.
    #[verifier::rlimit(100)]
    pub fn delete_cell(&mut self, x: usize)
        requires
            old(self).wf(old(self).cells@.len() as nat),
            x < old(self).cells@.len(),
        ensures
            final(self).wf(old(self).cells@.len() as nat),
            final(self).cells@.len() == old(self).cells@.len(),
            final(self).soft_wrapped == old(self).soft_wrapped,
            final(self).cells@ == Line::delete_spec(old(self).cells@, x as int),
            forall|i: int| 0 <= i && i + 1 < x ==> final(self).cells@[i] == old(self).cells@[i],
    {
        let len = self.cells.len();
        // Blank the whole wide pair that includes column `x`, so that
        // neither an orphan lead nor an orphan placeholder survives.
        if self.cells[x].width == 0 {
            proof {
                assert(pair_ok(self.cells@, x as int));
            }
            self.cells.set(x - 1, Cell::blank());
            self.cells.set(x, Cell::blank());
        } else if self.cells[x].width == 2 {
            proof {
                assert(pair_ok(self.cells@, x as int));
            }
            self.cells.set(x + 1, Cell::blank());
            self.cells.set(x, Cell::blank());
        }
        proof {
            assert forall|i: int| 0 <= i < self.cells@.len() implies #[trigger] pair_ok(
                self.cells@,
                i,
            ) by {
                assert(pair_ok(old(self).cells@, i));
                if i > 0 {
                    assert(pair_ok(old(self).cells@, i - 1));
                }
                if i + 1 < old(self).cells@.len() {
                    assert(pair_ok(old(self).cells@, i + 1));
                }
                assert(pair_ok(old(self).cells@, x as int));
            }
        }
        // The cell that will slide into the gap's left neighbour must
        // not be a placeholder whose lead is at `x - 1`... the pair at
        // the boundary `x` is already blank, so shifting is safe except
        // when the cell right after the gap is a placeholder; its lead
        // sits at `x + 1`-shifted position and moves with it, so the
        // pairing survives the uniform shift.
        let ghost mid = self.cells@;
        let mut j: usize = x;
        while j + 1 < len
            invariant
                x <= j < mid.len(),
                len == mid.len(),
                self.cells@.len() == mid.len(),
                self.soft_wrapped == old(self).soft_wrapped,
                forall|i: int| 0 <= i < x ==> self.cells@[i] == mid[i],
                forall|i: int| x <= i < j ==> self.cells@[i] == mid[i + 1],
                forall|i: int| j <= i < mid.len() ==> self.cells@[i] == mid[i],
            decreases len - j,
        {
            let moved = self.cells[j + 1];
            self.cells.set(j, moved);
            j = j + 1;
        }
        self.cells.set(len - 1, Cell::blank());
        proof {
            let newc = self.cells@;
            assert forall|i: int| 0 <= i < newc.len() implies #[trigger] pair_ok(newc, i) by {
                assert(pair_ok(mid, i));
                if i > 0 {
                    assert(pair_ok(mid, i - 1));
                }
                if i + 1 < mid.len() {
                    assert(pair_ok(mid, i + 1));
                    if i + 2 < mid.len() {
                        assert(pair_ok(mid, i + 2));
                    }
                }
                assert(pair_ok(mid, x as int));
                if x + 1 < mid.len() {
                    assert(pair_ok(mid, x + 1));
                }
            }
            assert(all_cells_wf(newc)) by {
                assert forall|i: int| 0 <= i < newc.len() implies (#[trigger] newc[i]).wf() by {
                    assert(mid[i].wf());
                    if i + 1 < mid.len() {
                        assert(mid[i + 1].wf());
                    }
                }
            }
            assert forall|i: int| 0 <= i && i + 1 < x implies newc[i] == old(self).cells@[i] by {
                assert(newc[i] == mid[i]);
            }
            assert(mid =~= Line::delete_fix_spec(old(self).cells@, x as int));
            assert(newc =~= Line::delete_spec(old(self).cells@, x as int));
        }
    }

    /// Blank from column `x` to the end of the row.
    pub fn erase_to_end(&mut self, x: usize)
        requires
            old(self).wf(old(self).cells@.len() as nat),
        ensures
            final(self).wf(old(self).cells@.len() as nat),
            final(self).cells@.len() == old(self).cells@.len(),
            final(self).soft_wrapped == old(self).soft_wrapped,
            ({
                let cells = old(self).cells@;
                let start0 = if x as int <= cells.len() as int {
                    x as int
                } else {
                    cells.len() as int
                };
                let (s, e) = Line::erase_span(cells, start0, cells.len() as int);
                forall|i: int| 0 <= i < cells.len() ==> final(self).cells@[i] == (
                    if s <= i < e {
                        Cell::blank_spec()
                    } else {
                        cells[i]
                    })
            }),
    {
        let len = self.cells.len();
        self.erase_range(x, len);
    }
}

} // verus!
