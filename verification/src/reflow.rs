//! Resize reflow: re-wrapping the buffer's logical lines to a new width.
//!
//! A logical line is a maximal run of rows in which every row after the
//! first is a soft-wrap continuation.  Reflow extracts each logical
//! line's content cells (dropping wide-glyph placeholders and trailing
//! blanks), re-wraps them greedily to the new column count, and pads the
//! buffer back up to the window height.  The whole transformation is
//! defined by the spec functions here; the executable `reflow_buffer` is
//! proved to compute exactly `reflow_spec`, and
//! `lemma_reflow_round_trip` states that a resize there and back
//! preserves the hard-newline-delimited text.

use vstd::prelude::*;
use crate::cell::Cell;
use crate::line::{Line, LineV, pair_ok, wide_paired, all_cells_wf};

verus! {

/// The content cells of a row: everything but width-0 placeholders.
pub open spec fn content_of(cells: Seq<Cell>) -> Seq<Cell>
    decreases cells.len(),
{
    if cells.len() == 0 {
        Seq::empty()
    } else {
        content_of(cells.drop_last()) + (if cells.last().width > 0 {
            seq![cells.last()]
        } else {
            Seq::<Cell>::empty()
        })
    }
}

/// Trailing default-attribute blanks do not belong to the logical text.
pub open spec fn trim_blanks(s: Seq<Cell>) -> Seq<Cell>
    decreases s.len(),
{
    if s.len() > 0 && s.last() == Cell::blank_spec() {
        trim_blanks(s.drop_last())
    } else {
        s
    }
}

/// Group rows into logical lines: a row whose soft-wrap flag is set
/// extends the logical line above it.
pub open spec fn raw_logical(ls: Seq<LineV>) -> Seq<Seq<Cell>>
    decreases ls.len(),
{
    if ls.len() == 0 {
        Seq::empty()
    } else {
        let init = raw_logical(ls.drop_last());
        let l = ls.last();
        if l.soft_wrapped && init.len() > 0 {
            init.update(init.len() - 1, init.last() + content_of(l.cells))
        } else {
            init.push(content_of(l.cells))
        }
    }
}

/// The logical lines of a buffer, each trimmed of trailing blanks.
pub open spec fn logical_lines(ls: Seq<LineV>) -> Seq<Seq<Cell>> {
    raw_logical(ls).map_values(|s: Seq<Cell>| trim_blanks(s))
}

/// Empty logical lines at the bottom of the buffer are the unused rows
/// of the window, not text.
pub open spec fn drop_empty_tail(xs: Seq<Seq<Cell>>) -> Seq<Seq<Cell>>
    decreases xs.len(),
{
    if xs.len() > 0 && xs.last().len() == 0 {
        drop_empty_tail(xs.drop_last())
    } else {
        xs
    }
}

/// The hard-newline-delimited text of a buffer: its logical lines,
/// trimmed, with the empty tail dropped.  This is what reflow preserves.
pub open spec fn logical_text(ls: Seq<LineV>) -> Seq<Seq<Cell>> {
    drop_empty_tail(logical_lines(ls))
}

/// How many leading cells of `x` fit in `c` columns.
pub open spec fn take_fit(x: Seq<Cell>, c: int) -> int
    decreases x.len(),
{
    if x.len() == 0 || x[0].width > c {
        0
    } else {
        1 + take_fit(x.drop_first(), c - x[0].width)
    }
}

/// Length of the next greedy chunk: at least one cell always leaves.
pub open spec fn chunk_len(x: Seq<Cell>, c: int) -> int {
    let k = take_fit(x, c);
    if k < 1 {
        1
    } else if k > x.len() {
        x.len() as int
    } else {
        k
    }
}

/// Greedy chunking of a logical line's content at width `c`.
pub open spec fn wrap_chunks(x: Seq<Cell>, c: int) -> Seq<Seq<Cell>>
    decreases x.len(),
{
    if x.len() == 0 {
        Seq::empty()
    } else {
        let k = chunk_len(x, c);
        seq![x.take(k)] + wrap_chunks(x.skip(k), c)
    }
}

/// Content cells expanded back into grid cells: every width-2 lead gets
/// its width-0 placeholder back.
pub open spec fn expand_cells(chunk: Seq<Cell>) -> Seq<Cell>
    decreases chunk.len(),
{
    if chunk.len() == 0 {
        Seq::empty()
    } else {
        expand_cells(chunk.drop_last()) + (if chunk.last().width == 2 {
            seq![chunk.last(), Cell::wide_trailer_spec(chunk.last().attrs)]
        } else {
            seq![chunk.last()]
        })
    }
}

/// One grid row of width `c` made from a chunk: the expanded cells,
/// padded with blanks; a chunk that cannot fit at all (a wide glyph at
/// width 1) becomes a blank row.
pub open spec fn materialize_row(chunk: Seq<Cell>, c: nat) -> Seq<Cell> {
    let e = expand_cells(chunk);
    if e.len() <= c {
        e + Seq::new((c - e.len()) as nat, |i: int| Cell::blank_spec())
    } else {
        Line::blank_line_spec(c)
    }
}

/// The rows of one re-wrapped logical line: the first row is hard, the
/// rest are soft-wrap continuations; empty content still takes one row.
pub open spec fn run_rows(x: Seq<Cell>, c: nat) -> Seq<LineV> {
    if x.len() == 0 {
        seq![LineV { cells: Line::blank_line_spec(c), soft_wrapped: false }]
    } else {
        let chunks = wrap_chunks(x, c as int);
        Seq::new(
            chunks.len(),
            |i: int| LineV { cells: materialize_row(chunks[i], c), soft_wrapped: i > 0 },
        )
    }
}

/// All logical lines re-wrapped, in order.
pub open spec fn reflow_rows(contents: Seq<Seq<Cell>>, c: nat) -> Seq<LineV>
    decreases contents.len(),
{
    if contents.len() == 0 {
        Seq::empty()
    } else {
        run_rows(contents[0], c) + reflow_rows(contents.drop_first(), c)
    }
}

/// Blank hard rows appended until the buffer fills the window.
pub open spec fn pad_rows(ls: Seq<LineV>, rows: nat, c: nat) -> Seq<LineV> {
    if ls.len() >= rows {
        ls
    } else {
        ls + Seq::new(
            (rows - ls.len()) as nat,
            |i: int| LineV { cells: Line::blank_line_spec(c), soft_wrapped: false },
        )
    }
}

/// The whole reflow of a buffer to a new geometry.
pub open spec fn reflow_spec(ls: Seq<LineV>, rows: nat, c: nat) -> Seq<LineV> {
    pad_rows(reflow_rows(logical_lines(ls), c), rows, c)
}

/// The views of a vector of lines.
pub open spec fn lines_view(ls: Seq<Line>) -> Seq<LineV> {
    ls.map_values(|l: Line| l@)
}

/// Oldest rows dropped until the buffer is within `bound` rows.
pub open spec fn trim_front(ls: Seq<LineV>, bound: nat) -> Seq<LineV> {
    if ls.len() > bound {
        ls.skip(ls.len() - bound)
    } else {
        ls
    }
}

/// A logical line wraps cleanly at width `c` when no chunk before the
/// last needs padding: every non-final chunk fills its row exactly.
/// All-narrow content always wraps cleanly; only a full-width glyph that
/// lands on an odd remaining column forces a mid-line pad.
pub open spec fn wraps_cleanly(x: Seq<Cell>, c: int) -> bool
    decreases x.len(),
{
    if x.len() == 0 {
        true
    } else {
        let k = chunk_len(x, c);
        if k >= x.len() {
            expand_cells(x).len() <= c
        } else {
            expand_cells(x.take(k)).len() == c && wraps_cleanly(x.skip(k), c)
        }
    }
}

/// The concatenated content cells of a run of rows.
pub open spec fn rows_content(rs: Seq<LineV>) -> Seq<Cell>
    decreases rs.len(),
{
    if rs.len() == 0 {
        Seq::empty()
    } else {
        content_of(rs[0].cells) + rows_content(rs.drop_first())
    }
}

proof fn lemma_trim_idempotent(s: Seq<Cell>)
    ensures
        trim_blanks(trim_blanks(s)) == trim_blanks(s),
    decreases s.len(),
{
    if s.len() > 0 && s.last() == Cell::blank_spec() {
        lemma_trim_idempotent(s.drop_last());
    }
}

proof fn lemma_trim_append_blanks(s: Seq<Cell>, pads: Seq<Cell>)
    requires
        forall|i: int| 0 <= i < pads.len() ==> pads[i] == Cell::blank_spec(),
    ensures
        trim_blanks(s + pads) == trim_blanks(s),
    decreases pads.len(),
{
    if pads.len() == 0 {
        assert(s + pads =~= s);
    } else {
        assert((s + pads).last() == pads.last());
        assert((s + pads).drop_last() =~= s + pads.drop_last());
        lemma_trim_append_blanks(s, pads.drop_last());
    }
}

proof fn lemma_content_append(a: Seq<Cell>, b: Seq<Cell>)
    ensures
        content_of(a + b) == content_of(a) + content_of(b),
    decreases b.len(),
{
    if b.len() == 0 {
        assert(a + b =~= a);
        assert(content_of(a) + content_of(b) =~= content_of(a));
    } else {
        assert((a + b).drop_last() =~= a + b.drop_last());
        assert((a + b).last() == b.last());
        lemma_content_append(a, b.drop_last());
        assert(content_of(a + b) =~= content_of(a) + content_of(b));
    }
}

proof fn lemma_content_id(s: Seq<Cell>)
    requires
        forall|i: int| 0 <= i < s.len() ==> (#[trigger] s[i]).width > 0,
    ensures
        content_of(s) == s,
    decreases s.len(),
{
    if s.len() > 0 {
        lemma_content_id(s.drop_last());
        assert(content_of(s) =~= s);
    }
}

proof fn lemma_content_expand(chunk: Seq<Cell>)
    requires
        content_wf(chunk),
    ensures
        content_of(expand_cells(chunk)) == chunk,
    decreases chunk.len(),
{
    if chunk.len() > 0 {
        let dl = chunk.drop_last();
        assert(content_wf(dl));
        lemma_content_expand(dl);
        let last = chunk.last();
        let tail = if last.width == 2 {
            seq![last, Cell::wide_trailer_spec(last.attrs)]
        } else {
            seq![last]
        };
        lemma_content_append(expand_cells(dl), tail);
        assert(content_of(Seq::<Cell>::empty()) =~= Seq::<Cell>::empty());
        if last.width == 2 {
            assert(tail.drop_last() =~= seq![last]);
            assert(seq![last].drop_last() =~= Seq::<Cell>::empty());
            assert(content_of(seq![last]) =~= seq![last]);
            assert(tail.last().width == 0);
            assert(content_of(tail) =~= seq![last]);
        } else {
            assert(tail.drop_last() =~= Seq::<Cell>::empty());
            assert(tail.last() == last);
            assert(content_of(tail) =~= seq![last]);
        }
        assert(content_of(expand_cells(chunk)) =~= chunk);
    }
}

/// Content of one materialized row, in the fitting case: the chunk
/// followed by its pad blanks.
proof fn lemma_content_materialize(chunk: Seq<Cell>, c: nat)
    requires
        content_wf(chunk),
        expand_cells(chunk).len() <= c,
    ensures
        trim_blanks(content_of(materialize_row(chunk, c))) == trim_blanks(chunk),
        content_of(materialize_row(chunk, c)) == chunk + Seq::new(
            (c - expand_cells(chunk).len()) as nat,
            |i: int| Cell::blank_spec(),
        ),
    decreases chunk.len(),
{
    let e = expand_cells(chunk);
    let pads = Seq::new((c - e.len()) as nat, |i: int| Cell::blank_spec());
    lemma_content_append(e, pads);
    lemma_content_id(pads);
    lemma_content_expand(chunk);
    lemma_trim_append_blanks(chunk, pads);
    assert(materialize_row(chunk, c) == e + pads);
}

proof fn lemma_raw_logical_len(ls: Seq<LineV>)
    ensures
        raw_logical(ls).len() <= ls.len(),
        ls.len() > 0 ==> raw_logical(ls).len() >= 1,
    decreases ls.len(),
{
    if ls.len() > 0 {
        lemma_raw_logical_len(ls.drop_last());
    }
}

/// A run whose first row is hard and whose other rows are all soft forms
/// exactly one logical group: the concatenation of its rows' contents.
proof fn lemma_raw_logical_run(rs: Seq<LineV>)
    requires
        rs.len() >= 1,
        !rs[0].soft_wrapped,
        forall|i: int| 1 <= i < rs.len() ==> (#[trigger] rs[i]).soft_wrapped,
    ensures
        raw_logical(rs) == seq![rows_content(rs)],
    decreases rs.len(),
{
    if rs.len() == 1 {
        assert(rs.drop_last() =~= Seq::<LineV>::empty());
        assert(rs.drop_first() =~= Seq::<LineV>::empty());
        assert(rows_content(Seq::<LineV>::empty()) =~= Seq::<Cell>::empty());
        assert(raw_logical(Seq::<LineV>::empty()) =~= Seq::<Seq<Cell>>::empty());
        assert(rows_content(rs) =~= content_of(rs[0].cells));
        assert(rs.last() == rs[0]);
        assert(raw_logical(rs) =~= seq![rows_content(rs)]);
    } else {
        let dl = rs.drop_last();
        assert(dl[0] == rs[0]);
        lemma_raw_logical_run(dl);
        assert(rs.last().soft_wrapped);
        lemma_rows_content_push(dl, rs.last());
        assert(rs =~= dl.push(rs.last()));
        assert(raw_logical(rs) =~= seq![rows_content(rs)]);
    }
}

proof fn lemma_rows_content_push(rs: Seq<LineV>, l: LineV)
    ensures
        rows_content(rs.push(l)) == rows_content(rs) + content_of(l.cells),
    decreases rs.len(),
{
    if rs.len() == 0 {
        assert(rs.push(l).drop_first() =~= Seq::<LineV>::empty());
        assert(rs.push(l)[0] == l);
        assert(rows_content(Seq::<LineV>::empty()) =~= Seq::<Cell>::empty());
        assert(rows_content(rs.push(l)) =~= content_of(l.cells));
        assert(rows_content(rs) + content_of(l.cells) =~= content_of(l.cells));
    } else {
        assert(rs.push(l).drop_first() =~= rs.drop_first().push(l));
        assert(rs.push(l)[0] == rs[0]);
        lemma_rows_content_push(rs.drop_first(), l);
        assert(rows_content(rs.push(l)) =~= rows_content(rs) + content_of(l.cells));
    }
}

/// Grouping distributes over concatenation when the right part starts
/// with a hard row.
proof fn lemma_raw_logical_append(a: Seq<LineV>, b: Seq<LineV>)
    requires
        b.len() > 0 ==> !b[0].soft_wrapped,
    ensures
        raw_logical(a + b) == raw_logical(a) + raw_logical(b),
    decreases b.len(),
{
    if b.len() == 0 {
        assert(a + b =~= a);
        assert(raw_logical(a) + raw_logical(b) =~= raw_logical(a));
    } else {
        let bd = b.drop_last();
        assert((a + b).drop_last() =~= a + bd);
        assert((a + b).last() == b.last());
        lemma_raw_logical_append(a, bd);
        lemma_raw_logical_len(bd);
        lemma_raw_logical_len(a);
        if b.len() == 1 {
            assert(bd.len() == 0);
            assert(!b.last().soft_wrapped);
            assert(raw_logical(a + b) =~= raw_logical(a) + raw_logical(b));
        } else {
            assert(bd[0] == b[0]);
            if b.last().soft_wrapped {
                assert(bd.len() > 0);
                assert(raw_logical(bd).len() >= 1);
                assert(raw_logical(a + b) =~= raw_logical(a) + raw_logical(b));
            } else {
                assert(raw_logical(a + b) =~= raw_logical(a) + raw_logical(b));
            }
        }
    }
}

/// Contents of rows that differ only in their soft flags are the same.
proof fn lemma_rows_content_cells(a: Seq<LineV>, b: Seq<LineV>)
    requires
        a.len() == b.len(),
        forall|i: int| 0 <= i < a.len() ==> (#[trigger] a[i]).cells == b[i].cells,
    ensures
        rows_content(a) == rows_content(b),
    decreases a.len(),
{
    if a.len() > 0 {
        assert(forall|i: int| 0 <= i < a.drop_first().len() ==> (
        #[trigger] a.drop_first()[i]).cells == b.drop_first()[i].cells);
        lemma_rows_content_cells(a.drop_first(), b.drop_first());
    }
}

/// Splitting at any point commutes with trimming.
proof fn lemma_trim_split(a: Seq<Cell>, b: Seq<Cell>)
    ensures
        trim_blanks(a + b) == (if trim_blanks(b).len() > 0 {
            a + trim_blanks(b)
        } else {
            trim_blanks(a)
        }),
    decreases b.len(),
{
    if b.len() == 0 {
        assert(a + b =~= a);
    } else if b.last() == Cell::blank_spec() {
        assert((a + b).last() == b.last());
        assert((a + b).drop_last() =~= a + b.drop_last());
        lemma_trim_split(a, b.drop_last());
    } else {
        assert((a + b).last() == b.last());
        assert(trim_blanks(a + b) == a + b);
        assert(trim_blanks(b) == b);
    }
}

/// The heart of reflow preservation: for a cleanly wrapping logical
/// line, the trimmed content of its re-wrapped rows is its own trim.
proof fn lemma_run_trim(x: Seq<Cell>, c: nat)
    requires
        c >= 1,
        content_wf(x),
        wraps_cleanly(x, c as int),
    ensures
        trim_blanks(rows_content(run_rows(x, c))) == trim_blanks(x),
    decreases x.len(),
{
    let ci = c as int;
    if x.len() == 0 {
        let blanks = Line::blank_line_spec(c);
        assert(forall|i: int| 0 <= i < blanks.len() ==> blanks[i] == Cell::blank_spec());
        assert(forall|i: int| 0 <= i < blanks.len() ==> (#[trigger] blanks[i]).width > 0);
        lemma_content_id(blanks);
        assert(run_rows(x, c)[0].cells == blanks);
        assert(run_rows(x, c).drop_first() =~= Seq::<LineV>::empty());
        assert(rows_content(Seq::<LineV>::empty()) =~= Seq::<Cell>::empty());
        assert(content_of(blanks) + Seq::<Cell>::empty() =~= blanks);
        assert(rows_content(run_rows(x, c)) =~= blanks);
        lemma_trim_append_blanks(Seq::empty(), blanks);
        assert(Seq::<Cell>::empty() + blanks =~= blanks);
        assert(trim_blanks(Seq::<Cell>::empty()) =~= Seq::<Cell>::empty());
        assert(trim_blanks(x) =~= Seq::<Cell>::empty());
    } else {
        let k = chunk_len(x, ci);
        let chunks = wrap_chunks(x, ci);
        let rows = run_rows(x, c);
        assert(chunks == seq![x.take(k)] + wrap_chunks(x.skip(k), ci));
        if k >= x.len() {
            // a single chunk: the whole line in one row plus pads
            assert(x.take(k) =~= x);
            assert(x.skip(k).len() == 0);
            assert(wrap_chunks(x.skip(k), ci) =~= Seq::<Seq<Cell>>::empty());
            assert(chunks =~= seq![x]);
            assert(chunks.len() == 1);
            assert(rows.len() == 1);
            assert(rows[0].cells == materialize_row(x, c));
            assert(rows.drop_first() =~= Seq::<LineV>::empty());
            assert(rows_content(Seq::<LineV>::empty()) =~= Seq::<Cell>::empty());
            assert(content_of(materialize_row(x, c)) + Seq::<Cell>::empty()
                =~= content_of(materialize_row(x, c)));
            assert(rows_content(rows) =~= content_of(materialize_row(x, c)));
            lemma_content_materialize(x, c);
        } else {
            // a full first row, then the rest of the line
            let head = x.take(k);
            let rest = x.skip(k);
            assert(content_wf(head));
            assert(content_wf(rest));
            assert(expand_cells(head).len() == ci);
            lemma_content_materialize(head, c);
            assert(content_of(materialize_row(head, c)) =~= head);
            assert(rows.len() == chunks.len());
            assert(rows[0].cells == materialize_row(chunks[0], c));
            assert(chunks[0] == head);
            let rest_rows = run_rows(rest, c);
            let rest_chunks = wrap_chunks(rest, ci);
            assert(rest.len() > 0);
            assert(rows.drop_first().len() == rest_rows.len());
            assert forall|i: int| 0 <= i < rows.drop_first().len() implies (
            #[trigger] rows.drop_first()[i]).cells == rest_rows[i].cells by {
                assert(rows.drop_first()[i] == rows[i + 1]);
                assert(chunks[i + 1] == rest_chunks[i]);
            }
            lemma_rows_content_cells(rows.drop_first(), rest_rows);
            lemma_run_trim(rest, c);
            assert(rows_content(rows) == head + rows_content(rest_rows));
            lemma_trim_split(head, rows_content(rest_rows));
            lemma_trim_split(head, rest);
            assert(head + rest =~= x);
        }
    }
}



/// The views of a vector of cell vectors.
pub open spec fn cells_views(v: Seq<Vec<Cell>>) -> Seq<Seq<Cell>> {
    v.map_values(|c: Vec<Cell>| c@)
}

/// Content cells all have a positive, legal width.
pub open spec fn content_wf(s: Seq<Cell>) -> bool {
    forall|i: int| 0 <= i < s.len() ==> (#[trigger] s[i]).width == 1 || s[i].width == 2
}

/// The content cells of one row.
fn row_content(line: &Line) -> (r: Vec<Cell>)
    requires
        all_cells_wf(line.cells@),
    ensures
        r@ == content_of(line.cells@),
        content_wf(r@),
{
    let mut r: Vec<Cell> = Vec::new();
    let mut j: usize = 0;
    let n = line.cells.len();
    while j < n
        invariant
            j <= n,
            n == line.cells@.len(),
            all_cells_wf(line.cells@),
            r@ == content_of(line.cells@.take(j as int)),
            content_wf(r@),
        decreases n - j,
    {
        let c = line.cells[j];
        proof {
            assert(line.cells@.take(j + 1).drop_last() =~= line.cells@.take(j as int));
            assert(line.cells@.take(j + 1).last() == line.cells@[j as int]);
            assert(line.cells@[j as int].wf());
        }
        if c.width > 0 {
            r.push(c);
        }
        proof {
            assert(r@ =~= content_of(line.cells@.take(j + 1)));
        }
        j = j + 1;
    }
    proof {
        assert(line.cells@.take(n as int) =~= line.cells@);
    }
    r
}

/// Extract the trimmed logical lines of the buffer.
fn extract_contents(lines: &Vec<Line>) -> (r: Vec<Vec<Cell>>)
    requires
        forall|i: int| 0 <= i < lines@.len() ==> all_cells_wf(
            (#[trigger] lines@[i]).cells@,
        ),
    ensures
        cells_views(r@) == logical_lines(lines_view(lines@)),
        forall|i: int| 0 <= i < r@.len() ==> content_wf((#[trigger] r@[i])@),
{
    let mut groups: Vec<Vec<Cell>> = Vec::new();
    let n = lines.len();
    let mut i: usize = 0;
    proof {
        assert(lines_view(lines@.take(0)) =~= Seq::<LineV>::empty());
        assert(cells_views(groups@) =~= raw_logical(lines_view(lines@.take(0))));
    }
    while i < n
        invariant
            i <= n,
            n == lines@.len(),
            forall|k: int| 0 <= k < lines@.len() ==> all_cells_wf(
                (#[trigger] lines@[k]).cells@,
            ),
            cells_views(groups@) == raw_logical(lines_view(lines@.take(i as int))),
            forall|k: int| 0 <= k < groups@.len() ==> content_wf((#[trigger] groups@[k])@),
        decreases n - i,
    {
        let ghost pre = groups@;
        let mut content = row_content(&lines[i]);
        let soft = lines[i].soft_wrapped;
        if soft && groups.len() > 0 {
            let gi = groups.len() - 1;
            let last = &mut groups[gi];
            last.append(&mut content);
        } else {
            groups.push(content);
        }
        proof {
            let lv = lines_view(lines@.take(i + 1));
            assert(lv.drop_last() =~= lines_view(lines@.take(i as int)));
            assert(lv.last() == lines@[i as int]@);
            assert(cells_views(groups@) =~= raw_logical(lv));
        }
        i = i + 1;
    }
    proof {
        assert(lines@.take(n as int) =~= lines@);
    }
    // Trim trailing blanks of every logical line.
    let m = groups.len();
    let mut g: usize = 0;
    let ghost raw = cells_views(groups@);
    while g < m
        invariant
            g <= m,
            m == groups@.len(),
            cells_views(groups@).len() == raw.len(),
            forall|k: int| 0 <= k < g ==> cells_views(groups@)[k] == trim_blanks(raw[k]),
            forall|k: int| g <= k < m ==> cells_views(groups@)[k] == raw[k],
            forall|k: int| 0 <= k < groups@.len() ==> content_wf((#[trigger] groups@[k])@),
        decreases m - g,
    {
        let ghost orig = groups@[g as int]@;
        let mut tl: usize = groups[g].len();
        proof {
            assert(orig.take(tl as int) =~= orig);
        }
        while tl > 0 && groups[g][tl - 1] == Cell::blank()
            invariant
                g < m,
                m == groups@.len(),
                tl <= groups@[g as int]@.len(),
                orig == groups@[g as int]@,
                trim_blanks(orig.take(tl as int)) == trim_blanks(orig),
            decreases tl,
        {
            proof {
                assert(orig.take(tl as int).last() == orig[tl - 1]);
                assert(orig.take(tl as int).drop_last() =~= orig.take(tl - 1));
                assert(trim_blanks(orig.take(tl as int)) == trim_blanks(orig.take(tl - 1)));
            }
            tl = tl - 1;
        }
        proof {
            if tl > 0 {
                assert(orig.take(tl as int).last() == orig[tl - 1]);
            }
            assert(trim_blanks(orig.take(tl as int)) == orig.take(tl as int));
        }
        let ghost pre_groups = groups@;
        let cur = &mut groups[g];
        cur.truncate(tl);
        proof {
            assert(groups@[g as int]@ =~= orig.take(tl as int));
            assert(groups@[g as int]@ == trim_blanks(raw[g as int]));
            assert forall|k: int| 0 <= k < groups@.len() && k != g implies groups@[k]
                == pre_groups[k] by {}
            assert forall|k: int| 0 <= k < g + 1 implies cells_views(groups@)[k]
                == trim_blanks(raw[k]) by {
                if k < g {
                    assert(cells_views(pre_groups)[k] == trim_blanks(raw[k]));
                }
            }
            assert forall|k: int| g + 1 <= k < m implies cells_views(groups@)[k] == raw[
                k] by {
                assert(cells_views(pre_groups)[k] == raw[k]);
            }
            assert forall|k: int| 0 <= k < groups@.len() implies content_wf(
                (#[trigger] groups@[k])@,
            ) by {
                assert(content_wf(pre_groups[k]@));
                if k == g {
                    assert(groups@[k]@ =~= orig.take(tl as int));
                }
            }
        }
        g = g + 1;
    }
    proof {
        assert(cells_views(groups@) =~= raw.map_values(|s: Seq<Cell>| trim_blanks(s)));
    }
    groups
}

/// Executable greedy chunk length at offset `pos`.
fn chunk_len_exec(x: &Vec<Cell>, pos: usize, c: usize) -> (k: usize)
    requires
        pos < x@.len(),
        c >= 1,
        content_wf(x@),
    ensures
        k as int == chunk_len(x@.skip(pos as int), c as int),
        1 <= k,
        pos + k <= x@.len(),
{
    let n = x.len();
    let mut i: usize = pos;
    let mut remaining: usize = c;
    while i < n && x[i].width as usize <= remaining
        invariant
            pos <= i <= n,
            n == x@.len(),
            remaining <= c,
            content_wf(x@),
            take_fit(x@.skip(pos as int), c as int) == (i - pos) + take_fit(
                x@.skip(i as int),
                remaining as int,
            ),
        decreases n - i,
    {
        proof {
            assert(x@.skip(i as int).drop_first() =~= x@.skip(i + 1));
            assert(x@.skip(i as int)[0] == x@[i as int]);
        }
        remaining = remaining - x[i].width as usize;
        i = i + 1;
    }
    proof {
        if i < n {
            assert(x@.skip(i as int)[0] == x@[i as int]);
            assert(take_fit(x@.skip(i as int), remaining as int) == 0);
        } else {
            assert(x@.skip(i as int).len() == 0);
            assert(take_fit(x@.skip(i as int), remaining as int) == 0);
        }
    }
    let k0 = i - pos;
    if k0 < 1 {
        1
    } else {
        k0
    }
}

/// Materialize one chunk as a full grid row.
fn materialize_exec(x: &Vec<Cell>, pos: usize, k: usize, c: usize) -> (row: Vec<Cell>)
    requires
        pos + k <= x@.len(),
        k >= 1,
        c >= 1,
        content_wf(x@),
    ensures
        row@ == materialize_row(x@.subrange(pos as int, pos + k), c as nat),
        row@.len() == c,
        all_cells_wf(row@),
        wide_paired(row@),
{
    let n = x.len();
    proof {
        assert(pos + k <= n);
    }
    let mut ev: Vec<Cell> = Vec::new();
    let mut j: usize = pos;
    proof {
        assert(x@.subrange(pos as int, pos as int) =~= Seq::<Cell>::empty());
        assert(ev@ =~= expand_cells(x@.subrange(pos as int, pos as int)));
    }
    while j < pos + k
        invariant
            pos <= j <= pos + k,
            pos + k <= n,
            n == x@.len(),
            content_wf(x@),
            ev@ == expand_cells(x@.subrange(pos as int, j as int)),
            all_cells_wf(ev@),
            wide_paired(ev@),
            ev@.len() > 0 ==> ev@.last().width != 2,
            ev@.len() <= 2 * (j - pos),
        decreases pos + k - j,
    {
        let cell = x[j];
        let ghost pre = ev@;
        proof {
            assert(x@.subrange(pos as int, j + 1).drop_last() =~= x@.subrange(
                pos as int,
                j as int,
            ));
            assert(x@.subrange(pos as int, j + 1).last() == x@[j as int]);
            assert(x@[j as int].width == 1 || x@[j as int].width == 2);
        }
        if cell.width == 2 {
            ev.push(cell);
            ev.push(Cell::wide_trailer(cell.attrs));
        } else {
            ev.push(cell);
        }
        proof {
            assert(ev@ =~= expand_cells(x@.subrange(pos as int, j + 1)));
            assert forall|i2: int| 0 <= i2 < ev@.len() implies #[trigger] pair_ok(
                ev@,
                i2,
            ) by {
                if i2 < pre.len() {
                    assert(pair_ok(pre, i2));
                    if i2 + 1 < pre.len() {
                        assert(pair_ok(pre, i2 + 1));
                    }
                }
            }
        }
        j = j + 1;
    }
    if ev.len() > c {
        let blank_row = crate::line::Line::blank(c);
        proof {
            assert(blank_row.cells@ =~= Line::blank_line_spec(c as nat));
            assert forall|i2: int| 0 <= i2 < blank_row.cells@.len() implies
                #[trigger] pair_ok(blank_row.cells@, i2) by {
                assert(blank_row.cells@[i2] == Cell::blank_spec());
            }
        }
        return blank_row.cells;
    }
    let ghost expanded = ev@;
    let mut pads: usize = 0;
    let need = c - ev.len();
    while pads < need
        invariant
            pads <= need,
            need + expanded.len() == c,
            ev@ == expanded + Seq::new(pads as nat, |i: int| Cell::blank_spec()),
            all_cells_wf(ev@),
            wide_paired(ev@),
            ev@.len() > 0 ==> ev@.last().width != 2,
        decreases need - pads,
    {
        let ghost pre = ev@;
        ev.push(Cell::blank());
        proof {
            assert(ev@ =~= expanded + Seq::new((pads + 1) as nat, |i: int| Cell::blank_spec()));
            assert forall|i2: int| 0 <= i2 < ev@.len() implies #[trigger] pair_ok(
                ev@,
                i2,
            ) by {
                if i2 < pre.len() {
                    assert(pair_ok(pre, i2));
                    if i2 + 1 < pre.len() {
                        assert(pair_ok(pre, i2 + 1));
                    }
                }
            }
        }
        pads = pads + 1;
    }
    ev
}

/// Re-wrap one logical line into rows of width `c`.
fn wrap_one(x: &Vec<Cell>, c: usize) -> (rows: Vec<Line>)
    requires
        c >= 1,
        content_wf(x@),
    ensures
        lines_view(rows@) == run_rows(x@, c as nat),
        rows@.len() >= 1,
        forall|i: int| 0 <= i < rows@.len() ==> (#[trigger] rows@[i]).wf(c as nat),
        !rows@[0].soft_wrapped,
{
    let mut rows: Vec<Line> = Vec::new();
    if x.len() == 0 {
        rows.push(Line::blank(c));
        proof {
            assert(lines_view(rows@) =~= run_rows(x@, c as nat));
        }
        return rows;
    }
    let n = x.len();
    let mut pos: usize = 0;
    let ghost mut done: Seq<Seq<Cell>> = Seq::empty();
    proof {
        assert(x@.skip(0) =~= x@);
        assert(done + wrap_chunks(x@, c as int) =~= wrap_chunks(x@, c as int));
        assert(wrap_chunks(x@, c as int) == done + wrap_chunks(x@.skip(0), c as int));
    }
    while pos < n
        invariant
            pos <= n,
            n == x@.len(),
            c >= 1,
            content_wf(x@),
            wrap_chunks(x@, c as int) == done + wrap_chunks(x@.skip(pos as int), c as int),
            rows@.len() == done.len(),
            forall|j: int| 0 <= j < rows@.len() ==> (#[trigger] lines_view(rows@)[j])
                == (LineV {
                cells: materialize_row(done[j], c as nat),
                soft_wrapped: j > 0,
            }),
            forall|j: int| 0 <= j < rows@.len() ==> (#[trigger] rows@[j]).wf(c as nat),
            pos == 0 <==> done.len() == 0,
            pos > 0 ==> done.len() > 0,
        decreases n - pos,
    {
        let k = chunk_len_exec(x, pos, c);
        let row_cells = materialize_exec(x, pos, k, c);
        let soft = pos > 0;
        let ghost pre_rows = rows@;
        rows.push(Line { cells: row_cells, soft_wrapped: soft });
        proof {
            let rest = x@.skip(pos as int);
            assert(rest.len() > 0);
            assert(rest.take(k as int) =~= x@.subrange(pos as int, pos + k));
            assert(rest.skip(k as int) =~= x@.skip(pos + k));
            assert(wrap_chunks(rest, c as int) == seq![rest.take(k as int)] + wrap_chunks(
                rest.skip(k as int),
                c as int,
            ));
            done = done.push(x@.subrange(pos as int, pos + k));
            assert(wrap_chunks(x@, c as int) =~= done + wrap_chunks(
                x@.skip(pos + k),
                c as int,
            ));
            assert forall|j: int| 0 <= j < rows@.len() implies (
            #[trigger] lines_view(rows@)[j]) == (LineV {
                cells: materialize_row(done[j], c as nat),
                soft_wrapped: j > 0,
            }) by {
                if j < pre_rows.len() {
                    assert(lines_view(pre_rows)[j] == (LineV {
                        cells: materialize_row(done[j], c as nat),
                        soft_wrapped: j > 0,
                    }));
                    assert(lines_view(rows@)[j] == lines_view(pre_rows)[j]);
                }
            }
        }
        pos = pos + k;
    }
    proof {
        assert(x@.skip(n as int).len() == 0);
        assert(wrap_chunks(x@.skip(n as int), c as int) =~= Seq::<Seq<Cell>>::empty());
        assert(done =~= wrap_chunks(x@, c as int));
        assert(lines_view(rows@) =~= run_rows(x@, c as nat));
        assert(lines_view(rows@)[0].soft_wrapped == false);
        assert(rows@[0]@.soft_wrapped == rows@[0].soft_wrapped);
    }
    rows
}

/// The prefix decomposition of `reflow_rows`.
proof fn lemma_reflow_rows_snoc(contents: Seq<Seq<Cell>>, i: int, c: nat)
    requires
        0 <= i < contents.len(),
    ensures
        reflow_rows(contents.take(i + 1), c) == reflow_rows(contents.take(i), c)
            + run_rows(contents[i], c),
    decreases i,
{
    if i == 0 {
        assert(contents.take(1).drop_first() =~= Seq::<Seq<Cell>>::empty());
        assert(contents.take(1)[0] == contents[0]);
        assert(reflow_rows(contents.take(0), c) =~= Seq::<LineV>::empty());
        assert(reflow_rows(contents.take(1).drop_first(), c) =~= Seq::<LineV>::empty());
        assert(reflow_rows(contents.take(1), c) =~= run_rows(contents[0], c));
    } else {
        let a = contents.take(i + 1);
        let b = contents.take(i);
        assert(a[0] == contents[0]);
        assert(b[0] == contents[0]);
        assert(a.drop_first() =~= contents.drop_first().take(i));
        assert(b.drop_first() =~= contents.drop_first().take(i - 1));
        assert(contents.drop_first()[i - 1] == contents[i]);
        lemma_reflow_rows_snoc(contents.drop_first(), i - 1, c);
        assert(reflow_rows(a, c) =~= reflow_rows(b, c) + run_rows(contents[i], c));
    }
}

/// Reflow the whole buffer to a new geometry: every logical line
/// re-wrapped to `cols`, then padded with blank rows up to `rows`.
pub fn reflow_buffer(lines: &Vec<Line>, rows: usize, cols: usize) -> (out: Vec<Line>)
    requires
        rows >= 1,
        cols >= 1,
        forall|i: int| 0 <= i < lines@.len() ==> all_cells_wf(
            (#[trigger] lines@[i]).cells@,
        ),
    ensures
        lines_view(out@) == reflow_spec(lines_view(lines@), rows as nat, cols as nat),
        out@.len() >= rows,
        forall|i: int| 0 <= i < out@.len() ==> (#[trigger] out@[i]).wf(cols as nat),
{
    let contents = extract_contents(lines);
    let ghost cv = cells_views(contents@);
    let mut out: Vec<Line> = Vec::new();
    let m = contents.len();
    let mut gi: usize = 0;
    proof {
        assert(cv.take(0) =~= Seq::<Seq<Cell>>::empty());
        assert(lines_view(out@) =~= reflow_rows(cv.take(0), cols as nat));
    }
    while gi < m
        invariant
            gi <= m,
            m == contents@.len(),
            cols >= 1,
            cv == cells_views(contents@),
            forall|i: int| 0 <= i < contents@.len() ==> content_wf(
                (#[trigger] contents@[i])@,
            ),
            lines_view(out@) == reflow_rows(cv.take(gi as int), cols as nat),
            forall|i: int| 0 <= i < out@.len() ==> (#[trigger] out@[i]).wf(cols as nat),
        decreases m - gi,
    {
        let mut run = wrap_one(&contents[gi], cols);
        let ghost pre = out@;
        let ghost runv = run@;
        out.append(&mut run);
        proof {
            assert(cv[gi as int] == contents@[gi as int]@);
            lemma_reflow_rows_snoc(cv, gi as int, cols as nat);
            assert(out@ =~= pre + runv);
            assert(lines_view(out@) =~= lines_view(pre) + lines_view(runv));
            assert(cv.take(gi as int) =~= cv.take(gi + 1).drop_last());
        }
        gi = gi + 1;
    }
    proof {
        assert(cv.take(m as int) =~= cv);
    }
    // Pad the buffer back up to the window height with blank hard rows.
    let ghost wrapped = lines_view(out@);
    while out.len() < rows
        invariant
            cols >= 1,
            wrapped == reflow_rows(cv, cols as nat),
            wrapped.len() <= out@.len(),
            out@.len() <= rows || out@.len() == wrapped.len(),
            lines_view(out@) == wrapped + Seq::new(
                (out@.len() - wrapped.len()) as nat,
                |i: int| LineV { cells: Line::blank_line_spec(cols as nat), soft_wrapped: false },
            ),
            forall|i: int| 0 <= i < out@.len() ==> (#[trigger] out@[i]).wf(cols as nat),
        decreases rows - out@.len(),
    {
        let ghost pre = out@;
        let nb = Line::blank(cols);
        proof {
            assert(nb@.cells =~= Line::blank_line_spec(cols as nat));
        }
        out.push(nb);
        proof {
            assert(lines_view(out@) =~= lines_view(pre).push(
                LineV { cells: Line::blank_line_spec(cols as nat), soft_wrapped: false },
            ));
            assert(lines_view(out@) =~= wrapped + Seq::new(
                (out@.len() - wrapped.len()) as nat,
                |i: int| LineV { cells: Line::blank_line_spec(cols as nat), soft_wrapped: false },
            ));
        }
    }
    proof {
        assert(lines_view(out@) =~= pad_rows(
            reflow_rows(logical_lines(lines_view(lines@)), cols as nat),
            rows as nat,
            cols as nat,
        ));
    }
    out
}


/// One re-wrapped buffer, grouped back: one group per logical line.
proof fn lemma_raw_reflow(contents: Seq<Seq<Cell>>, c: nat)
    requires
        c >= 1,
    ensures
        raw_logical(reflow_rows(contents, c)) == Seq::new(
            contents.len(),
            |i: int| rows_content(run_rows(contents[i], c)),
        ),
    decreases contents.len(),
{
    if contents.len() == 0 {
        assert(raw_logical(reflow_rows(contents, c)) =~= Seq::new(
            contents.len(),
            |i: int| rows_content(run_rows(contents[i], c)),
        ));
    } else {
        let head = run_rows(contents[0], c);
        let rest = reflow_rows(contents.drop_first(), c);
        lemma_raw_reflow(contents.drop_first(), c);
        assert(head.len() >= 1);
        assert(!head[0].soft_wrapped);
        assert(forall|i: int| 1 <= i < head.len() ==> (#[trigger] head[i]).soft_wrapped);
        lemma_raw_logical_run(head);
        if rest.len() > 0 {
            assert(contents.drop_first().len() > 0);
            let first_rest = run_rows(contents.drop_first()[0], c);
            assert(first_rest.len() >= 1);
            assert(rest[0] == first_rest[0]);
            assert(!rest[0].soft_wrapped);
        }
        lemma_raw_logical_append(head, rest);
        assert(raw_logical(reflow_rows(contents, c)) =~= Seq::new(
            contents.len(),
            |i: int| rows_content(run_rows(contents[i], c)),
        ));
    }
}

/// Hard rows never merge: each is its own group.
proof fn lemma_raw_hard_rows(rs: Seq<LineV>)
    requires
        forall|i: int| 0 <= i < rs.len() ==> !(#[trigger] rs[i]).soft_wrapped,
    ensures
        raw_logical(rs) == Seq::new(rs.len(), |i: int| content_of(rs[i].cells)),
    decreases rs.len(),
{
    if rs.len() > 0 {
        lemma_raw_hard_rows(rs.drop_last());
        assert(!rs.last().soft_wrapped);
        assert(raw_logical(rs) =~= Seq::new(rs.len(), |i: int| content_of(rs[i].cells)));
    } else {
        assert(raw_logical(rs) =~= Seq::new(rs.len(), |i: int| content_of(rs[i].cells)));
    }
}

/// Empty logical lines appended at the bottom vanish from the text.
proof fn lemma_dte_append_empty(a: Seq<Seq<Cell>>, b: Seq<Seq<Cell>>)
    requires
        forall|i: int| 0 <= i < b.len() ==> (#[trigger] b[i]).len() == 0,
    ensures
        drop_empty_tail(a + b) == drop_empty_tail(a),
    decreases b.len(),
{
    if b.len() == 0 {
        assert(a + b =~= a);
    } else {
        assert((a + b).last() == b.last());
        assert((a + b).drop_last() =~= a + b.drop_last());
        lemma_dte_append_empty(a, b.drop_last());
    }
}

/// Reflow to any geometry preserves the hard-newline-delimited text,
/// provided every logical line wraps cleanly at the new width (all-narrow
/// content always does; see `wraps_cleanly`).  Beyond the text equality,
/// the logical lines come back exactly, followed only by empty lines for
/// the window padding.
pub proof fn lemma_reflow_preserves_text(ls: Seq<LineV>, rows: nat, c: nat)
    requires
        c >= 1,
        forall|i: int| 0 <= i < logical_lines(ls).len() ==> content_wf(
            #[trigger] logical_lines(ls)[i],
        ),
        forall|i: int| 0 <= i < logical_lines(ls).len() ==> wraps_cleanly(
            #[trigger] logical_lines(ls)[i],
            c as int,
        ),
    ensures
        logical_text(reflow_spec(ls, rows, c)) == logical_text(ls),
        logical_lines(reflow_spec(ls, rows, c)).len() >= logical_lines(ls).len(),
        forall|i: int| 0 <= i < logical_lines(ls).len() ==> #[trigger] logical_lines(
            reflow_spec(ls, rows, c),
        )[i] == logical_lines(ls)[i],
        forall|i: int|
            logical_lines(ls).len() <= i < logical_lines(reflow_spec(ls, rows, c)).len()
                ==> (#[trigger] logical_lines(reflow_spec(ls, rows, c))[i]).len() == 0,
{
    let x = logical_lines(ls);
    let flowed = reflow_rows(x, c);
    let padded = reflow_spec(ls, rows, c);
    lemma_raw_reflow(x, c);
    let groups = Seq::new(x.len(), |i: int| rows_content(run_rows(x[i], c)));
    let blanks = Line::blank_line_spec(c);
    assert(forall|i: int| 0 <= i < blanks.len() ==> blanks[i] == Cell::blank_spec());
    if flowed.len() >= rows {
        assert(padded == flowed);
        assert(raw_logical(padded) == groups);
    } else {
        let pads = Seq::new(
            (rows - flowed.len()) as nat,
            |i: int| LineV { cells: blanks, soft_wrapped: false },
        );
        assert(padded == flowed + pads);
        assert(pads.len() > 0 ==> !pads[0].soft_wrapped);
        lemma_raw_logical_append(flowed, pads);
        lemma_raw_hard_rows(pads);
        assert(raw_logical(padded) =~= groups + Seq::new(
            pads.len(),
            |i: int| content_of(blanks),
        ));
    }
    // Trim each group: a logical line comes back as itself, a pad row as
    // the empty line.
    assert(forall|i: int| 0 <= i < blanks.len() ==> (#[trigger] blanks[i]).width > 0);
    lemma_content_id(blanks);
    assert(Seq::<Cell>::empty() + blanks =~= blanks);
    lemma_trim_append_blanks(Seq::empty(), blanks);
    assert(trim_blanks(Seq::<Cell>::empty()) == Seq::<Cell>::empty());
    assert(trim_blanks(blanks) == Seq::<Cell>::empty());
    assert forall|i: int| 0 <= i < x.len() implies trim_blanks(groups[i]) == x[i] by {
        lemma_run_trim(x[i], c);
        assert(x[i] == trim_blanks(raw_logical(ls)[i]));
        lemma_trim_idempotent(raw_logical(ls)[i]);
    }
    let lpad = logical_lines(padded);
    assert(lpad.len() == raw_logical(padded).len());
    assert forall|i: int| 0 <= i < x.len() implies #[trigger] lpad[i] == x[i] by {
        assert(raw_logical(padded)[i] == groups[i]);
        assert(lpad[i] == trim_blanks(groups[i]));
    }
    assert forall|i: int| x.len() <= i < lpad.len() implies (#[trigger] lpad[i]).len()
        == 0 by {
        assert(raw_logical(padded)[i] == content_of(blanks));
        assert(content_of(blanks) == blanks);
        assert(lpad[i] == trim_blanks(blanks));
    }
    // The text: the padding's empty lines drop off the tail.
    let empties = lpad.skip(x.len() as int);
    assert(forall|i: int| 0 <= i < empties.len() ==> (#[trigger] empties[i]).len() == 0);
    assert(lpad =~= x + empties);
    lemma_dte_append_empty(x, empties);
    assert(logical_text(padded) == drop_empty_tail(x));
}

/// Reflow idempotence: resizing to one geometry and back to the original
/// preserves the hard-newline-delimited text, though intra-line wrap
/// points may differ, provided every logical line wraps cleanly at both
/// widths (all-narrow content always does).  `Screen::resize` computes
/// exactly `reflow_spec` followed by scrollback trimming, so this law
/// carries over whenever the re-wrapped buffer stays within the
/// retention bound.
pub proof fn lemma_reflow_round_trip(ls: Seq<LineV>, r: nat, c: nat, r0: nat, c0: nat)
    requires
        c >= 1,
        c0 >= 1,
        forall|i: int| 0 <= i < logical_lines(ls).len() ==> content_wf(
            #[trigger] logical_lines(ls)[i],
        ),
        forall|i: int| 0 <= i < logical_lines(ls).len() ==> wraps_cleanly(
            #[trigger] logical_lines(ls)[i],
            c as int,
        ),
        forall|i: int| 0 <= i < logical_lines(ls).len() ==> wraps_cleanly(
            #[trigger] logical_lines(ls)[i],
            c0 as int,
        ),
    ensures
        logical_text(reflow_spec(reflow_spec(ls, r, c), r0, c0)) == logical_text(ls),
{
    lemma_reflow_preserves_text(ls, r, c);
    let mid = reflow_spec(ls, r, c);
    let x = logical_lines(ls);
    let y = logical_lines(mid);
    assert forall|i: int| 0 <= i < y.len() implies content_wf(#[trigger] y[i])
        && wraps_cleanly(#[trigger] y[i], c0 as int) by {
        if i < x.len() {
            assert(y[i] == x[i]);
        } else {
            assert(y[i].len() == 0);
            assert(content_wf(y[i]));
            assert(wraps_cleanly(y[i], c0 as int));
        }
    }
    lemma_reflow_preserves_text(mid, r0, c0);
}

/// Every logical line of a well-formed buffer is made of content cells.
pub proof fn lemma_logical_lines_wf(ls: Seq<LineV>)
    requires
        forall|i: int| 0 <= i < ls.len() ==> all_cells_wf((#[trigger] ls[i]).cells),
    ensures
        forall|i: int| 0 <= i < logical_lines(ls).len() ==> content_wf(
            #[trigger] logical_lines(ls)[i],
        ),
    decreases ls.len(),
{
    lemma_raw_logical_wf(ls);
    assert forall|i: int| 0 <= i < logical_lines(ls).len() implies content_wf(
        #[trigger] logical_lines(ls)[i],
    ) by {
        assert(content_wf(raw_logical(ls)[i]));
        lemma_trim_wf(raw_logical(ls)[i]);
        assert(logical_lines(ls)[i] == trim_blanks(raw_logical(ls)[i]));
    }
}

proof fn lemma_trim_wf(s: Seq<Cell>)
    requires
        content_wf(s),
    ensures
        content_wf(trim_blanks(s)),
    decreases s.len(),
{
    if s.len() > 0 && s.last() == Cell::blank_spec() {
        assert(content_wf(s.drop_last()));
        lemma_trim_wf(s.drop_last());
    }
}

proof fn lemma_content_of_wf(cells: Seq<Cell>)
    requires
        all_cells_wf(cells),
    ensures
        content_wf(content_of(cells)),
    decreases cells.len(),
{
    if cells.len() > 0 {
        assert(all_cells_wf(cells.drop_last()));
        lemma_content_of_wf(cells.drop_last());
        assert(cells.last().wf());
        assert(content_wf(content_of(cells)));
    }
}

proof fn lemma_raw_logical_wf(ls: Seq<LineV>)
    requires
        forall|i: int| 0 <= i < ls.len() ==> all_cells_wf((#[trigger] ls[i]).cells),
    ensures
        forall|i: int| 0 <= i < raw_logical(ls).len() ==> content_wf(
            #[trigger] raw_logical(ls)[i],
        ),
    decreases ls.len(),
{
    if ls.len() > 0 {
        assert(forall|i: int| 0 <= i < ls.drop_last().len() ==> all_cells_wf((
        #[trigger] ls.drop_last()[i]).cells));
        lemma_raw_logical_wf(ls.drop_last());
        assert(ls.last() == ls[ls.len() - 1]);
        assert(all_cells_wf(ls.last().cells));
        lemma_content_of_wf(ls.last().cells);
        let init = raw_logical(ls.drop_last());
        let add = content_of(ls.last().cells);
        assert forall|i: int| 0 <= i < raw_logical(ls).len() implies content_wf(
            #[trigger] raw_logical(ls)[i],
        ) by {
            if ls.last().soft_wrapped && init.len() > 0 {
                if i < init.len() - 1 {
                    assert(raw_logical(ls)[i] == init[i]);
                    assert(content_wf(init[i]));
                } else {
                    assert(raw_logical(ls)[i] == init.last() + add);
                    assert(content_wf(init.last()));
                    assert(content_wf(init.last() + add));
                }
            } else {
                if i < init.len() {
                    assert(raw_logical(ls)[i] == init[i]);
                    assert(content_wf(init[i]));
                } else {
                    assert(raw_logical(ls)[i] == add);
                }
            }
        }
    }
}

} // verus!
