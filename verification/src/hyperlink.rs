//! Hyperlink records shared by reference across cells.
//!
//! A cell stores only a small integer id into the arena; many cells may
//! reference one record.  Explicit links come from OSC 8 sequences;
//! implicit links are synthesized when a modified line matches one of
//! the configured patterns.  When rows scroll out of retention, records
//! no cell references any more are reclaimed by a sweep.

use vstd::prelude::*;
use crate::line::Line;
use crate::screen::Screen;

verus! {

/// One hyperlink record: target URI, optional grouping id, and whether
/// it was synthesized by pattern matching (implicit) rather than set by
/// an OSC sequence (explicit).
#[derive(Debug)]
pub struct Hyperlink {
    pub uri: Vec<u8>,
    pub id: Vec<u8>,
    pub implicit: bool,
}

/// Arena of hyperlink records, indexed by the ids stored in cells.
/// Reclaimed slots hold `None`; slot indices of live records are stable.
#[derive(Debug)]
pub struct LinkArena {
    pub records: Vec<Option<Hyperlink>>,
}

/// Whether some cell of `lines` references record `id`.
pub open spec fn link_referenced(lines: Seq<Line>, id: int) -> bool {
    exists|r: int, c: int|
        0 <= r < lines.len() && 0 <= c < lines[r].cells@.len() && lines[r].cells@[c].link
            == Some(id as u64)
}

/// The link of cell `(ri, ci)`, if it names a record below `n`, is
/// marked in `marks`.
pub open spec fn cell_link_marked(
    lines: Seq<Line>,
    marks: Seq<bool>,
    n: int,
    ri: int,
    ci: int,
) -> bool {
    match lines[ri].cells@[ci].link {
        Some(l) => l < n ==> marks[l as int],
        None => true,
    }
}

impl LinkArena {
    pub fn new() -> (r: LinkArena)
        ensures
            r.records@.len() == 0,
    {
        LinkArena { records: Vec::new() }
    }

    /// Append a fresh record and return its id.  Existing ids are stable.
    pub fn intern(&mut self, uri: Vec<u8>, id: Vec<u8>, implicit: bool) -> (r: u64)
        ensures
            final(self).records@.len() == old(self).records@.len() + 1,
            r == old(self).records@.len(),
            forall|i: int| 0 <= i < old(self).records@.len() ==> final(self).records@[i]
                == old(self).records@[i],
            final(self).records@[r as int] matches Some(l) && l.uri@ == uri@ && l.id@
                == id@ && l.implicit == implicit,
    {
        let r = self.records.len() as u64;
        self.records.push(Some(Hyperlink { uri, id, implicit }));
        r
    }

    /// Look up the URI of a live record, copying it out.
    pub fn uri_of(&self, id: u64) -> (r: Option<Vec<u8>>)
        ensures
            match r {
                Some(u) => id < self.records@.len() && (self.records@[id as int] matches
                    Some(l) && u@ == l.uri@),
                None => id >= self.records@.len() || self.records@[id as int] is None,
            },
    {
        if id >= self.records.len() as u64 {
            return None;
        }
        let idx = id as usize;
        match &self.records[idx] {
            Some(l) => {
                let mut out: Vec<u8> = Vec::new();
                let mut i: usize = 0;
                while i < l.uri.len()
                    invariant
                        i <= l.uri@.len(),
                        out@ =~= l.uri@.take(i as int),
                    decreases l.uri@.len() - i,
                {
                    out.push(l.uri[i]);
                    i = i + 1;
                }
                proof {
                    assert(out@ =~= l.uri@);
                }
                Some(out)
            },
            None => None,
        }
    }

    /// Reachability sweep after a scrollback trim: every record still
    /// referenced by some cell (or named by `keep`, the terminal's open
    /// explicit link) survives unchanged; unreachable records are
    /// reclaimed to `None`.
    pub fn sweep(&mut self, screen: &Screen, keep: Option<u64>)
        requires
            screen.wf(),
        ensures
            final(self).records@.len() == old(self).records@.len(),
            forall|i: int|
                #![trigger final(self).records@[i]]
                0 <= i < old(self).records@.len() && (link_referenced(screen.lines@, i)
                    || keep == Some(i as u64)) ==> final(self).records@[i] == old(
                    self,
                ).records@[i],
    {
        let n = self.records.len();
        let mut marks: Vec<bool> = Vec::new();
        let mut i: usize = 0;
        while i < n
            invariant
                i <= n,
                marks@.len() == i,
                forall|j: int| 0 <= j < i ==> !(#[trigger] marks@[j]),
            decreases n - i,
        {
            marks.push(false);
            i = i + 1;
        }
        let rows = screen.lines.len();
        let mut r: usize = 0;
        while r < rows
            invariant
                screen.wf(),
                rows == screen.lines@.len(),
                marks@.len() == n,
                forall|ri: int, ci: int|
                    0 <= ri < r && 0 <= ci < screen.lines@[ri].cells@.len()
                        ==> #[trigger] cell_link_marked(screen.lines@, marks@, n as int, ri, ci),
                forall|i2: int| 0 <= i2 < n && #[trigger] marks@[i2] ==> link_referenced(
                    screen.lines@,
                    i2,
                ),
            decreases rows - r,
        {
            let width = screen.lines[r].cells.len();
            let mut c: usize = 0;
            while c < width
                invariant
                    screen.wf(),
                    rows == screen.lines@.len(),
                    r < rows,
                    width == screen.lines@[r as int].cells@.len(),
                    marks@.len() == n,
                    forall|ri: int, ci: int|
                        0 <= ri < r && 0 <= ci < screen.lines@[ri].cells@.len()
                            ==> #[trigger] cell_link_marked(
                            screen.lines@,
                            marks@,
                            n as int,
                            ri,
                            ci,
                        ),
                    forall|ci: int| 0 <= ci < c ==> #[trigger] cell_link_marked(
                        screen.lines@,
                        marks@,
                        n as int,
                        r as int,
                        ci,
                    ),
                    forall|i2: int| 0 <= i2 < n && #[trigger] marks@[i2]
                        ==> link_referenced(screen.lines@, i2),
                decreases width - c,
            {
                let ghost marks0 = marks@;
                match screen.lines[r].cells[c].link {
                    Some(l) => {
                        if l < n as u64 {
                            marks.set(l as usize, true);
                            proof {
                                assert(screen.lines@[r as int].cells@[c as int].link
                                    == Some((l as int) as u64));
                                assert(link_referenced(screen.lines@, l as int));
                            }
                        }
                    },
                    None => {},
                }
                proof {
                    assert(forall|j: int| 0 <= j < n && marks0[j] ==> marks@[j]);
                    assert forall|i2: int| 0 <= i2 < n && #[trigger] marks@[i2] implies
                        link_referenced(screen.lines@, i2) by {
                        if !marks0[i2] {
                            assert(link_referenced(screen.lines@, i2));
                        }
                    }
                    assert forall|ri: int, ci: int|
                        0 <= ri < r && 0 <= ci < screen.lines@[ri].cells@.len() implies
                        #[trigger] cell_link_marked(
                            screen.lines@,
                            marks@,
                            n as int,
                            ri,
                            ci,
                        ) by {
                        assert(cell_link_marked(screen.lines@, marks0, n as int, ri, ci));
                    }
                    assert forall|ci: int| 0 <= ci < c + 1 implies #[trigger] cell_link_marked(
                        screen.lines@,
                        marks@,
                        n as int,
                        r as int,
                        ci,
                    ) by {
                        if ci < c {
                            assert(cell_link_marked(
                                screen.lines@,
                                marks0,
                                n as int,
                                r as int,
                                ci,
                            ));
                        }
                    }
                }
                c = c + 1;
            }
            r = r + 1;
        }
        // Reclaim everything unmarked (and not the open explicit link).
        let mut k: usize = 0;
        while k < n
            invariant
                k <= n,
                n == old(self).records@.len(),
                self.records@.len() == n,
                marks@.len() == n,
                forall|ri: int, ci: int|
                    0 <= ri < screen.lines@.len() && 0 <= ci < screen.lines@[
                        ri].cells@.len() ==> #[trigger] cell_link_marked(
                        screen.lines@,
                        marks@,
                        n as int,
                        ri,
                        ci,
                    ),
                forall|i2: int| 0 <= i2 < n && (marks@[i2] || keep == Some(i2 as u64))
                    ==> self.records@[i2] == old(self).records@[i2],
                forall|i2: int| k <= i2 < n ==> self.records@[i2] == old(self).records@[i2],
                forall|i2: int| 0 <= i2 < k && !marks@[i2] && keep != Some(i2 as u64)
                    ==> self.records@[i2] is None,
                forall|i2: int| 0 <= i2 < n && #[trigger] marks@[i2] ==> link_referenced(
                    screen.lines@,
                    i2,
                ),
            decreases n - k,
        {
            let keep_this = match keep {
                Some(kid) => kid == k as u64,
                None => false,
            };
            if !marks[k] && !keep_this {
                self.records.set(k, None);
            }
            k = k + 1;
        }
        proof {
            assert(forall|i2: int| 0 <= i2 < n && ((#[trigger] marks@[i2]) || keep == Some(
                i2 as u64,
            )) ==> self.records@[i2] == old(self).records@[i2]);
            assert forall|i2: int|
                #![trigger self.records@[i2]]
                0 <= i2 < old(self).records@.len() && (link_referenced(screen.lines@, i2)
                    || keep == Some(i2 as u64)) implies self.records@[i2] == old(
                self,
            ).records@[i2] by {
                if link_referenced(screen.lines@, i2) {
                    let (ri, ci) = choose|ri: int, ci: int|
                        0 <= ri < screen.lines@.len() && 0 <= ci < screen.lines@[
                            ri].cells@.len() && screen.lines@[ri].cells@[ci].link == Some(
                            i2 as u64,
                        );
                    assert(screen.lines@[ri].cells@[ci].link == Some(i2 as u64));
                    assert(cell_link_marked(screen.lines@, marks@, n as int, ri, ci));
                    assert(i2 < n);
                    assert(marks@[i2]);
                }
                assert(0 <= i2 < n);
                if marks@[i2] {
                    assert(self.records@[i2] == old(self).records@[i2]);
                } else {
                    assert(keep == Some(i2 as u64));
                    assert(self.records@[i2] == old(self).records@[i2]);
                }
            }
            assert forall|i2: int|
                #![trigger self.records@[i2]]
                0 <= i2 < old(self).records@.len() && !link_referenced(screen.lines@, i2)
                    && keep != Some(i2 as u64) implies self.records@[i2] is None by {
                assert(!marks@[i2]);
                assert(self.records@[i2] is None);
            }
        }
    }
}

/// Whether pattern `p` matches the glyphs of `cells` starting at `start`.
pub open spec fn pattern_matches_at(cells: Seq<crate::cell::Cell>, p: Seq<u32>, start: int) -> bool {
    &&& 0 <= start
    &&& p.len() >= 1
    &&& start + p.len() <= cells.len()
    &&& forall|k: int| 0 <= k < p.len() ==> (#[trigger] cells[start + k]).cp == p[k]
}

/// Rescan one line against the configured literal patterns and attach a
/// synthesized hyperlink to every matched span whose cells carry no link
/// yet.  Explicit links are never overwritten, so they take precedence;
/// only the one modified line is scanned, never the whole buffer.
pub fn rescan_line(
    screen: &mut Screen,
    arena: &mut LinkArena,
    patterns: &Vec<Vec<u32>>,
    phys: usize,
)
    requires
        old(screen).wf(),
        phys < old(screen).lines@.len(),
    ensures
        final(screen).wf(),
        final(screen).rows == old(screen).rows,
        final(screen).cols == old(screen).cols,
        final(screen).scrollback_limit == old(screen).scrollback_limit,
        final(screen).lines@.len() == old(screen).lines@.len(),
        forall|i: int| 0 <= i < old(screen).lines@.len() && i != phys ==> final(screen).lines@[i] == old(screen).lines@[i],
        final(screen).lines@[phys as int].cells@.len() == old(screen).lines@[
            phys as int].cells@.len(),
        final(screen).lines@[phys as int].soft_wrapped == old(screen).lines@[
            phys as int].soft_wrapped,
        // The glyphs themselves are untouched: only link fields change.
        forall|x: int| 0 <= x < old(screen).lines@[phys as int].cells@.len() ==> (
        #[trigger] final(screen).lines@[phys as int].cells@[x]).cp == old(screen).lines@[phys as int].cells@[x].cp && final(screen).lines@[phys as int].cells@[
            x].width == old(screen).lines@[phys as int].cells@[x].width && final(screen).lines@[phys as int].cells@[x].attrs == old(screen).lines@[phys as int].cells@[
            x].attrs,
        // Existing links take precedence: a cell that already carried a
        // link keeps exactly that link.
        forall|x: int|
            0 <= x < old(screen).lines@[phys as int].cells@.len() && (#[trigger] old(screen).lines@[phys as int].cells@[x]).link is Some ==> final(screen).lines@[
                phys as int].cells@[x].link == old(screen).lines@[phys as int].cells@[
                x].link,
        // The arena only grows, existing records are stable, and every
        // record added here is a synthesized (implicit) one.
        forall|i: int| 0 <= i < old(arena).records@.len() ==> final(arena).records@[i]
            == old(arena).records@[i],
        final(arena).records@.len() >= old(arena).records@.len(),
        forall|i: int|
            old(arena).records@.len() <= i < final(arena).records@.len() ==> ((
            #[trigger] final(arena).records@[i]) matches Some(l) && l.implicit),
        // Coverage: on a line with no links at all, if the first pattern
        // matches anywhere, some cell of the line carries a link after
        // the rescan.
        ((forall|x: int| 0 <= x < old(screen).lines@[phys as int].cells@.len() ==> (
        #[trigger] old(screen).lines@[phys as int].cells@[x]).link is None) && patterns@.len()
            >= 1 && patterns@[0]@.len() <= old(screen).cols && (exists|st: int|
            pattern_matches_at(
                old(screen).lines@[phys as int].cells@,
                patterns@[0]@,
                st,
            ))) ==> (exists|x: int|
            0 <= x < final(screen).lines@[phys as int].cells@.len() && (#[trigger] final(screen).lines@[phys as int].cells@[x]).link is Some),
{
    let cols = screen.cols;
    let ghost cells0 = old(screen).lines@[phys as int].cells@;
    let ghost all_none = forall|x: int| 0 <= x < cells0.len() ==> (#[trigger] cells0[x]).link is None;
    let mut any_attached = false;
    let mut p: usize = 0;
    while p < patterns.len()
        invariant
            screen.wf(),
            screen.rows == old(screen).rows,
            screen.cols == old(screen).cols,
            cols == screen.cols,
            screen.scrollback_limit == old(screen).scrollback_limit,
            screen.lines@.len() == old(screen).lines@.len(),
            phys < screen.lines@.len(),
            cells0 == old(screen).lines@[phys as int].cells@,
            all_none == (forall|x: int| 0 <= x < cells0.len() ==> (#[trigger] cells0[x]).link
                is None),
            forall|i: int| 0 <= i < old(screen).lines@.len() && i != phys ==> screen.lines@[i]
                == old(screen).lines@[i],
            screen.lines@[phys as int].cells@.len() == cells0.len(),
            cells0.len() == cols,
            screen.lines@[phys as int].soft_wrapped == old(screen).lines@[
                phys as int].soft_wrapped,
            forall|x: int| 0 <= x < cells0.len() ==> (#[trigger] screen.lines@[
                phys as int].cells@[x]).cp == cells0[x].cp && screen.lines@[
                phys as int].cells@[x].width == cells0[x].width && screen.lines@[
                phys as int].cells@[x].attrs == cells0[x].attrs,
            forall|x: int| 0 <= x < cells0.len() && (#[trigger] cells0[x]).link is Some
                ==> screen.lines@[phys as int].cells@[x].link == cells0[x].link,
            forall|i: int| 0 <= i < old(arena).records@.len() ==> arena.records@[i]
                == old(arena).records@[i],
            arena.records@.len() >= old(arena).records@.len(),
            forall|i: int|
                old(arena).records@.len() <= i < arena.records@.len() ==> ((
                #[trigger] arena.records@[i]) matches Some(l) && l.implicit),
            !any_attached ==> forall|x: int| 0 <= x < cells0.len() ==> (#[trigger] screen.lines@[
                phys as int].cells@[x]).link == cells0[x].link,
            any_attached ==> exists|x: int|
                0 <= x < cells0.len() && (#[trigger] screen.lines@[phys as int].cells@[
                    x]).link is Some,
            p >= 1 && all_none && !any_attached && patterns@.len() >= 1 && patterns@[0]@.len()
                <= cols ==> forall|st: int| !pattern_matches_at(cells0, patterns@[0]@, st),
        decreases patterns@.len() - p,
    {
        let plen = patterns[p].len();
        if plen >= 1 && plen <= cols {
            let mut start: usize = 0;
            while start <= cols - plen
                invariant
                    screen.wf(),
                    screen.rows == old(screen).rows,
                    screen.cols == old(screen).cols,
                    cols == screen.cols,
                    screen.scrollback_limit == old(screen).scrollback_limit,
                    screen.lines@.len() == old(screen).lines@.len(),
                    phys < screen.lines@.len(),
                    p < patterns@.len(),
                    plen == patterns@[p as int]@.len(),
                    1 <= plen <= cols,
                    cells0 == old(screen).lines@[phys as int].cells@,
                    all_none == (forall|x: int| 0 <= x < cells0.len() ==> (
                    #[trigger] cells0[x]).link is None),
                    forall|i: int| 0 <= i < old(screen).lines@.len() && i != phys
                        ==> screen.lines@[i] == old(screen).lines@[i],
                    screen.lines@[phys as int].cells@.len() == cells0.len(),
                    cells0.len() == cols,
                    screen.lines@[phys as int].soft_wrapped == old(screen).lines@[
                        phys as int].soft_wrapped,
                    forall|x: int| 0 <= x < cells0.len() ==> (#[trigger] screen.lines@[
                        phys as int].cells@[x]).cp == cells0[x].cp && screen.lines@[
                        phys as int].cells@[x].width == cells0[x].width && screen.lines@[
                        phys as int].cells@[x].attrs == cells0[x].attrs,
                    forall|x: int| 0 <= x < cells0.len() && (#[trigger] cells0[x]).link
                        is Some ==> screen.lines@[phys as int].cells@[x].link == cells0[
                        x].link,
                    forall|i: int| 0 <= i < old(arena).records@.len() ==> arena.records@[
                        i] == old(arena).records@[i],
                    arena.records@.len() >= old(arena).records@.len(),
                    forall|i: int|
                        old(arena).records@.len() <= i < arena.records@.len() ==> ((
                        #[trigger] arena.records@[i]) matches Some(l) && l.implicit),
                    !any_attached ==> forall|x: int| 0 <= x < cells0.len() ==> (
                    #[trigger] screen.lines@[phys as int].cells@[x]).link == cells0[
                        x].link,
                    any_attached ==> exists|x: int|
                        0 <= x < cells0.len() && (#[trigger] screen.lines@[
                            phys as int].cells@[x]).link is Some,
                    p == 0 && all_none && !any_attached ==> forall|st: int|
                        0 <= st < start ==> !pattern_matches_at(
                            cells0,
                            patterns@[0]@,
                            st,
                        ),
                    p >= 1 && all_none && !any_attached && patterns@.len() >= 1
                        && patterns@[0]@.len() <= cols ==> forall|st: int|
                        !pattern_matches_at(cells0, patterns@[0]@, st),
                decreases cols - start,
            {
                // Does the pattern match here, on cells with no link yet?
                let mut k: usize = 0;
                let mut matches_here = true;
                while k < plen
                    invariant
                        screen.wf(),
                        phys < screen.lines@.len(),
                        p < patterns@.len(),
                        plen == patterns@[p as int]@.len(),
                        start + plen <= cols,
                        cols == screen.cols,
                        k <= plen,
                        matches_here == (forall|j: int|
                            0 <= j < k ==> (#[trigger] screen.lines@[
                                phys as int].cells@[start + j]).cp == patterns@[
                                p as int]@[j] && screen.lines@[phys as int].cells@[start
                                + j].link is None),
                    decreases plen - k,
                {
                    let cell = screen.get_cell(phys, start + k);
                    let want = patterns[p][k];
                    if cell.cp != want || cell.link.is_some() {
                        matches_here = false;
                    }
                    k = k + 1;
                }
                if matches_here {
                    // Synthesize the record: its URI is the matched text,
                    // narrowed bytewise.
                    let mut uri: Vec<u8> = Vec::new();
                    let mut k2: usize = 0;
                    while k2 < plen
                        invariant
                            p < patterns@.len(),
                            plen == patterns@[p as int]@.len(),
                            k2 <= plen,
                        decreases plen - k2,
                    {
                        let cp = patterns[p][k2];
                        let byte: u8 = if cp < 0x80 {
                            cp as u8
                        } else {
                            0x3f
                        };
                        uri.push(byte);
                        k2 = k2 + 1;
                    }
                    let id = arena.intern(uri, Vec::new(), true);
                    let ghost pre_iter = screen.lines@[phys as int].cells@;
                    let mut k3: usize = 0;
                    while k3 < plen
                        invariant
                            screen.wf(),
                            screen.rows == old(screen).rows,
                            screen.cols == old(screen).cols,
                            cols == screen.cols,
                            screen.scrollback_limit == old(screen).scrollback_limit,
                            screen.lines@.len() == old(screen).lines@.len(),
                            phys < screen.lines@.len(),
                            p < patterns@.len(),
                            plen == patterns@[p as int]@.len(),
                            start + plen <= cols,
                            k3 <= plen,
                            pre_iter.len() == cols,
                            screen.lines@[phys as int].cells@.len() == cols,
                            forall|j: int| 0 <= j < plen ==> (#[trigger] pre_iter[start
                                + j]).link is None,
                            forall|i: int| 0 <= i < old(screen).lines@.len() && i != phys
                                ==> screen.lines@[i] == old(screen).lines@[i],
                            screen.lines@[phys as int].soft_wrapped == old(screen).lines@[
                                phys as int].soft_wrapped,
                            forall|x: int| 0 <= x < cols ==> (#[trigger] screen.lines@[
                                phys as int].cells@[x]).cp == pre_iter[x].cp
                                && screen.lines@[phys as int].cells@[x].width == pre_iter[
                                x].width && screen.lines@[phys as int].cells@[x].attrs
                                == pre_iter[x].attrs,
                            forall|j: int| 0 <= j < k3 ==> (#[trigger] screen.lines@[
                                phys as int].cells@[start + j]).link == Some(id),
                            forall|x: int|
                                0 <= x < cols && !(start <= x < start + k3) ==> (
                                #[trigger] screen.lines@[phys as int].cells@[x]).link
                                    == pre_iter[x].link,
                        decreases plen - k3,
                    {
                        let x = start + k3;
                        let line = &mut screen.lines[phys];
                        line.set_link(x, Some(id));
                        k3 = k3 + 1;
                    }
                    any_attached = true;
                    proof {
                        assert(screen.lines@[phys as int].cells@[start + 0].link
                            == Some(id));
                        assert(screen.lines@[phys as int].cells@[start as int].link
                            == Some(id));
                        assert forall|x: int|
                            0 <= x < cells0.len() && (#[trigger] cells0[x]).link is Some
                            implies screen.lines@[phys as int].cells@[x].link == cells0[
                            x].link by {
                            if start <= x < start + plen {
                                assert(pre_iter[start + (x - start)].link is None);
                                assert(pre_iter[x].link is None);
                                assert(false);
                            }
                        }
                    }
                }
                start = start + 1;
            }
        }
        proof {
            if p == 0 && all_none && !any_attached {
                assert forall|st: int| !pattern_matches_at(
                    cells0,
                    patterns@[0]@,
                    st,
                ) by {
                    if pattern_matches_at(cells0, patterns@[0]@, st) {
                        assert(0 <= st < cols - plen + 1);
                    }
                }
            }
        }
        p = p + 1;
    }
    proof {
        if all_none && patterns@.len() >= 1 && patterns@[0]@.len() <= cols && (exists|
            st: int| pattern_matches_at(cells0, patterns@[0]@, st)) {
            if !any_attached {
                if patterns@[0]@.len() >= 1 {
                    assert(forall|st: int| !pattern_matches_at(cells0, patterns@[0]@, st));
                } else {
                    let st = choose|st: int| pattern_matches_at(cells0, patterns@[0]@, st);
                    assert(false);
                }
            }
        }
    }
}

} // verus!
