//! A buffered teletype over a character-grid terminal: it keeps the whole
//! logical line history, wraps it to the grid's width on every flush, and
//! paints the most recent physical lines bottom-up into the grid.

use vstd::prelude::*;
use vstd::arithmetic::div_mod::{lemma_fundamental_div_mod, lemma_fundamental_div_mod_converse};
use crate::graphics::display::gop::spec_min;
use crate::graphics::display::Display;
use crate::graphics::terminal::{MissingGlyph, Terminal};
use crate::graphics::terminal::display::{
    spec_first_missing, spec_rendered, DisplayTerminal,
};
use crate::graphics::tty::{lemma_puts_snoc, spec_putc, spec_puts, Tty};

verus! {

/// A list of lines as a sequence of character sequences.
pub open spec fn lines_view(v: Seq<Vec<char>>) -> Seq<Seq<char>> {
    Seq::new(v.len(), |i: int| v[i]@)
}

/// One logical line split into consecutive physical segments of at most
/// `w` characters, in order. An empty line yields exactly one empty
/// segment, so blank lines are never lost.
pub open spec fn spec_wrap_line(line: Seq<char>, w: int) -> Seq<Seq<char>>
    recommends
        w >= 1,
    decreases line.len(),
    when w >= 1
{
    if line.len() <= w {
        seq![line]
    } else {
        seq![line.take(w)] + spec_wrap_line(line.skip(w), w)
    }
}

/// All logical lines wrapped to width `w` and concatenated, preserving
/// global order.
pub open spec fn spec_wrap(h: Seq<Seq<char>>, w: int) -> Seq<Seq<char>>
    decreases h.len(),
{
    if h.len() == 0 {
        Seq::empty()
    } else {
        spec_wrap_line(h[0], w) + spec_wrap(h.drop_first(), w)
    }
}

/// Wrapping distributes over concatenation of histories.
proof fn lemma_wrap_append(h1: Seq<Seq<char>>, h2: Seq<Seq<char>>, w: int)
    ensures
        spec_wrap(h1 + h2, w) == spec_wrap(h1, w) + spec_wrap(h2, w),
    decreases h1.len(),
{
    if h1.len() == 0 {
        assert(h1 + h2 =~= h2);
        assert(spec_wrap(h1, w) + spec_wrap(h2, w) =~= spec_wrap(h2, w));
    } else {
        assert((h1 + h2)[0] == h1[0]);
        assert((h1 + h2).drop_first() =~= h1.drop_first() + h2);
        lemma_wrap_append(h1.drop_first(), h2, w);
        assert(spec_wrap_line(h1[0], w) + (spec_wrap(h1.drop_first(), w) + spec_wrap(h2, w))
            =~= (spec_wrap_line(h1[0], w) + spec_wrap(h1.drop_first(), w)) + spec_wrap(h2, w));
    }
}

/// Every physical segment a wrap produces is at most `w` long.
pub proof fn lemma_wrap_line_bounded(line: Seq<char>, w: int)
    requires
        w >= 1,
    ensures
        forall|i: int|
            0 <= i < spec_wrap_line(line, w).len() ==> (#[trigger] spec_wrap_line(line, w)[i]).len()
                <= w,
    decreases line.len(),
{
    if line.len() > w {
        lemma_wrap_line_bounded(line.skip(w), w);
        assert forall|i: int| 0 <= i < spec_wrap_line(line, w).len() implies (
        #[trigger] spec_wrap_line(line, w)[i]).len() <= w by {
            if i > 0 {
                assert(spec_wrap_line(line, w)[i] == spec_wrap_line(line.skip(w), w)[i - 1]);
            }
        }
    }
}

/// Every physical segment of a wrapped history is at most `w` long.
pub proof fn lemma_wrap_bounded(h: Seq<Seq<char>>, w: int)
    requires
        w >= 1,
    ensures
        forall|i: int|
            0 <= i < spec_wrap(h, w).len() ==> (#[trigger] spec_wrap(h, w)[i]).len() <= w,
    decreases h.len(),
{
    if h.len() > 0 {
        lemma_wrap_line_bounded(h[0], w);
        lemma_wrap_bounded(h.drop_first(), w);
        let head = spec_wrap_line(h[0], w);
        let tail = spec_wrap(h.drop_first(), w);
        assert forall|i: int| 0 <= i < spec_wrap(h, w).len() implies (
        #[trigger] spec_wrap(h, w)[i]).len() <= w by {
            if i < head.len() {
                assert(spec_wrap(h, w)[i] == head[i]);
            } else {
                assert(spec_wrap(h, w)[i] == tail[i - head.len()]);
            }
        }
    }
}

/// Splits every logical line of `history` into consecutive physical
/// segments of at most `width` characters each, preserving order, and
/// concatenates the segments across all lines in global order. An empty
/// logical line produces exactly one empty physical segment.
pub fn wrap_lines(history: &Vec<Vec<char>>, width: usize) -> (r: Vec<Vec<char>>)
    requires
        width >= 1,
    ensures
        lines_view(r@) == spec_wrap(lines_view(history@), width as int),
{
    let ghost hist = lines_view(history@);
    let mut physical: Vec<Vec<char>> = Vec::new();
    let mut li: usize = 0;
    proof {
        assert(hist.take(0) =~= Seq::<Seq<char>>::empty());
        assert(lines_view(physical@) =~= spec_wrap(hist.take(0), width as int));
    }
    while li < history.len()
        invariant
            li <= history@.len(),
            width >= 1,
            hist == lines_view(history@),
            lines_view(physical@) == spec_wrap(hist.take(li as int), width as int),
        decreases history@.len() - li,
    {
        let ghost phys0 = lines_view(physical@);
        let line = &history[li];
        let ghost l = line@;
        if line.len() == 0 {
            physical.push(Vec::new());
            proof {
                assert(spec_wrap_line(l, width as int) == seq![l]);
                assert(lines_view(physical@) =~~= phys0 + spec_wrap_line(l, width as int));
            }
        } else {
            let mut p: usize = 0;
            proof {
                assert(l.skip(0) =~= l);
            }
            while p < line.len()
                invariant
                    p <= line@.len(),
                    width >= 1,
                    line@ == l,
                    l.len() >= 1,
                    l.len() <= usize::MAX,
                    p < l.len() ==> lines_view(physical@) + spec_wrap_line(l.skip(p as int), width as int)
                        == phys0 + spec_wrap_line(l, width as int),
                    p == l.len() ==> lines_view(physical@) == phys0 + spec_wrap_line(
                        l,
                        width as int,
                    ),
                decreases l.len() - p,
            {
                let remaining = line.len() - p;
                let seg_len = if remaining < width {
                    remaining
                } else {
                    width
                };
                let mut segment: Vec<char> = Vec::new();
                let mut j: usize = 0;
                while j < seg_len
                    invariant
                        j <= seg_len,
                        p + seg_len <= l.len(),
                        l.len() <= usize::MAX,
                        line@ == l,
                        segment@ == l.subrange(p as int, p as int + j as int),
                    decreases seg_len - j,
                {
                    segment.push(line[p + j]);
                    proof {
                        assert(segment@ =~= l.subrange(p as int, p as int + j as int + 1));
                    }
                    j += 1;
                }
                let ghost view0 = lines_view(physical@);
                let ghost rest = l.skip(p as int);
                proof {
                    assert(lines_view(physical@.push(segment)) =~= view0 + seq![segment@]);
                    if remaining <= width {
                        assert(rest.len() <= width);
                        assert(segment@ =~= rest);
                        assert(spec_wrap_line(rest, width as int) == seq![rest]);
                        assert(view0 + seq![rest] =~= view0 + spec_wrap_line(rest, width as int));
                    } else {
                        assert(rest.len() > width);
                        assert(spec_wrap_line(rest, width as int) == seq![rest.take(width as int)]
                            + spec_wrap_line(rest.skip(width as int), width as int));
                        assert(segment@ =~= rest.take(width as int));
                        assert(rest.skip(width as int) =~= l.skip(p as int + width as int));
                        assert((view0 + seq![segment@]) + spec_wrap_line(
                            l.skip(p as int + width as int),
                            width as int,
                        ) =~= view0 + (seq![rest.take(width as int)] + spec_wrap_line(
                            rest.skip(width as int),
                            width as int,
                        )));
                    }
                }
                physical.push(segment);
                p += seg_len;
            }
        }
        proof {
            assert(hist[li as int] == l);
            assert(hist.take(li as int + 1) =~~= hist.take(li as int) + seq![l]);
            lemma_wrap_append(hist.take(li as int), seq![l], width as int);
            assert(seq![l].drop_first() =~= Seq::<Seq<char>>::empty());
            assert(spec_wrap(seq![l].drop_first(), width as int) == Seq::<Seq<char>>::empty());
            assert(seq![l][0] == l);
            assert(spec_wrap(seq![l], width as int) == spec_wrap_line(l, width as int) + Seq::<Seq<char>>::empty());
            assert(spec_wrap_line(l, width as int) + Seq::<Seq<char>>::empty() =~~= spec_wrap_line(l, width as int));
            assert(lines_view(physical@) =~~= phys0 + spec_wrap_line(l, width as int));
            assert(phys0 + spec_wrap_line(l, width as int) =~~= spec_wrap(hist.take(li as int), width as int)
                + spec_wrap(seq![l], width as int));
            assert(lines_view(physical@) =~~= spec_wrap(hist.take(li as int + 1), width as int));
        }
        li += 1;
    }
    proof {
        assert(hist.take(history@.len() as int) =~~= hist);
    }
    physical
}

/// A buffered teletype rendering onto a character-grid terminal. The
/// logical history grows without bound — only `clear` resets it — and the
/// visible window is recomputed from it on every flush.
pub struct TerminalTty<'f> {
    term: DisplayTerminal<'f>,
    history: Vec<Vec<char>>,
}

impl<'f> TerminalTty<'f> {
    pub closed spec fn spec_term(&self) -> DisplayTerminal<'f> {
        self.term
    }

    /// There is always a current line to append to, and the underlying
    /// terminal is valid.
    pub open spec fn wf(&self) -> bool {
        &&& self.spec_history().len() >= 1
        &&& self.spec_term().wf()
    }

    /// Builds a teletype over `term` with a history of one empty line.
    pub fn new(term: DisplayTerminal<'f>) -> (r: TerminalTty<'f>)
        requires
            term.wf(),
        ensures
            r.wf(),
            r.spec_term() == term,
            r.spec_history() == seq![Seq::<char>::empty()],
    {
        let mut history: Vec<Vec<char>> = Vec::new();
        history.push(Vec::new());
        let r = TerminalTty { term, history };
        proof {
            assert(r.spec_history() =~~= seq![Seq::<char>::empty()]);
        }
        r
    }
}

impl<'f> TerminalTty<'f> {
    /// The buffered logical line history; the last line is the one being
    /// appended to.
    pub closed spec fn spec_history(&self) -> Seq<Seq<char>> {
        lines_view(self.history@)
    }

    /// The terminal this teletype paints into, for inspecting its state.
    pub fn terminal(&self) -> (r: &DisplayTerminal<'f>)
        ensures
            *r == self.spec_term(),
    {
        &self.term
    }

    /// The logical line history as it currently stands.
    pub fn history(&self) -> (r: &Vec<Vec<char>>)
        ensures
            lines_view(r@) == self.spec_history(),
    {
        &self.history
    }

    /// Appends one character: a newline starts a new logical line, any
    /// other character extends the current one.
    pub fn putc(&mut self, c: char)
        requires
            old(self).wf(),
        ensures
            final(self).wf(),
            final(self).spec_history() == spec_putc(old(self).spec_history(), c),
            final(self).spec_term() == old(self).spec_term(),
    {
        let ghost h0 = self.spec_history();
        if c == '\n' {
            self.history.push(Vec::new());
            proof {
                assert(self.spec_history() =~~= h0.push(Seq::empty()));
            }
            return ;
        }
        let last = match self.history.pop() {
            Some(line) => line,
            None => {
                proof {
                    assert(false);
                }
                Vec::new()
            },
        };
        let mut line = last;
        line.push(c);
        self.history.push(line);
        proof {
            assert(self.spec_history() =~~= h0.update(h0.len() - 1, h0.last().push(c)));
        }
    }

    /// Appends every character of `s` in order.
    pub fn puts(&mut self, s: &str)
        requires
            old(self).wf(),
        ensures
            final(self).wf(),
            final(self).spec_history() == spec_puts(old(self).spec_history(), s@),
            final(self).spec_term() == old(self).spec_term(),
    {
        let ghost h0 = self.spec_history();
        let n = s.unicode_len();
        let mut i: usize = 0;
        proof {
            assert(s@.take(0) =~= Seq::<char>::empty());
        }
        while i < n
            invariant
                i <= n,
                n == s@.len(),
                self.wf(),
                h0 == old(self).spec_history(),
                self.spec_history() == spec_puts(h0, s@.take(i as int)),
                self.spec_term() == old(self).spec_term(),
            decreases n - i,
        {
            let c = s.get_char(i);
            self.putc(c);
            proof {
                assert(s@.take(i as int + 1) =~= s@.take(i as int).push(s@[i as int]));
                lemma_puts_snoc(h0, s@.take(i as int), c);
            }
            i += 1;
        }
        proof {
            assert(s@.take(n as int) =~= s@);
        }
    }

    /// Resets the history to a single empty logical line. Does not itself
    /// repaint the grid.
    pub fn clear(&mut self)
        requires
            old(self).wf(),
        ensures
            final(self).wf(),
            final(self).spec_history() == seq![Seq::<char>::empty()],
            final(self).spec_term() == old(self).spec_term(),
    {
        self.history.clear();
        self.history.push(Vec::new());
        proof {
            assert(self.spec_history() =~~= seq![Seq::<char>::empty()]);
        }
    }
}

/// Whether painting `phys` onto a `w × h` grid writes the cell at flat
/// index `i`: the cell's row is one of the `min(len, h)` bottom rows that
/// receive the most recent physical lines, and the cell's column lies
/// within the line assigned to that row. Row `h - 1` takes the last line,
/// row `h - 2` the one before it, and so on; rows above stay untouched, as
/// does the tail of a row beyond its line's end.
pub open spec fn spec_painted(phys: Seq<Seq<char>>, w: int, h: int, i: int) -> bool {
    let n = spec_min(phys.len() as int, h);
    let cx = i % w;
    let cy = i / w;
    &&& w > 0
    &&& cy < h
    &&& cy >= h - n
    &&& cx < phys[phys.len() - h + cy].len()
}

/// The grid after `phys` is painted onto it bottom-up.
pub open spec fn spec_paint(cells: Seq<char>, phys: Seq<Seq<char>>, w: int, h: int) -> Seq<
    char,
> {
    Seq::new(
        cells.len(),
        |i: int|
            if spec_painted(phys, w, h, i) {
                phys[phys.len() - h + i / w][i % w]
            } else {
                cells[i]
            },
    )
}

/// Painting the same physical lines twice leaves the grid exactly as one
/// painting does: a flush with unchanged history is idempotent.
pub proof fn lemma_paint_idempotent(cells: Seq<char>, phys: Seq<Seq<char>>, w: int, h: int)
    ensures
        spec_paint(spec_paint(cells, phys, w, h), phys, w, h) == spec_paint(cells, phys, w, h),
{
    assert(spec_paint(spec_paint(cells, phys, w, h), phys, w, h) =~= spec_paint(
        cells,
        phys,
        w,
        h,
    ));
}

/// The grid in the middle of a paint: the `k` least recent of the painted
/// lines are on their rows already, and the next one up to column `cx`.
pub open spec fn spec_paint_partial(
    cells: Seq<char>,
    phys: Seq<Seq<char>>,
    w: int,
    h: int,
    k: int,
    cx: int,
) -> Seq<char> {
    let n = spec_min(phys.len() as int, h);
    Seq::new(
        cells.len(),
        |i: int|
            if spec_painted(phys, w, h, i) && (i / w < h - n + k || (i / w == h - n + k && i % w
                < cx)) {
                phys[phys.len() - h + i / w][i % w]
            } else {
                cells[i]
            },
    )
}

impl<'f> TerminalTty<'f> {
    /// The line-wrap-and-paint algorithm: wraps the whole history to the
    /// grid's width, paints the most recent physical lines bottom-up —
    /// the last line on the bottom row, the one before it above, leaving
    /// rows above the painted window untouched — and renders the grid to
    /// the pixel surface. The first codepoint the font cannot render is
    /// reported instead, with the surface left unchanged.
    pub fn flush_screen(&mut self) -> (r: Result<(), MissingGlyph>)
        requires
            old(self).wf(),
        ensures
            final(self).wf(),
            final(self).spec_history() == old(self).spec_history(),
            final(self).spec_term().spec_font() == old(self).spec_term().spec_font(),
            final(self).spec_term().spec_bg() == old(self).spec_term().spec_bg(),
            final(self).spec_term().spec_fg() == old(self).spec_term().spec_fg(),
            final(self).spec_term().spec_display().spec_width() == old(
                self,
            ).spec_term().spec_display().spec_width(),
            final(self).spec_term().spec_display().spec_height() == old(
                self,
            ).spec_term().spec_display().spec_height(),
            final(self).spec_term().spec_display().spec_stride() == old(
                self,
            ).spec_term().spec_display().spec_stride(),
            ({
                let term0 = old(self).spec_term();
                let frame0 = term0.spec_frame();
                let w = frame0.spec_width();
                let h = frame0.spec_height();
                let phys = spec_wrap(old(self).spec_history(), w);
                let frame1 = final(self).spec_term().spec_frame();
                &&& frame1.spec_width() == w
                &&& frame1.spec_height() == h
                &&& frame1.spec_cells() == spec_paint(frame0.spec_cells(), phys, w, h)
                &&& match r {
                    Ok(()) => {
                        &&& spec_first_missing(frame1, term0.spec_font(), 0) is None
                        &&& final(self).spec_term().spec_display().spec_buf() == spec_rendered(
                            frame1,
                            term0.spec_font(),
                            term0.spec_fg(),
                            term0.spec_bg(),
                            term0.spec_display().spec_buf(),
                            term0.spec_display().spec_stride(),
                            term0.spec_display().spec_width(),
                            term0.spec_display().spec_height(),
                        )
                    },
                    Err(m) => {
                        &&& spec_first_missing(frame1, term0.spec_font(), 0) == Some(m.0)
                        &&& final(self).spec_term().spec_display() == term0.spec_display()
                    },
                }
            }),
    {
        let ghost hist0 = self.spec_history();
        let ghost term0 = self.spec_term();
        let ghost frame0 = self.spec_term().spec_frame();
        proof {
            self.term.lemma_wf();
        }
        let w = self.term.get_frame().width();
        let h = self.term.get_frame().height();
        let ghost wi = w as int;
        let ghost hi = h as int;
        let physical = wrap_lines(&self.history, w);
        let ghost phys = lines_view(physical@);
        proof {
            lemma_wrap_bounded(hist0, wi);
        }
        let n = if physical.len() < h {
            physical.len()
        } else {
            h
        };
        let ghost cells0 = frame0.spec_cells();
        proof {
            self.term.lemma_wf();
            frame0.lemma_cells_len();
            assert(cells0.len() == wi * hi);
        }
        proof {
            assert(self.spec_term().spec_frame().spec_cells() =~= spec_paint_partial(
                cells0,
                phys,
                wi,
                hi,
                0,
                0,
            ));
        }
        let mut k: usize = 0;
        while k < n
            invariant
                k <= n,
                n as int == spec_min(phys.len() as int, hi),
                n <= h,
                wi == frame0.spec_width(),
                hi == frame0.spec_height(),
                wi >= 1,
                hi >= 1,
                w == wi,
                h == hi,
                phys == lines_view(physical@),
                phys == spec_wrap(hist0, wi),
                cells0.len() == wi * hi,
                physical@.len() == phys.len(),
                forall|i: int| 0 <= i < phys.len() ==> (#[trigger] phys[i]).len() <= wi,
                hist0 == self.spec_history(),
                hist0 == old(self).spec_history(),
                self.wf(),
                term0 == old(self).spec_term(),
                frame0 == term0.spec_frame(),
                cells0 == frame0.spec_cells(),
                self.spec_term().spec_font() == term0.spec_font(),
                self.spec_term().spec_bg() == term0.spec_bg(),
                self.spec_term().spec_fg() == term0.spec_fg(),
                self.spec_term().spec_display() == term0.spec_display(),
                self.spec_term().spec_frame().spec_width() == wi,
                self.spec_term().spec_frame().spec_height() == hi,
                self.spec_term().spec_frame().spec_cells() == spec_paint_partial(
                    cells0,
                    phys,
                    wi,
                    hi,
                    k as int,
                    0,
                ),
            decreases n - k,
        {
            let row = h - n + k;
            let line = &physical[physical.len() - n + k];
            let ghost seg = line@;
            proof {
                assert(seg == phys[phys.len() - hi + row as int]);
                assert(seg.len() <= wi);
            }
            let mut cx: usize = 0;
            while cx < line.len()
                invariant
                    cx <= line@.len(),
                    line@ == seg,
                    seg == phys[phys.len() - hi + row as int],
                    seg.len() <= wi,
                    k < n,
                    cells0.len() == wi * hi,
                    n as int == spec_min(phys.len() as int, hi),
                    n <= h,
                    row as int == hi - n + k,
                    wi == frame0.spec_width(),
                    hi == frame0.spec_height(),
                    wi >= 1,
                    hi >= 1,
                    w == wi,
                    h == hi,
                    phys == spec_wrap(hist0, wi),
                    hist0 == self.spec_history(),
                    hist0 == old(self).spec_history(),
                    self.wf(),
                    term0 == old(self).spec_term(),
                    frame0 == term0.spec_frame(),
                    cells0 == frame0.spec_cells(),
                    self.spec_term().spec_font() == term0.spec_font(),
                    self.spec_term().spec_bg() == term0.spec_bg(),
                    self.spec_term().spec_fg() == term0.spec_fg(),
                    self.spec_term().spec_display() == term0.spec_display(),
                    self.spec_term().spec_frame().spec_width() == wi,
                    self.spec_term().spec_frame().spec_height() == hi,
                    self.spec_term().spec_frame().spec_cells() == spec_paint_partial(
                        cells0,
                        phys,
                        wi,
                        hi,
                        k as int,
                        cx as int,
                    ),
                decreases line@.len() - cx,
            {
                let c = line[cx];
                let ghost before = self.spec_term().spec_frame().spec_cells();
                self.term.set(cx, row, c);
                proof {
                    lemma_fundamental_div_mod_converse(
                        row as int * wi + cx as int,
                        wi,
                        row as int,
                        cx as int,
                    );
                    let lhs = before.update(row as int * wi + cx as int, c);
                    let rhs = spec_paint_partial(cells0, phys, wi, hi, k as int, cx as int + 1);
                    assert((row as int * wi + cx as int) < hi * wi && hi * wi == wi * hi)
                        by (nonlinear_arith)
                        requires
                            0 <= (row as int) <= hi - 1,
                            0 <= (cx as int) < wi,
                    ;
                    assert(before.len() == cells0.len());
                    assert forall|i: int| 0 <= i < lhs.len() implies lhs[i] == rhs[i] by {
                        lemma_fundamental_div_mod(i, wi);
                        assert(wi * (i / wi) == (i / wi) * wi) by (nonlinear_arith);
                    }
                    assert(self.spec_term().spec_frame().spec_cells() =~= rhs);
                }
                cx += 1;
            }
            proof {
                assert(spec_paint_partial(cells0, phys, wi, hi, k as int, seg.len() as int)
                    =~= spec_paint_partial(cells0, phys, wi, hi, k as int + 1, 0));
            }
            k += 1;
        }
        proof {
            assert(spec_paint_partial(cells0, phys, wi, hi, n as int, 0) =~= spec_paint(
                cells0,
                phys,
                wi,
                hi,
            ));
        }
        self.term.render()
    }
}

impl<'f> Tty for TerminalTty<'f> {
    open spec fn inv(&self) -> bool {
        self.wf()
    }

    open spec fn spec_history(&self) -> Seq<Seq<char>> {
        TerminalTty::spec_history(self)
    }

    fn putc(&mut self, c: char)
        ensures
            final(self).spec_term() == old(self).spec_term(),
    {
        self.putc(c);
    }

    fn puts(&mut self, s: &str)
        ensures
            final(self).spec_term() == old(self).spec_term(),
    {
        self.puts(s);
    }

    fn clear(&mut self)
        ensures
            final(self).spec_term() == old(self).spec_term(),
    {
        self.clear();
    }

    fn flush(&mut self) -> (r: Result<(), MissingGlyph>)
        ensures
            final(self).spec_term().spec_font() == old(self).spec_term().spec_font(),
            final(self).spec_term().spec_bg() == old(self).spec_term().spec_bg(),
            final(self).spec_term().spec_fg() == old(self).spec_term().spec_fg(),
            final(self).spec_term().spec_display().spec_width() == old(
                self,
            ).spec_term().spec_display().spec_width(),
            final(self).spec_term().spec_display().spec_height() == old(
                self,
            ).spec_term().spec_display().spec_height(),
            final(self).spec_term().spec_display().spec_stride() == old(
                self,
            ).spec_term().spec_display().spec_stride(),
            ({
                let term0 = old(self).spec_term();
                let frame0 = term0.spec_frame();
                let w = frame0.spec_width();
                let h = frame0.spec_height();
                let phys = spec_wrap(old(self).spec_history(), w);
                let frame1 = final(self).spec_term().spec_frame();
                &&& frame1.spec_width() == w
                &&& frame1.spec_height() == h
                &&& frame1.spec_cells() == spec_paint(frame0.spec_cells(), phys, w, h)
                &&& match r {
                    Ok(()) => {
                        &&& spec_first_missing(frame1, term0.spec_font(), 0) is None
                        &&& final(self).spec_term().spec_display().spec_buf() == spec_rendered(
                            frame1,
                            term0.spec_font(),
                            term0.spec_fg(),
                            term0.spec_bg(),
                            term0.spec_display().spec_buf(),
                            term0.spec_display().spec_stride(),
                            term0.spec_display().spec_width(),
                            term0.spec_display().spec_height(),
                        )
                    },
                    Err(m) => {
                        &&& spec_first_missing(frame1, term0.spec_font(), 0) == Some(m.0)
                        &&& final(self).spec_term().spec_display() == term0.spec_display()
                    },
                }
            }),
    {
        self.flush_screen()
    }
}

} // verus!
