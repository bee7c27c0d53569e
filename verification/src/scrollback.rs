//! Scrollback buffer: a bounded FIFO of lines that scrolled off the screen.

use vstd::prelude::*;

use std::collections::VecDeque;

use crate::screen::ScrollbackLine;
use crate::strutil::chars_to_string;
use crate::strutil::str_to_chars;
use crate::types::OutputFormat;
use vstd::math::min;

verus! {

/// Ring buffer for lines that scrolled off the top of the screen. When at
/// capacity, the oldest line is dropped to admit a new one.
#[derive(Debug)]
pub struct ScrollbackBuffer {
    lines: VecDeque<ScrollbackLine>,
    max_lines: usize,
}

impl ScrollbackBuffer {
    /// The stored lines, oldest first; for contracts.
    pub closed spec fn lines_spec(&self) -> Seq<ScrollbackLine> {
        self.lines@
    }

    /// The configured capacity; for contracts.
    pub closed spec fn max_spec(&self) -> usize {
        self.max_lines
    }

    /// Well-formed: never holding more lines than the capacity allows
    /// (a capacity of zero behaves as a capacity of one).
    pub open spec fn wf(&self) -> bool {
        self.lines_spec().len() <= vstd::math::max(self.max_spec() as int, 1)
    }

    /// What one push leaves in the buffer: the line appended, after dropping
    /// the oldest line if the buffer was full.
    pub open spec fn pushed(before: Seq<ScrollbackLine>, cap: usize, line: ScrollbackLine) -> Seq<
        ScrollbackLine,
    > {
        if before.len() > 0 && before.len() >= cap {
            before.drop_first().push(line)
        } else {
            before.push(line)
        }
    }

    /// A fresh, empty buffer with the given capacity.
    pub fn new(max_lines: usize) -> (b: ScrollbackBuffer)
        ensures
            b.lines_spec() == Seq::<ScrollbackLine>::empty(),
            b.max_spec() == max_lines,
            b.wf(),
    {
        ScrollbackBuffer { lines: VecDeque::new(), max_lines }
    }

    /// Push one line, dropping the oldest when full.
    pub fn push_line(&mut self, line: ScrollbackLine)
        requires
            old(self).wf(),
        ensures
            final(self).lines_spec() == Self::pushed(
                old(self).lines_spec(),
                old(self).max_spec(),
                line,
            ),
            final(self).max_spec() == old(self).max_spec(),
            final(self).wf(),
            final(self).lines_spec().len() == min(
                old(self).lines_spec().len() as int + 1,
                vstd::math::max(old(self).max_spec() as int, 1),
            ),
    {
        if self.lines.len() >= self.max_lines {
            let _dropped = self.lines.pop_front();
            proof {
                if old(self).lines_spec().len() > 0 {
                    assert(self.lines@ =~= old(self).lines_spec().drop_first());
                }
            }
        }
        self.lines.push_back(line);
    }

    /// Push a batch of lines, oldest first.
    pub fn push(&mut self, lines: Vec<ScrollbackLine>)
        requires
            old(self).wf(),
        ensures
            final(self).wf(),
            final(self).max_spec() == old(self).max_spec(),
            final(self).lines_spec() == Self::pushed_all(
                old(self).lines_spec(),
                old(self).max_spec(),
                lines@,
            ),
    {
        let mut i: usize = 0;
        proof {
            assert(lines@.subrange(0, 0) =~= Seq::<ScrollbackLine>::empty());
            lemma_pushed_all_unfold_empty(self.lines_spec(), self.max_spec());
        }
        let n = lines.len();
        let mut rest = lines;
        let ghost orig = rest@;
        while i < n
            invariant
                i <= n,
                n == rest.len() + i,
                self.wf(),
                self.max_spec() == old(self).max_spec(),
                Self::pushed_all(self.lines_spec(), self.max_spec(), rest@) == Self::pushed_all(
                    old(self).lines_spec(),
                    old(self).max_spec(),
                    orig,
                ),
            decreases n - i,
        {
            let line = rest.remove(0);
            proof {
                lemma_pushed_all_unfold(self.lines_spec(), self.max_spec(), rest@, line);
            }
            self.push_line(line);
            i = i + 1;
        }
        proof {
            lemma_pushed_all_unfold_empty(self.lines_spec(), self.max_spec());
        }
    }

    /// What a batch push leaves in the buffer.
    pub open spec fn pushed_all(
        before: Seq<ScrollbackLine>,
        cap: usize,
        lines: Seq<ScrollbackLine>,
    ) -> Seq<ScrollbackLine>
        decreases lines.len(),
    {
        if lines.len() == 0 {
            before
        } else {
            Self::pushed_all(Self::pushed(before, cap, lines[0]), cap, lines.drop_first())
        }
    }

    /// Get lines with pagination, most recent last. `offset` counts lines
    /// back from the end (0 = most recent), `limit` bounds how many are
    /// returned; the chosen lines are joined with newlines.
    pub fn get(&self, offset: usize, limit: usize, format: OutputFormat) -> (r: String)
        ensures
            r@ == self.window_text(offset as int, limit as int, format),
    {
        let total = self.lines.len();
        if total == 0 || offset >= total {
            proof {
                reveal_strlit("");
            }
            return "".to_owned();
        }
        let start = if limit >= total - offset {
            0
        } else {
            total - offset - limit
        };
        let end = total - offset;
        let mut out: Vec<char> = Vec::new();
        let mut i: usize = start;
        proof {
            assert(self.joined(start as int, start as int, format) =~= Seq::<char>::empty());
        }
        while i < end
            invariant
                start <= i <= end,
                end <= self.lines_spec().len(),
                out@ == self.joined(start as int, i as int, format),
            decreases end - i,
        {
            if i > start {
                out.push('\n');
            }
            let line: &ScrollbackLine = &self.lines[i];
            let cs = match format {
                OutputFormat::Plain => str_to_chars(line.plain.as_str()),
                OutputFormat::Raw => str_to_chars(line.raw.as_str()),
            };
            let mut k: usize = 0;
            while k < cs.len()
                invariant
                    k <= cs.len(),
                    i < end <= self.lines_spec().len(),
                    start <= i,
                    cs@ == self.line_text(i as int, format),
                    out@ == self.joined(start as int, i as int, format) + (if i > start {
                        seq!['\n']
                    } else {
                        Seq::<char>::empty()
                    }) + cs@.subrange(0, k as int),
                decreases cs.len() - k,
            {
                out.push(cs[k]);
                proof {
                    assert(cs@.subrange(0, k + 1) == cs@.subrange(0, k as int).push(cs@[k as int]));
                }
                k = k + 1;
            }
            proof {
                assert(cs@.subrange(0, cs@.len() as int) =~= cs@);
                assert(out@ =~= self.joined(start as int, i + 1, format));
            }
            i = i + 1;
        }
        chars_to_string(&out)
    }

    /// The text of line `i` in the given format.
    pub open spec fn line_text(&self, i: int, format: OutputFormat) -> Seq<char> {
        match format {
            OutputFormat::Plain => self.lines_spec()[i].plain@,
            OutputFormat::Raw => self.lines_spec()[i].raw@,
        }
    }

    /// Lines `start..i` joined with newlines.
    pub open spec fn joined(&self, start: int, i: int, format: OutputFormat) -> Seq<char>
        decreases i - start,
    {
        if i <= start {
            Seq::empty()
        } else if i == start + 1 {
            self.line_text(start, format)
        } else {
            self.joined(start, i - 1, format) + seq!['\n'] + self.line_text(i - 1, format)
        }
    }

    /// What `get` returns: empty when the offset is past the stored lines,
    /// otherwise the window of at most `limit` lines ending `offset` lines
    /// before the end, joined with newlines.
    pub open spec fn window_text(&self, offset: int, limit: int, format: OutputFormat) -> Seq<
        char,
    > {
        let total = self.lines_spec().len() as int;
        if total == 0 || offset >= total {
            Seq::empty()
        } else {
            let start = if offset + limit >= total {
                0
            } else {
                total - offset - limit
            };
            self.joined(start, total - offset, format)
        }
    }

    /// All stored lines joined with newlines.
    pub fn get_all(&self, format: OutputFormat) -> (r: String)
        ensures
            r@ == self.window_text(0, self.lines_spec().len() as int, format),
    {
        let n = self.lines.len();
        self.get(0, n, format)
    }

    /// How many lines are stored.
    pub fn len(&self) -> (r: usize)
        ensures
            r == self.lines_spec().len(),
    {
        self.lines.len()
    }

    /// Whether no lines are stored.
    pub fn is_empty(&self) -> (r: bool)
        ensures
            r == (self.lines_spec().len() == 0),
    {
        self.lines.len() == 0
    }

    /// Drop all stored lines.
    pub fn clear(&mut self)
        ensures
            final(self).lines_spec() == Seq::<ScrollbackLine>::empty(),
            final(self).max_spec() == old(self).max_spec(),
            final(self).wf(),
    {
        self.lines.clear();
    }

    /// The configured capacity.
    pub fn capacity(&self) -> (r: usize)
        ensures
            r == self.max_spec(),
    {
        self.max_lines
    }
}

/// Unfolding lemma: pushing no lines changes nothing.
proof fn lemma_pushed_all_unfold_empty(before: Seq<ScrollbackLine>, cap: usize)
    ensures
        ScrollbackBuffer::pushed_all(before, cap, Seq::<ScrollbackLine>::empty()) == before,
{
}

/// Unfolding lemma: a batch starting with `line` first pushes `line`.
proof fn lemma_pushed_all_unfold(
    before: Seq<ScrollbackLine>,
    cap: usize,
    rest: Seq<ScrollbackLine>,
    line: ScrollbackLine,
)
    ensures
        ScrollbackBuffer::pushed_all(before, cap, seq![line] + rest)
            == ScrollbackBuffer::pushed_all(ScrollbackBuffer::pushed(before, cap, line), cap, rest),
{
    let whole = seq![line] + rest;
    assert(whole[0] == line);
    assert(whole.drop_first() =~= rest);
}

/// Bounded retention: after pushing `k` lines one at a time into a buffer of
/// capacity `m` that started empty, the buffer holds the most recent
/// `min(k, m)` lines, in order.
pub proof fn lemma_scrollback_bound(start: Seq<ScrollbackLine>, cap: usize, lines: Seq<ScrollbackLine>)
    requires
        start.len() == 0,
        cap > 0,
    ensures
        ScrollbackBuffer::pushed_all(start, cap, lines).len() == min(
            lines.len() as int,
            cap as int,
        ),
        ScrollbackBuffer::pushed_all(start, cap, lines) == lines.skip(
            lines.len() - min(lines.len() as int, cap as int),
        ),
{
    lemma_pushed_all_window(start, cap, lines);
    assert(ScrollbackBuffer::pushed_all(start, cap, lines) =~= (start + lines).skip(
        (start + lines).len() - min((start + lines).len() as int, cap as int),
    ));
    assert((start + lines) =~= lines);
}

/// General form: the buffer always holds the last `min(total, cap)` of the
/// lines ever pushed (including those it started with).
proof fn lemma_pushed_all_window(before: Seq<ScrollbackLine>, cap: usize, lines: Seq<ScrollbackLine>)
    requires
        before.len() <= cap,
        cap > 0,
    ensures
        ScrollbackBuffer::pushed_all(before, cap, lines) =~= (before + lines).skip(
            (before + lines).len() - min((before + lines).len() as int, cap as int),
        ),
    decreases lines.len(),
{
    if lines.len() == 0 {
        assert((before + lines) =~= before);
    } else {
        let stepped = ScrollbackBuffer::pushed(before, cap, lines[0]);
        assert(stepped.len() <= cap);
        lemma_pushed_all_window(stepped, cap, lines.drop_first());
        assert((stepped + lines.drop_first()) =~= if before.len() >= cap {
            (before + lines).skip((before + lines).len() - (cap + lines.len() - 1))
        } else {
            before + lines
        });
    }
}

} // verus!
