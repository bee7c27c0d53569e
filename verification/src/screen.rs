//! The visible terminal screen: a grid of cells with a cursor, current
//! attributes, an alternate buffer, and scroll/edit primitives.

use vstd::prelude::*;

use crate::cursor::CursorState;
use crate::strutil::chars_to_string;
use crate::types::CursorPosition;
use crate::types::Dimensions;
use crate::types::OutputFormat;

verus! {

/// Terminal color: a palette index or a 24-bit value.
#[derive(Debug, Clone, Copy, PartialEq, Eq, Structural)]
pub enum Color {
    /// Palette color (0-15 standard, 0-255 extended).
    Indexed(u8),
    /// 24-bit RGB color.
    Rgb(u8, u8, u8),
}

/// Cell attributes: style flags and colors.
#[derive(Debug, Clone, Copy, PartialEq, Eq, Structural)]
pub struct CellAttributes {
    pub bold: bool,
    pub dim: bool,
    pub italic: bool,
    pub underline: bool,
    pub blink: bool,
    pub reverse: bool,
    pub hidden: bool,
    pub strikethrough: bool,
    pub foreground: Option<Color>,
    pub background: Option<Color>,
}

impl CellAttributes {
    /// The attribute set with every flag off and no colors.
    pub open spec fn default_spec() -> CellAttributes {
        CellAttributes {
            bold: false,
            dim: false,
            italic: false,
            underline: false,
            blink: false,
            reverse: false,
            hidden: false,
            strikethrough: false,
            foreground: None,
            background: None,
        }
    }
}

impl Default for CellAttributes {
    fn default() -> (a: CellAttributes)
        ensures
            a == CellAttributes::default_spec(),
    {
        CellAttributes {
            bold: false,
            dim: false,
            italic: false,
            underline: false,
            blink: false,
            reverse: false,
            hidden: false,
            strikethrough: false,
            foreground: None,
            background: None,
        }
    }
}

/// A single cell in the terminal screen.
#[derive(Debug, Clone, Copy, PartialEq, Eq, Structural)]
pub struct Cell {
    /// The character in this cell.
    pub character: char,
    /// Display width: 0 = continuation of a wide character, 1 = normal,
    /// 2 = wide.
    pub width: u8,
    /// Cell attributes.
    pub attrs: CellAttributes,
}

impl Cell {
    /// The blank cell: a space of width 1 with default attributes.
    pub open spec fn default_spec() -> Cell {
        Cell { character: ' ', width: 1, attrs: CellAttributes::default_spec() }
    }
}

impl Default for Cell {
    fn default() -> (c: Cell)
        ensures
            c == Cell::default_spec(),
    {
        Cell { character: ' ', width: 1, attrs: CellAttributes::default() }
    }
}

/// A line that has scrolled off the screen.
#[derive(Debug, Clone)]
pub struct ScrollbackLine {
    /// Plain text content, without ANSI codes.
    pub plain: String,
    /// Raw content with ANSI codes preserved.
    pub raw: String,
}

/// What `unicode_width::UnicodeWidthChar::width` returns for a character.
pub uninterp spec fn width_of(c: char) -> Option<usize>;

/// Relies on unicode_width::UnicodeWidthChar::width: the display width of a
/// character. It depends on the character alone; printable ASCII is one
/// column wide, control characters have no width, and no width exceeds 3.
#[verifier::external_body]
fn char_display_width(c: char) -> (r: Option<usize>)
    ensures
        r == width_of(c),
        r matches Some(w) ==> w <= 3,
        0x20 <= c as u32 && c as u32 <= 0x7e ==> r == Some(1usize),
        c as u32 <= 0x1f || (0x7f <= c as u32 && c as u32 <= 0x9f) ==> r is None,
{
    unicode_width::UnicodeWidthChar::width(c)
}

/// The width a character occupies in a cell: its display width, or 1 for
/// characters that have none.
pub open spec fn cell_width_of(c: char) -> int {
    match width_of(c) {
        Some(w) => w as int,
        None => 1,
    }
}

/// The characters of a row, continuation cells included.
pub open spec fn row_chars(row: Seq<Cell>) -> Seq<char> {
    row.map_values(|c: Cell| c.character)
}

/// A blank row of `n` default cells.
pub open spec fn blank_row(n: int) -> Seq<Cell> {
    Seq::new(n as nat, |j: int| Cell::default_spec())
}

/// The wide-character continuation invariant of one row: every width-2
/// cell with a cell after it is followed by a width-0 continuation.
pub open spec fn row_wide_ok(row: Seq<Cell>) -> bool {
    forall|i: int|
        0 <= i && i + 1 < row.len() && (#[trigger] row[i]).width == 2 ==> row[i + 1].width == 0
}

/// The wide-character continuation invariant of a whole grid.
pub open spec fn grid_wide_ok(g: Seq<Seq<Cell>>) -> bool {
    forall|r: int| 0 <= r < g.len() ==> row_wide_ok(#[trigger] g[r])
}

/// A row with every split wide pair repaired: a width-2 cell whose
/// successor is not a continuation is replaced by a blank.
pub open spec fn wide_repaired(row: Seq<Cell>) -> Seq<Cell> {
    Seq::new(
        row.len(),
        |i: int|
            if row[i].width == 2 && i + 1 < row.len() && row[i + 1].width != 0 {
                Cell::default_spec()
            } else {
                row[i]
            },
    )
}

/// A blank row satisfies the continuation invariant.
pub proof fn lemma_blank_row_wide_ok(n: int)
    ensures
        row_wide_ok(blank_row(n)),
{
}

/// Repairing restores the continuation invariant, and is the identity on
/// rows that already satisfy it.
pub proof fn lemma_wide_repaired(row: Seq<Cell>)
    ensures
        row_wide_ok(wide_repaired(row)),
        row_wide_ok(row) ==> wide_repaired(row) == row,
{
    let wr = wide_repaired(row);
    assert forall|i: int|
        0 <= i && i + 1 < wr.len() && (#[trigger] wr[i]).width == 2 implies wr[i + 1].width
        == 0 by {
        assert(row[i].width == 2 && row[i + 1].width == 0);
        assert(wr[i + 1] == row[i + 1]);
    }
    if row_wide_ok(row) {
        assert(wide_repaired(row) =~= row);
    }
}

/// The visible terminal screen buffer.
#[derive(Debug)]
pub struct ScreenBuffer {
    /// Grid of cells, `rows` rows of `cols` cells each.
    pub cells: Vec<Vec<Cell>>,
    /// Cursor state.
    pub cursor: CursorState,
    /// Row count of the grid.
    pub rows: u16,
    /// Column count of the grid.
    pub cols: u16,
    /// Attributes applied to newly written characters.
    pub current_attrs: CellAttributes,
    /// Lines that scrolled off and await the scrollback buffer.
    pub scrolled_lines: Vec<ScrollbackLine>,
    /// Whether the alternate screen buffer is active.
    pub alternate_active: bool,
    /// The main grid, saved while the alternate buffer is active.
    pub main_buffer: Option<Vec<Vec<Cell>>>,
    /// The main cursor, saved while the alternate buffer is active.
    pub main_cursor: Option<CursorState>,
    /// Window title from OSC sequences.
    pub title: Option<String>,
}

impl ScreenBuffer {
    /// The grid as a sequence of rows of cells.
    pub open spec fn grid(&self) -> Seq<Seq<Cell>> {
        self.cells@.map_values(|r: Vec<Cell>| r@)
    }

    /// The saved main grid, for contracts; only meaningful while the
    /// alternate buffer is active.
    pub open spec fn main_grid(&self) -> Seq<Seq<Cell>> {
        self.main_buffer.unwrap()@.map_values(|r: Vec<Cell>| r@)
    }

    /// Whether a grid has `rows` rows of `cols` cells each.
    pub open spec fn grid_shaped(g: Seq<Seq<Cell>>, rows: u16, cols: u16) -> bool {
        &&& g.len() == rows
        &&& forall|i: int| 0 <= i < g.len() ==> (#[trigger] g[i]).len() == cols
    }

    /// Well-formed: at least one row and column, a grid of exactly that
    /// shape, the cursor inside it, and, while the alternate buffer is
    /// active, a saved main grid of the same shape with its cursor inside.
    pub open spec fn wf(&self) -> bool {
        &&& self.rows >= 1
        &&& self.cols >= 1
        &&& Self::grid_shaped(self.grid(), self.rows, self.cols)
        &&& self.cursor.in_bounds(self.rows, self.cols)
        &&& self.cursor.saved_in_bounds(self.rows, self.cols)
        &&& self.alternate_active ==> {
            &&& self.main_buffer is Some
            &&& self.main_cursor is Some
            &&& Self::grid_shaped(self.main_grid(), self.rows, self.cols)
            &&& self.main_cursor.unwrap().in_bounds(self.rows, self.cols)
            &&& self.main_cursor.unwrap().saved_in_bounds(self.rows, self.cols)
        }
        &&& !self.alternate_active ==> self.main_buffer is None && self.main_cursor is None
    }

    /// The wide-character continuation invariant: it holds of the visible
    /// grid and, while the alternate buffer is active, of the saved main
    /// grid. Established by `new` and preserved by every screen operation,
    /// so it holds after any byte sequence through the emulator.
    pub open spec fn wide_wf(&self) -> bool {
        &&& grid_wide_ok(self.grid())
        &&& self.alternate_active ==> grid_wide_ok(self.main_grid())
    }

    /// Everything but the grid, cursor and scrolled queue is unchanged.
    pub open spec fn same_config(&self, other: &ScreenBuffer) -> bool {
        &&& self.rows == other.rows
        &&& self.cols == other.cols
        &&& self.current_attrs == other.current_attrs
        &&& self.alternate_active == other.alternate_active
        &&& self.main_buffer == other.main_buffer
        &&& self.main_cursor == other.main_cursor
        &&& self.title == other.title
    }

    /// Create a screen buffer of blank cells with the cursor at the origin.
    pub fn new(rows: u16, cols: u16) -> (s: ScreenBuffer)
        requires
            rows >= 1,
            cols >= 1,
        ensures
            s.wf(),
            s.rows == rows,
            s.cols == cols,
            forall|i: int, j: int|
                0 <= i < rows && 0 <= j < cols ==> #[trigger] s.grid()[i][j]
                    == Cell::default_spec(),
            s.cursor.row == 0 && s.cursor.col == 0 && s.cursor.visible,
            s.cursor.saved is None,
            s.wide_wf(),
            s.current_attrs == CellAttributes::default_spec(),
            s.scrolled_lines@.len() == 0,
            !s.alternate_active,
            s.title is None,
    {
        let mut cells: Vec<Vec<Cell>> = Vec::new();
        let mut i: u16 = 0;
        while i < rows
            invariant
                i <= rows,
                cells@.len() == i,
                forall|a: int| 0 <= a < i ==> (#[trigger] cells@[a])@.len() == cols,
                forall|a: int, b: int|
                    0 <= a < i && 0 <= b < cols ==> #[trigger] cells@[a]@[b]
                        == Cell::default_spec(),
            decreases rows - i,
        {
            cells.push(Self::make_blank_row(cols));
            i = i + 1;
        }
        let s = ScreenBuffer {
            cells,
            cursor: CursorState::new(),
            rows,
            cols,
            current_attrs: CellAttributes::default(),
            scrolled_lines: Vec::new(),
            alternate_active: false,
            main_buffer: None,
            main_cursor: None,
            title: None,
        };
        s
    }

    /// A fresh row of `cols` blank cells.
    fn make_blank_row(cols: u16) -> (r: Vec<Cell>)
        ensures
            r@.len() == cols,
            forall|j: int| 0 <= j < cols ==> #[trigger] r@[j] == Cell::default_spec(),
            r@ =~= blank_row(cols as int),
    {
        let mut row: Vec<Cell> = Vec::new();
        let mut j: u16 = 0;
        while j < cols
            invariant
                j <= cols,
                row@.len() == j,
                forall|b: int| 0 <= b < j ==> #[trigger] row@[b] == Cell::default_spec(),
            decreases cols - j,
        {
            row.push(Cell::default());
            j = j + 1;
        }
        proof {
            assert(row@ =~= blank_row(cols as int));
        }
        row
    }

    /// The screen dimensions.
    pub fn dimensions(&self) -> (d: Dimensions)
        ensures
            d.rows == self.rows,
            d.cols == self.cols,
    {
        Dimensions { rows: self.rows, cols: self.cols }
    }

    /// The cursor position.
    pub fn cursor(&self) -> (p: CursorPosition)
        ensures
            p.row == self.cursor.row,
            p.col == self.cursor.col,
    {
        self.cursor.position()
    }

    /// Whether the cursor is visible.
    pub fn cursor_visible(&self) -> (r: bool)
        ensures
            r == self.cursor.visible,
    {
        self.cursor.visible
    }

    /// Mutable access to the cursor.
    pub fn cursor_mut(&mut self) -> (c: &mut CursorState)
        ensures
            *c == old(self).cursor,
            (*final(self) == ScreenBuffer { cursor: *final(c), ..*old(self) }),
    {
        &mut self.cursor
    }

    /// The attributes applied to new characters.
    pub fn current_attrs(&self) -> (a: &CellAttributes)
        ensures
            a == self.current_attrs,
    {
        &self.current_attrs
    }

    /// Mutable access to the current attributes.
    pub fn current_attrs_mut(&mut self) -> (a: &mut CellAttributes)
        ensures
            *a == old(self).current_attrs,
            (*final(self) == ScreenBuffer { current_attrs: *final(a), ..*old(self) }),
    {
        &mut self.current_attrs
    }

    /// Reset the current attributes to the default.
    pub fn reset_attrs(&mut self)
        ensures
            (*final(self) == ScreenBuffer {
                current_attrs: CellAttributes::default_spec(),
                ..*old(self)
            }),
    {
        self.current_attrs = CellAttributes::default();
    }

    /// Take the lines that scrolled off, leaving the queue empty.
    pub fn take_scrolled_lines(&mut self) -> (r: Vec<ScrollbackLine>)
        ensures
            r@ == old(self).scrolled_lines@,
            (*final(self) == ScreenBuffer { scrolled_lines: final(self).scrolled_lines, ..*old(self) }),
            final(self).scrolled_lines@.len() == 0,
    {
        let mut out: Vec<ScrollbackLine> = Vec::new();
        std::mem::swap(&mut out, &mut self.scrolled_lines);
        out
    }

    /// Set the window title.
    pub fn set_title(&mut self, title: String)
        ensures
            (*final(self) == ScreenBuffer { title: Some(title), ..*old(self) }),
    {
        self.title = Some(title);
    }

    /// The window title, if one was set.
    pub fn title(&self) -> (r: Option<&str>)
        ensures
            match r {
                Some(t) => self.title matches Some(u) && t@ == u@,
                None => self.title is None,
            },
    {
        match &self.title {
            Some(t) => Some(t.as_str()),
            None => None,
        }
    }

    /// Whether the alternate buffer is active.
    pub fn is_alternate_active(&self) -> (r: bool)
        ensures
            r == self.alternate_active,
    {
        self.alternate_active
    }

    /// Move the cursor to the next multiple-of-8 column, within bounds.
    pub fn tab(&mut self)
        requires
            old(self).wf(),
        ensures
            final(self).wf(),
            final(self).cursor.col == vstd::math::min(
                (old(self).cursor.col / 8 + 1) * 8,
                old(self).cols - 1,
            ),
            final(self).cursor.row == old(self).cursor.row,
            final(self).cursor.visible == old(self).cursor.visible,
            final(self).cursor.saved == old(self).cursor.saved,
            final(self).grid() == old(self).grid(),
            final(self).scrolled_lines@ == old(self).scrolled_lines@,
            final(self).same_config(old(self)),
    {
        let next_tab = (self.cursor.col as u32 / 8 + 1) * 8;
        let cap = (self.cols - 1) as u32;
        self.cursor.col = if next_tab < cap {
            next_tab as u16
        } else {
            self.cols - 1
        };
    }

    /// Move the cursor one column left, stopping at the edge.
    pub fn backspace(&mut self)
        requires
            old(self).wf(),
        ensures
            final(self).wf(),
            final(self).cursor.col == vstd::math::max(old(self).cursor.col - 1, 0),
            final(self).cursor.row == old(self).cursor.row,
            final(self).grid() == old(self).grid(),
            final(self).scrolled_lines@ == old(self).scrolled_lines@,
            final(self).same_config(old(self)),
    {
        self.cursor.move_left(1);
    }

    /// Move the cursor to the start of the line.
    pub fn carriage_return(&mut self)
        requires
            old(self).wf(),
        ensures
            final(self).wf(),
            final(self).cursor.col == 0,
            final(self).cursor.row == old(self).cursor.row,
            final(self).grid() == old(self).grid(),
            final(self).scrolled_lines@ == old(self).scrolled_lines@,
            final(self).same_config(old(self)),
    {
        self.cursor.carriage_return();
    }

    /// The scrolled-line queue `after` extends `before` with the first `n`
    /// rows of grid `g`, each as its characters.
    pub open spec fn queued_rows(
        before: Seq<ScrollbackLine>,
        after: Seq<ScrollbackLine>,
        g: Seq<Seq<Cell>>,
        n: int,
    ) -> bool {
        &&& after.len() == before.len() + n
        &&& forall|k: int| 0 <= k < before.len() ==> #[trigger] after[k] == before[k]
        &&& forall|k: int|
            0 <= k < n ==> (#[trigger] after[before.len() + k]).plain@ == row_chars(g[k])
                && after[before.len() + k].raw@ == row_chars(g[k])
    }

    /// What the grid looks like after scrolling up by `n`: the first `n`
    /// rows gone, `n` blank rows appended.
    pub open spec fn scrolled_up_grid(g: Seq<Seq<Cell>>, n: int, cols: u16) -> Seq<Seq<Cell>> {
        g.skip(n) + Seq::new(n as nat, |k: int| blank_row(cols as int))
    }

    /// Scroll the screen up by `n` lines, clamped to the screen height.
    /// Displaced rows are queued for scrollback unless the alternate buffer
    /// is active; the cursor does not move.
    pub fn scroll_up(&mut self, n: u16)
        requires
            old(self).wf(),
        ensures
            final(self).wf(),
            final(self).same_config(old(self)),
            final(self).cursor == old(self).cursor,
            n == 0 ==> {
                &&& final(self).grid() == old(self).grid()
                &&& final(self).scrolled_lines@ == old(self).scrolled_lines@
            },
            old(self).wide_wf() ==> final(self).wide_wf(),
            n > 0 ==> {
                let m = vstd::math::min(n as int, old(self).rows as int);
                &&& final(self).grid() == Self::scrolled_up_grid(old(self).grid(), m, old(self).cols)
                &&& old(self).alternate_active ==> final(self).scrolled_lines@ == old(
                    self,
                ).scrolled_lines@
                &&& !old(self).alternate_active ==> Self::queued_rows(
                    old(self).scrolled_lines@,
                    final(self).scrolled_lines@,
                    old(self).grid(),
                    m,
                )
            },
    {
        if n == 0 {
            return ;
        }
        let eff = if n < self.rows {
            n
        } else {
            self.rows
        };
        let ghost g0 = self.grid();
        let ghost sl0 = self.scrolled_lines@;
        let mut k: u16 = 0;
        while k < eff
            invariant
                old(self).wf(),
                0 < eff <= old(self).rows,
                eff == vstd::math::min(n as int, old(self).rows as int),
                k <= eff,
                self.rows == old(self).rows,
                self.cols == old(self).cols,
                self.cursor == old(self).cursor,
                self.same_config(old(self)),
                self.grid() =~= g0.skip(k as int),
                g0 == old(self).grid(),
                self.alternate_active ==> self.scrolled_lines@ == sl0,
                !self.alternate_active ==> Self::queued_rows(sl0, self.scrolled_lines@, g0, k as int),
            decreases eff - k,
        {
            proof {
                assert(self.grid().len() == g0.len() - k);
            }
            let ghost prev_cells = self.cells@;
            let row = self.cells.remove(0);
            proof {
                assert(prev_cells.map_values(|r: Vec<Cell>| r@) =~= g0.skip(k as int));
                assert(row@ == prev_cells.map_values(|r: Vec<Cell>| r@)[0]);
                assert(row@ == g0[k as int]);
                assert forall|i: int| 0 <= i < self.grid().len() implies self.grid()[i] == g0.skip(
                    k + 1,
                )[i] by {
                    assert(self.cells@[i] == prev_cells[i + 1]);
                    assert(self.grid()[i] == prev_cells.map_values(|r: Vec<Cell>| r@)[i + 1]);
                }
                assert(self.grid() =~= g0.skip(k + 1));
            }
            if !self.alternate_active {
                let line = row_to_line(&row);
                self.scrolled_lines.push(line);
            }
            k = k + 1;
        }
        let mut k2: u16 = 0;
        while k2 < eff
            invariant
                old(self).wf(),
                0 < eff <= old(self).rows,
                eff == vstd::math::min(n as int, old(self).rows as int),
                k2 <= eff,
                self.rows == old(self).rows,
                self.cols == old(self).cols,
                self.cursor == old(self).cursor,
                self.same_config(old(self)),
                self.grid() =~= g0.skip(eff as int) + Seq::new(
                    k2 as nat,
                    |j: int| blank_row(old(self).cols as int),
                ),
                g0 == old(self).grid(),
                self.alternate_active ==> self.scrolled_lines@ == sl0,
                !self.alternate_active ==> Self::queued_rows(sl0, self.scrolled_lines@, g0, eff as int),
            decreases eff - k2,
        {
            let ghost prev_cells = self.cells@;
            let blank = Self::make_blank_row(self.cols);
            self.cells.push(blank);
            proof {
                let target = g0.skip(eff as int) + Seq::new(
                    (k2 + 1) as nat,
                    |j: int| blank_row(old(self).cols as int),
                );
                assert(prev_cells.map_values(|r: Vec<Cell>| r@) =~= g0.skip(eff as int) + Seq::new(
                    k2 as nat,
                    |j: int| blank_row(old(self).cols as int),
                ));
                assert forall|i: int| 0 <= i < self.grid().len() implies self.grid()[i]
                    == target[i] by {
                    if i < prev_cells.len() {
                        assert(self.cells@[i] == prev_cells[i]);
                        assert(prev_cells.map_values(|r: Vec<Cell>| r@)[i] == prev_cells[i]@);
                    } else {
                        assert(self.cells@[i] == blank);
                    }
                }
                assert(self.grid() =~= target);
            }
            k2 = k2 + 1;
        }
        proof {
            assert(final(self).grid() =~= Self::scrolled_up_grid(g0, eff as int, old(self).cols));
            if old(self).wide_wf() {
                assert forall|rr: int|
                    0 <= rr < final(self).grid().len() implies row_wide_ok(
                    #[trigger] final(self).grid()[rr],
                ) by {
                    if rr < g0.len() - eff {
                        assert(final(self).grid()[rr] == g0[rr + eff]);
                    } else {
                        assert(final(self).grid()[rr] == blank_row(old(self).cols as int));
                        lemma_blank_row_wide_ok(old(self).cols as int);
                    }
                }
            }
        }
    }

    /// What the grid looks like after scrolling down by `n`: `n` blank rows
    /// on top, the last `n` rows gone.
    pub open spec fn scrolled_down_grid(g: Seq<Seq<Cell>>, n: int, cols: u16) -> Seq<Seq<Cell>> {
        Seq::new(n as nat, |k: int| blank_row(cols as int)) + g.take(g.len() - n)
    }

    /// Scroll the screen down by `n` lines, clamped to the screen height:
    /// blank rows appear at the top and the bottom rows are dropped. The
    /// cursor does not move.
    pub fn scroll_down(&mut self, n: u16)
        requires
            old(self).wf(),
        ensures
            final(self).wf(),
            final(self).same_config(old(self)),
            final(self).scrolled_lines@ == old(self).scrolled_lines@,
            final(self).cursor == old(self).cursor,
            old(self).wide_wf() ==> final(self).wide_wf(),
            n == 0 ==> final(self).grid() == old(self).grid(),
            n > 0 ==> final(self).grid() == Self::scrolled_down_grid(
                old(self).grid(),
                vstd::math::min(n as int, old(self).rows as int),
                old(self).cols,
            ),
    {
        if n == 0 {
            return ;
        }
        let eff = if n < self.rows {
            n
        } else {
            self.rows
        };
        let ghost g0 = self.grid();
        let keep = self.rows - eff;
        let ghost prev_cells0 = self.cells@;
        self.cells.truncate(keep as usize);
        proof {
            assert forall|i: int| 0 <= i < self.grid().len() implies self.grid()[i] == g0.take(
                keep as int,
            )[i] by {
                assert(self.cells@[i] == prev_cells0[i]);
                assert(prev_cells0.map_values(|r: Vec<Cell>| r@)[i] == prev_cells0[i]@);
            }
            assert(self.grid() =~= Seq::new(0nat, |j: int| blank_row(old(self).cols as int))
                + g0.take(keep as int));
        }
        let mut k: u16 = 0;
        while k < eff
            invariant
                old(self).wf(),
                0 < eff <= old(self).rows,
                keep == old(self).rows - eff,
                k <= eff,
                self.rows == old(self).rows,
                self.cols == old(self).cols,
                self.cursor == old(self).cursor,
                self.same_config(old(self)),
                self.scrolled_lines@ == old(self).scrolled_lines@,
                g0 == old(self).grid(),
                self.grid() =~= Seq::new(k as nat, |j: int| blank_row(old(self).cols as int))
                    + g0.take(keep as int),
            decreases eff - k,
        {
            let ghost prev_cells = self.cells@;
            let blank = Self::make_blank_row(self.cols);
            self.cells.insert(0, blank);
            proof {
                let target = Seq::new((k + 1) as nat, |j: int| blank_row(old(self).cols as int))
                    + g0.take(keep as int);
                assert(prev_cells.map_values(|r: Vec<Cell>| r@) =~= Seq::new(
                    k as nat,
                    |j: int| blank_row(old(self).cols as int),
                ) + g0.take(keep as int));
                assert forall|i: int| 0 <= i < self.grid().len() implies self.grid()[i]
                    == target[i] by {
                    if i == 0 {
                        assert(self.cells@[0] == blank);
                    } else {
                        assert(self.cells@[i] == prev_cells[i - 1]);
                        assert(prev_cells.map_values(|r: Vec<Cell>| r@)[i - 1] == prev_cells[i
                            - 1]@);
                    }
                }
                assert(self.grid() =~= target);
            }
            k = k + 1;
        }
        proof {
            assert(final(self).grid() =~= Self::scrolled_down_grid(g0, eff as int, old(self).cols));
            if old(self).wide_wf() {
                assert forall|rr: int|
                    0 <= rr < final(self).grid().len() implies row_wide_ok(
                    #[trigger] final(self).grid()[rr],
                ) by {
                    if rr < eff {
                        assert(final(self).grid()[rr] == blank_row(old(self).cols as int));
                        lemma_blank_row_wide_ok(old(self).cols as int);
                    } else {
                        assert(final(self).grid()[rr] == g0[rr - eff]);
                    }
                }
            }
        }
    }

    /// What a line feed does to the screen: one row down, or at the bottom
    /// a one-line scroll with the cursor staying on the bottom row.
    pub open spec fn line_feed_effect(pre: ScreenBuffer, post: ScreenBuffer) -> bool {
        &&& post.wf()
        &&& post.same_config(&pre)
        &&& (pre.wide_wf() ==> post.wide_wf())
        &&& post.cursor.col == pre.cursor.col
        &&& post.cursor.visible == pre.cursor.visible
        &&& post.cursor.saved == pre.cursor.saved
        &&& (pre.cursor.row + 1 < pre.rows ==> {
            &&& post.cursor.row == pre.cursor.row + 1
            &&& post.grid() == pre.grid()
            &&& post.scrolled_lines@ == pre.scrolled_lines@
        })
        &&& (pre.cursor.row + 1 >= pre.rows ==> {
            &&& post.cursor.row == pre.cursor.row
            &&& post.grid() == Self::scrolled_up_grid(pre.grid(), 1, pre.cols)
            &&& (pre.alternate_active ==> post.scrolled_lines@ == pre.scrolled_lines@)
            &&& (!pre.alternate_active ==> Self::queued_rows(
                pre.scrolled_lines@,
                post.scrolled_lines@,
                pre.grid(),
                1,
            ))
        })
    }

    /// Move the cursor down one row, scrolling when it was on the last row.
    pub fn line_feed(&mut self)
        requires
            old(self).wf(),
        ensures
            Self::line_feed_effect(*old(self), *final(self)),
            final(self).wf(),
            final(self).same_config(old(self)),
            final(self).cursor.col == old(self).cursor.col,
            final(self).cursor.visible == old(self).cursor.visible,
            final(self).cursor.saved == old(self).cursor.saved,
            old(self).wide_wf() ==> final(self).wide_wf(),
            old(self).cursor.row + 1 < old(self).rows ==> {
                &&& final(self).cursor.row == old(self).cursor.row + 1
                &&& final(self).grid() == old(self).grid()
                &&& final(self).scrolled_lines@ == old(self).scrolled_lines@
            },
            old(self).cursor.row + 1 >= old(self).rows ==> {
                &&& final(self).cursor.row == old(self).cursor.row
                &&& final(self).grid() == Self::scrolled_up_grid(old(self).grid(), 1, old(self).cols)
                &&& old(self).alternate_active ==> final(self).scrolled_lines@ == old(
                    self,
                ).scrolled_lines@
                &&& !old(self).alternate_active ==> Self::queued_rows(
                    old(self).scrolled_lines@,
                    final(self).scrolled_lines@,
                    old(self).grid(),
                    1,
                )
            },
    {
        let needs_scroll = self.cursor.line_feed(self.rows);
        if needs_scroll {
            self.scroll_up(1);
        }
    }

    /// Move the cursor to the start of the next line, scrolling when it was
    /// on the last row.
    pub fn newline(&mut self)
        requires
            old(self).wf(),
        ensures
            final(self).wf(),
            final(self).same_config(old(self)),
            final(self).cursor.col == 0,
            old(self).wide_wf() ==> final(self).wide_wf(),
    {
        self.carriage_return();
        self.line_feed();
    }

    /// Clear row `r` to blank cells; rows outside the grid are ignored.
    fn clear_row(&mut self, r: usize)
        requires
            old(self).wf(),
        ensures
            final(self).wf(),
            final(self).same_config(old(self)),
            final(self).cursor == old(self).cursor,
            final(self).scrolled_lines@ == old(self).scrolled_lines@,
            final(self).grid().len() == old(self).grid().len(),
            r < old(self).grid().len() ==> final(self).grid() == old(self).grid().update(
                r as int,
                blank_row(old(self).cols as int),
            ),
            r >= old(self).grid().len() ==> final(self).grid() == old(self).grid(),
            old(self).wide_wf() ==> final(self).wide_wf(),
    {
        proof {
            lemma_blank_row_wide_ok(old(self).cols as int);
        }
        if r < self.cells.len() {
            let blank = Self::make_blank_row(self.cols);
            self.cells[r] = blank;
            proof {
                assert(final(self).grid() =~= old(self).grid().update(
                    r as int,
                    blank_row(old(self).cols as int),
                ));
            }
        } else {
            proof {
                assert(final(self).grid() =~= old(self).grid());
            }
        }
    }

    /// A row with cells `from..to` (clamped to the row) made blank.
    pub open spec fn row_blanked(row: Seq<Cell>, from: int, to: int) -> Seq<Cell> {
        Seq::new(
            row.len(),
            |j: int|
                if from <= j < to {
                    Cell::default_spec()
                } else {
                    row[j]
                },
        )
    }

    /// Where blanking from `from` really starts: one cell earlier when that
    /// would orphan the head of a wide pair whose continuation is erased.
    pub open spec fn blank_start(row: Seq<Cell>, from: int, to: int) -> int {
        if 0 < from && from < to && row[from - 1].width == 2 {
            from - 1
        } else {
            from
        }
    }

    /// Blanking a range from its repaired start keeps the continuation
    /// invariant.
    pub proof fn lemma_row_blanked_wide_ok(row: Seq<Cell>, from: int, to: int)
        requires
            row_wide_ok(row),
            0 <= from,
        ensures
            row_wide_ok(Self::row_blanked(row, Self::blank_start(row, from, to), to)),
    {
        let f2 = Self::blank_start(row, from, to);
        let nb = Self::row_blanked(row, f2, to);
        assert forall|i: int|
            0 <= i && i + 1 < nb.len() && (#[trigger] nb[i]).width == 2 implies nb[i + 1].width
            == 0 by {
            assert(!(f2 <= i < to));
            assert(nb[i] == row[i]);
            if f2 <= i + 1 < to {
                assert(i + 1 == f2);
                if f2 == from - 1 {
                    assert(row[from - 2].width == 2 && row[from - 1].width == 0);
                } else {
                    assert(false);
                }
            } else {
                assert(nb[i + 1] == row[i + 1]);
            }
        }
    }

    /// Blank the cells `from..to` of row `r`, extending one cell left when
    /// that start would orphan the head of a wide pair.
    fn blank_range_repaired(&mut self, r: usize, from: usize, to: usize)
        requires
            old(self).wf(),
            r < old(self).grid().len(),
            from <= old(self).cols,
            to <= old(self).cols,
        ensures
            final(self).wf(),
            final(self).same_config(old(self)),
            final(self).cursor == old(self).cursor,
            final(self).scrolled_lines@ == old(self).scrolled_lines@,
            final(self).grid() == old(self).grid().update(
                r as int,
                Self::row_blanked(
                    old(self).grid()[r as int],
                    Self::blank_start(old(self).grid()[r as int], from as int, to as int),
                    to as int,
                ),
            ),
            old(self).wide_wf() ==> final(self).wide_wf(),
    {
        let from2 = if from > 0 && from < to {
            let prev = self.get_cell(r, from - 1);
            if prev.width == 2 {
                from - 1
            } else {
                from
            }
        } else {
            from
        };
        self.blank_range(r, from2, to);
        proof {
            if old(self).wide_wf() {
                Self::lemma_row_blanked_wide_ok(
                    old(self).grid()[r as int],
                    from as int,
                    to as int,
                );
                assert forall|rr: int|
                    0 <= rr < final(self).grid().len() implies row_wide_ok(
                    #[trigger] final(self).grid()[rr],
                ) by {
                    if rr != r {
                        assert(final(self).grid()[rr] == old(self).grid()[rr]);
                    }
                }
            }
        }
    }

    /// Blank the cells `from..to` of row `r`.
    fn blank_range(&mut self, r: usize, from: usize, to: usize)
        requires
            old(self).wf(),
            r < old(self).grid().len(),
            to <= old(self).cols,
        ensures
            final(self).wf(),
            final(self).same_config(old(self)),
            final(self).cursor == old(self).cursor,
            final(self).scrolled_lines@ == old(self).scrolled_lines@,
            final(self).grid() == old(self).grid().update(
                r as int,
                Self::row_blanked(old(self).grid()[r as int], from as int, to as int),
            ),
    {
        let mut j = from;
        let ghost g0 = self.grid();
        proof {
            assert(Self::row_blanked(g0[r as int], from as int, from as int) =~= g0[r as int]);
            assert(self.grid() =~= g0.update(
                r as int,
                Self::row_blanked(g0[r as int], from as int, from as int),
            ));
        }
        while j < to
            invariant
                old(self).wf(),
                r < g0.len(),
                from <= j,
                to <= old(self).cols,
                j <= to || j == from,
                g0 == old(self).grid(),
                self.rows == old(self).rows,
                self.cols == old(self).cols,
                self.cursor == old(self).cursor,
                self.same_config(old(self)),
                self.scrolled_lines@ == old(self).scrolled_lines@,
                self.grid() =~= g0.update(
                    r as int,
                    Self::row_blanked(g0[r as int], from as int, j as int),
                ),
            decreases to - j,
        {
            proof {
                assert(self.grid().len() == g0.len());
                assert(self.cells@.len() == g0.len());
                assert(self.grid()[r as int].len() == g0[r as int].len());
                assert(g0[r as int].len() == old(self).cols);
                assert(self.cells@[r as int]@.len() == old(self).cols);
            }
            let ghost prev_cells = self.cells@;
            self.cells[r][j] = Cell::default();
            proof {
                assert(prev_cells.map_values(|x: Vec<Cell>| x@) =~= g0.update(
                    r as int,
                    Self::row_blanked(g0[r as int], from as int, j as int),
                ));
                let target = g0.update(
                    r as int,
                    Self::row_blanked(g0[r as int], from as int, j + 1),
                );
                assert forall|i: int| 0 <= i < self.grid().len() implies self.grid()[i]
                    == target[i] by {
                    if i == r {
                        assert(self.cells@[i]@ =~= Self::row_blanked(
                            g0[r as int],
                            from as int,
                            j + 1,
                        ));
                    } else {
                        assert(self.cells@[i] == prev_cells[i]);
                        assert(prev_cells.map_values(|x: Vec<Cell>| x@)[i] == prev_cells[i]@);
                    }
                }
                assert(self.grid() =~= target);
            }
            j = j + 1;
        }
        proof {
            if from >= to {
                assert(Self::row_blanked(g0[r as int], from as int, from as int) =~= g0[r as int]);
                assert(Self::row_blanked(g0[r as int], from as int, to as int) =~= g0[r as int]);
                assert(self.grid() =~= g0.update(
                    r as int,
                    Self::row_blanked(g0[r as int], from as int, to as int),
                ));
            }
        }
    }

    /// Read one cell of the grid.
    fn get_cell(&self, r: usize, c: usize) -> (cell: Cell)
        requires
            self.wf(),
            r < self.grid().len(),
            c < self.cols,
        ensures
            cell == self.grid()[r as int][c as int],
    {
        proof {
            assert(self.cells@.len() == self.grid().len());
            assert(self.grid()[r as int].len() == self.cols);
            assert(self.cells@[r as int]@ == self.grid()[r as int]);
        }
        self.cells[r][c]
    }

    /// Write one cell of the grid.
    fn set_cell(&mut self, r: usize, c: usize, cell: Cell)
        requires
            old(self).wf(),
            r < old(self).grid().len(),
            c < old(self).cols,
        ensures
            final(self).wf(),
            final(self).same_config(old(self)),
            final(self).cursor == old(self).cursor,
            final(self).scrolled_lines@ == old(self).scrolled_lines@,
            final(self).grid() == old(self).grid().update(
                r as int,
                old(self).grid()[r as int].update(c as int, cell),
            ),
    {
        let ghost g0 = self.grid();
        proof {
            assert(self.cells@.len() == g0.len());
            assert(self.grid()[r as int].len() == g0[r as int].len());
            assert(g0[r as int].len() == old(self).cols);
            assert(self.cells@[r as int]@.len() == old(self).cols);
        }
        let ghost prev_cells = self.cells@;
        self.cells[r][c] = cell;
        proof {
            let target = g0.update(r as int, g0[r as int].update(c as int, cell));
            assert forall|i: int| 0 <= i < self.grid().len() implies self.grid()[i]
                == target[i] by {
                if i == r {
                    assert(self.cells@[i]@ =~= g0[r as int].update(c as int, cell));
                } else {
                    assert(self.cells@[i] == prev_cells[i]);
                    assert(prev_cells.map_values(|x: Vec<Cell>| x@)[i] == prev_cells[i]@);
                }
            }
            assert(self.grid() =~= target);
        }
    }

    /// Erase from the cursor to the end of the line.
    pub fn erase_line_right(&mut self)
        requires
            old(self).wf(),
        ensures
            final(self).wf(),
            final(self).same_config(old(self)),
            final(self).cursor == old(self).cursor,
            final(self).scrolled_lines@ == old(self).scrolled_lines@,
            final(self).grid() == old(self).grid().update(
                old(self).cursor.row as int,
                Self::row_blanked(
                    old(self).grid()[old(self).cursor.row as int],
                    Self::blank_start(
                        old(self).grid()[old(self).cursor.row as int],
                        old(self).cursor.col as int,
                        old(self).cols as int,
                    ),
                    old(self).cols as int,
                ),
            ),
            old(self).wide_wf() ==> final(self).wide_wf(),
    {
        let r = self.cursor.row as usize;
        let c = self.cursor.col as usize;
        let to = self.cols as usize;
        self.blank_range_repaired(r, c, to);
    }

    /// Erase from the start of the line through the cursor.
    pub fn erase_line_left(&mut self)
        requires
            old(self).wf(),
        ensures
            final(self).wf(),
            final(self).same_config(old(self)),
            final(self).cursor == old(self).cursor,
            final(self).scrolled_lines@ == old(self).scrolled_lines@,
            final(self).grid() == old(self).grid().update(
                old(self).cursor.row as int,
                Self::row_blanked(
                    old(self).grid()[old(self).cursor.row as int],
                    0,
                    old(self).cursor.col + 1,
                ),
            ),
            old(self).wide_wf() ==> final(self).wide_wf(),
    {
        let r = self.cursor.row as usize;
        let c = self.cursor.col as usize;
        self.blank_range_repaired(r, 0, c + 1);
    }

    /// Erase the whole line under the cursor.
    pub fn erase_line(&mut self)
        requires
            old(self).wf(),
        ensures
            final(self).wf(),
            final(self).same_config(old(self)),
            final(self).cursor == old(self).cursor,
            final(self).scrolled_lines@ == old(self).scrolled_lines@,
            final(self).grid() == old(self).grid().update(
                old(self).cursor.row as int,
                blank_row(old(self).cols as int),
            ),
            old(self).wide_wf() ==> final(self).wide_wf(),
    {
        let r = self.cursor.row as usize;
        self.clear_row(r);
    }

    /// A grid with rows `from..to` made blank.
    pub open spec fn rows_blanked(g: Seq<Seq<Cell>>, from: int, to: int, cols: u16) -> Seq<
        Seq<Cell>,
    > {
        Seq::new(
            g.len(),
            |i: int|
                if from <= i < to {
                    blank_row(cols as int)
                } else {
                    g[i]
                },
        )
    }

    /// Blank the rows `from..to` of the grid.
    fn blank_rows(&mut self, from: usize, to: usize)
        requires
            old(self).wf(),
            to <= old(self).grid().len(),
        ensures
            final(self).wf(),
            final(self).same_config(old(self)),
            final(self).cursor == old(self).cursor,
            final(self).scrolled_lines@ == old(self).scrolled_lines@,
            final(self).grid() == Self::rows_blanked(
                old(self).grid(),
                from as int,
                to as int,
                old(self).cols,
            ),
            old(self).wide_wf() ==> final(self).wide_wf(),
    {
        proof {
            lemma_blank_row_wide_ok(old(self).cols as int);
        }
        let ghost g0 = self.grid();
        let mut i = from;
        proof {
            if from >= to {
                assert(Self::rows_blanked(g0, from as int, to as int, old(self).cols) =~= g0);
            }
            assert(self.grid() =~= Self::rows_blanked(
                g0,
                from as int,
                from as int,
                old(self).cols,
            ));
        }
        while i < to
            invariant
                old(self).wf(),
                from <= i,
                to <= g0.len(),
                i <= to || i == from,
                g0 == old(self).grid(),
                self.rows == old(self).rows,
                self.cols == old(self).cols,
                self.cursor == old(self).cursor,
                self.same_config(old(self)),
                self.scrolled_lines@ == old(self).scrolled_lines@,
                self.grid() =~= Self::rows_blanked(g0, from as int, i as int, old(self).cols),
            decreases to - i,
        {
            self.clear_row(i);
            proof {
                assert(self.grid() =~= Self::rows_blanked(g0, from as int, i + 1, old(self).cols));
            }
            i = i + 1;
        }
        proof {
            assert(self.grid() =~= Self::rows_blanked(g0, from as int, to as int, old(self).cols));
        }
    }

    /// Erase from the cursor to the end of the screen: the rest of the line,
    /// then every row below.
    pub fn erase_below(&mut self)
        requires
            old(self).wf(),
        ensures
            final(self).wf(),
            final(self).same_config(old(self)),
            final(self).cursor == old(self).cursor,
            final(self).scrolled_lines@ == old(self).scrolled_lines@,
            final(self).grid() == Self::rows_blanked(
                old(self).grid(),
                old(self).cursor.row + 1,
                old(self).grid().len() as int,
                old(self).cols,
            ).update(
                old(self).cursor.row as int,
                Self::row_blanked(
                    old(self).grid()[old(self).cursor.row as int],
                    Self::blank_start(
                        old(self).grid()[old(self).cursor.row as int],
                        old(self).cursor.col as int,
                        old(self).cols as int,
                    ),
                    old(self).cols as int,
                ),
            ),
            old(self).wide_wf() ==> final(self).wide_wf(),
    {
        self.erase_line_right();
        let from = self.cursor.row as usize + 1;
        let to = self.cells.len();
        self.blank_rows(from, to);
        proof {
            assert(final(self).grid() =~= Self::rows_blanked(
                old(self).grid(),
                old(self).cursor.row + 1,
                old(self).grid().len() as int,
                old(self).cols,
            ).update(
                old(self).cursor.row as int,
                Self::row_blanked(
                    old(self).grid()[old(self).cursor.row as int],
                    Self::blank_start(
                        old(self).grid()[old(self).cursor.row as int],
                        old(self).cursor.col as int,
                        old(self).cols as int,
                    ),
                    old(self).cols as int,
                ),
            ));
        }
    }

    /// Erase from the start of the screen through the cursor: every row
    /// above, then the line up to the cursor.
    pub fn erase_above(&mut self)
        requires
            old(self).wf(),
        ensures
            final(self).wf(),
            final(self).same_config(old(self)),
            final(self).cursor == old(self).cursor,
            final(self).scrolled_lines@ == old(self).scrolled_lines@,
            final(self).grid() == Self::rows_blanked(
                old(self).grid(),
                0,
                old(self).cursor.row as int,
                old(self).cols,
            ).update(
                old(self).cursor.row as int,
                Self::row_blanked(
                    old(self).grid()[old(self).cursor.row as int],
                    0,
                    old(self).cursor.col + 1,
                ),
            ),
            old(self).wide_wf() ==> final(self).wide_wf(),
    {
        self.erase_line_left();
        let to = self.cursor.row as usize;
        self.blank_rows(0, to);
        proof {
            assert(final(self).grid() =~= Self::rows_blanked(
                old(self).grid(),
                0,
                old(self).cursor.row as int,
                old(self).cols,
            ).update(
                old(self).cursor.row as int,
                Self::row_blanked(
                    old(self).grid()[old(self).cursor.row as int],
                    0,
                    old(self).cursor.col + 1,
                ),
            ));
        }
    }

    /// Erase the entire screen.
    pub fn erase_all(&mut self)
        requires
            old(self).wf(),
        ensures
            final(self).wf(),
            final(self).same_config(old(self)),
            final(self).cursor == old(self).cursor,
            final(self).scrolled_lines@ == old(self).scrolled_lines@,
            final(self).grid() == Self::rows_blanked(
                old(self).grid(),
                0,
                old(self).grid().len() as int,
                old(self).cols,
            ),
            old(self).wide_wf() ==> final(self).wide_wf(),
    {
        let to = self.cells.len();
        self.blank_rows(0, to);
    }

    /// What the grid looks like after inserting `m` blank lines at row `r`:
    /// the rows from `r` shift down and the bottom `m` rows drop off.
    pub open spec fn lines_inserted(g: Seq<Seq<Cell>>, r: int, m: int, cols: u16) -> Seq<
        Seq<Cell>,
    > {
        g.take(r) + Seq::new(m as nat, |k: int| blank_row(cols as int)) + g.subrange(
            r,
            g.len() - m,
        )
    }

    /// Insert `n` blank lines at the cursor row; rows below shift down and
    /// the bottom rows drop off. Clamped to the rows below the cursor.
    pub fn insert_lines(&mut self, n: u16)
        requires
            old(self).wf(),
        ensures
            final(self).wf(),
            final(self).same_config(old(self)),
            final(self).cursor == old(self).cursor,
            final(self).scrolled_lines@ == old(self).scrolled_lines@,
            final(self).grid() == Self::lines_inserted(
                old(self).grid(),
                old(self).cursor.row as int,
                vstd::math::min(n as int, old(self).grid().len() - old(self).cursor.row),
                old(self).cols,
            ),
            old(self).wide_wf() ==> final(self).wide_wf(),
    {
        proof {
            lemma_blank_row_wide_ok(old(self).cols as int);
        }
        let ghost g0 = self.grid();
        let r = self.cursor.row as usize;
        let len = self.cells.len();
        let rc = if (n as usize) < len - r {
            n as usize
        } else {
            len - r
        };
        let ghost prev_cells0 = self.cells@;
        self.cells.truncate(len - rc);
        proof {
            let target0 = g0.take(r as int) + Seq::new(
                0nat,
                |j: int| blank_row(old(self).cols as int),
            ) + g0.subrange(r as int, g0.len() - rc);
            assert forall|i: int| 0 <= i < self.grid().len() implies self.grid()[i]
                == target0[i] by {
                assert(self.cells@[i] == prev_cells0[i]);
                assert(prev_cells0.map_values(|x: Vec<Cell>| x@)[i] == prev_cells0[i]@);
            }
            assert(self.grid() =~= target0);
        }
        let mut k: usize = 0;
        while k < rc
            invariant
                old(self).wf(),
                g0 == old(self).grid(),
                r == old(self).cursor.row,
                r < g0.len(),
                rc <= g0.len() - r,
                k <= rc,
                self.cells@.len() == g0.len() - rc + k,
                self.rows == old(self).rows,
                self.cols == old(self).cols,
                self.cursor == old(self).cursor,
                self.same_config(old(self)),
                self.scrolled_lines@ == old(self).scrolled_lines@,
                self.grid() =~= g0.take(r as int) + Seq::new(
                    k as nat,
                    |j: int| blank_row(old(self).cols as int),
                ) + g0.subrange(r as int, g0.len() - rc),
            decreases rc - k,
        {
            let ghost prev_cells = self.cells@;
            let blank = Self::make_blank_row(self.cols);
            self.cells.insert(r, blank);
            proof {
                let target = g0.take(r as int) + Seq::new(
                    (k + 1) as nat,
                    |j: int| blank_row(old(self).cols as int),
                ) + g0.subrange(r as int, g0.len() - rc);
                assert(prev_cells.map_values(|x: Vec<Cell>| x@) =~= g0.take(r as int) + Seq::new(
                    k as nat,
                    |j: int| blank_row(old(self).cols as int),
                ) + g0.subrange(r as int, g0.len() - rc));
                assert forall|i: int| 0 <= i < self.grid().len() implies self.grid()[i]
                    == target[i] by {
                    if i < r {
                        assert(self.cells@[i] == prev_cells[i]);
                        assert(prev_cells.map_values(|x: Vec<Cell>| x@)[i] == prev_cells[i]@);
                    } else if i == r {
                        assert(self.cells@[i] == blank);
                    } else {
                        assert(self.cells@[i] == prev_cells[i - 1]);
                        assert(prev_cells.map_values(|x: Vec<Cell>| x@)[i - 1] == prev_cells[i
                            - 1]@);
                    }
                }
                assert(self.grid() =~= target);
            }
            k = k + 1;
        }
        proof {
            assert(final(self).grid() =~= Self::lines_inserted(
                g0,
                r as int,
                rc as int,
                old(self).cols,
            ));
        }
    }

    /// What the grid looks like after deleting `m` lines at row `r`: the
    /// rows below shift up and `m` blank rows appear at the bottom.
    pub open spec fn lines_deleted(g: Seq<Seq<Cell>>, r: int, m: int, cols: u16) -> Seq<
        Seq<Cell>,
    > {
        g.take(r) + g.subrange(r + m, g.len() as int) + Seq::new(
            m as nat,
            |k: int| blank_row(cols as int),
        )
    }

    /// Delete `n` lines at the cursor row; rows below shift up and blank
    /// rows appear at the bottom. Clamped to the rows below the cursor.
    pub fn delete_lines(&mut self, n: u16)
        requires
            old(self).wf(),
        ensures
            final(self).wf(),
            final(self).same_config(old(self)),
            final(self).cursor == old(self).cursor,
            final(self).scrolled_lines@ == old(self).scrolled_lines@,
            final(self).grid() == Self::lines_deleted(
                old(self).grid(),
                old(self).cursor.row as int,
                vstd::math::min(n as int, old(self).grid().len() - old(self).cursor.row),
                old(self).cols,
            ),
            old(self).wide_wf() ==> final(self).wide_wf(),
    {
        proof {
            lemma_blank_row_wide_ok(old(self).cols as int);
        }
        let ghost g0 = self.grid();
        let r = self.cursor.row as usize;
        let len = self.cells.len();
        let rc = if (n as usize) < len - r {
            n as usize
        } else {
            len - r
        };
        let mut k: usize = 0;
        while k < rc
            invariant
                old(self).wf(),
                g0 == old(self).grid(),
                r == old(self).cursor.row,
                r < g0.len(),
                rc <= g0.len() - r,
                k <= rc,
                self.rows == old(self).rows,
                self.cols == old(self).cols,
                self.cursor == old(self).cursor,
                self.same_config(old(self)),
                self.scrolled_lines@ == old(self).scrolled_lines@,
                self.grid() =~= g0.take(r as int) + g0.subrange(r + k, g0.len() as int),
            decreases rc - k,
        {
            let ghost prev_cells = self.cells@;
            proof {
                assert(self.grid().len() == g0.len() - k);
            }
            let _removed = self.cells.remove(r);
            proof {
                assert(prev_cells.map_values(|x: Vec<Cell>| x@) =~= g0.take(r as int)
                    + g0.subrange(r + k, g0.len() as int));
                let target = g0.take(r as int) + g0.subrange(r + k + 1, g0.len() as int);
                assert forall|i: int| 0 <= i < self.grid().len() implies self.grid()[i]
                    == target[i] by {
                    if i < r {
                        assert(self.cells@[i] == prev_cells[i]);
                    } else {
                        assert(self.cells@[i] == prev_cells[i + 1]);
                    }
                    assert(prev_cells.map_values(|x: Vec<Cell>| x@)[if i < r {
                        i
                    } else {
                        i + 1
                    }] == prev_cells[if i < r {
                        i
                    } else {
                        i + 1
                    }]@);
                }
                assert(self.grid() =~= target);
            }
            k = k + 1;
        }
        let mut k2: usize = 0;
        while k2 < rc
            invariant
                old(self).wf(),
                g0 == old(self).grid(),
                r == old(self).cursor.row,
                r < g0.len(),
                rc <= g0.len() - r,
                k2 <= rc,
                self.rows == old(self).rows,
                self.cols == old(self).cols,
                self.cursor == old(self).cursor,
                self.same_config(old(self)),
                self.scrolled_lines@ == old(self).scrolled_lines@,
                self.grid() =~= g0.take(r as int) + g0.subrange(r + rc, g0.len() as int)
                    + Seq::new(k2 as nat, |j: int| blank_row(old(self).cols as int)),
            decreases rc - k2,
        {
            let ghost prev_cells = self.cells@;
            let blank = Self::make_blank_row(self.cols);
            self.cells.push(blank);
            proof {
                let target = g0.take(r as int) + g0.subrange(r + rc, g0.len() as int) + Seq::new(
                    (k2 + 1) as nat,
                    |j: int| blank_row(old(self).cols as int),
                );
                assert(prev_cells.map_values(|x: Vec<Cell>| x@) =~= g0.take(r as int)
                    + g0.subrange(r + rc, g0.len() as int) + Seq::new(
                    k2 as nat,
                    |j: int| blank_row(old(self).cols as int),
                ));
                assert forall|i: int| 0 <= i < self.grid().len() implies self.grid()[i]
                    == target[i] by {
                    if i < prev_cells.len() {
                        assert(self.cells@[i] == prev_cells[i]);
                        assert(prev_cells.map_values(|x: Vec<Cell>| x@)[i] == prev_cells[i]@);
                    } else {
                        assert(self.cells@[i] == blank);
                    }
                }
                assert(self.grid() =~= target);
            }
            k2 = k2 + 1;
        }
        proof {
            assert(final(self).grid() =~= Self::lines_deleted(
                g0,
                r as int,
                rc as int,
                old(self).cols,
            ));
        }
    }
    /// Rebuild a row with every split wide pair repaired.
    fn repair_wide_row(row: &Vec<Cell>) -> (r: Vec<Cell>)
        ensures
            r@ == wide_repaired(row@),
    {
        let mut out: Vec<Cell> = Vec::new();
        let mut i: usize = 0;
        while i < row.len()
            invariant
                i <= row.len(),
                out@ =~= wide_repaired(row@).take(i as int),
            decreases row.len() - i,
        {
            let broken = row[i].width == 2 && i + 1 < row.len() && row[i + 1].width != 0;
            if broken {
                out.push(Cell::default());
            } else {
                out.push(row[i]);
            }
            proof {
                assert(wide_repaired(row@).take(i + 1) =~= wide_repaired(row@).take(
                    i as int,
                ).push(wide_repaired(row@)[i as int]));
            }
            i = i + 1;
        }
        proof {
            assert(wide_repaired(row@).take(row@.len() as int) =~= wide_repaired(row@));
        }
        out
    }

    /// Replace row `r` of the grid.
    fn set_row(&mut self, r: usize, row: Vec<Cell>)
        requires
            old(self).wf(),
            r < old(self).grid().len(),
            row@.len() == old(self).cols,
        ensures
            final(self).wf(),
            final(self).same_config(old(self)),
            final(self).cursor == old(self).cursor,
            final(self).scrolled_lines@ == old(self).scrolled_lines@,
            final(self).grid() == old(self).grid().update(r as int, row@),
    {
        let ghost g0 = self.grid();
        let ghost prev_cells = self.cells@;
        proof {
            assert(self.cells@.len() == g0.len());
        }
        let ghost target_row = row@;
        self.cells[r] = row;
        proof {
            let target = g0.update(r as int, target_row);
            assert forall|i: int| 0 <= i < self.grid().len() implies self.grid()[i]
                == target[i] by {
                if i != r {
                    assert(self.cells@[i] == prev_cells[i]);
                    assert(prev_cells.map_values(|x: Vec<Cell>| x@)[i] == prev_cells[i]@);
                }
            }
            assert(self.grid() =~= target);
        }
    }

    /// A row after inserting `m` blank cells at `c`: cells shift right and
    /// the rightmost `m` drop off.
    pub open spec fn chars_inserted(row: Seq<Cell>, c: int, m: int) -> Seq<Cell> {
        row.take(c) + Seq::new(m as nat, |j: int| Cell::default_spec()) + row.subrange(
            c,
            row.len() - m,
        )
    }

    /// Insert `n` blank characters at the cursor: the rest of the line
    /// shifts right and falls off the edge. Clamped to the line.
    pub fn insert_chars(&mut self, n: u16)
        requires
            old(self).wf(),
        ensures
            final(self).wf(),
            final(self).same_config(old(self)),
            final(self).cursor == old(self).cursor,
            final(self).scrolled_lines@ == old(self).scrolled_lines@,
            final(self).grid() == old(self).grid().update(
                old(self).cursor.row as int,
                wide_repaired(
                    Self::chars_inserted(
                        old(self).grid()[old(self).cursor.row as int],
                        old(self).cursor.col as int,
                        vstd::math::min(n as int, old(self).cols - old(self).cursor.col),
                    ),
                ),
            ),
            old(self).wide_wf() ==> final(self).wide_wf(),
    {
        let r = self.cursor.row as usize;
        let c = self.cursor.col as usize;
        let len = self.cols as usize;
        let m = if (n as usize) < len - c {
            n as usize
        } else {
            len - c
        };
        let ghost row0 = self.grid()[r as int];
        proof {
            assert(self.cells@[r as int]@.len() == self.cols);
        }
        let mut row: Vec<Cell> = Vec::new();
        let mut j: usize = 0;
        while j < c
            invariant
                old(self).wf(),
                self == old(self),
                r == old(self).cursor.row,
                c == old(self).cursor.col,
                j <= c,
                c < len,
                len == old(self).cols,
                row0 == self.grid()[r as int],
                self.cells@[r as int]@.len() == len,
                row@ =~= row0.take(j as int),
            decreases c - j,
        {
            let cell = self.cells[r][j];
            row.push(cell);
            proof {
                assert(row@ =~= row0.take(j + 1));
            }
            j = j + 1;
        }
        let mut k: usize = 0;
        while k < m
            invariant
                old(self).wf(),
                self == old(self),
                r == old(self).cursor.row,
                c == old(self).cursor.col,
                k <= m,
                c < len,
                c + m <= len,
                len == old(self).cols,
                row0 == self.grid()[r as int],
                self.cells@[r as int]@.len() == len,
                row@ =~= row0.take(c as int) + Seq::new(
                    k as nat,
                    |q: int| Cell::default_spec(),
                ),
            decreases m - k,
        {
            row.push(Cell::default());
            proof {
                assert(row@ =~= row0.take(c as int) + Seq::new(
                    (k + 1) as nat,
                    |q: int| Cell::default_spec(),
                ));
            }
            k = k + 1;
        }
        let mut j2: usize = c;
        while j2 < len - m
            invariant
                old(self).wf(),
                self == old(self),
                r == old(self).cursor.row,
                c == old(self).cursor.col,
                c <= j2 <= len - m,
                c + m <= len,
                len == old(self).cols,
                row0 == self.grid()[r as int],
                self.cells@[r as int]@.len() == len,
                row@ =~= row0.take(c as int) + Seq::new(m as nat, |q: int| Cell::default_spec())
                    + row0.subrange(c as int, j2 as int),
            decreases len - m - j2,
        {
            let cell = self.cells[r][j2];
            row.push(cell);
            proof {
                assert(row@ =~= row0.take(c as int) + Seq::new(
                    m as nat,
                    |q: int| Cell::default_spec(),
                ) + row0.subrange(c as int, j2 + 1));
            }
            j2 = j2 + 1;
        }
        proof {
            assert(row@ =~= Self::chars_inserted(row0, c as int, m as int));
        }
        let repaired = Self::repair_wide_row(&row);
        proof {
            lemma_wide_repaired(row@);
        }
        self.set_row(r, repaired);
        proof {
            if old(self).wide_wf() {
                assert forall|rr: int|
                    0 <= rr < final(self).grid().len() implies row_wide_ok(
                    #[trigger] final(self).grid()[rr],
                ) by {
                    if rr != r {
                        assert(final(self).grid()[rr] == old(self).grid()[rr]);
                    }
                }
            }
        }
    }

    /// A row after deleting `m` cells at `c`: the rest shifts left and `m`
    /// blank cells appear at the end.
    pub open spec fn chars_deleted(row: Seq<Cell>, c: int, m: int) -> Seq<Cell> {
        row.take(c) + row.subrange(c + m, row.len() as int) + Seq::new(
            m as nat,
            |j: int| Cell::default_spec(),
        )
    }

    /// Delete `n` characters at the cursor: the rest of the line shifts
    /// left and blank cells appear at the end. Clamped to the line.
    pub fn delete_chars(&mut self, n: u16)
        requires
            old(self).wf(),
        ensures
            final(self).wf(),
            final(self).same_config(old(self)),
            final(self).cursor == old(self).cursor,
            final(self).scrolled_lines@ == old(self).scrolled_lines@,
            final(self).grid() == old(self).grid().update(
                old(self).cursor.row as int,
                wide_repaired(
                    Self::chars_deleted(
                        old(self).grid()[old(self).cursor.row as int],
                        old(self).cursor.col as int,
                        vstd::math::min(n as int, old(self).cols - old(self).cursor.col),
                    ),
                ),
            ),
            old(self).wide_wf() ==> final(self).wide_wf(),
    {
        let r = self.cursor.row as usize;
        let c = self.cursor.col as usize;
        let len = self.cols as usize;
        let m = if (n as usize) < len - c {
            n as usize
        } else {
            len - c
        };
        let ghost row0 = self.grid()[r as int];
        proof {
            assert(self.cells@[r as int]@.len() == self.cols);
        }
        let mut row: Vec<Cell> = Vec::new();
        let mut j: usize = 0;
        while j < c
            invariant
                old(self).wf(),
                self == old(self),
                r == old(self).cursor.row,
                c == old(self).cursor.col,
                j <= c,
                c < len,
                len == old(self).cols,
                row0 == self.grid()[r as int],
                self.cells@[r as int]@.len() == len,
                row@ =~= row0.take(j as int),
            decreases c - j,
        {
            let cell = self.cells[r][j];
            row.push(cell);
            proof {
                assert(row@ =~= row0.take(j + 1));
            }
            j = j + 1;
        }
        let mut j2: usize = c + m;
        while j2 < len
            invariant
                old(self).wf(),
                self == old(self),
                r == old(self).cursor.row,
                c == old(self).cursor.col,
                c + m <= j2 <= len,
                c < len,
                len == old(self).cols,
                row0 == self.grid()[r as int],
                self.cells@[r as int]@.len() == len,
                row@ =~= row0.take(c as int) + row0.subrange(c + m, j2 as int),
            decreases len - j2,
        {
            let cell = self.cells[r][j2];
            row.push(cell);
            proof {
                assert(row@ =~= row0.take(c as int) + row0.subrange(c + m, j2 + 1));
            }
            j2 = j2 + 1;
        }
        let mut k: usize = 0;
        while k < m
            invariant
                old(self).wf(),
                self == old(self),
                r == old(self).cursor.row,
                c == old(self).cursor.col,
                k <= m,
                c + m <= len,
                c < len,
                len == old(self).cols,
                row0 == self.grid()[r as int],
                self.cells@[r as int]@.len() == len,
                row@ =~= row0.take(c as int) + row0.subrange(c + m, len as int) + Seq::new(
                    k as nat,
                    |q: int| Cell::default_spec(),
                ),
            decreases m - k,
        {
            row.push(Cell::default());
            proof {
                assert(row@ =~= row0.take(c as int) + row0.subrange(c + m, len as int) + Seq::new(
                    (k + 1) as nat,
                    |q: int| Cell::default_spec(),
                ));
            }
            k = k + 1;
        }
        proof {
            assert(row@ =~= Self::chars_deleted(row0, c as int, m as int));
        }
        let repaired = Self::repair_wide_row(&row);
        proof {
            lemma_wide_repaired(row@);
        }
        self.set_row(r, repaired);
        proof {
            if old(self).wide_wf() {
                assert forall|rr: int|
                    0 <= rr < final(self).grid().len() implies row_wide_ok(
                    #[trigger] final(self).grid()[rr],
                ) by {
                    if rr != r {
                        assert(final(self).grid()[rr] == old(self).grid()[rr]);
                    }
                }
            }
        }
    }

    /// A row after writing character `c` of width `w` with attributes `a`
    /// at column `col`: the cell itself, and a width-0 continuation space
    /// after it when the character is wide and the next cell exists.
    pub open spec fn row_written(row: Seq<Cell>, col: int, c: char, w: u8, a: CellAttributes) -> Seq<
        Cell,
    > {
        let base = if col > 0 && row[col - 1].width == 2 && w != 0 {
            row.update(col - 1, Cell::default_spec())
        } else {
            row
        };
        let written = base.update(col, Cell { character: c, width: w, attrs: a });
        if w == 2 && col + 1 < row.len() {
            written.update(col + 1, Cell { character: ' ', width: 0, attrs: a })
        } else {
            written
        }
    }

    /// Writing a character into a row that satisfies the continuation
    /// invariant leaves it satisfied: the written wide pair is whole, and
    /// an overwritten continuation has its orphaned head blanked.
    pub proof fn lemma_row_written_wide_ok(
        row: Seq<Cell>,
        col: int,
        c: char,
        w: u8,
        a: CellAttributes,
    )
        requires
            row_wide_ok(row),
            0 <= col < row.len(),
        ensures
            row_wide_ok(Self::row_written(row, col, c, w, a)),
    {
        let nr = Self::row_written(row, col, c, w, a);
        assert forall|i: int|
            0 <= i && i + 1 < nr.len() && (#[trigger] nr[i]).width == 2 implies nr[i + 1].width
            == 0 by {
            if i == col {
                assert(w == 2 && col + 1 < row.len());
                assert(nr[col + 1].width == 0);
            } else if i == col - 1 {
                assert(nr[i] == row[i] || nr[i] == Cell::default_spec());
                assert(row[col - 1].width == 2 && w == 0);
                assert(nr[col].width == 0);
            } else if i == col + 1 {
                assert(nr[i] == row[i]);
                assert(row[i + 1].width == 0);
                assert(nr[i + 1] == row[i + 1]);
            } else if i + 1 == col - 1 {
                assert(nr[i] == row[i]);
                assert(row[i + 1].width == 0);
                assert(nr[i + 1] == row[i + 1]);
            } else {
                assert(nr[i] == row[i]);
                assert(row[i + 1].width == 0);
                assert(nr[i + 1] == row[i + 1]);
            }
        }
    }

    /// What writing one character does to the screen, as a relation between
    /// the buffer before and after: well-formedness and the configuration
    /// are kept, the continuation invariant is preserved, scrolled lines are
    /// only appended, and in the two wrap-free regimes the exact cells and
    /// cursor are pinned.
    pub open spec fn put_char_effect(pre: ScreenBuffer, post: ScreenBuffer, ch: char) -> bool {
        &&& post.wf()
        &&& post.same_config(&pre)
        &&& (pre.wide_wf() ==> post.wide_wf())
        &&& pre.scrolled_lines@.is_prefix_of(post.scrolled_lines@)
        &&& ({
            let w = cell_width_of(ch);
            (!(w == 2 && pre.cursor.col + 1 >= pre.cols) && pre.cursor.col + w < pre.cols) ==> {
                &&& post.grid() == pre.grid().update(
                    pre.cursor.row as int,
                    Self::row_written(
                        pre.grid()[pre.cursor.row as int],
                        pre.cursor.col as int,
                        ch,
                        w as u8,
                        pre.current_attrs,
                    ),
                )
                &&& post.cursor.row == pre.cursor.row
                &&& post.cursor.col == pre.cursor.col + w
                &&& post.scrolled_lines@ == pre.scrolled_lines@
            }
        })
        &&& ({
            let w = cell_width_of(ch);
            (w == 2 && pre.cursor.col + 1 >= pre.cols && pre.cursor.row + 1 < pre.rows && pre.cols
                >= 3) ==> {
                &&& post.grid() == pre.grid().update(
                    pre.cursor.row + 1,
                    Self::row_written(pre.grid()[pre.cursor.row + 1], 0, ch, 2u8, pre.current_attrs),
                )
                &&& post.cursor.row == pre.cursor.row + 1
                &&& post.cursor.col == 2
                &&& post.scrolled_lines@ == pre.scrolled_lines@
            }
        })
    }

    /// Write a character at the cursor and advance it, wrapping and
    /// scrolling as needed. A wide character that would not fit on the line
    /// wraps to the next line before being written; a wide character is
    /// followed by a width-0 continuation cell.
    pub fn put_char(&mut self, ch: char)
        requires
            old(self).wf(),
        ensures
            Self::put_char_effect(*old(self), *final(self), ch),
            final(self).wf(),
            final(self).same_config(old(self)),
            old(self).wide_wf() ==> final(self).wide_wf(),
            ({
                let w = cell_width_of(ch);
                // The common case: no wrap before writing and no wrap while
                // advancing. The grid changes only at the written cells and
                // the cursor moves right by the width.
                (!(w == 2 && old(self).cursor.col + 1 >= old(self).cols) && old(self).cursor.col
                    + w < old(self).cols) ==> {
                    &&& final(self).grid() == old(self).grid().update(
                        old(self).cursor.row as int,
                        Self::row_written(
                            old(self).grid()[old(self).cursor.row as int],
                            old(self).cursor.col as int,
                            ch,
                            w as u8,
                            old(self).current_attrs,
                        ),
                    )
                    &&& final(self).cursor.row == old(self).cursor.row
                    &&& final(self).cursor.col == old(self).cursor.col + w
                    &&& final(self).scrolled_lines@ == old(self).scrolled_lines@
                }
            }),
            ({
                let w = cell_width_of(ch);
                // A wide character that would not fit wraps to the start of
                // the next line before being written, when no scroll is
                // needed for the wrap.
                (w == 2 && old(self).cursor.col + 1 >= old(self).cols && old(self).cursor.row + 1
                    < old(self).rows && old(self).cols >= 3) ==> {
                    &&& final(self).grid() == old(self).grid().update(
                        old(self).cursor.row + 1,
                        Self::row_written(
                            old(self).grid()[old(self).cursor.row + 1],
                            0,
                            ch,
                            2u8,
                            old(self).current_attrs,
                        ),
                    )
                    &&& final(self).cursor.row == old(self).cursor.row + 1
                    &&& final(self).cursor.col == 2
                    &&& final(self).scrolled_lines@ == old(self).scrolled_lines@
                }
            }),
    {
        let wopt = char_display_width(ch);
        let w: u8 = match wopt {
            Some(w) => w as u8,
            None => 1,
        };
        let ghost entry = *self;
        if w == 2 && self.cursor.col as u32 + 1 >= self.cols as u32 {
            let needs_scroll = self.cursor.newline(self.rows);
            if needs_scroll {
                self.scroll_up(1);
            }
        }
        let r = self.cursor.row as usize;
        let c = self.cursor.col as usize;
        let ghost before_write = *self;
        if w != 0 && c > 0 {
            let prev = self.get_cell(r, c - 1);
            if prev.width == 2 {
                self.set_cell(r, c - 1, Cell::default());
            }
        }
        let cell = Cell { character: ch, width: w, attrs: self.current_attrs };
        self.set_cell(r, c, cell);
        if w == 2 && c + 1 < self.cols as usize {
            let cont = Cell { character: ' ', width: 0, attrs: self.current_attrs };
            self.set_cell(r, c + 1, cont);
        }
        proof {
            assert(self.grid() =~= before_write.grid().update(
                r as int,
                Self::row_written(
                    before_write.grid()[r as int],
                    c as int,
                    ch,
                    w,
                    before_write.current_attrs,
                ),
            ));
            if entry.wide_wf() {
                Self::lemma_row_written_wide_ok(
                    before_write.grid()[r as int],
                    c as int,
                    ch,
                    w,
                    before_write.current_attrs,
                );
                assert forall|rr: int|
                    0 <= rr < self.grid().len() implies row_wide_ok(
                    #[trigger] self.grid()[rr],
                ) by {
                    if rr != r {
                        assert(self.grid()[rr] == before_write.grid()[rr]);
                    }
                }
                assert(self.wide_wf());
            }
        }
        let needs_scroll = self.cursor.advance_by(w as u16, self.cols, self.rows);
        if needs_scroll {
            self.scroll_up(1);
        }
        proof {
            let w0 = cell_width_of(ch);
            if !(w0 == 2 && entry.cursor.col + 1 >= entry.cols) && entry.cursor.col + w0
                < entry.cols {
                assert(final(self).grid() =~= entry.grid().update(
                    entry.cursor.row as int,
                    Self::row_written(
                        entry.grid()[entry.cursor.row as int],
                        entry.cursor.col as int,
                        ch,
                        w0 as u8,
                        entry.current_attrs,
                    ),
                ));
            }
        }
    }

    /// What entering the alternate buffer does: the grid and cursor are
    /// saved and replaced by a fresh blank grid and cursor; a second switch
    /// changes nothing.
    pub open spec fn enter_alt_effect(pre: ScreenBuffer, post: ScreenBuffer) -> bool {
        &&& post.wf()
        &&& post.rows == pre.rows
        &&& post.cols == pre.cols
        &&& post.current_attrs == pre.current_attrs
        &&& post.title == pre.title
        &&& post.scrolled_lines@ == pre.scrolled_lines@
        &&& post.alternate_active
        &&& (pre.wide_wf() ==> post.wide_wf())
        &&& (pre.alternate_active ==> post == pre)
        &&& (!pre.alternate_active ==> {
            &&& post.main_grid() == pre.grid()
            &&& post.main_cursor == Some(pre.cursor)
            &&& Self::grid_shaped(post.grid(), pre.rows, pre.cols)
            &&& (forall|i: int, j: int|
                0 <= i < pre.rows && 0 <= j < pre.cols ==> #[trigger] post.grid()[i][j]
                    == Cell::default_spec())
            &&& post.cursor.row == 0 && post.cursor.col == 0
        })
    }

    /// What exiting the alternate buffer does: the saved grid and cursor
    /// come back; a second switch changes nothing.
    pub open spec fn exit_alt_effect(pre: ScreenBuffer, post: ScreenBuffer) -> bool {
        &&& post.wf()
        &&& post.rows == pre.rows
        &&& post.cols == pre.cols
        &&& post.current_attrs == pre.current_attrs
        &&& post.title == pre.title
        &&& post.scrolled_lines@ == pre.scrolled_lines@
        &&& !post.alternate_active
        &&& (pre.wide_wf() ==> post.wide_wf())
        &&& (!pre.alternate_active ==> post == pre)
        &&& (pre.alternate_active ==> {
            &&& post.grid() == pre.main_grid()
            &&& post.cursor == pre.main_cursor.unwrap()
        })
    }

    /// Switch to the alternate screen buffer: the grid and cursor are saved
    /// and replaced by a fresh blank grid and cursor. A second switch is a
    /// no-op.
    pub fn enter_alternate_buffer(&mut self)
        requires
            old(self).wf(),
        ensures
            Self::enter_alt_effect(*old(self), *final(self)),
            final(self).wf(),
            final(self).rows == old(self).rows,
            final(self).cols == old(self).cols,
            final(self).current_attrs == old(self).current_attrs,
            final(self).title == old(self).title,
            final(self).scrolled_lines@ == old(self).scrolled_lines@,
            final(self).alternate_active,
            old(self).wide_wf() ==> final(self).wide_wf(),
            old(self).alternate_active ==> *final(self) == *old(self),
            !old(self).alternate_active ==> {
                &&& final(self).main_grid() == old(self).grid()
                &&& final(self).main_cursor == Some(old(self).cursor)
                &&& Self::grid_shaped(final(self).grid(), old(self).rows, old(self).cols)
                &&& forall|i: int, j: int|
                    0 <= i < old(self).rows && 0 <= j < old(self).cols
                        ==> #[trigger] final(self).grid()[i][j] == Cell::default_spec()
                &&& final(self).cursor.row == 0 && final(self).cursor.col == 0
            },
    {
        if self.alternate_active {
            return ;
        }
        let mut fresh = Self::make_blank_grid(self.rows, self.cols);
        std::mem::swap(&mut fresh, &mut self.cells);
        self.main_buffer = Some(fresh);
        let mut fresh_cursor = CursorState::new();
        std::mem::swap(&mut fresh_cursor, &mut self.cursor);
        self.main_cursor = Some(fresh_cursor);
        self.alternate_active = true;
    }

    /// Switch back to the main screen buffer, restoring the saved grid and
    /// cursor. A second switch is a no-op.
    pub fn exit_alternate_buffer(&mut self)
        requires
            old(self).wf(),
        ensures
            Self::exit_alt_effect(*old(self), *final(self)),
            final(self).wf(),
            final(self).rows == old(self).rows,
            final(self).cols == old(self).cols,
            final(self).current_attrs == old(self).current_attrs,
            final(self).title == old(self).title,
            final(self).scrolled_lines@ == old(self).scrolled_lines@,
            !final(self).alternate_active,
            old(self).wide_wf() ==> final(self).wide_wf(),
            !old(self).alternate_active ==> *final(self) == *old(self),
            old(self).alternate_active ==> {
                &&& final(self).grid() == old(self).main_grid()
                &&& final(self).cursor == old(self).main_cursor.unwrap()
            },
    {
        if !self.alternate_active {
            return ;
        }
        self.alternate_active = false;
        let mut taken: Option<Vec<Vec<Cell>>> = None;
        std::mem::swap(&mut taken, &mut self.main_buffer);
        if let Some(buffer) = taken {
            self.cells = buffer;
        }
        let mut taken_cursor: Option<CursorState> = None;
        std::mem::swap(&mut taken_cursor, &mut self.main_cursor);
        if let Some(cursor) = taken_cursor {
            self.cursor = cursor;
        }
    }

    /// Render the visible screen as text: each row's characters with
    /// continuation cells skipped and trailing spaces trimmed, trailing
    /// empty lines dropped, lines joined with newlines.
    ///
    /// Deliberately, the raw format does not reconstruct ANSI attribute
    /// sequences from the cells: both formats yield the same visible
    /// characters, and the contract says so per format.
    pub fn render(&self, format: OutputFormat) -> (r: String)
        requires
            self.wf(),
        ensures
            format == OutputFormat::Plain ==> r@ == render_spec(self.grid()),
            format == OutputFormat::Raw ==> r@ == render_spec(self.grid()),
    {
        let _ = format;
        let ghost g = self.grid();
        let mut lines: Vec<Vec<char>> = Vec::new();
        let mut i: usize = 0;
        while i < self.cells.len()
            invariant
                self.wf(),
                g == self.grid(),
                i <= g.len(),
                lines@.len() == i,
                forall|k: int|
                    0 <= k < i ==> (#[trigger] lines@[k])@ == trim_trailing_spaces(
                        visible_chars(g[k]),
                    ),
            decreases self.cells@.len() - i,
        {
            let ghost row = g[i as int];
            proof {
                assert(self.cells@[i as int]@ == row);
            }
            let rowlen = self.cells[i].len();
            let mut vis: Vec<char> = Vec::new();
            let mut j: usize = 0;
            proof {
                assert(row.take(0) =~= Seq::<Cell>::empty());
            }
            while j < rowlen
                invariant
                    self.wf(),
                    g == self.grid(),
                    i < g.len(),
                    row == g[i as int],
                    self.cells@[i as int]@ == row,
                    rowlen == row.len(),
                    j <= rowlen,
                    vis@ == visible_chars(row.take(j as int)),
                decreases rowlen - j,
            {
                let cell = self.cells[i][j];
                proof {
                    assert(row.take(j + 1).drop_last() =~= row.take(j as int));
                    assert(row.take(j + 1).last() == row[j as int]);
                }
                if cell.width > 0 {
                    vis.push(cell.character);
                }
                j = j + 1;
            }
            proof {
                assert(row.take(row.len() as int) =~= row);
            }
            let mut done = false;
            while !done
                invariant
                    trim_trailing_spaces(vis@) == trim_trailing_spaces(visible_chars(row)),
                    done ==> trim_trailing_spaces(vis@) == vis@,
                decreases vis@.len() + (if done { 0int } else { 1int }),
            {
                if vis.len() > 0 && vis[vis.len() - 1] == ' ' {
                    let _ = vis.pop();
                } else {
                    done = true;
                }
            }
            lines.push(vis);
            i = i + 1;
        }
        let ghost rendered = g.map_values(|row: Seq<Cell>| trim_trailing_spaces(visible_chars(row)));
        proof {
            assert(lines@.map_values(|v: Vec<char>| v@) =~= rendered);
        }
        let mut done2 = false;
        while !done2
            invariant
                trim_trailing_empty(lines@.map_values(|v: Vec<char>| v@)) == trim_trailing_empty(
                    rendered,
                ),
                done2 ==> trim_trailing_empty(lines@.map_values(|v: Vec<char>| v@)) == lines@
                    .map_values(|v: Vec<char>| v@),
            decreases lines@.len() + (if done2 { 0int } else { 1int }),
        {
            if lines.len() > 0 && lines[lines.len() - 1].len() == 0 {
                let ghost prev = lines@.map_values(|v: Vec<char>| v@);
                let _ = lines.pop();
                proof {
                    assert(lines@.map_values(|v: Vec<char>| v@) =~= prev.drop_last());
                }
            } else {
                done2 = true;
            }
        }
        let ghost kept = trim_trailing_empty(rendered);
        let mut out: Vec<char> = Vec::new();
        let mut i2: usize = 0;
        proof {
            assert(lines@.map_values(|v: Vec<char>| v@) == kept);
            assert(out@ =~= join_lines(kept.take(0)));
        }
        while i2 < lines.len()
            invariant
                lines@.map_values(|v: Vec<char>| v@) == kept,
                i2 <= lines@.len(),
                out@ == join_lines(kept.take(i2 as int)),
            decreases lines@.len() - i2,
        {
            if i2 > 0 {
                out.push('\n');
            }
            let ghost line = kept[i2 as int];
            let linelen = lines[i2].len();
            let mut j2: usize = 0;
            while j2 < linelen
                invariant
                    lines@.map_values(|v: Vec<char>| v@) == kept,
                    i2 < lines@.len(),
                    line == kept[i2 as int],
                    linelen == line.len(),
                    j2 <= linelen,
                    out@ == join_lines(kept.take(i2 as int)) + (if i2 > 0 {
                        seq!['\n']
                    } else {
                        Seq::<char>::empty()
                    }) + line.take(j2 as int),
                decreases linelen - j2,
            {
                let ch = lines[i2][j2];
                proof {
                    assert(lines@.map_values(|v: Vec<char>| v@)[i2 as int] == lines@[i2 as int]@);
                    assert(line.take(j2 + 1) =~= line.take(j2 as int).push(line[j2 as int]));
                }
                out.push(ch);
                j2 = j2 + 1;
            }
            proof {
                assert(line.take(line.len() as int) =~= line);
                assert(kept.take(i2 + 1).drop_last() =~= kept.take(i2 as int));
                assert(kept.take(i2 + 1).last() == kept[i2 as int]);
                if i2 == 0 {
                    assert(join_lines(kept.take(1)) == kept[0]);
                    assert(out@ =~= join_lines(kept.take(1)));
                } else {
                    assert(out@ =~= join_lines(kept.take(i2 + 1)));
                }
            }
            i2 = i2 + 1;
        }
        proof {
            assert(kept.take(kept.len() as int) =~= kept);
        }
        chars_to_string(&out)
    }

    /// A fresh grid of blank cells.
    fn make_blank_grid(rows: u16, cols: u16) -> (g: Vec<Vec<Cell>>)
        ensures
            g@.len() == rows,
            forall|i: int| 0 <= i < rows ==> (#[trigger] g@[i])@.len() == cols,
            forall|i: int, j: int|
                0 <= i < rows && 0 <= j < cols ==> #[trigger] g@[i]@[j] == Cell::default_spec(),
    {
        let mut cells: Vec<Vec<Cell>> = Vec::new();
        let mut i: u16 = 0;
        while i < rows
            invariant
                i <= rows,
                cells@.len() == i,
                forall|a: int| 0 <= a < i ==> (#[trigger] cells@[a])@.len() == cols,
                forall|a: int, b: int|
                    0 <= a < i && 0 <= b < cols ==> #[trigger] cells@[a]@[b]
                        == Cell::default_spec(),
            decreases rows - i,
        {
            cells.push(Self::make_blank_row(cols));
            i = i + 1;
        }
        cells
    }
}

/// The characters of a row that occupy a column: continuation cells are
/// skipped.
pub open spec fn visible_chars(row: Seq<Cell>) -> Seq<char>
    decreases row.len(),
{
    if row.len() == 0 {
        Seq::empty()
    } else {
        visible_chars(row.drop_last()) + (if row.last().width > 0 {
            seq![row.last().character]
        } else {
            Seq::empty()
        })
    }
}

/// `s` without its trailing spaces.
pub open spec fn trim_trailing_spaces(s: Seq<char>) -> Seq<char>
    decreases s.len(),
{
    if s.len() > 0 && s.last() == ' ' {
        trim_trailing_spaces(s.drop_last())
    } else {
        s
    }
}

/// `lines` without its trailing empty lines.
pub open spec fn trim_trailing_empty(lines: Seq<Seq<char>>) -> Seq<Seq<char>>
    decreases lines.len(),
{
    if lines.len() > 0 && lines.last().len() == 0 {
        trim_trailing_empty(lines.drop_last())
    } else {
        lines
    }
}

/// `lines` joined with newlines.
pub open spec fn join_lines(lines: Seq<Seq<char>>) -> Seq<char>
    decreases lines.len(),
{
    if lines.len() == 0 {
        Seq::empty()
    } else if lines.len() == 1 {
        lines[0]
    } else {
        join_lines(lines.drop_last()) + seq!['\n'] + lines.last()
    }
}

/// What `render` returns for a grid: each row's visible characters with
/// trailing spaces trimmed, trailing empty lines dropped, the rest joined
/// with newlines.
pub open spec fn render_spec(g: Seq<Seq<Cell>>) -> Seq<char> {
    join_lines(
        trim_trailing_empty(
            g.map_values(|row: Seq<Cell>| trim_trailing_spaces(visible_chars(row))),
        ),
    )
}

/// The wide-character continuation law at the written cell: writing a wide
/// character leaves a width-0 cell right after it whenever a next cell
/// exists on the line.
pub proof fn lemma_wide_continuation(row: Seq<Cell>, col: int, c: char, a: CellAttributes)
    requires
        0 <= col < row.len(),
        cell_width_of(c) == 2,
    ensures
        ({
            let written = ScreenBuffer::row_written(row, col, c, 2u8, a);
            col + 1 < row.len() ==> written[col].width == 2 && written[col + 1].width == 0
        }),
{
}

/// Alternate-buffer isolation: entering the alternate buffer, mutating it
/// in any way that leaves the saved state and the scrolled queue alone (as
/// every screen operation does while the alternate buffer is active), and
/// exiting restores the saved grid and cursor, with the scrolled queue
/// unchanged.
pub proof fn lemma_alternate_isolation(
    s0: ScreenBuffer,
    s1: ScreenBuffer,
    s2: ScreenBuffer,
    s3: ScreenBuffer,
)
    requires
        s0.wf(),
        !s0.alternate_active,
        // s1 is s0 after entering the alternate buffer
        s1.main_grid() == s0.grid(),
        s1.main_cursor == Some(s0.cursor),
        s1.alternate_active,
        s1.scrolled_lines@ == s0.scrolled_lines@,
        // s2 is s1 after any operations that keep the alternate buffer
        // active: they preserve the saved state and the scrolled queue
        s2.main_buffer == s1.main_buffer,
        s2.main_cursor == s1.main_cursor,
        s2.scrolled_lines@ == s1.scrolled_lines@,
        s2.alternate_active,
        // s3 is s2 after exiting the alternate buffer
        s3.grid() == s2.main_grid(),
        s3.cursor == s2.main_cursor.unwrap(),
        s3.scrolled_lines@ == s2.scrolled_lines@,
    ensures
        s3.grid() == s0.grid(),
        s3.cursor == s0.cursor,
        s3.scrolled_lines@ == s0.scrolled_lines@,
{
    assert(s2.main_grid() == s1.main_grid());
}

/// Build the scrollback line of a row: its characters, continuation cells
/// included, as both the plain and the raw text.
fn row_to_line(row: &Vec<Cell>) -> (line: ScrollbackLine)
    ensures
        line.plain@ == row_chars(row@),
        line.raw@ == row_chars(row@),
{
    let mut cs: Vec<char> = Vec::new();
    let mut j: usize = 0;
    while j < row.len()
        invariant
            j <= row.len(),
            cs@ =~= row_chars(row@.subrange(0, j as int)),
        decreases row.len() - j,
    {
        cs.push(row[j].character);
        proof {
            assert(row_chars(row@.subrange(0, j + 1)) =~= row_chars(row@.subrange(0, j as int)).push(
                row@[j as int].character,
            ));
        }
        j = j + 1;
    }
    proof {
        assert(row@.subrange(0, row@.len() as int) =~= row@);
    }
    let plain = chars_to_string(&cs);
    let raw = chars_to_string(&cs);
    ScrollbackLine { plain, raw }
}

} // verus!
