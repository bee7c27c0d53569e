//! Cursor state within the terminal screen.

use vstd::prelude::*;

use crate::types::CursorPosition;
use vstd::math::max;
use vstd::math::min;

verus! {

/// Cursor state: position, visibility, and one saved position.
#[derive(Debug, Clone)]
pub struct CursorState {
    /// Current row position (0-indexed).
    pub row: u16,
    /// Current column position (0-indexed).
    pub col: u16,
    /// Whether the cursor is visible.
    pub visible: bool,
    /// Saved cursor position, for save/restore.
    pub saved: Option<(u16, u16)>,
}

impl CursorState {
    /// Whether the cursor lies inside a grid of `rows x cols`.
    pub open spec fn in_bounds(&self, rows: u16, cols: u16) -> bool {
        self.row < rows && self.col < cols
    }

    /// Whether the saved position, if any, lies inside a grid of
    /// `rows x cols`.
    pub open spec fn saved_in_bounds(&self, rows: u16, cols: u16) -> bool {
        match self.saved {
            Some((r, c)) => r < rows && c < cols,
            None => true,
        }
    }

    /// A fresh cursor at the origin, visible, with nothing saved.
    pub fn new() -> (c: CursorState)
        ensures
            c.row == 0,
            c.col == 0,
            c.visible,
            c.saved is None,
    {
        CursorState { row: 0, col: 0, visible: true, saved: None }
    }

    /// The current position.
    pub fn position(&self) -> (p: CursorPosition)
        ensures
            p.row == self.row,
            p.col == self.col,
    {
        CursorPosition { row: self.row, col: self.col }
    }

    /// Move to an absolute position, clamped to the grid.
    pub fn move_to(&mut self, row: u16, col: u16, max_rows: u16, max_cols: u16)
        ensures
            final(self).row == if max_rows == 0 { 0u16 } else { min(row as int, max_rows - 1) as u16 },
            final(self).col == if max_cols == 0 { 0u16 } else { min(col as int, max_cols - 1) as u16 },
            final(self).visible == old(self).visible,
            final(self).saved == old(self).saved,
    {
        self.row = ucmin(row, usat_sub(max_rows, 1));
        self.col = ucmin(col, usat_sub(max_cols, 1));
    }

    /// Move up by `n` rows, stopping at the top.
    pub fn move_up(&mut self, n: u16)
        ensures
            final(self).row == max(old(self).row - n, 0) as u16,
            final(self).col == old(self).col,
            final(self).visible == old(self).visible,
            final(self).saved == old(self).saved,
    {
        self.row = usat_sub(self.row, n);
    }

    /// Move down by `n` rows, stopping at the last row.
    pub fn move_down(&mut self, n: u16, max_rows: u16)
        ensures
            final(self).row == if max_rows == 0 { 0u16 } else {
                min(old(self).row + n, max_rows - 1) as u16
            },
            final(self).col == old(self).col,
            final(self).visible == old(self).visible,
            final(self).saved == old(self).saved,
    {
        let sum: u32 = self.row as u32 + n as u32;
        let cap: u32 = usat_sub(max_rows, 1) as u32;
        self.row = if sum < cap { sum as u16 } else { cap as u16 };
    }

    /// Move left by `n` columns, stopping at the first column.
    pub fn move_left(&mut self, n: u16)
        ensures
            final(self).col == max(old(self).col - n, 0) as u16,
            final(self).row == old(self).row,
            final(self).visible == old(self).visible,
            final(self).saved == old(self).saved,
    {
        self.col = usat_sub(self.col, n);
    }

    /// Move right by `n` columns, stopping at the last column.
    pub fn move_right(&mut self, n: u16, max_cols: u16)
        ensures
            final(self).col == if max_cols == 0 { 0u16 } else {
                min(old(self).col + n, max_cols - 1) as u16
            },
            final(self).row == old(self).row,
            final(self).visible == old(self).visible,
            final(self).saved == old(self).saved,
    {
        let sum: u32 = self.col as u32 + n as u32;
        let cap: u32 = usat_sub(max_cols, 1) as u32;
        self.col = if sum < cap { sum as u16 } else { cap as u16 };
    }

    /// Move to the beginning of the line.
    pub fn carriage_return(&mut self)
        ensures
            final(self).col == 0,
            final(self).row == old(self).row,
            final(self).visible == old(self).visible,
            final(self).saved == old(self).saved,
    {
        self.col = 0;
    }

    /// Move to the beginning of the next line. Returns true when the screen
    /// must scroll because the cursor was on the last row.
    pub fn newline(&mut self, max_rows: u16) -> (scroll: bool)
        ensures
            final(self).col == 0,
            scroll == (old(self).row + 1 >= max_rows),
            final(self).row == if scroll { old(self).row } else { (old(self).row + 1) as u16 },
            final(self).visible == old(self).visible,
            final(self).saved == old(self).saved,
    {
        self.col = 0;
        if self.row as u32 + 1 >= max_rows as u32 {
            true
        } else {
            self.row = self.row + 1;
            false
        }
    }

    /// Move down one row without a carriage return. Returns true when the
    /// screen must scroll because the cursor was on the last row.
    pub fn line_feed(&mut self, max_rows: u16) -> (scroll: bool)
        ensures
            scroll == (old(self).row + 1 >= max_rows),
            final(self).row == if scroll { old(self).row } else { (old(self).row + 1) as u16 },
            final(self).col == old(self).col,
            final(self).visible == old(self).visible,
            final(self).saved == old(self).saved,
    {
        if self.row as u32 + 1 >= max_rows as u32 {
            true
        } else {
            self.row = self.row + 1;
            false
        }
    }

    /// Advance by one column, wrapping to the next line at the right edge.
    /// Returns true when the wrap requires a scroll.
    pub fn advance(&mut self, max_cols: u16, max_rows: u16) -> (scroll: bool)
        requires
            old(self).col < 0xFFFF,
        ensures
            old(self).col + 1 < max_cols ==> {
                &&& !scroll
                &&& final(self).col == old(self).col + 1
                &&& final(self).row == old(self).row
            },
            old(self).col + 1 >= max_cols ==> {
                &&& final(self).col == 0
                &&& scroll == (old(self).row + 1 >= max_rows)
                &&& final(self).row == if scroll { old(self).row } else { (old(self).row + 1) as u16 }
            },
            final(self).visible == old(self).visible,
            final(self).saved == old(self).saved,
    {
        self.col = self.col + 1;
        if self.col >= max_cols {
            self.col = 0;
            self.line_feed(max_rows)
        } else {
            false
        }
    }

    /// What one advance step does: the column moves right, wrapping to the
    /// start of the next line at the right edge, and a wrap on the last row
    /// asks for a scroll instead of moving down.
    pub open spec fn advance_step(c: CursorState, max_cols: u16, max_rows: u16) -> (
        CursorState,
        bool,
    ) {
        if c.col + 1 < max_cols {
            (CursorState { col: (c.col + 1) as u16, ..c }, false)
        } else {
            let scroll = c.row + 1 >= max_rows;
            (
                CursorState {
                    col: 0,
                    row: if scroll {
                        c.row
                    } else {
                        (c.row + 1) as u16
                    },
                    ..c
                },
                scroll,
            )
        }
    }

    /// `advance` folded `width` times: the cursor after the steps, and
    /// whether any step asked for a scroll.
    pub open spec fn advance_fold(c: CursorState, width: int, max_cols: u16, max_rows: u16) -> (
        CursorState,
        bool,
    )
        decreases width,
    {
        if width <= 0 {
            (c, false)
        } else {
            let (c1, s1) = Self::advance_step(c, max_cols, max_rows);
            let (c2, s2) = Self::advance_fold(c1, width - 1, max_cols, max_rows);
            (c2, s1 || s2)
        }
    }

    /// A fold of `w + 1` steps is a fold of `w` steps followed by one step.
    proof fn lemma_advance_fold_snoc(c: CursorState, width: int, max_cols: u16, max_rows: u16)
        requires
            width >= 0,
        ensures
            ({
                let (c1, s1) = Self::advance_fold(c, width, max_cols, max_rows);
                let (c2, s2) = Self::advance_step(c1, max_cols, max_rows);
                Self::advance_fold(c, width + 1, max_cols, max_rows) == (c2, s1 || s2)
            }),
        decreases width,
    {
        if width > 0 {
            let (cm, sm) = Self::advance_step(c, max_cols, max_rows);
            Self::lemma_advance_fold_snoc(cm, width - 1, max_cols, max_rows);
            let (c1, s1) = Self::advance_fold(c, width, max_cols, max_rows);
            let (cm1, sm1) = Self::advance_fold(cm, width - 1, max_cols, max_rows);
            assert(c1 == cm1 && s1 == (sm || sm1));
            let (c2, s2) = Self::advance_step(c1, max_cols, max_rows);
            assert(Self::advance_fold(cm, width, max_cols, max_rows) == (c2, sm1 || s2));
            assert(Self::advance_fold(c, width + 1, max_cols, max_rows) == (c2, sm || (sm1
                || s2)));
        } else {
            let (c2, s2) = Self::advance_step(c, max_cols, max_rows);
            assert(Self::advance_fold(c, 0, max_cols, max_rows) == (c, false));
            let (cm, sm) = Self::advance_step(c, max_cols, max_rows);
            assert(Self::advance_fold(cm, 0, max_cols, max_rows) == (cm, false));
            assert(Self::advance_fold(c, 1, max_cols, max_rows) == (cm, sm || false));
            assert(sm || false == sm);
        }
    }

    /// Advance by `width` columns, one column at a time, wrapping as needed.
    /// Returns exactly what folding `advance` `width` times returns: true
    /// when any wrap required a scroll.
    pub fn advance_by(&mut self, width: u16, max_cols: u16, max_rows: u16) -> (scroll: bool)
        requires
            old(self).col < max_cols,
        ensures
            (*final(self), scroll) == Self::advance_fold(
                *old(self),
                width as int,
                max_cols,
                max_rows,
            ),
            final(self).col < max_cols,
            max_rows > 0 && old(self).row < max_rows ==> final(self).row < max_rows,
            final(self).visible == old(self).visible,
            final(self).saved == old(self).saved,
            old(self).col + width < max_cols ==> !scroll && final(self).col == old(self).col
                + width && final(self).row == old(self).row,
    {
        let mut needs_scroll = false;
        let mut i: u16 = 0;
        while i < width
            invariant
                i <= width,
                self.col < max_cols,
                max_rows > 0 && old(self).row < max_rows ==> self.row < max_rows,
                self.visible == old(self).visible,
                self.saved == old(self).saved,
                old(self).col + width < max_cols ==> !needs_scroll && self.col == old(self).col
                    + i && self.row == old(self).row,
                (*self, needs_scroll) == Self::advance_fold(*old(self), i as int, max_cols, max_rows),
            decreases width - i,
        {
            let ghost before = *self;
            let ghost scrolled_so_far = needs_scroll;
            if self.advance(max_cols, max_rows) {
                needs_scroll = true;
            }
            proof {
                assert((*self, needs_scroll != scrolled_so_far && needs_scroll || needs_scroll
                    && scrolled_so_far) == (*self, needs_scroll));
                assert(Self::advance_step(before, max_cols, max_rows).0 == *self);
                Self::lemma_advance_fold_snoc(*old(self), i as int, max_cols, max_rows);
            }
            i = i + 1;
        }
        needs_scroll
    }

    /// Save the current position.
    pub fn save(&mut self)
        ensures
            final(self).saved == Some((old(self).row, old(self).col)),
            final(self).row == old(self).row,
            final(self).col == old(self).col,
            final(self).visible == old(self).visible,
    {
        self.saved = Some((self.row, self.col));
    }

    /// Restore the saved position, if one was saved.
    pub fn restore(&mut self)
        ensures
            match old(self).saved {
                Some((r, c)) => final(self).row == r && final(self).col == c,
                None => final(self).row == old(self).row && final(self).col == old(self).col,
            },
            final(self).visible == old(self).visible,
            final(self).saved == old(self).saved,
    {
        if let Some((row, col)) = self.saved {
            self.row = row;
            self.col = col;
        }
    }

    /// Move to a column given 1-indexed, clamped to the grid.
    pub fn move_to_column(&mut self, col: u16, max_cols: u16)
        ensures
            final(self).col == if max_cols == 0 { 0u16 } else {
                min(max(col - 1, 0), max_cols - 1) as u16
            },
            final(self).row == old(self).row,
            final(self).visible == old(self).visible,
            final(self).saved == old(self).saved,
    {
        self.col = ucmin(usat_sub(col, 1), usat_sub(max_cols, 1));
    }

    /// Move to a row given 1-indexed, clamped to the grid.
    pub fn move_to_row(&mut self, row: u16, max_rows: u16)
        ensures
            final(self).row == if max_rows == 0 { 0u16 } else {
                min(max(row - 1, 0), max_rows - 1) as u16
            },
            final(self).col == old(self).col,
            final(self).visible == old(self).visible,
            final(self).saved == old(self).saved,
    {
        self.row = ucmin(usat_sub(row, 1), usat_sub(max_rows, 1));
    }
}

impl Default for CursorState {
    fn default() -> (c: CursorState)
        ensures
            c.row == 0,
            c.col == 0,
            c.visible,
            c.saved is None,
    {
        CursorState::new()
    }
}

/// Saturating subtraction on u16.
pub fn usat_sub(a: u16, b: u16) -> (r: u16)
    ensures
        r == max(a - b, 0),
{
    if a >= b {
        a - b
    } else {
        0
    }
}

/// Minimum of two u16 values.
pub fn ucmin(a: u16, b: u16) -> (r: u16)
    ensures
        r == min(a as int, b as int),
{
    if a < b {
        a
    } else {
        b
    }
}

} // verus!
