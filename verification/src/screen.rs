//! The screen buffer: a fixed `width * height` grid of character cells in
//! row-major order, with a cursor.  All mutation primitives of the
//! escape-sequence interpreter live here; the byte-stream state machine
//! that drives them is in `interp`.
//!
//! The cursor column ranges over `0 ..= width`: a column equal to `width`
//! records a pending line wrap (the next printed character moves to the
//! start of the following row).  Observers see the column clamped into
//! `0 .. width`.

use vstd::prelude::*;

use crate::text::chars_to_string;

verus! {

/// States of the escape-sequence scanner.
#[derive(Clone, Copy, PartialEq, Eq, Structural, Debug)]
pub enum ScanState {
    /// Ordinary bytes: printables are written, C0 controls act.
    Ground,
    /// An escape byte was seen; deciding the kind of sequence.
    Escape,
    /// Inside a control sequence, collecting numeric parameters.
    Csi,
}

/// The most parameters a control sequence may carry; further ones are
/// discarded.
pub const MAX_CSI_PARAMS: usize = 16;

/// The largest value a single numeric parameter may take; digits beyond
/// it saturate.
pub const MAX_CSI_PARAM_VALUE: u16 = 65535;

/// Mathematical model of a terminal: the grid, the cursor, and the
/// scanner state with its pending parameters.
#[verifier::ext_equal]
pub ghost struct TermView {
    pub width: nat,
    pub height: nat,
    /// Row-major cell contents, length exactly `width * height`.
    pub cells: Seq<char>,
    /// Cursor column, `0 ..= width`; `width` means a wrap is pending.
    pub x: nat,
    /// Cursor row, `0 .. height`.
    pub y: nat,
    pub scan: ScanState,
    /// Completed numeric parameters of the sequence being collected.
    pub params: Seq<u16>,
    /// Value of the parameter currently being collected.
    pub cur: u16,
    /// Whether any digit of the current parameter was seen.
    pub cur_set: bool,
}

/// Well-formedness of a terminal model.
pub open spec fn wf(v: TermView) -> bool {
    &&& 1 <= v.width
    &&& 1 <= v.height
    &&& v.width * v.height <= usize::MAX
    &&& v.cells.len() == v.width * v.height
    &&& v.x <= v.width
    &&& v.y < v.height
    &&& v.params.len() <= MAX_CSI_PARAMS
}

/// `n` blank cells.
pub open spec fn blank_cells(n: nat) -> Seq<char> {
    Seq::new(n, |i: int| ' ')
}

/// The smaller of two naturals.
pub open spec fn nat_min(a: nat, b: nat) -> nat {
    if a <= b {
        a
    } else {
        b
    }
}

/// `a - b`, stopping at zero.
pub open spec fn nat_sub(a: nat, b: nat) -> nat {
    if b <= a {
        (a - b) as nat
    } else {
        0
    }
}

/// The cells with positions `a <= i < b` made blank.
pub open spec fn clear_range(cells: Seq<char>, a: int, b: int) -> Seq<char> {
    Seq::new(cells.len(), |i: int| if a <= i < b { ' ' } else { cells[i] })
}

/// The grid scrolled up one row: the top row is discarded and a blank
/// row appears at the bottom.
pub open spec fn scrolled_cells(v: TermView) -> Seq<char> {
    v.cells.subrange(v.width as int, v.cells.len() as int) + blank_cells(v.width)
}

/// Effect of a full clear: every cell blank and the cursor at the origin.
pub open spec fn clear_screen_spec(v: TermView) -> TermView {
    TermView { cells: blank_cells(v.width * v.height), x: 0, y: 0, ..v }
}

/// Effect of an absolute cursor move to (`row`, `col`), each clamped
/// into bounds.
pub open spec fn move_cursor_spec(v: TermView, row: nat, col: nat) -> TermView {
    TermView { y: nat_min(row, (v.height - 1) as nat), x: nat_min(col, (v.width - 1) as nat), ..v }
}

/// The column an observer sees: the pending-wrap column `width` is
/// clamped to the last column.
pub open spec fn cursor_col(v: TermView) -> nat {
    nat_min(v.x, (v.width - 1) as nat)
}

/// Bounds inside a `w * h` row-major grid.  Nonlinear facts used by the
/// executable code to justify its index arithmetic.
pub proof fn lemma_grid_bounds(x: nat, y: nat, w: nat, h: nat)
    by (nonlinear_arith)
    requires
        x <= w,
        y < h,
        1 <= w,
        1 <= h,
    ensures
        y * w + x <= w * h,
        y * w + w <= w * h,
        x < w ==> y * w + x < w * h,
        w <= w * h,
        h <= w * h,
{
}

/// Effect of erase-in-line: mode 0 clears from the cursor to the end of
/// the row, mode 1 from the start of the row through the cursor, mode 2
/// the whole row; other modes do nothing.
pub open spec fn erase_line_spec(v: TermView, mode: nat) -> TermView {
    let rs = v.y * v.width;
    let re = v.y * v.width + v.width;
    if mode == 0 {
        TermView { cells: clear_range(v.cells, (rs + v.x) as int, re as int), ..v }
    } else if mode == 1 {
        TermView {
            cells: clear_range(
                v.cells,
                rs as int,
                if v.x < v.width {
                    (rs + v.x + 1) as int
                } else {
                    re as int
                },
            ),
            ..v
        }
    } else if mode == 2 {
        TermView { cells: clear_range(v.cells, rs as int, re as int), ..v }
    } else {
        v
    }
}

/// Effect of erase-in-display: mode 0 clears from the cursor to the end
/// of the buffer, mode 1 from the start of the buffer through the
/// cursor, modes 2 and 3 the whole buffer with the cursor reset to the
/// origin; other modes do nothing.
pub open spec fn erase_display_spec(v: TermView, mode: nat) -> TermView {
    let pos = v.y * v.width + v.x;
    let len = v.cells.len();
    if mode == 0 {
        TermView { cells: clear_range(v.cells, pos as int, len as int), ..v }
    } else if mode == 1 {
        TermView {
            cells: clear_range(
                v.cells,
                0,
                if pos < len {
                    (pos + 1) as int
                } else {
                    len as int
                },
            ),
            ..v
        }
    } else if mode == 2 || mode == 3 {
        clear_screen_spec(v)
    } else {
        v
    }
}

/// The cursor after a pending wrap is honoured: column `width` becomes
/// column 0 of the next row, scrolling when already on the last row.
pub open spec fn wrap_spec(v: TermView) -> TermView {
    if v.x >= v.width {
        if v.y + 1 >= v.height {
            TermView { x: 0, y: (v.height - 1) as nat, cells: scrolled_cells(v), ..v }
        } else {
            TermView { x: 0, y: v.y + 1, ..v }
        }
    } else {
        v
    }
}

/// Effect of printing one character: honour a pending wrap, write the
/// character at the cursor cell, then advance the column.
pub open spec fn print_spec(v: TermView, c: char) -> TermView {
    let v1 = wrap_spec(v);
    TermView { cells: v1.cells.update((v1.y * v1.width + v1.x) as int, c), x: v1.x + 1, ..v1 }
}

/// Effect of a line feed: down one row, scrolling at the bottom.
pub open spec fn line_feed_spec(v: TermView) -> TermView {
    if v.y + 1 >= v.height {
        TermView { cells: scrolled_cells(v), ..v }
    } else {
        TermView { y: v.y + 1, ..v }
    }
}

/// Effect of one C0 control byte: carriage return, line feed, backspace
/// and form feed act; every other control byte is discarded.
pub open spec fn ctrl_spec(v: TermView, b: u8) -> TermView {
    if b == 0x0d {
        TermView { x: 0, ..v }
    } else if b == 0x0a {
        line_feed_spec(v)
    } else if b == 0x08 {
        TermView { x: nat_sub(v.x, 1), ..v }
    } else if b == 0x0c {
        clear_screen_spec(v)
    } else {
        v
    }
}

/// One row of the grid as text.
pub open spec fn row_text(cells: Seq<char>, w: nat, r: nat) -> Seq<char> {
    cells.subrange((r * w) as int, (r * w + w) as int)
}

/// The first `k` rows of the grid as text, each row followed by a
/// newline.
pub open spec fn rows_text(cells: Seq<char>, w: nat, k: nat) -> Seq<char>
    decreases k,
{
    if k == 0 {
        Seq::empty()
    } else {
        rows_text(cells, w, (k - 1) as nat) + row_text(cells, w, (k - 1) as nat) + seq!['\n']
    }
}

/// The whole screen rendered as `height` lines of `width` characters,
/// each line terminated by a newline.
pub open spec fn screen_text(v: TermView) -> Seq<char> {
    rows_text(v.cells, v.width, v.height)
}

pub struct VteTerminal {
    pub screen: Vec<char>,
    pub cursor_x: usize,
    pub cursor_y: usize,
    pub width: usize,
    pub height: usize,
    pub scan: ScanState,
    pub params: Vec<u16>,
    pub cur: u16,
    pub cur_set: bool,
}

impl View for VteTerminal {
    type V = TermView;

    open spec fn view(&self) -> TermView {
        TermView {
            width: self.width as nat,
            height: self.height as nat,
            cells: self.screen@,
            x: self.cursor_x as nat,
            y: self.cursor_y as nat,
            scan: self.scan,
            params: self.params@,
            cur: self.cur,
            cur_set: self.cur_set,
        }
    }
}

impl VteTerminal {
    /// A blank terminal of the given size with the cursor at the origin.
    pub fn new(width: usize, height: usize) -> (t: Self)
        requires
            1 <= width,
            1 <= height,
            width * height <= usize::MAX,
        ensures
            t@.width == width,
            t@.height == height,
            t@.cells == blank_cells((width * height) as nat),
            t@.x == 0,
            t@.y == 0,
            t@.scan == ScanState::Ground,
            t@.params === Seq::<u16>::empty(),
            !t@.cur_set,
            wf(t@),
    {
        let t = VteTerminal {
            screen: vec![' '; width * height],
            cursor_x: 0,
            cursor_y: 0,
            width,
            height,
            scan: ScanState::Ground,
            params: Vec::new(),
            cur: 0,
            cur_set: false,
        };
        proof {
            assert(t@.cells =~= blank_cells((width * height) as nat));
            assert(t@.params =~= Seq::<u16>::empty());
        }
        t
    }

    /// Clears every cell to blank and puts the cursor at the origin.
    pub fn clear_screen(&mut self)
        requires
            wf(old(self)@),
        ensures
            final(self)@ == clear_screen_spec(old(self)@),
            wf(final(self)@),
    {
        self.screen = vec![' '; self.width * self.height];
        self.cursor_x = 0;
        self.cursor_y = 0;
        proof {
            assert(self@.cells =~= blank_cells(old(self)@.width * old(self)@.height));
            assert(self@ =~= clear_screen_spec(old(self)@));
        }
    }

    /// Moves the cursor to the given row and column, clamping each into
    /// bounds.
    pub fn move_cursor(&mut self, row: usize, col: usize)
        requires
            wf(old(self)@),
        ensures
            final(self)@ == move_cursor_spec(old(self)@, row as nat, col as nat),
            wf(final(self)@),
    {
        self.cursor_y = if row < self.height {
            row
        } else {
            self.height - 1
        };
        self.cursor_x = if col < self.width {
            col
        } else {
            self.width - 1
        };
        proof {
            assert(self@ =~= move_cursor_spec(old(self)@, row as nat, col as nat));
        }
    }

    /// The observed cursor position as `(column, row)`, both strictly in
    /// bounds; a pending wrap is reported at the last column.
    pub fn cursor(&self) -> (rc: (usize, usize))
        requires
            wf(self@),
        ensures
            rc.0 as nat == cursor_col(self@),
            rc.1 as nat == self@.y,
            rc.0 < self@.width,
            rc.1 < self@.height,
    {
        let col = if self.cursor_x < self.width {
            self.cursor_x
        } else {
            self.width - 1
        };
        (col, self.cursor_y)
    }

    /// Blanks the cells with positions `start <= i < end`.
    fn blank_range(&mut self, start: usize, end: usize)
        requires
            start <= end,
            end <= old(self)@.cells.len(),
        ensures
            final(self)@ == (TermView {
                cells: clear_range(old(self)@.cells, start as int, end as int),
                ..old(self)@
            }),
    {
        let ghost orig = self@;
        let mut i = start;
        proof {
            assert(self@.cells =~= clear_range(orig.cells, start as int, start as int));
            assert(self@ =~= (TermView {
                cells: clear_range(orig.cells, start as int, start as int),
                ..orig
            }));
        }
        while i < end
            invariant
                start <= i <= end,
                end <= self.screen@.len(),
                self@ == (TermView {
                    cells: clear_range(orig.cells, start as int, i as int),
                    ..orig
                }),
            decreases end - i,
        {
            self.screen[i] = ' ';
            i += 1;
            proof {
                assert(self@.cells =~= clear_range(orig.cells, start as int, i as int));
                assert(self@ =~= (TermView {
                    cells: clear_range(orig.cells, start as int, i as int),
                    ..orig
                }));
            }
        }
    }

    /// Erase in line: clears part or all of the cursor's row, by mode.
    pub fn erase_in_line(&mut self, mode: usize)
        requires
            wf(old(self)@),
        ensures
            final(self)@ == erase_line_spec(old(self)@, mode as nat),
            wf(final(self)@),
    {
        proof {
            lemma_grid_bounds(old(self)@.x, old(self)@.y, old(self)@.width, old(self)@.height);
        }
        let rs = self.cursor_y * self.width;
        let re = rs + self.width;
        if mode == 0 {
            let s = rs + self.cursor_x;
            self.blank_range(s, re);
        } else if mode == 1 {
            let e = if self.cursor_x < self.width {
                rs + self.cursor_x + 1
            } else {
                re
            };
            self.blank_range(rs, e);
        } else if mode == 2 {
            self.blank_range(rs, re);
        }
        proof {
            assert(self@ =~= erase_line_spec(old(self)@, mode as nat));
        }
    }

    /// Erase in display: clears part or all of the buffer, by mode; a
    /// full erase also resets the cursor to the origin.
    pub fn erase_in_display(&mut self, mode: usize)
        requires
            wf(old(self)@),
        ensures
            final(self)@ == erase_display_spec(old(self)@, mode as nat),
            wf(final(self)@),
    {
        proof {
            lemma_grid_bounds(old(self)@.x, old(self)@.y, old(self)@.width, old(self)@.height);
        }
        if mode == 0 {
            let pos = self.cursor_y * self.width + self.cursor_x;
            let len = self.screen.len();
            self.blank_range(pos, len);
        } else if mode == 1 {
            let pos = self.cursor_y * self.width + self.cursor_x;
            let len = self.screen.len();
            let e = if pos < len {
                pos + 1
            } else {
                len
            };
            self.blank_range(0, e);
        } else if mode == 2 || mode == 3 {
            self.clear_screen();
        }
        proof {
            assert(self@ =~= erase_display_spec(old(self)@, mode as nat));
        }
    }

    /// Discards the top row and appends a blank row at the bottom.
    fn scroll_up(&mut self)
        requires
            wf(old(self)@),
        ensures
            final(self)@ == (TermView { cells: scrolled_cells(old(self)@), ..old(self)@ }),
            wf(final(self)@),
    {
        proof {
            lemma_grid_bounds(old(self)@.x, old(self)@.y, old(self)@.width, old(self)@.height);
        }
        let ghost orig = self@;
        let len = self.screen.len();
        let w = self.width;
        let mut i: usize = 0;
        while i < len - w
            invariant
                w <= len,
                i <= len - w,
                len == orig.cells.len(),
                w == orig.width,
                self@ == (TermView { cells: self.screen@, ..orig }),
                self.screen@.len() == len,
                forall|j: int| 0 <= j < i ==> self.screen@[j] == orig.cells[j + w],
                forall|j: int| i <= j < len ==> self.screen@[j] == orig.cells[j],
            decreases len - w - i,
        {
            let c = self.screen[i + w];
            self.screen[i] = c;
            i += 1;
        }
        self.blank_range(len - w, len);
        proof {
            assert(self@.cells =~= scrolled_cells(orig));
            assert(self@ =~= (TermView { cells: scrolled_cells(orig), ..orig }));
        }
    }

    /// Prints one character: honours a pending wrap, writes the
    /// character at the cursor cell, and advances the column.
    pub fn print_char(&mut self, c: char)
        requires
            wf(old(self)@),
        ensures
            final(self)@ == print_spec(old(self)@, c),
            wf(final(self)@),
    {
        proof {
            lemma_grid_bounds(old(self)@.x, old(self)@.y, old(self)@.width, old(self)@.height);
        }
        if self.cursor_x >= self.width {
            self.cursor_x = 0;
            if self.cursor_y + 1 >= self.height {
                self.scroll_up();
            } else {
                self.cursor_y = self.cursor_y + 1;
            }
        }
        proof {
            assert(self@ =~= wrap_spec(old(self)@));
            lemma_grid_bounds(self@.x, self@.y, self@.width, self@.height);
        }
        let pos = self.cursor_y * self.width + self.cursor_x;
        self.screen[pos] = c;
        self.cursor_x = self.cursor_x + 1;
        proof {
            assert(self@ =~= print_spec(old(self)@, c));
        }
    }

    /// Applies one C0 control byte: carriage return, line feed,
    /// backspace and form feed act; other control bytes are discarded.
    pub fn execute_ctrl(&mut self, b: u8)
        requires
            wf(old(self)@),
        ensures
            final(self)@ == ctrl_spec(old(self)@, b),
            wf(final(self)@),
    {
        proof {
            lemma_grid_bounds(old(self)@.x, old(self)@.y, old(self)@.width, old(self)@.height);
        }
        if b == 0x0d {
            self.cursor_x = 0;
        } else if b == 0x0a {
            if self.cursor_y + 1 >= self.height {
                self.scroll_up();
            } else {
                self.cursor_y = self.cursor_y + 1;
            }
        } else if b == 0x08 {
            if self.cursor_x > 0 {
                self.cursor_x = self.cursor_x - 1;
            }
        } else if b == 0x0c {
            self.clear_screen();
        }
        proof {
            assert(self@ =~= ctrl_spec(old(self)@, b));
        }
    }

    /// The buffer as `height` lines of `width` characters, each line
    /// terminated by a newline.
    pub fn get_screen(&self) -> (out: String)
        requires
            wf(self@),
        ensures
            out@ == screen_text(self@),
    {
        let mut buf: Vec<char> = Vec::new();
        let mut r: usize = 0;
        proof {
            assert(buf@ =~= rows_text(self@.cells, self@.width, 0));
        }
        while r < self.height
            invariant
                wf(self@),
                r <= self.height,
                buf@ == rows_text(self@.cells, self@.width, r as nat),
            decreases self.height - r,
        {
            proof {
                lemma_grid_bounds(0, r as nat, self@.width, self@.height);
            }
            let base = r * self.width;
            let mut k: usize = 0;
            proof {
                assert(buf@ =~= rows_text(self@.cells, self@.width, r as nat) + self@.cells.subrange(
                    base as int,
                    base + k,
                ));
            }
            while k < self.width
                invariant
                    wf(self@),
                    r < self.height,
                    base == r * self@.width,
                    base + self@.width <= self@.cells.len(),
                    k <= self.width,
                    buf@ == rows_text(self@.cells, self@.width, r as nat) + self@.cells.subrange(
                        base as int,
                        base + k,
                    ),
                decreases self.width - k,
            {
                let ch = self.screen[base + k];
                buf.push(ch);
                k += 1;
                proof {
                    assert(buf@ =~= rows_text(self@.cells, self@.width, r as nat)
                        + self@.cells.subrange(base as int, base + k));
                }
            }
            buf.push('\n');
            r += 1;
            proof {
                assert(row_text(self@.cells, self@.width, (r - 1) as nat) == self@.cells.subrange(
                    base as int,
                    base + self@.width,
                ));
                assert(buf@ =~= rows_text(self@.cells, self@.width, r as nat));
            }
        }
        chars_to_string(&buf)
    }
}

} // verus!
