//! A text terminal drawn into a rectangle of the VGA screen: a scrollback
//! buffer of 80-column rows, a cursor, the row shown at the top of the
//! rectangle, and the range of visible rows that still have to be drawn.
use vstd::prelude::*;
use crate::drivers::cp437::{cp437, encode};
use vstd::arithmetic::div_mod::{lemma_fundamental_div_mod, lemma_fundamental_div_mod_converse};
use crate::drivers::vga::{cell, cursor_ops, entry, put_cell, Color, Vga, VgaView, CELLS, HEIGHT, WIDTH};

verus! {

/// Rows kept by a pane terminal.
pub const SCROLLBACK: usize = 25;

/// Columns of a buffer row.
pub const MAX_COLS: usize = 80;

/// Largest scrollback a terminal can be made with.
pub const MAX_SCROLLBACK: usize = 1000;

pub struct TermView {
    pub buffer: Seq<u16>,
    pub scrollback: int,
    pub x: int,
    pub y: int,
    pub width: int,
    pub height: int,
    pub cursor_row: int,
    pub cursor_col: int,
    pub view_row: int,
    pub total_rows: int,
    pub dirty_first: int,
    pub dirty_last: int,
    pub fg: Color,
    pub bg: Color,
    pub pending_wrap: bool,
}

/// A rectangle that lies on the screen and holds at least one cell.
pub open spec fn fits_screen(x: int, y: int, width: int, height: int) -> bool {
    &&& 0 <= x
    &&& 0 <= y
    &&& 1 <= width
    &&& 1 <= height
    &&& x + width <= WIDTH
    &&& y + height <= HEIGHT
}

impl TermView {
    /// The buffer, cursor, view and rows to draw agree with each other and
    /// with the height, wherever the rectangle lies.
    pub open spec fn consistent(self) -> bool {
        &&& 1 <= self.scrollback <= MAX_SCROLLBACK
        &&& self.buffer.len() == MAX_COLS * self.scrollback
        &&& 0 <= self.x
        &&& 0 <= self.y
        &&& 0 <= self.width
        &&& 1 <= self.height
        &&& 0 <= self.cursor_row < self.scrollback
        &&& 0 <= self.cursor_col < MAX_COLS
        &&& 0 <= self.view_row < self.scrollback
        &&& 0 <= self.total_rows <= self.scrollback
        &&& 0 <= self.dirty_first
        &&& 0 <= self.dirty_last
        &&& self.dirty_first <= self.dirty_last ==> self.dirty_last < self.height
    }

    /// A consistent terminal whose rectangle lies on the screen: the state
    /// every operation that writes or draws works on.
    pub open spec fn wf(self) -> bool {
        &&& self.consistent()
        &&& fits_screen(self.x, self.y, self.width, self.height)
    }

    /// A fresh terminal: blank buffer, cursor and view at the top, black on
    /// white, every visible row to be drawn.
    pub open spec fn initial(x: int, y: int, width: int, height: int, scrollback: int) -> TermView {
        TermView {
            buffer: Seq::new((MAX_COLS * scrollback) as nat, |i: int| cell(0x20, Color::Black, Color::White)),
            scrollback,
            x,
            y,
            width,
            height,
            cursor_row: 0,
            cursor_col: 0,
            view_row: 0,
            total_rows: 0,
            dirty_first: 0,
            dirty_last: height - 1,
            fg: Color::Black,
            bg: Color::White,
            pending_wrap: false,
        }
    }

    /// Same rectangle, scrollback size and colours.
    pub open spec fn same_frame(self, other: TermView) -> bool {
        &&& self.x == other.x
        &&& self.y == other.y
        &&& self.width == other.width
        &&& self.height == other.height
        &&& self.scrollback == other.scrollback
        &&& self.fg == other.fg
        &&& self.bg == other.bg
    }

    pub open spec fn blank(self) -> u16 {
        cell(0x20, self.fg, self.bg)
    }

    /// The top row of the view that keeps the cursor on the last visible row.
    pub open spec fn live_view_row(self) -> int {
        if self.cursor_row >= self.height - 1 {
            self.cursor_row - (self.height - 1)
        } else {
            0
        }
    }

    pub open spec fn is_dirty(self) -> bool {
        self.dirty_first <= self.dirty_last
    }

    pub open spec fn mark_all_dirty(self) -> TermView {
        TermView { dirty_first: 0, dirty_last: self.height - 1, ..self }
    }

    pub open spec fn mark_clean(self) -> TermView {
        TermView { dirty_first: self.height, dirty_last: 0, ..self }
    }

    /// Widens the range of rows to draw so that it covers buffer row
    /// `abs_row`, when that row is visible.
    pub open spec fn mark_row_dirty(self, abs_row: int) -> TermView {
        let vis = abs_row - self.view_row;
        if abs_row < self.view_row || vis >= self.height {
            self
        } else if self.dirty_first > self.dirty_last {
            TermView { dirty_first: vis, dirty_last: vis, ..self }
        } else {
            TermView {
                dirty_first: if vis < self.dirty_first { vis } else { self.dirty_first },
                dirty_last: if vis > self.dirty_last { vis } else { self.dirty_last },
                ..self
            }
        }
    }

    /// The buffer moved up by one row, with a blank last row.
    pub open spec fn shifted_buffer(self) -> Seq<u16> {
        Seq::new(self.buffer.len(), |i: int|
            if i + MAX_COLS < self.buffer.len() { self.buffer[i + MAX_COLS] } else { self.blank() })
    }

    pub open spec fn advance_row(self) -> TermView {
        let s1 = if self.cursor_row + 1 >= self.scrollback {
            TermView { buffer: self.shifted_buffer(), cursor_row: self.scrollback - 1, ..self }.mark_all_dirty()
        } else {
            TermView { cursor_row: self.cursor_row + 1, ..self }
        };
        let s2 = if s1.cursor_row >= s1.total_rows {
            TermView { total_rows: s1.cursor_row + 1, ..s1 }
        } else {
            s1
        };
        let s3 = TermView { view_row: s2.live_view_row(), ..s2 };
        if s3.view_row != self.view_row {
            s3.mark_all_dirty()
        } else {
            s3.mark_row_dirty(s3.cursor_row)
        }
    }

    pub open spec fn newline(self) -> TermView {
        TermView { pending_wrap: false, cursor_col: 0, ..self }.advance_row()
    }

    pub open spec fn put_raw(self, c: u8, fg: Color, bg: Color) -> TermView {
        let s1 = if self.pending_wrap { self.newline() } else { self };
        let s2 = TermView {
            buffer: s1.buffer.update(s1.cursor_row * MAX_COLS + s1.cursor_col, cell(c, fg, bg)),
            ..s1
        }.mark_row_dirty(s1.cursor_row);
        if s2.cursor_col + 1 >= s2.width {
            TermView { cursor_col: s2.width - 1, pending_wrap: true, ..s2 }
        } else {
            TermView { cursor_col: s2.cursor_col + 1, ..s2 }
        }
    }

    pub open spec fn backspace(self) -> TermView {
        let s1 = if self.cursor_col > 0 {
            TermView { cursor_col: self.cursor_col - 1, ..self }
        } else if self.cursor_row > 0 {
            TermView { cursor_row: self.cursor_row - 1, cursor_col: self.width - 1, ..self }
        } else {
            self
        };
        TermView {
            pending_wrap: false,
            buffer: s1.buffer.update(s1.cursor_row * MAX_COLS + s1.cursor_col, s1.blank()),
            ..s1
        }.mark_row_dirty(s1.cursor_row)
    }

    /// Buffer blanked in the current colours, cursor and view at the top,
    /// everything to be drawn.
    pub open spec fn cleared(self) -> TermView {
        TermView {
            buffer: Seq::new(self.buffer.len(), |i: int| self.blank()),
            cursor_row: 0,
            cursor_col: 0,
            view_row: 0,
            total_rows: 0,
            ..self
        }.mark_all_dirty()
    }

    /// The next multiple of eight after the cursor column, kept inside the
    /// terminal width.
    pub open spec fn tab_stop(self) -> int {
        let next = (self.cursor_col + 8) - (self.cursor_col + 8) % 8;
        if next >= self.width {
            self.width - 1
        } else {
            next
        }
    }

    pub open spec fn write_char(self, c: char) -> TermView {
        if c == '\n' {
            self.newline()
        } else if c == '\r' {
            TermView { cursor_col: 0, ..self }
        } else if c == '\t' {
            TermView { cursor_col: self.tab_stop(), ..self }
        } else {
            self.put_raw(cp437(c), self.fg, self.bg)
        }
    }

    pub open spec fn write_chars(self, s: Seq<char>) -> TermView
        decreases s.len(),
    {
        if s.len() == 0 {
            self
        } else {
            self.write_chars(s.drop_last()).write_char(s.last())
        }
    }

    pub open spec fn scrolled_up(self) -> TermView {
        if self.view_row == 0 {
            self
        } else {
            TermView {
                view_row: if self.view_row >= self.height { self.view_row - self.height } else { 0 },
                ..self
            }.mark_all_dirty()
        }
    }

    pub open spec fn scrolled_down(self) -> TermView {
        let live = self.live_view_row();
        if self.view_row >= live {
            self
        } else {
            TermView {
                view_row: if self.view_row + self.height > live { live } else { self.view_row + self.height },
                ..self
            }.mark_all_dirty()
        }
    }

    pub open spec fn resized(self, x: int, y: int, width: int, height: int) -> TermView {
        TermView { x, y, width, height, ..self }.mark_all_dirty()
    }

    /// What a visible cell shows: buffer row `view_row + vis`, or a blank
    /// when that row lies beyond the buffer.
    pub open spec fn source_cell(self, vis: int, col: int) -> u16 {
        let r = self.view_row + vis;
        if r < self.scrollback {
            self.buffer[r * MAX_COLS + col]
        } else {
            self.blank()
        }
    }

    /// Screen memory after the rows to draw have been drawn.
    pub open spec fn drawn(self, cells: Seq<u16>) -> Seq<u16> {
        Seq::new(CELLS as nat, |i: int| {
            let vis = i / (WIDTH as int) - self.y;
            let col = i % (WIDTH as int) - self.x;
            if self.dirty_first <= vis <= self.dirty_last && 0 <= col < self.width {
                self.source_cell(vis, col)
            } else {
                cells[i]
            }
        })
    }

    pub open spec fn screen_row(self) -> int {
        self.y + if self.cursor_row >= self.view_row { self.cursor_row - self.view_row } else { 0 }
    }

    pub open spec fn screen_col(self) -> int {
        self.x + self.cursor_col
    }

    /// The device after the cursor has been placed at the terminal's cursor.
    pub open spec fn cursor_placed(self, v: VgaView) -> VgaView {
        VgaView {
            row: self.screen_row(),
            col: self.screen_col(),
            ops: v.ops + cursor_ops(self.screen_row() * WIDTH + self.screen_col()),
            ..v
        }
    }

    /// The device after a flush: dirty rows drawn, cursor placed.
    pub open spec fn flushed_screen(self, v: VgaView) -> VgaView {
        self.cursor_placed(VgaView { cells: self.drawn(v.cells), ..v })
    }

    /// Terminal and device after a flush.
    pub open spec fn flush_result(self, v: VgaView) -> (TermView, VgaView) {
        (self.flushed(), self.flushed_screen(v))
    }

    /// Terminal and device after `scroll_up`: unchanged at the top of the
    /// scrollback, else scrolled, marked for redraw and flushed.
    pub open spec fn scroll_up_result(self, v: VgaView) -> (TermView, VgaView) {
        if self.view_row == 0 {
            (self, v)
        } else {
            self.scrolled_up().flush_result(v)
        }
    }

    /// Terminal and device after `scroll_down`: unchanged when the view
    /// already follows the cursor, else scrolled, marked and flushed.
    pub open spec fn scroll_down_result(self, v: VgaView) -> (TermView, VgaView) {
        if self.view_row >= self.live_view_row() {
            (self, v)
        } else {
            self.scrolled_down().flush_result(v)
        }
    }

    /// The terminal after a flush: nothing left to draw.
    pub open spec fn flushed(self) -> TermView {
        if self.is_dirty() { self.mark_clean() } else { self }
    }
}

pub struct Terminal {
    buffer: Vec<u16>,
    scrollback: usize,
    x: usize,
    y: usize,
    width: usize,
    height: usize,
    cursor_row: usize,
    cursor_col: usize,
    view_row: usize,
    total_rows: usize,
    dirty_first: usize,
    dirty_last: usize,
    fg: Color,
    bg: Color,
    pending_wrap: bool,
}

impl View for Terminal {
    type V = TermView;

    closed spec fn view(&self) -> TermView {
        TermView {
            buffer: self.buffer@,
            scrollback: self.scrollback as int,
            x: self.x as int,
            y: self.y as int,
            width: self.width as int,
            height: self.height as int,
            cursor_row: self.cursor_row as int,
            cursor_col: self.cursor_col as int,
            view_row: self.view_row as int,
            total_rows: self.total_rows as int,
            dirty_first: self.dirty_first as int,
            dirty_last: self.dirty_last as int,
            fg: self.fg,
            bg: self.bg,
            pending_wrap: self.pending_wrap,
        }
    }
}

proof fn lemma_round_down_8(a: usize)
    requires
        a <= 1000,
    ensures
        a & !7usize == a - a % 8,
{
    assert(a & !7usize == a - a % 8) by (bit_vector)
        requires a <= 1000;
}

impl Terminal {
    pub open spec fn wf(&self) -> bool {
        self@.wf()
    }

    /// A terminal drawn at column `x`, row `y`, `width` columns by `height`
    /// rows, with a scrollback of `SCROLLBACK` rows.
    pub fn new(x: usize, y: usize, width: usize, height: usize) -> (r: Self)
        requires
            height >= 1,
        ensures
            r@ == TermView::initial(x as int, y as int, width as int, height as int, SCROLLBACK as int),
            r@.consistent(),
            fits_screen(x as int, y as int, width as int, height as int) ==> r.wf(),
    {
        Self::with_scrollback(x, y, width, height, SCROLLBACK)
    }

    /// A terminal with a scrollback of `scrollback` rows.
    pub fn with_scrollback(x: usize, y: usize, width: usize, height: usize, scrollback: usize) -> (r: Self)
        requires
            height >= 1,
            1 <= scrollback <= MAX_SCROLLBACK,
        ensures
            r@ == TermView::initial(x as int, y as int, width as int, height as int, scrollback as int),
            r@.consistent(),
            fits_screen(x as int, y as int, width as int, height as int) ==> r.wf(),
    {
        let blank = entry(0x20u8, Color::Black, Color::White);
        let n = MAX_COLS * scrollback;
        let mut buffer: Vec<u16> = Vec::new();
        let mut i: usize = 0;
        while i < n
            invariant
                i <= n,
                buffer@.len() == i,
                blank == cell(0x20, Color::Black, Color::White),
                forall|j: int| 0 <= j < i ==> buffer@[j] == blank,
            decreases n - i,
        {
            buffer.push(blank);
            i = i + 1;
        }
        let r = Terminal {
            buffer,
            scrollback,
            x,
            y,
            width,
            height,
            cursor_row: 0,
            cursor_col: 0,
            view_row: 0,
            total_rows: 0,
            pending_wrap: false,
            fg: Color::Black,
            bg: Color::White,
            dirty_last: height - 1,
            dirty_first: 0,
        };
        assert(r@.buffer =~= TermView::initial(x as int, y as int, width as int, height as int, scrollback as int).buffer);
        r
    }

    /// Sets the colours used for blanks and written text.
    pub fn set_colors(&mut self, fg: Color, bg: Color)
        requires
            old(self).wf(),
        ensures
            final(self).wf(),
            final(self)@ == (TermView { fg, bg, ..old(self)@ }),
    {
        self.fg = fg;
        self.bg = bg;
    }

    pub fn resize(&mut self, x: usize, y: usize, width: usize, height: usize)
        requires
            height >= 1,
        ensures
            final(self)@ == old(self)@.resized(x as int, y as int, width as int, height as int),
            old(self)@.consistent() ==> final(self)@.consistent(),
            old(self)@.consistent() && fits_screen(x as int, y as int, width as int, height as int) ==> final(self).wf(),
    {
        self.x = x;
        self.y = y;
        self.width = width;
        self.height = height;
        self.mark_all_dirty();
    }

    pub fn mark_all_dirty(&mut self)
        requires
            old(self)@.height >= 1,
        ensures
            final(self)@ == old(self)@.mark_all_dirty(),
    {
        self.dirty_first = 0;
        self.dirty_last = self.height - 1;
    }

    fn mark_clean(&mut self)
        ensures
            final(self)@ == old(self)@.mark_clean(),
    {
        self.dirty_first = self.height;
        self.dirty_last = 0;
    }

    fn mark_row_dirty(&mut self, abs_row: usize)
        ensures
            final(self)@ == old(self)@.mark_row_dirty(abs_row as int),
    {
        if abs_row < self.view_row {
            return;
        }
        let vis = abs_row - self.view_row;
        if vis >= self.height {
            return;
        }
        if self.dirty_first > self.dirty_last {
            self.dirty_first = vis;
            self.dirty_last = vis;
        } else {
            if vis < self.dirty_first {
                self.dirty_first = vis;
            }
            if vis > self.dirty_last {
                self.dirty_last = vis;
            }
        }
    }

    /// Draws the rows still to be drawn, then places the cursor.
    pub fn flush(&mut self, vga: &mut Vga)
        requires
            old(self).wf(),
            old(vga).wf(),
        ensures
            final(self)@.same_frame(old(self)@),
            final(self).wf(),
            final(vga).wf(),
            final(self)@ == old(self)@.flushed(),
            final(vga)@ == old(self)@.flushed_screen(old(vga)@),
    {
        if self.dirty_first <= self.dirty_last {
            self.draw_rows(vga);
            self.mark_clean();
        } else {
            assert(old(self)@.drawn(old(vga)@.cells) =~= old(vga)@.cells);
        }
        self.update_cursor(vga);
    }

    fn draw_rows(&self, vga: &mut Vga)
        requires
            self.wf(),
            old(vga).wf(),
            self@.is_dirty(),
        ensures
            final(vga).wf(),
            final(vga)@ == (VgaView { cells: self@.drawn(old(vga)@.cells), ..old(vga)@ }),
    {
        let ghost v0 = old(vga)@;
        let ghost t = self@;
        let blank = entry(0x20u8, self.fg, self.bg);
        let mut vis: usize = self.dirty_first;
        while vis <= self.dirty_last
            invariant
                self.wf(),
                t == self@,
                t.is_dirty(),
                t.dirty_first <= vis <= t.dirty_last + 1,
                vga.wf(),
                blank == t.blank(),
                vga@ == (VgaView { cells: vga@.cells, ..v0 }),
                forall|i: int| 0 <= i < CELLS ==> #[trigger] vga@.cells[i] == {
                    let r = i / (WIDTH as int) - t.y;
                    let c = i % (WIDTH as int) - t.x;
                    if t.dirty_first <= r < vis && 0 <= c < t.width { t.source_cell(r, c) } else { v0.cells[i] }
                },
            decreases t.dirty_last + 1 - vis,
        {
            let src_row = self.view_row + vis;
            let mut col: usize = 0;
            let ghost before = vga@.cells;
            while col < self.width
                invariant
                    self.wf(),
                    t == self@,
                    t.dirty_first <= vis <= t.dirty_last,
                    vis < t.height,
                    src_row == t.view_row + vis,
                    col <= t.width,
                    vga.wf(),
                    blank == t.blank(),
                    vga@ == (VgaView { cells: vga@.cells, ..v0 }),
                    forall|i: int| 0 <= i < CELLS ==> #[trigger] vga@.cells[i] == {
                        let r = i / (WIDTH as int) - t.y;
                        let c = i % (WIDTH as int) - t.x;
                        if r == vis && 0 <= c < col { t.source_cell(r, c) } else { before[i] }
                    },
                decreases t.width - col,
            {
                let value = if src_row < self.scrollback {
                    self.buffer[src_row * MAX_COLS + col]
                } else {
                    blank
                };
                let ghost prev = vga@.cells;
                vga.put_entry_at(value, col + self.x, vis + self.y);
                proof {
                    let k = (vis + t.y) * WIDTH + col + t.x;
                    lemma_fundamental_div_mod_converse(k, WIDTH as int, vis + t.y, col + t.x);
                    assert(vga@.cells == prev.update(k, value));
                    assert forall|i: int| 0 <= i < CELLS implies #[trigger] vga@.cells[i] == {
                        let r = i / (WIDTH as int) - t.y;
                        let c = i % (WIDTH as int) - t.x;
                        if r == vis && 0 <= c < col + 1 { t.source_cell(r, c) } else { before[i] }
                    } by {
                        lemma_fundamental_div_mod(i, WIDTH as int);
                    }
                }
                col = col + 1;
            }
            vis = vis + 1;
        }
        assert(vga@.cells =~= t.drawn(v0.cells));
    }

    /// Places the hardware cursor at the terminal's cursor.
    pub fn update_cursor(&self, vga: &mut Vga)
        requires
            self.wf(),
        ensures
            final(vga).wf() == old(vga).wf(),
            final(vga)@ == self@.cursor_placed(old(vga)@),
    {
        let content_row = self.cursor_row.saturating_sub(self.view_row);
        vga.set_position(self.y + content_row, self.x + self.cursor_col);
        vga.update_cursor();
    }

    pub fn put_raw(&mut self, c: u8, fg: Color, bg: Color)
        requires
            old(self).wf(),
        ensures
            final(self)@.same_frame(old(self)@),
            final(self).wf(),
            final(self)@ == old(self)@.put_raw(c, fg, bg),
    {
        if self.pending_wrap {
            self.newline();
        }
        let e = entry(c, fg, bg);
        self.buffer.set(self.cursor_row * MAX_COLS + self.cursor_col, e);
        self.mark_row_dirty(self.cursor_row);
        self.cursor_col = self.cursor_col + 1;
        if self.cursor_col >= self.width {
            self.cursor_col = self.width - 1;
            self.pending_wrap = true;
        }
    }

    pub fn backspace(&mut self)
        requires
            old(self).wf(),
        ensures
            final(self)@.same_frame(old(self)@),
            final(self).wf(),
            final(self)@ == old(self)@.backspace(),
    {
        if self.cursor_col > 0 {
            self.cursor_col = self.cursor_col - 1;
        } else if self.cursor_row > 0 {
            self.cursor_row = self.cursor_row - 1;
            self.cursor_col = self.width - 1;
        }
        self.pending_wrap = false;
        let blank = entry(0x20u8, self.fg, self.bg);
        self.buffer.set(self.cursor_row * MAX_COLS + self.cursor_col, blank);
        self.mark_row_dirty(self.cursor_row);
    }

    /// Blanks the buffer, returns cursor and view to the top and redraws.
    pub fn clear(&mut self, vga: &mut Vga)
        requires
            old(self).wf(),
            old(vga).wf(),
        ensures
            final(self)@.same_frame(old(self)@),
            final(self).wf(),
            final(vga).wf(),
            final(self)@ == old(self)@.cleared().flushed(),
            final(vga)@ == old(self)@.cleared().flushed_screen(old(vga)@),
    {
        self.clear_buffer();
        self.flush(vga);
    }

    /// Blanks the buffer and returns cursor and view to the top, marking
    /// everything for redraw.
    pub fn clear_buffer(&mut self)
        requires
            old(self).wf(),
        ensures
            final(self)@.same_frame(old(self)@),
            final(self).wf(),
            final(self)@ == old(self)@.cleared(),
    {
        let blank = entry(0x20u8, self.fg, self.bg);
        let n = self.buffer.len();
        let mut i: usize = 0;
        while i < n
            invariant
                n == self.buffer@.len(),
                self@ == (TermView { buffer: self@.buffer, ..old(self)@ }),
                blank == old(self)@.blank(),
                i <= n,
                forall|j: int| 0 <= j < i ==> self.buffer@[j] == blank,
            decreases n - i,
        {
            self.buffer.set(i, blank);
            i = i + 1;
        }
        self.cursor_row = 0;
        self.cursor_col = 0;
        self.view_row = 0;
        self.total_rows = 0;
        self.mark_all_dirty();
        assert(self@.buffer =~= old(self)@.cleared().buffer);
        assert(self@ == old(self)@.cleared());
    }

    fn newline(&mut self)
        requires
            old(self).wf(),
        ensures
            final(self)@.same_frame(old(self)@),
            final(self).wf(),
            final(self)@ == old(self)@.newline(),
    {
        self.pending_wrap = false;
        self.cursor_col = 0;
        self.advance_row();
    }

    /// Writes text in the terminal colours: '\n' starts a new line, '\r'
    /// returns to column 0, '\t' moves to the next tab stop, and every other
    /// character is put in its code-page form.
    pub fn write(&mut self, s: &str)
        requires
            old(self).wf(),
        ensures
            final(self)@.same_frame(old(self)@),
            final(self).wf(),
            final(self)@ == old(self)@.write_chars(s@),
    {
        let n = s.unicode_len();
        let mut i: usize = 0;
        while i < n
            invariant
                n == s@.len(),
                i <= n,
                self.wf(),
                self@.same_frame(old(self)@),
                self@ == old(self)@.write_chars(s@.subrange(0, i as int)),
            decreases n - i,
        {
            let c = s.get_char(i);
            let ghost before = self@;
            if c == '\n' {
                self.newline();
            } else if c == '\r' {
                self.cursor_col = 0;
            } else if c == '\t' {
                let next = (self.cursor_col + 8) & !7usize;
                proof {
                    lemma_round_down_8((self.cursor_col + 8) as usize);
                }
                self.cursor_col = if next >= self.width {
                    self.width - 1
                } else {
                    next
                };
            } else {
                let b = encode(c);
                let fg = self.fg;
                let bg = self.bg;
                self.put_raw(b, fg, bg);
            }
            assert(s@.subrange(0, i + 1).drop_last() =~= s@.subrange(0, i as int));
            i = i + 1;
        }
        assert(s@.subrange(0, n as int) =~= s@);
    }

    fn live_view_row(&self) -> (r: usize)
        requires
            self@.height >= 1,
        ensures
            r == self@.live_view_row(),
    {
        self.cursor_row.saturating_sub(self.height - 1)
    }

    fn advance_row(&mut self)
        requires
            old(self).wf(),
        ensures
            final(self)@.same_frame(old(self)@),
            final(self).wf(),
            final(self)@ == old(self)@.advance_row(),
    {
        let old_view_row = self.view_row;
        self.cursor_row = self.cursor_row + 1;
        if self.cursor_row >= self.scrollback {
            let n = (self.scrollback - 1) * MAX_COLS;
            let ghost b0 = self.buffer@;
            let ghost mid = self@;
            let mut i: usize = 0;
            while i < n
                invariant
                    n + MAX_COLS == b0.len(),
                    b0.len() <= MAX_COLS * MAX_SCROLLBACK,
                    self@ == (TermView { buffer: self@.buffer, ..mid }),
                    self.buffer@.len() == b0.len(),
                    i <= n,
                    forall|j: int| 0 <= j < i ==> self.buffer@[j] == b0[j + MAX_COLS],
                    forall|j: int| i <= j < b0.len() ==> self.buffer@[j] == b0[j],
                decreases n - i,
            {
                let v = self.buffer[i + MAX_COLS];
                self.buffer.set(i, v);
                i = i + 1;
            }
            let blank = entry(0x20u8, self.fg, self.bg);
            let mut k: usize = 0;
            while k < MAX_COLS
                invariant
                    n + MAX_COLS == b0.len(),
                    b0.len() <= MAX_COLS * MAX_SCROLLBACK,
                    self@ == (TermView { buffer: self@.buffer, ..mid }),
                    mid.scrollback >= 1,
                    mid.height >= 1,
                    blank == mid.blank(),
                    self.buffer@.len() == b0.len(),
                    k <= MAX_COLS,
                    forall|j: int| 0 <= j < n ==> self.buffer@[j] == b0[j + MAX_COLS],
                    forall|j: int| n <= j < n + k ==> self.buffer@[j] == blank,
                decreases MAX_COLS - k,
            {
                self.buffer.set(n + k, blank);
                k = k + 1;
            }
            self.cursor_row = self.scrollback - 1;
            proof {
                let old_v = old(self)@;
                assert(self.buffer@ =~= old_v.shifted_buffer());
            }
            self.mark_all_dirty();
        }
        if self.cursor_row >= self.total_rows {
            self.total_rows = self.cursor_row + 1;
        }
        self.view_row = self.live_view_row();
        if self.view_row != old_view_row {
            self.mark_all_dirty();
        } else {
            self.mark_row_dirty(self.cursor_row);
        }
    }

    /// Moves the view one screenful towards the top of the scrollback.
    pub fn scroll_up(&mut self, vga: &mut Vga)
        requires
            old(self).wf(),
            old(vga).wf(),
        ensures
            final(self)@.same_frame(old(self)@),
            final(self).wf(),
            final(vga).wf(),
            (final(self)@, final(vga)@) == old(self)@.scroll_up_result(old(vga)@),
    {
        if self.view_row == 0 {
            return;
        }
        self.scroll_view_up();
        self.flush(vga);
    }

    pub fn view_row_is_top(&self) -> (r: bool)
        ensures
            r == (self@.view_row == 0),
    {
        self.view_row == 0
    }

    pub fn view_follows_cursor(&self) -> (r: bool)
        requires
            self.wf(),
        ensures
            r == (self@.view_row >= self@.live_view_row()),
    {
        self.view_row >= self.live_view_row()
    }

    /// The view change of `scroll_up`, without drawing.
    pub fn scroll_view_up(&mut self)
        requires
            old(self).wf(),
        ensures
            final(self)@.same_frame(old(self)@),
            final(self).wf(),
            final(self)@ == old(self)@.scrolled_up(),
    {
        if self.view_row == 0 {
            return;
        }
        if self.view_row >= self.height {
            self.view_row = self.view_row - self.height;
        } else {
            self.view_row = 0;
        }
        self.mark_all_dirty();
    }

    /// Moves the view one screenful towards the cursor, stopping at the
    /// view that shows the cursor on its last row.
    pub fn scroll_down(&mut self, vga: &mut Vga)
        requires
            old(self).wf(),
            old(vga).wf(),
        ensures
            final(self)@.same_frame(old(self)@),
            final(self).wf(),
            final(vga).wf(),
            (final(self)@, final(vga)@) == old(self)@.scroll_down_result(old(vga)@),
    {
        let live_view = self.live_view_row();
        if self.view_row >= live_view {
            return;
        }
        self.scroll_view_down();
        self.flush(vga);
    }

    /// The view change of `scroll_down`, without drawing.
    pub fn scroll_view_down(&mut self)
        requires
            old(self).wf(),
        ensures
            final(self)@.same_frame(old(self)@),
            final(self).wf(),
            final(self)@ == old(self)@.scrolled_down(),
    {
        let live_view = self.live_view_row();
        if self.view_row >= live_view {
            return;
        }
        self.view_row = self.view_row + self.height;
        if self.view_row > live_view {
            self.view_row = live_view;
        }
        self.mark_all_dirty();
    }
}


/// Putting a character and then erasing it, when the character does not fill
/// the row, brings the cursor back to where it was and leaves a blank cell in
/// the terminal colours there.
pub proof fn lemma_put_raw_then_backspace(v: TermView, c: u8, fg: Color, bg: Color)
    requires
        v.wf(),
        !v.pending_wrap,
        v.cursor_col + 1 < v.width,
    ensures
        v.put_raw(c, fg, bg).backspace().cursor_row == v.cursor_row,
        v.put_raw(c, fg, bg).backspace().cursor_col == v.cursor_col,
        !v.put_raw(c, fg, bg).backspace().pending_wrap,
        v.put_raw(c, fg, bg).backspace().buffer
            == v.buffer.update(v.cursor_row * MAX_COLS + v.cursor_col, v.blank()),
{
    let w = v.put_raw(c, fg, bg);
    let k = v.cursor_row * MAX_COLS + v.cursor_col;
    assert(w.buffer == v.buffer.update(k, cell(c, fg, bg)));
    assert(w.backspace().buffer =~= v.buffer.update(k, v.blank()));
}

/// From the view that follows the cursor, scrolling up and then down comes
/// back to that view.
pub proof fn lemma_scroll_up_then_down(v: TermView)
    requires
        v.wf(),
        v.view_row == v.live_view_row(),
    ensures
        v.scrolled_up().scrolled_down().view_row == v.view_row,
{
}

/// Scrolling up moves the view exactly one terminal height towards the top,
/// stopping at the first row, and leaves the text, the cursor and the frame
/// as they were; at the top it changes nothing at all.
pub proof fn lemma_scroll_up_one_screen(v: TermView)
    requires
        v.wf(),
    ensures
        v.view_row >= v.height ==> v.scrolled_up().view_row == v.view_row - v.height,
        v.view_row < v.height ==> v.scrolled_up().view_row == 0,
        v.view_row == 0 ==> v.scrolled_up() == v,
        v.scrolled_up().buffer == v.buffer,
        v.scrolled_up().cursor_row == v.cursor_row,
        v.scrolled_up().cursor_col == v.cursor_col,
        v.scrolled_up().same_frame(v),
        v.scrolled_up().wf(),
{
}

/// Scrolling down by a whole screenful and then up again comes back to the
/// same view: both move by the terminal's height.
pub proof fn lemma_scroll_down_then_up(v: TermView)
    requires
        v.wf(),
        v.view_row + v.height <= v.live_view_row(),
    ensures
        v.scrolled_down().view_row == v.view_row + v.height,
        v.scrolled_down().scrolled_up().view_row == v.view_row,
{
}

/// A flush leaves nothing to draw.
pub proof fn lemma_flush_cleans(v: TermView)
    requires
        v.wf(),
    ensures
        !v.flushed().is_dirty(),
        v.flushed().wf(),
{
}

/// After a clear, drawing fills the terminal's whole rectangle with blanks in
/// its colours.
pub proof fn lemma_clear_blanks_rectangle(v: TermView, cells: Seq<u16>, r: int, c: int)
    requires
        v.wf(),
        cells.len() == CELLS,
        0 <= r < v.height,
        0 <= c < v.width,
    ensures
        v.cleared().drawn(cells)[(v.y + r) * WIDTH + v.x + c] == v.blank(),
{
    let k = (v.y + r) * WIDTH + v.x + c;
    lemma_fundamental_div_mod_converse(k, WIDTH as int, v.y + r, v.x + c);
    let u = v.cleared();
    if u.view_row + r < u.scrollback {
        assert(0 <= (u.view_row + r) * MAX_COLS + c < u.buffer.len()) by (nonlinear_arith)
            requires
                0 <= u.view_row + r < u.scrollback,
                0 <= c < MAX_COLS,
                u.buffer.len() == MAX_COLS * u.scrollback;
    }
}

/// Writing two pieces of text one after the other is writing them joined.
pub proof fn lemma_write_concat(v: TermView, a: Seq<char>, b: Seq<char>)
    ensures
        v.write_chars(a + b) == v.write_chars(a).write_chars(b),
    decreases b.len(),
{
    if b.len() == 0 {
        assert(a + b =~= a);
    } else {
        lemma_write_concat(v, a, b.drop_last());
        assert((a + b).drop_last() =~= a + b.drop_last());
        assert((a + b).last() == b.last());
    }
}


/// Writing "\n" is starting a new line.
pub proof fn lemma_write_newline(t: TermView)
    ensures
        t.write_chars(seq!['\n']) == t.newline(),
{
    let s = seq!['\n'];
    assert(s.drop_last() =~= Seq::<char>::empty());
    assert(t.write_chars(Seq::<char>::empty()) == t);
    assert(s.last() == '\n');
}


/// Sets up the display for the compositor: blinking off, then the VGA
/// driver reset.
pub fn init(vga: &mut Vga)
    requires
        old(vga).wf(),
    ensures
        final(vga).wf(),
        final(vga)@ == (VgaView {
            cells: crate::drivers::vga::blank_screen(Color::Black, Color::White),
            row: 0,
            col: 0,
            fg: Color::Black,
            bg: Color::White,
            ops: old(vga)@.ops + crate::drivers::vga::disable_blink_ops() + crate::drivers::vga::enable_cursor_ops(14, 15)
                + cursor_ops(0),
        }),
{
    vga.disable_blink();
    vga.init();
}

} // verus!
