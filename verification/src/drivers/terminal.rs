//! Virtual terminals over the whole screen: seven full-screen terminals
//! with 200 rows of scrollback each, one of them shown at a time.
use vstd::prelude::*;
use crate::drivers::vga::{blank_screen, cursor_ops, disable_blink_ops, enable_cursor_ops, Color, Vga, VgaView};
use crate::terminal::{TermView, Terminal as PaneTerminal};

verus! {

pub const COLS: usize = 80;

pub const ROWS: usize = 25;

pub const SCROLLBACK: usize = 200;

pub const MAX_TTYS: usize = 7;

pub const LOG_TTY: usize = 6;

/// A full-screen terminal.
pub struct Terminal {
    inner: PaneTerminal,
}

impl View for Terminal {
    type V = TermView;

    closed spec fn view(&self) -> TermView {
        self.inner@
    }
}

/// The state a virtual terminal starts in.
pub open spec fn fresh() -> TermView {
    TermView::initial(0, 0, COLS as int, ROWS as int, SCROLLBACK as int)
}

impl Terminal {
    pub open spec fn wf(&self) -> bool {
        &&& self@.wf()
        &&& self@.x == 0
        &&& self@.y == 0
        &&& self@.width == COLS
        &&& self@.height == ROWS
    }

    pub fn new() -> (r: Self)
        ensures
            r.wf(),
            r@ == fresh(),
    {
        Terminal { inner: PaneTerminal::with_scrollback(0, 0, COLS, ROWS, SCROLLBACK) }
    }

    /// Draws what is left to draw and places the cursor, when this terminal
    /// is the one shown; otherwise does nothing.
    pub fn flush(&mut self, shown: bool, vga: &mut Vga)
        requires
            old(self).wf(),
            old(vga).wf(),
        ensures
            final(self).wf(),
            final(vga).wf(),
            !shown ==> final(self)@ == old(self)@ && final(vga)@ == old(vga)@,
            shown ==> (final(self)@, final(vga)@) == old(self)@.flush_result(old(vga)@),
    {
        if !shown {
            return;
        }
        self.inner.flush(vga);
    }

    pub fn mark_all_dirty(&mut self)
        requires
            old(self).wf(),
        ensures
            final(self).wf(),
            final(self)@ == old(self)@.mark_all_dirty(),
    {
        self.inner.mark_all_dirty();
    }

    pub fn set_color(&mut self, fg: Color, bg: Color)
        requires
            old(self).wf(),
        ensures
            final(self).wf(),
            final(self)@ == (TermView { fg, bg, ..old(self)@ }),
    {
        self.inner.set_colors(fg, bg);
    }

    pub fn put_raw(&mut self, c: u8, fg: Color, bg: Color)
        requires
            old(self).wf(),
        ensures
            final(self).wf(),
            final(self)@ == old(self)@.put_raw(c, fg, bg),
    {
        self.inner.put_raw(c, fg, bg);
    }

    pub fn backspace(&mut self)
        requires
            old(self).wf(),
        ensures
            final(self).wf(),
            final(self)@ == old(self)@.backspace(),
    {
        self.inner.backspace();
    }

    /// Blanks the terminal and, when shown, redraws it.
    pub fn clear(&mut self, shown: bool, vga: &mut Vga)
        requires
            old(self).wf(),
            old(vga).wf(),
        ensures
            final(self).wf(),
            final(vga).wf(),
            !shown ==> final(self)@ == old(self)@.cleared() && final(vga)@ == old(vga)@,
            shown ==> (final(self)@, final(vga)@) == old(self)@.cleared().flush_result(old(vga)@),
    {
        self.inner.clear_buffer();
        self.flush(shown, vga);
    }

    pub fn scroll_up(&mut self, shown: bool, vga: &mut Vga)
        requires
            old(self).wf(),
            old(vga).wf(),
        ensures
            final(self).wf(),
            final(vga).wf(),
            old(self)@.view_row == 0 ==> final(self)@ == old(self)@ && final(vga)@ == old(vga)@,
            old(self)@.view_row != 0 && !shown ==> final(self)@ == old(self)@.scrolled_up() && final(vga)@ == old(vga)@,
            shown ==> (final(self)@, final(vga)@) == old(self)@.scroll_up_result(old(vga)@),
    {
        if self.inner.view_row_is_top() {
            return;
        }
        self.inner.scroll_view_up();
        self.flush(shown, vga);
    }

    pub fn scroll_down(&mut self, shown: bool, vga: &mut Vga)
        requires
            old(self).wf(),
            old(vga).wf(),
        ensures
            final(self).wf(),
            final(vga).wf(),
            old(self)@.view_row >= old(self)@.live_view_row() ==> final(self)@ == old(self)@ && final(vga)@ == old(vga)@,
            old(self)@.view_row < old(self)@.live_view_row() && !shown ==> final(self)@ == old(self)@.scrolled_down()
                && final(vga)@ == old(vga)@,
            shown ==> (final(self)@, final(vga)@) == old(self)@.scroll_down_result(old(vga)@),
    {
        if self.inner.view_follows_cursor() {
            return;
        }
        self.inner.scroll_view_down();
        self.flush(shown, vga);
    }

    /// Writes text, then flushes.
    pub fn write_str(&mut self, s: &str, shown: bool, vga: &mut Vga)
        requires
            old(self).wf(),
            old(vga).wf(),
        ensures
            final(self).wf(),
            final(vga).wf(),
            !shown ==> final(self)@ == old(self)@.write_chars(s@) && final(vga)@ == old(vga)@,
            shown ==> (final(self)@, final(vga)@) == old(self)@.write_chars(s@).flush_result(old(vga)@),
    {
        self.inner.write(s);
        self.flush(shown, vga);
    }
}


pub struct TtysView {
    pub terms: Seq<TermView>,
    pub active: int,
}

/// The virtual terminals and the number of the one shown.
pub struct Ttys {
    terms: Vec<Terminal>,
    active: u8,
}

impl View for Ttys {
    type V = TtysView;

    closed spec fn view(&self) -> TtysView {
        TtysView { terms: Seq::new(self.terms@.len(), |i: int| self.terms@[i]@), active: self.active as int }
    }
}

impl Ttys {
    pub closed spec fn wf(&self) -> bool {
        &&& self.terms@.len() == MAX_TTYS
        &&& self.active < MAX_TTYS
        &&& forall|i: int| 0 <= i < MAX_TTYS ==> #[trigger] self.terms@[i].wf()
    }

    pub proof fn lemma_wf(&self)
        requires
            self.wf(),
        ensures
            self@.terms.len() == MAX_TTYS,
            0 <= self@.active < MAX_TTYS,
            forall|i: int| 0 <= i < MAX_TTYS ==> (#[trigger] self@.terms[i]).wf() && self@.terms[i].width == COLS
                && self@.terms[i].height == ROWS,
    {
        assert forall|i: int| 0 <= i < MAX_TTYS implies (#[trigger] self@.terms[i]).wf() && self@.terms[i].width == COLS
            && self@.terms[i].height == ROWS by {
            assert(self.terms@[i].wf());
        }
    }

    /// Seven fresh terminals, the first one shown.
    pub fn new() -> (r: Self)
        ensures
            r.wf(),
            r@.active == 0,
            r@.terms == Seq::new(MAX_TTYS as nat, |i: int| fresh()),
    {
        let mut terms: Vec<Terminal> = Vec::new();
        let mut i: usize = 0;
        while i < MAX_TTYS
            invariant
                i <= MAX_TTYS,
                terms@.len() == i,
                forall|j: int| 0 <= j < i ==> (#[trigger] terms@[j]).wf(),
                forall|j: int| 0 <= j < i ==> (#[trigger] terms@[j])@ == fresh(),
            decreases MAX_TTYS - i,
        {
            let t = Terminal::new();
            let ghost before = terms@;
            terms.push(t);
            assert(terms@[i as int] == t);
            assert forall|j: int| 0 <= j < i implies terms@[j] == before[j] by {}
            i = i + 1;
        }
        let r = Ttys { terms, active: 0 };
        assert(r@.terms =~= Seq::new(MAX_TTYS as nat, |i: int| fresh()));
        r
    }

    /// The number of the shown terminal.
    fn shown(&self) -> (r: usize)
        requires
            self.wf(),
        ensures
            r == self@.active,
            r < MAX_TTYS,
    {
        self.active as usize
    }
}

pub open spec fn set_term(t: TtysView, i: int, v: TermView) -> TtysView {
    TtysView { terms: t.terms.update(i, v), ..t }
}

/// Shows terminal `new_id` and redraws it whole; ignored when there is no
/// such terminal or it is already shown.
pub fn switch_to(ttys: &mut Ttys, new_id: u8, vga: &mut Vga)
    requires
        old(ttys).wf(),
        old(vga).wf(),
    ensures
        final(ttys).wf(),
        final(vga).wf(),
        new_id >= MAX_TTYS || new_id == old(ttys)@.active ==> final(ttys)@ == old(ttys)@ && final(vga)@ == old(vga)@,
        new_id < MAX_TTYS && new_id != old(ttys)@.active ==> ({
            let t = old(ttys)@.terms[new_id as int].mark_all_dirty();
            final(ttys)@ == (TtysView { active: new_id as int, terms: old(ttys)@.terms.update(new_id as int, t.flushed()) })
                && final(vga)@ == t.flushed_screen(old(vga)@)
        }),
{
    if new_id >= MAX_TTYS as u8 {
        return;
    }
    let prev_id = ttys.active;
    if prev_id == new_id {
        return;
    }
    let ghost t0 = ttys@;
    ttys.active = new_id;
    let i = new_id as usize;
    proof {
        assert(ttys.terms@[i as int].wf());
    }
    ttys.terms[i].mark_all_dirty();
    ttys.terms[i].flush(true, vga);
    proof {
        let t = t0.terms[i as int].mark_all_dirty();
        assert(ttys@.terms =~= t0.terms.update(i as int, t.flushed()));
        assert forall|j: int| 0 <= j < MAX_TTYS implies #[trigger] ttys.terms@[j].wf() by {
            if j != i {
                assert(ttys.terms@[j] == old(ttys).terms@[j]);
            }
        }
    }
}

pub fn scroll_up(ttys: &mut Ttys, vga: &mut Vga)
    requires
        old(ttys).wf(),
        old(vga).wf(),
    ensures
        final(ttys).wf(),
        final(vga).wf(),
        ({
            let i = old(ttys)@.active;
            let (t, v) = old(ttys)@.terms[i].scroll_up_result(old(vga)@);
            final(ttys)@ == set_term(old(ttys)@, i, t) && final(vga)@ == v
        }),
{
    let i = ttys.shown();
    proof {
        assert(ttys.terms@[i as int].wf());
    }
    ttys.terms[i].scroll_up(true, vga);
    proof {
        let (t, v) = old(ttys)@.terms[i as int].scroll_up_result(old(vga)@);
        assert(ttys@.terms =~= old(ttys)@.terms.update(i as int, t));
        assert forall|j: int| 0 <= j < MAX_TTYS implies #[trigger] ttys.terms@[j].wf() by {
            if j != i {
                assert(ttys.terms@[j] == old(ttys).terms@[j]);
            }
        }
    }
}

pub fn scroll_down(ttys: &mut Ttys, vga: &mut Vga)
    requires
        old(ttys).wf(),
        old(vga).wf(),
    ensures
        final(ttys).wf(),
        final(vga).wf(),
        ({
            let i = old(ttys)@.active;
            let (t, v) = old(ttys)@.terms[i].scroll_down_result(old(vga)@);
            final(ttys)@ == set_term(old(ttys)@, i, t) && final(vga)@ == v
        }),
{
    let i = ttys.shown();
    proof {
        assert(ttys.terms@[i as int].wf());
    }
    ttys.terms[i].scroll_down(true, vga);
    proof {
        let (t, v) = old(ttys)@.terms[i as int].scroll_down_result(old(vga)@);
        assert(ttys@.terms =~= old(ttys)@.terms.update(i as int, t));
        assert forall|j: int| 0 <= j < MAX_TTYS implies #[trigger] ttys.terms@[j].wf() by {
            if j != i {
                assert(ttys.terms@[j] == old(ttys).terms@[j]);
            }
        }
    }
}

/// Erases the character before the cursor of the shown terminal.
pub fn backspace(ttys: &mut Ttys, vga: &mut Vga)
    requires
        old(ttys).wf(),
        old(vga).wf(),
    ensures
        final(ttys).wf(),
        final(vga).wf(),
        ({
            let i = old(ttys)@.active;
            let (t, v) = old(ttys)@.terms[i].backspace().flush_result(old(vga)@);
            final(ttys)@ == set_term(old(ttys)@, i, t) && final(vga)@ == v
        }),
{
    let i = ttys.shown();
    proof {
        assert(ttys.terms@[i as int].wf());
    }
    ttys.terms[i].backspace();
    ttys.terms[i].flush(true, vga);
    proof {
        let (t, v) = old(ttys)@.terms[i as int].backspace().flush_result(old(vga)@);
        assert(ttys@.terms =~= old(ttys)@.terms.update(i as int, t));
        assert forall|j: int| 0 <= j < MAX_TTYS implies #[trigger] ttys.terms@[j].wf() by {
            if j != i {
                assert(ttys.terms@[j] == old(ttys).terms@[j]);
            }
        }
    }
}

/// Puts a character on the shown terminal and draws it.
pub fn put_raw(ttys: &mut Ttys, c: u8, fg: Color, bg: Color, vga: &mut Vga)
    requires
        old(ttys).wf(),
        old(vga).wf(),
    ensures
        final(ttys).wf(),
        final(vga).wf(),
        ({
            let i = old(ttys)@.active;
            let (t, v) = old(ttys)@.terms[i].put_raw(c, fg, bg).flush_result(old(vga)@);
            final(ttys)@ == set_term(old(ttys)@, i, t) && final(vga)@ == v
        }),
{
    let i = ttys.shown();
    proof {
        assert(ttys.terms@[i as int].wf());
    }
    ttys.terms[i].put_raw(c, fg, bg);
    ttys.terms[i].flush(true, vga);
    proof {
        let (t, v) = old(ttys)@.terms[i as int].put_raw(c, fg, bg).flush_result(old(vga)@);
        assert(ttys@.terms =~= old(ttys)@.terms.update(i as int, t));
        assert forall|j: int| 0 <= j < MAX_TTYS implies #[trigger] ttys.terms@[j].wf() by {
            if j != i {
                assert(ttys.terms@[j] == old(ttys).terms@[j]);
            }
        }
    }
}

pub fn clear(ttys: &mut Ttys, vga: &mut Vga)
    requires
        old(ttys).wf(),
        old(vga).wf(),
    ensures
        final(ttys).wf(),
        final(vga).wf(),
        ({
            let i = old(ttys)@.active;
            let (t, v) = old(ttys)@.terms[i].cleared().flush_result(old(vga)@);
            final(ttys)@ == set_term(old(ttys)@, i, t) && final(vga)@ == v
        }),
{
    let i = ttys.shown();
    proof {
        assert(ttys.terms@[i as int].wf());
    }
    ttys.terms[i].clear(true, vga);
    proof {
        let (t, v) = old(ttys)@.terms[i as int].cleared().flush_result(old(vga)@);
        assert(ttys@.terms =~= old(ttys)@.terms.update(i as int, t));
        assert forall|j: int| 0 <= j < MAX_TTYS implies #[trigger] ttys.terms@[j].wf() by {
            if j != i {
                assert(ttys.terms@[j] == old(ttys).terms@[j]);
            }
        }
    }
}

/// Sets the colours of the shown terminal.
pub fn set_color(ttys: &mut Ttys, fg: Color, bg: Color)
    requires
        old(ttys).wf(),
    ensures
        final(ttys).wf(),
        final(ttys)@ == set_term(old(ttys)@, old(ttys)@.active, (TermView { fg, bg, ..old(ttys)@.terms[old(ttys)@.active] })),
{
    let i = ttys.shown();
    proof {
        assert(ttys.terms@[i as int].wf());
    }
    ttys.terms[i].set_color(fg, bg);
    proof {
        assert(ttys@.terms =~= old(ttys)@.terms.update(i as int, TermView { fg, bg, ..old(ttys)@.terms[i as int] }));
        assert forall|j: int| 0 <= j < MAX_TTYS implies #[trigger] ttys.terms@[j].wf() by {
            if j != i {
                assert(ttys.terms@[j] == old(ttys).terms@[j]);
            }
        }
    }
}

/// Writes text to terminal `i`, drawing it only when that terminal is
/// shown.
pub fn write_to(ttys: &mut Ttys, i: usize, s: &str, vga: &mut Vga)
    requires
        old(ttys).wf(),
        old(vga).wf(),
        i < MAX_TTYS,
    ensures
        final(ttys).wf(),
        final(vga).wf(),
        i != old(ttys)@.active ==> final(ttys)@ == set_term(old(ttys)@, i as int, old(ttys)@.terms[i as int].write_chars(s@))
            && final(vga)@ == old(vga)@,
        i == old(ttys)@.active ==> ({
            let (t, v) = old(ttys)@.terms[i as int].write_chars(s@).flush_result(old(vga)@);
            final(ttys)@ == set_term(old(ttys)@, i as int, t) && final(vga)@ == v
        }),
{
    let shown = i == ttys.shown();
    proof {
        assert(ttys.terms@[i as int].wf());
    }
    ttys.terms[i].write_str(s, shown, vga);
    proof {
        assert forall|j: int| 0 <= j < MAX_TTYS implies #[trigger] ttys.terms@[j].wf() by {
            if j != i {
                assert(ttys.terms@[j] == old(ttys).terms@[j]);
            }
        }
        if shown {
            let (t, v) = old(ttys)@.terms[i as int].write_chars(s@).flush_result(old(vga)@);
            assert(ttys@.terms =~= old(ttys)@.terms.update(i as int, t));
        } else {
            assert(ttys@.terms =~= old(ttys)@.terms.update(i as int, old(ttys)@.terms[i as int].write_chars(s@)));
        }
    }
}

/// Resets the display and shows the first terminal.
pub fn init(ttys: &mut Ttys, vga: &mut Vga)
    requires
        old(ttys).wf(),
        old(vga).wf(),
    ensures
        final(ttys).wf(),
        final(vga).wf(),
        final(ttys)@ == (TtysView { active: 0, ..old(ttys)@ }),
        final(vga)@ == (VgaView {
            cells: blank_screen(Color::Black, Color::White),
            row: 0,
            col: 0,
            fg: Color::Black,
            bg: Color::White,
            ops: old(vga)@.ops + enable_cursor_ops(14, 15) + cursor_ops(0) + disable_blink_ops(),
        }),
{
    vga.init();
    vga.disable_blink();
    ttys.active = 0;
}

} // verus!
