//! The VGA text-mode device, held as a value: the 80x25 cell memory, the
//! cursor position and colour registers of the driver, and the port
//! operations that are still to be sent to the controller.
use vstd::prelude::*;

verus! {

pub const WIDTH: usize = 80;

pub const HEIGHT: usize = 25;

/// Number of cells on the screen.
pub const CELLS: usize = 2000;

/// The sixteen VGA text colours, in the order of their hardware codes.
#[derive(Clone, Copy, PartialEq, Eq, Structural, Debug)]
pub enum Color {
    Black,
    Blue,
    Green,
    Cyan,
    Red,
    Magenta,
    Brown,
    LightGrey,
    DarkGrey,
    LightBlue,
    LightGreen,
    LightCyan,
    LightRed,
    LightMagenta,
    Yellow,
    White,
}

impl Color {
    /// The 4-bit hardware code of the colour.
    pub open spec fn code(self) -> u8 {
        match self {
            Color::Black => 0,
            Color::Blue => 1,
            Color::Green => 2,
            Color::Cyan => 3,
            Color::Red => 4,
            Color::Magenta => 5,
            Color::Brown => 6,
            Color::LightGrey => 7,
            Color::DarkGrey => 8,
            Color::LightBlue => 9,
            Color::LightGreen => 10,
            Color::LightCyan => 11,
            Color::LightRed => 12,
            Color::LightMagenta => 13,
            Color::Yellow => 14,
            Color::White => 15,
        }
    }

    pub fn value(self) -> (r: u8)
        ensures
            r == self.code(),
            r < 16,
    {
        match self {
            Color::Black => 0,
            Color::Blue => 1,
            Color::Green => 2,
            Color::Cyan => 3,
            Color::Red => 4,
            Color::Magenta => 5,
            Color::Brown => 6,
            Color::LightGrey => 7,
            Color::DarkGrey => 8,
            Color::LightBlue => 9,
            Color::LightGreen => 10,
            Color::LightCyan => 11,
            Color::LightRed => 12,
            Color::LightMagenta => 13,
            Color::Yellow => 14,
            Color::White => 15,
        }
    }
}

/// A text cell: the character in the low byte, the foreground colour in
/// bits 8..12 and the background colour in bits 12..16.
pub open spec fn cell(c: u8, fg: Color, bg: Color) -> u16 {
    (c + 256 * (fg.code() + 16 * bg.code())) as u16
}

pub open spec fn cell_char(e: u16) -> u8 {
    (e % 256) as u8
}

pub open spec fn cell_fg(e: u16) -> u8 {
    ((e / 256) % 16) as u8
}

pub open spec fn cell_bg(e: u16) -> u8 {
    (e / 4096) as u8
}

pub fn entry(c: u8, fg: Color, bg: Color) -> (r: u16)
    ensures
        r == cell(c, fg, bg),
{
    let f = fg.value();
    let b = bg.value();
    let attr: u8 = f | (b << 4u8);
    let r: u16 = (c as u16) | ((attr as u16) << 8u16);
    assert(attr == f + 16 * b) by (bit_vector)
        requires
            attr == f | (b << 4u8),
            f < 16,
            b < 16,
    ;
    assert(r == c + 256 * attr) by (bit_vector)
        requires
            r == (c as u16) | ((attr as u16) << 8u16),
    ;
    r
}

/// Decoding a cell gives back the character and the two colours it was
/// made of.
pub proof fn lemma_cell_fields(c: u8, fg: Color, bg: Color)
    ensures
        cell_char(cell(c, fg, bg)) == c,
        cell_fg(cell(c, fg, bg)) == fg.code(),
        cell_bg(cell(c, fg, bg)) == bg.code(),
{
    let f = fg.code() as int;
    let b = bg.code() as int;
    let v = c + 256 * (f + 16 * b);
    assert(0 <= v < 65536);
    assert(v % 256 == c) by (nonlinear_arith)
        requires v == c + 256 * (f + 16 * b), 0 <= c < 256, 0 <= f < 16, 0 <= b < 16;
    assert(v / 256 == f + 16 * b) by (nonlinear_arith)
        requires v == c + 256 * (f + 16 * b), 0 <= c < 256, 0 <= f < 16, 0 <= b < 16;
    assert((f + 16 * b) % 16 == f) by (nonlinear_arith)
        requires 0 <= f < 16, 0 <= b < 16;
    assert(v / 4096 == b) by (nonlinear_arith)
        requires v == c + 256 * (f + 16 * b), 0 <= c < 256, 0 <= f < 16, 0 <= b < 16;
}


/// The index register and data register of the CRT controller.
pub const CRTC_INDEX: u16 = 0x3D4;

pub const CRTC_DATA: u16 = 0x3D5;

/// One step of I/O with the VGA controller, performed in order by the
/// platform layer. `Load` reads a port into a latch; `Store` writes the
/// latch, masked with `keep` and combined with `set`, to a port.
#[derive(Clone, Copy, PartialEq, Eq, Structural, Debug)]
pub enum PortOp {
    Out { port: u16, value: u8 },
    OutW { port: u16, word: u16 },
    In { port: u16 },
    Load { port: u16 },
    Store { port: u16, keep: u8, set: u8 },
}

pub struct VgaView {
    pub cells: Seq<u16>,
    pub row: int,
    pub col: int,
    pub fg: Color,
    pub bg: Color,
    pub ops: Seq<PortOp>,
}

/// The screen memory and the driver registers.
pub struct Vga {
    cells: Vec<u16>,
    row: usize,
    col: usize,
    fg: Color,
    bg: Color,
    ops: Vec<PortOp>,
}

/// Cells of `old` with index `y * WIDTH + x` replaced by `e`, when that
/// index lies on the screen.
pub open spec fn put_cell(old: Seq<u16>, e: u16, x: int, y: int) -> Seq<u16> {
    if y * WIDTH + x < CELLS {
        old.update(y * WIDTH + x, e)
    } else {
        old
    }
}

pub open spec fn cursor_ops(pos: int) -> Seq<PortOp> {
    let p = pos % 65536;
    seq![
        PortOp::Out { port: CRTC_INDEX, value: 0x0F },
        PortOp::Out { port: CRTC_DATA, value: (p % 256) as u8 },
        PortOp::Out { port: CRTC_INDEX, value: 0x0E },
        PortOp::Out { port: CRTC_DATA, value: (p / 256) as u8 },
    ]
}

pub open spec fn enable_cursor_ops(start: u8, end: u8) -> Seq<PortOp> {
    seq![
        PortOp::Out { port: CRTC_INDEX, value: 0x0A },
        PortOp::Load { port: CRTC_DATA },
        PortOp::Store { port: CRTC_DATA, keep: 0xC0, set: start },
        PortOp::Out { port: CRTC_INDEX, value: 0x0B },
        PortOp::Load { port: CRTC_DATA },
        PortOp::Store { port: CRTC_DATA, keep: 0xE0, set: end },
    ]
}

pub open spec fn disable_cursor_ops() -> Seq<PortOp> {
    seq![PortOp::Out { port: CRTC_INDEX, value: 0x0A }, PortOp::Out { port: CRTC_DATA, value: 0x20 }]
}

/// Turns off attribute bit 3 (blinking) in the attribute-mode control
/// register, leaving the other bits, then re-enables video output.
pub open spec fn disable_blink_ops() -> Seq<PortOp> {
    seq![
        PortOp::In { port: 0x3DA },
        PortOp::Out { port: 0x3C0, value: 0x10 },
        PortOp::Load { port: 0x3C1 },
        PortOp::In { port: 0x3DA },
        PortOp::Out { port: 0x3C0, value: 0x10 },
        PortOp::Store { port: 0x3C0, keep: 0xF7, set: 0 },
        PortOp::In { port: 0x3DA },
        PortOp::Out { port: 0x3C0, value: 0x20 },
    ]
}

/// A whole screen of blank cells of the given colours.
pub open spec fn blank_screen(fg: Color, bg: Color) -> Seq<u16> {
    Seq::new(CELLS as nat, |i: int| cell(0x20, fg, bg))
}

impl View for Vga {
    type V = VgaView;

    closed spec fn view(&self) -> VgaView {
        VgaView {
            cells: self.cells@,
            row: self.row as int,
            col: self.col as int,
            fg: self.fg,
            bg: self.bg,
            ops: self.ops@,
        }
    }
}

impl Vga {
    pub open spec fn wf(&self) -> bool {
        self@.cells.len() == CELLS
    }

    /// The device as it is at power-on: memory blank, cursor at the origin,
    /// black on white, nothing to send.
    pub fn new() -> (r: Self)
        ensures
            r.wf(),
            r@.cells == blank_screen(Color::Black, Color::White),
            r@.row == 0,
            r@.col == 0,
            r@.fg == Color::Black,
            r@.bg == Color::White,
            r@.ops == Seq::<PortOp>::empty(),
    {
        let blank = entry(0x20u8, Color::Black, Color::White);
        let mut cells: Vec<u16> = Vec::new();
        let mut i: usize = 0;
        while i < CELLS
            invariant
                i <= CELLS,
                cells@.len() == i,
                blank == cell(0x20, Color::Black, Color::White),
                forall|j: int| 0 <= j < i ==> cells@[j] == blank,
            decreases CELLS - i,
        {
            cells.push(blank);
            i = i + 1;
        }
        assert(cells@ =~= blank_screen(Color::Black, Color::White));
        Vga { cells, row: 0, col: 0, fg: Color::Black, bg: Color::White, ops: Vec::new() }
    }

    /// The cell at index `i` of screen memory.
    pub fn cell_at(&self, i: usize) -> (r: u16)
        requires
            self.wf(),
            i < CELLS,
        ensures
            r == self@.cells[i as int],
    {
        self.cells[i]
    }

    /// Hands over the port operations accumulated so far, oldest first.
    pub fn take_port_ops(&mut self) -> (r: Vec<PortOp>)
        ensures
            r@ == old(self)@.ops,
            final(self)@ == (VgaView { ops: Seq::empty(), ..old(self)@ }),
            final(self).wf() == old(self).wf(),
    {
        let mut taken: Vec<PortOp> = Vec::new();
        std::mem::swap(&mut taken, &mut self.ops);
        taken
    }

    pub fn put_entry_at(&mut self, entry: u16, x: usize, y: usize)
        requires
            old(self).wf(),
        ensures
            final(self).wf(),
            final(self)@ == (VgaView {
                cells: put_cell(old(self)@.cells, entry, x as int, y as int),
                ..old(self)@
            }),
    {
        if y < HEIGHT && x < CELLS - y * WIDTH {
            self.cells.set(y * WIDTH + x, entry);
        }
    }

    fn clear_line(&mut self, line: usize)
        requires
            old(self).wf(),
            line < HEIGHT,
        ensures
            final(self).wf(),
            final(self)@ == (VgaView {
                cells: Seq::new(CELLS as nat, |i: int|
                    if i / WIDTH as int == line { cell(0x20, old(self)@.fg, old(self)@.bg) }
                    else { old(self)@.cells[i] }),
                ..old(self)@
            }),
    {
        let blank = entry(0x20u8, self.fg, self.bg);
        let ghost start = *self;
        let mut x: usize = 0;
        while x < WIDTH
            invariant
                x <= WIDTH,
                line < HEIGHT,
                self.wf(),
                blank == cell(0x20, start@.fg, start@.bg),
                self@ == (VgaView { cells: self@.cells, ..start@ }),
                forall|i: int| 0 <= i < CELLS ==> #[trigger] self@.cells[i] == if i / (WIDTH as int) == line && (i % (WIDTH as int)) < x { blank } else { start@.cells[i] },
            decreases WIDTH - x,
        {
            self.put_entry_at(blank, x, line);
            x = x + 1;
        }
        assert(self@.cells =~= Seq::new(CELLS as nat, |i: int|
                    if i / WIDTH as int == line { cell(0x20, start@.fg, start@.bg) }
                    else { start@.cells[i] }));
    }

    pub fn set_color(&mut self, fg: Color, bg: Color)
        ensures
            final(self).wf() == old(self).wf(),
            final(self)@ == (VgaView { fg, bg, ..old(self)@ }),
    {
        self.fg = fg;
        self.bg = bg;
    }

    pub fn set_position(&mut self, row: usize, col: usize)
        ensures
            final(self).wf() == old(self).wf(),
            final(self)@ == (VgaView { row: row as int, col: col as int, ..old(self)@ }),
    {
        self.row = row;
        self.col = col;
    }

    pub fn clear_screen(&mut self, fg: Color, bg: Color)
        requires
            old(self).wf(),
        ensures
            final(self).wf(),
            final(self)@ == (VgaView { cells: blank_screen(fg, bg), fg, bg, ..old(self)@ }),
    {
        self.set_color(fg, bg);
        let ghost start = *self;
        let mut y: usize = 0;
        while y < HEIGHT
            invariant
                y <= HEIGHT,
                self.wf(),
                self@ == (VgaView { cells: self@.cells, ..start@ }),
                start@.fg == fg,
                start@.bg == bg,
                forall|i: int| 0 <= i < CELLS ==> #[trigger] self@.cells[i] == if (i / (WIDTH as int)) < y { cell(0x20, fg, bg) } else { start@.cells[i] },
            decreases HEIGHT - y,
        {
            self.clear_line(y);
            y = y + 1;
        }
        assert(self@.cells =~= blank_screen(fg, bg));
    }

    pub fn enable_cursor(&mut self, start: u8, end: u8)
        ensures
            final(self).wf() == old(self).wf(),
            final(self)@ == (VgaView { ops: old(self)@.ops + enable_cursor_ops(start, end), ..old(self)@ }),
    {
        self.ops.push(PortOp::Out { port: CRTC_INDEX, value: 0x0A });
        self.ops.push(PortOp::Load { port: CRTC_DATA });
        self.ops.push(PortOp::Store { port: CRTC_DATA, keep: 0xC0, set: start });
        self.ops.push(PortOp::Out { port: CRTC_INDEX, value: 0x0B });
        self.ops.push(PortOp::Load { port: CRTC_DATA });
        self.ops.push(PortOp::Store { port: CRTC_DATA, keep: 0xE0, set: end });
        assert(self.ops@ =~= old(self)@.ops + enable_cursor_ops(start, end));
    }

    pub fn disable_cursor(&mut self)
        ensures
            final(self).wf() == old(self).wf(),
            final(self)@ == (VgaView { ops: old(self)@.ops + disable_cursor_ops(), ..old(self)@ }),
    {
        self.ops.push(PortOp::Out { port: CRTC_INDEX, value: 0x0A });
        self.ops.push(PortOp::Out { port: CRTC_DATA, value: 0x20 });
        assert(self.ops@ =~= old(self)@.ops + disable_cursor_ops());
    }

    /// Moves the hardware cursor to the driver's row and column.
    pub fn update_cursor(&mut self)
        requires
            old(self)@.row * WIDTH + old(self)@.col <= usize::MAX,
        ensures
            final(self).wf() == old(self).wf(),
            final(self)@ == (VgaView {
                ops: old(self)@.ops + cursor_ops(old(self)@.row * WIDTH + old(self)@.col),
                ..old(self)@
            }),
    {
        let p: usize = self.row * WIDTH + self.col;
        let pos: u16 = p as u16;
        let lo: u8 = pos as u8;
        let hi: u8 = (pos >> 8u16) as u8;
        assert(pos == p % 65536) by (bit_vector)
            requires pos == p as u16;
        assert(lo == pos % 256 && hi == pos / 256) by (bit_vector)
            requires lo == pos as u8, hi == (pos >> 8u16) as u8;
        self.ops.push(PortOp::Out { port: CRTC_INDEX, value: 0x0F });
        self.ops.push(PortOp::Out { port: CRTC_DATA, value: lo });
        self.ops.push(PortOp::Out { port: CRTC_INDEX, value: 0x0E });
        self.ops.push(PortOp::Out { port: CRTC_DATA, value: hi });
        assert(self.ops@ =~= old(self)@.ops + cursor_ops(old(self)@.row * WIDTH + old(self)@.col));
    }

    pub fn disable_blink(&mut self)
        ensures
            final(self).wf() == old(self).wf(),
            final(self)@ == (VgaView { ops: old(self)@.ops + disable_blink_ops(), ..old(self)@ }),
    {
        self.ops.push(PortOp::In { port: 0x3DA });
        self.ops.push(PortOp::Out { port: 0x3C0, value: 0x10 });
        self.ops.push(PortOp::Load { port: 0x3C1 });
        self.ops.push(PortOp::In { port: 0x3DA });
        self.ops.push(PortOp::Out { port: 0x3C0, value: 0x10 });
        self.ops.push(PortOp::Store { port: 0x3C0, keep: 0xF7, set: 0 });
        self.ops.push(PortOp::In { port: 0x3DA });
        self.ops.push(PortOp::Out { port: 0x3C0, value: 0x20 });
        assert(self.ops@ =~= old(self)@.ops + disable_blink_ops());
    }

    /// Resets the driver: origin cursor, black on white, screen cleared,
    /// cursor shape set to scan lines 14..15 and the cursor placed.
    pub fn init(&mut self)
        requires
            old(self).wf(),
        ensures
            final(self).wf(),
            final(self)@ == (VgaView {
                cells: blank_screen(Color::Black, Color::White),
                row: 0,
                col: 0,
                fg: Color::Black,
                bg: Color::White,
                ops: old(self)@.ops + enable_cursor_ops(14, 15) + cursor_ops(0),
            }),
    {
        self.row = 0;
        self.col = 0;
        self.bg = Color::White;
        self.fg = Color::Black;
        self.clear_screen(Color::Black, Color::White);
        self.enable_cursor(14, 15);
        self.update_cursor();
    }
}

/// The colour codes are the sixteen 4-bit attribute values, one per colour:
/// no two colours share a code, and each of the eight bright colours is
/// its dark counterpart with the intensity bit (8) set.
pub proof fn lemma_color_codes()
    ensures
        forall|c: Color| (#[trigger] c.code()) < 16,
        forall|a: Color, b: Color| #[trigger] a.code() == #[trigger] b.code() ==> a == b,
        Color::Black.code() == 0,
        Color::DarkGrey.code() == Color::Black.code() + 8,
        Color::LightBlue.code() == Color::Blue.code() + 8,
        Color::LightGreen.code() == Color::Green.code() + 8,
        Color::LightCyan.code() == Color::Cyan.code() + 8,
        Color::LightRed.code() == Color::Red.code() + 8,
        Color::LightMagenta.code() == Color::Magenta.code() + 8,
        Color::Yellow.code() == Color::Brown.code() + 8,
        Color::White.code() == Color::LightGrey.code() + 8,
        Color::Blue.code() == 1 && Color::Green.code() == 2 && Color::Red.code() == 4,
        Color::Cyan.code() == Color::Blue.code() + Color::Green.code(),
        Color::Magenta.code() == Color::Blue.code() + Color::Red.code(),
        Color::Brown.code() == Color::Green.code() + Color::Red.code(),
        Color::LightGrey.code() == Color::Blue.code() + Color::Green.code() + Color::Red.code(),
{
}

} // verus!
