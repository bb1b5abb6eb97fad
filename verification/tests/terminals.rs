use kaname::drivers::terminal::{self as tty, Ttys};
use kaname::drivers::vga::{entry, Color, Vga};
use kaname::terminal::Terminal;

fn ch(c: u8) -> u16 {
    entry(c, Color::Black, Color::White)
}

const BLANK: u16 = 0xF020;

fn row_text(v: &Vga, row: usize, x: usize, n: usize) -> Vec<u8> {
    (0..n).map(|i| (v.cell_at(row * 80 + x + i) & 0xFF) as u8).collect()
}

#[test]
fn write_and_flush_draws_text() {
    let mut v = Vga::new();
    let mut t = Terminal::new(0, 0, 80, 25);
    t.write("hi");
    assert_eq!(v.cell_at(0), BLANK);
    t.flush(&mut v);
    assert_eq!(v.cell_at(0), ch(b'h'));
    assert_eq!(v.cell_at(1), ch(b'i'));
    assert_eq!(v.cell_at(2), BLANK);
}

#[test]
fn newline_tab_and_carriage_return() {
    let mut v = Vga::new();
    let mut t = Terminal::new(0, 0, 80, 25);
    t.write("ab\ncd\ta\tb\rX");
    t.flush(&mut v);
    assert_eq!(row_text(&v, 0, 0, 3), b"ab ".to_vec());
    assert_eq!(row_text(&v, 1, 0, 2), b"Xd".to_vec());
    assert_eq!(v.cell_at(80 + 8), ch(b'a'));
    assert_eq!(v.cell_at(80 + 16), ch(b'b'));
}

#[test]
fn tab_stops_at_last_column() {
    let mut v = Vga::new();
    let mut t = Terminal::new(0, 0, 10, 2);
    t.write("\t\tz");
    t.flush(&mut v);
    assert_eq!(v.cell_at(9), ch(b'z'));
}

#[test]
fn long_line_wraps() {
    let mut v = Vga::new();
    let mut t = Terminal::new(0, 0, 4, 3);
    t.write("abcdef");
    t.flush(&mut v);
    assert_eq!(row_text(&v, 0, 0, 4), b"abcd".to_vec());
    assert_eq!(row_text(&v, 1, 0, 2), b"ef".to_vec());
    // nothing outside the terminal's columns
    assert_eq!(v.cell_at(4), BLANK);
}

#[test]
fn put_raw_then_backspace_restores_blank() {
    let mut v = Vga::new();
    let mut t = Terminal::new(0, 0, 80, 25);
    t.write("ab");
    t.put_raw(b'c', Color::Red, Color::Green);
    t.flush(&mut v);
    assert_eq!(v.cell_at(2), entry(b'c', Color::Red, Color::Green));
    t.backspace();
    t.flush(&mut v);
    assert_eq!(v.cell_at(2), BLANK);
    assert_eq!(v.cell_at(1), ch(b'b'));
    // backspace at the start of a line goes to the end of the line above
    t.write("\n");
    t.backspace();
    t.put_raw(b'q', Color::Black, Color::White);
    t.flush(&mut v);
    assert_eq!(v.cell_at(79), ch(b'q'));
}

#[test]
fn terminal_in_a_rectangle() {
    let mut v = Vga::new();
    let mut t = Terminal::new(10, 5, 20, 4);
    t.set_colors(Color::White, Color::Blue);
    t.write("z");
    t.flush(&mut v);
    assert_eq!(v.cell_at(5 * 80 + 10), entry(b'z', Color::White, Color::Blue));
    assert_eq!(v.cell_at(0), BLANK);
}

#[test]
fn scrolling_view() {
    let mut v = Vga::new();
    let mut t = Terminal::new(0, 0, 10, 2);
    t.write("1\n2\n3");
    t.flush(&mut v);
    assert_eq!(row_text(&v, 0, 0, 1), b"2".to_vec());
    assert_eq!(row_text(&v, 1, 0, 1), b"3".to_vec());
    assert!(t.view_follows_cursor());
    t.scroll_up(&mut v);
    assert!(t.view_row_is_top());
    assert_eq!(row_text(&v, 0, 0, 1), b"1".to_vec());
    assert_eq!(row_text(&v, 1, 0, 1), b"2".to_vec());
    // already at the top: nothing changes
    t.scroll_up(&mut v);
    assert_eq!(row_text(&v, 0, 0, 1), b"1".to_vec());
    t.scroll_down(&mut v);
    assert_eq!(row_text(&v, 0, 0, 1), b"2".to_vec());
    assert_eq!(row_text(&v, 1, 0, 1), b"3".to_vec());
    assert!(t.view_follows_cursor());
}

#[test]
fn clear_blanks_and_homes() {
    let mut v = Vga::new();
    let mut t = Terminal::new(0, 0, 80, 25);
    t.write("hello\nworld");
    t.flush(&mut v);
    t.clear(&mut v);
    assert_eq!(v.cell_at(0), BLANK);
    assert_eq!(v.cell_at(80), BLANK);
    t.write("x");
    t.flush(&mut v);
    assert_eq!(v.cell_at(0), ch(b'x'));
}

#[test]
fn scrollback_keeps_last_rows() {
    let mut v = Vga::new();
    let mut t = Terminal::with_scrollback(0, 0, 80, 2, 3);
    t.write("a\nb\nc\nd\ne");
    t.flush(&mut v);
    assert_eq!(row_text(&v, 0, 0, 1), b"d".to_vec());
    assert_eq!(row_text(&v, 1, 0, 1), b"e".to_vec());
    t.scroll_up(&mut v);
    // the buffer holds the last three rows: c, d, e
    assert_eq!(row_text(&v, 0, 0, 1), b"c".to_vec());
    assert_eq!(row_text(&v, 1, 0, 1), b"d".to_vec());
}

#[test]
fn resize_redraws_whole_area() {
    let mut v = Vga::new();
    let mut t = Terminal::new(0, 0, 80, 25);
    t.write("abc");
    t.flush(&mut v);
    t.resize(40, 0, 40, 25);
    t.flush(&mut v);
    assert_eq!(v.cell_at(40), ch(b'a'));
    assert_eq!(v.cell_at(42), ch(b'c'));
    t.mark_all_dirty();
    t.flush(&mut v);
    assert_eq!(v.cell_at(41), ch(b'b'));
}

#[test]
fn virtual_terminals_switch_and_write() {
    let mut v = Vga::new();
    let mut ttys = Ttys::new();
    tty::init(&mut ttys, &mut v);
    tty::write_to(&mut ttys, 0, "zero", &mut v);
    assert_eq!(row_text(&v, 0, 0, 4), b"zero".to_vec());
    // writing to a terminal that is not shown draws nothing
    tty::write_to(&mut ttys, 3, "three", &mut v);
    assert_eq!(row_text(&v, 0, 0, 4), b"zero".to_vec());
    tty::switch_to(&mut ttys, 3, &mut v);
    assert_eq!(row_text(&v, 0, 0, 5), b"three".to_vec());
    // out of range or already shown: ignored
    tty::switch_to(&mut ttys, 7, &mut v);
    tty::switch_to(&mut ttys, 3, &mut v);
    assert_eq!(row_text(&v, 0, 0, 5), b"three".to_vec());
    tty::put_raw(&mut ttys, b'!', Color::Black, Color::White, &mut v);
    assert_eq!(v.cell_at(5), ch(b'!'));
    tty::backspace(&mut ttys, &mut v);
    assert_eq!(v.cell_at(5), BLANK);
    tty::switch_to(&mut ttys, 0, &mut v);
    assert_eq!(row_text(&v, 0, 0, 5), b"zero ".to_vec());
    tty::clear(&mut ttys, &mut v);
    assert_eq!(v.cell_at(0), BLANK);
    tty::set_color(&mut ttys, Color::Green, Color::Black);
    tty::write_to(&mut ttys, 0, "g", &mut v);
    assert_eq!(v.cell_at(0), entry(b'g', Color::Green, Color::Black));
}

#[test]
fn virtual_terminal_scrolls_its_history() {
    let mut v = Vga::new();
    let mut ttys = Ttys::new();
    tty::init(&mut ttys, &mut v);
    let mut text = String::new();
    for i in 0..30 {
        text.push_str(&format!("{}\n", i % 10));
    }
    tty::write_to(&mut ttys, 0, &text, &mut v);
    // cursor on row 30: rows 6..30 shown
    assert_eq!(row_text(&v, 0, 0, 1), b"6".to_vec());
    tty::scroll_up(&mut ttys, &mut v);
    assert_eq!(row_text(&v, 0, 0, 1), b"0".to_vec());
    tty::scroll_down(&mut ttys, &mut v);
    assert_eq!(row_text(&v, 0, 0, 1), b"6".to_vec());
}

#[test]
fn writing_in_two_parts_is_writing_once() {
    let mut v1 = Vga::new();
    let mut a = Terminal::new(0, 0, 20, 5);
    a.write("ab\tc");
    a.write("d\nef");
    a.flush(&mut v1);
    let mut v2 = Vga::new();
    let mut b = Terminal::new(0, 0, 20, 5);
    b.write("ab\tcd\nef");
    b.flush(&mut v2);
    for i in 0..2000 {
        assert_eq!(v1.cell_at(i), v2.cell_at(i));
    }
}

#[test]
fn second_flush_draws_nothing_new() {
    let mut v = Vga::new();
    let mut t = Terminal::new(0, 0, 80, 25);
    t.write("abc");
    t.flush(&mut v);
    // overwrite a cell behind the terminal's back: a clean terminal leaves it
    v.put_entry_at(0x0758, 0, 0);
    t.flush(&mut v);
    assert_eq!(v.cell_at(0), 0x0758);
    t.mark_all_dirty();
    t.flush(&mut v);
    assert_eq!(v.cell_at(0), ch(b'a'));
}

#[test]
fn terminal_off_screen_then_moved_on() {
    let mut v = Vga::new();
    let mut t = Terminal::new(200, 100, 300, 40);
    t.resize(2, 1, 10, 3);
    t.write("hi");
    t.flush(&mut v);
    assert_eq!(v.cell_at(80 + 2), ch(b'h'));
    assert_eq!(v.cell_at(80 + 3), ch(b'i'));
}
