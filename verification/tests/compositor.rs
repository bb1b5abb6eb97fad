use kaname::compositor::{
    self, get_junction_char, get_terminfo, is_prefix_key, touches_active_pane, Axis, Compositor, KeyboardOutcome, Rect,
    Segment,
};
use kaname::drivers::keyboard::{Key, KeyEvent, KeyModifiers, NavKey, RingBuffer};
use kaname::drivers::vga::{entry, Color, Vga};
use kaname::shell::{execute_cmd, ShellAction};

fn mods(ctrl: bool) -> KeyModifiers {
    KeyModifiers { shift: false, ctrl, alt: false, gui: false, caps_lock: false }
}

fn key(c: u8) -> KeyEvent {
    KeyEvent { key: Key::Char(c), mods: mods(false) }
}

fn prefix() -> KeyEvent {
    KeyEvent { key: Key::Char(b'a'), mods: mods(true) }
}

fn setup() -> (Compositor, Vga) {
    let mut c = Compositor::new();
    let mut v = Vga::new();
    assert!(compositor::init(&mut c, &mut v));
    (c, v)
}

fn run(c: &mut Compositor, v: &mut Vga, events: &[KeyEvent]) -> KeyboardOutcome {
    let mut rb = RingBuffer::new();
    for e in events {
        rb.push(*e);
    }
    compositor::handle_keyboard(c, &mut rb, v)
}

fn command(c: &mut Compositor, v: &mut Vga, k: u8) {
    assert_eq!(run(c, v, &[prefix(), key(k)]), KeyboardOutcome::Drained);
}

fn text(v: &Vga, row: usize, x: usize, n: usize) -> Vec<u8> {
    (0..n).map(|i| (v.cell_at(row * 80 + x + i) & 0xFF) as u8).collect()
}

fn full() -> Rect {
    Rect::new(0, 0, 80, 24)
}

#[test]
fn rect_merge_and_width() {
    let a = Rect::new(0, 0, 40, 24);
    let b = Rect::new(41, 0, 39, 24);
    assert_eq!(a.merge_with(b), full());
    assert_eq!(b.merge_with(a), full());
    let top = Rect::new(0, 0, 80, 12);
    let bottom = Rect::new(0, 13, 80, 11);
    assert_eq!(bottom.merge_with(top), full());
    assert!(full().is_full_width());
    assert!(!a.is_full_width());
}

#[test]
fn segments_and_junctions() {
    let v = Segment { axis: Axis::Vertical, offset: 40, start: 0, end: 24 };
    let h = Segment { axis: Axis::Horizontal, offset: 12, start: 0, end: 80 };
    assert_eq!(v.intersect(&h), Some((40, 12)));
    let short = Segment { axis: Axis::Horizontal, offset: 12, start: 41, end: 80 };
    assert_eq!(v.intersect(&short), None);
    assert_eq!(get_junction_char(&v, &h), '┼');
    let right = Segment { axis: Axis::Horizontal, offset: 12, start: 40, end: 80 };
    assert_eq!(get_junction_char(&v, &right), '├');
    let left = Segment { axis: Axis::Horizontal, offset: 12, start: 0, end: 41 };
    assert_eq!(get_junction_char(&v, &left), '┤');
    let low = Segment { axis: Axis::Vertical, offset: 40, start: 12, end: 24 };
    assert_eq!(get_junction_char(&low, &h), '┬');
    let high = Segment { axis: Axis::Vertical, offset: 40, start: 0, end: 13 };
    assert_eq!(get_junction_char(&high, &h), '┴');
}

#[test]
fn prefix_key_is_ctrl_a() {
    assert!(is_prefix_key(prefix()));
    assert!(!is_prefix_key(key(b'a')));
    assert!(!is_prefix_key(KeyEvent { key: Key::Char(b'b'), mods: mods(true) }));
}

#[test]
fn border_highlight() {
    let r = Rect::new(41, 1, 39, 20);
    assert!(touches_active_pane(r, 40, 5));
    assert!(touches_active_pane(r, 40, 21));
    assert!(!touches_active_pane(r, 40, 22));
    assert!(!touches_active_pane(r, 39, 5));
    let b = Rect::new(1, 13, 79, 11);
    assert!(touches_active_pane(b, 10, 12));
    assert!(!touches_active_pane(b, 10, 11));
    // a pane on the top row or the left column: the range that starts one
    // before it wraps around and holds nothing
    assert!(!touches_active_pane(Rect::new(41, 0, 39, 24), 40, 5));
    assert!(!touches_active_pane(Rect::new(0, 13, 80, 11), 10, 12));
}

#[test]
fn init_draws_prompt_and_status_bar() {
    let (c, v) = setup();
    assert_eq!(v.cell_at(0), entry(b'>', Color::Red, Color::White));
    assert_eq!(v.cell_at(1), entry(b' ', Color::Red, Color::White));
    for x in 0..80 {
        assert_eq!(v.cell_at(24 * 80 + x), entry(b' ', Color::White, Color::Green));
    }
    assert_eq!(get_terminfo(&c), Some(full()));
}

#[test]
fn typing_echoes_and_enter_hands_line_over() {
    let (mut c, mut v) = setup();
    let events: Vec<KeyEvent> = b"hx".iter().map(|b| key(*b)).collect();
    assert_eq!(run(&mut c, &mut v, &events), KeyboardOutcome::Drained);
    assert_eq!(text(&v, 0, 0, 4), b"> hx".to_vec());
    assert_eq!(v.cell_at(2), entry(b'h', Color::Black, Color::White));
    // backspace forgets the last character
    assert_eq!(run(&mut c, &mut v, &[key(0x08), key(b'i'), key(b'\n'), key(b'z')]), KeyboardOutcome::Command);
    assert_eq!(c.entered_line(), Some(b"hi".to_vec()));
    assert!(c.finish_command(&mut v));
    assert_eq!(c.entered_line(), Some(Vec::new()));
    assert_eq!(text(&v, 1, 0, 2), b"> ".to_vec());
}

#[test]
fn prefix_arms_status_bar() {
    let (mut c, mut v) = setup();
    let mut rb = RingBuffer::new();
    rb.push(prefix());
    assert_eq!(c.handle_keyboard(&mut rb, &mut v), KeyboardOutcome::Drained);
    assert_eq!(v.cell_at(24 * 80), entry(b' ', Color::White, Color::Cyan));
    // the prefix twice sends the chord on to the pane, which types it
    rb.push(prefix());
    assert_eq!(c.handle_keyboard(&mut rb, &mut v), KeyboardOutcome::Drained);
    assert_eq!(v.cell_at(24 * 80), entry(b' ', Color::White, Color::Green));
    assert_eq!(text(&v, 0, 0, 3), b"> a".to_vec());
}

#[test]
fn split_vertical_draws_divider() {
    let (mut c, mut v) = setup();
    command(&mut c, &mut v, b'v');
    assert_eq!(get_terminfo(&c), Some(Rect::new(41, 0, 39, 24)));
    assert_eq!(v.cell_at(41), entry(b'>', Color::Red, Color::White));
    for y in 0..24 {
        assert_eq!(v.cell_at(y * 80 + 40), entry(0xB3, Color::Green, Color::White));
    }
}

#[test]
fn split_horizontal_then_vertical_draws_junction() {
    let (mut c, mut v) = setup();
    command(&mut c, &mut v, b's');
    assert_eq!(get_terminfo(&c), Some(Rect::new(0, 13, 80, 11)));
    assert_eq!(v.cell_at(12 * 80 + 5), entry(0xC4, Color::Green, Color::White));
    command(&mut c, &mut v, b'v');
    assert_eq!(get_terminfo(&c), Some(Rect::new(41, 13, 39, 11)));
    // the vertical line meets the horizontal one from below
    assert_eq!(v.cell_at(12 * 80 + 40), entry(0xC2, Color::Blue, Color::White));
}

#[test]
fn split_then_close_restores_layout() {
    let (mut c, mut v) = setup();
    command(&mut c, &mut v, b'v');
    command(&mut c, &mut v, b'q');
    assert_eq!(get_terminfo(&c), Some(full()));
    command(&mut c, &mut v, b's');
    command(&mut c, &mut v, b'q');
    assert_eq!(get_terminfo(&c), Some(full()));
}

#[test]
fn focus_moves_and_comes_back() {
    let (mut c, mut v) = setup();
    command(&mut c, &mut v, b'v');
    command(&mut c, &mut v, b'h');
    assert_eq!(get_terminfo(&c), Some(Rect::new(0, 0, 40, 24)));
    command(&mut c, &mut v, b'l');
    assert_eq!(get_terminfo(&c), Some(Rect::new(41, 0, 39, 24)));
    // moving across the other axis changes nothing
    command(&mut c, &mut v, b'j');
    assert_eq!(get_terminfo(&c), Some(Rect::new(41, 0, 39, 24)));
}

#[test]
fn closing_the_last_pane_faults() {
    let (mut c, mut v) = setup();
    assert_eq!(run(&mut c, &mut v, &[prefix(), key(b'q')]), KeyboardOutcome::Fault);
}

#[test]
fn function_key_switches_window() {
    let (mut c, mut v) = setup();
    command(&mut c, &mut v, b'v');
    let f2 = KeyEvent { key: Key::Function(1), mods: mods(false) };
    assert_eq!(run(&mut c, &mut v, &[f2]), KeyboardOutcome::Drained);
    assert_eq!(get_terminfo(&c), Some(full()));
    // the new window has no divider
    assert_eq!(v.cell_at(40), entry(b' ', Color::Black, Color::White));
    let f1 = KeyEvent { key: Key::Function(0), mods: mods(false) };
    assert_eq!(run(&mut c, &mut v, &[f1]), KeyboardOutcome::Drained);
    assert_eq!(get_terminfo(&c), Some(Rect::new(41, 0, 39, 24)));
    assert_eq!(v.cell_at(40), entry(0xB3, Color::Green, Color::White));
}

#[test]
fn page_keys_scroll_the_pane() {
    let (mut c, mut v) = setup();
    assert!(c.write_str("1\n2\n3\n4\n5\n6\n7\n8\n9\n10\n11\n12\n13\n14\n15\n16\n17\n18\n19\n20\n21\n22\n23\n24\n25", &mut v));
    assert_eq!(text(&v, 0, 0, 1), b"2".to_vec());
    let up = KeyEvent { key: Key::Nav(NavKey::PageUp), mods: mods(false) };
    assert_eq!(run(&mut c, &mut v, &[up]), KeyboardOutcome::Drained);
    assert_eq!(text(&v, 0, 0, 3), b"> 1".to_vec());
    let down = KeyEvent { key: Key::Nav(NavKey::PageDown), mods: mods(false) };
    assert_eq!(run(&mut c, &mut v, &[down]), KeyboardOutcome::Drained);
    assert_eq!(text(&v, 0, 0, 1), b"2".to_vec());
}

#[test]
fn shell_commands() {
    let (mut c, mut v) = setup();
    assert_eq!(execute_cmd("terminfo", &mut c, &mut v), ShellAction::Done);
    assert_eq!(text(&v, 0, 0, 14), b"> 80x24 at 0x0".to_vec());
    assert_eq!(execute_cmd("frobnicate", &mut c, &mut v), ShellAction::Done);
    assert_eq!(text(&v, 1, 0, 27), b"Unknown command: frobnicate".to_vec());
    assert_eq!(execute_cmd("", &mut c, &mut v), ShellAction::Done);
    assert_eq!(execute_cmd("reboot", &mut c, &mut v), ShellAction::Reboot);
    assert_eq!(execute_cmd("stack", &mut c, &mut v), ShellAction::Stack);
    assert_eq!(execute_cmd("shutdown", &mut c, &mut v), ShellAction::Shutdown);
    assert_eq!(execute_cmd("panic", &mut c, &mut v), ShellAction::Panic);
    assert_eq!(execute_cmd("help", &mut c, &mut v), ShellAction::Done);
    assert_eq!(text(&v, 2, 0, 30), b"halt        - Halt the machine".to_vec());
    assert_eq!(execute_cmd("clear", &mut c, &mut v), ShellAction::Done);
    assert_eq!(v.cell_at(0), entry(b' ', Color::Black, Color::White));
    assert_eq!(execute_cmd("halt", &mut c, &mut v), ShellAction::Halt);
    assert_eq!(text(&v, 0, 0, 14), b"System halted.".to_vec());
}

#[test]
fn terminfo_in_a_split_pane() {
    let (mut c, mut v) = setup();
    command(&mut c, &mut v, b's');
    assert_eq!(execute_cmd("terminfo", &mut c, &mut v), ShellAction::Done);
    assert_eq!(text(&v, 13, 0, 15), b"> 80x11 at 0x13".to_vec());
}

#[test]
fn help_memory_needs_full_width() {
    let (mut c, mut v) = setup();
    command(&mut c, &mut v, b'v');
    assert_eq!(execute_cmd("help memory", &mut c, &mut v), ShellAction::Done);
    assert_eq!(text(&v, 0, 41, 15), b"> Cannot displa".to_vec());
}

#[test]
fn split_halves_merge_back_in_either_order() {
    for r in [Rect::new(0, 0, 80, 24), Rect::new(1000, 2000, 7, 3), Rect::new(5, 5, 1, 1), Rect::new(3, 9, 2, 2)] {
        let a = Rect::new(r.x, r.y, r.w / 2, r.h);
        let b = Rect::new(r.x + r.w / 2 + 1, r.y, r.w - r.w / 2 - 1, r.h);
        let c = Rect::new(r.x, r.y, r.w, r.h / 2);
        let d = Rect::new(r.x, r.y + r.h / 2 + 1, r.w, r.h - r.h / 2 - 1);
        assert_eq!(a.merge_with(b), r);
        assert_eq!(b.merge_with(a), r);
        assert_eq!(c.merge_with(d), r);
        assert_eq!(d.merge_with(c), r);
    }
}

#[test]
fn focus_crosses_a_divider_higher_up() {
    let (mut c, mut v) = setup();
    command(&mut c, &mut v, b'v');
    command(&mut c, &mut v, b's');
    assert_eq!(get_terminfo(&c), Some(Rect::new(41, 13, 39, 11)));
    command(&mut c, &mut v, b'h');
    assert_eq!(get_terminfo(&c), Some(Rect::new(0, 0, 40, 24)));
    // back across the same divider: the first half of the right column
    command(&mut c, &mut v, b'l');
    assert_eq!(get_terminfo(&c), Some(Rect::new(41, 0, 39, 12)));
}

#[test]
fn focus_keeps_its_row_or_column_in_a_grid() {
    let (mut c, mut v) = setup();
    command(&mut c, &mut v, b's');
    command(&mut c, &mut v, b'v');
    assert_eq!(get_terminfo(&c), Some(Rect::new(41, 13, 39, 11)));
    command(&mut c, &mut v, b'k');
    assert_eq!(get_terminfo(&c), Some(Rect::new(0, 0, 80, 12)));
    command(&mut c, &mut v, b'v');
    assert_eq!(get_terminfo(&c), Some(Rect::new(41, 0, 39, 12)));
    command(&mut c, &mut v, b'j');
    assert_eq!(get_terminfo(&c), Some(Rect::new(41, 13, 39, 11)));
    command(&mut c, &mut v, b'h');
    assert_eq!(get_terminfo(&c), Some(Rect::new(0, 13, 40, 11)));
    command(&mut c, &mut v, b'k');
    assert_eq!(get_terminfo(&c), Some(Rect::new(0, 0, 40, 12)));
    command(&mut c, &mut v, b'l');
    assert_eq!(get_terminfo(&c), Some(Rect::new(41, 0, 39, 12)));
}
