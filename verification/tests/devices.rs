use kaname::drivers::cp437::encode;
use kaname::drivers::keyboard::{
    eoi, init_state, keyboard_handler, output_full, poll, snapshot_mods, Key, KeyEvent, KeyModifiers, KeyboardState, MediaKey,
    NavKey, RingBuffer, CAPS_LOCK, CTRL_RIGHT, SHIFT_LEFT,
};
use kaname::drivers::vga::{entry, Color, PortOp, Vga, CELLS, CRTC_DATA, CRTC_INDEX};

fn no_mods() -> KeyModifiers {
    KeyModifiers { shift: false, ctrl: false, alt: false, gui: false, caps_lock: false }
}

fn ev(c: u8) -> KeyEvent {
    KeyEvent { key: Key::Char(c), mods: no_mods() }
}

fn feed(state: &mut KeyboardState, rb: &mut RingBuffer, codes: &[u8]) -> Vec<bool> {
    codes.iter().map(|c| keyboard_handler(state, rb, *c)).collect()
}

fn drain(rb: &mut RingBuffer) -> Vec<KeyEvent> {
    let mut out = Vec::new();
    while let Some(e) = rb.pop() {
        out.push(e);
    }
    out
}

#[test]
fn vga_entry_packs_colours() {
    assert_eq!(entry(b'A', Color::White, Color::Blue), 0x1F41);
    assert_eq!(entry(b' ', Color::Black, Color::White), 0xF020);
    assert_eq!(entry(0, Color::Black, Color::Black), 0);
    assert_eq!(Color::LightMagenta.value(), 13);
}

#[test]
fn vga_new_is_blank_and_put_entry_writes_cell() {
    let mut v = Vga::new();
    for i in 0..CELLS {
        assert_eq!(v.cell_at(i), 0xF020);
    }
    v.put_entry_at(0x0741, 3, 2);
    assert_eq!(v.cell_at(2 * 80 + 3), 0x0741);
    // off-screen writes are ignored
    v.put_entry_at(0x0742, 0, 25);
    assert_eq!(v.cell_at(CELLS - 1), 0xF020);
    v.clear_screen(Color::Yellow, Color::Red);
    assert_eq!(v.cell_at(2 * 80 + 3), entry(b' ', Color::Yellow, Color::Red));
    assert!(v.take_port_ops().is_empty());
}

#[test]
fn vga_port_sequences() {
    let mut v = Vga::new();
    v.set_position(2, 5);
    v.update_cursor();
    assert_eq!(
        v.take_port_ops(),
        vec![
            PortOp::Out { port: CRTC_INDEX, value: 0x0F },
            PortOp::Out { port: CRTC_DATA, value: 165 },
            PortOp::Out { port: CRTC_INDEX, value: 0x0E },
            PortOp::Out { port: CRTC_DATA, value: 0 },
        ]
    );
    v.set_position(24, 79);
    v.update_cursor();
    let ops = v.take_port_ops();
    assert_eq!(ops[1], PortOp::Out { port: CRTC_DATA, value: (1999 % 256) as u8 });
    assert_eq!(ops[3], PortOp::Out { port: CRTC_DATA, value: (1999 / 256) as u8 });
    v.disable_cursor();
    assert_eq!(
        v.take_port_ops(),
        vec![PortOp::Out { port: CRTC_INDEX, value: 0x0A }, PortOp::Out { port: CRTC_DATA, value: 0x20 }]
    );
    v.enable_cursor(14, 15);
    let ops = v.take_port_ops();
    assert_eq!(ops.len(), 6);
    assert_eq!(ops[2], PortOp::Store { port: CRTC_DATA, keep: 0xC0, set: 14 });
    assert_eq!(ops[5], PortOp::Store { port: CRTC_DATA, keep: 0xE0, set: 15 });
    v.disable_blink();
    let ops = v.take_port_ops();
    assert_eq!(ops.len(), 8);
    assert_eq!(ops[5], PortOp::Store { port: 0x3C0, keep: 0xF7, set: 0 });
    assert_eq!(ops[7], PortOp::Out { port: 0x3C0, value: 0x20 });
}

#[test]
fn vga_init_resets() {
    let mut v = Vga::new();
    v.put_entry_at(0x1234, 0, 0);
    v.set_color(Color::Red, Color::Green);
    v.set_position(3, 3);
    v.init();
    assert_eq!(v.cell_at(0), 0xF020);
    let ops = v.take_port_ops();
    assert_eq!(ops.len(), 10);
    assert_eq!(ops[7], PortOp::Out { port: CRTC_DATA, value: 0 });
}

#[test]
fn cp437_encoding() {
    assert_eq!(encode('A'), 0x41);
    assert_eq!(encode('~'), 0x7E);
    assert_eq!(encode('░'), 0xB0);
    assert_eq!(encode('▀'), 0xDF);
    assert_eq!(encode('→'), 0x1A);
    assert_eq!(encode('é'), b'?');
}

#[test]
fn ring_buffer_fifo() {
    let mut rb = RingBuffer::new();
    assert_eq!(rb.len(), 0);
    assert_eq!(rb.pop(), None);
    rb.push(ev(b'a'));
    rb.push(ev(b'b'));
    assert_eq!(rb.len(), 2);
    assert_eq!(rb.pop(), Some(ev(b'a')));
    rb.push(ev(b'c'));
    assert_eq!(rb.pop(), Some(ev(b'b')));
    assert_eq!(rb.pop(), Some(ev(b'c')));
    assert_eq!(rb.pop(), None);
}

#[test]
fn ring_buffer_drops_when_full() {
    let mut rb = RingBuffer::new();
    for i in 0..300u32 {
        rb.push(ev((i % 256) as u8));
    }
    assert_eq!(rb.len(), 255);
    let out = drain(&mut rb);
    assert_eq!(out.len(), 255);
    assert_eq!(out[0], ev(0));
    assert_eq!(out[254], ev(254));
    // wraps around cleanly
    for i in 0..10u8 {
        rb.push(ev(i));
    }
    assert_eq!(drain(&mut rb), (0..10u8).map(ev).collect::<Vec<_>>());
}

#[test]
fn typing_letters_and_shift() {
    let mut s = init_state();
    let mut rb = RingBuffer::new();
    // a, shift down, a, shift up, 1
    let acks = feed(&mut s, &mut rb, &[0x1E, 0x2A, 0x1E, 0xAA, 0x02]);
    assert_eq!(acks, vec![false, true, false, true, false]);
    let out = drain(&mut rb);
    assert_eq!(out.len(), 3);
    assert_eq!(out[0], ev(b'a'));
    assert_eq!(out[1].key, Key::Char(b'A'));
    assert!(out[1].mods.shift);
    assert_eq!(out[2], ev(b'1'));
    assert_eq!(s, KeyboardState { mods: 0, ext: false });
}

#[test]
fn caps_lock_affects_letters_only() {
    let mut s = init_state();
    let mut rb = RingBuffer::new();
    feed(&mut s, &mut rb, &[0x3A, 0x10, 0x02, 0x2A, 0x10, 0x02]);
    assert_eq!(s.mods, CAPS_LOCK | SHIFT_LEFT);
    let keys: Vec<Key> = drain(&mut rb).iter().map(|e| e.key).collect();
    assert_eq!(keys, vec![Key::Char(b'Q'), Key::Char(b'1'), Key::Char(b'q'), Key::Char(b'!')]);
    // caps lock toggles off again
    feed(&mut s, &mut rb, &[0xAA, 0x3A]);
    assert_eq!(s.mods, 0);
}

#[test]
fn function_keys_and_release_codes() {
    let mut s = init_state();
    let mut rb = RingBuffer::new();
    let acks = feed(&mut s, &mut rb, &[0x3B, 0x44, 0x57, 0x58, 0xBB, 0x00]);
    assert_eq!(acks, vec![true, true, true, true, true, false]);
    let keys: Vec<Key> = drain(&mut rb).iter().map(|e| e.key).collect();
    assert_eq!(keys, vec![Key::Function(0), Key::Function(9), Key::Function(10), Key::Function(11)]);
}

#[test]
fn extended_sequences() {
    let mut s = init_state();
    let mut rb = RingBuffer::new();
    let acks = feed(&mut s, &mut rb, &[0xE0, 0x1D, 0xE0, 0x48, 0x1E, 0xE0, 0x9D, 0xE0, 0x20, 0xE0, 0x70]);
    assert!(acks[0] && acks[1] && acks[2] && acks[3]);
    let out = drain(&mut rb);
    assert_eq!(out.len(), 3);
    assert_eq!(out[0].key, Key::Nav(NavKey::ArrowUp));
    assert!(out[0].mods.ctrl);
    assert_eq!(out[1].key, Key::Char(b'a'));
    assert!(out[1].mods.ctrl);
    assert_eq!(out[2].key, Key::Media(MediaKey::Mute));
    assert!(!out[2].mods.ctrl);
    assert_eq!(s, KeyboardState { mods: 0, ext: false });
    // a right ctrl press leaves its bit until released
    feed(&mut s, &mut rb, &[0xE0, 0x1D]);
    assert_eq!(s.mods, CTRL_RIGHT);
}

#[test]
fn modifier_snapshot_and_controller_bits() {
    let m = snapshot_mods(SHIFT_LEFT | CAPS_LOCK | 64);
    assert!(m.shift && m.caps_lock && m.alt && !m.ctrl && !m.gui);
    assert_eq!(snapshot_mods(0), no_mods());
    assert_eq!(eoi(), (0x20, 0x20));
    assert!(output_full(1));
    assert!(output_full(0x1D));
    assert!(!output_full(0x1C));
    assert_eq!(KeyEvent::new(), KeyEvent { key: Key::Empty, mods: no_mods() });
}

#[test]
fn polling_reads_data_port_when_full() {
    assert_eq!(poll(0x01), Some(PortOp::In { port: 0x60 }));
    assert_eq!(poll(0x1D), Some(PortOp::In { port: 0x60 }));
    assert_eq!(poll(0x1C), None);
    assert_eq!(poll(0), None);
}
