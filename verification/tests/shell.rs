use kaname::drivers::keyboard::{Key, KeyEvent, KeyModifiers, NavKey};
use kaname::shell::{idle_action, IdleAction};
use kaname::drivers::vga::PortOp;
use kaname::shell::{parse_command, reboot_step, shutdown_ops, stack_dump, str_eq, Command};

fn s(v: &[u8]) -> String {
    String::from_utf8(v.to_vec()).unwrap()
}

#[test]
fn command_names() {
    assert_eq!(parse_command("halt"), Command::Halt);
    assert_eq!(parse_command("reboot"), Command::Reboot);
    assert_eq!(parse_command("stack"), Command::Stack);
    assert_eq!(parse_command("clear"), Command::Clear);
    assert_eq!(parse_command("shutdown"), Command::Shutdown);
    assert_eq!(parse_command("panic"), Command::Panic);
    assert_eq!(parse_command("help"), Command::Help);
    assert_eq!(parse_command("help memory"), Command::HelpMemory);
    assert_eq!(parse_command("help vga"), Command::HelpVga);
    assert_eq!(parse_command("terminfo"), Command::Terminfo);
    assert_eq!(parse_command(""), Command::Empty);
    assert_eq!(parse_command("help  vga"), Command::Unknown);
    assert_eq!(parse_command("Halt"), Command::Unknown);
    assert!(str_eq("abc", "abc"));
    assert!(!str_eq("abc", "abd"));
    assert!(!str_eq("ab", "abc"));
}

#[test]
fn reboot_waits_for_controller() {
    assert_eq!(reboot_step(0x02), None);
    assert_eq!(reboot_step(0xFF), None);
    assert_eq!(reboot_step(0x1D), Some(PortOp::Out { port: 0x64, value: 0xFE }));
    assert_eq!(reboot_step(0), Some(PortOp::Out { port: 0x64, value: 0xFE }));
}

#[test]
fn shutdown_port_writes() {
    assert_eq!(
        shutdown_ops(),
        vec![
            PortOp::OutW { port: 0x604, word: 0x2000 },
            PortOp::OutW { port: 0xB004, word: 0x2000 },
            PortOp::OutW { port: 0x4004, word: 0x3400 },
            PortOp::OutW { port: 0x600, word: 0x34 },
        ]
    );
}

#[test]
fn stack_dump_lines() {
    let mem: Vec<u8> = (0..40u8).map(|i| i + 0x40).collect();
    let lines = stack_dump(0x1014, 0x1000, &mem);
    assert_eq!(lines.len(), 3);
    assert_eq!(s(&lines[0]), "ESP=0x00001014  stack=[0x00001000, 0x00001028)");
    assert_eq!(s(&lines[1]), "00001010  50 51 52 53 54 55 56 57  58 59 5a 5b 5c 5d 5e 5f  PQRSTUVWXYZ[\\]^_");
    assert_eq!(
        s(&lines[2]),
        format!("00001020  60 61 62 63 64 65 66 67  {} `abcdefg{}", "   ".repeat(8), " ".repeat(8))
    );
}

#[test]
fn stack_dump_skips_below_and_marks_unprintable() {
    let mut mem = vec![0u8; 16];
    mem[1] = b'k';
    mem[2] = 0x7F;
    mem[3] = b' ';
    let lines = stack_dump(0xFF8, 0x1000, &mem);
    assert_eq!(lines.len(), 2);
    assert_eq!(s(&lines[0]), "ESP=0x00000ff8  stack=[0x00001000, 0x00001010)");
    assert_eq!(s(&lines[1]), "00001000  00 6b 7f 20 00 00 00 00  00 00 00 00 00 00 00 00  .k. ............");
}

#[test]
fn stack_dump_stops_after_32_lines() {
    let mem = vec![0x41u8; 1024];
    let lines = stack_dump(0x2000, 0x2000, &mem);
    assert_eq!(lines.len(), 33);
    assert!(s(&lines[32]).starts_with("000021f0  41 41"));
    let none = stack_dump(0x3000, 0x2000, &mem);
    assert_eq!(none.len(), 1);
}

#[test]
fn leftover_events() {
    let m = KeyModifiers { shift: false, ctrl: false, alt: false, gui: false, caps_lock: false };
    assert_eq!(idle_action(KeyEvent { key: Key::Function(3), mods: m }), IdleAction::SwitchTerminal(3));
    assert_eq!(idle_action(KeyEvent { key: Key::Char(b'x'), mods: m }), IdleAction::Print(b'x'));
    assert_eq!(idle_action(KeyEvent { key: Key::Nav(NavKey::Home), mods: m }), IdleAction::Nothing);
}
