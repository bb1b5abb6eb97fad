//! The shell run on a line typed in a pane: built-in commands that print
//! to the compositor, and the ones that need the machine itself, which are
//! handed back to the platform layer.
use vstd::prelude::*;
use crate::compositor::{get_terminfo, put_raw, CompView, Compositor, Rect};
use crate::drivers::vga::{Color, PortOp, Vga, VgaView, WIDTH};
use crate::drivers::keyboard::{Key, KeyEvent};

verus! {

#[derive(Clone, Copy, PartialEq, Eq, Structural, Debug)]
pub enum Command {
    Halt,
    Reboot,
    Stack,
    Clear,
    Shutdown,
    Panic,
    Help,
    HelpMemory,
    HelpVga,
    Terminfo,
    Empty,
    Unknown,
}

/// What is left to do after a command: nothing, or a machine action.
#[derive(Clone, Copy, PartialEq, Eq, Structural, Debug)]
pub enum ShellAction {
    Done,
    /// Stop the machine (the message is printed and the cursor hidden).
    Halt,
    /// Pulse the keyboard controller's reset line.
    Reboot,
    /// Dump the kernel stack.
    Stack,
    /// Try the emulators' power-off ports, then panic.
    Shutdown,
    /// Panic on purpose.
    Panic,
    /// The compositor could not carry the command out (a fatal error for
    /// the kernel).
    Fault,
}

/// The keyboard controller's status and command port.
pub const KBC_PORT: u16 = 0x64;

/// The keyboard controller command that pulses the reset line.
pub const KBC_RESET: u8 = 0xFE;

/// One step of a reboot, given the keyboard controller's status byte: wait
/// (`None`) while its input buffer is full (bit 1), else send the reset
/// pulse.
pub fn reboot_step(status: u8) -> (r: Option<PortOp>)
    ensures
        status & 2 != 0 ==> r is None,
        status & 2 == 0 ==> r == Some(PortOp::Out { port: KBC_PORT, value: KBC_RESET }),
{
    if status & 2 != 0 {
        None
    } else {
        Some(PortOp::Out { port: KBC_PORT, value: KBC_RESET })
    }
}

/// The power-off writes tried in turn, one per emulator: QEMU 2.0 and
/// later, Bochs and older QEMU, VirtualBox, Cloud Hypervisor. When none
/// takes effect the machine panics.
pub fn shutdown_ops() -> (r: Vec<PortOp>)
    ensures
        r@ == seq![
            PortOp::OutW { port: 0x604, word: 0x2000 },
            PortOp::OutW { port: 0xB004, word: 0x2000 },
            PortOp::OutW { port: 0x4004, word: 0x3400 },
            PortOp::OutW { port: 0x600, word: 0x34 },
        ],
{
    let mut r: Vec<PortOp> = Vec::new();
    r.push(PortOp::OutW { port: 0x604, word: 0x2000 });
    r.push(PortOp::OutW { port: 0xB004, word: 0x2000 });
    r.push(PortOp::OutW { port: 0x4004, word: 0x3400 });
    r.push(PortOp::OutW { port: 0x600, word: 0x34 });
    r
}

/// What the main loop does with a key event that is still queued after the
/// compositor has handled the keyboard.
#[derive(Clone, Copy, PartialEq, Eq, Structural, Debug)]
pub enum IdleAction {
    /// Show this virtual terminal.
    SwitchTerminal(u8),
    /// Print this character.
    Print(u8),
    Nothing,
}

/// A function key shows the terminal of its number, a character is
/// printed, any other key is dropped.
pub fn idle_action(event: KeyEvent) -> (r: IdleAction)
    ensures
        r == match event.key {
            Key::Function(f) => IdleAction::SwitchTerminal(f),
            Key::Char(c) => IdleAction::Print(c),
            _ => IdleAction::Nothing,
        },
{
    match event.key {
        Key::Function(f) => IdleAction::SwitchTerminal(f),
        Key::Char(c) => IdleAction::Print(c),
        _ => IdleAction::Nothing,
    }
}

pub open spec fn command_of(s: Seq<char>) -> Command {
    if s == "halt"@ {
        Command::Halt
    } else if s == "reboot"@ {
        Command::Reboot
    } else if s == "stack"@ {
        Command::Stack
    } else if s == "clear"@ {
        Command::Clear
    } else if s == "shutdown"@ {
        Command::Shutdown
    } else if s == "panic"@ {
        Command::Panic
    } else if s == "help"@ {
        Command::Help
    } else if s == "help memory"@ {
        Command::HelpMemory
    } else if s == "help vga"@ {
        Command::HelpVga
    } else if s == "terminfo"@ {
        Command::Terminfo
    } else if s.len() == 0 {
        Command::Empty
    } else {
        Command::Unknown
    }
}

pub fn str_eq(a: &str, b: &str) -> (r: bool)
    ensures
        r == (a@ == b@),
{
    let n = a.unicode_len();
    if n != b.unicode_len() {
        return false;
    }
    let mut i: usize = 0;
    while i < n
        invariant
            n == a@.len(),
            n == b@.len(),
            i <= n,
            forall|j: int| 0 <= j < i ==> a@[j] == b@[j],
        decreases n - i,
    {
        if a.get_char(i) != b.get_char(i) {
            return false;
        }
        i = i + 1;
    }
    assert(a@ =~= b@);
    true
}

pub fn parse_command(command: &str) -> (r: Command)
    ensures
        r == command_of(command@),
{
    if str_eq(command, "halt") {
        Command::Halt
    } else if str_eq(command, "reboot") {
        Command::Reboot
    } else if str_eq(command, "stack") {
        Command::Stack
    } else if str_eq(command, "clear") {
        Command::Clear
    } else if str_eq(command, "shutdown") {
        Command::Shutdown
    } else if str_eq(command, "panic") {
        Command::Panic
    } else if str_eq(command, "help") {
        Command::Help
    } else if str_eq(command, "help memory") {
        Command::HelpMemory
    } else if str_eq(command, "help vga") {
        Command::HelpVga
    } else if str_eq(command, "terminfo") {
        Command::Terminfo
    } else if command.unicode_len() == 0 {
        Command::Empty
    } else {
        Command::Unknown
    }
}

/// Writing the texts `ts` to the compositor one after the other.
pub open spec fn write_all(c: CompView, v: VgaView, ts: Seq<Seq<char>>) -> Option<(CompView, VgaView)>
    decreases ts.len(),
{
    if ts.len() == 0 {
        Some((c, v))
    } else {
        match write_all(c, v, ts.drop_last()) {
            None => None,
            Some((c1, v1)) => c1.write_result(v1, ts.last()),
        }
    }
}

/// A line as `println!` writes it: the text, then the line break.
pub open spec fn line(s: Seq<char>) -> Seq<Seq<char>> {
    seq![s, "\n"@]
}

fn write_texts(comp: &mut Compositor, texts: &Vec<&str>, vga: &mut Vga) -> (ok: bool)
    requires
        old(comp).wf(),
        old(vga).wf(),
    ensures
        ok == write_all(old(comp)@, old(vga)@, texts@.map_values(|t: &str| t@)) is Some,
        ok ==> final(comp).wf() && final(vga).wf()
            && (final(comp)@, final(vga)@) == write_all(old(comp)@, old(vga)@, texts@.map_values(|t: &str| t@))->0,
{
    let ghost ts = texts@.map_values(|t: &str| t@);
    let mut i: usize = 0;
    while i < texts.len()
        invariant
            i <= texts@.len(),
            ts == texts@.map_values(|t: &str| t@),
            comp.wf(),
            vga.wf(),
            write_all(old(comp)@, old(vga)@, ts.take(i as int)) == Some((comp@, vga@)),
        decreases texts@.len() - i,
    {
        assert(ts.take(i + 1).drop_last() =~= ts.take(i as int));
        if !comp.write_str(texts[i], vga) {
            proof {
                lemma_write_all_stops(old(comp)@, old(vga)@, ts, i as int);
            }
            return false;
        }
        i = i + 1;
    }
    assert(ts.take(texts@.len() as int) =~= ts);
    true
}

/// Once a write in the sequence fails, the whole sequence fails.
proof fn lemma_write_all_stops(c: CompView, v: VgaView, ts: Seq<Seq<char>>, i: int)
    requires
        0 <= i < ts.len(),
        write_all(c, v, ts.take(i + 1)) is None,
    ensures
        write_all(c, v, ts) is None,
    decreases ts.len() - i,
{
    if i + 1 < ts.len() {
        assert(ts.take(i + 2).drop_last() =~= ts.take(i + 1));
        lemma_write_all_stops(c, v, ts, i + 1);
    } else {
        assert(ts.take(i + 1) =~= ts);
    }
}

/// Writing `a` then `b` is writing `a + b`; a failure in `a` fails both.
proof fn lemma_write_all_concat(c: CompView, v: VgaView, a: Seq<Seq<char>>, b: Seq<Seq<char>>)
    ensures
        write_all(c, v, a + b) == match write_all(c, v, a) {
            None => None,
            Some((c1, v1)) => write_all(c1, v1, b),
        },
    decreases b.len(),
{
    if b.len() == 0 {
        assert(a + b =~= a);
    } else {
        assert((a + b).drop_last() =~= a + b.drop_last());
        assert((a + b).last() == b.last());
        lemma_write_all_concat(c, v, a, b.drop_last());
    }
}

pub open spec fn digit_char(d: nat) -> char {
    if d == 0 { '0' }
    else if d == 1 { '1' }
    else if d == 2 { '2' }
    else if d == 3 { '3' }
    else if d == 4 { '4' }
    else if d == 5 { '5' }
    else if d == 6 { '6' }
    else if d == 7 { '7' }
    else if d == 8 { '8' }
    else { '9' }
}

/// The decimal digits of `n`, most significant first, each written on its
/// own.
pub open spec fn decimal_pieces(n: nat) -> Seq<Seq<char>>
    decreases n,
{
    if n < 10 {
        seq![seq![digit_char(n)]]
    } else {
        decimal_pieces(n / 10).push(seq![digit_char(n % 10)])
    }
}

fn digit_str(d: usize) -> (r: &'static str)
    requires
        d < 10,
    ensures
        r@ == seq![digit_char(d as nat)],
{
    proof {
        reveal_strlit("0");
        reveal_strlit("1");
        reveal_strlit("2");
        reveal_strlit("3");
        reveal_strlit("4");
        reveal_strlit("5");
        reveal_strlit("6");
        reveal_strlit("7");
        reveal_strlit("8");
        reveal_strlit("9");
    }
    if d == 0 { "0" }
    else if d == 1 { "1" }
    else if d == 2 { "2" }
    else if d == 3 { "3" }
    else if d == 4 { "4" }
    else if d == 5 { "5" }
    else if d == 6 { "6" }
    else if d == 7 { "7" }
    else if d == 8 { "8" }
    else { "9" }
}

/// Writes `n` in decimal in the focused pane.
fn write_decimal(comp: &mut Compositor, n: usize, vga: &mut Vga) -> (ok: bool)
    requires
        old(comp).wf(),
        old(vga).wf(),
    ensures
        ok == write_all(old(comp)@, old(vga)@, decimal_pieces(n as nat)) is Some,
        ok ==> final(comp).wf() && final(vga).wf()
            && (final(comp)@, final(vga)@) == write_all(old(comp)@, old(vga)@, decimal_pieces(n as nat))->0,
    decreases n,
{
    let ghost c0 = comp@;
    let ghost v0 = vga@;
    let ghost pre = decimal_pieces(n as nat).drop_last();
    let d = digit_str(n % 10);
    assert(decimal_pieces(n as nat) =~= pre.push(d@));
    if n >= 10 {
        assert(pre =~= decimal_pieces((n / 10) as nat));
        if !write_decimal(comp, n / 10, vga) {
            return false;
        }
    } else {
        assert(pre =~= Seq::<Seq<char>>::empty());
    }
    write_next(comp, d, vga, Ghost(c0), Ghost(v0), Ghost(pre))
}

/// What `terminfo` prints: "{w}x{h} at {x}x{y}" and a line break.
pub open spec fn terminfo_texts(r: Rect) -> Seq<Seq<char>> {
    decimal_pieces(r.w as nat) + seq!["x"@] + decimal_pieces(r.h as nat) + seq![" at "@] + decimal_pieces(r.x as nat) + seq![
        "x"@,
    ] + decimal_pieces(r.y as nat) + seq!["\n"@]
}

/// What an unknown command prints.
pub open spec fn unknown_texts(command: Seq<char>) -> Seq<Seq<char>> {
    seq!["Unknown command: "@, command, "\n"@]
}

/// Writes one text, as the next of a sequence already written from
/// `(c0, v0)`.
fn write_next(comp: &mut Compositor, t: &str, vga: &mut Vga, Ghost(c0): Ghost<CompView>, Ghost(v0): Ghost<VgaView>, Ghost(done): Ghost<Seq<Seq<char>>>) -> (ok: bool)
    requires
        old(comp).wf(),
        old(vga).wf(),
        write_all(c0, v0, done) == Some((old(comp)@, old(vga)@)),
    ensures
        ok == write_all(c0, v0, done.push(t@)) is Some,
        ok ==> final(comp).wf() && final(vga).wf() && write_all(c0, v0, done.push(t@)) == Some((final(comp)@, final(vga)@)),
{
    assert(done.push(t@).drop_last() =~= done);
    comp.write_str(t, vga)
}

/// Writes the decimal digits of `n`, as the next texts of a sequence
/// already written from `(c0, v0)`.
fn write_decimal_next(comp: &mut Compositor, n: usize, vga: &mut Vga, Ghost(c0): Ghost<CompView>, Ghost(v0): Ghost<VgaView>, Ghost(done): Ghost<Seq<Seq<char>>>) -> (ok: bool)
    requires
        old(comp).wf(),
        old(vga).wf(),
        write_all(c0, v0, done) == Some((old(comp)@, old(vga)@)),
    ensures
        ok == write_all(c0, v0, done + decimal_pieces(n as nat)) is Some,
        ok ==> final(comp).wf() && final(vga).wf() && write_all(c0, v0, done + decimal_pieces(n as nat)) == Some((final(comp)@, final(vga)@)),
{
    proof {
        lemma_write_all_concat(c0, v0, done, decimal_pieces(n as nat));
    }
    write_decimal(comp, n, vga)
}

/// Prints the focused pane's rectangle as `terminfo` does.
#[verifier::rlimit(30)]
fn command_terminfo(comp: &mut Compositor, r: Rect, vga: &mut Vga) -> (ok: bool)
    requires
        old(comp).wf(),
        old(vga).wf(),
    ensures
        ok == write_all(old(comp)@, old(vga)@, terminfo_texts(r)) is Some,
        ok ==> final(comp).wf() && final(vga).wf()
            && (final(comp)@, final(vga)@) == write_all(old(comp)@, old(vga)@, terminfo_texts(r))->0,
{
    let ghost c0 = comp@;
    let ghost v0 = vga@;
    let ghost s0: Seq<Seq<char>> = Seq::empty();
    proof {
        reveal_strlit("x");
        reveal_strlit(" at ");
        reveal_strlit("\n");
    }
    let ghost s1 = s0 + decimal_pieces(r.w as nat);
    let ghost s2 = s1.push("x"@);
    let ghost s3 = s2 + decimal_pieces(r.h as nat);
    let ghost s4 = s3.push(" at "@);
    let ghost s5 = s4 + decimal_pieces(r.x as nat);
    let ghost s6 = s5.push("x"@);
    let ghost s7 = s6 + decimal_pieces(r.y as nat);
    let ghost s8 = s7.push("\n"@);
    assert(s8 =~= terminfo_texts(r));
    let ghost rest1 = s8.subrange(s1.len() as int, s8.len() as int);
    let ghost rest2 = s8.subrange(s2.len() as int, s8.len() as int);
    let ghost rest3 = s8.subrange(s3.len() as int, s8.len() as int);
    let ghost rest4 = s8.subrange(s4.len() as int, s8.len() as int);
    let ghost rest5 = s8.subrange(s5.len() as int, s8.len() as int);
    let ghost rest6 = s8.subrange(s6.len() as int, s8.len() as int);
    let ghost rest7 = s8.subrange(s7.len() as int, s8.len() as int);
    proof {
        assert(s1 + rest1 =~= s8);
        assert(s2 + rest2 =~= s8);
        assert(s3 + rest3 =~= s8);
        assert(s4 + rest4 =~= s8);
        assert(s5 + rest5 =~= s8);
        assert(s6 + rest6 =~= s8);
        assert(s7 + rest7 =~= s8);
        assert(s0 + decimal_pieces(r.w as nat) =~= decimal_pieces(r.w as nat));
        lemma_write_all_concat(c0, v0, s1, rest1);
        lemma_write_all_concat(c0, v0, s2, rest2);
        lemma_write_all_concat(c0, v0, s3, rest3);
        lemma_write_all_concat(c0, v0, s4, rest4);
        lemma_write_all_concat(c0, v0, s5, rest5);
        lemma_write_all_concat(c0, v0, s6, rest6);
        lemma_write_all_concat(c0, v0, s7, rest7);
    }
    if !write_decimal_next(comp, r.w, vga, Ghost(c0), Ghost(v0), Ghost(s0)) {
        return false;
    }
    if !write_next(comp, "x", vga, Ghost(c0), Ghost(v0), Ghost(s1)) {
        return false;
    }
    if !write_decimal_next(comp, r.h, vga, Ghost(c0), Ghost(v0), Ghost(s2)) {
        return false;
    }
    if !write_next(comp, " at ", vga, Ghost(c0), Ghost(v0), Ghost(s3)) {
        return false;
    }
    if !write_decimal_next(comp, r.x, vga, Ghost(c0), Ghost(v0), Ghost(s4)) {
        return false;
    }
    if !write_next(comp, "x", vga, Ghost(c0), Ghost(v0), Ghost(s5)) {
        return false;
    }
    if !write_decimal_next(comp, r.y, vga, Ghost(c0), Ghost(v0), Ghost(s6)) {
        return false;
    }
    write_next(comp, "\n", vga, Ghost(c0), Ghost(v0), Ghost(s7))
}

/// Reports an unknown command.
fn command_unknown(comp: &mut Compositor, command: &str, vga: &mut Vga) -> (ok: bool)
    requires
        old(comp).wf(),
        old(vga).wf(),
    ensures
        ok == write_all(old(comp)@, old(vga)@, unknown_texts(command@)) is Some,
        ok ==> final(comp).wf() && final(vga).wf()
            && (final(comp)@, final(vga)@) == write_all(old(comp)@, old(vga)@, unknown_texts(command@))->0,
{
    let texts = vec!["Unknown command: ", command, "\n"];
    assert(texts@.map_values(|t: &str| t@) =~= unknown_texts(command@));
    write_texts(comp, &texts, vga)
}

pub open spec fn help_texts() -> Seq<Seq<char>> {
    line("halt        - Halt the machine"@) + line("reboot      - Reboot the machine"@) + line("stack       - Print kernel stack"@)
        + line("clear       - Clear screen"@) + line("shutdown    - Shutdown system"@) + line(
        "panic       - Trigger a manual kernel panic"@,
    ) + line("help        - Print this help message"@) + line("help memory - Linear pointer breakdown"@) + line(
        "help vga    - Code Page 437 characters and color matrix"@,
    )
}

fn command_help(comp: &mut Compositor, vga: &mut Vga) -> (ok: bool)
    requires
        old(comp).wf(),
        old(vga).wf(),
    ensures
        ok == write_all(old(comp)@, old(vga)@, help_texts()) is Some,
        ok ==> final(comp).wf() && final(vga).wf()
            && (final(comp)@, final(vga)@) == write_all(old(comp)@, old(vga)@, help_texts())->0,
{
    let texts = vec![
        "halt        - Halt the machine",
        "\n",
        "reboot      - Reboot the machine",
        "\n",
        "stack       - Print kernel stack",
        "\n",
        "clear       - Clear screen",
        "\n",
        "shutdown    - Shutdown system",
        "\n",
        "panic       - Trigger a manual kernel panic",
        "\n",
        "help        - Print this help message",
        "\n",
        "help memory - Linear pointer breakdown",
        "\n",
        "help vga    - Code Page 437 characters and color matrix",
        "\n",
    ];
    assert(texts@.map_values(|t: &str| t@) =~= help_texts());
    write_texts(comp, &texts, vga)
}


pub open spec fn memory_figure() -> Seq<Seq<char>> {
    line("                          [Figure: Page Translation]                          "@) + line("                                                                              "@) + line("             ╓31           24╥23           16╥15            8╥7             0╖"@) + line("   linear  → ╟─┬─┬─┬─┬─┬─┬─┬─╫─┬─┬─┬─┬─┬─┬─┬─╫─┬─┬─┬─┬─┬─┬─┬─╫─┬─┬─┬─┬─┬─┬─┬─╢"@) + line("   address   ╟─┴─┴─┴─┴─┴─┴─┴─╨─┴─┼─┴─┴─┴─┴─┴─╨─┴─┴─┴─┼─┴─┴─┴─╨─┴─┴─┴─┴─┴─┴─┴─╢"@) + line("             │  Directory index  │    Table index    │        Offset         │"@) + line("             └┬──────────────────┴┬──────────────────┴───────┬───────────────┘"@) + line("              │                   │                          │                "@) + line(" CR3 ──────┬───→╔Page═Dir═════╗ ┌──→╔Page═Table═══╗          │ ╔RAM══════════╗"@) + line(" physical  │  │ ║1024 entries ║ │ │ ║1024 entries ║          │ ║     ...     ║"@) + line("           │  │ ╠═════════════╣ │ │ ╠═════════════╣          │ ║     ...     ║"@) + line("           │  │ ║     ...     ║ │ │ ║     ...     ║          │ ╟─────────────╢"@) + line("           │  │ ║     ...     ║ │ │ ║     ...     ║ ┌─────────→║Page Frame   ║"@) + line("           │  │ ╟─────────────╢ │ │ ║     ...     ║ │        └→║(4096 bytes) ║"@) + line("           │  └→║ entry (PDE) ╟─┘ │ ║     ...     ║ │          ╟─────────────╢"@) + line("           │    ╟─────────────╢   │ ╟─────────────╢ │   ┌─────→║Page Frame   ║"@) + line("           │    ║     ...     ║   │ ║ other entry ╟─│───┘      ╟─────────────╢"@) + line("         linear ║     ...     ║   │ ╟─────────────╢ │          ║     ...     ║"@) + line("           │    ║     ...     ║   └→║ entry (PTE) ╟─┘          ║     ...     ║"@) + line("           │    ╟─────────────╢     ╟─────────────╢            ║     ...     ║"@) + line("           │    ║  PDE[1023]  ║     ║     ...     ║            ║     ...     ║"@) + line("           │    ║  recursive  ║     ║     ...     ║            ║     ...     ║"@) + line("           └────╢   mapping   ║     ║     ...     ║            ║     ...     ║"@) + line("                ╚═════════════╝     ╚═════════════╝            ╚═════════════╝"@)
}

pub open spec fn full_width_needed() -> Seq<Seq<char>> {
    line("Cannot display: please open a full-width terminal"@)
}

/// `help memory`: the page-translation figure, on a full-width pane only.
pub open spec fn help_memory_result(c: CompView, v: VgaView) -> Option<(CompView, VgaView)> {
    if !c.has_focus() {
        None
    } else if c.pane(c.active().focused_pane).rect.w != WIDTH {
        write_all(c, v, full_width_needed())
    } else {
        write_all(c, v, memory_figure())
    }
}

fn command_help_memory(comp: &mut Compositor, vga: &mut Vga) -> (ok: bool)
    requires
        old(comp).wf(),
        old(vga).wf(),
    ensures
        ok == help_memory_result(old(comp)@, old(vga)@) is Some,
        ok ==> final(comp).wf() && final(vga).wf()
            && (final(comp)@, final(vga)@) == help_memory_result(old(comp)@, old(vga)@)->0,
{
    let rect = match get_terminfo(comp) {
        Some(r) => r,
        None => return false,
    };
    if !rect.is_full_width() {
        let texts = vec!["Cannot display: please open a full-width terminal", "\n"];
        assert(texts@.map_values(|t: &str| t@) =~= full_width_needed());
        return write_texts(comp, &texts, vga);
    }
    let texts = vec![
        "                          [Figure: Page Translation]                          ",
        "\n",
        "                                                                              ",
        "\n",
        "             ╓31           24╥23           16╥15            8╥7             0╖",
        "\n",
        "   linear  → ╟─┬─┬─┬─┬─┬─┬─┬─╫─┬─┬─┬─┬─┬─┬─┬─╫─┬─┬─┬─┬─┬─┬─┬─╫─┬─┬─┬─┬─┬─┬─┬─╢",
        "\n",
        "   address   ╟─┴─┴─┴─┴─┴─┴─┴─╨─┴─┼─┴─┴─┴─┴─┴─╨─┴─┴─┴─┼─┴─┴─┴─╨─┴─┴─┴─┴─┴─┴─┴─╢",
        "\n",
        "             │  Directory index  │    Table index    │        Offset         │",
        "\n",
        "             └┬──────────────────┴┬──────────────────┴───────┬───────────────┘",
        "\n",
        "              │                   │                          │                ",
        "\n",
        " CR3 ──────┬───→╔Page═Dir═════╗ ┌──→╔Page═Table═══╗          │ ╔RAM══════════╗",
        "\n",
        " physical  │  │ ║1024 entries ║ │ │ ║1024 entries ║          │ ║     ...     ║",
        "\n",
        "           │  │ ╠═════════════╣ │ │ ╠═════════════╣          │ ║     ...     ║",
        "\n",
        "           │  │ ║     ...     ║ │ │ ║     ...     ║          │ ╟─────────────╢",
        "\n",
        "           │  │ ║     ...     ║ │ │ ║     ...     ║ ┌─────────→║Page Frame   ║",
        "\n",
        "           │  │ ╟─────────────╢ │ │ ║     ...     ║ │        └→║(4096 bytes) ║",
        "\n",
        "           │  └→║ entry (PDE) ╟─┘ │ ║     ...     ║ │          ╟─────────────╢",
        "\n",
        "           │    ╟─────────────╢   │ ╟─────────────╢ │   ┌─────→║Page Frame   ║",
        "\n",
        "           │    ║     ...     ║   │ ║ other entry ╟─│───┘      ╟─────────────╢",
        "\n",
        "         linear ║     ...     ║   │ ╟─────────────╢ │          ║     ...     ║",
        "\n",
        "           │    ║     ...     ║   └→║ entry (PTE) ╟─┘          ║     ...     ║",
        "\n",
        "           │    ╟─────────────╢     ╟─────────────╢            ║     ...     ║",
        "\n",
        "           │    ║  PDE[1023]  ║     ║     ...     ║            ║     ...     ║",
        "\n",
        "           │    ║  recursive  ║     ║     ...     ║            ║     ...     ║",
        "\n",
        "           └────╢   mapping   ║     ║     ...     ║            ║     ...     ║",
        "\n",
        "                ╚═════════════╝     ╚═════════════╝            ╚═════════════╝",
        "\n",
    ];
    assert(texts@.map_values(|t: &str| t@) =~= memory_figure());
    write_texts(comp, &texts, vga)
}


/// The sixteen colours in the order of their codes.
pub open spec fn palette(i: int) -> Color {
    if i == 0 { Color::Black }
    else if i == 1 { Color::Blue }
    else if i == 2 { Color::Green }
    else if i == 3 { Color::Cyan }
    else if i == 4 { Color::Red }
    else if i == 5 { Color::Magenta }
    else if i == 6 { Color::Brown }
    else if i == 7 { Color::LightGrey }
    else if i == 8 { Color::DarkGrey }
    else if i == 9 { Color::LightBlue }
    else if i == 10 { Color::LightGreen }
    else if i == 11 { Color::LightCyan }
    else if i == 12 { Color::LightRed }
    else if i == 13 { Color::LightMagenta }
    else if i == 14 { Color::Yellow }
    else { Color::White }
}

fn palette_color(i: usize) -> (r: Color)
    ensures
        r == palette(i as int),
{
    if i == 0 { Color::Black }
    else if i == 1 { Color::Blue }
    else if i == 2 { Color::Green }
    else if i == 3 { Color::Cyan }
    else if i == 4 { Color::Red }
    else if i == 5 { Color::Magenta }
    else if i == 6 { Color::Brown }
    else if i == 7 { Color::LightGrey }
    else if i == 8 { Color::DarkGrey }
    else if i == 9 { Color::LightBlue }
    else if i == 10 { Color::LightGreen }
    else if i == 11 { Color::LightCyan }
    else if i == 12 { Color::LightRed }
    else if i == 13 { Color::LightMagenta }
    else if i == 14 { Color::Yellow }
    else { Color::White }
}

/// The upper-case hexadecimal digit of `i` (below 16).
pub open spec fn hex_digit(i: int) -> u8 {
    if i < 10 { (0x30 + i) as u8 } else { (0x41 + i - 10) as u8 }
}

fn hex_char(i: usize) -> (r: u8)
    requires
        i < 16,
    ensures
        r == hex_digit(i as int),
{
    if i < 10 { (0x30 + i) as u8 } else { (0x41 + i - 10) as u8 }
}

/// A character put in the focused pane without drawing it.
pub open spec fn put_result(c: CompView, ch: u8, fg: Color, bg: Color) -> Option<CompView> {
    if c.has_focus() {
        let id = c.active().focused_pane;
        Some(c.set_pane(id, c.pane(id).with_term(c.pane(id).term.put_raw(ch, fg, bg))))
    } else {
        None
    }
}

pub open spec fn puts(c: Option<CompView>, chars: Seq<(u8, Color, Color)>) -> Option<CompView>
    decreases chars.len(),
{
    if chars.len() == 0 {
        c
    } else {
        match puts(c, chars.drop_last()) {
            None => None,
            Some(c1) => put_result(c1, chars.last().0, chars.last().1, chars.last().2),
        }
    }
}

/// The swatch of colour `fg` on colour `bg`: a space, the two digits, two
/// spaces.
pub open spec fn swatch(fg: int, bg: int) -> Seq<(u8, Color, Color)> {
    let f = palette(fg);
    let b = palette(bg);
    seq![(0x20u8, f, b), (hex_digit(fg), f, b), (hex_digit(bg), f, b), (0x20u8, f, b), (0x20u8, f, b)]
}

/// The swatches of the first `k` foreground colours on background `bg`.
pub open spec fn swatch_row(bg: int, k: int) -> Seq<(u8, Color, Color)>
    decreases k,
{
    if k <= 0 { Seq::empty() } else { swatch_row(bg, k - 1) + swatch(k - 1, bg) }
}

/// The first `k` characters of row `row` of the code-page table.
pub open spec fn code_row(row: int, k: int) -> Seq<(u8, Color, Color)>
    decreases k,
{
    if k <= 0 { Seq::empty() } else { code_row(row, k - 1).push(((row * 64 + k - 1) as u8, Color::Black, Color::White)) }
}

/// The first `k` rows of colour swatches, each ended by a line break.
pub open spec fn palette_rows(c: CompView, v: VgaView, k: int) -> Option<(CompView, VgaView)>
    decreases k,
{
    if k <= 0 {
        Some((c, v))
    } else {
        match palette_rows(c, v, k - 1) {
            None => None,
            Some((c1, v1)) => match puts(Some(c1), swatch_row(k - 1, 16)) {
                None => None,
                Some(c2) => c2.write_result(v1, "\n"@),
            },
        }
    }
}

/// The first `k` rows of the code-page table, each ended by a line break.
pub open spec fn code_rows(c: CompView, v: VgaView, k: int) -> Option<(CompView, VgaView)>
    decreases k,
{
    if k <= 0 {
        Some((c, v))
    } else {
        match code_rows(c, v, k - 1) {
            None => None,
            Some((c1, v1)) => match puts(Some(c1), code_row(k - 1, 64)) {
                None => None,
                Some(c2) => c2.write_result(v1, "\n"@),
            },
        }
    }
}

/// `help vga`: the 16x16 colour matrix and the 256 code-page characters,
/// on a full-width pane only.
pub open spec fn help_vga_result(c: CompView, v: VgaView) -> Option<(CompView, VgaView)> {
    if !c.has_focus() {
        None
    } else if c.pane(c.active().focused_pane).rect.w != WIDTH {
        write_all(c, v, full_width_needed())
    } else {
        match palette_rows(c, v, 16) {
            None => None,
            Some((c1, v1)) => match write_all(c1, v1, line("Code Page 437 character table"@)) {
                None => None,
                Some((c2, v2)) => match code_rows(c2, v2, 4) {
                    None => None,
                    Some((c3, v3)) => c3.write_result(v3, "\n"@),
                },
            },
        }
    }
}

fn put_chars(comp: &mut Compositor, chars: &Vec<(u8, Color, Color)>) -> (ok: bool)
    requires
        old(comp).wf(),
    ensures
        final(comp).wf(),
        ok == puts(Some(old(comp)@), chars@) is Some,
        ok ==> Some(final(comp)@) == puts(Some(old(comp)@), chars@),
{
    let mut i: usize = 0;
    while i < chars.len()
        invariant
            i <= chars@.len(),
            comp.wf(),
            puts(Some(old(comp)@), chars@.take(i as int)) == Some(comp@),
        decreases chars@.len() - i,
    {
        assert(chars@.take(i + 1).drop_last() =~= chars@.take(i as int));
        let (ch, fg, bg) = chars[i];
        if !put_raw(comp, ch, fg, bg) {
            proof {
                lemma_puts_stops(old(comp)@, chars@, i as int);
            }
            return false;
        }
        i = i + 1;
    }
    assert(chars@.take(chars@.len() as int) =~= chars@);
    true
}

proof fn lemma_puts_stops(c: CompView, chars: Seq<(u8, Color, Color)>, i: int)
    requires
        0 <= i < chars.len(),
        puts(Some(c), chars.take(i + 1)) is None,
    ensures
        puts(Some(c), chars) is None,
    decreases chars.len() - i,
{
    if i + 1 < chars.len() {
        assert(chars.take(i + 2).drop_last() =~= chars.take(i + 1));
        lemma_puts_stops(c, chars, i + 1);
    } else {
        assert(chars.take(i + 1) =~= chars);
    }
}

fn swatch_row_chars(bg: usize) -> (r: Vec<(u8, Color, Color)>)
    requires
        bg < 16,
    ensures
        r@ == swatch_row(bg as int, 16),
{
    let mut r: Vec<(u8, Color, Color)> = Vec::new();
    let b = palette_color(bg);
    let hb = hex_char(bg);
    let mut fg: usize = 0;
    while fg < 16
        invariant
            fg <= 16,
            bg < 16,
            b == palette(bg as int),
            hb == hex_digit(bg as int),
            r@ == swatch_row(bg as int, fg as int),
        decreases 16 - fg,
    {
        let f = palette_color(fg);
        r.push((0x20u8, f, b));
        r.push((hex_char(fg), f, b));
        r.push((hb, f, b));
        r.push((0x20u8, f, b));
        r.push((0x20u8, f, b));
        assert(r@ =~= swatch_row(bg as int, fg + 1));
        fg = fg + 1;
    }
    r
}

fn code_row_chars(row: u8) -> (r: Vec<(u8, Color, Color)>)
    requires
        row < 4,
    ensures
        r@ == code_row(row as int, 64),
{
    let mut r: Vec<(u8, Color, Color)> = Vec::new();
    let mut j: u8 = 0;
    while j < 64
        invariant
            j <= 64,
            row < 4,
            r@ == code_row(row as int, j as int),
        decreases 64 - j,
    {
        r.push((row * 64u8 + j, Color::Black, Color::White));
        assert(r@ =~= code_row(row as int, j + 1));
        j = j + 1;
    }
    r
}

proof fn lemma_palette_rows_none(c: CompView, v: VgaView, k: int, n: int)
    requires
        0 <= k <= n,
        palette_rows(c, v, k) is None,
    ensures
        palette_rows(c, v, n) is None,
    decreases n - k,
{
    if k < n {
        lemma_palette_rows_none(c, v, k, n - 1);
    }
}

proof fn lemma_code_rows_none(c: CompView, v: VgaView, k: int, n: int)
    requires
        0 <= k <= n,
        code_rows(c, v, k) is None,
    ensures
        code_rows(c, v, n) is None,
    decreases n - k,
{
    if k < n {
        lemma_code_rows_none(c, v, k, n - 1);
    }
}

fn command_help_vga(comp: &mut Compositor, vga: &mut Vga) -> (ok: bool)
    requires
        old(comp).wf(),
        old(vga).wf(),
    ensures
        ok == help_vga_result(old(comp)@, old(vga)@) is Some,
        ok ==> final(comp).wf() && final(vga).wf()
            && (final(comp)@, final(vga)@) == help_vga_result(old(comp)@, old(vga)@)->0,
{
    let rect = match get_terminfo(comp) {
        Some(r) => r,
        None => return false,
    };
    if !rect.is_full_width() {
        let texts = vec!["Cannot display: please open a full-width terminal", "\n"];
        assert(texts@.map_values(|t: &str| t@) =~= full_width_needed());
        return write_texts(comp, &texts, vga);
    }
    let ghost c0 = comp@;
    let ghost v0 = vga@;
    let mut bg: usize = 0;
    while bg < 16
        invariant
            bg <= 16,
            comp.wf(),
            vga.wf(),
            c0 == old(comp)@,
            v0 == old(vga)@,
            c0.has_focus(),
            c0.pane(c0.active().focused_pane).rect.w == WIDTH,
            palette_rows(c0, v0, bg as int) == Some((comp@, vga@)),
        decreases 16 - bg,
    {
        let chars = swatch_row_chars(bg);
        if !put_chars(comp, &chars) {
            proof {
                lemma_palette_rows_none(c0, v0, bg + 1, 16);
            }
            return false;
        }
        if !comp.write_str("\n", vga) {
            proof {
                lemma_palette_rows_none(c0, v0, bg + 1, 16);
            }
            return false;
        }
        bg = bg + 1;
    }
    let ghost c1 = comp@;
    let ghost v1 = vga@;
    let texts = vec!["Code Page 437 character table", "\n"];
    assert(texts@.map_values(|t: &str| t@) =~= line("Code Page 437 character table"@));
    if !write_texts(comp, &texts, vga) {
        return false;
    }
    let ghost c2 = comp@;
    let ghost v2 = vga@;
    let mut i: u8 = 0;
    while i < 4
        invariant
            i <= 4,
            comp.wf(),
            vga.wf(),
            c0 == old(comp)@,
            v0 == old(vga)@,
            c0.has_focus(),
            c0.pane(c0.active().focused_pane).rect.w == WIDTH,
            palette_rows(c0, v0, 16) == Some((c1, v1)),
            write_all(c1, v1, line("Code Page 437 character table"@)) == Some((c2, v2)),
            code_rows(c2, v2, i as int) == Some((comp@, vga@)),
        decreases 4 - i,
    {
        let chars = code_row_chars(i);
        if !put_chars(comp, &chars) {
            proof {
                lemma_code_rows_none(c2, v2, i + 1, 4);
            }
            return false;
        }
        if !comp.write_str("\n", vga) {
            proof {
                lemma_code_rows_none(c2, v2, i + 1, 4);
            }
            return false;
        }
        i = i + 1;
    }
    comp.write_str("\n", vga)
}

/// Runs a command line: the commands that only print do so in the focused
/// pane; the others are handed back.
pub fn execute_cmd(command: &str, comp: &mut Compositor, vga: &mut Vga) -> (action: ShellAction)
    requires
        old(comp).wf(),
        old(vga).wf(),
    ensures
        action != ShellAction::Fault ==> final(comp).wf() && final(vga).wf(),
        match command_of(command@) {
            Command::Halt => match write_all(old(comp)@, old(vga)@, line("System halted."@)) {
                None => action == ShellAction::Fault,
                Some((c, v)) => action == ShellAction::Halt && final(comp)@ == c
                    && final(vga)@ == (VgaView { ops: v.ops + crate::drivers::vga::disable_cursor_ops(), ..v }),
            },
            Command::Reboot => action == ShellAction::Reboot && final(comp)@ == old(comp)@ && final(vga)@ == old(vga)@,
            Command::Stack => action == ShellAction::Stack && final(comp)@ == old(comp)@ && final(vga)@ == old(vga)@,
            Command::Shutdown => action == ShellAction::Shutdown && final(comp)@ == old(comp)@ && final(vga)@ == old(vga)@,
            Command::Panic => action == ShellAction::Panic && final(comp)@ == old(comp)@ && final(vga)@ == old(vga)@,
            Command::Clear => if old(comp)@.has_focus() {
                action == ShellAction::Done && ({
                    let id = old(comp)@.active().focused_pane;
                    let t = old(comp)@.pane(id).term.cleared();
                    let (t2, v2) = t.flushed().flush_result(t.flushed_screen(old(vga)@));
                    final(comp)@ == old(comp)@.set_pane(id, old(comp)@.pane(id).with_term(t2)) && final(vga)@ == v2
                })
            } else {
                action == ShellAction::Fault
            },
            Command::Help => match write_all(old(comp)@, old(vga)@, help_texts()) {
                None => action == ShellAction::Fault,
                Some((c, v)) => action == ShellAction::Done && final(comp)@ == c && final(vga)@ == v,
            },
            Command::HelpMemory => match help_memory_result(old(comp)@, old(vga)@) {
                None => action == ShellAction::Fault,
                Some((c, v)) => action == ShellAction::Done && final(comp)@ == c && final(vga)@ == v,
            },
            Command::HelpVga => match help_vga_result(old(comp)@, old(vga)@) {
                None => action == ShellAction::Fault,
                Some((c, v)) => action == ShellAction::Done && final(comp)@ == c && final(vga)@ == v,
            },
            Command::Terminfo => if old(comp)@.has_focus() {
                match write_all(old(comp)@, old(vga)@, terminfo_texts(old(comp)@.pane(old(comp)@.active().focused_pane).rect)) {
                    None => action == ShellAction::Fault,
                    Some((c, v)) => action == ShellAction::Done && final(comp)@ == c && final(vga)@ == v,
                }
            } else {
                action == ShellAction::Fault
            },
            Command::Empty => action == ShellAction::Done && final(comp)@ == old(comp)@ && final(vga)@ == old(vga)@,
            Command::Unknown => match write_all(old(comp)@, old(vga)@, unknown_texts(command@)) {
                None => action == ShellAction::Fault,
                Some((c, v)) => action == ShellAction::Done && final(comp)@ == c && final(vga)@ == v,
            },
        },
{
    match parse_command(command) {
        Command::Halt => {
            let texts = vec!["System halted.", "\n"];
            assert(texts@.map_values(|t: &str| t@) =~= line("System halted."@));
            if !write_texts(comp, &texts, vga) {
                return ShellAction::Fault;
            }
            vga.disable_cursor();
            ShellAction::Halt
        },
        Command::Reboot => ShellAction::Reboot,
        Command::Stack => ShellAction::Stack,
        Command::Clear => if crate::compositor::clear(comp, vga) { ShellAction::Done } else { ShellAction::Fault },
        Command::Shutdown => ShellAction::Shutdown,
        Command::Panic => ShellAction::Panic,
        Command::Help => if command_help(comp, vga) { ShellAction::Done } else { ShellAction::Fault },
        Command::HelpMemory => if command_help_memory(comp, vga) { ShellAction::Done } else { ShellAction::Fault },
        Command::HelpVga => if command_help_vga(comp, vga) { ShellAction::Done } else { ShellAction::Fault },
        Command::Terminfo => match get_terminfo(comp) {
            Some(r) => if command_terminfo(comp, r, vga) { ShellAction::Done } else { ShellAction::Fault },
            None => ShellAction::Fault,
        },
        Command::Empty => ShellAction::Done,
        Command::Unknown => if command_unknown(comp, command, vga) { ShellAction::Done } else { ShellAction::Fault },
    }
}


pub const BYTES_PER_LINE: usize = 16;

pub const MAX_LINES: usize = 32;

pub open spec fn lower_hex_digit(d: int) -> u8 {
    if d < 10 { (0x30 + d) as u8 } else { (0x61 + d - 10) as u8 }
}

/// The lower-case hexadecimal digits of `n`, at least `w` of them
/// (zero-padded), as `{:0w$x}` writes them.
pub open spec fn hexw(n: nat, w: nat) -> Seq<u8>
    decreases w, n,
{
    if w == 0 && n == 0 {
        Seq::empty()
    } else if w > 0 {
        hexw(n / 16, (w - 1) as nat).push(lower_hex_digit((n % 16) as int))
    } else {
        hexw(n / 16, 0).push(lower_hex_digit((n % 16) as int))
    }
}

fn push_hex(out: &mut Vec<u8>, n: usize, w: usize)
    ensures
        final(out)@ == old(out)@ + hexw(n as nat, w as nat),
    decreases w, n,
{
    if w == 0 && n == 0 {
        assert(old(out)@ + Seq::<u8>::empty() =~= old(out)@);
        return;
    }
    let rest_w = if w > 0 { w - 1 } else { 0 };
    push_hex(out, n / 16, rest_w);
    let d = n % 16;
    let c: u8 = if d < 10 { (0x30 + d) as u8 } else { (0x61 + d - 10) as u8 };
    out.push(c);
    assert(final(out)@ =~= old(out)@ + hexw(n as nat, w as nat));
}

fn push_text(out: &mut Vec<u8>, text: &str)
    requires
        text.is_ascii(),
    ensures
        final(out)@ == old(out)@ + text@.map_values(|c: char| c as u8),
{
    let n = text.unicode_len();
    let mut i: usize = 0;
    while i < n
        invariant
            n == text@.len(),
            i <= n,
            text.is_ascii(),
            out@ == old(out)@ + text@.take(i as int).map_values(|c: char| c as u8),
        decreases n - i,
    {
        let b = text.get_ascii(i);
        out.push(b);
        assert(text@.take(i + 1).map_values(|c: char| c as u8) =~= text@.take(i as int).map_values(|c: char| c as u8).push(b));
        i = i + 1;
    }
    assert(text@.take(n as int) =~= text@);
}

pub open spec fn ascii(s: Seq<char>) -> Seq<u8> {
    s.map_values(|c: char| c as u8)
}

/// The first line of the stack report.
pub open spec fn stack_header(esp: nat, start: nat, end: nat) -> Seq<u8> {
    ascii("ESP=0x"@) + hexw(esp, 8) + ascii("  stack=[0x"@) + hexw(start, 8) + ascii(", 0x"@) + hexw(end, 8) + ascii(")"@)
}

/// A stack byte in the character column: itself if printable, else '.'.
pub open spec fn shown_byte(b: u8) -> u8 {
    if 0x20 <= b <= 0x7E { b } else { 0x2E }
}

/// The first `k` byte columns of the dump line at `a`, for a stack that
/// holds `mem` from address `start` to `end`.
pub open spec fn hex_columns(mem: Seq<u8>, start: nat, end: nat, a: nat, k: nat) -> Seq<u8>
    decreases k,
{
    if k == 0 {
        Seq::empty()
    } else {
        let i = (k - 1) as nat;
        let gap = if i == 8 { seq![0x20u8] } else { Seq::empty() };
        let cell = if a + i < end { hexw(mem[a + i - start] as nat, 2).push(0x20u8) } else { seq![0x20u8, 0x20u8, 0x20u8] };
        hex_columns(mem, start, end, a, i) + gap + cell
    }
}

pub open spec fn char_columns(mem: Seq<u8>, start: nat, end: nat, a: nat, k: nat) -> Seq<u8>
    decreases k,
{
    if k == 0 {
        Seq::empty()
    } else {
        let i = (k - 1) as nat;
        char_columns(mem, start, end, a, i).push(if a + i < end { shown_byte(mem[a + i - start]) } else { 0x20u8 })
    }
}

/// The dump line of the sixteen bytes at `a`: address, bytes in
/// hexadecimal (a gap after the eighth), bytes as characters.
pub open spec fn dump_line(mem: Seq<u8>, start: nat, end: nat, a: nat) -> Seq<u8> {
    hexw(a, 8) + seq![0x20u8, 0x20u8] + hex_columns(mem, start, end, a, 16) + seq![0x20u8] + char_columns(mem, start, end, a, 16)
}

/// The addresses of the dump lines: starting at `a`, at most `left` steps
/// of 16 bytes, stopping at the end of the stack and skipping lines before
/// its start.
pub open spec fn dump_addresses(a: nat, start: nat, end: nat, left: nat) -> Seq<nat>
    decreases left,
{
    if left == 0 || a >= end {
        Seq::empty()
    } else if a < start {
        dump_addresses(a + 16, start, end, (left - 1) as nat)
    } else {
        seq![a] + dump_addresses(a + 16, start, end, (left - 1) as nat)
    }
}

fn dump_line_bytes(mem: &Vec<u8>, start: usize, a: usize) -> (r: Vec<u8>)
    requires
        start <= a,
        a + 16 <= usize::MAX,
        a < start + mem@.len(),
        start + mem@.len() <= usize::MAX,
    ensures
        r@ == dump_line(mem@, start as nat, (start + mem@.len()) as nat, a as nat),
{
    let end = start + mem.len();
    let mut out: Vec<u8> = Vec::new();
    push_hex(&mut out, a, 8);
    out.push(0x20u8);
    out.push(0x20u8);
    let ghost prefix = out@;
    let mut i: usize = 0;
    while i < BYTES_PER_LINE
        invariant
            i <= BYTES_PER_LINE,
            start <= a,
            a + 16 <= usize::MAX,
            end == start + mem@.len(),
            out@ == prefix + hex_columns(mem@, start as nat, end as nat, a as nat, i as nat),
        decreases BYTES_PER_LINE - i,
    {
        let ghost before = out@;
        if i == 8 {
            out.push(0x20u8);
        }
        let current = a + i;
        if current < end {
            let byte = mem[current - start];
            push_hex(&mut out, byte as usize, 2);
            out.push(0x20u8);
        } else {
            out.push(0x20u8);
            out.push(0x20u8);
            out.push(0x20u8);
        }
        assert(out@ =~= prefix + hex_columns(mem@, start as nat, end as nat, a as nat, (i + 1) as nat));
        i = i + 1;
    }
    out.push(0x20u8);
    let ghost prefix2 = out@;
    let mut i: usize = 0;
    while i < BYTES_PER_LINE
        invariant
            i <= BYTES_PER_LINE,
            start <= a,
            a + 16 <= usize::MAX,
            end == start + mem@.len(),
            out@ == prefix2 + char_columns(mem@, start as nat, end as nat, a as nat, i as nat),
        decreases BYTES_PER_LINE - i,
    {
        let current = a + i;
        let c = if current < end {
            let byte = mem[current - start];
            if 0x20u8 <= byte && byte <= 0x7Eu8 { byte } else { 0x2Eu8 }
        } else {
            0x20u8
        };
        out.push(c);
        assert(out@ =~= prefix2 + char_columns(mem@, start as nat, end as nat, a as nat, (i + 1) as nat));
        i = i + 1;
    }
    assert(out@ =~= dump_line(mem@, start as nat, end as nat, a as nat));
    out
}

/// The `stack` report for stack pointer `esp` and a stack holding `mem`
/// from address `stack_start`: the header line, then up to 32 dump lines
/// of 16 bytes from the 16-byte boundary at or below `esp`.
pub fn stack_dump(esp: usize, stack_start: usize, mem: &Vec<u8>) -> (r: Vec<Vec<u8>>)
    requires
        stack_start + mem@.len() + 16 * (MAX_LINES + 1) <= usize::MAX,
        esp + 16 * (MAX_LINES + 1) <= usize::MAX,
    ensures
        r@.len() >= 1,
        r@[0]@ == stack_header(esp as nat, stack_start as nat, (stack_start + mem@.len()) as nat),
        r@.len() - 1 == dump_addresses((esp - esp % 16) as nat, stack_start as nat, (stack_start + mem@.len()) as nat, MAX_LINES as nat).len(),
        forall|k: int| 0 <= k < r@.len() - 1 ==> (#[trigger] r@[k + 1])@ == dump_line(
            mem@,
            stack_start as nat,
            (stack_start + mem@.len()) as nat,
            dump_addresses((esp - esp % 16) as nat, stack_start as nat, (stack_start + mem@.len()) as nat, MAX_LINES as nat)[k],
        ),
{
    let stack_end = stack_start + mem.len();
    let mask: usize = BYTES_PER_LINE - 1;
    let start = esp & !mask;
    assert(start == esp - esp % 16) by (bit_vector)
        requires start == esp & !mask, mask == 15;
    let mut header: Vec<u8> = Vec::new();
    proof {
        reveal_strlit("ESP=0x");
        reveal_strlit("  stack=[0x");
        reveal_strlit(", 0x");
        reveal_strlit(")");
    }
    push_text(&mut header, "ESP=0x");
    push_hex(&mut header, esp, 8);
    push_text(&mut header, "  stack=[0x");
    push_hex(&mut header, stack_start, 8);
    push_text(&mut header, ", 0x");
    push_hex(&mut header, stack_end, 8);
    push_text(&mut header, ")");
    assert(header@ =~= stack_header(esp as nat, stack_start as nat, stack_end as nat));
    let mut lines: Vec<Vec<u8>> = Vec::new();
    lines.push(header);
    let ghost all = dump_addresses(start as nat, stack_start as nat, stack_end as nat, MAX_LINES as nat);
    let mut addr = start;
    let mut n: usize = 0;
    while n < MAX_LINES
        invariant_except_break
            n <= MAX_LINES,
            addr == start + 16 * n,
        invariant
            start + 16 * (MAX_LINES + 1) <= usize::MAX,
            stack_end == stack_start + mem@.len(),
            stack_end + 16 * (MAX_LINES + 1) <= usize::MAX,
            lines@.len() >= 1,
            lines@[0]@ == stack_header(esp as nat, stack_start as nat, stack_end as nat),
            all == dump_addresses(start as nat, stack_start as nat, stack_end as nat, MAX_LINES as nat),
            ({
                let rest = dump_addresses(addr as nat, stack_start as nat, stack_end as nat, (MAX_LINES - n) as nat);
                all == Seq::new((lines@.len() - 1) as nat, |k: int| all[k]) + rest
            }),
            lines@.len() - 1 <= all.len(),
            forall|k: int| 0 <= k < lines@.len() - 1 ==> (#[trigger] lines@[k + 1])@ == dump_line(mem@, stack_start as nat, stack_end as nat, all[k]),
        ensures
            lines@.len() - 1 == all.len(),
        decreases MAX_LINES - n,
    {
        if addr >= stack_end {
            break;
        }
        if addr < stack_start {
            addr = addr + BYTES_PER_LINE;
            n = n + 1;
            continue;
        }
        let line = dump_line_bytes(mem, stack_start, addr);
        lines.push(line);
        addr = addr + BYTES_PER_LINE;
        n = n + 1;
    }
    lines
}

} // verus!
