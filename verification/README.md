# kaname

The logic of Kaname, a small x86 kernel (Multiboot2, VGA text mode, PS/2
keyboard, paging, a tiling compositor with a shell), written in Verus with
its behaviour stated in contracts and proved.

- `src/` — the verified library:
  - `drivers/vga.rs` — the text-mode device as screen memory plus a log of
    port operations; `drivers/cp437.rs` — code-page encoding;
    `drivers/keyboard.rs` — scan-code decoding and the event ring buffer;
    `drivers/terminal.rs` — full-screen virtual terminals.
  - `terminal.rs` — a terminal in a rectangle, with scrollback and
    dirty-row redraw.
  - `compositor.rs` — windows of split panes, rendering, key handling;
    `window_tree.rs` — the consistency of the window trees under the
    compositor's operations (closing a pane whose neighbour is itself split
    excepted).
  - `shell.rs` — the built-in commands and the stack report.
  - `gdt.rs`, `idt.rs`, `memory.rs`, `multiboot2.rs`, `boot.rs`,
    `ports.rs`, `libk/mem.rs` — descriptor encodings, page-fault
    classification, the initial page tables, the boot-information parser,
    the boot header, port helpers and the memory primitives.
- `app/` — the kernel around it: port I/O, VGA memory, control registers,
  descriptor-table loading, interrupt entry code, the main loop.
- `tests/` — tests on concrete values.
