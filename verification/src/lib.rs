//! Kaname: the logic of a small x86 kernel: the VGA text console, virtual
//! terminals, a tiling compositor with its shell, the PS/2 keyboard
//! decoder, paging and descriptor-table encodings, and the Multiboot2
//! information parser.
pub mod drivers;
pub mod terminal;
pub mod compositor;
pub mod window_tree;
pub mod multiboot2;
pub mod memory;
pub mod gdt;
pub mod idt;
pub mod boot;
pub mod ports;
pub mod shell;
pub mod libk;
