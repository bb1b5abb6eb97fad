pub mod vga;
pub mod keyboard;
pub mod cp437;
pub mod terminal;
