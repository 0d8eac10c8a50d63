pub mod vga;
