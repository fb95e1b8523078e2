//! Core logic of a small kernel's console stack: the VGA text-mode writer
//! with its scrolling and cursor protocol, GBK/UTF-8 conversion, the shell
//! command table, and the system clock arithmetic.

pub mod cmd;
pub mod encoding;
pub mod shell;
pub mod sys_call;
pub mod time;
pub mod vga;
pub mod vga_laws;
