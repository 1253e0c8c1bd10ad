//! Verified core of a small x86 kernel: keyboard driver, text console, shell,
//! signals, descriptor tables and the system call dispatcher.

pub mod gdt;
pub mod idt;
pub mod keyboard;
pub mod pic;
pub mod port;
pub mod shell;
pub mod signal;
pub mod stack;
pub mod vga_buffer;
