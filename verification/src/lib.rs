//! Text-output and diagnostic layer of a freestanding kernel image: a
//! text-mode display writer, a serial diagnostic channel, a lazily
//! initialized exclusive handle around the writer, and a self-test harness
//! with an emulator exit protocol.

pub mod console;
pub mod harness;
pub mod serial;
pub mod vga_buffer;
