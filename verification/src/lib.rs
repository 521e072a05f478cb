//! A small fixed-architecture virtual machine: a fetch-decode-execute engine
//! interpreting 16-bit instructions against a flat 4096-byte memory, sixteen
//! 8-bit registers, a call stack, two countdown timers and a 64x32 monochrome
//! framebuffer. Every operation's effect on the machine is stated in its
//! contract and proved; the host drives the machine with `cycle` at its
//! chosen instruction rate and `timer` at 60 Hz, then polls the draw and
//! sound flags.

pub mod byte_register;
pub mod cpu;
pub mod graphics_buffer;
pub mod laws;
pub mod ram;
pub mod word_register;
