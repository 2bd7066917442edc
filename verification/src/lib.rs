//! A verified CHIP-8 execution engine.
//!
//! The crate models the classic hobbyist virtual machine: a CPU with 16
//! eight-bit registers, a 4096-byte address space, a 16-level call stack,
//! two countdown timers, a 16-key input snapshot, and a monochrome 64x32
//! pixel display.  The decoder, the per-opcode semantics, the program
//! counter control flow, the timer evolution, and the XOR sprite-drawing
//! rule with collision detection are all specified in contracts and proved.
//!
//! Presentation of the display, host keyboard handling, and ROM file I/O
//! are a host's concern: the host feeds plain bytes and key states in and
//! reads the pixel grid out.

pub mod chip8;
pub mod instruction;
mod rng;
pub mod screen;
