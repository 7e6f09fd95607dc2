//! A verified CHIP-8 virtual machine.
//!
//! The crate models the classic CHIP-8 interpreter: a 4095-byte memory
//! image with a built-in hexadecimal font, sixteen 8-bit registers, a
//! 16-bit index register, a call stack, a 64x32 monochrome XOR display,
//! a 16-key keypad, and two countdown timers.  Every instruction is a
//! verified state transition against the mathematical step function in
//! [`semantics`].

use vstd::prelude::*;

pub mod cpu;
pub mod debugger;
pub mod instructions;
pub mod keypad;
pub mod laws;
pub mod rng;
pub mod semantics;

verus! {

/// Total number of addressable memory bytes.
pub const MEM_SIZE: usize = 0xFFF;

/// Address at which loaded programs begin.
pub const TXT_OFFSET: usize = 0x200;

/// Index of the VF flag register (carry / borrow / collision).
pub const FLAG_REGISTER: usize = 15;

/// Display width in pixels.
pub const DISP_WIDTH: usize = 64;

/// Display height in pixels.
pub const DISP_HEIGHT: usize = 32;

/// Number of pixels in the display buffer.
pub const DISP_AREA: usize = 64 * 32;

/// Number of bytes of the built-in hexadecimal font (16 glyphs of 5 bytes).
pub const FONT_BYTES: usize = 80;

/// Rejections raised while loading a program image.
#[derive(Clone, Copy, Debug, PartialEq, Eq, Structural)]
pub enum LoadError {
    /// The program does not fit between `TXT_OFFSET` and the end of memory.
    RomTooLarge,
}

/// Failures raised while executing a single instruction.
///
/// The machine state is left unchanged whenever one of these is returned.
#[derive(Clone, Copy, Debug, PartialEq, Eq, Structural)]
pub enum ExecError {
    /// The opcode does not decode to any implemented instruction.
    UnimplementedOpcode(u16),
    /// A return was executed with an empty call stack.
    StackUnderflow,
    /// A font-glyph lookup was made for a value above 0xF.
    InvalidFontDigit,
    /// A memory transfer instruction would touch bytes past the end of
    /// memory.
    MemoryOutOfBounds,
}

} // verus!
