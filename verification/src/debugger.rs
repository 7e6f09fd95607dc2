//! Debugging interface over the machine.
//!
//! The trait is implemented by hosts that can print: the engine only
//! offers the state the methods read through the public accessors.

use vstd::prelude::*;

verus! {

/// An interactive debugger over a machine.
pub trait Debugger {
    /// Print one disassembled instruction with its address.
    fn print_instruction(&self, line: usize, instr: &str, comments: &str);

    /// Display the registers, disassembly and stack.
    fn display_debug_info(&self);

    /// Disassemble the next `len` bytes of memory.
    fn disas(&self, len: usize);

    /// Run the interactive debugger loop.
    fn debug(&mut self) -> Result<(), String>;
}

} // verus!
