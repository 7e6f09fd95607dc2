//! Machine-wide laws proved over the semantics.
//!
//! Each law is stated against [`step`] (or the draw model), so it
//! holds of `execute_instruction` through that function's contract.

use vstd::prelude::*;

use crate::semantics::add16;
use crate::semantics::draw_bit_at;
use crate::semantics::draw_display;
use crate::semantics::draw_hit;
use crate::semantics::draw_hit_at;
use crate::semantics::lemma_nibble_bounds;
use crate::semantics::step;
use crate::semantics::CpuView;

verus! {

/// XOR facts behind the draw laws: XOR is an involution, and XOR
/// with a set bit flips a 0/1 value.
proof fn lemma_xor_involution()
    by (bit_vector)
    ensures
        forall|a: u8, b: u8| #[trigger] ((a ^ b) ^ b) == a,
        forall|a: u8, b: u8| a <= 1 && b <= 1 ==> #[trigger] (a ^ b) <= 1,
        forall|a: u8| a <= 1 ==> #[trigger] (a ^ 1) == 1 - a,
        forall|a: u8| #[trigger] (a ^ 0) == a,
{
}

/// Loading an immediate into a register then reading it back yields
/// exactly the immediate; every other register is untouched.
pub proof fn lemma_load_immediate(s: CpuView, op: u16, b: u8)
    requires
        s.wf(),
        (op >> 12) & 0xF == 6,
    ensures
        step(s, op, b) matches Ok(t) && t.registers[((op >> 8) & 0xF) as int] == (op & 0xFF) as u8
            && (forall|j: int|
            0 <= j < 16 && j != ((op >> 8) & 0xF) as int ==> t.registers[j] == s.registers[j]),
{
    lemma_nibble_bounds(op);
}

/// The 8-bit add: the result is the sum modulo 256 and the flag
/// register is 1 exactly when the sum carried, whenever the
/// destination register is not the flag register itself.
pub proof fn lemma_add_carry(s: CpuView, op: u16, b: u8)
    requires
        s.wf(),
        (op >> 12) & 0xF == 8,
        op & 0xF == 4,
        (op >> 8) & 0xF != 15,
    ensures
        step(s, op, b) matches Ok(t) && t.registers[((op >> 8) & 0xF) as int] == (s.registers[((op
            >> 8) & 0xF) as int] + s.registers[((op >> 4) & 0xF) as int]) % 256 && t.registers[15]
            == (if s.registers[((op >> 8) & 0xF) as int] + s.registers[((op >> 4) & 0xF) as int]
            > 255 {
            1u8
        } else {
            0u8
        }),
{
    lemma_nibble_bounds(op);
}

/// The 8-bit subtract: the result is the difference modulo 256 and
/// the flag register is 1 exactly when no borrow occurs (Vx >= Vy),
/// whenever the destination register is not the flag register
/// itself.
pub proof fn lemma_sub_borrow(s: CpuView, op: u16, b: u8)
    requires
        s.wf(),
        (op >> 12) & 0xF == 8,
        op & 0xF == 5,
        (op >> 8) & 0xF != 15,
    ensures
        step(s, op, b) matches Ok(t) && t.registers[((op >> 8) & 0xF) as int] == (s.registers[((op
            >> 8) & 0xF) as int] - s.registers[((op >> 4) & 0xF) as int] + 256) % 256
            && t.registers[15] == (if s.registers[((op >> 8) & 0xF) as int] >= s.registers[((op
            >> 4) & 0xF) as int] {
            1u8
        } else {
            0u8
        }),
{
    lemma_nibble_bounds(op);
}

/// Drawing the same sprite at the same location twice restores the
/// pre-draw pixel values, and the second draw collides exactly where
/// the first draw turned a pixel on.
pub proof fn lemma_draw_involutive(d: Seq<u8>, mem: Seq<u8>, i: int, start: int, n: int)
    requires
        forall|p: int| 0 <= p < d.len() ==> d[p] == 0 || d[p] == 1,
    ensures
        draw_display(draw_display(d, mem, i, start, n), mem, i, start, n) =~= d,
        draw_hit(draw_display(d, mem, i, start, n), mem, i, start, n) <==> exists|p: int|
            0 <= p < d.len() && d[p] == 0 && #[trigger] draw_bit_at(mem, i, start, n, p) == 1,
{
    lemma_xor_involution();
    crate::semantics::lemma_draw_bit_small(mem, i, start, n);
    let d1 = draw_display(d, mem, i, start, n);
    assert forall|p: int| 0 <= p < d.len() implies draw_display(d1, mem, i, start, n)[p] == d[
        p
    ] by {
        assert(((d[p] ^ draw_bit_at(mem, i, start, n, p)) ^ draw_bit_at(mem, i, start, n, p)) == d[
            p
        ]);
    }
    assert(draw_display(d1, mem, i, start, n) =~= d);
    if draw_hit(d1, mem, i, start, n) {
        let pw = choose|p: int| 0 <= p < d1.len() && draw_hit_at(d1, mem, i, start, n, p);
        assert(d1[pw] == d[pw] ^ draw_bit_at(mem, i, start, n, pw));
        assert(0 <= pw < d.len() && d[pw] == 0 && draw_bit_at(mem, i, start, n, pw) == 1);
    }
    if exists|p: int|
        0 <= p < d.len() && d[p] == 0 && #[trigger] draw_bit_at(mem, i, start, n, p) == 1 {
        let pw = choose|p: int|
            0 <= p < d.len() && d[p] == 0 && #[trigger] draw_bit_at(mem, i, start, n, p) == 1;
        assert(d1[pw] == d[pw] ^ draw_bit_at(mem, i, start, n, pw));
        assert(0 <= pw < d1.len() && draw_hit_at(d1, mem, i, start, n, pw));
    }
}

/// A subroutine call followed immediately by a return leaves the
/// program counter on the instruction after the call, and the call
/// stack exactly as it was.
pub proof fn lemma_call_ret_round_trip(s: CpuView, op: u16, ret_op: u16, b1: u8, b2: u8)
    requires
        s.wf(),
        (op >> 12) & 0xF == 2,
        (ret_op >> 12) & 0xF == 0,
        (ret_op >> 8) & 0xF == 0,
        (ret_op >> 4) & 0xF == 0xE,
        ret_op & 0xF == 0xE,
    ensures
        step(s, op, b1) matches Ok(t) && (step(t, ret_op, b2) matches Ok(u)
            && u.program_counter == add16(s.program_counter, 2) && u.stack =~= s.stack
            && u.registers == s.registers && u.memory == s.memory),
{
    let t = step(s, op, b1).unwrap();
    assert(t.stack.len() == s.stack.len() + 1);
    let u = step(t, ret_op, b2).unwrap();
    assert(u.program_counter == t.stack.last());
    assert(u.stack =~= s.stack);
}

/// The key-wait opcode moves the machine into the halted state aimed
/// at its register and past the instruction, touching nothing else;
/// `execute_instruction` then leaves a halted machine unchanged until
/// `key_down` writes the key into that register and resumes.
pub proof fn lemma_wait_key_halts(s: CpuView, op: u16, b: u8)
    requires
        s.wf(),
        (op >> 12) & 0xF == 0xF,
        (op >> 4) & 0xF == 0,
        op & 0xF == 0xA,
    ensures
        step(s, op, b) matches Ok(t) && t.waiting == Some((op >> 8) & 0xF)
            && t.program_counter == add16(s.program_counter, 2) && t.registers == s.registers
            && t.memory == s.memory && t.stack == s.stack && t.display == s.display,
{
    lemma_nibble_bounds(op);
}

/// SE Vx, kk advances the program counter by four (a skip) when Vx
/// equals the immediate, and by two otherwise.
pub proof fn lemma_skip_equal_immediate(s: CpuView, op: u16, b: u8)
    requires
        s.wf(),
        (op >> 12) & 0xF == 3,
    ensures
        step(s, op, b) matches Ok(t) && t.program_counter == (if s.registers[((op >> 8)
            & 0xF) as int] == (op & 0xFF) as u8 {
            add16(s.program_counter, 4)
        } else {
            add16(s.program_counter, 2)
        }),
{
    lemma_nibble_bounds(op);
}

/// SNE Vx, kk advances the program counter by four (a skip) when Vx
/// differs from the immediate, and by two otherwise.
pub proof fn lemma_skip_not_equal_immediate(s: CpuView, op: u16, b: u8)
    requires
        s.wf(),
        (op >> 12) & 0xF == 4,
    ensures
        step(s, op, b) matches Ok(t) && t.program_counter == (if s.registers[((op >> 8)
            & 0xF) as int] != (op & 0xFF) as u8 {
            add16(s.program_counter, 4)
        } else {
            add16(s.program_counter, 2)
        }),
{
    lemma_nibble_bounds(op);
}

} // verus!
