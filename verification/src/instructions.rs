//! The instruction handlers.
//!
//! Each handler performs one opcode family on the machine; its
//! contract restates the corresponding branch of
//! [`crate::semantics::step`].  Control-flow handlers set the program
//! counter to their absolute target; `execute_instruction` advances
//! the counter past the instruction for all other opcodes, so a
//! conditional skip here moves the counter by one extra instruction
//! width only.  Handlers whose opcode can fail (return, font lookup,
//! memory transfers, draw) state their safe domain in `requires`;
//! `execute_instruction` tests those bounds and turns violations into
//! the matching error before calling them.

use vstd::prelude::*;

use crate::cpu::Cpu;
use crate::keypad;
use crate::rng;
use crate::semantics::add16;
use crate::semantics::CpuView;
use crate::FLAG_REGISTER;
use crate::MEM_SIZE;

verus! {

/// SYS addr: a deliberate no-op; the opcode space resolves here but
/// modern interpreters ignore the instruction.
pub fn sys() {
}

/// Set every byte of a buffer to zero.
fn zero_fill(v: &mut Vec<u8>)
    ensures
        final(v)@.len() == old(v)@.len(),
        forall|p: int| 0 <= p < final(v)@.len() ==> final(v)@[p] == 0,
{
    let n = v.len();
    let mut k: usize = 0;
    while k < n
        invariant
            k <= n,
            n == v@.len(),
            forall|p: int| 0 <= p < k ==> v@[p] == 0,
        decreases n - k,
    {
        v[k] = 0;
        k += 1;
    }
}

/// 00E0 - CLS: clear the display and the decay buffer.
pub fn cls(cpu: &mut Cpu)
    requires
        old(cpu).wf(),
    ensures
        final(cpu).wf(),
        final(cpu)@ == (CpuView {
            display: crate::semantics::zero_seq(crate::DISP_AREA as nat),
            glow: crate::semantics::zero_seq(crate::DISP_AREA as nat),
            ..old(cpu)@
        }),
{
    zero_fill(&mut cpu.display);
    zero_fill(&mut cpu.phosphor_glow);
    proof {
        assert(cpu@.display =~= crate::semantics::zero_seq(crate::DISP_AREA as nat));
        assert(cpu@.glow =~= crate::semantics::zero_seq(crate::DISP_AREA as nat));
        assert(cpu@ =~= (CpuView {
            display: crate::semantics::zero_seq(crate::DISP_AREA as nat),
            glow: crate::semantics::zero_seq(crate::DISP_AREA as nat),
            ..old(cpu)@
        }));
    }
}

/// 00EE - RET: return from a subroutine by popping the stored
/// address into the program counter.
pub fn ret(cpu: &mut Cpu)
    requires
        old(cpu).wf(),
        old(cpu)@.stack.len() > 0,
    ensures
        final(cpu).wf(),
        final(cpu)@ == (CpuView {
            program_counter: old(cpu)@.stack.last(),
            stack: old(cpu)@.stack.drop_last(),
            ..old(cpu)@
        }),
{
    let addr = cpu.stack.pop().unwrap();
    cpu.program_counter = addr;
}

/// 1nnn - JP addr: jump to an absolute address.
pub fn jmp_nnn(cpu: &mut Cpu, opcode: u16)
    requires
        old(cpu).wf(),
    ensures
        final(cpu).wf(),
        final(cpu)@ == (CpuView { program_counter: opcode & 0xFFF, ..old(cpu)@ }),
{
    let addr = opcode & 0x0FFF;
    cpu.program_counter = addr;
}

/// 2nnn - CALL addr: push the address of the following instruction
/// and jump.
pub fn call(cpu: &mut Cpu, opcode: u16)
    requires
        old(cpu).wf(),
    ensures
        final(cpu).wf(),
        final(cpu)@ == (CpuView {
            stack: old(cpu)@.stack.push(add16(old(cpu)@.program_counter, 2)),
            program_counter: opcode & 0xFFF,
            ..old(cpu)@
        }),
{
    let addr = opcode & 0x0FFF;
    let ret_addr = self_plus_two(cpu.program_counter);
    cpu.stack.push(ret_addr);
    cpu.program_counter = addr;
}

/// The address two bytes on, with 16-bit wraparound.
fn self_plus_two(pc: u16) -> (r: u16)
    ensures
        r == add16(pc, 2),
{
    pc.wrapping_add(2)
}

/// 3xkk - SE Vx, byte: skip the next instruction when Vx equals the
/// immediate.
pub fn se_vx_kk(cpu: &mut Cpu, reg: u16, opcode: u16)
    requires
        old(cpu).wf(),
        reg < 16,
    ensures
        final(cpu).wf(),
        final(cpu)@ == (CpuView {
            program_counter: if old(cpu)@.registers[reg as int] == (opcode & 0xFF) as u8 {
                add16(old(cpu)@.program_counter, 2)
            } else {
                old(cpu)@.program_counter
            },
            ..old(cpu)@
        }),
{
    let value = (opcode & 0x00FF) as u8;
    if cpu.registers[reg as usize] == value {
        cpu.program_counter = cpu.program_counter.wrapping_add(2);
    }
}

/// 4xkk - SNE Vx, byte: skip the next instruction when Vx differs
/// from the immediate.
pub fn sne_vx_kk(cpu: &mut Cpu, reg: u16, opcode: u16)
    requires
        old(cpu).wf(),
        reg < 16,
    ensures
        final(cpu).wf(),
        final(cpu)@ == (CpuView {
            program_counter: if old(cpu)@.registers[reg as int] != (opcode & 0xFF) as u8 {
                add16(old(cpu)@.program_counter, 2)
            } else {
                old(cpu)@.program_counter
            },
            ..old(cpu)@
        }),
{
    let value = (opcode & 0x00FF) as u8;
    if cpu.registers[reg as usize] != value {
        cpu.program_counter = cpu.program_counter.wrapping_add(2);
    }
}

/// 5xy0 - SE Vx, Vy: skip the next instruction when the registers
/// are equal.
pub fn se_vx_vy(cpu: &mut Cpu, regx: u16, regy: u16)
    requires
        old(cpu).wf(),
        regx < 16,
        regy < 16,
    ensures
        final(cpu).wf(),
        final(cpu)@ == (CpuView {
            program_counter: if old(cpu)@.registers[regx as int] == old(cpu)@.registers[
                regy as int
            ] {
                add16(old(cpu)@.program_counter, 2)
            } else {
                old(cpu)@.program_counter
            },
            ..old(cpu)@
        }),
{
    if cpu.registers[regx as usize] == cpu.registers[regy as usize] {
        cpu.program_counter = cpu.program_counter.wrapping_add(2);
    }
}

/// 6xkk - LD Vx, byte: load an immediate into a register.
pub fn ld_vx(cpu: &mut Cpu, reg: u16, opcode: u16)
    requires
        old(cpu).wf(),
        reg < 16,
    ensures
        final(cpu).wf(),
        final(cpu)@ == (CpuView {
            registers: old(cpu)@.registers.update(reg as int, (opcode & 0xFF) as u8),
            ..old(cpu)@
        }),
{
    let value = (opcode & 0x00FF) as u8;
    cpu.registers[reg as usize] = value;
}

/// 7xkk - ADD Vx, byte: wrapping add of an immediate, no flag.
pub fn add_vx_kk(cpu: &mut Cpu, reg: u16, opcode: u16)
    requires
        old(cpu).wf(),
        reg < 16,
    ensures
        final(cpu).wf(),
        final(cpu)@ == (CpuView {
            registers: old(cpu)@.registers.update(
                reg as int,
                ((old(cpu)@.registers[reg as int] + (opcode & 0xFF) as u8) % 256) as u8,
            ),
            ..old(cpu)@
        }),
{
    let value = (opcode & 0x00FF) as u8;
    let vx = cpu.registers[reg as usize];
    cpu.registers[reg as usize] = vx.wrapping_add(value);
}

/// 8xy0 - LD Vx, Vy: copy a register.
pub fn ld_vx_vy(cpu: &mut Cpu, regx: u16, regy: u16)
    requires
        old(cpu).wf(),
        regx < 16,
        regy < 16,
    ensures
        final(cpu).wf(),
        final(cpu)@ == (CpuView {
            registers: old(cpu)@.registers.update(
                regx as int,
                old(cpu)@.registers[regy as int],
            ),
            ..old(cpu)@
        }),
{
    let vy = cpu.registers[regy as usize];
    cpu.registers[regx as usize] = vy;
}

/// 8xy1 - OR Vx, Vy.
pub fn or_vx_vy(cpu: &mut Cpu, regx: u16, regy: u16)
    requires
        old(cpu).wf(),
        regx < 16,
        regy < 16,
    ensures
        final(cpu).wf(),
        final(cpu)@ == (CpuView {
            registers: old(cpu)@.registers.update(
                regx as int,
                old(cpu)@.registers[regx as int] | old(cpu)@.registers[regy as int],
            ),
            ..old(cpu)@
        }),
{
    let vx = cpu.registers[regx as usize];
    let vy = cpu.registers[regy as usize];
    cpu.registers[regx as usize] = vx | vy;
}

/// 8xy2 - AND Vx, Vy.
pub fn and_vx_vy(cpu: &mut Cpu, regx: u16, regy: u16)
    requires
        old(cpu).wf(),
        regx < 16,
        regy < 16,
    ensures
        final(cpu).wf(),
        final(cpu)@ == (CpuView {
            registers: old(cpu)@.registers.update(
                regx as int,
                old(cpu)@.registers[regx as int] & old(cpu)@.registers[regy as int],
            ),
            ..old(cpu)@
        }),
{
    let vx = cpu.registers[regx as usize];
    let vy = cpu.registers[regy as usize];
    cpu.registers[regx as usize] = vx & vy;
}

/// 8xy3 - XOR Vx, Vy.
pub fn xor_vx_vy(cpu: &mut Cpu, regx: u16, regy: u16)
    requires
        old(cpu).wf(),
        regx < 16,
        regy < 16,
    ensures
        final(cpu).wf(),
        final(cpu)@ == (CpuView {
            registers: old(cpu)@.registers.update(
                regx as int,
                old(cpu)@.registers[regx as int] ^ old(cpu)@.registers[regy as int],
            ),
            ..old(cpu)@
        }),
{
    let vx = cpu.registers[regx as usize];
    let vy = cpu.registers[regy as usize];
    cpu.registers[regx as usize] = vx ^ vy;
}

/// 8xy4 - ADD Vx, Vy: wrapping sum into Vx, VF records the carry.
pub fn add_vx_vy(cpu: &mut Cpu, regx: u16, regy: u16)
    requires
        old(cpu).wf(),
        regx < 16,
        regy < 16,
    ensures
        final(cpu).wf(),
        final(cpu)@ == (CpuView {
            registers: old(cpu)@.registers.update(
                regx as int,
                ((old(cpu)@.registers[regx as int] + old(cpu)@.registers[regy as int])
                    % 256) as u8,
            ).update(
                15,
                if old(cpu)@.registers[regx as int] + old(cpu)@.registers[regy as int] > 255 {
                    1u8
                } else {
                    0u8
                },
            ),
            ..old(cpu)@
        }),
{
    let vx = cpu.registers[regx as usize];
    let vy = cpu.registers[regy as usize];
    let carry: u8 = if (vx as u16) + (vy as u16) > 255 {
        1
    } else {
        0
    };
    cpu.registers[regx as usize] = vx.wrapping_add(vy);
    cpu.registers[FLAG_REGISTER] = carry;
}

/// 8xy5 - SUB Vx, Vy: wrapping difference into Vx, VF is 1 exactly
/// when no borrow occurs.
pub fn sub_vx_vy(cpu: &mut Cpu, regx: u16, regy: u16)
    requires
        old(cpu).wf(),
        regx < 16,
        regy < 16,
    ensures
        final(cpu).wf(),
        final(cpu)@ == (CpuView {
            registers: old(cpu)@.registers.update(
                regx as int,
                ((old(cpu)@.registers[regx as int] - old(cpu)@.registers[regy as int] + 256)
                    % 256) as u8,
            ).update(
                15,
                if old(cpu)@.registers[regx as int] >= old(cpu)@.registers[regy as int] {
                    1u8
                } else {
                    0u8
                },
            ),
            ..old(cpu)@
        }),
{
    let vx = cpu.registers[regx as usize];
    let vy = cpu.registers[regy as usize];
    let flag: u8 = if vx >= vy {
        1
    } else {
        0
    };
    cpu.registers[regx as usize] = vx.wrapping_sub(vy);
    cpu.registers[FLAG_REGISTER] = flag;
}

/// 8xy6 - SHR Vx, Vy: Vx receives Vy shifted right one bit, VF takes
/// Vy's pre-shift low bit (with Vy = VF the flag write is visible to
/// the shift).
pub fn shr_vx_vy(cpu: &mut Cpu, regx: u16, regy: u16)
    requires
        old(cpu).wf(),
        regx < 16,
        regy < 16,
    ensures
        final(cpu).wf(),
        final(cpu)@ == (CpuView {
            registers: old(cpu)@.registers.update(
                15,
                (old(cpu)@.registers[regy as int] % 2) as u8,
            ).update(
                regx as int,
                (old(cpu)@.registers.update(
                    15,
                    (old(cpu)@.registers[regy as int] % 2) as u8,
                )[regy as int] / 2) as u8,
            ),
            ..old(cpu)@
        }),
{
    let vy = cpu.registers[regy as usize];
    proof {
        assert(vy & 1 == vy % 2) by (bit_vector);
    }
    cpu.registers[FLAG_REGISTER] = vy & 1;
    let shifted = cpu.registers[regy as usize];
    proof {
        assert(shifted >> 1u8 == shifted / 2) by (bit_vector);
    }
    cpu.registers[regx as usize] = shifted >> 1u8;
}

/// 8xy7 - SUBN Vx, Vy: Vy minus Vx into Vx, VF is 1 exactly when no
/// borrow occurs.
pub fn subn_vx_vy(cpu: &mut Cpu, regx: u16, regy: u16)
    requires
        old(cpu).wf(),
        regx < 16,
        regy < 16,
    ensures
        final(cpu).wf(),
        final(cpu)@ == (CpuView {
            registers: old(cpu)@.registers.update(
                regx as int,
                ((old(cpu)@.registers[regy as int] - old(cpu)@.registers[regx as int] + 256)
                    % 256) as u8,
            ).update(
                15,
                if old(cpu)@.registers[regy as int] >= old(cpu)@.registers[regx as int] {
                    1u8
                } else {
                    0u8
                },
            ),
            ..old(cpu)@
        }),
{
    let vx = cpu.registers[regx as usize];
    let vy = cpu.registers[regy as usize];
    let flag: u8 = if vy >= vx {
        1
    } else {
        0
    };
    cpu.registers[regx as usize] = vy.wrapping_sub(vx);
    cpu.registers[FLAG_REGISTER] = flag;
}

/// 8xyE - SHL Vx, Vy: Vx receives Vy shifted left one bit, VF takes
/// Vy's pre-shift high bit (with Vy = VF the flag write is visible
/// to the shift).
pub fn shl_vx_vy(cpu: &mut Cpu, regx: u16, regy: u16)
    requires
        old(cpu).wf(),
        regx < 16,
        regy < 16,
    ensures
        final(cpu).wf(),
        final(cpu)@ == (CpuView {
            registers: old(cpu)@.registers.update(
                15,
                (old(cpu)@.registers[regy as int] / 128) as u8,
            ).update(
                regx as int,
                ((old(cpu)@.registers.update(
                    15,
                    (old(cpu)@.registers[regy as int] / 128) as u8,
                )[regy as int] * 2) % 256) as u8,
            ),
            ..old(cpu)@
        }),
{
    let vy = cpu.registers[regy as usize];
    proof {
        assert(vy >> 7u8 == vy / 128) by (bit_vector);
    }
    cpu.registers[FLAG_REGISTER] = vy >> 7u8;
    let shifted = cpu.registers[regy as usize];
    proof {
        assert(shifted << 1u8 == (shifted * 2) % 256) by (bit_vector);
    }
    cpu.registers[regx as usize] = shifted << 1u8;
}

/// 9xy0 - SNE Vx, Vy: skip the next instruction when the registers
/// differ.
pub fn sne_vx_vy(cpu: &mut Cpu, regx: u16, regy: u16)
    requires
        old(cpu).wf(),
        regx < 16,
        regy < 16,
    ensures
        final(cpu).wf(),
        final(cpu)@ == (CpuView {
            program_counter: if old(cpu)@.registers[regx as int] != old(cpu)@.registers[
                regy as int
            ] {
                add16(old(cpu)@.program_counter, 2)
            } else {
                old(cpu)@.program_counter
            },
            ..old(cpu)@
        }),
{
    if cpu.registers[regx as usize] != cpu.registers[regy as usize] {
        cpu.program_counter = cpu.program_counter.wrapping_add(2);
    }
}

/// Annn - LD I, addr.
pub fn ld_i_nnn(cpu: &mut Cpu, opcode: u16)
    requires
        old(cpu).wf(),
    ensures
        final(cpu).wf(),
        final(cpu)@ == (CpuView { i_register: opcode & 0xFFF, ..old(cpu)@ }),
{
    let addr = opcode & 0x0FFF;
    cpu.i_register = addr;
}

/// Bnnn - JP V0, addr: jump to nnn plus V0.
pub fn jmp_v0_nnn(cpu: &mut Cpu, opcode: u16)
    requires
        old(cpu).wf(),
    ensures
        final(cpu).wf(),
        final(cpu)@ == (CpuView {
            program_counter: (old(cpu)@.registers[0] + (opcode & 0xFFF)) as u16,
            ..old(cpu)@
        }),
{
    proof {
        crate::semantics::lemma_nibble_bounds(opcode);
    }
    let addr = opcode & 0x0FFF;
    cpu.program_counter = (cpu.registers[0] as u16) + addr;
}

/// Cxkk - RND Vx, byte: a random byte AND-ed with the immediate.
///
/// The byte comes from the host generator, so only its shape is
/// known: some byte `b` was drawn and `b & kk` stored.
pub fn rnd_vx_kk(cpu: &mut Cpu, reg: u16, opcode: u16)
    requires
        old(cpu).wf(),
        reg < 16,
    ensures
        final(cpu).wf(),
        exists|b: u8|
            final(cpu)@ == (CpuView {
                registers: old(cpu)@.registers.update(
                    reg as int,
                    #[trigger] (b & (opcode & 0xFF) as u8),
                ),
                ..old(cpu)@
            }),
{
    let value = (opcode & 0x00FF) as u8;
    let byte = rng::random_byte();
    cpu.registers[reg as usize] = byte & value;
    proof {
        assert(cpu@ == (CpuView {
            registers: old(cpu)@.registers.update(reg as int, byte & (opcode & 0xFF) as u8),
            ..old(cpu)@
        }));
    }
}

/// Facts about the XOR and bit-extraction steps of a draw: XOR with
/// zero keeps a byte, XOR keeps the 0/1 range, and an extracted
/// sprite bit is 0 or 1.
proof fn lemma_xor_u8()
    by (bit_vector)
    ensures
        forall|a: u8| #[trigger] (a ^ 0) == a,
        forall|a: u8, b: u8| a <= 1 && b <= 1 ==> #[trigger] (a ^ b) <= 1,
        forall|b: u8, c: u8| #[trigger] ((b >> c) & 1) <= 1,
{
}

/// A sprite row with an on-screen pixel keeps its sprite byte inside
/// memory whenever the whole draw stays in bounds.
proof fn lemma_visible_row(i: int, start: int, n: int, row: int)
    requires
        0 <= start < crate::DISP_AREA,
        0 <= row < n,
        start + 64 * row < crate::DISP_AREA,
        !crate::semantics::drw_oob(i, start, n),
    ensures
        i + row < MEM_SIZE,
{
    let all = (crate::DISP_AREA - start + 63) / 64;
    assert(64 * row < crate::DISP_AREA - start);
    assert(row < all);
}

/// Which pixels the draw loop has already XOR-ed when it is about to
/// plot sprite row `row`, column `col`.
spec fn plotted(start: int, n: int, row: int, col: int, p: int) -> bool {
    let rel = p - start;
    0 <= rel && rel % 64 < 8 && rel / 64 < n && (rel / 64 < row || (rel / 64 == row && rel % 64
        < col))
}

/// XOR-plot `n` rows of sprite data from `mem[i..]` into the display
/// at buffer offset `start`, marking colliding pixels in the decay
/// buffer; reports whether any pixel collided.
fn draw_sprite(
    display: &mut Vec<u8>,
    glow: &mut Vec<u8>,
    mem: &Vec<u8>,
    i: usize,
    start: usize,
    n: usize,
) -> (hit: bool)
    requires
        old(display)@.len() == crate::DISP_AREA,
        forall|p: int| 0 <= p < crate::DISP_AREA ==> old(display)@[p] == 0 || old(display)@[p] == 1,
        old(glow)@.len() == crate::DISP_AREA,
        mem@.len() == MEM_SIZE,
        start < crate::DISP_AREA,
        n < 16,
        !crate::semantics::drw_oob(i as int, start as int, n as int),
    ensures
        final(display)@ == crate::semantics::draw_display(
            old(display)@,
            mem@,
            i as int,
            start as int,
            n as int,
        ),
        final(glow)@ == crate::semantics::draw_glow(
            old(glow)@,
            old(display)@,
            mem@,
            i as int,
            start as int,
            n as int,
        ),
        hit == crate::semantics::draw_hit(old(display)@, mem@, i as int, start as int, n as int),
        forall|p: int| 0 <= p < crate::DISP_AREA ==> final(display)@[p] == 0 || final(display)@[p]
            == 1,
{
    let ghost gi = i as int;
    let ghost gstart = start as int;
    let ghost gn = n as int;
    let ghost d0 = display@;
    let ghost g0 = glow@;
    proof {
        lemma_xor_u8();
    }
    let mut hit = false;
    let mut row: usize = 0;
    while row < n
        invariant
            row <= n,
            n < 16,
            start < crate::DISP_AREA,
            mem@.len() == MEM_SIZE,
            !crate::semantics::drw_oob(gi, gstart, gn),
            gi == i as int,
            gstart == start as int,
            gn == n as int,
            d0.len() == crate::DISP_AREA,
            g0.len() == crate::DISP_AREA,
            forall|p: int| 0 <= p < crate::DISP_AREA ==> d0[p] == 0 || d0[p] == 1,
            display@.len() == crate::DISP_AREA,
            glow@.len() == crate::DISP_AREA,
            forall|p: int|
                0 <= p < crate::DISP_AREA ==> display@[p] == if plotted(
                    gstart,
                    gn,
                    row as int,
                    0,
                    p,
                ) {
                    d0[p] ^ crate::semantics::draw_bit_at(mem@, gi, gstart, gn, p)
                } else {
                    d0[p]
                },
            forall|p: int|
                0 <= p < crate::DISP_AREA ==> glow@[p] == if plotted(gstart, gn, row as int, 0, p)
                    && crate::semantics::draw_hit_at(d0, mem@, gi, gstart, gn, p) {
                    2u8
                } else {
                    g0[p]
                },
            hit == exists|p: int|
                0 <= p < crate::DISP_AREA && plotted(gstart, gn, row as int, 0, p)
                    && crate::semantics::draw_hit_at(d0, mem@, gi, gstart, gn, p),
        decreases n - row,
    {
        let mut col: usize = 0;
        while col < 8
            invariant
                col <= 8,
                row < n,
                n < 16,
                start < crate::DISP_AREA,
                mem@.len() == MEM_SIZE,
                !crate::semantics::drw_oob(gi, gstart, gn),
                gi == i as int,
                gstart == start as int,
                gn == n as int,
                d0.len() == crate::DISP_AREA,
                g0.len() == crate::DISP_AREA,
                forall|p: int| 0 <= p < crate::DISP_AREA ==> d0[p] == 0 || d0[p] == 1,
                display@.len() == crate::DISP_AREA,
                glow@.len() == crate::DISP_AREA,
                forall|p: int|
                    0 <= p < crate::DISP_AREA ==> display@[p] == if plotted(
                        gstart,
                        gn,
                        row as int,
                        col as int,
                        p,
                    ) {
                        d0[p] ^ crate::semantics::draw_bit_at(mem@, gi, gstart, gn, p)
                    } else {
                        d0[p]
                    },
                forall|p: int|
                    0 <= p < crate::DISP_AREA ==> glow@[p] == if plotted(
                        gstart,
                        gn,
                        row as int,
                        col as int,
                        p,
                    ) && crate::semantics::draw_hit_at(d0, mem@, gi, gstart, gn, p) {
                        2u8
                    } else {
                        g0[p]
                    },
                hit == exists|p: int|
                    0 <= p < crate::DISP_AREA && plotted(gstart, gn, row as int, col as int, p)
                        && crate::semantics::draw_hit_at(d0, mem@, gi, gstart, gn, p),
            decreases 8 - col,
        {
            let disp_pos = start + col + row * 64;
            let ghost p0 = disp_pos as int;
            let ghost prev_hit = hit;
            let ghost cnext = col as int + 1;
            proof {
                assert((p0 - gstart) % 64 == col as int && (p0 - gstart) / 64 == row as int);
                // the pixel newly covered at column col + 1 is p0 alone
                assert forall|p: int|
                    plotted(gstart, gn, row as int, cnext, p) && p != p0 implies plotted(
                    gstart,
                    gn,
                    row as int,
                    col as int,
                    p,
                ) by {
                    let rel = p - gstart;
                    if rel / 64 == row as int && rel % 64 == col as int {
                        assert(rel == 64 * (rel / 64) + rel % 64);
                        assert(p == p0);
                    }
                }
            }
            if disp_pos < crate::DISP_AREA {
                proof {
                    lemma_visible_row(gi, gstart, gn, row as int);
                }
                let mem_pos = i + row;
                let byte = mem[mem_pos];
                let mem_val = (byte >> ((7 - col) as u8)) & 1;
                proof {
                    assert(mem_val == crate::semantics::draw_bit_at(mem@, gi, gstart, gn, p0));
                }
                let cur = display[disp_pos];
                let collide = cur == 1 && mem_val == 1;
                if collide {
                    hit = true;
                    glow[disp_pos] = 2;
                }
                display[disp_pos] = cur ^ mem_val;
                proof {
                    assert(collide == crate::semantics::draw_hit_at(d0, mem@, gi, gstart, gn, p0));
                    if collide {
                        assert(0 <= p0 < crate::DISP_AREA && plotted(gstart, gn, row as int, cnext, p0)
                            && crate::semantics::draw_hit_at(d0, mem@, gi, gstart, gn, p0));
                    } else {
                        if prev_hit {
                            let pw = choose|p: int|
                                0 <= p < crate::DISP_AREA && plotted(
                                    gstart,
                                    gn,
                                    row as int,
                                    col as int,
                                    p,
                                ) && crate::semantics::draw_hit_at(d0, mem@, gi, gstart, gn, p);
                            assert(0 <= pw < crate::DISP_AREA && plotted(
                                gstart,
                                gn,
                                row as int,
                                cnext,
                                pw,
                            ) && crate::semantics::draw_hit_at(d0, mem@, gi, gstart, gn, pw));
                        } else {
                            assert forall|p: int|
                                0 <= p < crate::DISP_AREA && plotted(
                                    gstart,
                                    gn,
                                    row as int,
                                    cnext,
                                    p,
                                ) implies !crate::semantics::draw_hit_at(
                                d0,
                                mem@,
                                gi,
                                gstart,
                                gn,
                                p,
                            ) by {}
                        }
                    }
                }
            } else {
                proof {
                    if prev_hit {
                        let pw = choose|p: int|
                            0 <= p < crate::DISP_AREA && plotted(gstart, gn, row as int, col as int, p)
                                && crate::semantics::draw_hit_at(d0, mem@, gi, gstart, gn, p);
                        assert(0 <= pw < crate::DISP_AREA && plotted(gstart, gn, row as int, cnext, pw)
                            && crate::semantics::draw_hit_at(d0, mem@, gi, gstart, gn, pw));
                    } else {
                        assert forall|p: int|
                            0 <= p < crate::DISP_AREA && plotted(gstart, gn, row as int, cnext, p)
                                implies !crate::semantics::draw_hit_at(
                            d0,
                            mem@,
                            gi,
                            gstart,
                            gn,
                            p,
                        ) by {}
                    }
                }
            }
            col += 1;
        }
        row += 1;
        proof {
            assert forall|p: int| 0 <= p < crate::DISP_AREA implies plotted(
                gstart,
                gn,
                row as int - 1,
                8,
                p,
            ) == plotted(gstart, gn, row as int, 0, p) by {}
            if hit {
                let pw = choose|p: int|
                    0 <= p < crate::DISP_AREA && plotted(gstart, gn, row as int - 1, 8, p)
                        && crate::semantics::draw_hit_at(d0, mem@, gi, gstart, gn, p);
                assert(0 <= pw < crate::DISP_AREA && plotted(gstart, gn, row as int, 0, pw)
                    && crate::semantics::draw_hit_at(d0, mem@, gi, gstart, gn, pw));
            } else {
                assert forall|p: int|
                    0 <= p < crate::DISP_AREA && plotted(gstart, gn, row as int, 0, p)
                        implies !crate::semantics::draw_hit_at(d0, mem@, gi, gstart, gn, p) by {}
            }
        }
    }
    proof {
        assert(display@ =~= crate::semantics::draw_display(d0, mem@, gi, gstart, gn));
        assert(glow@ =~= crate::semantics::draw_glow(g0, d0, mem@, gi, gstart, gn));
        assert forall|p: int|
            0 <= p < crate::DISP_AREA && crate::semantics::draw_hit_at(
                d0,
                mem@,
                gi,
                gstart,
                gn,
                p,
            ) implies plotted(gstart, gn, gn, 0, p) by {
            assert(crate::semantics::draw_bit_at(mem@, gi, gstart, gn, p) != 0);
        }
        if hit {
            let pw = choose|p: int|
                0 <= p < crate::DISP_AREA && plotted(gstart, gn, gn, 0, p)
                    && crate::semantics::draw_hit_at(d0, mem@, gi, gstart, gn, p);
            assert(0 <= pw < d0.len() && crate::semantics::draw_hit_at(
                d0,
                mem@,
                gi,
                gstart,
                gn,
                pw,
            ));
        } else {
            assert forall|p: int|
                0 <= p < d0.len() implies !crate::semantics::draw_hit_at(
                d0,
                mem@,
                gi,
                gstart,
                gn,
                p,
            ) by {
                if crate::semantics::draw_hit_at(d0, mem@, gi, gstart, gn, p) {
                    assert(0 <= p < crate::DISP_AREA && plotted(gstart, gn, gn, 0, p)
                        && crate::semantics::draw_hit_at(d0, mem@, gi, gstart, gn, p));
                    assert(false);
                }
            }
        }
        assert(hit == crate::semantics::draw_hit(d0, mem@, gi, gstart, gn));
    }
    hit
}

/// Dxyn - DRW Vx, Vy, n: XOR an `n`-row sprite read from memory at I
/// onto the display at (Vx mod width, Vy mod height); VF reports
/// whether any set pixel was turned off, and colliding pixels restart
/// their decay counter.  A draw whose visible rows would read sprite
/// bytes past the end of memory is kept out by the precondition;
/// `execute_instruction` turns it into `MemoryOutOfBounds`.
pub fn drw_vx_vy_n(cpu: &mut Cpu, regx: u16, regy: u16, n: u16)
    requires
        old(cpu).wf(),
        regx < 16,
        regy < 16,
        n < 16,
        !crate::semantics::drw_oob(
            old(cpu)@.i_register as int,
            crate::semantics::draw_start(
                old(cpu)@.registers[regx as int],
                old(cpu)@.registers[regy as int],
            ),
            n as int,
        ),
    ensures
        final(cpu).wf(),
        final(cpu)@ == (CpuView {
            display: crate::semantics::draw_display(
                old(cpu)@.display,
                old(cpu)@.memory,
                old(cpu)@.i_register as int,
                crate::semantics::draw_start(
                    old(cpu)@.registers[regx as int],
                    old(cpu)@.registers[regy as int],
                ),
                n as int,
            ),
            glow: crate::semantics::draw_glow(
                old(cpu)@.glow,
                old(cpu)@.display,
                old(cpu)@.memory,
                old(cpu)@.i_register as int,
                crate::semantics::draw_start(
                    old(cpu)@.registers[regx as int],
                    old(cpu)@.registers[regy as int],
                ),
                n as int,
            ),
            registers: old(cpu)@.registers.update(
                15,
                if crate::semantics::draw_hit(
                    old(cpu)@.display,
                    old(cpu)@.memory,
                    old(cpu)@.i_register as int,
                    crate::semantics::draw_start(
                        old(cpu)@.registers[regx as int],
                        old(cpu)@.registers[regy as int],
                    ),
                    n as int,
                ) {
                    1u8
                } else {
                    0u8
                },
            ),
            ..old(cpu)@
        }),
{
    let x = (cpu.registers[regx as usize] as usize) % crate::DISP_WIDTH;
    let y = (cpu.registers[regy as usize] as usize) % crate::DISP_HEIGHT;
    let start_pos = x + y * crate::DISP_WIDTH;
    cpu.registers[FLAG_REGISTER] = 0;
    let i = cpu.i_register as usize;
    let hit = draw_sprite(
        &mut cpu.display,
        &mut cpu.phosphor_glow,
        &cpu.memory,
        i,
        start_pos,
        n as usize,
    );
    if hit {
        cpu.registers[FLAG_REGISTER] = 1;
    }
}

/// Ex9E - SKP Vx: skip the next instruction when the key named by Vx
/// is down; key names outside the keypad never read as down.
pub fn skp_vx(cpu: &mut Cpu, reg: u16)
    requires
        old(cpu).wf(),
        reg < 16,
    ensures
        final(cpu).wf(),
        final(cpu)@ == (CpuView {
            program_counter: if old(cpu)@.registers[reg as int] < 16 && old(cpu)@.keyboard[
                old(cpu)@.registers[reg as int] as int
            ] {
                add16(old(cpu)@.program_counter, 2)
            } else {
                old(cpu)@.program_counter
            },
            ..old(cpu)@
        }),
{
    let key = cpu.registers[reg as usize] as usize;
    if keypad::get_key(&cpu.keyboard, key) == Some(true) {
        cpu.program_counter = cpu.program_counter.wrapping_add(2);
    }
}

/// ExA1 - SKNP Vx: skip the next instruction when the key named by
/// Vx is up; key names outside the keypad never read as up either.
pub fn sknp_vx(cpu: &mut Cpu, reg: u16)
    requires
        old(cpu).wf(),
        reg < 16,
    ensures
        final(cpu).wf(),
        final(cpu)@ == (CpuView {
            program_counter: if old(cpu)@.registers[reg as int] < 16 && !old(cpu)@.keyboard[
                old(cpu)@.registers[reg as int] as int
            ] {
                add16(old(cpu)@.program_counter, 2)
            } else {
                old(cpu)@.program_counter
            },
            ..old(cpu)@
        }),
{
    let key = cpu.registers[reg as usize] as usize;
    if keypad::get_key(&cpu.keyboard, key) == Some(false) {
        cpu.program_counter = cpu.program_counter.wrapping_add(2);
    }
}

/// Fx07 - LD Vx, DT: read the delay timer.
pub fn ld_vx_dt(cpu: &mut Cpu, reg: u16)
    requires
        old(cpu).wf(),
        reg < 16,
    ensures
        final(cpu).wf(),
        final(cpu)@ == (CpuView {
            registers: old(cpu)@.registers.update(reg as int, old(cpu)@.delay_timer),
            ..old(cpu)@
        }),
{
    let dt = cpu.delay_timer;
    cpu.registers[reg as usize] = dt;
}

/// Fx15 - LD DT, Vx: set the delay timer.
pub fn ld_dt_vx(cpu: &mut Cpu, reg: u16)
    requires
        old(cpu).wf(),
        reg < 16,
    ensures
        final(cpu).wf(),
        final(cpu)@ == (CpuView {
            delay_timer: old(cpu)@.registers[reg as int],
            ..old(cpu)@
        }),
{
    cpu.delay_timer = cpu.registers[reg as usize];
}

/// Fx18 - LD ST, Vx: set the sound timer.
pub fn ld_st_vx(cpu: &mut Cpu, reg: u16)
    requires
        old(cpu).wf(),
        reg < 16,
    ensures
        final(cpu).wf(),
        final(cpu)@ == (CpuView {
            sound_timer: old(cpu)@.registers[reg as int],
            ..old(cpu)@
        }),
{
    cpu.sound_timer = cpu.registers[reg as usize];
}

/// Fx1E - ADD I, Vx with 16-bit wraparound.
pub fn add_i_vx(cpu: &mut Cpu, reg: u16)
    requires
        old(cpu).wf(),
        reg < 16,
    ensures
        final(cpu).wf(),
        final(cpu)@ == (CpuView {
            i_register: add16(old(cpu)@.i_register, old(cpu)@.registers[reg as int] as int),
            ..old(cpu)@
        }),
{
    let vx = cpu.registers[reg as usize];
    cpu.i_register = cpu.i_register.wrapping_add(vx as u16);
}

/// Fx29 - LD F, Vx: point I at the font glyph for digit Vx.  Values
/// above 0xF name no glyph and are kept out by the precondition;
/// `execute_instruction` turns them into `InvalidFontDigit`.
pub fn ld_f_vx(cpu: &mut Cpu, reg: u16)
    requires
        old(cpu).wf(),
        reg < 16,
        old(cpu)@.registers[reg as int] <= 0xF,
    ensures
        final(cpu).wf(),
        final(cpu)@ == (CpuView {
            i_register: (old(cpu)@.registers[reg as int] * 5) as u16,
            ..old(cpu)@
        }),
{
    let digit = cpu.registers[reg as usize];
    cpu.i_register = (digit as u16) * 5;
}

/// Fx33 - LD B, Vx: the decimal digits of Vx at I, I+1 and I+2
/// (hundreds first).
pub fn ld_b_vx(cpu: &mut Cpu, reg: u16)
    requires
        old(cpu).wf(),
        reg < 16,
        old(cpu)@.i_register + 2 < MEM_SIZE,
    ensures
        final(cpu).wf(),
        final(cpu)@ == (CpuView {
            memory: old(cpu)@.memory.update(
                old(cpu)@.i_register as int,
                ((old(cpu)@.registers[reg as int] / 100) % 10) as u8,
            ).update(
                old(cpu)@.i_register as int + 1,
                ((old(cpu)@.registers[reg as int] / 10) % 10) as u8,
            ).update(
                old(cpu)@.i_register as int + 2,
                (old(cpu)@.registers[reg as int] % 10) as u8,
            ),
            ..old(cpu)@
        }),
{
    let addr = cpu.i_register as usize;
    let vx = cpu.registers[reg as usize];
    cpu.memory[addr] = (vx / 100) % 10;
    cpu.memory[addr + 1] = (vx / 10) % 10;
    cpu.memory[addr + 2] = vx % 10;
}

/// Fx55 - LD [I], Vx: store V0..Vx at I..I+x.
pub fn ld_i_vx(cpu: &mut Cpu, reg: u16)
    requires
        old(cpu).wf(),
        reg < 16,
        old(cpu)@.i_register + reg < MEM_SIZE,
    ensures
        final(cpu).wf(),
        final(cpu)@ == (CpuView {
            memory: Seq::new(
                old(cpu)@.memory.len(),
                |p: int|
                    if old(cpu)@.i_register <= p <= old(cpu)@.i_register + reg {
                        old(cpu)@.registers[p - old(cpu)@.i_register]
                    } else {
                        old(cpu)@.memory[p]
                    },
            ),
            ..old(cpu)@
        }),
{
    let addr = cpu.i_register as usize;
    let count = reg as usize + 1;
    let src = vstd::slice::slice_subrange(cpu.registers.as_slice(), 0, count);
    crate::cpu::copy_into(&mut cpu.memory, addr, src);
    proof {
        assert(cpu@.memory =~= Seq::new(
            old(cpu)@.memory.len(),
            |p: int|
                if old(cpu)@.i_register <= p <= old(cpu)@.i_register + reg {
                    old(cpu)@.registers[p - old(cpu)@.i_register]
                } else {
                    old(cpu)@.memory[p]
                },
        ));
    }
}

/// Fx65 - LD Vx, [I]: load V0..Vx from I..I+x.
pub fn ld_vx_i(cpu: &mut Cpu, reg: u16)
    requires
        old(cpu).wf(),
        reg < 16,
        old(cpu)@.i_register + reg < MEM_SIZE,
    ensures
        final(cpu).wf(),
        final(cpu)@ == (CpuView {
            registers: Seq::new(
                16,
                |r: int|
                    if r <= reg {
                        old(cpu)@.memory[old(cpu)@.i_register + r]
                    } else {
                        old(cpu)@.registers[r]
                    },
            ),
            ..old(cpu)@
        }),
{
    let addr = cpu.i_register as usize;
    let count = reg as usize + 1;
    let src = vstd::slice::slice_subrange(cpu.memory.as_slice(), addr, addr + count);
    crate::cpu::copy_into(&mut cpu.registers, 0, src);
    proof {
        assert(cpu@.registers =~= Seq::new(
            16,
            |r: int|
                if r <= reg {
                    old(cpu)@.memory[old(cpu)@.i_register + r]
                } else {
                    old(cpu)@.registers[r]
                },
        ));
    }
}

} // verus!
