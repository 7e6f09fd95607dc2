//! Mathematical semantics of the machine.
//!
//! [`CpuView`] is the ghost image of the executable [`crate::cpu::Cpu`]:
//! each component appears as a sequence or a scalar.  [`step`] maps a
//! machine state and a 16-bit opcode to the next state (or to the error
//! the instruction raises), and is the single definition every
//! executable instruction handler is verified against.

use vstd::prelude::*;

use crate::ExecError;
use crate::DISP_AREA;
use crate::MEM_SIZE;

verus! {

/// Ghost image of the whole machine state.
#[verifier::ext_equal]
pub ghost struct CpuView {
    /// All addressable memory bytes.
    pub memory: Seq<u8>,
    /// The sixteen general-purpose registers `V0..VF`.
    pub registers: Seq<u8>,
    /// The 16-bit index register `I`.
    pub i_register: u16,
    /// The delay timer.
    pub delay_timer: u8,
    /// The sound timer.
    pub sound_timer: u8,
    /// The program counter.
    pub program_counter: u16,
    /// The call stack of return addresses, most recent last.
    pub stack: Seq<u16>,
    /// Down-state of the sixteen logical keys.
    pub keyboard: Seq<bool>,
    /// One byte per pixel, each 0 or 1, row-major.
    pub display: Seq<u8>,
    /// Per-pixel decay counters for the rendering glow effect.
    pub glow: Seq<u8>,
    /// `Some(r)` while execution is halted waiting for a key destined
    /// for register `r`.
    pub waiting: Option<u16>,
}

impl CpuView {
    /// Shape every reachable machine state has.
    pub open spec fn wf(self) -> bool {
        &&& self.memory.len() == MEM_SIZE
        &&& self.registers.len() == 16
        &&& self.keyboard.len() == 16
        &&& self.display.len() == DISP_AREA
        &&& self.glow.len() == DISP_AREA
        &&& forall|p: int| 0 <= p < DISP_AREA ==> self.display[p] == 0 || self.display[p] == 1
        &&& self.waiting matches Some(r) ==> r < 16
    }
}

/// 16-bit wraparound addition of a small non-negative offset to an
/// address.
pub open spec fn add16(a: u16, k: int) -> u16 {
    if a + k > 0xFFFF {
        (a + k - 0x10000) as u16
    } else {
        (a + k) as u16
    }
}

/// Bounds of the four nibbles and the two wider fields of an opcode.
pub proof fn lemma_nibble_bounds(op: u16)
    by (bit_vector)
    ensures
        (op >> 12) & 0xF < 16,
        (op >> 8) & 0xF < 16,
        (op >> 4) & 0xF < 16,
        op & 0xF < 16,
        op & 0xFF < 256,
        op & 0xFFF < 0x1000,
{
}

/// The state after the program counter moves past the current
/// instruction.
pub open spec fn advance(s: CpuView) -> CpuView {
    CpuView { program_counter: add16(s.program_counter, 2), ..s }
}

/// A sequence of `n` zero bytes.
pub open spec fn zero_seq(n: nat) -> Seq<u8> {
    Seq::new(n, |i: int| 0u8)
}

/// The bit of sprite byte `b` shown in column `col` (column 0 is the
/// most significant bit), as 0 or 1.
pub open spec fn sprite_bit(b: u8, col: int) -> u8 {
    (b >> ((7 - col) as u8)) & 1
}

/// The sprite bit XOR-ed into pixel `p` by a draw of `n` rows of sprite
/// data taken from memory at `i`, whose top-left pixel is at buffer
/// offset `start`; 0 when the draw does not touch `p`.
///
/// Row `r`, column `c` of the sprite lands on pixel `start + 64*r + c`;
/// a pixel is touched by at most one sprite cell.
pub open spec fn draw_bit_at(mem: Seq<u8>, i: int, start: int, n: int, p: int) -> u8 {
    let rel = p - start;
    if 0 <= rel && rel % 64 < 8 && rel / 64 < n {
        sprite_bit(mem[i + rel / 64], rel % 64)
    } else {
        0u8
    }
}

/// A single extracted bit is 0 or 1.
proof fn lemma_bit_extract_small()
    by (bit_vector)
    ensures
        forall|b: u8, c: u8| #[trigger] ((b >> c) & 1) <= 1,
{
}

/// Every sprite bit a draw produces is 0 or 1.
pub proof fn lemma_draw_bit_small(mem: Seq<u8>, i: int, start: int, n: int)
    ensures
        forall|p: int| #[trigger] draw_bit_at(mem, i, start, n, p) <= 1,
{
    lemma_bit_extract_small();
}

/// The display after a draw: every pixel XOR-ed with its sprite bit.
pub open spec fn draw_display(d: Seq<u8>, mem: Seq<u8>, i: int, start: int, n: int) -> Seq<u8> {
    Seq::new(d.len(), |p: int| d[p] ^ draw_bit_at(mem, i, start, n, p))
}

/// Whether the draw turns pixel `p` from on to on-colliding: the pixel
/// was set and the sprite bit is set.
pub open spec fn draw_hit_at(d: Seq<u8>, mem: Seq<u8>, i: int, start: int, n: int, p: int) -> bool {
    d[p] == 1 && draw_bit_at(mem, i, start, n, p) == 1
}

/// Whether the draw collides anywhere on the display.
pub open spec fn draw_hit(d: Seq<u8>, mem: Seq<u8>, i: int, start: int, n: int) -> bool {
    exists|p: int| 0 <= p < d.len() && draw_hit_at(d, mem, i, start, n, p)
}

/// The decay buffer after a draw: colliding pixels are reset to the
/// glow constant, the rest keep their counters.
pub open spec fn draw_glow(
    g: Seq<u8>,
    d: Seq<u8>,
    mem: Seq<u8>,
    i: int,
    start: int,
    n: int,
) -> Seq<u8> {
    Seq::new(g.len(), |p: int| if draw_hit_at(d, mem, i, start, n, p) { 2u8 } else { g[p] })
}

/// The buffer offset of a draw's top-left pixel: both coordinates
/// wrap at the display edges.
pub open spec fn draw_start(vx: u8, vy: u8) -> int {
    (vx as int % 64) + 64 * (vy as int % 32)
}

/// How many of the `n` sprite rows own at least one on-screen pixel:
/// row `r` does exactly when `start + 64*r < DISP_AREA`, so for
/// `0 <= start < DISP_AREA` the visible rows are an initial segment.
pub open spec fn visible_rows(start: int, n: int) -> int {
    let all = (DISP_AREA - start + 63) / 64;
    if n <= all {
        n
    } else {
        all
    }
}

/// Whether a draw would have to read sprite bytes past the end of
/// memory: some row that owns at least one on-screen pixel has its
/// sprite byte outside `[0, MEM_SIZE)`.
pub open spec fn drw_oob(i: int, start: int, n: int) -> bool {
    visible_rows(start, n) > 0 && i + visible_rows(start, n) - 1 >= MEM_SIZE
}

/// One instruction of the machine, as a mathematical transition.
///
/// `s` is the state before the instruction, `op` the fetched opcode and
/// `rnd` the byte the random source hands the `RND` instruction (it is
/// ignored by every other opcode).  The function assumes `s.wf()` and
/// that the machine is not halted waiting for a key; the executable
/// `execute_instruction` handles the halted case separately.  On an
/// error the machine state is unchanged.
pub open spec fn step(s: CpuView, op: u16, rnd: u8) -> Result<CpuView, ExecError> {
    let a = (op >> 12) & 0xF;
    let x = (op >> 8) & 0xF;
    let y = (op >> 4) & 0xF;
    let d = op & 0xF;
    let kk = (op & 0xFF) as u8;
    let nnn = op & 0xFFF;
    let vx = s.registers[x as int];
    let vy = s.registers[y as int];
    if a == 0 && x == 0 && y == 0xE && d == 0 {
        // CLS: clear the display and the decay buffer.
        Ok(
            advance(
                CpuView {
                    display: zero_seq(DISP_AREA as nat),
                    glow: zero_seq(DISP_AREA as nat),
                    ..s
                },
            ),
        )
    } else if a == 0 && x == 0 && y == 0xE && d == 0xE {
        // RET: pop the return address into the program counter.
        if s.stack.len() == 0 {
            Err(ExecError::StackUnderflow)
        } else {
            Ok(CpuView { program_counter: s.stack.last(), stack: s.stack.drop_last(), ..s })
        }
    } else if a == 0 {
        // SYS: ignored by modern interpreters.
        Ok(advance(s))
    } else if a == 1 {
        // JP nnn.
        Ok(CpuView { program_counter: nnn, ..s })
    } else if a == 2 {
        // CALL nnn: push the address of the next instruction.
        Ok(
            CpuView {
                stack: s.stack.push(add16(s.program_counter, 2)),
                program_counter: nnn,
                ..s
            },
        )
    } else if a == 3 {
        // SE Vx, kk: skip the next instruction on equality.
        Ok(
            CpuView {
                program_counter: add16(s.program_counter, if vx == kk { 4int } else { 2int }),
                ..s
            },
        )
    } else if a == 4 {
        // SNE Vx, kk.
        Ok(
            CpuView {
                program_counter: add16(s.program_counter, if vx != kk { 4int } else { 2int }),
                ..s
            },
        )
    } else if a == 5 {
        // SE Vx, Vy.
        Ok(
            CpuView {
                program_counter: add16(s.program_counter, if vx == vy { 4int } else { 2int }),
                ..s
            },
        )
    } else if a == 6 {
        // LD Vx, kk.
        Ok(advance(CpuView { registers: s.registers.update(x as int, kk), ..s }))
    } else if a == 7 {
        // ADD Vx, kk (no flag).
        Ok(
            advance(
                CpuView { registers: s.registers.update(x as int, ((vx + kk) % 256) as u8), ..s },
            ),
        )
    } else if a == 8 && d == 0 {
        // LD Vx, Vy.
        Ok(advance(CpuView { registers: s.registers.update(x as int, vy), ..s }))
    } else if a == 8 && d == 1 {
        // OR Vx, Vy.
        Ok(advance(CpuView { registers: s.registers.update(x as int, vx | vy), ..s }))
    } else if a == 8 && d == 2 {
        // AND Vx, Vy.
        Ok(advance(CpuView { registers: s.registers.update(x as int, vx & vy), ..s }))
    } else if a == 8 && d == 3 {
        // XOR Vx, Vy.
        Ok(advance(CpuView { registers: s.registers.update(x as int, vx ^ vy), ..s }))
    } else if a == 8 && d == 4 {
        // ADD Vx, Vy: wrapping sum, VF records the carry.
        Ok(
            advance(
                CpuView {
                    registers: s.registers.update(x as int, ((vx + vy) % 256) as u8).update(
                        15,
                        if vx + vy > 255 { 1u8 } else { 0u8 },
                    ),
                    ..s
                },
            ),
        )
    } else if a == 8 && d == 5 {
        // SUB Vx, Vy: wrapping difference, VF is 1 when no borrow.
        Ok(
            advance(
                CpuView {
                    registers: s.registers.update(
                        x as int,
                        ((vx - vy + 256) % 256) as u8,
                    ).update(15, if vx >= vy { 1u8 } else { 0u8 }),
                    ..s
                },
            ),
        )
    } else if a == 8 && d == 6 {
        // SHR Vx, Vy: VF takes Vy's low bit, then Vx receives Vy
        // shifted right one; with Vy = VF the flag write is visible
        // to the shift.
        let flagged = s.registers.update(15, (vy % 2) as u8);
        Ok(
            advance(
                CpuView {
                    registers: flagged.update(x as int, (flagged[y as int] / 2) as u8),
                    ..s
                },
            ),
        )
    } else if a == 8 && d == 7 {
        // SUBN Vx, Vy: Vy - Vx, VF is 1 when no borrow.
        Ok(
            advance(
                CpuView {
                    registers: s.registers.update(
                        x as int,
                        ((vy - vx + 256) % 256) as u8,
                    ).update(15, if vy >= vx { 1u8 } else { 0u8 }),
                    ..s
                },
            ),
        )
    } else if a == 8 && d == 0xE {
        // SHL Vx, Vy: VF takes Vy's high bit, then Vx receives Vy
        // shifted left one; with Vy = VF the flag write is visible
        // to the shift.
        let flagged = s.registers.update(15, (vy / 128) as u8);
        Ok(
            advance(
                CpuView {
                    registers: flagged.update(x as int, ((flagged[y as int] * 2) % 256) as u8),
                    ..s
                },
            ),
        )
    } else if a == 9 && d == 0 {
        // SNE Vx, Vy.
        Ok(
            CpuView {
                program_counter: add16(s.program_counter, if vx != vy { 4int } else { 2int }),
                ..s
            },
        )
    } else if a == 0xA {
        // LD I, nnn.
        Ok(advance(CpuView { i_register: nnn, ..s }))
    } else if a == 0xB {
        // JP V0, nnn.
        Ok(CpuView { program_counter: (s.registers[0] + nnn) as u16, ..s })
    } else if a == 0xC {
        // RND Vx, kk.
        Ok(advance(CpuView { registers: s.registers.update(x as int, rnd & kk), ..s }))
    } else if a == 0xD {
        // DRW Vx, Vy, n.
        let start = draw_start(vx, vy);
        let i = s.i_register as int;
        let n = d as int;
        if drw_oob(i, start, n) {
            Err(ExecError::MemoryOutOfBounds)
        } else {
            Ok(
                advance(
                    CpuView {
                        display: draw_display(s.display, s.memory, i, start, n),
                        glow: draw_glow(s.glow, s.display, s.memory, i, start, n),
                        registers: s.registers.update(
                            15,
                            if draw_hit(s.display, s.memory, i, start, n) { 1u8 } else { 0u8 },
                        ),
                        ..s
                    },
                ),
            )
        }
    } else if a == 0xE && y == 9 && d == 0xE {
        // SKP Vx: skip when the key named by Vx is down.
        let pressed = vx < 16 && s.keyboard[vx as int];
        Ok(
            CpuView {
                program_counter: add16(s.program_counter, if pressed { 4int } else { 2int }),
                ..s
            },
        )
    } else if a == 0xE && y == 0xA && d == 1 {
        // SKNP Vx: skip when the key named by Vx is up.
        let released = vx < 16 && !s.keyboard[vx as int];
        Ok(
            CpuView {
                program_counter: add16(s.program_counter, if released { 4int } else { 2int }),
                ..s
            },
        )
    } else if a == 0xF && y == 0 && d == 7 {
        // LD Vx, DT.
        Ok(advance(CpuView { registers: s.registers.update(x as int, s.delay_timer), ..s }))
    } else if a == 0xF && y == 0 && d == 0xA {
        // LD Vx, K: halt until a key-down event.
        Ok(advance(CpuView { waiting: Some(x), ..s }))
    } else if a == 0xF && y == 1 && d == 5 {
        // LD DT, Vx.
        Ok(advance(CpuView { delay_timer: vx, ..s }))
    } else if a == 0xF && y == 1 && d == 8 {
        // LD ST, Vx.
        Ok(advance(CpuView { sound_timer: vx, ..s }))
    } else if a == 0xF && y == 1 && d == 0xE {
        // ADD I, Vx with 16-bit wraparound.
        Ok(advance(CpuView { i_register: add16(s.i_register, vx as int), ..s }))
    } else if a == 0xF && y == 2 && d == 9 {
        // LD F, Vx: point I at the glyph for digit Vx.
        if vx > 0xF {
            Err(ExecError::InvalidFontDigit)
        } else {
            Ok(advance(CpuView { i_register: (vx * 5) as u16, ..s }))
        }
    } else if a == 0xF && y == 3 && d == 3 {
        // LD B, Vx: binary-coded decimal of Vx at I, I+1, I+2.
        let i = s.i_register as int;
        if i + 2 >= MEM_SIZE {
            Err(ExecError::MemoryOutOfBounds)
        } else {
            Ok(
                advance(
                    CpuView {
                        memory: s.memory.update(i, ((vx / 100) % 10) as u8).update(
                            i + 1,
                            ((vx / 10) % 10) as u8,
                        ).update(i + 2, (vx % 10) as u8),
                        ..s
                    },
                ),
            )
        }
    } else if a == 0xF && y == 5 && d == 5 {
        // LD [I], Vx: store V0..Vx at I..I+x.
        let i = s.i_register as int;
        if i + x >= MEM_SIZE {
            Err(ExecError::MemoryOutOfBounds)
        } else {
            Ok(
                advance(
                    CpuView {
                        memory: Seq::new(
                            s.memory.len(),
                            |p: int|
                                if i <= p <= i + x {
                                    s.registers[p - i]
                                } else {
                                    s.memory[p]
                                },
                        ),
                        ..s
                    },
                ),
            )
        }
    } else if a == 0xF && y == 6 && d == 5 {
        // LD Vx, [I]: load V0..Vx from I..I+x.
        let i = s.i_register as int;
        if i + x >= MEM_SIZE {
            Err(ExecError::MemoryOutOfBounds)
        } else {
            Ok(
                advance(
                    CpuView {
                        registers: Seq::new(
                            16,
                            |r: int| if r <= x { s.memory[i + r] } else { s.registers[r] },
                        ),
                        ..s
                    },
                ),
            )
        }
    } else {
        Err(ExecError::UnimplementedOpcode(op))
    }
}

/// How one call of `execute_instruction` on a non-halted machine
/// relates its outcome to [`step`]: the final state and returned value
/// match the transition for random byte `b`.
pub open spec fn step_to(
    pre: CpuView,
    op: u16,
    b: u8,
    post: CpuView,
    r: Result<(), ExecError>,
) -> bool {
    match step(pre, op, b) {
        Ok(v) => r == Ok::<(), ExecError>(()) && post =~= v,
        Err(e) => r == Err::<(), ExecError>(e) && post =~= pre,
    }
}

} // verus!
