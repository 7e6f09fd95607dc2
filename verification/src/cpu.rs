//! The executable machine: state, construction, program loading,
//! instruction fetch, key events and timers.

use vstd::prelude::*;

use crate::instructions;
use crate::keypad;
use crate::semantics::lemma_nibble_bounds;
use crate::semantics::step_to;
use crate::semantics::zero_seq;
use crate::semantics::CpuView;
use crate::ExecError;
use crate::LoadError;
use crate::DISP_AREA;
use crate::DISP_HEIGHT;
use crate::DISP_WIDTH;
use crate::FONT_BYTES;
use crate::MEM_SIZE;
use crate::TXT_OFFSET;

verus! {

/// The CHIP-8 machine.
///
/// All reachable states satisfy [`Cpu::wf`]; the public operations
/// require and preserve it.
pub struct Cpu {
    /// Call stack of return addresses, most recent last.
    pub stack: Vec<u16>,
    /// All addressable memory bytes; the font occupies the first
    /// `FONT_BYTES` bytes.
    pub memory: Vec<u8>,
    /// The sixteen general-purpose registers `V0..VF`.
    pub registers: Vec<u8>,
    /// The 16-bit index register `I`.
    pub i_register: u16,
    /// The delay timer.
    pub delay_timer: u8,
    /// The sound timer.
    pub sound_timer: u8,
    /// The program counter.
    pub program_counter: u16,
    /// Down-state of the sixteen logical keys.
    pub keyboard: keypad::Keypad,
    /// One byte per pixel, each 0 or 1, row-major.
    pub display: Vec<u8>,
    /// Per-pixel decay counters driving the rendering glow effect.
    pub phosphor_glow: Vec<u8>,
    /// Whether execution is halted waiting for a key-down event.
    pub halted: bool,
    /// The register a key value is destined for while halted.
    pub store_key: u16,
}

impl View for Cpu {
    type V = CpuView;

    open spec fn view(&self) -> CpuView {
        CpuView {
            memory: self.memory@,
            registers: self.registers@,
            i_register: self.i_register,
            delay_timer: self.delay_timer,
            sound_timer: self.sound_timer,
            program_counter: self.program_counter,
            stack: self.stack@,
            keyboard: keypad::key_bits(self.keyboard),
            display: self.display@,
            glow: self.phosphor_glow@,
            waiting: if self.halted {
                Some(self.store_key)
            } else {
                None
            },
        }
    }
}

/// The built-in hexadecimal font: 16 glyphs of 5 bytes each.
pub open spec fn font_seq() -> Seq<u8> {
    seq![
        0xF0u8, 0x90, 0x90, 0x90, 0xF0,  // 0
        0x20, 0x60, 0x20, 0x20, 0x70,  // 1
        0xF0, 0x10, 0xF0, 0x80, 0xF0,  // 2
        0xF0, 0x10, 0xF0, 0x10, 0xF0,  // 3
        0x90, 0x90, 0xF0, 0x10, 0x10,  // 4
        0xF0, 0x80, 0xF0, 0x10, 0xF0,  // 5
        0xF0, 0x80, 0xF0, 0x90, 0xF0,  // 6
        0xF0, 0x10, 0x20, 0x40, 0x40,  // 7
        0xF0, 0x90, 0xF0, 0x90, 0xF0,  // 8
        0xF0, 0x90, 0xF0, 0x10, 0xF0,  // 9
        0xF0, 0x90, 0xF0, 0x90, 0x90,  // A
        0xE0, 0x90, 0xE0, 0x90, 0xE0,  // B
        0xF0, 0x80, 0x80, 0x80, 0xF0,  // C
        0xE0, 0x90, 0x90, 0x90, 0xE0,  // D
        0xF0, 0x80, 0xF0, 0x80, 0xF0,  // E
        0xF0, 0x80, 0xF0, 0x80, 0x80,  // F
    ]
}

/// The font sprite data as bytes.
pub fn font_set() -> (v: Vec<u8>)
    ensures
        v@ == font_seq(),
{
    let v: Vec<u8> = vec![
        0xF0u8, 0x90, 0x90, 0x90, 0xF0,  // 0
        0x20, 0x60, 0x20, 0x20, 0x70,  // 1
        0xF0, 0x10, 0xF0, 0x80, 0xF0,  // 2
        0xF0, 0x10, 0xF0, 0x10, 0xF0,  // 3
        0x90, 0x90, 0xF0, 0x10, 0x10,  // 4
        0xF0, 0x80, 0xF0, 0x10, 0xF0,  // 5
        0xF0, 0x80, 0xF0, 0x90, 0xF0,  // 6
        0xF0, 0x10, 0x20, 0x40, 0x40,  // 7
        0xF0, 0x90, 0xF0, 0x90, 0xF0,  // 8
        0xF0, 0x90, 0xF0, 0x10, 0xF0,  // 9
        0xF0, 0x90, 0xF0, 0x90, 0x90,  // A
        0xE0, 0x90, 0xE0, 0x90, 0xE0,  // B
        0xF0, 0x80, 0x80, 0x80, 0xF0,  // C
        0xE0, 0x90, 0x90, 0x90, 0xE0,  // D
        0xF0, 0x80, 0xF0, 0x80, 0xF0,  // E
        0xF0, 0x80, 0xF0, 0x80, 0x80,  // F
    ];
    proof {
        assert(v@ =~= font_seq());
    }
    v
}

/// Translate a host key code to its logical CHIP-8 key index.
pub open spec fn spec_translate_key(code: usize) -> usize {
    if code == 49 {
        1
    } else if code == 50 {
        2
    } else if code == 51 {
        3
    } else if code == 52 {
        0xC
    } else if code == 81 {
        4
    } else if code == 87 {
        5
    } else if code == 69 {
        6
    } else if code == 82 {
        0xD
    } else if code == 64 {
        7
    } else if code == 83 {
        8
    } else if code == 68 {
        9
    } else if code == 70 {
        0xE
    } else if code == 90 {
        0xA
    } else if code == 88 {
        0x0
    } else if code == 67 {
        0xB
    } else if code == 86 {
        0xF
    } else {
        0
    }
}

/// Translate a host key code to its logical CHIP-8 key index; unknown
/// codes map to key 0.
pub fn translate_key(code: usize) -> (key: usize)
    ensures
        key == spec_translate_key(code),
        key < 16,
{
    match code {
        49 => 1,  // 1
        50 => 2,  // 2
        51 => 3,  // 3
        52 => 0xC,  // 4
        81 => 4,  // Q
        87 => 5,  // W
        69 => 6,  // E
        82 => 0xD,  // R
        64 => 7,  // A
        83 => 8,  // S
        68 => 9,  // D
        70 => 0xE,  // F
        90 => 0xA,  // Z
        88 => 0x0,  // X
        67 => 0xB,  // C
        86 => 0xF,  // V
        _ => 0,
    }
}

/// Relies on `BigEndian::read_u16` (byteorder): the two bytes read as
/// one big-endian 16-bit integer.
#[verifier::external_body]
fn read_u16_be(hi: u8, lo: u8) -> (r: u16)
    ensures
        r == hi * 256 + lo,
{
    <byteorder::BigEndian as byteorder::ByteOrder>::read_u16(&[hi, lo])
}

/// Overwrite `mem[offset..offset + bytes.len()]` with `bytes`.
pub(crate) fn copy_into(mem: &mut Vec<u8>, offset: usize, bytes: &[u8])
    requires
        offset + bytes@.len() <= old(mem)@.len(),
    ensures
        final(mem)@.len() == old(mem)@.len(),
        forall|p: int| 0 <= p < offset ==> final(mem)@[p] == old(mem)@[p],
        forall|p: int|
            offset <= p < offset + bytes@.len() ==> final(mem)@[p] == bytes@[p - offset],
        forall|p: int|
            offset + bytes@.len() <= p < old(mem)@.len() ==> final(mem)@[p] == old(mem)@[p],
{
    let n = bytes.len();
    let len = mem.len();
    let mut k: usize = 0;
    while k < n
        invariant
            n == bytes@.len(),
            k <= n,
            offset + n <= len,
            len == mem@.len(),
            mem@.len() == old(mem)@.len(),
            forall|p: int| 0 <= p < offset ==> mem@[p] == old(mem)@[p],
            forall|p: int| offset <= p < offset + k ==> mem@[p] == bytes@[p - offset],
            forall|p: int| offset + k <= p < old(mem)@.len() ==> mem@[p] == old(mem)@[p],
        decreases n - k,
    {
        mem[offset + k] = bytes[k];
        k += 1;
    }
}

impl Cpu {
    /// Shape every reachable machine state has.
    pub open spec fn wf(&self) -> bool {
        self@.wf()
    }

    /// Create a fresh machine: memory zeroed except for the font,
    /// registers and timers zeroed, program counter at `TXT_OFFSET`,
    /// empty stack, blank display, all keys up, not halted.
    pub fn new() -> (cpu: Cpu)
        ensures
            cpu.wf(),
            cpu@.memory == font_seq() + zero_seq((MEM_SIZE - FONT_BYTES) as nat),
            cpu@.registers == zero_seq(16),
            cpu@.i_register == 0,
            cpu@.delay_timer == 0,
            cpu@.sound_timer == 0,
            cpu@.program_counter == TXT_OFFSET,
            cpu@.stack == Seq::<u16>::empty(),
            cpu@.keyboard == Seq::new(16, |i: int| false),
            cpu@.display == zero_seq(DISP_AREA as nat),
            cpu@.glow == zero_seq(DISP_AREA as nat),
            cpu@.waiting.is_none(),
    {
        let font = font_set();
        let mut memory: Vec<u8> = vec![0u8; MEM_SIZE];
        copy_into(&mut memory, 0, font.as_slice());
        let cpu = Cpu {
            stack: Vec::<u16>::new(),
            memory,
            registers: vec![0u8; 16],
            i_register: 0u16,
            delay_timer: 0,
            sound_timer: 0,
            program_counter: TXT_OFFSET as u16,
            keyboard: keypad::new_keypad(),
            display: vec![0u8; DISP_AREA],
            phosphor_glow: vec![0u8; DISP_AREA],
            halted: false,
            store_key: 0,
        };
        proof {
            assert(cpu@.memory =~= font_seq() + zero_seq((MEM_SIZE - FONT_BYTES) as nat));
            assert(cpu@.registers =~= zero_seq(16));
            assert(cpu@.display =~= zero_seq(DISP_AREA as nat));
            assert(cpu@.glow =~= zero_seq(DISP_AREA as nat));
            assert(cpu@.stack =~= Seq::<u16>::empty());
        }
        cpu
    }

    /// Copy a program image into memory at `TXT_OFFSET`.
    ///
    /// Succeeds with the number of bytes copied exactly when the image
    /// fits below the end of memory; a too-large image is rejected
    /// with the machine unchanged.  Memory outside the copied range is
    /// kept, so only a fresh machine guarantees zeroes elsewhere.
    pub fn load_from_bytes(&mut self, bytes: &[u8]) -> (r: Result<usize, LoadError>)
        requires
            old(self).wf(),
        ensures
            final(self).wf(),
            bytes@.len() > MEM_SIZE - TXT_OFFSET ==> r == Err::<usize, LoadError>(
                LoadError::RomTooLarge,
            ) && final(self)@ == old(self)@,
            bytes@.len() <= MEM_SIZE - TXT_OFFSET ==> r == Ok::<usize, LoadError>(
                bytes@.len() as usize,
            ) && final(self)@ == (CpuView {
                memory: old(self)@.memory.subrange(0, TXT_OFFSET as int) + bytes@ + old(
                    self,
                )@.memory.subrange(TXT_OFFSET + bytes@.len() as int, MEM_SIZE as int),
                ..old(self)@
            }),
    {
        if bytes.len() > MEM_SIZE - TXT_OFFSET {
            return Err(LoadError::RomTooLarge);
        }
        copy_into(&mut self.memory, TXT_OFFSET, bytes);
        proof {
            assert(self@.memory =~= old(self)@.memory.subrange(0, TXT_OFFSET as int) + bytes@
                + old(self)@.memory.subrange(TXT_OFFSET + bytes@.len() as int, MEM_SIZE as int));
            assert(self@ =~= (CpuView {
                memory: old(self)@.memory.subrange(0, TXT_OFFSET as int) + bytes@ + old(
                    self,
                )@.memory.subrange(TXT_OFFSET + bytes@.len() as int, MEM_SIZE as int),
                ..old(self)@
            }));
        }
        Ok(bytes.len())
    }

    /// Read the two memory bytes at the program counter as one
    /// big-endian opcode.  Does not advance the program counter.
    pub fn fetch_instruction(&self) -> (op: u16)
        requires
            self.wf(),
            self.program_counter + 2 <= MEM_SIZE,
        ensures
            op == self@.memory[self@.program_counter as int] * 256 + self@.memory[
                self@.program_counter as int + 1
            ],
    {
        let pc = self.program_counter as usize;
        read_u16_be(self.memory[pc], self.memory[pc + 1])
    }

    /// Record a logical key as down.  If the machine was halted
    /// waiting for a key, the key value lands in the destination
    /// register and execution resumes.
    pub fn key_down(&mut self, key: usize)
        requires
            old(self).wf(),
            key < 16,
        ensures
            final(self).wf(),
            old(self)@.waiting.is_none() ==> final(self)@ == (CpuView {
                keyboard: old(self)@.keyboard.update(key as int, true),
                ..old(self)@
            }),
            old(self)@.waiting matches Some(r) ==> final(self)@ == (CpuView {
                keyboard: old(self)@.keyboard.update(key as int, true),
                registers: old(self)@.registers.update(r as int, key as u8),
                waiting: None,
                ..old(self)@
            }),
    {
        if self.halted {
            self.halted = false;
            let dest = self.store_key as usize;
            self.registers[dest] = key as u8;
        }
        keypad::set_key(&mut self.keyboard, key, true);
    }

    /// Record a logical key as up.  The halt state is not affected.
    pub fn key_up(&mut self, key: usize)
        requires
            old(self).wf(),
            key < 16,
        ensures
            final(self).wf(),
            final(self)@ == (CpuView {
                keyboard: old(self)@.keyboard.update(key as int, false),
                ..old(self)@
            }),
    {
        keypad::set_key(&mut self.keyboard, key, false);
    }

    /// Count both timers down one tick, saturating at zero.
    pub fn decrement_timers(&mut self)
        requires
            old(self).wf(),
        ensures
            final(self).wf(),
            final(self)@ == (CpuView {
                delay_timer: if old(self)@.delay_timer > 0 {
                    (old(self)@.delay_timer - 1) as u8
                } else {
                    0u8
                },
                sound_timer: if old(self)@.sound_timer > 0 {
                    (old(self)@.sound_timer - 1) as u8
                } else {
                    0u8
                },
                ..old(self)@
            }),
    {
        if self.delay_timer > 0 {
            self.delay_timer = self.delay_timer - 1;
        }
        if self.sound_timer > 0 {
            self.sound_timer = self.sound_timer - 1;
        }
    }

    /// A read-only view of the pixel buffer.
    pub fn get_display(&self) -> (d: &Vec<u8>)
        ensures
            d@ == self@.display,
    {
        &self.display
    }

    /// Execute one already-fetched opcode.
    ///
    /// While the machine is halted waiting for a key this is a no-op
    /// that reports success.  Otherwise the machine makes exactly the
    /// transition [`crate::semantics::step`] describes for some random
    /// byte `b` (only the `RND` instruction reads it): on `Ok` the new
    /// state is the step's result, on `Err` the machine is unchanged
    /// and the error tells which instruction-level check failed.
    pub fn execute_instruction(&mut self, opcode: u16) -> (r: Result<(), ExecError>)
        requires
            old(self).wf(),
        ensures
            final(self).wf(),
            old(self)@.waiting.is_some() ==> r == Ok::<(), ExecError>(()) && final(self)@ == old(
                self,
            )@,
            old(self)@.waiting.is_none() ==> exists|b: u8|
                #[trigger] step_to(old(self)@, opcode, b, final(self)@, r),
    {
        if self.halted {
            return Ok(());
        }
        proof {
            lemma_nibble_bounds(opcode);
        }
        let a = (opcode >> 12) & 0xF;
        let x = (opcode >> 8) & 0xF;
        let y = (opcode >> 4) & 0xF;
        let d = opcode & 0xF;

        if a == 0 && x == 0 && y == 0xE && d == 0 {
            instructions::cls(self);
            self.program_counter = self.program_counter.wrapping_add(2);
            proof {
                assert(step_to(old(self)@, opcode, 0u8, self@, Ok::<(), ExecError>(())));
            }
            return Ok(());
        }
        if a == 0 && x == 0 && y == 0xE && d == 0xE {
            if self.stack.len() == 0 {
                proof {
                    assert(step_to(
                        old(self)@,
                        opcode,
                        0u8,
                        self@,
                        Err::<(), ExecError>(ExecError::StackUnderflow),
                    ));
                }
                return Err(ExecError::StackUnderflow);
            }
            instructions::ret(self);
            proof {
                assert(step_to(old(self)@, opcode, 0u8, self@, Ok::<(), ExecError>(())));
            }
            return Ok(());
        }
        if a == 0 {
            instructions::sys();
            self.program_counter = self.program_counter.wrapping_add(2);
            proof {
                assert(step_to(old(self)@, opcode, 0u8, self@, Ok::<(), ExecError>(())));
            }
            return Ok(());
        }
        if a == 1 {
            instructions::jmp_nnn(self, opcode);
            proof {
                assert(step_to(old(self)@, opcode, 0u8, self@, Ok::<(), ExecError>(())));
            }
            return Ok(());
        }
        if a == 2 {
            instructions::call(self, opcode);
            proof {
                assert(step_to(old(self)@, opcode, 0u8, self@, Ok::<(), ExecError>(())));
            }
            return Ok(());
        }
        if a == 3 {
            instructions::se_vx_kk(self, x, opcode);
            self.program_counter = self.program_counter.wrapping_add(2);
            proof {
                assert(step_to(old(self)@, opcode, 0u8, self@, Ok::<(), ExecError>(())));
            }
            return Ok(());
        }
        if a == 4 {
            instructions::sne_vx_kk(self, x, opcode);
            self.program_counter = self.program_counter.wrapping_add(2);
            proof {
                assert(step_to(old(self)@, opcode, 0u8, self@, Ok::<(), ExecError>(())));
            }
            return Ok(());
        }
        if a == 5 {
            instructions::se_vx_vy(self, x, y);
            self.program_counter = self.program_counter.wrapping_add(2);
            proof {
                assert(step_to(old(self)@, opcode, 0u8, self@, Ok::<(), ExecError>(())));
            }
            return Ok(());
        }
        if a == 6 {
            instructions::ld_vx(self, x, opcode);
            self.program_counter = self.program_counter.wrapping_add(2);
            proof {
                assert(step_to(old(self)@, opcode, 0u8, self@, Ok::<(), ExecError>(())));
            }
            return Ok(());
        }
        if a == 7 {
            instructions::add_vx_kk(self, x, opcode);
            self.program_counter = self.program_counter.wrapping_add(2);
            proof {
                assert(step_to(old(self)@, opcode, 0u8, self@, Ok::<(), ExecError>(())));
            }
            return Ok(());
        }
        if a == 8 && d == 0 {
            instructions::ld_vx_vy(self, x, y);
            self.program_counter = self.program_counter.wrapping_add(2);
            proof {
                assert(step_to(old(self)@, opcode, 0u8, self@, Ok::<(), ExecError>(())));
            }
            return Ok(());
        }
        if a == 8 && d == 1 {
            instructions::or_vx_vy(self, x, y);
            self.program_counter = self.program_counter.wrapping_add(2);
            proof {
                assert(step_to(old(self)@, opcode, 0u8, self@, Ok::<(), ExecError>(())));
            }
            return Ok(());
        }
        if a == 8 && d == 2 {
            instructions::and_vx_vy(self, x, y);
            self.program_counter = self.program_counter.wrapping_add(2);
            proof {
                assert(step_to(old(self)@, opcode, 0u8, self@, Ok::<(), ExecError>(())));
            }
            return Ok(());
        }
        if a == 8 && d == 3 {
            instructions::xor_vx_vy(self, x, y);
            self.program_counter = self.program_counter.wrapping_add(2);
            proof {
                assert(step_to(old(self)@, opcode, 0u8, self@, Ok::<(), ExecError>(())));
            }
            return Ok(());
        }
        if a == 8 && d == 4 {
            instructions::add_vx_vy(self, x, y);
            self.program_counter = self.program_counter.wrapping_add(2);
            proof {
                assert(step_to(old(self)@, opcode, 0u8, self@, Ok::<(), ExecError>(())));
            }
            return Ok(());
        }
        if a == 8 && d == 5 {
            instructions::sub_vx_vy(self, x, y);
            self.program_counter = self.program_counter.wrapping_add(2);
            proof {
                assert(step_to(old(self)@, opcode, 0u8, self@, Ok::<(), ExecError>(())));
            }
            return Ok(());
        }
        if a == 8 && d == 6 {
            instructions::shr_vx_vy(self, x, y);
            self.program_counter = self.program_counter.wrapping_add(2);
            proof {
                assert(step_to(old(self)@, opcode, 0u8, self@, Ok::<(), ExecError>(())));
            }
            return Ok(());
        }
        if a == 8 && d == 7 {
            instructions::subn_vx_vy(self, x, y);
            self.program_counter = self.program_counter.wrapping_add(2);
            proof {
                assert(step_to(old(self)@, opcode, 0u8, self@, Ok::<(), ExecError>(())));
            }
            return Ok(());
        }
        if a == 8 && d == 0xE {
            instructions::shl_vx_vy(self, x, y);
            self.program_counter = self.program_counter.wrapping_add(2);
            proof {
                assert(step_to(old(self)@, opcode, 0u8, self@, Ok::<(), ExecError>(())));
            }
            return Ok(());
        }
        if a == 9 && d == 0 {
            instructions::sne_vx_vy(self, x, y);
            self.program_counter = self.program_counter.wrapping_add(2);
            proof {
                assert(step_to(old(self)@, opcode, 0u8, self@, Ok::<(), ExecError>(())));
            }
            return Ok(());
        }
        if a == 0xA {
            instructions::ld_i_nnn(self, opcode);
            self.program_counter = self.program_counter.wrapping_add(2);
            proof {
                assert(step_to(old(self)@, opcode, 0u8, self@, Ok::<(), ExecError>(())));
            }
            return Ok(());
        }
        if a == 0xB {
            instructions::jmp_v0_nnn(self, opcode);
            proof {
                assert(step_to(old(self)@, opcode, 0u8, self@, Ok::<(), ExecError>(())));
            }
            return Ok(());
        }
        if a == 0xC {
            instructions::rnd_vx_kk(self, x, opcode);
            let ghost mid = self@;
            self.program_counter = self.program_counter.wrapping_add(2);
            proof {
                let b = choose|b: u8|
                    mid == (CpuView {
                        registers: old(self)@.registers.update(
                            x as int,
                            #[trigger] (b & (opcode & 0xFF) as u8),
                        ),
                        ..old(self)@
                    });
                assert(step_to(old(self)@, opcode, b, self@, Ok::<(), ExecError>(())));
            }
            return Ok(());
        }
        if a == 0xD {
            let vx = self.registers[x as usize];
            let vy = self.registers[y as usize];
            let start = (vx as usize % DISP_WIDTH) + DISP_WIDTH * (vy as usize % DISP_HEIGHT);
            let all = (DISP_AREA - start + 63) / 64;
            let rows = d as usize;
            let vis = if rows <= all {
                rows
            } else {
                all
            };
            if vis > 0 && (self.i_register as usize) + vis - 1 >= MEM_SIZE {
                proof {
                    assert(step_to(
                        old(self)@,
                        opcode,
                        0u8,
                        self@,
                        Err::<(), ExecError>(ExecError::MemoryOutOfBounds),
                    ));
                }
                return Err(ExecError::MemoryOutOfBounds);
            }
            instructions::drw_vx_vy_n(self, x, y, d);
            self.program_counter = self.program_counter.wrapping_add(2);
            proof {
                assert(step_to(old(self)@, opcode, 0u8, self@, Ok::<(), ExecError>(())));
            }
            return Ok(());
        }
        if a == 0xE && y == 9 && d == 0xE {
            instructions::skp_vx(self, x);
            self.program_counter = self.program_counter.wrapping_add(2);
            proof {
                assert(step_to(old(self)@, opcode, 0u8, self@, Ok::<(), ExecError>(())));
            }
            return Ok(());
        }
        if a == 0xE && y == 0xA && d == 1 {
            instructions::sknp_vx(self, x);
            self.program_counter = self.program_counter.wrapping_add(2);
            proof {
                assert(step_to(old(self)@, opcode, 0u8, self@, Ok::<(), ExecError>(())));
            }
            return Ok(());
        }
        if a == 0xF && y == 0 && d == 7 {
            instructions::ld_vx_dt(self, x);
            self.program_counter = self.program_counter.wrapping_add(2);
            proof {
                assert(step_to(old(self)@, opcode, 0u8, self@, Ok::<(), ExecError>(())));
            }
            return Ok(());
        }
        if a == 0xF && y == 0 && d == 0xA {
            self.halted = true;
            self.store_key = x;
            self.program_counter = self.program_counter.wrapping_add(2);
            proof {
                assert(step_to(old(self)@, opcode, 0u8, self@, Ok::<(), ExecError>(())));
            }
            return Ok(());
        }
        if a == 0xF && y == 1 && d == 5 {
            instructions::ld_dt_vx(self, x);
            self.program_counter = self.program_counter.wrapping_add(2);
            proof {
                assert(step_to(old(self)@, opcode, 0u8, self@, Ok::<(), ExecError>(())));
            }
            return Ok(());
        }
        if a == 0xF && y == 1 && d == 8 {
            instructions::ld_st_vx(self, x);
            self.program_counter = self.program_counter.wrapping_add(2);
            proof {
                assert(step_to(old(self)@, opcode, 0u8, self@, Ok::<(), ExecError>(())));
            }
            return Ok(());
        }
        if a == 0xF && y == 1 && d == 0xE {
            instructions::add_i_vx(self, x);
            self.program_counter = self.program_counter.wrapping_add(2);
            proof {
                assert(step_to(old(self)@, opcode, 0u8, self@, Ok::<(), ExecError>(())));
            }
            return Ok(());
        }
        if a == 0xF && y == 2 && d == 9 {
            if self.registers[x as usize] > 0xF {
                proof {
                    assert(step_to(
                        old(self)@,
                        opcode,
                        0u8,
                        self@,
                        Err::<(), ExecError>(ExecError::InvalidFontDigit),
                    ));
                }
                return Err(ExecError::InvalidFontDigit);
            }
            instructions::ld_f_vx(self, x);
            self.program_counter = self.program_counter.wrapping_add(2);
            proof {
                assert(step_to(old(self)@, opcode, 0u8, self@, Ok::<(), ExecError>(())));
            }
            return Ok(());
        }
        if a == 0xF && y == 3 && d == 3 {
            if (self.i_register as usize) + 2 >= MEM_SIZE {
                proof {
                    assert(step_to(
                        old(self)@,
                        opcode,
                        0u8,
                        self@,
                        Err::<(), ExecError>(ExecError::MemoryOutOfBounds),
                    ));
                }
                return Err(ExecError::MemoryOutOfBounds);
            }
            instructions::ld_b_vx(self, x);
            self.program_counter = self.program_counter.wrapping_add(2);
            proof {
                assert(step_to(old(self)@, opcode, 0u8, self@, Ok::<(), ExecError>(())));
            }
            return Ok(());
        }
        if a == 0xF && y == 5 && d == 5 {
            if (self.i_register as usize) + (x as usize) >= MEM_SIZE {
                proof {
                    assert(step_to(
                        old(self)@,
                        opcode,
                        0u8,
                        self@,
                        Err::<(), ExecError>(ExecError::MemoryOutOfBounds),
                    ));
                }
                return Err(ExecError::MemoryOutOfBounds);
            }
            instructions::ld_i_vx(self, x);
            self.program_counter = self.program_counter.wrapping_add(2);
            proof {
                assert(step_to(old(self)@, opcode, 0u8, self@, Ok::<(), ExecError>(())));
            }
            return Ok(());
        }
        if a == 0xF && y == 6 && d == 5 {
            if (self.i_register as usize) + (x as usize) >= MEM_SIZE {
                proof {
                    assert(step_to(
                        old(self)@,
                        opcode,
                        0u8,
                        self@,
                        Err::<(), ExecError>(ExecError::MemoryOutOfBounds),
                    ));
                }
                return Err(ExecError::MemoryOutOfBounds);
            }
            instructions::ld_vx_i(self, x);
            self.program_counter = self.program_counter.wrapping_add(2);
            proof {
                assert(step_to(old(self)@, opcode, 0u8, self@, Ok::<(), ExecError>(())));
            }
            return Ok(());
        }
        proof {
            assert(step_to(
                old(self)@,
                opcode,
                0u8,
                self@,
                Err::<(), ExecError>(ExecError::UnimplementedOpcode(opcode)),
            ));
        }
        Err(ExecError::UnimplementedOpcode(opcode))
    }
}

} // verus!
