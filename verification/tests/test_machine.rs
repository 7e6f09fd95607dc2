use rchip8::cpu::translate_key;
use rchip8::cpu::Cpu;
use rchip8::ExecError;
use rchip8::LoadError;

/// Load an immediate, then add an immediate: two fetch/execute
/// cycles leave the sum in V0 and the program counter two
/// instructions on.
#[test]
fn test_program_load_then_add() {
    let mut cpu = Cpu::new();
    let prog = [0x60u8, 0x05, 0x70, 0x0A];
    cpu.load_from_bytes(&prog).unwrap();
    for _ in 0..2 {
        let op = cpu.fetch_instruction();
        cpu.execute_instruction(op).unwrap();
    }
    assert_eq!(cpu.registers[0], 0x0F);
    assert_eq!(cpu.program_counter, 0x204);
}

/// A program that calls a subroutine which returns at once: after
/// two cycles the program counter is back on the instruction just
/// after the two-byte call at 0x200, that is 0x202.
#[test]
fn test_program_call_then_return() {
    let mut cpu = Cpu::new();
    let prog = [0x22u8, 0x06, 0x00, 0x00, 0x00, 0x00, 0x00, 0xEE];
    cpu.load_from_bytes(&prog).unwrap();
    for _ in 0..2 {
        let op = cpu.fetch_instruction();
        cpu.execute_instruction(op).unwrap();
    }
    assert_eq!(cpu.program_counter, 0x202);
    assert_eq!(cpu.stack.len(), 0);
}

#[test]
fn test_load_rejects_oversized_rom() {
    let mut cpu = Cpu::new();
    let too_big = vec![0u8; 0xFFF - 0x200 + 1];
    assert_eq!(cpu.load_from_bytes(&too_big), Err(LoadError::RomTooLarge));
    // the machine is untouched by a rejected load
    assert_eq!(cpu.memory[0x200], 0);
    let just_fits = vec![0xAAu8; 0xFFF - 0x200];
    assert_eq!(cpu.load_from_bytes(&just_fits), Ok(0xFFF - 0x200));
    assert_eq!(cpu.memory[0x200], 0xAA);
    assert_eq!(cpu.memory[0xFFE], 0xAA);
}

#[test]
fn test_load_reports_byte_count() {
    let mut cpu = Cpu::new();
    assert_eq!(cpu.load_from_bytes(&[1, 2, 3]), Ok(3));
    assert_eq!(cpu.memory[0x200], 1);
    assert_eq!(cpu.memory[0x201], 2);
    assert_eq!(cpu.memory[0x202], 3);
}

#[test]
fn test_fetch_is_big_endian() {
    let mut cpu = Cpu::new();
    cpu.load_from_bytes(&[0xAB, 0xCD]).unwrap();
    assert_eq!(cpu.fetch_instruction(), 0xABCD);
}

#[test]
fn test_new_machine_state() {
    let cpu = Cpu::new();
    assert_eq!(cpu.program_counter, 0x200);
    assert_eq!(cpu.i_register, 0);
    assert_eq!(cpu.delay_timer, 0);
    assert_eq!(cpu.sound_timer, 0);
    assert_eq!(cpu.stack.len(), 0);
    assert_eq!(cpu.registers, vec![0u8; 16]);
    // the font occupies the first 80 bytes, the rest is zero
    assert_eq!(cpu.memory.len(), 0xFFF);
    assert_eq!(cpu.memory[0], 0xF0);
    assert_eq!(cpu.memory[79], 0x80);
    assert!(cpu.memory[80..].iter().all(|&b| b == 0));
    assert_eq!(cpu.display.len(), 64 * 32);
    assert!(cpu.display.iter().all(|&b| b == 0));
    assert!(cpu.phosphor_glow.iter().all(|&b| b == 0));
}

#[test]
fn test_font_set_glyphs() {
    let font = rchip8::cpu::font_set();
    assert_eq!(font.len(), 80);
    // glyph 1 starts at offset 5
    assert_eq!(&font[5..10], &[0x20, 0x60, 0x20, 0x20, 0x70]);
    // glyph F starts at offset 75
    assert_eq!(&font[75..80], &[0xF0, 0x80, 0xF0, 0x80, 0x80]);
}

/// Drawing the same sprite at the same spot twice: the first draw
/// reports no collision, the second reports one and restores the
/// blank display.
#[test]
fn test_draw_twice_restores_display() {
    let mut cpu = Cpu::new();
    // I = 0: glyph 0 of the font, 5 rows
    cpu.execute_instruction(0xA000).unwrap();
    let before = cpu.display.clone();
    cpu.execute_instruction(0xD015).unwrap();
    assert_eq!(cpu.registers[15], 0);
    // 0xF0 row: four leading pixels set
    assert_eq!(&cpu.display[0..5], &[1, 1, 1, 1, 0]);
    cpu.execute_instruction(0xD015).unwrap();
    assert_eq!(cpu.registers[15], 1);
    assert_eq!(cpu.display, before);
    // the colliding pixels got a decay mark for the glow effect
    assert_eq!(cpu.phosphor_glow[0], 2);
}

#[test]
fn test_draw_wraps_coordinates() {
    let mut cpu = Cpu::new();
    cpu.registers[0] = 68;  // x wraps to 4
    cpu.registers[1] = 33;  // y wraps to 1
    cpu.execute_instruction(0xA000).unwrap();
    cpu.execute_instruction(0xD011).unwrap();
    // row 1 of the display, columns 4..8 get 0xF0's set bits
    assert_eq!(cpu.display[64 + 4], 1);
    assert_eq!(cpu.display[64 + 7], 1);
    assert_eq!(cpu.display[64 + 8], 0);
}

#[test]
fn test_draw_clips_bottom_rows() {
    let mut cpu = Cpu::new();
    cpu.registers[1] = 31;  // bottom row: rows past it are skipped
    cpu.execute_instruction(0xA000).unwrap();
    cpu.execute_instruction(0xD015).unwrap();
    assert_eq!(cpu.display[31 * 64], 1);
    assert_eq!(cpu.registers[15], 0);
}

#[test]
fn test_draw_sprite_past_memory_end_fails() {
    let mut cpu = Cpu::new();
    cpu.execute_instruction(0xAFFF).unwrap();  // I = 0xFFF, one past the last byte
    let pc = cpu.program_counter;
    assert_eq!(cpu.execute_instruction(0xD011), Err(ExecError::MemoryOutOfBounds));
    assert_eq!(cpu.program_counter, pc);
}

/// The blocking key wait: execution freezes after the wait opcode
/// until a key-down event, which lands in the chosen register.
#[test]
fn test_wait_key_blocks_until_key_down() {
    let mut cpu = Cpu::new();
    cpu.execute_instruction(0xF30A).unwrap();  // LD V3, K
    assert_eq!(cpu.program_counter, 0x202);
    // while waiting, execution is a no-op
    cpu.execute_instruction(0x6105).unwrap();
    cpu.execute_instruction(0x1234).unwrap();
    assert_eq!(cpu.program_counter, 0x202);
    assert_eq!(cpu.registers[1], 0);
    // a key-up event does not resume
    cpu.key_up(7);
    cpu.execute_instruction(0x6105).unwrap();
    assert_eq!(cpu.registers[1], 0);
    // a key-down event stores the key and resumes
    cpu.key_down(7);
    assert_eq!(cpu.registers[3], 7);
    cpu.execute_instruction(0x6105).unwrap();
    assert_eq!(cpu.registers[1], 5);
    assert_eq!(cpu.program_counter, 0x204);
}

#[test]
fn test_key_skips() {
    let mut cpu = Cpu::new();
    cpu.registers[0] = 4;
    cpu.key_down(4);
    cpu.execute_instruction(0xE09E).unwrap();  // SKP V0: key 4 is down
    assert_eq!(cpu.program_counter, 0x204);
    cpu.execute_instruction(0xE0A1).unwrap();  // SKNP V0: key 4 is down
    assert_eq!(cpu.program_counter, 0x206);
    cpu.key_up(4);
    cpu.execute_instruction(0xE09E).unwrap();  // SKP V0: key 4 is up
    assert_eq!(cpu.program_counter, 0x208);
    cpu.execute_instruction(0xE0A1).unwrap();  // SKNP V0: key 4 is up
    assert_eq!(cpu.program_counter, 0x20c);
}

#[test]
fn test_skip_on_out_of_range_key_name() {
    let mut cpu = Cpu::new();
    cpu.registers[0] = 200;
    // a key name past the keypad is neither down nor up
    cpu.execute_instruction(0xE09E).unwrap();
    assert_eq!(cpu.program_counter, 0x202);
    cpu.execute_instruction(0xE0A1).unwrap();
    assert_eq!(cpu.program_counter, 0x204);
}

#[test]
fn test_timers_saturate_at_zero() {
    let mut cpu = Cpu::new();
    cpu.delay_timer = 2;
    cpu.sound_timer = 1;
    cpu.decrement_timers();
    assert_eq!(cpu.delay_timer, 1);
    assert_eq!(cpu.sound_timer, 0);
    cpu.decrement_timers();
    assert_eq!(cpu.delay_timer, 0);
    assert_eq!(cpu.sound_timer, 0);
    cpu.decrement_timers();
    assert_eq!(cpu.delay_timer, 0);
}

#[test]
fn test_font_glyph_lookup() {
    let mut cpu = Cpu::new();
    cpu.registers[0] = 0xA;
    cpu.execute_instruction(0xF029).unwrap();
    assert_eq!(cpu.i_register, 50);
    cpu.registers[0] = 0x10;
    let pc = cpu.program_counter;
    assert_eq!(cpu.execute_instruction(0xF029), Err(ExecError::InvalidFontDigit));
    assert_eq!(cpu.program_counter, pc);
}

#[test]
fn test_bcd() {
    let mut cpu = Cpu::new();
    cpu.registers[0] = 254;
    cpu.execute_instruction(0xA300).unwrap();
    cpu.execute_instruction(0xF033).unwrap();
    assert_eq!(cpu.memory[0x300], 2);
    assert_eq!(cpu.memory[0x301], 5);
    assert_eq!(cpu.memory[0x302], 4);
}

#[test]
fn test_bcd_past_memory_end_fails() {
    let mut cpu = Cpu::new();
    cpu.execute_instruction(0xAFFD).unwrap();  // I + 2 == 0xFFF, one past the end
    assert_eq!(cpu.execute_instruction(0xF033), Err(ExecError::MemoryOutOfBounds));
}

#[test]
fn test_bulk_store_and_load() {
    let mut cpu = Cpu::new();
    cpu.registers[0] = 1;
    cpu.registers[1] = 2;
    cpu.registers[2] = 3;
    cpu.execute_instruction(0xA300).unwrap();
    cpu.execute_instruction(0xF255).unwrap();  // store V0..V2
    assert_eq!(&cpu.memory[0x300..0x303], &[1, 2, 3]);
    assert_eq!(cpu.memory[0x303], 0);
    cpu.registers[0] = 0;
    cpu.registers[1] = 0;
    cpu.registers[2] = 0;
    cpu.registers[3] = 9;
    cpu.execute_instruction(0xF265).unwrap();  // load V0..V2 back
    assert_eq!(&cpu.registers[0..3], &[1, 2, 3]);
    assert_eq!(cpu.registers[3], 9);
}

#[test]
fn test_bulk_transfer_past_memory_end_fails() {
    let mut cpu = Cpu::new();
    cpu.execute_instruction(0xAFFE).unwrap();  // I = 0xFFE, I + 2 is out of range
    assert_eq!(cpu.execute_instruction(0xF255), Err(ExecError::MemoryOutOfBounds));
    assert_eq!(cpu.execute_instruction(0xF265), Err(ExecError::MemoryOutOfBounds));
}

#[test]
fn test_add_i_vx() {
    let mut cpu = Cpu::new();
    cpu.registers[0] = 5;
    cpu.execute_instruction(0xA100).unwrap();
    cpu.execute_instruction(0xF01E).unwrap();
    assert_eq!(cpu.i_register, 0x105);
}

#[test]
fn test_unimplemented_opcode() {
    let mut cpu = Cpu::new();
    assert_eq!(
        cpu.execute_instruction(0x8008),
        Err(ExecError::UnimplementedOpcode(0x8008))
    );
    assert_eq!(cpu.program_counter, 0x200);
    assert_eq!(
        cpu.execute_instruction(0xE000),
        Err(ExecError::UnimplementedOpcode(0xE000))
    );
}

#[test]
fn test_ret_underflow_is_an_error() {
    let mut cpu = Cpu::new();
    assert_eq!(cpu.execute_instruction(0x00EE), Err(ExecError::StackUnderflow));
    assert_eq!(cpu.program_counter, 0x200);
}

#[test]
fn test_cls_clears_display_and_glow() {
    let mut cpu = Cpu::new();
    cpu.execute_instruction(0xA000).unwrap();
    cpu.execute_instruction(0xD015).unwrap();
    cpu.execute_instruction(0xD015).unwrap();  // collide to mark glow
    assert!(cpu.display.iter().all(|&b| b == 0));
    assert_eq!(cpu.phosphor_glow[0], 2);
    cpu.registers[0] = 0;
    cpu.execute_instruction(0xD015).unwrap();  // light pixels again
    cpu.execute_instruction(0x00E0).unwrap();
    assert!(cpu.display.iter().all(|&b| b == 0));
    assert!(cpu.phosphor_glow.iter().all(|&b| b == 0));
    assert_eq!(cpu.program_counter, 0x20a);
}

#[test]
fn test_sys_is_a_no_op() {
    let mut cpu = Cpu::new();
    cpu.execute_instruction(0x0123).unwrap();
    assert_eq!(cpu.program_counter, 0x202);
    assert_eq!(cpu.registers, vec![0u8; 16]);
}

#[test]
fn test_rnd_respects_mask() {
    let mut cpu = Cpu::new();
    cpu.execute_instruction(0xC03C).unwrap();
    assert_eq!(cpu.registers[0] & !0x3C, 0);
}

#[test]
fn test_translate_key_table() {
    assert_eq!(translate_key(49), 1);
    assert_eq!(translate_key(52), 0xC);
    assert_eq!(translate_key(88), 0x0);
    assert_eq!(translate_key(86), 0xF);
    // unknown host codes map to key 0
    assert_eq!(translate_key(1000), 0);
}

#[test]
fn test_get_display_view() {
    let mut cpu = Cpu::new();
    cpu.execute_instruction(0xA000).unwrap();
    cpu.execute_instruction(0xD011).unwrap();
    let d = cpu.get_display();
    assert_eq!(d.len(), 64 * 32);
    assert_eq!(d[0], 1);
}

#[test]
fn test_keys_update_while_halted() {
    let mut cpu = Cpu::new();
    cpu.execute_instruction(0xF00A).unwrap();
    cpu.key_down(9);  // resumes and stores 9 in V0
    assert_eq!(cpu.registers[0], 9);
    // the key vector was updated as well: SKP on key 9 skips
    cpu.registers[1] = 9;
    cpu.execute_instruction(0xE19E).unwrap();
    assert_eq!(cpu.program_counter, 0x206);
}
