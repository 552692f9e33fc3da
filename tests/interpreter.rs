use chip8::{decode, Chip8, Chip8Error, Instruction};

fn machine(program: &[u8]) -> Chip8 {
    let mut c = Chip8::new();
    c.load_rom(&program.to_vec());
    c
}

fn run(c: &mut Chip8, steps: usize) {
    for _ in 0..steps {
        assert_eq!(c.step(0), Ok(()));
    }
}

#[test]
fn fresh_interpreter_state() {
    let c = Chip8::new();
    assert_eq!(c.pc(), 0x200);
    assert_eq!(c.index_register(), 0);
    assert_eq!(c.delay_timer(), 0);
    assert_eq!(c.sound_timer(), 0);
    assert_eq!(c.stack_depth(), 0);
    for r in 0..16u8 {
        assert_eq!(c.register(r), 0);
    }
    assert_eq!(c.memory(0), 0xF0);
    assert_eq!(c.memory(5), 0x20);
    assert_eq!(c.memory(79), 0x80);
    assert_eq!(c.memory(80), 0);
    assert!(c.display.wrap);
    assert_eq!(c.get_display(), [[0u8; 64]; 32]);
}

#[test]
fn load_rom_copies_program() {
    let c = machine(&[0x12, 0x34, 0x56]);
    assert_eq!(c.memory(0x200), 0x12);
    assert_eq!(c.memory(0x201), 0x34);
    assert_eq!(c.memory(0x202), 0x56);
    assert_eq!(c.memory(0x203), 0);
}

#[test]
fn add_with_and_without_carry() {
    let mut c = machine(&[0x60, 200, 0x61, 100, 0x80, 0x14]);
    run(&mut c, 3);
    assert_eq!(c.register(0), 44);
    assert_eq!(c.register(0xF), 1);
    let mut c = machine(&[0x60, 100, 0x61, 155, 0x80, 0x14]);
    run(&mut c, 3);
    assert_eq!(c.register(0), 255);
    assert_eq!(c.register(0xF), 0);
}

#[test]
fn sub_with_and_without_borrow() {
    let mut c = machine(&[0x60, 5, 0x61, 3, 0x80, 0x15]);
    run(&mut c, 3);
    assert_eq!(c.register(0), 2);
    assert_eq!(c.register(0xF), 1);
    let mut c = machine(&[0x60, 3, 0x61, 5, 0x80, 0x15]);
    run(&mut c, 3);
    assert_eq!(c.register(0), 254);
    assert_eq!(c.register(0xF), 0);
    let mut c = machine(&[0x60, 7, 0x61, 7, 0x80, 0x15]);
    run(&mut c, 3);
    assert_eq!(c.register(0), 0);
    assert_eq!(c.register(0xF), 1);
}

#[test]
fn reverse_sub() {
    let mut c = machine(&[0x60, 5, 0x61, 3, 0x80, 0x17]);
    run(&mut c, 3);
    assert_eq!(c.register(0), 254);
    assert_eq!(c.register(0xF), 0);
    let mut c = machine(&[0x60, 3, 0x61, 5, 0x80, 0x17]);
    run(&mut c, 3);
    assert_eq!(c.register(0), 2);
    assert_eq!(c.register(0xF), 1);
}

#[test]
fn shifts_keep_the_bit_shifted_out() {
    let mut c = machine(&[0x60, 0x81, 0x80, 0x06]);
    run(&mut c, 2);
    assert_eq!(c.register(0), 0x40);
    assert_eq!(c.register(0xF), 1);
    let mut c = machine(&[0x60, 0x81, 0x80, 0x0E]);
    run(&mut c, 2);
    assert_eq!(c.register(0), 0x02);
    assert_eq!(c.register(0xF), 1);
    let mut c = machine(&[0x60, 0x7E, 0x80, 0x0E]);
    run(&mut c, 2);
    assert_eq!(c.register(0), 0xFC);
    assert_eq!(c.register(0xF), 0);
    let mut c = machine(&[0x60, 0x02, 0x80, 0x06]);
    run(&mut c, 2);
    assert_eq!(c.register(0), 0x01);
    assert_eq!(c.register(0xF), 0);
}

#[test]
fn logic_and_moves() {
    let mut c = machine(&[0x60, 0x0C, 0x61, 0x0A, 0x82, 0x00, 0x82, 0x11, 0x83, 0x00, 0x83, 0x12, 0x84, 0x00, 0x84, 0x13]);
    run(&mut c, 8);
    assert_eq!(c.register(2), 0x0E);
    assert_eq!(c.register(3), 0x08);
    assert_eq!(c.register(4), 0x06);
}

#[test]
fn add_immediate_wraps() {
    let mut c = machine(&[0x60, 250, 0x70, 10]);
    run(&mut c, 2);
    assert_eq!(c.register(0), 4);
    assert_eq!(c.register(0xF), 0);
}

#[test]
fn skips_advance_by_four_or_two() {
    // 3xkk taken and not taken
    let mut c = machine(&[0x60, 7, 0x30, 7]);
    run(&mut c, 2);
    assert_eq!(c.pc(), 0x206);
    let mut c = machine(&[0x60, 7, 0x30, 8]);
    run(&mut c, 2);
    assert_eq!(c.pc(), 0x204);
    // 4xkk
    let mut c = machine(&[0x60, 7, 0x40, 8]);
    run(&mut c, 2);
    assert_eq!(c.pc(), 0x206);
    let mut c = machine(&[0x60, 7, 0x40, 7]);
    run(&mut c, 2);
    assert_eq!(c.pc(), 0x204);
    // 5xy0
    let mut c = machine(&[0x60, 7, 0x61, 7, 0x50, 0x10]);
    run(&mut c, 3);
    assert_eq!(c.pc(), 0x208);
    let mut c = machine(&[0x60, 7, 0x61, 8, 0x50, 0x10]);
    run(&mut c, 3);
    assert_eq!(c.pc(), 0x206);
    // 9xy0
    let mut c = machine(&[0x60, 7, 0x61, 8, 0x90, 0x10]);
    run(&mut c, 3);
    assert_eq!(c.pc(), 0x208);
    let mut c = machine(&[0x60, 7, 0x61, 7, 0x90, 0x10]);
    run(&mut c, 3);
    assert_eq!(c.pc(), 0x206);
}

#[test]
fn bcd_of_157() {
    let mut c = machine(&[0x60, 157, 0xA3, 0x00, 0xF0, 0x33]);
    run(&mut c, 3);
    assert_eq!(c.memory(0x300), 1);
    assert_eq!(c.memory(0x301), 5);
    assert_eq!(c.memory(0x302), 7);
}

#[test]
fn bcd_of_small_values() {
    let mut c = machine(&[0x60, 9, 0xA3, 0x00, 0xF0, 0x33]);
    run(&mut c, 3);
    assert_eq!(c.memory(0x300), 0);
    assert_eq!(c.memory(0x301), 0);
    assert_eq!(c.memory(0x302), 9);
}

#[test]
fn clear_screen_blanks_display() {
    // I := glyph of 0, draw it, then clear
    let mut c = machine(&[0x60, 0, 0xF0, 0x29, 0xD0, 0x05, 0x00, 0xE0]);
    run(&mut c, 3);
    assert_ne!(c.get_display(), [[0u8; 64]; 32]);
    run(&mut c, 1);
    assert_eq!(c.get_display(), [[0u8; 64]; 32]);
}

#[test]
fn draw_glyph_and_collision_flag() {
    let mut c = machine(&[0x60, 0, 0xF0, 0x29, 0xD1, 0x15, 0xD1, 0x15]);
    run(&mut c, 3);
    let d = c.get_display();
    // glyph 0: F0 90 90 90 F0
    assert_eq!(d[0][0..8], [1, 1, 1, 1, 0, 0, 0, 0]);
    assert_eq!(d[1][0..8], [1, 0, 0, 1, 0, 0, 0, 0]);
    assert_eq!(d[4][0..8], [1, 1, 1, 1, 0, 0, 0, 0]);
    assert_eq!(c.register(0xF), 0);
    run(&mut c, 1);
    assert_eq!(c.get_display(), [[0u8; 64]; 32]);
    assert_eq!(c.register(0xF), 1);
}

#[test]
fn draw_sprite_direct() {
    let mut c = machine(&[0xA2, 0x02, 0xFF, 0x81]);
    run(&mut c, 1);
    assert!(!c.draw_sprite(62, 31, 2));
    let d = c.get_display();
    // wrap mode on: row 31 then row 0
    assert_eq!(d[31][62], 1);
    assert_eq!(d[31][63], 1);
    assert_eq!(d[31][0..6], [1, 1, 1, 1, 1, 1]);
    assert_eq!(d[0][62], 1);
    assert_eq!(d[0][63], 0);
    assert_eq!(d[0][5], 1);
    assert!(c.draw_sprite(62, 31, 1));
}

#[test]
fn reset_then_reload_matches_fresh() {
    let program = [0x60, 0, 0xF0, 0x29, 0xD0, 0x05, 0x61, 9, 0xF1, 0x15, 0x22, 0x00];
    let mut c = machine(&program);
    run(&mut c, 6);
    assert_ne!(c.get_display(), [[0u8; 64]; 32]);
    c.reset();
    c.load_rom(&program.to_vec());
    let f = machine(&program);
    assert_eq!(c.get_display(), f.get_display());
    assert_eq!(c.pc(), f.pc());
    assert_eq!(c.stack_depth(), 0);
    assert_eq!(c.delay_timer(), 0);
    assert_eq!(c.index_register(), 0);
    for r in 0..16u8 {
        assert_eq!(c.register(r), f.register(r));
    }
    for a in 0..4096usize {
        assert_eq!(c.memory(a), f.memory(a));
    }
}

#[test]
fn wait_key_spins_until_pressed() {
    let mut c = machine(&[0xF3, 0x0A]);
    for _ in 0..5 {
        assert_eq!(c.step(0), Ok(()));
        assert_eq!(c.pc(), 0x200);
    }
    c.keyboard.set_just_pressed(Some(7));
    assert_eq!(c.step(0), Ok(()));
    assert_eq!(c.pc(), 0x202);
    assert_eq!(c.register(3), 7);
}

#[test]
fn key_skips() {
    let mut keys = [false; 16];
    keys[5] = true;
    let mut c = machine(&[0x60, 5, 0xE0, 0x9E]);
    c.keyboard.set_keys(keys);
    run(&mut c, 2);
    assert_eq!(c.pc(), 0x206);
    let mut c = machine(&[0x60, 5, 0xE0, 0xA1]);
    c.keyboard.set_keys(keys);
    run(&mut c, 2);
    assert_eq!(c.pc(), 0x204);
    let mut c = machine(&[0x60, 4, 0xE0, 0xA1]);
    c.keyboard.set_keys(keys);
    run(&mut c, 2);
    assert_eq!(c.pc(), 0x206);
}

#[test]
fn call_and_return() {
    let mut c = machine(&[0x22, 0x04, 0x00, 0x00, 0x00, 0xEE]);
    run(&mut c, 1);
    assert_eq!(c.pc(), 0x204);
    assert_eq!(c.stack_depth(), 1);
    run(&mut c, 1);
    assert_eq!(c.pc(), 0x202);
    assert_eq!(c.stack_depth(), 0);
}

#[test]
fn jumps() {
    let mut c = machine(&[0x13, 0x45]);
    run(&mut c, 1);
    assert_eq!(c.pc(), 0x345);
    let mut c = machine(&[0x60, 0x10, 0xB3, 0x00]);
    run(&mut c, 2);
    assert_eq!(c.pc(), 0x310);
    let mut c = machine(&[0x60, 0xFF, 0xBF, 0xFF]);
    run(&mut c, 2);
    assert_eq!(c.pc(), 0x10FE);
}

#[test]
fn index_register_ops() {
    let mut c = machine(&[0xA1, 0x23, 0x60, 0x10, 0xF0, 0x1E]);
    run(&mut c, 3);
    assert_eq!(c.index_register(), 0x133);
    let mut c = machine(&[0x60, 0x0A, 0xF0, 0x29]);
    run(&mut c, 2);
    assert_eq!(c.index_register(), 50);
}

#[test]
fn timers_set_and_tick() {
    let mut c = machine(&[0x60, 2, 0xF0, 0x15, 0x61, 1, 0xF1, 0x18, 0xF2, 0x07]);
    run(&mut c, 4);
    assert_eq!(c.delay_timer(), 2);
    assert_eq!(c.sound_timer(), 1);
    // executing does not tick the timers
    run(&mut c, 1);
    assert_eq!(c.register(2), 2);
    assert_eq!(c.delay_timer(), 2);
    c.update_timers();
    assert_eq!(c.delay_timer(), 1);
    assert_eq!(c.sound_timer(), 0);
    c.update_timers();
    c.update_timers();
    assert_eq!(c.delay_timer(), 0);
    assert_eq!(c.sound_timer(), 0);
}

#[test]
fn store_and_load_registers() {
    let mut c = machine(&[0x60, 1, 0x61, 2, 0x62, 3, 0xA3, 0x00, 0xF1, 0x55, 0xA3, 0x01, 0xF1, 0x65]);
    run(&mut c, 5);
    assert_eq!(c.memory(0x300), 1);
    assert_eq!(c.memory(0x301), 2);
    assert_eq!(c.memory(0x302), 0);
    run(&mut c, 2);
    assert_eq!(c.register(0), 2);
    assert_eq!(c.register(1), 0);
    assert_eq!(c.register(2), 3);
}

#[test]
fn random_is_masked() {
    let mut c = machine(&[0xC0, 0x0F]);
    assert_eq!(c.step(0xAB), Ok(()));
    assert_eq!(c.register(0), 0x0B);
    let mut c = machine(&[0xC0, 0x00]);
    assert_eq!(c.run_instruction(), Ok(()));
    assert_eq!(c.register(0), 0);
    assert_eq!(c.pc(), 0x202);
}

#[test]
fn unrecognized_instruction_fails() {
    let mut c = machine(&[0x01, 0x23]);
    assert_eq!(c.step(0), Err(Chip8Error::UnrecognizedInstruction(0x0123)));
    assert_eq!(c.pc(), 0x200);
    let mut c = machine(&[0x80, 0x18]);
    assert_eq!(c.step(0), Err(Chip8Error::UnrecognizedInstruction(0x8018)));
    let mut c = machine(&[0xE0, 0x00]);
    assert_eq!(c.step(0), Err(Chip8Error::UnrecognizedInstruction(0xE000)));
    let mut c = machine(&[0xF0, 0xFF]);
    assert_eq!(c.run_instruction(), Err(Chip8Error::UnrecognizedInstruction(0xF0FF)));
}

#[test]
fn return_on_empty_stack_fails() {
    let mut c = machine(&[0x00, 0xEE]);
    assert_eq!(c.step(0), Err(Chip8Error::StackUnderflow));
    assert_eq!(c.pc(), 0x200);
}

#[test]
fn out_of_range_accesses_fail() {
    let mut c = machine(&[0x1F, 0xFF]);
    run(&mut c, 1);
    assert_eq!(c.step(0), Err(Chip8Error::AddressOutOfRange(0xFFF)));
    let mut c = machine(&[0xAF, 0xFE, 0xF0, 0x33]);
    run(&mut c, 1);
    assert_eq!(c.step(0), Err(Chip8Error::AddressOutOfRange(0xFFE)));
    assert_eq!(c.pc(), 0x202);
    let mut c = machine(&[0xAF, 0xFF, 0xD0, 0x02]);
    run(&mut c, 1);
    assert_eq!(c.step(0), Err(Chip8Error::AddressOutOfRange(0xFFF)));
    let mut c = machine(&[0xAF, 0xFF, 0xF1, 0x55]);
    run(&mut c, 1);
    assert_eq!(c.step(0), Err(Chip8Error::AddressOutOfRange(0xFFF)));
    let mut c = machine(&[0xAF, 0xFF, 0xF1, 0x65]);
    run(&mut c, 1);
    assert_eq!(c.step(0), Err(Chip8Error::AddressOutOfRange(0xFFF)));
}

#[test]
fn key_register_out_of_range_fails() {
    let mut c = machine(&[0x60, 16, 0xE0, 0x9E]);
    run(&mut c, 1);
    assert_eq!(c.step(0), Err(Chip8Error::KeyOutOfRange(16)));
}

#[test]
fn decode_fields() {
    assert_eq!(decode(0x00E0), Some(Instruction::ClearScreen));
    assert_eq!(decode(0x00EE), Some(Instruction::Return));
    assert_eq!(decode(0xD12F), Some(Instruction::Draw { x: 1, y: 2, n: 0xF }));
    assert_eq!(decode(0x3A7B), Some(Instruction::SkipEqImm { x: 0xA, nn: 0x7B }));
    assert_eq!(decode(0xBABC), Some(Instruction::JumpOffset { nnn: 0xABC }));
    assert_eq!(decode(0x8CDE), Some(Instruction::ShiftLeft { x: 0xC, y: 0xD }));
    assert_eq!(decode(0xF565), Some(Instruction::LoadRegs { x: 5 }));
    assert_eq!(decode(0x0000), None);
    assert_eq!(decode(0x800F), None);
}
