use chip8::{
    Chip8, Chip8Error, Chip8Implementation, Fault, FONT_ADDRESS, HEIGHT, MAX_ROM_SIZE, ROM_ADDRESS,
    STACK_DEPTH, WIDTH,
};

fn machine(rom: &[u8], implementation: Chip8Implementation) -> Chip8 {
    Chip8::new(rom, implementation).unwrap()
}

fn modern(rom: &[u8]) -> Chip8 {
    machine(rom, Chip8Implementation::Modern)
}

fn run(c: &mut Chip8, steps: usize) {
    for _ in 0..steps {
        c.step_with(0).unwrap();
    }
}

fn lit_count(c: &Chip8) -> usize {
    c.framebuffer().iter().map(|row| row.iter().filter(|p| **p).count()).sum()
}

const GLYPH_ZERO: [u8; 5] = [0xF0, 0x90, 0x90, 0x90, 0xF0];

#[test]
fn new_loads_font_and_rom() {
    let c = modern(&[0xAB, 0xCD]);
    assert_eq!(c.pc(), 0x200);
    assert_eq!(c.index(), 0);
    for (k, b) in GLYPH_ZERO.iter().enumerate() {
        assert_eq!(c.memory_at(FONT_ADDRESS + k), *b);
    }
    assert_eq!(c.memory_at(FONT_ADDRESS + 79), 0x80);
    assert_eq!(c.memory_at(ROM_ADDRESS), 0xAB);
    assert_eq!(c.memory_at(ROM_ADDRESS + 1), 0xCD);
    assert_eq!(c.memory_at(ROM_ADDRESS + 2), 0);
    assert_eq!(c.memory_at(0), 0);
    assert_eq!(lit_count(&c), 0);
    assert_eq!(c.stack_depth(), 0);
    assert_eq!(c.delay_timer(), 0);
    assert_eq!(c.sound_timer(), 0);
    assert_eq!(c.fault(), None);
    assert_eq!(c.implementation(), Chip8Implementation::Modern);
}

#[test]
fn new_accepts_largest_rom() {
    let rom = vec![0x11u8; MAX_ROM_SIZE];
    let c = modern(&rom);
    assert_eq!(c.memory_at(0xFFF), 0x11);
}

#[test]
fn new_rejects_oversized_rom() {
    let rom = vec![0u8; MAX_ROM_SIZE + 1];
    assert_eq!(
        Chip8::new(&rom, Chip8Implementation::CosmacVip).err(),
        Some(Chip8Error::RomTooLarge(MAX_ROM_SIZE + 1))
    );
}

#[test]
fn plain_instruction_advances_pc_by_two() {
    let mut c = modern(&[0x60, 0x12, 0x70, 0x01, 0xA3, 0x00, 0x81, 0x04]);
    for k in 1..=4u16 {
        assert_eq!(c.step_with(0), Ok(false));
        assert_eq!(c.pc(), 0x200 + 2 * k);
    }
}

#[test]
fn add_with_carry_out() {
    // V0 = 0xFF, V1 = 0x01, 8014
    let mut c = modern(&[0x60, 0xFF, 0x61, 0x01, 0x80, 0x14]);
    run(&mut c, 3);
    assert_eq!(c.register(0), 0x00);
    assert_eq!(c.register(0xF), 1);
}

#[test]
fn add_without_carry_clears_flag() {
    let mut c = modern(&[0x6F, 0x07, 0x60, 0x10, 0x61, 0x20, 0x80, 0x14]);
    run(&mut c, 4);
    assert_eq!(c.register(0), 0x30);
    assert_eq!(c.register(0xF), 0);
}

#[test]
fn subtract_with_borrow() {
    // V0 = 0x00, V1 = 0x01, 8015
    let mut c = modern(&[0x60, 0x00, 0x61, 0x01, 0x80, 0x15]);
    run(&mut c, 3);
    assert_eq!(c.register(0), 0xFF);
    assert_eq!(c.register(0xF), 0);
}

#[test]
fn subtract_without_borrow_sets_flag() {
    let mut c = modern(&[0x60, 0x05, 0x61, 0x05, 0x80, 0x15]);
    run(&mut c, 3);
    assert_eq!(c.register(0), 0);
    assert_eq!(c.register(0xF), 1);
}

#[test]
fn reverse_subtract() {
    // V0 = 0x05, V1 = 0x03, 8017: V0 = 3 - 5 = 0xFE, no borrow flag
    let mut c = modern(&[0x60, 0x05, 0x61, 0x03, 0x80, 0x17]);
    run(&mut c, 3);
    assert_eq!(c.register(0), 0xFE);
    assert_eq!(c.register(0xF), 0);
    let mut c = modern(&[0x60, 0x03, 0x61, 0x05, 0x80, 0x17]);
    run(&mut c, 3);
    assert_eq!(c.register(0), 0x02);
    assert_eq!(c.register(0xF), 1);
}

#[test]
fn add_immediate_wraps_and_keeps_flag() {
    // VF = 0x55, V3 = 0xFF, 7302
    let mut c = modern(&[0x6F, 0x55, 0x63, 0xFF, 0x73, 0x02]);
    run(&mut c, 3);
    assert_eq!(c.register(3), 0x01);
    assert_eq!(c.register(0xF), 0x55);
}

#[test]
fn logic_and_copy() {
    let mut c = modern(&[
        0x60, 0xF0, 0x61, 0x3C, 0x82, 0x00, 0x82, 0x11, 0x83, 0x00, 0x83, 0x12, 0x84, 0x00, 0x84,
        0x13,
    ]);
    run(&mut c, 8);
    assert_eq!(c.register(2), 0xFC);
    assert_eq!(c.register(3), 0x30);
    assert_eq!(c.register(4), 0xCC);
}

#[test]
fn shift_quirk_cosmac_uses_vy() {
    // V2 = 0x0F, V3 = 0x20, 8236: V2 = V3 >> 1
    let rom = [0x62, 0x0F, 0x63, 0x20, 0x82, 0x36];
    let mut c = machine(&rom, Chip8Implementation::CosmacVip);
    run(&mut c, 3);
    assert_eq!(c.register(2), 0x10);
    assert_eq!(c.register(0xF), 0);
    let mut c = modern(&rom);
    run(&mut c, 3);
    assert_eq!(c.register(2), 0x07);
    assert_eq!(c.register(0xF), 1);
    assert_eq!(c.register(3), 0x20);
}

#[test]
fn shift_quirk_equal_sources() {
    // ROM `62 0F 82 36` with V3 also 0x0F under the COSMAC VIP: both readings agree.
    let mut c = machine(&[0x62, 0x0F, 0x63, 0x0F, 0x82, 0x36], Chip8Implementation::CosmacVip);
    run(&mut c, 3);
    assert_eq!(c.register(2), 0x07);
    assert_eq!(c.register(0xF), 1);
    let mut c = modern(&[0x62, 0x0F, 0x82, 0x36]);
    run(&mut c, 2);
    assert_eq!(c.register(2), 0x07);
    assert_eq!(c.register(0xF), 1);
}

#[test]
fn shift_left_flag_is_a_bit() {
    let mut c = modern(&[0x65, 0x81, 0x85, 0x0E]);
    run(&mut c, 2);
    assert_eq!(c.register(5), 0x02);
    assert_eq!(c.register(0xF), 1);
    let mut c = machine(&[0x65, 0x01, 0x66, 0xC0, 0x85, 0x6E], Chip8Implementation::CosmacVip);
    run(&mut c, 3);
    assert_eq!(c.register(5), 0x80);
    assert_eq!(c.register(0xF), 1);
}

#[test]
fn flag_wins_when_target_is_vf() {
    // VF = 0xFF, V1 = 0x01, 8F14: VF holds the carry, not the sum
    let mut c = modern(&[0x6F, 0xFF, 0x61, 0x01, 0x8F, 0x14]);
    run(&mut c, 3);
    assert_eq!(c.register(0xF), 1);
}

#[test]
fn conditional_skips() {
    // 3XNN taken, 4XNN not taken, 5XY0 taken, 9XY0 not taken
    let mut c = modern(&[0x60, 0x07, 0x30, 0x07]);
    run(&mut c, 2);
    assert_eq!(c.pc(), 0x206);
    let mut c = modern(&[0x60, 0x07, 0x40, 0x07]);
    run(&mut c, 2);
    assert_eq!(c.pc(), 0x204);
    let mut c = modern(&[0x60, 0x07, 0x61, 0x07, 0x50, 0x10]);
    run(&mut c, 3);
    assert_eq!(c.pc(), 0x208);
    let mut c = modern(&[0x60, 0x07, 0x61, 0x07, 0x90, 0x10]);
    run(&mut c, 3);
    assert_eq!(c.pc(), 0x206);
    let mut c = modern(&[0x60, 0x07, 0x61, 0x08, 0x90, 0x10]);
    run(&mut c, 3);
    assert_eq!(c.pc(), 0x208);
}

#[test]
fn clear_and_exit() {
    let mut c = modern(&[0x00, 0xE0, 0x12, 0x00]);
    assert_eq!(c.step_with(0), Ok(true));
    assert_eq!(lit_count(&c), 0);
    assert_eq!(c.pc(), 0x202);
    assert_eq!(c.step_with(0), Ok(false));
    assert_eq!(c.pc(), 0x200);
}

#[test]
fn clear_then_blank_sprite() {
    // draw glyph 0, clear, then draw 5 zero bytes from 0x300
    let mut c = modern(&[0xA0, 0x50, 0xD0, 0x05, 0x00, 0xE0, 0xA3, 0x00, 0xD0, 0x05]);
    run(&mut c, 2);
    assert!(lit_count(&c) > 0);
    run(&mut c, 1);
    assert_eq!(lit_count(&c), 0);
    run(&mut c, 2);
    assert_eq!(lit_count(&c), 0);
    assert_eq!(c.register(0xF), 0);
}

#[test]
fn draw_font_zero() {
    let mut c = modern(&[0x60, 0x00, 0x61, 0x00, 0xA0, 0x50, 0xD0, 0x15]);
    run(&mut c, 3);
    assert_eq!(c.step_with(0), Ok(true));
    let fb = c.framebuffer();
    for (y, byte) in GLYPH_ZERO.iter().enumerate() {
        for x in 0..8 {
            assert_eq!(fb[y][x], byte & (0x80 >> x) != 0, "pixel ({}, {})", x, y);
        }
    }
    assert_eq!(lit_count(&c), 14);
    assert_eq!(c.register(0xF), 0);
}

#[test]
fn collision_erases_and_flags() {
    let mut c = modern(&[0xA0, 0x50, 0xD0, 0x05, 0xD0, 0x05]);
    run(&mut c, 2);
    assert_eq!(c.register(0xF), 0);
    run(&mut c, 1);
    assert_eq!(lit_count(&c), 0);
    assert_eq!(c.register(0xF), 1);
}

#[test]
fn draw_clips_at_right_edge() {
    // V0 = 62, V1 = 0, one row 0xFF
    let mut c = modern(&[0x60, 62, 0x61, 0x00, 0xA2, 0x08, 0xD0, 0x11, 0xFF]);
    run(&mut c, 4);
    assert_eq!(lit_count(&c), 2);
    assert!(c.framebuffer()[0][62]);
    assert!(c.framebuffer()[0][63]);
    assert!(!c.framebuffer()[0][0]);
}

#[test]
fn draw_clips_at_bottom_edge() {
    // V0 = 0, V1 = 31, three rows 0x80
    let mut c = modern(&[0x60, 0x00, 0x61, 31, 0xA2, 0x08, 0xD0, 0x13, 0x80, 0x80, 0x80]);
    run(&mut c, 4);
    assert_eq!(lit_count(&c), 1);
    assert!(c.framebuffer()[HEIGHT - 1][0]);
    assert!(!c.framebuffer()[0][0]);
}

#[test]
fn draw_start_wraps_modulo_screen() {
    // V0 = 64 + 3, V1 = 32 + 2: starts at (3, 2)
    let mut c = modern(&[0x60, 67, 0x61, 34, 0xA2, 0x08, 0xD0, 0x11, 0x80]);
    run(&mut c, 4);
    assert_eq!(lit_count(&c), 1);
    assert!(c.framebuffer()[2][3]);
    assert_eq!(WIDTH, 64);
}

#[test]
fn subroutine_call_and_return() {
    let mut c = modern(&[0x22, 0x04, 0x12, 0x02, 0x00, 0xEE]);
    run(&mut c, 1);
    assert_eq!(c.pc(), 0x204);
    assert_eq!(c.stack_depth(), 1);
    run(&mut c, 1);
    assert_eq!(c.pc(), 0x202);
    assert_eq!(c.stack_depth(), 0);
    run(&mut c, 1);
    assert_eq!(c.pc(), 0x202);
    run(&mut c, 1);
    assert_eq!(c.pc(), 0x202);
}

#[test]
fn delay_timer_counts_down() {
    // V0 = 60, F015, then F007 / 1204 loop
    let mut c = modern(&[0x60, 0x3C, 0xF0, 0x15, 0xF0, 0x07, 0x12, 0x04]);
    run(&mut c, 3);
    assert_eq!(c.register(0), 60);
    for _ in 0..60 {
        c.tick_timers();
        run(&mut c, 2);
    }
    assert_eq!(c.delay_timer(), 0);
    assert_eq!(c.register(0), 0);
}

#[test]
fn timers_never_increase_and_stop_at_zero() {
    // V0 = 2, F015, F018
    let mut c = modern(&[0x60, 0x02, 0xF0, 0x15, 0xF0, 0x18]);
    run(&mut c, 3);
    assert_eq!(c.delay_timer(), 2);
    assert_eq!(c.sound_timer(), 2);
    assert!(c.sound_active());
    c.tick_timers();
    assert_eq!(c.delay_timer(), 1);
    assert_eq!(c.sound_timer(), 1);
    c.decrease_sound_timer();
    assert_eq!(c.sound_timer(), 0);
    assert!(!c.sound_active());
    c.decrease_delay_timer();
    c.tick_timers();
    assert_eq!(c.delay_timer(), 0);
    assert_eq!(c.sound_timer(), 0);
}

#[test]
fn store_and_load_round_trip_modern() {
    // V0..V3 = 1, 2, 3, 4; I = 0x300; F355; clear V0..V3; F365
    let rom = [
        0x60, 0x01, 0x61, 0x02, 0x62, 0x03, 0x63, 0x04, 0xA3, 0x00, 0xF3, 0x55, 0x60, 0x00, 0x61,
        0x00, 0x62, 0x00, 0x63, 0x00, 0xF3, 0x65,
    ];
    let mut c = modern(&rom);
    run(&mut c, 6);
    assert_eq!(c.index(), 0x300);
    for k in 0..4 {
        assert_eq!(c.memory_at(0x300 + k), k as u8 + 1);
    }
    assert_eq!(c.memory_at(0x304), 0);
    run(&mut c, 5);
    for k in 0..4 {
        assert_eq!(c.register(k), k as u8 + 1);
    }
    assert_eq!(c.index(), 0x300);
}

#[test]
fn store_and_load_advance_index_on_cosmac() {
    // V0, V1 = 7, 9; I = 0x300; F155; I = 0x300; F165 into cleared registers
    let rom = [
        0x60, 0x07, 0x61, 0x09, 0xA3, 0x00, 0xF1, 0x55, 0x60, 0x00, 0x61, 0x00, 0xA3, 0x00, 0xF1,
        0x65,
    ];
    let mut c = machine(&rom, Chip8Implementation::CosmacVip);
    run(&mut c, 4);
    assert_eq!(c.index(), 0x302);
    assert_eq!(c.memory_at(0x300), 7);
    assert_eq!(c.memory_at(0x301), 9);
    run(&mut c, 4);
    assert_eq!(c.register(0), 7);
    assert_eq!(c.register(1), 9);
    assert_eq!(c.index(), 0x302);
}

#[test]
fn wait_key_repeats_until_pressed() {
    let mut c = modern(&[0x65, 0x42, 0xF5, 0x0A]);
    run(&mut c, 1);
    for _ in 0..5 {
        assert_eq!(c.step_with(0), Ok(false));
        assert_eq!(c.pc(), 0x202);
        assert_eq!(c.register(5), 0x42);
    }
    c.set_key(0xC, true);
    c.set_key(0x9, true);
    run(&mut c, 1);
    assert_eq!(c.register(5), 0x9);
    assert_eq!(c.pc(), 0x204);
}

#[test]
fn key_skips() {
    // V0 = 4; E09E skips when key 4 held; E0A1 skips when not
    let mut c = modern(&[0x60, 0x04, 0xE0, 0x9E]);
    c.keys_pressed[4] = true;
    run(&mut c, 2);
    assert_eq!(c.pc(), 0x206);
    let mut c = modern(&[0x60, 0x04, 0xE0, 0x9E]);
    run(&mut c, 2);
    assert_eq!(c.pc(), 0x204);
    let mut c = modern(&[0x60, 0x04, 0xE0, 0xA1]);
    run(&mut c, 2);
    assert_eq!(c.pc(), 0x206);
    // a key number past 0xF is never held
    let mut c = modern(&[0x60, 0x14, 0xE0, 0xA1]);
    c.keys_pressed[4] = true;
    run(&mut c, 2);
    assert_eq!(c.pc(), 0x206);
}

#[test]
fn jump_with_offset_flavours() {
    // V0 = 0x10, V3 = 0x20, B300
    let rom = [0x60, 0x10, 0x63, 0x20, 0xB3, 0x00];
    let mut c = machine(&rom, Chip8Implementation::CosmacVip);
    run(&mut c, 3);
    assert_eq!(c.pc(), 0x310);
    let mut c = modern(&rom);
    run(&mut c, 3);
    assert_eq!(c.pc(), 0x320);
}

#[test]
fn random_byte_is_masked() {
    let mut c = modern(&[0xC2, 0x0F, 0xC3, 0xF0]);
    assert_eq!(c.step_with(0xAB), Ok(false));
    assert_eq!(c.register(2), 0x0B);
    assert_eq!(c.step_with(0xAB), Ok(false));
    assert_eq!(c.register(3), 0xA0);
    let mut c = modern(&[0xC2, 0x0F, 0xC3, 0x00]);
    for _ in 0..2 {
        assert_eq!(c.step(), Ok(false));
    }
    assert!(c.register(2) <= 0x0F);
    assert_eq!(c.register(3), 0);
}

#[test]
fn index_add_and_font_lookup() {
    // I = 0xFFE, V0 = 3, F01E: I = 0x1001, Modern sets VF
    let rom = [0x6F, 0x00, 0xAF, 0xFE, 0x60, 0x03, 0xF0, 0x1E];
    let mut c = modern(&rom);
    run(&mut c, 4);
    assert_eq!(c.index(), 0x1001);
    assert_eq!(c.register(0xF), 1);
    let mut c = machine(&rom, Chip8Implementation::CosmacVip);
    run(&mut c, 4);
    assert_eq!(c.index(), 0x1001);
    assert_eq!(c.register(0xF), 0);
    // V4 = 0x1A: glyph A
    let mut c = modern(&[0x64, 0x1A, 0xF4, 0x29]);
    run(&mut c, 2);
    assert_eq!(c.index(), (FONT_ADDRESS + 0xA * 5) as u16);
}

#[test]
fn decimal_digits() {
    // V0 = 254, I = 0x300, F033
    let mut c = modern(&[0x60, 0xFE, 0xA3, 0x00, 0xF0, 0x33]);
    run(&mut c, 3);
    assert_eq!(c.memory_at(0x300), 2);
    assert_eq!(c.memory_at(0x301), 5);
    assert_eq!(c.memory_at(0x302), 4);
}

#[test]
fn unknown_opcode_poisons_machine() {
    let mut c = modern(&[0x60, 0x01, 0x01, 0x23]);
    run(&mut c, 1);
    let f = Fault { pc: 0x202, opcode: 0x0123, error: Chip8Error::UnknownOpcode(0x0123, 0x202) };
    assert_eq!(c.step_with(0), Err(f));
    assert_eq!(c.pc(), 0x202);
    assert_eq!(c.register(0), 1);
    assert_eq!(c.fault(), Some(f));
    assert_eq!(c.step_with(0), Err(f));
    assert_eq!(c.pc(), 0x202);
}

#[test]
fn unknown_opcodes_in_each_family() {
    for word in [0x5121u16, 0x8008, 0x900F, 0xE000, 0xF0FF] {
        let mut c = modern(&[(word >> 8) as u8, word as u8]);
        assert_eq!(
            c.step_with(0).err().map(|f| f.error),
            Some(Chip8Error::UnknownOpcode(word, 0x200))
        );
    }
}

#[test]
fn return_without_call_underflows() {
    let mut c = modern(&[0x00, 0xEE]);
    let f = c.step_with(0).unwrap_err();
    assert_eq!(f.error, Chip8Error::StackUnderflow);
    assert_eq!(f.pc, 0x200);
    assert_eq!(f.opcode, 0x00EE);
}

#[test]
fn runaway_recursion_overflows() {
    let mut c = modern(&[0x22, 0x00]);
    run(&mut c, STACK_DEPTH);
    assert_eq!(c.stack_depth(), STACK_DEPTH);
    let f = c.step_with(0).unwrap_err();
    assert_eq!(f.error, Chip8Error::StackOverflow);
    assert_eq!(c.stack_depth(), STACK_DEPTH);
}

#[test]
fn memory_instructions_check_bounds() {
    // I = 0xFFF; F033 needs 0x1001
    let mut c = modern(&[0xAF, 0xFF, 0xF0, 0x33]);
    run(&mut c, 1);
    assert_eq!(c.step_with(0).unwrap_err().error, Chip8Error::AddressOutOfRange(0x1001));
    // I = 0xFFF; F155 needs 0x1000
    let mut c = modern(&[0xAF, 0xFF, 0xF1, 0x55]);
    run(&mut c, 1);
    assert_eq!(c.step_with(0).unwrap_err().error, Chip8Error::AddressOutOfRange(0x1000));
    let mut c = modern(&[0xAF, 0xFF, 0xF1, 0x65]);
    run(&mut c, 1);
    assert_eq!(c.step_with(0).unwrap_err().error, Chip8Error::AddressOutOfRange(0x1000));
    // I = 0xFFF; D002 reads two rows
    let mut c = modern(&[0xAF, 0xFF, 0xD0, 0x02]);
    run(&mut c, 1);
    assert_eq!(c.step_with(0).unwrap_err().error, Chip8Error::AddressOutOfRange(0x1000));
    // but one row at the last address is fine
    let mut c = modern(&[0xAF, 0xFF, 0xD0, 0x01]);
    run(&mut c, 2);
}

#[test]
fn fetch_past_end_of_memory_fails() {
    let mut c = modern(&[0x1F, 0xFF]);
    run(&mut c, 1);
    assert_eq!(c.pc(), 0xFFF);
    let f = c.step_with(0).unwrap_err();
    assert_eq!(f, Fault { pc: 0xFFF, opcode: 0, error: Chip8Error::AddressOutOfRange(0x1000) });
}
