use chip8::Emulator;
use chip8::RomError;

/// One sixtieth of a second, rounded to whole microseconds.
const FRAME_MICROS: u64 = 16667;

#[test]
fn new_machine_defaults() {
    let e = Emulator::new();
    assert_eq!(e.pc, 0x200);
    assert_eq!(e.i, 0);
    assert!(e.stack.is_empty());
    assert_eq!(e.delay_timer, 0);
    assert_eq!(e.sound_timer, 0);
    assert!(e.is_paused());
    for r in 0..16 {
        assert_eq!(e.v[r], 0);
    }
    assert_eq!(e.code_memory_location(), (0x200, 0x200));
}

#[test]
fn new_machine_has_font_loaded() {
    let e = Emulator::new();
    assert_eq!(e.ram[0x050], 0xF0);
    assert_eq!(e.ram[0x051], 0x90);
    assert_eq!(e.ram[0x09F], 0x80);
    assert_eq!(e.ram[0x04F], 0x00);
    assert_eq!(e.ram[0x0A0], 0x00);
    for k in 0..0x200 - 0xA0 {
        assert_eq!(e.ram[0xA0 + k], 0);
    }
}

#[test]
fn load_rom_places_code_and_unpauses() {
    let mut e = Emulator::new();
    let rom = vec![0xA2, 0xF0, 0x12, 0x00];
    assert_eq!(e.load_rom(&rom), Ok(()));
    assert_eq!(e.ram[0x200], 0xA2);
    assert_eq!(e.ram[0x201], 0xF0);
    assert_eq!(e.ram[0x202], 0x12);
    assert_eq!(e.ram[0x203], 0x00);
    assert_eq!(e.ram[0x204], 0x00);
    assert_eq!(e.pc, 0x200);
    assert!(!e.is_paused());
    assert_eq!(e.code_memory_location(), (0x200, 0x204));
}

#[test]
fn load_rom_of_exactly_max_size_succeeds() {
    let mut e = Emulator::new();
    let rom = vec![0x77u8; 3584];
    assert_eq!(e.load_rom(&rom), Ok(()));
    assert_eq!(e.ram[0x200], 0x77);
    assert_eq!(e.ram[0xFFF], 0x77);
    assert_eq!(e.code_memory_location(), (0x200, 0x200 + 3584));
}

#[test]
fn load_rom_one_byte_over_fails_and_resets() {
    let mut e = Emulator::new();
    e.v[3] = 0x55;
    let rom = vec![0x77u8; 3585];
    assert_eq!(e.load_rom(&rom), Err(RomError::RomTooLarge));
    assert!(e.is_paused());
    assert_eq!(e.pc, 0x200);
    assert_eq!(e.v[3], 0);
    assert_eq!(e.ram[0x200], 0);
    assert_eq!(e.code_memory_location(), (0x200, 0x200));
}

#[test]
fn load_rom_resets_previous_state() {
    let mut e = Emulator::new();
    e.load_rom(&[0x12, 0x34]).unwrap();
    e.v[0] = 9;
    e.delay_timer = 7;
    e.load_rom(&[0x56, 0x78]).unwrap();
    assert_eq!(e.v[0], 0);
    assert_eq!(e.delay_timer, 0);
    assert_eq!(e.ram[0x200], 0x56);
    assert_eq!(e.ram[0x201], 0x78);
}

#[test]
fn fetch_reads_big_endian_word() {
    let mut e = Emulator::new();
    e.load_rom(&[0x12, 0x34]).unwrap();
    assert_eq!(e.fetch_instruction(), 0x1234);
}

#[test]
fn paused_machine_does_nothing_on_cycle() {
    let mut e = Emulator::new();
    e.delay_timer = 10;
    assert!(e.is_paused());
    e.execute_cycle(FRAME_MICROS);
    assert_eq!(e.pc, 0x200);
    assert_eq!(e.delay_timer, 10);
}

#[test]
fn set_paused_stops_and_resumes() {
    let mut e = Emulator::new();
    e.load_rom(&[0x60, 0x42]).unwrap();
    e.set_paused(true);
    e.execute_cycle(FRAME_MICROS);
    assert_eq!(e.pc, 0x200);
    e.set_paused(false);
    e.execute_cycle(FRAME_MICROS);
    assert_eq!(e.pc, 0x202);
    assert_eq!(e.v[0], 0x42);
}

#[test]
fn add_immediate_wraps_and_round_trips() {
    let mut e = Emulator::new();
    e.v[0] = 250;
    e.execute_instruction(0x7010, 0);
    assert_eq!(e.v[0], 10);
    assert_eq!(e.v[0xF], 0);
    e.execute_instruction(0x70F0, 0);
    assert_eq!(e.v[0], 250);
    assert_eq!(e.v[0xF], 0);
}

#[test]
fn add_registers_sets_carry() {
    let mut e = Emulator::new();
    e.v[0] = 0xFF;
    e.v[1] = 0x01;
    e.execute_instruction(0x8014, 0);
    assert_eq!(e.v[0], 0x00);
    assert_eq!(e.v[0xF], 1);
}

#[test]
fn add_registers_without_carry() {
    let mut e = Emulator::new();
    e.v[0] = 0x12;
    e.v[1] = 0x34;
    e.execute_instruction(0x8014, 0);
    assert_eq!(e.v[0], 0x46);
    assert_eq!(e.v[0xF], 0);
}

#[test]
fn sub_registers_sets_borrow_flag() {
    let mut e = Emulator::new();
    e.v[0] = 0x01;
    e.v[1] = 0x02;
    e.execute_instruction(0x8015, 0);
    assert_eq!(e.v[0], 0xFF);
    assert_eq!(e.v[0xF], 0);
}

#[test]
fn sub_registers_without_borrow() {
    let mut e = Emulator::new();
    e.v[0] = 0x05;
    e.v[1] = 0x03;
    e.execute_instruction(0x8015, 0);
    assert_eq!(e.v[0], 0x02);
    assert_eq!(e.v[0xF], 1);
}

#[test]
fn subn_registers() {
    let mut e = Emulator::new();
    e.v[0] = 0x02;
    e.v[1] = 0x05;
    e.execute_instruction(0x8017, 0);
    assert_eq!(e.v[0], 0x03);
    assert_eq!(e.v[0xF], 1);
    e.v[2] = 0x09;
    e.v[3] = 0x04;
    e.execute_instruction(0x8237, 0);
    assert_eq!(e.v[2], 0xFB);
    assert_eq!(e.v[0xF], 0);
}

#[test]
fn jump_sets_program_counter() {
    let mut e = Emulator::new();
    e.execute_instruction(0x1ABC, 0);
    assert_eq!(e.pc, 0xABC);
}

#[test]
fn jump_with_offset_adds_v0() {
    let mut e = Emulator::new();
    e.v[0] = 0x10;
    e.execute_instruction(0xB200, 0);
    assert_eq!(e.pc, 0x210);
}

#[test]
fn call_and_return_round_trip() {
    let mut e = Emulator::new();
    assert_eq!(e.pc, 0x200);
    e.execute_instruction(0x2300, 0);
    assert_eq!(e.pc, 0x300);
    assert_eq!(e.stack, vec![0x202]);
    e.execute_instruction(0x00EE, 0);
    assert_eq!(e.pc, 0x202);
    assert!(e.stack.is_empty());
}

#[test]
fn return_with_empty_stack_is_noop() {
    let mut e = Emulator::new();
    e.execute_instruction(0x00EE, 0);
    assert_eq!(e.pc, 0x202);
    assert!(e.stack.is_empty());
}

#[test]
fn skip_if_equal_immediate() {
    let mut e = Emulator::new();
    e.v[2] = 0x42;
    e.execute_instruction(0x3242, 0);
    assert_eq!(e.pc, 0x204);
    e.execute_instruction(0x3243, 0);
    assert_eq!(e.pc, 0x206);
}

#[test]
fn skip_if_not_equal_immediate() {
    let mut e = Emulator::new();
    e.v[2] = 0x42;
    e.execute_instruction(0x4243, 0);
    assert_eq!(e.pc, 0x204);
    e.execute_instruction(0x4242, 0);
    assert_eq!(e.pc, 0x206);
}

#[test]
fn skip_if_registers_equal() {
    let mut e = Emulator::new();
    e.v[1] = 7;
    e.v[2] = 7;
    e.v[3] = 8;
    e.execute_instruction(0x5120, 0);
    assert_eq!(e.pc, 0x204);
    e.execute_instruction(0x5130, 0);
    assert_eq!(e.pc, 0x206);
}

#[test]
fn skip_if_registers_not_equal() {
    let mut e = Emulator::new();
    e.v[1] = 7;
    e.v[2] = 7;
    e.v[3] = 8;
    e.execute_instruction(0x9130, 0);
    assert_eq!(e.pc, 0x204);
    e.execute_instruction(0x9120, 0);
    assert_eq!(e.pc, 0x206);
}

#[test]
fn load_and_copy_registers() {
    let mut e = Emulator::new();
    e.execute_instruction(0x6799, 0);
    assert_eq!(e.v[7], 0x99);
    e.execute_instruction(0x8370, 0);
    assert_eq!(e.v[3], 0x99);
}

#[test]
fn bitwise_or_and_xor() {
    let mut e = Emulator::new();
    e.v[0] = 0b1100;
    e.v[1] = 0b1010;
    e.execute_instruction(0x8011, 0);
    assert_eq!(e.v[0], 0b1110);
    e.v[0] = 0b1100;
    e.execute_instruction(0x8012, 0);
    assert_eq!(e.v[0], 0b1000);
    e.v[0] = 0b1100;
    e.execute_instruction(0x8013, 0);
    assert_eq!(e.v[0], 0b0110);
}

#[test]
fn shift_right_keeps_low_bit_in_flag() {
    let mut e = Emulator::new();
    e.v[0] = 5;
    e.execute_instruction(0x8006, 0);
    assert_eq!(e.v[0], 2);
    assert_eq!(e.v[0xF], 1);
    e.execute_instruction(0x8006, 0);
    assert_eq!(e.v[0], 1);
    assert_eq!(e.v[0xF], 0);
}

#[test]
fn shift_left_keeps_high_bit_in_flag() {
    let mut e = Emulator::new();
    e.v[0] = 0x81;
    e.execute_instruction(0x800E, 0);
    assert_eq!(e.v[0], 0x02);
    assert_eq!(e.v[0xF], 1);
    e.execute_instruction(0x800E, 0);
    assert_eq!(e.v[0], 0x04);
    assert_eq!(e.v[0xF], 0);
}

#[test]
fn set_index_register() {
    let mut e = Emulator::new();
    e.execute_instruction(0xA123, 0);
    assert_eq!(e.i, 0x123);
}

#[test]
fn add_register_to_index() {
    let mut e = Emulator::new();
    e.execute_instruction(0xA100, 0);
    e.v[4] = 0x20;
    e.execute_instruction(0xF41E, 0);
    assert_eq!(e.i, 0x120);
}

#[test]
fn random_byte_is_masked() {
    let mut e = Emulator::new();
    e.execute_instruction(0xC00F, 0xAB);
    assert_eq!(e.v[0], 0x0B);
    e.execute_instruction(0xC1F0, 0xAB);
    assert_eq!(e.v[1], 0xA0);
    e.execute_instruction(0xC200, 0xAB);
    assert_eq!(e.v[2], 0x00);
}

#[test]
fn random_opcode_through_cycle_honors_zero_mask() {
    let mut e = Emulator::new();
    e.load_rom(&[0xC5, 0x00]).unwrap();
    e.v[5] = 0x77;
    e.execute_cycle(FRAME_MICROS);
    assert_eq!(e.v[5], 0);
}

#[test]
fn draw_glyph_and_collision_flag() {
    let mut e = Emulator::new();
    e.execute_instruction(0xA050, 0);
    assert_eq!(e.i, 0x050);
    e.execute_instruction(0xD005, 0);
    assert_eq!(e.v[0xF], 0);
    assert_eq!(e.screen.get_pixel(0, 0), 1);
    assert_eq!(e.screen.get_pixel(3, 0), 1);
    assert_eq!(e.screen.get_pixel(4, 0), 0);
    assert_eq!(e.screen.get_pixel(1, 1), 0);
    assert_eq!(e.screen.get_pixel(3, 1), 1);
    e.execute_instruction(0xD005, 0);
    assert_eq!(e.v[0xF], 1);
    assert_eq!(e.screen.get_pixel(0, 0), 0);
}

#[test]
fn font_index_opcode_points_at_glyph() {
    let mut e = Emulator::new();
    e.v[3] = 0xA;
    e.execute_instruction(0xF329, 0);
    assert_eq!(e.i, 5 * 0xA);
}

#[test]
fn clear_screen_opcode() {
    let mut e = Emulator::new();
    e.screen.set_pixel(5, 5, true);
    e.screen.set_dirty(false);
    e.execute_instruction(0x00E0, 0);
    assert_eq!(e.screen.get_pixel(5, 5), 0);
    assert!(e.screen.is_dirty());
}

#[test]
fn skip_on_key_pressed_and_not_pressed() {
    let mut e = Emulator::new();
    e.v[3] = 0x7;
    e.execute_instruction(0xE39E, 0);
    assert_eq!(e.pc, 0x202);
    e.execute_instruction(0xE3A1, 0);
    assert_eq!(e.pc, 0x206);
    e.keyboard.set(0x7, true);
    e.execute_instruction(0xE39E, 0);
    assert_eq!(e.pc, 0x20A);
    e.execute_instruction(0xE3A1, 0);
    assert_eq!(e.pc, 0x20C);
}

#[test]
fn wait_for_key_busy_waits_until_press() {
    let mut e = Emulator::new();
    e.load_rom(&[0xF6, 0x0A]).unwrap();
    e.execute_cycle(FRAME_MICROS);
    assert_eq!(e.pc, 0x200);
    e.execute_cycle(FRAME_MICROS);
    assert_eq!(e.pc, 0x200);
    e.keyboard.set(0xB, true);
    e.keyboard.set(0xD, true);
    e.execute_cycle(FRAME_MICROS);
    assert_eq!(e.pc, 0x202);
    assert_eq!(e.v[6], 0xB);
}

#[test]
fn delay_timer_read_and_write() {
    let mut e = Emulator::new();
    e.v[2] = 45;
    e.execute_instruction(0xF215, 0);
    assert_eq!(e.delay_timer, 45);
    e.execute_instruction(0xF707, 0);
    assert_eq!(e.v[7], 45);
    e.v[4] = 99;
    e.execute_instruction(0xF418, 0);
    assert_eq!(e.sound_timer, 99);
}

#[test]
fn delay_timer_counts_down_at_sixty_hertz() {
    let mut e = Emulator::new();
    e.load_rom(&[]).unwrap();
    e.delay_timer = 60;
    for step in 0u8..60 {
        assert_eq!(e.delay_timer, 60 - step);
        e.execute_cycle(FRAME_MICROS);
    }
    assert_eq!(e.delay_timer, 0);
    e.execute_cycle(FRAME_MICROS);
    assert_eq!(e.delay_timer, 0);
}

#[test]
fn sound_timer_counts_down_at_sixty_hertz() {
    let mut e = Emulator::new();
    e.load_rom(&[]).unwrap();
    e.sound_timer = 2;
    e.execute_cycle(FRAME_MICROS);
    assert_eq!(e.sound_timer, 1);
    e.execute_cycle(FRAME_MICROS);
    assert_eq!(e.sound_timer, 0);
    e.execute_cycle(FRAME_MICROS);
    assert_eq!(e.sound_timer, 0);
}

#[test]
fn timers_accumulate_fractional_frames() {
    let mut e = Emulator::new();
    e.load_rom(&[]).unwrap();
    e.delay_timer = 10;
    e.execute_cycle(8000);
    assert_eq!(e.delay_timer, 10);
    e.execute_cycle(9000);
    assert_eq!(e.delay_timer, 9);
}

#[test]
fn bcd_opcode_stores_three_digits() {
    let mut e = Emulator::new();
    e.v[5] = 234;
    e.execute_instruction(0xA300, 0);
    e.execute_instruction(0xF533, 0);
    assert_eq!(e.ram[0x300], 2);
    assert_eq!(e.ram[0x301], 3);
    assert_eq!(e.ram[0x302], 4);
}

#[test]
fn store_and_load_registers_round_trip() {
    let mut e = Emulator::new();
    e.v[0] = 1;
    e.v[1] = 2;
    e.v[2] = 3;
    e.v[3] = 4;
    e.execute_instruction(0xA400, 0);
    e.execute_instruction(0xF355, 0);
    assert_eq!(e.ram[0x400], 1);
    assert_eq!(e.ram[0x401], 2);
    assert_eq!(e.ram[0x402], 3);
    assert_eq!(e.ram[0x403], 4);
    assert_eq!(e.i, 0x404);
    for r in 0..4 {
        e.v[r] = 0;
    }
    e.execute_instruction(0xA400, 0);
    e.execute_instruction(0xF365, 0);
    assert_eq!(e.v[0], 1);
    assert_eq!(e.v[1], 2);
    assert_eq!(e.v[2], 3);
    assert_eq!(e.v[3], 4);
    assert_eq!(e.i, 0x404);
}

#[test]
fn program_counter_wraps_at_end_of_memory() {
    let mut e = Emulator::new();
    e.execute_instruction(0x1FFE, 0);
    assert_eq!(e.pc, 0xFFE);
    e.execute_instruction(0x0000, 0);
    assert_eq!(e.pc, 0x000);
}

#[test]
fn bcd_wraps_addresses_at_end_of_memory() {
    let mut e = Emulator::new();
    e.v[5] = 123;
    e.execute_instruction(0xAFFF, 0);
    e.execute_instruction(0xF533, 0);
    assert_eq!(e.ram[0xFFF], 1);
    assert_eq!(e.ram[0x000], 2);
    assert_eq!(e.ram[0x001], 3);
}

#[test]
fn unknown_opcodes_are_noops() {
    let mut e = Emulator::new();
    e.v[1] = 0x11;
    e.execute_instruction(0x0123, 0);
    assert_eq!(e.pc, 0x202);
    e.execute_instruction(0x5121, 0);
    assert_eq!(e.pc, 0x204);
    e.execute_instruction(0x8238, 0);
    assert_eq!(e.pc, 0x206);
    e.execute_instruction(0xE155, 0);
    assert_eq!(e.pc, 0x208);
    e.execute_instruction(0xF099, 0);
    assert_eq!(e.pc, 0x20A);
    assert_eq!(e.v[1], 0x11);
}
