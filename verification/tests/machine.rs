use chip8::chip8::Chip8;
use chip8::chip8::Chip8Error;
use chip8::screen::Screen;

/// A machine with `program` loaded at the canonical address 0x200.
fn boot(program: &[u8]) -> Chip8 {
    let mut chip = Chip8::new();
    chip.load_rom(&program.to_vec()).expect("program fits");
    chip
}

/// Run `count` steps, each of which must succeed.
fn run(chip: &mut Chip8, count: usize) {
    for _ in 0..count {
        chip.step().expect("step succeeds");
    }
}

#[test]
fn power_on_state() {
    let chip = Chip8::new();
    assert_eq!(chip.pc, 0x200);
    assert_eq!(chip.i, 0);
    assert_eq!(chip.dt, 0);
    assert_eq!(chip.st, 0);
    assert_eq!(chip.regs, vec![0u8; 16]);
    assert!(chip.stack.is_empty());
    assert_eq!(chip.mem[0], 0xF0);
    assert_eq!(chip.mem[79], 0x80);
    assert_eq!(chip.mem[80], 0);
    assert_eq!(chip.mem[0x200], 0);
    assert!(chip.screen.buffer.iter().all(|&p| p == 0));
    assert!(chip.keys.iter().all(|&k| !k));
}

#[test]
fn load_rom_places_bytes_at_the_load_address() {
    let chip = boot(&[0x12, 0x34, 0x56]);
    assert_eq!(chip.mem[0x200], 0x12);
    assert_eq!(chip.mem[0x201], 0x34);
    assert_eq!(chip.mem[0x202], 0x56);
    assert_eq!(chip.mem[0x203], 0);
    // The font survives the load.
    assert_eq!(chip.mem[0], 0xF0);
}

#[test]
fn load_rom_rejects_an_oversized_image() {
    let mut chip = Chip8::new();
    let image = vec![0u8; 3585];
    assert_eq!(chip.load_rom(&image), Err(Chip8Error::AddressOutOfRange));
    assert_eq!(chip.mem[0x200], 0);
    let image = vec![0xAAu8; 3584];
    assert_eq!(chip.load_rom(&image), Ok(()));
    assert_eq!(chip.mem[4095], 0xAA);
}

#[test]
fn add_registers_with_carry() {
    // r1 = 200, r2 = 100, r1 += r2: 300 mod 256 = 44, carry set.
    let mut chip = boot(&[0x61, 0xC8, 0x62, 0x64, 0x81, 0x24]);
    run(&mut chip, 3);
    assert_eq!(chip.regs[1], 44);
    assert_eq!(chip.regs[15], 1);
    assert_eq!(chip.pc, 0x206);
}

#[test]
fn add_registers_without_carry() {
    let mut chip = boot(&[0x61, 0x03, 0x62, 0x04, 0x81, 0x24]);
    run(&mut chip, 3);
    assert_eq!(chip.regs[1], 7);
    assert_eq!(chip.regs[15], 0);
}

#[test]
fn sub_registers_without_borrow() {
    // r0 = 5, r1 = 3, r0 -= r1: 2, flag 1.
    let mut chip = boot(&[0x60, 0x05, 0x61, 0x03, 0x80, 0x15]);
    run(&mut chip, 3);
    assert_eq!(chip.regs[0], 0x02);
    assert_eq!(chip.regs[15], 1);
}

#[test]
fn sub_registers_wraps_on_borrow() {
    // r0 = 3, r1 = 5, r0 -= r1: 0xFE, flag 0.
    let mut chip = boot(&[0x60, 0x03, 0x61, 0x05, 0x80, 0x15]);
    run(&mut chip, 3);
    assert_eq!(chip.regs[0], 0xFE);
    assert_eq!(chip.regs[15], 0);
}

#[test]
fn clear_screen_clears_every_pixel() {
    let mut chip = boot(&[0x00, 0xE0]);
    chip.screen.buffer[0] = 1;
    chip.screen.buffer[77] = 1;
    chip.screen.buffer[2047] = 1;
    run(&mut chip, 1);
    assert!(chip.screen.buffer.iter().all(|&p| p == 0));
    assert_eq!(chip.pc, 0x202);
}

#[test]
fn set_immediate_touches_one_register() {
    let mut chip = boot(&[0x6A, 0x02]);
    run(&mut chip, 1);
    for k in 0..16 {
        assert_eq!(chip.regs[k], if k == 0xA { 2 } else { 0 });
    }
}

#[test]
fn set_index_then_font_address() {
    let mut chip = boot(&[0xA2, 0x00, 0x65, 0x02, 0xF5, 0x29]);
    run(&mut chip, 1);
    assert_eq!(chip.i, 0x200);
    run(&mut chip, 2);
    assert_eq!(chip.i, 10);
}

#[test]
fn draw_reports_no_collision_on_a_blank_screen() {
    // Glyph 0 (five rows at address 0) drawn at (5, 3).
    let mut chip = boot(&[0x60, 0x05, 0x61, 0x03, 0xA0, 0x00, 0xD0, 0x15]);
    run(&mut chip, 4);
    assert_eq!(chip.regs[15], 0);
    // Top row of glyph 0 is 0xF0: four pixels starting at (5, 3).
    for dx in 0..4 {
        assert_eq!(chip.screen.buffer[3 * 64 + 5 + dx], 1);
    }
    assert_eq!(chip.screen.buffer[3 * 64 + 9], 0);
}

#[test]
fn drawing_the_same_sprite_twice_restores_the_buffer() {
    let mut chip = boot(&[
        0x60, 0x05, 0x61, 0x03, 0xA0, 0x00, 0xD0, 0x15, 0xD0, 0x15,
    ]);
    run(&mut chip, 4);
    assert!(chip.screen.buffer.iter().any(|&p| p == 1));
    run(&mut chip, 1);
    // The second draw toggled every pixel back off and collided.
    assert!(chip.screen.buffer.iter().all(|&p| p == 0));
    assert_eq!(chip.regs[15], 1);
}

#[test]
fn draw_wraps_at_the_right_edge() {
    // Row 0xF0 drawn from column 62: columns 62, 63, 0, 1 light up.
    let mut chip = boot(&[0x60, 0x3E, 0x61, 0x00, 0xA0, 0x00, 0xD0, 0x11]);
    run(&mut chip, 4);
    assert_eq!(chip.screen.buffer[62], 1);
    assert_eq!(chip.screen.buffer[63], 1);
    assert_eq!(chip.screen.buffer[0], 1);
    assert_eq!(chip.screen.buffer[1], 1);
    assert_eq!(chip.screen.buffer[2], 0);
}

#[test]
fn draw_rejects_a_sprite_past_the_end_of_memory() {
    let mut chip = boot(&[0xAF, 0xF8, 0xD0, 0x1F]);
    run(&mut chip, 1);
    assert_eq!(chip.i, 0xFF8);
    assert_eq!(chip.step(), Err(Chip8Error::AddressOutOfRange));
    assert_eq!(chip.pc, 0x202);
}

#[test]
fn wait_for_key_polls_until_a_key_appears() {
    let mut chip = boot(&[0xF3, 0x0A]);
    run(&mut chip, 1);
    assert_eq!(chip.pc, 0x200);
    run(&mut chip, 1);
    assert_eq!(chip.pc, 0x200);
    chip.press(0x7);
    run(&mut chip, 1);
    assert_eq!(chip.pc, 0x202);
    assert_eq!(chip.regs[3], 0x7);
}

#[test]
fn wait_for_key_captures_the_lowest_pressed_index() {
    let mut chip = boot(&[0xF3, 0x0A]);
    chip.press(0x9);
    chip.press(0x4);
    run(&mut chip, 1);
    assert_eq!(chip.regs[3], 0x4);
}

#[test]
fn nested_calls_overflow_on_the_seventeenth_step() {
    // The instruction at 0x200 calls itself.
    let mut chip = boot(&[0x22, 0x00]);
    for _ in 0..16 {
        assert_eq!(chip.step(), Ok(()));
    }
    assert_eq!(chip.stack.len(), 16);
    assert_eq!(chip.step(), Err(Chip8Error::StackOverflow));
    assert_eq!(chip.stack.len(), 16);
    assert_eq!(chip.pc, 0x200);
}

#[test]
fn return_with_an_empty_stack_underflows() {
    let mut chip = boot(&[0x00, 0xEE]);
    assert_eq!(chip.step(), Err(Chip8Error::StackUnderflow));
    assert_eq!(chip.pc, 0x200);
}

#[test]
fn call_and_return_resume_past_the_call() {
    // 0x200: call 0x206; 0x206: return.
    let mut chip = boot(&[0x22, 0x06, 0x00, 0x00, 0x00, 0x00, 0x00, 0xEE]);
    run(&mut chip, 1);
    assert_eq!(chip.pc, 0x206);
    assert_eq!(chip.stack, vec![0x200]);
    run(&mut chip, 1);
    assert_eq!(chip.pc, 0x202);
    assert!(chip.stack.is_empty());
}

#[test]
fn unknown_opcode_reports_the_bytes_and_the_address() {
    let mut chip = boot(&[0x80, 0x09]);
    assert_eq!(
        chip.step(),
        Err(Chip8Error::UnknownOpcode { b0: 0x80, b1: 0x09, pc: 0x200 })
    );
    assert_eq!(chip.pc, 0x200);
}

#[test]
fn fetch_past_the_end_of_memory_is_an_error() {
    let mut chip = Chip8::new();
    chip.pc = 4095;
    assert_eq!(chip.step(), Err(Chip8Error::AddressOutOfRange));
    assert_eq!(chip.pc, 4095);
}

#[test]
fn delay_timer_saturates_at_zero() {
    let mut chip = Chip8::new();
    chip.dt = 5;
    for _ in 0..5 {
        chip.tick_timers();
    }
    assert_eq!(chip.dt, 0);
    chip.tick_timers();
    assert_eq!(chip.dt, 0);
}

#[test]
fn timers_move_between_registers() {
    // r0 = 5, delay = r0, sound = r0, then r1 = delay.
    let mut chip = boot(&[0x60, 0x05, 0xF0, 0x15, 0xF0, 0x18, 0xF1, 0x07]);
    run(&mut chip, 4);
    assert_eq!(chip.dt, 5);
    assert_eq!(chip.st, 5);
    assert_eq!(chip.regs[1], 5);
}

#[test]
fn timers_do_not_decay_with_instructions() {
    let mut chip = boot(&[0x60, 0x01, 0x61, 0x02, 0x62, 0x03]);
    chip.dt = 7;
    chip.st = 7;
    run(&mut chip, 3);
    assert_eq!(chip.dt, 7);
    assert_eq!(chip.st, 7);
}

#[test]
fn store_bcd_writes_three_digits() {
    // r0 = 123 at I = 0x300.
    let mut chip = boot(&[0x60, 0x7B, 0xA3, 0x00, 0xF0, 0x33]);
    run(&mut chip, 3);
    assert_eq!(chip.mem[0x300], 1);
    assert_eq!(chip.mem[0x301], 2);
    assert_eq!(chip.mem[0x302], 3);
}

#[test]
fn store_bcd_rejects_a_write_past_the_end_of_memory() {
    let mut chip = boot(&[0xAF, 0xFE, 0xF0, 0x33]);
    run(&mut chip, 1);
    assert_eq!(chip.step(), Err(Chip8Error::AddressOutOfRange));
}

#[test]
fn register_dump_and_load_round_trip() {
    // r0 = 10, r1 = 11, dump r0..=r1 at 0x300, clobber, reload.
    let mut chip = boot(&[
        0x60, 0x0A, 0x61, 0x0B, 0xA3, 0x00, 0xF1, 0x55, 0x60, 0x00, 0x61, 0x00, 0xF1, 0x65,
    ]);
    run(&mut chip, 4);
    assert_eq!(chip.mem[0x300], 10);
    assert_eq!(chip.mem[0x301], 11);
    assert_eq!(chip.mem[0x302], 0);
    run(&mut chip, 2);
    assert_eq!(chip.regs[0], 0);
    assert_eq!(chip.regs[1], 0);
    run(&mut chip, 1);
    assert_eq!(chip.regs[0], 10);
    assert_eq!(chip.regs[1], 11);
}

#[test]
fn add_to_index_wraps_in_twelve_bits() {
    let mut chip = boot(&[0xAF, 0xFF, 0x60, 0x02, 0xF0, 0x1E]);
    run(&mut chip, 3);
    assert_eq!(chip.i, 1);
    assert_eq!(chip.regs[15], 1);
}

#[test]
fn add_to_index_without_wrap_clears_the_flag() {
    let mut chip = boot(&[0xA0, 0x10, 0x60, 0x02, 0xF0, 0x1E]);
    chip.regs[15] = 1;
    run(&mut chip, 3);
    assert_eq!(chip.i, 0x12);
    assert_eq!(chip.regs[15], 0);
}

#[test]
fn random_with_a_zero_mask_yields_zero() {
    let mut chip = boot(&[0x60, 0xFF, 0xC0, 0x00]);
    run(&mut chip, 2);
    assert_eq!(chip.regs[0], 0);
}

#[test]
fn random_respects_the_mask() {
    let mut chip = boot(&[0xC0, 0x0F]);
    run(&mut chip, 1);
    assert!(chip.regs[0] <= 0x0F);
}

#[test]
fn skip_if_equal_immediate() {
    let mut chip = boot(&[0x30, 0x00]);
    run(&mut chip, 1);
    assert_eq!(chip.pc, 0x204);
    let mut chip = boot(&[0x30, 0x01]);
    run(&mut chip, 1);
    assert_eq!(chip.pc, 0x202);
}

#[test]
fn skip_if_not_equal_immediate() {
    let mut chip = boot(&[0x40, 0x01]);
    run(&mut chip, 1);
    assert_eq!(chip.pc, 0x204);
}

#[test]
fn skip_on_register_comparison() {
    let mut chip = boot(&[0x50, 0x10]);
    run(&mut chip, 1);
    assert_eq!(chip.pc, 0x204);
    let mut chip = boot(&[0x60, 0x01, 0x90, 0x10]);
    run(&mut chip, 2);
    assert_eq!(chip.pc, 0x206);
}

#[test]
fn skip_on_key_state() {
    let mut chip = boot(&[0x60, 0x07, 0xE0, 0x9E]);
    chip.press(0x7);
    run(&mut chip, 2);
    assert_eq!(chip.pc, 0x206);

    let mut chip = boot(&[0x60, 0x07, 0xE0, 0xA1]);
    run(&mut chip, 2);
    assert_eq!(chip.pc, 0x206);
    let mut chip = boot(&[0x60, 0x07, 0xE0, 0xA1]);
    chip.press(0x7);
    run(&mut chip, 2);
    assert_eq!(chip.pc, 0x204);
}

#[test]
fn jump_moves_the_program_counter() {
    let mut chip = boot(&[0x1A, 0xBC]);
    run(&mut chip, 1);
    assert_eq!(chip.pc, 0xABC);
}

#[test]
fn jump_with_offset_adds_register_zero() {
    let mut chip = boot(&[0x60, 0x10, 0xB2, 0x00]);
    run(&mut chip, 2);
    assert_eq!(chip.pc, 0x210);
}

#[test]
fn shift_right_drops_the_low_bit_into_the_flag() {
    let mut chip = boot(&[0x60, 0x07, 0x80, 0x16]);
    run(&mut chip, 2);
    assert_eq!(chip.regs[0], 3);
    assert_eq!(chip.regs[15], 1);
    let mut chip = boot(&[0x60, 0x08, 0x80, 0x16]);
    run(&mut chip, 2);
    assert_eq!(chip.regs[0], 4);
    assert_eq!(chip.regs[15], 0);
}

#[test]
fn bitwise_register_operations() {
    let mut chip = boot(&[0x60, 0x0C, 0x61, 0x0A, 0x80, 0x11]);
    run(&mut chip, 3);
    assert_eq!(chip.regs[0], 0x0E);
    let mut chip = boot(&[0x60, 0x0C, 0x61, 0x0A, 0x80, 0x12]);
    run(&mut chip, 3);
    assert_eq!(chip.regs[0], 0x08);
    let mut chip = boot(&[0x60, 0x0C, 0x61, 0x0A, 0x80, 0x13]);
    run(&mut chip, 3);
    assert_eq!(chip.regs[0], 0x06);
}

#[test]
fn add_immediate_wraps_and_keeps_the_flag() {
    let mut chip = boot(&[0x60, 0xFF, 0x70, 0x03]);
    run(&mut chip, 2);
    assert_eq!(chip.regs[0], 2);
    assert_eq!(chip.regs[15], 0);
}

#[test]
fn copy_register() {
    let mut chip = boot(&[0x61, 0x2A, 0x80, 0x10]);
    run(&mut chip, 2);
    assert_eq!(chip.regs[0], 0x2A);
}

#[test]
fn set_keys_overwrites_the_snapshot() {
    let mut chip = Chip8::new();
    let mut keys = vec![false; 16];
    keys[3] = true;
    chip.set_keys(keys);
    assert!(chip.keys[3]);
    chip.reset_keys();
    assert!(chip.keys.iter().all(|&k| !k));
}

#[test]
fn screen_toggle_reports_the_prior_state() {
    let mut screen = Screen::new();
    assert_eq!(screen.pixel(5, 3), 0);
    assert!(!screen.toggle(5, 3));
    assert_eq!(screen.pixel(5, 3), 1);
    assert!(screen.toggle(5, 3));
    assert_eq!(screen.pixel(5, 3), 0);
    screen.toggle(5, 3);
    screen.clear();
    assert_eq!(screen.pixel(5, 3), 0);
}
