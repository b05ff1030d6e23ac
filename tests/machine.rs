use chip8::chip8::Chip8;
use chip8::semantics::Fault;

fn machine_with(rom: &[u8]) -> Chip8 {
    let mut c = Chip8::new();
    assert_eq!(c.load(rom), Ok(()));
    c
}

fn run(c: &mut Chip8, steps: usize) {
    for _ in 0..steps {
        assert_eq!(c.step(0), Ok(()));
    }
}

fn lit_pixels(c: &Chip8) -> usize {
    c.get_screen().iter().filter(|p| **p).count()
}

#[test]
fn end_to_end_two_instructions() {
    let mut c = machine_with(&[0x60, 0x05, 0x70, 0x03]);
    assert_eq!(c.pc(), 0x200);
    assert_eq!(c.tick(), Ok(()));
    assert_eq!(c.tick(), Ok(()));
    assert_eq!(c.register(0), 8);
    assert_eq!(c.pc(), 0x204);
}

#[test]
fn new_machine_has_font_and_start_address() {
    let c = Chip8::new();
    assert_eq!(c.pc(), 0x200);
    assert_eq!(c.memory_at(0), 0xF0);
    assert_eq!(c.memory_at(5), 0x20);
    assert_eq!(c.memory_at(79), 0x80);
    assert_eq!(c.memory_at(80), 0);
    assert_eq!(c.stack_depth(), 0);
    assert_eq!(c.get_screen().len(), 2048);
    assert_eq!(lit_pixels(&c), 0);
}

#[test]
fn reset_restores_initial_state() {
    let mut c = machine_with(&[0x60, 0x05, 0xA0, 0x00, 0xD0, 0x05, 0x22, 0x00]);
    run(&mut c, 4);
    c.keypress(3, true);
    c.reset();
    assert_eq!(c.pc(), 0x200);
    assert_eq!(c.register(0), 0);
    assert_eq!(c.index_register(), 0);
    assert_eq!(c.stack_depth(), 0);
    assert_eq!(c.memory_at(0x200), 0);
    assert_eq!(c.memory_at(0), 0xF0);
    assert!(!c.is_key_pressed(3));
    assert_eq!(lit_pixels(&c), 0);
}

#[test]
fn load_accepts_largest_rom() {
    let mut c = Chip8::new();
    let rom = vec![0xAB; 3584];
    assert_eq!(c.load(&rom), Ok(()));
    assert_eq!(c.memory_at(0x200), 0xAB);
    assert_eq!(c.memory_at(4095), 0xAB);
}

#[test]
fn load_refuses_oversized_rom() {
    let mut c = Chip8::new();
    let rom = vec![0xAB; 3585];
    assert_eq!(c.load(&rom), Err(Fault::RomTooLarge { len: 3585 }));
    assert_eq!(c.memory_at(0x200), 0);
}

#[test]
fn add_immediate_wraps_without_flag() {
    let mut c = machine_with(&[0x60, 0xFF, 0x70, 0x02]);
    run(&mut c, 2);
    assert_eq!(c.register(0), 1);
    assert_eq!(c.register(15), 0);
}

#[test]
fn add_registers_sets_carry() {
    let mut c = machine_with(&[0x60, 0xC8, 0x61, 0x64, 0x80, 0x14]);
    run(&mut c, 3);
    assert_eq!(c.register(0), 44);
    assert_eq!(c.register(15), 1);
}

#[test]
fn add_registers_without_carry() {
    let mut c = machine_with(&[0x60, 0x80, 0x61, 0x7F, 0x80, 0x14]);
    run(&mut c, 3);
    assert_eq!(c.register(0), 255);
    assert_eq!(c.register(15), 0);
}

#[test]
fn subtract_sets_no_borrow_flag() {
    let mut c = machine_with(&[0x60, 0x05, 0x61, 0x03, 0x80, 0x15]);
    run(&mut c, 3);
    assert_eq!(c.register(0), 2);
    assert_eq!(c.register(15), 1);
}

#[test]
fn subtract_equal_values_has_no_borrow() {
    let mut c = machine_with(&[0x60, 0x07, 0x61, 0x07, 0x80, 0x15]);
    run(&mut c, 3);
    assert_eq!(c.register(0), 0);
    assert_eq!(c.register(15), 1);
}

#[test]
fn subtract_with_borrow_wraps() {
    let mut c = machine_with(&[0x60, 0x03, 0x61, 0x05, 0x80, 0x15]);
    run(&mut c, 3);
    assert_eq!(c.register(0), 254);
    assert_eq!(c.register(15), 0);
}

#[test]
fn reverse_subtract_sets_no_borrow_flag() {
    let mut c = machine_with(&[0x60, 0x03, 0x61, 0x05, 0x80, 0x17]);
    run(&mut c, 3);
    assert_eq!(c.register(0), 2);
    assert_eq!(c.register(15), 1);
    let mut d = machine_with(&[0x60, 0x05, 0x61, 0x03, 0x80, 0x17]);
    run(&mut d, 3);
    assert_eq!(d.register(0), 254);
    assert_eq!(d.register(15), 0);
}

#[test]
fn shift_right_keeps_low_bit() {
    let mut c = machine_with(&[0x60, 0x05, 0x61, 0xF0, 0x80, 0x16]);
    run(&mut c, 3);
    assert_eq!(c.register(0), 2);
    assert_eq!(c.register(15), 1);
    assert_eq!(c.register(1), 0xF0);
}

#[test]
fn shift_right_in_flag_register_keeps_low_bit() {
    let mut c = machine_with(&[0x6F, 0x03, 0x8F, 0x06]);
    run(&mut c, 2);
    assert_eq!(c.register(15), 1);
}

#[test]
fn shift_left_keeps_high_bit() {
    let mut c = machine_with(&[0x60, 0x81, 0x80, 0x0E]);
    run(&mut c, 2);
    assert_eq!(c.register(0), 2);
    assert_eq!(c.register(15), 1);
}

#[test]
fn logic_operations() {
    let mut c = machine_with(&[
        0x60, 0x0C, 0x61, 0x0A, 0x82, 0x00, 0x82, 0x11, 0x83, 0x00, 0x83, 0x12, 0x84, 0x00,
        0x84, 0x13,
    ]);
    run(&mut c, 8);
    assert_eq!(c.register(2), 0x0E);
    assert_eq!(c.register(3), 0x08);
    assert_eq!(c.register(4), 0x06);
}

#[test]
fn draw_twice_clears_and_reports_collision() {
    let mut c = machine_with(&[0x60, 0x0A, 0x61, 0x04, 0xA0, 0x00, 0xD0, 0x15, 0xD0, 0x15]);
    run(&mut c, 4);
    assert_eq!(c.register(15), 0);
    assert_eq!(lit_pixels(&c), 14);
    assert!(c.get_screen()[10 + 64 * 4]);
    run(&mut c, 1);
    assert_eq!(c.register(15), 1);
    assert_eq!(lit_pixels(&c), 0);
}

#[test]
fn sprite_wraps_on_both_axes() {
    let mut c = machine_with(&[0x60, 0x3E, 0x61, 0x1F, 0xA0, 0x00, 0xD0, 0x12]);
    run(&mut c, 4);
    let screen = c.get_screen();
    assert!(screen[62 + 64 * 31]);
    assert!(screen[63 + 64 * 31]);
    assert!(screen[0 + 64 * 31]);
    assert!(screen[1 + 64 * 31]);
    assert!(screen[62]);
    assert!(!screen[63]);
    assert!(!screen[0]);
    assert!(screen[1]);
    assert_eq!(lit_pixels(&c), 6);
    assert_eq!(c.register(15), 0);
}

#[test]
fn clear_screen() {
    let mut c = machine_with(&[0xA0, 0x00, 0xD0, 0x05, 0x00, 0xE0]);
    run(&mut c, 2);
    assert!(lit_pixels(&c) > 0);
    run(&mut c, 1);
    assert_eq!(lit_pixels(&c), 0);
}

#[test]
fn bcd_of_202() {
    let mut c = machine_with(&[0x60, 0xCA, 0xA3, 0x00, 0xF0, 0x33]);
    run(&mut c, 3);
    assert_eq!(c.memory_at(0x300), 2);
    assert_eq!(c.memory_at(0x301), 0);
    assert_eq!(c.memory_at(0x302), 2);
}

#[test]
fn call_then_return() {
    let mut c = machine_with(&[0x22, 0x06, 0x00, 0x00, 0x00, 0x00, 0x00, 0xEE]);
    run(&mut c, 1);
    assert_eq!(c.pc(), 0x206);
    assert_eq!(c.stack_depth(), 1);
    run(&mut c, 1);
    assert_eq!(c.pc(), 0x202);
    assert_eq!(c.stack_depth(), 0);
}

#[test]
fn jumps() {
    let mut c = machine_with(&[0x13, 0x00]);
    run(&mut c, 1);
    assert_eq!(c.pc(), 0x300);
    let mut d = machine_with(&[0x60, 0x10, 0xB3, 0x00]);
    run(&mut d, 2);
    assert_eq!(d.pc(), 0x310);
}

#[test]
fn skips() {
    let mut c = machine_with(&[0x60, 0x05, 0x30, 0x05]);
    run(&mut c, 2);
    assert_eq!(c.pc(), 0x206);
    let mut c = machine_with(&[0x60, 0x05, 0x40, 0x05]);
    run(&mut c, 2);
    assert_eq!(c.pc(), 0x204);
    let mut c = machine_with(&[0x60, 0x05, 0x61, 0x05, 0x50, 0x10]);
    run(&mut c, 3);
    assert_eq!(c.pc(), 0x208);
    let mut c = machine_with(&[0x60, 0x05, 0x61, 0x05, 0x90, 0x10]);
    run(&mut c, 3);
    assert_eq!(c.pc(), 0x206);
}

#[test]
fn key_skips() {
    let mut c = machine_with(&[0x60, 0x07, 0xE0, 0x9E]);
    c.keypress(7, true);
    run(&mut c, 2);
    assert_eq!(c.pc(), 0x206);
    let mut c = machine_with(&[0x60, 0x07, 0xE0, 0xA1]);
    run(&mut c, 2);
    assert_eq!(c.pc(), 0x206);
    let mut c = machine_with(&[0x60, 0x07, 0xE0, 0xA1]);
    c.keypress(7, true);
    run(&mut c, 2);
    assert_eq!(c.pc(), 0x204);
}

#[test]
fn key_wait_holds_until_key_pressed() {
    let mut c = machine_with(&[0xF3, 0x0A]);
    for _ in 0..5 {
        assert_eq!(c.step(0), Ok(()));
        assert_eq!(c.pc(), 0x200);
    }
    c.keypress(9, true);
    run(&mut c, 1);
    assert_eq!(c.pc(), 0x202);
    assert_eq!(c.register(3), 1);
}

#[test]
fn timers_count_down_and_tone_fires_once() {
    let mut c = machine_with(&[0x60, 0x03, 0xF0, 0x18, 0xF0, 0x15]);
    run(&mut c, 3);
    assert_eq!(c.sound_timer(), 3);
    assert_eq!(c.delay_timer(), 3);
    assert!(!c.tick_timers());
    assert!(!c.tick_timers());
    assert!(c.tick_timers());
    assert_eq!(c.sound_timer(), 0);
    assert_eq!(c.delay_timer(), 0);
    assert!(!c.tick_timers());
    assert_eq!(c.sound_timer(), 0);
    assert_eq!(c.delay_timer(), 0);
}

#[test]
fn delay_timer_read_back() {
    let mut c = machine_with(&[0x60, 0x09, 0xF0, 0x15, 0xF1, 0x07]);
    run(&mut c, 2);
    c.tick_timers();
    run(&mut c, 1);
    assert_eq!(c.register(1), 8);
}

#[test]
fn index_register_operations() {
    let mut c = machine_with(&[0x60, 0x0B, 0xF0, 0x29]);
    run(&mut c, 2);
    assert_eq!(c.index_register(), 55);
    let mut c = machine_with(&[0x60, 0x02, 0xAF, 0xFF, 0xF0, 0x1E]);
    run(&mut c, 3);
    assert_eq!(c.index_register(), 0x1001);
}

#[test]
fn store_and_load_registers() {
    let mut c = machine_with(&[
        0x60, 0x01, 0x61, 0x02, 0x62, 0x03, 0xA4, 0x00, 0xF1, 0x55, 0x60, 0x00, 0x61, 0x00,
        0xF2, 0x65,
    ]);
    run(&mut c, 5);
    assert_eq!(c.memory_at(0x400), 1);
    assert_eq!(c.memory_at(0x401), 2);
    assert_eq!(c.memory_at(0x402), 0);
    run(&mut c, 3);
    assert_eq!(c.register(0), 1);
    assert_eq!(c.register(1), 2);
    assert_eq!(c.register(2), 0);
}

#[test]
fn random_byte_is_masked() {
    let mut c = machine_with(&[0xC0, 0xF0]);
    assert_eq!(c.step(0xAB), Ok(()));
    assert_eq!(c.register(0), 0xA0);
    let mut d = machine_with(&[0xC0, 0x00, 0xC1, 0x0F]);
    assert_eq!(d.tick(), Ok(()));
    assert_eq!(d.register(0), 0);
    assert_eq!(d.tick(), Ok(()));
    assert!(d.register(1) <= 0x0F);
}

#[test]
fn unknown_opcode_is_reported() {
    let mut c = machine_with(&[0xFF, 0xFF]);
    assert_eq!(c.step(0), Err(Fault::UnknownOpcode { opcode: 0xFFFF, pc: 0x200 }));
    assert_eq!(c.pc(), 0x200);
    let mut d = machine_with(&[0x01, 0x23]);
    assert_eq!(d.tick(), Err(Fault::UnknownOpcode { opcode: 0x0123, pc: 0x200 }));
    let mut e = machine_with(&[0x80, 0x08]);
    assert_eq!(e.step(0), Err(Fault::UnknownOpcode { opcode: 0x8008, pc: 0x200 }));
}

#[test]
fn stack_underflow_is_reported() {
    let mut c = machine_with(&[0x00, 0xEE]);
    assert_eq!(c.step(0), Err(Fault::StackUnderflow { pc: 0x200 }));
    assert_eq!(c.pc(), 0x200);
}

#[test]
fn stack_overflow_is_reported() {
    let mut c = machine_with(&[0x22, 0x00]);
    run(&mut c, 16);
    assert_eq!(c.stack_depth(), 16);
    assert_eq!(c.step(0), Err(Fault::StackOverflow { pc: 0x200 }));
    assert_eq!(c.stack_depth(), 16);
}

#[test]
fn memory_out_of_bounds_is_reported() {
    let mut c = machine_with(&[0xAF, 0xFF, 0xF0, 0x33]);
    run(&mut c, 1);
    assert_eq!(c.step(0), Err(Fault::MemoryOutOfBounds { pc: 0x202, addr: 0xFFF }));
    assert_eq!(c.pc(), 0x202);
    let mut d = machine_with(&[0x1F, 0xFF]);
    run(&mut d, 1);
    assert_eq!(d.step(0), Err(Fault::MemoryOutOfBounds { pc: 0xFFF, addr: 0xFFF }));
}

#[test]
fn key_out_of_range_is_reported() {
    let mut c = machine_with(&[0x60, 0x20, 0xE0, 0x9E]);
    run(&mut c, 1);
    assert_eq!(c.step(0), Err(Fault::KeyOutOfRange { pc: 0x202, key: 0x20 }));
}


#[test]
fn summary_names_counter_and_stack_pointer() {
    let mut c = machine_with(&[0x22, 0x06]);
    assert_eq!(c.summary(), "Chip8[program_counter: 512, stack_pointer: 0]");
    run(&mut c, 1);
    assert_eq!(c.summary(), "Chip8[program_counter: 518, stack_pointer: 1]");
}

#[test]
fn draw_of_no_rows_reads_no_memory() {
    let mut c = machine_with(&[0x6F, 0x01, 0x60, 0x01, 0xAF, 0xFF, 0xF0, 0x1E, 0xD1, 0x10]);
    run(&mut c, 4);
    assert_eq!(c.index_register(), 0x1000);
    assert_eq!(c.step(0), Ok(()));
    assert_eq!(c.register(15), 0);
    assert_eq!(lit_pixels(&c), 0);
    assert_eq!(c.pc(), 0x20A);
}

#[test]
fn draw_past_memory_is_reported() {
    let mut c = machine_with(&[0xAF, 0xFE, 0xD0, 0x13]);
    run(&mut c, 1);
    assert_eq!(c.step(0), Err(Fault::MemoryOutOfBounds { pc: 0x202, addr: 0xFFE }));
}
