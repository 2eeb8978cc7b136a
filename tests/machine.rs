use chip8::{Chip8, Chip8Error};

const FONT_ZERO: [u8; 5] = [0xF0, 0x90, 0x90, 0x90, 0xF0];

fn machine_with(program: &[u8]) -> Chip8 {
    let mut chip = Chip8::init();
    chip.load(program).unwrap();
    chip
}

fn run(chip: &mut Chip8, steps: usize) {
    for _ in 0..steps {
        chip.step_with(0).unwrap();
    }
}

fn pixel(chip: &Chip8, x: usize, y: usize) -> bool {
    chip.get_display()[x + 64 * y]
}

#[test]
fn init_state() {
    let chip = Chip8::init();
    assert_eq!(chip.pc(), 0x200);
    assert_eq!(chip.index_register(), 0);
    for x in 0..16 {
        assert_eq!(chip.register(x), 0);
        assert!(!chip.key(x));
    }
    assert_eq!(chip.memory(0), 0xF0);
    assert_eq!(chip.memory(79), 0x80);
    assert_eq!(chip.memory(80), 0);
    assert_eq!(chip.get_display().len(), 2048);
    assert!(chip.get_display().iter().all(|p| !*p));
}

#[test]
fn set_register_immediate() {
    let mut chip = machine_with(&[0x6A, 0x42, 0x6A, 0x00]);
    run(&mut chip, 1);
    assert_eq!(chip.register(0xA), 0x42);
    run(&mut chip, 1);
    assert_eq!(chip.register(0xA), 0x00);
}

#[test]
fn add_immediate_wraps_without_flag() {
    let mut chip = machine_with(&[0x6F, 0x07, 0x60, 0xFF, 0x70, 0x02]);
    run(&mut chip, 3);
    assert_eq!(chip.register(0), 1);
    assert_eq!(chip.register(0xF), 7);
}

#[test]
fn add_with_carry() {
    let mut chip = machine_with(&[0x60, 200, 0x61, 100, 0x80, 0x14]);
    run(&mut chip, 3);
    assert_eq!(chip.register(0), 44);
    assert_eq!(chip.register(0xF), 1);
    let mut chip = machine_with(&[0x60, 200, 0x61, 55, 0x80, 0x14]);
    run(&mut chip, 3);
    assert_eq!(chip.register(0), 255);
    assert_eq!(chip.register(0xF), 0);
}

#[test]
fn subtract_with_borrow() {
    let mut chip = machine_with(&[0x60, 3, 0x61, 5, 0x80, 0x15]);
    run(&mut chip, 3);
    assert_eq!(chip.register(0), 254);
    assert_eq!(chip.register(0xF), 0);
    let mut chip = machine_with(&[0x60, 5, 0x61, 5, 0x80, 0x15]);
    run(&mut chip, 3);
    assert_eq!(chip.register(0), 0);
    assert_eq!(chip.register(0xF), 1);
}

#[test]
fn reverse_subtract() {
    let mut chip = machine_with(&[0x60, 5, 0x61, 3, 0x80, 0x17]);
    run(&mut chip, 3);
    assert_eq!(chip.register(0), 254);
    assert_eq!(chip.register(0xF), 0);
}

#[test]
fn logic_and_shifts() {
    let mut chip = machine_with(&[
        0x60, 0b1100, 0x61, 0b1010, 0x82, 0x00, 0x82, 0x11, 0x83, 0x00, 0x83, 0x12, 0x84, 0x00,
        0x84, 0x13,
    ]);
    run(&mut chip, 8);
    assert_eq!(chip.register(2), 0b1110);
    assert_eq!(chip.register(3), 0b1000);
    assert_eq!(chip.register(4), 0b0110);
    let mut chip = machine_with(&[0x60, 0x81, 0x80, 0x06]);
    run(&mut chip, 2);
    assert_eq!(chip.register(0), 0x40);
    assert_eq!(chip.register(0xF), 1);
    let mut chip = machine_with(&[0x60, 0x81, 0x80, 0x0E]);
    run(&mut chip, 2);
    assert_eq!(chip.register(0), 0x02);
    assert_eq!(chip.register(0xF), 1);
}

#[test]
fn draw_twice_restores_display() {
    let mut chip = machine_with(&[0xA0, 0x00, 0x60, 10, 0x61, 5, 0xD0, 0x15, 0xD0, 0x15]);
    run(&mut chip, 4);
    assert_eq!(chip.register(0xF), 0);
    assert!(pixel(&chip, 10, 5));
    assert!(pixel(&chip, 13, 6));
    assert!(!pixel(&chip, 11, 6));
    run(&mut chip, 1);
    assert_eq!(chip.register(0xF), 1);
    assert!(chip.get_display().iter().all(|p| !*p));
}

#[test]
fn sprite_wraps_around_edges() {
    let mut chip = machine_with(&[0xA0, 0x00, 0x60, 63, 0x61, 31, 0xD0, 0x12]);
    run(&mut chip, 4);
    // row 0 of the glyph (0xF0) lands on row 31, columns 63, 0, 1, 2
    assert!(pixel(&chip, 63, 31));
    assert!(pixel(&chip, 0, 31));
    assert!(pixel(&chip, 2, 31));
    assert!(!pixel(&chip, 3, 31));
    // row 1 (0x90) wraps to row 0, columns 63 and 2
    assert!(pixel(&chip, 63, 0));
    assert!(pixel(&chip, 2, 0));
    assert!(!pixel(&chip, 0, 0));
    assert_eq!(chip.register(0xF), 0);
}

#[test]
fn bcd_of_255() {
    let mut chip = machine_with(&[0x60, 0xFF, 0xA3, 0x00, 0xF0, 0x33]);
    run(&mut chip, 3);
    assert_eq!(chip.memory(0x300), 2);
    assert_eq!(chip.memory(0x301), 5);
    assert_eq!(chip.memory(0x302), 5);
}

#[test]
fn bcd_of_zero() {
    let mut chip = machine_with(&[0x60, 0x00, 0xA0, 0x00, 0xF0, 0x33]);
    run(&mut chip, 3);
    assert_eq!(chip.memory(0), 0);
    assert_eq!(chip.memory(1), 0);
    assert_eq!(chip.memory(2), 0);
}

#[test]
fn bcd_of_137() {
    let mut chip = machine_with(&[0x65, 137, 0xA3, 0x00, 0xF5, 0x33]);
    run(&mut chip, 3);
    assert_eq!(chip.memory(0x300), 1);
    assert_eq!(chip.memory(0x301), 3);
    assert_eq!(chip.memory(0x302), 7);
}

#[test]
fn store_registers_inclusive() {
    let mut chip = machine_with(&[
        0x60, 1, 0x61, 2, 0x62, 3, 0x63, 4, 0x64, 5, 0xA3, 0x00, 0xF3, 0x55,
    ]);
    run(&mut chip, 7);
    assert_eq!(chip.memory(0x300), 1);
    assert_eq!(chip.memory(0x301), 2);
    assert_eq!(chip.memory(0x302), 3);
    assert_eq!(chip.memory(0x303), 4);
    assert_eq!(chip.memory(0x304), 0);
}

#[test]
fn load_registers_inclusive() {
    let mut chip = machine_with(&[0x64, 9, 0xA2, 0x08, 0xF3, 0x65, 0x00, 0x00, 11, 12, 13, 14, 15]);
    run(&mut chip, 3);
    assert_eq!(chip.register(0), 11);
    assert_eq!(chip.register(1), 12);
    assert_eq!(chip.register(2), 13);
    assert_eq!(chip.register(3), 14);
    assert_eq!(chip.register(4), 9);
}

#[test]
fn timers_stop_at_zero() {
    let mut chip = machine_with(&[0x60, 2, 0xF0, 0x15, 0x61, 1, 0xF1, 0x18, 0xF2, 0x07]);
    run(&mut chip, 5);
    assert_eq!(chip.delay_timer(), 2);
    assert_eq!(chip.sound_timer(), 1);
    assert_eq!(chip.register(2), 2);
    chip.clock_timers();
    assert_eq!(chip.delay_timer(), 1);
    assert_eq!(chip.sound_timer(), 0);
    chip.clock_timers();
    assert_eq!(chip.delay_timer(), 0);
    assert_eq!(chip.sound_timer(), 0);
    chip.clock_timers();
    assert_eq!(chip.delay_timer(), 0);
    assert_eq!(chip.sound_timer(), 0);
}

#[test]
fn reset_restores_initial_state() {
    let mut chip = machine_with(&[0x60, 7, 0xA3, 0x00, 0xF0, 0x15, 0xF0, 0x33, 0x22, 0x00]);
    chip.keypress(4, true).unwrap();
    run(&mut chip, 5);
    chip.reset();
    let fresh = Chip8::init();
    assert_eq!(chip.pc(), 0x200);
    assert_eq!(chip.index_register(), 0);
    assert_eq!(chip.delay_timer(), 0);
    assert_eq!(chip.sound_timer(), 0);
    for x in 0..16 {
        assert_eq!(chip.register(x), 0);
        assert!(!chip.key(x));
    }
    for a in 0..4096 {
        assert_eq!(chip.memory(a), fresh.memory(a));
    }
    assert!(chip.get_display().iter().all(|p| !*p));
    // the stack is empty again
    assert_eq!(chip.load(&[0x00, 0xEE]), Ok(()));
    assert_eq!(chip.step_with(0), Err(Chip8Error::StackUnderflow));
}

#[test]
fn add_program_scenario() {
    let mut chip = Chip8::init();
    chip.load(&[0x60, 0x05, 0x61, 0x03, 0x80, 0x14]).unwrap();
    for _ in 0..3 {
        chip.clock().unwrap();
    }
    assert_eq!(chip.register(0), 8);
    assert_eq!(chip.register(0xF), 0);
    assert_eq!(chip.pc(), 0x206);
}

#[test]
fn draw_program_scenario() {
    let program = [0xA2, 0x00, 0x60, 0x00, 0x61, 0x00, 0xD0, 0x15];
    let mut chip = Chip8::init();
    chip.load(&program).unwrap();
    for _ in 0..4 {
        chip.clock().unwrap();
    }
    assert_eq!(chip.register(0xF), 0);
    for row in 0..5 {
        for col in 0..8 {
            let bit = program[row] & (0x80 >> col) != 0;
            assert_eq!(pixel(&chip, col, row), bit);
        }
    }
}

#[test]
fn draw_font_glyph_zero() {
    let mut chip = machine_with(&[0x60, 0x00, 0xF0, 0x29, 0x61, 0x00, 0xD0, 0x15]);
    run(&mut chip, 4);
    assert_eq!(chip.index_register(), 0);
    assert_eq!(chip.register(0xF), 0);
    for row in 0..5 {
        for col in 0..8 {
            let bit = FONT_ZERO[row] & (0x80 >> col) != 0;
            assert_eq!(pixel(&chip, col, row), bit);
        }
    }
}

#[test]
fn font_address_and_index_add() {
    let mut chip = machine_with(&[0x60, 0x0F, 0xF0, 0x29, 0xF0, 0x1E]);
    run(&mut chip, 2);
    assert_eq!(chip.index_register(), 75);
    run(&mut chip, 1);
    assert_eq!(chip.index_register(), 90);
}

#[test]
fn clear_screen() {
    let mut chip = machine_with(&[0xA0, 0x00, 0xD0, 0x05, 0x00, 0xE0]);
    run(&mut chip, 2);
    assert!(chip.get_display().iter().any(|p| *p));
    run(&mut chip, 1);
    assert!(chip.get_display().iter().all(|p| !*p));
}

#[test]
fn jumps_calls_and_returns() {
    let mut chip = machine_with(&[0x22, 0x06, 0x00, 0x00, 0x00, 0x00, 0x00, 0xEE]);
    run(&mut chip, 1);
    assert_eq!(chip.pc(), 0x206);
    run(&mut chip, 1);
    assert_eq!(chip.pc(), 0x202);
    let mut chip = machine_with(&[0x13, 0x45]);
    run(&mut chip, 1);
    assert_eq!(chip.pc(), 0x345);
    let mut chip = machine_with(&[0x60, 0x10, 0xB3, 0x00]);
    run(&mut chip, 2);
    assert_eq!(chip.pc(), 0x310);
}

#[test]
fn conditional_skips() {
    let mut chip = machine_with(&[0x60, 5, 0x30, 5]);
    run(&mut chip, 2);
    assert_eq!(chip.pc(), 0x206);
    let mut chip = machine_with(&[0x60, 5, 0x40, 5]);
    run(&mut chip, 2);
    assert_eq!(chip.pc(), 0x204);
    let mut chip = machine_with(&[0x60, 5, 0x61, 5, 0x50, 0x10]);
    run(&mut chip, 3);
    assert_eq!(chip.pc(), 0x208);
    let mut chip = machine_with(&[0x60, 5, 0x61, 6, 0x90, 0x10]);
    run(&mut chip, 3);
    assert_eq!(chip.pc(), 0x208);
}

#[test]
fn key_skips() {
    let mut chip = machine_with(&[0x60, 7, 0xE0, 0x9E, 0x00, 0x00, 0xE0, 0xA1]);
    chip.keypress(7, true).unwrap();
    run(&mut chip, 2);
    assert_eq!(chip.pc(), 0x206);
    run(&mut chip, 1);
    assert_eq!(chip.pc(), 0x208);
}

#[test]
fn wait_for_key_polls() {
    let mut chip = machine_with(&[0xF3, 0x0A]);
    run(&mut chip, 1);
    assert_eq!(chip.pc(), 0x200);
    run(&mut chip, 1);
    assert_eq!(chip.pc(), 0x200);
    chip.keypress(9, true).unwrap();
    chip.keypress(5, true).unwrap();
    run(&mut chip, 1);
    assert_eq!(chip.pc(), 0x202);
    assert_eq!(chip.register(3), 5);
}

#[test]
fn random_is_masked() {
    let mut chip = machine_with(&[0xC0, 0x0F, 0xC1, 0x00]);
    chip.step_with(0xAB).unwrap();
    assert_eq!(chip.register(0), 0x0B);
    chip.clock().unwrap();
    assert_eq!(chip.register(1), 0);
}

#[test]
fn random_byte_with_clock_stays_in_mask() {
    let mut chip = machine_with(&[0xC0, 0x0F]);
    chip.clock().unwrap();
    assert!(chip.register(0) <= 0x0F);
    assert_eq!(chip.pc(), 0x202);
}

#[test]
fn unknown_opcodes_are_refused() {
    for op in [[0x01, 0x23], [0x50, 0x11], [0x80, 0x08], [0x90, 0x01], [0xE0, 0x00], [0xF0, 0x00]] {
        let mut chip = machine_with(&op);
        let code = (op[0] as u16) << 8 | op[1] as u16;
        assert_eq!(chip.step_with(0), Err(Chip8Error::UnknownOpcode(code)));
        assert_eq!(chip.pc(), 0x200);
    }
}

#[test]
fn stack_underflow() {
    let mut chip = machine_with(&[0x00, 0xEE]);
    assert_eq!(chip.step_with(0), Err(Chip8Error::StackUnderflow));
    assert_eq!(chip.pc(), 0x200);
}

#[test]
fn stack_overflow() {
    let mut chip = machine_with(&[0x22, 0x00]);
    run(&mut chip, 16);
    assert_eq!(chip.step_with(0), Err(Chip8Error::StackOverflow));
    assert_eq!(chip.pc(), 0x200);
}

#[test]
fn memory_out_of_range() {
    let mut chip = machine_with(&[0x1F, 0xFF]);
    run(&mut chip, 1);
    assert_eq!(chip.step_with(0), Err(Chip8Error::MemoryOutOfRange));
    assert_eq!(chip.pc(), 0xFFF);
    let mut chip = machine_with(&[0xAF, 0xFE, 0xF0, 0x33]);
    run(&mut chip, 1);
    assert_eq!(chip.step_with(0), Err(Chip8Error::MemoryOutOfRange));
    let mut chip = machine_with(&[0xAF, 0xFD, 0xF3, 0x55]);
    run(&mut chip, 1);
    assert_eq!(chip.step_with(0), Err(Chip8Error::MemoryOutOfRange));
    let mut chip = machine_with(&[0xAF, 0xFD, 0xD0, 0x04]);
    run(&mut chip, 1);
    assert_eq!(chip.step_with(0), Err(Chip8Error::MemoryOutOfRange));
    let mut chip = machine_with(&[0xAF, 0xFD, 0xD0, 0x03]);
    run(&mut chip, 2);
}

#[test]
fn invalid_keys() {
    let mut chip = Chip8::init();
    assert_eq!(chip.keypress(16, true), Err(Chip8Error::InvalidKey));
    assert_eq!(chip.keypress(15, true), Ok(()));
    assert!(chip.key(15));
    let mut chip = machine_with(&[0x60, 16, 0xE0, 0x9E]);
    run(&mut chip, 1);
    assert_eq!(chip.step_with(0), Err(Chip8Error::InvalidKey));
    assert_eq!(chip.pc(), 0x202);
}

#[test]
fn load_size_limit() {
    let mut chip = Chip8::init();
    let too_big = vec![1u8; 4096 - 0x200 + 1];
    assert_eq!(chip.load(&too_big), Err(Chip8Error::MemoryOutOfRange));
    assert_eq!(chip.memory(0x200), 0);
    let fits = vec![1u8; 4096 - 0x200];
    assert_eq!(chip.load(&fits), Ok(()));
    assert_eq!(chip.memory(0xFFF), 1);
    assert_eq!(chip.memory(0x1FF), 0);
    assert_eq!(chip.memory(0), 0xF0);
}

#[test]
fn empty_load_changes_nothing() {
    let mut chip = Chip8::init();
    assert_eq!(chip.load(&[]), Ok(()));
    assert_eq!(chip.memory(0x200), 0);
    assert_eq!(chip.pc(), 0x200);
}
