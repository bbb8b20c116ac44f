use chip8::{Chip8, Chip8Error, Keypad, Screen, StepTimer};

fn machine(rom: &[u8]) -> Chip8<Keypad, StepTimer> {
    machine_with(rom, Keypad::new(), StepTimer::new(0))
}

fn machine_with(rom: &[u8], keypad: Keypad, timer: StepTimer) -> Chip8<Keypad, StepTimer> {
    let mut c = Chip8::new(Screen::new_empty(), keypad, timer);
    c.init_memory(rom).unwrap();
    c
}

fn run(c: &mut Chip8<Keypad, StepTimer>, steps: usize) {
    for _ in 0..steps {
        c.step_execution().unwrap();
    }
}

#[test]
fn test_add_reg_carry() {
    // AddReg with Vx=0xFF, Vy=0x01 wraps to 0x00 and sets the carry flag.
    let mut c = machine(&[0x60, 0xFF, 0x61, 0x01, 0x80, 0x14]);
    run(&mut c, 3);
    assert_eq!(c.v_register(0), 0x00);
    assert_eq!(c.v_register(0xF), 1);

    let mut c2 = machine(&[0x60, 0x01, 0x61, 0x01, 0x80, 0x14]);
    run(&mut c2, 3);
    assert_eq!(c2.v_register(0), 0x02);
    assert_eq!(c2.v_register(0xF), 0);
}

#[test]
fn test_add_imm_carry() {
    let mut c = machine(&[0x60, 0xFF, 0x70, 0x01]);
    run(&mut c, 2);
    assert_eq!(c.v_register(0), 0x00);
    assert_eq!(c.v_register(0xF), 1);
}

#[test]
fn test_subtract_reg_borrow() {
    // SubtractReg reports NOT-borrow: 1 when the minuend is not less than
    // the subtrahend.
    let mut c = machine(&[0x60, 0x05, 0x61, 0x03, 0x80, 0x15]);
    run(&mut c, 3);
    assert_eq!(c.v_register(0), 0x02);
    assert_eq!(c.v_register(0xF), 1);

    let mut c2 = machine(&[0x60, 0x03, 0x61, 0x05, 0x80, 0x15]);
    run(&mut c2, 3);
    assert_eq!(c2.v_register(0), 0xFE);
    assert_eq!(c2.v_register(0xF), 0);
}

#[test]
fn test_subtract_reg_swapped() {
    let mut c = machine(&[0x60, 0x03, 0x61, 0x05, 0x80, 0x17]);
    run(&mut c, 3);
    assert_eq!(c.v_register(0), 0x02);
    assert_eq!(c.v_register(0xF), 1);

    let mut c2 = machine(&[0x60, 0x05, 0x61, 0x03, 0x80, 0x17]);
    run(&mut c2, 3);
    assert_eq!(c2.v_register(0), 0xFE);
    assert_eq!(c2.v_register(0xF), 0);
}

#[test]
fn test_shift_right_flag() {
    let mut c = machine(&[0x60, 0x03, 0x80, 0x06]);
    run(&mut c, 2);
    assert_eq!(c.v_register(0), 0b0000_0001);
    assert_eq!(c.v_register(0xF), 1);
}

#[test]
fn test_shift_left_flag() {
    let mut c = machine(&[0x60, 0x81, 0x80, 0x0E]);
    run(&mut c, 2);
    assert_eq!(c.v_register(0), 0b0000_0010);
    assert_eq!(c.v_register(0xF), 1);
}

#[test]
fn test_logic_ops() {
    let mut c = machine(&[0x60, 0x0C, 0x61, 0x0A, 0x80, 0x11]);
    run(&mut c, 3);
    assert_eq!(c.v_register(0), 0x0E);

    let mut c2 = machine(&[0x60, 0x0C, 0x61, 0x0A, 0x80, 0x12]);
    run(&mut c2, 3);
    assert_eq!(c2.v_register(0), 0x08);

    let mut c3 = machine(&[0x60, 0x0C, 0x61, 0x0A, 0x80, 0x13]);
    run(&mut c3, 3);
    assert_eq!(c3.v_register(0), 0x06);
}

#[test]
fn test_load_reg_reg() {
    let mut c = machine(&[0x61, 0x7A, 0x80, 0x10]);
    run(&mut c, 2);
    assert_eq!(c.v_register(0), 0x7A);
}

#[test]
fn test_registers_dump_load_round_trip() {
    // Dump V0..=V3 to memory at I, wipe them, reload: values reproduced.
    let mut c = machine(&[
        0x60, 0x01, 0x61, 0x02, 0x62, 0x03, 0x63, 0x04, // V0..V3
        0xA3, 0x00, // I = 0x300
        0xF3, 0x55, // dump V0..=V3
        0x60, 0x00, 0x61, 0x00, 0x62, 0x00, 0x63, 0x00, // wipe
        0xF3, 0x65, // reload V0..=V3
    ]);
    run(&mut c, 6);
    assert_eq!(c.memory_at(0x300), 1);
    assert_eq!(c.memory_at(0x301), 2);
    assert_eq!(c.memory_at(0x302), 3);
    assert_eq!(c.memory_at(0x303), 4);
    run(&mut c, 5);
    assert_eq!(c.v_register(0), 1);
    assert_eq!(c.v_register(1), 2);
    assert_eq!(c.v_register(2), 3);
    assert_eq!(c.v_register(3), 4);
}

#[test]
fn test_jump() {
    let mut c = machine(&[0x12, 0x34]);
    run(&mut c, 1);
    assert_eq!(c.program_counter(), 0x234);
}

#[test]
fn test_jump_v0() {
    let mut c = machine(&[0x60, 0x10, 0xB2, 0x00]);
    run(&mut c, 2);
    assert_eq!(c.program_counter(), 0x210);
}

#[test]
fn test_skip_if_equal_imm() {
    let mut c = machine(&[0x60, 0x05, 0x30, 0x05]);
    run(&mut c, 2);
    assert_eq!(c.program_counter(), 0x206);

    let mut c2 = machine(&[0x60, 0x05, 0x30, 0x06]);
    run(&mut c2, 2);
    assert_eq!(c2.program_counter(), 0x204);
}

#[test]
fn test_skip_if_not_equal_reg() {
    let mut c = machine(&[0x60, 0x05, 0x61, 0x05, 0x90, 0x10]);
    run(&mut c, 3);
    assert_eq!(c.program_counter(), 0x206);

    let mut c2 = machine(&[0x60, 0x05, 0x61, 0x06, 0x90, 0x10]);
    run(&mut c2, 3);
    assert_eq!(c2.program_counter(), 0x208);
}

#[test]
fn test_subroutine_call_and_return() {
    let mut c = machine(&[0x22, 0x04, 0x00, 0x00, 0x00, 0xEE]);
    run(&mut c, 1);
    assert_eq!(c.program_counter(), 0x204);
    assert_eq!(c.stack_depth(), 1);
    run(&mut c, 1);
    assert_eq!(c.program_counter(), 0x202);
    assert_eq!(c.stack_depth(), 0);
}

#[test]
fn test_stack_underflow_resets_pc() {
    // SubroutineReturn with an empty call stack falls back to the program
    // start.
    let mut c = machine(&[0x00, 0xEE]);
    assert_eq!(c.step_execution(), Ok(()));
    assert_eq!(c.program_counter(), 0x200);
    assert_eq!(c.stack_depth(), 0);
}

#[test]
fn test_rom_boundary() {
    // A ROM of exactly 4096 - 0x200 bytes is refused; one byte shorter
    // loads.
    let too_big = vec![0u8; 3584];
    let mut c = Chip8::new(Screen::new_empty(), Keypad::new(), StepTimer::new(0));
    assert_eq!(c.init_memory(&too_big), Err(Chip8Error::RomTooBig(3584)));

    let just_fits = vec![0u8; 3583];
    let mut c2 = Chip8::new(Screen::new_empty(), Keypad::new(), StepTimer::new(0));
    assert_eq!(c2.init_memory(&just_fits), Ok(()));
}

#[test]
fn test_font_loaded_at_zero() {
    let mut c = Chip8::new(Screen::new_empty(), Keypad::new(), StepTimer::new(0));
    c.init_memory(&[0xAB]).unwrap();
    assert_eq!(c.memory_at(0x000), 0xF0);
    assert_eq!(c.memory_at(0x04F), 0x80);
    assert_eq!(c.memory_at(0x200), 0xAB);
}

#[test]
fn test_invalid_instruction() {
    let mut c = machine(&[0x00, 0x00]);
    assert_eq!(c.step_execution(), Err(Chip8Error::InvalidInstruction(0x0000, 0x200)));
    // The program counter had already advanced past the bad opcode.
    assert_eq!(c.program_counter(), 0x202);
}

#[test]
fn test_timers_tick_and_saturate() {
    // Two 60 Hz intervals pass per step; the delay register is readable
    // after ticking.
    let mut c = machine_with(
        &[0x60, 0x30, 0xF0, 0x15, 0xF0, 0x07],
        Keypad::new(),
        StepTimer::new(2),
    );
    run(&mut c, 3);
    assert_eq!(c.delay_timer(), 0x2E);
    assert_eq!(c.v_register(0), 0x2E);

    // Saturation: a large tick count drives the registers to zero, never
    // below.
    let mut c2 = machine_with(
        &[0x60, 0x01, 0xF0, 0x15, 0xF0, 0x18, 0x61, 0x00],
        Keypad::new(),
        StepTimer::new(255),
    );
    run(&mut c2, 4);
    assert_eq!(c2.delay_timer(), 0);
    assert_eq!(c2.sound_timer(), 0);
}

#[test]
fn test_sound_timer_load() {
    let mut c = machine(&[0x60, 0x44, 0xF0, 0x18]);
    run(&mut c, 2);
    assert_eq!(c.sound_timer(), 0x44);
}

#[test]
fn test_wait_key_is_nonblocking_poll() {
    // With no key held, the program counter steps back onto the same
    // instruction; with a key held, the key lands in Vx.
    let mut c = machine(&[0xF0, 0x0A]);
    c.step_with_inputs(None, 0).unwrap();
    assert_eq!(c.program_counter(), 0x200);
    c.step_with_inputs(None, 0).unwrap();
    assert_eq!(c.program_counter(), 0x200);
    c.step_with_inputs(Some(7), 0).unwrap();
    assert_eq!(c.program_counter(), 0x202);
    assert_eq!(c.v_register(0), 7);
}

#[test]
fn test_skip_if_pressed() {
    let rom = [0x60, 0x04, 0xE0, 0x9E];
    let mut c = machine(&rom);
    c.step_with_inputs(None, 0).unwrap();
    c.step_with_inputs(Some(4), 0).unwrap();
    assert_eq!(c.program_counter(), 0x206);

    let mut c2 = machine(&rom);
    c2.step_with_inputs(None, 0).unwrap();
    c2.step_with_inputs(Some(5), 0).unwrap();
    assert_eq!(c2.program_counter(), 0x204);

    let mut c3 = machine(&rom);
    c3.step_with_inputs(None, 0).unwrap();
    c3.step_with_inputs(None, 0).unwrap();
    assert_eq!(c3.program_counter(), 0x204);
}

#[test]
fn test_skip_if_not_pressed() {
    let rom = [0x60, 0x04, 0xE0, 0xA1];
    let mut c = machine(&rom);
    c.step_with_inputs(None, 0).unwrap();
    c.step_with_inputs(Some(4), 0).unwrap();
    assert_eq!(c.program_counter(), 0x204);

    let mut c2 = machine(&rom);
    c2.step_with_inputs(None, 0).unwrap();
    c2.step_with_inputs(None, 0).unwrap();
    assert_eq!(c2.program_counter(), 0x206);
}

#[test]
fn test_step_execution_polls_keypad() {
    // A key held on the machine's own keypad drives the skip through
    // step_execution itself.
    let mut keypad = Keypad::new();
    keypad.press(4);
    let mut c = machine_with(&[0x60, 0x04, 0xE0, 0x9E], keypad, StepTimer::new(0));
    run(&mut c, 2);
    assert_eq!(c.program_counter(), 0x206);
}

#[test]
fn test_random_masks_and_is_reproducible() {
    let mut c = machine(&[0xC0, 0x0F]);
    run(&mut c, 1);
    assert!(c.v_register(0) <= 0x0F);

    // A fresh machine runs the same draw to the same value.
    let mut c2 = machine(&[0xC0, 0x0F]);
    run(&mut c2, 1);
    assert_eq!(c.v_register(0), c2.v_register(0));

    // A zero mask forces zero.
    let mut c3 = machine(&[0xC1, 0x00]);
    run(&mut c3, 1);
    assert_eq!(c3.v_register(1), 0);
}

#[test]
fn test_bcd_store() {
    let mut c = machine(&[0x60, 0xFE, 0xA3, 0x00, 0xF0, 0x33]);
    run(&mut c, 3);
    assert_eq!(c.memory_at(0x300), 2);
    assert_eq!(c.memory_at(0x301), 5);
    assert_eq!(c.memory_at(0x302), 4);
}

#[test]
fn test_add_address() {
    let mut c = machine(&[0x60, 0x05, 0xA1, 0x00, 0xF0, 0x1E]);
    run(&mut c, 3);
    assert_eq!(c.i_register(), 0x105);
}

#[test]
fn test_load_address_digit() {
    let mut c = machine(&[0x60, 0x0A, 0xF0, 0x29]);
    run(&mut c, 2);
    assert_eq!(c.i_register(), 50);
}

#[test]
fn test_load_reg_delay() {
    let mut c = machine(&[0x60, 0x21, 0xF0, 0x15, 0xF1, 0x07]);
    run(&mut c, 3);
    assert_eq!(c.v_register(1), 0x21);
}

#[test]
fn test_draw_sets_vf_on_erase() {
    // I points at the font glyph '0'; drawing it twice at the same spot
    // first lights pixels (VF=0), then erases them all (VF=1).
    let mut c = machine(&[0xA0, 0x00, 0xD0, 0x05, 0xD0, 0x05]);
    run(&mut c, 2);
    assert_eq!(c.v_register(0xF), 0);
    assert_eq!(c.screen_raw()[0], 0x0F);
    run(&mut c, 1);
    assert_eq!(c.v_register(0xF), 1);
    for row in c.screen_raw().iter() {
        assert_eq!(*row, 0);
    }
}

#[test]
fn test_clear_screen_instruction() {
    let mut c = machine(&[0xA0, 0x00, 0xD0, 0x05, 0x00, 0xE0]);
    run(&mut c, 3);
    for row in c.screen_raw().iter() {
        assert_eq!(*row, 0);
    }
}

#[test]
fn test_draw_reads_sprite_through_i() {
    // Sprite data embedded in the ROM at 0x206.
    let mut c = machine(&[0xA2, 0x06, 0xD1, 0x11, 0x00, 0x00, 0x80]);
    run(&mut c, 2);
    assert_eq!(c.screen_raw()[0], 0x01);
}
