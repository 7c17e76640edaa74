use chip8::cpu::{CPU, LoadError, StepError, StepOutcome};

fn boot(program: &[u8]) -> CPU {
    let mut cpu = CPU::new_with_flags(false, false);
    cpu.load_program(&program.to_vec()).unwrap();
    cpu
}

#[test]
fn new_initial_state() {
    let cpu = CPU::new_with_flags(true, true);
    assert_eq!(cpu.pc, 0x200);
    assert_eq!(cpu.i, 0);
    assert_eq!(cpu.sp, 0);
    assert_eq!(cpu.delay_timer, 0);
    assert_eq!(cpu.sound_timer, 0);
    assert!(cpu.debug);
    assert!(cpu.stop_on_missing_opcode);
    assert!(cpu.registers.iter().all(|&r| r == 0));
    assert!(cpu.keypad.iter().all(|&k| !k));
    assert!(cpu.stack.iter().all(|&s| s == 0));
    assert!(cpu.screen.iter().all(|&p| p == 0));
    // Font table occupies 0x50..0xA0; everything else is zero.
    assert_eq!(cpu.memory[0x50], 0xF0);
    assert_eq!(cpu.memory[0x51], 0x90);
    assert_eq!(cpu.memory[0x9F], 0x80);
    assert!(cpu.memory[..0x50].iter().all(|&b| b == 0));
    assert!(cpu.memory[0xA0..].iter().all(|&b| b == 0));
}

#[test]
fn load_program_writes_at_origin() {
    let cpu = boot(&[1, 2, 3]);
    assert_eq!(&cpu.memory[0x200..0x203], &[1, 2, 3]);
    assert_eq!(cpu.memory[0x203], 0);
}

#[test]
fn load_program_largest_size_accepted() {
    let mut cpu = CPU::new_with_flags(false, false);
    let image = vec![0xAB; 4096 - 0x200];
    assert_eq!(cpu.load_program(&image), Ok(()));
    assert_eq!(cpu.memory[0x200], 0xAB);
    assert_eq!(cpu.memory[4095], 0xAB);
}

#[test]
fn load_program_too_large_rejected() {
    let mut cpu = CPU::new_with_flags(false, false);
    let image = vec![0xAB; 4096 - 0x200 + 1];
    assert_eq!(cpu.load_program(&image), Err(LoadError::ProgramTooLarge));
    // Nothing below the origin (or anywhere) was corrupted.
    assert_eq!(cpu.memory[0x50], 0xF0);
    assert!(cpu.memory[..0x50].iter().all(|&b| b == 0));
    assert!(cpu.memory[0x200..].iter().all(|&b| b == 0));
}

#[test]
fn two_instruction_program_loads_and_adds() {
    // Load 5 into V0, then add 10 to V0.
    let mut cpu = boot(&[0x60, 0x05, 0x70, 0x0A]);
    assert_eq!(cpu.run_one_cycle(), Ok(StepOutcome::Executed));
    assert_eq!(cpu.run_one_cycle(), Ok(StepOutcome::Executed));
    assert_eq!(cpu.registers[0], 15);
    assert_eq!(cpu.pc, 0x204);
}

#[test]
fn add_imm_wraps_without_flag() {
    let mut cpu = boot(&[0x70, 0xFF]);
    cpu.registers[0] = 2;
    cpu.registers[15] = 0x55;
    cpu.run_one_cycle().unwrap();
    assert_eq!(cpu.registers[0], 1);
    assert_eq!(cpu.registers[15], 0x55);
}

#[test]
fn add_with_carry_sets_flag() {
    let mut cpu = boot(&[0x80, 0x14]);
    cpu.registers[0] = 200;
    cpu.registers[1] = 100;
    cpu.run_one_cycle().unwrap();
    assert_eq!(cpu.registers[0], 44);
    assert_eq!(cpu.registers[15], 1);
}

#[test]
fn add_without_carry_clears_flag() {
    let mut cpu = boot(&[0x80, 0x14]);
    cpu.registers[0] = 5;
    cpu.registers[1] = 10;
    cpu.registers[15] = 1;
    cpu.run_one_cycle().unwrap();
    assert_eq!(cpu.registers[0], 15);
    assert_eq!(cpu.registers[15], 0);
}

#[test]
fn sub_no_borrow_sets_flag() {
    let mut cpu = boot(&[0x80, 0x15]);
    cpu.registers[0] = 10;
    cpu.registers[1] = 5;
    cpu.run_one_cycle().unwrap();
    assert_eq!(cpu.registers[0], 5);
    assert_eq!(cpu.registers[15], 1);
}

#[test]
fn sub_with_borrow_wraps_and_clears_flag() {
    let mut cpu = boot(&[0x80, 0x15]);
    cpu.registers[0] = 5;
    cpu.registers[1] = 10;
    cpu.run_one_cycle().unwrap();
    assert_eq!(cpu.registers[0], 251);
    assert_eq!(cpu.registers[15], 0);
}

#[test]
fn sub_reverse_no_borrow_sets_flag() {
    let mut cpu = boot(&[0x80, 0x17]);
    cpu.registers[0] = 5;
    cpu.registers[1] = 10;
    cpu.run_one_cycle().unwrap();
    assert_eq!(cpu.registers[0], 5);
    assert_eq!(cpu.registers[15], 1);
}

#[test]
fn sub_reverse_equal_operands_sets_flag() {
    // Equal operands: no borrow occurs, so the flag is set.
    let mut cpu = boot(&[0x80, 0x17]);
    cpu.registers[0] = 7;
    cpu.registers[1] = 7;
    cpu.run_one_cycle().unwrap();
    assert_eq!(cpu.registers[0], 0);
    assert_eq!(cpu.registers[15], 1);
}

#[test]
fn sub_reverse_with_borrow_wraps_and_clears_flag() {
    let mut cpu = boot(&[0x80, 0x17]);
    cpu.registers[0] = 10;
    cpu.registers[1] = 5;
    cpu.run_one_cycle().unwrap();
    assert_eq!(cpu.registers[0], 251);
    assert_eq!(cpu.registers[15], 0);
}

#[test]
fn alu_assign_or_and_xor() {
    let mut cpu = boot(&[0x80, 0x10, 0x82, 0x31, 0x84, 0x52, 0x86, 0x73]);
    cpu.registers[1] = 0x42;
    cpu.registers[2] = 0xF0;
    cpu.registers[3] = 0x0F;
    cpu.registers[4] = 0xCC;
    cpu.registers[5] = 0xAA;
    cpu.registers[6] = 0xCC;
    cpu.registers[7] = 0xAA;
    cpu.run_one_cycle().unwrap();
    cpu.run_one_cycle().unwrap();
    cpu.run_one_cycle().unwrap();
    cpu.run_one_cycle().unwrap();
    assert_eq!(cpu.registers[0], 0x42);
    assert_eq!(cpu.registers[2], 0xFF);
    assert_eq!(cpu.registers[4], 0x88);
    assert_eq!(cpu.registers[6], 0x66);
}

#[test]
fn shift_right_reports_low_bit() {
    let mut cpu = boot(&[0x80, 0x16]);
    cpu.registers[0] = 5;
    cpu.run_one_cycle().unwrap();
    assert_eq!(cpu.registers[0], 2);
    assert_eq!(cpu.registers[15], 1);
}

#[test]
fn shift_left_reports_high_bit() {
    let mut cpu = boot(&[0x80, 0x1E]);
    cpu.registers[0] = 0x81;
    cpu.run_one_cycle().unwrap();
    assert_eq!(cpu.registers[0], 0x02);
    assert_eq!(cpu.registers[15], 1);
}

#[test]
fn clear_screen_zeroes_every_pixel() {
    let mut cpu = boot(&[0x00, 0xE0]);
    for p in (0..2048).step_by(3) {
        cpu.screen[p] = 1;
    }
    assert_eq!(cpu.run_one_cycle(), Ok(StepOutcome::Executed));
    assert!(cpu.screen.iter().all(|&p| p == 0));
    assert_eq!(cpu.pc, 0x202);
}

#[test]
fn draw_wraps_around_right_edge() {
    let mut cpu = boot(&[0xD0, 0x11]);
    cpu.registers[0] = 60;
    cpu.registers[1] = 0;
    cpu.i = 0x300;
    cpu.memory[0x300] = 0xFF;
    cpu.run_one_cycle().unwrap();
    // Columns 60..=63 and 0..=3 of row 0 are lit, nothing else.
    for x in 0..64 {
        let expect = (60..64).contains(&x) || x < 4;
        assert_eq!(cpu.screen[x] == 1, expect, "column {x}");
    }
    assert!(cpu.screen[64..].iter().all(|&p| p == 0));
    assert_eq!(cpu.registers[15], 0);
}

#[test]
fn draw_wraps_around_bottom_edge() {
    let mut cpu = boot(&[0xD0, 0x12]);
    cpu.registers[0] = 0;
    cpu.registers[1] = 31;
    cpu.i = 0x300;
    cpu.memory[0x300] = 0x80;
    cpu.memory[0x301] = 0x80;
    cpu.run_one_cycle().unwrap();
    assert_eq!(cpu.screen[31 * 64], 1);
    assert_eq!(cpu.screen[0], 1);
    assert_eq!(cpu.screen.iter().map(|&p| p as u32).sum::<u32>(), 2);
}

#[test]
fn draw_twice_restores_screen_and_reports_collision() {
    let mut cpu = boot(&[0xD0, 0x12, 0xD0, 0x12]);
    cpu.registers[0] = 10;
    cpu.registers[1] = 5;
    cpu.i = 0x300;
    cpu.memory[0x300] = 0xA5;
    cpu.memory[0x301] = 0x5A;
    cpu.run_one_cycle().unwrap();
    assert_eq!(cpu.registers[15], 0);
    assert_eq!(cpu.screen.iter().map(|&p| p as u32).sum::<u32>(), 8);
    cpu.run_one_cycle().unwrap();
    assert_eq!(cpu.registers[15], 1);
    assert!(cpu.screen.iter().all(|&p| p == 0));
}

#[test]
fn draw_collision_only_on_overlap() {
    let mut cpu = boot(&[0xD0, 0x11]);
    cpu.registers[0] = 0;
    cpu.registers[1] = 0;
    cpu.i = 0x300;
    cpu.memory[0x300] = 0x0F;
    cpu.screen[0] = 1;  // lit pixel the sprite's clear bits pass over
    cpu.run_one_cycle().unwrap();
    assert_eq!(cpu.registers[15], 0);
    assert_eq!(cpu.screen[0], 1);
}

#[test]
fn call_then_return_restores_pc() {
    let mut cpu = boot(&[0x2A, 0xBC]);
    cpu.memory[0xABC] = 0x00;
    cpu.memory[0xABD] = 0xEE;
    cpu.run_one_cycle().unwrap();
    assert_eq!(cpu.pc, 0xABC);
    assert_eq!(cpu.sp, 1);
    assert_eq!(cpu.stack[0], 0x202);
    cpu.run_one_cycle().unwrap();
    assert_eq!(cpu.pc, 0x202);
    assert_eq!(cpu.sp, 0);
}

#[test]
fn jump_sets_pc_to_low_12_bits() {
    let mut cpu = boot(&[0x13, 0x45]);
    cpu.run_one_cycle().unwrap();
    assert_eq!(cpu.pc, 0x345);
}

#[test]
fn skip_if_equal_immediate() {
    let mut cpu = boot(&[0x30, 0x05]);
    cpu.registers[0] = 5;
    cpu.run_one_cycle().unwrap();
    assert_eq!(cpu.pc, 0x204);
    let mut cpu = boot(&[0x30, 0x05]);
    cpu.registers[0] = 4;
    cpu.run_one_cycle().unwrap();
    assert_eq!(cpu.pc, 0x202);
}

#[test]
fn skip_if_not_equal_immediate() {
    let mut cpu = boot(&[0x40, 0x05]);
    cpu.registers[0] = 4;
    cpu.run_one_cycle().unwrap();
    assert_eq!(cpu.pc, 0x204);
    let mut cpu = boot(&[0x40, 0x05]);
    cpu.registers[0] = 5;
    cpu.run_one_cycle().unwrap();
    assert_eq!(cpu.pc, 0x202);
}

#[test]
fn skip_if_registers_equal() {
    let mut cpu = boot(&[0x50, 0x10]);
    cpu.registers[0] = 9;
    cpu.registers[1] = 9;
    cpu.run_one_cycle().unwrap();
    assert_eq!(cpu.pc, 0x204);
    let mut cpu = boot(&[0x50, 0x10]);
    cpu.registers[0] = 9;
    cpu.registers[1] = 8;
    cpu.run_one_cycle().unwrap();
    assert_eq!(cpu.pc, 0x202);
}

#[test]
fn set_index_register() {
    let mut cpu = boot(&[0xA1, 0x23]);
    cpu.run_one_cycle().unwrap();
    assert_eq!(cpu.i, 0x123);
}

#[test]
fn random_with_zero_mask_is_zero() {
    let mut cpu = boot(&[0xC0, 0x00]);
    cpu.registers[0] = 0x77;
    cpu.run_one_cycle().unwrap();
    assert_eq!(cpu.registers[0], 0);
}

#[test]
fn random_respects_mask() {
    for _ in 0..32 {
        let mut cpu = boot(&[0xC0, 0x0F]);
        cpu.run_one_cycle().unwrap();
        assert!(cpu.registers[0] < 16);
    }
}

#[test]
fn skip_if_key_down() {
    let mut cpu = boot(&[0xE0, 0x9E]);
    cpu.registers[0] = 3;
    cpu.keypad[3] = true;
    cpu.run_one_cycle().unwrap();
    assert_eq!(cpu.pc, 0x204);
    let mut cpu = boot(&[0xE0, 0x9E]);
    cpu.registers[0] = 3;
    cpu.run_one_cycle().unwrap();
    assert_eq!(cpu.pc, 0x202);
}

#[test]
fn skip_if_key_up() {
    let mut cpu = boot(&[0xE0, 0xA1]);
    cpu.registers[0] = 3;
    cpu.run_one_cycle().unwrap();
    assert_eq!(cpu.pc, 0x204);
    let mut cpu = boot(&[0xE0, 0xA1]);
    cpu.registers[0] = 3;
    cpu.keypad[3] = true;
    cpu.run_one_cycle().unwrap();
    assert_eq!(cpu.pc, 0x202);
}

#[test]
fn key_test_out_of_range_is_rejected() {
    let mut cpu = boot(&[0xE0, 0x9E]);
    cpu.registers[0] = 16;
    assert_eq!(cpu.run_one_cycle(), Err(StepError::KeyOutOfRange));
    assert_eq!(cpu.pc, 0x200);
}

#[test]
fn wait_key_spins_until_pressed() {
    let mut cpu = boot(&[0xF0, 0x0A]);
    assert_eq!(cpu.run_one_cycle(), Ok(StepOutcome::Executed));
    assert_eq!(cpu.pc, 0x200);
    assert_eq!(cpu.run_one_cycle(), Ok(StepOutcome::Executed));
    assert_eq!(cpu.pc, 0x200);
    cpu.keypad[7] = true;
    cpu.run_one_cycle().unwrap();
    assert_eq!(cpu.pc, 0x202);
    assert_eq!(cpu.registers[0], 7);
}

#[test]
fn wait_key_reports_lowest_pressed() {
    let mut cpu = boot(&[0xF0, 0x0A]);
    cpu.keypad[9] = true;
    cpu.keypad[3] = true;
    cpu.run_one_cycle().unwrap();
    assert_eq!(cpu.registers[0], 3);
}

#[test]
fn timers_decrement_toward_zero_and_stop() {
    let mut cpu = CPU::new_with_flags(false, false);
    cpu.delay_timer = 2;
    cpu.sound_timer = 1;
    assert!(cpu.update_timers());
    assert_eq!(cpu.delay_timer, 1);
    assert_eq!(cpu.sound_timer, 0);
    assert!(!cpu.update_timers());
    assert_eq!(cpu.delay_timer, 0);
    assert_eq!(cpu.sound_timer, 0);
    // A full-speed sequence never wraps a timer below zero.
    for _ in 0..100 {
        cpu.update_timers();
        assert_eq!(cpu.delay_timer, 0);
        assert_eq!(cpu.sound_timer, 0);
    }
}

#[test]
fn read_and_write_timers() {
    let mut cpu = boot(&[0xF0, 0x15, 0xF1, 0x18, 0xF2, 0x07]);
    cpu.registers[0] = 42;
    cpu.registers[1] = 17;
    cpu.run_one_cycle().unwrap();
    assert_eq!(cpu.delay_timer, 42);
    cpu.run_one_cycle().unwrap();
    assert_eq!(cpu.sound_timer, 17);
    cpu.run_one_cycle().unwrap();
    assert_eq!(cpu.registers[2], 42);
}

#[test]
fn add_index_wraps_16_bits() {
    let mut cpu = boot(&[0xF0, 0x1E]);
    cpu.i = 0xFFFF;
    cpu.registers[0] = 2;
    cpu.run_one_cycle().unwrap();
    assert_eq!(cpu.i, 1);
}

#[test]
fn font_address_uses_low_nibble() {
    let mut cpu = boot(&[0xF0, 0x29]);
    cpu.registers[0] = 0xAB;
    cpu.run_one_cycle().unwrap();
    assert_eq!(cpu.i, 0x50 + 5 * 0xB);
}

#[test]
fn bcd_writes_three_digits() {
    let mut cpu = boot(&[0xF0, 0x33]);
    cpu.registers[0] = 234;
    cpu.i = 0x300;
    cpu.run_one_cycle().unwrap();
    assert_eq!(cpu.memory[0x300], 2);
    assert_eq!(cpu.memory[0x301], 3);
    assert_eq!(cpu.memory[0x302], 4);
}

#[test]
fn store_and_load_registers() {
    let mut cpu = boot(&[0xF2, 0x55]);
    cpu.registers[0] = 11;
    cpu.registers[1] = 22;
    cpu.registers[2] = 33;
    cpu.registers[3] = 44;
    cpu.i = 0x400;
    cpu.run_one_cycle().unwrap();
    assert_eq!(&cpu.memory[0x400..0x403], &[11, 22, 33]);
    assert_eq!(cpu.memory[0x403], 0);

    let mut cpu = boot(&[0xF2, 0x65]);
    cpu.memory[0x400] = 7;
    cpu.memory[0x401] = 8;
    cpu.memory[0x402] = 9;
    cpu.registers[3] = 99;
    cpu.i = 0x400;
    cpu.run_one_cycle().unwrap();
    assert_eq!(&cpu.registers[0..3], &[7, 8, 9]);
    assert_eq!(cpu.registers[3], 99);
}

#[test]
fn unknown_opcode_is_noop_when_not_strict() {
    let mut cpu = boot(&[0x9A, 0xBC]);
    assert_eq!(
        cpu.run_one_cycle(),
        Ok(StepOutcome::UnknownOpcodeIgnored(0x9ABC))
    );
    assert_eq!(cpu.pc, 0x202);
}

#[test]
fn unknown_opcode_is_fatal_when_strict() {
    let mut cpu = CPU::new_with_flags(false, true);
    cpu.load_program(&vec![0x9A, 0xBC]).unwrap();
    assert_eq!(cpu.run_one_cycle(), Err(StepError::UnknownOpcode(0x9ABC)));
    assert_eq!(cpu.pc, 0x200);
}

#[test]
fn return_with_empty_stack_is_rejected() {
    let mut cpu = boot(&[0x00, 0xEE]);
    assert_eq!(cpu.run_one_cycle(), Err(StepError::StackUnderflow));
    assert_eq!(cpu.pc, 0x200);
    assert_eq!(cpu.sp, 0);
}

#[test]
fn call_with_full_stack_is_rejected() {
    let mut cpu = boot(&[0x2A, 0xBC]);
    cpu.sp = 16;
    assert_eq!(cpu.run_one_cycle(), Err(StepError::StackOverflow));
    assert_eq!(cpu.pc, 0x200);
    assert_eq!(cpu.sp, 16);
}

#[test]
fn pc_at_top_of_memory_is_rejected() {
    let mut cpu = CPU::new_with_flags(false, false);
    cpu.pc = 4095;
    assert_eq!(cpu.run_one_cycle(), Err(StepError::ProgramCounterOutOfRange));
    assert_eq!(cpu.pc, 4095);
}

#[test]
fn draw_past_end_of_memory_is_rejected() {
    let mut cpu = boot(&[0xD0, 0x1F]);
    cpu.i = 4090;
    assert_eq!(cpu.run_one_cycle(), Err(StepError::MemoryOutOfRange));
    assert_eq!(cpu.pc, 0x200);
}

#[test]
fn bcd_past_end_of_memory_is_rejected() {
    let mut cpu = boot(&[0xF0, 0x33]);
    cpu.i = 4094;
    assert_eq!(cpu.run_one_cycle(), Err(StepError::MemoryOutOfRange));
    assert_eq!(cpu.pc, 0x200);
}

#[test]
fn store_registers_past_end_of_memory_is_rejected() {
    let mut cpu = boot(&[0xF2, 0x55]);
    cpu.i = 4094;
    assert_eq!(cpu.run_one_cycle(), Err(StepError::MemoryOutOfRange));
    assert_eq!(cpu.pc, 0x200);
}
