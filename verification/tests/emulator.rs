use std::convert::TryFrom;

use chip8::emulator::emulator::{Emulator, EmulatorError, DISPLAY_HEIGHT, DISPLAY_WIDTH, STACK_SIZE};
use chip8::emulator::instructions::Instruction;
use chip8::emulator::memory::{MemoryError, HEX_SPRITES};
use chip8::emulator::registers::RegisterError;
use chip8::input::program::ProgramError;

fn ready() -> Emulator {
    let mut emulator = Emulator::default();
    emulator.reset();
    emulator
}

fn run(emulator: &mut Emulator, instructions: &[Instruction]) {
    for instruction in instructions {
        assert_eq!(emulator.interpret(instruction), Ok(()));
    }
}

fn reg(emulator: &Emulator, addr: u8) -> u8 {
    emulator.registers().get(addr).unwrap()
}

fn mem(emulator: &Emulator, start: u16, length: usize) -> Vec<u8> {
    emulator.memory().get_range(start, length).unwrap().to_vec()
}

fn lit(emulator: &Emulator) -> Vec<(usize, usize)> {
    let mut pixels = Vec::new();
    for (y, row) in emulator.display().pixel_map.iter().enumerate() {
        for (x, on) in row.iter().enumerate() {
            if *on {
                pixels.push((x, y));
            }
        }
    }
    pixels
}

#[test]
fn new_machine_is_in_the_power_on_state() {
    let emulator = Emulator::default();
    assert_eq!(emulator.pc(), 0);
    assert_eq!(emulator.i(), 0);
    assert_eq!(emulator.sp(), 0);
    assert_eq!(emulator.stack(), &[0u16; 16]);
    assert_eq!(emulator.stack().len(), STACK_SIZE);
    assert_eq!(emulator.registers().as_bytes(), &[0u8; 16][..]);
    assert_eq!(emulator.delay(), 0);
    assert_eq!(emulator.sound(), 0);
    assert_eq!(emulator.display().width, DISPLAY_WIDTH);
    assert_eq!(emulator.display().height, DISPLAY_HEIGHT);
    assert_eq!(emulator.display().pixel_map.len(), 32);
    assert!(emulator.display().pixel_map.iter().all(|row| row.len() == 64));
    assert!(lit(&emulator).is_empty());
    assert_eq!(mem(&emulator, 0, 80), HEX_SPRITES.to_vec());
    assert!(mem(&emulator, 80, 4016).iter().all(|b| *b == 0));
}

#[test]
fn reset_brings_the_machine_to_the_start_of_the_program_area() {
    let mut emulator = ready();
    run(
        &mut emulator,
        &[
            Instruction::LD(0, 3),
            Instruction::LD(1, 0xFF),
            Instruction::LDI(0x300),
            Instruction::LDIV,
            Instruction::CALL(0x400),
            Instruction::LDDV(1),
            Instruction::LDS(1),
            Instruction::LDI(0),
            Instruction::DRW(0, 0, 5),
        ],
    );
    assert!(!lit(&emulator).is_empty());
    emulator.reset();
    assert_eq!(emulator.pc(), 0x200);
    assert_eq!(emulator.i(), 0);
    assert_eq!(emulator.sp(), 0);
    assert_eq!(emulator.stack(), &[0u16; 16]);
    assert_eq!(emulator.registers().as_bytes(), &[0u8; 16][..]);
    assert_eq!(emulator.delay(), 0);
    assert_eq!(emulator.sound(), 0);
    assert!(lit(&emulator).is_empty());
    assert_eq!(emulator.display().width, 64);
    assert_eq!(emulator.display().height, 32);
    assert_eq!(mem(&emulator, 0, 80), HEX_SPRITES.to_vec());
    assert!(mem(&emulator, 0x200, 3584).iter().all(|b| *b == 0));
}

#[test]
fn load_program_round_trips_and_leaves_the_font_alone() {
    let mut emulator = Emulator::default();
    let program: Vec<u8> = (0..1000u32).map(|k| (k * 7 % 256) as u8).collect();
    assert_eq!(emulator.load_program(&program), Ok(()));
    assert_eq!(emulator.pc(), 0x200);
    assert_eq!(mem(&emulator, 0x200, program.len()), program);
    assert!(mem(&emulator, 0x200 + 1000, 3584 - 1000).iter().all(|b| *b == 0));
    assert_eq!(mem(&emulator, 0, 80), HEX_SPRITES.to_vec());
}

#[test]
fn load_program_clears_what_an_earlier_program_left() {
    let mut emulator = Emulator::default();
    emulator.load_program(&[0xFF; 64]).unwrap();
    emulator.load_program(&[0x11; 4]).unwrap();
    assert_eq!(mem(&emulator, 0x200, 6), vec![0x11, 0x11, 0x11, 0x11, 0, 0]);
}

#[test]
fn load_program_accepts_a_program_that_fills_the_program_area() {
    let mut emulator = Emulator::default();
    let program: Vec<u8> = (0..3584u32).map(|k| (k % 253) as u8).collect();
    assert_eq!(emulator.load_program(&program), Ok(()));
    assert_eq!(mem(&emulator, 0x200, 3584), program);
    assert_eq!(mem(&emulator, 0, 80), HEX_SPRITES.to_vec());
}

#[test]
fn load_program_accepts_the_empty_program() {
    let mut emulator = Emulator::default();
    assert_eq!(emulator.load_program(&[]), Ok(()));
    assert_eq!(emulator.pc(), 0x200);
    assert!(mem(&emulator, 0x200, 3584).iter().all(|b| *b == 0));
}

#[test]
fn load_program_rejects_an_oversized_program_before_anything_changes() {
    let mut emulator = ready();
    emulator.load_program(&[0xAB; 16]).unwrap();
    run(
        &mut emulator,
        &[Instruction::LD(4, 44), Instruction::JP(0x280), Instruction::LDI(0x123)],
    );
    let memory_before = mem(&emulator, 0, 4096);
    assert_eq!(
        emulator.load_program(&[0u8; 3585]),
        Err(EmulatorError::Program(ProgramError::SpaceExceeded(3585)))
    );
    assert_eq!(emulator.pc(), 0x280);
    assert_eq!(emulator.i(), 0x123);
    assert_eq!(reg(&emulator, 4), 44);
    assert_eq!(mem(&emulator, 0, 4096), memory_before);
}

#[test]
fn clear_display_zeroes_every_pixel() {
    let mut emulator = ready();
    run(&mut emulator, &[Instruction::LDI(0), Instruction::DRW(0, 0, 15)]);
    assert!(!lit(&emulator).is_empty());
    let word = Instruction::try_from(0x00E0u16).unwrap();
    assert_eq!(word, Instruction::CLS);
    assert_eq!(emulator.interpret(&word), Ok(()));
    assert!(lit(&emulator).is_empty());
    assert_eq!(emulator.display().pixel_map.len(), 32);
    assert!(emulator.display().pixel_map.iter().all(|row| row.len() == 64));
}

#[test]
fn load_index_then_draw_blits_the_glyph_at_the_index() {
    let mut emulator = Emulator::default();
    let mut program = vec![0u8; 0xF5];
    program[0xF0..0xF5].copy_from_slice(&[0xF0, 0x10, 0xF0, 0x80, 0xF0]);
    emulator.load_program(&program).unwrap();
    let load = Instruction::try_from(0xA2F0u16).unwrap();
    assert_eq!(load, Instruction::LDI(0x2F0));
    assert_eq!(emulator.interpret(&load), Ok(()));
    assert_eq!(emulator.i(), 0x2F0);
    let draw = Instruction::try_from(0xD005u16).unwrap();
    assert_eq!(draw, Instruction::DRW(0, 0, 5));
    assert_eq!(emulator.interpret(&draw), Ok(()));
    let expected = vec![
        (0, 0), (1, 0), (2, 0), (3, 0),
        (3, 1),
        (0, 2), (1, 2), (2, 2), (3, 2),
        (0, 3),
        (0, 4), (1, 4), (2, 4), (3, 4),
    ];
    assert_eq!(lit(&emulator), expected);
    assert_eq!(reg(&emulator, 0xF), 0);
}

#[test]
fn draw_reports_collision_in_the_flag_register() {
    let mut emulator = ready();
    run(
        &mut emulator,
        &[
            Instruction::LD(1, 10),
            Instruction::LD(2, 20),
            Instruction::LDI(5),
            Instruction::DRW(1, 2, 5),
        ],
    );
    assert_eq!(reg(&emulator, 0xF), 0);
    assert_eq!(lit(&emulator).len(), 1 + 2 + 1 + 1 + 3);
    run(&mut emulator, &[Instruction::DRW(1, 2, 5)]);
    assert_eq!(reg(&emulator, 0xF), 1);
    assert!(lit(&emulator).is_empty());
    run(&mut emulator, &[Instruction::DRW(1, 2, 5)]);
    assert_eq!(reg(&emulator, 0xF), 0);
}

#[test]
fn draw_wraps_around_the_edges_of_the_display() {
    let mut emulator = ready();
    run(
        &mut emulator,
        &[
            Instruction::LD(0, 63),
            Instruction::LD(1, 31),
            Instruction::LDI(0),
            Instruction::DRW(0, 1, 2),
        ],
    );
    assert_eq!(
        lit(&emulator),
        vec![(2, 0), (63, 0), (0, 31), (1, 31), (2, 31), (63, 31)]
    );
}

#[test]
fn draw_of_zero_rows_clears_the_flag() {
    let mut emulator = ready();
    run(&mut emulator, &[Instruction::LD(0xF, 9), Instruction::DRW(0, 0, 0)]);
    assert_eq!(reg(&emulator, 0xF), 0);
    assert!(lit(&emulator).is_empty());
}

#[test]
fn draw_fails_when_the_sprite_leaves_memory() {
    let mut emulator = ready();
    run(&mut emulator, &[Instruction::LDI(0xFFE), Instruction::LD(0xF, 7)]);
    assert_eq!(
        emulator.interpret(&Instruction::DRW(0, 0, 3)),
        Err(EmulatorError::Memory(MemoryError::OutOfBounds(0xFFE, 3)))
    );
    assert_eq!(reg(&emulator, 0xF), 7);
    assert!(lit(&emulator).is_empty());
    assert_eq!(emulator.interpret(&Instruction::DRW(0, 0, 2)), Ok(()));
}

#[test]
fn jump_sets_the_program_counter() {
    let mut emulator = ready();
    run(&mut emulator, &[Instruction::JP(0x456)]);
    assert_eq!(emulator.pc(), 0x456);
    assert_eq!(emulator.sp(), 0);
}

#[test]
fn jump_with_offset_adds_register_zero() {
    let mut emulator = ready();
    run(&mut emulator, &[Instruction::LD(0, 0x12), Instruction::JPV(0x300)]);
    assert_eq!(emulator.pc(), 0x312);
    run(&mut emulator, &[Instruction::LD(0, 2), Instruction::JPV(0xFFFF)]);
    assert_eq!(emulator.pc(), 1);
}

#[test]
fn call_then_return_restores_the_program_counter() {
    let mut emulator = ready();
    run(&mut emulator, &[Instruction::JP(0x234), Instruction::CALL(0x600)]);
    assert_eq!(emulator.pc(), 0x600);
    assert_eq!(emulator.sp(), 1);
    assert_eq!(emulator.stack()[0], 0x234);
    run(&mut emulator, &[Instruction::RET]);
    assert_eq!(emulator.pc(), 0x234);
    assert_eq!(emulator.sp(), 0);
}

#[test]
fn sixteen_nested_calls_succeed_and_unwind_in_reverse() {
    let mut emulator = ready();
    for level in 0..16u16 {
        assert_eq!(emulator.interpret(&Instruction::CALL(0x300 + 2 * level)), Ok(()));
        assert_eq!(emulator.sp(), level as usize + 1);
    }
    assert_eq!(emulator.stack()[0], 0x200);
    assert_eq!(emulator.stack()[15], 0x300 + 2 * 14);
    for level in (0..16u16).rev() {
        assert_eq!(emulator.interpret(&Instruction::RET), Ok(()));
        let expected = if level == 0 { 0x200 } else { 0x300 + 2 * (level - 1) };
        assert_eq!(emulator.pc(), expected);
        assert_eq!(emulator.sp(), level as usize);
    }
}

#[test]
fn seventeenth_nested_call_is_a_stack_overflow_and_changes_nothing() {
    let mut emulator = ready();
    for level in 0..16u16 {
        run(&mut emulator, &[Instruction::CALL(0x300 + level)]);
    }
    let stack_before = *emulator.stack();
    assert_eq!(
        emulator.interpret(&Instruction::CALL(0x999)),
        Err(EmulatorError::StackOverflow)
    );
    assert_eq!(emulator.sp(), 16);
    assert_eq!(emulator.pc(), 0x300 + 15);
    assert_eq!(emulator.stack(), &stack_before);
    run(&mut emulator, &[Instruction::RET, Instruction::CALL(0x999)]);
    assert_eq!(emulator.pc(), 0x999);
}

#[test]
fn return_on_an_empty_stack_is_a_stack_underflow_and_changes_nothing() {
    let mut emulator = ready();
    run(&mut emulator, &[Instruction::JP(0x222)]);
    assert_eq!(emulator.interpret(&Instruction::RET), Err(EmulatorError::StackUnderflow));
    assert_eq!(emulator.pc(), 0x222);
    assert_eq!(emulator.sp(), 0);
}

#[test]
fn skips_add_two_to_the_program_counter_when_the_condition_holds() {
    let mut emulator = ready();
    run(&mut emulator, &[Instruction::LD(1, 5), Instruction::LD(2, 5), Instruction::LD(3, 6)]);
    run(&mut emulator, &[Instruction::SE(1, 5)]);
    assert_eq!(emulator.pc(), 0x202);
    run(&mut emulator, &[Instruction::SE(1, 6)]);
    assert_eq!(emulator.pc(), 0x202);
    run(&mut emulator, &[Instruction::SNE(1, 6)]);
    assert_eq!(emulator.pc(), 0x204);
    run(&mut emulator, &[Instruction::SNE(1, 5)]);
    assert_eq!(emulator.pc(), 0x204);
    run(&mut emulator, &[Instruction::SEV(1, 2)]);
    assert_eq!(emulator.pc(), 0x206);
    run(&mut emulator, &[Instruction::SEV(1, 3)]);
    assert_eq!(emulator.pc(), 0x206);
    run(&mut emulator, &[Instruction::SNEV(1, 3)]);
    assert_eq!(emulator.pc(), 0x208);
    run(&mut emulator, &[Instruction::SNEV(1, 2)]);
    assert_eq!(emulator.pc(), 0x208);
}

#[test]
fn skip_at_the_top_of_the_address_range_wraps() {
    let mut emulator = ready();
    run(&mut emulator, &[Instruction::JP(0xFFFF), Instruction::SE(0, 0)]);
    assert_eq!(emulator.pc(), 1);
}

#[test]
fn load_and_move_set_registers() {
    let mut emulator = ready();
    run(&mut emulator, &[Instruction::LD(7, 0x5A), Instruction::LDV(8, 7)]);
    assert_eq!(reg(&emulator, 7), 0x5A);
    assert_eq!(reg(&emulator, 8), 0x5A);
}

#[test]
fn add_immediate_wraps_and_leaves_the_flag_alone() {
    let mut emulator = ready();
    run(
        &mut emulator,
        &[Instruction::LD(0xF, 9), Instruction::LD(1, 250), Instruction::ADD(1, 10)],
    );
    assert_eq!(reg(&emulator, 1), 4);
    assert_eq!(reg(&emulator, 0xF), 9);
}

#[test]
fn add_registers_wraps_and_leaves_the_flag_alone() {
    let mut emulator = ready();
    run(
        &mut emulator,
        &[
            Instruction::LD(0xF, 9),
            Instruction::LD(1, 200),
            Instruction::LD(2, 100),
            Instruction::ADDV(1, 2),
        ],
    );
    assert_eq!(reg(&emulator, 1), 44);
    assert_eq!(reg(&emulator, 2), 100);
    assert_eq!(reg(&emulator, 0xF), 9);
    run(&mut emulator, &[Instruction::LD(3, 1), Instruction::ADDV(3, 3)]);
    assert_eq!(reg(&emulator, 3), 2);
}

#[test]
fn bitwise_operations_combine_two_registers() {
    let mut emulator = ready();
    run(
        &mut emulator,
        &[
            Instruction::LD(1, 0b1100_1010),
            Instruction::LD(2, 0b1010_0110),
            Instruction::LDV(3, 1),
            Instruction::LDV(4, 1),
            Instruction::LDV(5, 1),
            Instruction::OR(3, 2),
            Instruction::AND(4, 2),
            Instruction::XOR(5, 2),
        ],
    );
    assert_eq!(reg(&emulator, 3), 0b1110_1110);
    assert_eq!(reg(&emulator, 4), 0b1000_0010);
    assert_eq!(reg(&emulator, 5), 0b0110_1100);
    assert_eq!(reg(&emulator, 0xF), 0);
}

#[test]
fn sub_sets_the_flag_exactly_when_the_minuend_is_greater() {
    for (x, y, difference, flag) in
        [(9u8, 4u8, 5u8, 1u8), (4, 9, 251, 0), (7, 7, 0, 0), (0, 255, 1, 0), (255, 0, 255, 1)]
    {
        let mut emulator = ready();
        run(
            &mut emulator,
            &[Instruction::LD(1, x), Instruction::LD(2, y), Instruction::SUB(1, 2)],
        );
        assert_eq!(reg(&emulator, 1), difference);
        assert_eq!(reg(&emulator, 2), y);
        assert_eq!(reg(&emulator, 0xF), flag);
    }
}

#[test]
fn sub_holds_for_all_pairs_of_values() {
    let mut emulator = ready();
    for x in 0..=255u8 {
        for y in [0u8, 1, 2, 127, 128, 254, 255, x, x.wrapping_add(1), x.wrapping_sub(1)] {
            run(
                &mut emulator,
                &[Instruction::LD(3, x), Instruction::LD(4, y), Instruction::SUB(3, 4)],
            );
            assert_eq!(reg(&emulator, 3), x.wrapping_sub(y));
            assert_eq!(reg(&emulator, 0xF), if x > y { 1 } else { 0 });
        }
    }
}

#[test]
fn sub_into_the_flag_register_leaves_the_flag() {
    let mut emulator = ready();
    run(
        &mut emulator,
        &[Instruction::LD(0xF, 9), Instruction::LD(2, 4), Instruction::SUB(0xF, 2)],
    );
    assert_eq!(reg(&emulator, 0xF), 1);
    run(
        &mut emulator,
        &[Instruction::LD(0xF, 3), Instruction::LD(2, 4), Instruction::SUB(0xF, 2)],
    );
    assert_eq!(reg(&emulator, 0xF), 0);
}

#[test]
fn subn_subtracts_the_other_way_and_compares_the_operands() {
    for (x, y, difference, flag) in
        [(4u8, 9u8, 5u8, 1u8), (9, 4, 251, 0), (7, 7, 0, 0), (200, 3, 59, 0), (0, 1, 1, 1)]
    {
        let mut emulator = ready();
        run(
            &mut emulator,
            &[Instruction::LD(1, x), Instruction::LD(2, y), Instruction::SUBN(1, 2)],
        );
        assert_eq!(reg(&emulator, 1), difference);
        assert_eq!(reg(&emulator, 2), y);
        assert_eq!(reg(&emulator, 0xF), flag);
    }
}

#[test]
fn shifts_move_the_bits_by_one_place() {
    let mut emulator = ready();
    run(
        &mut emulator,
        &[
            Instruction::LD(0xF, 9),
            Instruction::LD(1, 0b1000_0101),
            Instruction::LD(2, 0b1000_0101),
            Instruction::SHR(1),
            Instruction::SHL(2),
        ],
    );
    assert_eq!(reg(&emulator, 1), 0b0100_0010);
    assert_eq!(reg(&emulator, 2), 0b0000_1010);
    assert_eq!(reg(&emulator, 0xF), 9);
}

#[test]
fn random_is_masked_by_the_operand() {
    let mut emulator = ready();
    for _ in 0..200 {
        run(&mut emulator, &[Instruction::LD(5, 0xFF), Instruction::RND(5, 0x00)]);
        assert_eq!(reg(&emulator, 5), 0);
        run(&mut emulator, &[Instruction::RND(5, 0x0F)]);
        assert!(reg(&emulator, 5) <= 0x0F);
        run(&mut emulator, &[Instruction::RND(5, 0xA0)]);
        assert_eq!(reg(&emulator, 5) & !0xA0, 0);
    }
}

#[test]
fn random_draws_more_than_one_value() {
    let mut emulator = ready();
    let mut seen = [false; 256];
    for _ in 0..2000 {
        run(&mut emulator, &[Instruction::RND(6, 0xFF)]);
        seen[reg(&emulator, 6) as usize] = true;
    }
    assert!(seen.iter().filter(|s| **s).count() > 16);
}

#[test]
fn execute_uses_the_given_random_byte() {
    let mut emulator = ready();
    assert_eq!(emulator.execute(&Instruction::RND(2, 0xF0), 0xAB), Ok(()));
    assert_eq!(reg(&emulator, 2), 0xA0);
    assert_eq!(emulator.execute(&Instruction::RND(2, 0xFF), 0x00), Ok(()));
    assert_eq!(reg(&emulator, 2), 0x00);
    assert_eq!(emulator.execute(&Instruction::LD(3, 0x11), 0xFF), Ok(()));
    assert_eq!(reg(&emulator, 3), 0x11);
}

#[test]
fn index_instructions_load_add_and_point_at_glyphs() {
    let mut emulator = ready();
    run(&mut emulator, &[Instruction::LDI(0xABC)]);
    assert_eq!(emulator.i(), 0xABC);
    run(&mut emulator, &[Instruction::LD(1, 0x44), Instruction::ADDI(1)]);
    assert_eq!(emulator.i(), 0xB00);
    run(&mut emulator, &[Instruction::LD(2, 0x0A), Instruction::LDF(2)]);
    assert_eq!(emulator.i(), 50);
    run(&mut emulator, &[Instruction::LD(2, 0xF3), Instruction::LDF(2)]);
    assert_eq!(emulator.i(), 15);
    assert_eq!(mem(&emulator, emulator.i(), 5), vec![0xF0, 0x10, 0xF0, 0x10, 0xF0]);
}

#[test]
fn add_to_index_wraps_at_sixteen_bits() {
    let mut emulator = ready();
    run(
        &mut emulator,
        &[Instruction::LDI(0xFFFF), Instruction::LD(1, 3), Instruction::ADDI(1)],
    );
    assert_eq!(emulator.i(), 2);
}

#[test]
fn decimal_digits_are_stored_at_the_index() {
    for (value, digits) in [(0u8, [0u8, 0, 0]), (7, [0, 0, 7]), (42, [0, 4, 2]), (109, [1, 0, 9]),
        (199, [1, 9, 9]), (200, [2, 0, 0]), (255, [2, 5, 5])]
    {
        let mut emulator = ready();
        run(
            &mut emulator,
            &[Instruction::LD(3, value), Instruction::LDI(0x400), Instruction::LDB(3)],
        );
        assert_eq!(mem(&emulator, 0x3FF, 5), vec![0, digits[0], digits[1], digits[2], 0]);
    }
}

#[test]
fn decimal_digits_at_the_end_of_memory_are_written_until_the_first_bad_address() {
    let mut emulator = ready();
    run(&mut emulator, &[Instruction::LD(3, 234), Instruction::LDI(4093), Instruction::LDB(3)]);
    assert_eq!(mem(&emulator, 4093, 3), vec![2, 3, 4]);

    let mut emulator = ready();
    run(&mut emulator, &[Instruction::LD(3, 234), Instruction::LDI(4094)]);
    assert_eq!(
        emulator.interpret(&Instruction::LDB(3)),
        Err(EmulatorError::Memory(MemoryError::OutOfBounds(4096, 0)))
    );
    assert_eq!(mem(&emulator, 4094, 2), vec![2, 3]);

    let mut emulator = ready();
    run(&mut emulator, &[Instruction::LD(3, 234), Instruction::LDI(4095)]);
    assert_eq!(
        emulator.interpret(&Instruction::LDB(3)),
        Err(EmulatorError::Memory(MemoryError::OutOfBounds(4096, 0)))
    );
    assert_eq!(mem(&emulator, 4094, 2), vec![0, 2]);

    let mut emulator = ready();
    run(&mut emulator, &[Instruction::LD(3, 234), Instruction::LDI(0xFFFF)]);
    assert_eq!(
        emulator.interpret(&Instruction::LDB(3)),
        Err(EmulatorError::Memory(MemoryError::OutOfBounds(0xFFFF, 0)))
    );
    assert!(mem(&emulator, 0x200, 3584).iter().all(|b| *b == 0));
}

#[test]
fn registers_are_dumped_to_and_restored_from_memory() {
    let mut emulator = ready();
    for addr in 0..16u8 {
        run(&mut emulator, &[Instruction::LD(addr, 0x10 + addr)]);
    }
    run(&mut emulator, &[Instruction::LDI(0x500), Instruction::LDIV]);
    let expected: Vec<u8> = (0x10..0x20).collect();
    assert_eq!(mem(&emulator, 0x500, 16), expected);
    assert_eq!(mem(&emulator, 0x4FF, 1), vec![0]);
    assert_eq!(mem(&emulator, 0x510, 1), vec![0]);
    for addr in 0..16u8 {
        run(&mut emulator, &[Instruction::LD(addr, 0)]);
    }
    run(&mut emulator, &[Instruction::LDVI]);
    assert_eq!(emulator.registers().as_bytes(), &expected[..]);
    assert_eq!(emulator.i(), 0x500);
}

#[test]
fn register_restore_reads_the_font_from_the_bottom_of_memory() {
    let mut emulator = ready();
    run(&mut emulator, &[Instruction::LDI(5), Instruction::LDVI]);
    assert_eq!(emulator.registers().as_bytes(), &HEX_SPRITES[5..21]);
}

#[test]
fn register_transfers_work_up_to_the_last_byte_of_memory() {
    let mut emulator = ready();
    run(
        &mut emulator,
        &[Instruction::LD(15, 0xEE), Instruction::LDI(4080), Instruction::LDIV],
    );
    assert_eq!(mem(&emulator, 4095, 1), vec![0xEE]);
    run(&mut emulator, &[Instruction::LD(15, 0), Instruction::LDVI]);
    assert_eq!(reg(&emulator, 15), 0xEE);
}

#[test]
fn register_transfers_fail_when_they_leave_memory() {
    let mut emulator = ready();
    run(&mut emulator, &[Instruction::LD(0, 0x77), Instruction::LDI(4081)]);
    let memory_before = mem(&emulator, 0, 4096);
    assert_eq!(
        emulator.interpret(&Instruction::LDIV),
        Err(EmulatorError::Memory(MemoryError::OutOfMemory(4081, 1)))
    );
    assert_eq!(mem(&emulator, 0, 4096), memory_before);
    assert_eq!(
        emulator.interpret(&Instruction::LDVI),
        Err(EmulatorError::Memory(MemoryError::OutOfBounds(4081, 16)))
    );
    assert_eq!(reg(&emulator, 0), 0x77);
}

#[test]
fn timer_instructions_set_and_read_the_timers() {
    let mut emulator = ready();
    run(
        &mut emulator,
        &[
            Instruction::LD(1, 30),
            Instruction::LD(2, 12),
            Instruction::LDDV(1),
            Instruction::LDS(2),
            Instruction::LDD(3),
        ],
    );
    assert_eq!(emulator.delay(), 30);
    assert_eq!(emulator.sound(), 12);
    assert_eq!(reg(&emulator, 3), 30);
}

#[test]
fn timers_decay_one_step_per_tick_until_zero() {
    let mut emulator = ready();
    run(
        &mut emulator,
        &[Instruction::LD(1, 3), Instruction::LD(2, 5), Instruction::LDDV(1), Instruction::LDS(2)],
    );
    assert!(emulator.tick_timers());
    assert_eq!((emulator.delay(), emulator.sound()), (2, 4));
    assert!(emulator.tick_timers());
    assert!(emulator.tick_timers());
    assert_eq!((emulator.delay(), emulator.sound()), (0, 2));
    run(&mut emulator, &[Instruction::LDD(4)]);
    assert_eq!(reg(&emulator, 4), 0);
    assert!(emulator.tick_timers());
    assert!(!emulator.tick_timers());
    assert_eq!((emulator.delay(), emulator.sound()), (0, 0));
    assert!(!emulator.tick_timers());
    assert_eq!((emulator.delay(), emulator.sound()), (0, 0));
}

#[test]
fn timers_decay_for_every_value() {
    for n in 1..=255u8 {
        let mut emulator = ready();
        run(&mut emulator, &[Instruction::LD(0, n), Instruction::LDDV(0)]);
        for k in 1..=n {
            emulator.tick_timers();
            assert_eq!(emulator.delay(), n - k);
        }
        assert_eq!(emulator.delay(), 0);
    }
}

#[test]
fn keyboard_instructions_are_unimplemented_and_change_nothing() {
    let mut emulator = ready();
    run(&mut emulator, &[Instruction::LD(1, 9), Instruction::JP(0x300)]);
    for instruction in [Instruction::SKP(1), Instruction::SKNP(1), Instruction::LDK(1)] {
        assert_eq!(emulator.interpret(&instruction), Err(EmulatorError::Unimplemented));
        assert_eq!(emulator.pc(), 0x300);
        assert_eq!(reg(&emulator, 1), 9);
    }
}

#[test]
fn invalid_registers_are_reported_and_change_nothing() {
    let mut emulator = ready();
    run(&mut emulator, &[Instruction::LD(1, 1), Instruction::JP(0x300), Instruction::LDI(0x400)]);
    let bad = |addr: u8| Err(EmulatorError::Register(RegisterError::InvalidRegister(addr)));
    let cases = [
        (Instruction::SE(16, 0), 16u8),
        (Instruction::SNE(17, 0), 17),
        (Instruction::SEV(1, 18), 18),
        (Instruction::SEV(19, 1), 19),
        (Instruction::SNEV(20, 21), 20),
        (Instruction::LD(22, 5), 22),
        (Instruction::ADD(23, 5), 23),
        (Instruction::LDV(24, 1), 24),
        (Instruction::LDV(1, 25), 25),
        (Instruction::LDV(26, 27), 27),
        (Instruction::OR(28, 1), 28),
        (Instruction::AND(1, 29), 29),
        (Instruction::XOR(30, 31), 30),
        (Instruction::ADDV(32, 1), 32),
        (Instruction::SUB(33, 1), 33),
        (Instruction::SUBN(1, 34), 34),
        (Instruction::SHR(35), 35),
        (Instruction::SHL(36), 36),
        (Instruction::RND(37, 0xFF), 37),
        (Instruction::DRW(38, 1, 1), 38),
        (Instruction::DRW(1, 39, 1), 39),
        (Instruction::LDD(40), 40),
        (Instruction::LDDV(41), 41),
        (Instruction::LDS(42), 42),
        (Instruction::ADDI(43), 43),
        (Instruction::LDF(44), 44),
        (Instruction::LDB(45), 45),
    ];
    for (instruction, addr) in cases {
        assert_eq!(emulator.interpret(&instruction), bad(addr));
        assert_eq!(emulator.pc(), 0x300);
        assert_eq!(emulator.i(), 0x400);
        assert_eq!(emulator.registers().as_bytes(), &[0, 1, 0, 0, 0, 0, 0, 0, 0, 0, 0, 0, 0, 0, 0, 0][..]);
        assert_eq!((emulator.delay(), emulator.sound()), (0, 0));
        assert!(lit(&emulator).is_empty());
    }
}

#[test]
fn a_small_program_runs_when_fetched_by_hand() {
    let program: [u8; 12] = [
        0x60, 0x05, // LD V0, 5
        0x61, 0x03, // LD V1, 3
        0x80, 0x15, // SUB V0, V1
        0xA0, 0x0A, // LDI 0x00A (glyph "2")
        0xD1, 0x15, // DRW V1, V1, 5
        0x12, 0x0A, // JP 0x20A
    ];
    let mut emulator = Emulator::default();
    emulator.load_program(&program).unwrap();
    for step in 0..6u16 {
        assert_eq!(emulator.pc(), 0x200 + 2 * step);
        let word = mem(&emulator, emulator.pc(), 2);
        let instruction = Instruction::try_from(&word[..]).unwrap();
        let skipped_from = emulator.pc();
        emulator.interpret(&instruction).unwrap();
        if emulator.pc() == skipped_from && step < 5 {
            emulator.interpret(&Instruction::JP(skipped_from + 2)).unwrap();
        }
    }
    assert_eq!(emulator.pc(), 0x20A);
    assert_eq!(reg(&emulator, 0), 2);
    assert_eq!(reg(&emulator, 1), 3);
    assert_eq!(reg(&emulator, 0xF), 0);
    assert!(emulator.display().pixel_map[3][3]);
    assert_eq!(lit(&emulator).len(), 4 + 1 + 4 + 1 + 4);
}
