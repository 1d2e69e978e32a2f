use chip8::emulator::emulator::EmulatorError;
use chip8::emulator::instructions::InstructionError;
use chip8::emulator::memory::MemoryError;
use chip8::emulator::registers::RegisterError;
use chip8::input::program::ProgramError;
use chip8::text::{push_decimal, push_upper_hex};

#[test]
fn decimal_text_matches_the_standard_formatting() {
    let mut values: Vec<usize> = (0..=1200).collect();
    values.extend([4095, 4096, 9999, 10000, 65535, 65536, 99999, 100000, 1234567890]);
    values.extend([usize::MAX, usize::MAX - 1, usize::MAX / 10, usize::MAX / 10 + 1]);
    for n in values {
        let mut text = String::from("n = ");
        push_decimal(&mut text, n);
        assert_eq!(text, format!("n = {}", n));
    }
}

#[test]
fn hexadecimal_text_matches_the_standard_formatting() {
    let mut values: Vec<usize> = (0..=4200).collect();
    values.extend([0xFFFF, 0x10000, 0xABCDEF, usize::MAX, usize::MAX / 16]);
    for n in values {
        let mut text = String::new();
        push_upper_hex(&mut text, n);
        assert_eq!(text, format!("{:X}", n));
    }
}

#[test]
fn bad_code_message() {
    assert_eq!(InstructionError::BadCode.message(), "Invalid instruction code!");
}

#[test]
fn invalid_register_message_shows_the_index_in_hexadecimal() {
    assert_eq!(RegisterError::InvalidRegister(5).message(), "Invalid register access: V5");
    assert_eq!(RegisterError::InvalidRegister(16).message(), "Invalid register access: V10");
    assert_eq!(RegisterError::InvalidRegister(0xAB).message(), "Invalid register access: VAB");
    for vx in 0..=255u8 {
        assert_eq!(
            RegisterError::InvalidRegister(vx).message(),
            format!("Invalid register access: V{:X}", vx)
        );
    }
}

#[test]
fn out_of_bounds_message_shows_the_range() {
    assert_eq!(
        MemoryError::OutOfBounds(4095, 2).message(),
        "The memory range accessed is out of bounds (max 4096): [4095 ... 4097]"
    );
    assert_eq!(
        MemoryError::OutOfBounds(4096, 0).message(),
        "The memory range accessed is out of bounds (max 4096): [4096 ... 4096]"
    );
    assert_eq!(
        MemoryError::OutOfBounds(0, 5000).message(),
        "The memory range accessed is out of bounds (max 4096): [0 ... 5000]"
    );
}

#[test]
fn out_of_bounds_message_reduces_the_end_to_sixteen_bits() {
    assert_eq!(
        MemoryError::OutOfBounds(0xFFFF, 2).message(),
        "The memory range accessed is out of bounds (max 4096): [65535 ... 1]"
    );
    assert_eq!(
        MemoryError::OutOfBounds(1, usize::MAX).message(),
        "The memory range accessed is out of bounds (max 4096): [1 ... 0]"
    );
}

#[test]
fn out_of_memory_message_shows_start_and_excess() {
    assert_eq!(
        MemoryError::OutOfMemory(4094, 1).message(),
        "Attempting to write memory past bounds, starting at 4094. [Excess bytes: 1]"
    );
    assert_eq!(
        MemoryError::OutOfMemory(512, 1000000).message(),
        "Attempting to write memory past bounds, starting at 512. [Excess bytes: 1000000]"
    );
}

#[test]
fn space_exceeded_message_shows_the_size_given() {
    assert_eq!(
        ProgramError::SpaceExceeded(3585).message(),
        "Program too large! Max Bytes: [3584], Given: [3585]"
    );
    assert_eq!(
        ProgramError::SpaceExceeded(0).message(),
        "Program too large! Max Bytes: [3584], Given: [0]"
    );
}

#[test]
fn emulator_error_messages_are_those_of_the_component() {
    assert_eq!(
        EmulatorError::Register(RegisterError::InvalidRegister(31)).message(),
        "Invalid register access: V1F"
    );
    assert_eq!(
        EmulatorError::Memory(MemoryError::OutOfMemory(4081, 1)).message(),
        MemoryError::OutOfMemory(4081, 1).message()
    );
    assert_eq!(
        EmulatorError::Program(ProgramError::SpaceExceeded(4000)).message(),
        "Program too large! Max Bytes: [3584], Given: [4000]"
    );
    assert_eq!(EmulatorError::Unimplemented.message(), "Instruction not implemented!");
    assert_eq!(EmulatorError::StackOverflow.message(), "Call stack overflow!");
    assert_eq!(EmulatorError::StackUnderflow.message(), "Call stack underflow!");
}
