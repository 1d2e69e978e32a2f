use chip8::emulator::registers::{RegisterError, Registers, FLAG_REGISTER, REGISTER_COUNT};

#[test]
fn new_bank_reads_zero_everywhere() {
    let regs = Registers::default();
    for addr in 0..16u8 {
        assert_eq!(regs.get(addr), Ok(0));
    }
    assert_eq!(regs.as_bytes(), &[0u8; 16][..]);
}

#[test]
fn bank_has_sixteen_registers_and_flag_is_last() {
    assert_eq!(REGISTER_COUNT, 16);
    assert_eq!(FLAG_REGISTER, 15);
    assert_eq!(Registers::default().as_bytes().len(), REGISTER_COUNT);
}

#[test]
fn get_rejects_index_sixteen() {
    let regs = Registers::default();
    assert_eq!(regs.get(16), Err(RegisterError::InvalidRegister(16)));
    assert_eq!(regs.get(255), Err(RegisterError::InvalidRegister(255)));
}

#[test]
fn set_then_get_reads_the_value_back() {
    let mut regs = Registers::default();
    assert_eq!(regs.set(0, 0x12), Ok(()));
    assert_eq!(regs.set(15, 0xFE), Ok(()));
    assert_eq!(regs.get(0), Ok(0x12));
    assert_eq!(regs.get(15), Ok(0xFE));
    assert_eq!(regs.get(1), Ok(0));
}

#[test]
fn set_rejects_invalid_index_and_changes_nothing() {
    let mut regs = Registers::default();
    regs.set(3, 7).unwrap();
    let before = regs.as_bytes().to_vec();
    assert_eq!(regs.set(16, 9), Err(RegisterError::InvalidRegister(16)));
    assert_eq!(regs.set(200, 9), Err(RegisterError::InvalidRegister(200)));
    assert_eq!(regs.as_bytes(), &before[..]);
}

#[test]
fn get_pair_reads_both_registers() {
    let mut regs = Registers::default();
    regs.set(2, 20).unwrap();
    regs.set(9, 90).unwrap();
    assert_eq!(regs.get_pair(2, 9), Ok((20, 90)));
    assert_eq!(regs.get_pair(9, 2), Ok((90, 20)));
    assert_eq!(regs.get_pair(2, 2), Ok((20, 20)));
}

#[test]
fn get_pair_reports_the_first_invalid_index() {
    let regs = Registers::default();
    assert_eq!(regs.get_pair(16, 2), Err(RegisterError::InvalidRegister(16)));
    assert_eq!(regs.get_pair(2, 17), Err(RegisterError::InvalidRegister(17)));
    assert_eq!(regs.get_pair(18, 19), Err(RegisterError::InvalidRegister(18)));
}

#[test]
fn set_bytes_replaces_all_sixteen() {
    let mut regs = Registers::default();
    let data: Vec<u8> = (100..116).collect();
    assert_eq!(regs.set_bytes(&data), Ok(()));
    assert_eq!(regs.as_bytes(), &data[..]);
    for addr in 0..16u8 {
        assert_eq!(regs.get(addr), Ok(100 + addr));
    }
}

#[test]
fn set_bytes_rejects_a_longer_buffer_and_changes_nothing() {
    let mut regs = Registers::default();
    regs.set(5, 55).unwrap();
    let before = regs.as_bytes().to_vec();
    assert_eq!(regs.set_bytes(&[1u8; 17]), Err(RegisterError::InvalidRegister(16)));
    assert_eq!(regs.set_bytes(&[1u8; 40]), Err(RegisterError::InvalidRegister(39)));
    assert_eq!(regs.as_bytes(), &before[..]);
}

#[test]
fn set_bytes_reports_the_last_index_reduced_to_a_byte() {
    let mut regs = Registers::default();
    assert_eq!(regs.set_bytes(&[0u8; 256]), Err(RegisterError::InvalidRegister(255)));
    assert_eq!(regs.set_bytes(&[0u8; 257]), Err(RegisterError::InvalidRegister(0)));
    assert_eq!(regs.set_bytes(&[0u8; 272]), Err(RegisterError::InvalidRegister(15)));
}
