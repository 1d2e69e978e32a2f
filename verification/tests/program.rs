use chip8::input::program::{Program, ProgramError, PROGRAM_CAPACITY};

#[test]
fn new_program_is_all_zeros() {
    let program = Program::default();
    assert_eq!(program.as_bytes().len(), PROGRAM_CAPACITY);
    assert!(program.as_bytes().iter().all(|b| *b == 0));
}

#[test]
fn save_bytes_keeps_the_program_and_pads_with_zeros() {
    let mut program = Program::default();
    assert_eq!(program.save_bytes(&[0xA2, 0xF0, 0xD0, 0x05]), Ok(()));
    assert_eq!(&program.as_bytes()[..4], &[0xA2, 0xF0, 0xD0, 0x05][..]);
    assert!(program.as_bytes()[4..].iter().all(|b| *b == 0));
}

#[test]
fn save_bytes_replaces_an_earlier_program_entirely() {
    let mut program = Program::default();
    program.save_bytes(&[1u8; 100]).unwrap();
    program.save_bytes(&[2u8; 10]).unwrap();
    assert_eq!(&program.as_bytes()[..10], &[2u8; 10][..]);
    assert!(program.as_bytes()[10..].iter().all(|b| *b == 0));
}

#[test]
fn save_bytes_accepts_a_program_of_full_capacity() {
    let mut program = Program::default();
    let bytes: Vec<u8> = (0..3584u32).map(|k| (k % 251) as u8).collect();
    assert_eq!(program.save_bytes(&bytes), Ok(()));
    assert_eq!(program.as_bytes(), &bytes[..]);
}

#[test]
fn save_bytes_rejects_an_oversized_program_and_changes_nothing() {
    let mut program = Program::default();
    program.save_bytes(&[7u8; 5]).unwrap();
    let before = program.as_bytes().to_vec();
    assert_eq!(
        program.save_bytes(&[1u8; 3585]),
        Err(ProgramError::SpaceExceeded(3585))
    );
    assert_eq!(
        program.save_bytes(&[1u8; 5000]),
        Err(ProgramError::SpaceExceeded(5000))
    );
    assert_eq!(program.as_bytes(), &before[..]);
}
