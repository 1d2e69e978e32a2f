//! The instruction set and its decoder.
//!
//! An instruction word is sixteen bits, read big-endian. Its first nibble
//! selects the family; the remaining nibbles are literal, or name registers
//! (`x`, `y`), a byte (`kk`), a nibble (`n`) or a twelve-bit address.

use vstd::prelude::*;
use vstd::arithmetic::div_mod::lemma_fundamental_div_mod_converse;
use vstd::std_specs::convert::TryFromSpecImpl;
use vstd::string::StringExecFns;
use super::emulator::{MemoryAddress, RegisterAddress};

verus! {

/// One decoded operation with its operands.
#[derive(Debug, Clone, Copy, PartialEq, Eq, Structural)]
pub enum Instruction {
    /// `00E0`: clear the display.
    CLS,
    /// `00EE`: return from a subroutine.
    RET,
    /// `1addr`: jump.
    JP(MemoryAddress),
    /// `2addr`: call a subroutine.
    CALL(MemoryAddress),
    /// `3xkk`: skip the next instruction if `Vx == kk`.
    SE(RegisterAddress, u8),
    /// `4xkk`: skip the next instruction if `Vx != kk`.
    SNE(RegisterAddress, u8),
    /// `5xy0`: skip the next instruction if `Vx == Vy`.
    SEV(RegisterAddress, RegisterAddress),
    /// `6xkk`: `Vx = kk`.
    LD(RegisterAddress, u8),
    /// `7xkk`: `Vx = Vx + kk`, wrapping.
    ADD(RegisterAddress, u8),
    /// `8xy0`: `Vx = Vy`.
    LDV(RegisterAddress, RegisterAddress),
    /// `8xy1`: `Vx = Vx | Vy`.
    OR(RegisterAddress, RegisterAddress),
    /// `8xy2`: `Vx = Vx & Vy`.
    AND(RegisterAddress, RegisterAddress),
    /// `8xy3`: `Vx = Vx ^ Vy`.
    XOR(RegisterAddress, RegisterAddress),
    /// `8xy4`: `Vx = Vx + Vy`, wrapping.
    ADDV(RegisterAddress, RegisterAddress),
    /// `8xy5`: `Vx = Vx - Vy`, wrapping, with the flag register set to 1
    /// if `Vx > Vy` and to 0 if not.
    SUB(RegisterAddress, RegisterAddress),
    /// `8x_6`: `Vx = Vx >> 1`.
    SHR(RegisterAddress),
    /// `8xy7`: `Vx = Vy - Vx`, wrapping, with the flag register set to 1
    /// if `Vy > Vx` and to 0 if not.
    SUBN(RegisterAddress, RegisterAddress),
    /// `8x_E`: `Vx = Vx << 1`.
    SHL(RegisterAddress),
    /// `9xy0`: skip the next instruction if `Vx != Vy`.
    SNEV(RegisterAddress, RegisterAddress),
    /// `Aaddr`: load the index register.
    LDI(MemoryAddress),
    /// `Baddr`: jump to `addr + V0`.
    JPV(MemoryAddress),
    /// `Cxkk`: `Vx = random & kk`.
    RND(RegisterAddress, u8),
    /// `Dxyn`: draw an `n`-byte sprite at `(Vx, Vy)`.
    DRW(RegisterAddress, RegisterAddress, u8),
    /// `Ex9E`: skip if the key in `Vx` is pressed.
    SKP(RegisterAddress),
    /// `ExA1`: skip if the key in `Vx` is not pressed.
    SKNP(RegisterAddress),
    /// `Fx07`: `Vx = delay timer`.
    LDD(u8),
    /// `Fx0A`: wait for a key press and store it in `Vx`.
    LDK(u8),
    /// `Fx15`: `delay timer = Vx`.
    LDDV(RegisterAddress),
    /// `Fx18`: `sound timer = Vx`.
    LDS(RegisterAddress),
    /// `Fx1E`: `I = I + Vx`.
    ADDI(RegisterAddress),
    /// `Fx29`: point `I` at the font glyph of the low nibble of `Vx`.
    LDF(RegisterAddress),
    /// `Fx33`: store the decimal digits of `Vx` at `I`, `I + 1`, `I + 2`.
    LDB(RegisterAddress),
    /// `F_55`: store all registers at `I`.
    LDIV,
    /// `F_65`: load all registers from `I`.
    LDVI,
}

/// Why a word could not be decoded.
#[derive(Debug, Clone, Copy, PartialEq, Eq, Structural)]
pub enum InstructionError {
    /// The word matches no instruction pattern.
    BadCode,
}

impl InstructionError {
    /// The text of the error's message.
    pub open spec fn message_text(self) -> Seq<char> {
        match self {
            InstructionError::BadCode => "Invalid instruction code!"@,
        }
    }

    /// The error's message.
    pub fn message(&self) -> (text: String)
        ensures
            text@ == self.message_text(),
    {
        match self {
            InstructionError::BadCode => String::from_str("Invalid instruction code!"),
        }
    }
}

impl Instruction {
    /// Whether every operand is within the range of its field: registers
    /// and the sprite height below sixteen, addresses below 4096.
    pub open spec fn operands_in_range(self) -> bool {
        match self {
            Instruction::CLS | Instruction::RET | Instruction::LDIV | Instruction::LDVI => true,
            Instruction::JP(addr) | Instruction::CALL(addr) | Instruction::LDI(addr)
            | Instruction::JPV(addr) => addr < 0x1000,
            Instruction::SE(x, _) | Instruction::SNE(x, _) | Instruction::LD(x, _)
            | Instruction::ADD(x, _) | Instruction::RND(x, _) => x < 16,
            Instruction::SEV(x, y) | Instruction::SNEV(x, y) | Instruction::LDV(x, y)
            | Instruction::OR(x, y) | Instruction::AND(x, y) | Instruction::XOR(x, y)
            | Instruction::ADDV(x, y) | Instruction::SUB(x, y) | Instruction::SUBN(x, y) => x < 16
                && y < 16,
            Instruction::DRW(x, y, n) => x < 16 && y < 16 && n < 16,
            Instruction::SHR(x) | Instruction::SHL(x) | Instruction::SKP(x) | Instruction::SKNP(x)
            | Instruction::LDD(x) | Instruction::LDK(x) | Instruction::LDDV(x)
            | Instruction::LDS(x) | Instruction::ADDI(x) | Instruction::LDF(x)
            | Instruction::LDB(x) => x < 16,
        }
    }

    /// The word that encodes the instruction, with zero in the nibble that
    /// the instruction's pattern ignores.
    pub open spec fn encode(self) -> u16 {
        (match self {
            Instruction::CLS => 0x00E0,
            Instruction::RET => 0x00EE,
            Instruction::JP(addr) => 0x1000 + addr,
            Instruction::CALL(addr) => 0x2000 + addr,
            Instruction::SE(x, kk) => 0x3000 + x * 0x100 + kk,
            Instruction::SNE(x, kk) => 0x4000 + x * 0x100 + kk,
            Instruction::SEV(x, y) => 0x5000 + x * 0x100 + y * 0x10,
            Instruction::LD(x, kk) => 0x6000 + x * 0x100 + kk,
            Instruction::ADD(x, kk) => 0x7000 + x * 0x100 + kk,
            Instruction::LDV(x, y) => 0x8000 + x * 0x100 + y * 0x10,
            Instruction::OR(x, y) => 0x8001 + x * 0x100 + y * 0x10,
            Instruction::AND(x, y) => 0x8002 + x * 0x100 + y * 0x10,
            Instruction::XOR(x, y) => 0x8003 + x * 0x100 + y * 0x10,
            Instruction::ADDV(x, y) => 0x8004 + x * 0x100 + y * 0x10,
            Instruction::SUB(x, y) => 0x8005 + x * 0x100 + y * 0x10,
            Instruction::SHR(x) => 0x8006 + x * 0x100,
            Instruction::SUBN(x, y) => 0x8007 + x * 0x100 + y * 0x10,
            Instruction::SHL(x) => 0x800E + x * 0x100,
            Instruction::SNEV(x, y) => 0x9000 + x * 0x100 + y * 0x10,
            Instruction::LDI(addr) => 0xA000 + addr,
            Instruction::JPV(addr) => 0xB000 + addr,
            Instruction::RND(x, kk) => 0xC000 + x * 0x100 + kk,
            Instruction::DRW(x, y, n) => 0xD000 + x * 0x100 + y * 0x10 + n,
            Instruction::SKP(x) => 0xE09E + x * 0x100,
            Instruction::SKNP(x) => 0xE0A1 + x * 0x100,
            Instruction::LDD(x) => 0xF007 + x * 0x100,
            Instruction::LDK(x) => 0xF00A + x * 0x100,
            Instruction::LDDV(x) => 0xF015 + x * 0x100,
            Instruction::LDS(x) => 0xF018 + x * 0x100,
            Instruction::ADDI(x) => 0xF01E + x * 0x100,
            Instruction::LDF(x) => 0xF029 + x * 0x100,
            Instruction::LDB(x) => 0xF033 + x * 0x100,
            Instruction::LDIV => 0xF055,
            Instruction::LDVI => 0xF065,
        }) as u16
    }

    /// The control-flow family: jumps, calls, returns and skips.
    pub open spec fn is_control_flow(&self) -> bool {
        ||| *self is RET
        ||| *self is JP
        ||| *self is CALL
        ||| *self is SE
        ||| *self is SNE
        ||| *self is SEV
        ||| *self is SNEV
        ||| *self is JPV
    }

    /// The arithmetic family: the instructions that compute the new value
    /// of a register from registers, literals and chance.
    pub open spec fn is_arithmetic(&self) -> bool {
        ||| *self is LD
        ||| *self is ADD
        ||| *self is LDV
        ||| *self is OR
        ||| *self is AND
        ||| *self is XOR
        ||| *self is ADDV
        ||| *self is SUB
        ||| *self is SHR
        ||| *self is SUBN
        ||| *self is SHL
        ||| *self is RND
    }

    /// The memory family: the instructions that work on the display, the
    /// index register or memory.
    pub open spec fn is_memory(&self) -> bool {
        ||| *self is CLS
        ||| *self is LDI
        ||| *self is DRW
        ||| *self is ADDI
        ||| *self is LDF
        ||| *self is LDB
        ||| *self is LDIV
        ||| *self is LDVI
    }

    /// The timer family: the instructions that read or set a timer.
    pub open spec fn is_timer(&self) -> bool {
        ||| *self is LDD
        ||| *self is LDDV
        ||| *self is LDS
    }

    /// The instructions that need a keyboard.
    pub open spec fn is_keyboard(&self) -> bool {
        ||| *self is SKP
        ||| *self is SKNP
        ||| *self is LDK
    }
}

/// The nibble of `word` at `position`, counted from the most significant
/// (position 0) to the least significant (position 3).
pub open spec fn nibble(word: u16, position: int) -> u8 {
    if position == 0 {
        (word / 0x1000) as u8
    } else if position == 1 {
        ((word / 0x100) % 0x10) as u8
    } else if position == 2 {
        ((word / 0x10) % 0x10) as u8
    } else {
        (word % 0x10) as u8
    }
}

/// Three nibbles concatenated into a twelve-bit address operand.
pub open spec fn address_of_nibbles(a: u8, b: u8, c: u8) -> MemoryAddress {
    (a * 0x100 + b * 0x10 + c) as u16
}

/// Two nibbles concatenated into a byte operand.
pub open spec fn byte_of_nibbles(b: u8, c: u8) -> u8 {
    (b * 0x10 + c) as u8
}

/// The instruction that the four nibbles `family`, `x`, `y`, `n` encode, or
/// `BadCode` where they match no pattern of the instruction table.
pub open spec fn decode_nibbles(family: u8, x: u8, y: u8, n: u8) -> Result<
    Instruction,
    InstructionError,
> {
    let kk = byte_of_nibbles(y, n);
    let addr = address_of_nibbles(x, y, n);
    if family == 0x0 {
        if x == 0x0 && y == 0xE && n == 0x0 {
            Ok(Instruction::CLS)
        } else if x == 0x0 && y == 0xE && n == 0xE {
            Ok(Instruction::RET)
        } else {
            Err(InstructionError::BadCode)
        }
    } else if family == 0x1 {
        Ok(Instruction::JP(addr))
    } else if family == 0x2 {
        Ok(Instruction::CALL(addr))
    } else if family == 0x3 {
        Ok(Instruction::SE(x, kk))
    } else if family == 0x4 {
        Ok(Instruction::SNE(x, kk))
    } else if family == 0x5 {
        if n == 0x0 {
            Ok(Instruction::SEV(x, y))
        } else {
            Err(InstructionError::BadCode)
        }
    } else if family == 0x6 {
        Ok(Instruction::LD(x, kk))
    } else if family == 0x7 {
        Ok(Instruction::ADD(x, kk))
    } else if family == 0x8 {
        if n == 0x0 {
            Ok(Instruction::LDV(x, y))
        } else if n == 0x1 {
            Ok(Instruction::OR(x, y))
        } else if n == 0x2 {
            Ok(Instruction::AND(x, y))
        } else if n == 0x3 {
            Ok(Instruction::XOR(x, y))
        } else if n == 0x4 {
            Ok(Instruction::ADDV(x, y))
        } else if n == 0x5 {
            Ok(Instruction::SUB(x, y))
        } else if n == 0x6 {
            Ok(Instruction::SHR(x))
        } else if n == 0x7 {
            Ok(Instruction::SUBN(x, y))
        } else if n == 0xE {
            Ok(Instruction::SHL(x))
        } else {
            Err(InstructionError::BadCode)
        }
    } else if family == 0x9 {
        if n == 0x0 {
            Ok(Instruction::SNEV(x, y))
        } else {
            Err(InstructionError::BadCode)
        }
    } else if family == 0xA {
        Ok(Instruction::LDI(addr))
    } else if family == 0xB {
        Ok(Instruction::JPV(addr))
    } else if family == 0xC {
        Ok(Instruction::RND(x, kk))
    } else if family == 0xD {
        Ok(Instruction::DRW(x, y, n))
    } else if family == 0xE {
        if y == 0x9 && n == 0xE {
            Ok(Instruction::SKP(x))
        } else if y == 0xA && n == 0x1 {
            Ok(Instruction::SKNP(x))
        } else {
            Err(InstructionError::BadCode)
        }
    } else if family == 0xF {
        if y == 0x0 && n == 0x7 {
            Ok(Instruction::LDD(x))
        } else if y == 0x0 && n == 0xA {
            Ok(Instruction::LDK(x))
        } else if y == 0x1 && n == 0x5 {
            Ok(Instruction::LDDV(x))
        } else if y == 0x1 && n == 0x8 {
            Ok(Instruction::LDS(x))
        } else if y == 0x1 && n == 0xE {
            Ok(Instruction::ADDI(x))
        } else if y == 0x2 && n == 0x9 {
            Ok(Instruction::LDF(x))
        } else if y == 0x3 && n == 0x3 {
            Ok(Instruction::LDB(x))
        } else if y == 0x5 && n == 0x5 {
            Ok(Instruction::LDIV)
        } else if y == 0x6 && n == 0x5 {
            Ok(Instruction::LDVI)
        } else {
            Err(InstructionError::BadCode)
        }
    } else {
        Err(InstructionError::BadCode)
    }
}

/// The instruction that `word` encodes: its four nibbles, decoded.
pub open spec fn decode(word: u16) -> Result<Instruction, InstructionError> {
    decode_nibbles(nibble(word, 0), nibble(word, 1), nibble(word, 2), nibble(word, 3))
}

/// The word that two bytes form when read big-endian.
pub open spec fn word_of_bytes(high: u8, low: u8) -> u16 {
    (high * 0x100 + low) as u16
}

/// The instruction at the front of `bytes`; fewer than two bytes hold no
/// word and decode to `BadCode`.
pub open spec fn decode_bytes(bytes: Seq<u8>) -> Result<Instruction, InstructionError> {
    if bytes.len() >= 2 {
        decode(word_of_bytes(bytes[0], bytes[1]))
    } else {
        Err(InstructionError::BadCode)
    }
}

/// The four nibbles of a word, split off with masks and shifts, are its
/// base-sixteen digits.
proof fn lemma_nibbles(value: u16)
    ensures
        (value & 0xF000) >> 12 == value / 0x1000,
        (value & 0x0F00) >> 8 == (value / 0x100) % 0x10,
        (value & 0x00F0) >> 4 == (value / 0x10) % 0x10,
        value & 0x000F == value % 0x10,
{
    assert((value & 0xF000) >> 12 == value / 0x1000) by (bit_vector);
    assert((value & 0x0F00) >> 8 == (value / 0x100) % 0x10) by (bit_vector);
    assert((value & 0x00F0) >> 4 == (value / 0x10) % 0x10) by (bit_vector);
    assert(value & 0x000F == value % 0x10) by (bit_vector);
}

/// Joins three nibbles into a twelve-bit address.
fn join_address(a: u8, b: u8, c: u8) -> (addr: MemoryAddress)
    requires
        a < 16,
        b < 16,
        c < 16,
    ensures
        addr == address_of_nibbles(a, b, c),
{
    a as u16 * 16 * 16 + b as u16 * 16 + c as u16
}

/// Joins two nibbles into a byte.
fn join_byte(b: u8, c: u8) -> (byte: u8)
    requires
        b < 16,
        c < 16,
    ensures
        byte == byte_of_nibbles(b, c),
{
    b * 16 + c
}

/// A decoding result with its error boxed, as the conversions return it.
pub open spec fn boxed(result: Result<Instruction, InstructionError>) -> Result<
    Instruction,
    Box<InstructionError>,
> {
    match result {
        Ok(instruction) => Ok(instruction),
        Err(e) => Err(Box::new(e)),
    }
}

impl TryFrom<u16> for Instruction {
    type Error = Box<InstructionError>;

    /// Decodes one instruction word. Every word either is the instruction
    /// that its nibbles encode or is refused as `BadCode`.
    fn try_from(value: u16) -> (res: Result<Self, Self::Error>)
        ensures
            res == boxed(decode(value)),
    {
        let n0: u8 = ((value & 0xF000) >> 12) as u8;
        let n1: u8 = ((value & 0x0F00) >> 8) as u8;
        let n2: u8 = ((value & 0x00F0) >> 4) as u8;
        let n3: u8 = (value & 0x000F) as u8;
        proof {
            lemma_nibbles(value);
        }
        assert(n0 == nibble(value, 0) && n1 == nibble(value, 1) && n2 == nibble(value, 2) && n3
            == nibble(value, 3));
        match (n0, n1, n2, n3) {
            (0, 0, 0xE, 0) => Ok(Instruction::CLS),
            (0, 0, 0xE, 0xE) => Ok(Instruction::RET),
            (1, a, b, c) => Ok(Instruction::JP(join_address(a, b, c))),
            (2, a, b, c) => Ok(Instruction::CALL(join_address(a, b, c))),
            (3, a, b, c) => Ok(Instruction::SE(a, join_byte(b, c))),
            (4, a, b, c) => Ok(Instruction::SNE(a, join_byte(b, c))),
            (5, a, b, 0) => Ok(Instruction::SEV(a, b)),
            (6, a, b, c) => Ok(Instruction::LD(a, join_byte(b, c))),
            (7, a, b, c) => Ok(Instruction::ADD(a, join_byte(b, c))),
            (8, a, b, 0) => Ok(Instruction::LDV(a, b)),
            (8, a, b, 1) => Ok(Instruction::OR(a, b)),
            (8, a, b, 2) => Ok(Instruction::AND(a, b)),
            (8, a, b, 3) => Ok(Instruction::XOR(a, b)),
            (8, a, b, 4) => Ok(Instruction::ADDV(a, b)),
            (8, a, b, 5) => Ok(Instruction::SUB(a, b)),
            (8, a, _, 6) => Ok(Instruction::SHR(a)),
            (8, a, b, 7) => Ok(Instruction::SUBN(a, b)),
            (8, a, _, 0xE) => Ok(Instruction::SHL(a)),
            (9, a, b, 0) => Ok(Instruction::SNEV(a, b)),
            (0xA, a, b, c) => Ok(Instruction::LDI(join_address(a, b, c))),
            (0xB, a, b, c) => Ok(Instruction::JPV(join_address(a, b, c))),
            (0xC, a, b, c) => Ok(Instruction::RND(a, join_byte(b, c))),
            (0xD, a, b, c) => Ok(Instruction::DRW(a, b, c)),
            (0xE, a, 9, 0xE) => Ok(Instruction::SKP(a)),
            (0xE, a, 0xA, 1) => Ok(Instruction::SKNP(a)),
            (0xF, a, 0, 7) => Ok(Instruction::LDD(a)),
            (0xF, a, 0, 0xA) => Ok(Instruction::LDK(a)),
            (0xF, a, 1, 5) => Ok(Instruction::LDDV(a)),
            (0xF, a, 1, 8) => Ok(Instruction::LDS(a)),
            (0xF, a, 1, 0xE) => Ok(Instruction::ADDI(a)),
            (0xF, a, 2, 9) => Ok(Instruction::LDF(a)),
            (0xF, a, 3, 3) => Ok(Instruction::LDB(a)),
            (0xF, _, 5, 5) => Ok(Instruction::LDIV),
            (0xF, _, 6, 5) => Ok(Instruction::LDVI),
            _ => Err(Box::new(InstructionError::BadCode)),
        }
    }
}

impl TryFromSpecImpl<u16> for Instruction {
    open spec fn obeys_try_from_spec() -> bool {
        true
    }

    open spec fn try_from_spec(v: u16) -> Result<Self, Box<InstructionError>> {
        boxed(decode(v))
    }
}

impl TryFrom<[u8; 2]> for Instruction {
    type Error = Box<InstructionError>;

    /// Decodes the word that two bytes form when read big-endian.
    fn try_from(value: [u8; 2]) -> (res: Result<Self, Self::Error>)
        ensures
            res == boxed(decode(word_of_bytes(value@[0], value@[1]))),
    {
        let code: u16 = value[0] as u16 * 0x100 + value[1] as u16;
        Instruction::try_from(code)
    }
}

impl TryFromSpecImpl<[u8; 2]> for Instruction {
    open spec fn obeys_try_from_spec() -> bool {
        true
    }

    open spec fn try_from_spec(v: [u8; 2]) -> Result<Self, Box<InstructionError>> {
        boxed(decode(word_of_bytes(v@[0], v@[1])))
    }
}

impl<'a> TryFrom<&'a [u8]> for Instruction {
    type Error = Box<InstructionError>;

    /// Decodes the word at the front of `value`, read big-endian. A slice
    /// of fewer than two bytes holds no word and is refused as `BadCode`.
    fn try_from(value: &'a [u8]) -> (res: Result<Self, Self::Error>)
        ensures
            res == boxed(decode_bytes(value@)),
    {
        if value.len() < 2 {
            return Err(Box::new(InstructionError::BadCode));
        }
        let bytes: [u8; 2] = [value[0], value[1]];
        Instruction::try_from(bytes)
    }
}

impl<'a> TryFromSpecImpl<&'a [u8]> for Instruction {
    open spec fn obeys_try_from_spec() -> bool {
        true
    }

    open spec fn try_from_spec(v: &'a [u8]) -> Result<Self, Box<InstructionError>> {
        boxed(decode_bytes(v@))
    }
}

/// Every instruction belongs to exactly one of the five families.
pub proof fn lemma_one_family(instruction: Instruction)
    ensures
        instruction.is_control_flow() || instruction.is_arithmetic() || instruction.is_memory()
            || instruction.is_timer() || instruction.is_keyboard(),
        instruction.is_control_flow() ==> !instruction.is_arithmetic() && !instruction.is_memory()
            && !instruction.is_timer() && !instruction.is_keyboard(),
        instruction.is_arithmetic() ==> !instruction.is_memory() && !instruction.is_timer()
            && !instruction.is_keyboard(),
        instruction.is_memory() ==> !instruction.is_timer() && !instruction.is_keyboard(),
        instruction.is_timer() ==> !instruction.is_keyboard(),
{
}

/// The fields of an instruction word. Each nibble is below sixteen, the
/// four of them make up the word, the address operand is the word's low
/// twelve bits and the byte operand its low eight: every operand that
/// `decode` hands out is the field of the word that its kind names.
pub proof fn lemma_decode_fields(word: u16)
    ensures
        forall|position: int| 0 <= position < 4 ==> nibble(word, position) < 16,
        word == nibble(word, 0) * 0x1000 + nibble(word, 1) * 0x100 + nibble(word, 2) * 0x10
            + nibble(word, 3),
        address_of_nibbles(nibble(word, 1), nibble(word, 2), nibble(word, 3)) == word % 0x1000,
        address_of_nibbles(nibble(word, 1), nibble(word, 2), nibble(word, 3)) < 0x1000,
        byte_of_nibbles(nibble(word, 2), nibble(word, 3)) == word % 0x100,
{
    assert(word / 0x1000 < 0x10) by (bit_vector);
    assert(word == (word / 0x1000) * 0x1000 + ((word / 0x100) % 0x10) * 0x100 + ((word / 0x10)
        % 0x10) * 0x10 + word % 0x10) by (bit_vector);
    assert(((word / 0x100) % 0x10) * 0x100 + ((word / 0x10) % 0x10) * 0x10 + word % 0x10 == word
        % 0x1000) by (bit_vector);
    assert(((word / 0x10) % 0x10) * 0x10 + word % 0x10 == word % 0x100) by (bit_vector);
}

/// The word put together from four nibbles has those four nibbles.
proof fn lemma_nibbles_of_word(family: u8, x: u8, y: u8, n: u8)
    requires
        family < 16,
        x < 16,
        y < 16,
        n < 16,
    ensures
        ({
            let word = (family * 0x1000 + x * 0x100 + y * 0x10 + n) as u16;
            &&& word == family * 0x1000 + x * 0x100 + y * 0x10 + n
            &&& nibble(word, 0) == family
            &&& nibble(word, 1) == x
            &&& nibble(word, 2) == y
            &&& nibble(word, 3) == n
            &&& address_of_nibbles(x, y, n) == x * 0x100 + y * 0x10 + n
            &&& byte_of_nibbles(y, n) == y * 0x10 + n
        }),
{
    let word = family * 0x1000 + x * 0x100 + y * 0x10 + n;
    lemma_fundamental_div_mod_converse(word, 0x1000, family as int, x * 0x100 + y * 0x10 + n);
    lemma_fundamental_div_mod_converse(word, 0x100, family * 0x10 + x, y * 0x10 + n);
    lemma_fundamental_div_mod_converse(family * 0x10 + x, 0x10, family as int, x as int);
    lemma_fundamental_div_mod_converse(word, 0x10, family * 0x100 + x * 0x10 + y, n as int);
    lemma_fundamental_div_mod_converse(family * 0x100 + x * 0x10 + y, 0x10, family * 0x10 + x, y as int);
}

/// An address below 4096 is made of its three base-sixteen digits.
proof fn lemma_split_address(addr: MemoryAddress)
    requires
        addr < 0x1000,
    ensures
        addr / 0x100 < 0x10,
        addr == (addr / 0x100) * 0x100 + ((addr / 0x10) % 0x10) * 0x10 + addr % 0x10,
{
}

/// A byte is made of its two base-sixteen digits.
proof fn lemma_split_byte(byte: u8)
    ensures
        byte / 0x10 < 0x10,
        byte == (byte / 0x10) * 0x10 + byte % 0x10,
{
}

/// An instruction whose encoding is made of four nibbles that decode to it
/// is what its encoding decodes to.
proof fn lemma_round_trip(instruction: Instruction, family: u8, x: u8, y: u8, n: u8)
    requires
        family < 16,
        x < 16,
        y < 16,
        n < 16,
        instruction.encode() == family * 0x1000 + x * 0x100 + y * 0x10 + n,
        decode_nibbles(family, x, y, n) == Ok::<Instruction, InstructionError>(instruction),
    ensures
        decode(instruction.encode()) == Ok::<Instruction, InstructionError>(instruction),
{
    lemma_nibbles_of_word(family, x, y, n);
}

/// Whoever encodes an instruction and decodes the word gets the
/// instruction back.
pub proof fn lemma_decode_of_encode(instruction: Instruction)
    requires
        instruction.operands_in_range(),
    ensures
        decode(instruction.encode()) == Ok::<Instruction, InstructionError>(instruction),
{
    match instruction {
        Instruction::JP(addr) | Instruction::CALL(addr) | Instruction::LDI(addr)
        | Instruction::JPV(addr) => lemma_split_address(addr),
        Instruction::SE(_, kk) | Instruction::SNE(_, kk) | Instruction::LD(_, kk)
        | Instruction::ADD(_, kk) | Instruction::RND(_, kk) => lemma_split_byte(kk),
        _ => {},
    }
    match instruction {
        Instruction::CLS => lemma_round_trip(instruction, 0x0, 0x0, 0xE, 0x0),
        Instruction::RET => lemma_round_trip(instruction, 0x0, 0x0, 0xE, 0xE),
        Instruction::JP(addr) => lemma_round_trip(instruction, 0x1, (addr / 0x100) as u8, ((addr / 0x10) % 0x10) as u8, (addr % 0x10) as u8),
        Instruction::CALL(addr) => lemma_round_trip(instruction, 0x2, (addr / 0x100) as u8, ((addr / 0x10) % 0x10) as u8, (addr % 0x10) as u8),
        Instruction::SE(x, kk) => lemma_round_trip(instruction, 0x3, x, (kk / 0x10) as u8, (kk % 0x10) as u8),
        Instruction::SNE(x, kk) => lemma_round_trip(instruction, 0x4, x, (kk / 0x10) as u8, (kk % 0x10) as u8),
        Instruction::SEV(x, y) => lemma_round_trip(instruction, 0x5, x, y, 0x0),
        Instruction::LD(x, kk) => lemma_round_trip(instruction, 0x6, x, (kk / 0x10) as u8, (kk % 0x10) as u8),
        Instruction::ADD(x, kk) => lemma_round_trip(instruction, 0x7, x, (kk / 0x10) as u8, (kk % 0x10) as u8),
        Instruction::LDV(x, y) => lemma_round_trip(instruction, 0x8, x, y, 0x0),
        Instruction::OR(x, y) => lemma_round_trip(instruction, 0x8, x, y, 0x1),
        Instruction::AND(x, y) => lemma_round_trip(instruction, 0x8, x, y, 0x2),
        Instruction::XOR(x, y) => lemma_round_trip(instruction, 0x8, x, y, 0x3),
        Instruction::ADDV(x, y) => lemma_round_trip(instruction, 0x8, x, y, 0x4),
        Instruction::SUB(x, y) => lemma_round_trip(instruction, 0x8, x, y, 0x5),
        Instruction::SHR(x) => lemma_round_trip(instruction, 0x8, x, 0x0, 0x6),
        Instruction::SUBN(x, y) => lemma_round_trip(instruction, 0x8, x, y, 0x7),
        Instruction::SHL(x) => lemma_round_trip(instruction, 0x8, x, 0x0, 0xE),
        Instruction::SNEV(x, y) => lemma_round_trip(instruction, 0x9, x, y, 0x0),
        Instruction::LDI(addr) => lemma_round_trip(instruction, 0xA, (addr / 0x100) as u8, ((addr / 0x10) % 0x10) as u8, (addr % 0x10) as u8),
        Instruction::JPV(addr) => lemma_round_trip(instruction, 0xB, (addr / 0x100) as u8, ((addr / 0x10) % 0x10) as u8, (addr % 0x10) as u8),
        Instruction::RND(x, kk) => lemma_round_trip(instruction, 0xC, x, (kk / 0x10) as u8, (kk % 0x10) as u8),
        Instruction::DRW(x, y, n) => lemma_round_trip(instruction, 0xD, x, y, n),
        Instruction::SKP(x) => lemma_round_trip(instruction, 0xE, x, 0x9, 0xE),
        Instruction::SKNP(x) => lemma_round_trip(instruction, 0xE, x, 0xA, 0x1),
        Instruction::LDD(x) => lemma_round_trip(instruction, 0xF, x, 0x0, 0x7),
        Instruction::LDK(x) => lemma_round_trip(instruction, 0xF, x, 0x0, 0xa),
        Instruction::LDDV(x) => lemma_round_trip(instruction, 0xF, x, 0x1, 0x5),
        Instruction::LDS(x) => lemma_round_trip(instruction, 0xF, x, 0x1, 0x8),
        Instruction::ADDI(x) => lemma_round_trip(instruction, 0xF, x, 0x1, 0xe),
        Instruction::LDF(x) => lemma_round_trip(instruction, 0xF, x, 0x2, 0x9),
        Instruction::LDB(x) => lemma_round_trip(instruction, 0xF, x, 0x3, 0x3),
        Instruction::LDIV => lemma_round_trip(instruction, 0xF, 0x0, 0x5, 0x5),
        Instruction::LDVI => lemma_round_trip(instruction, 0xF, 0x0, 0x6, 0x5),
    }
}

/// A word that decodes is the encoding of its instruction, but for the
/// nibble that the pattern ignores: `y` of the shifts, `x` of the bulk
/// register transfers. So a word decodes to one instruction only, whose
/// operands are the word's fields.
pub proof fn lemma_encode_of_decode(word: u16)
    requires
        decode(word) is Ok,
    ensures
        ({
            let instruction = decode(word)->Ok_0;
            &&& instruction.operands_in_range()
            &&& instruction.encode() == if instruction is SHR || instruction is SHL {
                word - nibble(word, 2) * 0x10
            } else if instruction is LDIV || instruction is LDVI {
                word - nibble(word, 1) * 0x100
            } else {
                word as int
            }
        }),
{
    lemma_decode_fields(word);
}

} // verus!
