//! A program image: the bytes that fill the machine's program area.

use vstd::prelude::*;
use vstd::string::StringExecFns;
use crate::text::{decimal, push_decimal};

verus! {

/// Capacity of a program image, the size of the machine's program area.
pub const PROGRAM_CAPACITY: usize = 3584;

/// Why a program was refused.
#[derive(Debug, Clone, Copy, PartialEq, Eq, Structural)]
pub enum ProgramError {
    /// The program has the given number of bytes, more than the program
    /// area holds.
    SpaceExceeded(usize),
}

impl ProgramError {
    /// The text of the error's message.
    pub open spec fn message_text(self) -> Seq<char> {
        match self {
            ProgramError::SpaceExceeded(size) => "Program too large! Max Bytes: [3584], Given: ["@
                + decimal(size as nat) + "]"@,
        }
    }

    /// The error's message.
    pub fn message(&self) -> (text: String)
        ensures
            text@ == self.message_text(),
    {
        match self {
            ProgramError::SpaceExceeded(size) => {
                let mut text = String::from_str("Program too large! Max Bytes: [3584], Given: [");
                push_decimal(&mut text, *size);
                text.append("]");
                text
            },
        }
    }
}

/// A program image of fixed capacity, padded with zeros.
pub struct Program {
    bytes: [u8; 3584],
}

/// The image that holds `bytes` followed by zeros up to capacity.
pub open spec fn padded(bytes: Seq<u8>) -> Seq<u8> {
    Seq::new(
        3584,
        |a: int|
            if a < bytes.len() {
                bytes[a]
            } else {
                0u8
            },
    )
}

impl View for Program {
    type V = Seq<u8>;

    closed spec fn view(&self) -> Seq<u8> {
        self.bytes@
    }
}

impl Default for Program {
    /// The empty image: all zeros.
    fn default() -> (program: Self)
        ensures
            program@ == padded(Seq::empty()),
    {
        let program = Self { bytes: [0; 3584] };
        assert(program@ =~= padded(Seq::empty()));
        program
    }
}

impl Program {
    /// An image always has exactly 3584 bytes.
    pub proof fn lemma_len(&self)
        ensures
            self@.len() == 3584,
    {
    }

    /// Replaces the image by `bytes`, padded with zeros. A program larger
    /// than the capacity is refused and the image stays as it was.
    pub fn save_bytes(&mut self, bytes: &[u8]) -> (res: Result<(), ProgramError>)
        ensures
            bytes@.len() <= 3584 ==> res is Ok && final(self)@ == padded(bytes@),
            bytes@.len() > 3584 ==> res == Err::<(), ProgramError>(
                ProgramError::SpaceExceeded(bytes@.len() as usize),
            ) && final(self)@ == old(self)@,
    {
        let len = bytes.len();
        if len > 3584 {
            return Err(ProgramError::SpaceExceeded(len));
        }
        let mut a: usize = 0;
        while a < 3584
            invariant
                a <= 3584,
                len == bytes@.len(),
                len <= 3584,
                self@.len() == 3584,
                forall|b: int| 0 <= b < a ==> self@[b] == padded(bytes@)[b],
            decreases 3584 - a,
        {
            self.bytes[a] = if a < len {
                bytes[a]
            } else {
                0
            };
            a += 1;
        }
        assert(self@ =~= padded(bytes@));
        Ok(())
    }

    /// The whole image, program bytes first.
    pub fn as_bytes(&self) -> (bytes: &[u8])
        ensures
            bytes@ == self@,
    {
        self.bytes.as_slice()
    }
}

} // verus!
