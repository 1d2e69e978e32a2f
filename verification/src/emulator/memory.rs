//! The address space: 4096 bytes, the first eighty of which hold the
//! hexadecimal font.

use vstd::prelude::*;
use vstd::slice::slice_subrange;
use vstd::string::StringExecFns;
use super::emulator::MemoryAddress;
use crate::text::{decimal, push_decimal};

verus! {

/// Number of addressable bytes.
pub const MEMORY_SIZE: usize = 4096;

/// First address of the program and work area.
pub const PROGRAM_START: MemoryAddress = 0x200;

/// Number of bytes in the program and work area.
pub const PROGRAM_AREA_SIZE: usize = 3584;

/// Number of bytes in one font glyph.
pub const GLYPH_SIZE: usize = 5;

/// Number of bytes in the font table.
pub const FONT_SIZE: usize = 80;

/// The glyphs of the sixteen hexadecimal digits, five rows of pixels each.
pub const HEX_SPRITES: [u8; 80] = [
    0xF0, 0x90, 0x90, 0x90, 0xF0,
    0x20, 0x60, 0x20, 0x20, 0x70,
    0xF0, 0x10, 0xF0, 0x80, 0xF0,
    0xF0, 0x10, 0xF0, 0x10, 0xF0,
    0x90, 0x90, 0xF0, 0x10, 0x10,
    0xF0, 0x80, 0xF0, 0x10, 0xF0,
    0xF0, 0x80, 0xF0, 0x90, 0xF0,
    0xF0, 0x10, 0x20, 0x40, 0x40,
    0xF0, 0x90, 0xF0, 0x90, 0xF0,
    0xF0, 0x90, 0xF0, 0x10, 0xF0,
    0xF0, 0x90, 0xF0, 0x90, 0x90,
    0xE0, 0x90, 0xE0, 0x90, 0xE0,
    0xF0, 0x80, 0x80, 0x80, 0xF0,
    0xE0, 0x90, 0x90, 0x90, 0xE0,
    0xF0, 0x80, 0xF0, 0x80, 0xF0,
    0xF0, 0x80, 0xF0, 0x80, 0x80,
];

/// A memory access that does not lie within the address space.
#[derive(Debug, Clone, Copy, PartialEq, Eq, Structural)]
pub enum MemoryError {
    /// A read of the given length from the given address, or a write of one
    /// byte to it, leaves the address space.
    OutOfBounds(MemoryAddress, usize),
    /// A write starting at the given address would run past the end of the
    /// address space by the given number of bytes.
    OutOfMemory(MemoryAddress, usize),
}

impl MemoryError {
    /// The text of the error's message. The end of a range that is out of
    /// bounds is shown reduced to sixteen bits.
    pub open spec fn message_text(self) -> Seq<char> {
        match self {
            MemoryError::OutOfBounds(addr, length) =>
                "The memory range accessed is out of bounds (max 4096): ["@ + decimal(
                    addr as nat,
                ) + " ... "@ + decimal(((addr + length) % 0x1_0000) as nat) + "]"@,
            MemoryError::OutOfMemory(addr, excess_bytes) =>
                "Attempting to write memory past bounds, starting at "@ + decimal(addr as nat)
                    + ". [Excess bytes: "@ + decimal(excess_bytes as nat) + "]"@,
        }
    }

    /// The error's message.
    pub fn message(&self) -> (text: String)
        ensures
            text@ == self.message_text(),
    {
        match self {
            MemoryError::OutOfBounds(addr, length) => {
                let end: u16 = addr.wrapping_add((*length % 0x1_0000) as u16);
                let mut text = String::from_str(
                    "The memory range accessed is out of bounds (max 4096): [",
                );
                push_decimal(&mut text, *addr as usize);
                text.append(" ... ");
                push_decimal(&mut text, end as usize);
                text.append("]");
                text
            },
            MemoryError::OutOfMemory(addr, excess_bytes) => {
                let mut text = String::from_str(
                    "Attempting to write memory past bounds, starting at ",
                );
                push_decimal(&mut text, *addr as usize);
                text.append(". [Excess bytes: ");
                push_decimal(&mut text, *excess_bytes);
                text.append("]");
                text
            },
        }
    }
}

/// The 4096-byte address space.
#[derive(Debug)]
pub struct Memory {
    buffer: [u8; 4096],
}

/// What a freshly created memory holds: the font table, then zeros.
pub open spec fn initial_memory() -> Seq<u8> {
    Seq::new(
        4096,
        |a: int|
            if a < 80 {
                HEX_SPRITES@[a]
            } else {
                0u8
            },
    )
}

/// The memory `mem` with its program and work area zeroed.
pub open spec fn cleared(mem: Seq<u8>) -> Seq<u8> {
    Seq::new(
        mem.len(),
        |a: int|
            if a < 0x200 {
                mem[a]
            } else {
                0u8
            },
    )
}

/// Whether the `length` bytes from `start` lie within the address space.
pub open spec fn in_bounds(start: MemoryAddress, length: nat) -> bool {
    start + length <= 4096
}

/// What reading `length` bytes from `start` yields.
pub open spec fn read_range(mem: Seq<u8>, start: MemoryAddress, length: nat) -> Result<
    Seq<u8>,
    MemoryError,
> {
    if in_bounds(start, length) {
        Ok(mem.subrange(start as int, start + length))
    } else {
        Err(MemoryError::OutOfBounds(start, length as usize))
    }
}

/// The outcome of writing `data` at `start`: nothing is written unless the
/// whole of `data` fits.
pub open spec fn write_range_result(start: MemoryAddress, data: Seq<u8>) -> Result<
    (),
    MemoryError,
> {
    if in_bounds(start, data.len()) {
        Ok(())
    } else {
        Err(MemoryError::OutOfMemory(start, (start + data.len() - 4096) as usize))
    }
}

/// The memory after writing `data` at `start`.
pub open spec fn write_range(mem: Seq<u8>, start: MemoryAddress, data: Seq<u8>) -> Seq<u8> {
    if in_bounds(start, data.len()) {
        Seq::new(
            mem.len(),
            |a: int|
                if start <= a < start + data.len() {
                    data[a - start]
                } else {
                    mem[a]
                },
        )
    } else {
        mem
    }
}

/// The outcome of writing one byte at `addr`.
pub open spec fn write_byte_result(addr: MemoryAddress) -> Result<(), MemoryError> {
    if addr < 4096 {
        Ok(())
    } else {
        Err(MemoryError::OutOfBounds(addr, 0))
    }
}

/// The memory after writing `byte` at `addr`.
pub open spec fn write_byte(mem: Seq<u8>, addr: MemoryAddress, byte: u8) -> Seq<u8> {
    if addr < 4096 {
        mem.update(addr as int, byte)
    } else {
        mem
    }
}

impl View for Memory {
    type V = Seq<u8>;

    closed spec fn view(&self) -> Seq<u8> {
        self.buffer@
    }
}

impl Default for Memory {
    /// A memory that holds the font table and is zero everywhere else.
    fn default() -> (memory: Self)
        ensures
            memory@ == initial_memory(),
    {
        let mut buffer: [u8; 4096] = [0; 4096];
        let mut a: usize = 0;
        while a < 80
            invariant
                a <= 80,
                forall|b: int| 0 <= b < a ==> buffer@[b] == HEX_SPRITES@[b],
                forall|b: int| a <= b < 4096 ==> buffer@[b] == 0,
            decreases 80 - a,
        {
            buffer[a] = HEX_SPRITES[a];
            a += 1;
        }
        let memory = Self { buffer };
        assert(memory@ =~= initial_memory());
        memory
    }
}

impl Memory {
    /// The address space always holds exactly 4096 bytes.
    pub proof fn lemma_len(&self)
        ensures
            self@.len() == 4096,
    {
    }

    /// Zeroes the program and work area; the bytes below it, the font table
    /// among them, stay as they are.
    pub fn clear(&mut self)
        ensures
            final(self)@ == cleared(old(self)@),
    {
        let mut a: usize = 0x200;
        while a < 4096
            invariant
                0x200 <= a <= 4096,
                self@.len() == 4096,
                forall|b: int| 0 <= b < 0x200 ==> self@[b] == old(self)@[b],
                forall|b: int| 0x200 <= b < a ==> self@[b] == 0,
            decreases 4096 - a,
        {
            self.buffer[a] = 0;
            a += 1;
        }
        assert(self@ =~= cleared(old(self)@));
    }

    /// The `length` bytes from `start_addr`, if they all lie within the
    /// address space.
    pub fn get_range(&self, start_addr: MemoryAddress, length: usize) -> (res: Result<
        &[u8],
        MemoryError,
    >)
        ensures
            match read_range(self@, start_addr, length as nat) {
                Ok(bytes) => res is Ok && res->Ok_0@ == bytes,
                Err(e) => res == Err::<&[u8], MemoryError>(e),
            },
    {
        if length > 4096 || start_addr as usize > 4096 - length {
            return Err(MemoryError::OutOfBounds(start_addr, length));
        }
        let start = start_addr as usize;
        Ok(slice_subrange(self.buffer.as_slice(), start, start + length))
    }

    /// Writes `data` at `start_addr`. If it does not fit as a whole, nothing
    /// is written and the error tells by how many bytes it runs over. The
    /// end of the range has to be a machine integer, as it is for every
    /// slice that fits into an address space.
    pub fn set_range(&mut self, start_addr: MemoryAddress, data: &[u8]) -> (res: Result<
        (),
        MemoryError,
    >)
        requires
            start_addr + data@.len() <= usize::MAX,
        ensures
            res == write_range_result(start_addr, data@),
            final(self)@ == write_range(old(self)@, start_addr, data@),
    {
        let data_len = data.len();
        let start = start_addr as usize;
        if start + data_len > 4096 {
            return Err(MemoryError::OutOfMemory(start_addr, start + data_len - 4096));
        }
        let mut i: usize = 0;
        while i < data_len
            invariant
                i <= data_len,
                data_len == data@.len(),
                start + data_len <= 4096,
                self@.len() == 4096,
                forall|a: int| 0 <= a < start ==> self@[a] == old(self)@[a],
                forall|a: int| start <= a < start + i ==> self@[a] == data@[a - start],
                forall|a: int| start + i <= a < 4096 ==> self@[a] == old(self)@[a],
            decreases data_len - i,
        {
            self.buffer[start + i] = data[i];
            i += 1;
        }
        assert(self@ =~= write_range(old(self)@, start_addr, data@));
        Ok(())
    }

    /// Writes one byte; an address outside the address space is refused.
    pub fn set_byte(&mut self, addr: MemoryAddress, byte: u8) -> (res: Result<(), MemoryError>)
        ensures
            res == write_byte_result(addr),
            final(self)@ == write_byte(old(self)@, addr, byte),
    {
        if addr as usize >= 4096 {
            return Err(MemoryError::OutOfBounds(addr, 0));
        }
        self.buffer[addr as usize] = byte;
        Ok(())
    }
}

} // verus!
