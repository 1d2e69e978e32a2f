//! The register bank: sixteen byte registers, the last of which doubles as
//! the flag register.

use vstd::prelude::*;
use vstd::string::StringExecFns;
use super::emulator::RegisterAddress;
use crate::text::{push_upper_hex, upper_hex};

verus! {

/// Number of registers in the bank.
pub const REGISTER_COUNT: usize = 16;

/// The register that arithmetic and draw instructions report into.
pub const FLAG_REGISTER: RegisterAddress = 0xF;

/// A register access that named a register outside the bank.
#[derive(Debug, Clone, Copy, PartialEq, Eq, Structural)]
pub enum RegisterError {
    /// The offending register index.
    InvalidRegister(RegisterAddress),
}

impl RegisterError {
    /// The text of the error's message: the offending index in upper-case
    /// hexadecimal.
    pub open spec fn message_text(self) -> Seq<char> {
        match self {
            RegisterError::InvalidRegister(vx) => "Invalid register access: V"@ + upper_hex(
                vx as nat,
            ),
        }
    }

    /// The error's message.
    pub fn message(&self) -> (text: String)
        ensures
            text@ == self.message_text(),
    {
        match self {
            RegisterError::InvalidRegister(vx) => {
                let mut text = String::from_str("Invalid register access: V");
                push_upper_hex(&mut text, *vx as usize);
                text
            },
        }
    }
}

/// Sixteen unsigned bytes, indexed `0..16`.
#[derive(Debug)]
pub struct Registers {
    buffer: [u8; 16],
}

/// What reading register `addr` of the bank `regs` yields.
pub open spec fn read_register(regs: Seq<u8>, addr: RegisterAddress) -> Result<u8, RegisterError> {
    if addr < 16 {
        Ok(regs[addr as int])
    } else {
        Err(RegisterError::InvalidRegister(addr))
    }
}

/// What reading the two registers `addr1` and `addr2` yields: the first
/// invalid index, in argument order, is the one reported.
pub open spec fn read_register_pair(
    regs: Seq<u8>,
    addr1: RegisterAddress,
    addr2: RegisterAddress,
) -> Result<(u8, u8), RegisterError> {
    if addr1 >= 16 {
        Err(RegisterError::InvalidRegister(addr1))
    } else if addr2 >= 16 {
        Err(RegisterError::InvalidRegister(addr2))
    } else {
        Ok((regs[addr1 as int], regs[addr2 as int]))
    }
}

/// The bank after writing `value` to register `addr`; an invalid index
/// leaves the bank as it was.
pub open spec fn write_register(regs: Seq<u8>, addr: RegisterAddress, value: u8) -> Seq<u8> {
    if addr < 16 {
        regs.update(addr as int, value)
    } else {
        regs
    }
}

/// The index reported when a bulk transfer of `len > 16` bytes is refused:
/// the last index the transfer would have touched, reduced to a byte.
pub open spec fn bulk_overrun_index(len: nat) -> RegisterAddress {
    ((len - 1) % 256) as u8
}

impl View for Registers {
    type V = Seq<u8>;

    closed spec fn view(&self) -> Seq<u8> {
        self.buffer@
    }
}

impl Registers {
    /// The bank always holds exactly sixteen registers.
    pub proof fn lemma_len(&self)
        ensures
            self@.len() == 16,
    {
    }

    /// All sixteen registers, in index order.
    pub fn as_bytes(&self) -> (bytes: &[u8])
        ensures
            bytes@ == self@,
    {
        self.buffer.as_slice()
    }

    /// Replaces all sixteen registers by the sixteen bytes of `data`. A
    /// longer buffer is refused and leaves the bank untouched.
    pub fn set_bytes(&mut self, data: &[u8]) -> (res: Result<(), RegisterError>)
        requires
            data@.len() >= 16,
        ensures
            final(self)@.len() == 16,
            data@.len() == 16 ==> res is Ok && final(self)@ == data@,
            data@.len() > 16 ==> res == Err::<(), RegisterError>(
                RegisterError::InvalidRegister(bulk_overrun_index(data@.len())),
            ) && final(self)@ == old(self)@,
    {
        let len: usize = data.len();
        if len > 16 {
            let last: usize = (len - 1) % 256;
            return Err(RegisterError::InvalidRegister(last as u8));
        }
        let mut i: usize = 0;
        while i < 16
            invariant
                i <= 16,
                data@.len() == 16,
                self@.len() == 16,
                forall|j: int| 0 <= j < i ==> self@[j] == data@[j],
            decreases 16 - i,
        {
            self.buffer[i] = data[i];
            i += 1;
        }
        assert(self@ =~= data@);
        Ok(())
    }

    /// Reads one register.
    pub fn get(&self, register_address: RegisterAddress) -> (res: Result<u8, RegisterError>)
        ensures
            res == read_register(self@, register_address),
    {
        if register_address < 16 {
            Ok(self.buffer[register_address as usize])
        } else {
            Err(RegisterError::InvalidRegister(register_address))
        }
    }

    /// Reads two registers at once, for binary operations.
    pub fn get_pair(&self, addr1: RegisterAddress, addr2: RegisterAddress) -> (res: Result<
        (u8, u8),
        RegisterError,
    >)
        ensures
            res == read_register_pair(self@, addr1, addr2),
    {
        let a = match self.get(addr1) {
            Ok(a) => a,
            Err(e) => {
                return Err(e);
            },
        };
        let b = match self.get(addr2) {
            Ok(b) => b,
            Err(e) => {
                return Err(e);
            },
        };
        Ok((a, b))
    }

    /// Writes one register; an index outside the bank is refused and
    /// nothing changes.
    pub fn set(&mut self, addr: RegisterAddress, value: u8) -> (res: Result<(), RegisterError>)
        ensures
            final(self)@ == write_register(old(self)@, addr, value),
            addr < 16 ==> res is Ok,
            addr >= 16 ==> res == Err::<(), RegisterError>(RegisterError::InvalidRegister(addr)),
    {
        if addr < 16 {
            self.buffer[addr as usize] = value;
            Ok(())
        } else {
            Err(RegisterError::InvalidRegister(addr))
        }
    }
}

impl Default for Registers {
    /// A bank with every register at zero.
    fn default() -> (regs: Self)
        ensures
            regs@ == Seq::new(16, |i: int| 0u8),
    {
        let regs = Self { buffer: [0; 16] };
        assert(regs@ =~= Seq::new(16, |i: int| 0u8));
        regs
    }
}

} // verus!
