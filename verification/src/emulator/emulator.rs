//! The interpreter: the machine in executable form.
//!
//! [`Emulator::execute`] implements [`MachineState::step`] exactly;
//! [`Emulator::interpret`] draws the random byte that one instruction needs
//! and executes.

use vstd::prelude::*;
use vstd::string::StringExecFns;
use rand::Rng;
use super::display::Display;
use super::frame::Frame;
use super::instructions::Instruction;
use super::machine::{memory_failure, register_failure, wrap16, wrap8, MachineState};
use super::memory::{write_byte, write_byte_result, Memory, MemoryError};
use super::registers::{read_register, read_register_pair, RegisterError, Registers};
use super::timed::TimedRegister;
use crate::input::program::ProgramError;

verus! {

/// An address in the machine's memory.
pub type MemoryAddress = u16;

/// Index of a register in the bank.
pub type RegisterAddress = u8;

/// Number of return addresses on the call stack.
pub type StackPointer = usize;

/// Number of return addresses the call stack holds.
pub const STACK_SIZE: usize = 16;

/// Width of the display of a new machine.
pub const DISPLAY_WIDTH: u8 = 64;

/// Height of the display of a new machine.
pub const DISPLAY_HEIGHT: u8 = 32;

/// Why an instruction, or the loading of a program, failed.
#[derive(Debug, Clone, Copy, PartialEq, Eq, Structural)]
pub enum EmulatorError {
    /// A register access failed.
    Register(RegisterError),
    /// A memory access failed.
    Memory(MemoryError),
    /// The program does not fit the program area.
    Program(ProgramError),
    /// The instruction needs a keyboard, which this machine has not.
    Unimplemented,
    /// A call with sixteen return addresses already on the stack.
    StackOverflow,
    /// A return with no return address on the stack.
    StackUnderflow,
}

impl EmulatorError {
    /// The text of the error's message: that of the component's error
    /// where a component failed.
    pub open spec fn message_text(self) -> Seq<char> {
        match self {
            EmulatorError::Register(e) => e.message_text(),
            EmulatorError::Memory(e) => e.message_text(),
            EmulatorError::Program(e) => e.message_text(),
            EmulatorError::Unimplemented => "Instruction not implemented!"@,
            EmulatorError::StackOverflow => "Call stack overflow!"@,
            EmulatorError::StackUnderflow => "Call stack underflow!"@,
        }
    }

    /// The error's message.
    pub fn message(&self) -> (text: String)
        ensures
            text@ == self.message_text(),
    {
        match self {
            EmulatorError::Register(e) => e.message(),
            EmulatorError::Memory(e) => e.message(),
            EmulatorError::Program(e) => e.message(),
            EmulatorError::Unimplemented => String::from_str("Instruction not implemented!"),
            EmulatorError::StackOverflow => String::from_str("Call stack overflow!"),
            EmulatorError::StackUnderflow => String::from_str("Call stack underflow!"),
        }
    }
}

/// The machine: display, registers, memory, timers, program counter, index
/// register and call stack.
#[derive(Debug)]
pub struct Emulator {
    display: Display,
    pc: MemoryAddress,
    i: MemoryAddress,
    sp: StackPointer,
    stack: [MemoryAddress; 16],
    registers: Registers,
    delay_register: TimedRegister,
    sound_register: TimedRegister,
    memory: Memory,
}

impl View for Emulator {
    type V = MachineState;

    closed spec fn view(&self) -> MachineState {
        MachineState {
            display: self.display@,
            pc: self.pc,
            i: self.i,
            sp: self.sp as nat,
            stack: self.stack@,
            registers: self.registers@,
            delay: self.delay_register@,
            sound: self.sound_register@,
            memory: self.memory@,
        }
    }
}

/// The sum of two bytes, reduced to a byte.
fn add8(x: u8, y: u8) -> (sum: u8)
    ensures
        sum == wrap8(x + y),
{
    x.wrapping_add(y)
}

/// The difference of two bytes, reduced to a byte.
fn sub8(x: u8, y: u8) -> (difference: u8)
    ensures
        difference == wrap8(x - y),
{
    x.wrapping_sub(y)
}

/// A byte shifted right by one place.
fn shift_right(x: u8) -> (shifted: u8)
    ensures
        shifted == x / 2,
{
    assert(x >> 1 == x / 2) by (bit_vector);
    x >> 1
}

/// A byte shifted left by one place.
fn shift_left(x: u8) -> (shifted: u8)
    ensures
        shifted == wrap8(x * 2),
{
    assert(x << 1 == (x * 2) % 0x100) by (bit_vector);
    x << 1
}

/// The sum of two addresses, reduced to sixteen bits.
fn add16(x: u16, y: u16) -> (sum: u16)
    ensures
        sum == wrap16(x + y),
{
    x.wrapping_add(y)
}

/// The address of the font glyph for the low nibble of `x`.
fn glyph_address(x: u8) -> (addr: MemoryAddress)
    ensures
        addr == (x % 16) * 5,
{
    assert(x as u16 & 0xF == x % 16) by (bit_vector);
    (x as u16 & 0xF) * 5
}

/// Draws one byte from the thread-local generator of `rand`
/// (`rand::thread_rng().gen::<u8>()`). Nothing is claimed of the byte: any
/// of the 256 values may come back, and two calls may differ.
#[verifier::external_body]
fn random_byte() -> (byte: u8) {
    rand::thread_rng().gen()
}

impl Default for Emulator {
    /// A new machine, in the power-on state.
    fn default() -> (emulator: Self)
        ensures
            emulator@ == MachineState::power_on(),
            emulator.wf(),
    {
        let mut display = Display::default();
        display.resize(DISPLAY_WIDTH, DISPLAY_HEIGHT);
        assert(display@ =~~= Frame::blank(64, 32));
        let emulator = Self {
            display,
            pc: 0,
            i: 0,
            sp: 0,
            stack: [0; 16],
            registers: Registers::default(),
            delay_register: TimedRegister::default(),
            sound_register: TimedRegister::default(),
            memory: Memory::default(),
        };
        assert(emulator.stack@ =~= Seq::new(16, |k: int| 0u16));
        proof {
            emulator.memory.lemma_len();
        }
        emulator
    }
}

impl Emulator {
    /// The machine's state is well formed. Every machine that this module
    /// hands out is, and every operation keeps it so.
    pub open spec fn wf(&self) -> bool {
        self@.wf()
    }

    /// The program counter.
    pub fn pc(&self) -> (pc: MemoryAddress)
        ensures
            pc == self@.pc,
    {
        self.pc
    }

    /// The index register.
    pub fn i(&self) -> (i: MemoryAddress)
        ensures
            i == self@.i,
    {
        self.i
    }

    /// The number of return addresses on the call stack.
    pub fn sp(&self) -> (sp: StackPointer)
        ensures
            sp == self@.sp,
    {
        self.sp
    }

    /// The sixteen slots of the call stack.
    pub fn stack(&self) -> (stack: &[MemoryAddress; 16])
        ensures
            stack@ == self@.stack,
    {
        &self.stack
    }

    /// The register bank.
    pub fn registers(&self) -> (registers: &Registers)
        ensures
            registers@ == self@.registers,
    {
        &self.registers
    }

    /// The memory.
    pub fn memory(&self) -> (memory: &Memory)
        ensures
            memory@ == self@.memory,
    {
        &self.memory
    }

    /// The framebuffer.
    pub fn display(&self) -> (display: &Display)
        ensures
            display@ == self@.display,
    {
        &self.display
    }

    /// The current value of the delay timer.
    pub fn delay(&self) -> (value: u8)
        ensures
            value == self@.delay.value,
    {
        self.delay_register.get()
    }

    /// The current value of the sound timer.
    pub fn sound(&self) -> (value: u8)
        ensures
            value == self@.sound.value,
    {
        self.sound_register.get()
    }

    /// One tick of the 60 Hz clock for both timers. Returns whether either
    /// timer still has a value to decay.
    pub fn tick_timers(&mut self) -> (running: bool)
        requires
            old(self).wf(),
        ensures
            final(self).wf(),
            final(self)@ == old(self)@.ticked(),
            running == (final(self)@.delay.running() || final(self)@.sound.running()),
    {
        let delay_generation = self.delay_register.generation();
        let sound_generation = self.sound_register.generation();
        let delay_running = self.delay_register.tick(delay_generation);
        let sound_running = self.sound_register.tick(sound_generation);
        delay_running || sound_running
    }

    /// Brings the machine into the state in which it is ready to execute
    /// the first instruction of a program.
    pub fn reset(&mut self)
        requires
            old(self).wf(),
        ensures
            final(self).wf(),
            final(self)@ == old(self)@.reset(),
    {
        self.display.clear();
        self.pc = 0x200;
        self.i = 0;
        self.sp = 0;
        self.stack = [0; 16];
        self.registers = Registers::default();
        self.delay_register.set(0);
        self.sound_register.set(0);
        self.memory.clear();
        assert(self.stack@ =~= Seq::new(16, |k: int| 0u16));
        proof {
            self.memory.lemma_len();
        }
    }

    /// Resets the machine and writes `program` at the start of the program
    /// area. A program larger than the program area is refused before
    /// anything changes.
    pub fn load_program(&mut self, program: &[u8]) -> (res: Result<(), EmulatorError>)
        requires
            old(self).wf(),
        ensures
            final(self).wf(),
            program@.len() <= 3584 ==> res is Ok && final(self)@ == old(self)@.loaded(program@),
            program@.len() > 3584 ==> res == Err::<(), EmulatorError>(
                EmulatorError::Program(ProgramError::SpaceExceeded(program@.len() as usize)),
            ) && final(self)@ == old(self)@,
    {
        if program.len() > 3584 {
            return Err(EmulatorError::Program(ProgramError::SpaceExceeded(program.len())));
        }
        self.reset();
        match self.memory.set_range(0x200, program) {
            Ok(()) => Ok(()),
            Err(e) => Err(EmulatorError::Memory(e)),
        }
    }

    /// Reads a register for an instruction.
    fn read(&self, vx: RegisterAddress) -> (res: Result<u8, EmulatorError>)
        ensures
            res == match read_register(self@.registers, vx) {
                Ok(x) => Ok::<u8, EmulatorError>(x),
                Err(e) => register_failure(e),
            },
    {
        match self.registers.get(vx) {
            Ok(x) => Ok(x),
            Err(e) => Err(EmulatorError::Register(e)),
        }
    }

    /// Reads two registers for an instruction.
    fn read_pair(&self, vx: RegisterAddress, vy: RegisterAddress) -> (res: Result<
        (u8, u8),
        EmulatorError,
    >)
        ensures
            res == match read_register_pair(self@.registers, vx, vy) {
                Ok(pair) => Ok::<(u8, u8), EmulatorError>(pair),
                Err(e) => register_failure(e),
            },
    {
        match self.registers.get_pair(vx, vy) {
            Ok(pair) => Ok(pair),
            Err(e) => Err(EmulatorError::Register(e)),
        }
    }

    /// Writes a register for an instruction.
    fn write(&mut self, vx: RegisterAddress, value: u8) -> (res: Result<(), EmulatorError>)
        requires
            old(self).wf(),
        ensures
            final(self).wf(),
            (final(self)@, res) == old(self)@.store(vx, Ok(value)),
    {
        match self.registers.set(vx, value) {
            Ok(()) => Ok(()),
            Err(e) => Err(EmulatorError::Register(e)),
        }
    }

    /// Writes a register and then the flag register.
    fn write_with_flag(&mut self, vx: RegisterAddress, value: u8, condition: bool) -> (res: Result<
        (),
        EmulatorError,
    >)
        requires
            old(self).wf(),
            vx < 16,
        ensures
            final(self).wf(),
            (final(self)@, res) == old(self)@.store_with_flag(vx, Ok((value, condition))),
    {
        let _ = self.registers.set(vx, value);
        let _ = self.registers.set(0xF, if condition {
            1
        } else {
            0
        });
        Ok(())
    }

    /// Moves the program counter two bytes further if `condition` holds.
    fn skip_if(&mut self, condition: bool)
        requires
            old(self).wf(),
        ensures
            final(self).wf(),
            (final(self)@, Ok::<(), EmulatorError>(())) == old(self)@.skip_when(Ok(condition)),
    {
        if condition {
            self.pc = add16(self.pc, 2);
        }
    }

    /// Writes one byte of memory for an instruction.
    fn poke(&mut self, addr: MemoryAddress, byte: u8) -> (res: Result<(), EmulatorError>)
        requires
            old(self).wf(),
        ensures
            final(self).wf(),
            final(self)@ == (MachineState {
                memory: write_byte(old(self)@.memory, addr, byte),
                ..old(self)@
            }),
            res == match write_byte_result(addr) {
                Ok(()) => Ok::<(), EmulatorError>(()),
                Err(e) => memory_failure(e),
            },
    {
        match self.memory.set_byte(addr, byte) {
            Ok(()) => Ok(()),
            Err(e) => Err(EmulatorError::Memory(e)),
        }
    }

    /// Pops the youngest return address into the program counter.
    fn do_return(&mut self) -> (res: Result<(), EmulatorError>)
        requires
            old(self).wf(),
        ensures
            final(self).wf(),
            (final(self)@, res) == old(self)@.ret(),
    {
        if self.sp == 0 {
            return Err(EmulatorError::StackUnderflow);
        }
        self.sp -= 1;
        self.pc = self.stack[self.sp];
        Ok(())
    }

    /// Pushes the program counter and jumps to `addr`.
    fn do_call(&mut self, addr: MemoryAddress) -> (res: Result<(), EmulatorError>)
        requires
            old(self).wf(),
        ensures
            final(self).wf(),
            (final(self)@, res) == old(self)@.call(addr),
    {
        if self.sp >= 16 {
            return Err(EmulatorError::StackOverflow);
        }
        self.stack[self.sp] = self.pc;
        self.sp += 1;
        self.pc = addr;
        Ok(())
    }

    /// Draws the sprite at the index register and reports the collision in
    /// the flag register.
    fn do_draw(&mut self, vx: RegisterAddress, vy: RegisterAddress, num_bytes: u8) -> (res: Result<
        (),
        EmulatorError,
    >)
        requires
            old(self).wf(),
        ensures
            final(self).wf(),
            (final(self)@, res) == old(self)@.draw(vx, vy, num_bytes),
    {
        let (x, y) = self.read_pair(vx, vy)?;
        let sprite = match self.memory.get_range(self.i, num_bytes as usize) {
            Ok(sprite) => sprite,
            Err(e) => {
                return Err(EmulatorError::Memory(e));
            },
        };
        let collision = self.display.draw_bytes_at(x, y, sprite);
        proof {
            old(self)@.display.lemma_draw_sprite_keeps_size(x as int, y as int, sprite@);
        }
        let _ = self.registers.set(0xF, if collision {
            1
        } else {
            0
        });
        Ok(())
    }

    /// Writes the decimal digits of `value` to the three bytes at the index
    /// register.
    fn do_store_digits(&mut self, value: u8) -> (res: Result<(), EmulatorError>)
        requires
            old(self).wf(),
        ensures
            final(self).wf(),
            (final(self)@, res) == old(self)@.store_digits(value),
    {
        let ones = value % 10;
        let tens = (value / 10) % 10;
        let hundreds = value / 100;
        self.poke(self.i, hundreds)?;
        self.poke(self.i + 1, tens)?;
        self.poke(self.i + 2, ones)?;
        Ok(())
    }

    /// Writes all registers to memory at the index register.
    fn do_dump_registers(&mut self) -> (res: Result<(), EmulatorError>)
        requires
            old(self).wf(),
        ensures
            final(self).wf(),
            (final(self)@, res) == old(self)@.dump_registers(),
    {
        match self.memory.set_range(self.i, self.registers.as_bytes()) {
            Ok(()) => Ok(()),
            Err(e) => Err(EmulatorError::Memory(e)),
        }
    }

    /// Reads all registers from memory at the index register.
    fn do_restore_registers(&mut self) -> (res: Result<(), EmulatorError>)
        requires
            old(self).wf(),
        ensures
            final(self).wf(),
            (final(self)@, res) == old(self)@.restore_registers(),
    {
        let bytes = match self.memory.get_range(self.i, 16) {
            Ok(bytes) => bytes,
            Err(e) => {
                return Err(EmulatorError::Memory(e));
            },
        };
        let _ = self.registers.set_bytes(bytes);
        Ok(())
    }

    /// Executes an instruction of the timer family.
    fn execute_timer(&mut self, instruction: &Instruction) -> (res: Result<(), EmulatorError>)
        requires
            old(self).wf(),
            instruction.is_timer(),
        ensures
            final(self).wf(),
            (final(self)@, res) == old(self)@.step_timer(*instruction),
    {
        match instruction {
            Instruction::LDD(vx) => {
                let value = self.delay_register.get();
                self.write(*vx, value)
            },
            Instruction::LDDV(vx) => {
                let x = self.read(*vx)?;
                self.delay_register.set(x);
                Ok(())
            },
            Instruction::LDS(vx) => {
                let x = self.read(*vx)?;
                self.sound_register.set(x);
                Ok(())
            },
            // No other instruction gets here.
            _ => Ok(()),
        }
    }

    /// Executes an instruction of the memory family.
    fn execute_memory(&mut self, instruction: &Instruction) -> (res: Result<(), EmulatorError>)
        requires
            old(self).wf(),
            instruction.is_memory(),
        ensures
            final(self).wf(),
            (final(self)@, res) == old(self)@.step_memory(*instruction),
    {
        match instruction {
            Instruction::CLS => {
                self.display.clear();
                Ok(())
            },
            Instruction::LDI(addr) => {
                self.i = *addr;
                Ok(())
            },
            Instruction::DRW(vx, vy, num_bytes) => self.do_draw(*vx, *vy, *num_bytes),
            Instruction::ADDI(vx) => {
                let x = self.read(*vx)?;
                self.i = add16(self.i, x as u16);
                Ok(())
            },
            Instruction::LDF(vx) => {
                let x = self.read(*vx)?;
                self.i = glyph_address(x);
                Ok(())
            },
            Instruction::LDB(vx) => {
                let x = self.read(*vx)?;
                self.do_store_digits(x)
            },
            Instruction::LDIV => self.do_dump_registers(),
            Instruction::LDVI => self.do_restore_registers(),
            // No other instruction gets here.
            _ => Ok(()),
        }
    }

    /// Executes an instruction of the arithmetic family.
    fn execute_arithmetic(&mut self, instruction: &Instruction, random: u8) -> (res: Result<
        (),
        EmulatorError,
    >)
        requires
            old(self).wf(),
            instruction.is_arithmetic(),
        ensures
            final(self).wf(),
            (final(self)@, res) == old(self)@.step_arithmetic(*instruction, random),
    {
        match instruction {
            Instruction::LD(vx, y) => self.write(*vx, *y),
            Instruction::ADD(vx, y) => {
                let x = self.read(*vx)?;
                self.write(*vx, add8(x, *y))
            },
            Instruction::LDV(vx, vy) => {
                let y = self.read(*vy)?;
                self.write(*vx, y)
            },
            Instruction::OR(vx, vy) => {
                let (x, y) = self.read_pair(*vx, *vy)?;
                self.write(*vx, x | y)
            },
            Instruction::AND(vx, vy) => {
                let (x, y) = self.read_pair(*vx, *vy)?;
                self.write(*vx, x & y)
            },
            Instruction::XOR(vx, vy) => {
                let (x, y) = self.read_pair(*vx, *vy)?;
                self.write(*vx, x ^ y)
            },
            Instruction::ADDV(vx, vy) => {
                let (x, y) = self.read_pair(*vx, *vy)?;
                self.write(*vx, add8(x, y))
            },
            Instruction::SUB(vx, vy) => {
                let (x, y) = self.read_pair(*vx, *vy)?;
                self.write_with_flag(*vx, sub8(x, y), x > y)
            },
            Instruction::SHR(vx) => {
                let x = self.read(*vx)?;
                self.write(*vx, shift_right(x))
            },
            Instruction::SUBN(vx, vy) => {
                let (x, y) = self.read_pair(*vx, *vy)?;
                self.write_with_flag(*vx, sub8(y, x), y > x)
            },
            Instruction::SHL(vx) => {
                let x = self.read(*vx)?;
                self.write(*vx, shift_left(x))
            },
            Instruction::RND(vx, y) => self.write(*vx, random & *y),
            // No other instruction gets here.
            _ => Ok(()),
        }
    }

    /// Executes one instruction, with `random` as the byte that the
    /// random-number instruction draws.
    pub fn execute(&mut self, instruction: &Instruction, random: u8) -> (res: Result<
        (),
        EmulatorError,
    >)
        requires
            old(self).wf(),
        ensures
            final(self).wf(),
            (final(self)@, res) == old(self)@.step(*instruction, random),
    {
        match instruction {
            Instruction::RET => self.do_return(),
            Instruction::JP(addr) => {
                self.pc = *addr;
                Ok(())
            },
            Instruction::CALL(addr) => self.do_call(*addr),
            Instruction::SE(vx, y) => {
                let x = self.read(*vx)?;
                self.skip_if(x == *y);
                Ok(())
            },
            Instruction::SNE(vx, y) => {
                let x = self.read(*vx)?;
                self.skip_if(x != *y);
                Ok(())
            },
            Instruction::SEV(vx, vy) => {
                let (x, y) = self.read_pair(*vx, *vy)?;
                self.skip_if(x == y);
                Ok(())
            },
            Instruction::SNEV(vx, vy) => {
                let (x, y) = self.read_pair(*vx, *vy)?;
                self.skip_if(x != y);
                Ok(())
            },
            Instruction::JPV(addr) => {
                let offset = self.read(0)?;
                self.pc = add16(offset as u16, *addr);
                Ok(())
            },
            Instruction::LD(_, _)
            | Instruction::ADD(_, _)
            | Instruction::LDV(_, _)
            | Instruction::OR(_, _)
            | Instruction::AND(_, _)
            | Instruction::XOR(_, _)
            | Instruction::ADDV(_, _)
            | Instruction::SUB(_, _)
            | Instruction::SHR(_)
            | Instruction::SUBN(_, _)
            | Instruction::SHL(_)
            | Instruction::RND(_, _) => self.execute_arithmetic(instruction, random),
            Instruction::CLS
            | Instruction::LDI(_)
            | Instruction::DRW(_, _, _)
            | Instruction::ADDI(_)
            | Instruction::LDF(_)
            | Instruction::LDB(_)
            | Instruction::LDIV
            | Instruction::LDVI => self.execute_memory(instruction),
            Instruction::LDD(_) | Instruction::LDDV(_) | Instruction::LDS(_) => self.execute_timer(
                instruction,
            ),
            Instruction::SKP(_) | Instruction::SKNP(_) | Instruction::LDK(_) => Err(
                EmulatorError::Unimplemented,
            ),
        }
    }

    /// Executes one instruction. The random-number instruction draws its
    /// byte from the thread-local generator; every other instruction has
    /// exactly the effect that `step` gives.
    pub fn interpret(&mut self, instruction: &Instruction) -> (res: Result<(), EmulatorError>)
        requires
            old(self).wf(),
        ensures
            final(self).wf(),
            exists|random: u8| (final(self)@, res) == old(self)@.step(*instruction, random),
            !(*instruction is RND) ==> (final(self)@, res) == old(self)@.step(*instruction, 0),
    {
        let random = match instruction {
            Instruction::RND(_, _) => random_byte(),
            _ => 0,
        };
        self.execute(instruction, random)
    }
}

} // verus!
