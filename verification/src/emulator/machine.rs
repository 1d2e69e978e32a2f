//! The machine as a mathematical value, what each instruction does to it,
//! and the laws that follow.
//!
//! [`MachineState::step`] is the meaning of the instruction set. Advancing
//! the program counter past the instruction just executed is left to
//! whoever fetches the words; a skip instruction only adds the extra two
//! bytes.

use vstd::prelude::*;
use super::emulator::{EmulatorError, MemoryAddress, RegisterAddress};
use super::frame::Frame;
use super::instructions::Instruction;
use super::memory::{
    cleared, in_bounds, initial_memory, read_range, write_byte, write_range, write_range_result,
    MemoryError, HEX_SPRITES,
};
use super::registers::{read_register, read_register_pair, write_register, RegisterError};
use super::timed::TimerState;

verus! {

/// The whole state of the machine.
pub struct MachineState {
    /// The framebuffer.
    pub display: Frame,
    /// The program counter.
    pub pc: MemoryAddress,
    /// The index register.
    pub i: MemoryAddress,
    /// The number of return addresses on the call stack.
    pub sp: nat,
    /// The sixteen slots of the call stack; the first `sp` are in use.
    pub stack: Seq<MemoryAddress>,
    /// The sixteen registers.
    pub registers: Seq<u8>,
    /// The delay timer.
    pub delay: TimerState,
    /// The sound timer.
    pub sound: TimerState,
    /// The 4096 bytes of memory.
    pub memory: Seq<u8>,
}

/// A state together with the result reported to the caller.
pub type Outcome = (MachineState, Result<(), EmulatorError>);

/// `value` reduced to a byte.
pub open spec fn wrap8(value: int) -> u8 {
    (value % 0x100) as u8
}

/// `value` reduced to sixteen bits.
pub open spec fn wrap16(value: int) -> u16 {
    (value % 0x1_0000) as u16
}

/// The flag register's value for a condition.
pub open spec fn flag(condition: bool) -> u8 {
    if condition {
        1
    } else {
        0
    }
}

/// A register error as the interpreter reports it.
pub open spec fn register_failure<T>(e: RegisterError) -> Result<T, EmulatorError> {
    Err(EmulatorError::Register(e))
}

/// A memory error as the interpreter reports it.
pub open spec fn memory_failure<T>(e: MemoryError) -> Result<T, EmulatorError> {
    Err(EmulatorError::Memory(e))
}

impl MachineState {
    /// Every component has its fixed size, the display is not empty and
    /// the stack pointer is within the stack.
    pub open spec fn wf(self) -> bool {
        &&& self.display.wf()
        &&& 0 < self.display.width <= 255
        &&& 0 < self.display.height <= 255
        &&& self.sp <= 16
        &&& self.stack.len() == 16
        &&& self.registers.len() == 16
        &&& self.memory.len() == 4096
    }

    /// The state of a new machine: a blank 64 by 32 display, the font in
    /// memory, everything else zero.
    pub open spec fn power_on() -> MachineState {
        MachineState {
            display: Frame::blank(64, 32),
            pc: 0,
            i: 0,
            sp: 0,
            stack: Seq::new(16, |k: int| 0u16),
            registers: Seq::new(16, |k: int| 0u8),
            delay: TimerState::initial(),
            sound: TimerState::initial(),
            memory: initial_memory(),
        }
    }

    /// The state after a reset: the program counter at the start of the
    /// program area, the display blank, the program area zeroed, both
    /// timers set to zero and everything else zero. The display keeps its
    /// size and the memory below the program area its contents.
    pub open spec fn reset(self) -> MachineState {
        MachineState {
            display: Frame::blank(self.display.width, self.display.height),
            pc: 0x200,
            i: 0,
            sp: 0,
            stack: Seq::new(16, |k: int| 0u16),
            registers: Seq::new(16, |k: int| 0u8),
            delay: self.delay.set(0),
            sound: self.sound.set(0),
            memory: cleared(self.memory),
        }
    }

    /// The state after loading `program`: reset, then the program written
    /// at the start of the program area.
    pub open spec fn loaded(self, program: Seq<u8>) -> MachineState {
        MachineState { memory: write_range(self.reset().memory, 0x200, program), ..self.reset() }
    }

    /// The state after one tick of the 60 Hz clock: each timer's own decay
    /// process takes a step.
    pub open spec fn ticked(self) -> MachineState {
        MachineState {
            delay: self.delay.tick(self.delay.generation),
            sound: self.sound.tick(self.sound.generation),
            ..self
        }
    }

    /// The instruction fails and the state stays as it is.
    pub open spec fn fail(self, e: EmulatorError) -> Outcome {
        (self, Err(e))
    }

    /// Skip: the program counter moves two bytes further if the condition
    /// could be read and holds.
    pub open spec fn skip_when(self, condition: Result<bool, RegisterError>) -> Outcome {
        match condition {
            Ok(true) => (MachineState { pc: wrap16(self.pc + 2), ..self }, Ok(())),
            Ok(false) => (self, Ok(())),
            Err(e) => (self, register_failure(e)),
        }
    }

    /// Store: register `vx` receives the value, if the value could be
    /// computed and `vx` names a register.
    pub open spec fn store(self, vx: RegisterAddress, value: Result<u8, RegisterError>) -> Outcome {
        match value {
            Ok(v) => (
                MachineState { registers: write_register(self.registers, vx, v), ..self },
                if vx < 16 {
                    Ok(())
                } else {
                    register_failure(RegisterError::InvalidRegister(vx))
                },
            ),
            Err(e) => (self, register_failure(e)),
        }
    }

    /// Store with flag: register `vx` receives the value, then the flag
    /// register receives the flag, so that the flag prevails where `vx` is
    /// the flag register itself.
    pub open spec fn store_with_flag(
        self,
        vx: RegisterAddress,
        value: Result<(u8, bool), RegisterError>,
    ) -> Outcome {
        match value {
            Ok((v, condition)) => (
                MachineState {
                    registers: write_register(
                        write_register(self.registers, vx, v),
                        0xF,
                        flag(condition),
                    ),
                    ..self
                },
                Ok(()),
            ),
            Err(e) => (self, register_failure(e)),
        }
    }

    /// Return: the youngest return address leaves the stack and becomes
    /// the program counter. With an empty stack the return fails.
    pub open spec fn ret(self) -> Outcome {
        if self.sp == 0 {
            self.fail(EmulatorError::StackUnderflow)
        } else {
            (
                MachineState { pc: self.stack[self.sp - 1], sp: (self.sp - 1) as nat, ..self },
                Ok(()),
            )
        }
    }

    /// Call: the program counter goes onto the stack and `addr` becomes
    /// the program counter. With sixteen addresses on the stack the call
    /// fails.
    pub open spec fn call(self, addr: MemoryAddress) -> Outcome {
        if self.sp >= 16 {
            self.fail(EmulatorError::StackOverflow)
        } else {
            (
                MachineState {
                    stack: self.stack.update(self.sp as int, self.pc),
                    sp: self.sp + 1,
                    pc: addr,
                    ..self
                },
                Ok(()),
            )
        }
    }

    /// Draw: the `n` bytes at the index register are drawn at the
    /// coordinates held in `vx` and `vy`, and the flag register reports the
    /// collision.
    pub open spec fn draw(self, vx: RegisterAddress, vy: RegisterAddress, n: u8) -> Outcome {
        match read_register_pair(self.registers, vx, vy) {
            Ok((x, y)) => match read_range(self.memory, self.i, n as nat) {
                Ok(sprite) => {
                    let (frame, collision) = self.display.draw_sprite(x as int, y as int, sprite);
                    (
                        MachineState {
                            display: frame,
                            registers: write_register(self.registers, 0xF, flag(collision)),
                            ..self
                        },
                        Ok(()),
                    )
                },
                Err(e) => (self, memory_failure(e)),
            },
            Err(e) => (self, register_failure(e)),
        }
    }

    /// Decimal digits: the hundreds, tens and ones of `value` go to the
    /// three bytes at the index register, one after the other. The first
    /// byte that lies outside memory ends the instruction; the bytes before
    /// it have been written.
    pub open spec fn store_digits(self, value: u8) -> Outcome {
        let hundreds = (value / 100) as u8;
        let tens = ((value / 10) % 10) as u8;
        let ones = (value % 10) as u8;
        if self.i >= 4096 {
            (self, memory_failure(MemoryError::OutOfBounds(self.i, 0)))
        } else {
            let first = write_byte(self.memory, self.i, hundreds);
            if self.i + 1 >= 4096 {
                (
                    MachineState { memory: first, ..self },
                    memory_failure(MemoryError::OutOfBounds((self.i + 1) as u16, 0)),
                )
            } else {
                let second = write_byte(first, (self.i + 1) as u16, tens);
                if self.i + 2 >= 4096 {
                    (
                        MachineState { memory: second, ..self },
                        memory_failure(MemoryError::OutOfBounds((self.i + 2) as u16, 0)),
                    )
                } else {
                    (
                        MachineState {
                            memory: write_byte(second, (self.i + 2) as u16, ones),
                            ..self
                        },
                        Ok(()),
                    )
                }
            }
        }
    }

    /// Register dump: all sixteen registers go to memory at the index
    /// register, or none if they do not all fit.
    pub open spec fn dump_registers(self) -> Outcome {
        (
            MachineState { memory: write_range(self.memory, self.i, self.registers), ..self },
            match write_range_result(self.i, self.registers) {
                Ok(()) => Ok(()),
                Err(e) => memory_failure(e),
            },
        )
    }

    /// Register restore: all sixteen registers are read from memory at the
    /// index register.
    pub open spec fn restore_registers(self) -> Outcome {
        match read_range(self.memory, self.i, 16) {
            Ok(bytes) => (MachineState { registers: bytes, ..self }, Ok(())),
            Err(e) => (self, memory_failure(e)),
        }
    }

    /// What an instruction of the timer family does: it reads or sets a
    /// timer. Of an instruction of another family this function says that
    /// nothing happens; `step` never asks it about one.
    pub open spec fn step_timer(self, instruction: Instruction) -> Outcome {
        let regs = self.registers;
        match instruction {
            Instruction::LDD(vx) => self.store(vx, Ok(self.delay.value)),
            Instruction::LDDV(vx) => match read_register(regs, vx) {
                Ok(x) => (MachineState { delay: self.delay.set(x), ..self }, Ok(())),
                Err(e) => (self, register_failure(e)),
            },
            Instruction::LDS(vx) => match read_register(regs, vx) {
                Ok(x) => (MachineState { sound: self.sound.set(x), ..self }, Ok(())),
                Err(e) => (self, register_failure(e)),
            },
            _ => (self, Ok(())),
        }
    }

    /// What an instruction of the memory family does: it works on the
    /// display, the index register or memory. Of an instruction of another
    /// family this function says that nothing happens; `step` never asks
    /// it about one.
    pub open spec fn step_memory(self, instruction: Instruction) -> Outcome {
        let regs = self.registers;
        match instruction {
            Instruction::CLS => (
                MachineState {
                    display: Frame::blank(self.display.width, self.display.height),
                    ..self
                },
                Ok(()),
            ),
            Instruction::LDI(addr) => (MachineState { i: addr, ..self }, Ok(())),
            Instruction::DRW(vx, vy, n) => self.draw(vx, vy, n),
            Instruction::ADDI(vx) => match read_register(regs, vx) {
                Ok(x) => (MachineState { i: wrap16(self.i + x), ..self }, Ok(())),
                Err(e) => (self, register_failure(e)),
            },
            Instruction::LDF(vx) => match read_register(regs, vx) {
                Ok(x) => (MachineState { i: ((x % 16) * 5) as u16, ..self }, Ok(())),
                Err(e) => (self, register_failure(e)),
            },
            Instruction::LDB(vx) => match read_register(regs, vx) {
                Ok(x) => self.store_digits(x),
                Err(e) => (self, register_failure(e)),
            },
            Instruction::LDIV => self.dump_registers(),
            Instruction::LDVI => self.restore_registers(),
            _ => (self, Ok(())),
        }
    }

    /// What an instruction of the arithmetic family does: it computes the
    /// new value of a register. Sums and differences wrap; no instruction
    /// but the two subtractions touches the flag register on the side.
    ///
    /// Both subtractions set the flag by comparing their two operands:
    /// `SUB` to 1 if `Vx > Vy`, `SUBN`, which subtracts the other way
    /// round, to 1 if `Vy > Vx`. The flag says that the minuend was
    /// strictly greater than the subtrahend; it is never the comparison of
    /// one operand with a constant.
    ///
    /// Of an instruction of another family this function says that nothing
    /// happens; `step` never asks it about one.
    pub open spec fn step_arithmetic(self, instruction: Instruction, random: u8) -> Outcome {
        let regs = self.registers;
        match instruction {
            Instruction::LD(vx, kk) => self.store(vx, Ok(kk)),
            Instruction::ADD(vx, kk) => self.store(
                vx,
                match read_register(regs, vx) {
                    Ok(x) => Ok(wrap8(x + kk)),
                    Err(e) => Err(e),
                },
            ),
            Instruction::LDV(vx, vy) => self.store(vx, read_register(regs, vy)),
            Instruction::OR(vx, vy) => self.store(
                vx,
                match read_register_pair(regs, vx, vy) {
                    Ok((x, y)) => Ok(x | y),
                    Err(e) => Err(e),
                },
            ),
            Instruction::AND(vx, vy) => self.store(
                vx,
                match read_register_pair(regs, vx, vy) {
                    Ok((x, y)) => Ok(x & y),
                    Err(e) => Err(e),
                },
            ),
            Instruction::XOR(vx, vy) => self.store(
                vx,
                match read_register_pair(regs, vx, vy) {
                    Ok((x, y)) => Ok(x ^ y),
                    Err(e) => Err(e),
                },
            ),
            Instruction::ADDV(vx, vy) => self.store(
                vx,
                match read_register_pair(regs, vx, vy) {
                    Ok((x, y)) => Ok(wrap8(x + y)),
                    Err(e) => Err(e),
                },
            ),
            Instruction::SUB(vx, vy) => self.store_with_flag(
                vx,
                match read_register_pair(regs, vx, vy) {
                    Ok((x, y)) => Ok((wrap8(x - y), x > y)),
                    Err(e) => Err(e),
                },
            ),
            Instruction::SHR(vx) => self.store(
                vx,
                match read_register(regs, vx) {
                    Ok(x) => Ok((x / 2) as u8),
                    Err(e) => Err(e),
                },
            ),
            Instruction::SUBN(vx, vy) => self.store_with_flag(
                vx,
                match read_register_pair(regs, vx, vy) {
                    Ok((x, y)) => Ok((wrap8(y - x), y > x)),
                    Err(e) => Err(e),
                },
            ),
            Instruction::SHL(vx) => self.store(
                vx,
                match read_register(regs, vx) {
                    Ok(x) => Ok(wrap8(x * 2)),
                    Err(e) => Err(e),
                },
            ),
            Instruction::RND(vx, kk) => self.store(vx, Ok(random & kk)),
            _ => (self, Ok(())),
        }
    }

    /// What `instruction` does to the machine. `random` is the byte that
    /// the random-number instruction draws; no other instruction reads it.
    ///
    /// Every instruction is named here. Those of the control-flow family
    /// are spelled out; the arithmetic, memory and timer families follow in
    /// `step_arithmetic`, `step_memory` and `step_timer`; the instructions
    /// that need a keyboard fail as unimplemented.
    pub open spec fn step(self, instruction: Instruction, random: u8) -> Outcome {
        let regs = self.registers;
        match instruction {
            Instruction::RET => self.ret(),
            Instruction::JP(addr) => (MachineState { pc: addr, ..self }, Ok(())),
            Instruction::CALL(addr) => self.call(addr),
            Instruction::SE(vx, kk) => self.skip_when(
                match read_register(regs, vx) {
                    Ok(x) => Ok(x == kk),
                    Err(e) => Err(e),
                },
            ),
            Instruction::SNE(vx, kk) => self.skip_when(
                match read_register(regs, vx) {
                    Ok(x) => Ok(x != kk),
                    Err(e) => Err(e),
                },
            ),
            Instruction::SEV(vx, vy) => self.skip_when(
                match read_register_pair(regs, vx, vy) {
                    Ok((x, y)) => Ok(x == y),
                    Err(e) => Err(e),
                },
            ),
            Instruction::SNEV(vx, vy) => self.skip_when(
                match read_register_pair(regs, vx, vy) {
                    Ok((x, y)) => Ok(x != y),
                    Err(e) => Err(e),
                },
            ),
            Instruction::JPV(addr) => (MachineState { pc: wrap16(regs[0] + addr), ..self }, Ok(())),
            Instruction::LD(_, _)
            | Instruction::ADD(_, _)
            | Instruction::LDV(_, _)
            | Instruction::OR(_, _)
            | Instruction::AND(_, _)
            | Instruction::XOR(_, _)
            | Instruction::ADDV(_, _)
            | Instruction::SUB(_, _)
            | Instruction::SHR(_)
            | Instruction::SUBN(_, _)
            | Instruction::SHL(_)
            | Instruction::RND(_, _) => self.step_arithmetic(instruction, random),
            Instruction::CLS
            | Instruction::LDI(_)
            | Instruction::DRW(_, _, _)
            | Instruction::ADDI(_)
            | Instruction::LDF(_)
            | Instruction::LDB(_)
            | Instruction::LDIV
            | Instruction::LDVI => self.step_memory(instruction),
            Instruction::LDD(_) | Instruction::LDDV(_) | Instruction::LDS(_) => self.step_timer(
                instruction,
            ),
            Instruction::SKP(_) | Instruction::SKNP(_) | Instruction::LDK(_) => self.fail(
                EmulatorError::Unimplemented,
            ),
        }
    }
}

impl MachineState {
    /// The outcome of calling the subroutines at `targets`, each from
    /// inside the one before: the calls are made in order as long as they
    /// succeed.
    pub open spec fn call_nested(self, targets: Seq<MemoryAddress>) -> Outcome
        decreases targets.len(),
    {
        if targets.len() == 0 {
            (self, Ok(()))
        } else {
            let (before, res) = self.call_nested(targets.drop_last());
            if res is Ok {
                before.step(Instruction::CALL(targets.last()), 0)
            } else {
                (before, res)
            }
        }
    }

    /// A new machine is well formed and has the font at the bottom of its
    /// memory.
    pub proof fn lemma_power_on()
        ensures
            Self::power_on().wf(),
            forall|a: int| 0 <= a < 80 ==> Self::power_on().memory[a] == HEX_SPRITES@[a],
    {
    }

    /// The timer family keeps the machine well formed.
    proof fn lemma_step_timer_wf(self, instruction: Instruction)
        requires
            self.wf(),
        ensures
            self.step_timer(instruction).0.wf(),
    {
    }

    /// The memory family keeps the machine well formed.
    proof fn lemma_step_memory_wf(self, instruction: Instruction)
        requires
            self.wf(),
        ensures
            self.step_memory(instruction).0.wf(),
    {
        match instruction {
            Instruction::DRW(vx, vy, n) => {
                if vx < 16 && vy < 16 && in_bounds(self.i, n as nat) {
                    self.display.lemma_draw_collides(
                        self.registers[vx as int] as int,
                        self.registers[vy as int] as int,
                        self.memory.subrange(self.i as int, self.i + n),
                    );
                }
            },
            _ => {},
        }
    }

    /// The arithmetic family keeps the machine well formed.
    proof fn lemma_step_arithmetic_wf(self, instruction: Instruction, random: u8)
        requires
            self.wf(),
        ensures
            self.step_arithmetic(instruction, random).0.wf(),
    {
    }

    /// Every instruction leaves a well-formed machine well formed,
    /// whether it succeeds or fails.
    pub proof fn lemma_step_wf(self, instruction: Instruction, random: u8)
        requires
            self.wf(),
        ensures
            self.step(instruction, random).0.wf(),
    {
        if instruction.is_arithmetic() {
            self.lemma_step_arithmetic_wf(instruction, random);
        } else if instruction.is_memory() {
            self.lemma_step_memory_wf(instruction);
        } else if instruction.is_timer() {
            self.lemma_step_timer_wf(instruction);
        }
    }

    /// No instruction of the arithmetic, memory or timer family is
    /// reported as unimplemented.
    proof fn lemma_families_implemented(self, instruction: Instruction, random: u8)
        requires
            self.wf(),
        ensures
            self.step_arithmetic(instruction, random).1 != Err::<(), EmulatorError>(
                EmulatorError::Unimplemented,
            ),
            self.step_memory(instruction).1 != Err::<(), EmulatorError>(
                EmulatorError::Unimplemented,
            ),
            self.step_timer(instruction).1 != Err::<(), EmulatorError>(
                EmulatorError::Unimplemented,
            ),
    {
    }

    /// Only the instructions that need a keyboard are unimplemented, and
    /// they change nothing.
    pub proof fn lemma_unimplemented(self, instruction: Instruction, random: u8)
        requires
            self.wf(),
        ensures
            instruction.is_keyboard() <==> self.step(instruction, random).1 == Err::<
                (),
                EmulatorError,
            >(EmulatorError::Unimplemented),
            instruction.is_keyboard() ==> self.step(instruction, random).0 == self,
    {
        self.lemma_families_implemented(instruction, random);
    }

    /// Only the random-number instruction reads the random byte.
    pub proof fn lemma_random(self, instruction: Instruction, random: u8, other: u8)
        requires
            !(instruction is RND),
        ensures
            self.step(instruction, random) == self.step(instruction, other),
    {
    }

    /// Load law. After a program was loaded, reading the program area for
    /// the program's length gives the program back; the memory below the
    /// program area, the font table in it, is as it was before, after a
    /// load as after a reset.
    pub proof fn lemma_load_round_trip(self, program: Seq<u8>)
        requires
            self.wf(),
            program.len() <= 3584,
        ensures
            self.loaded(program).wf(),
            self.reset().wf(),
            read_range(self.loaded(program).memory, 0x200, program.len()) == Ok::<
                Seq<u8>,
                MemoryError,
            >(program),
            forall|a: int| 0 <= a < 0x200 ==> self.loaded(program).memory[a] == self.memory[a],
            forall|a: int| 0 <= a < 0x200 ==> self.reset().memory[a] == self.memory[a],
            forall|a: int|
                0x200 + program.len() <= a < 4096 ==> self.loaded(program).memory[a] == 0,
    {
        assert(self.loaded(program).memory.subrange(0x200, 0x200 + program.len() as int) =~= program);
    }

    /// Subtraction law. `SUB` sets the flag register to 1 if `Vx > Vy`
    /// held before and to 0 if not, and leaves `(Vx - Vy) mod 256` in
    /// `Vx`, unless `Vx` is the flag register itself, where the flag
    /// prevails. Nothing else changes.
    pub proof fn lemma_sub(self, vx: RegisterAddress, vy: RegisterAddress, random: u8)
        requires
            self.wf(),
            vx < 16,
            vy < 16,
        ensures
            ({
                let (after, res) = self.step(Instruction::SUB(vx, vy), random);
                let x = self.registers[vx as int];
                let y = self.registers[vy as int];
                &&& res is Ok
                &&& after.registers[0xF] == if x > y {
                    1u8
                } else {
                    0u8
                }
                &&& vx != 0xF ==> after.registers[vx as int] == (x - y) % 256
                &&& forall|r: int|
                    0 <= r < 16 && r != vx && r != 0xF ==> after.registers[r] == self.registers[r]
                &&& after == MachineState { registers: after.registers, ..self }
            }),
    {
    }

    /// Reverse subtraction law. `SUBN` sets the flag register to 1 if
    /// `Vy > Vx` held before and to 0 if not, and leaves `(Vy - Vx) mod 256`
    /// in `Vx`, unless `Vx` is the flag register itself, where the flag
    /// prevails. Nothing else changes.
    pub proof fn lemma_subn(self, vx: RegisterAddress, vy: RegisterAddress, random: u8)
        requires
            self.wf(),
            vx < 16,
            vy < 16,
        ensures
            ({
                let (after, res) = self.step(Instruction::SUBN(vx, vy), random);
                let x = self.registers[vx as int];
                let y = self.registers[vy as int];
                &&& res is Ok
                &&& after.registers[0xF] == if y > x {
                    1u8
                } else {
                    0u8
                }
                &&& vx != 0xF ==> after.registers[vx as int] == (y - x) % 256
                &&& forall|r: int|
                    0 <= r < 16 && r != vx && r != 0xF ==> after.registers[r] == self.registers[r]
                &&& after == MachineState { registers: after.registers, ..self }
            }),
    {
    }

    /// Addition law. `ADDV` leaves `(Vx + Vy) mod 256` in `Vx` and changes
    /// nothing else: the flag register, if it is not `Vx` itself, keeps
    /// its value.
    pub proof fn lemma_addv(self, vx: RegisterAddress, vy: RegisterAddress, random: u8)
        requires
            self.wf(),
            vx < 16,
            vy < 16,
        ensures
            ({
                let (after, res) = self.step(Instruction::ADDV(vx, vy), random);
                let x = self.registers[vx as int];
                let y = self.registers[vy as int];
                &&& res is Ok
                &&& after.registers[vx as int] == (x + y) % 256
                &&& forall|r: int| 0 <= r < 16 && r != vx ==> after.registers[r] == self.registers[r]
                &&& after == MachineState { registers: after.registers, ..self }
            }),
    {
    }

    /// Stack law, one level. A call that finds room on the stack jumps to
    /// its target, and the return that follows it brings the program
    /// counter and the stack pointer back to what they were before the
    /// call.
    pub proof fn lemma_call_then_return(self, addr: MemoryAddress, random: u8)
        requires
            self.wf(),
            self.sp < 16,
        ensures
            ({
                let (called, call_res) = self.step(Instruction::CALL(addr), random);
                let (returned, ret_res) = called.step(Instruction::RET, random);
                &&& call_res is Ok
                &&& called.pc == addr
                &&& called.sp == self.sp + 1
                &&& ret_res is Ok
                &&& returned.pc == self.pc
                &&& returned.sp == self.sp
                &&& forall|k: int| 0 <= k < self.sp ==> returned.stack[k] == self.stack[k]
            }),
    {
    }

    /// Stack law, nested. Calls succeed as long as the stack has room: as
    /// many nested calls as there are free slots all succeed and fill the
    /// stack with the program counters they were made from.
    pub proof fn lemma_nested_calls(self, targets: Seq<MemoryAddress>)
        requires
            self.wf(),
            self.sp + targets.len() <= 16,
        ensures
            self.call_nested(targets).1 is Ok,
            self.call_nested(targets).0.wf(),
            self.call_nested(targets).0.sp == self.sp + targets.len(),
            targets.len() > 0 ==> self.call_nested(targets).0.pc == targets.last(),
            forall|k: int| 0 <= k < self.sp ==> self.call_nested(targets).0.stack[k] == self.stack[k],
            targets.len() > 0 ==> self.call_nested(targets).0.stack[self.sp as int] == self.pc,
            forall|k: int|
                self.sp < k < self.sp + targets.len() ==> #[trigger] self.call_nested(
                    targets,
                ).0.stack[k] == targets[k - self.sp - 1],
        decreases targets.len(),
    {
        if targets.len() > 0 {
            self.lemma_nested_calls(targets.drop_last());
        }
    }

    /// Stack law, limits. From an empty stack sixteen nested calls
    /// succeed; the seventeenth fails with `StackOverflow` and changes
    /// nothing, as does every call on a full stack. A return on an empty
    /// stack fails with `StackUnderflow` and changes nothing.
    pub proof fn lemma_stack_limits(self, targets: Seq<MemoryAddress>, addr: MemoryAddress, random: u8)
        requires
            self.wf(),
        ensures
            self.sp == 0 && targets.len() == 16 ==> {
                let (full, res) = self.call_nested(targets);
                &&& res is Ok
                &&& full.sp == 16
                &&& full.step(Instruction::CALL(addr), random) == (
                    full,
                    Err::<(), EmulatorError>(EmulatorError::StackOverflow),
                )
            },
            self.sp == 16 ==> self.step(Instruction::CALL(addr), random) == (
                self,
                Err::<(), EmulatorError>(EmulatorError::StackOverflow),
            ),
            self.sp == 0 ==> self.step(Instruction::RET, random) == (
                self,
                Err::<(), EmulatorError>(EmulatorError::StackUnderflow),
            ),
    {
        if self.sp == 0 && targets.len() == 16 {
            self.lemma_nested_calls(targets);
        }
    }
}

} // verus!
