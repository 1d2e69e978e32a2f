//! A verified interpreter core for a small 8-bit virtual machine: sixteen
//! byte registers, a 4 KiB address space seeded with a hexadecimal font, a
//! monochrome framebuffer with XOR sprite drawing, two decaying timers and a
//! sixteen-entry call stack.
//!
//! Every executable function carries a contract over a mathematical model of
//! the machine, and the laws that relate several operations are stated as
//! proof functions next to the model they speak of:
//!
//! - [`emulator::instructions`]: the instruction set, its decoder and the
//!   round trip between words and instructions;
//! - [`emulator::registers`], [`emulator::memory`], [`emulator::display`],
//!   [`emulator::timed`]: the components of the machine;
//! - [`emulator::frame`] and [`emulator::drawing`]: the picture on the
//!   display and the laws of drawing;
//! - [`emulator::machine`]: the machine as a value, the meaning of each
//!   instruction and the laws of the machine;
//! - [`emulator::emulator`]: the machine in executable form;
//! - [`input::program`]: a program image.
//!
//! The library never sleeps and starts no thread. Whoever embeds it fetches
//! the instruction words, advances the program counter between instructions
//! and delivers the ticks of the 60 Hz clock.

pub mod emulator;
pub mod input;
pub mod text;
