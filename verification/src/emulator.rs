//! The machine: its components, the model of the whole and the interpreter.

pub mod display;
pub mod drawing;
pub mod emulator;
pub mod frame;
pub mod instructions;
pub mod machine;
pub mod memory;
pub mod registers;
pub mod timed;
