//! What is handed to the machine from outside.

pub mod program;
