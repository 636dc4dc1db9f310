//! A CHIP-8 interpreter core: opcode decoding, instruction semantics,
//! memory with a call stack, countdown timers, a key pad and the geometry
//! used to paint the screen, each with a verified contract.

pub mod config;
pub mod cpu;
pub mod input;
pub mod instructions;
pub mod laws;
pub mod ram;
pub mod timer;
pub mod window;
