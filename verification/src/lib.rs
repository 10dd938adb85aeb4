//! Core of a MIPS32 emulator: a segmented memory map, a 32-register file
//! with PC/HI/LO, an instruction decoder, and an executor that runs one
//! instruction per step.

pub mod errors;
pub mod instruction;
pub mod memory;
pub mod vm;
pub mod register_aliases;
pub mod decoding;
pub mod execution;
