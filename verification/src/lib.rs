//! A MIPS processor simulator library: a functional simulator with a register
//! file, byte-addressed memory and an instruction decoder/executor, the
//! building blocks of a pipelined timing simulator, an assembler and an ELF
//! loader.
use vstd::prelude::*;

pub mod assembler;
pub mod elf_loader;
pub mod errors;
pub mod functional_simulator;
pub mod timing_simulator;
pub mod utils;
