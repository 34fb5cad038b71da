//! The assembler: MIPS assembly text to a program image.
pub mod assembler;
pub mod encoding;
pub mod lexer;
pub mod text;

pub use self::assembler::{Assembler, AssemblerError};
