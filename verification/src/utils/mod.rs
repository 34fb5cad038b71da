//! Small utilities: log levels and an instruction-text parser.
pub mod logger;
pub mod parser;
pub mod syscall;
