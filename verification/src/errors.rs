//! The simulator's error type.
use vstd::prelude::*;

verus! {

/// `std::io::Error`, which a failed read or write gives.
#[verifier::external_type_specification]
#[verifier::external_body]
pub struct ExIoError(std::io::Error);

/// What can go wrong while simulating.
#[derive(Debug)]
pub enum SimulatorError {
    MemoryOutOfBounds(u32),
    MemoryMisaligned(u32),
    AddressOverflow,
    InvalidBranchTarget(u32),
    InvalidInstruction(u32),
    DivisionByZero,
    IoError(std::io::Error),
    UnimplementedFeature(String),
}

} // verus!
