use vstd::prelude::*;

verus! {

/// Ways in which decoding one instruction can fail.
#[derive(Debug, Clone, Copy, PartialEq, Eq, Structural)]
pub enum Error {
    /// The bytes were read but no entry of the decode table accepts them.
    InvalidInstruction,
    /// The address space could not supply the bytes that one instruction needs.
    InvalidMemory,
}

pub type Result<T> = core::result::Result<T, Error>;

} // verus!
