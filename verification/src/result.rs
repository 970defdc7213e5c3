use vstd::prelude::*;

verus! {

/// The arity family of an instruction, used to report unknown opcodes.
#[derive(Clone, Copy, Debug, PartialEq, Eq, Structural)]
pub enum OpcodeFamily {
    ZeroOp,
    OneOp,
    TwoOp,
    VarOp,
}

/// The single error enumeration surfaced at the VM boundary.
///
/// `Quitting` and `Restart` are control-flow sentinels emitted by the `quit`
/// and `restart` opcodes; the execution loop is their sole handler.  All the
/// other kinds are genuine failures that terminate the run.
#[derive(Clone, Copy, Debug, PartialEq, Eq, Structural)]
pub enum Error {
    /// The input was shorter than the 64-byte header.
    CouldNotReadHeader,
    /// The file length declared in the header exceeds the bytes provided.
    ZFileTooShort,
    /// The decoder reached an opcode this interpreter does not implement.
    UnknownOpcode(OpcodeFamily, u8, usize),
    /// A fatal invariant violation: an out-of-range access, a corrupt
    /// object or property table, stack underflow, or a malformed text
    /// stream.  The Z-Machine specification requires halting on these.
    Fatal,
    /// Sentinel from the `quit` opcode: stop execution cleanly.
    Quitting,
    /// Sentinel from the `restart` opcode: the loop reloads dynamic memory
    /// and resumes at the starting program counter.
    Restart,
    /// A board description string did not match the board dimensions.
    BoardParseError,
}

/// The result type used throughout the crate.
pub type ZResult<T> = Result<T, Error>;

} // verus!
