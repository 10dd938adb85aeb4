//! Error types of the virtual machine: fatal runtime errors, which halt
//! execution, and recoverable traps, which are reported to the embedder.

use vstd::prelude::*;

verus! {

/// The kind of a fatal runtime error.
#[derive(Clone, Copy, Debug, PartialEq, Eq, Structural)]
pub enum FatalErrorType {
    /// Out-of-segment address, misaligned halfword/word access, write to a
    /// read-only segment, or write beyond a static segment's extent.
    IllegalMemoryAccess,
    /// The decoder cannot match an opcode or function code, or the scheduler
    /// does not support the decoded mnemonic.
    IllegalInstruction,
    /// Register index out of range, or a write to register 0.
    IllegalRegisterAccess,
}

/// A fatal error: the step that raised it is considered failed and the
/// embedder is expected to cease stepping.
#[derive(Debug)]
pub struct RuntimeError {
    pub err_type: FatalErrorType,
    pub message: String,
}

impl RuntimeError {
    pub fn new(err_type: FatalErrorType, message: String) -> (r: RuntimeError)
        ensures
            r.err_type == err_type,
            r.message == message,
    {
        RuntimeError { err_type, message }
    }

    /// A fatal error for a read of an address that no segment covers.
    pub fn err_invalid_read(address: usize) -> (r: RuntimeError)
        ensures
            r.err_type == FatalErrorType::IllegalMemoryAccess,
    {
        RuntimeError::new(FatalErrorType::IllegalMemoryAccess, "invalid read".to_owned())
    }

    /// A fatal error for a write of an address that no segment covers.
    pub fn err_invalid_write(address: usize) -> (r: RuntimeError)
        ensures
            r.err_type == FatalErrorType::IllegalMemoryAccess,
    {
        RuntimeError::new(FatalErrorType::IllegalMemoryAccess, "invalid write".to_owned())
    }
}

/// A recoverable runtime condition: reported to the embedder, which decides
/// whether to pause, log, or continue.
#[derive(Debug)]
pub struct Trap {
    pub message: String,
}

impl Trap {
    pub fn new(message: String) -> (r: Trap)
        ensures
            r.message == message,
    {
        Trap { message }
    }
}

} // verus!
