//! Failure values of the machine. Every failure is a returned value, never a
//! panic: loading rejects malformed tokens, running rejects an exhausted
//! store end, an unresolvable bare token, unparseable input for `read`, a
//! negative fetch address, and `exit` with a nonzero code.

use vstd::prelude::*;

verus! {

/// Why a load or a run stopped without finishing the program.
#[derive(Clone, Copy, Debug, PartialEq, Eq, Structural)]
pub enum VmError {
    /// A token at load time carries neither a direction marker nor a label
    /// marker.
    Parse,
    /// A pop was requested on an end of the data store that lacks the
    /// required number of elements.
    StackUnderflow,
    /// A bare token is neither a 64-bit integer literal nor a known label.
    UnknownLabel,
    /// `read` received a line that does not parse as an integer.
    NonIntegerInput,
    /// The instruction pointer became negative and was about to be fetched.
    InvalidAddress,
    /// `exit` ran with the given nonzero code.
    RuntimeExit(i64),
}

} // verus!
