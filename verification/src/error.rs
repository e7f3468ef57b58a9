//! The ways in which a pool operation can be refused.

use vstd::prelude::*;

verus! {

/// Why an operation was refused. A refused operation leaves the pool untouched.
#[derive(Clone, Copy, Debug, PartialEq, Eq, Structural)]
pub enum ErrorCode {
    /// An argument is zero or out of range.
    InvalidInput,
    /// The trade would pay out less than the caller's floor.
    SlippageExceeded,
    /// Trading is suspended.
    ContractPaused,
    /// The operation needs a funded pool and the pool is empty.
    DivisionByZero,
    /// More shares were offered for burning than are outstanding. The pool's own operations
    /// report such a request as invalid input; the kind is kept for callers that track who
    /// owns the shares and tell the two apart.
    InsufficientShares,
}

} // verus!
