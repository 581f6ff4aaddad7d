use vstd::prelude::*;

verus! {

/// Invariant violations reported by the primitives.
///
/// All of them are programmer errors: they are returned to the caller as
/// explicit values and never retried or swallowed.
#[derive(Clone, Copy, Debug, PartialEq, Eq, Structural)]
pub enum AccessError {
    /// An `Owner` handle was used after its value had been moved out.
    UseAfterMove,
    /// A borrow was requested while an incompatible guard was outstanding.
    BorrowConflict,
    /// A lock was requested after a holder abandoned its critical section.
    LockPoisoned,
}

impl AccessError {
    /// A short human-readable description of the error.
    pub fn message(&self) -> (text: &'static str)
        ensures
            text@ == match *self {
                AccessError::UseAfterMove => "value used after move"@,
                AccessError::BorrowConflict => "conflicting borrow outstanding"@,
                AccessError::LockPoisoned => "lock poisoned by an abandoned critical section"@,
            },
    {
        match self {
            AccessError::UseAfterMove => "value used after move",
            AccessError::BorrowConflict => "conflicting borrow outstanding",
            AccessError::LockPoisoned => "lock poisoned by an abandoned critical section",
        }
    }
}

} // verus!
