use vstd::prelude::*;
use crate::error::AccessError;

verus! {

/// Sole holder of a value.
///
/// A handle is either valid and holds its payload, or it has been moved
/// out of and holds nothing. Its view is `Some(payload)` while it is valid
/// and `None` once the payload has left.
pub struct Owner<T> {
    slot: Option<T>,
}

impl<T> View for Owner<T> {
    type V = Option<T>;

    closed spec fn view(&self) -> Option<T> {
        self.slot
    }
}

/// What reading through a handle in state `state` yields.
pub open spec fn read_through<T>(state: Option<T>) -> Result<T, AccessError> {
    match state {
        Some(value) => Ok(value),
        None => Err(AccessError::UseAfterMove),
    }
}

/// The state of a handle after its payload was replaced by `value`.
pub open spec fn write_through<T>(state: Option<T>, value: T) -> Option<T> {
    match state {
        Some(_) => Some(value),
        None => None,
    }
}

impl<T> Owner<T> {
    /// Whether the handle still holds its payload.
    pub open spec fn is_valid(&self) -> bool {
        self@ is Some
    }

    /// Creates a valid handle that owns `value`.
    pub fn construct(value: T) -> (owner: Owner<T>)
        ensures
            owner@ == Some(value),
    {
        Owner { slot: Some(value) }
    }

    /// Reports whether the handle still holds its payload.
    pub fn holds_value(&self) -> (valid: bool)
        ensures
            valid == self.is_valid(),
    {
        self.slot.is_some()
    }

    /// Moves the payload out and invalidates the handle.
    ///
    /// On an already invalidated handle nothing moves and the call reports
    /// `UseAfterMove`.
    pub fn move_out(&mut self) -> (moved: Result<T, AccessError>)
        ensures
            moved == read_through(old(self)@),
            final(self)@ is None,
    {
        match self.slot.take() {
            Some(value) => Ok(value),
            None => Err(AccessError::UseAfterMove),
        }
    }

    /// Transfers the payload to a fresh handle and invalidates this one.
    pub fn transfer(&mut self) -> (target: Result<Owner<T>, AccessError>)
        ensures
            final(self)@ is None,
            match target {
                Ok(owner) => old(self)@ is Some && owner@ == old(self)@,
                Err(error) => old(self)@ is None && error == AccessError::UseAfterMove,
            },
    {
        match self.slot.take() {
            Some(value) => Ok(Owner { slot: Some(value) }),
            None => Err(AccessError::UseAfterMove),
        }
    }

    /// Reads the payload through a valid handle.
    pub fn get(&self) -> (read: Result<&T, AccessError>)
        ensures
            match read {
                Ok(value) => read_through(self@) == Ok::<T, AccessError>(*value),
                Err(error) => read_through(self@) == Err::<T, AccessError>(error),
            },
    {
        match &self.slot {
            Some(value) => Ok(value),
            None => Err(AccessError::UseAfterMove),
        }
    }

    /// Replaces the payload through a valid handle and returns the old one.
    ///
    /// An invalidated handle stays invalidated and the new value is dropped.
    pub fn set(&mut self, value: T) -> (previous: Result<T, AccessError>)
        ensures
            previous == read_through(old(self)@),
            final(self)@ == write_through(old(self)@, value),
    {
        match self.slot.take() {
            Some(previous) => {
                self.slot = Some(value);
                Ok(previous)
            },
            None => Err(AccessError::UseAfterMove),
        }
    }
}

/// An invalidated handle is unusable: every read through it and every
/// write of any value through it fails with `UseAfterMove`, and the handle
/// stays invalidated. (`move_out` and `transfer` leave the handle they were
/// called on in this state.)
pub proof fn lemma_moved_handle_is_unusable<T>(handle: Owner<T>, value: T)
    requires
        !handle.is_valid(),
    ensures
        read_through(handle@) == Err::<T, AccessError>(AccessError::UseAfterMove),
        write_through(handle@, value) == handle@,
{
}

} // verus!
