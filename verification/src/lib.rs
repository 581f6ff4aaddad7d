//! Ownership disciplines as small, explicit state machines.
//!
//! * [`owner::Owner`]: exclusive ownership; a move invalidates its source.
//! * [`shared::SharedCounted`]: reference-counted sharing within one thread
//!   of control.
//! * [`atomic::AtomicSharedCounted`]: reference-counted sharing between
//!   threads of control, which records the thread that destroys the payload.
//! * [`interior::InteriorMutable`]: borrows checked when they are requested.
//! * [`mutex::Mutex`]: mutual exclusion with poisoning.
//!
//! Each primitive keeps its bookkeeping (validity, reference count, borrow
//! state, lock state) in plain fields and hands out unforgeable tokens for
//! the claims it grants: handles and guards. Every operation is one step on
//! `&mut self`, so no two operations on one primitive overlap, and its
//! contract states the step over the primitive's abstract view. What holds
//! after every sequence of such steps, whichever threads make them and in
//! whatever order they take effect, is proved once for each primitive, next
//! to its view.
//!
//! A primitive decides and never waits or prints. A caller that shares one
//! between threads wraps it in the synchronisation its platform offers and
//! does its own waiting when `Mutex::lock` answers `MustWait`.

pub mod atomic;
pub mod counted;
pub mod counter;
pub mod error;
pub mod interior;
pub mod mutex;
pub mod owner;
pub mod shared;
pub mod transfer;
