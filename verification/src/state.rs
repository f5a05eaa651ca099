//! The tri-state lifecycle flag of the single archiving operation a process
//! runs at a time, and its shared, lock-guarded form.
//!
//! The transition rules are proved on [`RunState`] itself; [`SharedRun`]
//! wraps one `RunState` in a mutex so that a second thread can request
//! cancellation while an operation is in flight. Every access under the lock
//! calls one of the verified transition methods, so only the locking itself
//! is taken on trust.

use vstd::prelude::*;

verus! {

use crate::ErrorKind;

/// Lifecycle of the one archiving operation a process can run at a time.
#[derive(Clone, Copy, PartialEq, Eq, Structural, Debug)]
pub enum RunState {
    /// No operation is in flight.
    Idle,
    /// An operation is in flight.
    Running,
    /// Cancellation was requested; the engine stops at its next per-entry
    /// check point.
    Abort,
}

impl RunState {
    /// The state a process starts in.
    pub fn initial() -> (r: RunState)
        ensures
            r == RunState::Idle,
    {
        RunState::Idle
    }

    /// Move to `Running`. Allowed only from `Idle`; from any other state
    /// nothing changes and `false` is returned.
    pub fn set_running(&mut self) -> (r: bool)
        ensures
            r == (*old(self) is Idle),
            *final(self) == if *old(self) is Idle { RunState::Running } else { *old(self) },
    {
        match self {
            RunState::Idle => {
                *self = RunState::Running;
                true
            },
            _ => false,
        }
    }

    /// Request cancellation. Takes effect only while `Running`; a request
    /// arriving in any other state has no effect and returns `false`.
    pub fn request_abort(&mut self) -> (r: bool)
        ensures
            r == (*old(self) is Running),
            *final(self) == if *old(self) is Running { RunState::Abort } else { *old(self) },
    {
        match self {
            RunState::Running => {
                *self = RunState::Abort;
                true
            },
            _ => false,
        }
    }

    /// Return to `Idle`. Unconditional: an operation always resets the state
    /// when it completes, whether it succeeded, failed or was aborted.
    pub fn reset_idle(&mut self)
        ensures
            *final(self) == RunState::Idle,
    {
        *self = RunState::Idle;
    }

    /// Whether the engine should stop at its next check point.
    pub fn is_abort_requested(&self) -> (r: bool)
        ensures
            r == (*self is Abort),
    {
        match self {
            RunState::Abort => true,
            _ => false,
        }
    }
}

/// A process-wide `RunState` behind a mutex, shareable across threads.
///
/// Relies on `std::sync::Mutex` and `std::sync::Arc`: `lock` yields exclusive
/// access to the guarded `RunState` and fails only when the lock is poisoned.
/// Because another thread may change the guarded value between any two calls,
/// no method's result can be pinned down here; each body only locks and calls
/// one verified `RunState` transition.
#[verifier::external_body]
pub struct SharedRun {
    inner: std::sync::Arc<std::sync::Mutex<RunState>>,
}

impl SharedRun {
    /// A fresh shared flag, initially `Idle`.
    ///
    /// Relies on `Mutex::new` storing exactly the given value.
    #[verifier::external_body]
    pub fn new() -> (r: SharedRun) {
        SharedRun { inner: std::sync::Arc::new(std::sync::Mutex::new(RunState::initial())) }
    }

    /// A second handle to the same flag, for the thread that may cancel.
    ///
    /// Relies on `Arc::clone`: both handles reach the same guarded value.
    #[verifier::external_body]
    pub fn handle(&self) -> (r: SharedRun) {
        SharedRun { inner: std::sync::Arc::clone(&self.inner) }
    }

    /// Lock and run [`RunState::set_running`]. `Err` reports only a
    /// poisoned lock.
    #[verifier::external_body]
    pub fn set_running(&self) -> (r: Result<bool, ErrorKind>)
        ensures
            r is Err ==> r->Err_0 == ErrorKind::ConcurrencyError,
    {
        match self.inner.lock() {
            Ok(mut g) => Ok(g.set_running()),
            Err(_) => Err(ErrorKind::ConcurrencyError),
        }
    }

    /// Lock and run [`RunState::request_abort`]. `Err` means the lock was
    /// poisoned.
    #[verifier::external_body]
    pub fn request_abort(&self) -> (r: Result<bool, ErrorKind>)
        ensures
            r is Err ==> r->Err_0 == ErrorKind::ConcurrencyError,
    {
        match self.inner.lock() {
            Ok(mut g) => Ok(g.request_abort()),
            Err(_) => Err(ErrorKind::ConcurrencyError),
        }
    }

    /// Lock and run [`RunState::reset_idle`]. `Err` means the lock was
    /// poisoned.
    #[verifier::external_body]
    pub fn reset_idle(&self) -> (r: Result<(), ErrorKind>)
        ensures
            r is Err ==> r->Err_0 == ErrorKind::ConcurrencyError,
    {
        match self.inner.lock() {
            Ok(mut g) => {
                g.reset_idle();
                Ok(())
            },
            Err(_) => Err(ErrorKind::ConcurrencyError),
        }
    }

    /// Lock and run [`RunState::is_abort_requested`]. `Err` means the lock
    /// was poisoned.
    #[verifier::external_body]
    pub fn is_abort_requested(&self) -> (r: Result<bool, ErrorKind>)
        ensures
            r is Err ==> r->Err_0 == ErrorKind::ConcurrencyError,
    {
        match self.inner.lock() {
            Ok(g) => Ok(g.is_abort_requested()),
            Err(_) => Err(ErrorKind::ConcurrencyError),
        }
    }

    /// Lock and copy the current state out, for observation.
    #[verifier::external_body]
    pub fn current(&self) -> (r: Result<RunState, ErrorKind>)
        ensures
            r is Err ==> r->Err_0 == ErrorKind::ConcurrencyError,
    {
        match self.inner.lock() {
            Ok(g) => Ok(*g),
            Err(_) => Err(ErrorKind::ConcurrencyError),
        }
    }
}

} // verus!
