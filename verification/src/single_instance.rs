//! Single-instance enforcement: the lock is held for as long as its guard lives.

use vstd::prelude::*;
use vstd::string::*;

verus! {

/// Guard that ensures only one instance of ai-switch runs at a time. `L` is the lock.
pub struct SingleInstanceGuard<L> {
    instance: Option<L>,
}

/// Error type for already-running instances.
#[derive(Debug, Clone, Copy)]
pub struct AlreadyRunning;

impl AlreadyRunning {
    /// The message of the error.
    pub fn to_string(&self) -> (s: String)
        ensures
            s@ == "another instance of ai-switch is already running"@,
    {
        "another instance of ai-switch is already running".to_owned()
    }
}

/// The name of the lock.
pub fn lock_name() -> (name: &'static str)
    ensures
        name@ == "ai-switch"@,
{
    "ai-switch"
}

impl<L> SingleInstanceGuard<L> {
    /// The lock that is held, if any.
    pub closed spec fn held(&self) -> Option<L> {
        self.instance
    }

    /// Takes the single-instance lock: `instance` is the lock, where it could be made, and
    /// `is_single` says whether no other instance has it.
    ///
    /// Returns the guard if this is the first instance, or `Err(AlreadyRunning)` if another
    /// instance is already running.
    pub fn try_acquire(instance: Option<L>, is_single: bool) -> (r: Result<Self, AlreadyRunning>)
        ensures
            r is Ok <==> instance is Some && is_single,
            r matches Ok(guard) ==> guard.held() == instance,
    {
        if is_single && instance.is_some() {
            Ok(SingleInstanceGuard { instance })
        } else {
            Err(AlreadyRunning)
        }
    }

    /// Releases the single-instance lock. Releasing it again does nothing.
    pub fn release(&mut self)
        ensures
            final(self).held() is None,
    {
        self.instance = None;
    }

    /// Whether the lock is held.
    pub fn is_held(&self) -> (b: bool)
        ensures
            b == (self.held() is Some),
    {
        self.instance.is_some()
    }
}

} // verus!
