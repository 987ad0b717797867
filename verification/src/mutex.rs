//! Mutual-exclusion cell for early-boot kernel state.
//!
//! The kernel cannot rely on any thread or wait API: acquisition is a
//! bounded spin on an atomic flag, and exhausting the retry budget is
//! process-fatal. This model keeps the cell's observable protocol — the
//! locked flag, the protected value, and the source-line bookkeeping kept
//! for deadlock diagnosis — and excludes by precondition the one input on
//! which the kernel would spin out and abort: acquiring a lock that is
//! already held. The primitive is not re-entrant.

use vstd::prelude::*;

verus! {

/// A mutual-exclusion cell guarding a value of type `T`. The line numbers
/// record where the cell was created and where it was last successfully
/// acquired; the kernel prints both when an acquisition ever spins out.
pub struct Mutex<T> {
    data: T,
    locked: bool,
    taker_line_num: u32,
    created_at_line: u32,
}

impl<T> Mutex<T> {
    /// The protected value.
    pub closed spec fn value(&self) -> T {
        self.data
    }

    /// Whether the lock is currently held.
    pub closed spec fn is_locked(&self) -> bool {
        self.locked
    }

    /// Source line recorded when the cell was created.
    pub closed spec fn spec_created_at_line(&self) -> u32 {
        self.created_at_line
    }

    /// Source line of the last successful acquisition.
    pub closed spec fn spec_taker_line_num(&self) -> u32 {
        self.taker_line_num
    }

    /// A new, unlocked cell. The caller passes the source line of the
    /// construction site for later diagnostics.
    pub fn new(data: T, created_at_line: u32) -> (r: Self)
        ensures
            !r.is_locked(),
            r.value() == data,
            r.spec_created_at_line() == created_at_line,
    {
        Mutex { data, locked: false, taker_line_num: 0, created_at_line }
    }

    /// One compare-and-swap attempt on the locked flag: it fails exactly
    /// when the lock is already held, and on success records the taker's
    /// source line.
    pub fn try_lock(&mut self, caller_line: u32) -> (r: Result<(), &'static str>)
        ensures
            final(self).value() == old(self).value(),
            final(self).spec_created_at_line() == old(self).spec_created_at_line(),
            old(self).is_locked() ==> r is Err && *final(self) == *old(self),
            !old(self).is_locked() ==> r is Ok && final(self).is_locked(),
            !old(self).is_locked() ==> final(self).spec_taker_line_num() == caller_line,
            r matches Err(m) ==> m@ == "Locke failed"@,
    {
        if self.locked {
            Err("Locke failed")
        } else {
            self.locked = true;
            self.taker_line_num = caller_line;
            Ok(())
        }
    }

    /// Acquires the lock. In the kernel this spins on `try_lock` with a
    /// fixed retry budget and terminates the process when the budget is
    /// exhausted; with a single acquirer the budget can only be exhausted
    /// by re-entry, so that fatal input is excluded here: the lock must be
    /// free.
    pub fn lock(&mut self, caller_line: u32)
        requires
            !old(self).is_locked(),
        ensures
            final(self).is_locked(),
            final(self).value() == old(self).value(),
            final(self).spec_created_at_line() == old(self).spec_created_at_line(),
            final(self).spec_taker_line_num() == caller_line,
    {
        let r = self.try_lock(caller_line);
        proof {
            assert(r is Ok);
        }
    }

    /// Releases the flag unconditionally: the guard's drop path, taken on
    /// every exit.
    pub fn unlock(&mut self)
        ensures
            !final(self).is_locked(),
            final(self).value() == old(self).value(),
            final(self).spec_created_at_line() == old(self).spec_created_at_line(),
            final(self).spec_taker_line_num() == old(self).spec_taker_line_num(),
    {
        self.locked = false;
    }

    /// Reads the protected value; the guard's shared access.
    pub fn borrow_data(&self) -> (r: &T)
        requires
            self.is_locked(),
        ensures
            *r == self.value(),
    {
        &self.data
    }

    /// Replaces the protected value; the guard's exclusive access.
    pub fn set_data(&mut self, data: T)
        requires
            old(self).is_locked(),
        ensures
            final(self).is_locked(),
            final(self).value() == data,
            final(self).spec_created_at_line() == old(self).spec_created_at_line(),
            final(self).spec_taker_line_num() == old(self).spec_taker_line_num(),
    {
        self.data = data;
    }

    /// Runs `f` on the protected value under the lock and releases the
    /// lock on the way out. `f` reads the current value and returns the
    /// new value together with its result.
    pub fn under_locked<R, F: FnOnce(&T) -> (T, Result<R, &'static str>)>(
        &mut self,
        f: F,
        caller_line: u32,
    ) -> (r: Result<R, &'static str>)
        requires
            !old(self).is_locked(),
            call_requires(f, (&old(self).value(),)),
        ensures
            !final(self).is_locked(),
            final(self).spec_created_at_line() == old(self).spec_created_at_line(),
            final(self).spec_taker_line_num() == caller_line,
            call_ensures(f, (&old(self).value(),), (final(self).value(), r)),
    {
        self.lock(caller_line);
        let (data, r) = f(self.borrow_data());
        self.set_data(data);
        self.unlock();
        r
    }
}

} // verus!
