//! Model of the bounded connection pool.
//!
//! The pool is configured with a fixed capacity at startup.  A connection is
//! checked out for the duration of one operation and returned on completion;
//! at no point are more connections checked out than the capacity.

use vstd::prelude::*;

verus! {

/// A bounded pool of database connections: the configured capacity and the
/// number of connections currently checked out.
#[derive(Clone, Copy, Debug)]
pub struct ConnectionPool {
    pub capacity: u32,
    pub checked_out: u32,
}

impl ConnectionPool {
    /// The pool bound: never more connections checked out than the
    /// configured capacity.
    pub open spec fn wf(self) -> bool {
        self.checked_out <= self.capacity
    }

    /// Whether the pool can supply one more connection.
    pub open spec fn can_acquire(self) -> bool {
        self.checked_out < self.capacity
    }

    /// Check one connection out.  Succeeds exactly when the pool is not
    /// exhausted; the bound is kept in every case.
    pub fn acquire(&mut self) -> (ok: bool)
        requires
            old(self).wf(),
        ensures
            final(self).wf(),
            final(self).capacity == old(self).capacity,
            ok == old(self).can_acquire(),
            ok ==> final(self).checked_out == old(self).checked_out + 1,
            !ok ==> *final(self) == *old(self),
            final(self).checked_out <= final(self).capacity,
    {
        if self.checked_out < self.capacity {
            self.checked_out = self.checked_out + 1;
            true
        } else {
            false
        }
    }

    /// Return one checked-out connection.
    pub fn release(&mut self)
        requires
            old(self).wf(),
            old(self).checked_out > 0,
        ensures
            final(self).wf(),
            final(self).capacity == old(self).capacity,
            final(self).checked_out == old(self).checked_out - 1,
    {
        self.checked_out = self.checked_out - 1;
    }
}

/// Build a pool of the given maximum size, with no connection checked out.
pub fn create_pool(max_size: u32) -> (pool: ConnectionPool)
    ensures
        pool.wf(),
        pool.capacity == max_size,
        pool.checked_out == 0,
{
    ConnectionPool { capacity: max_size, checked_out: 0 }
}

} // verus!
