//! The size budget of archiving a folder before upload: the walk adds every
//! file's size and must stop as soon as the total passes the limit.

use vstd::prelude::*;

verus! {

/// A running total held against a fixed limit.
pub struct ArchiveBudget {
    pub limit: u64,
    pub used: u64,
}

impl ArchiveBudget {
    /// A fresh budget with nothing used.
    pub fn new(limit: u64) -> (r: ArchiveBudget)
        ensures
            r.limit == limit,
            r.used == 0,
    {
        ArchiveBudget { limit, used: 0 }
    }

    /// Record one file's size. The total saturates rather than wrapping, so
    /// a sum past the largest representable size still reads as over any
    /// real limit. Returns whether the walk may go on: exactly when the
    /// total is still within the limit.
    pub fn record(&mut self, file_size: u64) -> (ok: bool)
        ensures
            final(self).limit == old(self).limit,
            final(self).used == if old(self).used + file_size <= u64::MAX {
                (old(self).used + file_size) as u64
            } else {
                u64::MAX
            },
            ok == (final(self).used <= final(self).limit),
    {
        if file_size <= u64::MAX - self.used {
            self.used = self.used + file_size;
        } else {
            self.used = u64::MAX;
        }
        self.used <= self.limit
    }
}

} // verus!
