//! The bounded execution log the caller maintains: classified, timestamped
//! records, capped at a fixed capacity by dropping the oldest record.

use crate::classifier::Severity;
use vstd::prelude::*;

verus! {

/// One rendered record of the caller's execution log.
#[derive(Clone, Debug)]
pub struct LogEntry {
    pub severity: Severity,
    pub text: String,
    pub timestamp: String,
}

/// A bounded log of execution records.  Appending beyond the capacity drops
/// the oldest record, so the log never outgrows its bound.
pub struct LogBuffer {
    pub entries: Vec<LogEntry>,
    pub capacity: usize,
}

impl LogBuffer {
    /// The log respects its bound and the bound is meaningful.
    pub open spec fn wf(&self) -> bool {
        self.capacity >= 1 && self.entries@.len() <= self.capacity
    }

    pub fn new(capacity: usize) -> (b: Self)
        requires
            capacity >= 1,
        ensures
            b.wf(),
            b.capacity == capacity,
            b.entries@.len() == 0,
    {
        LogBuffer { entries: Vec::new(), capacity }
    }

    /// Appends one record; at capacity, the oldest record is dropped to make
    /// room, so the newest records are always kept.
    pub fn push(&mut self, entry: LogEntry)
        requires
            old(self).wf(),
        ensures
            final(self).wf(),
            final(self).capacity == old(self).capacity,
            old(self).entries@.len() < old(self).capacity ==> final(self).entries@ == old(
                self,
            ).entries@.push(entry),
            old(self).entries@.len() == old(self).capacity ==> final(self).entries@ == old(
                self,
            ).entries@.drop_first().push(entry),
    {
        let ghost before = self.entries@;
        self.entries.push(entry);
        if self.entries.len() > self.capacity {
            self.entries.remove(0);
            proof {
                assert(self.entries@ =~= before.drop_first().push(entry));
            }
        }
    }

    pub fn len(&self) -> (n: usize)
        ensures
            n == self.entries@.len(),
    {
        self.entries.len()
    }
}

} // verus!
