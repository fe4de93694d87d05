use vstd::prelude::*;

verus! {

/// The outcome of a run: how many files were copied, and one message per failed entry.
#[derive(Clone, Debug)]
pub struct SyncReport {
    pub copied: u64,
    pub failures: Vec<String>,
}

impl SyncReport {
    pub fn new() -> (r: SyncReport)
        ensures
            r.copied == 0,
            r.failures@.len() == 0,
    {
        SyncReport { copied: 0, failures: Vec::new() }
    }

    /// Counts one finished copy (the count stops at `u64::MAX`).
    pub fn record_copy(&mut self)
        ensures
            final(self).copied == if old(self).copied < u64::MAX {
                (old(self).copied + 1) as u64
            } else {
                u64::MAX
            },
            final(self).failures@ == old(self).failures@,
    {
        self.copied = self.copied.saturating_add(1);
    }

    /// Records the failure of one entry, described by `what`.
    pub fn record_failure(&mut self, what: String)
        ensures
            final(self).copied == old(self).copied,
            final(self).failures@ == old(self).failures@.push(what),
    {
        self.failures.push(what);
    }

    /// Adds the outcome of a nested run to this one.
    pub fn merge(&mut self, other: SyncReport)
        ensures
            final(self).copied == if old(self).copied + other.copied <= u64::MAX {
                (old(self).copied + other.copied) as u64
            } else {
                u64::MAX
            },
            final(self).failures@ == old(self).failures@ + other.failures@,
    {
        let mut other = other;
        self.copied = self.copied.saturating_add(other.copied);
        self.failures.append(&mut other.failures);
    }

    /// The run succeeded when no entry failed.
    pub fn is_success(&self) -> (r: bool)
        ensures
            r == (self.failures@.len() == 0),
    {
        self.failures.len() == 0
    }

    /// The number of failed entries.
    pub fn failure_count(&self) -> (r: usize)
        ensures
            r == self.failures@.len(),
    {
        self.failures.len()
    }

    /// The process exit status for this outcome: 0 on success, 1 when any entry failed.
    pub fn exit_code(&self) -> (r: i32)
        ensures
            r == if self.failures@.len() == 0 {
                0i32
            } else {
                1i32
            },
    {
        if self.failures.len() == 0 {
            0
        } else {
            1
        }
    }
}

} // verus!
