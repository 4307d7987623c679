//! Which progress notifications of a transfer are recorded.

use crate::checkpoint::Checkpoint;
use crate::datapath::Progress;
use vstd::prelude::*;

verus! {

/// Bytes between two progress records.
pub const PROGRESS_BYTES: u64 = 1_048_576;

/// Milliseconds between two progress records.
pub const PROGRESS_MILLIS: u64 = 1000;

/// Decides which progress notifications are recorded.
#[derive(Debug, Clone, Copy, PartialEq, Eq, Structural)]
pub struct ProgressThrottle {
    /// Bytes at the last record.
    pub bytes: u64,
    /// Synchronisation point at the last record.
    pub sync: u32,
}

impl ProgressThrottle {
    /// Nothing recorded yet.
    #[must_use]
    pub fn new() -> (r: Self)
        ensures
            r == (ProgressThrottle { bytes: 0, sync: 0 }),
    {
        ProgressThrottle { bytes: 0, sync: 0 }
    }

    /// Recorded at a checkpoint.
    #[must_use]
    pub fn at(cp: Checkpoint) -> (r: Self)
        ensures
            r == (ProgressThrottle { bytes: cp.data_bytes, sync: cp.sync }),
    {
        ProgressThrottle { bytes: cp.data_bytes, sync: cp.sync }
    }

    /// Whether a notification is to be recorded, `idle_ms` milliseconds after the last record.
    pub open spec fn spec_due(self, p: Progress, idle_ms: u64) -> bool {
        p.sync != self.sync || p.data_bytes >= self.bytes + PROGRESS_BYTES || idle_ms
            >= PROGRESS_MILLIS
    }

    /// Take a notification: whether to record it, and then whether a new synchronisation point
    /// was passed.
    pub fn on_progress(&mut self, p: &Progress, idle_ms: u64) -> (r: Option<bool>)
        ensures
            r == (if old(self).spec_due(*p, idle_ms) {
                Some(p.sync != old(self).sync)
            } else {
                None::<bool>
            }),
            *final(self) == (if old(self).spec_due(*p, idle_ms) {
                ProgressThrottle { bytes: p.data_bytes, sync: p.sync }
            } else {
                *old(self)
            }),
    {
        let changed = p.sync != self.sync;
        if !changed && p.data_bytes.saturating_sub(self.bytes) < PROGRESS_BYTES && idle_ms
            < PROGRESS_MILLIS {
            return None;
        }
        self.bytes = p.data_bytes;
        self.sync = p.sync;
        Some(changed)
    }
}

/// A synchronisation point that was passed is always recorded.
pub proof fn law_sync_points_are_recorded(t: ProgressThrottle, p: Progress, idle_ms: u64)
    requires
        p.sync != t.sync,
    ensures
        t.spec_due(p, idle_ms),
{
}

} // verus!
