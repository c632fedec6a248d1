//! Accounting for a streamed retrieval's progress.
//!
//! The retrieval of a remote asset happens outside this library; the
//! surrounding code hands each received chunk's size to this tracker,
//! which keeps the bytes-transferred count that a progress observer
//! displays. The count never runs past the announced total.

use vstd::prelude::*;

verus! {

/// Progress of one streamed download: bytes received against the total
/// the server announced.
#[derive(Clone, Copy, Debug, PartialEq, Eq, Structural)]
pub struct DownloadProgress {
    pub received: u64,
    pub total: u64,
}

impl DownloadProgress {
    /// The received count never exceeds the announced total.
    pub open spec fn wf(self) -> bool {
        self.received <= self.total
    }

    /// Fresh tracker for a download of `total` announced bytes.
    pub fn new(total: u64) -> (r: DownloadProgress)
        ensures
            r.wf(),
            r.total == total,
            r.received == 0,
    {
        DownloadProgress { received: 0, total }
    }

    /// Account for one received chunk; the position is capped at the
    /// announced total, as a progress bar's is.
    pub fn record_chunk(&mut self, len: u64) -> (r: u64)
        requires
            old(self).wf(),
        ensures
            final(self).wf(),
            final(self).total == old(self).total,
            final(self).received == if old(self).received + len <= old(self).total {
                old(self).received + len
            } else {
                old(self).total as int
            },
            r == final(self).received,
    {
        let room = self.total - self.received;
        if len <= room {
            self.received = self.received + len;
        } else {
            self.received = self.total;
        }
        self.received
    }

    /// Whether the whole announced content has arrived.
    pub fn is_complete(&self) -> (r: bool)
        ensures
            r == (self.received == self.total),
    {
        self.received == self.total
    }
}

} // verus!
