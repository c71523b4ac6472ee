//! The pull-model sink.
//!
//! Each completed buffer raises one "new data available" notification;
//! the buffer is retrieved exactly once by a pull, which fails with
//! `NoSampleAvailable` when no notification is pending.

use vstd::prelude::*;
use crate::types::{Buffer, EngineError};

verus! {

/// The pull sink: completed buffers waiting, oldest first. Each entry is
/// one pending "new data available" notification.
pub struct PullSink {
    pub pending: Vec<Buffer>,
}

impl PullSink {
    /// A fresh sink with nothing pending.
    pub fn new() -> (r: PullSink)
        ensures
            r.pending@.len() == 0,
    {
        PullSink { pending: Vec::new() }
    }

    /// A completed buffer arrives: it joins the queue and raises exactly
    /// one notification.
    pub fn deliver(&mut self, buf: Buffer)
        ensures
            final(self).pending@ == old(self).pending@.push(buf),
    {
        self.pending.push(buf);
    }

    /// The number of pending "new data available" notifications.
    pub fn notifications(&self) -> (r: usize)
        ensures
            r == self.pending@.len(),
    {
        self.pending.len()
    }

    /// Retrieves the oldest completed buffer, exactly once per
    /// notification; fails with `NoSampleAvailable` when none is pending.
    pub fn pull_sample(&mut self) -> (r: Result<Buffer, EngineError>)
        ensures
            match r {
                Ok(buf) => old(self).pending@.len() > 0
                    && buf == old(self).pending@[0]
                    && final(self).pending@ == old(self).pending@.subrange(
                        1, old(self).pending@.len() as int),
                Err(e) => e == EngineError::NoSampleAvailable
                    && old(self).pending@.len() == 0
                    && *final(self) == *old(self),
            },
    {
        if self.pending.len() == 0 {
            Err(EngineError::NoSampleAvailable)
        } else {
            Ok(self.pending.remove(0))
        }
    }
}

} // verus!
