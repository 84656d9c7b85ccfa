//! The progress-instrumented side of a file's read path.
//!
//! A `Progress` keeps the cumulative count of bytes read from one file and
//! publishes each new total on that file's broadcast channel. Publishing is
//! best-effort: a full channel or a missing receiver never fails the read
//! path. The reading itself happens outside; the reader hands every chunk
//! size to `record_read`.

use vstd::prelude::*;

use crate::{sat_add, saturating_add_usize};

verus! {

#[verifier::external_type_specification]
#[verifier::external_body]
#[verifier::reject_recursive_types(T)]
pub struct ExBroadcastSender<T>(tokio::sync::broadcast::Sender<T>);

/// Relies on `tokio::sync::broadcast::Sender::send`. Whether the value is
/// accepted depends on concurrent receiver state, so nothing is claimed of
/// the outcome; a refused publish reports as `false` and is ignored.
#[verifier::external_body]
fn send_progress(tx: &tokio::sync::broadcast::Sender<usize>, value: usize) -> bool {
    tx.send(value).is_ok()
}

/// The byte counter of one file, publishing every new cumulative total.
pub struct Progress {
    bytes_read: usize,
    progress_sender: tokio::sync::broadcast::Sender<usize>,
}

impl Progress {
    /// Cumulative bytes counted so far.
    pub closed spec fn counted(&self) -> nat {
        self.bytes_read as nat
    }

    /// A fresh counter at zero, publishing on the given channel.
    pub fn new(progress_sender: tokio::sync::broadcast::Sender<usize>) -> (r: Progress)
        ensures
            r.counted() == 0,
    {
        Progress { bytes_read: 0, progress_sender }
    }

    /// The current cumulative count.
    pub fn bytes_read(&self) -> (r: usize)
        ensures
            r as nat == self.counted(),
    {
        self.bytes_read
    }

    /// Count `n` more bytes and publish the new cumulative total. The count
    /// never decreases: successive published values are monotonically
    /// non-decreasing, saturating at the machine limit.
    pub fn record_read(&mut self, n: usize)
        ensures
            final(self).counted() == sat_add(old(self).counted(), n as nat),
            final(self).counted() >= old(self).counted(),
    {
        self.bytes_read = saturating_add_usize(self.bytes_read, n);
        send_progress(&self.progress_sender, self.bytes_read);
    }
}

} // verus!
