//! The shutdown handshake between the thread that writes footage and the one
//! that closes the clip.

use vstd::prelude::*;

verus! {

/// Whether the writer has completed its last drain after a shutdown request.
/// One thread signals, the other waits; sharing the value between them and
/// blocking until it changes is the caller's part.
pub struct WriterDrained {
    /// Set once the final drain has completed.
    done: bool,
}

impl WriterDrained {
    /// Whether the final drain has completed.
    pub closed spec fn drained(&self) -> bool {
        self.done
    }

    /// Marks the final drain as complete, which lets every waiter go on.
    pub fn signal(&mut self)
        ensures
            final(self).drained(),
    {
        self.done = true;
    }

    /// Whether a waiter may go on: not before [`WriterDrained::signal`] has
    /// been called.
    pub fn wait(&self) -> (r: bool)
        ensures
            r == self.drained(),
    {
        self.done
    }
}

impl Default for WriterDrained {
    /// Not yet drained.
    fn default() -> (r: WriterDrained)
        ensures
            !r.drained(),
    {
        WriterDrained { done: false }
    }
}

} // verus!
