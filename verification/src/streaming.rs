//! The pacing protocol of the streaming command runner.
//!
//! A transaction's commands all travel over one bidirectional stream, yet
//! the runner emulates one-request-at-a-time rhythm: after emitting any
//! message but the last it suspends until at least one response has been
//! observed. The response path posts a signal per response into a bounded
//! channel and silently drops signals that find the channel full — the
//! producer only needs "at least one signal since the last send," never an
//! exact count. These two state machines carry the protocol's decisions;
//! the asynchronous shell merely moves their messages and signals.

use vstd::prelude::*;

verus! {

/// The producer side: which message to emit next, and whether production
/// is suspended awaiting a pacing signal.
pub struct StreamingPacer {
    total: u64,
    emitted: u64,
    waiting: bool,
}

impl StreamingPacer {
    /// Messages this transaction emits in total.
    pub closed spec fn total(self) -> u64 {
        self.total
    }

    /// Messages emitted so far.
    pub closed spec fn emitted(self) -> u64 {
        self.emitted
    }

    /// Whether production is suspended awaiting a signal.
    pub closed spec fn is_waiting(self) -> bool {
        self.waiting
    }

    pub closed spec fn wf(self) -> bool {
        &&& self.emitted <= self.total
        &&& self.waiting ==> 1 <= self.emitted < self.total
    }

    /// All messages are out; nothing suspends any more.
    pub open spec fn production_done(self) -> bool {
        self.emitted() == self.total()
    }

    /// A pacer for one transaction of `total` messages.
    pub fn new(total: u64) -> (r: Self)
        ensures
            r.wf(),
            r.total() == total,
            r.emitted() == 0,
            !r.is_waiting(),
    {
        StreamingPacer { total, emitted: 0, waiting: false }
    }

    /// Emit the next message if production is neither finished nor
    /// suspended. After any message but the last, production suspends; the
    /// last message leaves production finished with no further wait.
    pub fn try_emit(&mut self) -> (r: Option<u64>)
        requires
            old(self).wf(),
        ensures
            final(self).wf(),
            final(self).total() == old(self).total(),
            old(self).is_waiting() || old(self).production_done() ==> r is None && *final(self)
                == *old(self),
            !old(self).is_waiting() && !old(self).production_done() ==> ({
                &&& r == Some(old(self).emitted())
                &&& final(self).emitted() == old(self).emitted() + 1
                &&& final(self).is_waiting() == (old(self).emitted() + 1 < old(self).total())
            }),
    {
        if self.waiting || self.emitted == self.total {
            None
        } else {
            let index = self.emitted;
            self.emitted = self.emitted + 1;
            self.waiting = self.emitted < self.total;
            Some(index)
        }
    }

    /// Resume production: at least one response was observed since the last
    /// emission.
    pub fn on_signal(&mut self)
        requires
            old(self).wf(),
        ensures
            final(self).wf(),
            final(self).total() == old(self).total(),
            final(self).emitted() == old(self).emitted(),
            !final(self).is_waiting(),
    {
        self.waiting = false;
    }

    /// Whether every message of the transaction has been emitted.
    pub fn is_done(&self) -> (r: bool)
        ensures
            r == self.production_done(),
    {
        self.emitted == self.total
    }
}

/// The bounded internal signal channel between the response path and the
/// producer.
pub struct SignalChannel {
    capacity: u64,
    pending: u64,
}

impl SignalChannel {
    /// The bound the channel was created with.
    pub closed spec fn capacity(self) -> u64 {
        self.capacity
    }

    /// Signals posted and not yet taken.
    pub closed spec fn pending(self) -> u64 {
        self.pending
    }

    pub closed spec fn wf(self) -> bool {
        self.pending <= self.capacity
    }

    /// An empty channel of the given bound.
    pub fn new(capacity: u64) -> (r: Self)
        ensures
            r.wf(),
            r.capacity() == capacity,
            r.pending() == 0,
    {
        SignalChannel { capacity, pending: 0 }
    }

    /// Post one signal without blocking; a full channel drops it silently.
    pub fn try_post(&mut self) -> (posted: bool)
        requires
            old(self).wf(),
        ensures
            final(self).wf(),
            final(self).capacity() == old(self).capacity(),
            old(self).pending() < old(self).capacity() ==> posted && final(self).pending() == old(
                self,
            ).pending() + 1,
            old(self).pending() == old(self).capacity() ==> !posted && final(self).pending()
                == old(self).pending(),
    {
        if self.pending < self.capacity {
            self.pending = self.pending + 1;
            true
        } else {
            false
        }
    }

    /// Take one pending signal if any is there.
    pub fn try_take(&mut self) -> (taken: bool)
        requires
            old(self).wf(),
        ensures
            final(self).wf(),
            final(self).capacity() == old(self).capacity(),
            old(self).pending() > 0 ==> taken && final(self).pending() == old(self).pending() - 1,
            old(self).pending() == 0 ==> !taken && final(self).pending() == old(self).pending(),
    {
        if self.pending > 0 {
            self.pending = self.pending - 1;
            true
        } else {
            false
        }
    }
}

} // verus!
