use vstd::prelude::*;

use crate::channel::channel_send;
use crate::channel::new_channel;
use crate::entry::LogEntry;
use crate::logstream::LogStream;

verus! {

/// The in-process fan-out broadcaster: a registry of subscriber queues.
/// Every published entry is pushed to every registered queue; a queue
/// whose receiving half is gone is dropped from the registry during
/// that publish, with no separate cleanup pass. Callers that share a
/// dispatcher across tasks guard it with their own lock.
pub struct LogDispatcher {
    senders: Vec<tokio::sync::mpsc::UnboundedSender<LogEntry>>,
}

impl LogDispatcher {
    /// How many subscriber queues are registered.
    pub closed spec fn subscriber_count(self) -> nat {
        self.senders@.len()
    }

    /// A dispatcher with no subscribers.
    pub fn new() -> (r: LogDispatcher)
        ensures
            r.subscriber_count() == 0,
    {
        LogDispatcher { senders: Vec::new() }
    }

    /// Deliver one entry to every registered subscriber queue, in
    /// registration order; queues that no longer accept entries are
    /// dropped from the registry. Delivery is a queue push per
    /// subscriber: one slow consumer never blocks another.
    pub fn send(&mut self, entry: &LogEntry)
        ensures
            final(self).subscriber_count() <= old(self).subscriber_count(),
    {
        let ghost n0 = old(self).senders@.len();
        let mut remaining: Vec<tokio::sync::mpsc::UnboundedSender<LogEntry>> = Vec::new();
        core::mem::swap(&mut remaining, &mut self.senders);
        while remaining.len() > 0
            invariant
                self.senders@.len() + remaining@.len() <= n0,
            decreases remaining@.len(),
        {
            let tx = remaining.remove(0);
            let rejected = channel_send(&tx, entry.clone());
            if rejected.is_none() {
                self.senders.push(tx);
            }
        }
    }

    /// Register a new subscriber with a fresh, unbounded queue and hand
    /// back the stream that pulls from it. The subscription is "from
    /// now on": only entries published afterwards reach this queue.
    pub fn stream(&mut self) -> (r: LogStream)
        ensures
            final(self).subscriber_count() == old(self).subscriber_count() + 1,
            r.spec_filter().services is None,
            r.spec_filter().message_keywords is None,
            r.spec_filter().timerange.0 is Unbounded,
            r.spec_filter().timerange.1 is Unbounded,
    {
        let (tx, rx) = new_channel();
        self.senders.push(tx);
        LogStream::new(rx)
    }
}

} // verus!
