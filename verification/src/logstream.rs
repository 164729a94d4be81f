use vstd::prelude::*;

use crate::channel::channel_recv;
use crate::entry::ClosedStream;
use crate::entry::LogEntry;
use crate::filter::spec_accepts;
use crate::filter::Filter;

verus! {

/// One subscriber's cursor over dispatched entries, optionally composed
/// with a filter that is applied locally to this consumer alone.
pub struct LogStream {
    receiver: tokio::sync::mpsc::UnboundedReceiver<LogEntry>,
    filter: Filter,
}

impl LogStream {
    /// The filter this stream applies to the entries it pulls.
    pub closed spec fn spec_filter(self) -> Filter {
        self.filter
    }

    /// A stream over the given queue that filters nothing out.
    pub fn new(receiver: tokio::sync::mpsc::UnboundedReceiver<LogEntry>) -> (r: Self)
        ensures
            r.spec_filter().services is None,
            r.spec_filter().message_keywords is None,
            r.spec_filter().timerange.0 is Unbounded,
            r.spec_filter().timerange.1 is Unbounded,
    {
        let filter = Filter::default();
        Self { receiver, filter }
    }

    /// The same stream with the given filter composed onto it.
    pub fn with_filter(self, filter: Filter) -> (r: Self)
        ensures
            r.spec_filter() == filter,
    {
        Self { receiver: self.receiver, filter }
    }

    /// One pull step: wait for the next entry in publish order and
    /// judge it. An accepted entry comes back as `Ok(Some(_))`; an
    /// entry the filter rejects is discarded and reported as
    /// `Ok(None)`, and the caller pulls again for the next one; once
    /// the producer side is gone and the queue is drained, every
    /// further step fails with `ClosedStream`, with no way to resume.
    pub fn try_pull(&mut self) -> (r: Result<Option<LogEntry>, ClosedStream>)
        ensures
            final(self).spec_filter() == old(self).spec_filter(),
            r matches Ok(Some(e)) ==> spec_accepts(old(self).spec_filter(), e),
    {
        match channel_recv(&mut self.receiver) {
            Some(entry) => {
                if self.filter.accept(&entry) {
                    Ok(Some(entry))
                } else {
                    Ok(None)
                }
            },
            None => Err(ClosedStream {  }),
        }
    }
}

} // verus!
