use vstd::prelude::*;

verus! {

/// An instant with microsecond precision, counted from the Unix epoch.
/// Negative values lie before the epoch.
#[derive(Clone, Copy, PartialEq, Eq, Structural, Debug)]
pub struct Timestamp {
    pub micros: i64,
}

impl Timestamp {
    /// Whole seconds since the epoch, rounded towards negative infinity,
    /// as the store's time columns hold them.
    pub fn seconds(&self) -> (r: i64)
        ensures
            r == self.micros as int / 1000000,
    {
        let q = self.micros / 1000000;
        let rem = self.micros % 1000000;
        if rem < 0 {
            q - 1
        } else {
            q
        }
    }
}

/// One end of a time range: closed, open, or absent.
#[derive(Clone, Copy, PartialEq, Eq, Structural, Debug)]
pub enum TimeBound {
    Included(Timestamp),
    Excluded(Timestamp),
    Unbounded,
}

/// One structured log record. Entries never mutate after creation.
#[derive(Debug)]
pub struct LogEntry {
    pub message: String,
    pub hostname: String,
    pub service: String,
    pub timestamp: Timestamp,
}

impl Clone for LogEntry {
    fn clone(&self) -> (r: Self)
        ensures
            r == *self,
    {
        LogEntry {
            message: self.message.clone(),
            hostname: self.hostname.clone(),
            service: self.service.clone(),
            timestamp: self.timestamp,
        }
    }
}

impl PartialEq for LogEntry {
    fn eq(&self, other: &Self) -> (r: bool) {
        self.message == other.message && self.hostname == other.hostname
            && self.service == other.service && self.timestamp.micros == other.timestamp.micros
    }
}

impl vstd::std_specs::cmp::PartialEqSpecImpl for LogEntry {
    open spec fn obeys_eq_spec() -> bool {
        true
    }

    open spec fn eq_spec(&self, other: &Self) -> bool {
        self.message@ == other.message@ && self.hostname@ == other.hostname@
            && self.service@ == other.service@ && self.timestamp == other.timestamp
    }
}

/// The failures the agent's components surface; see each operation's
/// contract for when a variant is produced.
#[derive(Clone, Copy, PartialEq, Eq, Structural, Debug)]
pub enum AgentError {
    /// The external log-collection process terminated.
    SourceExited,
    /// A record from the collector could not be parsed.
    MalformedRecord,
    /// The durable store could not be opened or migrated.
    StoreUnavailable,
    /// A write to the durable store failed; the whole batch was aborted.
    StoreWriteFailed,
    /// A read from the durable store failed.
    StoreReadFailed,
}

/// Returned by a stream whose producer side was torn down; the
/// subscription cannot be resumed.
#[derive(Clone, Copy, PartialEq, Eq, Structural, Debug)]
pub struct ClosedStream {}

} // verus!
