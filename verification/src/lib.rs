//! Core of a log-shipping agent: a filter predicate over log entries, a
//! batched, searchable log store, an in-process fan-out dispatcher with
//! per-subscriber streams, and the pure parts of the journal source
//! (record normalization, resume-window computation, query construction).

pub mod channel;
pub mod database;
pub mod entry;
pub mod filter;
pub mod fts;
pub mod journald;
pub mod logdispatcher;
pub mod logstream;
pub mod sqlgen;
pub mod text;

pub use database::LogDatabase;
pub use filter::Filter;
pub use logdispatcher::LogDispatcher;
pub use logstream::LogStream;

pub use entry::AgentError;
pub use entry::ClosedStream;
pub use entry::LogEntry;
pub use entry::TimeBound;
pub use entry::Timestamp;
