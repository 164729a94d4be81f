use vstd::prelude::*;

use crate::entry::LogEntry;

verus! {

#[verifier::external_type_specification]
#[verifier::external_body]
#[verifier::reject_recursive_types(T)]
pub struct ExUnboundedSender<T>(tokio::sync::mpsc::UnboundedSender<T>);

#[verifier::external_type_specification]
#[verifier::external_body]
#[verifier::reject_recursive_types(T)]
pub struct ExUnboundedReceiver<T>(tokio::sync::mpsc::UnboundedReceiver<T>);

/// Relies on tokio::sync::mpsc::unbounded_channel: a fresh pair whose
/// sending half feeds the receiving half.
#[verifier::external_body]
pub fn new_channel() -> (
    tokio::sync::mpsc::UnboundedSender<LogEntry>,
    tokio::sync::mpsc::UnboundedReceiver<LogEntry>,
) {
    tokio::sync::mpsc::unbounded_channel()
}

/// Relies on UnboundedSender::send: delivery fails exactly when the
/// receiving half is closed, and the failure hands the entry back
/// unchanged.
#[verifier::external_body]
pub fn channel_send(
    tx: &tokio::sync::mpsc::UnboundedSender<LogEntry>,
    entry: LogEntry,
) -> (rejected: Option<LogEntry>)
    ensures
        rejected matches Some(e) ==> e == entry,
{
    match tx.send(entry) {
        Ok(()) => None,
        Err(tokio::sync::mpsc::error::SendError(e)) => Some(e),
    }
}

/// Relies on UnboundedReceiver::blocking_recv: the next queued entry,
/// in the order the sending half queued them, or nothing once every
/// sender is gone and the queue is drained. It blocks while the queue
/// is empty and a sender remains, so it must not be called from inside
/// an asynchronous runtime.
#[verifier::external_body]
pub fn channel_recv(
    rx: &mut tokio::sync::mpsc::UnboundedReceiver<LogEntry>,
) -> (r: Option<LogEntry>) {
    rx.blocking_recv()
}

} // verus!
