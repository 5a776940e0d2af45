//! Errors of the adapters and of the book updaters.

use vstd::prelude::*;
use crate::model::SubscriptionId;

verus! {

/// Failure on the way to, or on, one connection.
#[derive(Debug)]
pub enum SocketError {
    /// The venue's endpoint is no valid URL; the text says why.
    UrlParse(String),
    /// The venue rejected a subscription, or acknowledged nothing.
    Subscribe(String),
    /// A message belongs to none of the current subscriptions.
    Unidentifiable(SubscriptionId),
}

/// Failure while normalising market data.
#[derive(Debug)]
pub enum DataError {
    Socket(SocketError),
    /// A book update does not follow on the state held locally: `expected`
    /// is what the local state called for, `received` what the update
    /// carried.
    InvalidSequence { expected: u64, received: u64 },
}

impl DataError {
    /// Whether the stream this error came from has to be set up anew: a
    /// book that lost its sequence cannot be trusted any more, while a
    /// message that could not be routed is dropped.
    pub fn is_terminal(&self) -> (terminal: bool)
        ensures
            terminal == (*self is InvalidSequence),
    {
        match self {
            DataError::InvalidSequence { .. } => true,
            DataError::Socket(_) => false,
        }
    }
}

} // verus!
