//! Failures of a feed, classified by what the consumer does about them.

use crate::subscription::SubscriptionId;
use vstd::prelude::*;

verus! {

/// Failure of the transport or of decoding one of its messages.
#[derive(Clone, Debug, PartialEq, Eq)]
pub enum SocketError {
    /// A message carried a routing key that no subscription of this stream has.
    Unidentifiable(SubscriptionId),
    /// A payload could not be decoded.
    Deserialise { error: String, payload: String },
    /// The connection could not be opened, or it closed.
    Terminated(String),
    /// The venue refused a subscription.
    Subscribe(String),
    /// A request was answered with the given status and body.
    HttpResponse(u16, String),
}

/// Failure while producing market events.
#[derive(Clone, Debug, PartialEq, Eq)]
pub enum DataError {
    Socket(SocketError),
    /// An order book update did not connect to the last one applied; the book can
    /// only be trusted again after a fresh snapshot.
    InvalidSequence { prev_last_update_id: u64, first_update_id: u64 },
}

impl DataError {
    /// Whether the stream has to be set up again. Every other error is skipped
    /// and the stream read on.
    pub fn is_terminal(&self) -> (r: bool)
        ensures
            r == self.terminal(),
    {
        match self {
            DataError::InvalidSequence { .. } => true,
            _ => false,
        }
    }

    pub open spec fn terminal(&self) -> bool {
        self is InvalidSequence
    }
}

} // verus!
