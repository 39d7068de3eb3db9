//! The unit that a feed hands downstream.

use crate::subscription::{ExchangeId, Instrument};
use vstd::prelude::*;

verus! {

/// One normalised event of a feed: where and when it arose, and what it carries.
/// Times are milliseconds since the Unix epoch.
#[derive(Debug)]
pub struct MarketEvent<T> {
    /// Time the venue gave the event.
    pub exchange_time: i64,
    /// Time the event was received here.
    pub received_time: i64,
    pub exchange: ExchangeId,
    pub instrument: Instrument,
    pub kind: T,
}

} // verus!
