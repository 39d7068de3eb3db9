//! The record of an order that was filled.
//!
//! Prices, quantities and fees are fixed-point integers; times are milliseconds
//! since the Unix epoch.

use crate::execution::{Decision, ExecutionError};
use crate::subscription::Instrument;
use vstd::prelude::*;
use vstd::string::*;

verus! {

/// The close price of the market event that led to an order, and its time.
#[derive(Clone, Copy, Debug, PartialEq, Eq, Structural)]
pub struct MarketMeta {
    pub close: u64,
    pub time: i64,
}

/// Every fee that a fill incurs.
#[derive(Clone, Copy, Debug, PartialEq, Eq, Structural)]
pub struct Fees {
    /// Taken by the venue, such as commission.
    pub exchange: u64,
    /// Slippage in the order book, taken as a fee.
    pub slippage: u64,
    /// Taken by the network, such as gas.
    pub network: u64,
}

impl Fees {
    /// The sum of all fees.
    pub fn calculate_total_fees(&self) -> (r: u128)
        ensures
            r == self.exchange + self.network + self.slippage,
    {
        self.exchange as u128 + self.network as u128 + self.slippage as u128
    }
}

/// What an execution handler did for one order.
#[derive(Debug)]
pub struct FillEvent {
    pub time: i64,
    pub exchange: String,
    pub instrument: Instrument,
    pub market_meta: MarketMeta,
    pub decision: Decision,
    /// Positive or negative, as the decision goes.
    pub quantity: i64,
    /// The quantity's size times the close price, fees left out.
    pub fill_value_gross: u64,
    pub fees: Fees,
}

impl FillEvent {
    /// A builder to which nothing has been given.
    pub fn builder() -> (r: FillEventBuilder)
        ensures
            r.time is None,
            r.exchange is None,
            r.instrument is None,
            r.market_meta is None,
            r.decision is None,
            r.quantity is None,
            r.fill_value_gross is None,
            r.fees is None,
    {
        FillEventBuilder::new()
    }
}

/// Collects the attributes of a fill one by one.
#[derive(Debug)]
pub struct FillEventBuilder {
    pub time: Option<i64>,
    pub exchange: Option<String>,
    pub instrument: Option<Instrument>,
    pub market_meta: Option<MarketMeta>,
    pub decision: Option<Decision>,
    pub quantity: Option<i64>,
    pub fill_value_gross: Option<u64>,
    pub fees: Option<Fees>,
}

impl FillEventBuilder {
    /// The name of the first attribute that has not been given, if one has not.
    pub open spec fn missing(&self) -> Option<Seq<char>> {
        if self.time is None {
            Some("time"@)
        } else if self.exchange is None {
            Some("exchange"@)
        } else if self.instrument is None {
            Some("instrument"@)
        } else if self.market_meta is None {
            Some("market_meta"@)
        } else if self.decision is None {
            Some("decision"@)
        } else if self.quantity is None {
            Some("quantity"@)
        } else if self.fill_value_gross is None {
            Some("fill_value_gross"@)
        } else if self.fees is None {
            Some("fees"@)
        } else {
            None
        }
    }

    /// A builder to which nothing has been given.
    pub fn new() -> (r: Self)
        ensures
            r.time is None,
            r.exchange is None,
            r.instrument is None,
            r.market_meta is None,
            r.decision is None,
            r.quantity is None,
            r.fill_value_gross is None,
            r.fees is None,
    {
        FillEventBuilder {
            time: None,
            exchange: None,
            instrument: None,
            market_meta: None,
            decision: None,
            quantity: None,
            fill_value_gross: None,
            fees: None,
        }
    }

    pub fn time(self, value: i64) -> (r: Self)
        ensures
            r == (FillEventBuilder { time: Some(value), ..self }),
    {
        FillEventBuilder { time: Some(value), ..self }
    }

    pub fn exchange(self, value: String) -> (r: Self)
        ensures
            r == (FillEventBuilder { exchange: Some(value), ..self }),
    {
        FillEventBuilder { exchange: Some(value), ..self }
    }

    pub fn instrument(self, value: Instrument) -> (r: Self)
        ensures
            r == (FillEventBuilder { instrument: Some(value), ..self }),
    {
        FillEventBuilder { instrument: Some(value), ..self }
    }

    pub fn market_meta(self, value: MarketMeta) -> (r: Self)
        ensures
            r == (FillEventBuilder { market_meta: Some(value), ..self }),
    {
        FillEventBuilder { market_meta: Some(value), ..self }
    }

    pub fn decision(self, value: Decision) -> (r: Self)
        ensures
            r == (FillEventBuilder { decision: Some(value), ..self }),
    {
        FillEventBuilder { decision: Some(value), ..self }
    }

    pub fn quantity(self, value: i64) -> (r: Self)
        ensures
            r == (FillEventBuilder { quantity: Some(value), ..self }),
    {
        FillEventBuilder { quantity: Some(value), ..self }
    }

    pub fn fill_value_gross(self, value: u64) -> (r: Self)
        ensures
            r == (FillEventBuilder { fill_value_gross: Some(value), ..self }),
    {
        FillEventBuilder { fill_value_gross: Some(value), ..self }
    }

    pub fn fees(self, value: Fees) -> (r: Self)
        ensures
            r == (FillEventBuilder { fees: Some(value), ..self }),
    {
        FillEventBuilder { fees: Some(value), ..self }
    }

    /// The fill made of what was given. Fails with the name of the first
    /// attribute that was not given.
    pub fn build(self) -> (r: Result<FillEvent, ExecutionError>)
        ensures
            match self.missing() {
                Some(name) => r matches Err(ExecutionError::BuilderIncomplete(missing))
                    && missing@ == name,
                None => {
                    &&& r matches Ok(fill)
                    &&& Some(fill.time) == self.time
                    &&& Some(fill.exchange) == self.exchange
                    &&& Some(fill.instrument) == self.instrument
                    &&& Some(fill.market_meta) == self.market_meta
                    &&& Some(fill.decision) == self.decision
                    &&& Some(fill.quantity) == self.quantity
                    &&& Some(fill.fill_value_gross) == self.fill_value_gross
                    &&& Some(fill.fees) == self.fees
                },
            },
    {
        let time = match self.time {
            Some(time) => time,
            None => {
                return Err(ExecutionError::BuilderIncomplete(String::from_str("time")));
            },
        };
        let exchange = match self.exchange {
            Some(exchange) => exchange,
            None => {
                return Err(ExecutionError::BuilderIncomplete(String::from_str("exchange")));
            },
        };
        let instrument = match self.instrument {
            Some(instrument) => instrument,
            None => {
                return Err(ExecutionError::BuilderIncomplete(String::from_str("instrument")));
            },
        };
        let market_meta = match self.market_meta {
            Some(market_meta) => market_meta,
            None => {
                return Err(ExecutionError::BuilderIncomplete(String::from_str("market_meta")));
            },
        };
        let decision = match self.decision {
            Some(decision) => decision,
            None => {
                return Err(ExecutionError::BuilderIncomplete(String::from_str("decision")));
            },
        };
        let quantity = match self.quantity {
            Some(quantity) => quantity,
            None => {
                return Err(ExecutionError::BuilderIncomplete(String::from_str("quantity")));
            },
        };
        let fill_value_gross = match self.fill_value_gross {
            Some(fill_value_gross) => fill_value_gross,
            None => {
                return Err(
                    ExecutionError::BuilderIncomplete(String::from_str("fill_value_gross")),
                );
            },
        };
        let fees = match self.fees {
            Some(fees) => fees,
            None => {
                return Err(ExecutionError::BuilderIncomplete(String::from_str("fees")));
            },
        };
        Ok(
            FillEvent {
                time,
                exchange,
                instrument,
                market_meta,
                decision,
                quantity,
                fill_value_gross,
                fees,
            },
        )
    }
}

} // verus!
