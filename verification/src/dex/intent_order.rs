//! Intent orders: the venue's orders with their market and exact amounts.

use crate::dex::market::{orientation, quote_priority, Market};
use crate::dex::tokens::Token;
use crate::dex::uni_order::UniOrder;
use crate::dex::DexError;
use crate::subscription::{Instrument, InstrumentKind, InstrumentView};
use crate::text::lowercase_of;
use num_bigint::BigInt;
use vstd::prelude::*;
use vstd::string::*;

verus! {

/// An integer of any size. Nothing is known of it here but where it came from.
#[verifier::external_type_specification]
#[verifier::external_body]
pub struct ExBigInt(num_bigint::BigInt);

/// The integer that `num_bigint::BigInt::parse_bytes` reads from the bytes of
/// `text` as a number of the given radix, if it reads one.
pub uninterp spec fn parsed_bigint(text: Seq<char>, radix: u32) -> Option<BigInt>;

/// Calls `num_bigint::BigInt::parse_bytes` on the bytes of `text`. The result
/// depends on the text and the radix alone. The call panics on a radix outside
/// 2 to 36, which the precondition leaves out.
#[verifier::external_body]
pub(crate) fn parse_bigint(text: &str, radix: u32) -> (r: Option<BigInt>)
    requires
        2 <= radix <= 36,
    ensures
        r == parsed_bigint(text@, radix),
{
    BigInt::parse_bytes(text.as_bytes(), radix)
}

/// Whether an intent order appeared or went away.
#[derive(Clone, Copy, Debug, PartialEq, Eq, Structural)]
pub enum IntentOrderUpdate {
    Opened,
    Closed,
}

/// An amount of a token: `units` of its smallest unit, of which ten to the
/// power of `decimals` make one token.
#[derive(Debug)]
pub struct TokenAmount {
    pub units: BigInt,
    pub decimals: u8,
}

/// The four amounts of an order as they were read, each `None` where the text
/// is no number.
#[derive(Debug)]
pub struct ParsedAmounts {
    pub input_start: Option<BigInt>,
    pub output_start: Option<BigInt>,
    pub input_end: Option<BigInt>,
    pub output_end: Option<BigInt>,
}

/// An order of the venue as a market event: which instrument it trades, in
/// which direction, and the exact amounts it takes in and pays out at its start
/// and at its end.
#[derive(Debug)]
pub struct IntentOrder {
    pub event: IntentOrderUpdate,
    pub id: String,
    pub instrument: Instrument,
    /// The order pays out the market's base.
    pub buy: bool,
    pub input_start: TokenAmount,
    pub output_start: TokenAmount,
    pub input_end: TokenAmount,
    pub output_end: TokenAmount,
    /// The start amount taken in, as the venue wrote it.
    pub amount_in: String,
    /// The start amount paid out, as the venue wrote it.
    pub amount_out: String,
    pub created_at: u64,
    pub order_type: String,
    pub signature: String,
    pub encoded_order: String,
}

impl IntentOrder {
    /// The amount of base that the order trades: what it pays out when it buys,
    /// what it takes in when it sells.
    pub fn amount(&self) -> (r: &TokenAmount)
        ensures
            *r == if self.buy {
                self.output_start
            } else {
                self.input_start
            },
    {
        if self.buy {
            &self.output_start
        } else {
            &self.input_start
        }
    }

    /// The price asked at the start, as the amount to divide and the amount to
    /// divide by: quote for base.
    pub fn start_ask(&self) -> (r: (&TokenAmount, &TokenAmount))
        ensures
            (*r.0, *r.1) == if self.buy {
                (self.input_start, self.output_start)
            } else {
                (self.output_start, self.input_start)
            },
    {
        if self.buy {
            (&self.input_start, &self.output_start)
        } else {
            (&self.output_start, &self.input_start)
        }
    }

    /// The price asked at the end, as the amount to divide and the amount to
    /// divide by.
    pub fn end_ask(&self) -> (r: (&TokenAmount, &TokenAmount))
        ensures
            (*r.0, *r.1) == if self.buy {
                (self.input_end, self.output_end)
            } else {
                (self.output_end, self.input_end)
            },
    {
        if self.buy {
            (&self.input_end, &self.output_end)
        } else {
            (&self.output_end, &self.input_end)
        }
    }
}

/// What `order` is made of, given the order of the venue, its two tokens and
/// the amounts read from it.
pub open spec fn intent_order_of(
    order: IntentOrder,
    uni_order: UniOrder,
    token_in: Token,
    token_out: Token,
    event: IntentOrderUpdate,
    input_start: BigInt,
    output_start: BigInt,
    input_end: BigInt,
    output_end: BigInt,
) -> bool {
    let market = orientation(
        quote_priority(),
        lowercase_of(token_in.symbol@),
        lowercase_of(token_out.symbol@),
        token_in.symbol@,
        token_out.symbol@,
    );
    &&& order.event == event
    &&& order.id@ == uni_order.order_hash@
    &&& order.instrument@ == (InstrumentView {
        base: market.0,
        quote: market.1,
        kind: InstrumentKind::IntentOrder,
    })
    &&& order.buy == market.2
    &&& order.input_start == (TokenAmount { units: input_start, decimals: token_in.decimals })
    &&& order.output_start == (TokenAmount { units: output_start, decimals: token_out.decimals })
    &&& order.input_end == (TokenAmount { units: input_end, decimals: token_in.decimals })
    &&& order.output_end == (TokenAmount { units: output_end, decimals: token_out.decimals })
    &&& order.amount_in@ == uni_order.input.start_amount@
    &&& order.amount_out@ == uni_order.outputs@[0].start_amount@
    &&& order.created_at == uni_order.created_at
    &&& order.order_type@ == uni_order.order_type@
    &&& order.signature@ == uni_order.signature@
    &&& order.encoded_order@ == uni_order.encoded_order@
}

/// Builds the intent order of `uni_order` from the amounts read from it. Fails
/// exactly when one of the four amounts is no number. The order's instrument
/// names the market's quote first.
pub fn intent_order_from_amounts(
    uni_order: &UniOrder,
    token_in: &Token,
    token_out: &Token,
    event: IntentOrderUpdate,
    amounts: ParsedAmounts,
) -> (r: Result<IntentOrder, DexError>)
    requires
        uni_order.outputs@.len() > 0,
    ensures
        match (amounts.input_start, amounts.output_start, amounts.input_end, amounts.output_end) {
            (Some(input_start), Some(output_start), Some(input_end), Some(output_end)) => {
                &&& r matches Ok(order)
                &&& intent_order_of(
                    order,
                    *uni_order,
                    *token_in,
                    *token_out,
                    event,
                    input_start,
                    output_start,
                    input_end,
                    output_end,
                )
            },
            _ => r matches Err(DexError::Error(message)) && message@ == "Failed to parse BigInt"@,
        },
{
    let market = Market::new(token_in, token_out);
    let Market { quotes: _, quote, base, buy } = market;
    let ParsedAmounts { input_start, output_start, input_end, output_end } = amounts;
    match (input_start, output_start, input_end, output_end) {
        (Some(input_start), Some(output_start), Some(input_end), Some(output_end)) => {
            Ok(
                IntentOrder {
                    event,
                    id: uni_order.order_hash.clone(),
                    instrument: Instrument::new(quote, base, InstrumentKind::IntentOrder),
                    buy,
                    input_start: TokenAmount { units: input_start, decimals: token_in.decimals },
                    output_start: TokenAmount { units: output_start, decimals: token_out.decimals },
                    input_end: TokenAmount { units: input_end, decimals: token_in.decimals },
                    output_end: TokenAmount { units: output_end, decimals: token_out.decimals },
                    amount_in: uni_order.input.start_amount.clone(),
                    amount_out: uni_order.outputs[0].start_amount.clone(),
                    created_at: uni_order.created_at,
                    order_type: uni_order.order_type.clone(),
                    signature: uni_order.signature.clone(),
                    encoded_order: uni_order.encoded_order.clone(),
                },
            )
        },
        _ => Err(DexError::Error(String::from_str("Failed to parse BigInt"))),
    }
}

/// The intent order of one order of the venue: its market by the usual
/// preference of quotes, and its amounts read as decimal integers. Only the
/// first output of the order counts. Fails exactly when one of the four amounts
/// is no decimal integer.
pub fn map_uni_order_to_intent_order(
    uni_order: &UniOrder,
    token_in: &Token,
    token_out: &Token,
    event: IntentOrderUpdate,
) -> (r: Result<IntentOrder, DexError>)
    requires
        uni_order.outputs@.len() > 0,
    ensures
        match (
            parsed_bigint(uni_order.input.start_amount@, 10),
            parsed_bigint(uni_order.outputs@[0].start_amount@, 10),
            parsed_bigint(uni_order.input.end_amount@, 10),
            parsed_bigint(uni_order.outputs@[0].end_amount@, 10),
        ) {
            (Some(input_start), Some(output_start), Some(input_end), Some(output_end)) => {
                &&& r matches Ok(order)
                &&& intent_order_of(
                    order,
                    *uni_order,
                    *token_in,
                    *token_out,
                    event,
                    input_start,
                    output_start,
                    input_end,
                    output_end,
                )
            },
            _ => r matches Err(DexError::Error(message)) && message@ == "Failed to parse BigInt"@,
        },
{
    let amounts = ParsedAmounts {
        input_start: parse_bigint(uni_order.input.start_amount.as_str(), 10),
        output_start: parse_bigint(uni_order.outputs[0].start_amount.as_str(), 10),
        input_end: parse_bigint(uni_order.input.end_amount.as_str(), 10),
        output_end: parse_bigint(uni_order.outputs[0].end_amount.as_str(), 10),
    };
    intent_order_from_amounts(uni_order, token_in, token_out, event, amounts)
}

} // verus!
