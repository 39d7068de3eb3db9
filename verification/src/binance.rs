//! Requests to Binance: where they go and what they carry.

use crate::error::SocketError;
use crate::execution::{get_order_side, Decision, ExecutionError};
use crate::text::{occurs, str_contains, to_uppercase, uppercase_of};
use vstd::prelude::*;
use vstd::string::*;

verus! {

/// The venue itself or its test network.
#[derive(Clone, Copy, Debug, PartialEq, Eq, Structural)]
pub enum LiveOrTest {
    Live,
    Test,
}

/// Which of the venue's interfaces a client speaks to.
#[derive(Clone, Copy, Debug, PartialEq, Eq, Structural)]
pub enum BinanceApi {
    Spot(LiveOrTest),
    Futures(LiveOrTest),
}

impl BinanceApi {
    /// The address of the interface. Spot has no test network of its own.
    pub fn get_url(&self) -> (r: &'static str)
        ensures
            r@ == match self {
                BinanceApi::Spot(_) => "https://api.binance.com"@,
                BinanceApi::Futures(LiveOrTest::Live) => "https://fapi.binance.com"@,
                BinanceApi::Futures(LiveOrTest::Test) => "https://testnet.binancefuture.com"@,
            },
    {
        match self {
            BinanceApi::Spot(_) => "https://api.binance.com",
            BinanceApi::Futures(kind) => match kind {
                LiveOrTest::Live => "https://fapi.binance.com",
                LiveOrTest::Test => "https://testnet.binancefuture.com",
            },
        }
    }
}

/// What signs the requests of one account.
#[derive(Debug)]
pub struct BinanceSigner {
    pub api_key: String,
    /// Milliseconds by which the local clock is ahead of the venue's.
    pub timestamp_delta: i64,
}

impl BinanceSigner {
    pub fn init(api_key: String, timestamp_delta: i64) -> (r: Self)
        ensures
            r.api_key == api_key,
            r.timestamp_delta == timestamp_delta,
    {
        BinanceSigner { api_key, timestamp_delta }
    }

    /// What is to be signed of a request with the given query.
    pub fn config<'a>(&'a self, query_string: String) -> (r: BinanceSignConfig<'a>)
        ensures
            r.api_key@ == self.api_key@,
            r.query_string == query_string,
    {
        BinanceSignConfig { api_key: self.api_key.as_str(), query_string }
    }
}

/// One request as it is signed: the account's key and the query.
#[derive(Debug)]
pub struct BinanceSignConfig<'a> {
    pub api_key: &'a str,
    pub query_string: String,
}

impl<'a> BinanceSignConfig<'a> {
    /// The bytes that the signature covers: those of the query.
    pub fn bytes_to_sign(&self) -> (r: Vec<u8>)
        ensures
            r@ == vstd::utf8::encode_utf8(self.query_string@),
    {
        self.query_string.as_str().as_bytes_vec()
    }
}

/// Reads the venue's error answers.
#[derive(Clone, Copy, Debug)]
pub struct BinanceParser;

impl BinanceParser {
    /// The error that an answer of the given status stands for. Its message is
    /// what parsing the answer said, followed by the answer itself. A message
    /// that speaks of invalid login credentials means the request was not
    /// authorised; any other is handed on with the status.
    pub fn parse_api_error(
        &self,
        status: u16,
        api_error: &str,
        parse_api_error: &str,
    ) -> (r: ExecutionError)
        ensures
            match r {
                ExecutionError::Unauthorised(message) => {
                    &&& message@ == parse_api_error@ + api_error@
                    &&& occurs(
                        vstd::utf8::encode_utf8(message@),
                        vstd::utf8::encode_utf8("Invalid login credentials"@),
                    )
                },
                ExecutionError::Socket(SocketError::HttpResponse(code, message)) => {
                    &&& code == status
                    &&& message@ == parse_api_error@ + api_error@
                    &&& !occurs(
                        vstd::utf8::encode_utf8(message@),
                        vstd::utf8::encode_utf8("Invalid login credentials"@),
                    )
                },
                _ => false,
            },
    {
        let mut error = String::from_str(parse_api_error);
        error.append(api_error);
        if str_contains(error.as_str(), "Invalid login credentials") {
            ExecutionError::Unauthorised(error)
        } else {
            ExecutionError::Socket(SocketError::HttpResponse(status, error))
        }
    }
}

/// The venue's name for a pair: base and quote run together, in upper case.
#[derive(Clone, Debug, Hash, PartialEq, Eq)]
pub struct BinancePair(pub String);

impl BinancePair {
    pub fn new(base: &str, quote: &str) -> (r: Self)
        ensures
            r.0@ == uppercase_of(base@ + quote@),
    {
        let mut pair = String::from_str(base);
        pair.append(quote);
        BinancePair(to_uppercase(pair.as_str()))
    }
}

/// The query of a request: keys and values in the order in which they were
/// added.
#[derive(Debug)]
pub struct QueryParams(pub Vec<(String, String)>);

impl View for QueryParams {
    type V = Seq<(Seq<char>, Seq<char>)>;

    open spec fn view(&self) -> Seq<(Seq<char>, Seq<char>)> {
        self.0@.map_values(|pair: (String, String)| (pair.0@, pair.1@))
    }
}

impl QueryParams {
    pub fn new() -> (r: Self)
        ensures
            r@ == Seq::<(Seq<char>, Seq<char>)>::empty(),
    {
        let r = QueryParams(Vec::new());
        assert(r@ =~= Seq::<(Seq<char>, Seq<char>)>::empty());
        r
    }

    /// Adds a key and its value at the end.
    pub fn add_kv(&mut self, key: &str, value: &str)
        ensures
            final(self)@ == old(self)@.push((key@, value@)),
    {
        self.0.push((String::from_str(key), String::from_str(value)));
        assert(self@ =~= old(self)@.push((key@, value@)));
    }
}


/// Whether a limit order may take liquidity.
#[derive(Clone, Copy, Debug, PartialEq, Eq, Structural)]
pub enum OrderExecutionType {
    /// The order rests or trades, whichever comes first.
    Standard,
    /// The order is refused where it would trade at once.
    MakerOnly,
}

/// How an order is to be executed. Prices and distances are decimal numbers as
/// text, handed on as they are.
#[derive(Debug)]
#[allow(inconsistent_fields)]
pub enum OrderType {
    Limit { price: String, execution_type: OrderExecutionType },
    Market,
    StopLoss { stop_price: String },
    TrailingStop { trailing_delta: String, stop_price: Option<String> },
}

/// An order to be placed.
#[derive(Debug)]
pub struct OrderRequest {
    pub base: String,
    pub quote: String,
    pub decision: Decision,
    /// The quantity as a decimal number.
    pub quantity: String,
    /// The client's own id for the order.
    pub id: String,
    pub order_type: OrderType,
}

/// The side that carries out a decision.
pub open spec fn side_of(decision: Decision) -> Seq<char> {
    if decision == Decision::Long || decision == Decision::CloseShort {
        "BUY"@
    } else {
        "SELL"@
    }
}

/// The keys and values that say how an order is executed.
pub open spec fn order_type_query(order_type: OrderType) -> Seq<(Seq<char>, Seq<char>)> {
    match order_type {
        OrderType::Limit { price, execution_type: OrderExecutionType::Standard } => seq![
            ("type"@, "LIMIT"@),
            ("timeInForce"@, "GTC"@),
            ("price"@, price@),
        ],
        OrderType::Limit { price, execution_type: OrderExecutionType::MakerOnly } => seq![
            ("type"@, "LIMIT_MAKER"@),
            ("price"@, price@),
        ],
        OrderType::Market => seq![("type"@, "MARKET"@), ("newOrderRespType"@, "RESULT"@)],
        OrderType::StopLoss { stop_price } => seq![
            ("type"@, "STOP_LOSS"@),
            ("stopPrice"@, stop_price@),
            ("timeInForce"@, "GTC"@),
        ],
        OrderType::TrailingStop { trailing_delta, stop_price } => {
            let head = seq![
                ("type"@, "STOP_LOSS"@),
                ("trailingDelta"@, trailing_delta@),
                ("timeInForce"@, "GTC"@),
            ];
            match stop_price {
                Some(stop_price) => head.push(("stopPrice"@, stop_price@)),
                None => head,
            }
        },
    }
}

/// The query of the request that places `order`: the pair, the side, the
/// quantity and the client's id, then how the order is executed.
pub open spec fn order_query_of(order: OrderRequest) -> Seq<(Seq<char>, Seq<char>)> {
    seq![
        ("symbol"@, uppercase_of(order.base@ + order.quote@)),
        ("side"@, side_of(order.decision)),
        ("quantity"@, order.quantity@),
        ("newClientOrderId"@, order.id@),
    ] + order_type_query(order.order_type)
}

/// The query of the request that places `order`.
pub fn order_query(order: &OrderRequest) -> (r: QueryParams)
    ensures
        r@ == order_query_of(*order),
{
    let pair = BinancePair::new(order.base.as_str(), order.quote.as_str());
    let mut query_params = QueryParams::new();
    query_params.add_kv("symbol", pair.0.as_str());
    query_params.add_kv("side", get_order_side(order.decision));
    query_params.add_kv("quantity", order.quantity.as_str());
    query_params.add_kv("newClientOrderId", order.id.as_str());
    match &order.order_type {
        OrderType::Limit { price, execution_type } => {
            match execution_type {
                OrderExecutionType::Standard => {
                    query_params.add_kv("type", "LIMIT");
                    query_params.add_kv("timeInForce", "GTC");
                },
                OrderExecutionType::MakerOnly => {
                    query_params.add_kv("type", "LIMIT_MAKER");
                },
            }
            query_params.add_kv("price", price.as_str());
        },
        OrderType::Market => {
            query_params.add_kv("type", "MARKET");
            query_params.add_kv("newOrderRespType", "RESULT");
        },
        OrderType::StopLoss { stop_price } => {
            query_params.add_kv("type", "STOP_LOSS");
            query_params.add_kv("stopPrice", stop_price.as_str());
            query_params.add_kv("timeInForce", "GTC");
        },
        OrderType::TrailingStop { trailing_delta, stop_price } => {
            query_params.add_kv("type", "STOP_LOSS");
            query_params.add_kv("trailingDelta", trailing_delta.as_str());
            query_params.add_kv("timeInForce", "GTC");
            if let Some(stop_price) = stop_price {
                query_params.add_kv("stopPrice", stop_price.as_str());
            }
        },
    }
    assert(query_params@ =~= order_query_of(*order));
    query_params
}

/// The path to which orders of an interface go. Only the futures interface
/// takes orders.
pub fn order_path(kind: BinanceApi) -> (r: &'static str)
    requires
        kind is Futures,
    ensures
        r@ == "/fapi/v1/order"@,
{
    "/fapi/v1/order"
}

} // verus!
