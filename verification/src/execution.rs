//! What a strategy decides and what a venue answers.

use crate::error::SocketError;
use vstd::prelude::*;

verus! {

/// The advice of a strategy.
#[derive(Clone, Copy, Debug, PartialEq, Eq, Hash, Structural)]
pub enum Decision {
    Long,
    CloseLong,
    Short,
    CloseShort,
}

impl Default for Decision {
    fn default() -> (r: Self)
        ensures
            r == Decision::Long,
    {
        Decision::Long
    }
}

impl Decision {
    /// Whether the decision opens a long position.
    pub fn is_long(&self) -> (r: bool)
        ensures
            r == (*self == Decision::Long),
    {
        matches!(self, Decision::Long)
    }

    /// Whether the decision opens a short position.
    pub fn is_short(&self) -> (r: bool)
        ensures
            r == (*self == Decision::Short),
    {
        matches!(self, Decision::Short)
    }

    /// Whether the decision opens a position, long or short.
    pub fn is_entry(&self) -> (r: bool)
        ensures
            r == (*self == Decision::Long || *self == Decision::Short),
    {
        matches!(self, Decision::Short | Decision::Long)
    }

    /// Whether the decision closes a position.
    pub fn is_exit(&self) -> (r: bool)
        ensures
            r == (*self == Decision::CloseLong || *self == Decision::CloseShort),
    {
        matches!(self, Decision::CloseLong | Decision::CloseShort)
    }
}

/// Every decision either opens a position or closes one, never both.
pub proof fn lemma_entry_or_exit(decision: Decision)
    ensures
        (decision == Decision::Long || decision == Decision::Short) != (decision
            == Decision::CloseLong || decision == Decision::CloseShort),
{
}

/// The side of the order that carries out a decision: buying opens a long and
/// closes a short, selling does the opposite.
pub fn get_order_side(side: Decision) -> (r: &'static str)
    ensures
        r@ == if side == Decision::Long || side == Decision::CloseShort {
            "BUY"@
        } else {
            "SELL"@
        },
{
    match side {
        Decision::Long => "BUY",
        Decision::Short => "SELL",
        Decision::CloseLong => "SELL",
        Decision::CloseShort => "BUY",
    }
}

/// Which execution client an account belongs to.
#[derive(Clone, Copy, Debug, PartialEq, Eq, Hash, Structural)]
pub enum ExecutionId {
    Simulated,
    Binance,
}

impl ExecutionId {
    /// The client's name in snake case.
    pub fn as_str(&self) -> (r: &'static str)
        ensures
            r@ == match self {
                ExecutionId::Simulated => "simulated"@,
                ExecutionId::Binance => "binance"@,
            },
    {
        match self {
            ExecutionId::Simulated => "simulated",
            ExecutionId::Binance => "binance",
        }
    }
}

/// Failure while executing orders.
#[derive(Clone, Debug, PartialEq, Eq)]
pub enum ExecutionError {
    /// A builder was asked to build without the named attribute.
    BuilderIncomplete(String),
    Simulated(String),
    /// The balance of the named symbol does not cover the order.
    InsufficientBalance(String),
    /// No order has the given client order id.
    OrderNotFound(String),
    UnsupportedOrderKind(String),
    Unauthorised(String),
    Socket(SocketError),
}

/// The successful answers among `responses`, in their order.
pub open spec fn successes<T>(responses: Seq<Result<T, ExecutionError>>) -> Seq<T>
    decreases responses.len(),
{
    if responses.len() == 0 {
        Seq::empty()
    } else {
        let head = successes(responses.drop_last());
        match responses.last() {
            Ok(response) => head.push(response),
            Err(_) => head,
        }
    }
}

/// Keeps the successful answers and drops the failures.
pub fn filter_responses<T>(responses: Vec<Result<T, ExecutionError>>) -> (r: Vec<T>)
    ensures
        r@ == successes(responses@),
{
    let mut kept: Vec<T> = Vec::new();
    let ghost all = responses@;
    assert(all.take(0) =~= Seq::empty());
    for response in it: responses
        invariant
            it.seq() == all,
            kept@ == successes(all.take(it.index() as int)),
    {
        let ghost i = it.index() as int;
        assert(all.take(i + 1).drop_last() =~= all.take(i));
        assert(all.take(i + 1).last() == all[i]);
        match response {
            Ok(response) => {
                kept.push(response);
            },
            Err(_) => {},
        }
    }
    assert(all.take(all.len() as int) =~= all);
    kept
}

/// Keeps the successful answers and drops the failures.
pub fn remove_error_responses<T>(responses: Vec<Result<T, ExecutionError>>) -> (r: Vec<T>)
    ensures
        r@ == successes(responses@),
{
    filter_responses(responses)
}

/// No more answers are kept than were given, and where every answer was a
/// success all are kept.
pub proof fn lemma_successes_bounded<T>(responses: Seq<Result<T, ExecutionError>>)
    ensures
        successes(responses).len() <= responses.len(),
        (forall|i: int| 0 <= i < responses.len() ==> (#[trigger] responses[i]) is Ok)
            ==> successes(responses).len() == responses.len(),
    decreases responses.len(),
{
    if responses.len() > 0 {
        let head = responses.drop_last();
        lemma_successes_bounded(head);
        assert forall|i: int| 0 <= i < head.len() implies (#[trigger] head[i]) == responses[i] by {}
        if forall|i: int| 0 <= i < responses.len() ==> (#[trigger] responses[i]) is Ok {
            assert(responses.last() == responses[responses.len() - 1]);
            assert forall|i: int| 0 <= i < head.len() implies (#[trigger] head[i]) is Ok by {
                assert(head[i] == responses[i]);
            }
        }
    }
}

} // verus!
