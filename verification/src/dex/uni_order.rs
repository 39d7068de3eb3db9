//! Orders as the venue's order service lists them.

use vstd::prelude::*;

verus! {

/// What an order pays out: an amount of a token that falls from `start_amount`
/// to `end_amount` while the order is open. Amounts are decimal integers in the
/// token's smallest unit.
#[derive(Debug, Clone)]
pub struct Output {
    pub recipient: String,
    pub start_amount: String,
    pub end_amount: String,
    pub token: String,
}

pub struct OutputView {
    pub recipient: Seq<char>,
    pub start_amount: Seq<char>,
    pub end_amount: Seq<char>,
    pub token: Seq<char>,
}

impl View for Output {
    type V = OutputView;

    open spec fn view(&self) -> OutputView {
        OutputView {
            recipient: self.recipient@,
            start_amount: self.start_amount@,
            end_amount: self.end_amount@,
            token: self.token@,
        }
    }
}

impl Output {
    pub fn duplicate(&self) -> (r: Output)
        ensures
            r@ == self@,
    {
        Output {
            recipient: self.recipient.clone(),
            start_amount: self.start_amount.clone(),
            end_amount: self.end_amount.clone(),
            token: self.token.clone(),
        }
    }
}

/// What an order takes in.
#[derive(Debug, Clone)]
pub struct Input {
    pub end_amount: String,
    pub token: String,
    pub start_amount: String,
}

pub struct InputView {
    pub end_amount: Seq<char>,
    pub token: Seq<char>,
    pub start_amount: Seq<char>,
}

impl View for Input {
    type V = InputView;

    open spec fn view(&self) -> InputView {
        InputView {
            end_amount: self.end_amount@,
            token: self.token@,
            start_amount: self.start_amount@,
        }
    }
}

impl Input {
    pub fn duplicate(&self) -> (r: Input)
        ensures
            r@ == self@,
    {
        Input {
            end_amount: self.end_amount.clone(),
            token: self.token.clone(),
            start_amount: self.start_amount.clone(),
        }
    }
}

/// What a filled order came to.
#[derive(Debug, Clone)]
pub struct SettledAmount {
    pub token_out: String,
    pub amount_in: String,
    pub amount_out: String,
    pub token_in: String,
}

pub struct SettledAmountView {
    pub token_out: Seq<char>,
    pub amount_in: Seq<char>,
    pub amount_out: Seq<char>,
    pub token_in: Seq<char>,
}

impl View for SettledAmount {
    type V = SettledAmountView;

    open spec fn view(&self) -> SettledAmountView {
        SettledAmountView {
            token_out: self.token_out@,
            amount_in: self.amount_in@,
            amount_out: self.amount_out@,
            token_in: self.token_in@,
        }
    }
}

impl SettledAmount {
    pub fn duplicate(&self) -> (r: SettledAmount)
        ensures
            r@ == self@,
    {
        SettledAmount {
            token_out: self.token_out.clone(),
            amount_in: self.amount_in.clone(),
            amount_out: self.amount_out.clone(),
            token_in: self.token_in.clone(),
        }
    }
}

/// One order of the venue, known by its hash.
#[derive(Debug, Clone)]
pub struct UniOrder {
    pub outputs: Vec<Output>,
    pub encoded_order: String,
    pub signature: String,
    pub input: Input,
    pub settled_amounts: Option<Vec<SettledAmount>>,
    pub order_status: String,
    pub tx_hash: Option<String>,
    pub created_at: u64,
    pub chain_id: u64,
    pub order_hash: String,
    pub order_type: String,
}

pub struct UniOrderView {
    pub outputs: Seq<OutputView>,
    pub encoded_order: Seq<char>,
    pub signature: Seq<char>,
    pub input: InputView,
    pub settled_amounts: Option<Seq<SettledAmountView>>,
    pub order_status: Seq<char>,
    pub tx_hash: Option<Seq<char>>,
    pub created_at: u64,
    pub chain_id: u64,
    pub order_hash: Seq<char>,
    pub order_type: Seq<char>,
}

impl View for UniOrder {
    type V = UniOrderView;

    open spec fn view(&self) -> UniOrderView {
        UniOrderView {
            outputs: self.outputs@.map_values(|o: Output| o@),
            encoded_order: self.encoded_order@,
            signature: self.signature@,
            input: self.input@,
            settled_amounts: match self.settled_amounts {
                Some(amounts) => Some(amounts@.map_values(|a: SettledAmount| a@)),
                None => None,
            },
            order_status: self.order_status@,
            tx_hash: match self.tx_hash {
                Some(hash) => Some(hash@),
                None => None,
            },
            created_at: self.created_at,
            chain_id: self.chain_id,
            order_hash: self.order_hash@,
            order_type: self.order_type@,
        }
    }
}

fn duplicate_outputs(outputs: &Vec<Output>) -> (r: Vec<Output>)
    ensures
        r@.map_values(|o: Output| o@) == outputs@.map_values(|o: Output| o@),
{
    let mut r: Vec<Output> = Vec::new();
    let mut i: usize = 0;
    while i < outputs.len()
        invariant
            i <= outputs.len(),
            r@.len() == i,
            forall|j: int| 0 <= j < i ==> (#[trigger] r@[j])@ == outputs@[j]@,
        decreases outputs.len() - i,
    {
        r.push(outputs[i].duplicate());
        i += 1;
    }
    assert(r@.map_values(|o: Output| o@) =~= outputs@.map_values(|o: Output| o@));
    r
}

fn duplicate_settled(amounts: &Vec<SettledAmount>) -> (r: Vec<SettledAmount>)
    ensures
        r@.map_values(|a: SettledAmount| a@) == amounts@.map_values(|a: SettledAmount| a@),
{
    let mut r: Vec<SettledAmount> = Vec::new();
    let mut i: usize = 0;
    while i < amounts.len()
        invariant
            i <= amounts.len(),
            r@.len() == i,
            forall|j: int| 0 <= j < i ==> (#[trigger] r@[j])@ == amounts@[j]@,
        decreases amounts.len() - i,
    {
        r.push(amounts[i].duplicate());
        i += 1;
    }
    assert(r@.map_values(|a: SettledAmount| a@) =~= amounts@.map_values(|a: SettledAmount| a@));
    r
}

impl UniOrder {
    /// An independent copy.
    pub fn duplicate(&self) -> (r: UniOrder)
        ensures
            r@ == self@,
    {
        UniOrder {
            outputs: duplicate_outputs(&self.outputs),
            encoded_order: self.encoded_order.clone(),
            signature: self.signature.clone(),
            input: self.input.duplicate(),
            settled_amounts: match &self.settled_amounts {
                Some(amounts) => Some(duplicate_settled(amounts)),
                None => None,
            },
            order_status: self.order_status.clone(),
            tx_hash: match &self.tx_hash {
                Some(hash) => Some(hash.clone()),
                None => None,
            },
            created_at: self.created_at,
            chain_id: self.chain_id,
            order_hash: self.order_hash.clone(),
            order_type: self.order_type.clone(),
        }
    }
}

/// One answer of the order service.
#[derive(Debug)]
pub struct Response {
    pub orders: Vec<UniOrder>,
}

} // verus!
