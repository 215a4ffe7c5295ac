use vstd::prelude::*;
use crate::records::BlockHeight;

verus! {

/// The block in which a receipt executed.
pub struct Block {
    pub block_hash: String,
    pub block_height: BlockHeight,
    pub block_timestamp: i64,
}

/// The block in which a transaction was included.
pub struct BlockInfo {
    pub block_height: BlockHeight,
}

/// How a receipt ended.
pub struct ReceiptOutcome {
    pub executor_account_id: String,
    pub status: bool,
}

/// How a transaction ended.
pub struct Outcomes {
    pub status: bool,
}

/// One action of a transaction: a method call with JSON arguments, or another kind.
pub struct Action {
    pub action: String,
    pub method: Option<String>,
    pub args: Option<String>,
}

/// A transaction as the upstream feed reports it.
pub struct Transaction {
    pub id: String,
    pub receipt_id: String,
    pub predecessor_account_id: String,
    pub receiver_account_id: String,
    pub receipt_kind: String,
    pub receipt_block: Block,
    pub receipt_outcome: ReceiptOutcome,
    pub transaction_hash: String,
    pub included_in_block_hash: String,
    /// Chain time in nanoseconds, as decimal text.
    pub block_timestamp: String,
    pub block: BlockInfo,
    pub receipt_conversion_tokens_burnt: String,
    pub actions: Option<Vec<Action>>,
    pub outcomes: Outcomes,
}

/// The first action of a transaction, if it has any.
pub open spec fn first_action(tx: Transaction) -> Option<Action> {
    match tx.actions {
        Some(v) => if v@.len() > 0 {
            Some(v@[0])
        } else {
            None
        },
        None => None,
    }
}

pub fn get_first_action(tx: &Transaction) -> (r: Option<&Action>)
    ensures
        match r {
            Some(a) => first_action(*tx) == Some(*a),
            None => first_action(*tx) is None,
        },
{
    match &tx.actions {
        Some(v) => if v.len() > 0 {
            Some(&v[0])
        } else {
            None
        },
        None => None,
    }
}

} // verus!
