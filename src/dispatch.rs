use vstd::prelude::*;
use crate::transaction::{first_action, get_first_action, Transaction};

verus! {

/// The handler family a contract method is routed to.
#[derive(Debug, Clone, Copy, PartialEq, Eq, Structural)]
pub enum Route {
    ProposalCallback,
    ProposalEdit,
    RfpCallback,
    RfpEdit,
    Unhandled,
}

/// The dispatch table from method name to handler family.
pub open spec fn route_of(method: Seq<char>) -> Route {
    if method == "set_block_height_callback"@ {
        Route::ProposalCallback
    } else if method == "edit_proposal"@ || method == "edit_proposal_timeline"@ || method
        == "edit_proposal_versioned_timeline"@ || method == "edit_proposal_linked_rfp"@ || method
        == "edit_proposal_internal"@ {
        Route::ProposalEdit
    } else if method == "set_rfp_block_height_callback"@ {
        Route::RfpCallback
    } else if method == "edit_rfp"@ || method == "edit_rfp_internal"@ || method
        == "edit_rfp_timeline"@ || method == "cancel_rfp"@ {
        Route::RfpEdit
    } else {
        Route::Unhandled
    }
}

/// Where a transaction goes: nowhere when it has no action or its receipt
/// failed, else the route of its first action's method (an absent method
/// counts as the empty name).
pub open spec fn tx_route(tx: Transaction) -> Route {
    match first_action(tx) {
        None => Route::Unhandled,
        Some(a) => if !tx.receipt_outcome.status {
            Route::Unhandled
        } else {
            match a.method {
                Some(m) => route_of(m@),
                None => route_of(Seq::<char>::empty()),
            }
        },
    }
}

/// Character-wise equality of two texts.
pub fn text_eq(a: &str, b: &str) -> (r: bool)
    ensures
        r == (a@ == b@),
{
    let n = a.unicode_len();
    if n != b.unicode_len() {
        return false;
    }
    let mut i: usize = 0;
    while i < n
        invariant
            n == a@.len(),
            n == b@.len(),
            i <= n,
            forall|j: int| 0 <= j < i ==> a@[j] == b@[j],
        decreases n - i,
    {
        if a.get_char(i) != b.get_char(i) {
            return false;
        }
        i = i + 1;
    }
    assert(a@ =~= b@);
    true
}

/// Route a method name through the dispatch table.
pub fn route_method(method: &str) -> (r: Route)
    ensures
        r == route_of(method@),
{
    if text_eq(method, "set_block_height_callback") {
        Route::ProposalCallback
    } else if text_eq(method, "edit_proposal") || text_eq(method, "edit_proposal_timeline")
        || text_eq(method, "edit_proposal_versioned_timeline") || text_eq(
        method,
        "edit_proposal_linked_rfp",
    ) || text_eq(method, "edit_proposal_internal") {
        Route::ProposalEdit
    } else if text_eq(method, "set_rfp_block_height_callback") {
        Route::RfpCallback
    } else if text_eq(method, "edit_rfp") || text_eq(method, "edit_rfp_internal") || text_eq(
        method,
        "edit_rfp_timeline",
    ) || text_eq(method, "cancel_rfp") {
        Route::RfpEdit
    } else {
        Route::Unhandled
    }
}

/// Route a transaction: skip it when it has no action or its receipt failed.
pub fn route_transaction(tx: &Transaction) -> (r: Route)
    ensures
        r == tx_route(*tx),
{
    match get_first_action(tx) {
        None => Route::Unhandled,
        Some(a) => {
            if !tx.receipt_outcome.status {
                return Route::Unhandled;
            }
            match &a.method {
                Some(m) => route_method(m.as_str()),
                None => {
                    proof {
                        reveal_strlit("");
                    }
                    assert(""@ =~= Seq::<char>::empty());
                    route_method("")
                },
            }
        },
    }
}

} // verus!
