//! Shared helpers: the royalty share formula and the plain-value forms of
//! the two outward actions a mint produces (a balance transfer and a mint
//! notification). The host adapter performs the actions; this module only
//! decides and describes them.

use vstd::prelude::*;

verus! {

/// A balance transfer the host is asked to perform: send `amount` of the
/// smallest currency unit to `account_id`.
pub struct TransferAction {
    pub account_id: String,
    pub amount: u128,
}

/// A mint notification for the host's event log: `owner_id` received the
/// tokens named by `token_ids`.
pub struct MintEvent {
    pub owner_id: String,
    pub token_ids: Vec<String>,
    pub memo: Option<String>,
}

/// The share, in the smallest currency unit, that `a` basis points of the
/// balance `b` are worth, rounded down.
pub open spec fn spec_royalty_to_payout(a: int, b: int) -> int {
    a * b / 10000
}

/// Rounded-down share of balance `b` owed for a royalty of `a` basis points.
pub fn royalty_to_payout(a: u32, b: u128) -> (r: u128)
    requires
        a as int * b as int <= u128::MAX as int,
    ensures
        r as int == spec_royalty_to_payout(a as int, b as int),
{
    a as u128 * b / 10_000u128
}

/// Build the mint notification for a batch of freshly minted tokens: the
/// receiving owner and the identifiers, in mint order, with no memo.
pub fn log_mint(owner_id: &String, tokens: &Vec<crate::Token>) -> (e: MintEvent)
    ensures
        e.owner_id == *owner_id,
        e.token_ids@.len() == tokens@.len(),
        forall|i: int|
            0 <= i < tokens@.len() ==> #[trigger] e.token_ids@[i] == tokens@[i].token_id,
        e.memo is None,
{
    let mut token_ids: Vec<String> = Vec::new();
    let mut i: usize = 0;
    while i < tokens.len()
        invariant
            i <= tokens@.len(),
            token_ids@.len() == i,
            forall|k: int| 0 <= k < i ==> #[trigger] token_ids@[k] == tokens@[k].token_id,
        decreases tokens@.len() - i,
    {
        token_ids.push(tokens[i].token_id.clone());
        i += 1;
    }
    MintEvent { owner_id: owner_id.clone(), token_ids, memo: None }
}

/// Decide whether a refund transfer is owed: a zero amount produces no
/// action, a positive amount produces a transfer of exactly that amount.
pub fn transfer(account_id: &String, amount: u128) -> (r: Option<TransferAction>)
    ensures
        amount > 0 ==> (r matches Some(a) && a.account_id == *account_id && a.amount == amount),
        amount == 0 ==> r is None,
{
    if amount > 0 {
        return Some(TransferAction { account_id: account_id.clone(), amount });
    }
    None
}

} // verus!
