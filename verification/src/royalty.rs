//! The royalty engine: the payout a sale balance splits into, given the
//! stored royalty table and the token's owner. Every beneficiary other
//! than the owner receives its rounded-down basis-point share; the owner
//! receives the share of everything not assigned to others, and so
//! absorbs all rounding slack.

use vstd::prelude::*;
use crate::util::spec_royalty_to_payout;
use crate::{Contract, ContractError, MAX_ROYALTY_BPS, MAX_ROYALTY_ENTRIES};

verus! {

/// A computed payout: how much of a sale balance each beneficiary is
/// owed, in the smallest currency unit. Ephemeral; never persisted.
pub struct Payout {
    pub payout: Vec<(String, u128)>,
}

/// Sum, in basis points, of all shares in a royalty table.
pub open spec fn bps_total(entries: Seq<(String, u32)>) -> int
    decreases entries.len(),
{
    if entries.len() == 0 {
        0
    } else {
        bps_total(entries.drop_last()) + entries.last().1
    }
}

/// The entries of a proposed table that are actually stored: every entry
/// whose beneficiary is not `admin`, in the given order.
pub open spec fn keep_entries(entries: Seq<(String, u32)>, admin: Seq<char>) -> Seq<(String, u32)>
    decreases entries.len(),
{
    if entries.len() == 0 {
        Seq::empty()
    } else {
        let init = keep_entries(entries.drop_last(), admin);
        if entries.last().0@ != admin {
            init.push(entries.last())
        } else {
            init
        }
    }
}

/// Dropping entries never lengthens the table.
pub proof fn lemma_keep_entries_len(entries: Seq<(String, u32)>, admin: Seq<char>)
    ensures
        keep_entries(entries, admin).len() <= entries.len(),
    decreases entries.len(),
{
    if entries.len() > 0 {
        lemma_keep_entries_len(entries.drop_last(), admin);
    }
}

/// Dropping entries never raises the basis-point total.
pub proof fn lemma_keep_entries_total(entries: Seq<(String, u32)>, admin: Seq<char>)
    ensures
        bps_total(keep_entries(entries, admin)) <= bps_total(entries),
    decreases entries.len(),
{
    if entries.len() > 0 {
        lemma_keep_entries_total(entries.drop_last(), admin);
        if entries.last().0@ != admin {
            let kept = keep_entries(entries.drop_last(), admin).push(entries.last());
            assert(kept.drop_last() =~= keep_entries(entries.drop_last(), admin));
        } else {
            lemma_bps_total_nonneg_last(entries);
        }
    }
}

/// Every share is non-negative, so the total only grows with the table.
proof fn lemma_bps_total_nonneg_last(entries: Seq<(String, u32)>)
    requires
        entries.len() > 0,
    ensures
        bps_total(entries.drop_last()) <= bps_total(entries),
{
}

/// The stored entries never include the administrative identity.
pub proof fn lemma_keep_entries_no_admin(entries: Seq<(String, u32)>, admin: Seq<char>)
    ensures
        forall|i: int|
            0 <= i < keep_entries(entries, admin).len() ==> keep_entries(entries, admin)[i].0@
                != admin,
    decreases entries.len(),
{
    if entries.len() > 0 {
        lemma_keep_entries_no_admin(entries.drop_last(), admin);
        let kept = keep_entries(entries, admin);
        let init = keep_entries(entries.drop_last(), admin);
        assert forall|i: int| 0 <= i < kept.len() implies kept[i].0@ != admin by {
            if entries.last().0@ != admin {
                if i < init.len() {
                    assert(kept[i] == init[i]);
                } else {
                    assert(kept[i] == entries.last());
                }
            } else {
                assert(kept[i] == init[i]);
            }
        }
    }
}

/// Each single share is bounded by the table's total.
pub proof fn lemma_entry_le_total(entries: Seq<(String, u32)>, i: int)
    requires
        0 <= i < entries.len(),
    ensures
        entries[i].1 <= bps_total(entries),
    decreases entries.len(),
{
    if i == entries.len() - 1 {
        lemma_bps_total_nonneg(entries.drop_last());
    } else {
        lemma_entry_le_total(entries.drop_last(), i);
        assert(entries.drop_last()[i] == entries[i]);
    }
}

/// A basis-point total is never negative.
pub proof fn lemma_bps_total_nonneg(entries: Seq<(String, u32)>)
    ensures
        bps_total(entries) >= 0,
    decreases entries.len(),
{
    if entries.len() > 0 {
        lemma_bps_total_nonneg(entries.drop_last());
    }
}

/// A prefix's basis-point total never exceeds the whole table's.
pub proof fn lemma_bps_total_prefix(entries: Seq<(String, u32)>, i: int)
    requires
        0 <= i <= entries.len(),
    ensures
        bps_total(entries.subrange(0, i)) <= bps_total(entries),
    decreases entries.len() - i,
{
    if i < entries.len() {
        lemma_bps_total_prefix(entries, i + 1);
        assert(entries.subrange(0, i + 1).drop_last() =~= entries.subrange(0, i));
        assert(entries.subrange(0, i + 1).last() == entries[i]);
    } else {
        assert(entries.subrange(0, entries.len() as int) =~= entries);
    }
}

/// One payout entry: the beneficiary and its rounded-down share of the
/// balance.
pub open spec fn share_entry(e: (String, u32), balance: u128) -> (String, u128) {
    (e.0, spec_royalty_to_payout(e.1 as int, balance as int) as u128)
}

/// The payout entries owed to the non-owner beneficiaries of `others`,
/// in table order.
pub open spec fn others_payout(others: Seq<(String, u32)>, balance: u128) -> Seq<(String, u128)>
    decreases others.len(),
{
    if others.len() == 0 {
        Seq::empty()
    } else {
        others_payout(others.drop_last(), balance).push(share_entry(others.last(), balance))
    }
}

/// The full payout for a sale of `balance` against table `entries` and
/// owner `owner`: each non-owner beneficiary's rounded-down share, then
/// the owner's entry carrying the whole unassigned remainder.
pub open spec fn payout_entries(entries: Seq<(String, u32)>, owner: String, balance: u128) -> Seq<
    (String, u128),
> {
    let others = keep_entries(entries, owner@);
    others_payout(others, balance).push(
        (owner, spec_royalty_to_payout(10000 - bps_total(others), balance as int) as u128),
    )
}

/// Sum of the amounts a payout assigns, in the smallest currency unit.
pub open spec fn payout_total(entries: Seq<(String, u128)>) -> int
    decreases entries.len(),
{
    if entries.len() == 0 {
        0
    } else {
        payout_total(entries.drop_last()) + entries.last().1
    }
}

/// Rounding down two summands separately never beats rounding down
/// their sum.
proof fn lemma_div10000_add(a: int, b: int)
    requires
        a >= 0,
        b >= 0,
    ensures
        a / 10000 + b / 10000 <= (a + b) / 10000,
{
    let qa = a / 10000;
    let ra = a % 10000;
    let qb = b / 10000;
    let rb = b % 10000;
    vstd::arithmetic::div_mod::lemma_fundamental_div_mod(a, 10000);
    vstd::arithmetic::div_mod::lemma_fundamental_div_mod(b, 10000);
    vstd::arithmetic::div_mod::lemma_mod_bound(a, 10000);
    vstd::arithmetic::div_mod::lemma_mod_bound(b, 10000);
    if ra + rb < 10000 {
        vstd::arithmetic::div_mod::lemma_fundamental_div_mod_converse(
            a + b,
            10000,
            qa + qb,
            ra + rb,
        );
    } else {
        vstd::arithmetic::div_mod::lemma_fundamental_div_mod_converse(
            a + b,
            10000,
            qa + qb + 1,
            ra + rb - 10000,
        );
    }
}

/// When the balance is a whole multiple of the basis-point denominator,
/// every share divides evenly.
proof fn lemma_exact_share(v: int, b: int)
    requires
        v >= 0,
        b >= 0,
        b % 10000 == 0,
    ensures
        v * b / 10000 == v * (b / 10000),
{
    let q = b / 10000;
    vstd::arithmetic::div_mod::lemma_fundamental_div_mod(b, 10000);
    assert(v * b == (v * q) * 10000) by (nonlinear_arith)
        requires
            b == 10000 * q,
    ;
    vstd::arithmetic::div_mod::lemma_fundamental_div_mod_converse(v * b, 10000, v * q, 0);
}

/// The non-owner part of a payout is bounded by the rounded-down share
/// of the combined basis points, exactly meets it when the balance
/// divides evenly, and is never negative.
proof fn lemma_others_payout_total(others: Seq<(String, u32)>, balance: u128)
    requires
        bps_total(others) <= 10000,
        balance as int * 10000 <= u128::MAX as int,
    ensures
        payout_total(others_payout(others, balance)) <= spec_royalty_to_payout(
            bps_total(others),
            balance as int,
        ),
        payout_total(others_payout(others, balance)) >= 0,
        balance as int % 10000 == 0 ==> payout_total(others_payout(others, balance)) == bps_total(
            others,
        ) * ((balance as int) / 10000),
    decreases others.len(),
{
    let b = balance as int;
    if others.len() == 0 {
        assert(spec_royalty_to_payout(0, b) == 0);
    } else {
        let rest = others.drop_last();
        lemma_bps_total_nonneg(rest);
        lemma_others_payout_total(rest, balance);
        let op = others_payout(others, balance);
        assert(op.drop_last() =~= others_payout(rest, balance));
        assert(op.last() == share_entry(others.last(), balance));
        let v = others.last().1 as int;
        let a = bps_total(rest);
        assert(v * b <= 10000 * b && a * b <= 10000 * b && v * b >= 0 && a * b >= 0)
            by (nonlinear_arith)
            requires
                0 <= v <= 10000,
                0 <= a <= 10000,
                b >= 0,
        ;
        assert(share_entry(others.last(), balance).1 as int == v * b / 10000);
        lemma_div10000_add(a * b, v * b);
        assert(a * b + v * b == (a + v) * b) by (nonlinear_arith);
        if b % 10000 == 0 {
            lemma_exact_share(v, b);
            assert(a * (b / 10000) + v * (b / 10000) == (a + v) * (b / 10000))
                by (nonlinear_arith);
        }
    }
}

/// Conservation of value: for any royalty table within the count and
/// basis-point bounds, and any balance, every payout entry is
/// non-negative and the entries sum to no more than the balance; when
/// the balance is a whole multiple of the basis-point denominator, the
/// entries sum to exactly the balance, so the owner's final entry is
/// exactly the balance minus what the other beneficiaries receive.
pub proof fn lemma_payout_conservation(entries: Seq<(String, u32)>, owner: String, balance: u128)
    requires
        entries.len() <= MAX_ROYALTY_ENTRIES,
        bps_total(entries) <= MAX_ROYALTY_BPS,
        balance as int * 10000 <= u128::MAX as int,
    ensures
        payout_total(payout_entries(entries, owner, balance)) <= balance,
        forall|i: int|
            0 <= i < payout_entries(entries, owner, balance).len() ==> (#[trigger] payout_entries(
                entries,
                owner,
                balance,
            )[i]).1 >= 0,
        balance as int % 10000 == 0 ==> payout_total(payout_entries(entries, owner, balance))
            == balance,
        balance as int % 10000 == 0 ==> payout_entries(entries, owner, balance).last().1 as int
            == balance - payout_total(others_payout(keep_entries(entries, owner@), balance)),
{
    let b = balance as int;
    let others = keep_entries(entries, owner@);
    lemma_keep_entries_total(entries, owner@);
    lemma_bps_total_nonneg(others);
    let a = bps_total(others);
    lemma_others_payout_total(others, balance);
    let pe = payout_entries(entries, owner, balance);
    assert(pe.drop_last() =~= others_payout(others, balance));
    assert(pe.last() == (owner, spec_royalty_to_payout(10000 - a, b) as u128));
    assert((10000 - a) * b <= 10000 * b && (10000 - a) * b >= 0) by (nonlinear_arith)
        requires
            0 <= a <= 10000,
            b >= 0,
    ;
    vstd::arithmetic::div_mod::lemma_div_is_ordered((10000 - a) * b, 10000 * b, 10000);
    vstd::arithmetic::div_mod::lemma_fundamental_div_mod_converse(10000 * b, 10000, b, 0);
    assert(pe.last().1 as int == (10000 - a) * b / 10000);
    lemma_div10000_add(a * b, (10000 - a) * b);
    assert(a * b + (10000 - a) * b == 10000 * b) by (nonlinear_arith);
    if b % 10000 == 0 {
        lemma_exact_share(10000 - a, b);
        vstd::arithmetic::div_mod::lemma_fundamental_div_mod(b, 10000);
        assert(a * (b / 10000) + (10000 - a) * (b / 10000) == 10000 * (b / 10000))
            by (nonlinear_arith);
    }
}

/// The payout interface of the ledger: a read-only payout computation,
/// and the atomic transfer-with-payout step.
pub trait Payouts: Sized {
    /// Whether the state admits payout computation.
    spec fn payouts_wf(&self) -> bool;

    /// The royalty table payouts are derived from.
    spec fn royalty_table(&self) -> Seq<(String, u32)>;

    /// The owner recorded for the token named `token_id`.
    spec fn owner_of(&self, token_id: Seq<char>) -> Option<String>;

    /// The payout for `token_id` at sale balance `balance`: fails with
    /// `UnknownToken` if no such token is recorded, with
    /// `PayoutTooLarge` if the entry count would exceed
    /// `max_len_payout`, and otherwise returns exactly the table-order
    /// shares with the owner's remainder entry last.
    fn nft_payout(&self, token_id: String, balance: u128, max_len_payout: Option<u32>) -> (r:
        Result<Payout, ContractError>)
        requires
            self.payouts_wf(),
            balance as int * 10000 <= u128::MAX as int,
        ensures
            (match r {
                Ok(p) => (self.owner_of(token_id@) matches Some(owner) && p.payout@
                    == payout_entries(self.royalty_table(), owner, balance) && (
                max_len_payout matches Some(m) ==> p.payout@.len() <= m)),
                Err(e) => (if e == ContractError::UnknownToken {
                    self.owner_of(token_id@) is None
                } else if e == ContractError::PayoutTooLarge {
                    (self.owner_of(token_id@) matches Some(owner) && (max_len_payout matches Some(
                        m,
                    ) && payout_entries(self.royalty_table(), owner, balance).len() > m))
                } else {
                    false
                }),
            }),
    ;

    /// Compute the payout against the current owner, then transfer the
    /// token to `receiver_id`, as one atomic step. The call must carry
    /// the single-unit payment marker in `attached_deposit`, and
    /// `caller` must be the current owner; any failure leaves the ledger
    /// exactly as it was.
    fn nft_transfer_payout(
        &mut self,
        caller: String,
        attached_deposit: u128,
        receiver_id: String,
        token_id: String,
        approval_id: Option<u64>,
        memo: Option<String>,
        balance: u128,
        max_len_payout: Option<u32>,
    ) -> (r: Result<Payout, ContractError>)
        requires
            old(self).payouts_wf(),
            balance as int * 10000 <= u128::MAX as int,
        ensures
            final(self).payouts_wf(),
            (match r {
                Ok(p) => ((old(self).owner_of(token_id@) matches Some(owner) && attached_deposit
                    == 1 && caller@ == owner@ && p.payout@ == payout_entries(
                    old(self).royalty_table(),
                    owner,
                    balance,
                ) && (max_len_payout matches Some(m) ==> p.payout@.len() <= m))
                    && final(self).owner_of(token_id@) == Some(receiver_id) && (forall|
                    other: Seq<char>,
                |
                    other != token_id@ ==> final(self).owner_of(other) == old(self).owner_of(
                        other,
                    )) && final(self).royalty_table() == old(self).royalty_table()),
                Err(e) => (*final(self) == *old(self) && (if e
                    == ContractError::MissingAttestation {
                    attached_deposit != 1
                } else if e == ContractError::UnknownToken {
                    attached_deposit == 1 && old(self).owner_of(token_id@) is None
                } else if e == ContractError::PayoutTooLarge {
                    attached_deposit == 1 && (old(self).owner_of(token_id@) matches Some(owner)
                        && (max_len_payout matches Some(m) && payout_entries(
                        old(self).royalty_table(),
                        owner,
                        balance,
                    ).len() > m))
                } else if e == ContractError::Unauthorized {
                    attached_deposit == 1 && (old(self).owner_of(token_id@) matches Some(owner)
                        && caller@ != owner@ && (max_len_payout matches Some(m)
                        ==> payout_entries(old(self).royalty_table(), owner, balance).len() <= m))
                } else {
                    false
                })),
            }),
    ;
}

impl Payouts for Contract {
    open spec fn payouts_wf(&self) -> bool {
        self.wf()
    }

    open spec fn royalty_table(&self) -> Seq<(String, u32)> {
        self.royalties@
    }

    open spec fn owner_of(&self, token_id: Seq<char>) -> Option<String> {
        crate::spec_owner_of(self.tokens@, token_id)
    }

    fn nft_payout(&self, token_id: String, balance: u128, max_len_payout: Option<u32>) -> (r:
        Result<Payout, ContractError>) {
        let j = match self.find_token(&token_id) {
            Some(j) => j,
            None => { return Err(ContractError::UnknownToken) },
        };
        let owner = self.tokens[j].owner_id.clone();
        let ghost tbl = self.royalties@;
        let mut total: u32 = 0;
        let mut entries: Vec<(String, u128)> = Vec::new();
        let mut i: usize = 0;
        while i < self.royalties.len()
            invariant
                self.wf(),
                tbl == self.royalties@,
                balance as int * 10000 <= u128::MAX as int,
                owner == self.tokens@[j as int].owner_id,
                i <= tbl.len(),
                total as int == bps_total(keep_entries(tbl.subrange(0, i as int), owner@)),
                total <= MAX_ROYALTY_BPS,
                entries@ == others_payout(keep_entries(tbl.subrange(0, i as int), owner@), balance),
            decreases tbl.len() - i,
        {
            proof {
                let sub = tbl.subrange(0, i as int);
                let sub1 = tbl.subrange(0, i as int + 1);
                assert(sub1.drop_last() =~= sub);
                assert(sub1.last() == tbl[i as int]);
                lemma_keep_entries_total(sub1, owner@);
                lemma_bps_total_prefix(tbl, i as int + 1);
                lemma_bps_total_nonneg(keep_entries(sub1, owner@));
                lemma_entry_le_total(tbl, i as int);
                if tbl[i as int].0@ != owner@ {
                    assert(keep_entries(sub1, owner@) =~= keep_entries(sub, owner@).push(
                        tbl[i as int],
                    ));
                    assert(keep_entries(sub1, owner@).drop_last() =~= keep_entries(sub, owner@));
                }
            }
            let v = self.royalties[i].1;
            if !(self.royalties[i].0 == owner) {
                proof {
                    assert(v as int * balance as int <= 10000 * balance as int)
                        by (nonlinear_arith)
                        requires
                            v as int <= 10000,
                            balance as int >= 0,
                    ;
                }
                let amount = crate::util::royalty_to_payout(v, balance);
                entries.push((self.royalties[i].0.clone(), amount));
                total = total + v;
            }
            i += 1;
        }
        proof {
            assert(tbl.subrange(0, tbl.len() as int) =~= tbl);
        }
        proof {
            assert((10000 - total) as int * balance as int <= 10000 * balance as int)
                by (nonlinear_arith)
                requires
                    0 <= (10000 - total) as int <= 10000,
                    balance as int >= 0,
            ;
        }
        let owner_amount = crate::util::royalty_to_payout(10000 - total, balance);
        entries.push((owner, owner_amount));
        if let Some(m) = max_len_payout {
            if entries.len() > m as usize {
                return Err(ContractError::PayoutTooLarge);
            }
        }
        Ok(Payout { payout: entries })
    }

    fn nft_transfer_payout(
        &mut self,
        caller: String,
        attached_deposit: u128,
        receiver_id: String,
        token_id: String,
        approval_id: Option<u64>,
        memo: Option<String>,
        balance: u128,
        max_len_payout: Option<u32>,
    ) -> (r: Result<Payout, ContractError>)
    // beyond the trait's promise: a transfer touches nothing in the
    // ledger but the one token's recorded owner
        ensures
            final(self).admin == old(self).admin,
            final(self).metadata == old(self).metadata,
            final(self).royalties == old(self).royalties,
            final(self).mint_price == old(self).mint_price,
            final(self).index == old(self).index,
            final(self).bytes_per_token == old(self).bytes_per_token,
            final(self).tokens@.len() == old(self).tokens@.len(),
            forall|p: int|
                0 <= p < old(self).tokens@.len() ==> (#[trigger] final(self).tokens@[p]).token_id
                    == old(self).tokens@[p].token_id && final(self).tokens@[p].metadata == old(
                    self,
                ).tokens@[p].metadata,
    {
        if attached_deposit != 1 {
            return Err(ContractError::MissingAttestation);
        }
        let payout = match self.nft_payout(token_id.clone(), balance, max_len_payout) {
            Ok(p) => p,
            Err(e) => { return Err(e) },
        };
        let j = match self.find_token(&token_id) {
            Some(j) => j,
            None => {
                proof {
                    assert(false);
                }
                return Err(ContractError::UnknownToken);
            },
        };
        if !(caller == self.tokens[j].owner_id) {
            return Err(ContractError::Unauthorized);
        }
        let ghost pre = *self;
        let mut tok = self.tokens.remove(j);
        tok.owner_id = receiver_id;
        let ghost new_tok = tok;
        self.tokens.insert(j, tok);
        proof {
            assert(self.tokens@ =~= pre.tokens@.update(j as int, new_tok));
            crate::lemma_owner_of_update(pre.tokens@, j as int, new_tok, token_id@);
            assert forall|other: Seq<char>| other != token_id@ implies crate::spec_owner_of(
                self.tokens@,
                other,
            ) == crate::spec_owner_of(pre.tokens@, other) by {
                crate::lemma_owner_of_update(pre.tokens@, j as int, new_tok, other);
            }
            assert forall|p: int| 0 <= p < self.tokens@.len() implies (#[trigger] self.tokens@[p]).token_id@
                == crate::token_id::dec_digits((p + 1) as nat) by {
                if p != j as int {
                    assert(self.tokens@[p] == pre.tokens@[p]);
                }
            }
        }
        Ok(payout)
    }
}

} // verus!
