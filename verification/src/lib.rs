//! A minimal non-fungible-token ledger with mint pricing, a configurable
//! multi-party royalty table, and transfer-time payout computation.
//!
//! The ledger is written for a deterministic, metered host: every public
//! operation receives the host-supplied facts it depends on (caller identity,
//! attached deposit, prepaid compute budget, storage prices and deltas, the
//! block clock) as plain values, decides, and returns the resulting state
//! change together with the outward actions (a refund transfer, a mint
//! notification) for the host adapter to perform. Errors are returned as
//! values; the host turns them into aborts, which discard the call's
//! mutations wholesale.

use vstd::prelude::*;

pub mod royalty;
pub mod token_id;
pub mod util;

verus! {

/// Prepaid compute budget a mint call must carry so that the follow-up
/// refund transfer can always be issued.
pub const GAS_FOR_NFT_TRANSFER_CALL: u64 = 25_000_000_000_000;

/// Default price of one token, in the smallest currency unit.
pub const DEFAULT_MINT_PRICE: u128 = 1_000_000_000_000_000_000_000_000;

/// Fixed-point scale for configured prices: one configuration unit is
/// 0.00001 of the base currency.
pub const MINT_PRICE_SCALE: u128 = 10_000_000_000_000_000_000;

/// Upper bound on the number of royalty beneficiaries.
pub const MAX_ROYALTY_ENTRIES: usize = 6;

/// Upper bound, in basis points, on the total royalty share (20%).
pub const MAX_ROYALTY_BPS: u64 = 2000;

/// Every failure a ledger operation can report. Each one aborts the whole
/// invocation; the host discards the call's mutations on abort.
#[derive(Debug, PartialEq, Eq, Structural)]
pub enum ContractError {
    /// Caller is not the administrative identity.
    Unauthorized,
    /// A second construction attempt on an already-initialized ledger.
    AlreadyInitialized,
    /// Prepaid compute budget below `GAS_FOR_NFT_TRANSFER_CALL`.
    InsufficientGas,
    /// Attached payment below the mint price plus the estimated storage
    /// cost; carries the total that would have been required.
    InsufficientDeposit { required: u128 },
    /// A proposed royalty table has more than `MAX_ROYALTY_ENTRIES` entries.
    TooManyRoyalties,
    /// A proposed royalty table's shares sum to more than `MAX_ROYALTY_BPS`.
    RoyaltyTooHigh,
    /// No token with the given identifier exists.
    UnknownToken,
    /// A computed payout would have more entries than the caller's cap.
    PayoutTooLarge,
    /// A transfer was invoked without the single-unit payment marker.
    MissingAttestation,
}

/// Names of the persisted storage namespaces the host keeps for this
/// ledger: the metadata singleton, the substrate's token, enumeration and
/// approval tables, per-token metadata, and the royalty table.
pub enum StorageKey {
    NFTContractMetadata,
    NonFungibleToken,
    Enumeration,
    Approval,
    TokenMetadata,
    Royalties,
}

/// The display metadata singleton, mutable only by the administrative
/// identity.
pub struct ContractMetadata {
    pub name: String,
    pub symbol: String,
    pub icon: Option<String>,
    pub base_uri: Option<String>,
}

/// The metadata record a token is minted with. Every other field of the
/// token standard is absent at mint time.
pub struct TokenMetadata {
    pub title: String,
    pub media: String,
    /// Nanosecond timestamp of the block the token was issued in.
    pub issued_at: u64,
    pub reference: String,
}

/// One ledger entry: a token, its owner, and its mint-time metadata.
pub struct Token {
    pub token_id: String,
    pub owner_id: String,
    pub metadata: TokenMetadata,
}

impl Token {
    /// A second, equal copy of this token (the ledger keeps one, the
    /// caller gets one).
    pub fn duplicate(&self) -> (t: Token)
        ensures
            t == *self,
    {
        Token {
            token_id: self.token_id.clone(),
            owner_id: self.owner_id.clone(),
            metadata: TokenMetadata {
                title: self.metadata.title.clone(),
                media: self.metadata.media.clone(),
                issued_at: self.metadata.issued_at,
                reference: self.metadata.reference.clone(),
            },
        }
    }
}

/// The host-supplied facts a mint decision depends on: the call's compute
/// budget and attached payment, who signed it, the block clock, the price
/// of one storage byte, and the storage actually consumed by persisting
/// one token record.
pub struct MintEnv {
    pub prepaid_gas: u64,
    pub attached_deposit: u128,
    pub signer_id: String,
    pub block_timestamp: u64,
    pub storage_byte_cost: u128,
    pub storage_delta: u64,
}

/// The owner the ledger records for the token named `id`: the first entry
/// whose identifier matches, if any.
pub open spec fn spec_owner_of(tokens: Seq<Token>, id: Seq<char>) -> Option<String>
    decreases tokens.len(),
{
    if tokens.len() == 0 {
        None
    } else if tokens.first().token_id@ == id {
        Some(tokens.first().owner_id)
    } else {
        spec_owner_of(tokens.drop_first(), id)
    }
}

/// How the recorded owner of each token changes when the entry at `j` is
/// replaced by `t2` carrying the same identifier: lookups of that
/// identifier now yield `t2`'s owner, all other lookups are untouched.
pub proof fn lemma_owner_of_update(tokens: Seq<Token>, j: int, t2: Token, id: Seq<char>)
    requires
        0 <= j < tokens.len(),
        t2.token_id@ == tokens[j].token_id@,
        forall|k: int| 0 <= k < j ==> tokens[k].token_id@ != tokens[j].token_id@,
    ensures
        spec_owner_of(tokens.update(j, t2), id) == (if id == tokens[j].token_id@ {
            Some(t2.owner_id)
        } else {
            spec_owner_of(tokens, id)
        }),
    decreases tokens.len(),
{
    let up = tokens.update(j, t2);
    if j == 0 {
        assert(up.first() == t2);
        if id != tokens[0].token_id@ {
            assert(up.drop_first() =~= tokens.drop_first());
        }
    } else {
        assert(up.first() == tokens.first());
        assert(up.drop_first() =~= tokens.drop_first().update(j - 1, t2));
        assert(tokens.drop_first()[j - 1] == tokens[j]);
        assert forall|k: int| 0 <= k < j - 1 implies (#[trigger] tokens.drop_first()[k]).token_id@
            != tokens.drop_first()[j - 1].token_id@ by {
            assert(tokens.drop_first()[k] == tokens[k + 1]);
        }
        lemma_owner_of_update(tokens.drop_first(), j - 1, t2, id);
        assert(tokens[0].token_id@ != tokens[j].token_id@);
    }
}

/// The ledger singleton: display metadata, the royalty table, the mint
/// price, the token counter, and the recorded tokens themselves.
pub struct Contract {
    /// The administrative identity: the contract's own account.
    pub admin: String,
    pub metadata: ContractMetadata,
    /// Royalty table: beneficiary identity and basis-point share.
    pub royalties: Vec<(String, u32)>,
    /// Every token ever minted; the token at position `p` carries the
    /// identifier `p + 1` in decimal.
    pub tokens: Vec<Token>,
    /// The substrate's reported average storage footprint of one token,
    /// in bytes; used for the pre-flight deposit check.
    pub bytes_per_token: u64,
    /// Next token identifier; starts at one, never reused, never
    /// decremented.
    pub index: u64,
    /// Price of one token in the smallest currency unit.
    pub mint_price: u128,
}

impl Contract {
    /// The state invariant: the royalty table is within its count and
    /// basis-point bounds and never names the administrative identity,
    /// and the counter is one ahead of the tokens recorded so far, each
    /// of which carries the decimal form of its allocation index.
    pub open spec fn wf(&self) -> bool {
        &&& self.royalties@.len() <= MAX_ROYALTY_ENTRIES
        &&& royalty::bps_total(self.royalties@) <= MAX_ROYALTY_BPS
        &&& (forall|i: int|
            0 <= i < self.royalties@.len() ==> #[trigger] self.royalties@[i].0@ != self.admin@)
        &&& 1 <= self.index
        &&& self.index as int == self.tokens@.len() + 1
        &&& (forall|p: int|
            0 <= p < self.tokens@.len() ==> #[trigger] self.tokens@[p].token_id@
                == token_id::dec_digits((p + 1) as nat))
    }

    /// A fresh ledger: empty royalty table, counter at one, the default
    /// mint price, and the given administrative identity and metadata.
    pub fn new(admin: String, metadata: ContractMetadata, bytes_per_token: u64) -> (c: Contract)
        ensures
            c.wf(),
            c.admin == admin,
            c.metadata == metadata,
            c.bytes_per_token == bytes_per_token,
            c.index == 1,
            c.mint_price == DEFAULT_MINT_PRICE,
            c.royalties@ == Seq::<(String, u32)>::empty(),
            c.tokens@ == Seq::<Token>::empty(),
    {
        Contract {
            admin,
            metadata,
            royalties: Vec::new(),
            tokens: Vec::new(),
            bytes_per_token,
            index: 1,
            mint_price: DEFAULT_MINT_PRICE,
        }
    }

    /// The current mint price, in the smallest currency unit.
    pub fn get_mint_price(&self) -> (p: u128)
        ensures
            p == self.mint_price,
    {
        self.mint_price
    }

    /// The estimated storage cost of one token record, used only for the
    /// pre-flight deposit check.
    fn token_storage_cost(&self, storage_byte_cost: u128) -> (c: u128)
        requires
            storage_byte_cost as int * self.bytes_per_token as int <= u128::MAX as int,
        ensures
            c as int == storage_byte_cost as int * self.bytes_per_token as int,
    {
        storage_byte_cost * (self.bytes_per_token as u128)
    }

    /// The estimated storage cost of one token record at the given
    /// per-byte price.
    pub fn get_token_storage_cost(&self, storage_byte_cost: u128) -> (c: u128)
        requires
            storage_byte_cost as int * self.bytes_per_token as int <= u128::MAX as int,
        ensures
            c as int == storage_byte_cost as int * self.bytes_per_token as int,
    {
        self.token_storage_cost(storage_byte_cost)
    }

    /// A copy of the stored display metadata.
    pub fn nft_metadata(&self) -> (m: ContractMetadata)
        ensures
            m == self.metadata,
    {
        let icon = match &self.metadata.icon {
            Some(s) => Some(s.clone()),
            None => None,
        };
        let base_uri = match &self.metadata.base_uri {
            Some(s) => Some(s.clone()),
            None => None,
        };
        ContractMetadata {
            name: self.metadata.name.clone(),
            symbol: self.metadata.symbol.clone(),
            icon,
            base_uri,
        }
    }
}

/// Whether a proposed royalty table is within the count and basis-point
/// bounds. The sum is taken over the whole proposal, entries naming the
/// administrative identity included, as the stored table drops them only
/// after validation.
pub open spec fn royalty_proposal_ok(royalties: Option<Vec<(String, u32)>>) -> bool {
    match royalties {
        None => true,
        Some(t) => t@.len() <= MAX_ROYALTY_ENTRIES && royalty::bps_total(t@) <= MAX_ROYALTY_BPS,
    }
}

impl Contract {
    /// Replace any of the stored configuration values. Only the
    /// administrative identity may call; a royalty proposal is validated
    /// in full before anything is mutated, so a rejected call leaves the
    /// ledger exactly as it was. An accepted proposal replaces the table
    /// wholesale, silently dropping entries that name the administrative
    /// identity; a configured price is scaled by `MINT_PRICE_SCALE` and
    /// stored verbatim.
    pub fn update_metadata(
        &mut self,
        caller: &String,
        icon: Option<String>,
        name: Option<String>,
        symbol: Option<String>,
        base_uri: Option<String>,
        mint_price: Option<u128>,
        royalties: Option<Vec<(String, u32)>>,
    ) -> (r: Result<(), ContractError>)
        requires
            old(self).wf(),
            (mint_price matches Some(u) ==> u as int * MINT_PRICE_SCALE as int
                <= u128::MAX as int),
        ensures
            final(self).wf(),
            caller@ != old(self).admin@ ==> (r == Err::<(), ContractError>(
                ContractError::Unauthorized,
            ) && *final(self) == *old(self)),
            (caller@ == old(self).admin@ && (royalties matches Some(t) && t@.len()
                > MAX_ROYALTY_ENTRIES)) ==> (r == Err::<(), ContractError>(
                ContractError::TooManyRoyalties,
            ) && *final(self) == *old(self)),
            (caller@ == old(self).admin@ && (royalties matches Some(t) && t@.len()
                <= MAX_ROYALTY_ENTRIES && royalty::bps_total(t@) > MAX_ROYALTY_BPS)) ==> (r
                == Err::<(), ContractError>(ContractError::RoyaltyTooHigh)
                && *final(self) == *old(self)),
            (caller@ == old(self).admin@ && royalty_proposal_ok(royalties)) ==> (r is Ok
                && final(self).admin == old(self).admin
                && final(self).tokens == old(self).tokens
                && final(self).index == old(self).index
                && final(self).bytes_per_token == old(self).bytes_per_token
                && final(self).metadata.name == (match name {
                Some(n) => n,
                None => old(self).metadata.name,
            }) && final(self).metadata.symbol == (match symbol {
                Some(s) => s,
                None => old(self).metadata.symbol,
            }) && final(self).metadata.icon == (if icon is Some {
                icon
            } else {
                old(self).metadata.icon
            }) && final(self).metadata.base_uri == (if base_uri is Some {
                base_uri
            } else {
                old(self).metadata.base_uri
            }) && final(self).mint_price as int == (match mint_price {
                Some(u) => u as int * MINT_PRICE_SCALE as int,
                None => old(self).mint_price as int,
            }) && final(self).royalties@ == (match royalties {
                Some(t) => royalty::keep_entries(t@, old(self).admin@),
                None => old(self).royalties@,
            })),
    {
        if !(*caller == self.admin) {
            return Err(ContractError::Unauthorized);
        }
        match &royalties {
            Some(t) => {
                if t.len() > MAX_ROYALTY_ENTRIES {
                    return Err(ContractError::TooManyRoyalties);
                }
                let mut total: u64 = 0;
                let mut i: usize = 0;
                while i < t.len()
                    invariant
                        i <= t@.len(),
                        t@.len() <= MAX_ROYALTY_ENTRIES,
                        total as int == royalty::bps_total(t@.subrange(0, i as int)),
                        total as int <= i as int * (u32::MAX as int),
                    decreases t@.len() - i,
                {
                    proof {
                        let sub1 = t@.subrange(0, i + 1 as int);
                        assert(sub1.drop_last() =~= t@.subrange(0, i as int));
                        assert(sub1.last() == t@[i as int]);
                    }
                    total = total + (t[i].1 as u64);
                    i += 1;
                }
                proof {
                    assert(t@.subrange(0, t@.len() as int) =~= t@);
                }
                if total > MAX_ROYALTY_BPS {
                    return Err(ContractError::RoyaltyTooHigh);
                }
            },
            None => {},
        }
        proof {
            assert(royalty_proposal_ok(royalties));
        }
        match icon {
            Some(v) => { self.metadata.icon = Some(v) },
            None => {},
        }
        match name {
            Some(v) => { self.metadata.name = v },
            None => {},
        }
        match symbol {
            Some(v) => { self.metadata.symbol = v },
            None => {},
        }
        match base_uri {
            Some(v) => { self.metadata.base_uri = Some(v) },
            None => {},
        }
        match mint_price {
            Some(u) => { self.mint_price = u * MINT_PRICE_SCALE },
            None => {},
        }
        match royalties {
            Some(t) => {
                let ghost admin_view = self.admin@;
                let mut kept: Vec<(String, u32)> = Vec::new();
                let mut i: usize = 0;
                while i < t.len()
                    invariant
                        i <= t@.len(),
                        self.admin@ == admin_view,
                        kept@ == royalty::keep_entries(t@.subrange(0, i as int), admin_view),
                    decreases t@.len() - i,
                {
                    proof {
                        let sub1 = t@.subrange(0, i + 1 as int);
                        assert(sub1.drop_last() =~= t@.subrange(0, i as int));
                        assert(sub1.last() == t@[i as int]);
                    }
                    if !(t[i].0 == self.admin) {
                        kept.push((t[i].0.clone(), t[i].1));
                    }
                    i += 1;
                }
                proof {
                    assert(t@.subrange(0, t@.len() as int) =~= t@);
                    royalty::lemma_keep_entries_len(t@, admin_view);
                    royalty::lemma_keep_entries_total(t@, admin_view);
                    royalty::lemma_keep_entries_no_admin(t@, admin_view);
                }
                self.royalties = kept;
            },
            None => {},
        }
        Ok(())
    }
}

impl Contract {
    /// Pre-flight total a mint deposit is checked against: the price plus
    /// the estimated storage cost of one token.
    pub open spec fn spec_mint_estimate(&self, storage_byte_cost: int) -> int {
        self.mint_price + storage_byte_cost * self.bytes_per_token
    }

    /// Settled total a mint actually consumes: the price plus the exact
    /// cost of the storage the host reports as used.
    pub open spec fn spec_mint_settled(&self, storage_byte_cost: int, storage_delta: int) -> int {
        self.mint_price + storage_byte_cost * storage_delta
    }

    /// The metadata record for a fresh token: the given fields, issued at
    /// the given block time.
    fn create_metadata(&self, title: String, media: String, reference: String, issued_at: u64) -> (m:
        TokenMetadata)
        ensures
            (m == TokenMetadata { title, media, issued_at, reference }),
    {
        TokenMetadata { title, media, issued_at, reference }
    }

    /// Record a fresh token: build its metadata, keep one copy in the
    /// ledger, and hand one copy back.
    fn internal_mint(
        &mut self,
        token_id: String,
        token_owner_id: String,
        title: String,
        media: String,
        reference: String,
        issued_at: u64,
    ) -> (t: Token)
        ensures
            (t == Token {
                token_id,
                owner_id: token_owner_id,
                metadata: TokenMetadata { title, media, issued_at, reference },
            }),
            final(self).tokens@ == old(self).tokens@.push(t),
            final(self).admin == old(self).admin,
            final(self).metadata == old(self).metadata,
            final(self).royalties == old(self).royalties,
            final(self).bytes_per_token == old(self).bytes_per_token,
            final(self).index == old(self).index,
            final(self).mint_price == old(self).mint_price,
    {
        let token_metadata = self.create_metadata(title, media, reference, issued_at);
        let token = Token { token_id, owner_id: token_owner_id, metadata: token_metadata };
        let copy = token.duplicate();
        self.tokens.push(copy);
        token
    }

    /// Mint one token for `receiver_id`. The call must carry enough
    /// prepaid compute budget and a deposit covering the price plus the
    /// estimated storage cost; the next counter value becomes the token's
    /// decimal identifier, and whatever the deposit exceeds the settled
    /// total by is returned as a refund transfer to the signer.
    pub fn nft_mint(
        &mut self,
        receiver_id: String,
        title: String,
        media: String,
        reference: String,
        env: MintEnv,
    ) -> (r: Result<(Token, Option<util::TransferAction>), ContractError>)
        requires
            old(self).wf(),
            old(self).index < u64::MAX,
            old(self).spec_mint_estimate(env.storage_byte_cost as int) <= u128::MAX as int,
            old(self).spec_mint_settled(env.storage_byte_cost as int, env.storage_delta as int)
                <= u128::MAX as int,
        ensures
            final(self).wf(),
            env.prepaid_gas < GAS_FOR_NFT_TRANSFER_CALL ==> (r == Err::<
                (Token, Option<util::TransferAction>),
                ContractError,
            >(ContractError::InsufficientGas) && *final(self) == *old(self)),
            (env.prepaid_gas >= GAS_FOR_NFT_TRANSFER_CALL && (env.attached_deposit as int) < old(
                self,
            ).spec_mint_estimate(env.storage_byte_cost as int)) ==> (r matches Err(e) && (e
                == ContractError::InsufficientDeposit {
                required: old(self).spec_mint_estimate(env.storage_byte_cost as int) as u128,
            }) && *final(self) == *old(self)),
            (env.prepaid_gas >= GAS_FOR_NFT_TRANSFER_CALL && (env.attached_deposit as int) >= old(
                self,
            ).spec_mint_estimate(env.storage_byte_cost as int)) ==> (r matches Ok((token, refund))
                && token.token_id@ == token_id::dec_digits(old(self).index as nat)
                && token.owner_id == receiver_id
                && (token.metadata == TokenMetadata {
                title,
                media,
                issued_at: env.block_timestamp,
                reference,
            })
                && final(self).index == old(self).index + 1
                && final(self).tokens@ == old(self).tokens@.push(token)
                && final(self).admin == old(self).admin
                && final(self).metadata == old(self).metadata
                && final(self).royalties == old(self).royalties
                && final(self).mint_price == old(self).mint_price
                && final(self).bytes_per_token == old(self).bytes_per_token
                && ({
                let settled = old(self).spec_mint_settled(
                    env.storage_byte_cost as int,
                    env.storage_delta as int,
                );
                if env.attached_deposit > settled {
                    refund matches Some(a) && a.account_id == env.signer_id && a.amount as int
                        == env.attached_deposit - settled
                } else {
                    refund is None
                }
            })),
    {
        if env.prepaid_gas < GAS_FOR_NFT_TRANSFER_CALL {
            return Err(ContractError::InsufficientGas);
        }
        let predict_price = self.mint_price + self.token_storage_cost(env.storage_byte_cost);
        if env.attached_deposit < predict_price {
            return Err(ContractError::InsufficientDeposit { required: predict_price });
        }
        let token_id = token_id::token_id_string(self.index);
        let ghost minted_at = self.index;
        self.index = self.index + 1;
        let token = self.internal_mint(
            token_id,
            receiver_id,
            title,
            media,
            reference,
            env.block_timestamp,
        );
        proof {
            assert forall|p: int| 0 <= p < self.tokens@.len() implies #[trigger] self.tokens@[p].token_id@
                == token_id::dec_digits((p + 1) as nat) by {
                if p < old(self).tokens@.len() {
                    assert(old(self).tokens@[p].token_id@ == token_id::dec_digits((p + 1) as nat));
                } else {
                    assert(self.tokens@[p] == token);
                    assert(p + 1 == minted_at as int);
                }
            }
        }
        let settled = self.mint_price + env.storage_byte_cost * (env.storage_delta as u128);
        let refund_amount = if env.attached_deposit > settled {
            env.attached_deposit - settled
        } else {
            0
        };
        let refund = util::transfer(&env.signer_id, refund_amount);
        Ok((token, refund))
    }
}

impl Contract {
    /// Position of the first recorded token named `token_id`, if any.
    pub(crate) fn find_token(&self, token_id: &String) -> (r: Option<usize>)
        ensures
            (match r {
                Some(j) => j < self.tokens@.len() && self.tokens@[j as int].token_id@ == token_id@
                    && (forall|k: int| 0 <= k < j ==> self.tokens@[k].token_id@ != token_id@)
                    && spec_owner_of(self.tokens@, token_id@) == Some(
                    self.tokens@[j as int].owner_id,
                ),
                None => spec_owner_of(self.tokens@, token_id@) is None,
            }),
    {
        let mut j: usize = 0;
        proof {
            assert(self.tokens@.skip(0) =~= self.tokens@);
        }
        while j < self.tokens.len()
            invariant
                j <= self.tokens@.len(),
                forall|k: int| 0 <= k < j ==> self.tokens@[k].token_id@ != token_id@,
                spec_owner_of(self.tokens@, token_id@) == spec_owner_of(
                    self.tokens@.skip(j as int),
                    token_id@,
                ),
            decreases self.tokens@.len() - j,
        {
            proof {
                assert(self.tokens@.skip(j as int).first() == self.tokens@[j as int]);
            }
            if self.tokens[j].token_id == *token_id {
                return Some(j);
            }
            proof {
                assert(self.tokens@.skip(j as int).drop_first() =~= self.tokens@.skip(
                    j as int + 1,
                ));
            }
            j += 1;
        }
        None
    }
}

/// Construct the ledger singleton exactly once: a second attempt fails
/// with `AlreadyInitialized` and changes nothing.
pub fn initialize(
    slot: &mut Option<Contract>,
    admin: String,
    metadata: ContractMetadata,
    bytes_per_token: u64,
) -> (r: Result<(), ContractError>)
    ensures
        (*old(slot)) is Some ==> (r == Err::<(), ContractError>(ContractError::AlreadyInitialized)
            && *final(slot) == *old(slot)),
        (*old(slot)) is None ==> (r is Ok && ((*final(slot)) matches Some(c) && c.wf() && c.admin
            == admin && c.metadata == metadata && c.bytes_per_token == bytes_per_token && c.index
            == 1 && c.mint_price == DEFAULT_MINT_PRICE && c.royalties@ == Seq::<(
            String,
            u32,
        )>::empty() && c.tokens@ == Seq::<Token>::empty())),
{
    if slot.is_some() {
        return Err(ContractError::AlreadyInitialized);
    }
    *slot = Some(Contract::new(admin, metadata, bytes_per_token));
    Ok(())
}

/// Token identifiers grow strictly: the tokens two consecutive mints
/// return carry the decimal forms of consecutive counter values, so the
/// second identifier reads as exactly one more than the first.
pub proof fn lemma_mint_ids_consecutive(c: Contract, t1: Token, t2: Token)
    requires
        c.index < u64::MAX,
        t1.token_id@ == token_id::dec_digits(c.index as nat),
        t2.token_id@ == token_id::dec_digits((c.index + 1) as nat),
    ensures
        token_id::dec_value(t2.token_id@) == token_id::dec_value(t1.token_id@) + 1,
        token_id::dec_value(t2.token_id@) > token_id::dec_value(t1.token_id@),
{
    token_id::lemma_consecutive_ids_increase(c.index as nat);
}

/// Reads are idempotent: without a mutation in between, any two results
/// of `nft_metadata` and any two results of `get_mint_price` are
/// identical.
pub proof fn lemma_reads_idempotent(
    c: &Contract,
    m1: ContractMetadata,
    m2: ContractMetadata,
    p1: u128,
    p2: u128,
)
    requires
        m1 == c.metadata,
        m2 == c.metadata,
        p1 == c.mint_price,
        p2 == c.mint_price,
    ensures
        m1 == m2,
        p1 == p2,
{
}

} // verus!
