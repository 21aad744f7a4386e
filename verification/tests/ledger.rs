use nft::{
    initialize, Contract, ContractError, ContractMetadata, MintEnv, DEFAULT_MINT_PRICE,
    GAS_FOR_NFT_TRANSFER_CALL, MINT_PRICE_SCALE,
};

fn meta() -> ContractMetadata {
    ContractMetadata {
        name: "Gallery".to_string(),
        symbol: "GAL".to_string(),
        icon: None,
        base_uri: None,
    }
}

fn fresh() -> Contract {
    Contract::new("gallery.near".to_string(), meta(), 100)
}

fn mint_env(prepaid_gas: u64, attached_deposit: u128, storage_delta: u64) -> MintEnv {
    MintEnv {
        prepaid_gas,
        attached_deposit,
        signer_id: "signer.near".to_string(),
        block_timestamp: 42,
        storage_byte_cost: 10,
        storage_delta,
    }
}

#[test]
fn new_starts_with_defaults() {
    let c = fresh();
    assert_eq!(c.index, 1);
    assert_eq!(c.get_mint_price(), DEFAULT_MINT_PRICE);
    assert!(c.royalties.is_empty());
    assert!(c.tokens.is_empty());
    assert_eq!(c.admin, "gallery.near".to_string());
}

#[test]
fn initialize_only_once() {
    let mut slot: Option<Contract> = None;
    let r = initialize(&mut slot, "gallery.near".to_string(), meta(), 100);
    assert!(r.is_ok());
    assert!(slot.is_some());
    let again = initialize(&mut slot, "gallery.near".to_string(), meta(), 100);
    assert_eq!(again, Err(ContractError::AlreadyInitialized));
    assert_eq!(slot.as_ref().unwrap().index, 1);
}

#[test]
fn reads_are_idempotent() {
    let c = fresh();
    let m1 = c.nft_metadata();
    let m2 = c.nft_metadata();
    assert_eq!(m1.name, m2.name);
    assert_eq!(m1.symbol, m2.symbol);
    assert_eq!(m1.icon, m2.icon);
    assert_eq!(m1.base_uri, m2.base_uri);
    assert_eq!(c.get_mint_price(), c.get_mint_price());
}

#[test]
fn storage_cost_is_bytes_times_price() {
    let c = fresh();
    assert_eq!(c.get_token_storage_cost(10), 1000);
    assert_eq!(c.get_token_storage_cost(0), 0);
}

#[test]
fn update_metadata_rejects_non_admin() {
    let mut c = fresh();
    let r = c.update_metadata(
        &"stranger.near".to_string(),
        None,
        Some("Other".to_string()),
        None,
        None,
        None,
        None,
    );
    assert_eq!(r, Err(ContractError::Unauthorized));
    assert_eq!(c.nft_metadata().name, "Gallery".to_string());
}

#[test]
fn update_metadata_replaces_fields() {
    let mut c = fresh();
    let r = c.update_metadata(
        &"gallery.near".to_string(),
        Some("data:image/svg".to_string()),
        Some("New Gallery".to_string()),
        Some("NG".to_string()),
        Some("https://example.org".to_string()),
        Some(5),
        None,
    );
    assert!(r.is_ok());
    let m = c.nft_metadata();
    assert_eq!(m.name, "New Gallery".to_string());
    assert_eq!(m.symbol, "NG".to_string());
    assert_eq!(m.icon, Some("data:image/svg".to_string()));
    assert_eq!(m.base_uri, Some("https://example.org".to_string()));
    assert_eq!(c.get_mint_price(), 5 * MINT_PRICE_SCALE);
}

#[test]
fn update_metadata_keeps_absent_fields() {
    let mut c = fresh();
    let r = c.update_metadata(
        &"gallery.near".to_string(),
        None,
        None,
        Some("NG".to_string()),
        None,
        None,
        None,
    );
    assert!(r.is_ok());
    let m = c.nft_metadata();
    assert_eq!(m.name, "Gallery".to_string());
    assert_eq!(m.symbol, "NG".to_string());
    assert_eq!(m.icon, None);
    assert_eq!(c.get_mint_price(), DEFAULT_MINT_PRICE);
}

#[test]
fn update_rejects_seven_royalty_entries() {
    let mut c = fresh();
    let table: Vec<(String, u32)> = (0..7).map(|i| (format!("w{}.near", i), 100)).collect();
    let r = c.update_metadata(&"gallery.near".to_string(), None, None, None, None, None, Some(table));
    assert_eq!(r, Err(ContractError::TooManyRoyalties));
    assert!(c.royalties.is_empty());
}

#[test]
fn update_rejects_royalties_over_twenty_percent() {
    let mut c = fresh();
    let table = vec![("a.near".to_string(), 1000u32), ("b.near".to_string(), 1001u32)];
    let r = c.update_metadata(&"gallery.near".to_string(), None, None, None, None, None, Some(table));
    assert_eq!(r, Err(ContractError::RoyaltyTooHigh));
    assert!(c.royalties.is_empty());
}

#[test]
fn update_accepts_exactly_twenty_percent() {
    let mut c = fresh();
    let table = vec![("a.near".to_string(), 1000u32), ("b.near".to_string(), 1000u32)];
    let r = c.update_metadata(&"gallery.near".to_string(), None, None, None, None, None, Some(table));
    assert!(r.is_ok());
    assert_eq!(c.royalties.len(), 2);
}

#[test]
fn update_drops_admin_royalty_entry() {
    let mut c = fresh();
    let table = vec![("gallery.near".to_string(), 500u32), ("b.near".to_string(), 300u32)];
    let r = c.update_metadata(&"gallery.near".to_string(), None, None, None, None, None, Some(table));
    assert!(r.is_ok());
    assert_eq!(c.royalties.len(), 1);
    assert_eq!(c.royalties[0], ("b.near".to_string(), 300u32));
    assert!(c.royalties.iter().all(|e| e.0 != "gallery.near"));
}

#[test]
fn update_counts_admin_entry_toward_the_sum() {
    let mut c = fresh();
    let table = vec![("gallery.near".to_string(), 1001u32), ("b.near".to_string(), 1000u32)];
    let r = c.update_metadata(&"gallery.near".to_string(), None, None, None, None, None, Some(table));
    assert_eq!(r, Err(ContractError::RoyaltyTooHigh));
}

#[test]
fn mint_rejects_low_gas() {
    let mut c = fresh();
    let r = c.nft_mint(
        "alice.near".to_string(),
        "Parcel #1".to_string(),
        "ipfs://m1".to_string(),
        "ipfs://r1".to_string(),
        mint_env(GAS_FOR_NFT_TRANSFER_CALL - 1, DEFAULT_MINT_PRICE + 1000, 100),
    );
    assert_eq!(r.err(), Some(ContractError::InsufficientGas));
    assert_eq!(c.index, 1);
}

#[test]
fn mint_rejects_low_deposit() {
    let mut c = fresh();
    // estimate: price + 10 per byte * 100 bytes
    let required = DEFAULT_MINT_PRICE + 1000;
    let r = c.nft_mint(
        "alice.near".to_string(),
        "Parcel #1".to_string(),
        "ipfs://m1".to_string(),
        "ipfs://r1".to_string(),
        mint_env(GAS_FOR_NFT_TRANSFER_CALL, required - 1, 100),
    );
    assert_eq!(r.err(), Some(ContractError::InsufficientDeposit { required }));
    assert_eq!(c.index, 1);
    assert!(c.tokens.is_empty());
}

#[test]
fn mint_accepts_exact_deposit_without_refund() {
    let mut c = fresh();
    let required = DEFAULT_MINT_PRICE + 1000;
    let r = c.nft_mint(
        "alice.near".to_string(),
        "Parcel #1".to_string(),
        "ipfs://m1".to_string(),
        "ipfs://r1".to_string(),
        mint_env(GAS_FOR_NFT_TRANSFER_CALL, required, 100),
    );
    let (token, refund) = r.unwrap();
    assert_eq!(token.token_id, "1".to_string());
    assert_eq!(token.owner_id, "alice.near".to_string());
    assert_eq!(token.metadata.title, "Parcel #1".to_string());
    assert_eq!(token.metadata.media, "ipfs://m1".to_string());
    assert_eq!(token.metadata.reference, "ipfs://r1".to_string());
    assert_eq!(token.metadata.issued_at, 42);
    assert!(refund.is_none());
    assert_eq!(c.index, 2);
    assert_eq!(c.tokens.len(), 1);
}

#[test]
fn mint_refunds_excess_over_settled_cost() {
    let mut c = fresh();
    // deposit covers the estimate (100 bytes); only 80 bytes are used,
    // so the settled total is 200 below the estimate, plus 500 extra.
    let deposit = DEFAULT_MINT_PRICE + 1000 + 500;
    let r = c.nft_mint(
        "alice.near".to_string(),
        "Parcel #1".to_string(),
        "ipfs://m1".to_string(),
        "ipfs://r1".to_string(),
        mint_env(GAS_FOR_NFT_TRANSFER_CALL, deposit, 80),
    );
    let (_, refund) = r.unwrap();
    let refund = refund.unwrap();
    assert_eq!(refund.account_id, "signer.near".to_string());
    assert_eq!(refund.amount, 700);
}

#[test]
fn mint_ids_are_consecutive_decimals_from_one() {
    let mut c = fresh();
    let deposit = DEFAULT_MINT_PRICE + 1000;
    let mut ids: Vec<String> = Vec::new();
    for _ in 0..3 {
        let (token, _) = c
            .nft_mint(
                "alice.near".to_string(),
                "t".to_string(),
                "m".to_string(),
                "r".to_string(),
                mint_env(GAS_FOR_NFT_TRANSFER_CALL, deposit, 100),
            )
            .unwrap();
        ids.push(token.token_id);
    }
    assert_eq!(ids, vec!["1".to_string(), "2".to_string(), "3".to_string()]);
    assert!(ids[0] < ids[1] && ids[1] < ids[2]);
}

#[test]
fn token_id_strings_are_decimal() {
    assert_eq!(nft::token_id::token_id_string(0), "0".to_string());
    assert_eq!(nft::token_id::token_id_string(7), "7".to_string());
    assert_eq!(nft::token_id::token_id_string(10), "10".to_string());
    assert_eq!(nft::token_id::token_id_string(90210), "90210".to_string());
    assert_eq!(
        nft::token_id::token_id_string(u64::MAX),
        "18446744073709551615".to_string()
    );
}

#[test]
fn transfer_action_only_for_positive_amounts() {
    assert!(nft::util::transfer(&"a.near".to_string(), 0).is_none());
    let action = nft::util::transfer(&"a.near".to_string(), 7).unwrap();
    assert_eq!(action.account_id, "a.near".to_string());
    assert_eq!(action.amount, 7);
}

#[test]
fn log_mint_collects_token_ids() {
    let mut c = fresh();
    let deposit = DEFAULT_MINT_PRICE + 1000;
    let (token, _) = c
        .nft_mint(
            "alice.near".to_string(),
            "t".to_string(),
            "m".to_string(),
            "r".to_string(),
            mint_env(GAS_FOR_NFT_TRANSFER_CALL, deposit, 100),
        )
        .unwrap();
    let event = nft::util::log_mint(&"alice.near".to_string(), &vec![token]);
    assert_eq!(event.owner_id, "alice.near".to_string());
    assert_eq!(event.token_ids, vec!["1".to_string()]);
    assert!(event.memo.is_none());
}
