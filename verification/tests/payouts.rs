use nft::royalty::Payouts;
use nft::util::royalty_to_payout;
use nft::{Contract, ContractError, ContractMetadata, MintEnv, GAS_FOR_NFT_TRANSFER_CALL};

fn meta() -> ContractMetadata {
    ContractMetadata {
        name: "Gallery".to_string(),
        symbol: "GAL".to_string(),
        icon: None,
        base_uri: None,
    }
}

/// A ledger with a zero mint price, the given royalty table, and one
/// token "1" owned by `owner`.
fn ledger_with(table: Vec<(String, u32)>, owner: &str) -> Contract {
    let mut c = Contract::new("gallery.near".to_string(), meta(), 0);
    c.update_metadata(&"gallery.near".to_string(), None, None, None, None, Some(0), Some(table))
        .unwrap();
    c.nft_mint(
        owner.to_string(),
        "t".to_string(),
        "m".to_string(),
        "r".to_string(),
        MintEnv {
            prepaid_gas: GAS_FOR_NFT_TRANSFER_CALL,
            attached_deposit: 0,
            signer_id: owner.to_string(),
            block_timestamp: 1,
            storage_byte_cost: 0,
            storage_delta: 0,
        },
    )
    .unwrap();
    c
}

#[test]
fn royalty_to_payout_rounds_down() {
    assert_eq!(royalty_to_payout(500, 1000), 50);
    assert_eq!(royalty_to_payout(300, 1000), 30);
    assert_eq!(royalty_to_payout(9200, 1000), 920);
    assert_eq!(royalty_to_payout(2000, 999), 199);
    assert_eq!(royalty_to_payout(0, 12345), 0);
    assert_eq!(royalty_to_payout(10000, 777), 777);
}

#[test]
fn payout_splits_eight_percent_table() {
    let c = ledger_with(
        vec![("a.near".to_string(), 500), ("b.near".to_string(), 300)],
        "o.near",
    );
    let p = c.nft_payout("1".to_string(), 1000, None).unwrap();
    assert_eq!(
        p.payout,
        vec![
            ("a.near".to_string(), 50u128),
            ("b.near".to_string(), 30u128),
            ("o.near".to_string(), 920u128),
        ]
    );
}

#[test]
fn payout_empty_table_pays_owner_everything() {
    let c = ledger_with(Vec::new(), "o.near");
    let p = c.nft_payout("1".to_string(), 777, None).unwrap();
    assert_eq!(p.payout, vec![("o.near".to_string(), 777u128)]);
}

#[test]
fn payout_owner_in_table_absorbs_own_share() {
    // the owner's table entry is skipped; the remainder entry covers it
    let c = ledger_with(
        vec![("o.near".to_string(), 500), ("b.near".to_string(), 300)],
        "o.near",
    );
    let p = c.nft_payout("1".to_string(), 1000, None).unwrap();
    assert_eq!(
        p.payout,
        vec![("b.near".to_string(), 30u128), ("o.near".to_string(), 970u128)]
    );
}

#[test]
fn payout_total_never_exceeds_balance() {
    let c = ledger_with(
        vec![("a.near".to_string(), 777), ("b.near".to_string(), 111)],
        "o.near",
    );
    let p = c.nft_payout("1".to_string(), 999, None).unwrap();
    let total: u128 = p.payout.iter().map(|e| e.1).sum();
    assert!(total <= 999);
}

#[test]
fn payout_with_largest_table() {
    // six beneficiaries is the most a table may hold; the payout then
    // carries seven entries, the owner's remainder last
    let table: Vec<(String, u32)> = (0..6).map(|i| (format!("w{}.near", i), 100)).collect();
    let c = ledger_with(table, "o.near");
    let p = c.nft_payout("1".to_string(), 10_000, None).unwrap();
    assert_eq!(p.payout.len(), 7);
    for i in 0..6 {
        assert_eq!(p.payout[i], (format!("w{}.near", i), 100u128));
    }
    assert_eq!(p.payout[6], ("o.near".to_string(), 9_400u128));
    let total: u128 = p.payout.iter().map(|e| e.1).sum();
    assert_eq!(total, 10_000);
}

#[test]
fn payout_unknown_token() {
    let c = ledger_with(Vec::new(), "o.near");
    let r = c.nft_payout("2".to_string(), 1000, None);
    assert_eq!(r.err(), Some(ContractError::UnknownToken));
}

#[test]
fn payout_respects_max_len_cap() {
    let c = ledger_with(
        vec![("a.near".to_string(), 500), ("b.near".to_string(), 300)],
        "o.near",
    );
    let r = c.nft_payout("1".to_string(), 1000, Some(1));
    assert_eq!(r.err(), Some(ContractError::PayoutTooLarge));
    let ok = c.nft_payout("1".to_string(), 1000, Some(3));
    assert!(ok.is_ok());
}

#[test]
fn transfer_payout_requires_attestation() {
    let mut c = ledger_with(Vec::new(), "o.near");
    for deposit in [0u128, 2u128] {
        let r = c.nft_transfer_payout(
            "o.near".to_string(),
            deposit,
            "buyer.near".to_string(),
            "1".to_string(),
            None,
            None,
            1000,
            None,
        );
        assert_eq!(r.err(), Some(ContractError::MissingAttestation));
    }
    // ownership is unchanged: the owner entry still names the old owner
    let p = c.nft_payout("1".to_string(), 100, None).unwrap();
    assert_eq!(p.payout, vec![("o.near".to_string(), 100u128)]);
}

#[test]
fn transfer_payout_rejects_non_owner() {
    let mut c = ledger_with(Vec::new(), "o.near");
    let r = c.nft_transfer_payout(
        "stranger.near".to_string(),
        1,
        "buyer.near".to_string(),
        "1".to_string(),
        None,
        None,
        1000,
        None,
    );
    assert_eq!(r.err(), Some(ContractError::Unauthorized));
    let p = c.nft_payout("1".to_string(), 100, None).unwrap();
    assert_eq!(p.payout, vec![("o.near".to_string(), 100u128)]);
}

#[test]
fn transfer_payout_pays_old_owner_and_moves_token() {
    let mut c = ledger_with(
        vec![("a.near".to_string(), 500), ("b.near".to_string(), 300)],
        "o.near",
    );
    let p = c
        .nft_transfer_payout(
            "o.near".to_string(),
            1,
            "buyer.near".to_string(),
            "1".to_string(),
            Some(0),
            Some("sold".to_string()),
            1000,
            Some(3),
        )
        .unwrap();
    assert_eq!(
        p.payout,
        vec![
            ("a.near".to_string(), 50u128),
            ("b.near".to_string(), 30u128),
            ("o.near".to_string(), 920u128),
        ]
    );
    // the new owner takes the remainder entry from now on
    let after = c.nft_payout("1".to_string(), 1000, None).unwrap();
    assert_eq!(
        after.payout,
        vec![
            ("a.near".to_string(), 50u128),
            ("b.near".to_string(), 30u128),
            ("buyer.near".to_string(), 920u128),
        ]
    );
}

#[test]
fn transfer_payout_unknown_token() {
    let mut c = ledger_with(Vec::new(), "o.near");
    let r = c.nft_transfer_payout(
        "o.near".to_string(),
        1,
        "buyer.near".to_string(),
        "9".to_string(),
        None,
        None,
        1000,
        None,
    );
    assert_eq!(r.err(), Some(ContractError::UnknownToken));
}

#[test]
fn transfer_payout_respects_max_len_cap() {
    let mut c = ledger_with(
        vec![("a.near".to_string(), 500), ("b.near".to_string(), 300)],
        "o.near",
    );
    let r = c.nft_transfer_payout(
        "o.near".to_string(),
        1,
        "buyer.near".to_string(),
        "1".to_string(),
        None,
        None,
        1000,
        Some(1),
    );
    assert_eq!(r.err(), Some(ContractError::PayoutTooLarge));
    let p = c.nft_payout("1".to_string(), 100, None).unwrap();
    assert_eq!(p.payout.last().unwrap().0, "o.near".to_string());
}
