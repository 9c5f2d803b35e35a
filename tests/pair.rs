use nft141::ledger::LedgerError;
use nft141::metadata::{MetadataError, NFT141PairMetadata, NFT141PairMetadataProvider, NFT141_FT_METADATA_SPEC};
use nft141::vault::{NFT141Pair, VaultError, INITIAL_UNIT_VALUE};

const TOTAL_SUPPLY: u128 = 100_000_000_000_000_000_000_000_000;
const NFT_CONTRACT_ADDRESS: &str = "nft.yoshitoke.testnet";
const NFT_MEDIA_URI: &str = "https://cdn-icons-png.flaticon.com/512/1137/1137074.png";
const NFT_SYMBOL: &str = "yti";
const ALICE: &str = "alice";
const BOB: &str = "bob";

fn new_vault() -> NFT141Pair {
    NFT141Pair::init_vault(
        NFT_CONTRACT_ADDRESS.into(),
        "yeti".into(),
        NFT_SYMBOL.into(),
        NFT_MEDIA_URI.into(),
        BOB.into(),
        ALICE.into(),
    )
}

fn s(x: &str) -> String {
    x.to_string()
}

#[test]
fn test_new() {
    let contract = new_vault();
    assert_eq!(contract.ft_total_supply(), TOTAL_SUPPLY);
    assert_eq!(contract.ft_balance_of(&s(ALICE)), TOTAL_SUPPLY);
}

#[test]
fn pair_contract_grant_escrow_access() {
    let contract = new_vault();
    let t = contract.swap171(s("in-1"), s("out-7"), &s("carol.testnet")).unwrap();
    assert_eq!(t.len(), 2);
    assert_eq!(t[0].receiver_id, ALICE);
    assert_eq!(t[0].token_id, "in-1");
    assert_eq!(t[1].receiver_id, "carol.testnet");
    assert_eq!(t[1].token_id, "out-7");
    assert_eq!(contract.ft_total_supply(), TOTAL_SUPPLY);
    assert!(matches!(contract.swap171(s("a"), s("b"), &s("Carol")), Err(VaultError::InvalidAccount)));
}

#[test]
fn fresh_vault_reports_zero_assets() {
    let contract = new_vault();
    let info = contract.get_infos().unwrap();
    assert_eq!(info.name, "yeti");
    assert_eq!(info.symbol, NFT_SYMBOL);
    assert_eq!(info.supply, 0);
    assert_eq!(info.media, NFT_MEDIA_URI);
    assert_eq!(contract.get_nft_contract_address(), NFT_CONTRACT_ADDRESS);
    assert_eq!(INITIAL_UNIT_VALUE, TOTAL_SUPPLY);
}

#[test]
fn batch_deposit_of_three_mints_three_units() {
    let mut contract = new_vault();
    let t = contract.multi_nft_deposits(vec![s("1"), s("2"), s("3")], &s("carol.testnet")).unwrap();
    assert_eq!(t.len(), 3);
    assert!(t.iter().all(|x| x.receiver_id == ALICE));
    assert_eq!(t[2].token_id, "3");
    assert_eq!(contract.ft_balance_of(&s("carol.testnet")), 3 * TOTAL_SUPPLY);
    assert_eq!(contract.ft_total_supply(), 4 * TOTAL_SUPPLY);
    assert_eq!(contract.get_infos().unwrap().supply, 3);
}

#[test]
fn deposit_then_withdraw_round_trip() {
    let mut contract = new_vault();
    let before_balance = contract.ft_balance_of(&s("carol.testnet"));
    let before_supply = contract.ft_total_supply();
    contract.multi_nft_deposits(vec![s("9")], &s("carol.testnet")).unwrap();
    let t = contract.withdraw(s("9"), &s("carol.testnet")).unwrap();
    assert_eq!(t[0].receiver_id, "carol.testnet");
    assert_eq!(t[0].token_id, "9");
    assert_eq!(contract.ft_balance_of(&s("carol.testnet")), before_balance);
    assert_eq!(contract.ft_total_supply(), before_supply);
}

#[test]
fn withdraw_needs_one_unit() {
    let mut contract = new_vault();
    let r = contract.withdraw(s("1"), &s("dave.testnet"));
    assert!(matches!(r, Err(VaultError::InsufficientBalance)));
    assert_eq!(contract.ft_total_supply(), TOTAL_SUPPLY);
    contract.multi_nft_deposits(vec![s("1"), s("2")], &s("dave.testnet")).unwrap();
    contract.withdraw(s("1"), &s("dave.testnet")).unwrap();
    assert_eq!(contract.ft_balance_of(&s("dave.testnet")), TOTAL_SUPPLY);
    assert_eq!(contract.ft_total_supply(), 2 * TOTAL_SUPPLY);
    assert!(matches!(contract.withdraw(s("1"), &s("Dave")), Err(VaultError::InvalidAccount)));
}

#[test]
fn batch_withdraw_burns_per_asset() {
    let mut contract = new_vault();
    contract.multi_nft_deposits(vec![s("1"), s("2"), s("3")], &s("erin.testnet")).unwrap();
    let r = contract.batch_withdraw(vec![s("1"), s("2"), s("3"), s("4")], &s("erin.testnet"));
    assert!(matches!(r, Err(VaultError::InsufficientBalance)));
    let t = contract.batch_withdraw(vec![s("1"), s("3")], &s("erin.testnet")).unwrap();
    assert_eq!(t.len(), 2);
    assert_eq!(t[1].token_id, "3");
    assert_eq!(t[1].receiver_id, "erin.testnet");
    assert_eq!(contract.ft_balance_of(&s("erin.testnet")), TOTAL_SUPPLY);
    assert_eq!(contract.ft_total_supply(), 2 * TOTAL_SUPPLY);
}

#[test]
fn set_params_only_from_registry() {
    let mut contract = new_vault();
    let r = contract.setParams(&s("mallory"), s("x"), s("X"), 5, s("m"));
    assert_eq!(r, Err(VaultError::Unauthorized));
    assert_eq!(contract.get_infos().unwrap().name, "yeti");
    contract.setParams(&s(BOB), s("bigfoot"), s("BIG"), TOTAL_SUPPLY / 2, s("pic")).unwrap();
    let info = contract.get_infos().unwrap();
    assert_eq!(info.name, "bigfoot");
    assert_eq!(info.symbol, "BIG");
    assert_eq!(info.media, "pic");
    assert_eq!(info.supply, 1);
    // The share-token metadata stays as it was created.
    assert_eq!(contract.ft_metadata().name, "yeti");
}

#[test]
fn info_is_refused_instead_of_underflowing() {
    let mut contract = new_vault();
    contract.setParams(&s(BOB), s("y"), s("Y"), 0, s("m")).unwrap();
    assert!(matches!(contract.get_infos(), Err(VaultError::ZeroUnitValue)));
    contract.setParams(&s(BOB), s("y"), s("Y"), TOTAL_SUPPLY + 1, s("m")).unwrap();
    assert!(matches!(contract.get_infos(), Err(VaultError::SupplyUnderflow)));
}

#[test]
fn deposit_overflow_is_refused() {
    let mut contract = new_vault();
    contract.setParams(&s(BOB), s("y"), s("Y"), u128::MAX / 2, s("m")).unwrap();
    let r = contract.multi_nft_deposits(vec![s("1"), s("2")], &s("frank.testnet"));
    assert!(matches!(r, Err(VaultError::Overflow)));
    assert_eq!(contract.ft_total_supply(), TOTAL_SUPPLY);
    assert_eq!(contract.ft_balance_of(&s("frank.testnet")), 0);
}

#[test]
fn metadata_is_valid_and_checked() {
    let contract = new_vault();
    let m = contract.ft_metadata();
    assert_eq!(m.spec, NFT141_FT_METADATA_SPEC);
    assert_eq!(m.symbol, NFT_SYMBOL);
    assert_eq!(m.icon.as_deref(), Some(NFT_MEDIA_URI));
    assert_eq!(m.decimals, 24);
    assert_eq!(m.assert_valid(), Ok(()));
    let mut bad = NFT141PairMetadata { spec: s("other"), ..m.duplicate() };
    assert_eq!(bad.assert_valid(), Err(MetadataError::WrongSpec));
    bad.spec = s(NFT141_FT_METADATA_SPEC);
    bad.reference = Some(s("ref"));
    assert_eq!(bad.assert_valid(), Err(MetadataError::ReferenceMismatch));
    bad.reference_hash = Some(vec![0u8; 31]);
    assert_eq!(bad.assert_valid(), Err(MetadataError::BadHashLength));
    bad.reference_hash = Some(vec![0u8; 32]);
    assert_eq!(bad.assert_valid(), Ok(()));
}

#[test]
fn ledger_errors_are_reported() {
    let mut ledger = nft141::ledger::ShareLedger::new();
    assert_eq!(ledger.deposit(&s("a"), 5), Err(LedgerError::NotRegistered));
    assert_eq!(ledger.register(&s("a")), Ok(()));
    assert_eq!(ledger.register(&s("a")), Err(LedgerError::AlreadyRegistered));
    assert_eq!(ledger.deposit(&s("a"), u128::MAX), Ok(()));
    assert_eq!(ledger.deposit(&s("a"), 1), Err(LedgerError::BalanceOverflow));
    assert_eq!(ledger.register(&s("b")), Ok(()));
    assert_eq!(ledger.deposit(&s("b"), 1), Err(LedgerError::TotalSupplyOverflow));
    assert_eq!(ledger.burn(&s("a"), 10), Ok(()));
    assert_eq!(ledger.balance_of(&s("a")), u128::MAX - 10);
    assert_eq!(ledger.total_supply(), u128::MAX - 10);
    assert_eq!(ledger.burn(&s("b"), 1), Err(LedgerError::InsufficientBalance));
}

#[test]
fn shares_transfer_between_registered_accounts() {
    let mut contract = new_vault();
    contract.multi_nft_deposits(vec![s("1"), s("2")], &s("gina.testnet")).unwrap();
    contract.multi_nft_deposits(vec![], &s("hank.testnet")).unwrap();
    assert_eq!(contract.ft_balance_of(&s("hank.testnet")), 0);
    contract.ft_transfer(&s("gina.testnet"), &s("hank.testnet"), 5).unwrap();
    assert_eq!(contract.ft_balance_of(&s("gina.testnet")), 2 * TOTAL_SUPPLY - 5);
    assert_eq!(contract.ft_balance_of(&s("hank.testnet")), 5);
    assert_eq!(contract.ft_total_supply(), 3 * TOTAL_SUPPLY);
}

#[test]
fn share_transfer_refusals() {
    let mut contract = new_vault();
    contract.multi_nft_deposits(vec![s("1")], &s("gina.testnet")).unwrap();
    let g = s("gina.testnet");
    assert_eq!(contract.ft_transfer(&g, &s("Hank"), 1), Err(VaultError::InvalidAccount));
    assert_eq!(contract.ft_transfer(&g, &g, 1), Err(VaultError::Ledger(LedgerError::SameAccount)));
    assert_eq!(contract.ft_transfer(&g, &s(ALICE), 0), Err(VaultError::Ledger(LedgerError::ZeroAmount)));
    assert_eq!(
        contract.ft_transfer(&s("nobody.testnet"), &g, 1),
        Err(VaultError::Ledger(LedgerError::NotRegistered))
    );
    assert_eq!(
        contract.ft_transfer(&g, &s(ALICE), TOTAL_SUPPLY + 1),
        Err(VaultError::Ledger(LedgerError::InsufficientBalance))
    );
    assert_eq!(
        contract.ft_transfer(&g, &s("nobody.testnet"), 1),
        Err(VaultError::Ledger(LedgerError::NotRegistered))
    );
    assert_eq!(contract.ft_balance_of(&g), TOTAL_SUPPLY);
    assert_eq!(contract.ft_total_supply(), 2 * TOTAL_SUPPLY);
}

#[test]
fn fresh_vault_metadata_has_no_reference() {
    let m = new_vault().ft_metadata();
    assert_eq!(m.name, "yeti");
    assert!(m.reference.is_none());
    assert!(m.reference_hash.is_none());
}
