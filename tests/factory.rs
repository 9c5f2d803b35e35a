use nft141::naming::get_pair_contract_name;
use nft141::registry::{NFT141Factory, PromiseOutcome, RegistryError, VAULT_FUNDING};
use nft141::vault::PairInfos;

const NFT_CONTRACT_ADDRESS: &str = "nft.yoshitoke.testnet";
const NFT_MEDIA_URI: &str = "https://cdn-icons-png.flaticon.com/512/1137/1137074.png";
const FACTORY: &str = "alice.testnet";
const SIGNER: &str = "robert.testnet";

fn create(f: &mut NFT141Factory, name: &str, origin: &str, symbol: &str) -> Result<String, RegistryError> {
    f.nft141Pair(
        name.into(),
        origin.into(),
        symbol.into(),
        NFT_MEDIA_URI.into(),
        &FACTORY.to_string(),
        &SIGNER.to_string(),
    )
    .map(|d| d.account)
}

fn info(name: &str, supply: u128) -> PairInfos {
    PairInfos { name: name.into(), symbol: name.to_uppercase(), supply, media: NFT_MEDIA_URI.into() }
}

#[test]
fn create_factory() {
    let mut contract = NFT141Factory::default();
    create(&mut contract, "Yeti", NFT_CONTRACT_ADDRESS, "YTI").unwrap();
    assert_eq!(NFT_CONTRACT_ADDRESS, contract.index_to_nft(0).unwrap());
}

#[test]
fn pair_account_is_derived_from_symbol() {
    let mut contract = NFT141Factory::default();
    let d = contract
        .nft141Pair(
            "Yeti".into(),
            NFT_CONTRACT_ADDRESS.into(),
            "Y.TI".into(),
            NFT_MEDIA_URI.into(),
            &FACTORY.to_string(),
            &SIGNER.to_string(),
        )
        .unwrap();
    assert_eq!(d.account, "y-ti.alice.testnet");
    assert_eq!(d.funding, VAULT_FUNDING);
    assert_eq!(d.funding, 2_500_000_000_000_000_000_000_000);
    assert_eq!(d.nft_contract_address, NFT_CONTRACT_ADDRESS);
    assert_eq!(d.vault_symbol, "Y.TI");
    assert_eq!(contract.getPairAddressByIndex(0).unwrap(), "y-ti.alice.testnet");
    assert_eq!(get_pair_contract_name(&"A.B.C".to_string(), &"Reg.Near".to_string()), "a-b-c.reg.near");
}

#[test]
fn same_origin_twice_is_refused() {
    let mut contract = NFT141Factory::default();
    assert!(create(&mut contract, "Yeti", "nft.a.testnet", "YTI").is_ok());
    assert_eq!(create(&mut contract, "Other", "nft.a.testnet", "OTH"), Err(RegistryError::AlreadyRegistered));
    assert_eq!(contract.getCounter(), 1);
    assert!(create(&mut contract, "Bear", "nft.b.testnet", "BER").is_ok());
    assert!(create(&mut contract, "Cat", "nft.c.testnet", "CAT").is_ok());
    assert_eq!(contract.getCounter(), 3);
    assert_eq!(contract.index_to_nft(0).unwrap(), "nft.a.testnet");
    assert_eq!(contract.index_to_nft(1).unwrap(), "nft.b.testnet");
    assert_eq!(contract.index_to_nft(2).unwrap(), "nft.c.testnet");
    assert_eq!(contract.index_to_nft(3), None);
}

#[test]
fn invalid_signer_is_refused() {
    let mut contract = NFT141Factory::default();
    let r = contract.nft141Pair(
        "Yeti".into(),
        NFT_CONTRACT_ADDRESS.into(),
        "YTI".into(),
        NFT_MEDIA_URI.into(),
        &FACTORY.to_string(),
        &"Robert!".to_string(),
    );
    assert!(matches!(r, Err(RegistryError::InvalidAccount)));
    assert_eq!(contract.getCounter(), 0);
}

#[test]
fn lookup_of_missing_index_is_not_found() {
    let mut contract = NFT141Factory::default();
    assert_eq!(contract.getPairByNftAddress(0), Err(RegistryError::NotFound));
    assert_eq!(contract.getPairAddressByIndex(0), None);
    create(&mut contract, "Yeti", NFT_CONTRACT_ADDRESS, "YTI").unwrap();
    assert_eq!(contract.getPairByNftAddress(0).unwrap(), "yti.alice.testnet");
    assert_eq!(contract.getPairByNftAddress(1), Err(RegistryError::NotFound));
}

#[test]
fn refresh_after_three_vaults_fills_cache_in_any_order() {
    let mut contract = NFT141Factory::default();
    create(&mut contract, "Yeti", "nft.a.testnet", "YTI").unwrap();
    create(&mut contract, "Bear", "nft.b.testnet", "BER").unwrap();
    create(&mut contract, "Cat", "nft.c.testnet", "CAT").unwrap();
    contract.pair_info_callback(vec![PromiseOutcome::Successful(info("Old", 9))]).unwrap();
    let targets = contract.refreshAllPairsInfo();
    assert_eq!(targets, vec!["yti.alice.testnet", "ber.alice.testnet", "cat.alice.testnet"]);
    assert!(contract.getAllPairsInfo().is_empty());
    // The views come back in another order than they were asked for.
    for (name, supply) in [("Cat", 2u128), ("Yeti", 0), ("Bear", 5)] {
        let r = contract.pair_info_callback(vec![PromiseOutcome::Successful(info(name, supply))]).unwrap();
        assert_eq!(r.name, name);
    }
    let cache = contract.getAllPairsInfo();
    assert_eq!(cache.len(), 3);
    let mut got: Vec<(String, u128)> = cache.iter().map(|p| (p.name.clone(), p.supply)).collect();
    got.sort();
    assert_eq!(got, vec![("Bear".to_string(), 5), ("Cat".to_string(), 2), ("Yeti".to_string(), 0)]);
}

#[test]
fn callback_failures_leave_cache_unchanged() {
    let mut contract = NFT141Factory::default();
    assert_eq!(contract.pair_info_callback(vec![]).err(), Some(RegistryError::NotACallback));
    assert_eq!(
        contract
            .pair_info_callback(vec![PromiseOutcome::Failed, PromiseOutcome::Successful(info("A", 1))])
            .err(),
        Some(RegistryError::NotACallback)
    );
    assert_eq!(contract.pair_info_callback(vec![PromiseOutcome::NotReady]).err(), Some(RegistryError::CallPending));
    assert_eq!(contract.pair_info_callback(vec![PromiseOutcome::Failed]).err(), Some(RegistryError::CallFailed));
    assert!(contract.getAllPairsInfo().is_empty());
}

#[test]
fn set_value_needs_administrator() {
    let contract = NFT141Factory::with_owner("admin.testnet".into());
    let refused = contract.setValue(&"mallory.testnet".to_string(), "p".into(), "n".into(), "s".into(), 7, "m".into());
    assert!(matches!(refused, Err(RegistryError::Unauthorized)));
    let call = contract
        .setValue(&"admin.testnet".to_string(), "p.testnet".into(), "n".into(), "s".into(), 7, "m".into())
        .unwrap();
    assert_eq!(call.pair, "p.testnet");
    assert_eq!(call.value, 7);
    let no_admin = NFT141Factory::default();
    assert!(no_admin.setValue(&"".to_string(), "p".into(), "n".into(), "s".into(), 7, "m".into()).is_err());
}

#[test]
fn set_fee_is_stored() {
    let mut contract = NFT141Factory::default();
    assert_eq!(contract.fee(), 0);
    contract.setFee(42);
    assert_eq!(contract.fee(), 42);
    assert_eq!(contract.getCounter(), 0);
}
