use consumption_unit::contract::instantiate;
use consumption_unit::digits::u64_to_dec_string;
use consumption_unit::error::ContractError;
use consumption_unit::execute::{
    assert_creator, assert_minter, initialize_creator, initialize_minter,
};
use consumption_unit::lex::{str_cmp, CMP_EQ, CMP_GT, CMP_LT};
use consumption_unit::msg::{ConsumptionUnitCollectionExtension, Cw721InstantiateMsg};
use consumption_unit::query::{query_contract_info, query_get_config};
use consumption_unit::state::{
    token_owner_idx, Cw721Config, NftInfo, OwnerIndexEntry, Ownership, TokenEntry,
};
use consumption_unit::types::{
    BlockInfo, ConsumptionUnitData, ConsumptionUnitState, Decimal, Denom, Env, MessageInfo,
    Timestamp,
};

fn env_at(nanos: u64) -> Env {
    Env { block: BlockInfo { height: 1, time: Timestamp { nanos } } }
}

fn info(sender: &str) -> MessageInfo {
    MessageInfo { sender: sender.to_string() }
}

fn extension(tier: u16) -> ConsumptionUnitData {
    ConsumptionUnitData {
        consumption_value: 100,
        nominal_quantity: 5,
        nominal_currency: "EUR".to_string(),
        commitment_tier: tier,
        state: ConsumptionUnitState::Reflected,
        floor_price: Decimal { atomics: 0 },
        hashes: vec!["h1".to_string()],
        created_at: Timestamp { nanos: 0 },
        updated_at: Timestamp { nanos: 0 },
    }
}

#[test]
fn test_initialize_roles_once() {
    let mut role = Ownership { owner: None, pending_owner: None };
    let set = initialize_minter(&mut role, &"minter".to_string()).unwrap();
    assert_eq!(set.owner, Some("minter".to_string()));
    assert_eq!(set.pending_owner, None);

    let err = initialize_minter(&mut role, &"other".to_string()).unwrap_err();
    assert_eq!(err, ContractError::AlreadyExists);
    assert_eq!(role.owner, Some("minter".to_string()));

    let mut creator_role = Ownership { owner: None, pending_owner: None };
    initialize_creator(&mut creator_role, &"creator".to_string()).unwrap();
    let err = initialize_creator(&mut creator_role, &"creator".to_string()).unwrap_err();
    assert_eq!(err, ContractError::AlreadyExists);
}

#[test]
fn test_role_checks() {
    let minter = Ownership { owner: Some("minter".to_string()), pending_owner: None };
    assert!(assert_minter(&minter, &"minter".to_string()).is_ok());
    assert_eq!(
        assert_minter(&minter, &"bob".to_string()).unwrap_err(),
        ContractError::NotMinter
    );

    let creator = Ownership { owner: Some("creator".to_string()), pending_owner: None };
    assert!(assert_creator(&creator, &"creator".to_string()).is_ok());
    assert_eq!(
        assert_creator(&creator, &"bob".to_string()).unwrap_err(),
        ContractError::NotCreator
    );

    let empty = Ownership { owner: None, pending_owner: None };
    assert_eq!(
        assert_minter(&empty, &"minter".to_string()).unwrap_err(),
        ContractError::NotMinter
    );
}

#[test]
fn test_queries_before_creation() {
    let config = Cw721Config::default();
    assert_eq!(query_get_config(&config).unwrap_err(), ContractError::NotFound);
    assert_eq!(query_contract_info(&config).unwrap_err(), ContractError::NotFound);
}

#[test]
fn test_contract_info_after_creation() {
    let msg = Cw721InstantiateMsg {
        name: "consumption unit".to_string(),
        symbol: "cu".to_string(),
        collection_info_extension: ConsumptionUnitCollectionExtension {
            settlement_token: Denom::Cw20("settlement".to_string()),
            native_token: Denom::Native("native".to_string()),
            price_oracle: "price_oracle".to_string(),
        },
        minter: Some("minter".to_string()),
        creator: Some("creator".to_string()),
    };
    let (config, resp) = instantiate(&env_at(77), &info("owner"), msg);

    assert_eq!(resp.attributes[0].key, "action");
    assert_eq!(resp.attributes[0].value, "consumption-unit::instantiate");
    assert_eq!(resp.events[0].ty, "consumption-unit::instantiate");
    assert_eq!(resp.events[0].attributes[0].key, "minter");
    assert_eq!(resp.events[0].attributes[0].value, "minter");
    assert_eq!(resp.events[0].attributes[1].key, "creator");
    assert_eq!(resp.events[0].attributes[1].value, "creator");

    let ci = query_contract_info(&config).unwrap();
    assert_eq!(ci.collection_info.name, "consumption unit");
    assert_eq!(ci.collection_info.symbol, "cu");
    assert_eq!(ci.collection_info.updated_at, Timestamp { nanos: 77 });
    match ci.collection_config.native_token {
        Denom::Native(d) => assert_eq!(d, "native"),
        _ => panic!("unexpected denom"),
    }
    match ci.collection_config.settlement_token {
        Denom::Cw20(a) => assert_eq!(a, "settlement"),
        _ => panic!("unexpected denom"),
    }
    assert_eq!(ci.collection_config.price_oracle, "price_oracle");

    let cfg = query_get_config(&config).unwrap();
    assert_eq!(cfg.price_oracle, "price_oracle");
}

#[test]
fn test_dec_string() {
    assert_eq!(u64_to_dec_string(0), "0");
    assert_eq!(u64_to_dec_string(7), "7");
    assert_eq!(u64_to_dec_string(10), "10");
    assert_eq!(u64_to_dec_string(12345), "12345");
    assert_eq!(u64_to_dec_string(65535), "65535");
}

#[test]
fn test_token_owner_idx() {
    let nft = NftInfo { owner: "alice".to_string(), extension: extension(1) };
    assert_eq!(token_owner_idx(&nft), "alice");
}

#[test]
fn test_well_formedness_checker() {
    let mut config = Cw721Config::default();
    assert!(config.is_well_formed());

    // A record slipped into the primary store without its index entry is
    // caught.
    config.nft_info.entries.push(TokenEntry {
        token_id: "A".to_string(),
        info: NftInfo { owner: "alice".to_string(), extension: extension(1) },
    });
    assert!(!config.is_well_formed());

    // Filing the index entry alone still leaves the counter wrong.
    config.nft_info.idx.owner.push(OwnerIndexEntry {
        owner: "alice".to_string(),
        token_id: "A".to_string(),
    });
    assert!(!config.is_well_formed());

    config.token_count = 1;
    assert!(config.is_well_formed());

    // An index entry under the wrong owner is caught.
    config.nft_info.idx.owner[0].owner = "bob".to_string();
    assert!(!config.is_well_formed());
}

#[test]
fn test_str_cmp_order() {
    assert_eq!(str_cmp("a", "b"), CMP_LT);
    assert_eq!(str_cmp("b", "a"), CMP_GT);
    assert_eq!(str_cmp("a", "a"), CMP_EQ);
    assert_eq!(str_cmp("a", "ab"), CMP_LT);
    assert_eq!(str_cmp("ab", "a"), CMP_GT);
    assert_eq!(str_cmp("", "a"), CMP_LT);
    assert_eq!(str_cmp("A", "a"), CMP_LT);
    assert_eq!(str_cmp("t09", "t10"), CMP_LT);
}
