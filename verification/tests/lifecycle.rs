use consumption_unit::contract::{execute, execute_select, instantiate, migrate};
use consumption_unit::error::ContractError;
use consumption_unit::msg::{
    ConsumptionUnitCollectionExtension, ConsumptionUnitExtensionUpdate, Cw721InstantiateMsg,
    ExecuteMsg, MigrateMsg,
};
use consumption_unit::query::{query, QueryMsg, QueryResponse};
use consumption_unit::state::Cw721Config;
use consumption_unit::types::{
    BlockInfo, ConsumptionUnitData, ConsumptionUnitState, Decimal, Denom, Env, MessageInfo,
    Timestamp,
};

fn env_at(nanos: u64) -> Env {
    Env { block: BlockInfo { height: 1, time: Timestamp { nanos } } }
}

fn info(sender: &str) -> MessageInfo {
    MessageInfo { sender: sender.to_string() }
}

fn extension(tier: u16) -> ConsumptionUnitData {
    ConsumptionUnitData {
        consumption_value: 100,
        nominal_quantity: 5,
        nominal_currency: "EUR".to_string(),
        commitment_tier: tier,
        state: ConsumptionUnitState::Reflected,
        floor_price: Decimal { atomics: 0 },
        hashes: vec!["h1".to_string()],
        created_at: Timestamp { nanos: 0 },
        updated_at: Timestamp { nanos: 0 },
    }
}

fn new_collection(minter: &str, creator: &str) -> Cw721Config {
    let msg = Cw721InstantiateMsg {
        name: "consumption unit".to_string(),
        symbol: "cu".to_string(),
        collection_info_extension: ConsumptionUnitCollectionExtension {
            settlement_token: Denom::Cw20("settlement".to_string()),
            native_token: Denom::Native("native".to_string()),
            price_oracle: "price_oracle".to_string(),
        },
        minter: Some(minter.to_string()),
        creator: Some(creator.to_string()),
    };
    instantiate(&env_at(1), &info("owner"), msg).0
}

fn mint(config: &mut Cw721Config, sender: &str, id: &str, owner: &str, tier: u16, nanos: u64) ->
    Result<consumption_unit::response::Response, ContractError>
{
    execute(
        config,
        &env_at(nanos),
        &info(sender),
        ExecuteMsg::Mint {
            token_id: id.to_string(),
            owner: owner.to_string(),
            token_uri: None,
            extension: extension(tier),
        },
    )
}

#[test]
fn test_query_config() {
    let msg = Cw721InstantiateMsg {
        name: "consumption unit".to_string(),
        symbol: "cu".to_string(),
        collection_info_extension: ConsumptionUnitCollectionExtension {
            settlement_token: Denom::Cw20("settlement".to_string()),
            native_token: Denom::Native("native".to_string()),
            price_oracle: "price_oracle".to_string(),
        },
        minter: None,
        creator: None,
    };
    let (config, _resp) = instantiate(&env_at(1), &info("owner"), msg);

    let response = query(&config, &env_at(1), QueryMsg::NumTokens {}).unwrap();
    match response {
        QueryResponse::NumTokens(n) => assert_eq!(n.count, 0),
        _ => panic!("unexpected response"),
    }

    let response = query(&config, &env_at(1), QueryMsg::GetMinterOwnership {}).unwrap();
    match response {
        QueryResponse::MinterOwnership(o) => assert_eq!(o.owner.unwrap(), "owner".to_string()),
        _ => panic!("unexpected response"),
    }

    let response = query(&config, &env_at(1), QueryMsg::GetCreatorOwnership {}).unwrap();
    match response {
        QueryResponse::CreatorOwnership(o) => assert_eq!(o.owner.unwrap(), "owner".to_string()),
        _ => panic!("unexpected response"),
    }
}

#[test]
fn test_mint_and_load() {
    let mut config = new_collection("minter", "creator");
    let resp = mint(&mut config, "minter", "A", "alice", 3, 42).unwrap();

    assert_eq!(resp.attributes.len(), 1);
    assert_eq!(resp.attributes[0].key, "action");
    assert_eq!(resp.attributes[0].value, "consumption-unit::mint");
    assert_eq!(resp.events.len(), 1);
    assert_eq!(resp.events[0].ty, "consumption-unit::mint");
    assert_eq!(resp.events[0].attributes[0].key, "token_id");
    assert_eq!(resp.events[0].attributes[0].value, "A");
    assert_eq!(resp.events[0].attributes[1].key, "owner");
    assert_eq!(resp.events[0].attributes[1].value, "alice");

    match query(&config, &env_at(43), QueryMsg::NumTokens {}).unwrap() {
        QueryResponse::NumTokens(n) => assert_eq!(n.count, 1),
        _ => panic!("unexpected response"),
    }
    match query(&config, &env_at(43), QueryMsg::OwnerOf { token_id: "A".to_string() }).unwrap() {
        QueryResponse::OwnerOf(o) => assert_eq!(o.owner, "alice"),
        _ => panic!("unexpected response"),
    }
    match query(&config, &env_at(43), QueryMsg::NftInfo { token_id: "A".to_string() }).unwrap() {
        QueryResponse::NftInfo(x) => {
            assert_eq!(x.extension.consumption_value, 100);
            assert_eq!(x.extension.nominal_quantity, 5);
            assert_eq!(x.extension.nominal_currency, "EUR");
            assert_eq!(x.extension.commitment_tier, 3);
            assert_eq!(x.extension.state, ConsumptionUnitState::Reflected);
            assert_eq!(x.extension.hashes, vec!["h1".to_string()]);
            assert_eq!(x.extension.created_at, Timestamp { nanos: 42 });
            assert_eq!(x.extension.updated_at, Timestamp { nanos: 42 });
        }
        _ => panic!("unexpected response"),
    }
}

#[test]
fn test_mint_duplicate_fails() {
    let mut config = new_collection("minter", "creator");
    mint(&mut config, "minter", "A", "alice", 1, 10).unwrap();
    let err = mint(&mut config, "minter", "A", "bob", 2, 11).unwrap_err();
    assert_eq!(err, ContractError::AlreadyExists);

    match query(&config, &env_at(12), QueryMsg::NumTokens {}).unwrap() {
        QueryResponse::NumTokens(n) => assert_eq!(n.count, 1),
        _ => panic!("unexpected response"),
    }
    match query(&config, &env_at(12), QueryMsg::OwnerOf { token_id: "A".to_string() }).unwrap() {
        QueryResponse::OwnerOf(o) => assert_eq!(o.owner, "alice"),
        _ => panic!("unexpected response"),
    }
    match query(
        &config,
        &env_at(12),
        QueryMsg::Tokens { owner: "alice".to_string(), start_after: None, limit: Some(10) },
    )
    .unwrap()
    {
        QueryResponse::Tokens(t) => assert_eq!(t.tokens, vec!["A".to_string()]),
        _ => panic!("unexpected response"),
    }
}

#[test]
fn test_mint_requires_minter() {
    let mut config = new_collection("minter", "creator");
    let err = mint(&mut config, "mallory", "A", "mallory", 1, 10).unwrap_err();
    assert_eq!(err, ContractError::NotMinter);
    match query(&config, &env_at(11), QueryMsg::NumTokens {}).unwrap() {
        QueryResponse::NumTokens(n) => assert_eq!(n.count, 0),
        _ => panic!("unexpected response"),
    }
}

#[test]
fn test_burn_owner_only() {
    let mut config = new_collection("minter", "creator");
    mint(&mut config, "minter", "A", "alice", 1, 10).unwrap();

    let err = execute(
        &mut config,
        &env_at(11),
        &info("bob"),
        ExecuteMsg::Burn { token_id: "A".to_string() },
    )
    .unwrap_err();
    assert_eq!(err, ContractError::NotOwner);
    match query(&config, &env_at(11), QueryMsg::NumTokens {}).unwrap() {
        QueryResponse::NumTokens(n) => assert_eq!(n.count, 1),
        _ => panic!("unexpected response"),
    }

    let resp = execute(
        &mut config,
        &env_at(12),
        &info("alice"),
        ExecuteMsg::Burn { token_id: "A".to_string() },
    )
    .unwrap();
    assert_eq!(resp.attributes[0].value, "consumption-unit::burn");
    assert_eq!(resp.events[0].ty, "consumption-unit::burn");
    assert_eq!(resp.events[0].attributes[0].key, "sender");
    assert_eq!(resp.events[0].attributes[0].value, "alice");
    assert_eq!(resp.events[0].attributes[1].key, "token_id");
    assert_eq!(resp.events[0].attributes[1].value, "A");

    match query(&config, &env_at(13), QueryMsg::NumTokens {}).unwrap() {
        QueryResponse::NumTokens(n) => assert_eq!(n.count, 0),
        _ => panic!("unexpected response"),
    }
    let err = query(&config, &env_at(13), QueryMsg::OwnerOf { token_id: "A".to_string() })
        .unwrap_err();
    assert_eq!(err, ContractError::NotFound);
    match query(
        &config,
        &env_at(13),
        QueryMsg::Tokens { owner: "alice".to_string(), start_after: None, limit: Some(10) },
    )
    .unwrap()
    {
        QueryResponse::Tokens(t) => assert_eq!(t.tokens, Vec::<String>::new()),
        _ => panic!("unexpected response"),
    }

    let err = execute(
        &mut config,
        &env_at(14),
        &info("alice"),
        ExecuteMsg::Burn { token_id: "A".to_string() },
    )
    .unwrap_err();
    assert_eq!(err, ContractError::NotFound);
}

#[test]
fn test_update_tier() {
    let mut config = new_collection("minter", "creator");
    mint(&mut config, "minter", "A", "alice", 1, 10).unwrap();

    let resp = execute(
        &mut config,
        &env_at(20),
        &info("alice"),
        ExecuteMsg::UpdateNftInfo {
            token_id: "A".to_string(),
            extension: ConsumptionUnitExtensionUpdate::UpdatePool { new_commitment_tier_id: 7 },
        },
    )
    .unwrap();
    assert_eq!(resp.attributes[0].value, "consumption-unit::update_nft_info");
    assert_eq!(resp.events[0].ty, "consumption-unit::update_nft_info");
    assert_eq!(resp.events[0].attributes[0].key, "token_id");
    assert_eq!(resp.events[0].attributes[0].value, "A");
    assert_eq!(resp.events[0].attributes[1].key, "new_commitment_pool_id");
    assert_eq!(resp.events[0].attributes[1].value, "7");

    match query(&config, &env_at(21), QueryMsg::NftInfo { token_id: "A".to_string() }).unwrap() {
        QueryResponse::NftInfo(x) => {
            assert_eq!(x.extension.commitment_tier, 7);
            assert_eq!(x.extension.state, ConsumptionUnitState::Nominated);
            assert_eq!(x.extension.created_at, Timestamp { nanos: 10 });
            assert_eq!(x.extension.updated_at, Timestamp { nanos: 20 });
            assert_eq!(x.extension.consumption_value, 100);
        }
        _ => panic!("unexpected response"),
    }
}

#[test]
fn test_update_tier_missing_token() {
    let mut config = new_collection("minter", "creator");
    let err = execute(
        &mut config,
        &env_at(20),
        &info("alice"),
        ExecuteMsg::UpdateNftInfo {
            token_id: "A".to_string(),
            extension: ConsumptionUnitExtensionUpdate::UpdatePool { new_commitment_tier_id: 7 },
        },
    )
    .unwrap_err();
    assert_eq!(err, ContractError::NotFound);
}

#[test]
fn test_update_tier_non_owner() {
    let mut config = new_collection("minter", "creator");
    mint(&mut config, "minter", "A", "alice", 1, 10).unwrap();

    let err = execute(
        &mut config,
        &env_at(11),
        &info("bob"),
        ExecuteMsg::UpdateNftInfo {
            token_id: "A".to_string(),
            extension: ConsumptionUnitExtensionUpdate::UpdatePool { new_commitment_tier_id: 7 },
        },
    )
    .unwrap_err();
    assert_eq!(err, ContractError::NotOwner);

    execute_select(&mut config, &env_at(12), &info("minter"), "A".to_string()).unwrap();

    let err = execute(
        &mut config,
        &env_at(13),
        &info("bob"),
        ExecuteMsg::UpdateNftInfo {
            token_id: "A".to_string(),
            extension: ConsumptionUnitExtensionUpdate::UpdatePool { new_commitment_tier_id: 7 },
        },
    )
    .unwrap_err();
    assert_eq!(err, ContractError::NotOwner);
}

#[test]
fn test_update_tier_selected() {
    let mut config = new_collection("minter", "creator");
    mint(&mut config, "minter", "A", "alice", 4, 10).unwrap();
    execute_select(&mut config, &env_at(11), &info("minter"), "A".to_string()).unwrap();

    let err = execute(
        &mut config,
        &env_at(12),
        &info("alice"),
        ExecuteMsg::UpdateNftInfo {
            token_id: "A".to_string(),
            extension: ConsumptionUnitExtensionUpdate::UpdatePool { new_commitment_tier_id: 9 },
        },
    )
    .unwrap_err();
    assert_eq!(err, ContractError::WrongState);

    match query(&config, &env_at(13), QueryMsg::NftInfo { token_id: "A".to_string() }).unwrap() {
        QueryResponse::NftInfo(x) => {
            assert_eq!(x.extension.commitment_tier, 4);
            assert_eq!(x.extension.state, ConsumptionUnitState::Selected);
            assert_eq!(x.extension.updated_at, Timestamp { nanos: 11 });
        }
        _ => panic!("unexpected response"),
    }
}

#[test]
fn test_select() {
    let mut config = new_collection("minter", "creator");
    mint(&mut config, "minter", "A", "alice", 1, 10).unwrap();

    let err = execute_select(&mut config, &env_at(11), &info("alice"), "A".to_string())
        .unwrap_err();
    assert_eq!(err, ContractError::NotMinter);

    let resp = execute_select(&mut config, &env_at(12), &info("minter"), "A".to_string())
        .unwrap();
    assert_eq!(resp.attributes[0].value, "consumption-unit::select");
    match query(&config, &env_at(13), QueryMsg::NftInfo { token_id: "A".to_string() }).unwrap() {
        QueryResponse::NftInfo(x) => {
            assert_eq!(x.extension.state, ConsumptionUnitState::Selected);
            assert_eq!(x.extension.updated_at, Timestamp { nanos: 12 });
        }
        _ => panic!("unexpected response"),
    }

    let err = execute_select(&mut config, &env_at(14), &info("minter"), "A".to_string())
        .unwrap_err();
    assert_eq!(err, ContractError::WrongState);
}

#[test]
fn test_migrate() {
    let resp = migrate(MigrateMsg::Migrate {});
    assert_eq!(resp.attributes.len(), 0);
    assert_eq!(resp.events.len(), 0);
}
