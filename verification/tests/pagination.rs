use consumption_unit::contract::{execute, instantiate};
use consumption_unit::msg::{
    ConsumptionUnitCollectionExtension, Cw721InstantiateMsg, ExecuteMsg,
};
use consumption_unit::query::{query, QueryMsg, QueryResponse};
use consumption_unit::state::Cw721Config;
use consumption_unit::types::{
    BlockInfo, ConsumptionUnitData, ConsumptionUnitState, Decimal, Denom, Env, MessageInfo,
    Timestamp,
};

fn env_at(nanos: u64) -> Env {
    Env { block: BlockInfo { height: 1, time: Timestamp { nanos } } }
}

fn info(sender: &str) -> MessageInfo {
    MessageInfo { sender: sender.to_string() }
}

fn extension(tier: u16) -> ConsumptionUnitData {
    ConsumptionUnitData {
        consumption_value: 100,
        nominal_quantity: 5,
        nominal_currency: "EUR".to_string(),
        commitment_tier: tier,
        state: ConsumptionUnitState::Reflected,
        floor_price: Decimal { atomics: 0 },
        hashes: vec!["h1".to_string()],
        created_at: Timestamp { nanos: 0 },
        updated_at: Timestamp { nanos: 0 },
    }
}

fn new_collection() -> Cw721Config {
    let msg = Cw721InstantiateMsg {
        name: "consumption unit".to_string(),
        symbol: "cu".to_string(),
        collection_info_extension: ConsumptionUnitCollectionExtension {
            settlement_token: Denom::Cw20("settlement".to_string()),
            native_token: Denom::Native("native".to_string()),
            price_oracle: "price_oracle".to_string(),
        },
        minter: Some("minter".to_string()),
        creator: Some("creator".to_string()),
    };
    instantiate(&env_at(1), &info("owner"), msg).0
}

fn mint(config: &mut Cw721Config, id: &str, owner: &str) {
    execute(
        config,
        &env_at(5),
        &info("minter"),
        ExecuteMsg::Mint {
            token_id: id.to_string(),
            owner: owner.to_string(),
            token_uri: None,
            extension: extension(1),
        },
    )
    .unwrap();
}

fn owner_tokens(config: &Cw721Config, owner: &str, start_after: Option<&str>, limit: Option<u32>) ->
    Vec<String>
{
    match query(
        config,
        &env_at(9),
        QueryMsg::Tokens {
            owner: owner.to_string(),
            start_after: start_after.map(|s| s.to_string()),
            limit,
        },
    )
    .unwrap()
    {
        QueryResponse::Tokens(t) => t.tokens,
        _ => panic!("unexpected response"),
    }
}

fn all_tokens(config: &Cw721Config, start_after: Option<&str>, limit: Option<u32>) -> Vec<String> {
    match query(
        config,
        &env_at(9),
        QueryMsg::AllTokens { start_after: start_after.map(|s| s.to_string()), limit },
    )
    .unwrap()
    {
        QueryResponse::AllTokens(t) => t.tokens,
        _ => panic!("unexpected response"),
    }
}

#[test]
fn test_tokens_by_owner_pages() {
    let mut config = new_collection();
    mint(&mut config, "A", "alice");
    mint(&mut config, "B", "alice");
    mint(&mut config, "C", "alice");
    mint(&mut config, "D", "bob");

    let page1 = owner_tokens(&config, "alice", None, Some(2));
    assert_eq!(page1, vec!["A".to_string(), "B".to_string()]);

    let page2 = owner_tokens(&config, "alice", Some("B"), Some(2));
    assert_eq!(page2, vec!["C".to_string()]);

    let mut joined = page1.clone();
    joined.extend(page2);
    assert_eq!(joined, owner_tokens(&config, "alice", None, Some(10)));

    let page3 = owner_tokens(&config, "alice", Some("C"), Some(2));
    assert_eq!(page3, Vec::<String>::new());
}

#[test]
fn test_scenario_three_records() {
    let mut config = new_collection();
    mint(&mut config, "A", "alice");
    mint(&mut config, "B", "alice");
    mint(&mut config, "C", "bob");

    match query(&config, &env_at(9), QueryMsg::NumTokens {}).unwrap() {
        QueryResponse::NumTokens(n) => assert_eq!(n.count, 3),
        _ => panic!("unexpected response"),
    }
    assert_eq!(
        owner_tokens(&config, "alice", None, Some(10)),
        vec!["A".to_string(), "B".to_string()]
    );
    assert_eq!(
        all_tokens(&config, None, Some(10)),
        vec!["A".to_string(), "B".to_string(), "C".to_string()]
    );

    execute(
        &mut config,
        &env_at(10),
        &info("alice"),
        ExecuteMsg::Burn { token_id: "B".to_string() },
    )
    .unwrap();

    assert_eq!(owner_tokens(&config, "alice", None, Some(10)), vec!["A".to_string()]);
    match query(&config, &env_at(11), QueryMsg::NumTokens {}).unwrap() {
        QueryResponse::NumTokens(n) => assert_eq!(n.count, 2),
        _ => panic!("unexpected response"),
    }
}

#[test]
fn test_default_limit() {
    let mut config = new_collection();
    for i in 0..12 {
        let id = format!("t{:02}", i);
        mint(&mut config, &id, "alice");
    }
    let page = owner_tokens(&config, "alice", None, None);
    assert_eq!(page.len(), 10);
    assert_eq!(page[0], "t00");
    assert_eq!(page[9], "t09");

    let rest = owner_tokens(&config, "alice", Some("t09"), None);
    assert_eq!(rest, vec!["t10".to_string(), "t11".to_string()]);
}

#[test]
fn test_limit_zero() {
    let mut config = new_collection();
    mint(&mut config, "A", "alice");
    assert_eq!(owner_tokens(&config, "alice", None, Some(0)), Vec::<String>::new());
    assert_eq!(all_tokens(&config, None, Some(0)), Vec::<String>::new());
}

#[test]
fn test_all_tokens_cursor() {
    let mut config = new_collection();
    mint(&mut config, "b", "alice");
    mint(&mut config, "a", "bob");
    mint(&mut config, "c", "alice");

    assert_eq!(
        all_tokens(&config, None, Some(10)),
        vec!["a".to_string(), "b".to_string(), "c".to_string()]
    );
    assert_eq!(
        all_tokens(&config, Some("a"), Some(10)),
        vec!["b".to_string(), "c".to_string()]
    );
    assert_eq!(all_tokens(&config, Some("a"), Some(1)), vec!["b".to_string()]);
}

#[test]
fn test_owner_filter_is_exact() {
    let mut config = new_collection();
    mint(&mut config, "A", "alice");
    mint(&mut config, "B", "alicia");
    mint(&mut config, "C", "ali");

    assert_eq!(owner_tokens(&config, "alice", None, Some(10)), vec!["A".to_string()]);
    assert_eq!(owner_tokens(&config, "alicia", None, Some(10)), vec!["B".to_string()]);
    assert_eq!(owner_tokens(&config, "ali", None, Some(10)), vec!["C".to_string()]);
    assert_eq!(owner_tokens(&config, "bob", None, Some(10)), Vec::<String>::new());
}
