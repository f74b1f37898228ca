//! Administration: instantiation, collection spawning and minting, the
//! payment-token allow-list, migration, and the config query.

use nft_marketplace::context::{BlockInfo, Env, MessageInfo};
use nft_marketplace::contract::{execute, instantiate, migrate, query, reply};
use nft_marketplace::error::ContractError;
use nft_marketplace::msg::{
    ExecuteMsg, InstantiateMsg, MigrateMsg, NftQueryResponse, QueryAnswer, QueryMsg,
};
use nft_marketplace::response::EffectMsg;
use nft_marketplace::state::MarketState;

const OWNER: &str = "aura1000000000000000000000000000000000admin";
const USER_1: &str = "aura1000000000000000000000000000000000user1";
const USER_2: &str = "aura1000000000000000000000000000000000user2";

fn info(sender: &str) -> MessageInfo {
    MessageInfo { sender: sender.to_string(), funds: vec![] }
}

fn test_env() -> Env {
    Env {
        contract_address: "marketplace".to_string(),
        block: BlockInfo { height: 5, time: 1_000 },
    }
}

fn setup() -> MarketState {
    let (state, resp) = instantiate(
        &info(OWNER),
        InstantiateMsg { owner: OWNER.to_string(), collection_code_id: 7 },
    );
    assert_eq!(resp.attributes[0].key, "method");
    assert_eq!(resp.attributes[0].value, "instantiate");
    assert_eq!(resp.attributes[1].value, OWNER);
    state
}

fn no_queries() -> NftQueryResponse {
    NftQueryResponse { owner_of: None, approval_expires: None }
}

#[test]
fn user_can_create_own_collection() {
    let mut state = setup();
    let create_collection_msg = ExecuteMsg::CreateCollection {
        name: "NFT_A".to_string(),
        symbol: "NFT".to_string(),
    };
    let res = execute(&mut state, &test_env(), &info(USER_1), create_collection_msg, &no_queries());
    assert!(res.is_ok());
    let resp = res.unwrap();
    match &resp.messages[0] {
        EffectMsg::InstantiateCollection { code_id, reply_id, admin, name, symbol, minter, .. } => {
            assert_eq!(*code_id, 7);
            assert_eq!(*reply_id, 1);
            assert_eq!(admin, "marketplace");
            assert_eq!(minter, "marketplace");
            assert_eq!(name, "NFT_A");
            assert_eq!(symbol, "NFT");
        }
        _ => panic!("expected spawn effect"),
    }
    assert_eq!(resp.attributes[3].key, "minter");
    assert_eq!(resp.attributes[3].value, USER_1);
}

#[test]
fn user_can_mint_token_with_created_collection() {
    let mut state = setup();
    let env = test_env();
    let create_collection_msg = ExecuteMsg::CreateCollection {
        name: "NFT_A".to_string(),
        symbol: "NFT".to_string(),
    };
    let res = execute(&mut state, &env, &info(USER_1), create_collection_msg, &no_queries());
    assert!(res.is_ok());

    // the host reports the spawned contract's address back under the reply id
    let res = reply(&mut state, 1, "contract3".to_string());
    assert!(res.is_ok());

    // the requester may mint in the collection
    let mint_token_msg = ExecuteMsg::MintNft {
        contract_address: "contract3".to_string(),
        token_id: "1".to_string(),
        token_uri: "https://www.google.com".to_string(),
    };
    let res = execute(&mut state, &env, &info(USER_1), mint_token_msg, &no_queries());
    assert!(res.is_ok());
    let resp = res.unwrap();
    match &resp.messages[0] {
        EffectMsg::Cw721Mint { contract_address, token_id, owner, token_uri } => {
            assert_eq!(contract_address, "contract3");
            assert_eq!(token_id, "1");
            assert_eq!(owner, USER_1);
            assert_eq!(token_uri, "https://www.google.com");
        }
        _ => panic!("expected mint effect"),
    }
}

#[test]
fn mint_requires_collection_requester() {
    let mut state = setup();
    let env = test_env();
    let res = execute(
        &mut state,
        &env,
        &info(USER_1),
        ExecuteMsg::CreateCollection { name: "NFT_A".to_string(), symbol: "NFT".to_string() },
        &no_queries(),
    );
    assert!(res.is_ok());
    reply(&mut state, 1, "contract3".to_string()).unwrap();

    // someone else cannot mint there
    let res = execute(
        &mut state,
        &env,
        &info(USER_2),
        ExecuteMsg::MintNft {
            contract_address: "contract3".to_string(),
            token_id: "1".to_string(),
            token_uri: "uri".to_string(),
        },
        &no_queries(),
    );
    assert!(matches!(res, Err(ContractError::Unauthorized)));

    // nor can anyone mint in an unknown collection
    let res = execute(
        &mut state,
        &env,
        &info(USER_1),
        ExecuteMsg::MintNft {
            contract_address: "unknown".to_string(),
            token_id: "1".to_string(),
            token_uri: "uri".to_string(),
        },
        &no_queries(),
    );
    assert!(matches!(res, Err(ContractError::Unauthorized)));
}

#[test]
fn collection_ids_advance_per_request() {
    let mut state = setup();
    let env = test_env();
    for expected_id in 1..=3u64 {
        let res = execute(
            &mut state,
            &env,
            &info(USER_1),
            ExecuteMsg::CreateCollection { name: "NFT_A".to_string(), symbol: "NFT".to_string() },
            &no_queries(),
        );
        let resp = res.unwrap();
        match &resp.messages[0] {
            EffectMsg::InstantiateCollection { reply_id, .. } => assert_eq!(*reply_id, expected_id),
            _ => panic!("expected spawn effect"),
        }
    }
    // each pending request completes independently
    assert!(reply(&mut state, 2, "contract5".to_string()).is_ok());
    assert!(reply(&mut state, 2, "contract5".to_string()).is_err());
    assert!(reply(&mut state, 1, "contract4".to_string()).is_ok());
}

#[test]
fn allow_payment_token_is_owner_only() {
    let mut state = setup();
    let env = test_env();
    let res = execute(
        &mut state,
        &env,
        &info(USER_1),
        ExecuteMsg::AllowPaymentToken { contract_address: "cw20token".to_string() },
        &no_queries(),
    );
    assert!(matches!(res, Err(ContractError::Unauthorized)));

    let res = execute(
        &mut state,
        &env,
        &info(OWNER),
        ExecuteMsg::AllowPaymentToken { contract_address: "cw20token".to_string() },
        &no_queries(),
    );
    assert!(res.is_ok());
    let resp = res.unwrap();
    assert!(resp.messages.is_empty());
    assert_eq!(resp.attributes[0].value, "allow_payment_token");
    assert_eq!(resp.attributes[1].value, "cw20token");

    // allowing the same token again is fine (idempotent append)
    let res = execute(
        &mut state,
        &env,
        &info(OWNER),
        ExecuteMsg::AllowPaymentToken { contract_address: "cw20token".to_string() },
        &no_queries(),
    );
    assert!(res.is_ok());
}

#[test]
fn migrate_returns_empty_response() {
    let resp = migrate(MigrateMsg {});
    assert!(resp.messages.is_empty());
    assert!(resp.attributes.is_empty());
}

#[test]
fn config_query_returns_configuration() {
    let state = setup();
    match query(&state, QueryMsg::Config {}) {
        Ok(QueryAnswer::Config(config)) => {
            assert_eq!(config.owner, OWNER);
            assert_eq!(config.collection_code_id, 7);
        }
        _ => panic!("expected config"),
    }
}
