//! Persisting the state through the snapshot boundary: a snapshot restores
//! to the same state, and malformed host data is rejected.

use nft_marketplace::context::{BlockInfo, Coin, Env, MessageInfo};
use nft_marketplace::contract::{execute, instantiate, query};
use nft_marketplace::msg::{ExecuteMsg, InstantiateMsg, NftQueryResponse, QueryAnswer, QueryMsg};
use nft_marketplace::state::MarketState;
use nft_marketplace::structs::{AuctionConfig, Expiration, NftAsset, PaymentAsset};

const OWNER: &str = "aura1000000000000000000000000000000000admin";
const USER_1: &str = "aura1000000000000000000000000000000000user1";
const USER_2: &str = "aura1000000000000000000000000000000000user2";

fn info(sender: &str, funds: Vec<Coin>) -> MessageInfo {
    MessageInfo { sender: sender.to_string(), funds }
}

fn test_env() -> Env {
    Env {
        contract_address: "marketplace".to_string(),
        block: BlockInfo { height: 5, time: 1_000 },
    }
}

fn listed_state() -> MarketState {
    let (mut state, _) = instantiate(
        &info(OWNER, vec![]),
        InstantiateMsg { owner: OWNER.to_string(), collection_code_id: 1 },
    );
    for token in ["2", "1"] {
        let res = execute(
            &mut state,
            &test_env(),
            &info(USER_1, vec![]),
            ExecuteMsg::ListNft {
                asset: NftAsset {
                    contract_address: "contract3".to_string(),
                    token_id: Some(token.to_string()),
                },
                listing_config: AuctionConfig::FixedPrice {
                    price: PaymentAsset::Native { denom: "uaura".to_string(), amount: 100 },
                    start_time: None,
                    end_time: None,
                },
            },
            &NftQueryResponse {
                owner_of: Some(USER_1.to_string()),
                approval_expires: Some(Expiration::Never),
            },
        );
        assert!(res.is_ok());
    }
    state
}

#[test]
fn snapshot_restores_to_the_same_state() {
    let state = listed_state();
    let snapshot = state.snapshot();
    let restored = MarketState::restore(snapshot).expect("a snapshot of a live state is valid");
    // the restored state answers queries exactly as the original did
    match query(
        &restored,
        QueryMsg::Listing { contract_address: "contract3".to_string(), token_id: "1".to_string() },
    ) {
        Ok(QueryAnswer::Listing(order)) => assert_eq!(order.owner, USER_1),
        _ => panic!("expected listing after restore"),
    }
    // and the restored state still settles
    let mut restored = restored;
    let res = execute(
        &mut restored,
        &test_env(),
        &info(USER_2, vec![Coin { denom: "uaura".to_string(), amount: 100 }]),
        ExecuteMsg::Buy {
            asset: NftAsset {
                contract_address: "contract3".to_string(),
                token_id: Some("1".to_string()),
            },
        },
        &NftQueryResponse { owner_of: None, approval_expires: None },
    );
    assert!(res.is_ok());
}

#[test]
fn restore_rejects_duplicate_listing_keys() {
    let state = listed_state();
    let mut snapshot = state.snapshot();
    let copy = snapshot.listings[0].clone();
    snapshot.listings.push(copy);
    assert!(MarketState::restore(snapshot).is_none());
}

#[test]
fn restore_rejects_unordered_listings() {
    let state = listed_state();
    let mut snapshot = state.snapshot();
    snapshot.listings.reverse();
    assert!(MarketState::restore(snapshot).is_none());
}

#[test]
fn restore_rejects_zero_priced_listing() {
    let state = listed_state();
    let mut snapshot = state.snapshot();
    snapshot.listings[0].consideration[0].start_amount = 0;
    snapshot.listings[0].consideration[0].end_amount = 0;
    match &mut snapshot.listings[0].consideration[0].item {
        nft_marketplace::structs::Asset::Native(na) => na.amount = 0,
        _ => panic!("expected native consideration"),
    }
    assert!(MarketState::restore(snapshot).is_none());
}

#[test]
fn restore_rejects_duplicate_allow_list_entries() {
    let state = listed_state();
    let mut snapshot = state.snapshot();
    snapshot.allowed_tokens.push("token".to_string());
    snapshot.allowed_tokens.push("token".to_string());
    assert!(MarketState::restore(snapshot).is_none());
}
