//! Listing, buying and cancelling, driven through the execute dispatcher.

use nft_marketplace::context::{BlockInfo, Coin, Env, MessageInfo};
use nft_marketplace::contract::{execute, instantiate, query, reply};
use nft_marketplace::error::ContractError;
use nft_marketplace::msg::{ExecuteMsg, InstantiateMsg, NftQueryResponse, QueryAnswer, QueryMsg};
use nft_marketplace::response::{EffectMsg, Response};
use nft_marketplace::state::MarketState;
use nft_marketplace::structs::{AuctionConfig, Expiration, NftAsset, PaymentAsset};

const OWNER: &str = "aura1000000000000000000000000000000000admin";
const USER_1: &str = "aura1000000000000000000000000000000000user1";
const USER_2: &str = "aura1000000000000000000000000000000000user2";
const NATIVE_DENOM: &str = "uaura";

fn info(sender: &str, funds: Vec<Coin>) -> MessageInfo {
    MessageInfo { sender: sender.to_string(), funds }
}

fn env_at(height: u64, time: u64) -> Env {
    Env {
        contract_address: "marketplace".to_string(),
        block: BlockInfo { height, time },
    }
}

fn setup() -> MarketState {
    let (state, _resp) = instantiate(
        &info(OWNER, vec![]),
        InstantiateMsg { owner: OWNER.to_string(), collection_code_id: 1 },
    );
    state
}

fn queries_ok(owner: &str) -> NftQueryResponse {
    NftQueryResponse {
        owner_of: Some(owner.to_string()),
        approval_expires: Some(Expiration::Never),
    }
}

fn no_queries() -> NftQueryResponse {
    NftQueryResponse { owner_of: None, approval_expires: None }
}

fn nft(coll: &str, token: &str) -> NftAsset {
    NftAsset {
        contract_address: coll.to_string(),
        token_id: Some(token.to_string()),
    }
}

fn native_price(amount: u128) -> AuctionConfig {
    AuctionConfig::FixedPrice {
        price: PaymentAsset::Native { denom: NATIVE_DENOM.to_string(), amount },
        start_time: None,
        end_time: None,
    }
}

fn list_nft(
    state: &mut MarketState,
    env: &Env,
    seller: &str,
    asset: NftAsset,
    config: AuctionConfig,
) -> Result<Response, ContractError> {
    execute(
        state,
        env,
        &info(seller, vec![]),
        ExecuteMsg::ListNft { asset, listing_config: config },
        &queries_ok(seller),
    )
}

fn buy_nft(
    state: &mut MarketState,
    env: &Env,
    buyer: &str,
    funds: Vec<Coin>,
    asset: NftAsset,
) -> Result<Response, ContractError> {
    execute(state, env, &info(buyer, funds), ExecuteMsg::Buy { asset }, &no_queries())
}

fn coin(amount: u128, denom: &str) -> Coin {
    Coin { denom: denom.to_string(), amount }
}

fn query_listing_of(state: &MarketState, coll: &str, token: &str) -> Result<QueryAnswer, ContractError> {
    query(
        state,
        QueryMsg::Listing { contract_address: coll.to_string(), token_id: token.to_string() },
    )
}

#[test]
fn user_can_list_nft_for_sale() {
    let mut state = setup();
    let env = env_at(5, 1_000);
    let res = list_nft(&mut state, &env, USER_1, nft("contract3", "1"), native_price(100));
    assert!(res.is_ok());
    let resp = res.unwrap();
    assert!(resp.messages.is_empty());
    assert_eq!(resp.attributes[0].key, "method");
    assert_eq!(resp.attributes[0].value, "list_nft");
    assert_eq!(resp.attributes[1].value, "contract3");
    assert_eq!(resp.attributes[2].value, "1");
    assert_eq!(resp.attributes[3].value, USER_1);
    match query_listing_of(&state, "contract3", "1") {
        Ok(QueryAnswer::Listing(order)) => {
            assert_eq!(order.owner, USER_1);
            assert_eq!(order.order_id.1, "contract3");
            assert_eq!(order.order_id.2, "1");
        }
        _ => panic!("expected listing"),
    }
}

#[test]
fn user_can_listing_and_buying_nft() {
    let mut state = setup();
    let env = env_at(5, 1_000);
    let res = list_nft(&mut state, &env, USER_1, nft("contract3", "1"), native_price(100));
    assert!(res.is_ok());

    let res = buy_nft(
        &mut state,
        &env,
        USER_2,
        vec![coin(100, NATIVE_DENOM)],
        nft("contract3", "1"),
    );
    assert!(res.is_ok());
    let resp = res.unwrap();
    // the seller receives exactly the 100 uaura the buyer attached
    assert_eq!(resp.messages.len(), 2);
    match &resp.messages[0] {
        EffectMsg::Cw721TransferNft { contract_address, recipient, token_id } => {
            assert_eq!(contract_address, "contract3");
            assert_eq!(recipient, USER_2);
            assert_eq!(token_id, "1");
        }
        _ => panic!("expected NFT transfer first"),
    }
    match &resp.messages[1] {
        EffectMsg::BankSend { to_address, denom, amount } => {
            assert_eq!(to_address, USER_1);
            assert_eq!(denom, NATIVE_DENOM);
            assert_eq!(*amount, 100);
        }
        _ => panic!("expected bank transfer second"),
    }
}

#[test]
fn user_can_listing_and_buying_using_cw20_token() {
    let mut state = setup();
    let env = env_at(5, 1_000);
    let cw20_address = "cw20token".to_string();
    let cw20_config = AuctionConfig::FixedPrice {
        price: PaymentAsset::Cw20 { contract_address: cw20_address.clone(), amount: 100 },
        start_time: None,
        end_time: None,
    };

    // listing before the token is allowed fails
    let res = list_nft(&mut state, &env, USER_1, nft("contract3", "1"), cw20_config.clone());
    assert!(res.is_err());

    // the owner allows the token
    let res = execute(
        &mut state,
        &env,
        &info(OWNER, vec![]),
        ExecuteMsg::AllowPaymentToken { contract_address: cw20_address.clone() },
        &no_queries(),
    );
    assert!(res.is_ok());

    // the same listing now succeeds
    let res = list_nft(&mut state, &env, USER_1, nft("contract3", "1"), cw20_config);
    assert!(res.is_ok());

    // the buyer pays out of a pre-granted allowance: 100 tokens move from
    // buyer to seller
    let res = buy_nft(&mut state, &env, USER_2, vec![], nft("contract3", "1"));
    assert!(res.is_ok());
    let resp = res.unwrap();
    assert_eq!(resp.messages.len(), 2);
    match &resp.messages[1] {
        EffectMsg::Cw20TransferFrom { contract_address, owner, recipient, amount } => {
            assert_eq!(contract_address, &cw20_address);
            assert_eq!(owner, USER_2);
            assert_eq!(recipient, USER_1);
            assert_eq!(*amount, 100);
        }
        _ => panic!("expected fungible-token pull"),
    }
}

#[test]
fn buy_settles_exactly_once() {
    let mut state = setup();
    let env = env_at(5, 1_000);
    list_nft(&mut state, &env, USER_1, nft("contract3", "1"), native_price(100)).unwrap();
    buy_nft(&mut state, &env, USER_2, vec![coin(100, NATIVE_DENOM)], nft("contract3", "1"))
        .unwrap();

    // the listing is gone
    assert!(matches!(
        query_listing_of(&state, "contract3", "1"),
        Err(ContractError::NotFound)
    ));
    // a second buy fails NotFound
    let res = buy_nft(
        &mut state,
        &env,
        USER_2,
        vec![coin(100, NATIVE_DENOM)],
        nft("contract3", "1"),
    );
    assert!(matches!(res, Err(ContractError::NotFound)));
    // and so does a cancel
    let res = execute(
        &mut state,
        &env,
        &info(USER_1, vec![]),
        ExecuteMsg::Cancel { asset: nft("contract3", "1") },
        &no_queries(),
    );
    assert!(matches!(res, Err(ContractError::NotFound)));
}

#[test]
fn relist_overwrites_previous_listing() {
    let mut state = setup();
    let env = env_at(5, 1_000);
    list_nft(&mut state, &env, USER_1, nft("contract3", "1"), native_price(100)).unwrap();
    list_nft(&mut state, &env, USER_1, nft("contract3", "1"), native_price(250)).unwrap();
    // exactly one listing, reflecting the most recent call
    match query_listing_of(&state, "contract3", "1") {
        Ok(QueryAnswer::Listing(order)) => {
            assert_eq!(order.consideration.len(), 1);
            assert_eq!(order.consideration[0].start_amount, 250);
        }
        _ => panic!("expected listing"),
    }
    // buying at the new price settles it
    let res = buy_nft(
        &mut state,
        &env,
        USER_2,
        vec![coin(250, NATIVE_DENOM)],
        nft("contract3", "1"),
    );
    assert!(res.is_ok());
}

#[test]
fn owner_cannot_buy_own_listing() {
    let mut state = setup();
    let env = env_at(5, 1_000);
    list_nft(&mut state, &env, USER_1, nft("contract3", "1"), native_price(100)).unwrap();
    let res = buy_nft(
        &mut state,
        &env,
        USER_1,
        vec![coin(100, NATIVE_DENOM)],
        nft("contract3", "1"),
    );
    match res {
        Err(ContractError::Custom { val }) => assert_eq!(val, "Owner cannot buy"),
        _ => panic!("expected self-trade rejection"),
    }
    // the listing is untouched
    assert!(query_listing_of(&state, "contract3", "1").is_ok());
}

#[test]
fn buy_outside_time_window_fails() {
    let mut state = setup();
    let config = AuctionConfig::FixedPrice {
        price: PaymentAsset::Native { denom: NATIVE_DENOM.to_string(), amount: 100 },
        start_time: Some(Expiration::AtTime(2_000)),
        end_time: Some(Expiration::AtTime(3_000)),
    };
    list_nft(&mut state, &env_at(5, 1_000), USER_1, nft("contract3", "1"), config).unwrap();

    // before the start time
    let res = buy_nft(
        &mut state,
        &env_at(5, 1_999),
        USER_2,
        vec![coin(100, NATIVE_DENOM)],
        nft("contract3", "1"),
    );
    match res {
        Err(ContractError::Custom { val }) => assert_eq!(val, "Auction not started"),
        _ => panic!("expected not-started rejection"),
    }

    // at the end time (inclusive)
    let res = buy_nft(
        &mut state,
        &env_at(5, 3_000),
        USER_2,
        vec![coin(100, NATIVE_DENOM)],
        nft("contract3", "1"),
    );
    match res {
        Err(ContractError::Custom { val }) => assert_eq!(val, "Auction ended"),
        _ => panic!("expected ended rejection"),
    }

    // inside the window the buy goes through
    let res = buy_nft(
        &mut state,
        &env_at(5, 2_000),
        USER_2,
        vec![coin(100, NATIVE_DENOM)],
        nft("contract3", "1"),
    );
    assert!(res.is_ok());
}

#[test]
fn cancel_respects_time_window() {
    let mut state = setup();
    let config = AuctionConfig::FixedPrice {
        price: PaymentAsset::Native { denom: NATIVE_DENOM.to_string(), amount: 100 },
        start_time: None,
        end_time: Some(Expiration::AtTime(3_000)),
    };
    list_nft(&mut state, &env_at(5, 1_000), USER_1, nft("contract3", "1"), config).unwrap();

    // before the end time only the seller may cancel
    let res = execute(
        &mut state,
        &env_at(5, 2_000),
        &info(USER_2, vec![]),
        ExecuteMsg::Cancel { asset: nft("contract3", "1") },
        &no_queries(),
    );
    assert!(matches!(res, Err(ContractError::Unauthorized)));

    // at or after the end time anyone may cancel the expired listing
    let res = execute(
        &mut state,
        &env_at(5, 3_000),
        &info(USER_2, vec![]),
        ExecuteMsg::Cancel { asset: nft("contract3", "1") },
        &no_queries(),
    );
    assert!(res.is_ok());
    let resp = res.unwrap();
    assert!(resp.messages.is_empty());
    assert_eq!(resp.attributes[3].key, "cancelled_at");
    assert_eq!(resp.attributes[3].value, "3000");
    assert!(matches!(
        query_listing_of(&state, "contract3", "1"),
        Err(ContractError::NotFound)
    ));
}

#[test]
fn seller_can_cancel_active_listing() {
    let mut state = setup();
    let env = env_at(5, 1_000);
    list_nft(&mut state, &env, USER_1, nft("contract3", "1"), native_price(100)).unwrap();
    let res = execute(
        &mut state,
        &env,
        &info(USER_1, vec![]),
        ExecuteMsg::Cancel { asset: nft("contract3", "1") },
        &no_queries(),
    );
    assert!(res.is_ok());
    assert!(matches!(
        query_listing_of(&state, "contract3", "1"),
        Err(ContractError::NotFound)
    ));
}

#[test]
fn buy_with_wrong_funds_fails() {
    let mut state = setup();
    let env = env_at(5, 1_000);
    list_nft(&mut state, &env, USER_1, nft("contract3", "1"), native_price(100)).unwrap();

    // underpayment
    let res = buy_nft(
        &mut state,
        &env,
        USER_2,
        vec![coin(50, NATIVE_DENOM)],
        nft("contract3", "1"),
    );
    assert!(matches!(res, Err(ContractError::InsufficientFunds)));
    // the listing remains queryable afterwards
    assert!(query_listing_of(&state, "contract3", "1").is_ok());

    // overpayment
    let res = buy_nft(
        &mut state,
        &env,
        USER_2,
        vec![coin(200, NATIVE_DENOM)],
        nft("contract3", "1"),
    );
    assert!(matches!(res, Err(ContractError::InsufficientFunds)));

    // wrong denomination
    let res = buy_nft(&mut state, &env, USER_2, vec![coin(100, "uaura1")], nft("contract3", "1"));
    assert!(matches!(res, Err(ContractError::InsufficientFunds)));

    // no funds at all
    let res = buy_nft(&mut state, &env, USER_2, vec![], nft("contract3", "1"));
    assert!(matches!(res, Err(ContractError::InsufficientFunds)));

    // two coins, even with the right one first
    let res = buy_nft(
        &mut state,
        &env,
        USER_2,
        vec![coin(100, NATIVE_DENOM), coin(1, "uaura1")],
        nft("contract3", "1"),
    );
    assert!(matches!(res, Err(ContractError::InsufficientFunds)));

    // exact funds settle
    let res = buy_nft(
        &mut state,
        &env,
        USER_2,
        vec![coin(100, NATIVE_DENOM)],
        nft("contract3", "1"),
    );
    assert!(res.is_ok());
}

#[test]
fn listing_requires_authorization() {
    let mut state = setup();
    let env = env_at(5, 1_000);

    // the owner query failing is Unauthorized
    let res = execute(
        &mut state,
        &env,
        &info(USER_1, vec![]),
        ExecuteMsg::ListNft { asset: nft("contract3", "1"), listing_config: native_price(100) },
        &NftQueryResponse { owner_of: None, approval_expires: Some(Expiration::Never) },
    );
    assert!(matches!(res, Err(ContractError::Unauthorized)));

    // someone else's token is Unauthorized
    let res = execute(
        &mut state,
        &env,
        &info(USER_2, vec![]),
        ExecuteMsg::ListNft { asset: nft("contract3", "1"), listing_config: native_price(100) },
        &queries_ok(USER_1),
    );
    assert!(matches!(res, Err(ContractError::Unauthorized)));

    // an expiring approval is rejected even while still valid
    let res = execute(
        &mut state,
        &env,
        &info(USER_1, vec![]),
        ExecuteMsg::ListNft { asset: nft("contract3", "1"), listing_config: native_price(100) },
        &NftQueryResponse {
            owner_of: Some(USER_1.to_string()),
            approval_expires: Some(Expiration::AtTime(9_999_999)),
        },
    );
    assert!(matches!(res, Err(ContractError::Unauthorized)));

    // no approval at all
    let res = execute(
        &mut state,
        &env,
        &info(USER_1, vec![]),
        ExecuteMsg::ListNft { asset: nft("contract3", "1"), listing_config: native_price(100) },
        &NftQueryResponse { owner_of: Some(USER_1.to_string()), approval_expires: None },
    );
    assert!(matches!(res, Err(ContractError::Unauthorized)));
}

#[test]
fn listing_rejects_bad_configs() {
    let mut state = setup();
    let env = env_at(5, 1_000);

    // a zero price is malformed
    let res = list_nft(&mut state, &env, USER_1, nft("contract3", "1"), native_price(0));
    assert!(matches!(res, Err(ContractError::InvalidConfig)));

    // start at or after end is malformed
    let res = list_nft(
        &mut state,
        &env,
        USER_1,
        nft("contract3", "1"),
        AuctionConfig::FixedPrice {
            price: PaymentAsset::Native { denom: NATIVE_DENOM.to_string(), amount: 100 },
            start_time: Some(Expiration::AtTime(3_000)),
            end_time: Some(Expiration::AtTime(3_000)),
        },
    );
    assert!(matches!(res, Err(ContractError::InvalidConfig)));

    // a missing token id is rejected
    let res = list_nft(
        &mut state,
        &env,
        USER_1,
        NftAsset { contract_address: "contract3".to_string(), token_id: None },
        native_price(100),
    );
    match res {
        Err(ContractError::Custom { val }) => assert_eq!(val, "Token ID is required"),
        _ => panic!("expected token-id rejection"),
    }

    // an offer-priced config cannot be listed
    let res = list_nft(
        &mut state,
        &env,
        USER_1,
        nft("contract3", "1"),
        AuctionConfig::OfferPrice {
            price: NftAsset { contract_address: "other".to_string(), token_id: None },
            start_time: None,
            end_time: None,
        },
    );
    match res {
        Err(ContractError::Custom { val }) => assert_eq!(val, "Auction Config Error"),
        _ => panic!("expected offer-price rejection"),
    }
}

#[test]
fn listings_by_collection_are_paged_in_order() {
    let mut state = setup();
    let env = env_at(5, 1_000);
    // token ids in byte order: "1" < "10" < "2"
    for token in ["2", "10", "1"] {
        list_nft(&mut state, &env, USER_1, nft("contract3", token), native_price(100)).unwrap();
    }
    // a listing of another collection never shows up
    list_nft(&mut state, &env, USER_1, nft("contract9", "1"), native_price(100)).unwrap();

    let page = match query(
        &state,
        QueryMsg::ListingsByContractAddress {
            contract_address: "contract3".to_string(),
            start_after: None,
            limit: None,
        },
    ) {
        Ok(QueryAnswer::Listings(resp)) => resp.listings,
        _ => panic!("expected listings"),
    };
    let tokens: Vec<&str> = page.iter().map(|o| o.order_id.2.as_str()).collect();
    assert_eq!(tokens, vec!["1", "10", "2"]);

    // a limit returns the first entries only
    let page = match query(
        &state,
        QueryMsg::ListingsByContractAddress {
            contract_address: "contract3".to_string(),
            start_after: None,
            limit: Some(2),
        },
    ) {
        Ok(QueryAnswer::Listings(resp)) => resp.listings,
        _ => panic!("expected listings"),
    };
    let tokens: Vec<&str> = page.iter().map(|o| o.order_id.2.as_str()).collect();
    assert_eq!(tokens, vec!["1", "10"]);

    // a zero limit yields an empty page
    let page = match query(
        &state,
        QueryMsg::ListingsByContractAddress {
            contract_address: "contract3".to_string(),
            start_after: None,
            limit: Some(0),
        },
    ) {
        Ok(QueryAnswer::Listings(resp)) => resp.listings,
        _ => panic!("expected listings"),
    };
    assert!(page.is_empty());

    // a cursor resumes strictly after the given token
    let page = match query(
        &state,
        QueryMsg::ListingsByContractAddress {
            contract_address: "contract3".to_string(),
            start_after: Some("10".to_string()),
            limit: None,
        },
    ) {
        Ok(QueryAnswer::Listings(resp)) => resp.listings,
        _ => panic!("expected listings"),
    };
    let tokens: Vec<&str> = page.iter().map(|o| o.order_id.2.as_str()).collect();
    assert_eq!(tokens, vec!["2"]);
}

#[test]
fn listing_with_unallowed_token_reports_token_not_allowed() {
    let mut state = setup();
    let env = env_at(5, 1_000);
    let res = list_nft(
        &mut state,
        &env,
        USER_1,
        nft("contract3", "1"),
        AuctionConfig::FixedPrice {
            price: PaymentAsset::Cw20 { contract_address: "unvetted".to_string(), amount: 100 },
            start_time: None,
            end_time: None,
        },
    );
    assert!(matches!(res, Err(ContractError::TokenNotAllowed)));
    // nothing was stored
    assert!(matches!(
        query_listing_of(&state, "contract3", "1"),
        Err(ContractError::NotFound)
    ));
}

#[test]
fn reply_registers_minter_for_spawned_collection() {
    let mut state = setup();
    let env = env_at(5, 1_000);
    let res = execute(
        &mut state,
        &env,
        &info(USER_1, vec![]),
        ExecuteMsg::CreateCollection { name: "NFT_A".to_string(), symbol: "NFT".to_string() },
        &no_queries(),
    );
    assert!(res.is_ok());
    let resp = res.unwrap();
    let reply_id = match &resp.messages[0] {
        EffectMsg::InstantiateCollection { reply_id, code_id, minter, .. } => {
            assert_eq!(*code_id, 1);
            assert_eq!(minter, "marketplace");
            *reply_id
        }
        _ => panic!("expected spawn effect"),
    };

    // an unknown reply id answers NotFound instead of aborting
    let res = reply(&mut state, reply_id + 1, "contract3".to_string());
    assert!(matches!(res, Err(ContractError::NotFound)));

    let res = reply(&mut state, reply_id, "contract3".to_string());
    assert!(res.is_ok());
    // a second completion for the same id has nothing left to promote
    let res = reply(&mut state, reply_id, "contract3".to_string());
    assert!(matches!(res, Err(ContractError::NotFound)));
}
