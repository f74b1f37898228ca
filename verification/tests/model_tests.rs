//! The data model on its own: auction-config validity, expirations, asset
//! conversions, keys, item builders and decimal rendering.

use nft_marketplace::context::BlockInfo;
use nft_marketplace::keys::{listing_key, offer_key, str_lt};
use nft_marketplace::structs::{
    consideration_item, offer_item, order_id, Asset, AuctionConfig, Cw20Asset, Expiration,
    ItemType, NativeAsset, NftAsset, PaymentAsset,
};
use nft_marketplace::util::u64_to_string;

fn native_config(
    amount: u128,
    start_time: Option<Expiration>,
    end_time: Option<Expiration>,
) -> AuctionConfig {
    AuctionConfig::FixedPrice {
        price: PaymentAsset::Native { denom: "uaura".to_string(), amount },
        start_time,
        end_time,
    }
}

#[test]
fn auction_config_validity() {
    // no time bounds: valid
    assert!(native_config(100, None, None).is_valid());
    // start strictly before end: valid
    assert!(native_config(
        100,
        Some(Expiration::AtTime(1_000)),
        Some(Expiration::AtTime(2_000))
    )
    .is_valid());
    // start equal to end: invalid
    assert!(!native_config(
        100,
        Some(Expiration::AtTime(2_000)),
        Some(Expiration::AtTime(2_000))
    )
    .is_valid());
    // start after end: invalid
    assert!(!native_config(
        100,
        Some(Expiration::AtHeight(20)),
        Some(Expiration::AtHeight(10))
    )
    .is_valid());
    // a never-expiring start can never precede the end
    assert!(!native_config(100, Some(Expiration::Never), Some(Expiration::AtTime(2_000)))
        .is_valid());
    assert!(!native_config(100, Some(Expiration::Never), Some(Expiration::Never)).is_valid());
    // a height bound and a time bound are incomparable, hence accepted
    assert!(native_config(
        100,
        Some(Expiration::AtHeight(50)),
        Some(Expiration::AtTime(1_000))
    )
    .is_valid());
    // a never-expiring end is after any start
    assert!(native_config(100, Some(Expiration::AtTime(1_000)), Some(Expiration::Never))
        .is_valid());
    // a zero price is malformed
    assert!(!native_config(0, None, None).is_valid());
    // offer-priced configs only check the window
    let offer = AuctionConfig::OfferPrice {
        price: NftAsset { contract_address: "c".to_string(), token_id: None },
        start_time: Some(Expiration::AtTime(3_000)),
        end_time: Some(Expiration::AtTime(1_000)),
    };
    assert!(!offer.is_valid());
}

#[test]
fn expiration_is_expired_semantics() {
    let block = BlockInfo { height: 100, time: 5_000 };
    assert!(Expiration::AtHeight(100).is_expired(&block));
    assert!(Expiration::AtHeight(99).is_expired(&block));
    assert!(!Expiration::AtHeight(101).is_expired(&block));
    assert!(Expiration::AtTime(5_000).is_expired(&block));
    assert!(!Expiration::AtTime(5_001).is_expired(&block));
    assert!(!Expiration::Never.is_expired(&block));
}

#[test]
fn asset_conversions_round_trip() {
    let native = PaymentAsset::Native { denom: "uaura".to_string(), amount: 42 };
    match Asset::from(native) {
        Asset::Native(NativeAsset { denom, amount }) => {
            assert_eq!(denom, "uaura");
            assert_eq!(amount, 42);
        }
        _ => panic!("expected native asset"),
    }
    let cw20 = PaymentAsset::Cw20 { contract_address: "token".to_string(), amount: 7 };
    let asset = Asset::from(cw20);
    match PaymentAsset::from_asset(asset) {
        PaymentAsset::Cw20 { contract_address, amount } => {
            assert_eq!(contract_address, "token");
            assert_eq!(amount, 7);
        }
        _ => panic!("expected fungible payment"),
    }
}

#[test]
fn keys_and_ids_carry_their_parts() {
    let coll = "contract3".to_string();
    let token = "1".to_string();
    let user = "alice".to_string();
    assert_eq!(listing_key(&coll, &token), ("contract3".to_string(), "1".to_string()));
    assert_eq!(
        offer_key(&user, &coll, "1"),
        ("alice".to_string(), "contract3".to_string(), "1".to_string())
    );
    assert_eq!(
        order_id(&user, &coll, "1"),
        ("alice".to_string(), "contract3".to_string(), "1".to_string())
    );
}

#[test]
fn string_order_is_bytewise() {
    assert!(str_lt("1", "10"));
    assert!(str_lt("10", "2"));
    assert!(str_lt("", "a"));
    assert!(!str_lt("a", "a"));
    assert!(!str_lt("b", "a"));
    assert!(str_lt("abc", "abd"));
}

#[test]
fn item_builders_copy_their_arguments() {
    let asset = Asset::Cw20(Cw20Asset { contract_address: "token".to_string(), amount: 5 });
    let item = offer_item(&ItemType::CW20, &asset, &5, &5);
    assert_eq!(item.item_type, ItemType::CW20);
    assert_eq!(item.start_amount, 5);
    assert_eq!(item.end_amount, 5);
    match item.item {
        Asset::Cw20(Cw20Asset { contract_address, amount }) => {
            assert_eq!(contract_address, "token");
            assert_eq!(amount, 5);
        }
        _ => panic!("expected fungible asset"),
    }
    let recipient = "alice".to_string();
    let item = consideration_item(&ItemType::CW20, &asset, &5, &5, &recipient);
    assert_eq!(item.recipient, "alice");
    assert_eq!(item.item_type, ItemType::CW20);
}

#[test]
fn decimal_rendering_is_exact() {
    assert_eq!(u64_to_string(0), "0");
    assert_eq!(u64_to_string(7), "7");
    assert_eq!(u64_to_string(10), "10");
    assert_eq!(u64_to_string(305), "305");
    assert_eq!(u64_to_string(18_446_744_073_709_551_615), "18446744073709551615");
}

