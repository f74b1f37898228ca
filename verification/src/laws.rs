//! The laws of the settlement engine, each proved from the operations'
//! contracts: listings are overwritten rather than duplicated, settlement
//! consumes a listing exactly once, sellers cannot buy from themselves, time
//! windows and funds exactness are enforced, and the payment-token
//! allow-list gates fungible listings.

use vstd::prelude::*;
use crate::context::{EnvV, MessageInfoV, CoinV};
use crate::error::ErrorV;
use crate::execute::{
    allow_token_post, buy_post, cancel_post, list_nft_post, listing_of, list_error,
};
use crate::response::ResponseV;
use crate::state::{lookup_listing, lemma_ordered_unique};
use crate::state::StateV;
use crate::structs::{
    expiration_expired, order_expired, order_key, AssetV, AuctionConfigV, Expiration,
    NativeAssetV, NftAssetV, PaymentAssetV,
};

verus! {

/// A successful `list` leaves exactly one listing under the key — the one
/// just stored — whatever stood there before. Applied along any sequence of
/// `list` calls on one key, the registry always reflects the most recent.
pub proof fn lemma_list_overwrites(
    pre: StateV,
    post: StateV,
    info: MessageInfoV,
    asset: NftAssetV,
    cfg: AuctionConfigV,
    owner_of: Option<Seq<char>>,
    approval: Option<Expiration>,
    resp: ResponseV,
)
    requires
        list_nft_post(pre, post, info, asset, cfg, owner_of, approval, Ok(resp)),
    ensures
        lookup_listing(post.listings, (asset.contract_address, asset.token_id->Some_0)) == Some(
            listing_of(
                info.sender,
                asset.contract_address,
                asset.token_id->Some_0,
                cfg->FixedPrice_price,
                cfg->FixedPrice_start_time,
                cfg->FixedPrice_end_time,
            ),
        ),
        forall|i: int, j: int|
            #![trigger order_key(post.listings[i]), order_key(post.listings[j])]
            0 <= i < post.listings.len() && 0 <= j < post.listings.len() && i != j
                ==> order_key(post.listings[i]) != order_key(post.listings[j]),
{
    assert(list_error(pre, info, asset, cfg, owner_of, approval) is None);
    lemma_ordered_unique(post.listings);
}

/// Two successful `list` calls on the same key in sequence: the second fully
/// replaces the first, and every other key keeps its listing.
pub proof fn lemma_relist_reflects_latest(
    s0: StateV,
    s1: StateV,
    s2: StateV,
    info1: MessageInfoV,
    info2: MessageInfoV,
    asset: NftAssetV,
    cfg1: AuctionConfigV,
    cfg2: AuctionConfigV,
    owner_of1: Option<Seq<char>>,
    approval1: Option<Expiration>,
    owner_of2: Option<Seq<char>>,
    approval2: Option<Expiration>,
    resp1: ResponseV,
    resp2: ResponseV,
)
    requires
        list_nft_post(s0, s1, info1, asset, cfg1, owner_of1, approval1, Ok(resp1)),
        list_nft_post(s1, s2, info2, asset, cfg2, owner_of2, approval2, Ok(resp2)),
    ensures
        lookup_listing(s2.listings, (asset.contract_address, asset.token_id->Some_0)) == Some(
            listing_of(
                info2.sender,
                asset.contract_address,
                asset.token_id->Some_0,
                cfg2->FixedPrice_price,
                cfg2->FixedPrice_start_time,
                cfg2->FixedPrice_end_time,
            ),
        ),
        forall|k2: (Seq<char>, Seq<char>)|
            k2 != (asset.contract_address, asset.token_id->Some_0)
                ==> #[trigger] lookup_listing(s2.listings, k2) == lookup_listing(s0.listings, k2),
        s1.listings.len() == s2.listings.len(),
{
    lemma_list_overwrites(s1, s2, info2, asset, cfg2, owner_of2, approval2, resp2);
}

/// Exactly-once settlement: after a successful `buy`, a second `buy` on the
/// same key fails with `NotFound` and changes nothing.
pub proof fn lemma_buy_settles_exactly_once(
    s0: StateV,
    s1: StateV,
    s2: StateV,
    env1: EnvV,
    env2: EnvV,
    info1: MessageInfoV,
    info2: MessageInfoV,
    asset: NftAssetV,
    resp: ResponseV,
    r2: Result<ResponseV, ErrorV>,
)
    requires
        buy_post(s0, s1, env1, info1, asset, Ok(resp)),
        buy_post(s1, s2, env2, info2, asset, r2),
    ensures
        r2 == Err::<ResponseV, ErrorV>(ErrorV::NotFound),
        s2 == s1,
{
}

/// Exactly-once settlement, cancel side: after a successful `buy`, a
/// `cancel` on the same key fails with `NotFound` and changes nothing.
pub proof fn lemma_buy_then_cancel_not_found(
    s0: StateV,
    s1: StateV,
    s2: StateV,
    env1: EnvV,
    env2: EnvV,
    info1: MessageInfoV,
    info2: MessageInfoV,
    asset: NftAssetV,
    resp: ResponseV,
    r2: Result<ResponseV, ErrorV>,
)
    requires
        buy_post(s0, s1, env1, info1, asset, Ok(resp)),
        cancel_post(s1, s2, env2, info2, asset, r2),
    ensures
        r2 == Err::<ResponseV, ErrorV>(ErrorV::NotFound),
        s2 == s1,
{
}

/// Self-trade rejection: the listing's seller can never buy it, whatever the
/// price, funds or time window.
pub proof fn lemma_owner_cannot_buy(
    s: StateV,
    s2: StateV,
    env: EnvV,
    info: MessageInfoV,
    asset: NftAssetV,
    r: Result<ResponseV, ErrorV>,
)
    requires
        asset.token_id is Some,
        lookup_listing(s.listings, (asset.contract_address, asset.token_id->Some_0)) is Some,
        info.sender == lookup_listing(
            s.listings,
            (asset.contract_address, asset.token_id->Some_0),
        )->Some_0.owner,
        buy_post(s, s2, env, info, asset, r),
    ensures
        r == Err::<ResponseV, ErrorV>(ErrorV::Custom { val: "Owner cannot buy"@ }),
        s2 == s,
{
}

/// Time-window enforcement, start side: before a set start time, `buy`
/// fails and changes nothing.
pub proof fn lemma_buy_before_start_fails(
    s: StateV,
    s2: StateV,
    env: EnvV,
    info: MessageInfoV,
    asset: NftAssetV,
    r: Result<ResponseV, ErrorV>,
)
    requires
        asset.token_id is Some,
        lookup_listing(s.listings, (asset.contract_address, asset.token_id->Some_0)) is Some,
        ({
            let o = lookup_listing(
                s.listings,
                (asset.contract_address, asset.token_id->Some_0),
            )->Some_0;
            &&& info.sender != o.owner
            &&& o.start_time is Some
            &&& !expiration_expired(o.start_time->Some_0, env.block)
        }),
        buy_post(s, s2, env, info, asset, r),
    ensures
        r == Err::<ResponseV, ErrorV>(ErrorV::Custom { val: "Auction not started"@ }),
        s2 == s,
{
}

/// Time-window enforcement, end side: at or after a set end time, `buy`
/// fails and changes nothing.
pub proof fn lemma_buy_after_end_fails(
    s: StateV,
    s2: StateV,
    env: EnvV,
    info: MessageInfoV,
    asset: NftAssetV,
    r: Result<ResponseV, ErrorV>,
)
    requires
        asset.token_id is Some,
        lookup_listing(s.listings, (asset.contract_address, asset.token_id->Some_0)) is Some,
        ({
            let o = lookup_listing(
                s.listings,
                (asset.contract_address, asset.token_id->Some_0),
            )->Some_0;
            &&& info.sender != o.owner
            &&& !(o.start_time is Some && !expiration_expired(o.start_time->Some_0, env.block))
            &&& o.end_time is Some
            &&& expiration_expired(o.end_time->Some_0, env.block)
        }),
        buy_post(s, s2, env, info, asset, r),
    ensures
        r == Err::<ResponseV, ErrorV>(ErrorV::Custom { val: "Auction ended"@ }),
        s2 == s,
{
}

/// Time-window enforcement, cancel side: while the listing has not expired,
/// a caller other than the seller cannot cancel it.
pub proof fn lemma_cancel_active_foreign_unauthorized(
    s: StateV,
    s2: StateV,
    env: EnvV,
    info: MessageInfoV,
    asset: NftAssetV,
    r: Result<ResponseV, ErrorV>,
)
    requires
        asset.token_id is Some,
        lookup_listing(s.listings, (asset.contract_address, asset.token_id->Some_0)) is Some,
        ({
            let o = lookup_listing(
                s.listings,
                (asset.contract_address, asset.token_id->Some_0),
            )->Some_0;
            !order_expired(o, env.block) && o.owner != info.sender
        }),
        cancel_post(s, s2, env, info, asset, r),
    ensures
        r == Err::<ResponseV, ErrorV>(ErrorV::Unauthorized),
        s2 == s,
{
}

/// Time-window enforcement, garbage collection: once a listing has expired,
/// any caller may cancel it, and the listing is gone afterwards.
pub proof fn lemma_cancel_expired_succeeds_for_anyone(
    s: StateV,
    s2: StateV,
    env: EnvV,
    info: MessageInfoV,
    asset: NftAssetV,
    r: Result<ResponseV, ErrorV>,
)
    requires
        asset.token_id is Some,
        lookup_listing(s.listings, (asset.contract_address, asset.token_id->Some_0)) is Some,
        order_expired(
            lookup_listing(s.listings, (asset.contract_address, asset.token_id->Some_0))->Some_0,
            env.block,
        ),
        cancel_post(s, s2, env, info, asset, r),
    ensures
        r is Ok,
        lookup_listing(s2.listings, (asset.contract_address, asset.token_id->Some_0)) is None,
        forall|k2: (Seq<char>, Seq<char>)|
            k2 != (asset.contract_address, asset.token_id->Some_0)
                ==> #[trigger] lookup_listing(s2.listings, k2) == lookup_listing(s.listings, k2),
{
}

/// Funds exactness: a native listing priced `(denom, amount)` rejects any
/// attached funds other than exactly that one coin — over- and underpayment
/// alike — with `InsufficientFunds`, changing nothing.
pub proof fn lemma_buy_wrong_funds_fails(
    s: StateV,
    s2: StateV,
    env: EnvV,
    info: MessageInfoV,
    asset: NftAssetV,
    denom: Seq<char>,
    amount: u128,
    r: Result<ResponseV, ErrorV>,
)
    requires
        asset.token_id is Some,
        lookup_listing(s.listings, (asset.contract_address, asset.token_id->Some_0)) is Some,
        ({
            let o = lookup_listing(
                s.listings,
                (asset.contract_address, asset.token_id->Some_0),
            )->Some_0;
            &&& info.sender != o.owner
            &&& !(o.start_time is Some && !expiration_expired(o.start_time->Some_0, env.block))
            &&& !(o.end_time is Some && expiration_expired(o.end_time->Some_0, env.block))
            &&& o.consideration.len() == 1
            &&& o.consideration[0].item == AssetV::Native(NativeAssetV { denom, amount })
        }),
        !(info.funds.len() == 1 && info.funds[0] == (CoinV { denom, amount })),
        buy_post(s, s2, env, info, asset, r),
    ensures
        r == Err::<ResponseV, ErrorV>(ErrorV::InsufficientFunds),
        s2 == s,
{
}

/// Allow-list gating, closed side: a fungible-token price whose contract is
/// not on the allow-list cannot be listed, even by an authorized owner with
/// a never-expiring approval.
pub proof fn lemma_list_unallowed_token_fails(
    s: StateV,
    s2: StateV,
    info: MessageInfoV,
    asset: NftAssetV,
    cfg: AuctionConfigV,
    pay_token: Seq<char>,
    r: Result<ResponseV, ErrorV>,
)
    requires
        cfg matches AuctionConfigV::FixedPrice { price: PaymentAssetV::Cw20 { contract_address, amount }, .. }
            && contract_address == pay_token && amount > 0,
        crate::structs::auction_config_valid(cfg),
        asset.token_id is Some,
        !s.allowed_tokens.contains(pay_token),
        list_nft_post(s, s2, info, asset, cfg, Some(info.sender), Some(Expiration::Never), r),
    ensures
        r == Err::<ResponseV, ErrorV>(ErrorV::TokenNotAllowed),
        s2 == s,
{
}

/// Allow-list gating, open side: after the owner admits the token, the very
/// same `list` call succeeds and stores the listing.
pub proof fn lemma_allow_then_list_succeeds(
    s0: StateV,
    s1: StateV,
    s2: StateV,
    admin: MessageInfoV,
    info: MessageInfoV,
    asset: NftAssetV,
    cfg: AuctionConfigV,
    pay_token: Seq<char>,
    resp_allow: ResponseV,
    r: Result<ResponseV, ErrorV>,
)
    requires
        allow_token_post(s0, s1, admin, pay_token, Ok(resp_allow)),
        cfg matches AuctionConfigV::FixedPrice { price: PaymentAssetV::Cw20 { contract_address, amount }, .. }
            && contract_address == pay_token && amount > 0,
        crate::structs::auction_config_valid(cfg),
        asset.token_id is Some,
        list_nft_post(s1, s2, info, asset, cfg, Some(info.sender), Some(Expiration::Never), r),
    ensures
        r is Ok,
        lookup_listing(s2.listings, (asset.contract_address, asset.token_id->Some_0)) == Some(
            listing_of(
                info.sender,
                asset.contract_address,
                asset.token_id->Some_0,
                cfg->FixedPrice_price,
                cfg->FixedPrice_start_time,
                cfg->FixedPrice_end_time,
            ),
        ),
{
    assert(s1.allowed_tokens.contains(pay_token)) by {
        if !s0.allowed_tokens.contains(pay_token) {
            assert(s1.allowed_tokens == s0.allowed_tokens.push(pay_token));
            assert(s1.allowed_tokens[s0.allowed_tokens.len() as int] == pay_token);
        }
    }
    assert(list_error(s1, info, asset, cfg, Some(info.sender), Some(Expiration::Never)) is None);
}

} // verus!
