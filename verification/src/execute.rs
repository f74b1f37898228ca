//! The settlement engine: listing, buying and cancelling NFTs, routing
//! payments, admitting payment tokens, and the collection-spawn bookkeeping.
//!
//! Every operation is specified by a relation between the state before and
//! after the call; on an error the state is unchanged, so that the host's
//! all-or-nothing transaction is already reflected here.

use vstd::prelude::*;
use crate::context::{Env, EnvV, MessageInfo, MessageInfoV, CoinV};
use crate::error::{ContractError, ErrorV};
use crate::msg::NftQueryResponse;
use crate::response::{EffectMsg, EffectV, Response, ResponseV, result_dv};
use crate::state::{
    MarketState, StateV, state_wf, lookup_listing, has_listing, listings_wf, listing_wf,
    pending_get, pending_keys_unique, assoc_get,
};
use crate::structs::{
    order_id, auction_config_valid, expiration_expired, order_expired, payment_of_asset, Asset,
    AssetV, AuctionConfig, AuctionConfigV, ConsiderationItem,
    ConsiderationItemV, Cw20Asset, Cw20AssetV, Expiration, ItemType, NativeAsset, NativeAssetV,
    NftAsset, NftAssetV, OfferItem, OfferItemV, Order, OrderType, OrderV, PaymentAsset,
    PaymentAssetV,
};
use crate::util::{dec_chars, u64_to_string, push_dv};

verus! {

/// The consideration item a fixed price gives rise to.
pub open spec fn consideration_of(price: PaymentAssetV, recipient: Seq<char>) -> ConsiderationItemV {
    match price {
        PaymentAssetV::Native { denom, amount } => (ConsiderationItemV {
            item_type: ItemType::NATIVE,
            item: AssetV::Native(NativeAssetV { denom, amount }),
            start_amount: amount,
            end_amount: amount,
            recipient,
        }),
        PaymentAssetV::Cw20 { contract_address, amount } => (ConsiderationItemV {
            item_type: ItemType::CW20,
            item: AssetV::Cw20(Cw20AssetV { contract_address, amount }),
            start_amount: amount,
            end_amount: amount,
            recipient,
        }),
    }
}

/// The listing record a successful `list` call stores.
pub open spec fn listing_of(
    sender: Seq<char>,
    coll: Seq<char>,
    token: Seq<char>,
    price: PaymentAssetV,
    start_time: Option<Expiration>,
    end_time: Option<Expiration>,
) -> OrderV {
    OrderV {
        order_type: OrderType::LISTING,
        order_id: (sender, coll, token),
        owner: sender,
        offer: seq![
            OfferItemV {
                item_type: ItemType::CW721,
                item: AssetV::Nft(NftAssetV { contract_address: coll, token_id: Some(token) }),
                start_amount: 1,
                end_amount: 1,
            },
        ],
        consideration: seq![consideration_of(price, sender)],
        start_time,
        end_time,
    }
}

/// The error a `list` call returns, if any: the configuration must be valid,
/// the token id given, the caller must own the token, the ledger must report
/// an approval that never expires (no approval at all, or a merely
/// time-bound one, is `Unauthorized`), the price must be fixed, and a
/// fungible payment token must be on the allow-list.
pub open spec fn list_error(
    pre: StateV,
    info: MessageInfoV,
    asset: NftAssetV,
    cfg: AuctionConfigV,
    owner_of: Option<Seq<char>>,
    approval: Option<Expiration>,
) -> Option<ErrorV> {
    if !auction_config_valid(cfg) {
        Some(ErrorV::InvalidConfig)
    } else if asset.token_id is None {
        Some(ErrorV::Custom { val: "Token ID is required"@ })
    } else if owner_of is None {
        Some(ErrorV::Unauthorized)
    } else if owner_of->Some_0 != info.sender {
        Some(ErrorV::Unauthorized)
    } else if approval != Some(Expiration::Never) {
        Some(ErrorV::Unauthorized)
    } else {
        match cfg {
            AuctionConfigV::FixedPrice { price, .. } => match price {
                PaymentAssetV::Cw20 { contract_address, .. } => if !pre.allowed_tokens.contains(
                    contract_address,
                ) {
                    Some(ErrorV::TokenNotAllowed)
                } else {
                    None
                },
                PaymentAssetV::Native { .. } => None,
            },
            AuctionConfigV::OfferPrice { .. } => (Some(ErrorV::Custom {
                val: "Auction Config Error"@,
            })),
        }
    }
}

/// The attributes of a successful `list` call.
pub open spec fn list_attrs(coll: Seq<char>, token: Seq<char>, sender: Seq<char>) -> Seq<
    (Seq<char>, Seq<char>),
> {
    seq![
        ("method"@, "list_nft"@),
        ("contract_address"@, coll),
        ("token_id"@, token),
        ("seller"@, sender),
    ]
}

/// How `list` relates the state before and after the call to its result: on
/// any error the state is unchanged; on success the new listing stands under
/// its key (overwriting any previous one there), every other key is
/// untouched, and the response carries no effects.
pub open spec fn list_nft_post(
    pre: StateV,
    post: StateV,
    info: MessageInfoV,
    asset: NftAssetV,
    cfg: AuctionConfigV,
    owner_of: Option<Seq<char>>,
    approval: Option<Expiration>,
    res: Result<ResponseV, ErrorV>,
) -> bool {
    match list_error(pre, info, asset, cfg, owner_of, approval) {
        Some(e) => post == pre && res == Err::<ResponseV, ErrorV>(e),
        None => {
            let coll = asset.contract_address;
            let token = asset.token_id->Some_0;
            let o = listing_of(
                info.sender,
                coll,
                token,
                cfg->FixedPrice_price,
                cfg->FixedPrice_start_time,
                cfg->FixedPrice_end_time,
            );
            &&& res == Ok::<ResponseV, ErrorV>(
                ResponseV { messages: Seq::empty(), attributes: list_attrs(coll, token, info.sender) },
            )
            &&& post == (StateV { listings: post.listings, ..pre })
            &&& listings_wf(post.listings)
            &&& lookup_listing(post.listings, (coll, token)) == Some(o)
            &&& forall|k2: (Seq<char>, Seq<char>)|
                k2 != (coll, token) ==> #[trigger] lookup_listing(post.listings, k2)
                    == lookup_listing(pre.listings, k2)
            &&& post.listings.len() == if has_listing(pre.listings, (coll, token)) {
                pre.listings.len()
            } else {
                pre.listings.len() + 1
            }
        },
    }
}

/// Lists an NFT at a fixed price. `nft_query` carries the NFT ledger's
/// answers about the asset (owner and approval), which the host obtained for
/// this call; the caller must own the token and must have granted this
/// contract a never-expiring transfer approval.
pub fn execute_list_nft(
    state: &mut MarketState,
    info: &MessageInfo,
    asset: NftAsset,
    auction_config: AuctionConfig,
    nft_query: &NftQueryResponse,
) -> (r: Result<Response, ContractError>)
    requires
        state_wf(old(state)@),
    ensures
        state_wf(final(state)@),
        list_nft_post(
            old(state)@,
            final(state)@,
            info.deep_view(),
            asset.deep_view(),
            auction_config.deep_view(),
            nft_query.owner_of.deep_view(),
            nft_query.approval_expires,
            result_dv(r),
        ),
{
    if !auction_config.is_valid() {
        return Err(ContractError::InvalidConfig);
    }
    let contract_address = asset.contract_address.clone();
    let token_id = match asset.token_id {
        None => {
            return Err(ContractError::Custom { val: "Token ID is required".to_owned() });
        },
        Some(t) => t,
    };
    match &nft_query.owner_of {
        None => {
            return Err(ContractError::Unauthorized);
        },
        Some(owner) => {
            if !(*owner == info.sender) {
                return Err(ContractError::Unauthorized);
            }
        },
    }
    match nft_query.approval_expires {
        Some(Expiration::Never) => {},
        _ => {
            return Err(ContractError::Unauthorized);
        },
    }
    match auction_config {
        AuctionConfig::FixedPrice { price, start_time, end_time } => {
            let ghost price_v = price.deep_view();
            let consideration = match price {
                PaymentAsset::Native { denom, amount } => (ConsiderationItem {
                    item_type: ItemType::NATIVE,
                    item: Asset::Native(NativeAsset { denom, amount }),
                    start_amount: amount,
                    end_amount: amount,
                    recipient: info.sender.clone(),
                }),
                PaymentAsset::Cw20 { contract_address: pay_token, amount } => {
                    if !state.is_token_allowed(&pay_token) {
                        return Err(ContractError::TokenNotAllowed);
                    }
                    ConsiderationItem {
                        item_type: ItemType::CW20,
                        item: Asset::Cw20(Cw20Asset { contract_address: pay_token, amount }),
                        start_amount: amount,
                        end_amount: amount,
                        recipient: info.sender.clone(),
                    }
                },
            };
            let offer = OfferItem {
                item_type: ItemType::CW721,
                item: Asset::Nft(
                    NftAsset {
                        contract_address: contract_address.clone(),
                        token_id: Some(token_id.clone()),
                    },
                ),
                start_amount: 1,
                end_amount: 1,
            };
            let new_listing = Order {
                order_type: OrderType::LISTING,
                order_id: order_id(&info.sender, &contract_address, token_id.as_str()),
                owner: info.sender.clone(),
                offer: vec![offer],
                consideration: vec![consideration],
                start_time,
                end_time,
            };
            proof {
                assert(new_listing.deep_view().offer =~= listing_of(
                    info.sender@,
                    contract_address@,
                    token_id@,
                    price_v,
                    start_time,
                    end_time,
                ).offer);
                assert(new_listing.deep_view().consideration =~= listing_of(
                    info.sender@,
                    contract_address@,
                    token_id@,
                    price_v,
                    start_time,
                    end_time,
                ).consideration);
                assert(new_listing.deep_view() =~= listing_of(
                    info.sender@,
                    contract_address@,
                    token_id@,
                    price_v,
                    start_time,
                    end_time,
                ));
                assert(listing_wf(new_listing.deep_view()));
            }
            state.put_listing(new_listing);
            let mut resp = Response::new();
            resp.add_attribute("method", "list_nft".to_owned());
            resp.add_attribute("contract_address", contract_address);
            resp.add_attribute("token_id", token_id);
            resp.add_attribute("seller", info.sender.clone());
            proof {
                assert(resp.deep_view().attributes =~= list_attrs(
                    asset.contract_address@,
                    asset.token_id->Some_0@,
                    info.sender@,
                ));
            }
            Ok(resp)
        },
        AuctionConfig::OfferPrice { .. } => {
            Err(ContractError::Custom { val: "Auction Config Error".to_owned() })
        },
    }
}

/// What the payment router hands back for a payment asset: a native price
/// demands the attached funds to be exactly one coin equal to it and becomes
/// a bank transfer; a fungible price must be an allow-listed token and
/// becomes an allowance pull from the payer.
pub open spec fn payment_outcome(
    allowed: Seq<Seq<char>>,
    funds: Seq<CoinV>,
    asset: PaymentAssetV,
    sender: Seq<char>,
    recipient: Seq<char>,
) -> Result<Seq<EffectV>, ErrorV> {
    match asset {
        PaymentAssetV::Cw20 { contract_address, amount } => {
            if !allowed.contains(contract_address) {
                Err(ErrorV::TokenNotAllowed)
            } else {
                Ok(
                    seq![
                        EffectV::Cw20TransferFrom {
                            contract_address,
                            owner: sender,
                            recipient,
                            amount,
                        },
                    ],
                )
            }
        },
        PaymentAssetV::Native { denom, amount } => {
            if funds.len() == 1 && funds[0] == (CoinV { denom, amount }) {
                Ok(seq![EffectV::BankSend { to_address: recipient, denom, amount }])
            } else {
                Err(ErrorV::InsufficientFunds)
            }
        },
    }
}

/// Routes a payment: derives the transfer effect that moves `asset` from
/// `sender` to `recipient`, enforcing the allow-list for fungible tokens and
/// funds exactness for native payment.
pub fn payment_processing(
    state: &MarketState,
    info: &MessageInfo,
    asset: &PaymentAsset,
    sender: &String,
    recipient: &String,
) -> (r: Result<Vec<EffectMsg>, ContractError>)
    ensures
        match r {
            Ok(msgs) => payment_outcome(
                state@.allowed_tokens,
                info.deep_view().funds,
                asset.deep_view(),
                sender@,
                recipient@,
            ) == Ok::<Seq<EffectV>, ErrorV>(msgs.deep_view()),
            Err(e) => payment_outcome(
                state@.allowed_tokens,
                info.deep_view().funds,
                asset.deep_view(),
                sender@,
                recipient@,
            ) == Err::<Seq<EffectV>, ErrorV>(e.deep_view()),
        },
{
    let mut msgs: Vec<EffectMsg> = Vec::new();
    proof {
        assert(msgs.deep_view() =~= Seq::<EffectV>::empty());
    }
    match asset {
        PaymentAsset::Cw20 { contract_address, amount } => {
            if !state.is_token_allowed(contract_address) {
                return Err(ContractError::TokenNotAllowed);
            }
            push_dv(
                &mut msgs,
                EffectMsg::Cw20TransferFrom {
                    contract_address: contract_address.clone(),
                    owner: sender.clone(),
                    recipient: recipient.clone(),
                    amount: *amount,
                },
            );
            proof {
                assert(msgs.deep_view() =~= seq![
                    EffectV::Cw20TransferFrom {
                        contract_address: contract_address@,
                        owner: sender@,
                        recipient: recipient@,
                        amount: *amount,
                    },
                ]);
            }
            Ok(msgs)
        },
        PaymentAsset::Native { denom, amount } => {
            let funds_ok = info.funds.len() == 1 && info.funds[0].denom == *denom && info.funds[0]
                .amount == *amount;
            proof {
                if info.funds@.len() == 1 {
                    assert(info.deep_view().funds[0] == info.funds@[0].deep_view());
                    if info.funds@[0].denom@ == denom@ && info.funds@[0].amount == *amount {
                        assert(info.deep_view().funds[0] =~= (CoinV {
                            denom: denom@,
                            amount: *amount,
                        }));
                    }
                }
            }
            if !funds_ok {
                return Err(ContractError::InsufficientFunds);
            }
            push_dv(
                &mut msgs,
                EffectMsg::BankSend {
                    to_address: recipient.clone(),
                    denom: denom.clone(),
                    amount: *amount,
                },
            );
            proof {
                assert(msgs.deep_view() =~= seq![
                    EffectV::BankSend { to_address: recipient@, denom: denom@, amount: *amount },
                ]);
            }
            Ok(msgs)
        },
    }
}

/// The attributes of a successful `buy`.
pub open spec fn buy_attrs(coll: Seq<char>, token: Seq<char>, buyer: Seq<char>) -> Seq<
    (Seq<char>, Seq<char>),
> {
    seq![
        ("method"@, "buy"@),
        ("contract_address"@, coll),
        ("token_id"@, token),
        ("buyer"@, buyer),
    ]
}

/// How `buy` relates the state before and after the call to its result. On
/// success the listing is consumed — its key resolves to nothing afterwards —
/// and the response carries, in order, the NFT transfer to the buyer and the
/// payment transfer to the seller. On any error the state is unchanged.
pub open spec fn buy_post(
    pre: StateV,
    post: StateV,
    env: EnvV,
    info: MessageInfoV,
    asset: NftAssetV,
    res: Result<ResponseV, ErrorV>,
) -> bool {
    if asset.token_id is None {
        post == pre && res == Err::<ResponseV, ErrorV>(
            ErrorV::Custom { val: "Token ID is required"@ },
        )
    } else {
        let coll = asset.contract_address;
        let token = asset.token_id->Some_0;
        let k = (coll, token);
        match lookup_listing(pre.listings, k) {
            None => post == pre && res == Err::<ResponseV, ErrorV>(ErrorV::NotFound),
            Some(o) => {
                if info.sender == o.owner {
                    post == pre && res == Err::<ResponseV, ErrorV>(
                        ErrorV::Custom { val: "Owner cannot buy"@ },
                    )
                } else if o.start_time is Some && !expiration_expired(
                    o.start_time->Some_0,
                    env.block,
                ) {
                    post == pre && res == Err::<ResponseV, ErrorV>(
                        ErrorV::Custom { val: "Auction not started"@ },
                    )
                } else if o.end_time is Some && expiration_expired(o.end_time->Some_0, env.block) {
                    post == pre && res == Err::<ResponseV, ErrorV>(
                        ErrorV::Custom { val: "Auction ended"@ },
                    )
                } else {
                    match payment_outcome(
                        pre.allowed_tokens,
                        info.funds,
                        payment_of_asset(o.consideration[0].item),
                        info.sender,
                        o.consideration[0].recipient,
                    ) {
                        Err(e) => post == pre && res == Err::<ResponseV, ErrorV>(e),
                        Ok(pay_msgs) => {
                            &&& res == Ok::<ResponseV, ErrorV>(
                                ResponseV {
                                    messages: seq![
                                        EffectV::Cw721TransferNft {
                                            contract_address: coll,
                                            recipient: info.sender,
                                            token_id: token,
                                        },
                                    ] + pay_msgs,
                                    attributes: buy_attrs(coll, token, info.sender),
                                },
                            )
                            &&& post == (StateV { listings: post.listings, ..pre })
                            &&& listings_wf(post.listings)
                            &&& lookup_listing(post.listings, k) is None
                            &&& forall|k2: (Seq<char>, Seq<char>)|
                                k2 != k ==> #[trigger] lookup_listing(post.listings, k2)
                                    == lookup_listing(pre.listings, k2)
                            &&& post.listings.len() == pre.listings.len() - 1
                        },
                    }
                }
            },
        }
    }
}

/// Buys a listed NFT. All checks pass before the listing is consumed; the
/// returned effects (NFT to buyer, payment to seller) are executed by the
/// host atomically with the state change.
pub fn execute_buy(state: &mut MarketState, env: &Env, info: &MessageInfo, asset: NftAsset) -> (r:
    Result<Response, ContractError>)
    requires
        state_wf(old(state)@),
    ensures
        state_wf(final(state)@),
        buy_post(
            old(state)@,
            final(state)@,
            env.deep_view(),
            info.deep_view(),
            asset.deep_view(),
            result_dv(r),
        ),
{
    let contract_address = asset.contract_address.clone();
    let token_id = match asset.token_id {
        None => {
            return Err(ContractError::Custom { val: "Token ID is required".to_owned() });
        },
        Some(t) => t,
    };
    let ghost k = (contract_address@, token_id@);
    let listing = match state.get_listing(&contract_address, &token_id) {
        None => {
            return Err(ContractError::NotFound);
        },
        Some(l) => l.clone(),
    };
    proof {
        assert(lookup_listing(state@.listings, k) == Some(listing.deep_view()));
        assert(listing_wf(listing.deep_view())) by {
            assert(has_listing(state@.listings, k));
            let i = crate::state::listing_index(state@.listings, k);
            assert(listing_wf(state@.listings[i]));
        }
    }
    if info.sender == listing.owner {
        return Err(ContractError::Custom { val: "Owner cannot buy".to_owned() });
    }
    match &listing.start_time {
        Some(st) => {
            if !st.is_expired(&env.block) {
                return Err(ContractError::Custom { val: "Auction not started".to_owned() });
            }
        },
        None => {},
    }
    match &listing.end_time {
        Some(et) => {
            if et.is_expired(&env.block) {
                return Err(ContractError::Custom { val: "Auction ended".to_owned() });
            }
        },
        None => {},
    }
    proof {
        assert(listing.consideration@.len() == 1);
    }
    let payment_asset = PaymentAsset::from_asset(listing.consideration[0].item.clone());
    let pay_msgs = match payment_processing(
        state,
        info,
        &payment_asset,
        &info.sender,
        &listing.consideration[0].recipient,
    ) {
        Err(e) => {
            return Err(e);
        },
        Ok(m) => m,
    };
    state.remove_listing(&contract_address, &token_id);
    let mut messages: Vec<EffectMsg> = Vec::new();
    proof {
        assert(messages.deep_view() =~= Seq::<EffectV>::empty());
    }
    push_dv(
        &mut messages,
        EffectMsg::Cw721TransferNft {
            contract_address: contract_address.clone(),
            recipient: info.sender.clone(),
            token_id: token_id.clone(),
        },
    );
    let ghost m0 = messages.deep_view();
    let ghost pm = pay_msgs.deep_view();
    let mut pay_msgs = pay_msgs;
    let ghost mev0 = messages@;
    let ghost pev0 = pay_msgs@;
    messages.append(&mut pay_msgs);
    proof {
        assert(messages@ == mev0 + pev0);
        assert forall|j: int| 0 <= j < messages@.len() implies messages.deep_view()[j] == (m0
            + pm)[j] by {
            if j < mev0.len() {
                assert(messages@[j] == mev0[j]);
                assert(m0[j] == mev0[j].deep_view());
            } else {
                assert(messages@[j] == pev0[j - mev0.len()]);
                assert(pm[j - mev0.len()] == pev0[j - mev0.len()].deep_view());
            }
        }
        assert(messages.deep_view() =~= m0 + pm);
    }
    let mut resp = Response { messages, attributes: Vec::new() };
    proof {
        assert(resp.deep_view().attributes =~= Seq::<(Seq<char>, Seq<char>)>::empty());
    }
    resp.add_attribute("method", "buy".to_owned());
    resp.add_attribute("contract_address", contract_address);
    resp.add_attribute("token_id", token_id);
    resp.add_attribute("buyer", info.sender.clone());
    proof {
        assert(resp.deep_view().attributes =~= buy_attrs(
            asset.contract_address@,
            asset.token_id->Some_0@,
            info.sender@,
        ));
        assert(resp.deep_view().messages =~= seq![
            EffectV::Cw721TransferNft {
                contract_address: asset.contract_address@,
                recipient: info.deep_view().sender,
                token_id: asset.token_id->Some_0@,
            },
        ] + pm);
    }
    Ok(resp)
}

/// The attributes of a successful `cancel`; the time is rendered in decimal
/// nanoseconds.
pub open spec fn cancel_attrs(coll: Seq<char>, token: Seq<char>, time: u64) -> Seq<
    (Seq<char>, Seq<char>),
> {
    seq![
        ("method"@, "cancel"@),
        ("contract_address"@, coll),
        ("token_id"@, token),
        ("cancelled_at"@, dec_chars(time as int)),
    ]
}

/// How `cancel` relates the state before and after the call to its result:
/// while a listing has not expired only its seller may cancel it, but anyone
/// may cancel an expired one; cancelling removes the listing and moves no
/// assets.
pub open spec fn cancel_post(
    pre: StateV,
    post: StateV,
    env: EnvV,
    info: MessageInfoV,
    asset: NftAssetV,
    res: Result<ResponseV, ErrorV>,
) -> bool {
    if asset.token_id is None {
        post == pre && res == Err::<ResponseV, ErrorV>(
            ErrorV::Custom { val: "Token ID is required"@ },
        )
    } else {
        let coll = asset.contract_address;
        let token = asset.token_id->Some_0;
        let k = (coll, token);
        match lookup_listing(pre.listings, k) {
            None => post == pre && res == Err::<ResponseV, ErrorV>(ErrorV::NotFound),
            Some(o) => {
                if !order_expired(o, env.block) && o.owner != info.sender {
                    post == pre && res == Err::<ResponseV, ErrorV>(ErrorV::Unauthorized)
                } else {
                    &&& res == Ok::<ResponseV, ErrorV>(
                        ResponseV {
                            messages: Seq::empty(),
                            attributes: cancel_attrs(coll, token, env.block.time),
                        },
                    )
                    &&& post == (StateV { listings: post.listings, ..pre })
                    &&& listings_wf(post.listings)
                    &&& lookup_listing(post.listings, k) is None
                    &&& forall|k2: (Seq<char>, Seq<char>)|
                        k2 != k ==> #[trigger] lookup_listing(post.listings, k2) == lookup_listing(
                            pre.listings,
                            k2,
                        )
                    &&& post.listings.len() == pre.listings.len() - 1
                }
            },
        }
    }
}

/// Cancels a listing: the seller at any time, anyone once it has expired.
pub fn execute_cancel(
    state: &mut MarketState,
    env: &Env,
    info: &MessageInfo,
    asset: NftAsset,
) -> (r: Result<Response, ContractError>)
    requires
        state_wf(old(state)@),
    ensures
        state_wf(final(state)@),
        cancel_post(
            old(state)@,
            final(state)@,
            env.deep_view(),
            info.deep_view(),
            asset.deep_view(),
            result_dv(r),
        ),
{
    let contract_address = asset.contract_address.clone();
    let token_id = match asset.token_id {
        None => {
            return Err(ContractError::Custom { val: "Token ID is required".to_owned() });
        },
        Some(t) => t,
    };
    match state.get_listing(&contract_address, &token_id) {
        None => {
            return Err(ContractError::NotFound);
        },
        Some(listing) => {
            if !listing.is_expired(&env.block) && !(listing.owner == info.sender) {
                return Err(ContractError::Unauthorized);
            }
        },
    }
    state.remove_listing(&contract_address, &token_id);
    let mut resp = Response::new();
    resp.add_attribute("method", "cancel".to_owned());
    resp.add_attribute("contract_address", contract_address);
    resp.add_attribute("token_id", token_id);
    resp.add_attribute("cancelled_at", u64_to_string(env.block.time));
    proof {
        assert(resp.deep_view().attributes =~= cancel_attrs(
            asset.contract_address@,
            asset.token_id->Some_0@,
            env.deep_view().block.time,
        ));
        assert(resp.deep_view().messages =~= Seq::<EffectV>::empty());
    }
    Ok(resp)
}

/// How `allow_payment_token` relates the state before and after the call to
/// its result: only the configured owner may call it, and the address is
/// appended to the allow-list unless already present.
pub open spec fn allow_token_post(
    pre: StateV,
    post: StateV,
    info: MessageInfoV,
    contract_address: Seq<char>,
    res: Result<ResponseV, ErrorV>,
) -> bool {
    if info.sender != pre.config.owner {
        post == pre && res == Err::<ResponseV, ErrorV>(ErrorV::Unauthorized)
    } else {
        &&& post == (StateV {
            allowed_tokens: if pre.allowed_tokens.contains(contract_address) {
                pre.allowed_tokens
            } else {
                pre.allowed_tokens.push(contract_address)
            },
            ..pre
        })
        &&& res == Ok::<ResponseV, ErrorV>(
            ResponseV {
                messages: Seq::empty(),
                attributes: seq![
                    ("action"@, "allow_payment_token"@),
                    ("contract_address"@, contract_address),
                ],
            },
        )
    }
}

/// Admits a fungible token as payment; owner-only, idempotent.
pub fn execute_allow_payment_token(
    state: &mut MarketState,
    info: &MessageInfo,
    contract_address: String,
) -> (r: Result<Response, ContractError>)
    requires
        state_wf(old(state)@),
    ensures
        state_wf(final(state)@),
        allow_token_post(
            old(state)@,
            final(state)@,
            info.deep_view(),
            contract_address@,
            result_dv(r),
        ),
{
    if !(info.sender == state.config().owner) {
        return Err(ContractError::Unauthorized);
    }
    let ghost ca = contract_address@;
    let mut resp = Response::new();
    resp.add_attribute("action", "allow_payment_token".to_owned());
    resp.add_attribute("contract_address", contract_address.clone());
    state.allow_token(contract_address);
    proof {
        assert(resp.deep_view().attributes =~= seq![
            ("action"@, "allow_payment_token"@),
            ("contract_address"@, ca),
        ]);
        assert(resp.deep_view().messages =~= Seq::<EffectV>::empty());
    }
    Ok(resp)
}

/// The effect message that spawns a collection.
pub open spec fn spawn_effect(
    code_id: u64,
    reply_id: u64,
    contract: Seq<char>,
    name: Seq<char>,
    symbol: Seq<char>,
) -> EffectV {
    EffectV::InstantiateCollection {
        code_id,
        reply_id,
        admin: contract,
        label: "create collection"@,
        name,
        symbol,
        minter: contract,
    }
}

/// How `create_collection` relates the state before and after the call to
/// its result: the collection counter advances, the caller is recorded as
/// the requester under the new reply id, and the response carries the spawn
/// effect whose completion the host reports back under that id.
pub open spec fn create_collection_post(
    pre: StateV,
    post: StateV,
    env: EnvV,
    info: MessageInfoV,
    name: Seq<char>,
    symbol: Seq<char>,
    res: Result<ResponseV, ErrorV>,
) -> bool {
    let id = (pre.collection_id + 1) as u64;
    &&& post.config == pre.config
    &&& post.listings == pre.listings
    &&& post.allowed_tokens == pre.allowed_tokens
    &&& post.collections == pre.collections
    &&& post.collection_id == id
    &&& pending_keys_unique(post.pending_collections)
    &&& pending_get(post.pending_collections, id) == Some(info.sender)
    &&& forall|id2: u64|
        id2 != id ==> #[trigger] pending_get(post.pending_collections, id2) == pending_get(
            pre.pending_collections,
            id2,
        )
    &&& res == Ok::<ResponseV, ErrorV>(
        ResponseV {
            messages: seq![
                spawn_effect(pre.config.collection_code_id, id, env.contract_address, name, symbol),
            ],
            attributes: seq![
                ("method"@, "create_collection"@),
                ("name"@, name),
                ("symbol"@, symbol),
                ("minter"@, info.sender),
            ],
        },
    )
}

/// Requests a new collection: emits the spawn effect and records the caller
/// as the pending requester under the new reply id.
pub fn execute_create_collection(
    state: &mut MarketState,
    env: &Env,
    info: &MessageInfo,
    name: String,
    symbol: String,
) -> (r: Result<Response, ContractError>)
    requires
        state_wf(old(state)@),
        old(state)@.collection_id < u64::MAX,
    ensures
        state_wf(final(state)@),
        create_collection_post(
            old(state)@,
            final(state)@,
            env.deep_view(),
            info.deep_view(),
            name@,
            symbol@,
            result_dv(r),
        ),
{
    let code_id = state.config().collection_code_id;
    let reply_id = state.next_collection_id();
    state.record_pending(reply_id, info.sender.clone());
    let mut resp = Response::new();
    resp.add_message(
        EffectMsg::InstantiateCollection {
            code_id,
            reply_id,
            admin: env.contract_address.clone(),
            label: "create collection".to_owned(),
            name: name.clone(),
            symbol: symbol.clone(),
            minter: env.contract_address.clone(),
        },
    );
    resp.add_attribute("method", "create_collection".to_owned());
    resp.add_attribute("name", name);
    resp.add_attribute("symbol", symbol);
    resp.add_attribute("minter", info.sender.clone());
    proof {
        assert(resp.deep_view().messages =~= seq![
            spawn_effect(
                old(state)@.config.collection_code_id,
                (old(state)@.collection_id + 1) as u64,
                env.contract_address@,
                name@,
                symbol@,
            ),
        ]);
        assert(resp.deep_view().attributes =~= seq![
            ("method"@, "create_collection"@),
            ("name"@, name@),
            ("symbol"@, symbol@),
            ("minter"@, info.sender@),
        ]);
    }
    Ok(resp)
}

/// How `mint_nft` relates the state to its result: only the recorded
/// requester of a collection may mint in it; the state never changes.
pub open spec fn mint_nft_post(
    s: StateV,
    info: MessageInfoV,
    contract_address: Seq<char>,
    token_id: Seq<char>,
    token_uri: Seq<char>,
    res: Result<ResponseV, ErrorV>,
) -> bool {
    match assoc_get(s.collections, contract_address) {
        None => res == Err::<ResponseV, ErrorV>(ErrorV::Unauthorized),
        Some(minter) => {
            if minter != info.sender {
                res == Err::<ResponseV, ErrorV>(ErrorV::Unauthorized)
            } else {
                res == Ok::<ResponseV, ErrorV>(
                    ResponseV {
                        messages: seq![
                            EffectV::Cw721Mint {
                                contract_address,
                                token_id,
                                owner: info.sender,
                                token_uri,
                            },
                        ],
                        attributes: seq![
                            ("action"@, "mint_nft"@),
                            ("minter"@, info.sender),
                            ("token_id"@, token_id),
                            ("token_uri"@, token_uri),
                        ],
                    },
                )
            }
        },
    }
}

/// Mints an NFT in a collection the caller created; the mint effect is
/// executed by the host against the collection contract.
pub fn execute_mint_nft(
    state: &MarketState,
    info: &MessageInfo,
    contract_address: String,
    token_id: String,
    token_uri: String,
) -> (r: Result<Response, ContractError>)
    requires
        state_wf(state@),
    ensures
        mint_nft_post(
            state@,
            info.deep_view(),
            contract_address@,
            token_id@,
            token_uri@,
            result_dv(r),
        ),
{
    match state.collection_minter(&contract_address) {
        None => {
            return Err(ContractError::Unauthorized);
        },
        Some(minter) => {
            if !(*minter == info.sender) {
                return Err(ContractError::Unauthorized);
            }
        },
    }
    let mut resp = Response::new();
    resp.add_message(
        EffectMsg::Cw721Mint {
            contract_address,
            token_id: token_id.clone(),
            owner: info.sender.clone(),
            token_uri: token_uri.clone(),
        },
    );
    resp.add_attribute("action", "mint_nft".to_owned());
    resp.add_attribute("minter", info.sender.clone());
    resp.add_attribute("token_id", token_id);
    resp.add_attribute("token_uri", token_uri);
    proof {
        assert(resp.deep_view().attributes =~= seq![
            ("action"@, "mint_nft"@),
            ("minter"@, info.sender@),
            ("token_id"@, token_id@),
            ("token_uri"@, token_uri@),
        ]);
    }
    Ok(resp)
}

} // verus!
