//! The entry points of the settlement core: initialization, the execute and
//! query dispatchers, migration, and the completion callback of a collection
//! spawn. The host decodes wire messages, performs the NFT-ledger queries
//! that `list` decides on, and persists the state transactionally around
//! each call.

use vstd::prelude::*;
use crate::context::{Env, MessageInfo};
use crate::error::{ContractError, ErrorV};
use crate::execute::{
    execute_allow_payment_token, execute_buy, execute_cancel, execute_create_collection,
    execute_list_nft, execute_mint_nft, allow_token_post, buy_post, cancel_post,
    create_collection_post, list_nft_post, mint_nft_post,
};
use crate::msg::{ExecuteMsg, InstantiateMsg, MigrateMsg, NftQueryResponse, QueryAnswer, QueryMsg};
use crate::query::{page_limit, query_listing, query_listings_by_contract_address};
use crate::response::{EffectV, Response, ResponseV, result_dv};
use crate::state::{
    MarketState, StateV, state_wf, assoc_get, assoc_keys_unique, lookup_listing, page_post,
    pending_get, pending_keys_unique,
};
use crate::structs::{Config, ConfigV};

verus! {

/// Sets up a fresh marketplace: the given owner and collection code id, and
/// nothing listed, allowed or registered.
pub fn instantiate(info: &MessageInfo, msg: InstantiateMsg) -> (r: (MarketState, Response))
    ensures
        state_wf(r.0@),
        r.0@ == (StateV {
            config: ConfigV { owner: msg.owner@, collection_code_id: msg.collection_code_id },
            listings: Seq::empty(),
            allowed_tokens: Seq::empty(),
            collections: Seq::empty(),
            pending_collections: Seq::empty(),
            collection_id: 0,
        }),
        r.1.deep_view() == (ResponseV {
            messages: Seq::empty(),
            attributes: seq![("method"@, "instantiate"@), ("owner"@, info.sender@)],
        }),
{
    let state = MarketState::new(
        Config { owner: msg.owner, collection_code_id: msg.collection_code_id },
    );
    let mut resp = Response::new();
    resp.add_attribute("method", "instantiate".to_owned());
    resp.add_attribute("owner", info.sender.clone());
    proof {
        assert(resp.deep_view().attributes =~= seq![
            ("method"@, "instantiate"@),
            ("owner"@, info.sender@),
        ]);
        assert(resp.deep_view() =~= (ResponseV {
            messages: Seq::empty(),
            attributes: seq![("method"@, "instantiate"@), ("owner"@, info.sender@)],
        }));
    }
    (state, resp)
}

/// Dispatches a state-changing call. For `ListNft`, `nft_query` must carry
/// the NFT ledger's answers about the asset being listed; the other calls
/// ignore it.
pub fn execute(
    state: &mut MarketState,
    env: &Env,
    info: &MessageInfo,
    msg: ExecuteMsg,
    nft_query: &NftQueryResponse,
) -> (r: Result<Response, ContractError>)
    requires
        state_wf(old(state)@),
        msg is CreateCollection ==> old(state)@.collection_id < u64::MAX,
    ensures
        state_wf(final(state)@),
        match msg {
            ExecuteMsg::ListNft { asset, listing_config } => list_nft_post(
                old(state)@,
                final(state)@,
                info.deep_view(),
                asset.deep_view(),
                listing_config.deep_view(),
                nft_query.owner_of.deep_view(),
                nft_query.approval_expires,
                result_dv(r),
            ),
            ExecuteMsg::Buy { asset } => buy_post(
                old(state)@,
                final(state)@,
                env.deep_view(),
                info.deep_view(),
                asset.deep_view(),
                result_dv(r),
            ),
            ExecuteMsg::Cancel { asset } => cancel_post(
                old(state)@,
                final(state)@,
                env.deep_view(),
                info.deep_view(),
                asset.deep_view(),
                result_dv(r),
            ),
            ExecuteMsg::CreateCollection { name, symbol } => create_collection_post(
                old(state)@,
                final(state)@,
                env.deep_view(),
                info.deep_view(),
                name@,
                symbol@,
                result_dv(r),
            ),
            ExecuteMsg::MintNft { contract_address, token_id, token_uri } => final(state)@ == old(
                state,
            )@ && mint_nft_post(
                old(state)@,
                info.deep_view(),
                contract_address@,
                token_id@,
                token_uri@,
                result_dv(r),
            ),
            ExecuteMsg::AllowPaymentToken { contract_address } => allow_token_post(
                old(state)@,
                final(state)@,
                info.deep_view(),
                contract_address@,
                result_dv(r),
            ),
        },
{
    match msg {
        ExecuteMsg::ListNft { asset, listing_config } => {
            execute_list_nft(state, info, asset, listing_config, nft_query)
        },
        ExecuteMsg::Buy { asset } => execute_buy(state, env, info, asset),
        ExecuteMsg::Cancel { asset } => execute_cancel(state, env, info, asset),
        ExecuteMsg::CreateCollection { name, symbol } => {
            execute_create_collection(state, env, info, name, symbol)
        },
        ExecuteMsg::MintNft { contract_address, token_id, token_uri } => {
            execute_mint_nft(state, info, contract_address, token_id, token_uri)
        },
        ExecuteMsg::AllowPaymentToken { contract_address } => {
            execute_allow_payment_token(state, info, contract_address)
        },
    }
}

/// Migration entry point: nothing to migrate, an empty response.
pub fn migrate(_msg: MigrateMsg) -> (r: Response)
    ensures
        r.deep_view() == (ResponseV { messages: Seq::empty(), attributes: Seq::empty() }),
{
    Response::new()
}

/// How the collection-spawn completion relates the state before and after
/// the callback to its result: the pending record under `reply_id` is
/// promoted to a collection-registry entry for the spawned contract.
pub open spec fn reply_post(
    pre: StateV,
    post: StateV,
    reply_id: u64,
    collection_contract: Seq<char>,
    res: Result<ResponseV, ErrorV>,
) -> bool {
    match pending_get(pre.pending_collections, reply_id) {
        None => post == pre && res == Err::<ResponseV, ErrorV>(ErrorV::NotFound),
        Some(minter) => {
            &&& post.config == pre.config
            &&& post.listings == pre.listings
            &&& post.allowed_tokens == pre.allowed_tokens
            &&& post.collection_id == pre.collection_id
            &&& pending_keys_unique(post.pending_collections)
            &&& pending_get(post.pending_collections, reply_id) is None
            &&& forall|id2: u64|
                id2 != reply_id ==> #[trigger] pending_get(post.pending_collections, id2)
                    == pending_get(pre.pending_collections, id2)
            &&& assoc_keys_unique(post.collections)
            &&& assoc_get(post.collections, collection_contract) == Some(minter)
            &&& forall|k2: Seq<char>|
                k2 != collection_contract ==> #[trigger] assoc_get(post.collections, k2)
                    == assoc_get(pre.collections, k2)
            &&& res == Ok::<ResponseV, ErrorV>(
                ResponseV {
                    messages: Seq::empty(),
                    attributes: seq![
                        ("action"@, "create_collection_reply"@),
                        ("collection_contract"@, collection_contract),
                        ("minter"@, minter),
                    ],
                },
            )
        },
    }
}

/// Handles the completion of a collection spawn: the host reports the new
/// contract's address under the reply id issued by `create_collection`, and
/// the pending requester becomes the collection's recorded minter. An
/// unknown reply id answers `NotFound` rather than aborting.
pub fn reply(state: &mut MarketState, reply_id: u64, collection_contract: String) -> (r: Result<
    Response,
    ContractError,
>)
    requires
        state_wf(old(state)@),
    ensures
        state_wf(final(state)@),
        reply_post(old(state)@, final(state)@, reply_id, collection_contract@, result_dv(r)),
{
    let minter = match state.pending_requester(reply_id) {
        None => {
            return Err(ContractError::NotFound);
        },
        Some(m) => m.clone(),
    };
    state.take_pending(reply_id);
    state.register_collection(collection_contract.clone(), minter.clone());
    let mut resp = Response::new();
    resp.add_attribute("action", "create_collection_reply".to_owned());
    resp.add_attribute("collection_contract", collection_contract);
    resp.add_attribute("minter", minter);
    proof {
        assert(resp.deep_view().messages =~= Seq::<EffectV>::empty());
        assert(resp.deep_view().attributes =~= seq![
            ("action"@, "create_collection_reply"@),
            ("collection_contract"@, collection_contract@),
            ("minter"@, pending_get(old(state)@.pending_collections, reply_id)->Some_0),
        ]);
    }
    Ok(resp)
}

/// Dispatches a read-only call to a typed answer; the host encodes it.
pub fn query(state: &MarketState, msg: QueryMsg) -> (r: Result<QueryAnswer, ContractError>)
    requires
        state_wf(state@),
    ensures
        match msg {
            QueryMsg::Config {  } => match r {
                Ok(a) => a is Config && a->Config_0.deep_view() == state@.config,
                Err(_) => false,
            },
            QueryMsg::Listing { contract_address, token_id } => match r {
                Ok(a) => a is Listing && lookup_listing(
                    state@.listings,
                    (contract_address@, token_id@),
                ) == Some(a->Listing_0.deep_view()),
                Err(e) => lookup_listing(state@.listings, (contract_address@, token_id@)) is None
                    && e.deep_view() == ErrorV::NotFound,
            },
            QueryMsg::ListingsByContractAddress { contract_address, start_after, limit } => match r {
                Ok(a) => a is Listings && page_post(
                    state@.listings,
                    contract_address@,
                    start_after.deep_view(),
                    page_limit(limit),
                    a->Listings_0.deep_view(),
                ),
                Err(_) => false,
            },
        },
{
    match msg {
        QueryMsg::Config {  } => Ok(QueryAnswer::Config(state.config().clone())),
        QueryMsg::ListingsByContractAddress { contract_address, start_after, limit } => {
            match query_listings_by_contract_address(state, contract_address, start_after, limit) {
                Ok(resp) => Ok(QueryAnswer::Listings(resp)),
                Err(e) => Err(e),
            }
        },
        QueryMsg::Listing { contract_address, token_id } => {
            match query_listing(state, contract_address, token_id) {
                Ok(o) => Ok(QueryAnswer::Listing(o)),
                Err(e) => Err(e),
            }
        },
    }
}

} // verus!
