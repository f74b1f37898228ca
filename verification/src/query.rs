//! Read-only queries over the marketplace state.

use vstd::prelude::*;
use crate::error::{ContractError, ErrorV};
use crate::state::{MarketState, state_wf, lookup_listing, page_post};
use crate::structs::{ListingsResponse, Order};

verus! {

/// The effective page size: the requested limit, capped at thirty, which is
/// also the default.
pub open spec fn page_limit(limit: Option<u32>) -> int {
    match limit {
        Some(l) => if l < 30 {
            l as int
        } else {
            30
        },
        None => 30,
    }
}

/// The listing stored under `(contract_address, token_id)`; absent listings
/// answer `NotFound`.
pub fn query_listing(state: &MarketState, contract_address: String, token_id: String) -> (r: Result<
    Order,
    ContractError,
>)
    requires
        state_wf(state@),
    ensures
        match r {
            Ok(o) => lookup_listing(state@.listings, (contract_address@, token_id@)) == Some(
                o.deep_view(),
            ),
            Err(e) => lookup_listing(state@.listings, (contract_address@, token_id@)) is None
                && e.deep_view() == ErrorV::NotFound,
        },
{
    match state.get_listing(&contract_address, &token_id) {
        Some(o) => Ok(o.clone()),
        None => Err(ContractError::NotFound),
    }
}

/// A page of the listings of one collection, in ascending token order,
/// starting strictly after `start_after`.
pub fn query_listings_by_contract_address(
    state: &MarketState,
    contract_address: String,
    start_after: Option<String>,
    limit: Option<u32>,
) -> (r: Result<ListingsResponse, ContractError>)
    requires
        state_wf(state@),
    ensures
        match r {
            Ok(resp) => page_post(
                state@.listings,
                contract_address@,
                start_after.deep_view(),
                page_limit(limit),
                resp.deep_view(),
            ),
            Err(_) => false,
        },
{
    let lim: usize = match limit {
        Some(l) => if l < 30 {
            l as usize
        } else {
            30
        },
        None => 30,
    };
    let listings = state.listings_page(&contract_address, &start_after, lim);
    Ok(ListingsResponse { listings })
}

} // verus!
