//! The messages a caller can send, and the typed answers of the query
//! entry point. The host decodes wire messages into these values and encodes
//! the answers back.

use vstd::prelude::*;
use crate::structs::{AuctionConfig, Config, Expiration, ListingsResponse, NftAsset, Order};

verus! {

/// Initialization parameters: the admin owner and the code id for spawning
/// collections.
pub struct InstantiateMsg {
    pub owner: String,
    pub collection_code_id: u64,
}

/// A state-changing call.
pub enum ExecuteMsg {
    /// List an NFT for sale.
    ListNft { asset: NftAsset, listing_config: AuctionConfig },
    /// Buy a listed NFT.
    Buy { asset: NftAsset },
    /// Cancel a listed NFT.
    Cancel { asset: NftAsset },
    /// Spawn a new collection owned by the caller.
    CreateCollection { name: String, symbol: String },
    /// Mint a new NFT in a collection the caller created.
    MintNft { contract_address: String, token_id: String, token_uri: String },
    /// Admit a fungible token as payment (admin only).
    AllowPaymentToken { contract_address: String },
}

/// A migration request; nothing is migrated.
pub struct MigrateMsg {}

/// A read-only call.
pub enum QueryMsg {
    /// The admin configuration.
    Config {},
    /// A page of the listings of one collection.
    ListingsByContractAddress {
        contract_address: String,
        start_after: Option<String>,
        limit: Option<u32>,
    },
    /// The listing of one token.
    Listing { contract_address: String, token_id: String },
}

/// The typed answer to a [`QueryMsg`]; the host encodes it for the wire.
pub enum QueryAnswer {
    Config(Config),
    Listings(ListingsResponse),
    Listing(Order),
}

/// What the NFT ledger answered about the asset being listed: the owner of
/// the token and the expiry of the approval granted to this contract, each
/// `None` where the query failed. `list` decides on these answers; the host
/// performs the queries.
pub struct NftQueryResponse {
    pub owner_of: Option<String>,
    pub approval_expires: Option<Expiration>,
}

} // verus!
