//! The messages a collection is driven by, and the response shapes its
//! read operations return.

use vstd::prelude::*;

use crate::state::CollectionInfo;
use crate::types::{ConsumptionUnitData, Denom};

verus! {

/// The creation call's payload.
#[derive(Debug)]
pub struct Cw721InstantiateMsg<TCollectionExtensionMsg> {
    /// Name of the collection.
    pub name: String,
    /// Symbol of the collection.
    pub symbol: String,
    /// Collection-level configuration payload.
    pub collection_info_extension: TCollectionExtensionMsg,
    /// The identity allowed to create tokens; the creation call's sender
    /// when absent.
    pub minter: Option<String>,
    /// The identity allowed to update collection metadata; the creation
    /// call's sender when absent.
    pub creator: Option<String>,
}

/// Collection-level configuration carried by the creation call.
#[derive(Debug)]
pub struct ConsumptionUnitCollectionExtension {
    pub settlement_token: Denom,
    pub native_token: Denom,
    /// Address of the price oracle queried for floor prices.
    pub price_oracle: String,
}

/// The creation call's payload for this collection.
pub type InstantiateMsg = Cw721InstantiateMsg<ConsumptionUnitCollectionExtension>;

/// The mutation calls.
#[derive(Debug)]
pub enum ExecuteMsg {
    /// Creates a token; only the collection's minter may send this.
    Mint {
        /// Unique identifier of the token.
        token_id: String,
        /// The identity that will own the token.
        owner: String,
        /// External metadata reference; not interpreted by this core.
        token_uri: Option<String>,
        /// The token's payload.
        extension: ConsumptionUnitData,
    },
    /// Deletes a token; only its owner may send this.
    Burn { token_id: String },
    /// Updates a token's payload; only its owner may send this.
    UpdateNftInfo { token_id: String, extension: ConsumptionUnitExtensionUpdate },
}

/// The payload updates a token owner can request.
#[derive(Debug)]
pub enum ConsumptionUnitExtensionUpdate {
    /// Moves the token to another commitment pool; allowed only before the
    /// token is selected.
    UpdatePool { new_commitment_tier_id: u16 },
}

/// The migration call; a state-version bump with no effect on records.
#[derive(Debug)]
pub enum MigrateMsg {
    Migrate {},
}

/// Answer to the owner query.
#[derive(Debug)]
pub struct OwnerOfResponse {
    /// Owner of the token.
    pub owner: String,
}

/// Answer to the token-count query.
#[derive(Debug)]
pub struct NumTokensResponse {
    pub count: u64,
}

/// Answer to the token-info query.
#[derive(Debug)]
pub struct NftInfoResponse<TNftExtension> {
    /// The token's payload.
    pub extension: TNftExtension,
}

/// Answer to the paginated listing queries.
#[derive(Debug)]
pub struct TokensResponse {
    /// Token identifiers in ascending lexicographic order; the last one is
    /// the cursor for the next page.
    pub tokens: Vec<String>,
}

/// Answer to the contract-info query: metadata and configuration together.
#[derive(Debug)]
pub struct ContractInfoResponse<TCollectionConfig> {
    pub collection_info: CollectionInfo,
    pub collection_config: TCollectionConfig,
}

} // verus!
