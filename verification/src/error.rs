//! Typed errors of the settlement core.
//!
//! Every operation is all-or-nothing: an error aborts the call and the state
//! is left exactly as it was.

use vstd::prelude::*;

verus! {

/// Error returned by the marketplace operations.
#[derive(Debug)]
pub enum ContractError {
    /// Ownership, approval or admin check failed.
    Unauthorized,
    /// No listing (or registry entry) exists under the requested key.
    NotFound,
    /// Malformed price or time window in a listing configuration.
    InvalidConfig,
    /// The attached native funds do not exactly equal the listing price.
    InsufficientFunds,
    /// A fungible payment token that is not on the admin allow-list.
    TokenNotAllowed,
    /// Listing-state or time-window violation, with a descriptive reason.
    Custom { val: String },
}

/// Mathematical image of [`ContractError`]: the reason string as a character
/// sequence.
pub enum ErrorV {
    Unauthorized,
    NotFound,
    InvalidConfig,
    InsufficientFunds,
    TokenNotAllowed,
    Custom { val: Seq<char> },
}

impl DeepView for ContractError {
    type V = ErrorV;

    open spec fn deep_view(&self) -> ErrorV {
        match self {
            ContractError::Unauthorized => ErrorV::Unauthorized,
            ContractError::NotFound => ErrorV::NotFound,
            ContractError::InvalidConfig => ErrorV::InvalidConfig,
            ContractError::InsufficientFunds => ErrorV::InsufficientFunds,
            ContractError::TokenNotAllowed => ErrorV::TokenNotAllowed,
            ContractError::Custom { val } => ErrorV::Custom { val: val@ },
        }
    }
}

impl ContractError {
    /// A human-readable reason, for hosts that surface a single string.
    pub fn reason(&self) -> (r: String)
        ensures
            r@ == (match self.deep_view() {
                ErrorV::Unauthorized => "Unauthorized"@,
                ErrorV::NotFound => "Not found"@,
                ErrorV::InvalidConfig => "Invalid listing config"@,
                ErrorV::InsufficientFunds => "Insufficient funds"@,
                ErrorV::TokenNotAllowed => "Payment token not allowed"@,
                ErrorV::Custom { val } => val,
            }),
    {
        match self {
            ContractError::Unauthorized => "Unauthorized".to_owned(),
            ContractError::NotFound => "Not found".to_owned(),
            ContractError::InvalidConfig => "Invalid listing config".to_owned(),
            ContractError::InsufficientFunds => "Insufficient funds".to_owned(),
            ContractError::TokenNotAllowed => "Payment token not allowed".to_owned(),
            ContractError::Custom { val } => val.clone(),
        }
    }
}

} // verus!
