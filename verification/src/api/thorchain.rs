//! Thorchain address requests and responses.

use vstd::prelude::*;

verus! {

/// A derivation request addressed by raw path components.
pub struct ThorchainAddressRequest {
    pub address_n: Vec<u32>,
    pub show_display: Option<bool>,
    pub testnet: Option<bool>,
}

/// The derived address.
pub struct ThorchainAddressResponse {
    pub address: String,
}

} // verus!
