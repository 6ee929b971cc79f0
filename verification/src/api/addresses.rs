//! Address-derivation requests and responses.

use vstd::prelude::*;
use vstd::string::StringExecFns;

verus! {

/// A machine-readable failure: a message for people and a code for
/// programs.
pub struct ErrorResponse {
    pub error: String,
    pub code: String,
}

impl ErrorResponse {
    pub fn new(error: &str, code: &str) -> (r: ErrorResponse)
        ensures
            r.error@ == error@,
            r.code@ == code@,
    {
        ErrorResponse { error: error.to_owned(), code: code.to_owned() }
    }
}

/// A derivation request common to the account-style networks.
pub struct AddressRequest {
    pub address_n: Vec<u32>,
    pub show_display: Option<bool>,
    pub curve: Option<String>,
}

/// The derived address.
pub struct AddressResponse {
    pub address: String,
}

/// A derivation request for a coin-scripted network: the coin and script
/// type pick the encoding.
pub struct UtxoAddressRequest {
    pub address_n: Vec<u32>,
    pub coin: String,
    pub script_type: Option<String>,
    pub show_display: Option<bool>,
}

/// A derivation request with the network's testnet switch.
pub struct ThorchainAddressRequest {
    pub address_n: Vec<u32>,
    pub show_display: Option<bool>,
    pub testnet: Option<bool>,
}

} // verus!
