//! Client pairing records.

use vstd::prelude::*;

verus! {

/// One paired client application.
pub struct PairingInfo {
    pub name: String,
    pub url: String,
    pub image_url: String,
    pub added_on: Option<u64>,
}

/// The key a paired client authenticates with.
pub struct AuthResponse {
    pub api_key: String,
}

} // verus!
