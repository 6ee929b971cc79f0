//! System-operation requests and responses.

use vstd::prelude::*;
use vstd::string::StringExecFns;

verus! {

pub struct PingRequest {
    pub message: Option<String>,
    pub button_protection: Option<bool>,
    pub passphrase_protection: Option<bool>,
    pub wipe_code_protection: Option<bool>,
}

/// The device echoes the ping message back.
pub struct PingResponse {
    pub message: String,
}

/// A machine-readable failure: a message for people and a code for
/// programs.
pub struct ErrorResponse {
    pub error: String,
    pub code: String,
}

impl ErrorResponse {
    pub fn new(error: &str, code: &str) -> (r: ErrorResponse)
        ensures
            r.error@ == error@,
            r.code@ == code@,
    {
        ErrorResponse { error: error.to_owned(), code: code.to_owned() }
    }
}

pub struct GetEntropyRequest {
    pub size: u32,
}

/// Device entropy, hex-encoded.
pub struct GetEntropyResponse {
    pub entropy: String,
}

pub struct GetPublicKeyRequest {
    pub address_n: Vec<u32>,
    pub ecdsa_curve_name: Option<String>,
    pub show_display: Option<bool>,
}

pub struct ApplySettingsRequest {
    pub language: Option<String>,
    pub label: Option<String>,
    pub use_passphrase: Option<bool>,
    pub homescreen: Option<String>,
    pub auto_lock_delay_ms: Option<u32>,
}

pub struct ApplySettingsResponse {
    pub success: bool,
}

pub struct ClearSessionResponse {
    pub success: bool,
}

pub struct WipeDeviceResponse {
    pub success: bool,
}

} // verus!
