//! Ethereum signing fields.
//!
//! A caller writes the transaction's numeric fields as hex text with an
//! optional `0x` prefix; the device protocol carries them as raw
//! big-endian bytes.  The builder strips the prefixes and decodes each
//! field; a field whose text does not decode is left unset, as is an
//! empty destination — a contract creation has none.

use vstd::prelude::*;
use vstd::string::StrSliceExecFns;

use crate::hexcodec::{hex_decode, hex_decode_ok, hex_decode_spec};
use crate::strutil::{starts_with, str_starts_with};

verus! {

/// The text with a leading `0x` removed, if one is there.
pub open spec fn strip_0x(s: Seq<char>) -> Seq<char> {
    if starts_with(s, "0x"@) {
        s.skip(2)
    } else {
        s
    }
}

/// What a hex-text field stands for: its bytes, or nothing where the
/// text does not decode.
pub open spec fn spec_eth_field(s: Seq<char>) -> Option<Seq<u8>> {
    if hex_decode_ok(strip_0x(s)) {
        Some(hex_decode_spec(strip_0x(s)))
    } else {
        None
    }
}

pub open spec fn spec_eth_field_opt(o: Option<Seq<char>>) -> Option<Seq<u8>> {
    match o {
        Some(s) => spec_eth_field(s),
        None => None,
    }
}

/// The caller's description of an Ethereum transaction, fields as hex
/// text.  The fee fields select between the legacy and the two-part fee
/// form.
pub struct EthereumTxFields {
    pub nonce: String,
    pub gas_price: Option<String>,
    pub gas_limit: String,
    pub to: String,
    pub value: String,
    pub data: Option<String>,
    pub chain_id: u32,
    pub max_fee_per_gas: Option<String>,
    pub max_priority_fee_per_gas: Option<String>,
}

/// The decoded form the device exchange carries: raw big-endian bytes
/// per field, unset where the text did not decode.
pub struct EthereumTxPlan {
    pub nonce: Option<Vec<u8>>,
    pub gas_price: Option<Vec<u8>>,
    pub gas_limit: Option<Vec<u8>>,
    pub to: Option<Vec<u8>>,
    pub value: Option<Vec<u8>>,
    pub data_initial_chunk: Option<Vec<u8>>,
    pub chain_id: u32,
    pub max_fee_per_gas: Option<Vec<u8>>,
    pub max_priority_fee_per_gas: Option<Vec<u8>>,
}

pub open spec fn opt_bytes_view(o: Option<Vec<u8>>) -> Option<Seq<u8>> {
    match o {
        Some(v) => Some(v@),
        None => None,
    }
}

pub open spec fn opt_str_view(o: Option<String>) -> Option<Seq<char>> {
    match o {
        Some(s) => Some(s@),
        None => None,
    }
}

fn decode_eth_field(s: &str) -> (r: Option<Vec<u8>>)
    ensures
        opt_bytes_view(r) == spec_eth_field(s@),
{
    let n = s.unicode_len();
    if str_starts_with(s, "0x") {
        proof {
            reveal_strlit("0x");
        }
        let stripped = s.substring_char(2, n);
        hex_decode(stripped)
    } else {
        hex_decode(s)
    }
}

fn decode_eth_field_opt(s: &Option<String>) -> (r: Option<Vec<u8>>)
    ensures
        opt_bytes_view(r) == spec_eth_field_opt(opt_str_view(*s)),
{
    match s {
        Some(text) => decode_eth_field(text.as_str()),
        None => None,
    }
}

/// Decodes every field of the caller's description.  Each byte field is
/// set exactly when its text decodes as hex after the optional `0x`
/// prefix; an empty destination stays unset.
pub fn build_eth_tx_plan(fields: &EthereumTxFields) -> (r: EthereumTxPlan)
    ensures
        opt_bytes_view(r.nonce) == spec_eth_field(fields.nonce@),
        opt_bytes_view(r.gas_price) == spec_eth_field_opt(opt_str_view(fields.gas_price)),
        opt_bytes_view(r.gas_limit) == spec_eth_field(fields.gas_limit@),
        fields.to@.len() == 0 ==> r.to is None,
        fields.to@.len() > 0 ==> opt_bytes_view(r.to) == spec_eth_field(fields.to@),
        opt_bytes_view(r.value) == spec_eth_field(fields.value@),
        opt_bytes_view(r.data_initial_chunk) == spec_eth_field_opt(opt_str_view(fields.data)),
        r.chain_id == fields.chain_id,
        opt_bytes_view(r.max_fee_per_gas) == spec_eth_field_opt(
            opt_str_view(fields.max_fee_per_gas),
        ),
        opt_bytes_view(r.max_priority_fee_per_gas) == spec_eth_field_opt(
            opt_str_view(fields.max_priority_fee_per_gas),
        ),
{
    let to = if fields.to.as_str().unicode_len() == 0 {
        None
    } else {
        decode_eth_field(fields.to.as_str())
    };
    EthereumTxPlan {
        nonce: decode_eth_field(fields.nonce.as_str()),
        gas_price: decode_eth_field_opt(&fields.gas_price),
        gas_limit: decode_eth_field(fields.gas_limit.as_str()),
        to,
        value: decode_eth_field(fields.value.as_str()),
        data_initial_chunk: decode_eth_field_opt(&fields.data),
        chain_id: fields.chain_id,
        max_fee_per_gas: decode_eth_field_opt(&fields.max_fee_per_gas),
        max_priority_fee_per_gas: decode_eth_field_opt(&fields.max_priority_fee_per_gas),
    }
}

} // verus!
