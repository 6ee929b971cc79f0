//! Transaction-signing requests and responses.

use vstd::prelude::*;
use vstd::string::StringExecFns;

use crate::errors::DeviceError;
use crate::plan::{
    build_sign_plan, spec_plan_input, spec_plan_input_ok, spec_plan_output, spec_prev_entry,
    BitcoinUtxoInput, BitcoinUtxoOutput,
};
use crate::signing::{prevs_view, PlanModel, UnsignedTx};
use crate::txparse::ParsedTx;

verus! {

/// A spend description for a coin-scripted network; version and lock
/// time default to one and zero when the caller leaves them out.
pub struct UtxoSignTransactionRequest {
    pub coin: String,
    pub inputs: Vec<BitcoinUtxoInput>,
    pub outputs: Vec<BitcoinUtxoOutput>,
    pub version: Option<u32>,
    pub lock_time: Option<u32>,
}

impl UtxoSignTransactionRequest {
    /// The version the request stands for: the caller's, or one.
    pub open spec fn spec_version(&self) -> u32 {
        match self.version {
            Some(v) => v,
            None => 1,
        }
    }

    /// The lock time the request stands for: the caller's, or zero.
    pub open spec fn spec_lock_time(&self) -> u32 {
        match self.lock_time {
            Some(v) => v,
            None => 0,
        }
    }

    /// Assembles the signing plan this request describes, with the
    /// defaulted version and lock time.
    pub fn build_plan(&self) -> (r: Result<(UnsignedTx, Vec<(Vec<u8>, ParsedTx)>), DeviceError>)
        ensures
            r is Ok <==> forall|i: int|
                0 <= i < self.inputs@.len() ==> spec_plan_input_ok(#[trigger] self.inputs@[i]@),
            r matches Ok(p) ==> p.0@ == (PlanModel {
                coin: self.coin@,
                version: self.spec_version(),
                lock_time: self.spec_lock_time(),
                inputs: self.inputs@.map_values(|x: BitcoinUtxoInput| spec_plan_input(x@)),
                outputs: self.outputs@.map_values(|x: BitcoinUtxoOutput| spec_plan_output(x@)),
            }) && prevs_view(p.1@) == self.inputs@.map_values(
                |x: BitcoinUtxoInput| spec_prev_entry(x@),
            ),
    {
        let version = match self.version {
            Some(v) => v,
            None => 1,
        };
        let lock_time = match self.lock_time {
            Some(v) => v,
            None => 0,
        };
        build_sign_plan(self.coin.clone(), version, lock_time, &self.inputs, &self.outputs)
    }
}

/// The signed transaction, hex-encoded, with its id when known.
pub struct UtxoSignTransactionResponse {
    pub serialized: String,
    pub txid: Option<String>,
}

/// An Ethereum signature in its recoverable form with the serialized
/// transaction.
pub struct EthSignTransactionResponse {
    pub v: u32,
    pub r: String,
    pub s: String,
    pub serialized: String,
}

pub struct EthSignMessageRequest {
    pub address_n: Vec<u32>,
    pub message: String,
}

pub struct EthSignMessageResponse {
    pub address: String,
    pub signature: String,
}

} // verus!
