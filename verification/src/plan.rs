//! Building a signing plan from the caller's spend description.
//!
//! A caller describes a spend as a list of inputs — each naming the
//! previous transaction by id, the spent output index, the amount and a
//! script type — and a list of outputs, each a plain spend with a
//! destination address or a change output with a derivation path.  The
//! builder decodes every transaction id, parses every referenced
//! previous transaction from its hex encoding, and assembles the
//! unsigned transaction the signing engine works from.  Any input whose
//! id, amount or previous transaction does not decode is rejected before
//! any device communication.

use vstd::prelude::*;
use vstd::string::StrSliceExecFns;
use vstd::string::StringExecFns;

use crate::errors::DeviceError;
use crate::hexcodec::{hex_decode, hex_decode_ok, hex_decode_spec};
use crate::path::{all_digits, dec_val, parse_u64_dec};
use crate::signing::{
    clone_u32s, prevs_view, InputScriptKind, OutputScriptKind, PlanInModel, PlanModel,
    PlanOutModel, UnsignedInput, UnsignedOutput, UnsignedTx,
};
use crate::strutil::str_eq;
use crate::txparse::{parse_tx, spec_parse_tx, ParsedTx, TxModel};

verus! {

/// Model of one described input.
#[verifier::ext_equal]
pub struct BtcInModel {
    pub address_n_list: Seq<u32>,
    pub script_type: Seq<char>,
    pub amount: Seq<char>,
    pub vout: u32,
    pub txid: Seq<char>,
    pub prev_tx_hex: Option<Seq<char>>,
}

/// One input of a spend description: the derivation path of the spent
/// output, its script type, the amount in base units as a decimal
/// string, and the previous transaction — by id and raw hex.
pub struct BitcoinUtxoInput {
    pub address_n_list: Vec<u32>,
    pub script_type: String,
    pub amount: String,
    pub vout: u32,
    pub txid: String,
    pub prev_tx_hex: Option<String>,
}

impl View for BitcoinUtxoInput {
    type V = BtcInModel;

    open spec fn view(&self) -> BtcInModel {
        BtcInModel {
            address_n_list: self.address_n_list@,
            script_type: self.script_type@,
            amount: self.amount@,
            vout: self.vout,
            txid: self.txid@,
            prev_tx_hex: match self.prev_tx_hex {
                Some(h) => Some(h@),
                None => None,
            },
        }
    }
}

/// Model of one described output.
#[verifier::ext_equal]
pub struct BtcOutModel {
    pub address: Seq<char>,
    pub amount: u64,
    pub address_type: Seq<char>,
    pub is_change: Option<bool>,
    pub address_n_list: Option<Seq<u32>>,
    pub script_type: Option<Seq<char>>,
}

/// One output of a spend description: a plain spend carries the
/// destination address; a change output carries a derivation path and
/// script type instead.
pub struct BitcoinUtxoOutput {
    pub address: String,
    pub amount: u64,
    pub address_type: String,
    pub is_change: Option<bool>,
    pub address_n_list: Option<Vec<u32>>,
    pub script_type: Option<String>,
}

impl View for BitcoinUtxoOutput {
    type V = BtcOutModel;

    open spec fn view(&self) -> BtcOutModel {
        BtcOutModel {
            address: self.address@,
            amount: self.amount,
            address_type: self.address_type@,
            is_change: self.is_change,
            address_n_list: match self.address_n_list {
                Some(l) => Some(l@),
                None => None,
            },
            script_type: match self.script_type {
                Some(s) => Some(s@),
                None => None,
            },
        }
    }
}

/// The input script kind a script-type name stands for; anything
/// unrecognized spends a plain address.
pub open spec fn spec_input_script_kind(s: Seq<char>) -> InputScriptKind {
    if s == "p2sh-p2wpkh"@ {
        InputScriptKind::SpendP2shWitness
    } else if s == "p2wpkh"@ {
        InputScriptKind::SpendWitness
    } else {
        InputScriptKind::SpendAddress
    }
}

fn input_script_kind(s: &str) -> (r: InputScriptKind)
    ensures
        r == spec_input_script_kind(s@),
{
    if str_eq(s, "p2sh-p2wpkh") {
        InputScriptKind::SpendP2shWitness
    } else if str_eq(s, "p2wpkh") {
        InputScriptKind::SpendWitness
    } else {
        InputScriptKind::SpendAddress
    }
}

/// The output script kind: a change output goes by its script type,
/// a plain spend always pays to an address.
pub open spec fn spec_output_script_kind(
    address_type: Seq<char>,
    script_type: Option<Seq<char>>,
) -> OutputScriptKind {
    if address_type == "change"@ {
        match script_type {
            Some(st) => if st == "p2sh"@ {
                OutputScriptKind::PayToScriptHash
            } else if st == "p2wpkh"@ {
                OutputScriptKind::PayToWitness
            } else {
                OutputScriptKind::PayToAddress
            },
            None => OutputScriptKind::PayToAddress,
        }
    } else {
        OutputScriptKind::PayToAddress
    }
}

fn output_script_kind(address_type: &str, script_type: &Option<String>) -> (r: OutputScriptKind)
    ensures
        r == spec_output_script_kind(
            address_type@,
            match *script_type {
                Some(st) => Some(st@),
                None => None,
            },
        ),
{
    if str_eq(address_type, "change") {
        match script_type {
            Some(st) => {
                if str_eq(st.as_str(), "p2sh") {
                    OutputScriptKind::PayToScriptHash
                } else if str_eq(st.as_str(), "p2wpkh") {
                    OutputScriptKind::PayToWitness
                } else {
                    OutputScriptKind::PayToAddress
                }
            },
            None => OutputScriptKind::PayToAddress,
        }
    } else {
        OutputScriptKind::PayToAddress
    }
}

/// An input is usable when its transaction id decodes as hex, its amount
/// is a decimal number that fits, and its previous transaction is
/// present and parses.
pub open spec fn spec_plan_input_ok(m: BtcInModel) -> bool {
    &&& hex_decode_ok(m.txid)
    &&& m.amount.len() > 0 && all_digits(m.amount) && dec_val(m.amount) <= u64::MAX
    &&& m.prev_tx_hex is Some
    &&& hex_decode_ok(m.prev_tx_hex->0)
    &&& spec_parse_tx(hex_decode_spec(m.prev_tx_hex->0)) is Some
}

/// The engine-side form of one described input.  Inputs are spent whole
/// with the final sequence number.
pub open spec fn spec_plan_input(m: BtcInModel) -> PlanInModel {
    PlanInModel {
        address_n: m.address_n_list,
        prev_hash: hex_decode_spec(m.txid),
        prev_index: m.vout,
        script_type: spec_input_script_kind(m.script_type),
        amount: dec_val(m.amount) as u64,
        sequence: 0xffff_ffffu32,
    }
}

/// The previous-transaction table entry an input contributes: its id's
/// bytes and the parsed transaction.
pub open spec fn spec_prev_entry(m: BtcInModel) -> (Seq<u8>, TxModel) {
    (hex_decode_spec(m.txid), spec_parse_tx(hex_decode_spec(m.prev_tx_hex->0))->0)
}

/// The engine-side form of one described output.
pub open spec fn spec_plan_output(m: BtcOutModel) -> PlanOutModel {
    let change = m.address_type == "change"@;
    PlanOutModel {
        address: if change {
            None
        } else {
            Some(m.address)
        },
        address_n: if change {
            match m.address_n_list {
                Some(l) => l,
                None => Seq::empty(),
            }
        } else {
            Seq::empty()
        },
        amount: m.amount,
        script_type: spec_output_script_kind(m.address_type, m.script_type),
        is_change: change,
    }
}

/// Assembles the unsigned transaction and the previous-transaction table
/// the signing engine needs.  Succeeds exactly when every input is
/// usable; nothing reaches the device otherwise.
#[verifier::loop_isolation(false)]
pub fn build_sign_plan(
    coin: String,
    version: u32,
    lock_time: u32,
    inputs: &Vec<BitcoinUtxoInput>,
    outputs: &Vec<BitcoinUtxoOutput>,
) -> (r: Result<(UnsignedTx, Vec<(Vec<u8>, ParsedTx)>), DeviceError>)
    ensures
        r is Ok <==> forall|i: int|
            0 <= i < inputs@.len() ==> spec_plan_input_ok(#[trigger] inputs@[i]@),
        r matches Ok(p) ==> p.0@ == (PlanModel {
            coin: coin@,
            version,
            lock_time,
            inputs: inputs@.map_values(|x: BitcoinUtxoInput| spec_plan_input(x@)),
            outputs: outputs@.map_values(|x: BitcoinUtxoOutput| spec_plan_output(x@)),
        }) && prevs_view(p.1@) == inputs@.map_values(|x: BitcoinUtxoInput| spec_prev_entry(x@)),
{
    let mut plan_inputs: Vec<UnsignedInput> = Vec::new();
    let mut prevs: Vec<(Vec<u8>, ParsedTx)> = Vec::new();
    let mut i: usize = 0;
    while i < inputs.len()
        invariant
            0 <= i <= inputs@.len(),
            plan_inputs@.len() == i,
            prevs@.len() == i,
            forall|j: int| 0 <= j < i ==> spec_plan_input_ok(#[trigger] inputs@[j]@),
            forall|j: int|
                0 <= j < i ==> #[trigger] plan_inputs@[j]@ == spec_plan_input(inputs@[j]@),
            forall|j: int|
                0 <= j < i ==> #[trigger] prevs@[j].0@ == spec_prev_entry(inputs@[j]@).0
                    && prevs@[j].1@ == spec_prev_entry(inputs@[j]@).1,
        decreases inputs@.len() - i,
    {
        let inp = &inputs[i];
        let txid_bytes = match hex_decode(inp.txid.as_str()) {
            Some(b) => b,
            None => {
                proof {
                    assert(!spec_plan_input_ok(inputs@[i as int]@));
                }
                return Err(
                    DeviceError::InvalidInput(
                        String::from_str("input transaction id is not valid hex"),
                    ),
                );
            },
        };
        let amount = match parse_u64_dec(inp.amount.as_str()) {
            Some(v) => v,
            None => {
                proof {
                    assert(!spec_plan_input_ok(inputs@[i as int]@));
                }
                return Err(
                    DeviceError::InvalidInput(
                        String::from_str("input amount is not a decimal number"),
                    ),
                );
            },
        };
        let prev_hex = match &inp.prev_tx_hex {
            Some(h) => h,
            None => {
                proof {
                    assert(!spec_plan_input_ok(inputs@[i as int]@));
                }
                return Err(
                    DeviceError::InvalidInput(
                        String::from_str("input is missing its previous transaction"),
                    ),
                );
            },
        };
        let prev_bytes = match hex_decode(prev_hex.as_str()) {
            Some(b) => b,
            None => {
                proof {
                    assert(!spec_plan_input_ok(inputs@[i as int]@));
                }
                return Err(
                    DeviceError::InvalidInput(
                        String::from_str("previous transaction is not valid hex"),
                    ),
                );
            },
        };
        let parsed = match parse_tx(&prev_bytes) {
            Ok(t) => t,
            Err(_) => {
                proof {
                    assert(!spec_plan_input_ok(inputs@[i as int]@));
                }
                return Err(
                    DeviceError::InvalidInput(
                        String::from_str("previous transaction does not parse"),
                    ),
                );
            },
        };
        let kind = input_script_kind(inp.script_type.as_str());
        let key_bytes = match hex_decode(inp.txid.as_str()) {
            Some(b) => b,
            None => {
                return Err(
                    DeviceError::InvalidInput(
                        String::from_str("input transaction id is not valid hex"),
                    ),
                );
            },
        };
        plan_inputs.push(
            UnsignedInput {
                address_n: clone_u32s(&inp.address_n_list),
                prev_hash: txid_bytes,
                prev_index: inp.vout,
                script_type: kind,
                amount,
                sequence: 0xffff_ffff,
            },
        );
        prevs.push((key_bytes, parsed));
        i += 1;
    }
    let mut plan_outputs: Vec<UnsignedOutput> = Vec::new();
    let mut j: usize = 0;
    while j < outputs.len()
        invariant
            0 <= j <= outputs@.len(),
            plan_outputs@.len() == j,
            forall|q: int|
                0 <= q < j ==> #[trigger] plan_outputs@[q]@ == spec_plan_output(outputs@[q]@),
        decreases outputs@.len() - j,
    {
        let outp = &outputs[j];
        let change = str_eq(outp.address_type.as_str(), "change");
        let kind = output_script_kind(outp.address_type.as_str(), &outp.script_type);
        let address = if change {
            None
        } else {
            Some(outp.address.clone())
        };
        let address_n = if change {
            match &outp.address_n_list {
                Some(l) => clone_u32s(l),
                None => Vec::new(),
            }
        } else {
            Vec::new()
        };
        plan_outputs.push(
            UnsignedOutput { address, address_n, amount: outp.amount, script_type: kind, is_change: change },
        );
        j += 1;
    }
    let plan = UnsignedTx { coin, version, lock_time, inputs: plan_inputs, outputs: plan_outputs };
    proof {
        assert(plan@.inputs =~= inputs@.map_values(|x: BitcoinUtxoInput| spec_plan_input(x@)));
        assert(plan@.outputs =~= outputs@.map_values(
            |x: BitcoinUtxoOutput| spec_plan_output(x@),
        ));
        assert(plan@ =~= (PlanModel {
            coin: plan@.coin,
            version,
            lock_time,
            inputs: inputs@.map_values(|x: BitcoinUtxoInput| spec_plan_input(x@)),
            outputs: outputs@.map_values(|x: BitcoinUtxoOutput| spec_plan_output(x@)),
        }));
        assert(prevs_view(prevs@) =~= inputs@.map_values(
            |x: BitcoinUtxoInput| spec_prev_entry(x@),
        ));
    }
    Ok((plan, prevs))
}

/// The script kind an explicit address request names, or nothing where
/// the name is unknown and the device is left to decide.
pub open spec fn spec_address_script_kind(st: Option<Seq<char>>) -> Option<InputScriptKind> {
    match st {
        Some(s) => if s == "p2pkh"@ {
            Some(InputScriptKind::SpendAddress)
        } else if s == "p2sh"@ {
            Some(InputScriptKind::SpendMultisig)
        } else if s == "p2wpkh"@ {
            Some(InputScriptKind::SpendWitness)
        } else if s == "p2sh-p2wpkh"@ {
            Some(InputScriptKind::SpendP2shWitness)
        } else {
            None
        },
        None => None,
    }
}

pub fn address_script_kind(st: Option<&String>) -> (r: Option<InputScriptKind>)
    ensures
        r == spec_address_script_kind(
            match st {
                Some(s) => Some(s@),
                None => None,
            },
        ),
{
    match st {
        Some(s) => {
            if str_eq(s.as_str(), "p2pkh") {
                Some(InputScriptKind::SpendAddress)
            } else if str_eq(s.as_str(), "p2sh") {
                Some(InputScriptKind::SpendMultisig)
            } else if str_eq(s.as_str(), "p2wpkh") {
                Some(InputScriptKind::SpendWitness)
            } else if str_eq(s.as_str(), "p2sh-p2wpkh") {
                Some(InputScriptKind::SpendP2shWitness)
            } else {
                None
            }
        },
        None => None,
    }
}

} // verus!
