//! Raw transaction encoding.
//!
//! A previously-confirmed transaction arrives as raw bytes: a little-endian
//! version, a varint input count, the inputs (32-byte previous-output hash
//! in wire order, output index, script, sequence), a varint output count,
//! the outputs (little-endian amount, script), and a little-endian lock
//! time.  The parser turns the bytes into structured form — reversing each
//! previous-output hash into display order — and the serializer writes the
//! structured form back.  The reader insists on minimal varint encodings
//! and on the bytes ending exactly at the lock time, so a parsed
//! transaction re-serializes byte for byte.

use vstd::prelude::*;
use vstd::bytes::*;
use vstd::slice::{slice_subrange, slice_to_vec};

verus! {

// ---------------------------------------------------------------------
// Mathematical model
// ---------------------------------------------------------------------
/// One spent-from input of a raw transaction, hash in display order.
#[verifier::ext_equal]
pub struct TxInModel {
    pub prev_hash: Seq<u8>,
    pub prev_index: u32,
    pub script_sig: Seq<u8>,
    pub sequence: u32,
}

/// One output of a raw transaction.
#[verifier::ext_equal]
pub struct TxOutModel {
    pub amount: u64,
    pub script_pubkey: Seq<u8>,
}

/// A raw transaction in structured form.
#[verifier::ext_equal]
pub struct TxModel {
    pub version: u32,
    pub inputs: Seq<TxInModel>,
    pub outputs: Seq<TxOutModel>,
    pub lock_time: u32,
}

pub open spec fn rev_bytes(s: Seq<u8>) -> Seq<u8> {
    Seq::new(s.len(), |i: int| s[s.len() - 1 - i])
}

proof fn lemma_rev_rev(s: Seq<u8>)
    ensures
        rev_bytes(rev_bytes(s)) == s,
{
    assert(rev_bytes(rev_bytes(s)) =~= s);
}

// ---------------------------------------------------------------------
// Reading, in specification form: each reader yields the value and the
// position after it, or nothing where the bytes run out or an encoding is
// not minimal.
// ---------------------------------------------------------------------
pub open spec fn spec_read_bytes(b: Seq<u8>, pos: int, n: int) -> Option<(Seq<u8>, int)> {
    if 0 <= pos && 0 <= n && pos + n <= b.len() {
        Some((b.subrange(pos, pos + n), pos + n))
    } else {
        None
    }
}

pub open spec fn spec_read_u16(b: Seq<u8>, pos: int) -> Option<(u16, int)> {
    if 0 <= pos && pos + 2 <= b.len() {
        Some((spec_u16_from_le_bytes(b.subrange(pos, pos + 2)), pos + 2))
    } else {
        None
    }
}

pub open spec fn spec_read_u32(b: Seq<u8>, pos: int) -> Option<(u32, int)> {
    if 0 <= pos && pos + 4 <= b.len() {
        Some((spec_u32_from_le_bytes(b.subrange(pos, pos + 4)), pos + 4))
    } else {
        None
    }
}

pub open spec fn spec_read_u64(b: Seq<u8>, pos: int) -> Option<(u64, int)> {
    if 0 <= pos && pos + 8 <= b.len() {
        Some((spec_u64_from_le_bytes(b.subrange(pos, pos + 8)), pos + 8))
    } else {
        None
    }
}

/// A varint is one byte up to 252, or a marker byte followed by a
/// little-endian value: 253 with two bytes, 254 with four, 255 with eight.
/// A value written in a longer form than it needs is rejected.
pub open spec fn spec_read_varint(b: Seq<u8>, pos: int) -> Option<(u64, int)> {
    if 0 <= pos && pos < b.len() {
        let fb = b[pos];
        if fb <= 252 {
            Some((fb as u64, pos + 1))
        } else if fb == 253 {
            match spec_read_u16(b, pos + 1) {
                Some((v, p)) => if v >= 253 {
                    Some((v as u64, p))
                } else {
                    None
                },
                None => None,
            }
        } else if fb == 254 {
            match spec_read_u32(b, pos + 1) {
                Some((v, p)) => if v >= 0x10000 {
                    Some((v as u64, p))
                } else {
                    None
                },
                None => None,
            }
        } else {
            match spec_read_u64(b, pos + 1) {
                Some((v, p)) => if v >= 0x1_0000_0000 {
                    Some((v, p))
                } else {
                    None
                },
                None => None,
            }
        }
    } else {
        None
    }
}

pub open spec fn spec_parse_input(b: Seq<u8>, pos: int) -> Option<(TxInModel, int)> {
    match spec_read_bytes(b, pos, 32) {
        Some((hash_wire, p1)) => match spec_read_u32(b, p1) {
            Some((prev_index, p2)) => match spec_read_varint(b, p2) {
                Some((slen, p3)) => match spec_read_bytes(b, p3, slen as int) {
                    Some((script, p4)) => match spec_read_u32(b, p4) {
                        Some((sequence, p5)) => Some(
                            (
                                TxInModel {
                                    prev_hash: rev_bytes(hash_wire),
                                    prev_index,
                                    script_sig: script,
                                    sequence,
                                },
                                p5,
                            ),
                        ),
                        None => None,
                    },
                    None => None,
                },
                None => None,
            },
            None => None,
        },
        None => None,
    }
}

pub open spec fn spec_parse_inputs(b: Seq<u8>, pos: int, n: nat) -> Option<
    (Seq<TxInModel>, int),
>
    decreases n,
{
    if n == 0 {
        Some((Seq::empty(), pos))
    } else {
        match spec_parse_input(b, pos) {
            Some((m, p)) => match spec_parse_inputs(b, p, (n - 1) as nat) {
                Some((ms, pe)) => Some((seq![m] + ms, pe)),
                None => None,
            },
            None => None,
        }
    }
}

pub open spec fn spec_parse_output(b: Seq<u8>, pos: int) -> Option<(TxOutModel, int)> {
    match spec_read_u64(b, pos) {
        Some((amount, p1)) => match spec_read_varint(b, p1) {
            Some((slen, p2)) => match spec_read_bytes(b, p2, slen as int) {
                Some((script, p3)) => Some((TxOutModel { amount, script_pubkey: script }, p3)),
                None => None,
            },
            None => None,
        },
        None => None,
    }
}

pub open spec fn spec_parse_outputs(b: Seq<u8>, pos: int, n: nat) -> Option<
    (Seq<TxOutModel>, int),
>
    decreases n,
{
    if n == 0 {
        Some((Seq::empty(), pos))
    } else {
        match spec_parse_output(b, pos) {
            Some((m, p)) => match spec_parse_outputs(b, p, (n - 1) as nat) {
                Some((ms, pe)) => Some((seq![m] + ms, pe)),
                None => None,
            },
            None => None,
        }
    }
}

/// The whole transaction; the bytes must end exactly at the lock time.
pub open spec fn spec_parse_tx(b: Seq<u8>) -> Option<TxModel> {
    match spec_read_u32(b, 0) {
        Some((version, p1)) => match spec_read_varint(b, p1) {
            Some((icnt, p2)) => match spec_parse_inputs(b, p2, icnt as nat) {
                Some((ins, p3)) => match spec_read_varint(b, p3) {
                    Some((ocnt, p4)) => match spec_parse_outputs(b, p4, ocnt as nat) {
                        Some((outs, p5)) => match spec_read_u32(b, p5) {
                            Some((lock_time, p6)) => if p6 == b.len() {
                                Some(
                                    TxModel {
                                        version,
                                        inputs: ins,
                                        outputs: outs,
                                        lock_time,
                                    },
                                )
                            } else {
                                None
                            },
                            None => None,
                        },
                        None => None,
                    },
                    None => None,
                },
                None => None,
            },
            None => None,
        },
        None => None,
    }
}

// ---------------------------------------------------------------------
// Serialization, in specification form
// ---------------------------------------------------------------------
/// Minimal varint encoding of a value.
pub open spec fn ser_varint(v: u64) -> Seq<u8> {
    if v <= 252 {
        seq![v as u8]
    } else if v <= 0xFFFF {
        seq![253u8] + spec_u16_to_le_bytes(v as u16)
    } else if v <= 0xFFFF_FFFF {
        seq![254u8] + spec_u32_to_le_bytes(v as u32)
    } else {
        seq![255u8] + spec_u64_to_le_bytes(v)
    }
}

pub open spec fn ser_input(m: TxInModel) -> Seq<u8> {
    rev_bytes(m.prev_hash) + spec_u32_to_le_bytes(m.prev_index) + ser_varint(
        m.script_sig.len() as u64,
    ) + m.script_sig + spec_u32_to_le_bytes(m.sequence)
}

pub open spec fn ser_inputs(ms: Seq<TxInModel>) -> Seq<u8>
    decreases ms.len(),
{
    if ms.len() == 0 {
        Seq::empty()
    } else {
        ser_input(ms[0]) + ser_inputs(ms.skip(1))
    }
}

pub open spec fn ser_output(m: TxOutModel) -> Seq<u8> {
    spec_u64_to_le_bytes(m.amount) + ser_varint(m.script_pubkey.len() as u64) + m.script_pubkey
}

pub open spec fn ser_outputs(ms: Seq<TxOutModel>) -> Seq<u8>
    decreases ms.len(),
{
    if ms.len() == 0 {
        Seq::empty()
    } else {
        ser_output(ms[0]) + ser_outputs(ms.skip(1))
    }
}

/// The full raw encoding of a structured transaction.
pub open spec fn ser_tx(m: TxModel) -> Seq<u8> {
    spec_u32_to_le_bytes(m.version) + ser_varint(m.inputs.len() as u64) + ser_inputs(m.inputs)
        + ser_varint(m.outputs.len() as u64) + ser_outputs(m.outputs) + spec_u32_to_le_bytes(
        m.lock_time,
    )
}

// ---------------------------------------------------------------------
// Round trip: whatever the reader accepts, the writer reproduces.
// ---------------------------------------------------------------------
proof fn lemma_read_u16_ser(b: Seq<u8>, pos: int, v: u16, p: int)
    requires
        spec_read_u16(b, pos) == Some((v, p)),
    ensures
        p == pos + 2 <= b.len(),
        b.subrange(pos, p) == spec_u16_to_le_bytes(v),
{
    lemma_auto_spec_u16_to_from_le_bytes();
}

proof fn lemma_read_u32_ser(b: Seq<u8>, pos: int, v: u32, p: int)
    requires
        spec_read_u32(b, pos) == Some((v, p)),
    ensures
        p == pos + 4 <= b.len(),
        b.subrange(pos, p) == spec_u32_to_le_bytes(v),
{
    lemma_auto_spec_u32_to_from_le_bytes();
}

proof fn lemma_read_u64_ser(b: Seq<u8>, pos: int, v: u64, p: int)
    requires
        spec_read_u64(b, pos) == Some((v, p)),
    ensures
        p == pos + 8 <= b.len(),
        b.subrange(pos, p) == spec_u64_to_le_bytes(v),
{
    lemma_auto_spec_u64_to_from_le_bytes();
}

proof fn lemma_read_varint_ser(b: Seq<u8>, pos: int, v: u64, p: int)
    requires
        spec_read_varint(b, pos) == Some((v, p)),
    ensures
        pos < p <= b.len(),
        b.subrange(pos, p) == ser_varint(v),
{
    let fb = b[pos];
    if fb <= 252 {
        assert(b.subrange(pos, p) =~= seq![b[pos]]);
        assert(ser_varint(v) == seq![v as u8]);
        assert(v as u8 == fb);
    } else if fb == 253 {
        let (v16, p16) = spec_read_u16(b, pos + 1)->0;
        lemma_read_u16_ser(b, pos + 1, v16, p16);
        assert(v == v16 as u64 && p == p16);
        assert(253 <= v <= 0xFFFF);
        assert(v as u16 == v16);
        assert(b.subrange(pos, p) =~= seq![b[pos]] + b.subrange(pos + 1, p));
        assert(ser_varint(v) == seq![253u8] + spec_u16_to_le_bytes(v as u16));
    } else if fb == 254 {
        let (v32, p32) = spec_read_u32(b, pos + 1)->0;
        lemma_read_u32_ser(b, pos + 1, v32, p32);
        assert(v == v32 as u64 && p == p32);
        assert(0x10000 <= v <= 0xFFFF_FFFF);
        assert(v as u32 == v32);
        assert(b.subrange(pos, p) =~= seq![b[pos]] + b.subrange(pos + 1, p));
        assert(ser_varint(v) == seq![254u8] + spec_u32_to_le_bytes(v as u32));
    } else {
        let (v64, p64) = spec_read_u64(b, pos + 1)->0;
        lemma_read_u64_ser(b, pos + 1, v64, p64);
        assert(v == v64 && p == p64);
        assert(v >= 0x1_0000_0000);
        assert(b.subrange(pos, p) =~= seq![b[pos]] + b.subrange(pos + 1, p));
        assert(ser_varint(v) == seq![255u8] + spec_u64_to_le_bytes(v));
    }
}

proof fn lemma_parse_input_ser(b: Seq<u8>, pos: int, m: TxInModel, p: int)
    requires
        spec_parse_input(b, pos) == Some((m, p)),
    ensures
        pos < p <= b.len(),
        b.subrange(pos, p) == ser_input(m),
        m.prev_hash.len() == 32,
{
    let (hash_wire, p1) = spec_read_bytes(b, pos, 32)->0;
    let (prev_index, p2) = spec_read_u32(b, p1)->0;
    let (slen, p3) = spec_read_varint(b, p2)->0;
    let (script, p4) = spec_read_bytes(b, p3, slen as int)->0;
    let (sequence, p5) = spec_read_u32(b, p4)->0;
    lemma_read_u32_ser(b, p1, prev_index, p2);
    lemma_read_varint_ser(b, p2, slen, p3);
    lemma_read_u32_ser(b, p4, sequence, p5);
    lemma_rev_rev(hash_wire);
    assert(m.prev_hash == rev_bytes(hash_wire));
    assert(rev_bytes(m.prev_hash) == hash_wire);
    assert(m.script_sig == script);
    assert(script.len() == slen as int);
    assert(m.script_sig.len() as u64 == slen);
    assert(b.subrange(pos, p1) == hash_wire);
    assert(b.subrange(p3, p4) == script);
    assert(b.subrange(pos, p5) =~= b.subrange(pos, p1) + b.subrange(p1, p2) + b.subrange(p2, p3)
        + b.subrange(p3, p4) + b.subrange(p4, p5));
}

proof fn lemma_parse_inputs_ser(b: Seq<u8>, pos: int, n: nat, ms: Seq<TxInModel>, p: int)
    requires
        spec_parse_inputs(b, pos, n) == Some((ms, p)),
        0 <= pos <= b.len(),
    ensures
        pos <= p <= b.len(),
        b.subrange(pos, p) == ser_inputs(ms),
        ms.len() == n,
    decreases n,
{
    if n == 0 {
        assert(b.subrange(pos, pos) =~= Seq::<u8>::empty());
    } else {
        let (m, pm) = spec_parse_input(b, pos)->0;
        let (rest, pe) = spec_parse_inputs(b, pm, (n - 1) as nat)->0;
        lemma_parse_input_ser(b, pos, m, pm);
        lemma_parse_inputs_ser(b, pm, (n - 1) as nat, rest, pe);
        assert(ms == seq![m] + rest);
        assert(ms[0] == m);
        assert(ms.skip(1) =~= rest);
        assert(b.subrange(pos, p) =~= b.subrange(pos, pm) + b.subrange(pm, p));
    }
}

proof fn lemma_parse_output_ser(b: Seq<u8>, pos: int, m: TxOutModel, p: int)
    requires
        spec_parse_output(b, pos) == Some((m, p)),
    ensures
        pos < p <= b.len(),
        b.subrange(pos, p) == ser_output(m),
{
    let (amount, p1) = spec_read_u64(b, pos)->0;
    let (slen, p2) = spec_read_varint(b, p1)->0;
    let (script, p3) = spec_read_bytes(b, p2, slen as int)->0;
    lemma_read_u64_ser(b, pos, amount, p1);
    lemma_read_varint_ser(b, p1, slen, p2);
    assert(m.script_pubkey == script);
    assert(m.script_pubkey.len() as u64 == slen);
    assert(b.subrange(p2, p3) == script);
    assert(b.subrange(pos, p3) =~= b.subrange(pos, p1) + b.subrange(p1, p2) + b.subrange(p2, p3));
}

proof fn lemma_parse_outputs_ser(b: Seq<u8>, pos: int, n: nat, ms: Seq<TxOutModel>, p: int)
    requires
        spec_parse_outputs(b, pos, n) == Some((ms, p)),
        0 <= pos <= b.len(),
    ensures
        pos <= p <= b.len(),
        b.subrange(pos, p) == ser_outputs(ms),
        ms.len() == n,
    decreases n,
{
    if n == 0 {
        assert(b.subrange(pos, pos) =~= Seq::<u8>::empty());
    } else {
        let (m, pm) = spec_parse_output(b, pos)->0;
        let (rest, pe) = spec_parse_outputs(b, pm, (n - 1) as nat)->0;
        lemma_parse_output_ser(b, pos, m, pm);
        lemma_parse_outputs_ser(b, pm, (n - 1) as nat, rest, pe);
        assert(ms == seq![m] + rest);
        assert(ms[0] == m);
        assert(ms.skip(1) =~= rest);
        assert(b.subrange(pos, p) =~= b.subrange(pos, pm) + b.subrange(pm, p));
    }
}

/// Round trip: a transaction parsed from raw bytes re-serializes to
/// exactly those bytes — version, varint counts, reversed hashes, scripts,
/// little-endian amounts and lock time included.
pub proof fn lemma_parse_serialize_round_trip(b: Seq<u8>, m: TxModel)
    requires
        spec_parse_tx(b) == Some(m),
    ensures
        ser_tx(m) == b,
{
    let (version, p1) = spec_read_u32(b, 0)->0;
    let (icnt, p2) = spec_read_varint(b, p1)->0;
    let (ins, p3) = spec_parse_inputs(b, p2, icnt as nat)->0;
    let (ocnt, p4) = spec_read_varint(b, p3)->0;
    let (outs, p5) = spec_parse_outputs(b, p4, ocnt as nat)->0;
    let (lock_time, p6) = spec_read_u32(b, p5)->0;
    lemma_read_u32_ser(b, 0, version, p1);
    lemma_read_varint_ser(b, p1, icnt, p2);
    lemma_parse_inputs_ser(b, p2, icnt as nat, ins, p3);
    lemma_read_varint_ser(b, p3, ocnt, p4);
    lemma_parse_outputs_ser(b, p4, ocnt as nat, outs, p5);
    lemma_read_u32_ser(b, p5, lock_time, p6);
    assert(m.inputs.len() as u64 == icnt);
    assert(m.outputs.len() as u64 == ocnt);
    assert(b =~= b.subrange(0, p1) + b.subrange(p1, p2) + b.subrange(p2, p3) + b.subrange(p3, p4)
        + b.subrange(p4, p5) + b.subrange(p5, p6));
}

/// A structured transaction the serializer can write faithfully: every
/// previous-output hash is 32 bytes, and the counts and script lengths
/// fit the varint forms.
pub open spec fn wf_tx(m: TxModel) -> bool {
    &&& m.inputs.len() <= u64::MAX
    &&& m.outputs.len() <= u64::MAX
    &&& forall|i: int|
        0 <= i < m.inputs.len() ==> (#[trigger] m.inputs[i]).prev_hash.len() == 32
            && m.inputs[i].script_sig.len() <= u64::MAX
    &&& forall|i: int|
        0 <= i < m.outputs.len() ==> (#[trigger] m.outputs[i]).script_pubkey.len() <= u64::MAX
}

proof fn lemma_concat_split(a1: Seq<u8>, a2: Seq<u8>, c1: Seq<u8>, c2: Seq<u8>)
    requires
        a1 + a2 == c1 + c2,
        a1.len() == c1.len(),
    ensures
        a1 == c1,
        a2 == c2,
{
    assert forall|i: int| 0 <= i < a1.len() implies #[trigger] a1[i] == c1[i] by {
        assert((a1 + a2)[i] == a1[i]);
        assert((c1 + c2)[i] == c1[i]);
    }
    assert(a1 =~= c1);
    assert((a1 + a2).len() == (c1 + c2).len());
    assert((a1 + a2).len() == a1.len() + a2.len());
    assert((c1 + c2).len() == c1.len() + c2.len());
    assert(a2.len() == c2.len());
    assert forall|i: int| 0 <= i < a2.len() implies #[trigger] a2[i] == c2[i] by {
        assert(0 <= a1.len() + i < (a1 + a2).len());
        assert((a1 + a2)[a1.len() + i] == a2[i]);
        assert((c1 + c2)[c1.len() + i] == c2[i]);
    }
    assert(a2 =~= c2);
}

proof fn lemma_read_u16_of_ser(b: Seq<u8>, pos: int, v: u16)
    requires
        0 <= pos,
        pos + 2 <= b.len(),
        b.subrange(pos, pos + 2) == spec_u16_to_le_bytes(v),
    ensures
        spec_read_u16(b, pos) == Some((v, pos + 2)),
{
    lemma_auto_spec_u16_to_from_le_bytes();
    assert(spec_u16_to_le_bytes(v).len() == 2);
    assert(spec_u16_from_le_bytes(spec_u16_to_le_bytes(v)) == v);
}

proof fn lemma_read_u32_of_ser(b: Seq<u8>, pos: int, v: u32)
    requires
        0 <= pos,
        pos + 4 <= b.len(),
        b.subrange(pos, pos + 4) == spec_u32_to_le_bytes(v),
    ensures
        spec_read_u32(b, pos) == Some((v, pos + 4)),
{
    lemma_auto_spec_u32_to_from_le_bytes();
    assert(spec_u32_to_le_bytes(v).len() == 4);
    assert(spec_u32_from_le_bytes(spec_u32_to_le_bytes(v)) == v);
}

proof fn lemma_read_u64_of_ser(b: Seq<u8>, pos: int, v: u64)
    requires
        0 <= pos,
        pos + 8 <= b.len(),
        b.subrange(pos, pos + 8) == spec_u64_to_le_bytes(v),
    ensures
        spec_read_u64(b, pos) == Some((v, pos + 8)),
{
    lemma_auto_spec_u64_to_from_le_bytes();
    assert(spec_u64_to_le_bytes(v).len() == 8);
    assert(spec_u64_from_le_bytes(spec_u64_to_le_bytes(v)) == v);
}

proof fn lemma_read_varint_of_ser(b: Seq<u8>, pos: int, v: u64)
    requires
        0 <= pos,
        pos + ser_varint(v).len() <= b.len(),
        b.subrange(pos, pos + ser_varint(v).len() as int) == ser_varint(v),
    ensures
        spec_read_varint(b, pos) == Some((v, pos + ser_varint(v).len())),
{
    let sv = ser_varint(v);
    let pe = pos + sv.len() as int;
    if v <= 252 {
        assert(b.subrange(pos, pe)[0] == b[pos]);
        assert(b[pos] == v as u8);
        assert((v as u8) as u64 == v);
    } else {
        lemma_auto_spec_u16_to_from_le_bytes();
        lemma_auto_spec_u32_to_from_le_bytes();
        lemma_auto_spec_u64_to_from_le_bytes();
        let marker = seq![sv[0]];
        let tail = if v <= 0xFFFF {
            spec_u16_to_le_bytes(v as u16)
        } else if v <= 0xFFFF_FFFF {
            spec_u32_to_le_bytes(v as u32)
        } else {
            spec_u64_to_le_bytes(v)
        };
        assert(sv =~= marker + tail);
        assert(b.subrange(pos, pe) =~= b.subrange(pos, pos + 1) + b.subrange(pos + 1, pe));
        lemma_concat_split(marker, tail, b.subrange(pos, pos + 1), b.subrange(pos + 1, pe));
        assert(b.subrange(pos, pos + 1)[0] == b[pos]);
        if v <= 0xFFFF {
            assert(b[pos] == 253);
            lemma_read_u16_of_ser(b, pos + 1, v as u16);
            assert((v as u16) as u64 == v);
            assert(v as u16 >= 253);
        } else if v <= 0xFFFF_FFFF {
            assert(b[pos] == 254);
            lemma_read_u32_of_ser(b, pos + 1, v as u32);
            assert((v as u32) as u64 == v);
            assert(v as u32 >= 0x10000);
        } else {
            assert(b[pos] == 255);
            lemma_read_u64_of_ser(b, pos + 1, v);
        }
    }
}

proof fn lemma_parse_input_of_ser(b: Seq<u8>, pos: int, inp: TxInModel)
    requires
        0 <= pos,
        inp.prev_hash.len() == 32,
        inp.script_sig.len() <= u64::MAX,
        pos + ser_input(inp).len() <= b.len(),
        b.subrange(pos, pos + ser_input(inp).len() as int) == ser_input(inp),
    ensures
        spec_parse_input(b, pos) == Some((inp, pos + ser_input(inp).len())),
{
    lemma_auto_spec_u32_to_from_le_bytes();
    let hash_wire = rev_bytes(inp.prev_hash);
    let idx_bytes = spec_u32_to_le_bytes(inp.prev_index);
    let slen = inp.script_sig.len() as u64;
    let len_bytes = ser_varint(slen);
    let seq_bytes = spec_u32_to_le_bytes(inp.sequence);
    let p1 = pos + 32;
    let p2 = p1 + 4;
    let p3 = p2 + len_bytes.len() as int;
    let p4 = p3 + inp.script_sig.len() as int;
    let p5 = p4 + 4;
    assert(ser_input(inp) =~= hash_wire + (idx_bytes + (len_bytes + (inp.script_sig
        + seq_bytes))));
    assert(b.subrange(pos, p5) =~= b.subrange(pos, p1) + b.subrange(p1, p5));
    lemma_concat_split(
        hash_wire,
        idx_bytes + (len_bytes + (inp.script_sig + seq_bytes)),
        b.subrange(pos, p1),
        b.subrange(p1, p5),
    );
    assert(b.subrange(p1, p5) =~= b.subrange(p1, p2) + b.subrange(p2, p5));
    lemma_concat_split(
        idx_bytes,
        len_bytes + (inp.script_sig + seq_bytes),
        b.subrange(p1, p2),
        b.subrange(p2, p5),
    );
    assert(b.subrange(p2, p5) =~= b.subrange(p2, p3) + b.subrange(p3, p5));
    lemma_concat_split(
        len_bytes,
        inp.script_sig + seq_bytes,
        b.subrange(p2, p3),
        b.subrange(p3, p5),
    );
    assert(b.subrange(p3, p5) =~= b.subrange(p3, p4) + b.subrange(p4, p5));
    lemma_concat_split(inp.script_sig, seq_bytes, b.subrange(p3, p4), b.subrange(p4, p5));
    lemma_read_u32_of_ser(b, p1, inp.prev_index);
    lemma_read_varint_of_ser(b, p2, slen);
    lemma_read_u32_of_ser(b, p4, inp.sequence);
    lemma_rev_rev(inp.prev_hash);
    let parsed = spec_parse_input(b, pos)->0;
    assert(parsed.0 =~= inp);
}

proof fn lemma_parse_output_of_ser(b: Seq<u8>, pos: int, outp: TxOutModel)
    requires
        0 <= pos,
        outp.script_pubkey.len() <= u64::MAX,
        pos + ser_output(outp).len() <= b.len(),
        b.subrange(pos, pos + ser_output(outp).len() as int) == ser_output(outp),
    ensures
        spec_parse_output(b, pos) == Some((outp, pos + ser_output(outp).len())),
{
    lemma_auto_spec_u64_to_from_le_bytes();
    let amount_bytes = spec_u64_to_le_bytes(outp.amount);
    let slen = outp.script_pubkey.len() as u64;
    let len_bytes = ser_varint(slen);
    let p1 = pos + 8;
    let p2 = p1 + len_bytes.len() as int;
    let p3 = p2 + outp.script_pubkey.len() as int;
    assert(ser_output(outp) =~= amount_bytes + (len_bytes + outp.script_pubkey));
    assert(b.subrange(pos, p3) =~= b.subrange(pos, p1) + b.subrange(p1, p3));
    lemma_concat_split(
        amount_bytes,
        len_bytes + outp.script_pubkey,
        b.subrange(pos, p1),
        b.subrange(p1, p3),
    );
    assert(b.subrange(p1, p3) =~= b.subrange(p1, p2) + b.subrange(p2, p3));
    lemma_concat_split(len_bytes, outp.script_pubkey, b.subrange(p1, p2), b.subrange(p2, p3));
    lemma_read_u64_of_ser(b, pos, outp.amount);
    lemma_read_varint_of_ser(b, p1, slen);
    let parsed = spec_parse_output(b, pos)->0;
    assert(parsed.0 =~= outp);
}

proof fn lemma_parse_inputs_of_ser(b: Seq<u8>, pos: int, ms: Seq<TxInModel>)
    requires
        0 <= pos,
        forall|i: int|
            0 <= i < ms.len() ==> (#[trigger] ms[i]).prev_hash.len() == 32
                && ms[i].script_sig.len() <= u64::MAX,
        pos + ser_inputs(ms).len() <= b.len(),
        b.subrange(pos, pos + ser_inputs(ms).len() as int) == ser_inputs(ms),
    ensures
        spec_parse_inputs(b, pos, ms.len()) == Some((ms, pos + ser_inputs(ms).len())),
    decreases ms.len(),
{
    if ms.len() == 0 {
        assert(ms =~= Seq::<TxInModel>::empty());
    } else {
        let head = ms[0];
        let sh = ser_input(head);
        let rest = ser_inputs(ms.skip(1));
        let pm = pos + sh.len() as int;
        let pe = pos + ser_inputs(ms).len() as int;
        assert(ser_inputs(ms) == sh + rest);
        assert(b.subrange(pos, pe) =~= b.subrange(pos, pm) + b.subrange(pm, pe));
        lemma_concat_split(sh, rest, b.subrange(pos, pm), b.subrange(pm, pe));
        lemma_parse_input_of_ser(b, pos, head);
        assert(forall|i: int|
            0 <= i < ms.skip(1).len() ==> #[trigger] ms.skip(1)[i] == ms[i + 1]);
        lemma_parse_inputs_of_ser(b, pm, ms.skip(1));
        assert(seq![head] + ms.skip(1) =~= ms);
    }
}

proof fn lemma_parse_outputs_of_ser(b: Seq<u8>, pos: int, ms: Seq<TxOutModel>)
    requires
        0 <= pos,
        forall|i: int|
            0 <= i < ms.len() ==> (#[trigger] ms[i]).script_pubkey.len() <= u64::MAX,
        pos + ser_outputs(ms).len() <= b.len(),
        b.subrange(pos, pos + ser_outputs(ms).len() as int) == ser_outputs(ms),
    ensures
        spec_parse_outputs(b, pos, ms.len()) == Some((ms, pos + ser_outputs(ms).len())),
    decreases ms.len(),
{
    if ms.len() == 0 {
        assert(ms =~= Seq::<TxOutModel>::empty());
    } else {
        let head = ms[0];
        let sh = ser_output(head);
        let rest = ser_outputs(ms.skip(1));
        let pm = pos + sh.len() as int;
        let pe = pos + ser_outputs(ms).len() as int;
        assert(ser_outputs(ms) == sh + rest);
        assert(b.subrange(pos, pe) =~= b.subrange(pos, pm) + b.subrange(pm, pe));
        lemma_concat_split(sh, rest, b.subrange(pos, pm), b.subrange(pm, pe));
        lemma_parse_output_of_ser(b, pos, head);
        assert(forall|i: int|
            0 <= i < ms.skip(1).len() ==> #[trigger] ms.skip(1)[i] == ms[i + 1]);
        lemma_parse_outputs_of_ser(b, pm, ms.skip(1));
        assert(seq![head] + ms.skip(1) =~= ms);
    }
}

/// The converse round trip: serializing a well-formed structured
/// transaction and parsing the bytes back returns exactly the
/// structure.  Together with the other direction, the encoding is a
/// bijection between well-formed structures and the byte strings the
/// reader accepts.
pub proof fn lemma_serialize_parse_round_trip(m: TxModel)
    requires
        wf_tx(m),
    ensures
        spec_parse_tx(ser_tx(m)) == Some(m),
{
    lemma_auto_spec_u32_to_from_le_bytes();
    let b = ser_tx(m);
    let icnt = m.inputs.len() as u64;
    let ocnt = m.outputs.len() as u64;
    let vb = spec_u32_to_le_bytes(m.version);
    let iv = ser_varint(icnt);
    let ib = ser_inputs(m.inputs);
    let ov = ser_varint(ocnt);
    let ob = ser_outputs(m.outputs);
    let lb = spec_u32_to_le_bytes(m.lock_time);
    let p1 = 4int;
    let p2 = p1 + iv.len() as int;
    let p3 = p2 + ib.len() as int;
    let p4 = p3 + ov.len() as int;
    let p5 = p4 + ob.len() as int;
    let p6 = p5 + 4;
    assert(b =~= vb + (iv + (ib + (ov + (ob + lb)))));
    assert(b.len() == p6);
    assert(b.subrange(0, p6) =~= b);
    assert(b.subrange(0, p6) =~= b.subrange(0, p1) + b.subrange(p1, p6));
    lemma_concat_split(
        vb,
        iv + (ib + (ov + (ob + lb))),
        b.subrange(0, p1),
        b.subrange(p1, p6),
    );
    assert(b.subrange(p1, p6) =~= b.subrange(p1, p2) + b.subrange(p2, p6));
    lemma_concat_split(
        iv,
        ib + (ov + (ob + lb)),
        b.subrange(p1, p2),
        b.subrange(p2, p6),
    );
    assert(b.subrange(p2, p6) =~= b.subrange(p2, p3) + b.subrange(p3, p6));
    lemma_concat_split(ib, ov + (ob + lb), b.subrange(p2, p3), b.subrange(p3, p6));
    assert(b.subrange(p3, p6) =~= b.subrange(p3, p4) + b.subrange(p4, p6));
    lemma_concat_split(ov, ob + lb, b.subrange(p3, p4), b.subrange(p4, p6));
    assert(b.subrange(p4, p6) =~= b.subrange(p4, p5) + b.subrange(p5, p6));
    lemma_concat_split(ob, lb, b.subrange(p4, p5), b.subrange(p5, p6));
    lemma_read_u32_of_ser(b, 0, m.version);
    lemma_read_varint_of_ser(b, p1, icnt);
    lemma_parse_inputs_of_ser(b, p2, m.inputs);
    lemma_read_varint_of_ser(b, p3, ocnt);
    lemma_parse_outputs_of_ser(b, p4, m.outputs);
    lemma_read_u32_of_ser(b, p5, m.lock_time);
    assert(icnt as nat == m.inputs.len());
    assert(ocnt as nat == m.outputs.len());
    let parsed = spec_parse_tx(b)->0;
    assert(parsed =~= m);
}

// ---------------------------------------------------------------------
// Executable form
// ---------------------------------------------------------------------
/// One spent-from input, hash in display order.
pub struct ParsedInput {
    pub prev_hash: Vec<u8>,
    pub prev_index: u32,
    pub script_sig: Vec<u8>,
    pub sequence: u32,
}

impl View for ParsedInput {
    type V = TxInModel;

    open spec fn view(&self) -> TxInModel {
        TxInModel {
            prev_hash: self.prev_hash@,
            prev_index: self.prev_index,
            script_sig: self.script_sig@,
            sequence: self.sequence,
        }
    }
}

pub struct ParsedOutput {
    pub amount: u64,
    pub script_pubkey: Vec<u8>,
}

impl View for ParsedOutput {
    type V = TxOutModel;

    open spec fn view(&self) -> TxOutModel {
        TxOutModel { amount: self.amount, script_pubkey: self.script_pubkey@ }
    }
}

pub struct ParsedTx {
    pub version: u32,
    pub inputs: Vec<ParsedInput>,
    pub outputs: Vec<ParsedOutput>,
    pub lock_time: u32,
}

impl View for ParsedTx {
    type V = TxModel;

    open spec fn view(&self) -> TxModel {
        TxModel {
            version: self.version,
            inputs: self.inputs@.map_values(|x: ParsedInput| x@),
            outputs: self.outputs@.map_values(|x: ParsedOutput| x@),
            lock_time: self.lock_time,
        }
    }
}

/// Why raw bytes were rejected.
#[derive(Clone, Copy, Debug, PartialEq, Eq, Structural)]
pub enum TxParseError {
    /// The bytes ran out before a field was complete.
    Truncated,
    /// A count or length used a longer varint form than its value needs.
    NonCanonicalVarint,
    /// Bytes remained after the lock time.
    TrailingBytes,
    /// The text was not an even-length string of hex digits.
    InvalidHex,
}

fn read_u32_le(b: &Vec<u8>, pos: &mut usize) -> (r: Option<u32>)
    requires
        *old(pos) <= b@.len(),
    ensures
        match spec_read_u32(b@, *old(pos) as int) {
            Some(vp) => r == Some(vp.0) && *final(pos) == vp.1,
            None => r is None && *final(pos) == *old(pos),
        },
        *final(pos) <= b@.len(),
{
    if b.len() - *pos >= 4 {
        let s = slice_subrange(b.as_slice(), *pos, *pos + 4);
        let v = u32_from_le_bytes(s);
        *pos += 4;
        Some(v)
    } else {
        None
    }
}

fn read_u64_le(b: &Vec<u8>, pos: &mut usize) -> (r: Option<u64>)
    requires
        *old(pos) <= b@.len(),
    ensures
        match spec_read_u64(b@, *old(pos) as int) {
            Some(vp) => r == Some(vp.0) && *final(pos) == vp.1,
            None => r is None && *final(pos) == *old(pos),
        },
        *final(pos) <= b@.len(),
{
    if b.len() - *pos >= 8 {
        let s = slice_subrange(b.as_slice(), *pos, *pos + 8);
        let v = u64_from_le_bytes(s);
        *pos += 8;
        Some(v)
    } else {
        None
    }
}

fn read_u16_le(b: &Vec<u8>, pos: &mut usize) -> (r: Option<u16>)
    requires
        *old(pos) <= b@.len(),
    ensures
        match spec_read_u16(b@, *old(pos) as int) {
            Some(vp) => r == Some(vp.0) && *final(pos) == vp.1,
            None => r is None && *final(pos) == *old(pos),
        },
        *final(pos) <= b@.len(),
{
    if b.len() - *pos >= 2 {
        let s = slice_subrange(b.as_slice(), *pos, *pos + 2);
        let v = u16_from_le_bytes(s);
        *pos += 2;
        Some(v)
    } else {
        None
    }
}

fn read_bytes(b: &Vec<u8>, pos: &mut usize, n: usize) -> (r: Option<Vec<u8>>)
    requires
        *old(pos) <= b@.len(),
    ensures
        match spec_read_bytes(b@, *old(pos) as int, n as int) {
            Some(vp) => r is Some && r->0@ == vp.0 && *final(pos) == vp.1,
            None => r is None && *final(pos) == *old(pos),
        },
        *final(pos) <= b@.len(),
{
    if b.len() - *pos >= n {
        let s = slice_subrange(b.as_slice(), *pos, *pos + n);
        let v = slice_to_vec(s);
        *pos += n;
        Some(v)
    } else {
        None
    }
}

/// Reads a varint, rejecting a non-minimal form so that the writer can
/// reproduce the bytes.  The error tells truncation and bad form apart.
fn read_varint(b: &Vec<u8>, pos: &mut usize) -> (r: Result<u64, TxParseError>)
    requires
        *old(pos) <= b@.len(),
    ensures
        match spec_read_varint(b@, *old(pos) as int) {
            Some(vp) => r == Ok::<u64, TxParseError>(vp.0) && *final(pos) == vp.1,
            None => r is Err && *final(pos) == *old(pos),
        },
        *final(pos) <= b@.len(),
{
    if *pos >= b.len() {
        return Err(TxParseError::Truncated);
    }
    let fb = b[*pos];
    if fb <= 252 {
        *pos += 1;
        Ok(fb as u64)
    } else if fb == 253 {
        let mut p = *pos + 1;
        match read_u16_le(b, &mut p) {
            Some(v) => {
                if v >= 253 {
                    *pos = p;
                    Ok(v as u64)
                } else {
                    Err(TxParseError::NonCanonicalVarint)
                }
            },
            None => Err(TxParseError::Truncated),
        }
    } else if fb == 254 {
        let mut p = *pos + 1;
        match read_u32_le(b, &mut p) {
            Some(v) => {
                if v >= 0x10000 {
                    *pos = p;
                    Ok(v as u64)
                } else {
                    Err(TxParseError::NonCanonicalVarint)
                }
            },
            None => Err(TxParseError::Truncated),
        }
    } else {
        let mut p = *pos + 1;
        match read_u64_le(b, &mut p) {
            Some(v) => {
                if v >= 0x1_0000_0000 {
                    *pos = p;
                    Ok(v)
                } else {
                    Err(TxParseError::NonCanonicalVarint)
                }
            },
            None => Err(TxParseError::Truncated),
        }
    }
}

/// Reverses a byte vector; a previous-output hash arrives on the wire in
/// the opposite order from the one lookups use.
pub fn reverse_bytes(v: &Vec<u8>) -> (r: Vec<u8>)
    ensures
        r@ == rev_bytes(v@),
{
    let n = v.len();
    let mut r: Vec<u8> = Vec::new();
    let mut i: usize = 0;
    while i < n
        invariant
            0 <= i <= n,
            n == v@.len(),
            r@.len() == i,
            forall|j: int| 0 <= j < i ==> r@[j] == v@[n - 1 - j],
        decreases n - i,
    {
        r.push(v[n - 1 - i]);
        i += 1;
    }
    proof {
        assert(r@ =~= rev_bytes(v@));
    }
    r
}

fn parse_input(b: &Vec<u8>, pos: &mut usize) -> (r: Result<ParsedInput, TxParseError>)
    requires
        *old(pos) <= b@.len(),
    ensures
        match spec_parse_input(b@, *old(pos) as int) {
            Some(mp) => r is Ok && r->Ok_0@ == mp.0 && *final(pos) == mp.1,
            None => r is Err,
        },
        *final(pos) <= b@.len(),
{
    let mut p = *pos;
    let hash_wire = match read_bytes(b, &mut p, 32) {
        Some(h) => h,
        None => {
            return Err(TxParseError::Truncated);
        },
    };
    let prev_index = match read_u32_le(b, &mut p) {
        Some(v) => v,
        None => {
            return Err(TxParseError::Truncated);
        },
    };
    let slen = match read_varint(b, &mut p) {
        Ok(v) => v,
        Err(e) => {
            return Err(e);
        },
    };
    if slen > (b.len() - p) as u64 {
        return Err(TxParseError::Truncated);
    }
    let script_sig = match read_bytes(b, &mut p, slen as usize) {
        Some(s) => s,
        None => {
            return Err(TxParseError::Truncated);
        },
    };
    let sequence = match read_u32_le(b, &mut p) {
        Some(v) => v,
        None => {
            return Err(TxParseError::Truncated);
        },
    };
    let prev_hash = reverse_bytes(&hash_wire);
    *pos = p;
    Ok(ParsedInput { prev_hash, prev_index, script_sig, sequence })
}

fn parse_output(b: &Vec<u8>, pos: &mut usize) -> (r: Result<ParsedOutput, TxParseError>)
    requires
        *old(pos) <= b@.len(),
    ensures
        match spec_parse_output(b@, *old(pos) as int) {
            Some(mp) => r is Ok && r->Ok_0@ == mp.0 && *final(pos) == mp.1,
            None => r is Err,
        },
        *final(pos) <= b@.len(),
{
    let mut p = *pos;
    let amount = match read_u64_le(b, &mut p) {
        Some(v) => v,
        None => {
            return Err(TxParseError::Truncated);
        },
    };
    let slen = match read_varint(b, &mut p) {
        Ok(v) => v,
        Err(e) => {
            return Err(e);
        },
    };
    if slen > (b.len() - p) as u64 {
        return Err(TxParseError::Truncated);
    }
    let script_pubkey = match read_bytes(b, &mut p, slen as usize) {
        Some(s) => s,
        None => {
            return Err(TxParseError::Truncated);
        },
    };
    *pos = p;
    Ok(ParsedOutput { amount, script_pubkey })
}

/// Parses a raw transaction.  Succeeds exactly on the encodings the
/// specification-level reader accepts: complete fields, minimal varints,
/// and nothing after the lock time.
#[verifier::loop_isolation(false)]
pub fn parse_tx(b: &Vec<u8>) -> (r: Result<ParsedTx, TxParseError>)
    ensures
        r is Ok <==> spec_parse_tx(b@) is Some,
        r matches Ok(t) ==> spec_parse_tx(b@) == Some(t@),
{
    let mut pos: usize = 0;
    let version = match read_u32_le(b, &mut pos) {
        Some(v) => v,
        None => {
            return Err(TxParseError::Truncated);
        },
    };
    let icnt = match read_varint(b, &mut pos) {
        Ok(v) => v,
        Err(e) => {
            return Err(e);
        },
    };
    let ghost p2 = pos as int;
    let mut inputs: Vec<ParsedInput> = Vec::new();
    let mut i: u64 = 0;
    while i < icnt
        invariant
            0 <= i <= icnt,
            pos <= b@.len(),
            inputs@.len() == i,
            spec_parse_inputs(b@, p2, icnt as nat) == (match spec_parse_inputs(
                b@,
                pos as int,
                (icnt - i) as nat,
            ) {
                Some(msp) => Some(
                    (inputs@.map_values(|x: ParsedInput| x@) + msp.0, msp.1),
                ),
                None => None::<(Seq<TxInModel>, int)>,
            }),
        decreases icnt - i,
    {
        let ghost pos_before = pos as int;
        match parse_input(b, &mut pos) {
            Ok(inp) => {
                proof {
                    let rem = (icnt - i) as nat;
                    let m = inp@;
                    let pm = pos as int;
                    assert(spec_parse_inputs(b@, pos_before, rem) == (
                    match spec_parse_inputs(b@, pm, (rem - 1) as nat) {
                        Some(msp) => Some((seq![m] + msp.0, msp.1)),
                        None => None::<(Seq<TxInModel>, int)>,
                    }));
                    if spec_parse_inputs(b@, pm, (rem - 1) as nat) is Some {
                        let msp = spec_parse_inputs(b@, pm, (rem - 1) as nat)->0;
                        assert(inputs@.map_values(|x: ParsedInput| x@) + (seq![m] + msp.0) =~= (
                        inputs@.map_values(|x: ParsedInput| x@) + seq![m]) + msp.0);
                        assert((inputs@ + seq![inp]).map_values(|x: ParsedInput| x@) =~= inputs@
                            .map_values(|x: ParsedInput| x@) + seq![m]);
                    }
                }
                inputs.push(inp);
            },
            Err(e) => {
                proof {
                    assert(spec_parse_inputs(b@, pos_before, (icnt - i) as nat) is None);
                }
                return Err(e);
            },
        }
        i += 1;
    }
    let ocnt = match read_varint(b, &mut pos) {
        Ok(v) => v,
        Err(e) => {
            return Err(e);
        },
    };
    let ghost p4 = pos as int;
    let mut outputs: Vec<ParsedOutput> = Vec::new();
    let mut j: u64 = 0;
    while j < ocnt
        invariant
            0 <= j <= ocnt,
            pos <= b@.len(),
            outputs@.len() == j,
            spec_parse_outputs(b@, p4, ocnt as nat) == (match spec_parse_outputs(
                b@,
                pos as int,
                (ocnt - j) as nat,
            ) {
                Some(msp) => Some(
                    (outputs@.map_values(|x: ParsedOutput| x@) + msp.0, msp.1),
                ),
                None => None::<(Seq<TxOutModel>, int)>,
            }),
        decreases ocnt - j,
    {
        let ghost pos_before = pos as int;
        match parse_output(b, &mut pos) {
            Ok(outp) => {
                proof {
                    let rem = (ocnt - j) as nat;
                    let m = outp@;
                    let pm = pos as int;
                    assert(spec_parse_outputs(b@, pos_before, rem) == (
                    match spec_parse_outputs(b@, pm, (rem - 1) as nat) {
                        Some(msp) => Some((seq![m] + msp.0, msp.1)),
                        None => None::<(Seq<TxOutModel>, int)>,
                    }));
                    if spec_parse_outputs(b@, pm, (rem - 1) as nat) is Some {
                        let msp = spec_parse_outputs(b@, pm, (rem - 1) as nat)->0;
                        assert(outputs@.map_values(|x: ParsedOutput| x@) + (seq![m] + msp.0) =~= (
                        outputs@.map_values(|x: ParsedOutput| x@) + seq![m]) + msp.0);
                        assert((outputs@ + seq![outp]).map_values(|x: ParsedOutput| x@) =~= outputs@
                            .map_values(|x: ParsedOutput| x@) + seq![m]);
                    }
                }
                outputs.push(outp);
            },
            Err(e) => {
                proof {
                    assert(spec_parse_outputs(b@, pos_before, (ocnt - j) as nat) is None);
                }
                return Err(e);
            },
        }
        j += 1;
    }
    let lock_time = match read_u32_le(b, &mut pos) {
        Some(v) => v,
        None => {
            return Err(TxParseError::Truncated);
        },
    };
    if pos != b.len() {
        return Err(TxParseError::TrailingBytes);
    }
    let t = ParsedTx { version, inputs, outputs, lock_time };
    proof {
        assert(t@.inputs + Seq::<TxInModel>::empty() =~= t@.inputs);
        assert(t@.outputs + Seq::<TxOutModel>::empty() =~= t@.outputs);
        assert(spec_parse_tx(b@) == Some(t@));
    }
    Ok(t)
}

/// Parses a raw transaction from its hex encoding.
pub fn parse_transaction_from_hex(hex_data: &str) -> (r: Result<ParsedTx, TxParseError>)
    ensures
        r is Ok <==> crate::hexcodec::hex_decode_ok(hex_data@) && spec_parse_tx(
            crate::hexcodec::hex_decode_spec(hex_data@),
        ) is Some,
        r matches Ok(t) ==> spec_parse_tx(crate::hexcodec::hex_decode_spec(hex_data@)) == Some(
            t@,
        ),
{
    match crate::hexcodec::hex_decode(hex_data) {
        Some(bytes) => parse_tx(&bytes),
        None => Err(TxParseError::InvalidHex),
    }
}

fn write_varint(out: &mut Vec<u8>, v: u64)
    ensures
        final(out)@ == old(out)@ + ser_varint(v),
{
    if v <= 252 {
        out.push(v as u8);
        proof {
            assert(out@ =~= old(out)@ + ser_varint(v));
        }
    } else if v <= 0xFFFF {
        out.push(253);
        let mut tail = u16_to_le_bytes(v as u16);
        out.append(&mut tail);
        proof {
            assert(out@ =~= old(out)@ + ser_varint(v));
        }
    } else if v <= 0xFFFF_FFFF {
        out.push(254);
        let mut tail = u32_to_le_bytes(v as u32);
        out.append(&mut tail);
        proof {
            assert(out@ =~= old(out)@ + ser_varint(v));
        }
    } else {
        out.push(255);
        let mut tail = u64_to_le_bytes(v);
        out.append(&mut tail);
        proof {
            assert(out@ =~= old(out)@ + ser_varint(v));
        }
    }
}

/// Serializes a structured transaction back to raw bytes, the exact
/// inverse of what the parser accepted.
pub fn serialize_tx(t: &ParsedTx) -> (r: Vec<u8>)
    ensures
        r@ == ser_tx(t@),
{
    let mut out: Vec<u8> = Vec::new();
    let mut version_bytes = u32_to_le_bytes(t.version);
    out.append(&mut version_bytes);
    write_varint(&mut out, t.inputs.len() as u64);
    let ghost pre_inputs = out@;
    let mut i: usize = 0;
    while i < t.inputs.len()
        invariant
            0 <= i <= t.inputs@.len(),
            out@ == pre_inputs + ser_inputs(t.inputs@.map_values(|x: ParsedInput| x@).take(
                i as int,
            )),
        decreases t.inputs@.len() - i,
    {
        let ghost before = out@;
        let inp = &t.inputs[i];
        let mut hash_wire = reverse_bytes(&inp.prev_hash);
        out.append(&mut hash_wire);
        let mut idx_bytes = u32_to_le_bytes(inp.prev_index);
        out.append(&mut idx_bytes);
        write_varint(&mut out, inp.script_sig.len() as u64);
        let mut script = clone_bytes(&inp.script_sig);
        out.append(&mut script);
        let mut seq_bytes = u32_to_le_bytes(inp.sequence);
        out.append(&mut seq_bytes);
        proof {
            let ms = t.inputs@.map_values(|x: ParsedInput| x@);
            assert(out@ =~= before + ser_input(ms[i as int]));
            lemma_ser_inputs_snoc(ms.take(i as int), ms[i as int]);
            assert(ms.take(i + 1) =~= ms.take(i as int).push(ms[i as int]));
        }
        i += 1;
    }
    proof {
        let ms = t.inputs@.map_values(|x: ParsedInput| x@);
        assert(ms.take(ms.len() as int) =~= ms);
    }
    write_varint(&mut out, t.outputs.len() as u64);
    let ghost pre_outputs = out@;
    let mut j: usize = 0;
    while j < t.outputs.len()
        invariant
            0 <= j <= t.outputs@.len(),
            out@ == pre_outputs + ser_outputs(t.outputs@.map_values(|x: ParsedOutput| x@).take(
                j as int,
            )),
        decreases t.outputs@.len() - j,
    {
        let ghost before = out@;
        let outp = &t.outputs[j];
        let mut amount_bytes = u64_to_le_bytes(outp.amount);
        out.append(&mut amount_bytes);
        write_varint(&mut out, outp.script_pubkey.len() as u64);
        let mut script = clone_bytes(&outp.script_pubkey);
        out.append(&mut script);
        proof {
            let ms = t.outputs@.map_values(|x: ParsedOutput| x@);
            assert(out@ =~= before + ser_output(ms[j as int]));
            lemma_ser_outputs_snoc(ms.take(j as int), ms[j as int]);
            assert(ms.take(j + 1) =~= ms.take(j as int).push(ms[j as int]));
        }
        j += 1;
    }
    proof {
        let ms = t.outputs@.map_values(|x: ParsedOutput| x@);
        assert(ms.take(ms.len() as int) =~= ms);
    }
    let mut lock_bytes = u32_to_le_bytes(t.lock_time);
    out.append(&mut lock_bytes);
    proof {
        assert(out@ =~= ser_tx(t@));
    }
    out
}

/// Serializes and hex-encodes a structured transaction.
pub fn serialize_tx_hex(t: &ParsedTx) -> (r: String)
    ensures
        r@ == crate::hexcodec::hex_encode_spec(ser_tx(t@)),
{
    let bytes = serialize_tx(t);
    crate::hexcodec::hex_encode(&bytes)
}

fn clone_bytes(v: &Vec<u8>) -> (r: Vec<u8>)
    ensures
        r@ == v@,
{
    let mut r: Vec<u8> = Vec::new();
    let mut i: usize = 0;
    while i < v.len()
        invariant
            0 <= i <= v@.len(),
            r@ == v@.take(i as int),
        decreases v@.len() - i,
    {
        r.push(v[i]);
        proof {
            assert(v@.take(i + 1) =~= v@.take(i as int).push(v@[i as int]));
        }
        i += 1;
    }
    proof {
        assert(v@.take(v@.len() as int) =~= v@);
    }
    r
}

proof fn lemma_ser_inputs_snoc(ms: Seq<TxInModel>, m: TxInModel)
    ensures
        ser_inputs(ms.push(m)) == ser_inputs(ms) + ser_input(m),
    decreases ms.len(),
{
    if ms.len() == 0 {
        assert(ms.push(m)[0] == m);
        assert(ms.push(m).skip(1) =~= Seq::<TxInModel>::empty());
        assert(ser_inputs(Seq::<TxInModel>::empty()) == Seq::<u8>::empty());
        assert(ser_inputs(ms.push(m)) =~= ser_input(m));
        assert(ser_inputs(ms) + ser_input(m) =~= ser_input(m));
    } else {
        assert(ms.push(m)[0] == ms[0]);
        assert(ms.push(m).skip(1) =~= ms.skip(1).push(m));
        lemma_ser_inputs_snoc(ms.skip(1), m);
        assert(ser_inputs(ms.push(m)) =~= ser_inputs(ms) + ser_input(m));
    }
}

proof fn lemma_ser_outputs_snoc(ms: Seq<TxOutModel>, m: TxOutModel)
    ensures
        ser_outputs(ms.push(m)) == ser_outputs(ms) + ser_output(m),
    decreases ms.len(),
{
    if ms.len() == 0 {
        assert(ms.push(m)[0] == m);
        assert(ms.push(m).skip(1) =~= Seq::<TxOutModel>::empty());
        assert(ser_outputs(Seq::<TxOutModel>::empty()) == Seq::<u8>::empty());
        assert(ser_outputs(ms.push(m)) =~= ser_output(m));
        assert(ser_outputs(ms) + ser_output(m) =~= ser_output(m));
    } else {
        assert(ms.push(m)[0] == ms[0]);
        assert(ms.push(m).skip(1) =~= ms.skip(1).push(m));
        lemma_ser_outputs_snoc(ms.skip(1), m);
        assert(ser_outputs(ms.push(m)) =~= ser_outputs(ms) + ser_output(m));
    }
}

} // verus!
