use keepkey_vault::txparse::{
    parse_transaction_from_hex, parse_tx, serialize_tx, serialize_tx_hex, TxParseError,
};

const HASH_WIRE_HEX: &str = "0102030405060708090a0b0c0d0e0f101112131415161718191a1b1c1d1e1f20";

fn sample_tx_hex() -> String {
    let mut s = String::new();
    s.push_str("01000000"); // version 1
    s.push_str("01"); // one input
    s.push_str(HASH_WIRE_HEX); // previous-output hash, wire order
    s.push_str("00000000"); // previous-output index 0
    s.push_str("02abcd"); // two-byte script
    s.push_str("ffffffff"); // sequence
    s.push_str("01"); // one output
    s.push_str("8813000000000000"); // amount 5000, little-endian
    s.push_str("0151"); // one-byte script
    s.push_str("00000000"); // lock time 0
    s
}

#[test]
fn parses_structured_fields() {
    let t = parse_transaction_from_hex(&sample_tx_hex()).expect("parses");
    assert_eq!(t.version, 1);
    assert_eq!(t.lock_time, 0);
    assert_eq!(t.inputs.len(), 1);
    assert_eq!(t.outputs.len(), 1);
    let wire: Vec<u8> = (1u8..=32).collect();
    let display: Vec<u8> = (1u8..=32).rev().collect();
    assert_eq!(t.inputs[0].prev_hash, display);
    assert_ne!(t.inputs[0].prev_hash, wire);
    assert_eq!(t.inputs[0].prev_index, 0);
    assert_eq!(t.inputs[0].script_sig, vec![0xab, 0xcd]);
    assert_eq!(t.inputs[0].sequence, 0xffffffff);
    assert_eq!(t.outputs[0].amount, 5000);
    assert_eq!(t.outputs[0].script_pubkey, vec![0x51]);
}

#[test]
fn round_trip_reproduces_bytes_exactly() {
    let hex_in = sample_tx_hex();
    let t = parse_transaction_from_hex(&hex_in).expect("parses");
    assert_eq!(serialize_tx_hex(&t), hex_in);
    let bytes = hex::decode(&hex_in).expect("hex");
    let t2 = parse_tx(&bytes).expect("parses");
    assert_eq!(serialize_tx(&t2), bytes);
}

#[test]
fn truncated_bytes_are_rejected() {
    let mut hex_in = sample_tx_hex();
    hex_in.truncate(hex_in.len() - 2);
    assert!(matches!(
        parse_transaction_from_hex(&hex_in),
        Err(TxParseError::Truncated)
    ));
}

#[test]
fn non_minimal_varint_is_rejected() {
    // The input count 1 written in the two-byte form instead of one byte.
    let mut s = String::new();
    s.push_str("01000000");
    s.push_str("fd0100");
    s.push_str(&sample_tx_hex()[10..]);
    assert!(matches!(
        parse_transaction_from_hex(&s),
        Err(TxParseError::NonCanonicalVarint)
    ));
}

#[test]
fn trailing_bytes_are_rejected() {
    let mut hex_in = sample_tx_hex();
    hex_in.push_str("00");
    assert!(matches!(
        parse_transaction_from_hex(&hex_in),
        Err(TxParseError::TrailingBytes)
    ));
}

#[test]
fn bad_hex_is_rejected() {
    assert!(matches!(
        parse_transaction_from_hex("zz"),
        Err(TxParseError::InvalidHex)
    ));
}

#[test]
fn larger_varint_forms_round_trip() {
    // 253 inputs force the two-byte count form; every input is identical.
    let mut s = String::new();
    s.push_str("02000000");
    s.push_str("fdfd00"); // 253 inputs
    for _ in 0..253 {
        s.push_str(HASH_WIRE_HEX);
        s.push_str("01000000");
        s.push_str("00"); // empty script
        s.push_str("feffffff");
    }
    s.push_str("00"); // no outputs
    s.push_str("05000000");
    let t = parse_transaction_from_hex(&s).expect("parses");
    assert_eq!(t.inputs.len(), 253);
    assert_eq!(t.outputs.len(), 0);
    assert_eq!(serialize_tx_hex(&t), s);
}
