use keepkey_vault::txparse::{parse_transaction_from_hex, serialize_tx_hex, TxParseError};

// The empty transaction: version 2, no inputs, no outputs, lock time 7.
const EMPTY_TX_HEX: &str = "02000000000007000000";

#[test]
fn serialized_hex_is_lowercase_two_digits_per_byte() {
    let t = parse_transaction_from_hex(EMPTY_TX_HEX).expect("parses");
    assert_eq!(t.version, 2);
    assert_eq!(t.lock_time, 7);
    assert_eq!(serialize_tx_hex(&t), EMPTY_TX_HEX);
}

#[test]
fn hex_of_either_case_decodes_the_same() {
    let upper = EMPTY_TX_HEX.to_uppercase();
    let t = parse_transaction_from_hex(&upper).expect("parses");
    // Re-encoding always comes out lowercase.
    assert_eq!(serialize_tx_hex(&t), EMPTY_TX_HEX);
}

#[test]
fn odd_length_and_bad_digits_are_invalid_hex() {
    assert!(matches!(
        parse_transaction_from_hex("020"),
        Err(TxParseError::InvalidHex)
    ));
    assert!(matches!(
        parse_transaction_from_hex("zz"),
        Err(TxParseError::InvalidHex)
    ));
    assert!(matches!(
        parse_transaction_from_hex("0x00"),
        Err(TxParseError::InvalidHex)
    ));
}

#[test]
fn decoded_bytes_agree_with_the_reference_codec() {
    let t = parse_transaction_from_hex(EMPTY_TX_HEX).expect("parses");
    let bytes = keepkey_vault::txparse::serialize_tx(&t);
    assert_eq!(bytes, hex::decode(EMPTY_TX_HEX).expect("hex"));
    assert_eq!(hex::encode(&bytes), EMPTY_TX_HEX);
}
