//! Hex encoding and decoding.
//!
//! The conversions themselves are done by the `hex` crate; the contracts
//! here state the encoding exactly, so that callers can reason about round
//! trips byte for byte.

use vstd::prelude::*;

verus! {

/// The lowercase hex digit for a value below sixteen.
pub open spec fn hex_digit_char(v: int) -> char {
    if v == 0 {
        '0'
    } else if v == 1 {
        '1'
    } else if v == 2 {
        '2'
    } else if v == 3 {
        '3'
    } else if v == 4 {
        '4'
    } else if v == 5 {
        '5'
    } else if v == 6 {
        '6'
    } else if v == 7 {
        '7'
    } else if v == 8 {
        '8'
    } else if v == 9 {
        '9'
    } else if v == 10 {
        'a'
    } else if v == 11 {
        'b'
    } else if v == 12 {
        'c'
    } else if v == 13 {
        'd'
    } else if v == 14 {
        'e'
    } else {
        'f'
    }
}

/// Lowercase hex encoding: two digits for each byte, in byte order.
pub open spec fn hex_encode_spec(b: Seq<u8>) -> Seq<char> {
    Seq::new(
        2 * b.len(),
        |i: int|
            if i % 2 == 0 {
                hex_digit_char(b[i / 2] as int / 16)
            } else {
                hex_digit_char(b[i / 2] as int % 16)
            },
    )
}

pub open spec fn is_hex_digit(c: char) -> bool {
    ('0' <= c && c <= '9') || ('a' <= c && c <= 'f') || ('A' <= c && c <= 'F')
}

/// Value of one hex digit of either case.
pub open spec fn hex_digit_val(c: char) -> int {
    if '0' <= c && c <= '9' {
        c as int - '0' as int
    } else if 'a' <= c && c <= 'f' {
        c as int - 'a' as int + 10
    } else {
        c as int - 'A' as int + 10
    }
}

/// A string decodes as hex when its length is even and every character is
/// a hex digit of either case.
pub open spec fn hex_decode_ok(s: Seq<char>) -> bool {
    s.len() % 2 == 0 && forall|i: int| 0 <= i < s.len() ==> is_hex_digit(#[trigger] s[i])
}

/// The bytes a hex string stands for, one per digit pair.
pub open spec fn hex_decode_spec(s: Seq<char>) -> Seq<u8> {
    Seq::new(s.len() / 2, |i: int| (hex_digit_val(s[2 * i]) * 16 + hex_digit_val(s[2 * i + 1])) as u8)
}

/// Relies on `hex::encode`: two lowercase digits for each byte, in order.
#[verifier::external_body]
pub(crate) fn hex_encode(b: &Vec<u8>) -> (r: String)
    ensures
        r@ == hex_encode_spec(b@),
{
    hex::encode(b)
}

/// Relies on `hex::decode`: an even-length string of hex digits of either
/// case yields its bytes; any other string is rejected.
#[verifier::external_body]
pub(crate) fn hex_decode(s: &str) -> (r: Option<Vec<u8>>)
    ensures
        r is Some <==> hex_decode_ok(s@),
        r matches Some(v) ==> v@ == hex_decode_spec(s@),
{
    match hex::decode(s) {
        Ok(v) => Some(v),
        Err(_) => None,
    }
}

/// Decoding inverts encoding: the bytes of a hex-encoded sequence are the
/// sequence itself.
pub proof fn lemma_hex_decode_encode(b: Seq<u8>)
    ensures
        hex_decode_ok(hex_encode_spec(b)),
        hex_decode_spec(hex_encode_spec(b)) == b,
{
    let s = hex_encode_spec(b);
    assert forall|i: int| 0 <= i < s.len() implies is_hex_digit(#[trigger] s[i]) by {
        let v = b[i / 2] as int;
        assert(0 <= v / 16 < 16);
        assert(0 <= v % 16 < 16);
    }
    assert forall|i: int| 0 <= i < b.len() implies hex_decode_spec(s)[i] == b[i] by {
        let v = b[i] as int;
        assert(s[2 * i] == hex_digit_char(v / 16));
        assert(s[2 * i + 1] == hex_digit_char(v % 16));
        assert(0 <= v / 16 < 16);
        assert(0 <= v % 16 < 16);
        assert(hex_digit_val(hex_digit_char(v / 16)) == v / 16);
        assert(hex_digit_val(hex_digit_char(v % 16)) == v % 16);
        assert(v == (v / 16) * 16 + v % 16);
    }
    assert(hex_decode_spec(s) =~= b);
}

} // verus!
