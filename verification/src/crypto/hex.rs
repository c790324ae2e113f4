//! Lowercase hexadecimal text.

use vstd::prelude::*;
use vstd::utf8::{encode_utf8, is_ascii_chars, is_ascii_chars_encode_utf8};

verus! {

/// The lowercase hexadecimal digit of a number below 16.
pub open spec fn hex_digit(nibble: int) -> char {
    "0123456789abcdef"@[nibble]
}

/// The lowercase hexadecimal text of a byte string: two digits a byte, the
/// high half first.
pub open spec fn hex_text(data: Seq<u8>) -> Seq<char> {
    Seq::new(
        2 * data.len(),
        |i: int|
            if i % 2 == 0 {
                hex_digit(data[i / 2] as int / 16)
            } else {
                hex_digit(data[i / 2] as int % 16)
            },
    )
}

/// The number that a hexadecimal digit in ASCII stands for, in either case.
pub open spec fn hex_digit_value(byte: u8) -> Option<u8> {
    if 48 <= byte <= 57 {
        Some((byte - 48) as u8)
    } else if 97 <= byte <= 102 {
        Some((byte - 87) as u8)
    } else if 65 <= byte <= 70 {
        Some((byte - 55) as u8)
    } else {
        None
    }
}

/// Whether a text in ASCII is hexadecimal: an even number of digits.
pub open spec fn is_hex(text: Seq<u8>) -> bool {
    &&& text.len() % 2 == 0
    &&& forall|i: int| 0 <= i < text.len() ==> hex_digit_value(#[trigger] text[i]) is Some
}

/// The bytes that a hexadecimal text stands for: one for each two digits,
/// the high half first.
pub open spec fn hex_bytes(text: Seq<u8>) -> Seq<u8> {
    Seq::new(
        text.len() / 2,
        |i: int|
            (hex_digit_value(text[2 * i])->0 * 16 + hex_digit_value(text[2 * i + 1])->0) as u8,
    )
}

/// Calls `hex::encode`, which writes each byte as two lowercase hexadecimal
/// digits. Trusted: the result is the text given by [`hex_text`].
#[verifier::external_body]
pub(crate) fn hex_encode(data: &[u8]) -> (text: String)
    ensures
        text@ == hex_text(data@),
{
    hex::encode(data)
}

/// Calls `hex::decode`, which reads two hexadecimal digits of either case
/// as one byte and fails on an odd number of digits and on anything that is
/// no digit. Trusted: the call succeeds exactly on what [`is_hex`] accepts,
/// with the bytes given by [`hex_bytes`].
#[verifier::external_body]
pub(crate) fn hex_decode(text: &[u8]) -> (data: Option<Vec<u8>>)
    ensures
        data is Some <==> is_hex(text@),
        data matches Some(bytes) ==> bytes@ == hex_bytes(text@),
{
    hex::decode(text).ok()
}

/// The hexadecimal text of bytes stands for these bytes.
pub proof fn lemma_hex_round_trip(data: Seq<u8>)
    ensures
        is_hex(encode_utf8(hex_text(data))),
        hex_bytes(encode_utf8(hex_text(data))) == data,
{
    reveal_strlit("0123456789abcdef");
    let chars = hex_text(data);
    assert forall|n: int| 0 <= n < 16 implies '\0' <= #[trigger] hex_digit(n) <= '\u{7f}'
        && hex_digit_value(hex_digit(n) as u8) == Some(n as u8) by {
        let digits = "0123456789abcdef"@;
        assert(digits[0] == '0' && digits[1] == '1' && digits[2] == '2' && digits[3] == '3');
        assert(digits[4] == '4' && digits[5] == '5' && digits[6] == '6' && digits[7] == '7');
        assert(digits[8] == '8' && digits[9] == '9' && digits[10] == 'a' && digits[11] == 'b');
        assert(digits[12] == 'c' && digits[13] == 'd' && digits[14] == 'e' && digits[15] == 'f');
    }
    assert(is_ascii_chars(chars)) by {
        assert forall|i: int| 0 <= i < chars.len() implies '\0' <= #[trigger] chars[i]
            <= '\u{7f}' by {
            let n = if i % 2 == 0 {
                data[i / 2] as int / 16
            } else {
                data[i / 2] as int % 16
            };
            assert(chars[i] == hex_digit(n));
        }
    }
    is_ascii_chars_encode_utf8(chars);
    let text = encode_utf8(chars);
    assert forall|i: int| 0 <= i < text.len() implies hex_digit_value(#[trigger] text[i])
        is Some by {
        let n = if i % 2 == 0 {
            data[i / 2] as int / 16
        } else {
            data[i / 2] as int % 16
        };
        assert(chars[i] == hex_digit(n));
        assert(text[i] == chars[i] as u8);
    }
    assert forall|k: int| 0 <= k < data.len() implies hex_bytes(text)[k] == data[k] by {
        assert(chars[2 * k] == hex_digit(data[k] as int / 16));
        assert(chars[2 * k + 1] == hex_digit(data[k] as int % 16));
        assert(text[2 * k] == chars[2 * k] as u8);
        assert(text[2 * k + 1] == chars[2 * k + 1] as u8);
    }
    assert(hex_bytes(text) =~= data);
}

} // verus!
