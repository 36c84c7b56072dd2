//! Hexadecimal text: the textual form of keys, signatures, digests and nonces.

use crate::text::chars_of;
use vstd::prelude::*;

verus! {

/// The lowercase hexadecimal digit for a value below sixteen.
pub open spec fn hex_digit(n: int) -> char {
    if n < 10 {
        ('0' as int + n) as char
    } else {
        ('a' as int + n - 10) as char
    }
}

/// The value of a hexadecimal digit of either case, `None` for any other character.
pub open spec fn hex_digit_value(c: char) -> Option<int> {
    if '0' <= c && c <= '9' {
        Some(c as int - '0' as int)
    } else if 'a' <= c && c <= 'f' {
        Some(c as int - 'a' as int + 10)
    } else if 'A' <= c && c <= 'F' {
        Some(c as int - 'A' as int + 10)
    } else {
        None
    }
}

/// The lowercase hexadecimal text of a byte string: two digits per byte, the
/// high half first.
pub open spec fn hex_text(bytes: Seq<u8>) -> Seq<char> {
    Seq::new(
        2 * bytes.len(),
        |i: int|
            if i % 2 == 0 {
                hex_digit(bytes[i / 2] as int / 16)
            } else {
                hex_digit(bytes[i / 2] as int % 16)
            },
    )
}

/// Whether a text decodes as hexadecimal: an even number of characters, each a
/// hexadecimal digit of either case.
pub open spec fn is_hex_text(text: Seq<char>) -> bool {
    &&& text.len() % 2 == 0
    &&& forall|i: int| 0 <= i < text.len() ==> (#[trigger] hex_digit_value(text[i])) is Some
}

/// The byte that a pair of hexadecimal digits stands for.
pub open spec fn hex_pair_value(high: char, low: char) -> u8 {
    (hex_digit_value(high).unwrap() * 16 + hex_digit_value(low).unwrap()) as u8
}

/// The bytes that a hexadecimal text stands for. Meaningful where
/// `is_hex_text` holds.
pub open spec fn hex_value(text: Seq<char>) -> Seq<u8> {
    Seq::new((text.len() / 2) as nat, |i: int| hex_pair_value(text[2 * i], text[2 * i + 1]))
}

/// Whether every character is a lowercase hexadecimal digit.
pub open spec fn is_lower_hex(text: Seq<char>) -> bool {
    forall|i: int|
        0 <= i < text.len() ==> ('0' <= #[trigger] text[i] <= '9' || 'a' <= text[i] <= 'f')
}

/// The decoding error of the `hex` crate. Nothing is read from it.
#[verifier::external_type_specification]
#[verifier::external_body]
pub struct ExFromHexError(hex::FromHexError);

/// `hex::encode`: the text has two lowercase digits per byte, the first for
/// the byte's high four bits and the second for its low four bits.
#[verifier::external_body]
fn hex_encode(bytes: &[u8]) -> (text: String)
    ensures
        text@ == hex_text(bytes@),
{
    hex::encode(bytes)
}

/// `hex::decode`: succeeds exactly on texts of even length made of digits
/// `0-9`, `a-f`, `A-F`, and then gives one byte per pair of digits, the first
/// digit being the high four bits.
#[verifier::external_body]
fn hex_decode(text: &str) -> (decoded: Result<Vec<u8>, hex::FromHexError>)
    ensures
        decoded is Ok <==> is_hex_text(text@),
        decoded matches Ok(bytes) ==> bytes@ == hex_value(text@),
{
    hex::decode(text)
}

/// Writes bytes as lowercase hexadecimal text.
pub fn to_hex(bytes: &[u8]) -> (text: String)
    ensures
        text@ == hex_text(bytes@),
        text@.len() == 2 * bytes@.len(),
{
    hex_encode(bytes)
}

/// Reads hexadecimal text of either case; `None` when the text is not
/// hexadecimal.
pub fn from_hex(text: &str) -> (bytes: Option<Vec<u8>>)
    ensures
        bytes is Some <==> is_hex_text(text@),
        bytes matches Some(b) ==> b@ == hex_value(text@),
{
    match hex_decode(text) {
        Ok(b) => Some(b),
        Err(_) => None,
    }
}

/// Reads hexadecimal text as this library writes it, in lowercase digits
/// only; `None` when the text is not hexadecimal or holds a capital.
pub fn from_lower_hex(text: &str) -> (bytes: Option<Vec<u8>>)
    ensures
        bytes is Some <==> is_hex_text(text@) && is_lower_hex(text@),
        bytes matches Some(b) ==> b@ == hex_value(text@),
{
    let chars = chars_of(text);
    let mut i: usize = 0;
    while i < chars.len()
        invariant
            i <= chars.len(),
            chars@ == text@,
            forall|k: int|
                0 <= k < i ==> ('0' <= #[trigger] chars@[k] <= '9' || 'a' <= chars@[k] <= 'f'),
        decreases chars.len() - i,
    {
        let c = chars[i];
        if !(('0' <= c && c <= '9') || ('a' <= c && c <= 'f')) {
            assert(!('0' <= text@[i as int] <= '9' || 'a' <= text@[i as int] <= 'f'));
            return None;
        }
        i += 1;
    }
    from_hex(text)
}

/// A hexadecimal digit stands for its own value.
pub proof fn lemma_hex_digit_value(n: int)
    requires
        0 <= n < 16,
    ensures
        hex_digit_value(hex_digit(n)) == Some(n),
        '0' <= hex_digit(n) <= '9' || 'a' <= hex_digit(n) <= 'f',
{
}

/// Hexadecimal text written from bytes is lowercase, and reads back as the
/// same bytes.
pub proof fn lemma_hex_round_trip(bytes: Seq<u8>)
    ensures
        is_hex_text(hex_text(bytes)),
        is_lower_hex(hex_text(bytes)),
        hex_value(hex_text(bytes)) == bytes,
{
    let text = hex_text(bytes);
    assert forall|i: int| 0 <= i < text.len() implies (#[trigger] hex_digit_value(text[i])) is Some
        && ('0' <= text[i] <= '9' || 'a' <= text[i] <= 'f') by {
        let b = bytes[i / 2] as int;
        lemma_hex_digit_value(b / 16);
        lemma_hex_digit_value(b % 16);
    }
    assert forall|k: int| 0 <= k < bytes.len() implies hex_value(text)[k] == bytes[k] by {
        let b = bytes[k] as int;
        lemma_hex_digit_value(b / 16);
        lemma_hex_digit_value(b % 16);
        assert(text[2 * k] == hex_digit(b / 16));
        assert(text[2 * k + 1] == hex_digit(b % 16));
    }
    assert(hex_value(text) =~= bytes);
}

/// Whether two texts have the same hexadecimal digits, whatever the case of
/// each.
pub open spec fn same_hex_digits(a: Seq<char>, b: Seq<char>) -> bool {
    &&& a.len() == b.len()
    &&& forall|i: int| 0 <= i < a.len() ==> hex_digit_value(#[trigger] a[i]) == hex_digit_value(b[i])
}

/// Hexadecimal texts that stand for the same bytes have the same digits:
/// they can differ in the case of a digit and in nothing else.
pub proof fn lemma_hex_value_determines_digits(a: Seq<char>, b: Seq<char>)
    requires
        is_hex_text(a),
        is_hex_text(b),
        hex_value(a) == hex_value(b),
    ensures
        same_hex_digits(a, b),
{
    assert(hex_value(a).len() == a.len() / 2);
    assert(hex_value(b).len() == b.len() / 2);
    assert(a.len() == b.len());
    assert forall|i: int| 0 <= i < a.len() implies hex_digit_value(#[trigger] a[i])
        == hex_digit_value(b[i]) by {
        let k = i / 2;
        assert(hex_value(a)[k] == hex_value(b)[k]);
        assert(hex_digit_value(a[2 * k]) is Some && hex_digit_value(a[2 * k + 1]) is Some);
        assert(hex_digit_value(b[2 * k]) is Some && hex_digit_value(b[2 * k + 1]) is Some);
        let ah = hex_digit_value(a[2 * k]).unwrap();
        let al = hex_digit_value(a[2 * k + 1]).unwrap();
        let bh = hex_digit_value(b[2 * k]).unwrap();
        let bl = hex_digit_value(b[2 * k + 1]).unwrap();
        assert(0 <= ah < 16 && 0 <= al < 16 && 0 <= bh < 16 && 0 <= bl < 16);
        assert(hex_value(a)[k] == (ah * 16 + al) as u8);
        assert(hex_value(b)[k] == (bh * 16 + bl) as u8);
        assert(ah * 16 + al == bh * 16 + bl);
        assert(ah == bh && al == bl);
    }
}

/// Lowercase hexadecimal texts that stand for the same bytes are the same
/// text.
pub proof fn lemma_lower_hex_is_unique(a: Seq<char>, b: Seq<char>)
    requires
        is_hex_text(a),
        is_hex_text(b),
        is_lower_hex(a),
        is_lower_hex(b),
        hex_value(a) == hex_value(b),
    ensures
        a == b,
{
    lemma_hex_value_determines_digits(a, b);
    assert forall|i: int| 0 <= i < a.len() implies a[i] == b[i] by {
        assert(hex_digit_value(a[i]) == hex_digit_value(b[i]));
    }
    assert(a =~= b);
}

} // verus!
