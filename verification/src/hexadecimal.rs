//! Bytes in hexadecimal notation, by way of the `hex` crate.
use crate::relation::same_letters;
use crate::text::{ascii_lower, law_case_is_all_that_is_ignored, same_ignoring_ascii_case};
use vstd::prelude::*;

verus! {

/// The lower-case hexadecimal digit `d`.
pub open spec fn hex_digit(d: int) -> char {
    if d < 10 {
        ('0' as u32 + d) as char
    } else {
        ('a' as u32 + d - 10) as char
    }
}

/// The value of the hexadecimal digit `c`, of either letter case.
pub open spec fn hex_value(c: char) -> Option<int> {
    if '0' <= c <= '9' {
        Some(c as u32 - '0' as u32)
    } else if 'a' <= c <= 'f' {
        Some(c as u32 - 'a' as u32 + 10)
    } else if 'A' <= c <= 'F' {
        Some(c as u32 - 'A' as u32 + 10)
    } else {
        None
    }
}

/// `bytes` as two lower-case digits each, the high one first.
pub open spec fn hex_encoded(bytes: Seq<u8>) -> Seq<char> {
    Seq::new(
        2 * bytes.len(),
        |i: int|
            hex_digit(
                if i % 2 == 0 {
                    bytes[i / 2] as int / 16
                } else {
                    bytes[i / 2] as int % 16
                },
            ),
    )
}

/// The bytes that `s` writes as two digits each, where it is made of such pairs.
pub open spec fn hex_decoded(s: Seq<char>) -> Option<Seq<u8>> {
    if s.len() % 2 == 0 && forall|i: int| 0 <= i < s.len() ==> hex_value(#[trigger] s[i]) is Some {
        Some(
            Seq::new(
                s.len() / 2,
                |i: int| (16 * hex_value(s[2 * i])->0 + hex_value(s[2 * i + 1])->0) as u8,
            ),
        )
    } else {
        None
    }
}

/// Decoding the hexadecimal notation of some bytes gives those bytes.
pub proof fn law_hex_decodes_back(bytes: Seq<u8>)
    ensures
        hex_decoded(hex_encoded(bytes)) == Some(bytes),
{
    let s = hex_encoded(bytes);
    assert forall|i: int| 0 <= i < s.len() implies hex_value(#[trigger] s[i]) is Some by {}
    let back = hex_decoded(s)->0;
    assert forall|i: int| 0 <= i < bytes.len() implies back[i] == bytes[i] by {
        assert((2 * i) / 2 == i && (2 * i) % 2 == 0);
        assert((2 * i + 1) / 2 == i && (2 * i + 1) % 2 == 1);
        assert(hex_value(s[2 * i]) == Some(bytes[i] as int / 16));
        assert(hex_value(s[2 * i + 1]) == Some(bytes[i] as int % 16));
    }
    assert(back =~= bytes);
}

/// The letter case of the digits does not count.
pub proof fn law_digit_case_does_not_count(a: Seq<char>, b: Seq<char>)
    requires
        same_ignoring_ascii_case(a, b),
    ensures
        hex_decoded(a) == hex_decoded(b),
{
    assert forall|i: int| 0 <= i < a.len() implies hex_value(#[trigger] a[i]) == hex_value(
        b[i],
    ) by {
        assert(ascii_lower(a[i]) == ascii_lower(b[i]));
    }
    if hex_decoded(a) is Some {
        assert forall|i: int| 0 <= i < b.len() implies hex_value(#[trigger] b[i]) is Some by {
            assert(hex_value(a[i]) is Some);
        }
        assert(hex_decoded(a)->0 =~= hex_decoded(b)->0);
    } else if hex_decoded(b) is Some {
        assert forall|i: int| 0 <= i < a.len() implies hex_value(#[trigger] a[i]) is Some by {
            assert(hex_value(b[i]) is Some);
        }
    }
}

/// Texts that write the same bytes differ in letter case at most.
pub proof fn law_notation_is_unique(a: Seq<char>, b: Seq<char>)
    requires
        hex_decoded(a) is Some,
        hex_decoded(a) == hex_decoded(b),
    ensures
        same_ignoring_ascii_case(a, b),
{
    let bytes = hex_decoded(a)->0;
    assert(a.len() == 2 * bytes.len() && b.len() == 2 * bytes.len());
    assert forall|i: int| 0 <= i < a.len() implies ascii_lower(#[trigger] a[i]) == ascii_lower(
        b[i],
    ) by {
        let j = i / 2;
        assert(i == 2 * j || i == 2 * j + 1);
        let (ah, al) = (hex_value(a[2 * j])->0, hex_value(a[2 * j + 1])->0);
        let (bh, bl) = (hex_value(b[2 * j])->0, hex_value(b[2 * j + 1])->0);
        assert(hex_value(a[2 * j]) is Some && hex_value(a[2 * j + 1]) is Some);
        assert(hex_value(b[2 * j]) is Some && hex_value(b[2 * j + 1]) is Some);
        assert(bytes[j] == (16 * ah + al) as u8);
        assert(hex_decoded(b)->0[j] == (16 * bh + bl) as u8);
        assert(16 * ah + al == 16 * bh + bl);
        assert(ah == bh && al == bl);
    }
}

/// The error of `hex::decode`.
#[verifier::external_type_specification]
#[verifier::external_body]
pub struct ExFromHexError(hex::FromHexError);

/// `hex::encode`: two lower-case digits for each byte, the high one first.
#[verifier::external_body]
pub(crate) fn encode_hex(bytes: &[u8]) -> (text: String)
    ensures
        text@ == hex_encoded(bytes@),
{
    hex::encode(bytes)
}

/// `hex::decode`: the bytes that pairs of digits of either letter case write.
/// It fails where a character is no such digit or the last one stands alone.
#[verifier::external_body]
pub(crate) fn decode_hex(text: &str) -> (bytes: Result<Vec<u8>, hex::FromHexError>)
    ensures
        match bytes {
            Ok(bytes) => hex_decoded(text@) == Some(bytes@),
            Err(_) => hex_decoded(text@) is None,
        },
{
    hex::decode(text)
}

/// Each byte stands as two digits in its place, the high one first, of the sixteen lower-case
/// digits.
pub proof fn law_two_digits_for_each_byte(bytes: Seq<u8>, i: int)
    requires
        0 <= i < bytes.len(),
    ensures
        hex_encoded(bytes).len() == 2 * bytes.len(),
        hex_encoded(bytes)[2 * i] == "0123456789abcdef"@[bytes[i] as int / 16],
        hex_encoded(bytes)[2 * i + 1] == "0123456789abcdef"@[bytes[i] as int % 16],
{
    reveal_strlit("0123456789abcdef");
    assert((2 * i) / 2 == i && (2 * i) % 2 == 0);
    assert((2 * i + 1) / 2 == i && (2 * i + 1) % 2 == 1);
}

/// Text is read as bytes exactly where it is the notation of some bytes, in digits of either
/// letter case; those are the bytes that it is read as.
pub proof fn law_only_notation_is_decoded(s: Seq<char>, bytes: Seq<u8>)
    ensures
        hex_decoded(s) == Some(bytes) <==> same_letters(s, hex_encoded(bytes)),
{
    law_hex_decodes_back(bytes);
    law_case_is_all_that_is_ignored(s, hex_encoded(bytes));
    if hex_decoded(s) == Some(bytes) {
        law_notation_is_unique(s, hex_encoded(bytes));
    }
    if same_letters(s, hex_encoded(bytes)) {
        law_digit_case_does_not_count(s, hex_encoded(bytes));
    }
}

} // verus!
