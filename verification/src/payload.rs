//! The text of a raw payload. A payload that is valid UTF-8 is its text; any
//! other payload is replaced by a placeholder from which its bytes can be
//! read back: the tag `hex:` and two hexadecimal digits for each byte.

use vstd::prelude::*;
use vstd::utf8::{decode_utf8, valid_utf8};

verus! {

/// The hexadecimal digit of `n`, for `n` from 0 to 15, in lower case.
pub open spec fn hex_digit(n: int) -> char
    recommends
        0 <= n < 16,
{
    if n < 10 {
        ((48 + n) as u8) as char
    } else {
        ((87 + n) as u8) as char
    }
}

/// The hexadecimal text of `bytes`: for each byte its high digit and then
/// its low digit.
pub open spec fn hex_text(bytes: Seq<u8>) -> Seq<char> {
    Seq::new(
        2 * bytes.len(),
        |i: int|
            if i % 2 == 0 {
                hex_digit(bytes[i / 2] as int / 16)
            } else {
                hex_digit(bytes[i / 2] as int % 16)
            },
    )
}

/// The placeholder for a payload that is no text.
pub open spec fn placeholder(bytes: Seq<u8>) -> Seq<char> {
    "hex:"@ + hex_text(bytes)
}

/// The text of a raw payload.
pub open spec fn payload_text(bytes: Seq<u8>) -> Seq<char> {
    if valid_utf8(bytes) {
        decode_utf8(bytes)
    } else {
        placeholder(bytes)
    }
}

/// A hexadecimal digit tells its value.
pub proof fn hex_digit_is_lossless(m: int, n: int)
    requires
        0 <= m < 16,
        0 <= n < 16,
        hex_digit(m) == hex_digit(n),
    ensures
        m == n,
{
    assert(hex_digit(m) as u8 == if m < 10 {
        48 + m
    } else {
        87 + m
    });
    assert(hex_digit(n) as u8 == if n < 10 {
        48 + n
    } else {
        87 + n
    });
}

/// The placeholder is lossless: two payloads with the same placeholder
/// are the same bytes.
pub proof fn placeholder_is_lossless(a: Seq<u8>, b: Seq<u8>)
    requires
        placeholder(a) == placeholder(b),
    ensures
        a == b,
{
    let tag = "hex:"@;
    assert(hex_text(a) =~= placeholder(a).subrange(tag.len() as int, placeholder(a).len() as int));
    assert(hex_text(b) =~= placeholder(b).subrange(tag.len() as int, placeholder(b).len() as int));
    assert(hex_text(a) == hex_text(b));
    assert(a.len() == b.len()) by {
        assert(hex_text(a).len() == 2 * a.len());
        assert(hex_text(b).len() == 2 * b.len());
    }
    assert forall|k: int| 0 <= k < a.len() implies a[k] == b[k] by {
        assert(hex_text(a)[2 * k] == hex_digit(a[k] as int / 16));
        assert(hex_text(b)[2 * k] == hex_digit(b[k] as int / 16));
        assert(hex_text(a)[2 * k + 1] == hex_digit(a[k] as int % 16));
        assert(hex_text(b)[2 * k + 1] == hex_digit(b[k] as int % 16));
        hex_digit_is_lossless(a[k] as int / 16, b[k] as int / 16);
        hex_digit_is_lossless(a[k] as int % 16, b[k] as int % 16);
    }
    assert(a =~= b);
}

/// Trusted: `std::str::from_utf8` gives the text of the bytes exactly when
/// they are valid UTF-8, and fails otherwise.
#[verifier::external_body]
fn text_of_utf8(bytes: &Vec<u8>) -> (text: Option<String>)
    ensures
        text is Some == valid_utf8(bytes@),
        text is Some ==> text->0@ == decode_utf8(bytes@),
{
    std::str::from_utf8(bytes.as_slice()).ok().map(|text| text.to_owned())
}

/// The hexadecimal digit of `n`.
pub fn hex_digit_of(n: u8) -> (c: char)
    requires
        n < 16,
    ensures
        c == hex_digit(n as int),
{
    if n < 10 {
        (48u8 + n) as char
    } else {
        (87u8 + n) as char
    }
}

/// The placeholder for a payload that is no text.
pub fn placeholder_of(bytes: &Vec<u8>) -> (text: String)
    ensures
        text@ == placeholder(bytes@),
{
    let mut text = "hex:".to_owned();
    let ghost tag = "hex:"@;
    let mut i: usize = 0;
    assert(tag + hex_text(bytes@).take(0) =~= tag);
    while i < bytes.len()
        invariant
            i <= bytes.len(),
            tag == "hex:"@,
            text@ == tag + hex_text(bytes@).take(2 * i),
        decreases bytes.len() - i,
    {
        let b: u8 = bytes[i];
        let high = hex_digit_of(b / 16);
        let low = hex_digit_of(b % 16);
        proof {
            let all = hex_text(bytes@);
            assert(all[2 * i] == high);
            assert(all[2 * i + 1] == low);
            assert(all.take(2 * (i + 1)) =~= all.take(2 * i).push(high).push(low));
            assert(tag + all.take(2 * i).push(high).push(low) =~= (tag + all.take(2 * i)).push(
                high,
            ).push(low));
        }
        text.push(high);
        text.push(low);
        i = i + 1;
    }
    assert(hex_text(bytes@).take(2 * bytes.len()) =~= hex_text(bytes@));
    text
}

/// The text of a raw payload: the payload itself where it is valid UTF-8,
/// and its placeholder where it is not.
pub fn decode_payload(bytes: &Vec<u8>) -> (text: String)
    ensures
        text@ == payload_text(bytes@),
{
    match text_of_utf8(bytes) {
        Some(text) => text,
        None => placeholder_of(bytes),
    }
}

} // verus!
