//! Byte encodings: lowercase hexadecimal (`hex`), standard base64 (`base64`)
//! and UTF-8 text (std).

use vstd::prelude::*;
use vstd::utf8::*;
use base64::Engine;

verus! {

#[verifier::external_type_specification]
#[verifier::external_body]
pub struct ExDecodeError(base64::DecodeError);

#[verifier::external_type_specification]
#[verifier::external_body]
pub struct ExFromUtf8Error(std::string::FromUtf8Error);

/// The lowercase hexadecimal digit for `d` (`d < 16`).
pub open spec fn hex_digit(d: int) -> char {
    if d < 10 {
        (48 + d) as char
    } else {
        (87 + d) as char
    }
}

/// Each byte written as two lowercase hexadecimal digits, high nibble first.
pub open spec fn hex_lower(bytes: Seq<u8>) -> Seq<char> {
    Seq::new(
        2 * bytes.len(),
        |i: int|
            if i % 2 == 0 {
                hex_digit(bytes[i / 2] as int / 16)
            } else {
                hex_digit(bytes[i / 2] as int % 16)
            },
    )
}

/// The padded encoding takes four characters for every three bytes or part
/// of three.
pub proof fn lemma_base64_len(bytes: Seq<u8>)
    ensures
        base64_standard_encode(bytes).len() == 4 * ((bytes.len() + 2) / 3),
    decreases bytes.len(),
{
    if bytes.len() >= 3 {
        lemma_base64_len(bytes.subrange(3, bytes.len() as int));
    }
}

/// The character of the RFC 4648 base64 alphabet for a six-bit value.
pub open spec fn base64_char(v: int) -> char {
    if v < 26 {
        ('A' as int + v) as char
    } else if v < 52 {
        ('a' as int + (v - 26)) as char
    } else if v < 62 {
        ('0' as int + (v - 52)) as char
    } else if v == 62 {
        '+'
    } else {
        '/'
    }
}

/// The text that `base64`'s standard engine writes for the bytes: the padded
/// encoding of RFC 4648, four characters for each group of three bytes, a
/// last group of one or two bytes padded with `=`.
pub open spec fn base64_standard_encode(bytes: Seq<u8>) -> Seq<char>
    decreases bytes.len(),
{
    if bytes.len() == 0 {
        Seq::empty()
    } else if bytes.len() == 1 {
        let n = bytes[0] as int;
        seq![base64_char(n / 4), base64_char((n % 4) * 16), '=', '=']
    } else if bytes.len() == 2 {
        let n = bytes[0] as int * 256 + bytes[1] as int;
        seq![base64_char(n / 1024), base64_char((n / 16) % 64), base64_char((n % 16) * 4), '=']
    } else {
        let n = bytes[0] as int * 65536 + bytes[1] as int * 256 + bytes[2] as int;
        seq![base64_char(n / 262144), base64_char((n / 4096) % 64), base64_char((n / 64) % 64), base64_char(n % 64)]
            + base64_standard_encode(bytes.subrange(3, bytes.len() as int))
    }
}

/// The bytes that `base64`'s standard engine reads from the text, or `None`
/// where it refuses the text.
pub uninterp spec fn base64_standard_decode(text: Seq<char>) -> Option<Seq<u8>>;

/// `hex::encode`: the contract claims the documented lowercase encoding.
#[verifier::external_body]
pub(crate) fn hex_encode(bytes: &[u8]) -> (r: String)
    ensures
        r@ == hex_lower(bytes@),
{
    hex::encode(bytes)
}

/// `base64::engine::general_purpose::STANDARD.encode`. The contract claims
/// the padded RFC 4648 encoding, and that the standard engine decodes it
/// back to the same bytes.
#[verifier::external_body]
pub(crate) fn base64_encode(bytes: &[u8]) -> (r: String)
    requires
        bytes@.len() <= usize::MAX / 2,
    ensures
        r@ == base64_standard_encode(bytes@),
        base64_standard_decode(r@) == Some(bytes@),
{
    base64::engine::general_purpose::STANDARD.encode(bytes)
}

/// `base64::engine::general_purpose::STANDARD.decode`; the contract names
/// the outcome and claims that decoding never yields more bytes than the
/// text has characters (four characters carry at most three bytes).
#[verifier::external_body]
pub(crate) fn base64_decode(text: &str) -> (r: Result<Vec<u8>, base64::DecodeError>)
    ensures
        r is Ok == base64_standard_decode(text@) is Some,
        r matches Ok(b) ==> Some(b@) == base64_standard_decode(text@),
        r matches Ok(b) ==> b@.len() <= text@.len(),
{
    base64::engine::general_purpose::STANDARD.decode(text)
}

/// The `Display` text of a `base64::DecodeError`; nothing is claimed of it.
#[verifier::external_body]
pub(crate) fn decode_error_text(e: &base64::DecodeError) -> (r: String) {
    e.to_string()
}

/// `String::from_utf8`: as std documents, it succeeds exactly on valid
/// UTF-8 and the string then holds the decoded characters.
#[verifier::external_body]
pub(crate) fn string_from_utf8(bytes: Vec<u8>) -> (r: Result<String, std::string::FromUtf8Error>)
    ensures
        r is Ok == valid_utf8(bytes@),
        r matches Ok(s) ==> s@ == decode_utf8(bytes@),
{
    String::from_utf8(bytes)
}

/// The `Display` text of a `FromUtf8Error`; nothing is claimed of it.
#[verifier::external_body]
pub(crate) fn utf8_error_text(e: &std::string::FromUtf8Error) -> (r: String) {
    e.to_string()
}

/// The bytes of `s` as a vector.
pub fn bytes_of(s: &str) -> (v: Vec<u8>)
    ensures
        v@ == encode_utf8(s@),
{
    let b = s.as_bytes();
    let mut v: Vec<u8> = Vec::new();
    let mut i: usize = 0;
    while i < b.len()
        invariant
            i <= b@.len(),
            b@ == encode_utf8(s@),
            v@ == b@.subrange(0, i as int),
        decreases b@.len() - i,
    {
        v.push(b[i]);
        i = i + 1;
        assert(v@ =~= b@.subrange(0, i as int));
    }
    assert(v@ =~= b@);
    v
}

} // verus!
