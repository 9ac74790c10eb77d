//! What the run log records of a request: the hash that finds earlier runs
//! of the same prompt.

use vstd::prelude::*;
use vstd::utf8::*;
use sha2::Digest;
use crate::encoding::{hex_encode, hex_lower};
use crate::types::Message;

verus! {

/// The SHA-256 digest that `sha2::Sha256` computes.
pub uninterp spec fn sha2_sha256(data: Seq<u8>) -> Seq<u8>;

/// `sha2::Sha256::digest`; the contract names the digest and its 32-byte
/// length.
#[verifier::external_body]
fn sha256(data: &[u8]) -> (r: Vec<u8>)
    ensures
        r@ == sha2_sha256(data@),
        r@.len() == 32,
{
    sha2::Sha256::digest(data).to_vec()
}

/// The UTF-8 bytes of the messages' contents, one after another.
pub open spec fn contents_bytes(messages: Seq<Message>) -> Seq<u8>
    decreases messages.len(),
{
    if messages.len() == 0 {
        Seq::empty()
    } else {
        contents_bytes(messages.drop_last()) + encode_utf8(messages.last().content@)
    }
}

/// The prompt hash of a request: SHA-256 over the contents of its messages
/// in order, in lowercase hexadecimal.
pub fn prompt_hash(messages: &[Message]) -> (r: String)
    ensures
        r@ == hex_lower(sha2_sha256(contents_bytes(messages@))),
{
    let mut bytes: Vec<u8> = Vec::new();
    let mut i: usize = 0;
    while i < messages.len()
        invariant
            i <= messages@.len(),
            bytes@ == contents_bytes(messages@.take(i as int)),
        decreases messages@.len() - i,
    {
        let b = messages[i].content.as_str().as_bytes();
        let mut j: usize = 0;
        let ghost start = bytes@;
        while j < b.len()
            invariant
                j <= b@.len(),
                bytes@ == start + b@.take(j as int),
            decreases b@.len() - j,
        {
            bytes.push(b[j]);
            j = j + 1;
            assert(bytes@ =~= start + b@.take(j as int));
        }
        assert(b@.take(b@.len() as int) =~= b@);
        assert(messages@.take(i + 1).drop_last() =~= messages@.take(i as int));
        i = i + 1;
    }
    assert(messages@.take(messages@.len() as int) =~= messages@);
    let digest = sha256(bytes.as_slice());
    hex_encode(digest.as_slice())
}

} // verus!
