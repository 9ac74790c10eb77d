//! The vault's cipher: keys derived with PBKDF2-HMAC-SHA256 and data sealed
//! with AES-256-GCM under a fresh random nonce, all provided by `ring`.

use vstd::prelude::*;
use vstd::utf8::*;
use rand::RngCore;
use crate::encoding::{hex_encode, hex_lower};
use crate::error::AcerError;

verus! {

#[verifier::external_type_specification]
#[verifier::external_body]
pub struct ExUnspecified(ring::error::Unspecified);

/// The 32-byte key that `ring::pbkdf2::derive` with `PBKDF2_HMAC_SHA256`
/// writes for the iteration count, salt and secret.
pub uninterp spec fn pbkdf2_hmac_sha256(iterations: u32, salt: Seq<u8>, secret: Seq<u8>) -> Seq<u8>;

/// The ciphertext followed by the 16-byte tag that `ring`'s AES-256-GCM
/// produces for the key, nonce and plaintext, with empty associated data.
pub uninterp spec fn aes_256_gcm_seal(key: Seq<u8>, nonce: Seq<u8>, plaintext: Seq<u8>) -> Seq<u8>;

/// The SHA-256 digest that `ring::digest::digest` computes.
pub uninterp spec fn ring_sha256(data: Seq<u8>) -> Seq<u8>;

/// The largest plaintext, in bytes, that `ring`'s AES-GCM accepts.
pub const AES_GCM_MAX_INPUT: u64 = 68719476704;

/// Bytes of nonce in front of every sealed blob.
pub const NONCE_LEN: usize = 12;

/// Bytes of authentication tag behind every ciphertext.
pub const TAG_LEN: usize = 16;

/// PBKDF2 rounds used to turn a password into a key.
pub const KEY_DERIVATION_ROUNDS: u32 = 100000;

/// Bytes of salt drawn when no salt is given.
pub const SALT_LEN: usize = 16;

/// Why a call into the cipher failed: the key could not be set up, or the
/// sealing or opening itself was refused.
pub enum CipherFault {
    KeyMaterial,
    Operation(ring::error::Unspecified),
}

/// `rand::thread_rng().fill_bytes` on a fresh buffer; only its length is
/// claimed.
#[verifier::external_body]
pub(crate) fn random_bytes(len: usize) -> (r: Vec<u8>)
    ensures
        r@.len() == len,
{
    let mut buf = vec![0u8; len];
    rand::thread_rng().fill_bytes(&mut buf);
    buf
}

/// `ring::pbkdf2::derive` with `PBKDF2_HMAC_SHA256` into a 32-byte buffer;
/// the contract names the output. `ring` panics on inputs longer than
/// SHA-256 can digest, which `requires` leaves out.
#[verifier::external_body]
fn pbkdf2_derive(iterations: u32, salt: &[u8], secret: &[u8]) -> (out: [u8; 32])
    requires
        iterations > 0,
        salt@.len() < 0x1000_0000_0000_0000,
        secret@.len() < 0x1000_0000_0000_0000,
    ensures
        out@ == pbkdf2_hmac_sha256(iterations, salt@, secret@),
{
    let mut out = [0u8; 32];
    let rounds = std::num::NonZeroU32::new(iterations).unwrap();
    ring::pbkdf2::derive(ring::pbkdf2::PBKDF2_HMAC_SHA256, rounds, salt, secret, &mut out);
    out
}

/// `ring::aead::LessSafeKey::seal_in_place_append_tag` with AES-256-GCM and
/// empty associated data, after `UnboundKey::new`. The contract claims
/// that a successful result is the named ciphertext-and-tag, sixteen bytes
/// longer than the plaintext, and that sealing succeeds exactly for the
/// plaintexts within the size AES-GCM accepts: a 32-byte key is always
/// accepted, and `ring` refuses exactly the longer inputs.
#[verifier::external_body]
fn seal(key: &[u8; 32], nonce: [u8; 12], plaintext: &[u8]) -> (r: Result<Vec<u8>, CipherFault>)
    ensures
        r is Ok <==> plaintext@.len() <= AES_GCM_MAX_INPUT,
        r matches Ok(c) ==> c@ == aes_256_gcm_seal(key@, nonce@, plaintext@),
        r matches Ok(c) ==> c@.len() == plaintext@.len() + 16,
{
    let unbound = match ring::aead::UnboundKey::new(&ring::aead::AES_256_GCM, key) {
        Ok(k) => k,
        Err(_) => return Err(CipherFault::KeyMaterial),
    };
    let sealing = ring::aead::LessSafeKey::new(unbound);
    let mut buf = plaintext.to_vec();
    let nonce = ring::aead::Nonce::assume_unique_for_key(nonce);
    match sealing.seal_in_place_append_tag(nonce, ring::aead::Aad::empty(), &mut buf) {
        Ok(()) => Ok(buf),
        Err(e) => Err(CipherFault::Operation(e)),
    }
}

/// `ring::aead::LessSafeKey::open_in_place` with AES-256-GCM and empty
/// associated data, after `UnboundKey::new`. The contract claims the
/// authenticated-encryption property of AES-GCM: what opens is the plaintext
/// that seals to the input, sixteen bytes of tag shorter than it, and an
/// input that is the sealing of a plaintext (within the size AES-GCM
/// accepts) opens to that plaintext.
#[verifier::external_body]
fn open(key: &[u8; 32], nonce: [u8; 12], sealed: &[u8]) -> (r: Result<Vec<u8>, CipherFault>)
    ensures
        r matches Ok(p) ==> aes_256_gcm_seal(key@, nonce@, p@) == sealed@,
        r matches Ok(p) ==> p@.len() + 16 == sealed@.len(),
        forall|p: Seq<u8>|
            p.len() <= AES_GCM_MAX_INPUT && #[trigger] aes_256_gcm_seal(key@, nonce@, p) == sealed@
                ==> r is Ok && r->Ok_0@ == p,
{
    let unbound = match ring::aead::UnboundKey::new(&ring::aead::AES_256_GCM, key) {
        Ok(k) => k,
        Err(_) => return Err(CipherFault::KeyMaterial),
    };
    let opening = ring::aead::LessSafeKey::new(unbound);
    let mut buf = sealed.to_vec();
    let nonce = ring::aead::Nonce::assume_unique_for_key(nonce);
    match opening.open_in_place(nonce, ring::aead::Aad::empty(), &mut buf) {
        Ok(plain) => Ok(plain.to_vec()),
        Err(e) => Err(CipherFault::Operation(e)),
    }
}

/// The `Display` text of `ring::error::Unspecified`, a fixed string in
/// `ring`'s source.
#[verifier::external_body]
fn unspecified_text(e: &ring::error::Unspecified) -> (r: String)
    ensures
        r@ == "ring::error::Unspecified"@,
{
    e.to_string()
}

/// `ring::digest::digest` with `SHA256`; the contract names the digest and
/// its documented 32-byte length. `ring` panics on inputs too long for
/// SHA-256, which `requires` leaves out.
#[verifier::external_body]
fn sha256_digest(data: &[u8]) -> (r: Vec<u8>)
    requires
        data@.len() < 0x1000_0000_0000_0000,
    ensures
        r@ == ring_sha256(data@),
        r@.len() == 32,
{
    ring::digest::digest(&ring::digest::SHA256, data).as_ref().to_vec()
}

/// The key derived from a password and salt.
pub open spec fn derived_key(password: Seq<char>, salt: Seq<u8>) -> Seq<u8> {
    pbkdf2_hmac_sha256(KEY_DERIVATION_ROUNDS, salt, encode_utf8(password))
}

/// `blob` is a nonce followed by the AES-256-GCM sealing of `plaintext`
/// under `key` and that nonce.
pub open spec fn sealed_by(key: Seq<u8>, blob: Seq<u8>, plaintext: Seq<u8>) -> bool {
    &&& blob.len() >= NONCE_LEN
    &&& aes_256_gcm_seal(key, blob.subrange(0, NONCE_LEN as int), plaintext) == blob.subrange(
        NONCE_LEN as int,
        blob.len() as int,
    )
}

/// The message of a failed sealing.
pub open spec fn seal_failure(f: CipherFault) -> Seq<char> {
    match f {
        CipherFault::KeyMaterial => "Invalid encryption key material"@,
        CipherFault::Operation(_) => "Encryption failed: ring::error::Unspecified"@,
    }
}

/// The message of a failed opening.
pub open spec fn open_failure(f: CipherFault) -> Seq<char> {
    match f {
        CipherFault::KeyMaterial => "Invalid encryption key material"@,
        CipherFault::Operation(_) => "Decryption failed: ring::error::Unspecified"@,
    }
}

/// `e` is a vault error with the message `msg`.
pub open spec fn is_vault_error(e: AcerError, msg: Seq<char>) -> bool {
    e matches AcerError::Vault(m) && m@ == msg
}

/// A 256-bit AES key.
pub struct EncryptionKey {
    key_bytes: [u8; 32],
}

impl View for EncryptionKey {
    type V = Seq<u8>;

    closed spec fn view(&self) -> Seq<u8> {
        self.key_bytes@
    }
}

impl Clone for EncryptionKey {
    fn clone(&self) -> (r: Self)
        ensures
            r@ == self@,
    {
        EncryptionKey { key_bytes: self.key_bytes }
    }
}

fn vault_message(prefix: &str, detail: String) -> (e: AcerError)
    ensures
        is_vault_error(e, prefix@ + detail@),
{
    let mut m = String::new();
    m.append(prefix);
    m.append(detail.as_str());
    AcerError::Vault(m)
}

fn seal_error(f: CipherFault) -> (e: AcerError)
    ensures
        is_vault_error(e, seal_failure(f)),
{
    match f {
        CipherFault::KeyMaterial => AcerError::Vault(String::from_str("Invalid encryption key material")),
        CipherFault::Operation(u) => {
            let e = vault_message("Encryption failed: ", unspecified_text(&u));
            proof {
                reveal_strlit("Encryption failed: ");
                reveal_strlit("ring::error::Unspecified");
                reveal_strlit("Encryption failed: ring::error::Unspecified");
            }
            assert(seal_failure(f) =~= "Encryption failed: "@ + "ring::error::Unspecified"@);
            e
        },
    }
}

fn open_error(f: CipherFault) -> (e: AcerError)
    ensures
        is_vault_error(e, open_failure(f)),
{
    match f {
        CipherFault::KeyMaterial => AcerError::Vault(String::from_str("Invalid encryption key material")),
        CipherFault::Operation(u) => {
            let e = vault_message("Decryption failed: ", unspecified_text(&u));
            proof {
                reveal_strlit("Decryption failed: ");
                reveal_strlit("ring::error::Unspecified");
                reveal_strlit("Decryption failed: ring::error::Unspecified");
            }
            assert(open_failure(f) =~= "Decryption failed: "@ + "ring::error::Unspecified"@);
            e
        },
    }
}

fn nonce_of(bytes: &[u8]) -> (n: [u8; 12])
    requires
        bytes@.len() >= NONCE_LEN,
    ensures
        n@ == bytes@.subrange(0, NONCE_LEN as int),
{
    let n: [u8; 12] = [
        bytes[0], bytes[1], bytes[2], bytes[3], bytes[4], bytes[5],
        bytes[6], bytes[7], bytes[8], bytes[9], bytes[10], bytes[11],
    ];
    assert(n@ =~= bytes@.subrange(0, NONCE_LEN as int));
    n
}

fn tail_from(bytes: &[u8], start: usize) -> (v: Vec<u8>)
    requires
        start <= bytes@.len(),
    ensures
        v@ == bytes@.subrange(start as int, bytes@.len() as int),
{
    let mut v: Vec<u8> = Vec::new();
    let mut i: usize = start;
    while i < bytes.len()
        invariant
            start <= i <= bytes@.len(),
            v@ == bytes@.subrange(start as int, i as int),
        decreases bytes@.len() - i,
    {
        v.push(bytes[i]);
        i = i + 1;
        assert(v@ =~= bytes@.subrange(start as int, i as int));
    }
    v
}

impl EncryptionKey {
    /// Derives a key from `password` with PBKDF2-HMAC-SHA256 over the given
    /// salt, or over sixteen fresh random bytes when no salt is given.
    pub fn from_password(password: &str, salt: Option<&[u8]>) -> (k: EncryptionKey)
        requires
            encode_utf8(password@).len() < 0x1000_0000_0000_0000,
            salt matches Some(s) ==> s@.len() < 0x1000_0000_0000_0000,
        ensures
            salt matches Some(s) ==> k@ == derived_key(password@, s@),
            salt is None ==> exists|s: Seq<u8>| s.len() == SALT_LEN && k@ == derived_key(password@, s),
    {
        let secret = password.as_bytes();
        match salt {
            Some(s) => EncryptionKey { key_bytes: pbkdf2_derive(KEY_DERIVATION_ROUNDS, s, secret) },
            None => {
                let fresh = random_bytes(SALT_LEN);
                let k = EncryptionKey { key_bytes: pbkdf2_derive(KEY_DERIVATION_ROUNDS, fresh.as_slice(), secret) };
                assert(k@ == derived_key(password@, fresh@));
                k
            },
        }
    }

    /// A key of 32 fresh random bytes.
    pub fn generate() -> (k: EncryptionKey)
        ensures
            k@.len() == 32,
    {
        let r = random_bytes(32);
        let key_bytes: [u8; 32] = [
            r[0], r[1], r[2], r[3], r[4], r[5], r[6], r[7],
            r[8], r[9], r[10], r[11], r[12], r[13], r[14], r[15],
            r[16], r[17], r[18], r[19], r[20], r[21], r[22], r[23],
            r[24], r[25], r[26], r[27], r[28], r[29], r[30], r[31],
        ];
        EncryptionKey { key_bytes }
    }

    /// Seals `plaintext` under a fresh random nonce and returns the nonce
    /// followed by the ciphertext and tag.
    pub fn encrypt(&self, plaintext: &[u8]) -> (r: Result<Vec<u8>, AcerError>)
        ensures
            r matches Ok(blob) ==> sealed_by(self@, blob@, plaintext@),
            r matches Ok(blob) ==> blob@.len() == plaintext@.len() + NONCE_LEN + TAG_LEN,
            r is Ok <==> plaintext@.len() <= AES_GCM_MAX_INPUT,
            r matches Err(e) ==> exists|f: CipherFault| is_vault_error(e, seal_failure(f)),
    {
        let fresh = random_bytes(NONCE_LEN);
        let nonce = nonce_of(fresh.as_slice());
        match seal(&self.key_bytes, nonce, plaintext) {
            Ok(sealed) => {
                let mut blob: Vec<u8> = Vec::new();
                let mut i: usize = 0;
                while i < NONCE_LEN
                    invariant
                        i <= NONCE_LEN,
                        nonce@.len() == NONCE_LEN,
                        blob@ == nonce@.subrange(0, i as int),
                    decreases NONCE_LEN - i,
                {
                    blob.push(nonce[i]);
                    i = i + 1;
                    assert(blob@ =~= nonce@.subrange(0, i as int));
                }
                let mut j: usize = 0;
                while j < sealed.len()
                    invariant
                        j <= sealed@.len(),
                        blob@ == nonce@ + sealed@.subrange(0, j as int),
                    decreases sealed@.len() - j,
                {
                    blob.push(sealed[j]);
                    j = j + 1;
                    assert(blob@ =~= nonce@ + sealed@.subrange(0, j as int));
                }
                assert(blob@.subrange(0, NONCE_LEN as int) =~= nonce@);
                assert(blob@.subrange(NONCE_LEN as int, blob@.len() as int) =~= sealed@);
                Ok(blob)
            },
            Err(f) => Err(seal_error(f)),
        }
    }

    /// Opens a blob made by `encrypt`: a nonce followed by the ciphertext
    /// and tag.
    pub fn decrypt(&self, ciphertext: &[u8]) -> (r: Result<Vec<u8>, AcerError>)
        ensures
            ciphertext@.len() < NONCE_LEN + TAG_LEN ==> (r matches Err(e) && is_vault_error(e, "Ciphertext too short"@)),
            r matches Ok(p) ==> sealed_by(self@, ciphertext@, p@),
            r matches Ok(p) ==> p@.len() + NONCE_LEN + TAG_LEN == ciphertext@.len(),
            ciphertext@.len() >= NONCE_LEN + TAG_LEN ==> (r matches Err(e) ==> exists|f: CipherFault| is_vault_error(e, open_failure(f))),
            forall|p: Seq<u8>|
                ciphertext@.len() >= NONCE_LEN + TAG_LEN && p.len() <= AES_GCM_MAX_INPUT && #[trigger] sealed_by(self@, ciphertext@, p)
                    ==> (r matches Ok(q) && q@ == p),
    {
        if ciphertext.len() < NONCE_LEN + TAG_LEN {
            return Err(AcerError::Vault(String::from_str("Ciphertext too short")));
        }
        let nonce = nonce_of(ciphertext);
        let rest = tail_from(ciphertext, NONCE_LEN);
        match open(&self.key_bytes, nonce, rest.as_slice()) {
            Ok(p) => Ok(p),
            Err(f) => Err(open_error(f)),
        }
    }

    /// SHA-256 of the UTF-8 bytes of `value`, in lowercase hexadecimal.
    pub fn hash(value: &str) -> (r: String)
        requires
            encode_utf8(value@).len() < 0x1000_0000_0000_0000,
        ensures
            r@ == hex_lower(ring_sha256(encode_utf8(value@))),
    {
        let digest = sha256_digest(value.as_bytes());
        hex_encode(digest.as_slice())
    }
}

} // verus!
