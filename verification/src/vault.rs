//! The secrets vault: named secrets, each stored as the base64 text of a
//! blob sealed under a key derived from the vault's password and salt.

use vstd::prelude::*;
use vstd::utf8::*;
use crate::crypto::{
    derived_key, is_vault_error, open_failure, random_bytes, seal_failure, sealed_by, CipherFault,
    EncryptionKey, AES_GCM_MAX_INPUT, KEY_DERIVATION_ROUNDS, NONCE_LEN, SALT_LEN, TAG_LEN,
};
use crate::encoding::{
    base64_decode, base64_encode, base64_standard_decode, base64_standard_encode, decode_error_text, lemma_base64_len,
    string_from_utf8, utf8_error_text,
};
use crate::error::AcerError;
use crate::keyed_map::KeyedMap;

verus! {

/// A UTC instant: whole seconds since the Unix epoch and the nanoseconds
/// past that second.
#[derive(Clone, Copy, Debug, PartialEq, Eq, Structural)]
pub struct Timestamp {
    pub seconds: i64,
    pub nanos: u32,
}

/// `chrono::Utc::now`, taken apart into seconds and nanoseconds; nothing is
/// claimed of the time it reads.
#[verifier::external_body]
fn utc_now() -> (t: Timestamp) {
    let now = chrono::Utc::now();
    Timestamp { seconds: now.timestamp(), nanos: now.timestamp_subsec_nanos() }
}

/// One stored secret. `value` is the base64 text of the sealed blob.
pub struct Secret {
    pub key: String,
    pub value: String,
    pub created_at: Timestamp,
    pub updated_at: Timestamp,
    pub metadata: KeyedMap<String>,
}

/// What a secret holds, as plain values.
pub struct SecretRecord {
    pub key: Seq<char>,
    pub value: Seq<char>,
    pub created_at: Timestamp,
    pub updated_at: Timestamp,
    pub metadata: Map<Seq<char>, Seq<char>>,
}

impl View for Secret {
    type V = SecretRecord;

    open spec fn view(&self) -> SecretRecord {
        SecretRecord {
            key: self.key@,
            value: self.value@,
            created_at: self.created_at,
            updated_at: self.updated_at,
            metadata: self.metadata@,
        }
    }
}

/// What a vault holds: its secrets by name, its salt (base64 text), the
/// key it is unlocked with, if any, and the file it belongs to.
pub struct VaultRecord {
    pub secrets: Map<Seq<char>, SecretRecord>,
    pub salt: Seq<char>,
    pub key: Option<Seq<u8>>,
    pub path: Seq<char>,
}

/// The stored text `value` is the base64 text of a blob that seals
/// `plaintext` under `key`.
pub open spec fn opens_to(key: Seq<u8>, value: Seq<char>, plaintext: Seq<u8>) -> bool {
    &&& base64_standard_decode(value) is Some
    &&& sealed_by(key, base64_standard_decode(value)->0, plaintext)
}

/// The blob behind the stored text `value` has the length that sealing
/// `plaintext` gives: nonce, ciphertext and tag.
pub open spec fn blob_fits(value: Seq<char>, plaintext: Seq<u8>) -> bool {
    &&& base64_standard_decode(value) is Some
    &&& base64_standard_decode(value)->0.len() == plaintext.len() + NONCE_LEN + TAG_LEN
}

/// `after` is `before` with `value` (within the size AES-GCM accepts)
/// stored under `key`: the new secret opens to the UTF-8 bytes of `value`,
/// keeps the creation time and metadata of
/// the secret it replaces, and nothing else changes.
pub open spec fn stored(before: VaultRecord, after: VaultRecord, key: Seq<char>, value: Seq<char>) -> bool {
    &&& before.key is Some
    &&& after.key == before.key
    &&& after.salt == before.salt
    &&& after.path == before.path
    &&& after.secrets.contains_key(key)
    &&& after.secrets == before.secrets.insert(key, after.secrets[key])
    &&& after.secrets[key].key == key
    &&& opens_to(before.key->0, after.secrets[key].value, encode_utf8(value))
    &&& blob_fits(after.secrets[key].value, encode_utf8(value))
    &&& encode_utf8(value).len() <= AES_GCM_MAX_INPUT
    &&& before.secrets.contains_key(key) ==> {
        &&& after.secrets[key].created_at == before.secrets[key].created_at
        &&& after.secrets[key].metadata == before.secrets[key].metadata
    }
    &&& !before.secrets.contains_key(key) ==> {
        &&& after.secrets[key].created_at == after.secrets[key].updated_at
        &&& after.secrets[key].metadata == Map::<Seq<char>, Seq<char>>::empty()
    }
}

/// The vault is unlocked and the secret under `key` opens to the UTF-8
/// bytes of `text`, from a blob of the length sealing gives.
pub open spec fn readable(v: VaultRecord, key: Seq<char>, text: Seq<char>) -> bool {
    &&& v.key is Some
    &&& v.secrets.contains_key(key)
    &&& opens_to(v.key->0, v.secrets[key].value, encode_utf8(text))
    &&& blob_fits(v.secrets[key].value, encode_utf8(text))
    &&& encode_utf8(text).len() <= AES_GCM_MAX_INPUT
}

/// `pt` is valid UTF-8 and the one plaintext (within the size AES-GCM
/// accepts) that the stored text `value` opens to under `key`.
pub open spec fn sole_opening(key: Seq<u8>, value: Seq<char>, pt: Seq<u8>) -> bool {
    &&& valid_utf8(pt)
    &&& opens_to(key, value, pt)
    &&& blob_fits(value, pt)
    &&& forall|p: Seq<u8>|
        #[trigger] opens_to(key, value, p) && base64_standard_decode(value)->0.len() >= NONCE_LEN + TAG_LEN
            && p.len() <= AES_GCM_MAX_INPUT ==> p == pt
}

/// `after` is `before` sealed again under `new_key`: it opens under
/// `new_key` to the plaintext that `before` opens to under `old_key`, and
/// keeps its name, creation time and metadata.
pub open spec fn rekeyed_secret(before: SecretRecord, after: SecretRecord, old_key: Seq<u8>, new_key: Seq<u8>) -> bool {
    &&& exists|pt: Seq<u8>|
        sole_opening(old_key, before.value, pt) && opens_to(new_key, after.value, pt) && blob_fits(after.value, pt)
    &&& after.key == before.key
    &&& after.created_at == before.created_at
    &&& after.metadata == before.metadata
}

/// The vault is unlocked and every secret in it reads as some text: what
/// a key rotation needs to succeed.
pub open spec fn all_readable(v: VaultRecord) -> bool {
    &&& v.key is Some
    &&& forall|k: Seq<char>| #[trigger] v.secrets.contains_key(k) ==> exists|t: Seq<char>| readable(v, k, t)
}

/// `after` is `before` with a new random salt, the key derived from
/// `password` and that salt, and every secret sealed again under it.
pub open spec fn rekeyed(before: VaultRecord, after: VaultRecord, password: Seq<char>) -> bool {
    &&& before.key is Some
    &&& after.key is Some
    &&& exists|salt: Seq<u8>|
        salt.len() == SALT_LEN && after.salt == base64_standard_encode(salt) && base64_standard_decode(after.salt) == Some(salt)
            && after.salt.len() == 24 && after.key->0 == derived_key(password, salt)
    &&& after.path == before.path
    &&& after.secrets.dom() == before.secrets.dom()
    &&& forall|k: Seq<char>|
        #[trigger] before.secrets.contains_key(k) ==> rekeyed_secret(
            before.secrets[k],
            after.secrets[k],
            before.key->0,
            after.key->0,
        )
}

/// Rotating the key changes no secret: every name that read as some text
/// before reads as the same text afterwards.
pub proof fn lemma_rotation_keeps_secrets(before: VaultRecord, after: VaultRecord, password: Seq<char>, key: Seq<char>, text: Seq<char>)
    requires
        rekeyed(before, after, password),
        readable(before, key, text),
    ensures
        readable(after, key, text),
{
    let rs = before.secrets[key];
    let ra = after.secrets[key];
    assert(rekeyed_secret(rs, ra, before.key->0, after.key->0));
    let pt = choose|pt: Seq<u8>|
        sole_opening(before.key->0, rs.value, pt) && opens_to(after.key->0, ra.value, pt) && blob_fits(ra.value, pt);
    assert(opens_to(before.key->0, rs.value, encode_utf8(text)));
    assert(encode_utf8(text) == pt);
}

/// Storing a value under a key and then reading that key gives the value
/// back: a store that succeeded sealed a value within the size AES-GCM
/// accepts, which opens again.
pub proof fn lemma_get_after_store(before: VaultRecord, after: VaultRecord, key: Seq<char>, value: Seq<char>)
    requires
        stored(before, after, key, value),
    ensures
        readable(after, key, value),
{
}

/// Storing under one key leaves what every other key reads unchanged.
pub proof fn lemma_store_keeps_other_keys(
    before: VaultRecord,
    after: VaultRecord,
    key: Seq<char>,
    value: Seq<char>,
    other: Seq<char>,
    text: Seq<char>,
)
    requires
        stored(before, after, key, value),
        other != key,
    ensures
        readable(after, other, text) == readable(before, other, text),
{
}

/// The message of an error whose detail comes from an outside library.
pub open spec fn vault_error_with_prefix(e: AcerError, prefix: Seq<char>) -> bool {
    e matches AcerError::Vault(m) && prefix.is_prefix_of(m@)
}

/// The salt text is the base64 text of some sixteen random bytes, which
/// takes twenty-four characters and decodes back to them.
pub open spec fn fresh_salt(salt: Seq<char>) -> bool {
    &&& salt.len() == 24
    &&& exists|b: Seq<u8>| b.len() == SALT_LEN && salt == base64_standard_encode(b) && base64_standard_decode(salt) == Some(b)
}

/// The encrypted store of named secrets.
pub struct SecretsVault {
    secrets: KeyedMap<Secret>,
    salt: String,
    encryption_key: Option<EncryptionKey>,
    vault_path: String,
}

impl View for SecretsVault {
    type V = VaultRecord;

    closed spec fn view(&self) -> VaultRecord {
        VaultRecord {
            secrets: self.secrets@,
            salt: self.salt@,
            key: match self.encryption_key {
                Some(k) => Some(k@),
                None => None,
            },
            path: self.vault_path@,
        }
    }
}

/// A new random salt: sixteen random bytes in base64.
pub fn default_salt() -> (s: String)
    ensures
        fresh_salt(s@),
{
    let bytes = random_bytes(SALT_LEN);
    proof {
        lemma_base64_len(bytes@);
    }
    base64_encode(bytes.as_slice())
}

fn locked_error() -> (e: AcerError)
    ensures
        is_vault_error(e, "Vault is locked"@),
{
    AcerError::Vault(String::from_str("Vault is locked"))
}

fn prefixed_error(prefix: &str, detail: String) -> (e: AcerError)
    ensures
        vault_error_with_prefix(e, prefix@),
{
    let mut m = String::from_str(prefix);
    m.append(detail.as_str());
    assert(prefix@.is_prefix_of(m@)) by {
        assert(m@.subrange(0, prefix@.len() as int) =~= prefix@);
    }
    AcerError::Vault(m)
}

impl SecretsVault {
    /// An empty, locked vault for the given file, with a fresh salt.
    pub fn new(vault_path: String) -> (v: SecretsVault)
        ensures
            v@.secrets == Map::<Seq<char>, SecretRecord>::empty(),
            fresh_salt(v@.salt),
            v@.key is None,
            v@.path == vault_path@,
    {
        SecretsVault {
            secrets: KeyedMap::new(),
            salt: default_salt(),
            encryption_key: None,
            vault_path,
        }
    }

    /// A locked vault holding the given secrets and salt, as read back from
    /// its file.
    pub fn from_parts(secrets: KeyedMap<Secret>, salt: String, vault_path: String) -> (v: SecretsVault)
        ensures
            v@.secrets == secrets@,
            v@.salt == salt@,
            v@.key is None,
            v@.path == vault_path@,
    {
        SecretsVault { secrets, salt, encryption_key: None, vault_path }
    }

    /// Unlocks the vault with the key derived from `password` and the
    /// vault's salt.
    pub fn unlock(&mut self, password: &str) -> (r: Result<(), AcerError>)
        requires
            encode_utf8(password@).len() < 0x1000_0000_0000_0000,
            old(self)@.salt.len() < 0x1000_0000_0000_0000,
        ensures
            r is Ok == base64_standard_decode(old(self)@.salt) is Some,
            r is Ok ==> final(self)@ == (VaultRecord {
                key: Some(derived_key(password@, base64_standard_decode(old(self)@.salt)->0)),
                ..old(self)@
            }),
            r matches Err(e) ==> final(self)@ == old(self)@ && vault_error_with_prefix(e, "Invalid vault salt: "@),
    {
        match base64_decode(self.salt.as_str()) {
            Ok(salt) => {
                self.encryption_key = Some(EncryptionKey::from_password(password, Some(salt.as_slice())));
                Ok(())
            },
            Err(e) => Err(prefixed_error("Invalid vault salt: ", decode_error_text(&e))),
        }
    }

    /// Forgets the key; the vault is locked afterwards.
    pub fn lock(&mut self)
        ensures
            final(self)@ == (VaultRecord { key: None, ..old(self)@ }),
    {
        self.encryption_key = None;
    }

    /// Whether the vault holds a key.
    pub fn is_unlocked(&self) -> (b: bool)
        ensures
            b == self@.key is Some,
    {
        self.encryption_key.is_some()
    }

    /// The names of the secrets.
    pub fn list_keys(&self) -> (v: Vec<&str>)
        ensures
            v@.len() == self@.secrets.dom().len(),
            forall|i: int| 0 <= i < v@.len() ==> self@.secrets.contains_key((#[trigger] v@[i])@),
            forall|k: Seq<char>| self@.secrets.contains_key(k) ==> exists|i: int| 0 <= i < v@.len() && (#[trigger] v@[i])@ == k,
    {
        let names = self.secrets.keys();
        let mut v: Vec<&str> = Vec::new();
        let mut i: usize = 0;
        while i < names.len()
            invariant
                i <= names@.len(),
                v@.len() == i,
                forall|j: int| 0 <= j < i ==> (#[trigger] v@[j])@ == names@[j]@,
            decreases names@.len() - i,
        {
            v.push(names[i].as_str());
            i = i + 1;
        }
        assert forall|k: Seq<char>| self@.secrets.contains_key(k) implies exists|i: int| 0 <= i < v@.len() && (#[trigger] v@[i])@ == k by {
            let i = choose|i: int| 0 <= i < names@.len() && (#[trigger] names@[i])@ == k;
            assert(v@[i]@ == k);
        }
        v
    }

    /// Whether a secret of that name exists.
    pub fn has_secret(&self, key: &str) -> (b: bool)
        ensures
            b == self@.secrets.contains_key(key@),
    {
        self.secrets.contains_key(key)
    }

    /// The file this vault belongs to.
    pub fn path(&self) -> (p: &str)
        ensures
            p@ == self@.path,
    {
        self.vault_path.as_str()
    }

    /// The salt, as base64 text.
    pub fn salt(&self) -> (s: &str)
        ensures
            s@ == self@.salt,
    {
        self.salt.as_str()
    }

    /// The stored secrets.
    pub fn secrets(&self) -> (s: &KeyedMap<Secret>)
        ensures
            s@ == self@.secrets,
    {
        &self.secrets
    }

    /// Seals `value` under the vault's key and stores it under `key`,
    /// keeping the creation time and metadata of a secret it replaces.
    pub fn store(&mut self, key: &str, value: &str) -> (r: Result<(), AcerError>)
        requires
            encode_utf8(value@).len() + NONCE_LEN + TAG_LEN <= usize::MAX / 2,
        ensures
            old(self)@.key is None ==> (r matches Err(e) && is_vault_error(e, "Vault is locked"@)),
            old(self)@.key is Some && encode_utf8(value@).len() <= AES_GCM_MAX_INPUT ==> r is Ok,
            r is Err ==> final(self)@ == old(self)@,
            r matches Err(e) ==> is_vault_error(e, "Vault is locked"@) || exists|f: CipherFault| is_vault_error(e, seal_failure(f)),
            r is Ok ==> stored(old(self)@, final(self)@, key@, value@),
    {
        let blob = match &self.encryption_key {
            Some(k) => match k.encrypt(value.as_bytes()) {
                Ok(b) => b,
                Err(e) => return Err(e),
            },
            None => return Err(locked_error()),
        };
        let encoded = base64_encode(blob.as_slice());
        let now = utc_now();
        let secret = match self.secrets.get(key) {
            Some(existing) => Secret {
                key: String::from_str(key),
                value: encoded,
                created_at: existing.created_at,
                updated_at: now,
                metadata: existing.metadata.duplicate(),
            },
            None => Secret {
                key: String::from_str(key),
                value: encoded,
                created_at: now,
                updated_at: now,
                metadata: KeyedMap::new(),
            },
        };
        let ghost rec = secret@;
        self.secrets.insert(String::from_str(key), secret);
        assert(self@.secrets[key@] == rec);
        Ok(())
    }

    /// Opens the secret stored under `key`: `None` when there is none.
    pub fn get(&self, key: &str) -> (r: Result<Option<String>, AcerError>)
        ensures
            self@.key is None ==> (r matches Err(e) && is_vault_error(e, "Vault is locked"@)),
            self@.key is Some && !self@.secrets.contains_key(key@) ==> r matches Ok(None),
            self@.key is Some && self@.secrets.contains_key(key@) && base64_standard_decode(self@.secrets[key@].value) is None
                ==> (r matches Err(e) && vault_error_with_prefix(e, "Failed to decode secret: "@)),
            r matches Ok(Some(s)) ==> self@.key is Some && self@.secrets.contains_key(key@)
                && opens_to(self@.key->0, self@.secrets[key@].value, encode_utf8(s@)),
            r matches Err(e) ==> {
                ||| is_vault_error(e, "Vault is locked"@)
                ||| vault_error_with_prefix(e, "Failed to decode secret: "@)
                ||| is_vault_error(e, "Ciphertext too short"@)
                ||| (exists|f: CipherFault| is_vault_error(e, open_failure(f)))
                ||| vault_error_with_prefix(e, "Invalid UTF-8 in secret: "@)
            },
            forall|t: Seq<char>| #[trigger] readable(self@, key@, t) ==> r is Ok && r->Ok_0 is Some && r->Ok_0->0@ == t,
    {
        let k = match &self.encryption_key {
            Some(k) => k,
            None => return Err(locked_error()),
        };
        let secret = match self.secrets.get(key) {
            Some(s) => s,
            None => return Ok(None),
        };
        let blob = match base64_decode(secret.value.as_str()) {
            Ok(b) => b,
            Err(e) => return Err(prefixed_error("Failed to decode secret: ", decode_error_text(&e))),
        };
        let plain = match k.decrypt(blob.as_slice()) {
            Ok(p) => p,
            Err(e) => {
                proof {
                    assert forall|t: Seq<char>| #[trigger] readable(self@, key@, t) implies false by {
                        assert(sealed_by(k@, blob@, encode_utf8(t)));
                    }
                }
                return Err(e);
            },
        };
        let ghost pbytes = plain@;
        proof {
            assert forall|t: Seq<char>| #[trigger] readable(self@, key@, t) implies pbytes == encode_utf8(t) by {
                assert(sealed_by(k@, blob@, encode_utf8(t)));
            }
        }
        match string_from_utf8(plain) {
            Ok(s) => {
                proof {
                    vstd::utf8::decode_utf8_encode_utf8(pbytes);
                    assert forall|t: Seq<char>| #[trigger] readable(self@, key@, t) implies s@ == t by {
                        vstd::utf8::encode_utf8_decode_utf8(t);
                    }
                }
                Ok(Some(s))
            },
            Err(e) => {
                proof {
                    assert forall|t: Seq<char>| #[trigger] readable(self@, key@, t) implies false by {
                        vstd::utf8::encode_utf8_valid_utf8(t);
                    }
                }
                Err(prefixed_error("Invalid UTF-8 in secret: ", utf8_error_text(&e)))
            },
        }
    }

    /// Opens every secret with the current key, draws a new salt, derives a
    /// new key from `new_password` and seals every secret again under it.
    pub fn rotate_key(&mut self, new_password: &str) -> (r: Result<(), AcerError>)
        requires
            encode_utf8(new_password@).len() < 0x1000_0000_0000_0000,
            forall|k: Seq<char>| #[trigger] old(self)@.secrets.contains_key(k) ==> old(self)@.secrets[k].value.len() <= usize::MAX / 2,
        ensures
            old(self)@.key is None ==> (r matches Err(e) && is_vault_error(e, "Vault is locked"@)),
            all_readable(old(self)@) ==> r is Ok,
            r is Ok ==> rekeyed(old(self)@, final(self)@, new_password@),
            r matches Err(e) ==> {
                ||| is_vault_error(e, "Vault is locked"@) && final(self)@ == old(self)@
                ||| vault_error_with_prefix(e, "Failed to decode secret: "@) && final(self)@ == old(self)@
                ||| is_vault_error(e, "Ciphertext too short"@) && final(self)@ == old(self)@
                ||| (exists|f: CipherFault| is_vault_error(e, open_failure(f))) && final(self)@ == old(self)@
                ||| vault_error_with_prefix(e, "Invalid UTF-8 in secret: "@) && final(self)@ == old(self)@
                ||| exists|f: CipherFault| is_vault_error(e, seal_failure(f))
            },
    {
        let ghost before = self@;
        let old_key = match &self.encryption_key {
            Some(k) => k.clone(),
            None => return Err(locked_error()),
        };
        let ghost okey = old_key@;
        let mut opened: Vec<(String, String)> = Vec::new();
        {
            let names = self.secrets.keys();
            let mut i: usize = 0;
            while i < names.len()
                invariant
                    self@ == before,
                    before.key == Some(okey),
                    old_key@ == okey,
                    i <= names@.len(),
                    opened@.len() == i,
                    names@.len() == before.secrets.dom().len(),
                    forall|j: int| 0 <= j < names@.len() ==> before.secrets.contains_key((#[trigger] names@[j])@),
                    forall|a: int, b: int| 0 <= a < b < names@.len() ==> (#[trigger] names@[a])@ != (#[trigger] names@[b])@,
                    forall|j: int| 0 <= j < i ==> (#[trigger] opened@[j]).0@ == names@[j]@,
                    forall|j: int| 0 <= j < i ==> sole_opening(okey, before.secrets[(#[trigger] opened@[j]).0@].value, encode_utf8(opened@[j].1@)),
                    forall|j: int| 0 <= j < i ==> encode_utf8((#[trigger] opened@[j]).1@).len() + NONCE_LEN + TAG_LEN <= usize::MAX / 2,
                    forall|k: Seq<char>| #[trigger] before.secrets.contains_key(k) ==> before.secrets[k].value.len() <= usize::MAX / 2,
                    all_readable(before) ==> forall|j: int| 0 <= j < i ==> encode_utf8((#[trigger] opened@[j]).1@).len() <= AES_GCM_MAX_INPUT,
                decreases names@.len() - i,
            {
                let name = names[i];
                let secret = match self.secrets.get(name.as_str()) {
                    Some(s) => s,
                    None => {
                        proof {
                            assert(false);
                        }
                        return Err(locked_error());
                    },
                };
                assert(before.secrets.contains_key(name@));
                assert(secret@ == before.secrets[name@]);
                let blob = match base64_decode(secret.value.as_str()) {
                    Ok(b) => b,
                    Err(e) => {
                        proof {
                            if all_readable(before) {
                                let t = choose|t: Seq<char>| readable(before, name@, t);
                                assert(readable(before, name@, t));
                            }
                        }
                        return Err(prefixed_error("Failed to decode secret: ", decode_error_text(&e)));
                    },
                };
                let plain = match old_key.decrypt(blob.as_slice()) {
                    Ok(p) => p,
                    Err(e) => {
                        proof {
                            if all_readable(before) {
                                let t = choose|t: Seq<char>| readable(before, name@, t);
                                assert(readable(before, name@, t));
                                assert(sealed_by(okey, blob@, encode_utf8(t)));
                            }
                        }
                        return Err(e);
                    },
                };
                let ghost pbytes = plain@;
                proof {
                    if all_readable(before) {
                        let t = choose|t: Seq<char>| readable(before, name@, t);
                        assert(readable(before, name@, t));
                        assert(sealed_by(okey, blob@, encode_utf8(t)));
                        assert(pbytes == encode_utf8(t));
                        vstd::utf8::encode_utf8_valid_utf8(t);
                    }
                }
                let text = match string_from_utf8(plain) {
                    Ok(t) => t,
                    Err(e) => return Err(prefixed_error("Invalid UTF-8 in secret: ", utf8_error_text(&e))),
                };
                proof {
                    vstd::utf8::decode_utf8_encode_utf8(pbytes);
                    assert(encode_utf8(text@) == pbytes);
                    let v = before.secrets[name@].value;
                    assert(secret@.value == v);
                    assert(base64_standard_decode(v) == Some(blob@));
                    assert(sealed_by(okey, blob@, pbytes));
                    assert forall|p: Seq<u8>|
                        #[trigger] opens_to(okey, v, p) && base64_standard_decode(v)->0.len() >= NONCE_LEN + TAG_LEN
                            && p.len() <= AES_GCM_MAX_INPUT implies p == pbytes by {
                        assert(sealed_by(okey, blob@, p));
                    }
                    assert(sole_opening(okey, v, pbytes));
                }
                opened.push((name.clone(), text));
                i = i + 1;
            }
            proof {
                assert forall|k: Seq<char>| #[trigger] before.secrets.contains_key(k) implies exists|j: int| 0 <= j < opened@.len() && (#[trigger] opened@[j]).0@ == k by {
                    let j = choose|j: int| 0 <= j < names@.len() && (#[trigger] names@[j])@ == k;
                    assert(opened@[j].0@ == k);
                }
            }
        }
        let ghost opened_view = opened@;
        let salt_bytes = random_bytes(SALT_LEN);
        proof {
            lemma_base64_len(salt_bytes@);
        }
        self.salt = base64_encode(salt_bytes.as_slice());
        let new_key = EncryptionKey::from_password(new_password, Some(salt_bytes.as_slice()));
        let ghost nkey = new_key@;
        self.encryption_key = Some(new_key.clone());
        let ghost mid = self@;
        assert(mid.secrets == before.secrets);
        let now = utc_now();
        let mut j: usize = 0;
        while j < opened.len()
            invariant
                opened@ == opened_view,
                before.key == Some(okey),
                j <= opened_view.len(),
                self@.key == Some(nkey),
                self@.salt == mid.salt,
                self@.path == before.path,
                new_key@ == nkey,
                self@.secrets.dom() == before.secrets.dom(),
                forall|a: int, b: int| 0 <= a < b < opened_view.len() ==> (#[trigger] opened_view[a]).0@ != (#[trigger] opened_view[b]).0@,
                forall|q: int| 0 <= q < opened_view.len() ==> before.secrets.contains_key((#[trigger] opened_view[q]).0@),
                forall|q: int| 0 <= q < opened_view.len() ==> sole_opening(okey, before.secrets[(#[trigger] opened_view[q]).0@].value, encode_utf8(opened_view[q].1@)),
                forall|q: int| 0 <= q < opened_view.len() ==> encode_utf8((#[trigger] opened_view[q]).1@).len() + NONCE_LEN + TAG_LEN <= usize::MAX / 2,
                old(self)@ == before,
                forall|q: int| 0 <= q < j ==> {
                    let k = (#[trigger] opened_view[q]).0@;
                    &&& opens_to(nkey, self@.secrets[k].value, encode_utf8(opened_view[q].1@))
                    &&& blob_fits(self@.secrets[k].value, encode_utf8(opened_view[q].1@))
                    &&& self@.secrets[k].key == before.secrets[k].key
                    &&& self@.secrets[k].created_at == before.secrets[k].created_at
                    &&& self@.secrets[k].metadata == before.secrets[k].metadata
                },
                forall|q: int| j <= q < opened_view.len() ==> self@.secrets[(#[trigger] opened_view[q]).0@] == before.secrets[opened_view[q].0@],
                forall|k: Seq<char>| #[trigger] before.secrets.contains_key(k) ==> before.secrets[k].value.len() <= usize::MAX / 2,
                all_readable(before) ==> forall|q: int| 0 <= q < opened_view.len() ==> encode_utf8((#[trigger] opened_view[q]).1@).len() <= AES_GCM_MAX_INPUT,
            decreases opened_view.len() - j,
        {
            let name = &opened[j].0;
            let text = &opened[j].1;
            let ghost k = name@;
            proof {
                assert(before.secrets.contains_key(k));
                let v = before.secrets[k].value;
                assert(sole_opening(okey, v, encode_utf8(text@)));
                assert(encode_utf8(text@).len() + NONCE_LEN + TAG_LEN <= base64_standard_decode(v)->0.len());
            }
            let blob = match new_key.encrypt(text.as_str().as_bytes()) {
                Ok(b) => b,
                Err(e) => return Err(e),
            };
            let encoded = base64_encode(blob.as_slice());
            let updated = match self.secrets.get(name.as_str()) {
                Some(secret) => Secret {
                    key: secret.key.clone(),
                    value: encoded,
                    created_at: secret.created_at,
                    updated_at: now,
                    metadata: secret.metadata.duplicate(),
                },
                None => {
                    proof {
                        assert(false);
                    }
                    return Err(locked_error());
                },
            };
            let ghost prev = self@.secrets;
            let ghost rec = updated@;
            self.secrets.insert(name.clone(), updated);
            proof {
                assert(self@.secrets == prev.insert(k, rec));
                assert(self@.secrets.dom() =~= before.secrets.dom());
                assert forall|q: int| j < q < opened_view.len() implies self@.secrets[(#[trigger] opened_view[q]).0@] == before.secrets[opened_view[q].0@] by {
                    assert(opened_view[q].0@ != k);
                }
                assert forall|q: int| 0 <= q < j implies (#[trigger] opened_view[q]).0@ != k by {
                }
            }
            j = j + 1;
        }
        proof {
            assert(self@.salt == base64_standard_encode(salt_bytes@));
            assert(nkey == derived_key(new_password@, salt_bytes@));
            assert forall|k: Seq<char>| #[trigger] before.secrets.contains_key(k) implies rekeyed_secret(
                before.secrets[k],
                self@.secrets[k],
                okey,
                nkey,
            ) by {
                let q = choose|q: int| 0 <= q < opened_view.len() && (#[trigger] opened_view[q]).0@ == k;
                let pt = encode_utf8(opened_view[q].1@);
                assert(sole_opening(okey, before.secrets[k].value, pt));
                assert(opens_to(nkey, self@.secrets[k].value, pt));
            }
        }
        Ok(())
    }

    /// Removes a secret; says whether there was one.
    pub fn delete(&mut self, key: &str) -> (b: bool)
        ensures
            b == old(self)@.secrets.contains_key(key@),
            final(self)@ == (VaultRecord { secrets: old(self)@.secrets.remove(key@), ..old(self)@ }),
    {
        self.secrets.remove(key).is_some()
    }
}

/// The names under which provider API keys are kept in the vault.
pub const OPENAI_API_KEY: &'static str = "openai_api_key";

/// The vault name of Anthropic's API key.
pub const ANTHROPIC_API_KEY: &'static str = "anthropic_api_key";

/// The vault name of Gemini's API key.
pub const GEMINI_API_KEY: &'static str = "gemini_api_key";

/// The vault name of a custom endpoint's API key.
pub const CUSTOM_API_KEY: &'static str = "custom_api_key";

/// Reads a secret for the runtime: nothing when there is no vault or no
/// such secret, an error when the vault holds it but is locked, else what
/// the vault gives.
pub fn get_secret(vault: &Option<SecretsVault>, key: &str) -> (r: Result<Option<String>, AcerError>)
    ensures
        vault is None ==> r matches Ok(None),
        vault matches Some(v) && !v@.secrets.contains_key(key@) ==> r matches Ok(None),
        vault matches Some(v) && v@.secrets.contains_key(key@) && v@.key is None ==> (r matches Err(e)
            && is_vault_error(e, "Vault contains '"@ + key@ + "' but is locked. Set ACER_VAULT_PASSWORD or unlock interactively."@)),
        vault matches Some(v) ==> forall|t: Seq<char>| #[trigger] readable(v@, key@, t) ==> r is Ok && r->Ok_0 is Some && r->Ok_0->0@ == t,
        r matches Ok(Some(s)) ==> vault matches Some(v) && v@.key is Some && v@.secrets.contains_key(key@)
            && opens_to(v@.key->0, v@.secrets[key@].value, encode_utf8(s@)),
{
    match vault {
        Some(v) => {
            if v.is_unlocked() && v.has_secret(key) {
                v.get(key)
            } else if v.has_secret(key) {
                let mut m = String::from_str("Vault contains '");
                m.append(key);
                m.append("' but is locked. Set ACER_VAULT_PASSWORD or unlock interactively.");
                Err(AcerError::Vault(m))
            } else {
                Ok(None)
            }
        },
        None => Ok(None),
    }
}

} // verus!
