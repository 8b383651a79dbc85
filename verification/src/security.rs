//! Encryption at rest: a 32-byte master key, kept by the operating system's
//! keystore when one is available and in a local file otherwise, encrypts
//! everything else with AES-256-GCM under a fresh random nonce.

use vstd::prelude::*;
use aes_gcm::aead::{Aead, KeyInit, OsRng};
use aes_gcm::{AeadCore, Aes256Gcm, Key, Nonce};
use rand::RngCore;

verus! {

/// Length of the master key in bytes.
pub const MASTER_KEY_LEN: usize = 32;

/// Length of the nonce that prefixes every encrypted blob.
pub const NONCE_LEN: usize = 12;

/// Length of the authentication tag that AES-GCM appends.
pub const TAG_LEN: usize = 16;

/// Largest plaintext AES-GCM accepts, in bytes.
pub const MAX_PLAINTEXT_LEN: u64 = 68719476736;

/// Service name of the keystore entry holding the master key.
pub const KEYRING_SERVICE: &'static str = "br.acerola.comic";

/// User name of the keystore entry holding the master key.
pub const KEYRING_USERNAME: &'static str = "p2p-master-key";

/// File that holds the master key when no keystore is available; its name
/// says that it is not protected.
pub const FALLBACK_KEY_FILE_NAME: &'static str = "master.key.insecure";

/// Failures of the library's storage and services.
#[derive(Debug, Clone, PartialEq, Eq)]
pub enum ComicError {
    /// The record asked for does not exist.
    NotFound,
    /// No `ComicInfo.xml` was found for the comic.
    ComicInfoNotFound,
    /// The request itself is not acceptable; the text says why.
    InvalidRequest(String),
    /// Anything else; the text says what failed.
    SystemFailure(String),
}

/// Where the master key came from.
#[derive(Debug, Clone, Copy, PartialEq, Eq, Structural)]
pub enum MasterKeySource {
    /// Protected by the operating system's keystore.
    Keyring,
    /// Read from or written to a local file without that protection.
    FallbackFile,
}

/// AES-256-GCM encryption of `plaintext` under `key` and `nonce`
/// (ciphertext followed by the tag), as the `aes-gcm` crate computes it.
pub uninterp spec fn aes_gcm_seal(key: Seq<u8>, nonce: Seq<u8>, plaintext: Seq<u8>) -> Seq<u8>;

/// AES-256-GCM decryption of `ciphertext` (with its tag) under `key` and
/// `nonce`: the plaintext, or `None` when authentication fails.
pub uninterp spec fn aes_gcm_open(key: Seq<u8>, nonce: Seq<u8>, ciphertext: Seq<u8>) -> Option<
    Seq<u8>,
>;

/// `Aes256Gcm::encrypt` with a 12-byte nonce and no associated data. The
/// contract claims that the result is the named encryption of exactly these
/// arguments, that it is the plaintext's length plus the 16-byte tag, and
/// that decrypting it with the same key and nonce gives the plaintext back.
/// The crate refuses plaintexts over 2^36 bytes, which `requires` leaves out.
#[verifier::external_body]
fn seal(key: &[u8; 32], nonce: &[u8], plaintext: &[u8]) -> (r: Vec<u8>)
    requires
        nonce.len() == NONCE_LEN,
        plaintext.len() <= MAX_PLAINTEXT_LEN,
    ensures
        r@ == aes_gcm_seal(key@, nonce@, plaintext@),
        r.len() == plaintext.len() + TAG_LEN,
        aes_gcm_open(key@, nonce@, r@) == Some(plaintext@),
{
    let cipher = Aes256Gcm::new(Key::<Aes256Gcm>::from_slice(key));
    cipher.encrypt(Nonce::from_slice(nonce), plaintext).unwrap()
}

/// `Aes256Gcm::decrypt` with a 12-byte nonce and no associated data: the
/// named decryption of exactly these arguments.
#[verifier::external_body]
fn open(key: &[u8; 32], nonce: &[u8], ciphertext: &[u8]) -> (r: Option<Vec<u8>>)
    requires
        nonce.len() == NONCE_LEN,
    ensures
        r is None <==> aes_gcm_open(key@, nonce@, ciphertext@) is None,
        r matches Some(p) ==> aes_gcm_open(key@, nonce@, ciphertext@) == Some(p@),
{
    let cipher = Aes256Gcm::new(Key::<Aes256Gcm>::from_slice(key));
    match cipher.decrypt(Nonce::from_slice(nonce), ciphertext) {
        Ok(p) => Some(p),
        Err(_) => None,
    }
}

/// `Aes256Gcm::generate_nonce` with the operating system's random source:
/// 12 random bytes. Nothing is claimed of their values.
#[verifier::external_body]
fn random_nonce() -> (r: Vec<u8>)
    ensures
        r.len() == NONCE_LEN,
{
    Aes256Gcm::generate_nonce(&mut OsRng).to_vec()
}

/// `rand::thread_rng().fill_bytes` on a 32-byte key: a random key. Nothing
/// is claimed of its value.
#[verifier::external_body]
fn random_key() -> (r: [u8; 32]) {
    let mut key = [0u8; 32];
    rand::thread_rng().fill_bytes(&mut key);
    key
}

/// What `decrypt` gives for `blob` under `key`: `None` for a blob shorter
/// than a nonce or one that does not authenticate, else the plaintext.
pub open spec fn decrypted(key: Seq<u8>, blob: Seq<u8>) -> Option<Seq<u8>> {
    if blob.len() < NONCE_LEN {
        None
    } else {
        aes_gcm_open(key, blob.take(NONCE_LEN as int), blob.skip(NONCE_LEN as int))
    }
}

/// Encrypts `plaintext` under `key` with a fresh random nonce, which
/// prefixes the result; decrypting the result with the same key gives the
/// plaintext back.
pub fn encrypt(key: &[u8; 32], plaintext: &[u8]) -> (r: Vec<u8>)
    requires
        plaintext.len() <= MAX_PLAINTEXT_LEN,
    ensures
        r.len() == NONCE_LEN + plaintext.len() + TAG_LEN,
        r@.skip(NONCE_LEN as int) == aes_gcm_seal(key@, r@.take(NONCE_LEN as int), plaintext@),
        decrypted(key@, r@) == Some(plaintext@),
{
    let nonce = random_nonce();
    let sealed = seal(key, nonce.as_slice(), plaintext);
    let mut out: Vec<u8> = Vec::new();
    let mut i: usize = 0;
    while i < nonce.len()
        invariant
            i <= nonce.len(),
            out@ == nonce@.take(i as int),
        decreases nonce.len() - i,
    {
        out.push(nonce[i]);
        i += 1;
        assert(out@ =~= nonce@.take(i as int));
    }
    let mut j: usize = 0;
    while j < sealed.len()
        invariant
            j <= sealed.len(),
            nonce.len() == NONCE_LEN,
            out@ == nonce@ + sealed@.take(j as int),
        decreases sealed.len() - j,
    {
        out.push(sealed[j]);
        j += 1;
        assert(out@ =~= nonce@ + sealed@.take(j as int));
    }
    assert(sealed@.take(sealed.len() as int) =~= sealed@);
    assert(out@.take(NONCE_LEN as int) =~= nonce@);
    assert(out@.skip(NONCE_LEN as int) =~= sealed@);
    out
}

/// Decrypts a blob made by `encrypt`: a blob shorter than a nonce, and one
/// that does not authenticate under `key` (wrong key or corrupted data),
/// are refused.
pub fn decrypt(key: &[u8; 32], blob: &[u8]) -> (r: Result<Vec<u8>, ComicError>)
    ensures
        blob.len() < NONCE_LEN ==> (r matches Err(ComicError::SystemFailure(m)) && m@
            == "encrypted blob too short to contain a nonce"@),
        blob.len() >= NONCE_LEN && decrypted(key@, blob@) is None ==> (r matches Err(
            ComicError::SystemFailure(m),
        ) && m@ == "failed to decrypt blob: wrong key or corrupted data"@),
        r matches Ok(p) ==> decrypted(key@, blob@) == Some(p@),
        decrypted(key@, blob@) is Some ==> r is Ok,
{
    if blob.len() < NONCE_LEN {
        return Err(
            ComicError::SystemFailure("encrypted blob too short to contain a nonce".to_string()),
        );
    }
    let (nonce, ciphertext) = blob.split_at(NONCE_LEN);
    assert(nonce@ =~= blob@.take(NONCE_LEN as int));
    assert(ciphertext@ =~= blob@.skip(NONCE_LEN as int));
    match open(key, nonce, ciphertext) {
        Some(p) => Ok(p),
        None => Err(
            ComicError::SystemFailure(
                "failed to decrypt blob: wrong key or corrupted data".to_string(),
            ),
        ),
    }
}

/// A stored master key is used as it is when it has exactly
/// `MASTER_KEY_LEN` bytes; anything else (nothing stored, or a key of the
/// wrong length) is replaced by a fresh random key, which must then be
/// saved (`r.1`).
pub fn key_from_stored(stored: Option<Vec<u8>>) -> (r: ([u8; 32], bool))
    ensures
        stored matches Some(b) ==> (b.len() == MASTER_KEY_LEN ==> r.0@ == b@ && !r.1),
        !(stored matches Some(b) && b.len() == MASTER_KEY_LEN) ==> r.1,
{
    match stored {
        Some(b) => {
            if b.len() == MASTER_KEY_LEN {
                let mut key = [0u8; 32];
                let mut i: usize = 0;
                while i < 32
                    invariant
                        b.len() == 32,
                        i <= 32,
                        forall|k: int| 0 <= k < i ==> key@[k] == b@[k],
                    decreases 32 - i,
                {
                    key[i] = b[i];
                    i += 1;
                }
                assert(key@ =~= b@);
                (key, false)
            } else {
                (random_key(), true)
            }
        },
        None => (random_key(), true),
    }
}

/// What a read of the keystore entry gave.
#[derive(Debug, Clone, PartialEq, Eq)]
pub enum SecretRead {
    /// The entry holds these bytes.
    Found(Vec<u8>),
    /// There is no entry yet.
    NoEntry,
    /// The keystore failed; the text says why.
    Failed(String),
}

/// What to do after reading the keystore entry.
#[derive(Debug, Clone, PartialEq, Eq)]
pub enum KeyringPlan {
    /// Use this key, which the entry already holds.
    Use([u8; 32]),
    /// Save this fresh key in the entry, then use it.
    Store([u8; 32]),
    /// The keystore is not usable: fall back to the local file.
    Unavailable(String),
}

/// Decides from a keystore read: a stored key of the right length is used,
/// a missing or malformed one is replaced by a fresh key to save, and a
/// keystore failure sends the caller to the fallback file.
pub fn keyring_plan(read: SecretRead) -> (r: KeyringPlan)
    ensures
        read matches SecretRead::Found(b) ==> (b.len() == MASTER_KEY_LEN ==> (r matches KeyringPlan::Use(k)
            && k@ == b@)),
        read matches SecretRead::Found(b) ==> (b.len() != MASTER_KEY_LEN ==> r is Store),
        read is NoEntry ==> r is Store,
        read matches SecretRead::Failed(t) ==> (r matches KeyringPlan::Unavailable(m) && m@ == t@),
{
    match read {
        SecretRead::Found(b) => {
            let (key, fresh) = key_from_stored(Some(b));
            if fresh {
                KeyringPlan::Store(key)
            } else {
                KeyringPlan::Use(key)
            }
        },
        SecretRead::NoEntry => {
            let (key, _) = key_from_stored(None);
            KeyringPlan::Store(key)
        },
        SecretRead::Failed(t) => KeyringPlan::Unavailable(t),
    }
}

/// The master key and its source: the keystore's key when it gave one,
/// else the key of the fallback file, which `fallback` reads or creates
/// (and whose failure is returned as it is).
pub fn get_or_create_master_key<F: FnOnce() -> Result<[u8; 32], ComicError>>(
    keyring_key: Result<[u8; 32], String>,
    fallback: F,
) -> (r: Result<([u8; 32], MasterKeySource), ComicError>)
    requires
        keyring_key is Err ==> call_requires(fallback, ()),
    ensures
        keyring_key matches Ok(k) ==> r == Ok::<([u8; 32], MasterKeySource), ComicError>(
            (k, MasterKeySource::Keyring),
        ),
        keyring_key is Err ==> exists|f: Result<[u8; 32], ComicError>|
            call_ensures(fallback, (), f) && match f {
                Ok(k) => r == Ok::<([u8; 32], MasterKeySource), ComicError>(
                    (k, MasterKeySource::FallbackFile),
                ),
                Err(e) => r == Err::<([u8; 32], MasterKeySource), ComicError>(e),
            },
{
    match keyring_key {
        Ok(k) => Ok((k, MasterKeySource::Keyring)),
        Err(_) => {
            let f = fallback();
            match f {
                Ok(k) => Ok((k, MasterKeySource::FallbackFile)),
                Err(e) => Err(e),
            }
        },
    }
}

} // verus!
