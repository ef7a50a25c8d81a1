//! Authenticated encryption of wallet fields.
//!
//! Every encrypted field is a blob `nonce ∥ sealed`, where `sealed` is the
//! ChaCha20-Poly1305 (IETF) ciphertext with its 16-byte tag. A *searchable*
//! blob derives its nonce from an HMAC-SHA-256 of the plaintext, so equal
//! plaintexts give equal blobs; a *not searchable* blob draws a fresh nonce.
//!
//! The cipher, the MAC and the random generator are libsodium's, reached
//! through `sodiumoxide`. Their contracts below are taken on trust.

use sodiumoxide::crypto::aead::chacha20poly1305_ietf;
use sodiumoxide::crypto::auth::hmacsha256;
use sodiumoxide::randombytes;
use vstd::prelude::*;

verus! {

/// Length in bytes of every symmetric key.
pub const KEY_LEN: usize = 32;

/// Length in bytes of the nonce that starts every blob.
pub const NONCE_LEN: usize = 12;

/// Length in bytes of the authentication tag that ends every blob.
pub const TAG_LEN: usize = 16;

/// Number of bytes that a blob is longer than its plaintext.
pub const OVERHEAD_LEN: usize = 28;

/// Longest message that the cipher seals under one nonce: 64 * (2^32 - 1) bytes.
pub const MAX_MESSAGE_LEN: u64 = 274_877_906_880;

/// A symmetric key.
pub type Key = [u8; 32];

/// A nonce.
pub type Nonce = [u8; 12];

/// The ciphertext and tag that ChaCha20-Poly1305 (IETF, no associated data)
/// gives for `message` under `nonce` and `key`.
pub uninterp spec fn aead_sealed(message: Seq<u8>, nonce: Seq<u8>, key: Seq<u8>) -> Seq<u8>;

/// The message that ChaCha20-Poly1305 (IETF, no associated data) recovers from
/// `sealed` under `nonce` and `key`, or `None` where it rejects `sealed`.
pub uninterp spec fn aead_opened(sealed: Seq<u8>, nonce: Seq<u8>, key: Seq<u8>) -> Option<Seq<u8>>;

/// The HMAC-SHA-256 authenticator of `message` under `key`.
pub uninterp spec fn hmac_sha256_tag(message: Seq<u8>, key: Seq<u8>) -> Seq<u8>;

/// Whether a message of these bytes can be encrypted: the cipher accepts
/// its length, and its blob, `OVERHEAD_LEN` bytes longer, fits in memory.
pub open spec fn sealable(message: Seq<u8>) -> bool {
    message.len() <= MAX_MESSAGE_LEN && message.len() + OVERHEAD_LEN <= usize::MAX
}

/// Calls `sodiumoxide::crypto::aead::chacha20poly1305_ietf::seal` without
/// associated data. Trusted: the result is the cipher's output for these
/// arguments, it is the message's length plus the tag, and the cipher opens
/// it again to the message under the same nonce and key. libsodium aborts on
/// a message beyond `MAX_MESSAGE_LEN`, and the result must fit in memory; the
/// precondition leaves such messages out.
#[verifier::external_body]
fn aead_seal(message: &[u8], nonce: &Nonce, key: &Key) -> (sealed: Vec<u8>)
    requires
        sealable(message@),
    ensures
        sealed@ == aead_sealed(message@, nonce@, key@),
        sealed@.len() == message@.len() + TAG_LEN,
        aead_opened(sealed@, nonce@, key@) == Some(message@),
{
    let n = chacha20poly1305_ietf::Nonce(*nonce);
    let k = chacha20poly1305_ietf::Key(*key);
    chacha20poly1305_ietf::seal(message, None, &n, &k)
}

/// Calls `sodiumoxide::crypto::aead::chacha20poly1305_ietf::open` without
/// associated data. Trusted: the result is the cipher's answer for these
/// arguments, an input shorter than a tag is rejected, and a recovered
/// message is the input's length less the tag. libsodium aborts where the
/// tag holds and the message is beyond `MAX_MESSAGE_LEN`; the precondition
/// leaves such inputs out.
#[verifier::external_body]
fn aead_open(sealed: &[u8], nonce: &Nonce, key: &Key) -> (opened: Option<Vec<u8>>)
    requires
        sealed@.len() <= MAX_MESSAGE_LEN + TAG_LEN,
    ensures
        bytes_of(opened) == aead_opened(sealed@, nonce@, key@),
        sealed@.len() < TAG_LEN ==> opened is None,
        opened matches Some(message) ==> message@.len() + TAG_LEN == sealed@.len(),
{
    let n = chacha20poly1305_ietf::Nonce(*nonce);
    let k = chacha20poly1305_ietf::Key(*key);
    chacha20poly1305_ietf::open(sealed, None, &n, &k).ok()
}

/// Calls `sodiumoxide::crypto::auth::hmacsha256::authenticate`. Trusted: the
/// result is the HMAC-SHA-256 authenticator of the message under the key.
#[verifier::external_body]
fn hmac_sha256(message: &[u8], key: &Key) -> (tag: [u8; 32])
    ensures
        tag@ == hmac_sha256_tag(message@, key@),
{
    hmacsha256::authenticate(message, &hmacsha256::Key(*key)).0
}

/// Calls `sodiumoxide::randombytes::randombytes`, which returns that many
/// random bytes. Trusted: the length. Nothing is claimed of the bytes.
#[verifier::external_body]
fn random_bytes(len: usize) -> (bytes: Vec<u8>)
    ensures
        bytes@.len() == len,
{
    randombytes::randombytes(len)
}

/// The bytes held by an optional byte vector.
pub open spec fn bytes_of(v: Option<Vec<u8>>) -> Option<Seq<u8>> {
    match v {
        Some(bytes) => Some(bytes@),
        None => None,
    }
}

/// The nonce of the searchable blob of `data`: the first `NONCE_LEN` bytes of
/// its authenticator under `hmac_key`.
pub open spec fn searchable_nonce(data: Seq<u8>, hmac_key: Seq<u8>) -> Seq<u8> {
    hmac_sha256_tag(data, hmac_key).subrange(0, NONCE_LEN as int)
}

/// The blob that holds `data` sealed under `key` with the given nonce.
pub open spec fn blob_with_nonce(data: Seq<u8>, nonce: Seq<u8>, key: Seq<u8>) -> Seq<u8> {
    nonce + aead_sealed(data, nonce, key)
}

/// The searchable blob of `data` under `key`, with its nonce derived under
/// `hmac_key`.
pub open spec fn searchable_blob(data: Seq<u8>, key: Seq<u8>, hmac_key: Seq<u8>) -> Seq<u8> {
    blob_with_nonce(data, searchable_nonce(data, hmac_key), key)
}

/// What decryption under `key` recovers from `blob`: nothing from a blob too
/// short to hold a nonce or too long to hold a message that the cipher
/// takes, else what the cipher recovers from the bytes after the nonce.
pub open spec fn decrypted(blob: Seq<u8>, key: Seq<u8>) -> Option<Seq<u8>> {
    if blob.len() < NONCE_LEN || blob.len() > MAX_MESSAGE_LEN + OVERHEAD_LEN {
        None
    } else {
        aead_opened(
            blob.subrange(NONCE_LEN as int, blob.len() as int),
            blob.subrange(0, NONCE_LEN as int),
            key,
        )
    }
}

/// Whether `blob` holds `data` sealed under `key` with some nonce.
pub open spec fn is_blob_of(blob: Seq<u8>, data: Seq<u8>, key: Seq<u8>) -> bool {
    exists|nonce: Seq<u8>| nonce.len() == NONCE_LEN && blob == #[trigger] blob_with_nonce(data, nonce, key)
}

/// Searchable encryption gives equal blobs for equal data under equal keys:
/// the blob depends on nothing else.
pub proof fn lemma_searchable_is_deterministic(
    data: Seq<u8>,
    key: Seq<u8>,
    hmac_key: Seq<u8>,
    same_data: Seq<u8>,
    same_key: Seq<u8>,
    same_hmac_key: Seq<u8>,
)
    requires
        data =~= same_data,
        key =~= same_key,
        hmac_key =~= same_hmac_key,
    ensures
        searchable_blob(data, key, hmac_key) == searchable_blob(same_data, same_key, same_hmac_key),
{
}

/// Two blobs whose nonces differ are different blobs, whatever they hold
/// and under whatever keys. So two encryptions of one value are told apart
/// wherever their nonces were drawn apart.
pub proof fn lemma_blobs_of_distinct_nonces_differ(
    data: Seq<u8>,
    nonce: Seq<u8>,
    key: Seq<u8>,
    other_data: Seq<u8>,
    other_nonce: Seq<u8>,
    other_key: Seq<u8>,
)
    requires
        nonce.len() == NONCE_LEN,
        other_nonce.len() == NONCE_LEN,
        nonce != other_nonce,
    ensures
        blob_with_nonce(data, nonce, key) != blob_with_nonce(other_data, other_nonce, other_key),
{
    let blob = blob_with_nonce(data, nonce, key);
    let other_blob = blob_with_nonce(other_data, other_nonce, other_key);
    assert(blob.subrange(0, NONCE_LEN as int) =~= nonce);
    assert(other_blob.subrange(0, NONCE_LEN as int) =~= other_nonce);
}

/// Whether a message of these bytes can be encrypted.
pub fn can_seal(message: &[u8]) -> (fits: bool)
    ensures
        fits == sealable(message@),
{
    message.len() as u64 <= MAX_MESSAGE_LEN && message.len() <= usize::MAX - OVERHEAD_LEN
}

/// The failure of a decryption. It does not tell a rejected tag from a
/// malformed length.
#[derive(Debug, Clone, Copy, PartialEq, Eq, Structural)]
pub struct CryptoError;

/// The key held in the `KEY_LEN` bytes of `bytes` that start at `at`.
pub fn key_at(bytes: &[u8], at: usize) -> (key: Key)
    requires
        at + KEY_LEN <= bytes@.len(),
    ensures
        key@ == bytes@.subrange(at as int, at + KEY_LEN),
{
    let len = bytes.len();
    let mut key: Key = [0u8; 32];
    let mut i: usize = 0;
    while i < KEY_LEN
        invariant
            i <= KEY_LEN,
            at + KEY_LEN <= len,
            len == bytes@.len(),
            forall|j: int| 0 <= j < i ==> key@[j] == bytes@[at + j],
        decreases KEY_LEN - i,
    {
        key[i] = bytes[at + i];
        i += 1;
    }
    assert(key@ =~= bytes@.subrange(at as int, at + KEY_LEN));
    key
}

/// The nonce held in the first `NONCE_LEN` bytes of `bytes`.
fn nonce_of(bytes: &[u8]) -> (nonce: Nonce)
    requires
        NONCE_LEN <= bytes@.len(),
    ensures
        nonce@ == bytes@.subrange(0, NONCE_LEN as int),
{
    let mut nonce: Nonce = [0u8; 12];
    let mut i: usize = 0;
    while i < NONCE_LEN
        invariant
            i <= NONCE_LEN,
            NONCE_LEN <= bytes@.len(),
            forall|j: int| 0 <= j < i ==> nonce@[j] == bytes@[j],
        decreases NONCE_LEN - i,
    {
        nonce[i] = bytes[i];
        i += 1;
    }
    assert(nonce@ =~= bytes@.subrange(0, NONCE_LEN as int));
    nonce
}

/// A fresh random key.
pub fn create_key() -> Key {
    let bytes = random_bytes(KEY_LEN);
    key_at(bytes.as_slice(), 0)
}

/// Seals `data` under `key` with `nonce` and puts the nonce in front.
fn encrypt_with_nonce(data: &[u8], nonce: &Nonce, key: &Key) -> (blob: Vec<u8>)
    requires
        sealable(data@),
    ensures
        blob@ == blob_with_nonce(data@, nonce@, key@),
        blob@.len() == data@.len() + OVERHEAD_LEN,
        decrypted(blob@, key@) == Some(data@),
{
    let sealed = aead_seal(data, nonce, key);
    let mut blob: Vec<u8> = Vec::new();
    let mut i: usize = 0;
    while i < NONCE_LEN
        invariant
            i <= NONCE_LEN,
            blob@ == nonce@.subrange(0, i as int),
        decreases NONCE_LEN - i,
    {
        blob.push(nonce[i]);
        assert(blob@ =~= nonce@.subrange(0, i + 1));
        i += 1;
    }
    assert(blob@ =~= nonce@);
    let mut j: usize = 0;
    while j < sealed.len()
        invariant
            j <= sealed.len(),
            nonce@.len() == NONCE_LEN,
            blob@ == nonce@ + sealed@.subrange(0, j as int),
        decreases sealed.len() - j,
    {
        blob.push(sealed[j]);
        assert(blob@ =~= nonce@ + sealed@.subrange(0, j + 1));
        j += 1;
    }
    assert(sealed@.subrange(0, sealed@.len() as int) =~= sealed@);
    assert(blob@.subrange(0, NONCE_LEN as int) =~= nonce@);
    assert(blob@.subrange(NONCE_LEN as int, blob@.len() as int) =~= sealed@);
    blob
}

/// Encrypts `data` under `key` so that equal data give equal blobs: the nonce
/// is derived from the data under `hmac_key`.
pub fn encrypt_as_searchable(data: &[u8], key: &Key, hmac_key: &Key) -> (blob: Vec<u8>)
    requires
        sealable(data@),
    ensures
        blob@ == searchable_blob(data@, key@, hmac_key@),
        blob@.len() == data@.len() + OVERHEAD_LEN,
        decrypted(blob@, key@) == Some(data@),
{
    let tag = hmac_sha256(data, hmac_key);
    let nonce = nonce_of(tag.as_slice());
    encrypt_with_nonce(data, &nonce, key)
}

/// Encrypts `data` under `key` with a fresh random nonce, so that two blobs of
/// the same data differ unless the nonces collide.
pub fn encrypt_as_not_searchable(data: &[u8], key: &Key) -> (blob: Vec<u8>)
    requires
        sealable(data@),
    ensures
        is_blob_of(blob@, data@, key@),
        blob@.len() == data@.len() + OVERHEAD_LEN,
        decrypted(blob@, key@) == Some(data@),
{
    let bytes = random_bytes(NONCE_LEN);
    let nonce = nonce_of(bytes.as_slice());
    let blob = encrypt_with_nonce(data, &nonce, key);
    assert(blob@ == blob_with_nonce(data@, nonce@, key@));
    blob
}

/// Decrypts a blob under `key`. Fails on a blob too short to hold a nonce,
/// on one too long to hold a message that the cipher takes, and on one that
/// the cipher rejects, and does not say which.
pub fn decrypt(blob: &[u8], key: &Key) -> (r: Result<Vec<u8>, CryptoError>)
    ensures
        match r {
            Ok(data) => decrypted(blob@, key@) == Some(data@),
            Err(_) => decrypted(blob@, key@) is None,
        },
        r matches Ok(data) ==> data@.len() + OVERHEAD_LEN == blob@.len(),
        blob@.len() < OVERHEAD_LEN ==> r is Err,
{
    if blob.len() < NONCE_LEN || blob.len() as u64 > MAX_MESSAGE_LEN + OVERHEAD_LEN as u64 {
        return Err(CryptoError);
    }
    let nonce = nonce_of(blob);
    let sealed = vstd::slice::slice_subrange(blob, NONCE_LEN, blob.len());
    match aead_open(sealed, &nonce, key) {
        Some(data) => Ok(data),
        None => Err(CryptoError),
    }
}

} // verus!
