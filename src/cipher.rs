//! Password-keyed authenticated encryption (AES-256-GCM) with a fresh random
//! nonce for every message.

use aes_gcm::aead::Aead;
use aes_gcm::aead::KeyInit;
use rand::RngCore;
use sha2::Digest;
use vstd::prelude::*;
use vstd::string::StringSliceAdditionalSpecFns;

verus! {

/// Width of an AES-GCM nonce in bytes.
pub const NONCE_LEN: usize = 12;

/// Width of the authentication tag that sealing appends.
pub const TAG_LEN: usize = 16;

/// Longest plaintext that AES-GCM seals, in bytes.
pub const PLAINTEXT_MAX: u64 = 68719476736;

/// The SHA-256 digest of `data`.
pub uninterp spec fn sha256_of(data: Seq<u8>) -> Seq<u8>;

/// What AES-256-GCM seals `plaintext` into under `key` and `nonce`, tag
/// included, with no associated data.
pub uninterp spec fn seal_of(key: Seq<u8>, nonce: Seq<u8>, plaintext: Seq<u8>) -> Seq<u8>;

/// What AES-256-GCM opens `ciphertext` to under `key` and `nonce`, or `None`
/// where the tag does not verify.
pub uninterp spec fn open_of(key: Seq<u8>, nonce: Seq<u8>, ciphertext: Seq<u8>) -> Option<Seq<u8>>;

/// The key that a password stands for: the SHA-256 digest of its UTF-8 bytes,
/// with no salt.
pub open spec fn key_of(password: Seq<u8>) -> Seq<u8> {
    sha256_of(password)
}

/// Relies on sha2's `Sha256::digest`: a 32-byte digest of the input.
#[verifier::external_body]
fn sha256(data: &[u8]) -> (r: [u8; 32])
    ensures
        r@ == sha256_of(data@),
{
    sha2::Sha256::digest(data).into()
}

/// Relies on rand's `OsRng::try_fill_bytes`: twelve bytes from the operating
/// system's secure source, of which nothing else is known, or nothing where
/// that source fails.
#[verifier::external_body]
pub(crate) fn random_nonce() -> (r: Option<[u8; 12]>) {
    let mut nonce = [0u8; 12];
    match rand::rngs::OsRng.try_fill_bytes(&mut nonce) {
        Ok(()) => Some(nonce),
        Err(_) => None,
    }
}

/// Relies on aes-gcm's `Aes256Gcm::encrypt`: it fails only on a plaintext
/// longer than `PLAINTEXT_MAX`, appends a 16-byte tag, and what it seals
/// opens again under the same key and nonce.
#[verifier::external_body]
fn aes_seal(key: &[u8; 32], nonce: &[u8; 12], plaintext: &[u8]) -> (r: Vec<u8>)
    requires
        plaintext@.len() <= PLAINTEXT_MAX,
    ensures
        r@ == seal_of(key@, nonce@, plaintext@),
        r@.len() == plaintext@.len() + TAG_LEN,
        open_of(key@, nonce@, r@) == Some(plaintext@),
{
    let cipher = aes_gcm::Aes256Gcm::new(aes_gcm::Key::<aes_gcm::Aes256Gcm>::from_slice(key));
    cipher.encrypt(aes_gcm::Nonce::from_slice(nonce), plaintext).expect("plaintext within the limit")
}

/// Relies on aes-gcm's `Aes256Gcm::decrypt`: the plaintext, or nothing where
/// the ciphertext is shorter than the tag or the tag does not verify. A
/// plaintext that opens seals again to the same ciphertext.
#[verifier::external_body]
fn aes_open(key: &[u8; 32], nonce: &[u8; 12], ciphertext: &[u8]) -> (r: Option<Vec<u8>>)
    ensures
        match r {
            Some(v) => open_of(key@, nonce@, ciphertext@) == Some(v@)
                && seal_of(key@, nonce@, v@) == ciphertext@,
            None => open_of(key@, nonce@, ciphertext@) is None,
        },
        ciphertext@.len() < TAG_LEN ==> r is None,
{
    let cipher = aes_gcm::Aes256Gcm::new(aes_gcm::Key::<aes_gcm::Aes256Gcm>::from_slice(key));
    cipher.decrypt(aes_gcm::Nonce::from_slice(nonce), ciphertext).ok()
}

/// Why a buffer could not be sealed or opened.
#[derive(Debug, Clone, Copy, PartialEq, Eq, Structural)]
pub enum CipherError {
    /// The tag did not verify (wrong password or altered ciphertext), or the
    /// nonce is not twelve bytes wide.
    Authentication,
    /// The operating system's random source gave no nonce.
    NonceUnavailable,
}

/// Derives the 256-bit key of a password: the same password always gives the
/// same key.
pub fn derive_key_from_password(password: &str) -> (r: [u8; 32])
    ensures
        r@ == key_of(password.spec_bytes()),
{
    sha256(password.as_bytes())
}

/// Seals `data` under the key of `password` with the given nonce.
pub fn encrypt_with_nonce(data: &[u8], password: &str, nonce: &[u8; 12]) -> (r: Vec<u8>)
    requires
        data@.len() <= PLAINTEXT_MAX,
    ensures
        r@ == seal_of(key_of(password.spec_bytes()), nonce@, data@),
        r@.len() == data@.len() + TAG_LEN,
        open_of(key_of(password.spec_bytes()), nonce@, r@) == Some(data@),
{
    let key = derive_key_from_password(password);
    aes_seal(&key, nonce, data)
}

/// Seals `data` under the key of `password` with a freshly drawn nonce, and
/// returns the ciphertext with that nonce; fails only where the random
/// source gives no nonce.
pub fn encrypt(data: &[u8], password: &str) -> (r: Result<(Vec<u8>, [u8; 12]), CipherError>)
    requires
        data@.len() <= PLAINTEXT_MAX,
    ensures
        match r {
            Ok((ciphertext, nonce)) => {
                &&& ciphertext@ == seal_of(key_of(password.spec_bytes()), nonce@, data@)
                &&& ciphertext@.len() == data@.len() + TAG_LEN
                &&& open_of(key_of(password.spec_bytes()), nonce@, ciphertext@) == Some(data@)
            },
            Err(e) => e == CipherError::NonceUnavailable,
        },
{
    match random_nonce() {
        Some(nonce) => {
            let ciphertext = encrypt_with_nonce(data, password, &nonce);
            Ok((ciphertext, nonce))
        },
        None => Err(CipherError::NonceUnavailable),
    }
}

/// Opens `ciphertext` under the key of `password` and `nonce`; fails with
/// `Authentication`, and yields no plaintext, where the tag does not verify.
pub fn decrypt(ciphertext: &[u8], nonce: [u8; 12], password: &str) -> (r: Result<Vec<u8>, CipherError>)
    ensures
        match r {
            Ok(v) => open_of(key_of(password.spec_bytes()), nonce@, ciphertext@) == Some(v@)
                && seal_of(key_of(password.spec_bytes()), nonce@, v@) == ciphertext@,
            Err(e) => e == CipherError::Authentication
                && open_of(key_of(password.spec_bytes()), nonce@, ciphertext@) is None,
        },
        ciphertext@.len() < TAG_LEN ==> r is Err,
{
    let key = derive_key_from_password(password);
    match aes_open(&key, &nonce, ciphertext) {
        Some(v) => Ok(v),
        None => Err(CipherError::Authentication),
    }
}

/// Opens `data` like `decrypt`, with the nonce given as a slice; fails with
/// `Authentication` where it is not twelve bytes wide.
pub fn decrypt_bytes(data: &[u8], password: &str, nonce_bytes: &[u8]) -> (r: Result<Vec<u8>, CipherError>)
    ensures
        nonce_bytes@.len() != NONCE_LEN ==> r == Err::<Vec<u8>, CipherError>(CipherError::Authentication),
        data@.len() < TAG_LEN ==> r is Err,
        nonce_bytes@.len() == NONCE_LEN ==> match r {
            Ok(v) => open_of(key_of(password.spec_bytes()), nonce_bytes@, data@) == Some(v@)
                && seal_of(key_of(password.spec_bytes()), nonce_bytes@, v@) == data@,
            Err(e) => e == CipherError::Authentication
                && open_of(key_of(password.spec_bytes()), nonce_bytes@, data@) is None,
        },
{
    if nonce_bytes.len() != NONCE_LEN {
        return Err(CipherError::Authentication);
    }
    let nonce: [u8; 12] = [
        nonce_bytes[0], nonce_bytes[1], nonce_bytes[2], nonce_bytes[3],
        nonce_bytes[4], nonce_bytes[5], nonce_bytes[6], nonce_bytes[7],
        nonce_bytes[8], nonce_bytes[9], nonce_bytes[10], nonce_bytes[11],
    ];
    assert(nonce@ =~= nonce_bytes@);
    decrypt(data, nonce, password)
}

} // verus!
