//! The two ends of a transfer: a file's bytes into a frame, and a frame back
//! into the file's bytes.

use vstd::prelude::*;
use vstd::string::StringSliceAdditionalSpecFns;
use crate::cipher::decrypt;
use crate::cipher::encrypt_with_nonce;
use crate::cipher::key_of;
use crate::cipher::open_of;
use crate::cipher::random_nonce;
use crate::cipher::seal_of;
use crate::cipher::NONCE_LEN;
use crate::cipher::PLAINTEXT_MAX;
use crate::cipher::TAG_LEN;
use crate::codec::compress_bytes;
use crate::codec::decompress_bytes;
use crate::codec::gunzip_of;
use crate::codec::gzip_of;
use crate::frame::combine;
use crate::frame::split;

verus! {

/// Why a file could not be sent.
#[derive(Debug, Clone, Copy, PartialEq, Eq, Structural)]
pub enum SendError {
    /// The compressed file is longer than AES-GCM can seal.
    TooLarge,
    /// The operating system's random source gave no nonce.
    NonceUnavailable,
}

/// Why a frame could not be turned back into a file.
#[derive(Debug, Clone, Copy, PartialEq, Eq, Structural)]
pub enum ReceiveError {
    /// The buffer is shorter than a nonce.
    Format,
    /// The tag did not verify: wrong password, or a chunk altered or out of order.
    Authentication,
    /// The opened payload is not a valid gzip stream.
    CorruptStream,
}

/// The frame that sending `data` under `password` with `nonce` produces.
pub open spec fn sent_frame(data: Seq<u8>, password: Seq<u8>, nonce: Seq<u8>) -> Seq<u8> {
    nonce + seal_of(key_of(password), nonce, gzip_of(data))
}

/// What receiving `frame` under `password` yields.
pub open spec fn received_of(frame: Seq<u8>, password: Seq<u8>) -> Result<Seq<u8>, ReceiveError> {
    if frame.len() < NONCE_LEN {
        Err(ReceiveError::Format)
    } else {
        match open_of(key_of(password), frame.take(NONCE_LEN as int), frame.skip(NONCE_LEN as int)) {
            None => Err(ReceiveError::Authentication),
            Some(payload) => match gunzip_of(payload) {
                None => Err(ReceiveError::CorruptStream),
                Some(data) => Ok(data),
            },
        }
    }
}

/// Compresses `data`, seals it under the key of `password` with `nonce`,
/// and frames it. The frame is received as `data` again, under the same
/// password; an empty file gives a frame of a nonce and a sealed empty
/// stream.
pub fn seal_with_nonce(data: &[u8], password: &str, nonce: &[u8; 12]) -> (r: Result<Vec<u8>, SendError>)
    ensures
        r is Ok <==> gzip_of(data@).len() <= PLAINTEXT_MAX,
        r is Err ==> r == Err::<Vec<u8>, SendError>(SendError::TooLarge),
        r matches Ok(frame) ==> {
            &&& frame@ == sent_frame(data@, password.spec_bytes(), nonce@)
            &&& frame@.len() == NONCE_LEN + gzip_of(data@).len() + TAG_LEN
            &&& received_of(frame@, password.spec_bytes()) == Ok::<Seq<u8>, ReceiveError>(data@)
        },
{
    let compressed = compress_bytes(data);
    if compressed.len() as u64 > PLAINTEXT_MAX {
        return Err(SendError::TooLarge);
    }
    let ciphertext = encrypt_with_nonce(compressed.as_slice(), password, nonce);
    let frame = combine(nonce, ciphertext.as_slice());
    assert(frame@.take(NONCE_LEN as int) =~= nonce@);
    assert(frame@.skip(NONCE_LEN as int) =~= ciphertext@);
    Ok(frame)
}

/// `seal_with_nonce` with a nonce freshly drawn from the operating system;
/// fails with `NonceUnavailable` where the random source gives none.
pub fn seal_file(data: &[u8], password: &str) -> (r: Result<Vec<u8>, SendError>)
    ensures
        r is Ok ==> gzip_of(data@).len() <= PLAINTEXT_MAX,
        gzip_of(data@).len() > PLAINTEXT_MAX ==> r is Err,
        r == Err::<Vec<u8>, SendError>(SendError::TooLarge) ==> gzip_of(data@).len() > PLAINTEXT_MAX,
        r matches Err(e) ==> e == SendError::TooLarge || e == SendError::NonceUnavailable,
        r matches Ok(frame) ==> {
            &&& frame@.len() == NONCE_LEN + gzip_of(data@).len() + TAG_LEN
            &&& frame@ == sent_frame(data@, password.spec_bytes(), frame@.take(NONCE_LEN as int))
            &&& received_of(frame@, password.spec_bytes()) == Ok::<Seq<u8>, ReceiveError>(data@)
        },
{
    let nonce = match random_nonce() {
        Some(nonce) => nonce,
        None => return Err(SendError::NonceUnavailable),
    };
    let r = seal_with_nonce(data, password, &nonce);
    proof {
        if r is Ok {
            assert(r->Ok_0@.take(NONCE_LEN as int) =~= nonce@);
        }
    }
    r
}

/// Splits `frame`, opens it under the key of `password` and decompresses
/// it. Nothing is returned but on full success.
pub fn open_frame(frame: &[u8], password: &str) -> (r: Result<Vec<u8>, ReceiveError>)
    ensures
        match r {
            Ok(v) => received_of(frame@, password.spec_bytes()) == Ok::<Seq<u8>, ReceiveError>(v@),
            Err(e) => received_of(frame@, password.spec_bytes()) == Err::<Seq<u8>, ReceiveError>(e),
        },
{
    let (nonce, ciphertext) = match split(frame) {
        Ok(parts) => parts,
        Err(_) => return Err(ReceiveError::Format),
    };
    assert(nonce@ =~= frame@.take(NONCE_LEN as int));
    assert(ciphertext@ =~= frame@.skip(NONCE_LEN as int));
    let payload = match decrypt(ciphertext.as_slice(), nonce, password) {
        Ok(p) => p,
        Err(_) => return Err(ReceiveError::Authentication),
    };
    match decompress_bytes(payload.as_slice()) {
        Ok(data) => Ok(data),
        Err(_) => Err(ReceiveError::CorruptStream),
    }
}

} // verus!
