//! Lossless gzip compression of whole buffers.

use std::io::Read;
use std::io::Write;
use vstd::prelude::*;

verus! {

/// The gzip stream that flate2 writes for `data` at the default level.
pub uninterp spec fn gzip_of(data: Seq<u8>) -> Seq<u8>;

/// The bytes that flate2's gzip decoder reads from `stream`, or `None` where
/// `stream` is not a valid gzip stream.
pub uninterp spec fn gunzip_of(stream: Seq<u8>) -> Option<Seq<u8>>;

/// Relies on flate2's `GzEncoder` (`write_all`, then `finish`) over a `Vec`:
/// the stream is a function of the input, and gzip is lossless, so the
/// decoder gives the input back. Writing into a `Vec` never fails.
#[verifier::external_body]
fn gzip(data: &[u8]) -> (r: Vec<u8>)
    ensures
        r@ == gzip_of(data@),
        gunzip_of(r@) == Some(data@),
{
    let mut encoder = flate2::write::GzEncoder::new(Vec::new(), flate2::Compression::default());
    encoder.write_all(data).expect("writing into a Vec");
    encoder.finish().expect("writing into a Vec")
}

/// Relies on flate2's `GzDecoder` read to the end from an in-memory cursor:
/// the decoded bytes, or an error where the stream is corrupt.
#[verifier::external_body]
fn gunzip(stream: &[u8]) -> (r: Option<Vec<u8>>)
    ensures
        match r {
            Some(v) => gunzip_of(stream@) == Some(v@),
            None => gunzip_of(stream@) is None,
        },
{
    let mut decoder = flate2::read::GzDecoder::new(std::io::Cursor::new(stream));
    let mut out = Vec::new();
    match decoder.read_to_end(&mut out) {
        Ok(_) => Some(out),
        Err(_) => None,
    }
}

/// Why a buffer could not be decompressed.
#[derive(Debug, Clone, Copy, PartialEq, Eq, Structural)]
pub enum CodecError {
    /// The input is not a valid gzip stream.
    CorruptStream,
}

/// Compresses `data` into a gzip stream that `decompress_bytes` turns back
/// into `data`.
pub fn compress_bytes(data: &[u8]) -> (r: Vec<u8>)
    ensures
        r@ == gzip_of(data@),
        gunzip_of(r@) == Some(data@),
{
    gzip(data)
}

/// Decompresses a gzip stream; fails exactly where the stream is corrupt.
pub fn decompress_bytes(data: &[u8]) -> (r: Result<Vec<u8>, CodecError>)
    ensures
        match r {
            Ok(v) => gunzip_of(data@) == Some(v@),
            Err(e) => e == CodecError::CorruptStream && gunzip_of(data@) is None,
        },
{
    match gunzip(data) {
        Some(v) => Ok(v),
        None => Err(CodecError::CorruptStream),
    }
}

} // verus!
