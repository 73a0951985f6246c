//! Transport-safe text for chunks: base64, and optionally a QR symbol.

use vstd::prelude::*;
use crate::frame::chunk_at;
use crate::frame::chunk_bytes;
use crate::frame::chunk_count;
use crate::frame::chunks_of;
use crate::frame::concat_all;
use crate::frame::lemma_chunks_rejoin;

verus! {

/// The standard padded base64 text of `data`.
pub uninterp spec fn base64_of(data: Seq<u8>) -> Seq<char>;

/// The bytes that the standard base64 decoder reads from `text`, or `None`
/// where `text` is not valid base64.
pub uninterp spec fn unbase64_of(text: Seq<char>) -> Option<Seq<u8>>;

/// The QR symbol of `text` at error-correction level M, drawn with Unicode
/// half blocks, or `None` where `text` does not fit in a symbol.
pub uninterp spec fn qr_glyphs_of(text: Seq<char>) -> Option<Seq<char>>;

/// Relies on base64's `encode` (standard alphabet, padded): four characters
/// for each started group of three bytes; it panics only where that length
/// overflows. Its decoder reads the bytes back.
#[verifier::external_body]
#[allow(deprecated)]
pub(crate) fn base64_encode(data: &[u8]) -> (r: String)
    requires
        4 * ((data@.len() + 2) / 3) <= usize::MAX,
    ensures
        r@.len() == 4 * ((data@.len() + 2) / 3),
        r@ == base64_of(data@),
        unbase64_of(r@) == Some(data@),
{
    base64::encode(data)
}

/// Relies on base64's `decode` (standard alphabet): the bytes, or an error
/// where the text is not valid base64.
#[verifier::external_body]
#[allow(deprecated)]
pub(crate) fn base64_decode(text: &str) -> (r: Option<Vec<u8>>)
    ensures
        match r {
            Some(v) => unbase64_of(text@) == Some(v@),
            None => unbase64_of(text@) is None,
        },
{
    base64::decode(text).ok()
}

/// Relies on qrcode's `QrCode::with_error_correction_level` at level M and
/// its `Dense1x2` Unicode renderer: the symbol's text, or nothing where the
/// data is too long for a symbol.
#[verifier::external_body]
fn qr_glyphs(text: &str) -> (r: Option<String>)
    ensures
        match r {
            Some(s) => qr_glyphs_of(text@) == Some(s@),
            None => qr_glyphs_of(text@) is None,
        },
{
    match qrcode::QrCode::with_error_correction_level(text.as_bytes(), qrcode::EcLevel::M) {
        Ok(code) => Some(code.render::<qrcode::render::unicode::Dense1x2>().build()),
        Err(_) => None,
    }
}

/// Bytes of frame carried by one chunk, before encoding.
pub const CHUNK_SIZE: usize = 1000;

/// One chunk as shown to the operator: its place (from 1) among `total`, and
/// the base64 text of its bytes. Only `text` is carried across.
#[derive(Debug, Clone)]
pub struct Chunk {
    pub index: usize,
    pub total: usize,
    pub text: String,
}

/// Cuts `frame` into chunks of `chunk_size` bytes and encodes each as base64.
pub fn emit_chunks(frame: &[u8], chunk_size: usize) -> (r: Vec<Chunk>)
    requires
        chunk_size >= 1,
        chunk_size <= usize::MAX / 2,
    ensures
        r@.len() == chunk_count(frame@.len(), chunk_size as nat),
        forall|i: int| 0 <= i < r@.len() ==> {
            &&& (#[trigger] r@[i]).index == i + 1
            &&& r@[i].total == r@.len()
            &&& r@[i].text@ == base64_of(chunk_at(frame@, chunk_size as nat, i))
            &&& r@[i].text@.len() == 4 * ((chunk_at(frame@, chunk_size as nat, i).len() + 2) / 3)
            &&& unbase64_of(r@[i].text@) == Some(chunk_at(frame@, chunk_size as nat, i))
        },
{
    let pieces = chunk_bytes(frame, chunk_size);
    let total = pieces.len();
    let mut out: Vec<Chunk> = Vec::new();
    let mut i: usize = 0;
    while i < total
        invariant
            i <= total,
            total == pieces@.len(),
            out@.len() == i,
            forall|k: int| 0 <= k < pieces@.len() ==> #[trigger] pieces@[k]@ == chunk_at(frame@, chunk_size as nat, k),
            forall|k: int| 0 <= k < i ==> {
                &&& (#[trigger] out@[k]).index == k + 1
                &&& out@[k].total == total
                &&& out@[k].text@ == base64_of(chunk_at(frame@, chunk_size as nat, k))
                &&& out@[k].text@.len() == 4 * ((chunk_at(frame@, chunk_size as nat, k).len() + 2) / 3)
                &&& unbase64_of(out@[k].text@) == Some(chunk_at(frame@, chunk_size as nat, k))
            },
            chunk_size <= usize::MAX / 2,
            forall|k: int| 0 <= k < pieces@.len() ==> (#[trigger] pieces@[k])@.len() <= chunk_size,
        decreases total - i,
    {
        let n = pieces[i].len();
        assert(4 * ((n + 2) / 3) <= usize::MAX) by (nonlinear_arith)
            requires n <= usize::MAX / 2;
        let text = base64_encode(pieces[i].as_slice());
        out.push(Chunk { index: i + 1, total, text });
        i = i + 1;
    }
    out
}

/// Decoding, in order, the texts of the chunks that `emit_chunks` gives for
/// `frame` and joining the bytes gives `frame` back, whatever the chunk size.
pub proof fn lemma_emitted_chunks_rejoin(frame: Seq<u8>, chunk_size: nat, texts: Seq<Seq<char>>)
    requires
        chunk_size >= 1,
        texts.len() == chunk_count(frame.len(), chunk_size),
        forall|i: int| 0 <= i < texts.len() ==> unbase64_of(#[trigger] texts[i]) == Some(chunk_at(frame, chunk_size, i)),
    ensures
        concat_all(texts.map_values(|t: Seq<char>| unbase64_of(t)->0)) == frame,
{
    lemma_chunks_rejoin(frame, chunk_size);
    assert(texts.map_values(|t: Seq<char>| unbase64_of(t)->0) =~= chunks_of(frame, chunk_size));
}

/// Draws a chunk's text as a QR symbol, or gives nothing where it does not fit.
pub fn render_visual(chunk: &Chunk) -> (r: Option<String>)
    ensures
        match r {
            Some(s) => qr_glyphs_of(chunk.text@) == Some(s@),
            None => qr_glyphs_of(chunk.text@) is None,
        },
{
    qr_glyphs(chunk.text.as_str())
}

} // verus!
