//! The wire frame (nonce, then ciphertext) and its cutting into chunks that
//! an operator carries across one at a time.

use vstd::prelude::*;
use crate::cipher::NONCE_LEN;

verus! {

/// Why a buffer is not a frame.
#[derive(Debug, Clone, Copy, PartialEq, Eq, Structural)]
pub enum FrameError {
    /// The buffer is shorter than a nonce.
    TooShort,
}

/// A frame: the nonce, then the ciphertext.
pub open spec fn frame_of(nonce: Seq<u8>, ciphertext: Seq<u8>) -> Seq<u8> {
    nonce + ciphertext
}

/// Joins a nonce and a ciphertext into one frame, nonce first.
pub fn combine(nonce: &[u8; 12], ciphertext: &[u8]) -> (r: Vec<u8>)
    ensures
        r@ == frame_of(nonce@, ciphertext@),
{
    let mut out: Vec<u8> = Vec::new();
    let mut i: usize = 0;
    while i < NONCE_LEN
        invariant
            i <= NONCE_LEN,
            out@ == nonce@.subrange(0, i as int),
        decreases NONCE_LEN - i,
    {
        out.push(nonce[i]);
        i = i + 1;
        assert(out@ =~= nonce@.subrange(0, i as int));
    }
    let mut j: usize = 0;
    while j < ciphertext.len()
        invariant
            j <= ciphertext@.len(),
            out@ == nonce@ + ciphertext@.subrange(0, j as int),
        decreases ciphertext@.len() - j,
    {
        out.push(ciphertext[j]);
        j = j + 1;
        assert(out@ =~= nonce@ + ciphertext@.subrange(0, j as int));
    }
    assert(ciphertext@.subrange(0, j as int) =~= ciphertext@);
    out
}

/// Copies `data[start..end]` into a vector of its own.
fn copy_range(data: &[u8], start: usize, end: usize) -> (r: Vec<u8>)
    requires
        start <= end <= data@.len(),
    ensures
        r@ == data@.subrange(start as int, end as int),
{
    let mut out: Vec<u8> = Vec::new();
    let mut i: usize = start;
    while i < end
        invariant
            start <= i <= end,
            end <= data@.len(),
            out@ == data@.subrange(start as int, i as int),
        decreases end - i,
    {
        out.push(data[i]);
        i = i + 1;
        assert(out@ =~= data@.subrange(start as int, i as int));
    }
    out
}

/// Splits a frame into its nonce and its ciphertext; fails where the frame is
/// shorter than a nonce.
pub fn split(frame: &[u8]) -> (r: Result<([u8; 12], Vec<u8>), FrameError>)
    ensures
        frame@.len() < NONCE_LEN ==> r == Err::<([u8; 12], Vec<u8>), FrameError>(FrameError::TooShort),
        frame@.len() >= NONCE_LEN ==> r is Ok,
        r matches Ok((nonce, ciphertext)) ==> nonce@ == frame@.subrange(0, NONCE_LEN as int)
            && ciphertext@ == frame@.subrange(NONCE_LEN as int, frame@.len() as int),
{
    if frame.len() < NONCE_LEN {
        return Err(FrameError::TooShort);
    }
    let nonce: [u8; 12] = [
        frame[0], frame[1], frame[2], frame[3], frame[4], frame[5],
        frame[6], frame[7], frame[8], frame[9], frame[10], frame[11],
    ];
    assert(nonce@ =~= frame@.subrange(0, NONCE_LEN as int));
    let ciphertext = copy_range(frame, NONCE_LEN, frame.len());
    Ok((nonce, ciphertext))
}

/// How many chunks of at most `size` bytes a buffer of `len` bytes takes.
pub open spec fn chunk_count(len: nat, size: nat) -> nat
    recommends
        size > 0,
{
    if len % size == 0 {
        len / size
    } else {
        len / size + 1
    }
}

/// The `i`-th chunk of `data` cut every `size` bytes; the last may be shorter.
pub open spec fn chunk_at(data: Seq<u8>, size: nat, i: int) -> Seq<u8> {
    let start = i * size;
    let end = if start + size <= data.len() { start + size } else { data.len() as int };
    data.subrange(start, end)
}

/// `data` cut from the left into chunks of `size` bytes.
pub open spec fn chunks_of(data: Seq<u8>, size: nat) -> Seq<Seq<u8>> {
    Seq::new(chunk_count(data.len(), size), |i: int| chunk_at(data, size, i))
}

/// The parts joined in order.
pub open spec fn concat_all(parts: Seq<Seq<u8>>) -> Seq<u8>
    decreases parts.len(),
{
    if parts.len() == 0 {
        Seq::empty()
    } else {
        concat_all(parts.drop_last()) + parts.last()
    }
}

proof fn lemma_chunk_bounds(len: nat, size: nat, i: nat)
    requires
        size > 0,
        i < chunk_count(len, size),
    ensures
        i * size < len,
        (i + 1) * size <= len || i + 1 == chunk_count(len, size),
{
    let q = len / size;
    let m = len % size;
    assert(len == q * size + m) by (nonlinear_arith)
        requires q == len / size, m == len % size, size > 0;
    assert(i * size <= q * size) by (nonlinear_arith)
        requires i <= q;
    if m == 0 {
        assert(i * size + size <= q * size) by (nonlinear_arith)
            requires i + 1 <= q;
    } else if i < q {
        assert((i + 1) * size <= q * size) by (nonlinear_arith)
            requires i + 1 <= q;
    } else {
        assert(i == q);
    }
    assert((i + 1) * size == i * size + size) by (nonlinear_arith);
}

proof fn lemma_chunks_prefix(data: Seq<u8>, size: nat, k: nat)
    requires
        size > 0,
        k <= chunk_count(data.len(), size),
    ensures
        concat_all(chunks_of(data, size).take(k as int))
            =~= data.subrange(0, if k * size <= data.len() { (k * size) as int } else { data.len() as int }),
    decreases k,
{
    let chunks = chunks_of(data, size);
    if k == 0 {
        assert(chunks.take(0) =~= Seq::<Seq<u8>>::empty());
    } else {
        let j = (k - 1) as nat;
        lemma_chunks_prefix(data, size, j);
        lemma_chunk_bounds(data.len(), size, j);
        assert(chunks.take(k as int).drop_last() =~= chunks.take(j as int));
        assert((j + 1) * size == j * size + size) by (nonlinear_arith);
        let e = if k * size <= data.len() { (k * size) as int } else { data.len() as int };
        assert(chunks.take(k as int).last() == chunk_at(data, size, j as int));
        assert(chunk_at(data, size, j as int) == data.subrange((j * size) as int, e));
        assert(data.subrange(0, (j * size) as int) + data.subrange((j * size) as int, e)
            =~= data.subrange(0, e));
        if k < chunk_count(data.len(), size) {
            assert((j + 1) * size <= data.len());
        } else {
            assert(chunk_count(data.len(), size) * size >= data.len()) by (nonlinear_arith)
                requires
                    size > 0,
                    chunk_count(data.len(), size) == if data.len() % size == 0 {
                        data.len() / size
                    } else {
                        data.len() / size + 1
                    };
        }
    }
}

/// Joining, in order, every chunk that `data` is cut into gives `data` back,
/// whatever the chunk size.
pub proof fn lemma_chunks_rejoin(data: Seq<u8>, size: nat)
    requires
        size >= 1,
    ensures
        concat_all(chunks_of(data, size)) == data,
{
    let n = chunk_count(data.len(), size);
    lemma_chunks_prefix(data, size, n);
    assert(chunks_of(data, size).take(n as int) =~= chunks_of(data, size));
    assert(n * size >= data.len()) by (nonlinear_arith)
        requires
            size > 0,
            n == if data.len() % size == 0 { data.len() / size } else { data.len() / size + 1 };
    assert(data.subrange(0, data.len() as int) =~= data);
}

/// Cuts `data` from the left into chunks of `size` bytes, the last possibly
/// shorter.
pub fn chunk_bytes(data: &[u8], size: usize) -> (r: Vec<Vec<u8>>)
    requires
        size >= 1,
    ensures
        r@.len() == chunk_count(data@.len(), size as nat),
        forall|i: int| 0 <= i < r@.len() ==> #[trigger] r@[i]@ == chunk_at(data@, size as nat, i),
        forall|i: int| 0 <= i < r@.len() ==> (#[trigger] r@[i])@.len() <= size,
{
    let len = data.len();
    assert(len % size != 0 ==> len / size < usize::MAX) by (nonlinear_arith)
        requires size >= 1, len <= usize::MAX;
    let count: usize = if len % size == 0 { len / size } else { len / size + 1 };
    let mut out: Vec<Vec<u8>> = Vec::new();
    let mut i: usize = 0;
    while i < count
        invariant
            i <= count,
            count == chunk_count(len as nat, size as nat),
            len == data@.len(),
            size >= 1,
            out@.len() == i,
            forall|k: int| 0 <= k < i ==> #[trigger] out@[k]@ == chunk_at(data@, size as nat, k),
            forall|k: int| 0 <= k < i ==> (#[trigger] out@[k])@.len() <= size,
        decreases count - i,
    {
        proof {
            lemma_chunk_bounds(len as nat, size as nat, i as nat);
        }
        let start: usize = i * size;
        let end: usize = if len - start <= size { len } else { start + size };
        let piece = copy_range(data, start, end);
        out.push(piece);
        i = i + 1;
    }
    out
}

} // verus!
