use airgap_sync::frame::{chunk_bytes, combine, split, FrameError};
use airgap_sync::transport::{emit_chunks, render_visual, CHUNK_SIZE};

#[test]
fn combine_puts_nonce_first() {
    let nonce = [1u8, 2, 3, 4, 5, 6, 7, 8, 9, 10, 11, 12];
    let frame = combine(&nonce, &[20, 21]);
    assert_eq!(frame, vec![1, 2, 3, 4, 5, 6, 7, 8, 9, 10, 11, 12, 20, 21]);
    assert_eq!(split(&frame), Ok((nonce, vec![20, 21])));
}

#[test]
fn split_of_bare_nonce_has_empty_ciphertext() {
    assert_eq!(split(&[0u8; 12]), Ok(([0u8; 12], Vec::new())));
}

#[test]
fn split_rejects_short_frame() {
    assert_eq!(split(&[0u8; 11]), Err(FrameError::TooShort));
    assert_eq!(split(&[]), Err(FrameError::TooShort));
}

#[test]
fn chunks_have_fixed_size_but_the_last() {
    let data: Vec<u8> = (0..2500u32).map(|i| i as u8).collect();
    let chunks = chunk_bytes(&data, 1000);
    assert_eq!(chunks.len(), 3);
    assert_eq!(chunks[0].len(), 1000);
    assert_eq!(chunks[1].len(), 1000);
    assert_eq!(chunks[2].len(), 500);
    assert_eq!(chunks.concat(), data);
}

#[test]
fn chunks_of_exact_multiple_and_empty() {
    assert_eq!(chunk_bytes(&[1, 2, 3, 4], 2), vec![vec![1, 2], vec![3, 4]]);
    assert_eq!(chunk_bytes(&[], 5), Vec::<Vec<u8>>::new());
    assert_eq!(chunk_bytes(&[9, 8, 7], 1), vec![vec![9], vec![8], vec![7]]);
    assert_eq!(chunk_bytes(&[9, 8, 7], 10), vec![vec![9, 8, 7]]);
}

#[test]
fn emitted_chunks_are_base64_and_rejoin() {
    let frame: Vec<u8> = (0..2100u32).map(|i| (i * 31) as u8).collect();
    let chunks = emit_chunks(&frame, CHUNK_SIZE);
    assert_eq!(chunks.len(), 3);
    let mut joined = Vec::new();
    for (i, chunk) in chunks.iter().enumerate() {
        assert_eq!(chunk.index, i + 1);
        assert_eq!(chunk.total, 3);
        #[allow(deprecated)]
        let bytes = base64::decode(&chunk.text).unwrap();
        joined.extend_from_slice(&bytes);
    }
    assert_eq!(joined, frame);
}

#[test]
fn emitted_text_is_standard_base64() {
    let chunks = emit_chunks(b"hi", CHUNK_SIZE);
    assert_eq!(chunks.len(), 1);
    assert_eq!(chunks[0].text, "aGk=");
}

#[test]
fn chunk_renders_as_qr_symbol() {
    let chunks = emit_chunks(&[0u8; 1000], CHUNK_SIZE);
    let glyphs = render_visual(&chunks[0]).unwrap();
    assert!(glyphs.lines().count() > 20);
    assert_ne!(glyphs, chunks[0].text);
}

#[test]
fn emitted_text_length_is_four_per_started_triple() {
    let chunks = emit_chunks(&[1u8; 10], 4);
    let lengths: Vec<usize> = chunks.iter().map(|c| c.text.len()).collect();
    assert_eq!(lengths, vec![8, 8, 4]);
}
