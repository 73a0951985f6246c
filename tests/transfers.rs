use airgap_sync::collector::{Collector, Event, Report};
use airgap_sync::transfer::{open_frame, seal_file, seal_with_nonce, ReceiveError};
use airgap_sync::transport::{emit_chunks, CHUNK_SIZE};

fn relay(frame: &[u8]) -> Vec<u8> {
    let mut collector = Collector::new(false);
    for chunk in emit_chunks(frame, CHUNK_SIZE) {
        assert!(matches!(collector.step(&Event::Acquired(chunk.text.clone())), Report::Appended(_)));
    }
    assert_eq!(collector.step(&Event::Acquired("done".to_string())), Report::Finished);
    collector.bytes().clone()
}

#[test]
fn hello_file_arrives_as_sent() {
    let frame = seal_file(b"hi", "x").unwrap();
    let received = relay(&frame);
    assert_eq!(received, frame);
    assert_eq!(open_frame(&received, "x"), Ok(b"hi".to_vec()));
}

#[test]
fn empty_file_round_trip() {
    let frame = seal_file(&[], "pw").unwrap();
    assert!(frame.len() >= 12 + 16);
    assert_eq!(open_frame(&relay(&frame), "pw"), Ok(Vec::new()));
}

#[test]
fn large_file_round_trip_over_many_chunks() {
    let mut state: u32 = 12345;
    let data: Vec<u8> = (0..6000)
        .map(|_| {
            state = state.wrapping_mul(1103515245).wrapping_add(12345);
            (state >> 16) as u8
        })
        .collect();
    let frame = seal_file(&data, "long password").unwrap();
    assert!(emit_chunks(&frame, CHUNK_SIZE).len() > 1);
    assert_eq!(open_frame(&relay(&frame), "long password"), Ok(data));
}

#[test]
fn frame_layout_with_fixed_nonce() {
    let nonce = [3u8; 12];
    let frame = seal_with_nonce(b"abc", "pw", &nonce).unwrap();
    assert_eq!(&frame[..12], &nonce);
    assert_eq!(seal_with_nonce(b"abc", "pw", &nonce).unwrap(), frame);
    assert_eq!(open_frame(&frame, "pw"), Ok(b"abc".to_vec()));
}

#[test]
fn receive_with_wrong_password() {
    let frame = seal_file(b"hi", "x").unwrap();
    assert_eq!(open_frame(&frame, "y"), Err(ReceiveError::Authentication));
}

#[test]
fn receive_detects_flipped_bit() {
    let frame = seal_file(b"some file", "x").unwrap();
    for i in 12..frame.len() {
        let mut altered = frame.clone();
        altered[i] ^= 0x80;
        assert_eq!(open_frame(&altered, "x"), Err(ReceiveError::Authentication));
    }
}

#[test]
fn receive_detects_reordered_chunks() {
    let data: Vec<u8> = (0..4000u32).map(|i| (i % 251) as u8).collect();
    let frame = seal_with_nonce(&data, "x", &[0u8; 12]).unwrap();
    let chunks = emit_chunks(&frame, 10);
    let mut collector = Collector::new(false);
    collector.step(&Event::Acquired(chunks[1].text.clone()));
    collector.step(&Event::Acquired(chunks[0].text.clone()));
    for chunk in &chunks[2..] {
        collector.step(&Event::Acquired(chunk.text.clone()));
    }
    assert_eq!(open_frame(collector.bytes(), "x"), Err(ReceiveError::Authentication));
}

#[test]
fn receive_rejects_short_buffer() {
    assert_eq!(open_frame(&[1, 2, 3], "x"), Err(ReceiveError::Format));
}

#[test]
fn receive_rejects_sealed_non_gzip_payload() {
    let nonce = [5u8; 12];
    let ciphertext = airgap_sync::cipher::encrypt_with_nonce(b"plain, not gzip", "x", &nonce);
    let frame = airgap_sync::frame::combine(&nonce, &ciphertext);
    assert_eq!(open_frame(&frame, "x"), Err(ReceiveError::CorruptStream));
}
