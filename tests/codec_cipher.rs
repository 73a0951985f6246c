use airgap_sync::cipher::{decrypt, decrypt_bytes, derive_key_from_password, encrypt, encrypt_with_nonce, CipherError};
use airgap_sync::codec::{compress_bytes, decompress_bytes, CodecError};

#[test]
fn compress_round_trip() {
    let data: Vec<u8> = (0..5000u32).map(|i| (i % 7) as u8).collect();
    let packed = compress_bytes(&data);
    assert_ne!(packed, data);
    assert!(packed.len() < data.len());
    assert_eq!(decompress_bytes(&packed), Ok(data));
}

#[test]
fn compress_empty_round_trip() {
    let packed = compress_bytes(&[]);
    assert!(!packed.is_empty());
    assert_eq!(decompress_bytes(&packed), Ok(Vec::new()));
}

#[test]
fn decompress_rejects_garbage() {
    assert_eq!(decompress_bytes(b"not a gzip stream"), Err(CodecError::CorruptStream));
}

#[test]
fn key_is_sha256_of_password() {
    let key = derive_key_from_password("abc");
    let expected: [u8; 32] = [
        0xba, 0x78, 0x16, 0xbf, 0x8f, 0x01, 0xcf, 0xea, 0x41, 0x41, 0x40, 0xde, 0x5d, 0xae, 0x22, 0x23,
        0xb0, 0x03, 0x61, 0xa3, 0x96, 0x17, 0x7a, 0x9c, 0xb4, 0x10, 0xff, 0x61, 0xf2, 0x00, 0x15, 0xad,
    ];
    assert_eq!(key, expected);
    assert_eq!(derive_key_from_password("abc"), derive_key_from_password("abc"));
    assert_ne!(derive_key_from_password("abc"), derive_key_from_password("abd"));
}

#[test]
fn encrypt_decrypt_round_trip() {
    let (ciphertext, nonce) = encrypt(b"attack at dawn", "pw").unwrap();
    assert_eq!(ciphertext.len(), 14 + 16);
    assert_ne!(&ciphertext[..14], b"attack at dawn");
    assert_eq!(decrypt(&ciphertext, nonce, "pw"), Ok(b"attack at dawn".to_vec()));
}

#[test]
fn encrypt_draws_fresh_nonces() {
    let (c1, n1) = encrypt(b"same", "pw").unwrap();
    let (c2, n2) = encrypt(b"same", "pw").unwrap();
    assert_ne!(n1, n2);
    assert_ne!(c1, c2);
}

#[test]
fn encrypt_with_fixed_nonce_is_deterministic() {
    let nonce = [7u8; 12];
    let a = encrypt_with_nonce(b"data", "pw", &nonce);
    let b = encrypt_with_nonce(b"data", "pw", &nonce);
    assert_eq!(a, b);
    assert_eq!(decrypt(&a, nonce, "pw"), Ok(b"data".to_vec()));
}

#[test]
fn wrong_password_fails_authentication() {
    let (ciphertext, nonce) = encrypt(b"secret", "right").unwrap();
    assert_eq!(decrypt(&ciphertext, nonce, "wrong"), Err(CipherError::Authentication));
}

#[test]
fn every_single_bit_flip_fails_authentication() {
    let (ciphertext, nonce) = encrypt(b"hello", "pw").unwrap();
    for byte in 0..ciphertext.len() {
        for bit in 0..8 {
            let mut altered = ciphertext.clone();
            altered[byte] ^= 1 << bit;
            assert_eq!(decrypt(&altered, nonce, "pw"), Err(CipherError::Authentication));
        }
    }
}

#[test]
fn decrypt_bytes_checks_nonce_width() {
    let (ciphertext, nonce) = encrypt(b"x", "pw").unwrap();
    assert_eq!(decrypt_bytes(&ciphertext, "pw", &nonce[..11]), Err(CipherError::Authentication));
    assert_eq!(decrypt_bytes(&ciphertext, "pw", &[0u8; 13]), Err(CipherError::Authentication));
    assert_eq!(decrypt_bytes(&ciphertext, "pw", &nonce), Ok(b"x".to_vec()));
    assert_eq!(decrypt_bytes(&ciphertext, "other", &nonce), Err(CipherError::Authentication));
}

#[test]
fn encrypt_then_decrypt_bytes_round_trip_of_compressed_data() {
    let data = b"round trip through every stage".to_vec();
    let compressed = compress_bytes(&data);
    let (ciphertext, nonce) = encrypt(&compressed, "p").unwrap();
    let opened = decrypt_bytes(&ciphertext, "p", &nonce).unwrap();
    assert_eq!(decompress_bytes(&opened), Ok(data));
}
