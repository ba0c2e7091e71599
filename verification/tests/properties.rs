//! Scenario and property tests: concrete round trips, the size
//! identity, chunk independence, tag-region tampering, truncated
//! streams, mode selection, and the small helpers.

use doby::cipher::CipherAlgorithm;
use doby::crypto::{DobyCipher, EncryptionParams};
use doby::kdf::ArgonParams;
use doby::wire::{bytes_equal, u32_from_be_bytes, u32_to_be_bytes};
use doby::{decrypt, encrypt, is_magic, magic_bytes, set_if_better, should_decrypt};

const PASSWORD: &str = "the password";

fn encrypt_with(
    plaintext: &[u8],
    password: &str,
    params: &EncryptionParams,
    block_size: usize,
) -> Vec<u8> {
    let cipher = DobyCipher::new(password.as_bytes(), params);
    let mut out = Vec::new();
    encrypt(plaintext, &mut out, params, cipher, block_size, None);
    out
}

fn decrypt_with(
    body: &[u8],
    password: &str,
    params: &EncryptionParams,
    block_size: usize,
) -> (Vec<u8>, bool) {
    let cipher = DobyCipher::new(password.as_bytes(), params);
    let mut out = Vec::new();
    let verified = decrypt(body, &mut out, cipher, block_size);
    (out, verified)
}

#[test]
fn aes_round_trip() {
    let params = EncryptionParams::new(
        ArgonParams::new(10, 4096, 4).unwrap(),
        CipherAlgorithm::AesCtr,
    );
    let container = encrypt_with(b"the plaintext", PASSWORD, &params, 65536);
    assert_eq!(container.len(), 126);
    let (decrypted, verified) = decrypt_with(&container[81..], PASSWORD, &params, 65536);
    assert!(verified);
    assert_eq!(decrypted, b"the plaintext");
}

#[test]
fn empty_payload_xchacha20_round_trip() {
    let params = EncryptionParams::new(
        ArgonParams::new(10, 4096, 4).unwrap(),
        CipherAlgorithm::XChaCha20,
    );
    let container = encrypt_with(b"", PASSWORD, &params, 65536);
    assert_eq!(container.len(), 113);
    let (decrypted, verified) = decrypt_with(&container[81..], PASSWORD, &params, 65536);
    assert!(verified);
    assert_eq!(decrypted, b"");
}

#[test]
fn flipped_magic_is_not_recognized() {
    let params = EncryptionParams::new(
        ArgonParams::new(1, 8, 1).unwrap(),
        CipherAlgorithm::AesCtr,
    );
    let mut container = encrypt_with(b"the plaintext", PASSWORD, &params, 65536);
    assert!(is_magic(&container[..4]));
    container[0] ^= 1;
    // The mode selector stops here: no key derivation, no tag check.
    assert!(!is_magic(&container[..4]));
}

#[test]
fn magic_recognition() {
    assert_eq!(magic_bytes(), b"DOBY");
    assert!(is_magic(b"DOBY"));
    assert!(!is_magic(b"DOB"));
    assert!(!is_magic(b"DOBZ"));
    assert!(!is_magic(b"DOBYX"));
    assert!(!is_magic(b""));
}

#[test]
fn mode_selection() {
    assert!(should_decrypt(b"DOBY", false));
    // The documented escape hatch: force-encrypt wins over the magic.
    assert!(!should_decrypt(b"DOBY", true));
    assert!(!should_decrypt(b"DOB", false));
    assert!(!should_decrypt(b"plai", false));
    assert!(!should_decrypt(b"", false));
}

#[test]
fn chunk_independence() {
    let params = EncryptionParams::new(
        ArgonParams::new(1, 8, 1).unwrap(),
        CipherAlgorithm::XChaCha20,
    );
    let plaintext: Vec<u8> = (0..1000u32).map(|i| (i % 251) as u8).collect();
    let a = encrypt_with(&plaintext, PASSWORD, &params, 64);
    let b = encrypt_with(&plaintext, PASSWORD, &params, 65536);
    let c = encrypt_with(&plaintext, PASSWORD, &params, 67);
    assert_eq!(a, b);
    assert_eq!(a, c);

    let (da, va) = decrypt_with(&a[81..], PASSWORD, &params, 33);
    let (db, vb) = decrypt_with(&a[81..], PASSWORD, &params, 65536);
    assert!(va);
    assert!(vb);
    assert_eq!(da, plaintext);
    assert_eq!(db, plaintext);
}

#[test]
fn distinct_passwords_differ() {
    let params = EncryptionParams::new(
        ArgonParams::new(1, 8, 1).unwrap(),
        CipherAlgorithm::AesCtr,
    );
    let a = encrypt_with(b"the plaintext", "password one", &params, 65536);
    let b = encrypt_with(b"the plaintext", "password two", &params, 65536);
    assert_ne!(a, b);
    // The wrong password fails verification.
    let (_, verified) = decrypt_with(&a[81..], "password two", &params, 65536);
    assert!(!verified);
}

#[test]
fn tag_tamper_detected() {
    let params = EncryptionParams::new(
        ArgonParams::new(1, 8, 1).unwrap(),
        CipherAlgorithm::AesCtr,
    );
    let container = encrypt_with(b"the plaintext", PASSWORD, &params, 65536);
    for i in container.len() - 32..container.len() {
        let mut tampered = container.clone();
        tampered[i] ^= 0x40;
        let (_, verified) = decrypt_with(&tampered[81..], PASSWORD, &params, 65536);
        assert!(!verified);
    }
}

#[test]
fn truncated_stream_fails() {
    let params = EncryptionParams::new(
        ArgonParams::new(1, 8, 1).unwrap(),
        CipherAlgorithm::AesCtr,
    );
    let container = encrypt_with(b"the plaintext", PASSWORD, &params, 65536);
    // Fewer than 32 bytes after the header cannot hold a tag.
    let (decrypted, verified) = decrypt_with(&container[81..container.len() - 20], PASSWORD, &params, 65536);
    assert!(!verified);
    assert!(decrypted.len() < 13);
    // An empty body fails too.
    let (decrypted, verified) = decrypt_with(&[], PASSWORD, &params, 65536);
    assert!(!verified);
    assert_eq!(decrypted, b"");
}

#[test]
fn header_parse_rejections() {
    let params = EncryptionParams::new(
        ArgonParams::new(1, 8, 1).unwrap(),
        CipherAlgorithm::AesCtr,
    );
    let mut header = Vec::new();
    params.write(&mut header);
    assert_eq!(header.len(), 77);
    assert!(EncryptionParams::read(&header).is_some());

    // Unknown cipher id.
    let mut bad_cipher = header.clone();
    bad_cipher[76] = 2;
    assert!(EncryptionParams::read(&bad_cipher).is_none());

    // Zero time cost.
    let mut bad_t = header.clone();
    bad_t[64..68].copy_from_slice(&[0, 0, 0, 0]);
    assert!(EncryptionParams::read(&bad_t).is_none());

    // Parallelism beyond a single byte.
    let mut bad_p = header.clone();
    bad_p[72..76].copy_from_slice(&[0, 0, 1, 0]);
    assert!(EncryptionParams::read(&bad_p).is_none());
}

#[test]
fn decrypt_chunk_byte_by_byte() {
    // The harshest chunking a non-seekable reader can produce: one
    // byte per read. The look-behind buffer must still split payload
    // from tag exactly.
    let params = EncryptionParams::new(
        ArgonParams::new(1, 8, 1).unwrap(),
        CipherAlgorithm::AesCtr,
    );
    let container = encrypt_with(b"the plaintext", PASSWORD, &params, 65536);
    let body = &container[81..];
    let mut cipher = DobyCipher::new(PASSWORD.as_bytes(), &params);
    let mut out = Vec::new();
    let mut confirmed = 0;
    for i in 0..body.len() {
        confirmed += cipher.decrypt_chunk(&body[i..i + 1], &mut out);
    }
    assert_eq!(confirmed, 13);
    assert_eq!(out, b"the plaintext");
    assert!(cipher.verify_hmac());
}

#[test]
fn nonce_sizes() {
    assert_eq!(CipherAlgorithm::AesCtr.get_nonce_size(), 16);
    assert_eq!(CipherAlgorithm::XChaCha20.get_nonce_size(), 24);
    assert_eq!(CipherAlgorithm::AesCtr.name(), "AES-CTR");
    assert_eq!(CipherAlgorithm::XChaCha20.name(), "XChaCha20");
}

#[test]
fn be_bytes_codec() {
    let mut out = Vec::new();
    u32_to_be_bytes(0x01020304, &mut out);
    assert_eq!(out, [1, 2, 3, 4]);
    assert_eq!(u32_from_be_bytes(&out), 0x01020304);
    out.clear();
    u32_to_be_bytes(0, &mut out);
    assert_eq!(out, [0, 0, 0, 0]);
    out.clear();
    u32_to_be_bytes(u32::MAX, &mut out);
    assert_eq!(out, [0xff, 0xff, 0xff, 0xff]);
    assert_eq!(u32_from_be_bytes(&out), u32::MAX);
}

#[test]
fn bytes_equal_behaviour() {
    assert!(bytes_equal(b"", b""));
    assert!(bytes_equal(b"abc", b"abc"));
    assert!(!bytes_equal(b"abc", b"abd"));
    assert!(!bytes_equal(b"abc", b"ab"));
}

#[test]
fn set_if_better_behaviour() {
    let mut best_time: Option<u128> = None;
    let mut best_block_size: Option<usize> = None;
    set_if_better(&mut best_time, 100, &mut best_block_size, 1024);
    assert_eq!(best_time, Some(100));
    assert_eq!(best_block_size, Some(1024));
    set_if_better(&mut best_time, 150, &mut best_block_size, 2048);
    assert_eq!(best_time, Some(100));
    assert_eq!(best_block_size, Some(1024));
    set_if_better(&mut best_time, 50, &mut best_block_size, 4096);
    assert_eq!(best_time, Some(50));
    assert_eq!(best_block_size, Some(4096));
    set_if_better(&mut best_time, 50, &mut best_block_size, 8192);
    assert_eq!(best_time, Some(50));
    assert_eq!(best_block_size, Some(4096));
}

#[test]
fn carry_over_is_kept() {
    // Mode selection on a short plain input: the peeked bytes are
    // re-injected, nothing is lost.
    let params = EncryptionParams::new(
        ArgonParams::new(1, 8, 1).unwrap(),
        CipherAlgorithm::AesCtr,
    );
    let input = b"ab";
    let cipher = DobyCipher::new(PASSWORD.as_bytes(), &params);
    let mut container = Vec::new();
    encrypt(b"", &mut container, &params, cipher, 65536, Some(input));
    assert_eq!(container.len(), 2 + 113);
    let (decrypted, verified) = decrypt_with(&container[81..], PASSWORD, &params, 65536);
    assert!(verified);
    assert_eq!(decrypted, b"ab");
}
