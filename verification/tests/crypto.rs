use doby::cipher::CipherAlgorithm;
use doby::crypto::{DobyCipher, EncryptionParams, HMAC_LEN};
use doby::kdf::ArgonParams;

#[test]
fn encryption_params() {
    let params = EncryptionParams::new(
        ArgonParams::new(1, 8, 1).unwrap(),
        CipherAlgorithm::XChaCha20,
    );

    assert_eq!(EncryptionParams::LEN, 77);

    let mut buff = Vec::with_capacity(74);
    params.write(&mut buff);
    assert_eq!(&buff[..64], &params.salt[..]);
    assert_eq!(&buff[64..68], &[0, 0, 0, 0x01]); //t_cost
    assert_eq!(&buff[68..72], &[0, 0, 0, 0x08]); //m_cost
    assert_eq!(&buff[72..76], &[0, 0, 0, 0x01]); //p_cost
    assert_eq!(buff[76], CipherAlgorithm::XChaCha20.id_byte());

    let new_params = EncryptionParams::read(&buff).unwrap();
    assert_eq!(new_params, params);
}

#[test]
fn doby_cipher() {
    let params = EncryptionParams::new(
        ArgonParams::new(1, 8, 1).unwrap(),
        CipherAlgorithm::AesCtr,
    );
    let password = "I like spaghetti";
    let plaintext = b"but I love so much to listen to HARDCORE music on big subwoofer";
    let mut buff: Vec<u8> = plaintext.to_vec();
    let mut vec = Vec::with_capacity(buff.len() + HMAC_LEN);

    let mut enc_cipher = DobyCipher::new(password.as_bytes(), &params);
    enc_cipher.encrypt_chunk(&mut buff, &mut vec);
    assert_ne!(&buff[..], &plaintext[..]);
    assert_eq!(&buff[..], vec.as_slice());
    enc_cipher.write_hmac(&mut vec);
    assert_eq!(vec.len(), buff.len() + HMAC_LEN);

    let mut dec_cipher = DobyCipher::new(password.as_bytes(), &params);
    let mut decrypted: Vec<u8> = Vec::new();
    let mut n = dec_cipher.decrypt_chunk(&vec, &mut decrypted);
    assert_eq!(n, buff.len());
    n = dec_cipher.decrypt_chunk(&[], &mut decrypted);
    assert_eq!(n, 0);
    assert_eq!(&decrypted[..buff.len()], &plaintext[..]);
    assert_eq!(dec_cipher.verify_hmac(), true);
}
