use intercom::crypto::{
    derive_key_simple, generate_key, key_from_bytes, key_from_hashes, Cipher, CryptoError, KEY_SIZE, NONCE_SIZE, TAG_SIZE,
};

#[test]
fn test_encrypt_decrypt() {
    let mut cipher = Cipher::new();
    let plaintext = b"Hello, World!";

    let ciphertext = cipher.encrypt(plaintext).unwrap();
    let decrypted = cipher.decrypt(&ciphertext).unwrap();

    assert_eq!(decrypted, plaintext);
}

#[test]
fn test_encrypt_decrypt_empty() {
    let mut cipher = Cipher::new();
    let plaintext = b"";

    let ciphertext = cipher.encrypt(plaintext).unwrap();
    let decrypted = cipher.decrypt(&ciphertext).unwrap();

    assert_eq!(decrypted, plaintext);
}

#[test]
fn test_encrypt_decrypt_large() {
    let mut cipher = Cipher::new();
    let plaintext: Vec<u8> = (0..10000).map(|i| (i % 256) as u8).collect();

    let ciphertext = cipher.encrypt(&plaintext).unwrap();
    let decrypted = cipher.decrypt(&ciphertext).unwrap();

    assert_eq!(decrypted, plaintext);
}

#[test]
fn test_different_keys() {
    let mut cipher1 = Cipher::new();
    let cipher2 = Cipher::new();

    let plaintext = b"Secret message";
    let ciphertext = cipher1.encrypt(plaintext).unwrap();

    let result = cipher2.decrypt(&ciphertext);
    assert!(result.is_err());
}

#[test]
fn test_tampered_ciphertext() {
    let mut cipher = Cipher::new();
    let plaintext = b"Hello, World!";

    let mut ciphertext = cipher.encrypt(plaintext).unwrap();

    if let Some(byte) = ciphertext.get_mut(NONCE_SIZE + 5) {
        *byte ^= 0xFF;
    }

    let result = cipher.decrypt(&ciphertext);
    assert!(result.is_err());
}

#[test]
fn test_encrypt_decrypt_with_aad() {
    let mut cipher = Cipher::new();
    let plaintext = b"Hello, World!";
    let aad = b"channel:main";

    let ciphertext = cipher.encrypt_with_aad(plaintext, aad).unwrap();
    let decrypted = cipher.decrypt_with_aad(&ciphertext, aad).unwrap();

    assert_eq!(decrypted, plaintext);
}

#[test]
fn test_wrong_aad() {
    let mut cipher = Cipher::new();
    let plaintext = b"Hello, World!";
    let aad1 = b"channel:main";
    let aad2 = b"channel:other";

    let ciphertext = cipher.encrypt_with_aad(plaintext, aad1).unwrap();

    let result = cipher.decrypt_with_aad(&ciphertext, aad2);
    assert!(result.is_err());
}

#[test]
fn test_from_key() {
    let key = generate_key();
    let mut cipher1 = Cipher::from_key(&key).unwrap();
    let cipher2 = Cipher::from_key(&key).unwrap();

    let plaintext = b"Test message";
    let ciphertext = cipher1.encrypt(plaintext).unwrap();
    let decrypted = cipher2.decrypt(&ciphertext).unwrap();

    assert_eq!(decrypted, plaintext);
}

#[test]
fn test_invalid_key_size() {
    let result = Cipher::from_key(&[0u8; 16]);
    assert!(matches!(result, Err(CryptoError::InvalidKeySize { .. })));
}

#[test]
fn test_nonce_uniqueness() {
    let mut cipher = Cipher::new();
    let plaintext = b"Same message";

    let ct1 = cipher.encrypt(plaintext).unwrap();
    let ct2 = cipher.encrypt(plaintext).unwrap();

    assert_ne!(ct1, ct2);

    assert_eq!(cipher.decrypt(&ct1).unwrap(), plaintext);
    assert_eq!(cipher.decrypt(&ct2).unwrap(), plaintext);
}

#[test]
fn sealed_layout_carries_counter_and_tag() {
    let mut cipher = Cipher::from_key(&[7u8; 32]).unwrap();
    let ct = cipher.encrypt(b"abc").unwrap();
    assert_eq!(ct.len(), NONCE_SIZE + 3 + TAG_SIZE);
    assert_eq!(&ct[4..12], &1u64.to_le_bytes());
    let ct2 = cipher.encrypt(b"abc").unwrap();
    assert_eq!(&ct2[4..12], &2u64.to_le_bytes());
    assert_eq!(cipher.key_bytes(), &[7u8; 32][..]);
}

#[test]
fn short_ciphertext_is_reported() {
    let cipher = Cipher::new();
    assert!(matches!(cipher.decrypt(&[0u8; 27]), Err(CryptoError::CiphertextTooShort)));
    assert!(matches!(cipher.decrypt(&[0u8; 28]), Err(CryptoError::DecryptionFailed)));
}

#[test]
fn clone_keeps_key_and_restarts_counter() {
    let mut cipher = Cipher::from_key(&[3u8; 32]).unwrap();
    let _ = cipher.encrypt(b"x").unwrap();
    let mut copy = cipher.clone();
    assert_eq!(copy.key_bytes(), cipher.key_bytes());
    let ct = copy.encrypt(b"y").unwrap();
    assert_eq!(&ct[4..12], &1u64.to_le_bytes());
    assert_eq!(cipher.decrypt(&ct).unwrap(), b"y");
}

#[test]
fn invalid_key_size_reports_lengths() {
    let r = Cipher::from_key(&[1u8; 31]);
    match r {
        Err(e) => {
            assert!(matches!(e, CryptoError::InvalidKeySize { expected: 32, actual: 31 }));
            assert_eq!(e.message(), "Invalid key size: expected 32, got 31");
        }
        Ok(_) => panic!("accepted a short key"),
    }
}

#[test]
fn derived_keys_are_deterministic() {
    let a = derive_key_simple("secret", b"salt");
    let b = derive_key_simple("secret", b"salt");
    let c = derive_key_simple("secret", b"pepper");
    assert_eq!(a, b);
    assert_ne!(a, c);
    assert_eq!(a.len(), KEY_SIZE);
}

#[test]
fn key_from_hashes_takes_low_bytes() {
    let mut hashes = [0u64; 32];
    for (i, h) in hashes.iter_mut().enumerate() {
        *h = 0x1234_5600 + i as u64;
    }
    let key = key_from_hashes(&hashes);
    for (i, b) in key.iter().enumerate() {
        assert_eq!(*b as usize, i);
    }
}

#[test]
fn crypto_error_messages() {
    assert_eq!(CryptoError::EncryptionFailed.message(), "Encryption failed");
    assert_eq!(CryptoError::CiphertextTooShort.message(), "Ciphertext too short");
    assert_eq!(
        CryptoError::DecryptionFailed.message(),
        "Decryption failed: invalid ciphertext or tag"
    );
}

#[test]
fn key_from_bytes_keeps_the_bytes_in_order() {
    let bytes: Vec<u8> = (0..32u8).map(|b| b * 7 + 1).collect();
    let key = key_from_bytes(&bytes);
    assert_eq!(key.to_vec(), bytes);
    assert_eq!(generate_key().len(), KEY_SIZE);
}
