use one_time_secret::crypto::{
    build_cipher, Cipher, ConfigError, CryptoError, KEY_LEN, NONCE_LEN, TAG_LEN,
};

const ZERO_KEY_B64: &str = "AAAAAAAAAAAAAAAAAAAAAAAAAAAAAAAAAAAAAAAAAAA=";

fn zero_cipher() -> Cipher {
    Cipher::new(vec![0u8; 32]).unwrap()
}

fn hex(text: &str) -> Vec<u8> {
    (0..text.len() / 2).map(|i| u8::from_str_radix(&text[2 * i..2 * i + 2], 16).unwrap()).collect()
}

#[test]
fn lengths_are_those_of_aes_256_gcm() {
    assert_eq!(KEY_LEN, 32);
    assert_eq!(NONCE_LEN, 12);
    assert_eq!(TAG_LEN, 16);
}

#[test]
fn build_cipher_accepts_a_32_byte_key() {
    assert!(build_cipher(ZERO_KEY_B64).is_ok());
}

#[test]
fn build_cipher_decodes_the_key() {
    let built = build_cipher(ZERO_KEY_B64).unwrap();
    let nonce = [7u8; 12];
    assert_eq!(
        built.encrypt_with_nonce(b"hello", &nonce).unwrap(),
        zero_cipher().encrypt_with_nonce(b"hello", &nonce).unwrap()
    );
    let other = build_cipher("AQEBAQEBAQEBAQEBAQEBAQEBAQEBAQEBAQEBAQEBAQE=").unwrap();
    assert_eq!(
        other.encrypt_with_nonce(b"hello", &nonce).unwrap(),
        Cipher::new(vec![1u8; 32]).unwrap().encrypt_with_nonce(b"hello", &nonce).unwrap()
    );
}

#[test]
fn build_cipher_refuses_text_that_is_not_base64() {
    assert_eq!(build_cipher("not base64 at all!").err(), Some(ConfigError::Encoding));
    assert_eq!(build_cipher("AAAA=").err(), Some(ConfigError::Encoding));
    assert_eq!(
        build_cipher("AAAAAAAAAAAAAAAAAAAAAAAAAAAAAAAAAAAAAAAAAAA").err(),
        Some(ConfigError::Encoding)
    );
}

#[test]
fn build_cipher_refuses_keys_of_other_lengths() {
    assert_eq!(build_cipher("").err(), Some(ConfigError::KeyLength));
    assert_eq!(build_cipher("AAAAAAAAAAAAAAAAAAAAAA==").err(), Some(ConfigError::KeyLength));
    assert_eq!(
        build_cipher("AAAAAAAAAAAAAAAAAAAAAAAAAAAAAAAAAAAAAAAAAAAA").err(),
        Some(ConfigError::KeyLength)
    );
}

#[test]
fn cipher_new_accepts_exactly_32_bytes() {
    assert!(Cipher::new(vec![9u8; 32]).is_ok());
    assert_eq!(Cipher::new(vec![9u8; 31]).err(), Some(ConfigError::KeyLength));
    assert_eq!(Cipher::new(vec![9u8; 33]).err(), Some(ConfigError::KeyLength));
    assert_eq!(Cipher::new(Vec::new()).err(), Some(ConfigError::KeyLength));
}

#[test]
fn sealing_matches_the_published_vectors() {
    let cipher = zero_cipher();
    let nonce = [0u8; 12];
    assert_eq!(
        cipher.encrypt_with_nonce(b"", &nonce).unwrap(),
        hex("530f8afbc74536b9a963b4f1c4cb738b")
    );
    assert_eq!(
        cipher.encrypt_with_nonce(&[0u8; 16], &nonce).unwrap(),
        hex("cea7403d4d606b6e074ec5d3baf39d18d0d1c8a799996bf0265b98b5d48ab919")
    );
}

#[test]
fn opening_matches_the_published_vectors() {
    let cipher = zero_cipher();
    let nonce = [0u8; 12];
    let sealed = hex("cea7403d4d606b6e074ec5d3baf39d18d0d1c8a799996bf0265b98b5d48ab919");
    assert_eq!(cipher.decrypt(&sealed, &nonce).unwrap(), vec![0u8; 16]);
    assert_eq!(
        cipher.decrypt(&hex("530f8afbc74536b9a963b4f1c4cb738b"), &nonce).unwrap(),
        Vec::<u8>::new()
    );
}

#[test]
fn ciphertext_is_one_tag_longer_than_the_plaintext() {
    let cipher = zero_cipher();
    for len in [0usize, 1, 15, 16, 17, 1000, 10000] {
        let (ciphertext, nonce) = cipher.encrypt(&vec![0x5au8; len]).unwrap();
        assert_eq!(ciphertext.len(), len + 16);
        assert_eq!(nonce.len(), 12);
    }
}

#[test]
fn round_trip_returns_the_payload() {
    let cipher = Cipher::new((0u8..32).collect()).unwrap();
    for len in [1usize, 2, 16, 31, 255, 4096, 9999, 10000] {
        let payload: Vec<u8> = (0..len).map(|i| (i % 251) as u8).collect();
        let (ciphertext, nonce) = cipher.encrypt(&payload).unwrap();
        assert_ne!(&ciphertext[..len], &payload[..]);
        assert_eq!(cipher.decrypt(&ciphertext, &nonce), Ok(payload));
    }
}

#[test]
fn round_trip_under_a_given_nonce() {
    let cipher = zero_cipher();
    let nonce = [3u8; 12];
    let sealed = cipher.encrypt_with_nonce(b"attack at dawn", &nonce).unwrap();
    assert_eq!(cipher.decrypt(&sealed, &nonce), Ok(b"attack at dawn".to_vec()));
}

#[test]
fn every_encryption_draws_a_new_nonce() {
    let cipher = zero_cipher();
    let mut seen: Vec<Vec<u8>> = Vec::new();
    for _ in 0..64 {
        let (_, nonce) = cipher.encrypt(b"same plaintext").unwrap();
        assert!(!seen.contains(&nonce));
        seen.push(nonce);
    }
}

#[test]
fn same_plaintext_twice_gives_different_ciphertexts() {
    let cipher = zero_cipher();
    let (first, first_nonce) = cipher.encrypt(b"same plaintext").unwrap();
    let (second, second_nonce) = cipher.encrypt(b"same plaintext").unwrap();
    assert_ne!(first_nonce, second_nonce);
    assert_ne!(first, second);
}

#[test]
fn flipping_any_ciphertext_bit_fails_authentication() {
    let cipher = Cipher::new((100u8..132).collect()).unwrap();
    let (ciphertext, nonce) = cipher.encrypt(b"hello").unwrap();
    for byte in 0..ciphertext.len() {
        for bit in 0..8 {
            let mut tampered = ciphertext.clone();
            tampered[byte] ^= 1 << bit;
            assert_eq!(cipher.decrypt(&tampered, &nonce), Err(CryptoError::AuthenticationFailed));
        }
    }
    assert_eq!(cipher.decrypt(&ciphertext, &nonce), Ok(b"hello".to_vec()));
}

#[test]
fn flipping_any_nonce_bit_fails_authentication() {
    let cipher = Cipher::new((100u8..132).collect()).unwrap();
    let (ciphertext, nonce) = cipher.encrypt(b"hello").unwrap();
    for byte in 0..nonce.len() {
        for bit in 0..8 {
            let mut tampered = nonce.clone();
            tampered[byte] ^= 1 << bit;
            assert_eq!(cipher.decrypt(&ciphertext, &tampered), Err(CryptoError::AuthenticationFailed));
        }
    }
}

#[test]
fn another_key_fails_authentication() {
    let (ciphertext, nonce) = zero_cipher().encrypt(b"hello").unwrap();
    let other = Cipher::new(vec![1u8; 32]).unwrap();
    assert_eq!(other.decrypt(&ciphertext, &nonce), Err(CryptoError::AuthenticationFailed));
}

#[test]
fn truncated_ciphertext_fails_authentication() {
    let cipher = zero_cipher();
    let (ciphertext, nonce) = cipher.encrypt(b"hello").unwrap();
    for len in 0..ciphertext.len() {
        assert_eq!(
            cipher.decrypt(&ciphertext[..len], &nonce),
            Err(CryptoError::AuthenticationFailed)
        );
    }
}

#[test]
fn nonce_of_another_length_fails_authentication() {
    let cipher = zero_cipher();
    let (ciphertext, nonce) = cipher.encrypt(b"hello").unwrap();
    assert_eq!(cipher.decrypt(&ciphertext, &nonce[..11]), Err(CryptoError::AuthenticationFailed));
    assert_eq!(cipher.decrypt(&ciphertext, &[]), Err(CryptoError::AuthenticationFailed));
    let mut longer = nonce.clone();
    longer.push(0);
    assert_eq!(cipher.decrypt(&ciphertext, &longer), Err(CryptoError::AuthenticationFailed));
}

#[test]
fn sealing_under_a_nonce_of_another_length_is_refused() {
    let cipher = zero_cipher();
    assert_eq!(cipher.encrypt_with_nonce(b"hello", &[0u8; 11]), Err(CryptoError::EncryptionFailed));
    assert_eq!(cipher.encrypt_with_nonce(b"hello", &[0u8; 13]), Err(CryptoError::EncryptionFailed));
    assert_eq!(cipher.encrypt_with_nonce(b"hello", &[]), Err(CryptoError::EncryptionFailed));
}
