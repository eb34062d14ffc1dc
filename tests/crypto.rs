use fakio::config::Digest;
use fakio::crypto::{incr_nonce, Cipher, Crypto, Error, KeyPair};

#[test]
fn test_incr_nonce() {
    let mut nonce = [0u8; 4];
    for i in 1..1024 {
        incr_nonce(&mut nonce);
        let x = (nonce[0] as usize)
            + ((nonce[1] as usize) << 8)
            + ((nonce[2] as usize) << 16)
            + ((nonce[3] as usize) << 24);
        assert!(x == i);
    }
}

#[test]
fn incr_nonce_counts_from_zero_in_little_endian() {
    let mut nonce = [0u8; 12];
    for _ in 0..70000 {
        incr_nonce(&mut nonce);
    }
    // 70000 = 0x011170
    let mut expected = [0u8; 12];
    expected[0] = 0x70;
    expected[1] = 0x11;
    expected[2] = 0x01;
    assert_eq!(nonce, expected);
}

#[test]
fn incr_nonce_carries_and_wraps() {
    let mut nonce = [255u8, 0, 7];
    incr_nonce(&mut nonce);
    assert_eq!(nonce, [0, 1, 7]);
    let mut full = [255u8, 255];
    incr_nonce(&mut full);
    assert_eq!(full, [0, 0]);
}

#[test]
fn cipher_numbers_and_lengths() {
    assert_eq!(Cipher::AES128GCM.to_no(), 1);
    assert_eq!(Cipher::AES256GCM.to_no(), 2);
    assert_eq!(Cipher::CHACHA20POLY1305.to_no(), 3);
    assert_eq!(Cipher::from_no(3), Ok(Cipher::CHACHA20POLY1305));
    assert_eq!(Cipher::from_no(99), Err(Error::CipherNotSupport));
    assert_eq!(Cipher::from_no(0), Err(Error::CipherNotSupport));
    assert_eq!(Cipher::AES128GCM.key_len(), 16);
    assert_eq!(Cipher::AES256GCM.key_len(), 32);
    assert_eq!(Cipher::CHACHA20POLY1305.key_len(), 32);
    assert_eq!(Cipher::AES128GCM.tag_len(), 16);
    assert_eq!(Cipher::CHACHA20POLY1305.nonce_len(), 12);
    assert_eq!(Cipher::default(), Cipher::AES128GCM);
}

#[test]
fn cipher_names_in_any_case() {
    assert_eq!(Cipher::new("aes-128-gcm"), Ok(Cipher::AES128GCM));
    assert_eq!(Cipher::new("AES-256-GCM"), Ok(Cipher::AES256GCM));
    assert_eq!(Cipher::new("ChaCha20-Poly1305"), Ok(Cipher::CHACHA20POLY1305));
    assert_eq!(Cipher::new("rc4"), Err(Error::CipherNotSupport));
    assert_eq!(Cipher::from_lower_name("AES-256-GCM"), Err(Error::CipherNotSupport));
}

#[test]
fn crypto_rejects_wrong_key_lengths() {
    let k16 = [1u8; 16];
    let k32 = [1u8; 32];
    assert!(matches!(Crypto::new(Cipher::AES256GCM, &k16, &k32), Err(Error::KeyLenNotMatch(32))));
    assert!(matches!(Crypto::new(Cipher::AES128GCM, &k16, &k32), Err(Error::KeyLenNotMatch(16))));
    assert!(Crypto::new(Cipher::AES128GCM, &k16, &k16).is_ok());
}

#[test]
fn seal_matches_gcm_known_answer() {
    // AES-128-GCM, zero key, zero nonce, empty plaintext: the tag of
    // the GCM specification's first test case.
    let key = [0u8; 16];
    let mut c = Crypto::new(Cipher::AES128GCM, &key, &key).unwrap();
    let mut buf = [0u8; 16];
    assert_eq!(c.encrypt(&mut buf, 0), Ok(16));
    let tag = [
        0x58, 0xe2, 0xfc, 0xce, 0xfa, 0x7e, 0x30, 0x61, 0x36, 0x7f, 0x1d, 0x57, 0xa4, 0xe7, 0x45, 0x5a,
    ];
    assert_eq!(buf, tag);
    let mut one = [0u8; 12];
    one[0] = 1;
    assert_eq!(c.seal_nonce(), &one[..]);
}

#[test]
fn seal_buffer_too_small() {
    let key = [3u8; 32];
    let mut c = Crypto::new(Cipher::CHACHA20POLY1305, &key, &key).unwrap();
    let mut buf = [0u8; 20];
    assert_eq!(c.encrypt(&mut buf, 5), Err(Error::SealBufferTooSmall(21)));
    assert_eq!(c.seal_nonce(), &[0u8; 12][..]);
}

#[test]
fn encrypt_then_decrypt_each_cipher() {
    for cipher in [Cipher::AES128GCM, Cipher::AES256GCM, Cipher::CHACHA20POLY1305] {
        let a = vec![7u8; cipher.key_len()];
        let b = vec![9u8; cipher.key_len()];
        let mut tx = Crypto::new(cipher, &b, &a).unwrap();
        let mut rx = Crypto::new(cipher, &a, &b).unwrap();
        for round in 0..3u8 {
            let plain = [round, 1, 2, 3, 4, 5];
            let mut buf = [0u8; 6 + 16];
            buf[..6].copy_from_slice(&plain);
            assert_eq!(tx.encrypt(&mut buf, 6), Ok(22));
            assert_ne!(&buf[..6], &plain[..]);
            assert_eq!(rx.decrypt(&mut buf), Ok(6));
            assert_eq!(&buf[..6], &plain[..]);
        }
        assert_eq!(tx.seal_nonce(), rx.open_nonce());
    }
}

#[test]
fn tampering_any_byte_fails_to_open() {
    let key = [5u8; 32];
    let mut tx = Crypto::new(Cipher::AES256GCM, &key, &key).unwrap();
    let mut buf = [0u8; 8 + 16];
    buf[..8].copy_from_slice(b"payload!");
    tx.encrypt(&mut buf, 8).unwrap();
    for i in 0..buf.len() {
        let mut rx = Crypto::new(Cipher::AES256GCM, &key, &key).unwrap();
        let mut bad = buf;
        bad[i] ^= 0x01;
        assert_eq!(rx.decrypt(&mut bad), Err(Error::Open));
        assert_eq!(rx.open_nonce(), &[0u8; 12][..]);
    }
}

#[test]
fn key_pair_generate_and_split() {
    let secret = [8u8; 32];
    for cipher in [Cipher::AES128GCM, Cipher::AES256GCM, Cipher::CHACHA20POLY1305] {
        let kp = KeyPair::generate(&secret, cipher).unwrap();
        assert_eq!(kp.len(), 2 * cipher.key_len());
        let (e, d) = kp.split();
        assert_eq!(e.len(), cipher.key_len());
        assert_eq!(d.len(), cipher.key_len());
        let other = KeyPair::generate(&secret, cipher).unwrap();
        assert_ne!(kp.as_bytes(), other.as_bytes());
    }
    let kp = KeyPair::from(&[1, 2, 3, 4]);
    assert_eq!(kp.split(), (&[1u8, 2][..], &[3u8, 4][..]));
}

#[test]
fn digest_is_sha256_of_utf8() {
    let d = Digest::new("abc");
    let expected = [
        0xba, 0x78, 0x16, 0xbf, 0x8f, 0x01, 0xcf, 0xea, 0x41, 0x41, 0x40, 0xde, 0x5d, 0xae, 0x22, 0x23,
        0xb0, 0x03, 0x61, 0xa3, 0x96, 0x17, 0x7a, 0x9c, 0xb4, 0x10, 0xff, 0x61, 0xf2, 0x00, 0x15, 0xad,
    ];
    assert_eq!(d.as_bytes(), &expected[..]);
    assert_eq!(d.size(), 32);
    assert_eq!(Digest::new("abc"), Digest::from_bytes(&expected));
}

#[test]
fn errors_are_reported_as_other() {
    assert_eq!(Error::Open.kind(), fakio::error::ErrorKind::Other);
}

#[test]
fn derived_keys_depend_on_salt_and_are_prefixes() {
    let secret = Digest::new("alice-password");
    let salt = [4u8; 32];
    let short = KeyPair::derive(&salt, secret.as_bytes(), Cipher::AES128GCM);
    let long = KeyPair::derive(&salt, secret.as_bytes(), Cipher::CHACHA20POLY1305);
    assert_eq!(short.len(), 32);
    assert_eq!(long.len(), 64);
    assert_eq!(short.as_bytes(), &long.as_bytes()[..32]);
    assert_eq!(KeyPair::derive(&salt, secret.as_bytes(), Cipher::AES128GCM).as_bytes(), short.as_bytes());
    assert_ne!(KeyPair::derive(&[5u8; 32], secret.as_bytes(), Cipher::AES128GCM).as_bytes(), short.as_bytes());
    assert_ne!(short.as_bytes(), &salt[..]);
}
