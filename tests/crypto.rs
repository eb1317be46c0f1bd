use hyperborea::crypto::{be_bytes, CryptoError, PublicKey, SecretKey};

fn scalar(n: u8) -> SecretKey {
    let mut bytes = vec![0u8; 32];
    bytes[31] = n;
    SecretKey::from_bytes(&bytes).unwrap()
}

#[test]
fn public_key_bytes_round_trip() {
    for _ in 0..8 {
        let sk = SecretKey::random();
        let pk = sk.public_key();
        assert_eq!(PublicKey::from_bytes(&pk.to_bytes()).unwrap(), pk);
        assert_eq!(pk.to_bytes().len(), 33);
    }
}

#[test]
fn known_public_keys() {
    let g = scalar(1).public_key();
    assert_eq!(g.to_base64(), "Anm+Zn753LusVaBilc6HCwcCm/zbLc4o2VnygVsW+BeY");
    let g2 = scalar(2).public_key();
    assert_eq!(g2.to_base64(), "AsYEf5RB7X1tMEVAbpXAfNhcd45LjO88p6usCblccJ7l");
    assert_eq!(PublicKey::from_base64(&g.to_base64()).unwrap(), g);
}

#[test]
fn uncompressed_key_reads_as_compressed() {
    let mut uncompressed = vec![4u8];
    uncompressed.extend_from_slice(&[
        0x79, 0xBE, 0x66, 0x7E, 0xF9, 0xDC, 0xBB, 0xAC, 0x55, 0xA0, 0x62, 0x95, 0xCE, 0x87, 0x0B, 0x07,
        0x02, 0x9B, 0xFC, 0xDB, 0x2D, 0xCE, 0x28, 0xD9, 0x59, 0xF2, 0x81, 0x5B, 0x16, 0xF8, 0x17, 0x98,
        0x48, 0x3A, 0xDA, 0x77, 0x26, 0xA3, 0xC4, 0x65, 0x5D, 0xA4, 0xFB, 0xFC, 0x0E, 0x11, 0x08, 0xA8,
        0xFD, 0x17, 0xB4, 0x48, 0xA6, 0x85, 0x54, 0x19, 0x9C, 0x47, 0xD0, 0x8F, 0xFB, 0x10, 0xD4, 0xB8,
    ]);
    let key = PublicKey::from_bytes(&uncompressed).unwrap();
    assert_eq!(key, scalar(1).public_key());
}

#[test]
fn invalid_keys() {
    assert_eq!(PublicKey::from_bytes(&[2u8; 5]), Err(CryptoError::InvalidPublicKey));
    assert_eq!(SecretKey::from_bytes(&[0u8; 32]), Err(CryptoError::InvalidSecretKey));
    assert_eq!(SecretKey::from_bytes(&[1u8; 31]), Err(CryptoError::InvalidSecretKey));
    assert_eq!(SecretKey::from_bytes(&[0xFFu8; 32]), Err(CryptoError::InvalidSecretKey));
    assert_eq!(PublicKey::from_base64("@@@@"), Err(CryptoError::Base64Decode));
}

#[test]
fn signatures() {
    let sk = SecretKey::random();
    let other = SecretKey::random();
    let sign = sk.create_signature(b"hello");
    assert!(sk.public_key().verify_signature(b"hello", &sign));
    assert!(!sk.public_key().verify_signature(b"hellO", &sign));
    assert!(!other.public_key().verify_signature(b"hello", &sign));
    assert!(!sk.public_key().verify_signature(b"hello", &sign[..10]));
}

#[test]
fn big_endian_bytes() {
    assert_eq!(be_bytes(0x0102030405060708), vec![1, 2, 3, 4, 5, 6, 7, 8]);
    assert_eq!(be_bytes(0), vec![0; 8]);
    assert_eq!(be_bytes(u64::MAX), vec![0xFF; 8]);
}
