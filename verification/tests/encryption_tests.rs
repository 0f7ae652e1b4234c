use cloudy_af::firmware::encryption::{decrypt, encrypt, encrypt_with_key, EncryptionType};
use cloudy_af::firmware::error::FirmwareError;
use cloudy_af::firmware::vandalproof::{decrypt_vandalproof, encrypt_vandalproof};

#[test]
fn test_none_roundtrip() {
    // Plaintext firmware is recognised by the embedded `Joyetech APROM` marker.
    let marker = b"Joyetech APROM";
    let mut data = vec![0u8; 32];
    data[..5].copy_from_slice(&[0, 1, 2, 3, 255]);
    data[16..16 + marker.len()].copy_from_slice(marker);
    let (plain, enc) = decrypt(&data).unwrap();
    assert_eq!(plain, data);
    assert!(matches!(enc, EncryptionType::Plaintext));
    let out = encrypt(&plain, enc).unwrap();
    assert_eq!(out, data);
}

#[test]
fn test_joyetech_roundtrip() {
    let marker = b"Joyetech APROM";
    let mut data = vec![0x55; 64];
    data[32..32 + marker.len()].copy_from_slice(marker);
    let cipher = encrypt(&data, EncryptionType::Joyetech).unwrap();
    let (plain, enc) = decrypt(&cipher).unwrap();
    assert_eq!(plain, data);
    assert!(matches!(enc, EncryptionType::Joyetech));
}

#[test]
fn test_arcticfox_roundtrip() {
    let marker = b"Joyetech APROM";
    let mut data = vec![0u8; 256];
    data[100..100 + marker.len()].copy_from_slice(marker);

    let cipher = encrypt(&data, EncryptionType::ArcticFox).unwrap();
    let (plain, enc) = decrypt(&cipher).unwrap();
    assert_eq!(plain, data);
    assert!(matches!(enc, EncryptionType::ArcticFox));
}

#[test]
fn test_arcticfox2_roundtrip() {
    let marker = b"Joyetech APROM";
    let mut data = vec![0u8; 256];
    data[50..50 + marker.len()].copy_from_slice(marker);

    let cipher = encrypt(&data, EncryptionType::ArcticFox2).unwrap();
    let (plain, enc) = decrypt(&cipher).unwrap();
    assert_eq!(plain, data);
    assert!(matches!(enc, EncryptionType::ArcticFox2));
}

#[test]
fn test_unmarked_image_is_unsupported() {
    // No scheme yields the marker: reported as an unsupported encryption.
    let data = vec![0x5Au8; 300];
    assert!(matches!(decrypt(&data), Err(FirmwareError::UnsupportedEncryption(_))));
}

#[test]
fn test_vandalproof_roundtrip() {
    let marker = b"Joyetech APROM";
    // Exercise padding edge cases: exact block multiple and ragged length.
    for base_len in [128usize, 133] {
        let mut data = vec![0u8; base_len];
        data[16..16 + marker.len()].copy_from_slice(marker);
        let cipher = encrypt(&data, EncryptionType::VandalProof).unwrap();
        assert_eq!(cipher.len() % 16, 0);
        let (plain, enc) = decrypt(&cipher).unwrap();
        assert_eq!(plain, data);
        assert!(matches!(enc, EncryptionType::VandalProof));
    }
}

const VP_IV: [u8; 16] = [0, 1, 2, 3, 4, 5, 6, 7, 8, 9, 10, 11, 12, 13, 14, 15];
const VP_PLAIN: &[u8] = b"Joyetech APROM, VandalProof!";
const VP_CIPHER: [u8; 32] = [
    0xa9, 0x47, 0x9f, 0xa8, 0x9b, 0xb5, 0x76, 0xe5, 0xe4, 0x1b, 0x1e, 0xed, 0xa4, 0x7e, 0x84, 0xdb, 0x1c, 0x0b,
    0x1b, 0x03, 0x3a, 0xb2, 0x60, 0x05, 0x1d, 0xa9, 0x5b, 0x18, 0x3c, 0x32, 0xaf, 0xa4,
];

#[test]
fn test_vandalproof_known_answer() {
    // AES-128-CBC under the ASCII key FA89412D87B0EFD9, PKCS#7 padded.
    let package = encrypt_vandalproof(VP_PLAIN, &VP_IV);
    assert_eq!(package.len(), 48);
    assert_eq!(&package[..16], &VP_IV[..]);
    assert_eq!(&package[16..], &VP_CIPHER[..]);
    assert_eq!(decrypt_vandalproof(&package), Some(VP_PLAIN.to_vec()));
}

#[test]
fn test_vandalproof_rejects_malformed_packages() {
    let mut package = VP_IV.to_vec();
    package.extend_from_slice(&VP_CIPHER);
    // Too short: only the IV.
    assert_eq!(decrypt_vandalproof(&package[..16]), None);
    // Not whole blocks.
    assert_eq!(decrypt_vandalproof(&package[..40]), None);
    // A changed last byte breaks the padding.
    let last = package.len() - 1;
    package[last] ^= 1;
    assert_eq!(decrypt_vandalproof(&package), None);
}

#[test]
fn test_vandalproof_iv_comes_from_the_key() {
    let data = vec![7u8; 40];
    let c1 = encrypt_with_key(&data, EncryptionType::VandalProof, 99).unwrap();
    let c2 = encrypt_with_key(&data, EncryptionType::VandalProof, 99).unwrap();
    let c3 = encrypt_with_key(&data, EncryptionType::VandalProof, 100).unwrap();
    assert_eq!(c1, c2);
    assert_eq!(c1.len(), 16 + 48);
    assert_ne!(c1[..16], c3[..16]);
    assert_eq!(decrypt_vandalproof(&c1), Some(data));
}

#[test]
fn test_joyetech_key_bytes() {
    // Key byte i of an 8-byte file: (8 + 0x63B38 + i - 8 / 0x63B38) mod 256 = 64 + i.
    let c = encrypt(&[0u8; 8], EncryptionType::Joyetech).unwrap();
    assert_eq!(c, vec![64, 65, 66, 67, 68, 69, 70, 71]);
}

#[test]
fn test_joyetech_is_an_involution() {
    let data: Vec<u8> = (0..100u32).map(|i| (i * 7) as u8).collect();
    let once = encrypt(&data, EncryptionType::Joyetech).unwrap();
    assert_ne!(once, data);
    let twice = encrypt(&once, EncryptionType::Joyetech).unwrap();
    assert_eq!(twice, data);
}

#[test]
fn test_arcticfox_key_is_stored_in_header() {
    // With a fixed key the ciphertext is the key bytes (xored with the key
    // key) followed by the payload xored with the table.
    let data = vec![0u8; 20];
    let c1 = encrypt_with_key(&data, EncryptionType::ArcticFox, 1234).unwrap();
    let c2 = encrypt_with_key(&data, EncryptionType::ArcticFox, 1234).unwrap();
    assert_eq!(c1, c2);
    assert_eq!(c1.len(), data.len() + 4);
    let c3 = encrypt_with_key(&data, EncryptionType::ArcticFox, 4321).unwrap();
    assert_ne!(c1, c3);
}
