use aes_gcm::aead::{Aead, KeyInit};
use aes_gcm::{Aes256Gcm, Key, Nonce};
use base64::engine::general_purpose;
use base64::Engine as _;
use rand::RngCore;

use plaxo_otp::crypto::{
    decrypt_data, encrypt_data, encrypt_data_with_nonce, is_legacy_payload, legacy_derive_key,
    magic_bytes, payload_salt, VaultKey, HEADER_LEN, NONCE_LEN,
};
use plaxo_otp::types::AppError;

fn key_for(password: &str) -> VaultKey {
    VaultKey::new_vault(password).unwrap()
}

#[test]
fn encrypt_decrypt_roundtrip() {
    let vk = key_for("correct horse battery staple");
    let encrypted = encrypt_data("test data", &vk).unwrap();
    assert_eq!(decrypt_data(&encrypted, &vk).unwrap(), "test data");
}

#[test]
fn wrong_password_is_rejected() {
    let vk = key_for("password1");
    let encrypted = encrypt_data("test data", &vk).unwrap();

    // Same salt, different password: the vault must not open.
    let wrong = VaultKey::derive("password2", vk.salt()).unwrap();
    assert!(decrypt_data(&encrypted, &wrong).is_err());
}

#[test]
fn each_vault_gets_a_distinct_salt() {
    let a = key_for("same password");
    let b = key_for("same password");
    assert_ne!(a.salt(), b.salt(), "salt must not be reused across vaults");
    assert_ne!(a.key_bytes(), b.key_bytes(), "same password must not yield the same key");
}

#[test]
fn nonce_is_not_reused() {
    let vk = key_for("password");
    let first = encrypt_data("same plaintext", &vk).unwrap();
    let second = encrypt_data("same plaintext", &vk).unwrap();
    assert_ne!(first, second, "identical plaintext must not produce identical output");
}

#[test]
fn output_carries_the_v2_header() {
    let vk = key_for("password");
    let encrypted = encrypt_data("data", &vk).unwrap();
    let raw = general_purpose::STANDARD.decode(&encrypted).unwrap();

    assert_eq!(&raw[..4], &magic_bytes()[..]);
    assert_eq!(&raw[4..HEADER_LEN], &vk.salt());
    assert!(!is_legacy_payload(&encrypted));
    assert_eq!(payload_salt(&encrypted).unwrap(), Some(vk.salt()));
}

/// Builds a payload exactly as versions <= 1.3.3 wrote it.
fn legacy_encrypt(data: &str, password: &str) -> String {
    let key = legacy_derive_key(password);
    let cipher = Aes256Gcm::new(Key::<Aes256Gcm>::from_slice(&key));
    let mut nonce_bytes = [0u8; NONCE_LEN];
    rand::thread_rng().fill_bytes(&mut nonce_bytes);
    let ciphertext = cipher
        .encrypt(Nonce::from_slice(&nonce_bytes), data.as_bytes())
        .unwrap();
    let mut out = nonce_bytes.to_vec();
    out.extend_from_slice(&ciphertext);
    general_purpose::STANDARD.encode(out)
}

#[test]
fn legacy_vault_still_opens() {
    let legacy = legacy_encrypt("my secrets", "hunter2");
    assert!(is_legacy_payload(&legacy));
    assert_eq!(payload_salt(&legacy).unwrap(), None);

    // Salt is irrelevant to reading a legacy payload, so any fresh key works.
    let vk = VaultKey::new_vault("hunter2").unwrap();
    assert_eq!(decrypt_data(&legacy, &vk).unwrap(), "my secrets");
}

#[test]
fn legacy_vault_rejects_wrong_password() {
    let legacy = legacy_encrypt("my secrets", "hunter2");
    let vk = VaultKey::new_vault("wrong").unwrap();
    assert!(decrypt_data(&legacy, &vk).is_err());
}

#[test]
fn migrated_vault_is_no_longer_legacy() {
    let legacy = legacy_encrypt("my secrets", "hunter2");
    let vk = VaultKey::new_vault("hunter2").unwrap();

    let plaintext = decrypt_data(&legacy, &vk).unwrap();
    let migrated = encrypt_data(&plaintext, &vk).unwrap();

    assert!(!is_legacy_payload(&migrated));
    assert_eq!(decrypt_data(&migrated, &vk).unwrap(), "my secrets");
}

#[test]
fn payload_from_another_vault_is_rejected() {
    let mine = key_for("password");
    let theirs = key_for("password");
    let encrypted = encrypt_data("data", &theirs).unwrap();
    assert!(decrypt_data(&encrypted, &mine).is_err());
}

#[test]
fn foreign_payload_reports_a_different_vault() {
    let mine = VaultKey::derive("pw", [1u8; 16]).unwrap();
    let theirs = VaultKey::derive("pw", [2u8; 16]).unwrap();
    let encrypted = encrypt_data("data", &theirs).unwrap();
    match decrypt_data(&encrypted, &mine) {
        Err(AppError::Encryption(m)) => assert_eq!(m, "Payload belongs to a different vault"),
        other => panic!("unexpected: {:?}", other),
    }
}

#[test]
fn derive_is_deterministic_for_a_salt() {
    let a = VaultKey::derive("pw", [7u8; 16]).unwrap();
    let b = VaultKey::derive("pw", [7u8; 16]).unwrap();
    assert_eq!(a.key_bytes(), b.key_bytes());
    assert_eq!(a.salt(), [7u8; 16]);
}

#[test]
fn fixed_nonce_payload_layout() {
    let vk = VaultKey::derive("pw", [9u8; 16]).unwrap();
    let nonce = [3u8; 12];
    let encrypted = encrypt_data_with_nonce("abc", &vk, nonce).unwrap();
    let raw = general_purpose::STANDARD.decode(&encrypted).unwrap();
    assert_eq!(&raw[..4], b"PLX2");
    assert_eq!(&raw[4..20], &[9u8; 16]);
    assert_eq!(&raw[20..32], &nonce);
    // "abc" plus the 16-byte tag.
    assert_eq!(raw.len(), 32 + 3 + 16);
    assert_eq!(encrypt_data_with_nonce("abc", &vk, nonce).unwrap(), encrypted);
    assert_eq!(decrypt_data(&encrypted, &vk).unwrap(), "abc");
}

#[test]
fn surrounding_whitespace_is_ignored() {
    let vk = VaultKey::derive("pw", [4u8; 16]).unwrap();
    let encrypted = encrypt_data("hello", &vk).unwrap();
    let padded = format!("  {}\n", encrypted);
    assert_eq!(decrypt_data(&padded, &vk).unwrap(), "hello");
    assert_eq!(payload_salt(&padded).unwrap(), Some([4u8; 16]));
}

#[test]
fn invalid_base64_is_reported() {
    let vk = VaultKey::derive("pw", [4u8; 16]).unwrap();
    match decrypt_data("not base64!", &vk) {
        Err(AppError::Encryption(m)) => assert_eq!(m, "Invalid base64 data"),
        other => panic!("unexpected: {:?}", other),
    }
    assert!(payload_salt("not base64!").is_err());
    assert!(!is_legacy_payload("not base64!"));
}

#[test]
fn short_legacy_payload_is_too_short() {
    let vk = VaultKey::derive("pw", [4u8; 16]).unwrap();
    let short = general_purpose::STANDARD.encode([1u8, 2, 3]);
    match decrypt_data(&short, &vk) {
        Err(AppError::Encryption(m)) => assert_eq!(m, "Data too short"),
        other => panic!("unexpected: {:?}", other),
    }
}

#[test]
fn tampered_payload_reads_as_wrong_password() {
    let vk = VaultKey::derive("pw", [4u8; 16]).unwrap();
    let encrypted = encrypt_data("hello", &vk).unwrap();
    let mut raw = general_purpose::STANDARD.decode(&encrypted).unwrap();
    let last = raw.len() - 1;
    raw[last] ^= 1;
    let tampered = general_purpose::STANDARD.encode(raw);
    assert!(matches!(decrypt_data(&tampered, &vk), Err(AppError::InvalidMasterPassword)));
}

#[test]
fn zeroize_wipes_both_keys_and_keeps_the_salt() {
    let mut vk = VaultKey::derive("pw", [5u8; 16]).unwrap();
    vk.zeroize();
    assert_eq!(vk.key_bytes(), [0u8; 32]);
    assert_eq!(vk.salt(), [5u8; 16]);
}

#[test]
fn payload_length_is_header_nonce_ciphertext_and_tag() {
    let vk = key_for("password");
    let encrypted = encrypt_data("data", &vk).unwrap();
    let raw = general_purpose::STANDARD.decode(&encrypted).unwrap();
    assert_eq!(raw.len(), HEADER_LEN + NONCE_LEN + 4 + 16);
}
