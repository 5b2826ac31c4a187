//! Api key generation, formatting, parsing, and signing.

use rfd_api::authn::key::ApiKeyError;
use rfd_api::authn::EncryptorError;
use rfd_api::authn::KeyEncryptor;
use rfd_api::authn::XorEncryptor;
use rfd_api::authn::key::RawApiKey;
use rfd_api::authn::Signer;
use rfd_api::authn::StaticKeySigner;
use rfd_api::trusted::uuid_new_v4;
use rfd_api::trusted::uuid_to_string;

fn mock_signer() -> StaticKeySigner {
    StaticKeySigner::new(vec![7, 13, 21, 34])
}

#[test]
fn test_rejects_invalid_source() {
    let id = uuid_new_v4();
    let signer = mock_signer();

    let raw1 = RawApiKey::generate::<8>(&id);
    let signed1 = raw1.sign(&signer).unwrap();

    let raw2 = RawApiKey::generate::<8>(&id);
    let signed2 = raw2.sign(&signer).unwrap();

    assert_ne!(signed1.signature(), signed2.signature());
}

#[test]
fn round_trip_parse_of_formatted_key() {
    let id: u128 = 0x0011223344556677_8899aabbccddeeff;
    let raw = RawApiKey::new(id, "super-secret-material".to_string());
    let presented = raw.presentable();

    let parsed = RawApiKey::parse(&presented).unwrap();
    assert_eq!(parsed.id(), id);
    assert_eq!(parsed.secret(), "super-secret-material");
}

#[test]
fn round_trip_keeps_short_secret() {
    let id: u128 = 1;
    let raw = RawApiKey::new(id, "x".to_string());
    let presented = raw.presentable();

    let parsed = RawApiKey::parse(&presented).unwrap();
    assert_eq!(parsed.id(), 1u128);
    assert_eq!(parsed.secret(), "x");
}

#[test]
fn parse_rejects_string_without_dot() {
    let result = RawApiKey::parse("no-separator-in-here");
    assert!(matches!(result, Err(ApiKeyError::FailedToParse)));
}

#[test]
fn parse_rejects_non_uuid_prefix() {
    let result = RawApiKey::parse("definitely-not-a-uuid.secret");
    assert!(matches!(result, Err(ApiKeyError::FailedToParse)));
}

#[test]
fn parse_accepts_canonical_uuid_prefix() {
    let id: u128 = 0xdeadbeef_00000000_00000000_12345678;
    let mut presented = uuid_to_string(id);
    presented.push('.');
    presented.push_str("the-secret");

    let parsed = RawApiKey::parse(&presented).unwrap();
    assert_eq!(parsed.id(), id);
    assert_eq!(parsed.secret(), "the-secret");
}

#[test]
fn signing_is_deterministic_for_equal_input() {
    let id: u128 = 42;
    let signer = mock_signer();

    let signed1 = RawApiKey::new(id, "same-secret".to_string()).sign(&signer).unwrap();
    let signed2 = RawApiKey::new(id, "same-secret".to_string()).sign(&signer).unwrap();

    assert_eq!(signed1.signature(), signed2.signature());
}

#[test]
fn signed_key_exposes_presentable_form() {
    let id: u128 = 42;
    let signer = mock_signer();
    let raw = RawApiKey::new(id, "abc".to_string());
    let presented = raw.presentable();

    let signed = RawApiKey::new(id, "abc".to_string()).sign(&signer).unwrap();
    assert!(!signed.signature().is_empty());
    assert_eq!(signed.key(), presented);
}

#[test]
fn generated_secret_is_hex_of_requested_width() {
    let id: u128 = 5;
    let raw = RawApiKey::generate::<8>(&id);
    assert_eq!(raw.secret().len(), 16);
    assert!(raw.secret().chars().all(|c| c.is_ascii_hexdigit()));
}

#[test]
fn verifying_key_is_stable() {
    let signer = mock_signer();
    assert_eq!(signer.verifying_key(), signer.verifying_key());
}

#[test]
fn encryptor_round_trips_opaque_secrets() {
    let encryptor = XorEncryptor::new(vec![0x5a, 0xc3, 0x19]).unwrap();
    let plain = b"a provider client secret".to_vec();

    let sealed = encryptor.encrypt(&plain).unwrap();
    assert_ne!(sealed, plain);

    let opened = encryptor.decrypt(&sealed).unwrap();
    assert_eq!(opened, plain);
}

#[test]
fn encryptor_refuses_empty_key_material() {
    let result = XorEncryptor::new(Vec::new());
    assert!(matches!(result, Err(EncryptorError::UnusableKey)));
}
