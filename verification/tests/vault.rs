//! The vault.

use rterm::boot::{asks_keyring, start_with};
use rterm::crypto::{
    default_parallel_one, derive_parallelism, CryptoError, CryptoHeader, Envelope, Vault,
    KDF_MEMORY_MIB, KDF_OPS, NONCE_LEN, TAG_LEN,
};

fn password_vault(passphrase: &str) -> Vault {
    Vault::new(passphrase, Some(4))
}

#[test]
fn roundtrip_encrypt_decrypt() {
    let v = password_vault("correct horse battery staple");
    let env = v.encrypt("s3cr3t-password");
    assert_ne!(env.len(), 0);
    let got = v.decrypt(&env).unwrap();
    assert_eq!(got.as_str(), "s3cr3t-password");
}

#[test]
fn envelope_serializes_as_base64() {
    let v = password_vault("pw");
    let env = v.encrypt("hello");
    let s = env.to_base64();
    assert!(!s.is_empty());
    let back = Envelope::from_base64(&s).unwrap();
    assert_eq!(v.decrypt(&back).unwrap().as_str(), "hello");
}

#[test]
fn unlock_with_correct_passphrase_succeeds() {
    let v = password_vault("master-pw");
    let v2 = Vault::unlock("master-pw", v.header()).unwrap();
    let env = v.encrypt("shared-secret");
    assert_eq!(v2.decrypt(&env).unwrap().as_str(), "shared-secret");
}

#[test]
fn unlock_with_wrong_passphrase_fails() {
    let v = password_vault("master-pw");
    assert!(matches!(Vault::unlock("wrong-pw", v.header()), Err(CryptoError::Verify)));
}

#[test]
fn unlock_rejects_random_key_mode_header() {
    let v = Vault::create_random();
    assert!(matches!(Vault::unlock("any-pass", v.header()), Err(CryptoError::Verify)));
}

#[test]
fn create_random_round_trips_and_skips_verifier() {
    let v = Vault::create_random();
    assert!(!v.header().master_password_set);
    assert!(v.header().verifier.is_none());
    let env = v.encrypt("local-secret");
    assert_eq!(v.decrypt(&env).unwrap().as_str(), "local-secret");
    let dek = v.dek_bytes();
    let v2 = Vault::from_dek(&dek, v.header()).ok().unwrap();
    assert_eq!(v2.decrypt(&env).unwrap().as_str(), "local-secret");
}

#[test]
fn tampered_ciphertext_fails() {
    let v = password_vault("pw");
    let env = v.encrypt("data");
    let mut bytes = env.as_bytes().clone();
    let last = bytes.len() - 1;
    bytes[last] ^= 0xff;
    let changed = Envelope::from_bytes(bytes).unwrap();
    assert!(v.decrypt(&changed).is_err());
}

#[test]
fn dek_bytes_round_trips_via_from_dek() {
    let v = password_vault("master-pw");
    let env = v.encrypt("shared-secret");
    let dek = v.dek_bytes();
    let v2 = Vault::from_dek(&dek, v.header()).ok().unwrap();
    assert_eq!(v2.decrypt(&env).unwrap().as_str(), "shared-secret");
}

#[test]
fn from_dek_with_wrong_key_fails() {
    let v = password_vault("master-pw");
    let mut wrong = [0u8; 32];
    wrong[0] = 0xff;
    assert!(matches!(Vault::from_dek(&wrong, v.header()), Err(CryptoError::Verify)));
}

#[test]
fn new_vault_persists_parallelism_and_unlocks() {
    let v = password_vault("pw");
    let header = v.header();
    assert!(header.parallel >= 1 && header.parallel <= 4);
    let v2 = Vault::unlock("pw", header).ok().unwrap();
    let env = v.encrypt("secret");
    assert_eq!(v2.decrypt(&env).unwrap().as_str(), "secret");
}

#[test]
fn legacy_header_without_parallel_defaults_to_one() {
    let header = CryptoHeader {
        version: 1,
        master_password_set: true,
        kdf: "argon2id".to_string(),
        salt: "AAAAAAAAAAAAAAAAAAAAAA==".to_string(),
        ops: 3,
        mem_mib: 64,
        parallel: default_parallel_one(),
        verifier: None,
    };
    assert_eq!(header.parallel, 1);
}

#[test]
fn the_header_of_a_password_says_how_the_key_is_derived() {
    let v = Vault::with_salt("pw", [0u8; 16], 1, [7u8; 12]);
    let h = v.header();
    assert!(h.master_password_set);
    assert_eq!(h.kdf, "argon2id");
    assert_eq!(h.salt, "AAAAAAAAAAAAAAAAAAAAAA==");
    assert_eq!((h.ops, h.mem_mib, h.parallel), (KDF_OPS, KDF_MEMORY_MIB, 1));
    let again = Vault::with_salt("pw", [0u8; 16], 1, [8u8; 12]);
    assert_eq!(v.dek_bytes(), again.dek_bytes());
    let other = Vault::with_salt("pw", [1u8; 16], 1, [7u8; 12]);
    assert_ne!(v.dek_bytes(), other.dek_bytes());
    assert_ne!(v.dek_bytes(), [0u8; 32]);
}

#[test]
fn lanes_follow_the_processors_within_bounds() {
    assert_eq!(derive_parallelism(None), 2);
    assert_eq!(derive_parallelism(Some(1)), 1);
    assert_eq!(derive_parallelism(Some(3)), 3);
    assert_eq!(derive_parallelism(Some(64)), 4);
}

#[test]
fn an_envelope_holds_its_nonce_and_the_seal() {
    let v = Vault::with_key([9u8; 32]);
    let env = v.encrypt_with([3u8; 12], "abc");
    assert_eq!(env.len(), NONCE_LEN + 3 + TAG_LEN);
    assert_eq!(&env.as_bytes()[..12], &[3u8; 12]);
    assert_ne!(&env.as_bytes()[12..15], b"abc");
    assert!(env.same(&v.encrypt_with([3u8; 12], "abc")));
    assert!(!env.same(&v.encrypt_with([4u8; 12], "abc")));
    assert!(env.copied().same(&env));
}

#[test]
fn two_nonces_seal_one_text_differently() {
    let v = Vault::create_random();
    assert!(!v.encrypt("same").same(&v.encrypt("same")));
    assert_ne!(Vault::create_random().dek_bytes(), v.dek_bytes());
}

#[test]
fn short_or_garbled_envelopes_are_refused() {
    assert!(matches!(Envelope::from_bytes(vec![0u8; 3]), Err(CryptoError::BadEnvelope)));
    assert!(matches!(Envelope::from_base64("?"), Err(CryptoError::BadEnvelope)));
    assert!(matches!(Envelope::from_base64("AAAA"), Err(CryptoError::BadEnvelope)));
}

#[test]
fn bytes_that_are_no_text_are_not_opened() {
    let key = [5u8; 32];
    let v = Vault::with_key(key);
    let sealed = v.encrypt_with([0u8; 12], "é");
    let opened = v.decrypt(&sealed).unwrap();
    assert_eq!(opened.as_str(), "é");
    assert!(matches!(Vault::with_key([6u8; 32]).decrypt(&sealed), Err(CryptoError::Cipher)));
}

#[test]
fn a_header_with_numbers_out_of_range_derives_nothing() {
    let v = Vault::with_salt("pw", [0u8; 16], 1, [7u8; 12]);
    let mut h = v.header().copied();
    h.ops = 0;
    assert!(matches!(Vault::unlock("pw", &h), Err(CryptoError::Kdf)));
    let mut h = v.header().copied();
    h.salt = "?".to_string();
    assert!(Vault::unlock("pw", &h).is_err());
}

#[test]
fn the_first_start_makes_a_key_and_writes_it_down() {
    let start = start_with(None, true, None, [1u8; 32]);
    assert_eq!(start.vault.unwrap().dek_bytes(), [1u8; 32]);
    assert!(start.keep_key && start.write_header && !start.key_lost);
}

#[test]
fn the_kept_key_opens_the_vault_at_the_start() {
    let random = Vault::with_key([2u8; 32]);
    assert!(asks_keyring(random.header(), false));
    let start = start_with(Some(random.header()), false, Some([2u8; 32]), [1u8; 32]);
    assert_eq!(start.vault.unwrap().dek_bytes(), [2u8; 32]);
    assert!(!start.keep_key && !start.write_header && !start.key_lost);
}

#[test]
fn a_lost_random_key_is_replaced_and_told() {
    let random = Vault::with_key([2u8; 32]);
    let start = start_with(Some(random.header()), true, None, [1u8; 32]);
    assert_eq!(start.vault.unwrap().dek_bytes(), [1u8; 32]);
    assert!(start.keep_key && start.key_lost && !start.write_header);
}

#[test]
fn a_forgotten_password_key_is_asked_for() {
    let v = Vault::with_salt("pw", [0u8; 16], 1, [7u8; 12]);
    assert!(!asks_keyring(v.header(), false));
    let start = start_with(Some(v.header()), false, Some(v.dek_bytes()), [1u8; 32]);
    assert!(start.vault.is_none() && !start.keep_key && !start.key_lost);
    let start = start_with(Some(v.header()), true, Some([9u8; 32]), [1u8; 32]);
    assert!(start.vault.is_none());
    let start = start_with(Some(v.header()), true, Some(v.dek_bytes()), [1u8; 32]);
    assert!(start.vault.is_some());
}
