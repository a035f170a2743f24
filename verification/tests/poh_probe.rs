use aeon_engine::definition::PohBlock;
use aeon_engine::poh_probe::{resolve_poh_signing_key, SecretLookup};

fn block(enabled: bool, signing_key_ref: Option<&str>) -> PohBlock {
    PohBlock {
        enabled,
        max_recent_entries: 1024,
        signing_key_ref: signing_key_ref.map(|s| s.to_string()),
    }
}

#[test]
fn disabled_block_returns_none_regardless_of_ref() {
    let block = block(false, Some("${ENV:WHATEVER}"));
    let key = resolve_poh_signing_key(&block, SecretLookup::NoRegistry).unwrap();
    assert!(key.is_none());

    let key = resolve_poh_signing_key(&block, SecretLookup::Failed("unset".into())).unwrap();
    assert!(key.is_none());
}

#[test]
fn enabled_without_ref_returns_none() {
    let block = block(true, None);
    let key = resolve_poh_signing_key(&block, SecretLookup::Failed("unset".into())).unwrap();
    assert!(key.is_none());
}

#[test]
fn ref_set_without_registry_hard_fails() {
    let block = block(true, Some("${ENV:NOT_BOUND}"));
    let err = resolve_poh_signing_key(&block, SecretLookup::NoRegistry).unwrap_err();
    assert!(err.message().contains("SecretRegistry"));
}

#[test]
fn hex_encoded_env_var_resolves_to_signing_key() {
    let hex_key: String = (0..32).map(|_| "11".to_string()).collect();
    let block = block(true, Some("${ENV:AEON_TEST_POH_SIG_HEX}"));
    let key = resolve_poh_signing_key(&block, SecretLookup::Found(hex_key.into_bytes()))
        .unwrap()
        .expect("hex-encoded env var must resolve");
    assert_eq!(key, [0x11u8; 32]);
}

#[test]
fn raw_32_byte_secret_resolves_to_signing_key() {
    let block = block(true, Some("plain-literal-passthrough"));
    let key = resolve_poh_signing_key(&block, SecretLookup::Found(vec![0x42u8; 32]))
        .unwrap()
        .expect("raw 32 bytes must resolve");
    assert_eq!(key, [0x42u8; 32]);
}

#[test]
fn wrong_length_secret_hard_fails() {
    // 30 hex chars — neither 32 raw bytes nor 64 hex chars.
    let bytes = b"112233445566778899aabbccddeeff".to_vec();
    let block = block(true, Some("${ENV:AEON_TEST_POH_SIG_BAD}"));
    let err = resolve_poh_signing_key(&block, SecretLookup::Found(bytes)).unwrap_err();
    assert!(err.message().contains("expected 32 raw bytes"));
    assert!(err.message().contains("resolved to 30 bytes"));
}

#[test]
fn malformed_hex_string_hard_fails() {
    // 64 chars but non-hex — falls through to length error.
    let bad: String = (0..64).map(|_| 'z').collect();
    let block = block(true, Some("${ENV:AEON_TEST_POH_SIG_NOTHEX}"));
    let err = resolve_poh_signing_key(&block, SecretLookup::Found(bad.into_bytes())).unwrap_err();
    assert!(err.message().contains("expected 32 raw bytes"));
}

#[test]
fn unknown_scheme_hard_fails() {
    let block = block(true, Some("${VAULT:kv/aeon/poh-signing-key}"));
    let err = resolve_poh_signing_key(&block, SecretLookup::Failed("no provider".into()))
        .unwrap_err();
    assert!(err.message().contains("failed to resolve signing_key_ref"));
    assert!(err.message().ends_with(": no provider"));
}

#[test]
fn malformed_ref_string_hard_fails() {
    let block = block(true, Some("not a ref"));
    assert!(
        resolve_poh_signing_key(&block, SecretLookup::Failed("no literal provider".into()))
            .is_err()
    );
}

#[test]
fn hex_digits_of_either_case_are_read() {
    let text = b"AaBbCcDdEeFf00112233445566778899AaBbCcDdEeFf00112233445566778899".to_vec();
    let block = block(true, Some("ref"));
    let key = resolve_poh_signing_key(&block, SecretLookup::Found(text)).unwrap().unwrap();
    assert_eq!(key.len(), 32);
    assert_eq!(key[0], 0xaa);
    assert_eq!(key[5], 0xff);
    assert_eq!(key[31], 0x99);
}
