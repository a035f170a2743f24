use aeon_engine::error::AeonError;
use aeon_engine::processor_auth::{
    challenge_with, check_authorization, compute_fingerprint, create_challenge, decode_public_key,
    frame_batch, frame_challenge, generate_nonce, nonce_text, PipelineScope, ProcessorIdentity,
    RejectCode,
};
use base64::Engine;

fn public_key(bytes: &[u8]) -> String {
    let b64 = base64::engine::general_purpose::STANDARD.encode(bytes);
    format!("ed25519:{b64}")
}

fn make_identity() -> ProcessorIdentity {
    let public_key = public_key(&[7u8; 32]);
    let fingerprint = compute_fingerprint(&public_key).unwrap();
    ProcessorIdentity {
        public_key,
        fingerprint,
        processor_name: "test-proc".into(),
        allowed_pipelines: PipelineScope::Named(vec!["orders".into(), "payments".into()]),
        max_instances: 2,
        registered_at: 1000,
        registered_by: "test".into(),
        revoked_at: None,
    }
}

#[test]
fn generate_nonce_is_64_hex_chars() {
    let nonce = generate_nonce();
    assert_eq!(nonce.len(), 64);
    assert!(nonce.chars().all(|c| c.is_ascii_hexdigit()));
}

#[test]
fn nonces_are_random() {
    assert_ne!(generate_nonce(), generate_nonce());
}

#[test]
fn create_challenge_has_correct_fields() {
    let challenge = create_challenge(true);
    assert_eq!(challenge.msg_type, "challenge");
    assert_eq!(challenge.protocol, "awpp/1");
    assert!(challenge.oauth_required);
    assert_eq!(challenge.nonce.len(), 64);
}

#[test]
fn a_challenge_carries_its_nonce() {
    let challenge = challenge_with(nonce_text(&[0, 0xab, 0xff]), false);
    assert_eq!(challenge.nonce, "00abff");
    assert!(!challenge.oauth_required);
}

#[test]
fn decode_public_key_valid() {
    let identity = make_identity();
    let bytes = decode_public_key(&identity.public_key).unwrap();
    assert_eq!(bytes.len(), 32);
    assert_eq!(bytes, vec![7u8; 32]);
}

#[test]
fn decode_public_key_missing_prefix() {
    let result = decode_public_key("MCowBQYDK2VwAyEA");
    assert!(result.is_err());
}

#[test]
fn decode_public_key_refusals() {
    let text = |s: &str| decode_public_key(s).unwrap_err().message().to_string();
    assert_eq!(text("ed2551"), "public key must start with 'ed25519:'");
    assert!(text("ed25519:***").starts_with("invalid base64 in public key: "));
    assert_eq!(
        text(&public_key(&[1, 2, 3])),
        "ED25519 public key must be 32 bytes, got 3"
    );
}

#[test]
fn compute_fingerprint_deterministic() {
    let identity = make_identity();
    let fp1 = compute_fingerprint(&identity.public_key).unwrap();
    let fp2 = compute_fingerprint(&identity.public_key).unwrap();
    assert_eq!(fp1, fp2);
    assert!(fp1.starts_with("SHA256:"));
}

#[test]
fn fingerprint_is_the_digest_of_the_key() {
    let fp = compute_fingerprint(&public_key(&[0u8; 32])).unwrap();
    assert_eq!(
        fp,
        "SHA256:66687aadf862bd776c8fc18b8e9f8e20089714856ee233b3902a591d0d5f2925"
    );
}

#[test]
fn check_authorization_ok() {
    let identity = make_identity();
    let asked = vec!["orders".to_string(), "payments".to_string()];
    let result = check_authorization(&identity, &asked, 0);
    assert!(result.is_ok());
}

#[test]
fn check_authorization_revoked() {
    let mut identity = make_identity();
    identity.revoked_at = Some(5000);
    let err = check_authorization(&identity, &vec!["orders".to_string()], 0).unwrap_err();
    assert_eq!(err.code, RejectCode::KeyRevoked);
    assert_eq!(err.message, format!("identity {} is revoked", identity.fingerprint));
}

#[test]
fn check_authorization_pipeline_not_allowed() {
    let identity = make_identity();
    let asked = vec!["unauthorized-pipeline".to_string()];
    let err = check_authorization(&identity, &asked, 0).unwrap_err();
    assert_eq!(err.code, RejectCode::PipelineNotAuthorized);
}

#[test]
fn the_first_pipeline_that_is_not_allowed_is_named() {
    let identity = make_identity();
    let err = check_authorization(
        &identity,
        &vec!["orders".to_string(), "unknown-pipeline".to_string(), "other".to_string()],
        0,
    )
    .unwrap_err();
    assert_eq!(err.code, RejectCode::PipelineNotAuthorized);
    assert!(err.message.starts_with("pipeline 'unknown-pipeline' not authorized for identity "));
}

#[test]
fn check_authorization_max_instances() {
    let identity = make_identity();
    assert!(check_authorization(&identity, &vec!["orders".to_string()], 1).is_ok());
    let err = check_authorization(&identity, &vec!["orders".to_string()], 2).unwrap_err();
    assert_eq!(err.code, RejectCode::MaxInstancesReached);
    assert!(err.message.starts_with("max instances (2) reached for identity "));
}

#[test]
fn a_scope_of_all_allows_everything() {
    let mut identity = make_identity();
    identity.allowed_pipelines = PipelineScope::All;
    assert!(check_authorization(&identity, &vec!["anything".to_string()], 0).is_ok());
}

#[test]
fn framing_of_a_challenge() {
    let identity = make_identity();
    let sig = "ab".repeat(64);
    let framed = frame_challenge(&identity, Ok(()), "00ff", &sig).unwrap();
    assert_eq!(framed.message, vec![0x00, 0xff]);
    assert_eq!(framed.signature, vec![0xab; 64]);

    let text = |nonce: &str, sig: &str| {
        frame_challenge(&identity, Ok(()), nonce, sig).unwrap_err().message().to_string()
    };
    assert!(text("0", &sig).starts_with("invalid nonce hex: "));
    assert!(text("zz", &sig).starts_with("invalid nonce hex: "));
    assert!(text("00", "xy").starts_with("invalid signature hex: "));
    assert_eq!(text("00", "abcd"), "signature must be 64 bytes, got 2");
    let bad_point = frame_challenge(
        &identity,
        Err(AeonError::state("not a point".to_string())),
        "zz",
        &sig,
    );
    assert_eq!(bad_point.unwrap_err().message(), "not a point");
    let mut no_key = make_identity();
    no_key.public_key = "nope".to_string();
    assert_eq!(
        frame_challenge(&no_key, Ok(()), "00", &sig).unwrap_err().message(),
        "public key must start with 'ed25519:'"
    );
}

#[test]
fn framing_of_a_batch() {
    let key = public_key(&[1u8; 32]);
    assert!(frame_batch(&key, Ok(()), &[0u8; 64]).is_ok());
    assert_eq!(
        frame_batch(&key, Ok(()), &[0u8; 63]).unwrap_err().message(),
        "batch signature must be 64 bytes, got 63"
    );
    assert_eq!(
        frame_batch(&key, Err(AeonError::state("off curve".to_string())), &[]).unwrap_err().message(),
        "off curve"
    );
    assert!(frame_batch("x", Ok(()), &[0u8; 64]).is_err());
}
