use rand::SeedableRng;
use confirm_service_sdk::crypto::base64_url;
use confirm_service_sdk::json::JsonValue;
use confirm_service_sdk::signing::{
    requester_signature_payload, sign_confirmation_request, sign_confirmation_request_body,
    signed_request_body_sha256, SignConfirmationRequestBodyInput, SignConfirmationRequestInput,
    SignedRequestEnvelope,
};
use confirm_service_sdk::error::ConfirmSdkError;
use base64::{engine::general_purpose::URL_SAFE_NO_PAD, Engine};
use rsa::pkcs8::{EncodePrivateKey, LineEnding};
use rsa::signature::Verifier;
use rsa::{RsaPrivateKey, RsaPublicKey};
use sha2::Sha256;


fn test_private_key() -> RsaPrivateKey {
    // A fixed seed gives the same 2048-bit test key on every run.
    let mut rng = rand::rngs::StdRng::seed_from_u64(3);
    RsaPrivateKey::new(&mut rng, 2048).expect("rsa key")
}

fn pem_of(key: &RsaPrivateKey) -> String {
    key.to_pkcs8_pem(LineEnding::LF).expect("private pem").to_string()
}

fn test_key_pem() -> String {
    pem_of(&test_private_key())
}

fn text(s: &str) -> JsonValue {
    JsonValue::String(s.to_string())
}

fn object(members: Vec<(&str, JsonValue)>) -> JsonValue {
    JsonValue::Object(members.into_iter().map(|(k, v)| (k.to_string(), v)).collect())
}

fn header<'a>(headers: &'a [(String, String)], name: &str) -> Option<&'a str> {
    headers.iter().find(|(k, _)| k == name).map(|(_, v)| v.as_str())
}

#[test]
fn stable_request_body_hash_matches_service_fixture() {
    assert_eq!(
        signed_request_body_sha256(br#"{"ok":true}"#),
        "sha256:QGLtr3UPuAdOfoPgyQKMlOMkaKi28WFHdDKO8EUVD5M"
    );
}

#[test]
fn sign_confirmation_request_emits_origin_bound_rs256_headers() {
    let private_key = test_private_key();
    let public_key = RsaPublicKey::from(&private_key);
    let private_key_pem = pem_of(&private_key);
    let signed = sign_confirmation_request(SignConfirmationRequestInput {
        requester_id: "app_123".to_string(),
        key_id: "kid_123".to_string(),
        private_key_pem,
        origin: "https://requester.example.com".to_string(),
        created_at: 1_700_000_000,
        expires_at: 1_700_000_300,
        nonce: "nonce_123".to_string(),
        body: object(vec![
            ("requester", object(vec![("id", text("app_123"))])),
            ("account_id", text("acct_123")),
        ]),
    })
    .expect("signed request");

    assert_eq!(
        signed.header("x-confirm-requester-id").as_deref(),
        Some("app_123")
    );
    assert_eq!(
        signed.header("x-confirm-origin").as_deref(),
        Some("https://requester.example.com")
    );
    assert!(requester_signature_payload(&signed.envelope)
        .contains("origin:https://requester.example.com"));

    let signature = rsa::pkcs1v15::Signature::try_from(
        URL_SAFE_NO_PAD
            .decode(&signed.envelope.signature)
            .expect("signature b64")
            .as_slice(),
    )
    .expect("signature");
    let verifying_key = rsa::pkcs1v15::VerifyingKey::<Sha256>::new(public_key);
    verifying_key
        .verify(
            requester_signature_payload(&signed.envelope).as_bytes(),
            &signature,
        )
        .expect("signature verifies");
}

#[test]
fn signed_body_is_canonical_json_with_its_hash() {
    let signed = sign_confirmation_request(SignConfirmationRequestInput {
        requester_id: "app_123".to_string(),
        key_id: "kid_123".to_string(),
        private_key_pem: test_key_pem(),
        origin: "https://requester.example.com".to_string(),
        created_at: 1_700_000_000,
        expires_at: 1_700_000_300,
        nonce: "nonce_123".to_string(),
        body: object(vec![
            ("requester", object(vec![("id", text("app_123"))])),
            ("account_id", text("acct_123")),
        ]),
    })
    .expect("signed request");
    assert_eq!(signed.body, r#"{"account_id":"acct_123","requester":{"id":"app_123"}}"#);
    assert_eq!(
        signed.envelope.body_sha256,
        signed_request_body_sha256(signed.body.as_bytes())
    );
    assert_eq!(signed.envelope.algorithm, "RS256");
    assert_eq!(signed.envelope.created_at, 1_700_000_000);
    assert_eq!(signed.envelope.expires_at, 1_700_000_300);
}

#[test]
fn signed_headers_carry_the_envelope_in_name_order() {
    let pem = test_key_pem();
    let signed = sign_confirmation_request_body(SignConfirmationRequestBodyInput {
        body: "{}",
        requester_id: "app_123",
        key_id: "kid_123",
        private_key_pem: &pem,
        origin: "https://requester.example.com",
        created_at: 7,
        expires_at: 1_700_000_300,
        nonce: "n",
    })
    .expect("signed request");
    let names: Vec<&str> = signed.headers.iter().map(|(k, _)| k.as_str()).collect();
    assert_eq!(
        names,
        vec![
            "content-type",
            "x-confirm-algorithm",
            "x-confirm-body-sha256",
            "x-confirm-created-at",
            "x-confirm-expires-at",
            "x-confirm-key-id",
            "x-confirm-nonce",
            "x-confirm-origin",
            "x-confirm-requester-id",
            "x-confirm-signature",
        ]
    );
    assert_eq!(header(&signed.headers, "content-type"), Some("application/json"));
    assert_eq!(header(&signed.headers, "x-confirm-created-at"), Some("7"));
    assert_eq!(header(&signed.headers, "x-confirm-expires-at"), Some("1700000300"));
    assert_eq!(
        header(&signed.headers, "x-confirm-signature"),
        Some(signed.envelope.signature.as_str())
    );
    assert_eq!(
        header(&signed.headers, "x-confirm-body-sha256"),
        Some(signed_request_body_sha256(b"{}").as_str())
    );
    assert_eq!(signed.body, "{}");
    assert_eq!(signed.header("x-confirm-missing"), None);
}

#[test]
fn signing_is_deterministic_for_one_key_and_payload() {
    let pem = test_key_pem();
    let input = SignConfirmationRequestBodyInput {
        body: r#"{"a":1}"#,
        requester_id: "app_123",
        key_id: "kid_123",
        private_key_pem: &pem,
        origin: "https://requester.example.com",
        created_at: 1,
        expires_at: 2,
        nonce: "nonce",
    };
    let a = sign_confirmation_request_body(input).expect("first");
    let b = sign_confirmation_request_body(input).expect("second");
    assert_eq!(a.envelope.signature, b.envelope.signature);
}

#[test]
fn invalid_private_key_is_rejected() {
    let result = sign_confirmation_request_body(SignConfirmationRequestBodyInput {
        body: "{}",
        requester_id: "app_123",
        key_id: "kid_123",
        private_key_pem: "not a key",
        origin: "https://requester.example.com",
        created_at: 1,
        expires_at: 2,
        nonce: "nonce",
    });
    assert!(matches!(result, Err(ConfirmSdkError::InvalidPrivateKey(_))));
}

#[test]
fn key_too_short_for_rs256_is_rejected() {
    // A 256-bit modulus cannot hold the padded SHA-256 digest.
    let mut rng = rand::rngs::StdRng::seed_from_u64(5);
    let small = RsaPrivateKey::new(&mut rng, 256).expect("small rsa key");
    let pem = pem_of(&small);
    let result = sign_confirmation_request_body(SignConfirmationRequestBodyInput {
        body: "{}",
        requester_id: "app_123",
        key_id: "kid_123",
        private_key_pem: &pem,
        origin: "https://requester.example.com",
        created_at: 1,
        expires_at: 2,
        nonce: "nonce",
    });
    match result {
        Err(ConfirmSdkError::InvalidPrivateKey(m)) => assert!(m.contains("message too long")),
        other => panic!("unexpected result: {:?}", other),
    }
}

#[test]
fn signature_payload_lists_the_envelope_fields() {
    let envelope = SignedRequestEnvelope {
        requester_id: "app_123".to_string(),
        key_id: "kid_123".to_string(),
        algorithm: "RS256".to_string(),
        created_at: 1_700_000_000,
        expires_at: 1_700_000_300,
        nonce: "nonce_123".to_string(),
        origin: "https://requester.example.com".to_string(),
        body_sha256: "sha256:abc".to_string(),
        signature: "ignored".to_string(),
    };
    assert_eq!(
        requester_signature_payload(&envelope),
        "confirm-request-v1\nrequester_id:app_123\nkey_id:kid_123\nalgorithm:RS256\ncreated_at:1700000000\nexpires_at:1700000300\nnonce:nonce_123\norigin:https://requester.example.com\nbody_sha256:sha256:abc"
    );
}

#[test]
fn base64_url_is_unpadded_and_url_safe() {
    assert_eq!(base64_url(&[0xfb, 0xff]), "-_8");
    assert_eq!(base64_url(b"hello"), "aGVsbG8");
    assert_eq!(base64_url(b""), "");
}

#[test]
fn body_hash_of_empty_input() {
    assert_eq!(
        signed_request_body_sha256(b""),
        "sha256:47DEQpj8HBSa-_TImW-5JCeuQeRkm5NMpJWZG3hSuFU"
    );
}

#[test]
fn the_payload_changes_with_every_signed_field_and_not_with_the_signature() {
    let envelope = SignedRequestEnvelope {
        requester_id: "app_123".to_string(),
        key_id: "kid_123".to_string(),
        algorithm: "RS256".to_string(),
        created_at: 1_700_000_000,
        expires_at: 1_700_000_300,
        nonce: "nonce_123".to_string(),
        origin: "https://requester.example.com".to_string(),
        body_sha256: "sha256:abc".to_string(),
        signature: "first".to_string(),
    };
    let payload = requester_signature_payload(&envelope);
    let resigned = SignedRequestEnvelope { signature: "second".to_string(), ..envelope.clone() };
    assert_eq!(requester_signature_payload(&resigned), payload);
    let variants = vec![
        SignedRequestEnvelope { requester_id: "app_124".to_string(), ..envelope.clone() },
        SignedRequestEnvelope { key_id: "kid_124".to_string(), ..envelope.clone() },
        SignedRequestEnvelope { algorithm: "RS512".to_string(), ..envelope.clone() },
        SignedRequestEnvelope { created_at: 1_700_000_001, ..envelope.clone() },
        SignedRequestEnvelope { expires_at: 1_700_000_301, ..envelope.clone() },
        SignedRequestEnvelope { nonce: "nonce_124".to_string(), ..envelope.clone() },
        SignedRequestEnvelope { origin: "https://other.example.com".to_string(), ..envelope.clone() },
        SignedRequestEnvelope { body_sha256: "sha256:abd".to_string(), ..envelope.clone() },
    ];
    for variant in &variants {
        assert_ne!(requester_signature_payload(variant), payload);
    }
}
