use rand::SeedableRng;
use base64::{engine::general_purpose::URL_SAFE_NO_PAD, Engine};
use confirm_service_sdk::error::ConfirmSdkError;
use confirm_service_sdk::json::{JsonNumber, JsonValue};
use confirm_service_sdk::receipt::{bind_receipt_response, receipt_response_token, ConfirmationReceipt};
use confirm_service_sdk::verify::{
    check_response_claims, decode_token_header, finish_response_verification,
    verify_token_signature, ConfirmationResponseClaims, Jwk, Jwks, JwtHeader,
    MemoryResponseReplayCache, ResponseReplayCache, VerifiedConfirmationResponse,
    VerifyConfirmationResponseInput,
};
use confirm_service_sdk::{CONFIRM_RESPONSE_TOKEN_TYPE, TIGHT_CONFIRM_WORKFLOW};
use rsa::signature::{SignatureEncoding, Signer};
use rsa::traits::PublicKeyParts;
use rsa::{RsaPrivateKey, RsaPublicKey};
use serde_json::Value;
use sha2::Sha256;


fn test_private_key() -> RsaPrivateKey {
    // A fixed seed gives the same 2048-bit test key on every run.
    let mut rng = rand::rngs::StdRng::seed_from_u64(3);
    RsaPrivateKey::new(&mut rng, 2048).expect("rsa key")
}

fn b64(bytes: &[u8]) -> String {
    URL_SAFE_NO_PAD.encode(bytes)
}

fn test_jwk(public_key: &RsaPublicKey, kid: &str) -> Jwk {
    Jwk {
        kty: "RSA".to_string(),
        kid: Some(kid.to_string()),
        alg: Some("RS256".to_string()),
        key_use: Some("sig".to_string()),
        n: b64(&public_key.n().to_bytes_be()),
        e: b64(&public_key.e().to_bytes_be()),
    }
}

/// A compact RS256 JWS over the given header and claims.
fn encode(header: &Value, claims: &Value, key: &RsaPrivateKey) -> String {
    let signing_input = format!(
        "{}.{}",
        b64(serde_json::to_string(header).expect("header").as_bytes()),
        b64(serde_json::to_string(claims).expect("claims").as_bytes())
    );
    let signing_key = rsa::pkcs1v15::SigningKey::<Sha256>::new(key.clone());
    let signature = signing_key.sign(signing_input.as_bytes()).to_vec();
    format!("{}.{}", signing_input, b64(&signature))
}

fn rs256_header(kid: &str) -> Value {
    let mut header = serde_json::Map::new();
    header.insert("typ".to_string(), Value::String(CONFIRM_RESPONSE_TOKEN_TYPE.to_string()));
    header.insert("alg".to_string(), Value::String("RS256".to_string()));
    header.insert("kid".to_string(), Value::String(kid.to_string()));
    Value::Object(header)
}

fn opt_string(v: &Value, name: &str) -> Result<Option<String>, ConfirmSdkError> {
    match v.get(name) {
        None | Some(Value::Null) => Ok(None),
        Some(Value::String(s)) => Ok(Some(s.clone())),
        Some(_) => Err(ConfirmSdkError::InvalidJson(format!("invalid type for {}", name))),
    }
}

fn string(v: &Value, name: &str) -> Result<String, ConfirmSdkError> {
    opt_string(v, name)?.ok_or_else(|| ConfirmSdkError::InvalidJson(format!("missing field {}", name)))
}

fn opt_u64(v: &Value, name: &str) -> Result<Option<u64>, ConfirmSdkError> {
    match v.get(name) {
        None | Some(Value::Null) => Ok(None),
        Some(n) => n
            .as_u64()
            .map(Some)
            .ok_or_else(|| ConfirmSdkError::InvalidJson(format!("invalid type for {}", name))),
    }
}

fn parse(bytes: &[u8]) -> Result<Value, ConfirmSdkError> {
    serde_json::from_slice(bytes).map_err(|e| ConfirmSdkError::InvalidJson(e.to_string()))
}

fn parse_header(bytes: &[u8]) -> Result<JwtHeader, ConfirmSdkError> {
    let v = parse(bytes)?;
    Ok(JwtHeader { alg: string(&v, "alg")?, typ: opt_string(&v, "typ")?, kid: opt_string(&v, "kid")? })
}

fn parse_claims(bytes: &[u8]) -> Result<ConfirmationResponseClaims, ConfirmSdkError> {
    let v = parse(bytes)?;
    Ok(ConfirmationResponseClaims {
        iss: opt_string(&v, "iss")?,
        aud: string(&v, "aud")?,
        sub: opt_string(&v, "sub")?,
        request_id: opt_string(&v, "request_id")?,
        receipt_id: string(&v, "receipt_id")?,
        workflow_template_id: string(&v, "workflow_template_id")?,
        decision: string(&v, "decision")?,
        confirmed_at: opt_u64(&v, "confirmed_at")?,
        iat: opt_u64(&v, "iat")?,
        exp: opt_u64(&v, "exp")?,
        jti: opt_string(&v, "jti")?,
        artifact_set_hash: opt_string(&v, "artifact_set_hash")?,
        registered_origin: opt_string(&v, "registered_origin")?,
    })
}

/// The steps of a token verification, run in order, with the JSON texts
/// they hand back parsed in between.
fn verify_confirmation_response_token<C: ResponseReplayCache>(
    token: &str,
    jwks: &Jwks,
    input: VerifyConfirmationResponseInput<'_>,
    replay_cache: Option<&mut C>,
) -> Result<VerifiedConfirmationResponse, ConfirmSdkError> {
    let header = parse_header(&decode_token_header(token)?)?;
    let claims = parse_claims(&verify_token_signature(token, &header, jwks)?)?;
    finish_response_verification(header, claims, &input, replay_cache)
}

fn verify_confirmation_receipt<C: ResponseReplayCache>(
    receipt: ConfirmationReceipt,
    jwks: &Jwks,
    input: VerifyConfirmationResponseInput<'_>,
    replay_cache: Option<&mut C>,
) -> Result<confirm_service_sdk::receipt::VerifiedConfirmationReceipt, ConfirmSdkError> {
    let token = receipt_response_token(&receipt)?.to_string();
    let response = verify_confirmation_response_token(&token, jwks, input, replay_cache)?;
    bind_receipt_response(receipt, response)
}

fn full_claims() -> Value {
    serde_json::from_str(
        r#"{
          "iss": "https://confirm.example.com",
          "aud": "app_123",
          "sub": "person@example.com",
          "request_id": "cr_123",
          "receipt_id": "rcpt_123",
          "workflow_template_id": "single_responder.tight_confirm.v1",
          "decision": "confirmed",
          "iat": 1700000000,
          "exp": 4102444800,
          "jti": "jti_123",
          "artifact_set_hash": "sha256:abc",
          "registered_origin": "https://requester.example.com"
        }"#,
    )
    .expect("claims")
}

fn signed_token_and_jwks(claims: &Value) -> (String, Jwks) {
    let private_key = test_private_key();
    let public_key = RsaPublicKey::from(&private_key);
    let kid = "signing_1";
    let token = encode(&rs256_header(kid), claims, &private_key);
    let jwks = Jwks { keys: vec![test_jwk(&public_key, kid)] };
    (token, jwks)
}

fn input_at(now: u64) -> VerifyConfirmationResponseInput<'static> {
    VerifyConfirmationResponseInput { now: Some(now), require_confirmed: true, ..Default::default() }
}

fn no_cache() -> Option<&'static mut MemoryResponseReplayCache> {
    None
}

#[test]
fn verify_confirmation_response_token_checks_claims_origin_and_replay() {
    let (token, jwks) = signed_token_and_jwks(&full_claims());
    let mut replay_cache = MemoryResponseReplayCache::default();
    let verified = verify_confirmation_response_token(
        &token,
        &jwks,
        VerifyConfirmationResponseInput {
            issuer: Some("https://confirm.example.com"),
            audience: Some("app_123"),
            workflow_template_id: Some(TIGHT_CONFIRM_WORKFLOW),
            registered_origin: Some("https://requester.example.com"),
            now: Some(1_700_000_100),
            require_confirmed: true,
        },
        Some(&mut replay_cache),
    )
    .expect("verified token");
    assert_eq!(verified.claims.receipt_id, "rcpt_123");
    assert_eq!(verified.claims.jti.as_deref(), Some("jti_123"));

    let replay = verify_confirmation_response_token(
        &token,
        &jwks,
        VerifyConfirmationResponseInput {
            now: Some(1_700_000_100),
            require_confirmed: true,
            ..Default::default()
        },
        Some(&mut replay_cache),
    );
    assert!(matches!(replay, Err(ConfirmSdkError::ReplayDetected)));

    let wrong_origin = verify_confirmation_response_token(
        &token,
        &jwks,
        VerifyConfirmationResponseInput {
            registered_origin: Some("https://evil.example.com"),
            now: Some(1_700_000_100),
            require_confirmed: true,
            ..Default::default()
        },
        no_cache(),
    );
    assert!(matches!(
        wrong_origin,
        Err(ConfirmSdkError::RegisteredOriginMismatch)
    ));
}

#[test]
fn verify_confirmation_receipt_checks_response_token_and_receipt_id() {
    let claims: Value = serde_json::from_str(
        r#"{
          "iss": "https://confirm.example.com",
          "aud": "app_123",
          "request_id": "cr_123",
          "receipt_id": "rcpt_123",
          "workflow_template_id": "single_responder.tight_confirm.v1",
          "decision": "confirmed",
          "exp": 4102444800,
          "jti": "jti_123",
          "registered_origin": "https://requester.example.com"
        }"#,
    )
    .expect("claims");
    let (token, jwks) = signed_token_and_jwks(&claims);
    let receipt = ConfirmationReceipt {
        receipt_id: "rcpt_123".to_string(),
        request_id: "cr_123".to_string(),
        status: "confirmed".to_string(),
        artifacts: Vec::new(),
        decision: JsonValue::Object(vec![("result".to_string(), JsonValue::String("confirmed".to_string()))]),
        evidence_records: Vec::new(),
        satisfied_evidence_branch: None,
        created_at: Some(1_700_000_100),
        attestation: JsonValue::Object(vec![(
            "signed_payload_hash".to_string(),
            JsonValue::String("sha256:abc123".to_string()),
        )]),
        response_token: Some(token),
    };
    let mut replay_cache = MemoryResponseReplayCache::default();
    let verified = verify_confirmation_receipt(
        receipt.clone(),
        &jwks,
        VerifyConfirmationResponseInput {
            issuer: Some("https://confirm.example.com"),
            audience: Some("app_123"),
            registered_origin: Some("https://requester.example.com"),
            now: Some(1_700_000_100),
            require_confirmed: true,
            ..Default::default()
        },
        Some(&mut replay_cache),
    )
    .expect("verified receipt");
    assert_eq!(verified.receipt.receipt_id, "rcpt_123");
    assert_eq!(verified.response.claims.receipt_id, "rcpt_123");

    let mut mismatched = receipt;
    mismatched.receipt_id = "rcpt_other".to_string();
    let mismatch = verify_confirmation_receipt(
        mismatched,
        &jwks,
        VerifyConfirmationResponseInput {
            now: Some(1_700_000_100),
            require_confirmed: true,
            ..Default::default()
        },
        no_cache(),
    );
    assert!(matches!(mismatch, Err(ConfirmSdkError::ReceiptIdMismatch)));
}

#[test]
fn malformed_tokens_are_rejected() {
    assert!(matches!(decode_token_header("a.b"), Err(ConfirmSdkError::InvalidJwtShape)));
    assert!(matches!(decode_token_header("a.b.c.d"), Err(ConfirmSdkError::InvalidJwtShape)));
    assert!(matches!(decode_token_header("!!.b.c"), Err(ConfirmSdkError::InvalidBase64Url(_))));
    let header = b64(br#"{"alg":"RS256"}"#);
    assert_eq!(
        decode_token_header(&format!("{}.x.y", header)).expect("header"),
        br#"{"alg":"RS256"}"#.to_vec()
    );
}

#[test]
fn header_checks_reject_wrong_type_algorithm_and_key() {
    let (token, jwks) = signed_token_and_jwks(&full_claims());
    let header = |alg: &str, typ: Option<&str>, kid: Option<&str>| JwtHeader {
        alg: alg.to_string(),
        typ: typ.map(str::to_string),
        kid: kid.map(str::to_string),
    };
    assert!(matches!(
        verify_token_signature(&token, &header("RS256", None, Some("signing_1")), &jwks),
        Err(ConfirmSdkError::UnexpectedTokenType(t)) if t == "missing"
    ));
    assert!(matches!(
        verify_token_signature(&token, &header("RS256", Some("JWT"), Some("signing_1")), &jwks),
        Err(ConfirmSdkError::UnexpectedTokenType(t)) if t == "JWT"
    ));
    assert!(matches!(
        verify_token_signature(&token, &header("HS256", Some(CONFIRM_RESPONSE_TOKEN_TYPE), Some("signing_1")), &jwks),
        Err(ConfirmSdkError::UnsupportedTokenAlgorithm(a)) if a == "HS256"
    ));
    assert!(matches!(
        verify_token_signature(&token, &header("RS256", Some(CONFIRM_RESPONSE_TOKEN_TYPE), None), &jwks),
        Err(ConfirmSdkError::MissingTokenKeyId)
    ));
    assert!(matches!(
        verify_token_signature(&token, &header("RS256", Some(CONFIRM_RESPONSE_TOKEN_TYPE), Some("other")), &jwks),
        Err(ConfirmSdkError::MissingJwk(k)) if k == "other"
    ));
    let mut wrong_alg = jwks.clone();
    wrong_alg.keys[0].alg = Some("PS256".to_string());
    assert!(matches!(
        verify_token_signature(&token, &header("RS256", Some(CONFIRM_RESPONSE_TOKEN_TYPE), Some("signing_1")), &wrong_alg),
        Err(ConfirmSdkError::JwkAlgorithmMismatch(k)) if k == "signing_1"
    ));
    let mut wrong_kty = jwks.clone();
    wrong_kty.keys[0].kty = "EC".to_string();
    assert!(matches!(
        verify_token_signature(&token, &header("RS256", Some(CONFIRM_RESPONSE_TOKEN_TYPE), Some("signing_1")), &wrong_kty),
        Err(ConfirmSdkError::InvalidPublicKey(m)) if m == "unsupported kty EC"
    ));
    let mut bad_modulus = jwks.clone();
    bad_modulus.keys[0].n = "***".to_string();
    assert!(matches!(
        verify_token_signature(&token, &header("RS256", Some(CONFIRM_RESPONSE_TOKEN_TYPE), Some("signing_1")), &bad_modulus),
        Err(ConfirmSdkError::InvalidBase64Url(_))
    ));
    let mut even_exponent = jwks.clone();
    even_exponent.keys[0].e = b64(&[2]);
    assert!(matches!(
        verify_token_signature(&token, &header("RS256", Some(CONFIRM_RESPONSE_TOKEN_TYPE), Some("signing_1")), &even_exponent),
        Err(ConfirmSdkError::InvalidPublicKey(_))
    ));
}

#[test]
fn tampered_tokens_fail_the_signature_check() {
    let (token, jwks) = signed_token_and_jwks(&full_claims());
    let parts: Vec<&str> = token.split('.').collect();
    let mut other = full_claims();
    other["aud"] = Value::String("app_999".to_string());
    let forged = format!(
        "{}.{}.{}",
        parts[0],
        b64(serde_json::to_string(&other).expect("claims").as_bytes()),
        parts[2]
    );
    let header = parse_header(&decode_token_header(&forged).expect("header")).expect("json");
    assert!(matches!(
        verify_token_signature(&forged, &header, &jwks),
        Err(ConfirmSdkError::InvalidTokenSignature)
    ));
    let claims = verify_token_signature(&token, &header, &jwks).expect("claims");
    assert_eq!(claims, serde_json::to_vec(&full_claims()).expect("claims"));
}

fn claims_with(edit: impl FnOnce(&mut ConfirmationResponseClaims)) -> ConfirmationResponseClaims {
    let mut claims = parse_claims(&serde_json::to_vec(&full_claims()).expect("claims")).expect("claims");
    edit(&mut claims);
    claims
}

#[test]
fn claims_checks_report_each_mismatch() {
    let full = VerifyConfirmationResponseInput {
        issuer: Some("https://confirm.example.com"),
        audience: Some("app_123"),
        workflow_template_id: Some(TIGHT_CONFIRM_WORKFLOW),
        registered_origin: Some("https://requester.example.com"),
        now: Some(1_700_000_100),
        require_confirmed: true,
    };
    assert!(check_response_claims(&claims_with(|_| {}), &full, 1_700_000_100).is_ok());
    assert!(matches!(
        check_response_claims(&claims_with(|_| {}), &full, 4_102_444_800),
        Err(ConfirmSdkError::TokenExpired)
    ));
    assert!(matches!(
        check_response_claims(&claims_with(|c| c.iss = None), &full, 0),
        Err(ConfirmSdkError::IssuerMismatch)
    ));
    assert!(matches!(
        check_response_claims(&claims_with(|c| c.aud = "x".to_string()), &full, 0),
        Err(ConfirmSdkError::AudienceMismatch)
    ));
    assert!(matches!(
        check_response_claims(&claims_with(|c| c.workflow_template_id = "x".to_string()), &full, 0),
        Err(ConfirmSdkError::WorkflowTemplateMismatch)
    ));
    assert!(matches!(
        check_response_claims(&claims_with(|c| c.decision = "declined".to_string()), &full, 0),
        Err(ConfirmSdkError::DecisionNotConfirmed)
    ));
    assert!(matches!(
        check_response_claims(&claims_with(|c| c.receipt_id = " \t\u{3000}".to_string()), &full, 0),
        Err(ConfirmSdkError::MissingReceiptId)
    ));
    assert!(matches!(
        check_response_claims(&claims_with(|c| c.registered_origin = None), &full, 0),
        Err(ConfirmSdkError::RegisteredOriginMismatch)
    ));
    let lenient = VerifyConfirmationResponseInput::default();
    assert!(check_response_claims(&claims_with(|c| c.decision = "declined".to_string()), &lenient, 0).is_ok());
}

#[test]
fn a_replay_cache_needs_a_jti() {
    let header = rs256_header("signing_1");
    let header = parse_header(&serde_json::to_vec(&header).expect("header")).expect("header");
    let mut cache = MemoryResponseReplayCache::new();
    let result = finish_response_verification(
        header.clone(),
        claims_with(|c| c.jti = Some("  ".to_string())),
        &input_at(1_700_000_100),
        Some(&mut cache),
    );
    assert!(matches!(result, Err(ConfirmSdkError::MissingJti)));
    let result = finish_response_verification(
        header,
        claims_with(|c| c.jti = None),
        &input_at(1_700_000_100),
        no_cache(),
    );
    assert!(result.is_ok());
}

#[test]
fn memory_replay_cache_rejects_a_seen_jti_or_receipt() {
    let mut cache = MemoryResponseReplayCache::new();
    assert!(cache.check_and_store("jti_1", "rcpt_1").is_ok());
    assert!(matches!(cache.check_and_store("jti_1", "rcpt_2"), Err(ConfirmSdkError::ReplayDetected)));
    assert!(matches!(cache.check_and_store("jti_2", "rcpt_1"), Err(ConfirmSdkError::ReplayDetected)));
    assert!(cache.check_and_store("jti_2", "rcpt_2").is_ok());
}

#[test]
fn receipts_need_a_sha256_attestation_and_a_token() {
    let receipt = |attestation: JsonValue, token: Option<&str>| ConfirmationReceipt {
        receipt_id: "rcpt_123".to_string(),
        request_id: "cr_123".to_string(),
        status: "confirmed".to_string(),
        artifacts: Vec::new(),
        decision: JsonValue::Null,
        evidence_records: Vec::new(),
        satisfied_evidence_branch: None,
        created_at: None,
        attestation,
        response_token: token.map(str::to_string),
    };
    let hash = |h: JsonValue| JsonValue::Object(vec![("signed_payload_hash".to_string(), h)]);
    assert!(matches!(
        receipt_response_token(&receipt(JsonValue::Null, Some("t"))),
        Err(ConfirmSdkError::MissingSignedPayloadHash)
    ));
    assert!(matches!(
        receipt_response_token(&receipt(hash(JsonValue::Number(JsonNumber::PosInt(1))), Some("t"))),
        Err(ConfirmSdkError::MissingSignedPayloadHash)
    ));
    assert!(matches!(
        receipt_response_token(&receipt(hash(JsonValue::String("md5:x".to_string())), Some("t"))),
        Err(ConfirmSdkError::InvalidSignedPayloadHash)
    ));
    assert!(matches!(
        receipt_response_token(&receipt(hash(JsonValue::String("sha256:x".to_string())), None)),
        Err(ConfirmSdkError::MissingResponseToken)
    ));
    assert_eq!(
        receipt_response_token(&receipt(hash(JsonValue::String("sha256:x".to_string())), Some("t"))).expect("token"),
        "t"
    );
}

#[test]
fn expiry_is_checked_against_the_clock_without_now() {
    let header = parse_header(&serde_json::to_vec(&rs256_header("signing_1")).expect("header"))
        .expect("header");
    let no_time = VerifyConfirmationResponseInput { require_confirmed: true, ..Default::default() };
    let expired = finish_response_verification(
        header.clone(),
        claims_with(|c| c.exp = Some(1_000)),
        &no_time,
        no_cache(),
    );
    assert!(matches!(expired, Err(ConfirmSdkError::TokenExpired)));
    let current = finish_response_verification(header, claims_with(|_| {}), &no_time, no_cache());
    assert_eq!(current.expect("verified").claims.receipt_id, "rcpt_123");
}

#[test]
fn a_failed_check_leaves_the_replay_cache_untouched() {
    let header = parse_header(&serde_json::to_vec(&rs256_header("signing_1")).expect("header"))
        .expect("header");
    let mut cache = MemoryResponseReplayCache::new();
    let expired = finish_response_verification(
        header.clone(),
        claims_with(|c| c.exp = Some(1_000)),
        &input_at(1_700_000_100),
        Some(&mut cache),
    );
    assert!(matches!(expired, Err(ConfirmSdkError::TokenExpired)));
    let accepted = finish_response_verification(
        header.clone(),
        claims_with(|_| {}),
        &input_at(1_700_000_100),
        Some(&mut cache),
    );
    assert_eq!(accepted.expect("verified").claims.receipt_id, "rcpt_123");
    let again = finish_response_verification(
        header,
        claims_with(|_| {}),
        &input_at(1_700_000_100),
        Some(&mut cache),
    );
    assert!(matches!(again, Err(ConfirmSdkError::ReplayDetected)));
}

/// A cache whose store is unreachable: it refuses every response with its
/// own error, and counts the calls.
struct UnreachableStore {
    calls: Vec<(String, String)>,
}

impl ResponseReplayCache for UnreachableStore {
    fn check_and_store(&mut self, jti: &str, receipt_id: &str) -> Result<(), ConfirmSdkError> {
        self.calls.push((jti.to_string(), receipt_id.to_string()));
        Err(ConfirmSdkError::HttpRequest("store unreachable".to_string()))
    }
}

#[test]
fn the_replay_cache_verdict_is_returned_as_is() {
    let header = parse_header(&serde_json::to_vec(&rs256_header("signing_1")).expect("header"))
        .expect("header");
    let mut store = UnreachableStore { calls: Vec::new() };
    let result = finish_response_verification(
        header,
        claims_with(|_| {}),
        &input_at(1_700_000_100),
        Some(&mut store),
    );
    match result {
        Err(ConfirmSdkError::HttpRequest(m)) => assert_eq!(m, "store unreachable"),
        other => panic!("unexpected result: {:?}", other),
    }
    assert_eq!(store.calls, vec![("jti_123".to_string(), "rcpt_123".to_string())]);
}
