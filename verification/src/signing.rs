//! Signing confirmation requests: the `confirm-request-v1` envelope, its
//! RS256 signature and the headers that carry it.
use vstd::prelude::*;
use vstd::string::*;

use crate::crypto::{
    base64_url, base64url_char, base64url_decode, base64url_encode, pkcs8_private_key_check, rs256_sign,
    rs256_signature, sha256, sha256_base64_url, signing_key_from_pem, DecodeOutcome,
};
use crate::error::{ConfirmSdkError, SdkError};
use crate::json::{canonical, canonical_json, json_text, JsonValue};
use crate::text::{
    append_decimal, decimal, lemma_decimal_digits, lemma_decimal_injective, str_eq, u64_to_decimal,
};
use crate::REQUESTER_SIGNATURE_ALGORITHM;

verus! {

/// The signed envelope of a confirmation request.
#[derive(Clone, Debug, PartialEq, Eq)]
pub struct SignedRequestEnvelope {
    pub requester_id: String,
    pub key_id: String,
    pub algorithm: String,
    pub created_at: u64,
    pub expires_at: u64,
    pub nonce: String,
    pub origin: String,
    pub body_sha256: String,
    pub signature: String,
}

/// A signed request: the exact body text, its envelope, and the HTTP
/// headers that carry the envelope, ordered by name.
#[derive(Clone, Debug, PartialEq, Eq)]
pub struct SignedConfirmationRequest {
    pub body: String,
    pub envelope: SignedRequestEnvelope,
    pub headers: Vec<(String, String)>,
}

/// What signing needs: the requester, its key, the origin the request is
/// bound to, the validity window, a nonce, and the body as JSON.
#[derive(Debug)]
pub struct SignConfirmationRequestInput {
    pub requester_id: String,
    pub key_id: String,
    pub private_key_pem: String,
    pub origin: String,
    pub created_at: u64,
    pub expires_at: u64,
    pub nonce: String,
    pub body: JsonValue,
}

/// What signing needs, with the body already as text.
#[derive(Clone, Copy, Debug)]
pub struct SignConfirmationRequestBodyInput<'a> {
    pub body: &'a str,
    pub requester_id: &'a str,
    pub key_id: &'a str,
    pub private_key_pem: &'a str,
    pub origin: &'a str,
    pub created_at: u64,
    pub expires_at: u64,
    pub nonce: &'a str,
}

/// The text that a requester signs: a `confirm-request-v1` line, then one
/// `name:value` line for each signed field, in a fixed order.
pub open spec fn payload_text(
    requester_id: Seq<char>,
    key_id: Seq<char>,
    algorithm: Seq<char>,
    created_at: u64,
    expires_at: u64,
    nonce: Seq<char>,
    origin: Seq<char>,
    body_sha256: Seq<char>,
) -> Seq<char> {
    "confirm-request-v1\nrequester_id:"@ + requester_id + "\nkey_id:"@ + key_id
        + "\nalgorithm:"@ + algorithm + "\ncreated_at:"@ + decimal(created_at as nat)
        + "\nexpires_at:"@ + decimal(expires_at as nat) + "\nnonce:"@ + nonce + "\norigin:"@
        + origin + "\nbody_sha256:"@ + body_sha256
}

/// The text that a requester signs for an envelope: its fields but the
/// signature.
pub open spec fn envelope_payload(e: SignedRequestEnvelope) -> Seq<char> {
    payload_text(
        e.requester_id@,
        e.key_id@,
        e.algorithm@,
        e.created_at,
        e.expires_at,
        e.nonce@,
        e.origin@,
        e.body_sha256@,
    )
}

/// The text signed for a request with the given fields and body text:
/// `RS256`, and the `sha256:` hash of the body's UTF-8 bytes.
pub open spec fn request_payload(
    requester_id: Seq<char>,
    key_id: Seq<char>,
    created_at: u64,
    expires_at: u64,
    nonce: Seq<char>,
    origin: Seq<char>,
    body: Seq<char>,
) -> Seq<char> {
    payload_text(
        requester_id,
        key_id,
        REQUESTER_SIGNATURE_ALGORITHM@,
        created_at,
        expires_at,
        nonce,
        origin,
        body_hash_text(vstd::utf8::encode_utf8(body)),
    )
}

/// The text signed for `input`.
pub open spec fn input_payload(input: SignConfirmationRequestBodyInput) -> Seq<char> {
    request_payload(
        input.requester_id@,
        input.key_id@,
        input.created_at,
        input.expires_at,
        input.nonce@,
        input.origin@,
        input.body@,
    )
}

/// The `sha256:<base64url>` hash of a request body.
pub open spec fn body_hash_text(body: Seq<u8>) -> Seq<char> {
    "sha256:"@ + base64url_encode(sha256(body))
}

/// The headers that carry an envelope, ordered by name.
pub open spec fn envelope_headers(e: SignedRequestEnvelope) -> Seq<(Seq<char>, Seq<char>)> {
    seq![
        ("content-type"@, "application/json"@),
        ("x-confirm-algorithm"@, e.algorithm@),
        ("x-confirm-body-sha256"@, e.body_sha256@),
        ("x-confirm-created-at"@, decimal(e.created_at as nat)),
        ("x-confirm-expires-at"@, decimal(e.expires_at as nat)),
        ("x-confirm-key-id"@, e.key_id@),
        ("x-confirm-nonce"@, e.nonce@),
        ("x-confirm-origin"@, e.origin@),
        ("x-confirm-requester-id"@, e.requester_id@),
        ("x-confirm-signature"@, e.signature@),
    ]
}

/// Views of a list of headers.
pub open spec fn header_views(h: Seq<(String, String)>) -> Seq<(Seq<char>, Seq<char>)> {
    h.map_values(|p: (String, String)| (p.0@, p.1@))
}

/// Whether `r` is the request signed from `input`: the body as given; an
/// envelope with the input's fields, `RS256`, the body's hash, and the
/// base64url RS256 signature of its payload under the input's key; and the
/// headers of that envelope.
pub open spec fn signed_from(r: SignedConfirmationRequest, input: SignConfirmationRequestBodyInput) -> bool {
    let e = r.envelope;
    &&& r.body@ == input.body@
    &&& e.requester_id@ == input.requester_id@
    &&& e.key_id@ == input.key_id@
    &&& e.algorithm@ == REQUESTER_SIGNATURE_ALGORITHM@
    &&& e.created_at == input.created_at
    &&& e.expires_at == input.expires_at
    &&& e.nonce@ == input.nonce@
    &&& e.origin@ == input.origin@
    &&& e.body_sha256@ == body_hash_text(vstd::utf8::encode_utf8(input.body@))
    &&& rs256_signature(input.private_key_pem@, vstd::utf8::encode_utf8(envelope_payload(e)))
        matches Ok(sig) && e.signature@ == base64url_encode(sig)
    &&& header_views(r.headers@) == envelope_headers(e)
}

/// The `sha256:<base64url>` hash of a request body: `sha256:` and 43
/// characters of the URL-safe base64 alphabet.
pub fn signed_request_body_sha256(input: &[u8]) -> (h: String)
    ensures
        h@ == body_hash_text(input@),
        h@.len() == 50,
        h@.subrange(0, 7) == "sha256:"@,
        forall|i: int| 7 <= i < 50 ==> base64url_char(#[trigger] h@[i]),
{
    let mut h = String::from_str("sha256:");
    let digest = sha256_base64_url(input);
    h.append(digest.as_str());
    proof {
        reveal_strlit("sha256:");
        assert(h@.subrange(0, 7) =~= "sha256:"@);
        assert forall|i: int| 7 <= i < 50 implies base64url_char(#[trigger] h@[i]) by {
            assert(h@[i] == digest@[i - 7]);
        }
    }
    h
}

/// The text that a requester signs for `envelope` (see `envelope_payload`).
pub fn requester_signature_payload(envelope: &SignedRequestEnvelope) -> (p: String)
    ensures
        p@ == envelope_payload(*envelope),
{
    let mut p = String::from_str("confirm-request-v1\nrequester_id:");
    p.append(envelope.requester_id.as_str());
    p.append("\nkey_id:");
    p.append(envelope.key_id.as_str());
    p.append("\nalgorithm:");
    p.append(envelope.algorithm.as_str());
    p.append("\ncreated_at:");
    append_decimal(&mut p, envelope.created_at);
    p.append("\nexpires_at:");
    append_decimal(&mut p, envelope.expires_at);
    p.append("\nnonce:");
    p.append(envelope.nonce.as_str());
    p.append("\norigin:");
    p.append(envelope.origin.as_str());
    p.append("\nbody_sha256:");
    p.append(envelope.body_sha256.as_str());
    p
}

fn header(name: &str, value: &String) -> (h: (String, String))
    ensures
        h.0@ == name@,
        h.1@ == value@,
{
    (String::from_str(name), value.clone())
}

/// The headers of `envelope_headers`.
fn envelope_header_list(e: &SignedRequestEnvelope) -> (h: Vec<(String, String)>)
    ensures
        header_views(h@) == envelope_headers(*e),
{
    let mut h: Vec<(String, String)> = Vec::new();
    h.push(header("content-type", &String::from_str("application/json")));
    h.push(header("x-confirm-algorithm", &e.algorithm));
    h.push(header("x-confirm-body-sha256", &e.body_sha256));
    h.push(header("x-confirm-created-at", &u64_to_decimal(e.created_at)));
    h.push(header("x-confirm-expires-at", &u64_to_decimal(e.expires_at)));
    h.push(header("x-confirm-key-id", &e.key_id));
    h.push(header("x-confirm-nonce", &e.nonce));
    h.push(header("x-confirm-origin", &e.origin));
    h.push(header("x-confirm-requester-id", &e.requester_id));
    h.push(header("x-confirm-signature", &e.signature));
    assert(header_views(h@) =~= envelope_headers(*e));
    h
}

impl SignedConfirmationRequest {
    /// The value of the header named `name`.
    pub fn header(&self, name: &str) -> (r: Option<String>)
        ensures
            match r {
                Some(v) => exists|i: int|
                    0 <= i < self.headers@.len() && (#[trigger] self.headers@[i]).0@ == name@
                        && self.headers@[i].1@ == v@,
                None => forall|i: int|
                    0 <= i < self.headers@.len() ==> (#[trigger] self.headers@[i]).0@ != name@,
            },
    {
        let n = self.headers.len();
        for i in 0..n
            invariant
                n == self.headers@.len(),
                forall|k: int| 0 <= k < i ==> (#[trigger] self.headers@[k]).0@ != name@,
        {
            if str_eq(self.headers[i].0.as_str(), name) {
                return Some(self.headers[i].1.clone());
            }
        }
        None
    }
}

/// Signs a request whose body is given as text. Fails when the private key
/// is not a PKCS#8 PEM RSA key, or when RS256 cannot sign with it;
/// otherwise the result is `signed_from` the input, and its envelope's
/// signature decodes to the RS256 signature of the envelope's payload.
pub fn sign_confirmation_request_body(input: SignConfirmationRequestBodyInput<'_>) -> (res: Result<
    SignedConfirmationRequest,
    ConfirmSdkError,
>)
    ensures
        match pkcs8_private_key_check(input.private_key_pem@) {
            Err(m) => res matches Err(e) && e@ == SdkError::InvalidPrivateKey(m),
            Ok(_) => match rs256_signature(
                input.private_key_pem@,
                vstd::utf8::encode_utf8(input_payload(input)),
            ) {
                Err(m) => res matches Err(e) && e@ == SdkError::InvalidPrivateKey(m),
                Ok(sig) => res matches Ok(r) && signed_from(r, input) && base64url_decode(
                    r.envelope.signature@,
                ) == DecodeOutcome::Ok(sig),
            },
        },
{
    let key = match signing_key_from_pem(input.private_key_pem) {
        Ok(k) => k,
        Err(m) => {
            return Err(ConfirmSdkError::InvalidPrivateKey(m));
        },
    };
    let mut envelope = SignedRequestEnvelope {
        requester_id: String::from_str(input.requester_id),
        key_id: String::from_str(input.key_id),
        algorithm: String::from_str(REQUESTER_SIGNATURE_ALGORITHM),
        created_at: input.created_at,
        expires_at: input.expires_at,
        nonce: String::from_str(input.nonce),
        origin: String::from_str(input.origin),
        body_sha256: signed_request_body_sha256(input.body.as_bytes()),
        signature: String::new(),
    };
    let payload = requester_signature_payload(&envelope);
    assert(payload@ == input_payload(input));
    let signature = match rs256_sign(key, payload.as_str().as_bytes()) {
        Ok(sig) => sig,
        Err(m) => {
            return Err(ConfirmSdkError::InvalidPrivateKey(m));
        },
    };
    envelope.signature = base64_url(signature.as_slice());
    let headers = envelope_header_list(&envelope);
    Ok(SignedConfirmationRequest { body: String::from_str(input.body), envelope, headers })
}

/// Signs a request: the body is written as canonical JSON, then signed as
/// by `sign_confirmation_request_body`.
pub fn sign_confirmation_request(input: SignConfirmationRequestInput) -> (res: Result<
    SignedConfirmationRequest,
    ConfirmSdkError,
>)
    ensures
        match pkcs8_private_key_check(input.private_key_pem@) {
            Err(m) => res matches Err(e) && e@ == SdkError::InvalidPrivateKey(m),
            Ok(_) => match rs256_signature(
                input.private_key_pem@,
                vstd::utf8::encode_utf8(
                    request_payload(
                        input.requester_id@,
                        input.key_id@,
                        input.created_at,
                        input.expires_at,
                        input.nonce@,
                        input.origin@,
                        json_text(canonical(input.body@)),
                    ),
                ),
            ) {
                Err(m) => res matches Err(e) && e@ == SdkError::InvalidPrivateKey(m),
                Ok(sig) => res matches Ok(r) && r.body@ == json_text(canonical(input.body@))
                    && r.envelope.requester_id@ == input.requester_id@ && r.envelope.key_id@
                    == input.key_id@ && r.envelope.algorithm@ == REQUESTER_SIGNATURE_ALGORITHM@
                    && r.envelope.created_at == input.created_at && r.envelope.expires_at
                    == input.expires_at && r.envelope.nonce@ == input.nonce@ && r.envelope.origin@
                    == input.origin@ && r.envelope.body_sha256@ == body_hash_text(
                    vstd::utf8::encode_utf8(json_text(canonical(input.body@))),
                ) && r.envelope.signature@ == base64url_encode(sig) && header_views(r.headers@)
                    == envelope_headers(r.envelope),
            },
        },
{
    let body = canonical_json(&input.body);
    sign_confirmation_request_body(
        SignConfirmationRequestBodyInput {
            body: body.as_str(),
            requester_id: input.requester_id.as_str(),
            key_id: input.key_id.as_str(),
            private_key_pem: input.private_key_pem.as_str(),
            origin: input.origin.as_str(),
            created_at: input.created_at,
            expires_at: input.expires_at,
            nonce: input.nonce.as_str(),
        },
    )
}

/// A signed request is bound to its origin: the `x-confirm-origin` header
/// carries the origin, and the signed payload ends with the `origin:` line
/// of that origin followed by the body hash line.
pub proof fn lemma_signed_request_binds_origin(
    r: SignedConfirmationRequest,
    input: SignConfirmationRequestBodyInput,
)
    requires
        signed_from(r, input),
    ensures
        header_views(r.headers@).contains(("x-confirm-origin"@, input.origin@)),
        exists|before: Seq<char>|
            envelope_payload(r.envelope) == before + "\norigin:"@ + input.origin@
                + "\nbody_sha256:"@ + r.envelope.body_sha256@,
{
    let e = r.envelope;
    assert(header_views(r.headers@)[7] == ("x-confirm-origin"@, input.origin@));
    let before = "confirm-request-v1\nrequester_id:"@ + e.requester_id@ + "\nkey_id:"@ + e.key_id@
        + "\nalgorithm:"@ + e.algorithm@ + "\ncreated_at:"@ + decimal(e.created_at as nat)
        + "\nexpires_at:"@ + decimal(e.expires_at as nat) + "\nnonce:"@ + e.nonce@;
    assert(envelope_payload(e) == before + "\norigin:"@ + input.origin@ + "\nbody_sha256:"@
        + e.body_sha256@);
}

/// Whether a text holds no line break.
pub open spec fn single_line(s: Seq<char>) -> bool {
    !s.contains('\n')
}

/// Whether no text field of an envelope that is signed holds a line break.
pub open spec fn signed_fields_single_line(e: SignedRequestEnvelope) -> bool {
    &&& single_line(e.requester_id@)
    &&& single_line(e.key_id@)
    &&& single_line(e.algorithm@)
    &&& single_line(e.nonce@)
    &&& single_line(e.origin@)
    &&& single_line(e.body_sha256@)
}

/// Whether two envelopes agree on every field but the signature.
pub open spec fn same_signed_fields(e1: SignedRequestEnvelope, e2: SignedRequestEnvelope) -> bool {
    &&& e1.requester_id@ == e2.requester_id@
    &&& e1.key_id@ == e2.key_id@
    &&& e1.algorithm@ == e2.algorithm@
    &&& e1.created_at == e2.created_at
    &&& e1.expires_at == e2.expires_at
    &&& e1.nonce@ == e2.nonce@
    &&& e1.origin@ == e2.origin@
    &&& e1.body_sha256@ == e2.body_sha256@
}

/// The payload of `e` from its `i`-th line on (the lines after the first
/// two), each line with the line break before it.
spec fn payload_tail(e: SignedRequestEnvelope, i: nat) -> Seq<char>
    decreases 7 - i,
{
    if i <= 1 {
        "\nkey_id:"@ + e.key_id@ + payload_tail(e, 2)
    } else if i == 2 {
        "\nalgorithm:"@ + e.algorithm@ + payload_tail(e, 3)
    } else if i == 3 {
        "\ncreated_at:"@ + decimal(e.created_at as nat) + payload_tail(e, 4)
    } else if i == 4 {
        "\nexpires_at:"@ + decimal(e.expires_at as nat) + payload_tail(e, 5)
    } else if i == 5 {
        "\nnonce:"@ + e.nonce@ + payload_tail(e, 6)
    } else if i == 6 {
        "\norigin:"@ + e.origin@ + payload_tail(e, 7)
    } else {
        "\nbody_sha256:"@ + e.body_sha256@
    }
}

proof fn lemma_payload_tails(e: SignedRequestEnvelope)
    ensures
        envelope_payload(e) == "confirm-request-v1\nrequester_id:"@ + e.requester_id@
            + payload_tail(e, 1),
        forall|i: nat| 1 <= i <= 7 ==> #[trigger] payload_tail(e, i).len() > 0 && payload_tail(e, i)[0]
            == '\n',
{
    reveal_strlit("\nkey_id:");
    reveal_strlit("\nalgorithm:");
    reveal_strlit("\ncreated_at:");
    reveal_strlit("\nexpires_at:");
    reveal_strlit("\nnonce:");
    reveal_strlit("\norigin:");
    reveal_strlit("\nbody_sha256:");
    reveal_with_fuel(payload_tail, 8);
    assert(envelope_payload(e) =~= "confirm-request-v1\nrequester_id:"@ + e.requester_id@
        + payload_tail(e, 1));
}

proof fn lemma_decimal_single_line(n: nat)
    ensures
        single_line(decimal(n)),
{
    lemma_decimal_digits(n);
    if decimal(n).contains('\n') {
        let i = choose|i: int| 0 <= i < decimal(n).len() && decimal(n)[i] == '\n';
        assert(48 <= decimal(n)[i] as u32);
    }
}

/// Texts `head + f + t` that agree, where the fields `f` hold no line break
/// and the rests `t` start with one, agree on the field and on the rest.
proof fn lemma_peel_line(head: Seq<char>, f1: Seq<char>, f2: Seq<char>, t1: Seq<char>, t2: Seq<char>)
    requires
        head + f1 + t1 == head + f2 + t2,
        single_line(f1),
        single_line(f2),
        t1.len() > 0 && t1[0] == '\n',
        t2.len() > 0 && t2[0] == '\n',
    ensures
        f1 == f2,
        t1 == t2,
{
    let x = head + f1 + t1;
    let y = head + f2 + t2;
    let h = head.len() as int;
    if f1.len() < f2.len() {
        assert(x[h + f1.len()] == '\n');
        assert(y[h + f1.len()] == f2[f1.len() as int]);
        assert(f2.contains(f2[f1.len() as int]));
    } else if f2.len() < f1.len() {
        assert(y[h + f2.len()] == '\n');
        assert(x[h + f2.len()] == f1[f2.len() as int]);
        assert(f1.contains(f1[f2.len() as int]));
    }
    assert(f1 =~= x.subrange(h, h + f1.len()));
    assert(f2 =~= y.subrange(h, h + f2.len()));
    assert(t1 =~= x.subrange(h + f1.len(), x.len() as int));
    assert(t2 =~= y.subrange(h + f2.len(), y.len() as int));
}

/// The signed payload determines the eight signed fields: when no text
/// field holds a line break, two envelopes have the same payload exactly
/// when they agree on every field but the signature.
pub proof fn lemma_payload_determines_fields(e1: SignedRequestEnvelope, e2: SignedRequestEnvelope)
    requires
        signed_fields_single_line(e1),
        signed_fields_single_line(e2),
    ensures
        envelope_payload(e1) == envelope_payload(e2) <==> same_signed_fields(e1, e2),
{
    if envelope_payload(e1) == envelope_payload(e2) {
        lemma_payload_tails(e1);
        lemma_payload_tails(e2);
        lemma_decimal_single_line(e1.created_at as nat);
        lemma_decimal_single_line(e2.created_at as nat);
        lemma_decimal_single_line(e1.expires_at as nat);
        lemma_decimal_single_line(e2.expires_at as nat);
        reveal_with_fuel(payload_tail, 2);
        lemma_peel_line(
            "confirm-request-v1\nrequester_id:"@,
            e1.requester_id@,
            e2.requester_id@,
            payload_tail(e1, 1),
            payload_tail(e2, 1),
        );
        assert(payload_tail(e1, 2).len() > 0 && payload_tail(e2, 2).len() > 0);
        lemma_peel_line("\nkey_id:"@, e1.key_id@, e2.key_id@, payload_tail(e1, 2), payload_tail(e2, 2));
        assert(payload_tail(e1, 3).len() > 0 && payload_tail(e2, 3).len() > 0);
        lemma_peel_line(
            "\nalgorithm:"@,
            e1.algorithm@,
            e2.algorithm@,
            payload_tail(e1, 3),
            payload_tail(e2, 3),
        );
        assert(payload_tail(e1, 4).len() > 0 && payload_tail(e2, 4).len() > 0);
        lemma_peel_line(
            "\ncreated_at:"@,
            decimal(e1.created_at as nat),
            decimal(e2.created_at as nat),
            payload_tail(e1, 4),
            payload_tail(e2, 4),
        );
        lemma_decimal_injective(e1.created_at as nat, e2.created_at as nat);
        assert(payload_tail(e1, 5).len() > 0 && payload_tail(e2, 5).len() > 0);
        lemma_peel_line(
            "\nexpires_at:"@,
            decimal(e1.expires_at as nat),
            decimal(e2.expires_at as nat),
            payload_tail(e1, 5),
            payload_tail(e2, 5),
        );
        lemma_decimal_injective(e1.expires_at as nat, e2.expires_at as nat);
        assert(payload_tail(e1, 6).len() > 0 && payload_tail(e2, 6).len() > 0);
        lemma_peel_line("\nnonce:"@, e1.nonce@, e2.nonce@, payload_tail(e1, 6), payload_tail(e2, 6));
        assert(payload_tail(e1, 7).len() > 0 && payload_tail(e2, 7).len() > 0);
        lemma_peel_line(
            "\norigin:"@,
            e1.origin@,
            e2.origin@,
            payload_tail(e1, 7),
            payload_tail(e2, 7),
        );
        let label = "\nbody_sha256:"@;
        assert(e1.body_sha256@ =~= payload_tail(e1, 7).subrange(label.len() as int, payload_tail(e1, 7).len() as int));
        assert(e2.body_sha256@ =~= payload_tail(e2, 7).subrange(label.len() as int, payload_tail(e2, 7).len() as int));
    }
}

/// Whether the headers `h` have exactly one value under `name`, and it is
/// `value`.
pub open spec fn header_is(h: Seq<(Seq<char>, Seq<char>)>, name: Seq<char>, value: Seq<char>) -> bool {
    &&& h.contains((name, value))
    &&& forall|i: int| 0 <= i < h.len() && (#[trigger] h[i]).0 == name ==> h[i].1 == value
}

/// Each header of a signed request carries what it is named after: the
/// JSON content type, and the envelope fields taken from the input (the
/// requester, its key, `RS256`, the validity window in decimal, the nonce,
/// the origin and the body's `sha256:` hash), and the envelope's signature.
pub proof fn lemma_signed_headers_carry_fields(
    r: SignedConfirmationRequest,
    input: SignConfirmationRequestBodyInput,
)
    requires
        signed_from(r, input),
    ensures
        header_is(header_views(r.headers@), "content-type"@, "application/json"@),
        header_is(
            header_views(r.headers@),
            "x-confirm-algorithm"@,
            REQUESTER_SIGNATURE_ALGORITHM@,
        ),
        header_is(
            header_views(r.headers@),
            "x-confirm-body-sha256"@,
            body_hash_text(vstd::utf8::encode_utf8(input.body@)),
        ),
        header_is(
            header_views(r.headers@),
            "x-confirm-created-at"@,
            decimal(input.created_at as nat),
        ),
        header_is(
            header_views(r.headers@),
            "x-confirm-expires-at"@,
            decimal(input.expires_at as nat),
        ),
        header_is(header_views(r.headers@), "x-confirm-key-id"@, input.key_id@),
        header_is(header_views(r.headers@), "x-confirm-nonce"@, input.nonce@),
        header_is(header_views(r.headers@), "x-confirm-origin"@, input.origin@),
        header_is(header_views(r.headers@), "x-confirm-requester-id"@, input.requester_id@),
        header_is(header_views(r.headers@), "x-confirm-signature"@, r.envelope.signature@),
{
    reveal_strlit("content-type");
    reveal_strlit("x-confirm-algorithm");
    reveal_strlit("x-confirm-body-sha256");
    reveal_strlit("x-confirm-created-at");
    reveal_strlit("x-confirm-expires-at");
    reveal_strlit("x-confirm-key-id");
    reveal_strlit("x-confirm-nonce");
    reveal_strlit("x-confirm-origin");
    reveal_strlit("x-confirm-requester-id");
    reveal_strlit("x-confirm-signature");
    let h = header_views(r.headers@);
    let names = seq![
        "content-type"@,
        "x-confirm-algorithm"@,
        "x-confirm-body-sha256"@,
        "x-confirm-created-at"@,
        "x-confirm-expires-at"@,
        "x-confirm-key-id"@,
        "x-confirm-nonce"@,
        "x-confirm-origin"@,
        "x-confirm-requester-id"@,
        "x-confirm-signature"@,
    ];
    assert(h.len() == 10);
    assert forall|i: int| 0 <= i < 10 implies (#[trigger] h[i]).0 == names[i] by {}
    assert forall|i: int, k: int| 0 <= i < k < 10 implies (#[trigger] h[i]).0 != (
    #[trigger] h[k]).0 by {
        let (a, b) = (names[i], names[k]);
        if a.len() == b.len() {
            assert(a[10] != b[10] || a[0] != b[0]);
        }
    }
    assert(h.contains(h[0]));
    assert(h.contains(h[1]));
    assert(h.contains(h[2]));
    assert(h.contains(h[3]));
    assert(h.contains(h[4]));
    assert(h.contains(h[5]));
    assert(h.contains(h[6]));
    assert(h.contains(h[7]));
    assert(h.contains(h[8]));
    assert(h.contains(h[9]));
}

} // verus!
