//! Verification of `confirm-response+jwt` tokens against a JWKS, the checks
//! on their claims, and replay protection.
use vstd::prelude::*;
use vstd::string::*;

use crate::crypto::{
    base64_url_decode, base64url_decode, current_unix_seconds, rs256_signature_valid, rs256_verify, UnixTime,
    rsa_public_key_check, verifying_key_from_components, Rs256VerifyingKey,
};
use crate::error::{outcome_is, ConfirmSdkError, SdkError};
use crate::text::{blank, is_blank, split_char, split_on, str_eq, string_views};
use crate::{CONFIRM_RESPONSE_TOKEN_TYPE, REQUESTER_SIGNATURE_ALGORITHM};

verus! {

/// A JSON Web Key Set.
#[derive(Clone, Debug)]
pub struct Jwks {
    pub keys: Vec<Jwk>,
}

/// An RSA JSON Web Key.
#[derive(Clone, Debug)]
pub struct Jwk {
    pub kty: String,
    pub kid: Option<String>,
    pub alg: Option<String>,
    pub key_use: Option<String>,
    pub n: String,
    pub e: String,
}

/// The protected header of a response token.
#[derive(Clone, Debug, PartialEq, Eq)]
pub struct JwtHeader {
    pub alg: String,
    pub typ: Option<String>,
    pub kid: Option<String>,
}

/// The claims of a response token.
#[derive(Clone, Debug, PartialEq, Eq)]
pub struct ConfirmationResponseClaims {
    pub iss: Option<String>,
    pub aud: String,
    pub sub: Option<String>,
    pub request_id: Option<String>,
    pub receipt_id: String,
    pub workflow_template_id: String,
    pub decision: String,
    pub confirmed_at: Option<u64>,
    pub iat: Option<u64>,
    pub exp: Option<u64>,
    pub jti: Option<String>,
    pub artifact_set_hash: Option<String>,
    pub registered_origin: Option<String>,
}

/// What a verification expects of a token. `None` skips a check; `now`
/// defaults to the system clock.
#[derive(Clone, Debug)]
pub struct VerifyConfirmationResponseInput<'a> {
    pub issuer: Option<&'a str>,
    pub audience: Option<&'a str>,
    pub workflow_template_id: Option<&'a str>,
    pub registered_origin: Option<&'a str>,
    pub now: Option<u64>,
    pub require_confirmed: bool,
}

impl<'a> Default for VerifyConfirmationResponseInput<'a> {
    fn default() -> (r: Self)
        ensures
            r.issuer is None,
            r.audience is None,
            r.workflow_template_id is None,
            r.registered_origin is None,
            r.now is None,
            !r.require_confirmed,
    {
        VerifyConfirmationResponseInput {
            issuer: None,
            audience: None,
            workflow_template_id: None,
            registered_origin: None,
            now: None,
            require_confirmed: false,
        }
    }
}

/// A token whose signature and claims passed verification.
#[derive(Clone, Debug, PartialEq, Eq)]
pub struct VerifiedConfirmationResponse {
    pub header: JwtHeader,
    pub claims: ConfirmationResponseClaims,
}

/// The view of an optional text.
pub open spec fn opt_text(o: Option<String>) -> Option<Seq<char>> {
    match o {
        Some(s) => Some(s@),
        None => None,
    }
}

/// The view of an optional borrowed text.
pub open spec fn opt_str(o: Option<&str>) -> Option<Seq<char>> {
    match o {
        Some(s) => Some(s@),
        None => None,
    }
}

/// Index of the first key whose `kid` is `kid`.
pub open spec fn find_jwk(keys: Seq<Jwk>, kid: Seq<char>) -> Option<int>
    decreases keys.len(),
{
    if keys.len() == 0 {
        None
    } else if opt_text(keys[0].kid) == Some(kid) {
        Some(0)
    } else {
        match find_jwk(keys.drop_first(), kid) {
            Some(i) => Some(i + 1),
            None => None,
        }
    }
}

proof fn lemma_find_jwk(keys: Seq<Jwk>, kid: Seq<char>, p: int)
    requires
        0 <= p <= keys.len(),
        forall|j: int| 0 <= j < p ==> opt_text(#[trigger] keys[j].kid) != Some(kid),
        p < keys.len() ==> opt_text(keys[p].kid) == Some(kid),
    ensures
        find_jwk(keys, kid) == (if p < keys.len() {
            Some(p)
        } else {
            None::<int>
        }),
    decreases keys.len(),
{
    if keys.len() > 0 && p > 0 {
        let t = keys.drop_first();
        assert forall|j: int| 0 <= j < p - 1 implies opt_text(#[trigger] t[j].kid) != Some(kid) by {
            assert(t[j] == keys[j + 1]);
        }
        assert(opt_text(keys[0].kid) != Some(kid));
        lemma_find_jwk(t, kid, p - 1);
    }
}

/// The header checks, in order: the token type, the algorithm, a key id,
/// a key with that id, and an algorithm on that key that agrees. The
/// result is the index of the key.
pub open spec fn header_outcome(header: JwtHeader, keys: Seq<Jwk>) -> Result<int, SdkError> {
    if opt_text(header.typ) != Some(CONFIRM_RESPONSE_TOKEN_TYPE@) {
        Err(
            SdkError::UnexpectedTokenType(
                match header.typ {
                    Some(t) => t@,
                    None => "missing"@,
                },
            ),
        )
    } else if header.alg@ != REQUESTER_SIGNATURE_ALGORITHM@ {
        Err(SdkError::UnsupportedTokenAlgorithm(header.alg@))
    } else {
        match header.kid {
            None => Err(SdkError::MissingTokenKeyId),
            Some(kid) => match find_jwk(keys, kid@) {
                None => Err(SdkError::MissingJwk(kid@)),
                Some(i) => if keys[i].alg matches Some(a) && a@ != header.alg@ {
                    Err(SdkError::JwkAlgorithmMismatch(kid@))
                } else {
                    Ok(i)
                },
            },
        }
    }
}

/// The public key of a JWK: its type must be RSA, and its base64url
/// modulus and exponent must decode and form a key. The result is the
/// decoded modulus and exponent.
pub open spec fn jwk_key_outcome(jwk: Jwk) -> Result<(Seq<u8>, Seq<u8>), SdkError> {
    if jwk.kty@ != "RSA"@ {
        Err(SdkError::InvalidPublicKey("unsupported kty "@ + jwk.kty@))
    } else {
        match base64url_decode(jwk.n@) {
            Err(m) => Err(SdkError::InvalidBase64Url(m)),
            Ok(n) => match base64url_decode(jwk.e@) {
                Err(m) => Err(SdkError::InvalidBase64Url(m)),
                Ok(e) => match rsa_public_key_check(n, e) {
                    Err(m) => Err(SdkError::InvalidPublicKey(m)),
                    Ok(_) => Ok((n, e)),
                },
            },
        }
    }
}

/// The bytes that a token's signature covers: the UTF-8 of the header
/// segment, a dot, and the payload segment.
pub open spec fn signing_input(parts: Seq<Seq<char>>) -> Seq<u8> {
    vstd::utf8::encode_utf8(parts[0] + seq!['.'] + parts[1])
}

/// Decoding the header segment of a token: a token has three segments
/// separated by dots, and the first is base64url.
pub open spec fn header_segment_outcome(token: Seq<char>) -> Result<Seq<u8>, SdkError> {
    let parts = split_on(token, '.');
    if parts.len() != 3 {
        Err(SdkError::InvalidJwtShape)
    } else {
        match base64url_decode(parts[0]) {
            Ok(b) => Ok(b),
            Err(m) => Err(SdkError::InvalidBase64Url(m)),
        }
    }
}

/// Checking a token's header and signature, given its parsed header: the
/// header checks, the key, the decoded signature, the signature over the
/// first two segments, and last the decoded payload segment, which is the
/// result.
pub open spec fn signature_outcome(token: Seq<char>, header: JwtHeader, keys: Seq<Jwk>) -> Result<
    Seq<u8>,
    SdkError,
> {
    let parts = split_on(token, '.');
    if parts.len() != 3 {
        Err(SdkError::InvalidJwtShape)
    } else {
        match header_outcome(header, keys) {
            Err(e) => Err(e),
            Ok(i) => match jwk_key_outcome(keys[i]) {
                Err(e) => Err(e),
                Ok((n, e)) => match base64url_decode(parts[2]) {
                    Err(m) => Err(SdkError::InvalidBase64Url(m)),
                    Ok(sig) => if !rs256_signature_valid(n, e, signing_input(parts), sig) {
                        Err(SdkError::InvalidTokenSignature)
                    } else {
                        match base64url_decode(parts[1]) {
                            Err(m) => Err(SdkError::InvalidBase64Url(m)),
                            Ok(c) => Ok(c),
                        }
                    },
                },
            },
        }
    }
}

/// The checks on a token's claims at time `now`, in order: not expired,
/// issuer, audience, workflow template, decision, receipt id present,
/// registered origin.
pub open spec fn claims_outcome(
    claims: ConfirmationResponseClaims,
    input: VerifyConfirmationResponseInput,
    now: u64,
) -> Result<(), SdkError> {
    if claims.exp matches Some(exp) && exp <= now {
        Err(SdkError::TokenExpired)
    } else if input.issuer matches Some(iss) && opt_text(claims.iss) != Some(iss@) {
        Err(SdkError::IssuerMismatch)
    } else if input.audience matches Some(aud) && claims.aud@ != aud@ {
        Err(SdkError::AudienceMismatch)
    } else if input.workflow_template_id matches Some(w) && claims.workflow_template_id@ != w@ {
        Err(SdkError::WorkflowTemplateMismatch)
    } else if input.require_confirmed && claims.decision@ != "confirmed"@ {
        Err(SdkError::DecisionNotConfirmed)
    } else if blank(claims.receipt_id@) {
        Err(SdkError::MissingReceiptId)
    } else if input.registered_origin matches Some(o) && opt_text(claims.registered_origin) != Some(
        o@,
    ) {
        Err(SdkError::RegisteredOriginMismatch)
    } else {
        Ok(())
    }
}

/// The replay key of a response: its `jti`, which must be present and not
/// blank.
pub open spec fn jti_outcome(claims: ConfirmationResponseClaims) -> Result<Seq<char>, SdkError> {
    match claims.jti {
        Some(j) => if blank(j@) {
            Err(SdkError::MissingJti)
        } else {
            Ok(j@)
        },
        None => Err(SdkError::MissingJti),
    }
}

fn opt_eq(a: &Option<String>, b: &str) -> (r: bool)
    ensures
        r == (opt_text(*a) == Some(b@)),
{
    match a {
        Some(x) => str_eq(x.as_str(), b),
        None => false,
    }
}

fn find_jwk_index(keys: &Vec<Jwk>, kid: &str) -> (r: Option<usize>)
    ensures
        match r {
            Some(i) => find_jwk(keys@, kid@) == Some(i as int) && i < keys@.len(),
            None => find_jwk(keys@, kid@) is None,
        },
{
    let n = keys.len();
    let mut p: usize = 0;
    while p < n
        invariant
            n == keys@.len(),
            p <= n,
            forall|j: int| 0 <= j < p ==> opt_text(#[trigger] keys@[j].kid) != Some(kid@),
        decreases n - p,
    {
        if opt_eq(&keys[p].kid, kid) {
            proof {
                lemma_find_jwk(keys@, kid@, p as int);
            }
            return Some(p);
        }
        p = p + 1;
    }
    proof {
        lemma_find_jwk(keys@, kid@, p as int);
    }
    None
}

/// The header checks of `header_outcome`, with the key they select.
fn check_header<'a>(header: &JwtHeader, jwks: &'a Jwks) -> (res: Result<&'a Jwk, ConfirmSdkError>)
    ensures
        match header_outcome(*header, jwks.keys@) {
            Ok(i) => res matches Ok(k) && *k == jwks.keys@[i],
            Err(e) => res matches Err(f) && f@ == e,
        },
{
    let typ_ok = opt_eq(&header.typ, CONFIRM_RESPONSE_TOKEN_TYPE);
    if !typ_ok {
        let shown = match &header.typ {
            Some(t) => t.clone(),
            None => String::from_str("missing"),
        };
        return Err(ConfirmSdkError::UnexpectedTokenType(shown));
    }
    if !str_eq(header.alg.as_str(), REQUESTER_SIGNATURE_ALGORITHM) {
        return Err(ConfirmSdkError::UnsupportedTokenAlgorithm(header.alg.clone()));
    }
    let kid = match &header.kid {
        Some(k) => k,
        None => {
            return Err(ConfirmSdkError::MissingTokenKeyId);
        },
    };
    let idx = match find_jwk_index(&jwks.keys, kid.as_str()) {
        Some(i) => i,
        None => {
            return Err(ConfirmSdkError::MissingJwk(kid.clone()));
        },
    };
    let jwk = &jwks.keys[idx];
    if let Some(a) = &jwk.alg {
        if !str_eq(a.as_str(), header.alg.as_str()) {
            return Err(ConfirmSdkError::JwkAlgorithmMismatch(kid.clone()));
        }
    }
    Ok(jwk)
}

/// The RSA public key of a JWK.
fn jwk_rsa_public_key(jwk: &Jwk) -> (res: Result<Rs256VerifyingKey, ConfirmSdkError>)
    ensures
        match jwk_key_outcome(*jwk) {
            Ok((n, e)) => res matches Ok(k) && k.modulus() == n && k.exponent() == e,
            Err(e) => res matches Err(f) && f@ == e,
        },
{
    if !str_eq(jwk.kty.as_str(), "RSA") {
        let mut m = String::from_str("unsupported kty ");
        m.append(jwk.kty.as_str());
        return Err(ConfirmSdkError::InvalidPublicKey(m));
    }
    let n = match base64_url_decode(jwk.n.as_str()) {
        Ok(v) => v,
        Err(m) => {
            return Err(ConfirmSdkError::InvalidBase64Url(m));
        },
    };
    let e = match base64_url_decode(jwk.e.as_str()) {
        Ok(v) => v,
        Err(m) => {
            return Err(ConfirmSdkError::InvalidBase64Url(m));
        },
    };
    match verifying_key_from_components(n.as_slice(), e.as_slice()) {
        Ok(k) => Ok(k),
        Err(m) => Err(ConfirmSdkError::InvalidPublicKey(m)),
    }
}

/// The first step of verifying a response token: it must have three
/// dot-separated segments, and the first must be base64url. The result is
/// the JSON text of the header, for the caller to parse.
pub fn decode_token_header(token: &str) -> (res: Result<Vec<u8>, ConfirmSdkError>)
    ensures
        outcome_is(res, header_segment_outcome(token@)),
{
    let parts = split_char(token, '.');
    if parts.len() != 3 {
        return Err(ConfirmSdkError::InvalidJwtShape);
    }
    assert(string_views(parts@)[0] == parts@[0]@);
    match base64_url_decode(parts[0].as_str()) {
        Ok(b) => Ok(b),
        Err(m) => Err(ConfirmSdkError::InvalidBase64Url(m)),
    }
}

/// The second step of verifying a response token, given its parsed header:
/// the header checks, the RSA key from the JWKS, and the RS256 signature
/// over the first two segments. The result is the JSON text of the claims,
/// for the caller to parse.
pub fn verify_token_signature(token: &str, header: &JwtHeader, jwks: &Jwks) -> (res: Result<
    Vec<u8>,
    ConfirmSdkError,
>)
    ensures
        outcome_is(res, signature_outcome(token@, *header, jwks.keys@)),
{
    let parts = split_char(token, '.');
    if parts.len() != 3 {
        return Err(ConfirmSdkError::InvalidJwtShape);
    }
    let ghost segs = split_on(token@, '.');
    assert(segs[0] == parts@[0]@ && segs[1] == parts@[1]@ && segs[2] == parts@[2]@);
    let jwk = check_header(header, jwks)?;
    let key = jwk_rsa_public_key(jwk)?;
    let sig = match base64_url_decode(parts[2].as_str()) {
        Ok(v) => v,
        Err(m) => {
            return Err(ConfirmSdkError::InvalidBase64Url(m));
        },
    };
    let mut signed = parts[0].clone();
    signed.append(".");
    signed.append(parts[1].as_str());
    proof {
        reveal_strlit(".");
    }
    assert(signed@ == segs[0] + seq!['.'] + segs[1]);
    if !rs256_verify(&key, signed.as_str().as_bytes(), sig.as_slice()) {
        return Err(ConfirmSdkError::InvalidTokenSignature);
    }
    match base64_url_decode(parts[1].as_str()) {
        Ok(c) => Ok(c),
        Err(m) => Err(ConfirmSdkError::InvalidBase64Url(m)),
    }
}

/// Where a verification records the responses it accepted, so that none is
/// accepted twice. A cache that keeps the model of `obeys_replay_model`
/// says, through `refusal`, which responses it refuses in a given state,
/// and with what error; one that does not promises nothing of its verdict.
pub trait ResponseReplayCache {
    /// Whether `check_and_store` keeps the model of `recorded` and
    /// `refusal`; a cache that does not say so promises nothing.
    open spec fn obeys_replay_model(&self) -> bool {
        false
    }

    /// The responses recorded so far, as (`jti`, receipt id) pairs.
    open spec fn recorded(&self) -> Set<(Seq<char>, Seq<char>)> {
        Set::empty()
    }

    /// The error with which the cache, in this state, refuses a response
    /// with this `jti` and receipt id, or `None` when it accepts it.
    open spec fn refusal(&self, jti: Seq<char>, receipt_id: Seq<char>) -> Option<SdkError> {
        None
    }

    /// Records the `jti` and receipt id of a response that the cache
    /// accepts; reports the refusal of one it refuses, recording nothing.
    fn check_and_store(&mut self, jti: &str, receipt_id: &str) -> (r: Result<(), ConfirmSdkError>)
        ensures
            old(self).obeys_replay_model() ==> match old(self).refusal(jti@, receipt_id@) {
                Some(e) => r matches Err(f) && f@ == e && final(self).recorded() == old(
                    self,
                ).recorded(),
                None => r is Ok && final(self).recorded() == old(self).recorded().insert(
                    (jti@, receipt_id@),
                ),
            },
    ;
}

/// Views of a list of (`jti`, receipt id) pairs.
pub open spec fn response_keys(v: Seq<(String, String)>) -> Seq<(Seq<char>, Seq<char>)> {
    v.map_values(|p: (String, String)| (p.0@, p.1@))
}

/// A replay cache in memory: the (`jti`, receipt id) pairs of the responses
/// it accepted.
#[derive(Clone, Debug)]
pub struct MemoryResponseReplayCache {
    responses: Vec<(String, String)>,
}

impl MemoryResponseReplayCache {
    /// Whether a response with this `jti` and receipt id repeats one that
    /// was recorded: the same `jti` or the same receipt id is enough.
    pub open spec fn is_replay(&self, jti: Seq<char>, receipt_id: Seq<char>) -> bool {
        exists|p: (Seq<char>, Seq<char>)|
            #[trigger] self.recorded().contains(p) && (p.0 == jti || p.1 == receipt_id)
    }

    /// An empty cache.
    pub fn new() -> (c: Self)
        ensures
            c.recorded() == Set::<(Seq<char>, Seq<char>)>::empty(),
    {
        let c = MemoryResponseReplayCache { responses: Vec::new() };
        assert(c.recorded() =~= Set::<(Seq<char>, Seq<char>)>::empty());
        c
    }

    /// Whether a recorded response has this `jti` or this receipt id.
    fn seen(&self, jti: &str, receipt_id: &str) -> (r: bool)
        ensures
            r == self.is_replay(jti@, receipt_id@),
    {
        let n = self.responses.len();
        for i in 0..n
            invariant
                n == self.responses@.len(),
                forall|k: int|
                    0 <= k < i ==> (#[trigger] self.responses@[k]).0@ != jti@
                        && self.responses@[k].1@ != receipt_id@,
        {
            if str_eq(self.responses[i].0.as_str(), jti) || str_eq(
                self.responses[i].1.as_str(),
                receipt_id,
            ) {
                assert(response_keys(self.responses@)[i as int] == (
                    self.responses@[i as int].0@,
                    self.responses@[i as int].1@,
                ));
                assert(self.recorded().contains(response_keys(self.responses@)[i as int]));
                return true;
            }
        }
        proof {
            if self.is_replay(jti@, receipt_id@) {
                let p = choose|p: (Seq<char>, Seq<char>)|
                    #[trigger] self.recorded().contains(p) && (p.0 == jti@ || p.1 == receipt_id@);
                let k = choose|k: int|
                    0 <= k < response_keys(self.responses@).len() && response_keys(
                        self.responses@,
                    )[k] == p;
                assert(self.responses@[k].0@ == p.0 && self.responses@[k].1@ == p.1);
            }
        }
        false
    }
}

impl Default for MemoryResponseReplayCache {
    fn default() -> (c: Self)
        ensures
            c.recorded() == Set::<(Seq<char>, Seq<char>)>::empty(),
    {
        MemoryResponseReplayCache::new()
    }
}

impl ResponseReplayCache for MemoryResponseReplayCache {
    open spec fn obeys_replay_model(&self) -> bool {
        true
    }

    closed spec fn recorded(&self) -> Set<(Seq<char>, Seq<char>)> {
        response_keys(self.responses@).to_set()
    }

    /// A memory cache refuses, as a replay, a response whose `jti` or
    /// receipt id was recorded before.
    open spec fn refusal(&self, jti: Seq<char>, receipt_id: Seq<char>) -> Option<SdkError> {
        if self.is_replay(jti, receipt_id) {
            Some(SdkError::ReplayDetected)
        } else {
            None
        }
    }

    fn check_and_store(&mut self, jti: &str, receipt_id: &str) -> (r: Result<(), ConfirmSdkError>) {
        if self.seen(jti, receipt_id) {
            return Err(ConfirmSdkError::ReplayDetected);
        }
        let ghost before = response_keys(self.responses@);
        self.responses.push((jti.to_owned(), receipt_id.to_owned()));
        proof {
            let after = response_keys(self.responses@);
            assert(after =~= before.push((jti@, receipt_id@)));
            assert forall|x: (Seq<char>, Seq<char>)| after.to_set().contains(x) <==> before.to_set().insert(
                (jti@, receipt_id@),
            ).contains(x) by {
                if after.to_set().contains(x) {
                    let k = choose|k: int| 0 <= k < after.len() && after[k] == x;
                    if k < before.len() {
                        assert(before[k] == x);
                    }
                }
                if before.to_set().contains(x) {
                    let k = choose|k: int| 0 <= k < before.len() && before[k] == x;
                    assert(after[k] == x);
                }
                if x == (jti@, receipt_id@) {
                    assert(after[before.len() as int] == x);
                }
            }
            assert(after.to_set() =~= before.to_set().insert((jti@, receipt_id@)));
        }
        Ok(())
    }
}

/// An empty memory cache refuses no response.
pub proof fn lemma_empty_cache_accepts(c: MemoryResponseReplayCache, jti: Seq<char>, receipt_id: Seq<char>)
    requires
        c.recorded() == Set::<(Seq<char>, Seq<char>)>::empty(),
    ensures
        c.refusal(jti, receipt_id) is None,
{
}

/// Once a memory cache has recorded a response, it refuses as a replay
/// every later response with the same `jti` or the same receipt id.
pub proof fn lemma_accepted_response_is_replay(
    before: MemoryResponseReplayCache,
    after: MemoryResponseReplayCache,
    jti: Seq<char>,
    receipt_id: Seq<char>,
    other_jti: Seq<char>,
    other_receipt_id: Seq<char>,
)
    requires
        after.recorded() == before.recorded().insert((jti, receipt_id)),
    ensures
        after.refusal(jti, other_receipt_id) == Some(SdkError::ReplayDetected),
        after.refusal(other_jti, receipt_id) == Some(SdkError::ReplayDetected),
{
    assert(after.recorded().contains((jti, receipt_id)));
}

/// Whether a verification may check expiry at time `t`: it is `input.now`
/// when that is set; any time the clock gives otherwise.
pub open spec fn check_time_fits(input: VerifyConfirmationResponseInput, t: u64) -> bool {
    input.now matches Some(n) ==> t == n
}

/// The time a verification checks expiry against: `input.now`, or else the
/// reading of the system clock, in seconds.
pub fn response_check_time(input: &VerifyConfirmationResponseInput, clock: &UnixTime) -> (t: u64)
    ensures
        input.now matches Some(n) ==> t == n,
        input.now is None ==> t == clock.seconds(),
{
    match input.now {
        Some(n) => n,
        None => clock.seconds_since_epoch(),
    }
}

/// The checks of `claims_outcome` on a token's claims at time `now`.
pub fn check_response_claims(
    claims: &ConfirmationResponseClaims,
    input: &VerifyConfirmationResponseInput,
    now: u64,
) -> (res: Result<(), ConfirmSdkError>)
    ensures
        outcome_is(res, claims_outcome(*claims, *input, now)),
{
    if let Some(exp) = claims.exp {
        if exp <= now {
            return Err(ConfirmSdkError::TokenExpired);
        }
    }
    if let Some(iss) = input.issuer {
        if !opt_eq(&claims.iss, iss) {
            return Err(ConfirmSdkError::IssuerMismatch);
        }
    }
    if let Some(aud) = input.audience {
        if !str_eq(claims.aud.as_str(), aud) {
            return Err(ConfirmSdkError::AudienceMismatch);
        }
    }
    if let Some(w) = input.workflow_template_id {
        if !str_eq(claims.workflow_template_id.as_str(), w) {
            return Err(ConfirmSdkError::WorkflowTemplateMismatch);
        }
    }
    if input.require_confirmed && !str_eq(claims.decision.as_str(), "confirmed") {
        return Err(ConfirmSdkError::DecisionNotConfirmed);
    }
    if is_blank(claims.receipt_id.as_str()) {
        return Err(ConfirmSdkError::MissingReceiptId);
    }
    if let Some(o) = input.registered_origin {
        if !opt_eq(&claims.registered_origin, o) {
            return Err(ConfirmSdkError::RegisteredOriginMismatch);
        }
    }
    Ok(())
}

/// The replay key of `jti_outcome`.
pub fn response_jti(claims: &ConfirmationResponseClaims) -> (res: Result<&str, ConfirmSdkError>)
    ensures
        outcome_is(res, jti_outcome(*claims)),
{
    match &claims.jti {
        Some(j) => {
            if is_blank(j.as_str()) {
                Err(ConfirmSdkError::MissingJti)
            } else {
                Ok(j.as_str())
            }
        },
        None => Err(ConfirmSdkError::MissingJti),
    }
}

/// Whether `res` is what verifying a token with these parsed header and
/// claims gives at time `now`, with a replay cache that goes from `before`
/// to `after` (`None` for both when there is no cache): the claims checks
/// first; then, with a cache, the token's `jti`, and the cache's verdict on
/// that `jti` and the claims' receipt id, which decides the result: for a
/// cache that keeps the replay model, its `refusal`, or else the recording
/// of the pair. A failed check leaves the cache as it was.
pub open spec fn response_verification<C: ResponseReplayCache>(
    header: JwtHeader,
    claims: ConfirmationResponseClaims,
    input: VerifyConfirmationResponseInput,
    now: u64,
    before: Option<C>,
    after: Option<C>,
    res: Result<VerifiedConfirmationResponse, ConfirmSdkError>,
) -> bool {
    match claims_outcome(claims, input, now) {
        Err(e) => res matches Err(f) && f@ == e && after == before,
        Ok(_) => match before {
            None => after is None && (res matches Ok(v) && v.header == header && v.claims == claims),
            Some(c) => match jti_outcome(claims) {
                Err(e) => res matches Err(f) && f@ == e && after == before,
                Ok(jti) => after matches Some(a) && (res matches Ok(v) ==> v.header == header
                    && v.claims == claims) && (c.obeys_replay_model() ==> match c.refusal(
                    jti,
                    claims.receipt_id@,
                ) {
                    Some(e) => res matches Err(f) && f@ == e && a.recorded() == c.recorded(),
                    None => res is Ok && a.recorded() == c.recorded().insert(
                        (jti, claims.receipt_id@),
                    ),
                }),
            },
        },
    }
}

/// The last step of verifying a response token, given its parsed claims
/// and a reading of the clock: the claims checks at `input.now`, or else at
/// the clock's reading, then, with a replay cache, its `jti` and the
/// cache's verdict (see `response_verification`).
pub fn finish_response_verification_at<C: ResponseReplayCache>(
    header: JwtHeader,
    claims: ConfirmationResponseClaims,
    input: &VerifyConfirmationResponseInput,
    clock: &UnixTime,
    replay_cache: Option<&mut C>,
) -> (res: Result<VerifiedConfirmationResponse, ConfirmSdkError>)
    ensures
        ({
            let t = match input.now {
                Some(n) => n,
                None => clock.seconds(),
            };
            match replay_cache {
                Some(c) => response_verification(
                    header,
                    claims,
                    *input,
                    t,
                    Some(*c),
                    Some(*final(c)),
                    res,
                ),
                None => response_verification::<C>(header, claims, *input, t, None, None, res),
            }
        }),
{
    let now = response_check_time(input, clock);
    check_response_claims(&claims, input, now)?;
    if let Some(cache) = replay_cache {
        let jti = response_jti(&claims)?;
        cache.check_and_store(jti, claims.receipt_id.as_str())?;
    }
    Ok(VerifiedConfirmationResponse { header, claims })
}

/// The last step of verifying a response token, given its parsed claims:
/// as `finish_response_verification_at`, with the system clock read now.
pub fn finish_response_verification<C: ResponseReplayCache>(
    header: JwtHeader,
    claims: ConfirmationResponseClaims,
    input: &VerifyConfirmationResponseInput,
    replay_cache: Option<&mut C>,
) -> (res: Result<VerifiedConfirmationResponse, ConfirmSdkError>)
    ensures
        exists|t: u64|
            #[trigger] check_time_fits(*input, t) && match replay_cache {
                Some(c) => response_verification(
                    header,
                    claims,
                    *input,
                    t,
                    Some(*c),
                    Some(*final(c)),
                    res,
                ),
                None => response_verification::<C>(header, claims, *input, t, None, None, res),
            },
{
    let clock = current_unix_seconds();
    let res = finish_response_verification_at(header, claims, input, &clock, replay_cache);
    proof {
        let t = match input.now {
            Some(n) => n,
            None => clock.seconds(),
        };
        assert(check_time_fits(*input, t));
    }
    res
}

/// Without `input.now`, expiry is checked against the clock: a token whose
/// `exp` is at or before the clock's reading is refused as expired, and the
/// replay cache is left as it was.
pub proof fn lemma_expiry_checked_against_clock<C: ResponseReplayCache>(
    header: JwtHeader,
    claims: ConfirmationResponseClaims,
    input: VerifyConfirmationResponseInput,
    clock: UnixTime,
    before: Option<C>,
    after: Option<C>,
    res: Result<VerifiedConfirmationResponse, ConfirmSdkError>,
)
    requires
        input.now is None,
        response_verification(header, claims, input, clock.seconds(), before, after, res),
        claims.exp matches Some(e) && e <= clock.seconds(),
    ensures
        res matches Err(f) && f@ == SdkError::TokenExpired,
        after == before,
{
}

/// A verification with a memory replay cache only ever adds to what the
/// cache has recorded.
pub proof fn lemma_verification_keeps_records(
    header: JwtHeader,
    claims: ConfirmationResponseClaims,
    input: VerifyConfirmationResponseInput,
    now: u64,
    before: MemoryResponseReplayCache,
    after: MemoryResponseReplayCache,
    res: Result<VerifiedConfirmationResponse, ConfirmSdkError>,
)
    requires
        response_verification(header, claims, input, now, Some(before), Some(after), res),
    ensures
        before.recorded().subset_of(after.recorded()),
{
}

/// A response accepted by a verification with a memory replay cache is
/// never accepted again with that cache: once the cache holds at least
/// what that verification left in it, a verification of claims with the
/// same `jti` or the same receipt id fails, whatever its time and
/// expectations, and fails as a replay when its claims pass their checks
/// and carry a `jti`.
pub proof fn lemma_accepted_response_is_refused_later(
    header: JwtHeader,
    claims: ConfirmationResponseClaims,
    input: VerifyConfirmationResponseInput,
    now: u64,
    before: MemoryResponseReplayCache,
    after: MemoryResponseReplayCache,
    res: Result<VerifiedConfirmationResponse, ConfirmSdkError>,
    later_header: JwtHeader,
    later_claims: ConfirmationResponseClaims,
    later_input: VerifyConfirmationResponseInput,
    later_now: u64,
    later_before: MemoryResponseReplayCache,
    later_after: MemoryResponseReplayCache,
    later_res: Result<VerifiedConfirmationResponse, ConfirmSdkError>,
)
    requires
        response_verification(header, claims, input, now, Some(before), Some(after), res),
        res is Ok,
        after.recorded().subset_of(later_before.recorded()),
        jti_outcome(later_claims) == jti_outcome(claims) || later_claims.receipt_id@
            == claims.receipt_id@,
        response_verification(
            later_header,
            later_claims,
            later_input,
            later_now,
            Some(later_before),
            Some(later_after),
            later_res,
        ),
    ensures
        later_res is Err,
        claims_outcome(later_claims, later_input, later_now) is Ok && jti_outcome(later_claims) is Ok
            ==> (later_res matches Err(e) && e@ == SdkError::ReplayDetected),
{
    let jti = jti_outcome(claims)->Ok_0;
    assert(later_before.recorded().contains((jti, claims.receipt_id@)));
}

proof fn lemma_find_jwk_found(keys: Seq<Jwk>, kid: Seq<char>)
    ensures
        find_jwk(keys, kid) matches Some(i) ==> 0 <= i < keys.len() && opt_text(keys[i].kid) == Some(
            kid,
        ),
    decreases keys.len(),
{
    if keys.len() > 0 {
        lemma_find_jwk_found(keys.drop_first(), kid);
        if let Some(i) = find_jwk(keys.drop_first(), kid) {
            assert(keys.drop_first()[i] == keys[i + 1]);
        }
    }
}

/// The key a token's signature is checked under, when the signature step
/// accepts it: a key of the set whose `kid` is the header's and whose
/// algorithm, if any, is the header's.
pub open spec fn accepted_under(token: Seq<char>, header: JwtHeader, keys: Seq<Jwk>, i: int) -> bool {
    let parts = split_on(token, '.');
    &&& 0 <= i < keys.len()
    &&& opt_text(keys[i].kid) == opt_text(header.kid)
    &&& (keys[i].alg matches Some(a) ==> a@ == header.alg@)
    &&& jwk_key_outcome(keys[i]) matches Ok((n, e))
    &&& base64url_decode(parts[2]) matches Ok(sig)
    &&& rs256_signature_valid(n, e, signing_input(parts), sig)
}

/// A token passes the signature step only if it has three segments, its
/// header has the response token type, `RS256` and a key id, and its
/// signature over the first two segments is valid under a key of the set
/// with that id; what it yields is the decoded payload segment.
pub proof fn lemma_accepted_token_is_signed(token: Seq<char>, header: JwtHeader, keys: Seq<Jwk>)
    requires
        signature_outcome(token, header, keys) is Ok,
    ensures
        split_on(token, '.').len() == 3,
        opt_text(header.typ) == Some(CONFIRM_RESPONSE_TOKEN_TYPE@),
        header.alg@ == REQUESTER_SIGNATURE_ALGORITHM@,
        header.kid is Some,
        exists|i: int| accepted_under(token, header, keys, i),
        base64url_decode(split_on(token, '.')[1]) matches Ok(c) && signature_outcome(
            token,
            header,
            keys,
        ) == Ok::<Seq<u8>, SdkError>(c),
{
    let kid = header.kid->0;
    lemma_find_jwk_found(keys, kid@);
    let i = find_jwk(keys, kid@)->0;
    assert(accepted_under(token, header, keys, i));
}

/// Claims pass their checks only if the token has not expired at `now`
/// and every expectation that `input` sets holds of them.
pub proof fn lemma_accepted_claims(
    claims: ConfirmationResponseClaims,
    input: VerifyConfirmationResponseInput,
    now: u64,
)
    requires
        claims_outcome(claims, input, now) is Ok,
    ensures
        claims.exp matches Some(exp) ==> now < exp,
        input.issuer matches Some(iss) ==> opt_text(claims.iss) == Some(iss@),
        input.audience matches Some(aud) ==> claims.aud@ == aud@,
        input.workflow_template_id matches Some(w) ==> claims.workflow_template_id@ == w@,
        input.require_confirmed ==> claims.decision@ == "confirmed"@,
        !blank(claims.receipt_id@),
        input.registered_origin matches Some(o) ==> opt_text(claims.registered_origin) == Some(o@),
{
}

/// Claims that have not expired at `now` and meet every expectation that
/// `input` sets pass their checks; an expired token is refused as expired
/// whatever else holds of it.
pub proof fn lemma_claims_pass_when_expectations_met(
    claims: ConfirmationResponseClaims,
    input: VerifyConfirmationResponseInput,
    now: u64,
)
    ensures
        ((claims.exp matches Some(exp) ==> now < exp) && (input.issuer matches Some(iss) ==> opt_text(
            claims.iss,
        ) == Some(iss@)) && (input.audience matches Some(aud) ==> claims.aud@ == aud@) && (
        input.workflow_template_id matches Some(w) ==> claims.workflow_template_id@ == w@) && (
        input.require_confirmed ==> claims.decision@ == "confirmed"@) && !blank(claims.receipt_id@)
            && (input.registered_origin matches Some(o) ==> opt_text(claims.registered_origin)
            == Some(o@))) ==> claims_outcome(claims, input, now) is Ok,
        claims.exp matches Some(exp) && exp <= now ==> claims_outcome(claims, input, now)
            == Err::<(), SdkError>(SdkError::TokenExpired),
{
}

} // verus!
