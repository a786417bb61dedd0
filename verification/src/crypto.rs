//! Hashing, base64url and RS256 signatures, through the `sha2`, `base64`
//! and `rsa` crates.
use vstd::prelude::*;

use base64::engine::general_purpose::URL_SAFE_NO_PAD;
use base64::Engine;
use rand::rngs::OsRng;
use rsa::pkcs8::DecodePrivateKey;
use rsa::signature::{RandomizedSigner, SignatureEncoding, Verifier};
use sha2::Digest;

verus! {

#[verifier::external_type_specification]
#[verifier::external_body]
pub struct ExRsaPrivateKey(rsa::RsaPrivateKey);

#[verifier::external_type_specification]
#[verifier::external_body]
pub struct ExRsaPublicKey(rsa::RsaPublicKey);

/// Unpadded base64 with the URL-safe alphabet (RFC 4648 section 5) of
/// `bytes`, as `base64`'s `URL_SAFE_NO_PAD` engine encodes it.
pub uninterp spec fn base64url_encode(bytes: Seq<u8>) -> Seq<char>;

/// Whether `c` is in the URL-safe base64 alphabet: `A`-`Z`, `a`-`z`,
/// `0`-`9`, `-` and `_`.
pub open spec fn base64url_char(c: char) -> bool {
    ||| 'A' <= c <= 'Z'
    ||| 'a' <= c <= 'z'
    ||| '0' <= c <= '9'
    ||| c == '-'
    ||| c == '_'
}

/// What a base64url decoding gives: the bytes, or the text of the error.
pub type DecodeOutcome = Result<Seq<u8>, Seq<char>>;

/// What a key check gives: `Ok`, or the text of the error.
pub type KeyCheck = Result<(), Seq<char>>;

/// What `URL_SAFE_NO_PAD` decodes from the UTF-8 bytes of `text`: the bytes,
/// or the text of the decode error.
pub uninterp spec fn base64url_decode(text: Seq<char>) -> Result<Seq<u8>, Seq<char>>;

/// SHA-256 digest of `bytes`.
pub uninterp spec fn sha256(bytes: Seq<u8>) -> Seq<u8>;

/// Whether `rsa` reads a PKCS#8 PEM private key from `pem`: `Ok`, or the
/// text of its error.
pub uninterp spec fn pkcs8_private_key_check(pem: Seq<char>) -> Result<(), Seq<char>>;

/// Whether `rsa` accepts the big-endian modulus `n` and exponent `e` as a
/// public key: `Ok`, or the text of its error.
pub uninterp spec fn rsa_public_key_check(n: Seq<u8>, e: Seq<u8>) -> Result<(), Seq<char>>;

/// What signing gives: the signature bytes, or the text of the error.
pub type SignOutcome = Result<Seq<u8>, Seq<char>>;

/// The RSASSA-PKCS1-v1_5 signature with SHA-256 of `message` under the
/// private key that the PEM text `pem` holds, or the text of the error when
/// the key's modulus is too short to hold the padded digest.
pub uninterp spec fn rs256_signature(pem: Seq<char>, message: Seq<u8>) -> Result<Seq<u8>, Seq<char>>;

/// Whether `signature` is a valid RSASSA-PKCS1-v1_5 SHA-256 signature of
/// `message` under the public key with modulus `n` and exponent `e`.
pub uninterp spec fn rs256_signature_valid(
    n: Seq<u8>,
    e: Seq<u8>,
    message: Seq<u8>,
    signature: Seq<u8>,
) -> bool;

/// Encodes `input` as unpadded URL-safe base64 (`URL_SAFE_NO_PAD.encode`
/// of `base64`). The contract claims the result is `base64url_encode` of
/// the input and that decoding it gives the input back, which the crate
/// documents for every engine; that it has the unpadded length that
/// `encoded_len` computes (four characters for each three bytes, and two
/// or three for a last one or two); and that it is written in the
/// `URL_SAFE` alphabet.
#[verifier::external_body]
pub fn base64_url(input: &[u8]) -> (encoded: String)
    ensures
        encoded@ == base64url_encode(input@),
        base64url_decode(encoded@) == DecodeOutcome::Ok(input@),
        encoded@.len() == (4 * input@.len() + 2) / 3,
        forall|i: int| 0 <= i < encoded@.len() ==> base64url_char(#[trigger] encoded@[i]),
{
    URL_SAFE_NO_PAD.encode(input)
}

/// Decodes unpadded URL-safe base64 (`URL_SAFE_NO_PAD.decode` of
/// `base64`). The contract claims the outcome is `base64url_decode` of the
/// text, the error turned into its message.
#[verifier::external_body]
pub(crate) fn base64_url_decode(text: &str) -> (res: Result<Vec<u8>, String>)
    ensures
        match res {
            Ok(v) => base64url_decode(text@) == DecodeOutcome::Ok(v@),
            Err(m) => base64url_decode(text@) == DecodeOutcome::Err(m@),
        },
{
    match URL_SAFE_NO_PAD.decode(text) {
        Ok(v) => Ok(v),
        Err(err) => Err(err.to_string()),
    }
}

/// SHA-256 of `input` (`Sha256::digest` of `sha2`). The contract claims the
/// result is `sha256` of the input and is 32 bytes long, as the crate's
/// output size says.
#[verifier::external_body]
fn sha256_digest(input: &[u8]) -> (digest: Vec<u8>)
    ensures
        digest@ == sha256(input@),
        digest@.len() == 32,
{
    sha2::Sha256::digest(input).to_vec()
}

/// URL-safe unpadded base64 of the SHA-256 digest of `input`: 43
/// characters of the URL-safe alphabet.
pub fn sha256_base64_url(input: &[u8]) -> (s: String)
    ensures
        s@ == base64url_encode(sha256(input@)),
        s@.len() == 43,
        forall|i: int| 0 <= i < s@.len() ==> base64url_char(#[trigger] s@[i]),
{
    let d = sha256_digest(input);
    base64_url(d.as_slice())
}

/// An RSA private key, with the PEM text that it was read from.
pub struct Rs256SigningKey {
    key: rsa::RsaPrivateKey,
    pem: Ghost<Seq<char>>,
}

impl Rs256SigningKey {
    /// The PEM text this key was read from.
    pub closed spec fn pem(&self) -> Seq<char> {
        self.pem@
    }
}

/// Reads a PKCS#8 PEM private key (`RsaPrivateKey::from_pkcs8_pem` of
/// `rsa`). The contract claims it succeeds exactly when
/// `pkcs8_private_key_check` is `Ok`, and otherwise gives that error text.
#[verifier::external_body]
fn rsa_private_key_from_pem(pem: &str) -> (res: Result<rsa::RsaPrivateKey, String>)
    ensures
        match res {
            Ok(_) => pkcs8_private_key_check(pem@) is Ok,
            Err(m) => pkcs8_private_key_check(pem@) == KeyCheck::Err(m@),
        },
{
    match rsa::RsaPrivateKey::from_pkcs8_pem(pem) {
        Ok(key) => Ok(key),
        Err(err) => Err(err.to_string()),
    }
}

/// Reads the signing key of a requester from its PKCS#8 PEM text.
pub fn signing_key_from_pem(pem: &str) -> (res: Result<Rs256SigningKey, String>)
    ensures
        match res {
            Ok(k) => pkcs8_private_key_check(pem@) is Ok && k.pem() == pem@,
            Err(m) => pkcs8_private_key_check(pem@) == KeyCheck::Err(m@),
        },
{
    match rsa_private_key_from_pem(pem) {
        Ok(key) => Ok(Rs256SigningKey { key, pem: Ghost(pem@) }),
        Err(m) => Err(m),
    }
}

/// Signs `message` with RSASSA-PKCS1-v1_5 and SHA-256 (`pkcs1v15::SigningKey`
/// of `rsa`, `try_sign_with_rng` with the OS generator). The generator only
/// blinds the computation; the signature scheme is deterministic, and so is
/// the one failure (a modulus too short for the padded digest). The
/// contract claims the outcome is `rs256_signature` of the key's PEM text
/// and the message, the error turned into its message.
#[verifier::external_body]
pub(crate) fn rs256_sign(key: Rs256SigningKey, message: &[u8]) -> (res: Result<Vec<u8>, String>)
    ensures
        match res {
            Ok(sig) => rs256_signature(key.pem(), message@) == SignOutcome::Ok(sig@),
            Err(m) => rs256_signature(key.pem(), message@) == SignOutcome::Err(m@),
        },
{
    let signing_key = rsa::pkcs1v15::SigningKey::<sha2::Sha256>::new(key.key);
    match signing_key.try_sign_with_rng(&mut OsRng, message) {
        Ok(sig) => Ok(sig.to_vec()),
        Err(err) => Err(err.to_string()),
    }
}

/// An RSA public key, with the big-endian modulus and exponent that it was
/// built from.
pub struct Rs256VerifyingKey {
    key: rsa::RsaPublicKey,
    n: Ghost<Seq<u8>>,
    e: Ghost<Seq<u8>>,
}

impl Rs256VerifyingKey {
    pub closed spec fn modulus(&self) -> Seq<u8> {
        self.n@
    }

    pub closed spec fn exponent(&self) -> Seq<u8> {
        self.e@
    }
}

/// Builds a public key from big-endian components (`BigUint::from_bytes_be`
/// and `RsaPublicKey::new` of `rsa`). The contract claims it succeeds
/// exactly when `rsa_public_key_check` is `Ok`, and otherwise gives that
/// error text.
#[verifier::external_body]
fn rsa_public_key_new(n: &[u8], e: &[u8]) -> (res: Result<rsa::RsaPublicKey, String>)
    ensures
        match res {
            Ok(_) => rsa_public_key_check(n@, e@) is Ok,
            Err(m) => rsa_public_key_check(n@, e@) == KeyCheck::Err(m@),
        },
{
    match rsa::RsaPublicKey::new(rsa::BigUint::from_bytes_be(n), rsa::BigUint::from_bytes_be(e)) {
        Ok(key) => Ok(key),
        Err(err) => Err(err.to_string()),
    }
}

/// The public key with big-endian modulus `n` and exponent `e`.
pub fn verifying_key_from_components(n: &[u8], e: &[u8]) -> (res: Result<Rs256VerifyingKey, String>)
    ensures
        match res {
            Ok(k) => rsa_public_key_check(n@, e@) is Ok && k.modulus() == n@
                && k.exponent() == e@,
            Err(m) => rsa_public_key_check(n@, e@) == KeyCheck::Err(m@),
        },
{
    match rsa_public_key_new(n, e) {
        Ok(key) => Ok(Rs256VerifyingKey { key, n: Ghost(n@), e: Ghost(e@) }),
        Err(m) => Err(m),
    }
}

/// Checks an RSASSA-PKCS1-v1_5 SHA-256 signature (`pkcs1v15::VerifyingKey`
/// of `rsa`; the signature bytes are read with `Signature::try_from`, which
/// in this version of `rsa` never fails). The contract claims the result is
/// `rs256_signature_valid` of the key's components, the message and the
/// signature bytes.
#[verifier::external_body]
pub(crate) fn rs256_verify(key: &Rs256VerifyingKey, message: &[u8], signature: &[u8]) -> (ok: bool)
    ensures
        ok == rs256_signature_valid(key.modulus(), key.exponent(), message@, signature@),
{
    let verifying_key = rsa::pkcs1v15::VerifyingKey::<sha2::Sha256>::new(key.key.clone());
    match rsa::pkcs1v15::Signature::try_from(signature) {
        Ok(sig) => verifying_key.verify(message, &sig).is_ok(),
        Err(_) => false,
    }
}

/// A reading of the system clock: whole seconds since the Unix epoch, or
/// none when the clock was before the epoch. Only the clock gives one.
pub struct UnixTime {
    seconds: Option<u64>,
}

impl UnixTime {
    /// The reading in whole seconds since the Unix epoch; 0 for a reading
    /// before the epoch.
    pub closed spec fn seconds(&self) -> u64 {
        match self.seconds {
            Some(s) => s,
            None => 0,
        }
    }

    /// The reading in whole seconds since the Unix epoch, 0 before it.
    pub fn seconds_since_epoch(&self) -> (s: u64)
        ensures
            s == self.seconds(),
    {
        match self.seconds {
            Some(s) => s,
            None => 0,
        }
    }
}

/// Reads the system clock (`SystemTime::now` and `duration_since` of std,
/// in whole seconds by `Duration::as_secs`), keeping no reading when the
/// clock is before the epoch. Nothing is claimed of the value.
#[verifier::external_body]
fn system_unix_seconds() -> UnixTime {
    match std::time::SystemTime::now().duration_since(std::time::UNIX_EPOCH) {
        Ok(d) => UnixTime { seconds: Some(d.as_secs()) },
        Err(_) => UnixTime { seconds: None },
    }
}

/// The current time by the system clock.
pub(crate) fn current_unix_seconds() -> UnixTime {
    system_unix_seconds()
}

} // verus!
