//! Errors of the SDK.
use vstd::prelude::*;

verus! {

/// Everything that can go wrong while building, signing, submitting or
/// verifying a confirmation.
#[derive(Debug, Clone)]
pub enum ConfirmSdkError {
    InvalidPrivateKey(String),
    InvalidPublicKey(String),
    InvalidJson(String),
    InvalidJwtShape,
    InvalidBase64Url(String),
    UnexpectedTokenType(String),
    UnsupportedTokenAlgorithm(String),
    MissingTokenKeyId,
    MissingJwk(String),
    JwkAlgorithmMismatch(String),
    InvalidTokenSignature,
    TokenExpired,
    IssuerMismatch,
    AudienceMismatch,
    WorkflowTemplateMismatch,
    DecisionNotConfirmed,
    MissingReceiptId,
    MissingJti,
    RegisteredOriginMismatch,
    ReplayDetected,
    MissingResponseToken,
    ReceiptIdMismatch,
    MissingSignedPayloadHash,
    InvalidSignedPayloadHash,
    InvalidUrl(String),
    HttpRequest(String),
    ConfirmApi { status: u16, body: String },
}

/// Model of an error: the same variants, with texts as character sequences.
pub enum SdkError {
    InvalidPrivateKey(Seq<char>),
    InvalidPublicKey(Seq<char>),
    InvalidJson(Seq<char>),
    InvalidJwtShape,
    InvalidBase64Url(Seq<char>),
    UnexpectedTokenType(Seq<char>),
    UnsupportedTokenAlgorithm(Seq<char>),
    MissingTokenKeyId,
    MissingJwk(Seq<char>),
    JwkAlgorithmMismatch(Seq<char>),
    InvalidTokenSignature,
    TokenExpired,
    IssuerMismatch,
    AudienceMismatch,
    WorkflowTemplateMismatch,
    DecisionNotConfirmed,
    MissingReceiptId,
    MissingJti,
    RegisteredOriginMismatch,
    ReplayDetected,
    MissingResponseToken,
    ReceiptIdMismatch,
    MissingSignedPayloadHash,
    InvalidSignedPayloadHash,
    InvalidUrl(Seq<char>),
    HttpRequest(Seq<char>),
    ConfirmApi { status: u16, body: Seq<char> },
}

impl View for ConfirmSdkError {
    type V = SdkError;

    open spec fn view(&self) -> SdkError {
        match self {
            ConfirmSdkError::InvalidPrivateKey(m) => SdkError::InvalidPrivateKey(m@),
            ConfirmSdkError::InvalidPublicKey(m) => SdkError::InvalidPublicKey(m@),
            ConfirmSdkError::InvalidJson(m) => SdkError::InvalidJson(m@),
            ConfirmSdkError::InvalidJwtShape => SdkError::InvalidJwtShape,
            ConfirmSdkError::InvalidBase64Url(m) => SdkError::InvalidBase64Url(m@),
            ConfirmSdkError::UnexpectedTokenType(m) => SdkError::UnexpectedTokenType(m@),
            ConfirmSdkError::UnsupportedTokenAlgorithm(m) => SdkError::UnsupportedTokenAlgorithm(m@),
            ConfirmSdkError::MissingTokenKeyId => SdkError::MissingTokenKeyId,
            ConfirmSdkError::MissingJwk(m) => SdkError::MissingJwk(m@),
            ConfirmSdkError::JwkAlgorithmMismatch(m) => SdkError::JwkAlgorithmMismatch(m@),
            ConfirmSdkError::InvalidTokenSignature => SdkError::InvalidTokenSignature,
            ConfirmSdkError::TokenExpired => SdkError::TokenExpired,
            ConfirmSdkError::IssuerMismatch => SdkError::IssuerMismatch,
            ConfirmSdkError::AudienceMismatch => SdkError::AudienceMismatch,
            ConfirmSdkError::WorkflowTemplateMismatch => SdkError::WorkflowTemplateMismatch,
            ConfirmSdkError::DecisionNotConfirmed => SdkError::DecisionNotConfirmed,
            ConfirmSdkError::MissingReceiptId => SdkError::MissingReceiptId,
            ConfirmSdkError::MissingJti => SdkError::MissingJti,
            ConfirmSdkError::RegisteredOriginMismatch => SdkError::RegisteredOriginMismatch,
            ConfirmSdkError::ReplayDetected => SdkError::ReplayDetected,
            ConfirmSdkError::MissingResponseToken => SdkError::MissingResponseToken,
            ConfirmSdkError::ReceiptIdMismatch => SdkError::ReceiptIdMismatch,
            ConfirmSdkError::MissingSignedPayloadHash => SdkError::MissingSignedPayloadHash,
            ConfirmSdkError::InvalidSignedPayloadHash => SdkError::InvalidSignedPayloadHash,
            ConfirmSdkError::InvalidUrl(m) => SdkError::InvalidUrl(m@),
            ConfirmSdkError::HttpRequest(m) => SdkError::HttpRequest(m@),
            ConfirmSdkError::ConfirmApi { status, body } => SdkError::ConfirmApi {
                status: *status,
                body: body@,
            },
        }
    }
}

/// Whether `res` is the outcome `want`: the same success value, or the same
/// error, compared by their models.
pub open spec fn outcome_is<T: View>(
    res: Result<T, ConfirmSdkError>,
    want: Result<T::V, SdkError>,
) -> bool {
    match (res, want) {
        (Ok(v), Ok(w)) => v@ == w,
        (Err(e), Err(f)) => e@ == f,
        _ => false,
    }
}

} // verus!
