//! Confirmation receipts and their binding to a verified response token.
use vstd::prelude::*;

use crate::error::{outcome_is, ConfirmSdkError, SdkError};
use crate::json::{member_value, Json, JsonValue};
use crate::text::{has_prefix, starts_with, str_eq};
use crate::verify::VerifiedConfirmationResponse;

verus! {

/// A receipt as the Confirm service reports it.
#[derive(Clone, Debug, PartialEq)]
pub struct ConfirmationReceipt {
    pub receipt_id: String,
    pub request_id: String,
    pub status: String,
    pub artifacts: Vec<JsonValue>,
    pub decision: JsonValue,
    pub evidence_records: Vec<JsonValue>,
    pub satisfied_evidence_branch: Option<JsonValue>,
    pub created_at: Option<u64>,
    pub attestation: JsonValue,
    pub response_token: Option<String>,
}

/// The body of a receipt lookup.
#[derive(Clone, Debug, PartialEq)]
pub struct ConfirmationReceiptResponse {
    pub receipt: ConfirmationReceipt,
}

/// The body of a receipt disclosure lookup.
#[derive(Clone, Debug, PartialEq)]
pub struct ConfirmationReceiptDisclosureResponse {
    pub receipt: JsonValue,
    pub disclosure_record: JsonValue,
}

/// A receipt whose response token verified and names the receipt.
#[derive(Clone, Debug, PartialEq)]
pub struct VerifiedConfirmationReceipt {
    pub receipt: ConfirmationReceipt,
    pub response: VerifiedConfirmationResponse,
}

/// The checks on a receipt before its token is verified: its attestation
/// has a `signed_payload_hash` text that starts with `sha256:`, and it
/// carries a response token, which is the result.
pub open spec fn receipt_token_outcome(receipt: ConfirmationReceipt) -> Result<Seq<char>, SdkError> {
    match member_value(receipt.attestation@, "signed_payload_hash"@) {
        Some(Json::Str(h)) => if !has_prefix(h, "sha256:"@) {
            Err(SdkError::InvalidSignedPayloadHash)
        } else {
            match receipt.response_token {
                Some(t) => Ok(t@),
                None => Err(SdkError::MissingResponseToken),
            }
        },
        _ => Err(SdkError::MissingSignedPayloadHash),
    }
}

/// The first step of verifying a receipt: the checks of
/// `receipt_token_outcome`, which give the response token to verify.
pub fn receipt_response_token(receipt: &ConfirmationReceipt) -> (res: Result<&str, ConfirmSdkError>)
    ensures
        outcome_is(res, receipt_token_outcome(*receipt)),
{
    let hash = match receipt.attestation.get("signed_payload_hash") {
        Some(v) => match v.as_str() {
            Some(h) => h,
            None => {
                return Err(ConfirmSdkError::MissingSignedPayloadHash);
            },
        },
        None => {
            return Err(ConfirmSdkError::MissingSignedPayloadHash);
        },
    };
    if !starts_with(hash, "sha256:") {
        return Err(ConfirmSdkError::InvalidSignedPayloadHash);
    }
    match &receipt.response_token {
        Some(t) => Ok(t.as_str()),
        None => Err(ConfirmSdkError::MissingResponseToken),
    }
}

/// The last step of verifying a receipt: the verified response must name
/// this receipt.
pub fn bind_receipt_response(
    receipt: ConfirmationReceipt,
    response: VerifiedConfirmationResponse,
) -> (res: Result<VerifiedConfirmationReceipt, ConfirmSdkError>)
    ensures
        response.claims.receipt_id@ == receipt.receipt_id@ ==> (res matches Ok(v) && v.receipt
            == receipt && v.response == response),
        response.claims.receipt_id@ != receipt.receipt_id@ ==> (res matches Err(e) && e@
            == SdkError::ReceiptIdMismatch),
{
    if !str_eq(response.claims.receipt_id.as_str(), receipt.receipt_id.as_str()) {
        return Err(ConfirmSdkError::ReceiptIdMismatch);
    }
    Ok(VerifiedConfirmationReceipt { receipt, response })
}

/// A receipt's token is handed on for verification exactly when its
/// attestation has a `signed_payload_hash` text that starts with `sha256:`
/// and it carries a response token; what is handed on is that token.
pub proof fn lemma_receipt_token_needs_sha256_attestation(receipt: ConfirmationReceipt)
    ensures
        receipt_token_outcome(receipt) is Ok <==> (member_value(
            receipt.attestation@,
            "signed_payload_hash"@,
        ) matches Some(Json::Str(h)) && h.len() >= 7 && h.subrange(0, 7) == "sha256:"@
            && receipt.response_token is Some),
        receipt_token_outcome(receipt) matches Ok(t) ==> receipt.response_token matches Some(rt)
            && rt@ == t,
{
    reveal_strlit("sha256:");
}

} // verus!
