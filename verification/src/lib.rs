use vstd::prelude::*;

mod text;
pub mod error;
pub mod json;
pub mod crypto;
pub mod verify;
pub mod receipt;
pub mod signing;
pub mod request;
pub mod client;

verus! {

/// The algorithm of requester signatures and of response tokens.
pub const REQUESTER_SIGNATURE_ALGORITHM: &'static str = "RS256";

/// The `typ` of a response token.
pub const CONFIRM_RESPONSE_TOKEN_TYPE: &'static str = "confirm-response+jwt";

/// Workflow of login and session-refresh confirmations.
pub const TIGHT_CONFIRM_WORKFLOW: &'static str = "single_responder.tight_confirm.v1";

/// Workflow of multi-artifact confirmations.
pub const MULTI_ARTIFACT_REVIEW_WORKFLOW: &'static str = "single_responder.multi_artifact_review.v1";

} // verus!
