//! What the HTTP client of the Confirm API decides: its base URL, the URLs
//! it calls, and how it reads a reply's status.
use vstd::prelude::*;
use vstd::string::*;

use crate::error::{ConfirmSdkError, SdkError};
use crate::text::chars_of;

verus! {

/// Who a receipt disclosure is for.
#[derive(Clone, Copy, Debug, PartialEq, Eq, Structural)]
pub enum DisclosureAudience {
    Requester,
    Responder,
    Operator,
}

/// The name of an audience on the wire.
pub open spec fn audience_name(a: DisclosureAudience) -> Seq<char> {
    match a {
        DisclosureAudience::Requester => "requester"@,
        DisclosureAudience::Responder => "responder"@,
        DisclosureAudience::Operator => "operator"@,
    }
}

impl DisclosureAudience {
    /// The name of this audience on the wire.
    pub fn as_str(self) -> (s: &'static str)
        ensures
            s@ == audience_name(self),
    {
        match self {
            DisclosureAudience::Requester => "requester",
            DisclosureAudience::Responder => "responder",
            DisclosureAudience::Operator => "operator",
        }
    }
}

/// The reply to a submitted confirmation request.
#[derive(Clone, Debug, PartialEq, Eq)]
pub struct ConfirmationRequestCreateResponse {
    pub request_id: String,
    pub workflow_id: String,
    pub workflow_url: String,
    pub status: String,
    pub expires_at: String,
}

/// `s` without its trailing slashes.
pub open spec fn trim_trailing_slashes(s: Seq<char>) -> Seq<char>
    decreases s.len(),
{
    if s.len() > 0 && s.last() == '/' {
        trim_trailing_slashes(s.drop_last())
    } else {
        s
    }
}

/// `s.trim_end_matches('/')`.
pub fn trim_end_slashes(s: &str) -> (r: String)
    ensures
        r@ == trim_trailing_slashes(s@),
{
    let cs = chars_of(s);
    let mut end = cs.len();
    assert(cs@.subrange(0, end as int) =~= cs@);
    while end > 0 && cs[end - 1] == '/'
        invariant
            end <= cs@.len(),
            cs@ == s@,
            trim_trailing_slashes(s@) == trim_trailing_slashes(cs@.subrange(0, end as int)),
        decreases end,
    {
        assert(cs@.subrange(0, end as int).drop_last() =~= cs@.subrange(0, end - 1));
        end = end - 1;
    }
    let mut r = String::new();
    for i in 0..end
        invariant
            end <= cs@.len(),
            r@ == cs@.subrange(0, i as int),
    {
        crate::text::push_char(&mut r, cs[i]);
        assert(cs@.subrange(0, i + 1) =~= cs@.subrange(0, i as int).push(cs@[i as int]));
    }
    r
}

/// The base URL of a client: the given one without trailing slashes, which
/// must not be empty.
pub fn client_base_url(base_url: &str) -> (res: Result<String, ConfirmSdkError>)
    ensures
        trim_trailing_slashes(base_url@).len() > 0 ==> (res matches Ok(b) && b@
            == trim_trailing_slashes(base_url@)),
        trim_trailing_slashes(base_url@).len() == 0 ==> (res matches Err(e) && e@
            == SdkError::InvalidUrl("empty base URL"@)),
{
    let b = trim_end_slashes(base_url);
    if b.as_str().is_empty() {
        return Err(ConfirmSdkError::InvalidUrl(String::from_str("empty base URL")));
    }
    Ok(b)
}

/// The URL that confirmation requests are posted to.
pub fn confirmation_requests_url(base_url: &str) -> (u: String)
    ensures
        u@ == trim_trailing_slashes(base_url@) + "/v1/confirmation-requests"@,
{
    let mut u = trim_end_slashes(base_url);
    u.append("/v1/confirmation-requests");
    u
}

/// The URL of a receipt.
pub fn confirmation_receipt_url(base_url: &str, receipt_id: &str) -> (u: String)
    ensures
        u@ == trim_trailing_slashes(base_url@) + "/v1/confirmation-receipts/"@ + receipt_id@,
{
    let mut u = trim_end_slashes(base_url);
    u.append("/v1/confirmation-receipts/");
    u.append(receipt_id);
    u
}

/// The URL of a receipt's disclosure.
pub fn receipt_disclosure_url(base_url: &str, receipt_id: &str) -> (u: String)
    ensures
        u@ == trim_trailing_slashes(base_url@) + "/v1/confirmation-receipts/"@ + receipt_id@
            + "/disclosure"@,
{
    let mut u = trim_end_slashes(base_url);
    u.append("/v1/confirmation-receipts/");
    u.append(receipt_id);
    u.append("/disclosure");
    u
}

/// Reads the status of an API reply: a 2xx status gives the body back,
/// any other status is an API error that carries the status and the body.
pub fn check_api_response(status: u16, body: String) -> (res: Result<String, ConfirmSdkError>)
    ensures
        200 <= status <= 299 ==> (res matches Ok(b) && b@ == body@),
        !(200 <= status <= 299) ==> (res matches Err(e) && e@ == SdkError::ConfirmApi {
            status: status,
            body: body@,
        }),
{
    if 200 <= status && status <= 299 {
        Ok(body)
    } else {
        Err(ConfirmSdkError::ConfirmApi { status, body })
    }
}

/// A trimmed base URL is a prefix of the given one, does not end with a
/// slash, and what was cut off is slashes only.
pub proof fn lemma_trimmed_url(s: Seq<char>)
    ensures
        trim_trailing_slashes(s).len() <= s.len(),
        trim_trailing_slashes(s) == s.subrange(0, trim_trailing_slashes(s).len() as int),
        trim_trailing_slashes(s).len() > 0 ==> trim_trailing_slashes(s).last() != '/',
        forall|i: int| trim_trailing_slashes(s).len() <= i < s.len() ==> #[trigger] s[i] == '/',
    decreases s.len(),
{
    if s.len() > 0 && s.last() == '/' {
        lemma_trimmed_url(s.drop_last());
        assert forall|i: int| trim_trailing_slashes(s).len() <= i < s.len() implies #[trigger] s[i]
            == '/' by {
            if i < s.len() - 1 {
                assert(s[i] == s.drop_last()[i]);
            }
        }
        assert(s.drop_last().subrange(0, trim_trailing_slashes(s).len() as int) =~= s.subrange(
            0,
            trim_trailing_slashes(s).len() as int,
        ));
    } else {
        assert(s.subrange(0, s.len() as int) =~= s);
    }
}

} // verus!
