use confirm_service_sdk::client::{
    check_api_response, client_base_url, confirmation_receipt_url, confirmation_requests_url,
    receipt_disclosure_url, DisclosureAudience,
};
use confirm_service_sdk::error::ConfirmSdkError;

#[test]
fn disclosure_audiences_have_wire_names() {
    assert_eq!(DisclosureAudience::Requester.as_str(), "requester");
    assert_eq!(DisclosureAudience::Responder.as_str(), "responder");
    assert_eq!(DisclosureAudience::Operator.as_str(), "operator");
}

#[test]
fn base_url_drops_trailing_slashes() {
    assert_eq!(
        client_base_url("https://confirm.example.com//").expect("base url"),
        "https://confirm.example.com"
    );
    assert_eq!(
        client_base_url("https://confirm.example.com").expect("base url"),
        "https://confirm.example.com"
    );
}

#[test]
fn empty_base_url_is_rejected() {
    assert!(matches!(
        client_base_url("///"),
        Err(ConfirmSdkError::InvalidUrl(m)) if m == "empty base URL"
    ));
    assert!(matches!(client_base_url(""), Err(ConfirmSdkError::InvalidUrl(_))));
}

#[test]
fn api_urls_are_built_from_the_base() {
    assert_eq!(
        confirmation_requests_url("http://127.0.0.1:8080/"),
        "http://127.0.0.1:8080/v1/confirmation-requests"
    );
    assert_eq!(
        confirmation_receipt_url("http://h", "rcpt_123"),
        "http://h/v1/confirmation-receipts/rcpt_123"
    );
    assert_eq!(
        receipt_disclosure_url("http://h/", "rcpt_123"),
        "http://h/v1/confirmation-receipts/rcpt_123/disclosure"
    );
}

#[test]
fn api_errors_carry_status_and_body() {
    assert_eq!(check_api_response(200, "ok".to_string()).expect("ok"), "ok");
    assert_eq!(check_api_response(299, "ok".to_string()).expect("ok"), "ok");
    assert!(matches!(
        check_api_response(400, "bad signed request".to_string()),
        Err(ConfirmSdkError::ConfirmApi { status: 400, body }) if body == "bad signed request"
    ));
    assert!(matches!(
        check_api_response(199, String::new()),
        Err(ConfirmSdkError::ConfirmApi { status: 199, .. })
    ));
}
