use confirm_service_sdk::json::{canonical_json, JsonValue};
use confirm_service_sdk::request::{
    completion_delivery_async, completion_delivery_sync, create_login_confirmation_request,
    create_multi_artifact_confirmation_request, create_session_refresh_confirmation_request,
    ConfirmationArtifactInput, ConfirmationRequestInput, DeliveryChannel,
    IdentityConfirmationRequestInput, RendererRequirement,
};
use confirm_service_sdk::{MULTI_ARTIFACT_REVIEW_WORKFLOW, TIGHT_CONFIRM_WORKFLOW};

fn text(s: &str) -> JsonValue {
    JsonValue::String(s.to_string())
}

fn object(members: Vec<(&str, JsonValue)>) -> JsonValue {
    JsonValue::Object(members.into_iter().map(|(k, v)| (k.to_string(), v)).collect())
}

fn pointer<'a>(value: &'a JsonValue, path: &str) -> Option<&'a JsonValue> {
    let mut current = value;
    for token in path.split('/').skip(1) {
        current = match current {
            JsonValue::Object(_) => current.get(token)?,
            JsonValue::Array(items) => items.get(token.parse::<usize>().ok()?)?,
            _ => return None,
        };
    }
    Some(current)
}

fn pointer_str<'a>(value: &'a JsonValue, path: &str) -> Option<&'a str> {
    pointer(value, path).and_then(|v| v.as_str())
}

fn identity_input(identity_label: Option<String>) -> IdentityConfirmationRequestInput {
    IdentityConfirmationRequestInput {
        account_id: "acct_123".to_string(),
        requester_id: "app_123".to_string(),
        app_name: "Example App".to_string(),
        responder: object(vec![("email", text("person@example.com"))]),
        expires_at: "2026-06-25T00:00:00Z".to_string(),
        prompt: None,
        identity_label,
        metadata: None,
    }
}

#[test]
fn identity_confirmation_builders_create_tight_workflows() {
    let login = create_login_confirmation_request(identity_input(None)).expect("login body");
    assert_eq!(
        pointer_str(&login, "/workflow_template_id"),
        Some(TIGHT_CONFIRM_WORKFLOW)
    );
    assert_eq!(
        pointer_str(&login, "/artifacts/0/media_type"),
        Some("text/markdown")
    );
    assert!(pointer_str(&login, "/artifacts/0/content")
        .unwrap_or_default()
        .contains("share your identity with Example App"));

    let refresh =
        create_session_refresh_confirmation_request(identity_input(Some(
            "person@example.com".to_string(),
        )))
        .expect("refresh body");
    let prompt = pointer_str(&refresh, "/artifacts/0/content").unwrap_or_default();
    assert!(prompt.contains("still person@example.com"));
    assert!(prompt.contains("resume your session with Example App"));
}

#[test]
fn identity_bodies_hold_prompts_and_defaults() {
    let login = create_login_confirmation_request(identity_input(None)).expect("login body");
    assert_eq!(
        canonical_json(&login),
        r#"{"account_id":"acct_123","artifacts":[{"content":"You would like to share your identity with Example App.","id":"login_prompt","media_type":"text/markdown"}],"audiences":[{"id":"primary_audience","members":[{"type":"requester"},{"type":"responder"}],"mode":"restricted"}],"completion_delivery":{"channels":[{"type":"pull"}],"mode":"async"},"disclosure_policy":{"rules":[{"access":"full","audience":"primary_audience","target":"artifacts"}]},"evidence_policy":{"any_of":[{"all_of":[{"method":"oauth","provider":"google"}]}]},"expires_at":"2026-06-25T00:00:00Z","metadata":{},"notification_policy":{"channels":[],"mode":"requester_managed"},"requester":{"display_name":"Example App","id":"app_123"},"responder":{"email":"person@example.com"},"workflow_template_id":"single_responder.tight_confirm.v1"}"#
    );
    let refresh =
        create_session_refresh_confirmation_request(identity_input(None)).expect("refresh body");
    assert_eq!(
        pointer_str(&refresh, "/artifacts/0/content"),
        Some("You wish to resume your session with Example App.")
    );
    assert_eq!(
        pointer_str(&refresh, "/artifacts/0/id"),
        Some("session_refresh_prompt")
    );
    let mut given = identity_input(Some("x".to_string()));
    given.prompt = Some("Custom prompt".to_string());
    given.metadata = Some(object(vec![("k", text("v"))]));
    let custom = create_session_refresh_confirmation_request(given).expect("custom body");
    assert_eq!(pointer_str(&custom, "/artifacts/0/content"), Some("Custom prompt"));
    assert_eq!(pointer_str(&custom, "/metadata/k"), Some("v"));
}

#[test]
fn multi_artifact_builder_sets_artifacts_renderers_and_delivery() {
    let json_artifact = ConfirmationArtifactInput::inline_json(
        "artifact_json",
        &object(vec![("z", JsonValue::Number(confirm_service_sdk::json::JsonNumber::PosInt(1))), ("a", JsonValue::Number(confirm_service_sdk::json::JsonNumber::PosInt(2)))]),
    )
    .expect("json artifact")
    .with_renderer(RendererRequirement::required("json/v1").version("v1"));
    let pdf_artifact = ConfirmationArtifactInput::fetched_uri(
        "artifact_pdf",
        "application/pdf",
        "https://requester.example.com/disclosure.pdf",
        "sha256:abc123",
    )
    .with_renderer(RendererRequirement::required("pdf/v1"));

    let body = create_multi_artifact_confirmation_request(ConfirmationRequestInput {
        account_id: "acct_123".to_string(),
        requester_id: "app_123".to_string(),
        requester_display_name: Some("Example App".to_string()),
        responder: object(vec![("email", text("person@example.com"))]),
        artifacts: vec![
            ConfirmationArtifactInput::inline_markdown("statement", "Please review."),
            json_artifact,
            pdf_artifact,
        ],
        expires_at: "2026-06-25T00:00:00Z".to_string(),
        workflow_template_id: String::new(),
        audiences: None,
        disclosure_policy: None,
        evidence_policy: None,
        notification_policy: None,
        completion_delivery: Some(completion_delivery_async(vec![
            DeliveryChannel::pull(),
            DeliveryChannel::webhook("https://requester.example.com/webhooks/confirm"),
        ])),
        metadata: None,
    })
    .expect("multi artifact body");

    assert_eq!(
        pointer_str(&body, "/workflow_template_id"),
        Some(MULTI_ARTIFACT_REVIEW_WORKFLOW)
    );
    assert_eq!(
        pointer_str(&body, "/artifacts/1/content"),
        Some(r#"{"a":2,"z":1}"#)
    );
    assert_eq!(
        pointer_str(&body, "/artifacts/1/renderer/id"),
        Some("json/v1")
    );
    assert_eq!(
        pointer_str(&body, "/artifacts/2/uri"),
        Some("https://requester.example.com/disclosure.pdf")
    );
    assert_eq!(
        pointer_str(&body, "/artifacts/2/sha256"),
        Some("sha256:abc123")
    );
    assert_eq!(
        pointer_str(&body, "/completion_delivery/channels/1/type"),
        Some("webhook")
    );
}

#[test]
fn artifacts_leave_out_absent_fields() {
    let inline = ConfirmationArtifactInput::inline_text("t", "hello");
    assert_eq!(
        canonical_json(&inline.to_value()),
        r#"{"content":"hello","id":"t","media_type":"text/plain"}"#
    );
    let fetched = ConfirmationArtifactInput::fetched_uri("p", "application/pdf", "https://x/p.pdf", "sha256:h")
        .with_renderer(RendererRequirement::optional("pdf/v1"));
    assert_eq!(
        canonical_json(&fetched.to_value()),
        r#"{"id":"p","media_type":"application/pdf","renderer":{"id":"pdf/v1","required":false},"sha256":"sha256:h","uri":"https://x/p.pdf"}"#
    );
}

#[test]
fn renderer_requirements_as_json() {
    assert_eq!(
        canonical_json(&RendererRequirement::required("json/v1").version("v1").into_value()),
        r#"{"id":"json/v1","required":true,"version":"v1"}"#
    );
    assert_eq!(
        canonical_json(&RendererRequirement::optional("pdf/v1").into_value()),
        r#"{"id":"pdf/v1","required":false}"#
    );
}

#[test]
fn completion_deliveries_list_their_channels() {
    let delivery = completion_delivery_sync(vec![
        DeliveryChannel::redirect("https://x/done"),
        DeliveryChannel::pull(),
    ]);
    assert_eq!(
        canonical_json(&delivery),
        r#"{"channels":[{"type":"redirect","url":"https://x/done"},{"type":"pull"}],"mode":"sync"}"#
    );
    assert_eq!(
        canonical_json(&completion_delivery_async(vec![])),
        r#"{"channels":[],"mode":"async"}"#
    );
}
