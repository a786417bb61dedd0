//! Builders for the JSON bodies of confirmation requests.
use vstd::prelude::*;
use vstd::string::*;

use crate::error::ConfirmSdkError;
use crate::json::{
    canonical, canonical_json, json_model, json_text, lemma_items_model, lemma_members_model,
    members_model, items_model, lemma_first_member, member_value, Json, JsonValue,
};
use crate::{MULTI_ARTIFACT_REVIEW_WORKFLOW, TIGHT_CONFIRM_WORKFLOW};

verus! {

/// One artifact of a confirmation request: inline content, or a document
/// fetched from a URI and pinned by its hash, with an optional renderer.
#[derive(Clone, Debug)]
pub struct ConfirmationArtifactInput {
    pub id: String,
    pub media_type: String,
    pub content: Option<String>,
    pub uri: Option<String>,
    pub sha256: Option<String>,
    pub renderer: Option<JsonValue>,
}

/// The renderer an artifact asks for.
#[derive(Clone, Debug, PartialEq, Eq)]
pub struct RendererRequirement {
    pub id: String,
    pub required: bool,
    pub version: Option<String>,
}

/// A way of delivering the completion of a confirmation.
#[derive(Clone, Debug, PartialEq, Eq)]
pub struct DeliveryChannel {
    channel_type: String,
    url: Option<String>,
}

/// Everything a multi-artifact confirmation request holds; `None` policies
/// take their defaults.
#[derive(Clone, Debug)]
pub struct ConfirmationRequestInput {
    pub account_id: String,
    pub requester_id: String,
    pub requester_display_name: Option<String>,
    pub responder: JsonValue,
    pub artifacts: Vec<ConfirmationArtifactInput>,
    pub expires_at: String,
    pub workflow_template_id: String,
    pub audiences: Option<JsonValue>,
    pub disclosure_policy: Option<JsonValue>,
    pub evidence_policy: Option<JsonValue>,
    pub notification_policy: Option<JsonValue>,
    pub completion_delivery: Option<JsonValue>,
    pub metadata: Option<JsonValue>,
}

/// What a login or session-refresh confirmation request holds.
#[derive(Clone, Debug)]
pub struct IdentityConfirmationRequestInput {
    pub account_id: String,
    pub requester_id: String,
    pub app_name: String,
    pub responder: JsonValue,
    pub expires_at: String,
    pub prompt: Option<String>,
    pub identity_label: Option<String>,
    pub metadata: Option<JsonValue>,
}

/// A member with a text value.
pub open spec fn text_member(name: Seq<char>, value: Seq<char>) -> (Seq<char>, Json) {
    (name, Json::Str(value))
}

/// A member with a text value when there is one, no member otherwise.
pub open spec fn optional_text_member(name: Seq<char>, value: Option<String>) -> Seq<
    (Seq<char>, Json),
> {
    match value {
        Some(v) => seq![(name, Json::Str(v@))],
        None => seq![],
    }
}

/// A member with a document value when there is one, no member otherwise.
pub open spec fn optional_member(name: Seq<char>, value: Option<JsonValue>) -> Seq<
    (Seq<char>, Json),
> {
    match value {
        Some(v) => seq![(name, v@)],
        None => seq![],
    }
}

/// A document, or `default` when there is none.
pub open spec fn or_default(value: Option<JsonValue>, default: Json) -> Json {
    match value {
        Some(v) => v@,
        None => default,
    }
}

/// An artifact as JSON: its fields by name, the absent ones left out.
pub open spec fn artifact_model(a: ConfirmationArtifactInput) -> Json {
    Json::Object(
        optional_text_member("content"@, a.content) + seq![
            text_member("id"@, a.id@),
            text_member("media_type"@, a.media_type@),
        ] + optional_member("renderer"@, a.renderer) + optional_text_member("sha256"@, a.sha256)
            + optional_text_member("uri"@, a.uri),
    )
}

/// A renderer requirement as JSON.
pub open spec fn renderer_model(r: RendererRequirement) -> Json {
    Json::Object(
        seq![text_member("id"@, r.id@), ("required"@, Json::Bool(r.required))]
            + optional_text_member("version"@, r.version),
    )
}

/// The default audiences: requester and responder, restricted.
pub open spec fn default_audiences() -> Json {
    Json::Array(
        seq![
            Json::Object(
                seq![
                    text_member("id"@, "primary_audience"@),
                    (
                        "members"@,
                        Json::Array(
                            seq![
                                Json::Object(seq![text_member("type"@, "requester"@)]),
                                Json::Object(seq![text_member("type"@, "responder"@)]),
                            ],
                        ),
                    ),
                    text_member("mode"@, "restricted"@),
                ],
            ),
        ],
    )
}

/// The default disclosure policy: full access to the artifacts for the
/// primary audience.
pub open spec fn default_disclosure_policy() -> Json {
    Json::Object(
        seq![
            (
                "rules"@,
                Json::Array(
                    seq![
                        Json::Object(
                            seq![
                                text_member("access"@, "full"@),
                                text_member("audience"@, "primary_audience"@),
                                text_member("target"@, "artifacts"@),
                            ],
                        ),
                    ],
                ),
            ),
        ],
    )
}

/// The default evidence policy: Google OAuth.
pub open spec fn default_evidence_policy() -> Json {
    Json::Object(
        seq![
            (
                "any_of"@,
                Json::Array(
                    seq![
                        Json::Object(
                            seq![
                                (
                                    "all_of"@,
                                    Json::Array(
                                        seq![
                                            Json::Object(
                                                seq![
                                                    text_member("method"@, "oauth"@),
                                                    text_member("provider"@, "google"@),
                                                ],
                                            ),
                                        ],
                                    ),
                                ),
                            ],
                        ),
                    ],
                ),
            ),
        ],
    )
}

/// The default notification policy: managed by the requester.
pub open spec fn default_notification_policy() -> Json {
    Json::Object(
        seq![("channels"@, Json::Array(seq![])), text_member("mode"@, "requester_managed"@)],
    )
}

/// The default completion delivery: asynchronous, by pull.
pub open spec fn default_completion_delivery() -> Json {
    Json::Object(
        seq![
            ("channels"@, Json::Array(seq![Json::Object(seq![text_member("type"@, "pull"@)])])),
            text_member("mode"@, "async"@),
        ],
    )
}

/// The body of a confirmation request, members ordered by name.
pub open spec fn body_model(
    account_id: Seq<char>,
    requester_id: Seq<char>,
    display_name: Option<String>,
    responder: Json,
    artifacts: Seq<Json>,
    expires_at: Seq<char>,
    workflow_template_id: Seq<char>,
    audiences: Json,
    disclosure_policy: Json,
    evidence_policy: Json,
    notification_policy: Json,
    completion_delivery: Json,
    metadata: Json,
) -> Json {
    Json::Object(
        seq![
            text_member("account_id"@, account_id),
            ("artifacts"@, Json::Array(artifacts)),
            ("audiences"@, audiences),
            ("completion_delivery"@, completion_delivery),
            ("disclosure_policy"@, disclosure_policy),
            ("evidence_policy"@, evidence_policy),
            text_member("expires_at"@, expires_at),
            ("metadata"@, metadata),
            ("notification_policy"@, notification_policy),
            (
                "requester"@,
                Json::Object(
                    seq![
                        (
                            "display_name"@,
                            match display_name {
                                Some(n) => Json::Str(n@),
                                None => Json::Null,
                            },
                        ),
                        text_member("id"@, requester_id),
                    ],
                ),
            ),
            ("responder"@, responder),
            text_member("workflow_template_id"@, workflow_template_id),
        ],
    )
}

/// The body built from a request input, defaults filled in.
pub open spec fn request_body_model(input: ConfirmationRequestInput) -> Json {
    request_body_for(input, input.workflow_template_id@)
}

/// The body built from a request input with the given workflow template.
pub open spec fn request_body_for(input: ConfirmationRequestInput, workflow: Seq<char>) -> Json {
    body_model(
        input.account_id@,
        input.requester_id@,
        input.requester_display_name,
        input.responder@,
        input.artifacts@.map_values(|a: ConfirmationArtifactInput| artifact_model(a)),
        input.expires_at@,
        workflow,
        or_default(input.audiences, default_audiences()),
        or_default(input.disclosure_policy, default_disclosure_policy()),
        or_default(input.evidence_policy, default_evidence_policy()),
        or_default(input.notification_policy, default_notification_policy()),
        or_default(input.completion_delivery, default_completion_delivery()),
        or_default(input.metadata, Json::Object(seq![])),
    )
}

/// The prompt of a login request: the given one, or an invitation to share
/// the identity with the application.
pub open spec fn login_prompt(input: IdentityConfirmationRequestInput) -> Seq<char> {
    match input.prompt {
        Some(p) => p@,
        None => "You would like to share your identity with "@ + input.app_name@ + "."@,
    }
}

/// The prompt of a session-refresh request: the given one, or a resumption
/// prompt that names the identity when a label is given.
pub open spec fn session_refresh_prompt(input: IdentityConfirmationRequestInput) -> Seq<char> {
    match input.prompt {
        Some(p) => p@,
        None => match input.identity_label {
            Some(l) => "You are still "@ + l@ + " and wish to resume your session with "@
                + input.app_name@ + "."@,
            None => "You wish to resume your session with "@ + input.app_name@ + "."@,
        },
    }
}

/// The body of an identity request: one markdown artifact holding the
/// prompt, the tight workflow, the application as display name, and the
/// default policies.
pub open spec fn identity_body_model(
    input: IdentityConfirmationRequestInput,
    artifact_id: Seq<char>,
    prompt: Seq<char>,
) -> Json {
    body_model(
        input.account_id@,
        input.requester_id@,
        Some(input.app_name),
        input.responder@,
        seq![
            Json::Object(
                seq![
                    text_member("content"@, prompt),
                    text_member("id"@, artifact_id),
                    text_member("media_type"@, "text/markdown"@),
                ],
            ),
        ],
        input.expires_at@,
        TIGHT_CONFIRM_WORKFLOW@,
        default_audiences(),
        default_disclosure_policy(),
        default_evidence_policy(),
        default_notification_policy(),
        default_completion_delivery(),
        or_default(input.metadata, Json::Object(seq![])),
    )
}

fn text_value(s: &str) -> (v: JsonValue)
    ensures
        v@ == Json::Str(s@),
{
    JsonValue::String(String::from_str(s))
}

fn push_member(members: &mut Vec<(String, JsonValue)>, name: &str, value: JsonValue)
    ensures
        members_model(final(members)@) == members_model(old(members)@).push((name@, value@)),
{
    let ghost before = members@;
    members.push((String::from_str(name), value));
    assert(members@.subrange(0, members@.len() - 1) =~= before);
}

fn push_item(items: &mut Vec<JsonValue>, value: JsonValue)
    ensures
        items_model(final(items)@) == items_model(old(items)@).push(value@),
{
    let ghost before = items@;
    items.push(value);
    assert(items@.subrange(0, items@.len() - 1) =~= before);
}

fn object(members: Vec<(String, JsonValue)>) -> (v: JsonValue)
    ensures
        v@ == Json::Object(members_model(members@)),
{
    JsonValue::Object(members)
}

fn array(items: Vec<JsonValue>) -> (v: JsonValue)
    ensures
        v@ == Json::Array(items_model(items@)),
{
    JsonValue::Array(items)
}

fn one_member(name: &str, value: JsonValue) -> (v: JsonValue)
    ensures
        v@ == Json::Object(seq![(name@, value@)]),
{
    let mut ms: Vec<(String, JsonValue)> = Vec::new();
    push_member(&mut ms, name, value);
    assert(members_model(ms@) =~= seq![(name@, value@)]);
    object(ms)
}

fn one_item(value: JsonValue) -> (v: JsonValue)
    ensures
        v@ == Json::Array(seq![value@]),
{
    let mut items: Vec<JsonValue> = Vec::new();
    push_item(&mut items, value);
    assert(items_model(items@) =~= seq![value@]);
    array(items)
}

fn push_optional_text(members: &mut Vec<(String, JsonValue)>, name: &str, value: &Option<String>)
    ensures
        members_model(final(members)@) == members_model(old(members)@) + optional_text_member(
            name@,
            *value,
        ),
{
    match value {
        Some(v) => {
            push_member(members, name, JsonValue::String(v.clone()));
        },
        None => {
            assert(members_model(members@) =~= members_model(members@) + seq![]);
        },
    }
}

impl ConfirmationArtifactInput {
    /// A text artifact with inline content.
    pub fn inline_text(id: &str, content: &str) -> (a: Self)
        ensures
            a.id@ == id@,
            a.media_type@ == "text/plain"@,
            a.content matches Some(c) && c@ == content@,
            a.uri is None,
            a.sha256 is None,
            a.renderer is None,
    {
        Self::inline(id, "text/plain", content)
    }

    /// A markdown artifact with inline content.
    pub fn inline_markdown(id: &str, content: &str) -> (a: Self)
        ensures
            a.id@ == id@,
            a.media_type@ == "text/markdown"@,
            a.content matches Some(c) && c@ == content@,
            a.uri is None,
            a.sha256 is None,
            a.renderer is None,
    {
        Self::inline(id, "text/markdown", content)
    }

    /// A JSON artifact whose content is the canonical JSON text of `value`.
    pub fn inline_json(id: &str, value: &JsonValue) -> (res: Result<Self, ConfirmSdkError>)
        ensures
            res matches Ok(a) && a.id@ == id@ && a.media_type@ == "application/json"@ && (
            a.content matches Some(c) && c@ == json_text(canonical(value@))) && a.uri is None
                && a.sha256 is None && a.renderer is None,
    {
        let text = canonical_json(value);
        Ok(Self::inline(id, "application/json", text.as_str()))
    }

    /// An artifact fetched from `uri`, pinned by its `sha256` hash.
    pub fn fetched_uri(id: &str, media_type: &str, uri: &str, sha256: &str) -> (a: Self)
        ensures
            a.id@ == id@,
            a.media_type@ == media_type@,
            a.content is None,
            a.uri matches Some(u) && u@ == uri@,
            a.sha256 matches Some(h) && h@ == sha256@,
            a.renderer is None,
    {
        ConfirmationArtifactInput {
            id: String::from_str(id),
            media_type: String::from_str(media_type),
            content: None,
            uri: Some(String::from_str(uri)),
            sha256: Some(String::from_str(sha256)),
            renderer: None,
        }
    }

    /// This artifact, asking for `renderer`.
    pub fn with_renderer(self, renderer: RendererRequirement) -> (a: Self)
        ensures
            a.id == self.id,
            a.media_type == self.media_type,
            a.content == self.content,
            a.uri == self.uri,
            a.sha256 == self.sha256,
            a.renderer matches Some(r) && r@ == renderer_model(renderer),
    {
        let mut a = self;
        a.renderer = Some(renderer.into_value());
        a
    }

    fn inline(id: &str, media_type: &str, content: &str) -> (a: Self)
        ensures
            a.id@ == id@,
            a.media_type@ == media_type@,
            a.content matches Some(c) && c@ == content@,
            a.uri is None,
            a.sha256 is None,
            a.renderer is None,
    {
        ConfirmationArtifactInput {
            id: String::from_str(id),
            media_type: String::from_str(media_type),
            content: Some(String::from_str(content)),
            uri: None,
            sha256: None,
            renderer: None,
        }
    }

    /// This artifact as JSON (`artifact_model`).
    pub fn to_value(&self) -> (v: JsonValue)
        ensures
            v@ == artifact_model(*self),
    {
        let mut ms: Vec<(String, JsonValue)> = Vec::new();
        push_optional_text(&mut ms, "content", &self.content);
        push_member(&mut ms, "id", JsonValue::String(self.id.clone()));
        push_member(&mut ms, "media_type", JsonValue::String(self.media_type.clone()));
        let ghost mid = members_model(ms@);
        match &self.renderer {
            Some(r) => {
                push_member(&mut ms, "renderer", r.clone());
            },
            None => {},
        }
        assert(members_model(ms@) =~= mid + optional_member("renderer"@, self.renderer));
        push_optional_text(&mut ms, "sha256", &self.sha256);
        push_optional_text(&mut ms, "uri", &self.uri);
        assert(members_model(ms@) =~= optional_text_member("content"@, self.content) + seq![
            text_member("id"@, self.id@),
            text_member("media_type"@, self.media_type@),
        ] + optional_member("renderer"@, self.renderer) + optional_text_member(
            "sha256"@,
            self.sha256,
        ) + optional_text_member("uri"@, self.uri));
        object(ms)
    }
}

impl RendererRequirement {
    /// A renderer the artifact cannot be shown without.
    pub fn required(id: &str) -> (r: Self)
        ensures
            r.id@ == id@,
            r.required,
            r.version is None,
    {
        RendererRequirement { id: String::from_str(id), required: true, version: None }
    }

    /// A renderer the artifact prefers.
    pub fn optional(id: &str) -> (r: Self)
        ensures
            r.id@ == id@,
            !r.required,
            r.version is None,
    {
        RendererRequirement { id: String::from_str(id), required: false, version: None }
    }

    /// This requirement, pinned to `version`.
    pub fn version(self, version: &str) -> (r: Self)
        ensures
            r.id == self.id,
            r.required == self.required,
            r.version matches Some(v) && v@ == version@,
    {
        let mut r = self;
        r.version = Some(String::from_str(version));
        r
    }

    /// This requirement as JSON (`renderer_model`).
    pub fn into_value(self) -> (v: JsonValue)
        ensures
            v@ == renderer_model(self),
    {
        let mut ms: Vec<(String, JsonValue)> = Vec::new();
        push_member(&mut ms, "id", JsonValue::String(self.id.clone()));
        push_member(&mut ms, "required", JsonValue::Bool(self.required));
        push_optional_text(&mut ms, "version", &self.version);
        assert(members_model(ms@) =~= seq![
            text_member("id"@, self.id@),
            ("required"@, Json::Bool(self.required)),
        ] + optional_text_member("version"@, self.version));
        object(ms)
    }
}

impl DeliveryChannel {
    /// The kind of channel: `pull`, `webhook` or `redirect`.
    pub closed spec fn kind(&self) -> Seq<char> {
        self.channel_type@
    }

    /// The URL of a webhook or redirect channel.
    pub closed spec fn target(&self) -> Option<Seq<char>> {
        match self.url {
            Some(u) => Some(u@),
            None => None,
        }
    }

    /// This channel as JSON: its kind under `type`, and its URL under
    /// `url` when it has one.
    pub open spec fn model(&self) -> Json {
        Json::Object(
            seq![text_member("type"@, self.kind())] + match self.target() {
                Some(u) => seq![text_member("url"@, u)],
                None => seq![],
            },
        )
    }

    /// The requester pulls the completion.
    pub fn pull() -> (c: Self)
        ensures
            c.kind() == "pull"@,
            c.target() is None,
    {
        DeliveryChannel { channel_type: String::from_str("pull"), url: None }
    }

    /// The completion is posted to `url`.
    pub fn webhook(url: &str) -> (c: Self)
        ensures
            c.kind() == "webhook"@,
            c.target() == Some(url@),
    {
        DeliveryChannel { channel_type: String::from_str("webhook"), url: Some(String::from_str(url)) }
    }

    /// The responder is redirected to `url`.
    pub fn redirect(url: &str) -> (c: Self)
        ensures
            c.kind() == "redirect"@,
            c.target() == Some(url@),
    {
        DeliveryChannel {
            channel_type: String::from_str("redirect"),
            url: Some(String::from_str(url)),
        }
    }

    fn into_value(self) -> (v: JsonValue)
        ensures
            v@ == self.model(),
    {
        let mut ms: Vec<(String, JsonValue)> = Vec::new();
        push_member(&mut ms, "type", JsonValue::String(self.channel_type.clone()));
        push_optional_text(&mut ms, "url", &self.url);
        assert(members_model(ms@) =~= self.model()->Object_0);
        object(ms)
    }
}

/// A completion delivery in `mode` over `channels`.
pub open spec fn delivery_model(mode: Seq<char>, channels: Seq<DeliveryChannel>) -> Json {
    Json::Object(
        seq![
            ("channels"@, Json::Array(channels.map_values(|c: DeliveryChannel| c.model()))),
            text_member("mode"@, mode),
        ],
    )
}

fn completion_delivery(mode: &str, channels: Vec<DeliveryChannel>) -> (v: JsonValue)
    ensures
        v@ == delivery_model(mode@, channels@),
{
    let mut items: Vec<JsonValue> = Vec::new();
    let ghost all = channels@;
    let mut rest = channels;
    let mut i: usize = 0;
    let n = rest.len();
    while i < n
        invariant
            n == all.len(),
            i <= n,
            rest@ =~= all.subrange(i as int, n as int),
            items_model(items@) =~= all.subrange(0, i as int).map_values(
                |c: DeliveryChannel| c.model(),
            ),
        decreases n - i,
    {
        let c = rest.remove(0);
        assert(c == all[i as int]);
        push_item(&mut items, c.into_value());
        i = i + 1;
        assert(all.subrange(0, i as int) =~= all.subrange(0, i - 1).push(all[i - 1]));
    }
    assert(all.subrange(0, n as int) =~= all);
    let mut ms: Vec<(String, JsonValue)> = Vec::new();
    push_member(&mut ms, "channels", array(items));
    push_member(&mut ms, "mode", text_value(mode));
    assert(members_model(ms@) =~= delivery_model(mode@, all)->Object_0);
    object(ms)
}

/// An asynchronous completion delivery over `channels`.
pub fn completion_delivery_async(channels: Vec<DeliveryChannel>) -> (v: JsonValue)
    ensures
        v@ == delivery_model("async"@, channels@),
{
    completion_delivery("async", channels)
}

/// A synchronous completion delivery over `channels`.
pub fn completion_delivery_sync(channels: Vec<DeliveryChannel>) -> (v: JsonValue)
    ensures
        v@ == delivery_model("sync"@, channels@),
{
    completion_delivery("sync", channels)
}

fn default_audiences_value() -> (v: JsonValue)
    ensures
        v@ == default_audiences(),
{
    let mut members: Vec<JsonValue> = Vec::new();
    push_item(&mut members, one_member("type", text_value("requester")));
    push_item(&mut members, one_member("type", text_value("responder")));
    assert(items_model(members@) =~~= seq![
        Json::Object(seq![text_member("type"@, "requester"@)]),
        Json::Object(seq![text_member("type"@, "responder"@)]),
    ]);
    let mut ms: Vec<(String, JsonValue)> = Vec::new();
    push_member(&mut ms, "id", text_value("primary_audience"));
    push_member(&mut ms, "members", array(members));
    push_member(&mut ms, "mode", text_value("restricted"));
    assert(members_model(ms@) =~~= default_audiences()->Array_0[0]->Object_0);
    let v = one_item(object(ms));
    assert(v@ =~~= default_audiences());
    v
}

fn default_disclosure_policy_value() -> (v: JsonValue)
    ensures
        v@ == default_disclosure_policy(),
{
    let mut ms: Vec<(String, JsonValue)> = Vec::new();
    push_member(&mut ms, "access", text_value("full"));
    push_member(&mut ms, "audience", text_value("primary_audience"));
    push_member(&mut ms, "target", text_value("artifacts"));
    let ghost rule = Json::Object(
        seq![
            text_member("access"@, "full"@),
            text_member("audience"@, "primary_audience"@),
            text_member("target"@, "artifacts"@),
        ],
    );
    assert(members_model(ms@) =~~= rule->Object_0);
    let r = object(ms);
    assert(r@ == rule);
    let v = one_member("rules", one_item(r));
    assert(v@ =~~= default_disclosure_policy());
    v
}

fn default_evidence_policy_value() -> (v: JsonValue)
    ensures
        v@ == default_evidence_policy(),
{
    let mut ms: Vec<(String, JsonValue)> = Vec::new();
    push_member(&mut ms, "method", text_value("oauth"));
    push_member(&mut ms, "provider", text_value("google"));
    let ghost method = Json::Object(
        seq![text_member("method"@, "oauth"@), text_member("provider"@, "google"@)],
    );
    assert(members_model(ms@) =~~= method->Object_0);
    let m = object(ms);
    assert(m@ == method);
    let all = one_member("all_of", one_item(m));
    let v = one_member("any_of", one_item(all));
    assert(v@ =~~= default_evidence_policy());
    v
}

fn default_notification_policy_value() -> (v: JsonValue)
    ensures
        v@ == default_notification_policy(),
{
    let mut ms: Vec<(String, JsonValue)> = Vec::new();
    let empty: Vec<JsonValue> = Vec::new();
    let e = array(empty);
    assert(e@ =~~= Json::Array(seq![]));
    push_member(&mut ms, "channels", e);
    push_member(&mut ms, "mode", text_value("requester_managed"));
    assert(members_model(ms@) =~~= default_notification_policy()->Object_0);
    object(ms)
}

fn default_completion_delivery_value() -> (v: JsonValue)
    ensures
        v@ == default_completion_delivery(),
{
    let mut ms: Vec<(String, JsonValue)> = Vec::new();
    let pull = one_member("type", text_value("pull"));
    assert(pull@ == Json::Object(seq![text_member("type"@, "pull"@)]));
    push_member(&mut ms, "channels", one_item(pull));
    push_member(&mut ms, "mode", text_value("async"));
    assert(members_model(ms@) =~~= default_completion_delivery()->Object_0);
    object(ms)
}

fn value_or(value: Option<JsonValue>, default: JsonValue) -> (v: JsonValue)
    ensures
        v@ == or_default(value, default@),
{
    match value {
        Some(x) => x,
        None => default,
    }
}

fn empty_object() -> (v: JsonValue)
    ensures
        v@ == Json::Object(seq![]),
{
    let ms: Vec<(String, JsonValue)> = Vec::new();
    let v = object(ms);
    assert(v@ =~= Json::Object(seq![]));
    v
}

/// The body of a confirmation request (`request_body_model`): its fields
/// by name, absent policies replaced by their defaults.
pub fn confirmation_request_body(input: ConfirmationRequestInput) -> (res: Result<
    JsonValue,
    ConfirmSdkError,
>)
    ensures
        res matches Ok(v) && v@ == request_body_model(input),
{
    let ghost model = request_body_model(input);
    let ghost arts = input.artifacts@;
    let mut items: Vec<JsonValue> = Vec::new();
    let n = input.artifacts.len();
    for i in 0..n
        invariant
            n == arts.len(),
            arts == input.artifacts@,
            items_model(items@) =~= arts.subrange(0, i as int).map_values(
                |a: ConfirmationArtifactInput| artifact_model(a),
            ),
    {
        push_item(&mut items, input.artifacts[i].to_value());
        assert(arts.subrange(0, i + 1) =~= arts.subrange(0, i as int).push(arts[i as int]));
    }
    assert(arts.subrange(0, n as int) =~= arts);
    let mut requester: Vec<(String, JsonValue)> = Vec::new();
    let display = match &input.requester_display_name {
        Some(d) => JsonValue::String(d.clone()),
        None => JsonValue::Null,
    };
    push_member(&mut requester, "display_name", display);
    push_member(&mut requester, "id", JsonValue::String(input.requester_id.clone()));
    assert(members_model(requester@) =~~= model->Object_0[9].1->Object_0);
    let requester = object(requester);
    let mut ms: Vec<(String, JsonValue)> = Vec::new();
    push_member(&mut ms, "account_id", JsonValue::String(input.account_id.clone()));
    push_member(&mut ms, "artifacts", array(items));
    push_member(&mut ms, "audiences", value_or(input.audiences, default_audiences_value()));
    push_member(
        &mut ms,
        "completion_delivery",
        value_or(input.completion_delivery, default_completion_delivery_value()),
    );
    push_member(
        &mut ms,
        "disclosure_policy",
        value_or(input.disclosure_policy, default_disclosure_policy_value()),
    );
    push_member(
        &mut ms,
        "evidence_policy",
        value_or(input.evidence_policy, default_evidence_policy_value()),
    );
    push_member(&mut ms, "expires_at", JsonValue::String(input.expires_at.clone()));
    push_member(&mut ms, "metadata", value_or(input.metadata, empty_object()));
    push_member(
        &mut ms,
        "notification_policy",
        value_or(input.notification_policy, default_notification_policy_value()),
    );
    push_member(&mut ms, "requester", requester);
    push_member(&mut ms, "responder", input.responder);
    push_member(
        &mut ms,
        "workflow_template_id",
        JsonValue::String(input.workflow_template_id.clone()),
    );
    assert(members_model(ms@) =~~= model->Object_0);
    Ok(object(ms))
}

/// A multi-artifact confirmation request: the body of the input with the
/// multi-artifact review workflow.
pub fn create_multi_artifact_confirmation_request(input: ConfirmationRequestInput) -> (res: Result<
    JsonValue,
    ConfirmSdkError,
>)
    ensures
        res matches Ok(v) && v@ == request_body_for(input, MULTI_ARTIFACT_REVIEW_WORKFLOW@),
{
    let mut input = input;
    input.workflow_template_id = String::from_str(MULTI_ARTIFACT_REVIEW_WORKFLOW);
    confirmation_request_body(input)
}

/// A login confirmation request (`identity_body_model` with the
/// `login_prompt` artifact).
pub fn create_login_confirmation_request(input: IdentityConfirmationRequestInput) -> (res: Result<
    JsonValue,
    ConfirmSdkError,
>)
    ensures
        res matches Ok(v) && v@ == identity_body_model(input, "login_prompt"@, login_prompt(input)),
{
    let prompt = match &input.prompt {
        Some(p) => p.clone(),
        None => {
            let mut p = String::from_str("You would like to share your identity with ");
            p.append(input.app_name.as_str());
            p.append(".");
            p
        },
    };
    identity_confirmation_request(input, "login_prompt", prompt.as_str())
}

/// A session-refresh confirmation request (`identity_body_model` with the
/// `session_refresh_prompt` artifact).
pub fn create_session_refresh_confirmation_request(input: IdentityConfirmationRequestInput) -> (res:
    Result<JsonValue, ConfirmSdkError>)
    ensures
        res matches Ok(v) && v@ == identity_body_model(
            input,
            "session_refresh_prompt"@,
            session_refresh_prompt(input),
        ),
{
    let prompt = match &input.prompt {
        Some(p) => p.clone(),
        None => match &input.identity_label {
            Some(label) => {
                let mut p = String::from_str("You are still ");
                p.append(label.as_str());
                p.append(" and wish to resume your session with ");
                p.append(input.app_name.as_str());
                p.append(".");
                p
            },
            None => {
                let mut p = String::from_str("You wish to resume your session with ");
                p.append(input.app_name.as_str());
                p.append(".");
                p
            },
        },
    };
    identity_confirmation_request(input, "session_refresh_prompt", prompt.as_str())
}

fn identity_confirmation_request(
    input: IdentityConfirmationRequestInput,
    artifact_id: &str,
    prompt: &str,
) -> (res: Result<JsonValue, ConfirmSdkError>)
    ensures
        res matches Ok(v) && v@ == identity_body_model(input, artifact_id@, prompt@),
{
    let ghost model = identity_body_model(input, artifact_id@, prompt@);
    let artifact = ConfirmationArtifactInput {
        id: String::from_str(artifact_id),
        media_type: String::from_str("text/markdown"),
        content: Some(String::from_str(prompt)),
        uri: None,
        sha256: None,
        renderer: None,
    };
    assert(optional_text_member("content"@, artifact.content) =~= seq![
        text_member("content"@, prompt@),
    ]);
    assert(artifact_model(artifact)->Object_0 =~= seq![
        text_member("content"@, prompt@),
        text_member("id"@, artifact_id@),
        text_member("media_type"@, "text/markdown"@),
    ]);
    let mut artifacts: Vec<ConfirmationArtifactInput> = Vec::new();
    artifacts.push(artifact);
    let body_input = ConfirmationRequestInput {
        account_id: input.account_id,
        requester_id: input.requester_id,
        requester_display_name: Some(input.app_name),
        responder: input.responder,
        artifacts,
        expires_at: input.expires_at,
        workflow_template_id: String::from_str(TIGHT_CONFIRM_WORKFLOW),
        audiences: None,
        disclosure_policy: None,
        evidence_policy: None,
        notification_policy: None,
        completion_delivery: None,
        metadata: input.metadata,
    };
    let ghost arts = body_input.artifacts@.map_values(
        |a: ConfirmationArtifactInput| artifact_model(a),
    );
    assert(arts[0] =~~= model->Object_0[1].1->Array_0[0]);
    assert(arts =~~= model->Object_0[1].1->Array_0);
    let res = confirmation_request_body(body_input);
    assert(request_body_model(body_input) =~~= model);
    res
}

/// The names of the members of a request body, in the order it has them.
spec fn body_member_names() -> Seq<Seq<char>> {
    seq![
        "account_id"@,
        "artifacts"@,
        "audiences"@,
        "completion_delivery"@,
        "disclosure_policy"@,
        "evidence_policy"@,
        "expires_at"@,
        "metadata"@,
        "notification_policy"@,
        "requester"@,
        "responder"@,
        "workflow_template_id"@,
    ]
}

proof fn lemma_body_member_names_distinct()
    ensures
        body_member_names().len() == 12,
        forall|i: int, k: int|
            0 <= i < k < 12 ==> #[trigger] body_member_names()[i] != #[trigger] body_member_names()[k],
{
    reveal_strlit("account_id");
    reveal_strlit("artifacts");
    reveal_strlit("audiences");
    reveal_strlit("completion_delivery");
    reveal_strlit("disclosure_policy");
    reveal_strlit("evidence_policy");
    reveal_strlit("expires_at");
    reveal_strlit("metadata");
    reveal_strlit("notification_policy");
    reveal_strlit("requester");
    reveal_strlit("responder");
    reveal_strlit("workflow_template_id");
    let names = body_member_names();
    assert forall|i: int, k: int| 0 <= i < k < 12 implies #[trigger] names[i] != #[trigger] names[k] by {
        let (a, b) = (names[i], names[k]);
        if a.len() == b.len() {
            assert(a[0] != b[0] || a[1] != b[1] || a[2] != b[2]);
        }
    }
}

/// Each member of a body is found under its name.
proof fn lemma_body_model_members(
    account_id: Seq<char>,
    requester_id: Seq<char>,
    display_name: Option<String>,
    responder: Json,
    artifacts: Seq<Json>,
    expires_at: Seq<char>,
    workflow_template_id: Seq<char>,
    audiences: Json,
    disclosure_policy: Json,
    evidence_policy: Json,
    notification_policy: Json,
    completion_delivery: Json,
    metadata: Json,
)
    ensures
        ({
            let body = body_model(
                account_id,
                requester_id,
                display_name,
                responder,
                artifacts,
                expires_at,
                workflow_template_id,
                audiences,
                disclosure_policy,
                evidence_policy,
                notification_policy,
                completion_delivery,
                metadata,
            );
            &&& member_value(body, "account_id"@) == Some(Json::Str(account_id))
            &&& member_value(body, "artifacts"@) == Some(Json::Array(artifacts))
            &&& member_value(body, "audiences"@) == Some(audiences)
            &&& member_value(body, "completion_delivery"@) == Some(completion_delivery)
            &&& member_value(body, "disclosure_policy"@) == Some(disclosure_policy)
            &&& member_value(body, "evidence_policy"@) == Some(evidence_policy)
            &&& member_value(body, "expires_at"@) == Some(Json::Str(expires_at))
            &&& member_value(body, "metadata"@) == Some(metadata)
            &&& member_value(body, "notification_policy"@) == Some(notification_policy)
            &&& member_value(body, "requester"@) == Some(
                Json::Object(
                    seq![
                        (
                            "display_name"@,
                            match display_name {
                                Some(n) => Json::Str(n@),
                                None => Json::Null,
                            },
                        ),
                        ("id"@, Json::Str(requester_id)),
                    ],
                ),
            )
            &&& member_value(body, "responder"@) == Some(responder)
            &&& member_value(body, "workflow_template_id"@) == Some(
                Json::Str(workflow_template_id),
            )
        }),
{
    let body = body_model(
        account_id,
        requester_id,
        display_name,
        responder,
        artifacts,
        expires_at,
        workflow_template_id,
        audiences,
        disclosure_policy,
        evidence_policy,
        notification_policy,
        completion_delivery,
        metadata,
    );
    let m = body->Object_0;
    let names = body_member_names();
    lemma_body_member_names_distinct();
    assert(m.len() == 12);
    assert forall|j: int| 0 <= j < 12 implies (#[trigger] m[j]).0 == names[j] by {}
    assert forall|p: int| 0 <= p < 12 implies member_value(body, names[p]) == Some(
        (#[trigger] m[p]).1,
    ) by {
        assert forall|j: int| 0 <= j < p implies (#[trigger] m[j]).0 != names[p] by {
            assert(names[j] != names[p]);
        }
        lemma_first_member(m, names[p], p);
    }
    assert(member_value(body, names[0]) == Some(m[0].1));
    assert(member_value(body, names[1]) == Some(m[1].1));
    assert(member_value(body, names[2]) == Some(m[2].1));
    assert(member_value(body, names[3]) == Some(m[3].1));
    assert(member_value(body, names[4]) == Some(m[4].1));
    assert(member_value(body, names[5]) == Some(m[5].1));
    assert(member_value(body, names[6]) == Some(m[6].1));
    assert(member_value(body, names[7]) == Some(m[7].1));
    assert(member_value(body, names[8]) == Some(m[8].1));
    assert(member_value(body, names[9]) == Some(m[9].1));
    assert(member_value(body, names[10]) == Some(m[10].1));
    assert(member_value(body, names[11]) == Some(m[11].1));
}

/// A request body carries each field of its input under the field's name,
/// and the given workflow. A policy, delivery or metadata that the input
/// gives is taken as given; only an absent one is replaced by its default
/// (an empty object for the metadata).
pub proof fn lemma_request_body_fields(input: ConfirmationRequestInput, workflow: Seq<char>)
    ensures
        ({
            let body = request_body_for(input, workflow);
            &&& member_value(body, "account_id"@) == Some(Json::Str(input.account_id@))
            &&& member_value(body, "artifacts"@) == Some(
                Json::Array(input.artifacts@.map_values(|a: ConfirmationArtifactInput| artifact_model(a))),
            )
            &&& member_value(body, "audiences"@) == Some(
                match input.audiences {
                    Some(v) => v@,
                    None => default_audiences(),
                },
            )
            &&& member_value(body, "completion_delivery"@) == Some(
                match input.completion_delivery {
                    Some(v) => v@,
                    None => default_completion_delivery(),
                },
            )
            &&& member_value(body, "disclosure_policy"@) == Some(
                match input.disclosure_policy {
                    Some(v) => v@,
                    None => default_disclosure_policy(),
                },
            )
            &&& member_value(body, "evidence_policy"@) == Some(
                match input.evidence_policy {
                    Some(v) => v@,
                    None => default_evidence_policy(),
                },
            )
            &&& member_value(body, "expires_at"@) == Some(Json::Str(input.expires_at@))
            &&& member_value(body, "metadata"@) == Some(
                match input.metadata {
                    Some(v) => v@,
                    None => Json::Object(seq![]),
                },
            )
            &&& member_value(body, "notification_policy"@) == Some(
                match input.notification_policy {
                    Some(v) => v@,
                    None => default_notification_policy(),
                },
            )
            &&& member_value(body, "requester"@) == Some(
                Json::Object(
                    seq![
                        (
                            "display_name"@,
                            match input.requester_display_name {
                                Some(n) => Json::Str(n@),
                                None => Json::Null,
                            },
                        ),
                        ("id"@, Json::Str(input.requester_id@)),
                    ],
                ),
            )
            &&& member_value(body, "responder"@) == Some(input.responder@)
            &&& member_value(body, "workflow_template_id"@) == Some(Json::Str(workflow))
        }),
{
    lemma_body_model_members(
        input.account_id@,
        input.requester_id@,
        input.requester_display_name,
        input.responder@,
        input.artifacts@.map_values(|a: ConfirmationArtifactInput| artifact_model(a)),
        input.expires_at@,
        workflow,
        or_default(input.audiences, default_audiences()),
        or_default(input.disclosure_policy, default_disclosure_policy()),
        or_default(input.evidence_policy, default_evidence_policy()),
        or_default(input.notification_policy, default_notification_policy()),
        or_default(input.completion_delivery, default_completion_delivery()),
        or_default(input.metadata, Json::Object(seq![])),
    );
}

/// The one artifact of an identity request: markdown text with this id
/// and content.
pub open spec fn prompt_artifact(id: Seq<char>, content: Seq<char>) -> Json {
    Json::Object(
        seq![
            text_member("content"@, content),
            text_member("id"@, id),
            text_member("media_type"@, "text/markdown"@),
        ],
    )
}

/// A login request body holds one markdown artifact, `login_prompt`, whose
/// content is the input's prompt when it gives one, and otherwise the
/// invitation to share the identity with the application; the workflow is
/// the tight confirmation.
pub proof fn lemma_login_body(input: IdentityConfirmationRequestInput)
    ensures
        ({
            let body = identity_body_model(input, "login_prompt"@, login_prompt(input));
            &&& member_value(body, "artifacts"@) == Some(
                Json::Array(
                    seq![
                        prompt_artifact(
                            "login_prompt"@,
                            match input.prompt {
                                Some(p) => p@,
                                None => "You would like to share your identity with "@
                                    + input.app_name@ + "."@,
                            },
                        ),
                    ],
                ),
            )
            &&& member_value(body, "workflow_template_id"@) == Some(
                Json::Str(TIGHT_CONFIRM_WORKFLOW@),
            )
        }),
{
    identity_body_members(input, "login_prompt"@, login_prompt(input));
}

/// A session-refresh request body holds one markdown artifact,
/// `session_refresh_prompt`, whose content is the input's prompt when it
/// gives one; otherwise a resumption prompt that names the identity label
/// when there is one; the workflow is the tight confirmation.
pub proof fn lemma_session_refresh_body(input: IdentityConfirmationRequestInput)
    ensures
        ({
            let body = identity_body_model(
                input,
                "session_refresh_prompt"@,
                session_refresh_prompt(input),
            );
            &&& member_value(body, "artifacts"@) == Some(
                Json::Array(
                    seq![
                        prompt_artifact(
                            "session_refresh_prompt"@,
                            match (input.prompt, input.identity_label) {
                                (Some(p), _) => p@,
                                (None, Some(l)) => "You are still "@ + l@
                                    + " and wish to resume your session with "@ + input.app_name@
                                    + "."@,
                                (None, None) => "You wish to resume your session with "@
                                    + input.app_name@ + "."@,
                            },
                        ),
                    ],
                ),
            )
            &&& member_value(body, "workflow_template_id"@) == Some(
                Json::Str(TIGHT_CONFIRM_WORKFLOW@),
            )
        }),
{
    identity_body_members(input, "session_refresh_prompt"@, session_refresh_prompt(input));
}

proof fn identity_body_members(
    input: IdentityConfirmationRequestInput,
    artifact_id: Seq<char>,
    prompt: Seq<char>,
)
    ensures
        ({
            let body = identity_body_model(input, artifact_id, prompt);
            &&& member_value(body, "artifacts"@) == Some(
                Json::Array(seq![prompt_artifact(artifact_id, prompt)]),
            )
            &&& member_value(body, "workflow_template_id"@) == Some(
                Json::Str(TIGHT_CONFIRM_WORKFLOW@),
            )
        }),
{
    lemma_body_model_members(
        input.account_id@,
        input.requester_id@,
        Some(input.app_name),
        input.responder@,
        seq![prompt_artifact(artifact_id, prompt)],
        input.expires_at@,
        TIGHT_CONFIRM_WORKFLOW@,
        default_audiences(),
        default_disclosure_policy(),
        default_evidence_policy(),
        default_notification_policy(),
        default_completion_delivery(),
        or_default(input.metadata, Json::Object(seq![])),
    );
    assert(identity_body_model(input, artifact_id, prompt) == body_model(
        input.account_id@,
        input.requester_id@,
        Some(input.app_name),
        input.responder@,
        seq![prompt_artifact(artifact_id, prompt)],
        input.expires_at@,
        TIGHT_CONFIRM_WORKFLOW@,
        default_audiences(),
        default_disclosure_policy(),
        default_evidence_policy(),
        default_notification_policy(),
        default_completion_delivery(),
        or_default(input.metadata, Json::Object(seq![])),
    ));
    let body = identity_body_model(input, artifact_id, prompt);
    assert(member_value(body, "artifacts"@) == Some(
        Json::Array(seq![prompt_artifact(artifact_id, prompt)]),
    ));
    assert(member_value(body, "workflow_template_id"@) == Some(Json::Str(TIGHT_CONFIRM_WORKFLOW@)));
}

} // verus!
