//! Notifications, sampling, completion and roots.

use vstd::prelude::*;

use crate::json::{
    and_some, fields, item_views, no_members, put, put_some, put_some_bool, put_some_float,
    put_some_object, put_some_text, put_some_unsigned, put_text, signed_view, some_bool, some_float,
    some_object, some_text, some_unsigned, text_list, text_view, Float, Json, JsonView, Member,
    NumberView,
};
use crate::mcp::protocol::JSONRPC_VERSION;
use crate::mcp::schema::{float_or_null, float_or_null_json, Content};
use crate::text::views;

verus! {

/// Method of a progress notification.
pub const METHOD_PROGRESS: &'static str = "notifications/progress";

/// Method of a notification that an operation was called off.
pub const METHOD_CANCELLED: &'static str = "notifications/cancelled";

/// Method of a notification that an OAuth flow ended.
pub const METHOD_OAUTH_COMPLETED: &'static str = "notifications/oauth_completed";

/// The JSON of a notification.
pub open spec fn notification_json(jsonrpc: Seq<char>, method: Seq<char>, params: JsonView) -> JsonView {
    JsonView::Object(
        fields().push(("jsonrpc"@, JsonView::Text(jsonrpc))).push(
            ("method"@, JsonView::Text(method)),
        ).push(("params"@, params)),
    )
}

fn notification_to_json(jsonrpc: &str, method: &str, params: Json) -> (json: Json)
    ensures
        json@ == notification_json(jsonrpc@, method@, params@),
{
    let mut members = no_members();
    put_text(&mut members, "jsonrpc", jsonrpc);
    put_text(&mut members, "method", method);
    put(&mut members, "params", params);
    Json::object(members)
}

// ---------------------------------------------------------------------------
// Progress
// ---------------------------------------------------------------------------

/// How far a long operation got.
#[derive(Debug, Clone)]
pub struct ProgressNotification {
    /// JSON-RPC version.
    pub jsonrpc: String,
    /// Method.
    pub method: String,
    /// Parameters.
    pub params: ProgressParams,
}

/// How far a long operation got.
#[derive(Debug, Clone)]
pub struct ProgressParams {
    /// Token identifying the operation.
    pub progress_token: String,
    /// How far it got.
    pub progress: Float,
    /// How far it will go.
    pub total: Option<Float>,
    /// How far it got, in words.
    pub message: Option<String>,
}

impl ProgressParams {
    /// The JSON that stands for it.
    pub open spec fn wire(self) -> JsonView {
        JsonView::Object(
            and_some(
                fields().push(("progressToken"@, JsonView::Text(self.progress_token@))).push(
                    ("progress"@, self.progress.wire()),
                ).push(("total"@, float_or_null(self.total))),
                "message"@,
                some_text(text_view(self.message)),
            ),
        )
    }

    /// The JSON that stands for it.
    pub fn to_json(&self) -> (json: Json)
        ensures
            json@ == self.wire(),
    {
        let mut members = no_members();
        put_text(&mut members, "progressToken", self.progress_token.as_str());
        put(&mut members, "progress", self.progress.to_json());
        put(&mut members, "total", float_or_null_json(&self.total));
        put_some_text(&mut members, "message", &self.message);
        Json::object(members)
    }
}

impl ProgressNotification {
    /// The JSON that stands for it.
    pub open spec fn wire(self) -> JsonView {
        notification_json(self.jsonrpc@, self.method@, self.params.wire())
    }

    /// How far an operation got.
    pub fn new(
        progress_token: String,
        progress: Float,
        total: Option<Float>,
        message: Option<String>,
    ) -> (notification: Self)
        ensures
            notification.jsonrpc@ == JSONRPC_VERSION@,
            notification.method@ == METHOD_PROGRESS@,
            notification.params == (ProgressParams { progress_token, progress, total, message }),
    {
        ProgressNotification {
            jsonrpc: JSONRPC_VERSION.to_owned(),
            method: METHOD_PROGRESS.to_owned(),
            params: ProgressParams { progress_token, progress, total, message },
        }
    }

    /// That an operation was called off.
    pub fn cancelled(progress_token: String, message: Option<String>) -> (notification: Self)
        ensures
            notification.jsonrpc@ == JSONRPC_VERSION@,
            notification.method@ == METHOD_CANCELLED@,
            notification.params.progress_token == progress_token,
            notification.params.progress.wire() == JsonView::Number(NumberView::Float("0.0"@)),
            notification.params.total is None,
            notification.params.message == message,
    {
        ProgressNotification {
            jsonrpc: JSONRPC_VERSION.to_owned(),
            method: METHOD_CANCELLED.to_owned(),
            params: ProgressParams {
                progress_token,
                progress: Float::Finite("0.0".to_owned()),
                total: None,
                message,
            },
        }
    }

    /// The JSON that stands for it.
    pub fn to_json(&self) -> (json: Json)
        ensures
            json@ == self.wire(),
    {
        notification_to_json(self.jsonrpc.as_str(), self.method.as_str(), self.params.to_json())
    }
}

// ---------------------------------------------------------------------------
// OAuth
// ---------------------------------------------------------------------------

/// That an OAuth flow ended.
#[derive(Debug, Clone)]
pub struct OAuthCompletedNotification {
    /// JSON-RPC version.
    pub jsonrpc: String,
    /// Method.
    pub method: String,
    /// Parameters.
    pub params: OAuthCompletedParams,
}

/// How an OAuth flow ended.
#[derive(Debug, Clone)]
pub struct OAuthCompletedParams {
    /// The provider.
    pub provider: String,
    /// Whether it succeeded.
    pub success: bool,
    /// How it ended, in words.
    pub message: String,
    /// Whom it was for.
    pub user_id: Option<String>,
}

impl OAuthCompletedParams {
    /// The JSON that stands for it.
    pub open spec fn wire(self) -> JsonView {
        JsonView::Object(
            and_some(
                fields().push(("provider"@, JsonView::Text(self.provider@))).push(
                    ("success"@, JsonView::Bool(self.success)),
                ).push(("message"@, JsonView::Text(self.message@))),
                "user_id"@,
                some_text(text_view(self.user_id)),
            ),
        )
    }
}

impl OAuthCompletedNotification {
    /// The JSON that stands for it.
    pub open spec fn wire(self) -> JsonView {
        notification_json(self.jsonrpc@, self.method@, self.params.wire())
    }

    /// That an OAuth flow ended.
    pub fn new(provider: String, success: bool, message: String, user_id: Option<String>) -> (notification:
        Self)
        ensures
            notification.jsonrpc@ == JSONRPC_VERSION@,
            notification.method@ == METHOD_OAUTH_COMPLETED@,
            notification.params == (OAuthCompletedParams { provider, success, message, user_id }),
    {
        OAuthCompletedNotification {
            jsonrpc: JSONRPC_VERSION.to_owned(),
            method: METHOD_OAUTH_COMPLETED.to_owned(),
            params: OAuthCompletedParams { provider, success, message, user_id },
        }
    }

    /// The JSON that stands for it.
    pub fn to_json(&self) -> (json: Json)
        ensures
            json@ == self.wire(),
    {
        let mut members = no_members();
        put_text(&mut members, "provider", self.params.provider.as_str());
        put(&mut members, "success", Json::Bool(self.params.success));
        put_text(&mut members, "message", self.params.message.as_str());
        put_some_text(&mut members, "user_id", &self.params.user_id);
        notification_to_json(self.jsonrpc.as_str(), self.method.as_str(), Json::object(members))
    }
}

// ---------------------------------------------------------------------------
// Sampling
// ---------------------------------------------------------------------------

/// One message of a prompt.
#[derive(Debug, Clone)]
pub struct PromptMessage {
    /// Who speaks.
    pub role: String,
    /// What is said.
    pub content: Content,
}

impl PromptMessage {
    /// The JSON that stands for it.
    pub open spec fn wire(self) -> JsonView {
        JsonView::Object(
            fields().push(("role"@, JsonView::Text(self.role@))).push(
                ("content"@, self.content.wire()),
            ),
        )
    }

    /// A message of the user's.
    pub fn user(content: Content) -> (message: Self)
        ensures
            message.role@ == "user"@,
            message.content == content,
    {
        PromptMessage { role: "user".to_owned(), content }
    }

    /// A message of the assistant's.
    pub fn assistant(content: Content) -> (message: Self)
        ensures
            message.role@ == "assistant"@,
            message.content == content,
    {
        PromptMessage { role: "assistant".to_owned(), content }
    }

    /// The JSON that stands for it.
    pub fn to_json(&self) -> (json: Json)
        ensures
            json@ == self.wire(),
    {
        let mut members = no_members();
        put_text(&mut members, "role", self.role.as_str());
        put(&mut members, "content", self.content.to_json());
        Json::object(members)
    }
}

/// A hint at a model.
#[derive(Debug, Clone)]
pub struct ModelHint {
    /// The model's name.
    pub name: Option<String>,
}

/// Which models are preferred.
#[derive(Debug, Clone, Default)]
pub struct ModelPreferences {
    /// Hints, the preferred first.
    pub hints: Option<Vec<ModelHint>>,
    /// How much cost matters, from 0 to 1.
    pub cost_priority: Option<Float>,
    /// How much speed matters, from 0 to 1.
    pub speed_priority: Option<Float>,
    /// How much intelligence matters, from 0 to 1.
    pub intelligence_priority: Option<Float>,
}

/// The JSON of a hint.
pub open spec fn hint_json(hint: ModelHint) -> JsonView {
    JsonView::Object(and_some(fields(), "name"@, some_text(text_view(hint.name))))
}

/// The JSON of a list of hints that may be absent.
pub open spec fn some_hints(hints: Option<Vec<ModelHint>>) -> Option<JsonView> {
    match hints {
        Some(hints) => Some(JsonView::Array(Seq::new(hints@.len(), |i: int| hint_json(hints@[i])))),
        None => None,
    }
}

impl ModelPreferences {
    /// The JSON that stands for it.
    pub open spec fn wire(self) -> JsonView {
        let a = and_some(fields(), "hints"@, some_hints(self.hints));
        let b = and_some(a, "costPriority"@, some_float(self.cost_priority));
        let c = and_some(b, "speedPriority"@, some_float(self.speed_priority));
        JsonView::Object(and_some(c, "intelligencePriority"@, some_float(self.intelligence_priority)))
    }

    /// The JSON that stands for it.
    pub fn to_json(&self) -> (json: Json)
        ensures
            json@ == self.wire(),
    {
        let mut members = no_members();
        match &self.hints {
            Some(hints) => {
                let mut items: Vec<Json> = Vec::new();
                let mut i: usize = 0;
                while i < hints.len()
                    invariant
                        i <= hints.len(),
                        items.len() == i,
                        forall|k: int| 0 <= k < i ==> (#[trigger] items@[k])@ == hint_json(hints@[k]),
                    decreases hints.len() - i,
                {
                    let mut hint = no_members();
                    put_some_text(&mut hint, "name", &hints[i].name);
                    items.push(Json::object(hint));
                    i += 1;
                }
                assert(item_views(items@) =~= Seq::new(
                    hints@.len(),
                    |i: int| hint_json(hints@[i]),
                ));
                put(&mut members, "hints", Json::array(items));
            },
            None => {},
        }
        put_some_float(&mut members, "costPriority", &self.cost_priority);
        put_some_float(&mut members, "speedPriority", &self.speed_priority);
        put_some_float(&mut members, "intelligencePriority", &self.intelligence_priority);
        Json::object(members)
    }
}

/// A request to the client's model.
#[derive(Debug)]
pub struct CreateMessageRequest {
    /// The messages.
    pub messages: Vec<PromptMessage>,
    /// Which models are preferred.
    pub model_preferences: Option<ModelPreferences>,
    /// System prompt.
    pub system_prompt: Option<String>,
    /// Whose context is given.
    pub include_context: Option<String>,
    /// The most tokens to generate.
    pub max_tokens: i32,
    /// Sampling temperature.
    pub temperature: Option<Float>,
    /// Where to stop.
    pub stop_sequences: Option<Vec<String>>,
    /// Further metadata.
    pub metadata: Option<Vec<Member>>,
}

impl CreateMessageRequest {
    /// The JSON that stands for it.
    pub open spec fn wire(self) -> JsonView {
        let a = fields().push(
            (
                "messages"@,
                JsonView::Array(
                    Seq::new(self.messages@.len(), |i: int| self.messages@[i].wire()),
                ),
            ),
        );
        let b = and_some(
            a,
            "modelPreferences"@,
            match self.model_preferences {
                Some(preferences) => Some(preferences.wire()),
                None => None,
            },
        );
        let c = and_some(b, "systemPrompt"@, some_text(text_view(self.system_prompt)));
        let d = and_some(c, "includeContext"@, some_text(text_view(self.include_context)));
        let e = d.push(("maxTokens"@, signed_view(self.max_tokens as int)));
        let f = and_some(e, "temperature"@, some_float(self.temperature));
        let g = and_some(
            f,
            "stopSequences"@,
            match self.stop_sequences {
                Some(texts) => Some(text_list(views(texts@))),
                None => None,
            },
        );
        JsonView::Object(and_some(g, "metadata"@, some_object(self.metadata)))
    }

    /// The JSON that stands for it.
    pub fn to_json(&self) -> (json: Json)
        ensures
            json@ == self.wire(),
    {
        let mut items: Vec<Json> = Vec::new();
        let mut i: usize = 0;
        while i < self.messages.len()
            invariant
                i <= self.messages.len(),
                items.len() == i,
                forall|k: int| 0 <= k < i ==> (#[trigger] items@[k])@ == self.messages@[k].wire(),
            decreases self.messages.len() - i,
        {
            items.push(self.messages[i].to_json());
            i += 1;
        }
        assert(item_views(items@) =~= Seq::new(
            self.messages@.len(),
            |i: int| self.messages@[i].wire(),
        ));
        let mut members = no_members();
        put(&mut members, "messages", Json::array(items));
        let preferences = match &self.model_preferences {
            Some(preferences) => Some(preferences.to_json()),
            None => None,
        };
        put_some(&mut members, "modelPreferences", preferences);
        put_some_text(&mut members, "systemPrompt", &self.system_prompt);
        put_some_text(&mut members, "includeContext", &self.include_context);
        put(&mut members, "maxTokens", Json::signed(self.max_tokens as i64));
        put_some_float(&mut members, "temperature", &self.temperature);
        let stops = match &self.stop_sequences {
            Some(texts) => Some(Json::texts(texts)),
            None => None,
        };
        put_some(&mut members, "stopSequences", stops);
        put_some_object(&mut members, "metadata", &self.metadata);
        Json::object(members)
    }
}

/// What the client's model said.
#[derive(Debug, Clone)]
pub struct CreateMessageResult {
    /// Who speaks.
    pub role: String,
    /// What is said.
    pub content: MessageContent,
    /// The model.
    pub model: String,
    /// Why it stopped.
    pub stop_reason: Option<String>,
}

/// What is said.
#[derive(Debug, Clone)]
pub struct MessageContent {
    /// The kind of content.
    pub content_type: String,
    /// The text.
    pub text: String,
}

impl CreateMessageResult {
    /// The JSON that stands for it.
    pub open spec fn wire(self) -> JsonView {
        let content = JsonView::Object(
            fields().push(("type"@, JsonView::Text(self.content.content_type@))).push(
                ("text"@, JsonView::Text(self.content.text@)),
            ),
        );
        JsonView::Object(
            and_some(
                fields().push(("role"@, JsonView::Text(self.role@))).push(("content"@, content)).push(
                    ("model"@, JsonView::Text(self.model@)),
                ),
                "stopReason"@,
                some_text(text_view(self.stop_reason)),
            ),
        )
    }

    /// The JSON that stands for it.
    pub fn to_json(&self) -> (json: Json)
        ensures
            json@ == self.wire(),
    {
        let mut content = no_members();
        put_text(&mut content, "type", self.content.content_type.as_str());
        put_text(&mut content, "text", self.content.text.as_str());
        let mut members = no_members();
        put_text(&mut members, "role", self.role.as_str());
        put(&mut members, "content", Json::object(content));
        put_text(&mut members, "model", self.model.as_str());
        put_some_text(&mut members, "stopReason", &self.stop_reason);
        Json::object(members)
    }
}

// ---------------------------------------------------------------------------
// Completion
// ---------------------------------------------------------------------------

/// A request for suggestions.
#[derive(Debug, Clone)]
pub struct CompleteRequest {
    /// What is completed.
    pub ref_: CompletionReference,
    /// The argument that is completed.
    pub argument: ArgumentValue,
}

/// What is completed.
#[derive(Debug, Clone)]
pub struct CompletionReference {
    /// Its kind.
    pub type_: String,
    /// Its name.
    pub name: String,
}

/// An argument that is completed.
#[derive(Debug, Clone)]
pub struct ArgumentValue {
    /// Its name.
    pub name: String,
    /// What was typed so far.
    pub value: String,
}

/// The JSON of two texts by their names.
pub open spec fn two_texts(
    first: Seq<char>,
    a: Seq<char>,
    second: Seq<char>,
    b: Seq<char>,
) -> JsonView {
    JsonView::Object(fields().push((first, JsonView::Text(a))).push((second, JsonView::Text(b))))
}

pub(crate) fn two_texts_json(first: &str, a: &str, second: &str, b: &str) -> (json: Json)
    ensures
        json@ == two_texts(first@, a@, second@, b@),
{
    let mut members = no_members();
    put_text(&mut members, first, a);
    put_text(&mut members, second, b);
    Json::object(members)
}

impl CompleteRequest {
    /// The JSON that stands for it.
    pub open spec fn wire(self) -> JsonView {
        JsonView::Object(
            fields().push(
                ("ref"@, two_texts("type"@, self.ref_.type_@, "name"@, self.ref_.name@)),
            ).push(
                (
                    "argument"@,
                    two_texts("name"@, self.argument.name@, "value"@, self.argument.value@),
                ),
            ),
        )
    }

    /// The JSON that stands for it.
    pub fn to_json(&self) -> (json: Json)
        ensures
            json@ == self.wire(),
    {
        let mut members = no_members();
        put(
            &mut members,
            "ref",
            two_texts_json("type", self.ref_.type_.as_str(), "name", self.ref_.name.as_str()),
        );
        put(
            &mut members,
            "argument",
            two_texts_json("name", self.argument.name.as_str(), "value", self.argument.value.as_str()),
        );
        Json::object(members)
    }
}

/// Suggestions.
#[derive(Debug, Clone)]
pub struct CompleteResult {
    /// The suggestions.
    pub completion: Completion,
}

/// Suggestions.
#[derive(Debug, Clone)]
pub struct Completion {
    /// The suggestions.
    pub values: Vec<String>,
    /// How many there are in all.
    pub total: Option<usize>,
    /// Whether there are more.
    pub has_more: Option<bool>,
}

impl CompleteResult {
    /// The JSON that stands for it.
    pub open spec fn wire(self) -> JsonView {
        let list = and_some(
            and_some(
                fields().push(("values"@, text_list(views(self.completion.values@)))),
                "total"@,
                some_unsigned(
                    match self.completion.total {
                        Some(total) => Some(total as u64),
                        None => None,
                    },
                ),
            ),
            "hasMore"@,
            some_bool(self.completion.has_more),
        );
        JsonView::Object(fields().push(("completion"@, JsonView::Object(list))))
    }

    /// The JSON that stands for it.
    pub fn to_json(&self) -> (json: Json)
        ensures
            json@ == self.wire(),
    {
        let mut list = no_members();
        put(&mut list, "values", Json::texts(&self.completion.values));
        let total = match self.completion.total {
            Some(total) => Some(total as u64),
            None => None,
        };
        put_some_unsigned(&mut list, "total", total);
        put_some_bool(&mut list, "hasMore", self.completion.has_more);
        let mut members = no_members();
        put(&mut members, "completion", Json::object(list));
        Json::object(members)
    }
}

impl Default for CompleteResult {
    fn default() -> (result: Self)
        ensures
            result.completion.values@ == Seq::<String>::empty(),
            result.completion.total == Some(0usize),
            result.completion.has_more == Some(false),
    {
        CompleteResult {
            completion: Completion { values: Vec::new(), total: Some(0), has_more: Some(false) },
        }
    }
}

/// A root directory.
#[derive(Debug, Clone)]
pub struct Root {
    /// Its URI.
    pub uri: String,
    /// Its name.
    pub name: String,
}

impl Root {
    /// The JSON that stands for it.
    pub fn to_json(&self) -> (json: Json)
        ensures
            json@ == two_texts("uri"@, self.uri@, "name"@, self.name@),
    {
        two_texts_json("uri", self.uri.as_str(), "name", self.name.as_str())
    }
}

} // verus!
