//! Reading requests to a client's model, suggestions and roots.

use vstd::prelude::*;

use crate::decode::{field, field_view, view_of};
use crate::json::{
    and_some, fields, group_find_member, item_views, signed_view, some_bool,
    some_float, some_object, some_text, some_unsigned, text_view, Float, Json, JsonView, Number,
    NumberView,
};
use crate::mcp::capabilities::{
    check_record, is_optional_bool, is_optional_map, is_optional_text, is_record, optional_bool,
    optional_map, optional_text, read_optional_map, read_optional_text, text_of,
};
use crate::mcp::json_schema::reading::{
    is_optional_number, is_optional_texts, optional_number, read_optional_float, read_texts,
};
use crate::mcp::json_schema::some_texts;
use crate::mcp::messages::{
    hint_json, some_hints, two_texts, CompleteResult, Completion, CreateMessageRequest, ModelHint,
    ModelPreferences, PromptMessage, Root,
};
use crate::mcp::protocol::optional;
use crate::mcp::reading::handshake::{lemma_small_integer, read_small_integer, small_integer};
use crate::mcp::reading::{
    is_prompt_message, is_two_texts, lemma_two_texts, present, prompt_message_read, read_two_texts,
    two_texts_read, written_prompt_message_reads_back,
};
use crate::mcp::schema::read_flag;

verus! {

// ---------------------------------------------------------------------------
// Preferred models
// ---------------------------------------------------------------------------

/// Whether a document is a hint at a model.
pub open spec fn is_hint(json: JsonView) -> bool {
    is_record(json, 1, 1) && is_optional_text(field_view(json, "name"@, 0))
}

/// What a document shows of a hint at a model, and nothing besides.
pub open spec fn hint_read(json: JsonView) -> JsonView {
    JsonView::Object(
        and_some(fields(), "name"@, some_text(optional_text(field_view(json, "name"@, 0)))),
    )
}

/// Whether an optional field is absent, `null`, or a list of hints.
pub open spec fn is_optional_hints(member: Option<JsonView>) -> bool {
    match optional(member) {
        None => true,
        Some(JsonView::Array(items)) => forall|i: int|
            0 <= i < items.len() ==> is_hint(#[trigger] items[i]),
        _ => false,
    }
}

/// What an optional list of hints shows.
pub open spec fn hints_said(member: Option<JsonView>) -> Option<JsonView> {
    match member {
        Some(JsonView::Array(items)) => Some(
            JsonView::Array(Seq::new(items.len(), |i: int| hint_read(items[i]))),
        ),
        _ => None,
    }
}

/// Whether a document says which models are preferred.
pub open spec fn is_preferences(json: JsonView) -> bool {
    &&& is_record(json, 4, 4)
    &&& is_optional_hints(field_view(json, "hints"@, 0))
    &&& is_optional_number(field_view(json, "costPriority"@, 1))
    &&& is_optional_number(field_view(json, "speedPriority"@, 2))
    &&& is_optional_number(field_view(json, "intelligencePriority"@, 3))
}

/// What a document shows of which models are preferred, and nothing besides.
pub open spec fn preferences_read(json: JsonView) -> JsonView {
    let a = and_some(fields(), "hints"@, hints_said(field_view(json, "hints"@, 0)));
    let b = and_some(a, "costPriority"@, optional_number(field_view(json, "costPriority"@, 1)));
    let c = and_some(b, "speedPriority"@, optional_number(field_view(json, "speedPriority"@, 2)));
    JsonView::Object(
        and_some(
            c,
            "intelligencePriority"@,
            optional_number(field_view(json, "intelligencePriority"@, 3)),
        ),
    )
}

fn read_hint(json: &Json) -> (hint: Option<ModelHint>)
    ensures
        match hint {
            Some(hint) => is_hint(json@) && hint_json(hint) == hint_read(json@),
            None => !is_hint(json@),
        },
{
    if !check_record(json, 1, 1) {
        return None;
    }
    match read_optional_text(field(json, "name", 0)) {
        Some(name) => Some(ModelHint { name }),
        None => None,
    }
}

fn read_hints(member: Option<&Json>) -> (hints: Option<Option<Vec<ModelHint>>>)
    ensures
        match hints {
            Some(hints) => is_optional_hints(view_of(member)) && some_hints(hints) == hints_said(
                view_of(member),
            ),
            None => !is_optional_hints(view_of(member)),
        },
{
    let json = match present(member) {
        Some(json) => json,
        None => {
            return Some(None);
        },
    };
    let items = match json {
        Json::Array(items) => items,
        _ => {
            return None;
        },
    };
    let ghost list = json@->Array_0;
    assert(list =~= item_views(items@));
    let mut hints: Vec<ModelHint> = Vec::new();
    let mut i: usize = 0;
    while i < items.len()
        invariant
            i <= items.len(),
            hints.len() == i,
            view_of(member) == Some(JsonView::Array(list)),
            list == item_views(items@),
            forall|k: int| 0 <= k < i ==> is_hint(#[trigger] list[k]),
            forall|k: int| 0 <= k < i ==> hint_json(#[trigger] hints@[k]) == hint_read(list[k]),
        decreases items.len() - i,
    {
        assert(list[i as int] == items@[i as int]@);
        match read_hint(&items[i]) {
            Some(hint) => {
                hints.push(hint);
            },
            None => {
                return None;
            },
        }
        i += 1;
    }
    assert(some_hints(Some(hints))->0->Array_0 =~= hints_said(view_of(member))->0->Array_0);
    Some(Some(hints))
}

impl ModelPreferences {
    /// Reads which models are preferred.
    pub fn from_json(json: &Json) -> (preferences: Option<Self>)
        ensures
            match preferences {
                Some(preferences) => is_preferences(json@) && preferences.wire()
                    == preferences_read(json@),
                None => !is_preferences(json@),
            },
    {
        if !check_record(json, 4, 4) {
            return None;
        }
        match (
            read_hints(field(json, "hints", 0)),
            read_optional_float(field(json, "costPriority", 1)),
            read_optional_float(field(json, "speedPriority", 2)),
            read_optional_float(field(json, "intelligencePriority", 3)),
        ) {
            (Some(hints), Some(cost_priority), Some(speed_priority), Some(intelligence_priority)) => Some(
                ModelPreferences { hints, cost_priority, speed_priority, intelligence_priority },
            ),
            _ => None,
        }
    }

    /// Whether JSON can hold all of it.
    pub open spec fn is_finite(self) -> bool {
        &&& self.cost_priority != Some(Float::NotFinite)
        &&& self.speed_priority != Some(Float::NotFinite)
        &&& self.intelligence_priority != Some(Float::NotFinite)
    }
}

/// The names of the members that say which models are preferred are distinct.
proof fn lemma_preference_names_differ()
    ensures
        "hints"@ != "costPriority"@,
        "hints"@ != "speedPriority"@,
        "hints"@ != "intelligencePriority"@,
        "costPriority"@ != "speedPriority"@,
        "costPriority"@ != "intelligencePriority"@,
        "speedPriority"@ != "intelligencePriority"@,
{
    reveal_strlit("hints");
    reveal_strlit("costPriority");
    reveal_strlit("speedPriority");
    reveal_strlit("intelligencePriority");
    assert("hints"@.len() == 5);
    assert("costPriority"@.len() == 12);
    assert("speedPriority"@.len() == 13);
    assert("intelligencePriority"@.len() == 20);
}

/// Reading what was written tells which models are preferred.
pub proof fn written_preferences_read_back(preferences: ModelPreferences)
    requires
        preferences.is_finite(),
    ensures
        is_preferences(preferences.wire()),
        preferences_read(preferences.wire()) == preferences.wire(),
{
    broadcast use group_find_member;

    lemma_preference_names_differ();
    let json = preferences.wire();
    assert(json.member("hints"@) == some_hints(preferences.hints));
    assert(json.member("costPriority"@) == some_float(preferences.cost_priority));
    assert(json.member("speedPriority"@) == some_float(preferences.speed_priority));
    assert(json.member("intelligencePriority"@) == some_float(preferences.intelligence_priority));
    match preferences.hints {
        Some(hints) => {
            let items = some_hints(preferences.hints)->0->Array_0;
            assert forall|i: int| 0 <= i < items.len() implies is_hint(#[trigger] items[i])
                && hint_read(items[i]) == items[i] by {
                assert(items[i] == hint_json(hints@[i]));
                assert(items[i].member("name"@) == some_text(text_view(hints@[i].name)));
            }
            assert(hints_said(Some(JsonView::Array(items)))->0->Array_0 =~= items);
        },
        None => {},
    }
}

// ---------------------------------------------------------------------------
// Requests to a model
// ---------------------------------------------------------------------------

/// Whether a field is a list of messages.
pub open spec fn is_message_list(member: Option<JsonView>) -> bool {
    member matches Some(JsonView::Array(items)) && forall|i: int|
        0 <= i < items.len() ==> is_prompt_message(#[trigger] items[i])
}

/// What a list of messages shows.
pub open spec fn messages_said(member: Option<JsonView>) -> JsonView {
    match member {
        Some(JsonView::Array(items)) => JsonView::Array(
            Seq::new(items.len(), |i: int| prompt_message_read(items[i])),
        ),
        _ => JsonView::Array(Seq::empty()),
    }
}

/// The JSON of a list of messages.
pub open spec fn message_list(messages: Seq<PromptMessage>) -> JsonView {
    JsonView::Array(Seq::new(messages.len(), |i: int| messages[i].wire()))
}

/// Whether a document is a request to a client's model.
pub open spec fn is_message_request(json: JsonView) -> bool {
    &&& is_record(json, 8, 8)
    &&& is_message_list(field_view(json, "messages"@, 0))
    &&& optional(field_view(json, "modelPreferences"@, 1)) matches Some(member)
        ==> is_preferences(member)
    &&& is_optional_text(field_view(json, "systemPrompt"@, 2))
    &&& is_optional_text(field_view(json, "includeContext"@, 3))
    &&& small_integer(field_view(json, "maxTokens"@, 4)) is Some
    &&& is_optional_number(field_view(json, "temperature"@, 5))
    &&& is_optional_texts(field_view(json, "stopSequences"@, 6))
    &&& is_optional_map(field_view(json, "metadata"@, 7))
}

/// What a document shows of a request to a client's model, and nothing besides.
pub open spec fn message_request_read(json: JsonView) -> JsonView {
    let a = fields().push(("messages"@, messages_said(field_view(json, "messages"@, 0))));
    let b = and_some(
        a,
        "modelPreferences"@,
        match optional(field_view(json, "modelPreferences"@, 1)) {
            Some(member) => Some(preferences_read(member)),
            None => None,
        },
    );
    let c = and_some(
        b,
        "systemPrompt"@,
        some_text(optional_text(field_view(json, "systemPrompt"@, 2))),
    );
    let d = and_some(
        c,
        "includeContext"@,
        some_text(optional_text(field_view(json, "includeContext"@, 3))),
    );
    let e = d.push(
        ("maxTokens"@, signed_view(small_integer(field_view(json, "maxTokens"@, 4))->0 as int)),
    );
    let f = and_some(e, "temperature"@, optional_number(field_view(json, "temperature"@, 5)));
    let g = and_some(f, "stopSequences"@, optional(field_view(json, "stopSequences"@, 6)));
    JsonView::Object(and_some(g, "metadata"@, optional_map(field_view(json, "metadata"@, 7))))
}

fn read_messages(member: Option<&Json>) -> (messages: Option<Vec<PromptMessage>>)
    ensures
        match messages {
            Some(messages) => is_message_list(view_of(member)) && message_list(messages@)
                == messages_said(view_of(member)),
            None => !is_message_list(view_of(member)),
        },
{
    let items = match member {
        Some(json) => match json {
            Json::Array(items) => {
                assert(json@->Array_0 =~= item_views(items@));
                items
            },
            _ => {
                return None;
            },
        },
        None => {
            return None;
        },
    };
    let ghost list = view_of(member)->0->Array_0;
    let mut messages: Vec<PromptMessage> = Vec::new();
    let mut i: usize = 0;
    while i < items.len()
        invariant
            i <= items.len(),
            messages.len() == i,
            view_of(member) == Some(JsonView::Array(list)),
            list == item_views(items@),
            forall|k: int| 0 <= k < i ==> is_prompt_message(#[trigger] list[k]),
            forall|k: int|
                0 <= k < i ==> (#[trigger] messages@[k]).wire() == prompt_message_read(list[k]),
        decreases items.len() - i,
    {
        assert(list[i as int] == items@[i as int]@);
        match PromptMessage::from_json(&items[i]) {
            Some(message) => {
                messages.push(message);
            },
            None => {
                return None;
            },
        }
        i += 1;
    }
    assert(message_list(messages@)->Array_0 =~= messages_said(view_of(member))->Array_0);
    Some(messages)
}

impl CreateMessageRequest {
    /// Reads a request to a client's model.
    pub fn from_json(json: &Json) -> (request: Option<Self>)
        ensures
            match request {
                Some(request) => is_message_request(json@) && request.wire()
                    == message_request_read(json@),
                None => !is_message_request(json@),
            },
    {
        if !check_record(json, 8, 8) {
            return None;
        }
        let model_preferences = match present(field(json, "modelPreferences", 1)) {
            Some(member) => match ModelPreferences::from_json(member) {
                Some(preferences) => Some(preferences),
                None => {
                    return None;
                },
            },
            None => None,
        };
        let texts = (
            read_optional_text(field(json, "systemPrompt", 2)),
            read_optional_text(field(json, "includeContext", 3)),
            read_texts(field(json, "stopSequences", 6)),
        );
        let numbers = (
            read_small_integer(field(json, "maxTokens", 4)),
            read_optional_float(field(json, "temperature", 5)),
        );
        match (
            read_messages(field(json, "messages", 0)),
            texts,
            numbers,
            read_optional_map(field(json, "metadata", 7)),
        ) {
            (
                Some(messages),
                (Some(system_prompt), Some(include_context), Some(stop_sequences)),
                (Some(max_tokens), Some(temperature)),
                Some(metadata),
            ) => {
                let request = CreateMessageRequest {
                    messages,
                    model_preferences,
                    system_prompt,
                    include_context,
                    max_tokens,
                    temperature,
                    stop_sequences,
                    metadata,
                };
                assert(request.wire()->Object_0 =~= message_request_read(json@)->Object_0);
                Some(request)
            },
            _ => None,
        }
    }

    /// Whether JSON can hold all of it.
    pub open spec fn is_finite(self) -> bool {
        &&& forall|i: int|
            0 <= i < self.messages@.len() ==> (#[trigger] self.messages@[i]).content.is_finite()
        &&& self.model_preferences matches Some(preferences) ==> preferences.is_finite()
        &&& self.temperature != Some(Float::NotFinite)
    }
}

/// The names of the members of a request to a model are distinct.
proof fn lemma_request_names_differ()
    ensures
        "messages"@ != "modelPreferences"@,
        "messages"@ != "systemPrompt"@,
        "messages"@ != "includeContext"@,
        "messages"@ != "maxTokens"@,
        "messages"@ != "temperature"@,
        "messages"@ != "stopSequences"@,
        "messages"@ != "metadata"@,
        "modelPreferences"@ != "systemPrompt"@,
        "modelPreferences"@ != "includeContext"@,
        "modelPreferences"@ != "maxTokens"@,
        "modelPreferences"@ != "temperature"@,
        "modelPreferences"@ != "stopSequences"@,
        "modelPreferences"@ != "metadata"@,
        "systemPrompt"@ != "includeContext"@,
        "systemPrompt"@ != "maxTokens"@,
        "systemPrompt"@ != "temperature"@,
        "systemPrompt"@ != "stopSequences"@,
        "systemPrompt"@ != "metadata"@,
        "includeContext"@ != "maxTokens"@,
        "includeContext"@ != "temperature"@,
        "includeContext"@ != "stopSequences"@,
        "includeContext"@ != "metadata"@,
        "maxTokens"@ != "temperature"@,
        "maxTokens"@ != "stopSequences"@,
        "maxTokens"@ != "metadata"@,
        "temperature"@ != "stopSequences"@,
        "temperature"@ != "metadata"@,
        "stopSequences"@ != "metadata"@,
{
    reveal_strlit("messages");
    reveal_strlit("modelPreferences");
    reveal_strlit("systemPrompt");
    reveal_strlit("includeContext");
    reveal_strlit("maxTokens");
    reveal_strlit("temperature");
    reveal_strlit("stopSequences");
    reveal_strlit("metadata");
    assert("messages"@.len() == 8);
    assert("modelPreferences"@.len() == 16);
    assert("systemPrompt"@.len() == 12);
    assert("includeContext"@.len() == 14);
    assert("maxTokens"@.len() == 9);
    assert("temperature"@.len() == 11);
    assert("stopSequences"@.len() == 13);
    assert("metadata"@.len() == 8);
    assert("messages"@[2] != "metadata"@[2]);
}

/// The parts of a request to a model are found where they were written.
pub(crate) proof fn lemma_request_found(request: CreateMessageRequest)
    ensures
        request.wire().member("messages"@) == Some(message_list(request.messages@)),
        request.wire().member("modelPreferences"@) == match request.model_preferences {
            Some(preferences) => Some(preferences.wire()),
            None => None,
        },
        request.wire().member("systemPrompt"@) == some_text(text_view(request.system_prompt)),
        request.wire().member("includeContext"@) == some_text(text_view(request.include_context)),
        request.wire().member("maxTokens"@) == Some(signed_view(request.max_tokens as int)),
        request.wire().member("temperature"@) == some_float(request.temperature),
        request.wire().member("stopSequences"@) == some_texts(request.stop_sequences),
        request.wire().member("metadata"@) == some_object(request.metadata),
{
    broadcast use group_find_member;

    lemma_request_names_differ();
}

/// Reading what was written gives a request to a model back that asks the same.
pub proof fn written_message_request_reads_back(request: CreateMessageRequest)
    requires
        request.is_finite(),
    ensures
        is_message_request(request.wire()),
        message_request_read(request.wire()) == request.wire(),
{
    lemma_request_found(request);
    lemma_small_integer(request.max_tokens);
    match request.model_preferences {
        Some(preferences) => {
            written_preferences_read_back(preferences);
        },
        None => {},
    }
    let items = message_list(request.messages@)->Array_0;
    assert forall|i: int| 0 <= i < items.len() implies is_prompt_message(#[trigger] items[i])
        && prompt_message_read(items[i]) == items[i] by {
        written_prompt_message_reads_back(request.messages@[i]);
    }
    assert(messages_said(Some(JsonView::Array(items)))->Array_0 =~= items);
    assert(message_request_read(request.wire())->Object_0 =~= request.wire()->Object_0);
}

// ---------------------------------------------------------------------------
// Suggestions
// ---------------------------------------------------------------------------

/// Whether an optional field is absent, `null`, or a count of things in memory.
pub open spec fn is_optional_size(member: Option<JsonView>) -> bool {
    match optional(member) {
        None => true,
        Some(JsonView::Number(NumberView::Unsigned(n))) => n <= usize::MAX,
        _ => false,
    }
}

/// Whether a document is a list of suggestions.
pub open spec fn is_completion(json: JsonView) -> bool {
    &&& is_record(json, 3, 3)
    &&& optional(field_view(json, "values"@, 0)) is Some
    &&& is_optional_texts(field_view(json, "values"@, 0))
    &&& is_optional_size(field_view(json, "total"@, 1))
    &&& is_optional_bool(field_view(json, "hasMore"@, 2))
}

/// What a document shows of a list of suggestions, and nothing besides.
pub open spec fn completion_read(json: JsonView) -> JsonView {
    JsonView::Object(
        and_some(
            and_some(
                fields().push(("values"@, field_view(json, "values"@, 0)->0)),
                "total"@,
                optional(field_view(json, "total"@, 1)),
            ),
            "hasMore"@,
            some_bool(optional_bool(field_view(json, "hasMore"@, 2))),
        ),
    )
}

/// Whether a document holds suggestions.
pub open spec fn is_complete_result(json: JsonView) -> bool {
    &&& is_record(json, 1, 1)
    &&& field_view(json, "completion"@, 0) matches Some(list) && is_completion(list)
}

/// What a document shows of suggestions, and nothing besides.
pub open spec fn complete_result_read(json: JsonView) -> JsonView {
    JsonView::Object(
        fields().push(("completion"@, completion_read(field_view(json, "completion"@, 0)->0))),
    )
}

fn read_size(member: Option<&Json>) -> (size: Option<Option<usize>>)
    ensures
        match size {
            Some(size) => is_optional_size(view_of(member)) && optional(view_of(member))
                == some_unsigned(
                match size {
                    Some(n) => Some(n as u64),
                    None => None,
                },
            ),
            None => !is_optional_size(view_of(member)),
        },
{
    match present(member) {
        None => Some(None),
        Some(json) => match json {
            Json::Number(Number::Unsigned(n)) => if *n <= usize::MAX as u64 {
                Some(Some(*n as usize))
            } else {
                None
            },
            _ => None,
        },
    }
}

impl CompleteResult {
    /// Reads suggestions.
    pub fn from_json(json: &Json) -> (result: Option<Self>)
        ensures
            match result {
                Some(result) => is_complete_result(json@) && result.wire() == complete_result_read(
                    json@,
                ),
                None => !is_complete_result(json@),
            },
    {
        if !check_record(json, 1, 1) {
            return None;
        }
        let list = match field(json, "completion", 0) {
            Some(list) => list,
            None => {
                return None;
            },
        };
        if !check_record(list, 3, 3) {
            return None;
        }
        match (
            read_texts(field(list, "values", 0)),
            read_size(field(list, "total", 1)),
            read_flag(field(list, "hasMore", 2)),
        ) {
            (Some(Some(values)), Some(total), Some(has_more)) => Some(
                CompleteResult { completion: Completion { values, total, has_more } },
            ),
            _ => None,
        }
    }
}

/// The names of the members of a list of suggestions are distinct.
proof fn lemma_suggestion_names_differ()
    ensures
        "values"@ != "total"@,
        "values"@ != "hasMore"@,
        "total"@ != "hasMore"@,
{
    reveal_strlit("values");
    reveal_strlit("total");
    reveal_strlit("hasMore");
    assert("values"@.len() == 6);
    assert("total"@.len() == 5);
    assert("hasMore"@.len() == 7);
}

/// Reading what was written gives the same suggestions back.
pub proof fn written_complete_result_reads_back(result: CompleteResult)
    ensures
        is_complete_result(result.wire()),
        complete_result_read(result.wire()) == result.wire(),
{
    broadcast use group_find_member;

    lemma_suggestion_names_differ();
    let json = result.wire();
    assert(json.member("completion"@) is Some);
    let list = json.member("completion"@)->0;
    let total = match result.completion.total {
        Some(total) => Some(total as u64),
        None => None,
    };
    assert(list.member("values"@) == some_texts(Some(result.completion.values)));
    assert(list.member("total"@) == some_unsigned(total));
    assert(list.member("hasMore"@) == some_bool(result.completion.has_more));
}

// ---------------------------------------------------------------------------
// Roots
// ---------------------------------------------------------------------------

impl Root {
    /// Reads a root.
    pub fn from_json(json: &Json) -> (root: Option<Self>)
        ensures
            match root {
                Some(root) => is_two_texts(json@, "uri"@, "name"@) && root.uri@ == text_of(
                    field_view(json@, "uri"@, 0),
                ) && root.name@ == text_of(field_view(json@, "name"@, 1)),
                None => !is_two_texts(json@, "uri"@, "name"@),
            },
    {
        match read_two_texts(Some(json), "uri", "name") {
            Some((uri, name)) => Some(Root { uri, name }),
            None => None,
        }
    }
}

/// Reading what was written gives the same root back.
pub proof fn written_root_reads_back(root: Root)
    ensures
        is_two_texts(two_texts("uri"@, root.uri@, "name"@, root.name@), "uri"@, "name"@),
        two_texts_read(two_texts("uri"@, root.uri@, "name"@, root.name@), "uri"@, "name"@)
            == two_texts("uri"@, root.uri@, "name"@, root.name@),
{
    reveal_strlit("uri");
    reveal_strlit("name");
    assert("uri"@.len() != "name"@.len());
    lemma_two_texts("uri"@, root.uri@, "name"@, root.name@);
}

} // verus!
