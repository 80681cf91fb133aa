//! JSON-RPC 2.0 requests and responses.

use vstd::prelude::*;
use vstd::utf8::encode_utf8;

use crate::decode::{
    excess_refusal, field, field_view, read_string, record_refusal, refuse_excess, refuse_record,
    string_field, view_of, wrong_type, wrong_type_words,
};
use crate::error::{INVALID_REQUEST, PARSE_ERROR};
use crate::json::{
    and_some, dup_members, dup_option, fields, group_find_member, member_views, no_members,
    option_view, parsed_text, put, put_some, put_some_object, put_some_text, put_text, signed_view,
    some_text, text_view, Json, JsonView, Member, Number, NumberView,
};
use crate::located::{
    located, refuse_text, rule_views, text_record_fault, FaultView, Kind, Rule, RuleView,
};
use crate::string_map::{
    distinct_keys, inserted, lemma_pair_index, lookup, map_json, pair_index, text_members, Pair,
    StringMap,
};

verus! {

/// JSON-RPC version string.
pub const JSONRPC_VERSION: &'static str = "2.0";

/// The protocol revision a server answers `initialize` with by default.
pub const PROTOCOL_VERSION: &'static str = "2025-11-25";

// ---------------------------------------------------------------------------
// Requests
// ---------------------------------------------------------------------------

/// A JSON-RPC request, or a notification when it has no id.
///
/// It has no `Debug`: it may carry a credential. `redacted_auth` is what of that
/// credential may be shown.
pub struct JsonRpcRequest {
    /// JSON-RPC version, `"2.0"`.
    pub jsonrpc: String,
    /// Method name to invoke.
    pub method: String,
    /// Parameters of the method.
    pub params: Option<Json>,
    /// Request identifier, absent for a notification.
    pub id: Option<Json>,
    /// Bearer credential that came with the request.
    pub auth_token: Option<String>,
    /// Forwarded HTTP headers.
    pub headers: Option<Vec<Member>>,
    /// Further metadata.
    pub metadata: StringMap,
}

/// What a request is.
pub struct RequestView {
    /// JSON-RPC version.
    pub jsonrpc: Seq<char>,
    /// Method name.
    pub method: Seq<char>,
    /// Parameters.
    pub params: Option<JsonView>,
    /// Request identifier.
    pub id: Option<JsonView>,
    /// Bearer credential.
    pub auth_token: Option<Seq<char>>,
    /// Forwarded headers.
    pub headers: Option<Seq<(Seq<char>, JsonView)>>,
    /// Further metadata.
    pub metadata: Seq<Pair>,
}

impl View for JsonRpcRequest {
    type V = RequestView;

    open spec fn view(&self) -> RequestView {
        RequestView {
            jsonrpc: self.jsonrpc@,
            method: self.method@,
            params: option_view(self.params),
            id: option_view(self.id),
            auth_token: text_view(self.auth_token),
            headers: match self.headers {
                Some(headers) => Some(member_views(headers@)),
                None => None,
            },
            metadata: self.metadata@,
        }
    }
}

/// A request with nothing beside its method, parameters and id.
pub open spec fn plain_request(method: Seq<char>, params: Option<JsonView>, id: Option<JsonView>) -> RequestView {
    RequestView {
        jsonrpc: JSONRPC_VERSION@,
        method,
        params,
        id,
        auth_token: None,
        headers: None,
        metadata: Seq::empty(),
    }
}

/// What of a credential may be shown: its first ten and last eight characters
/// when there are more than twenty, nothing otherwise.
pub open spec fn redaction(token: Seq<char>) -> Seq<char> {
    if token.len() > 20 {
        token.take(10) + "..."@ + token.skip(token.len() - 8)
    } else {
        "[REDACTED]"@
    }
}

/// What of a credential may be shown.
pub fn redact(token: &str) -> (shown: String)
    ensures
        shown@ == redaction(token@),
{
    let length: usize = token.unicode_len();
    if length > 20 {
        let head = token.substring_char(0, 10);
        let tail = token.substring_char(length - 8, length);
        assert(head@ =~= token@.take(10));
        assert(tail@ =~= token@.skip(token@.len() - 8));
        head.to_owned().concat("...").concat(tail)
    } else {
        "[REDACTED]".to_owned()
    }
}

/// Two credentials that agree in their first ten and last eight characters, and
/// both have more than twenty, are shown alike: nothing between is revealed.
pub proof fn redaction_hides_the_middle(a: Seq<char>, b: Seq<char>)
    requires
        a.len() > 20,
        b.len() > 20,
        a.take(10) == b.take(10),
        a.skip(a.len() - 8) == b.skip(b.len() - 8),
    ensures
        redaction(a) == redaction(b),
{
}

// --- reading a request -----------------------------------------------------

/// The metadata member of a request: text to text, the last value of a key counting.
pub open spec fn metadata_of(members: Seq<(Seq<char>, JsonView)>) -> Result<Seq<Pair>, Seq<char>>
    decreases members.len(),
{
    if members.len() == 0 {
        Ok(Seq::empty())
    } else {
        match metadata_of(members.drop_last()) {
            Err(words) => Err(words),
            Ok(pairs) => match members.last().1 {
                JsonView::Text(value) => Ok(inserted(pairs, members.last().0, value)),
                other => Err(wrong_type_words(other, "a string"@)),
            },
        }
    }
}

/// An optional member: `null` counts as absent.
pub open spec fn optional(member: Option<JsonView>) -> Option<JsonView> {
    match member {
        Some(JsonView::Null) => None,
        other => other,
    }
}

/// An optional member that is a string.
pub open spec fn optional_string(member: Option<JsonView>) -> Result<Option<Seq<char>>, Seq<char>> {
    match optional(member) {
        None => Ok(None),
        Some(JsonView::Text(token)) => Ok(Some(token)),
        Some(other) => Err(wrong_type_words(other, "a string"@)),
    }
}

/// An optional member that is an object.
pub open spec fn optional_object(member: Option<JsonView>) -> Result<
    Option<Seq<(Seq<char>, JsonView)>>,
    Seq<char>,
> {
    match optional(member) {
        None => Ok(None),
        Some(JsonView::Object(headers)) => Ok(Some(headers)),
        Some(other) => Err(wrong_type_words(other, "a map"@)),
    }
}

/// The metadata member, empty when absent.
pub open spec fn metadata_member(member: Option<JsonView>) -> Result<Seq<Pair>, Seq<char>> {
    match member {
        None => Ok(Seq::empty()),
        Some(JsonView::Object(members)) => metadata_of(members),
        Some(other) => Err(wrong_type_words(other, "a map"@)),
    }
}

/// The request that a document denotes, or why it denotes none.
pub open spec fn request_of(json: JsonView) -> Result<RequestView, Seq<char>> {
    match record_refusal(json, "JsonRpcRequest"@, 4, 7) {
        Some(words) => Err(words),
        None => match string_field(field_view(json, "jsonrpc"@, 0), "jsonrpc"@) {
            Err(words) => Err(words),
            Ok(jsonrpc) => match string_field(field_view(json, "method"@, 1), "method"@) {
                Err(words) => Err(words),
                Ok(method) => match optional_string(field_view(json, "auth"@, 4)) {
                    Err(words) => Err(words),
                    Ok(auth_token) => match optional_object(field_view(json, "headers"@, 5)) {
                        Err(words) => Err(words),
                        Ok(headers) => match metadata_member(field_view(json, "metadata"@, 6)) {
                            Err(words) => Err(words),
                            Ok(metadata) => match excess_refusal(json, 7) {
                                Some(words) => Err(words),
                                None => Ok(
                                    RequestView {
                                        jsonrpc,
                                        method,
                                        params: optional(field_view(json, "params"@, 2)),
                                        id: optional(field_view(json, "id"@, 3)),
                                        auth_token,
                                        headers,
                                        metadata,
                                    },
                                ),
                            },
                        },
                    },
                },
            },
        },
    }
}

fn read_metadata(members: &Vec<Member>) -> (metadata: Result<StringMap, String>)
    ensures
        match metadata {
            Ok(map) => metadata_of(member_views(members@)) == Ok::<Seq<Pair>, Seq<char>>(map@),
            Err(words) => metadata_of(member_views(members@)) == Err::<Seq<Pair>, Seq<char>>(words@),
        },
{
    let ghost views = member_views(members@);
    let mut map = StringMap::new();
    let mut i: usize = 0;
    while i < members.len()
        invariant
            i <= members.len(),
            views == member_views(members@),
            metadata_of(views.take(i as int)) == Ok::<Seq<Pair>, Seq<char>>(map@),
        decreases members.len() - i,
    {
        proof {
            assert(views.take(i + 1).drop_last() =~= views.take(i as int));
            assert(views.take(i + 1).last() == views[i as int]);
        }
        match &members[i].value {
            Json::Text(value) => {
                map = map.with(members[i].key.as_str(), value.as_str());
            },
            other => {
                let words = wrong_type(other, "a string");
                proof {
                    lemma_metadata_refused(views, i + 1);
                }
                return Err(words);
            },
        }
        i += 1;
    }
    assert(views.take(i as int) =~= views);
    Ok(map)
}

proof fn lemma_metadata_refused(members: Seq<(Seq<char>, JsonView)>, n: int)
    requires
        0 <= n <= members.len(),
        metadata_of(members.take(n)) is Err,
    ensures
        metadata_of(members) == metadata_of(members.take(n)),
    decreases members.len() - n,
{
    if n < members.len() {
        assert(members.take(n + 1).drop_last() =~= members.take(n));
        lemma_metadata_refused(members, n + 1);
    } else {
        assert(members.take(n) =~= members);
    }
}

fn take_optional(member: Option<&Json>) -> (value: Option<Json>)
    ensures
        option_view(value) == optional(view_of(member)),
{
    match member {
        None => None,
        Some(json) => match json {
            Json::Null => None,
            other => Some(other.dup()),
        },
    }
}

impl JsonRpcRequest {
    /// A request with the id `1`.
    pub fn new(method: &str, params: Option<Json>) -> (request: Self)
        ensures
            request@ == plain_request(method@, option_view(params), Some(signed_view(1))),
    {
        JsonRpcRequest::with_id(method, params, Json::unsigned(1))
    }

    /// A request with the given id.
    pub fn with_id(method: &str, params: Option<Json>, id: Json) -> (request: Self)
        ensures
            request@ == plain_request(method@, option_view(params), Some(id@)),
    {
        JsonRpcRequest {
            jsonrpc: JSONRPC_VERSION.to_owned(),
            method: method.to_owned(),
            params,
            id: Some(id),
            auth_token: None,
            headers: None,
            metadata: StringMap::new(),
        }
    }

    /// A notification: it has no id, and nobody waits for a response.
    pub fn notification(method: &str, params: Option<Json>) -> (request: Self)
        ensures
            request@ == plain_request(method@, option_view(params), None),
    {
        JsonRpcRequest {
            jsonrpc: JSONRPC_VERSION.to_owned(),
            method: method.to_owned(),
            params,
            id: None,
            auth_token: None,
            headers: None,
            metadata: StringMap::new(),
        }
    }

    /// The request with one more metadata value.
    pub fn with_metadata(self, key: &str, value: &str) -> (request: Self)
        ensures
            request@ == (RequestView { metadata: inserted(self@.metadata, key@, value@), ..self@ }),
    {
        let metadata = self.metadata.with(key, value);
        JsonRpcRequest {
            jsonrpc: self.jsonrpc,
            method: self.method,
            params: self.params,
            id: self.id,
            auth_token: self.auth_token,
            headers: self.headers,
            metadata,
        }
    }

    /// The metadata value of a key.
    pub fn get_metadata(&self, key: &str) -> (value: Option<&str>)
        ensures
            match value {
                Some(value) => lookup(self.metadata@, key@) == Some(value@),
                None => lookup(self.metadata@, key@) is None,
            },
    {
        self.metadata.get(key)
    }

    /// What of the request's credential may be shown.
    pub fn redacted_auth(&self) -> (shown: Option<String>)
        ensures
            text_view(shown) == match self@.auth_token {
                Some(token) => Some(redaction(token)),
                None => None,
            },
    {
        match &self.auth_token {
            Some(token) => Some(redact(token.as_str())),
            None => None,
        }
    }

    /// Reads a request out of a document.
    pub fn from_json(json: &Json) -> (request: Result<Self, String>)
        ensures
            match request {
                Ok(request) => request_of(json@) == Ok::<RequestView, Seq<char>>(request@),
                Err(words) => request_of(json@) == Err::<RequestView, Seq<char>>(words@),
            },
    {
        match refuse_record(json, "JsonRpcRequest", 4, 7) {
            Some(words) => {
                return Err(words);
            },
            None => {},
        }
        let jsonrpc = match read_string(field(json, "jsonrpc", 0), "jsonrpc") {
            Ok(jsonrpc) => jsonrpc,
            Err(words) => {
                return Err(words);
            },
        };
        let method = match read_string(field(json, "method", 1), "method") {
            Ok(method) => method,
            Err(words) => {
                return Err(words);
            },
        };
        let auth_token = match field(json, "auth", 4) {
            None => None,
            Some(member) => match member {
                Json::Null => None,
                Json::Text(token) => Some(token.clone()),
                other => {
                    return Err(wrong_type(other, "a string"));
                },
            },
        };
        let headers = match field(json, "headers", 5) {
            None => None,
            Some(member) => match member {
                Json::Null => None,
                Json::Object(members) => {
                    assert(member@->Object_0 =~= member_views(members@));
                    Some(dup_members(members))
                },
                other => {
                    return Err(wrong_type(other, "a map"));
                },
            },
        };
        let metadata = match field(json, "metadata", 6) {
            None => StringMap::new(),
            Some(member) => match member {
                Json::Object(members) => {
                    assert(member@->Object_0 =~= member_views(members@));
                    match read_metadata(members) {
                        Ok(map) => map,
                        Err(words) => {
                            return Err(words);
                        },
                    }
                },
                other => {
                    return Err(wrong_type(other, "a map"));
                },
            },
        };
        match refuse_excess(json, 7) {
            Some(words) => {
                return Err(words);
            },
            None => {},
        }
        Ok(
            JsonRpcRequest {
                jsonrpc,
                method,
                params: take_optional(field(json, "params", 2)),
                id: take_optional(field(json, "id", 3)),
                auth_token,
                headers,
                metadata,
            },
        )
    }
}

// --- writing a request -------------------------------------------------------

/// A request as JSON: what is absent or empty is left out.
pub open spec fn request_json(request: RequestView) -> JsonView {
    let a = fields().push(("jsonrpc"@, JsonView::Text(request.jsonrpc))).push(
        ("method"@, JsonView::Text(request.method)),
    );
    let b = and_some(a, "params"@, request.params);
    let c = and_some(b, "id"@, request.id);
    let d = and_some(c, "auth"@, some_text(request.auth_token));
    let e = and_some(
        d,
        "headers"@,
        match request.headers {
            Some(headers) => Some(JsonView::Object(headers)),
            None => None,
        },
    );
    JsonView::Object(
        and_some(
            e,
            "metadata"@,
            if request.metadata.len() == 0 {
                None
            } else {
                Some(JsonView::Object(text_members(request.metadata)))
            },
        ),
    )
}

impl JsonRpcRequest {
    /// The request as JSON.
    pub fn to_json(&self) -> (json: Json)
        ensures
            json@ == request_json(self@),
    {
        let mut members = no_members();
        put_text(&mut members, "jsonrpc", self.jsonrpc.as_str());
        put_text(&mut members, "method", self.method.as_str());
        put_some(&mut members, "params", dup_option(&self.params));
        put_some(&mut members, "id", dup_option(&self.id));
        put_some_text(&mut members, "auth", &self.auth_token);
        put_some_object(&mut members, "headers", &self.headers);
        if !self.metadata.is_empty() {
            put(&mut members, "metadata", map_json(&self.metadata));
        }
        Json::object(members)
    }
}

/// The names of a request's members are distinct.
proof fn lemma_request_keys_differ()
    ensures
        "jsonrpc"@ != "method"@,
        "jsonrpc"@ != "params"@,
        "jsonrpc"@ != "id"@,
        "jsonrpc"@ != "auth"@,
        "jsonrpc"@ != "headers"@,
        "jsonrpc"@ != "metadata"@,
        "method"@ != "params"@,
        "method"@ != "id"@,
        "method"@ != "auth"@,
        "method"@ != "headers"@,
        "method"@ != "metadata"@,
        "params"@ != "id"@,
        "params"@ != "auth"@,
        "params"@ != "headers"@,
        "params"@ != "metadata"@,
        "id"@ != "auth"@,
        "id"@ != "headers"@,
        "id"@ != "metadata"@,
        "auth"@ != "headers"@,
        "auth"@ != "metadata"@,
        "headers"@ != "metadata"@,
{
    reveal_strlit("jsonrpc");
    reveal_strlit("method");
    reveal_strlit("params");
    reveal_strlit("id");
    reveal_strlit("auth");
    reveal_strlit("headers");
    reveal_strlit("metadata");
    assert("jsonrpc"@.len() == 7);
    assert("method"@.len() == 6);
    assert("params"@.len() == 6);
    assert("id"@.len() == 2);
    assert("auth"@.len() == 4);
    assert("headers"@.len() == 7);
    assert("metadata"@.len() == 8);
    assert("jsonrpc"@[0] != "headers"@[0]);
    assert("method"@[0] != "params"@[0]);
}

proof fn lemma_metadata_reads_back(pairs: Seq<Pair>)
    requires
        distinct_keys(pairs),
    ensures
        metadata_of(text_members(pairs)) == Ok::<Seq<Pair>, Seq<char>>(pairs),
    decreases pairs.len(),
{
    if pairs.len() == 0 {
        assert(pairs =~= Seq::empty());
    } else {
        let front = pairs.drop_last();
        let last = pairs.last();
        assert(distinct_keys(front)) by {
            assert forall|i: int, j: int| 0 <= i < j < front.len() implies front[i].0
                != front[j].0 by {
                assert(front[i] == pairs[i] && front[j] == pairs[j]);
            }
        }
        lemma_metadata_reads_back(front);
        assert(text_members(pairs).drop_last() =~= text_members(front));
        assert(text_members(pairs).last() == (last.0, JsonView::Text(last.1)));
        lemma_pair_index(front, last.0);
        let at = pair_index(front, last.0);
        if at < front.len() {
            assert(pairs[at].0 == pairs[pairs.len() - 1].0);
        }
        assert(front.push(last) =~= pairs);
        assert(inserted(front, last.0, last.1) =~= pairs);
    }
}

/// Reading what was written gives the request back.
pub proof fn written_request_reads_back(request: RequestView)
    requires
        distinct_keys(request.metadata),
        request.params != Some(JsonView::Null),
        request.id != Some(JsonView::Null),
    ensures
        request_of(request_json(request)) == Ok::<RequestView, Seq<char>>(request),
{
    broadcast use group_find_member;

    lemma_request_keys_differ();
    lemma_metadata_reads_back(request.metadata);
    let json = request_json(request);
    assert(json.member("jsonrpc"@) == Some(JsonView::Text(request.jsonrpc)));
    assert(json.member("method"@) == Some(JsonView::Text(request.method)));
    assert(json.member("params"@) == request.params);
    assert(json.member("id"@) == request.id);
    assert(json.member("auth"@) == some_text(request.auth_token));
    if request.metadata.len() == 0 {
        assert(json.member("metadata"@) is None);
        assert(request.metadata =~= Seq::empty());
    } else {
        assert(json.member("metadata"@) == Some(JsonView::Object(text_members(request.metadata))));
    }
}

// --- requests as they are written ----------------------------------------------

/// The fields of a request, in their order.
pub open spec fn request_fields() -> Seq<RuleView> {
    seq![
        RuleView { name: "jsonrpc"@, kind: Kind::Text, needed: true },
        RuleView { name: "method"@, kind: Kind::Text, needed: true },
        RuleView { name: "params"@, kind: Kind::Anything, needed: false },
        RuleView { name: "id"@, kind: Kind::Anything, needed: false },
        RuleView { name: "auth"@, kind: Kind::OptionalText, needed: false },
        RuleView { name: "headers"@, kind: Kind::OptionalMap, needed: false },
        RuleView { name: "metadata"@, kind: Kind::TextMap, needed: false },
    ]
}

fn request_rules() -> (rules: Vec<Rule>)
    ensures
        rule_views(rules@) == request_fields(),
{
    let rules = vec![
        Rule { name: "jsonrpc", kind: Kind::Text, needed: true },
        Rule { name: "method", kind: Kind::Text, needed: true },
        Rule { name: "params", kind: Kind::Anything, needed: false },
        Rule { name: "id", kind: Kind::Anything, needed: false },
        Rule { name: "auth", kind: Kind::OptionalText, needed: false },
        Rule { name: "headers", kind: Kind::OptionalMap, needed: false },
        Rule { name: "metadata", kind: Kind::TextMap, needed: false },
    ];
    assert(rule_views(rules@) =~= request_fields());
    rules
}

/// What is wrong with a text that should be a request: the first fault that a reader meets
/// who goes through it from front to back. A field that comes twice is one.
pub open spec fn request_fault(text: Seq<char>) -> Option<FaultView> {
    text_record_fault(encode_utf8(text), "JsonRpcRequest"@, request_fields(), 4)
}

fn refuse_request(text: &str) -> (refusal: Option<String>)
    ensures
        match request_fault(text@) {
            Some(fault) => refusal matches Some(words) && words@ == located(
                encode_utf8(text@),
                fault,
            ),
            None => refusal is None,
        },
{
    let rules = request_rules();
    refuse_text(text.as_bytes(), "JsonRpcRequest", rules.as_slice(), 4)
}

/// The request that a text denotes, or why it denotes none, and where.
pub open spec fn request_in(text: Seq<char>) -> Result<RequestView, Seq<char>> {
    match request_fault(text) {
        Some(fault) => Err(located(encode_utf8(text), fault)),
        None => match parsed_text(text) {
            Err(words) => Err(words),
            Ok(json) => request_of(json),
        },
    }
}

impl JsonRpcRequest {
    /// Reads a request out of a text.
    pub fn from_text(text: &str) -> (request: Result<Self, String>)
        ensures
            match request {
                Ok(request) => request_in(text@) == Ok::<RequestView, Seq<char>>(request@),
                Err(words) => request_in(text@) == Err::<RequestView, Seq<char>>(words@),
            },
    {
        match refuse_request(text) {
            Some(words) => Err(words),
            None => match Json::parse(text) {
                Ok(json) => JsonRpcRequest::from_json(&json),
                Err(words) => Err(words),
            },
        }
    }
}

// --- requests as they arrive over HTTP ---------------------------------------

/// Whether a document may be the id of a request: a string or an integer.
pub open spec fn is_request_id(id: JsonView) -> bool {
    match id {
        JsonView::Text(_) => true,
        JsonView::Number(NumberView::Unsigned(_)) => true,
        JsonView::Number(NumberView::Negative(_)) => true,
        _ => false,
    }
}

/// Why a posted document can be no request, whatever else it says: a batch or a response, or
/// an id that is neither a string nor an integer.
pub open spec fn posted_refusal(json: JsonView) -> Option<Seq<char>> {
    match json {
        JsonView::Object(_) => match json.member("id"@) {
            Some(id) if !is_request_id(id) => Some("id must be a string or an integer"@),
            _ => None,
        },
        _ => Some("a request is a JSON object"@),
    }
}

/// What a posted text denotes that is JSON: the request, or why it is refused. No credential
/// is taken from it.
pub open spec fn posted_request(text: Seq<char>, json: JsonView) -> Result<RequestView, Seq<char>> {
    match posted_refusal(json) {
        Some(words) => Err(words),
        None => match request_in(text) {
            Ok(request) => Ok(RequestView { auth_token: None, ..request }),
            Err(words) => Err(words),
        },
    }
}

/// What the body of a posted request denotes: the request, or the response that
/// refuses it.
pub open spec fn posted_body(body: Seq<char>) -> Result<RequestView, ResponseView> {
    match parsed_text(body) {
        Err(words) => Err(error_view(None, PARSE_ERROR, "Parse error: "@ + words)),
        Ok(json) => match posted_request(body, json) {
            Err(words) => Err(error_view(None, INVALID_REQUEST, "Invalid request: "@ + words)),
            Ok(request) => Ok(request),
        },
    }
}

impl JsonRpcRequest {
    fn from_posted(text: &str, json: &Json) -> (request: Result<Self, String>)
        ensures
            match request {
                Ok(request) => posted_request(text@, json@) == Ok::<RequestView, Seq<char>>(
                    request@,
                ),
                Err(words) => posted_request(text@, json@) == Err::<RequestView, Seq<char>>(words@),
            },
    {
        match json {
            Json::Object(_) => {},
            _ => {
                return Err("a request is a JSON object".to_owned());
            },
        }
        let usable = match json.get("id") {
            None => true,
            Some(id) => match id {
                Json::Text(_) => true,
                Json::Number(Number::Unsigned(_)) => true,
                Json::Number(Number::Negative(_)) => true,
                _ => false,
            },
        };
        if !usable {
            return Err("id must be a string or an integer".to_owned());
        }
        match JsonRpcRequest::from_text(text) {
            Ok(request) => {
                let posted = JsonRpcRequest { auth_token: None, ..request };
                Ok(posted)
            },
            Err(words) => Err(words),
        }
    }

    /// Reads a request out of a posted body, or says what to answer instead.
    pub fn parse(body: &str) -> (request: Result<Self, Box<JsonRpcResponse>>)
        ensures
            match request {
                Ok(request) => posted_body(body@) == Ok::<RequestView, ResponseView>(request@),
                Err(refusal) => posted_body(body@) == Err::<RequestView, ResponseView>((*refusal)@),
            },
    {
        match Json::parse(body) {
            Err(words) => Err(
                Box::new(
                    JsonRpcResponse::error(
                        None,
                        PARSE_ERROR,
                        "Parse error: ".to_owned().concat(words.as_str()).as_str(),
                    ),
                ),
            ),
            Ok(json) => match JsonRpcRequest::from_posted(body, &json) {
                Err(words) => Err(
                    Box::new(
                        JsonRpcResponse::error(
                            None,
                            INVALID_REQUEST,
                            "Invalid request: ".to_owned().concat(words.as_str()).as_str(),
                        ),
                    ),
                ),
                Ok(request) => Ok(request),
            },
        }
    }
}

/// No credential is ever read out of a posted body.
pub proof fn posted_requests_carry_no_credential(body: Seq<char>)
    ensures
        posted_body(body) matches Ok(request) ==> request.auth_token is None,
{
}

// ---------------------------------------------------------------------------
// Responses
// ---------------------------------------------------------------------------

/// A JSON-RPC response. Exactly one of `result` and `error` is present.
#[derive(Debug)]
pub struct JsonRpcResponse {
    /// JSON-RPC version, `"2.0"`.
    pub jsonrpc: String,
    /// Result of the call.
    pub result: Option<Json>,
    /// What went wrong.
    pub error: Option<JsonRpcError>,
    /// Id of the request answered.
    pub id: Option<Json>,
}

/// A JSON-RPC error.
#[derive(Debug)]
pub struct JsonRpcError {
    /// Error code.
    pub code: i32,
    /// Human-readable message.
    pub message: String,
    /// Further information.
    pub data: Option<Json>,
}

/// What an error is.
pub struct ErrorView {
    /// Error code.
    pub code: i32,
    /// Human-readable message.
    pub message: Seq<char>,
    /// Further information.
    pub data: Option<JsonView>,
}

/// What a response is.
pub struct ResponseView {
    /// JSON-RPC version.
    pub jsonrpc: Seq<char>,
    /// Result of the call.
    pub result: Option<JsonView>,
    /// What went wrong.
    pub error: Option<ErrorView>,
    /// Id of the request answered.
    pub id: Option<JsonView>,
}

impl View for JsonRpcError {
    type V = ErrorView;

    open spec fn view(&self) -> ErrorView {
        ErrorView { code: self.code, message: self.message@, data: option_view(self.data) }
    }
}

impl View for JsonRpcResponse {
    type V = ResponseView;

    open spec fn view(&self) -> ResponseView {
        ResponseView {
            jsonrpc: self.jsonrpc@,
            result: option_view(self.result),
            error: match self.error {
                Some(error) => Some(error@),
                None => None,
            },
            id: option_view(self.id),
        }
    }
}

/// The response that carries a result.
pub open spec fn success_view(id: Option<JsonView>, result: JsonView) -> ResponseView {
    ResponseView { jsonrpc: JSONRPC_VERSION@, result: Some(result), error: None, id }
}

/// The response that carries an error with further information, or without.
pub open spec fn failure_view(
    id: Option<JsonView>,
    code: i32,
    message: Seq<char>,
    data: Option<JsonView>,
) -> ResponseView {
    ResponseView {
        jsonrpc: JSONRPC_VERSION@,
        result: None,
        error: Some(ErrorView { code, message, data }),
        id,
    }
}

/// The response that carries an error.
pub open spec fn error_view(id: Option<JsonView>, code: i32, message: Seq<char>) -> ResponseView {
    failure_view(id, code, message, None)
}

impl ResponseView {
    /// Exactly one of result and error is present, under the right version.
    pub open spec fn well_formed(self) -> bool {
        self.jsonrpc == JSONRPC_VERSION@ && (self.result is Some <==> self.error is None)
    }
}

/// An error as JSON.
pub open spec fn error_json(error: ErrorView) -> JsonView {
    JsonView::Object(
        and_some(
            fields().push(("code"@, signed_view(error.code as int))).push(
                ("message"@, JsonView::Text(error.message)),
            ),
            "data"@,
            error.data,
        ),
    )
}

/// A response as JSON: a member that is absent is left out, but for the id, which
/// is then `null`.
pub open spec fn response_json(response: ResponseView) -> JsonView {
    let version = fields().push(("jsonrpc"@, JsonView::Text(response.jsonrpc)));
    let result = and_some(version, "result"@, response.result);
    let error = and_some(
        result,
        "error"@,
        match response.error {
            Some(error) => Some(error_json(error)),
            None => None,
        },
    );
    JsonView::Object(
        error.push(
            (
                "id"@,
                match response.id {
                    Some(id) => id,
                    None => JsonView::Null,
                },
            ),
        ),
    )
}

impl JsonRpcError {
    /// An error without further information.
    pub fn new(code: i32, message: &str) -> (error: Self)
        ensures
            error@ == (ErrorView { code, message: message@, data: None }),
    {
        JsonRpcError { code, message: message.to_owned(), data: None }
    }

    /// An error with further information.
    pub fn with_data(code: i32, message: &str, data: Json) -> (error: Self)
        ensures
            error@ == (ErrorView { code, message: message@, data: Some(data@) }),
    {
        JsonRpcError { code, message: message.to_owned(), data: Some(data) }
    }

    /// The error as JSON.
    pub fn to_json(&self) -> (json: Json)
        ensures
            json@ == error_json(self@),
    {
        let mut members = no_members();
        put(&mut members, "code", Json::signed(self.code as i64));
        put_text(&mut members, "message", self.message.as_str());
        put_some(&mut members, "data", dup_option(&self.data));
        Json::object(members)
    }
}

impl JsonRpcResponse {
    /// The response that carries a result.
    pub fn success(id: Option<Json>, result: Json) -> (response: Self)
        ensures
            response@ == success_view(option_view(id), result@),
    {
        JsonRpcResponse { jsonrpc: JSONRPC_VERSION.to_owned(), result: Some(result), error: None, id }
    }

    /// The response that carries an error.
    pub fn error(id: Option<Json>, code: i32, message: &str) -> (response: Self)
        ensures
            response@ == error_view(option_view(id), code, message@),
    {
        JsonRpcResponse {
            jsonrpc: JSONRPC_VERSION.to_owned(),
            result: None,
            error: Some(JsonRpcError::new(code, message)),
            id,
        }
    }

    /// The response that carries an error with further information.
    pub fn error_with_data(id: Option<Json>, code: i32, message: &str, data: Json) -> (response:
        Self)
        ensures
            response@ == failure_view(option_view(id), code, message@, Some(data@)),
    {
        JsonRpcResponse {
            jsonrpc: JSONRPC_VERSION.to_owned(),
            result: None,
            error: Some(JsonRpcError::with_data(code, message, data)),
            id,
        }
    }

    /// Whether this is a success response.
    pub fn is_success(&self) -> (success: bool)
        ensures
            success == (self.error is None && self.result is Some),
    {
        self.error.is_none() && self.result.is_some()
    }

    /// Whether this is an error response.
    pub fn is_error(&self) -> (error: bool)
        ensures
            error == (self.error is Some),
    {
        self.error.is_some()
    }

    /// The response as JSON.
    pub fn to_json(&self) -> (json: Json)
        ensures
            json@ == response_json(self@),
    {
        let mut members = no_members();
        put_text(&mut members, "jsonrpc", self.jsonrpc.as_str());
        put_some(&mut members, "result", dup_option(&self.result));
        let error = match &self.error {
            Some(error) => Some(error.to_json()),
            None => None,
        };
        put_some(&mut members, "error", error);
        let id = match &self.id {
            Some(id) => id.dup(),
            None => Json::Null,
        };
        put(&mut members, "id", id);
        Json::object(members)
    }
}

/// A response built by one of the constructors is either a success or an error,
/// never both and never neither.
pub proof fn responses_are_success_or_error(
    id: Option<JsonView>,
    result: JsonView,
    code: i32,
    message: Seq<char>,
    data: Option<JsonView>,
)
    ensures
        success_view(id, result).well_formed(),
        failure_view(id, code, message, data).well_formed(),
{
}

} // verus!
