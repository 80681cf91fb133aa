//! MCP over HTTP: which requests are admitted, and how answers are rendered.

use vstd::prelude::*;

use crate::digits::{all_digits, decimal_value, is_decimal_digit, read_unsigned};
use crate::error::{INTERNAL_ERROR, RATE_LIMITED, UNAUTHORIZED};
use crate::json::{fields, no_members, put, text_view, Json, JsonView, NumberView};
use crate::mcp::auth::AuthError;
use crate::mcp::protocol::{
    error_view, failure_view, posted_body, response_json, JsonRpcRequest, JsonRpcResponse,
    RequestView, ResponseView,
};
use crate::mcp::server::{unsupported_version_error, version_missing, Config, McpServer};
use crate::mcp::tool::{anonymous, ToolContext};
use crate::server::auth::{
    bearer_credential, credential_of, is_loopback_host, loopback_host,
    resolve_startup_auth, str_view, AuthMode, InsecureBindError,
};
use crate::string_map::inserted;
use crate::text::{
    ascii_lower_all, char_is_space, chars_of, contains, find_char, find_text, first_index,
    first_occurrence, is_among, is_space, occurs_in, same_ignoring_ascii_case, views,
};

verus! {

/// The header in which a client repeats the protocol revision it negotiated.
pub const MCP_PROTOCOL_VERSION_HEADER: &'static str = "mcp-protocol-version";

// ---------------------------------------------------------------------------
// Origins
// ---------------------------------------------------------------------------

/// Whether `port` is a decimal TCP port.
pub open spec fn port_text(port: Seq<char>) -> bool {
    all_digits(port) && decimal_value(port) <= 65_535
}

/// Whether `port` is a decimal TCP port.
pub fn is_port(port: &str) -> (ok: bool)
    ensures
        ok == port_text(port@),
{
    if !port.is_empty() && port.get_char(0) == '+' {
        assert(!is_decimal_digit(port@[0]));
        return false;
    }
    read_unsigned(port, 65_535).is_some()
}

/// Whether a character cannot stand in the authority of an origin.
pub open spec fn foreign_to_authority(c: char) -> bool {
    is_space(c) || c == '/' || c == '@' || c == '?' || c == '#'
}

/// The host and the port of an authority, minding the colons inside brackets. A host in
/// brackets keeps them.
pub open spec fn host_and_port(authority: Seq<char>) -> Option<(Seq<char>, Option<Seq<char>>)> {
    if authority.len() > 0 && authority[0] == '[' {
        let bracketed = authority.skip(1);
        let close = first_index(bracketed, ']');
        if close >= bracketed.len() {
            None
        } else {
            let rest = bracketed.skip(close + 1);
            if rest.len() == 0 {
                Some((authority.take(close + 2), None))
            } else if rest[0] == ':' {
                Some((authority.take(close + 2), Some(rest.skip(1))))
            } else {
                None
            }
        }
    } else {
        let colon = first_index(authority, ':');
        if colon < authority.len() {
            Some((authority.take(colon), Some(authority.skip(colon + 1))))
        } else {
            Some((authority, None))
        }
    }
}

/// Whether an origin is `http` or `https` on a loopback host, with a port or without,
/// and nothing more.
pub open spec fn loopback_origin(origin: Seq<char>) -> bool {
    match first_occurrence(origin, "://"@) {
        None => false,
        Some(at) => {
            let scheme = ascii_lower_all(origin.take(at));
            let authority = origin.skip(at + 3);
            &&& scheme == ascii_lower_all("http"@) || scheme == ascii_lower_all("https"@)
            &&& forall|i: int|
                0 <= i < authority.len() ==> !foreign_to_authority(#[trigger] authority[i])
            &&& match host_and_port(authority) {
                None => false,
                Some((host, port)) => (port matches Some(port) ==> port_text(port))
                    && loopback_host(host),
            }
        },
    }
}

/// The host and the port of an authority.
fn split_authority<'a>(authority: &'a str) -> (parts: Option<(&'a str, Option<&'a str>)>)
    ensures
        match parts {
            Some((host, port)) => host_and_port(authority@) == Some((host@, str_view(port))),
            None => host_and_port(authority@) is None,
        },
{
    let length: usize = authority.unicode_len();
    if length > 0 && authority.get_char(0) == '[' {
        let bracketed = authority.substring_char(1, length);
        assert(bracketed@ =~= authority@.skip(1));
        let inner: usize = bracketed.unicode_len();
        match find_char(bracketed, ']') {
            None => None,
            Some(close) => {
                let literal = authority.substring_char(0, close + 2);
                assert(literal@ =~= authority@.take(close + 2));
                let rest = bracketed.substring_char(close + 1, inner);
                assert(rest@ =~= bracketed@.skip(close + 1));
                if rest.is_empty() {
                    Some((literal, None))
                } else if rest.get_char(0) == ':' {
                    let port = rest.substring_char(1, rest.unicode_len());
                    assert(port@ =~= rest@.skip(1));
                    Some((literal, Some(port)))
                } else {
                    None
                }
            },
        }
    } else {
        match find_char(authority, ':') {
            Some(colon) => {
                let host = authority.substring_char(0, colon);
                let port = authority.substring_char(colon + 1, length);
                assert(host@ =~= authority@.take(colon as int));
                assert(port@ =~= authority@.skip(colon + 1));
                Some((host, Some(port)))
            },
            None => Some((authority, None)),
        }
    }
}

/// Whether an origin is `http` or `https` on a loopback host.
pub fn is_loopback_origin(origin: &str) -> (loopback: bool)
    ensures
        loopback == loopback_origin(origin@),
{
    proof {
        reveal_strlit("://");
    }
    let at: usize = match find_text(origin, "://") {
        Some(at) => at,
        None => {
            return false;
        },
    };
    let length: usize = origin.unicode_len();
    let scheme = origin.substring_char(0, at);
    let authority = origin.substring_char(at + 3, length);
    assert(scheme@ =~= origin@.take(at as int));
    assert(authority@ =~= origin@.skip(at + 3));
    if !(same_ignoring_ascii_case(scheme, "http") || same_ignoring_ascii_case(scheme, "https")) {
        return false;
    }
    let text = chars_of(authority);
    let mut i: usize = 0;
    while i < text.len()
        invariant
            i <= text.len(),
            text@ == authority@,
            forall|k: int| 0 <= k < i ==> !foreign_to_authority(#[trigger] authority@[k]),
            authority@ == origin@.skip(at + 3),
            first_occurrence(origin@, "://"@) == Some(at as int),
        decreases text.len() - i,
    {
        let c = text[i];
        if char_is_space(c) || c == '/' || c == '@' || c == '?' || c == '#' {
            assert(foreign_to_authority(authority@[i as int]));
            return false;
        }
        i += 1;
    }
    match split_authority(authority) {
        None => false,
        Some((host, port)) => {
            let port_ok = match port {
                Some(port) => is_port(port),
                None => true,
            };
            port_ok && is_loopback_host(host)
        },
    }
}

/// Whether a request with an origin, or without one, passes a list of origins. With
/// an empty list only a loopback origin does.
pub open spec fn origin_allowed(origin: Option<Seq<char>>, allowed: Seq<Seq<char>>) -> bool {
    match origin {
        None => true,
        Some(origin) => if allowed.len() == 0 {
            loopback_origin(origin)
        } else {
            allowed.contains("*"@) || allowed.contains(origin)
        },
    }
}

/// Whether a request with an origin, or without one, passes a list of origins.
pub fn is_origin_allowed(origin: Option<&str>, allowed: &[String]) -> (ok: bool)
    ensures
        ok == origin_allowed(str_view(origin), views(allowed@)),
{
    match origin {
        None => true,
        Some(origin) => if allowed.len() == 0 {
            is_loopback_origin(origin)
        } else {
            is_among("*", allowed) || is_among(origin, allowed)
        },
    }
}

// ---------------------------------------------------------------------------
// Requests
// ---------------------------------------------------------------------------

/// A header of a request.
#[derive(Debug)]
pub enum Header {
    /// It is not there.
    Absent,
    /// It is there, and is not readable text.
    Unreadable,
    /// It is there.
    Text(String),
}

/// The headers of a request that matter here.
#[derive(Debug)]
pub struct RequestHead {
    /// `Origin`.
    pub origin: Header,
    /// `Authorization`.
    pub authorization: Header,
    /// `MCP-Protocol-Version`.
    pub protocol_version: Header,
    /// `Accept`.
    pub accept: Header,
}

impl Header {
    /// The header's text, where it is readable.
    pub open spec fn readable(self) -> Option<Seq<char>> {
        match self {
            Header::Text(text) => Some(text@),
            _ => None,
        }
    }

    /// The header's text, where it is readable.
    pub fn as_text(&self) -> (text: Option<&str>)
        ensures
            str_view(text) == self.readable(),
    {
        match self {
            Header::Text(text) => Some(text.as_str()),
            _ => None,
        }
    }

    /// The origin that the header names. One that cannot be read is the empty origin,
    /// not an absent one.
    pub open spec fn as_origin(self) -> Option<Seq<char>> {
        match self {
            Header::Absent => None,
            Header::Unreadable => Some(Seq::empty()),
            Header::Text(text) => Some(text@),
        }
    }
}

/// An answer over HTTP.
#[derive(Debug)]
pub struct HttpReply {
    /// Status code.
    pub status: u16,
    /// `WWW-Authenticate`.
    pub www_authenticate: Option<String>,
    /// `Retry-After`, in seconds.
    pub retry_after: Option<u64>,
    /// Body.
    pub body: HttpBody,
}

/// The body of an answer over HTTP.
#[derive(Debug)]
pub enum HttpBody {
    /// No body.
    Empty,
    /// Plain text.
    Text(String),
    /// JSON.
    Json(Json),
    /// An event stream of one event, whose data is JSON.
    Event(Json),
}

/// What an answer over HTTP is.
pub struct ReplyView {
    /// Status code.
    pub status: u16,
    /// `WWW-Authenticate`.
    pub www_authenticate: Option<Seq<char>>,
    /// `Retry-After`, in seconds.
    pub retry_after: Option<u64>,
    /// Body.
    pub body: BodyView,
}

/// What the body of an answer over HTTP is.
pub enum BodyView {
    /// No body.
    Empty,
    /// Plain text.
    Text(Seq<char>),
    /// JSON.
    Json(JsonView),
    /// An event stream of one event, whose data is JSON.
    Event(JsonView),
}

impl View for HttpReply {
    type V = ReplyView;

    open spec fn view(&self) -> ReplyView {
        ReplyView {
            status: self.status,
            www_authenticate: text_view(self.www_authenticate),
            retry_after: self.retry_after,
            body: match self.body {
                HttpBody::Empty => BodyView::Empty,
                HttpBody::Text(text) => BodyView::Text(text@),
                HttpBody::Json(json) => BodyView::Json(json@),
                HttpBody::Event(json) => BodyView::Event(json@),
            },
        }
    }
}

/// An answer without further headers.
pub open spec fn plain_reply(status: u16, body: BodyView) -> ReplyView {
    ReplyView { status, www_authenticate: None, retry_after: None, body }
}

fn reply(status: u16, body: HttpBody) -> (reply: HttpReply)
    ensures
        reply.status == status,
        reply.www_authenticate is None,
        reply.retry_after is None,
        reply.body == body,
{
    HttpReply { status, www_authenticate: None, retry_after: None, body }
}

/// What is to be done with a posted request.
pub enum Admission {
    /// Answer this.
    Refuse(HttpReply),
    /// Authenticate this.
    Authenticate(JsonRpcRequest),
}

/// The request as it goes to authentication: the credential is that of the
/// `Authorization` header, and the revision header is noted.
pub open spec fn admitted_request(
    request: RequestView,
    authorization: Option<Seq<char>>,
    version: Option<Seq<char>>,
) -> RequestView {
    RequestView {
        auth_token: match authorization {
            Some(header) => credential_of(header),
            None => None,
        },
        metadata: match version {
            Some(version) => inserted(request.metadata, MCP_PROTOCOL_VERSION_HEADER@, version),
            None => request.metadata,
        },
        ..request
    }
}

/// What is to be done with a posted request. In this order: the origin must be
/// allowed, the body must be a request, and the revision named in the header, if any,
/// must be one that the server speaks.
pub open spec fn admission<H>(config: Config<H>, head: RequestHead, body: Seq<char>) -> Result<
    RequestView,
    ReplyView,
> {
    if !origin_allowed(head.origin.as_origin(), config.origins) {
        Err(plain_reply(403, BodyView::Text("Origin not allowed"@)))
    } else {
        match posted_body(body) {
            Err(refusal) => Err(plain_reply(400, BodyView::Json(response_json(refusal)))),
            Ok(request) => {
                let version = head.protocol_version.readable();
                if version is Some && !config.versions.contains(version->0) {
                    Err(
                        plain_reply(
                            400,
                            BodyView::Json(
                                response_json(version_missing(None, config.versions, version->0)),
                            ),
                        ),
                    )
                } else {
                    Ok(admitted_request(request, head.authorization.readable(), version))
                }
            },
        }
    }
}

/// The credential of the `Authorization` header.
fn bearer_token(authorization: &Header) -> (token: Option<String>)
    ensures
        text_view(token) == match authorization.readable() {
            Some(header) => credential_of(header),
            None => None,
        },
{
    match authorization.as_text() {
        Some(header) => match bearer_credential(header) {
            Some(token) => Some(token.to_owned()),
            None => None,
        },
        None => None,
    }
}

/// Decides on a posted request, from its headers and its body.
pub fn admit_post<H>(server: &McpServer<H>, head: &RequestHead, body: &str) -> (decision: Admission)
    ensures
        match decision {
            Admission::Refuse(reply) => admission(server.config(), *head, body@) == Err::<
                RequestView,
                ReplyView,
            >(reply@),
            Admission::Authenticate(request) => admission(server.config(), *head, body@) == Ok::<
                RequestView,
                ReplyView,
            >(request@),
        },
{
    let nothing = String::new();
    let origin = match &head.origin {
        Header::Absent => None,
        Header::Unreadable => Some(nothing.as_str()),
        Header::Text(text) => Some(text.as_str()),
    };
    if !is_origin_allowed(origin, server.allowed_origins()) {
        return Admission::Refuse(reply(403, HttpBody::Text("Origin not allowed".to_owned())));
    }
    let request = match JsonRpcRequest::parse(body) {
        Ok(request) => request,
        Err(refusal) => {
            return Admission::Refuse(reply(400, HttpBody::Json(refusal.to_json())));
        },
    };
    let request = JsonRpcRequest { auth_token: bearer_token(&head.authorization), ..request };
    match head.protocol_version.as_text() {
        Some(version) => {
            if !server.accepts_protocol_version(version) {
                let refusal = unsupported_version_error(
                    None,
                    server.advertised_protocol_versions(),
                    version,
                );
                return Admission::Refuse(reply(400, HttpBody::Json(refusal.to_json())));
            }
            Admission::Authenticate(request.with_metadata(MCP_PROTOCOL_VERSION_HEADER, version))
        },
        None => Admission::Authenticate(request),
    }
}

// ---------------------------------------------------------------------------
// Answers
// ---------------------------------------------------------------------------

/// How long a caller whose budget is spent is told to wait: never no time at all.
pub open spec fn wait_of(retry_after_secs: u64) -> u64 {
    if retry_after_secs == 0 {
        1
    } else {
        retry_after_secs
    }
}

/// The answer to a request that was turned away.
pub open spec fn rejection(error: AuthError) -> ReplyView {
    match error {
        AuthError::Unauthorized { www_authenticate } => ReplyView {
            status: 401,
            www_authenticate: Some(www_authenticate@),
            retry_after: None,
            body: BodyView::Json(response_json(error_view(None, UNAUTHORIZED, "Unauthorized"@))),
        },
        AuthError::Forbidden { reason } => plain_reply(
            403,
            BodyView::Json(response_json(error_view(None, UNAUTHORIZED, reason@))),
        ),
        AuthError::InsufficientScope { www_authenticate, reason } => ReplyView {
            status: 403,
            www_authenticate: Some(www_authenticate@),
            retry_after: None,
            body: BodyView::Json(response_json(error_view(None, UNAUTHORIZED, reason@))),
        },
        AuthError::RateLimited { retry_after_secs, reason } => ReplyView {
            status: 429,
            www_authenticate: None,
            retry_after: Some(wait_of(retry_after_secs)),
            body: BodyView::Json(
                response_json(
                    failure_view(
                        None,
                        RATE_LIMITED,
                        reason@,
                        Some(
                            JsonView::Object(
                                fields().push(
                                    (
                                        "retry_after_secs"@,
                                        JsonView::Number(
                                            NumberView::Unsigned(wait_of(retry_after_secs)),
                                        ),
                                    ),
                                ),
                            ),
                        ),
                    ),
                ),
            ),
        },
        AuthError::Internal { reason } => plain_reply(
            500,
            BodyView::Json(response_json(error_view(None, INTERNAL_ERROR, reason@))),
        ),
    }
}

/// The answer to a request that was turned away.
pub fn render_rejection(error: AuthError) -> (answer: HttpReply)
    ensures
        answer@ == rejection(error),
{
    match error {
        AuthError::Unauthorized { www_authenticate } => HttpReply {
            status: 401,
            www_authenticate: Some(www_authenticate),
            retry_after: None,
            body: HttpBody::Json(
                JsonRpcResponse::error(None, UNAUTHORIZED, "Unauthorized").to_json(),
            ),
        },
        AuthError::Forbidden { reason } => reply(
            403,
            HttpBody::Json(JsonRpcResponse::error(None, UNAUTHORIZED, reason.as_str()).to_json()),
        ),
        AuthError::InsufficientScope { www_authenticate, reason } => HttpReply {
            status: 403,
            www_authenticate: Some(www_authenticate),
            retry_after: None,
            body: HttpBody::Json(
                JsonRpcResponse::error(None, UNAUTHORIZED, reason.as_str()).to_json(),
            ),
        },
        AuthError::RateLimited { retry_after_secs, reason } => {
            let wait: u64 = if retry_after_secs == 0 { 1 } else { retry_after_secs };
            let mut data = no_members();
            put(&mut data, "retry_after_secs", Json::unsigned(wait));
            HttpReply {
                status: 429,
                www_authenticate: None,
                retry_after: Some(wait),
                body: HttpBody::Json(
                    JsonRpcResponse::error_with_data(
                        None,
                        RATE_LIMITED,
                        reason.as_str(),
                        Json::object(data),
                    ).to_json(),
                ),
            }
        },
        AuthError::Internal { reason } => reply(
            500,
            HttpBody::Json(
                JsonRpcResponse::error(None, INTERNAL_ERROR, reason.as_str()).to_json(),
            ),
        ),
    }
}

/// Who the caller is when nobody authenticates callers, or what authentication said.
pub fn authenticated(outcome: Option<Result<ToolContext, AuthError>>) -> (caller: Result<
    ToolContext,
    HttpReply,
>)
    ensures
        match outcome {
            None => caller matches Ok(ctx) && ctx@ == anonymous(),
            Some(Ok(known)) => caller matches Ok(ctx) && ctx == known,
            Some(Err(error)) => caller matches Err(answer) && answer@ == rejection(error),
        },
{
    match outcome {
        None => Ok(ToolContext::new()),
        Some(Ok(ctx)) => Ok(ctx),
        Some(Err(error)) => Err(render_rejection(error)),
    }
}

/// The answer to a request that was served: nothing but the word that it was accepted
/// for a notification; otherwise the response, as an event when the client accepts
/// event streams.
pub open spec fn rendered(response: Option<ResponseView>, accept: Option<Seq<char>>) -> ReplyView {
    match response {
        None => plain_reply(202, BodyView::Empty),
        Some(response) => if accept is Some && occurs_in(accept->0, "text/event-stream"@) {
            plain_reply(200, BodyView::Event(response_json(response)))
        } else {
            plain_reply(200, BodyView::Json(response_json(response)))
        },
    }
}

/// The answer to a request that was served.
pub fn render_response(response: Option<JsonRpcResponse>, accept: &Header) -> (answer: HttpReply)
    ensures
        answer@ == rendered(
            match response {
                Some(response) => Some(response@),
                None => None,
            },
            accept.readable(),
        ),
{
    match response {
        None => reply(202, HttpBody::Empty),
        Some(response) => {
            let wants_events = match accept.as_text() {
                Some(accept) => contains(accept, "text/event-stream"),
                None => false,
            };
            if wants_events {
                reply(200, HttpBody::Event(response.to_json()))
            } else {
                reply(200, HttpBody::Json(response.to_json()))
            }
        },
    }
}

// ---------------------------------------------------------------------------
// Serving
// ---------------------------------------------------------------------------

/// Whether a server may serve a host, given the addresses that the host's name
/// resolved to: when nobody authenticates callers, the host and all of them must be
/// loopback.
pub open spec fn may_serve(gated: bool, host: Seq<char>, addresses: Seq<Seq<char>>) -> bool {
    gated || (loopback_host(host) && forall|i: int|
        0 <= i < addresses.len() ==> loopback_host(#[trigger] addresses[i]))
}

/// The posture in which a server serves a host, or the refusal to serve it.
pub fn serve_posture<H>(server: &McpServer<H>, host: &str, addresses: &[String]) -> (mode: Result<
    AuthMode,
    InsecureBindError,
>)
    ensures
        match mode {
            Ok(mode) => may_serve(server.config().auth_hook, host@, views(addresses@)) && mode
                == if server.config().auth_hook {
                AuthMode::Enforced
            } else {
                AuthMode::LoopbackDev
            },
            Err(refusal) => !may_serve(server.config().auth_hook, host@, views(addresses@))
                && refusal.host@ == host@ && refusal.gate is None,
        },
{
    let gated = server.authenticates();
    let mode = match resolve_startup_auth(host, gated) {
        Ok(mode) => mode,
        Err(refusal) => {
            return Err(refusal);
        },
    };
    let ghost resolved = views(addresses@);
    let mut i: usize = 0;
    while i < addresses.len()
        invariant
            i <= addresses.len(),
            resolved == views(addresses@),
            !gated ==> forall|k: int| 0 <= k < i ==> loopback_host(#[trigger] resolved[k]),
            gated == server.config().auth_hook,
        decreases addresses.len() - i,
    {
        assert(resolved[i as int] == addresses@[i as int]@);
        if !gated && !is_loopback_host(addresses[i].as_str()) {
            return Err(InsecureBindError::new(host));
        }
        i += 1;
    }
    Ok(mode)
}

// ---------------------------------------------------------------------------
// Laws
// ---------------------------------------------------------------------------

/// A browser page of another site cannot reach a server that was given no list of
/// origins: its origin is refused before anything else is looked at.
pub proof fn foreign_origins_are_refused_by_default<H>(
    config: Config<H>,
    head: RequestHead,
    body: Seq<char>,
)
    requires
        config.origins.len() == 0,
        head.origin.as_origin() matches Some(origin) && !loopback_origin(origin),
    ensures
        admission(config, head, body) == Err::<RequestView, ReplyView>(
            plain_reply(403, BodyView::Text("Origin not allowed"@)),
        ),
{
}

/// An origin that cannot be read is refused unless every origin is welcome or the empty
/// one is listed.
pub proof fn unreadable_origins_are_not_absent(allowed: Seq<Seq<char>>)
    requires
        !allowed.contains("*"@),
        !allowed.contains(Seq::empty()),
    ensures
        !origin_allowed(Header::Unreadable.as_origin(), allowed),
{
    if allowed.len() == 0 {
        reveal_strlit("://");
        assert(!loopback_origin(Seq::empty()));
    }
}

/// The credential that reaches authentication is that of the header, never one out of
/// the body.
pub proof fn credentials_come_from_the_header_only<H>(
    config: Config<H>,
    head: RequestHead,
    body: Seq<char>,
)
    ensures
        admission(config, head, body) matches Ok(request) ==> request.auth_token == match head.authorization.readable() {
            Some(header) => credential_of(header),
            None => None,
        },
{
}

/// A body that is no request is refused, whatever the headers say of a credential or a
/// revision.
pub proof fn bodies_that_are_no_request_are_refused<H>(
    config: Config<H>,
    head: RequestHead,
    body: Seq<char>,
)
    requires
        posted_body(body) is Err,
    ensures
        admission(config, head, body) matches Err(answer) && (answer.status == 400 || answer.status
            == 403),
{
}

/// A caller whose budget is spent is told the same wait in the header and in the body,
/// and never that there is none.
pub proof fn waits_agree_and_are_never_zero(retry_after_secs: u64, reason: String)
    ensures
        ({
            let answer = rejection(AuthError::RateLimited { retry_after_secs, reason });
            answer.retry_after == Some(wait_of(retry_after_secs)) && wait_of(retry_after_secs) >= 1
                && wait_of(retry_after_secs) >= retry_after_secs
        }),
{
}

} // verus!
