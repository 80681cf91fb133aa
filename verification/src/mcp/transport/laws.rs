//! What holds of every request that is posted, and of every answer to one.

use vstd::prelude::*;

use crate::digits::{all_digits, decimal_value};
use crate::json::{group_find_member, JsonView, NumberView};
use crate::mcp::auth::AuthError;
use crate::mcp::protocol::{posted_body, response_json, ResponseView};
use crate::mcp::server::Config;
use crate::mcp::transport::http::{
    admission, host_and_port, loopback_origin, may_serve, origin_allowed, rejection, rendered,
    BodyView, Header, RequestHead,
};
use crate::server::auth::{credential_of, loopback_host};
use crate::string_map::{distinct_keys, lookup, lookup_after_insert};
use crate::text::{ascii_lower_all, first_occurrence, is_space, occurs_at};
use crate::text_laws::{lemma_first_index_behind, the_first_occurrence_is_the_first};

verus! {

// ---------------------------------------------------------------------------
// Origins
// ---------------------------------------------------------------------------

/// A request without an origin is accepted. With a list, an origin is accepted exactly when the
/// list names it or names every origin; without one, exactly when it is this machine's.
pub proof fn origins_are_accepted_by_the_list(origin: Seq<char>, allowed: Seq<Seq<char>>)
    ensures
        origin_allowed(None, allowed),
        allowed.len() == 0 ==> (origin_allowed(Some(origin), allowed) <==> loopback_origin(origin)),
        allowed.len() > 0 ==> (origin_allowed(Some(origin), allowed) <==> exists|i: int|
            0 <= i < allowed.len() && (#[trigger] allowed[i] == "*"@ || allowed[i] == origin)),
{
    if allowed.len() > 0 {
        if origin_allowed(Some(origin), allowed) {
            if allowed.contains("*"@) {
                let i = choose|i: int| 0 <= i < allowed.len() && allowed[i] == "*"@;
                assert(allowed[i] == "*"@);
            } else {
                let i = choose|i: int| 0 <= i < allowed.len() && allowed[i] == origin;
                assert(allowed[i] == origin);
            }
        }
    }
}

/// Whether a scheme is that of the web, in whatever case.
pub open spec fn is_web(scheme: Seq<char>) -> bool {
    ascii_lower_all(scheme) == "http"@ || ascii_lower_all(scheme) == "https"@
}

/// Whether a text is one name or address of a host, and nothing besides.
pub open spec fn is_bare_host(host: Seq<char>) -> bool {
    &&& forall|i: int|
        0 <= i < host.len() ==> {
            let c = #[trigger] host[i];
            !is_space(c) && c != '/' && c != '@' && c != '?' && c != '#' && c != ':'
        }
    &&& host.len() > 0 ==> host[0] != '['
}

proof fn lemma_origin_scheme(scheme: Seq<char>, authority: Seq<char>)
    requires
        !scheme.contains(':'),
    ensures
        first_occurrence(scheme + "://"@ + authority, "://"@) == Some(scheme.len() as int),
        (scheme + "://"@ + authority).take(scheme.len() as int) == scheme,
        (scheme + "://"@ + authority).skip(scheme.len() as int + 3) == authority,
{
    reveal_strlit("://");
    let mark = "://"@;
    let origin = scheme + mark + authority;
    assert(mark.len() == 3 && mark[0] == ':');
    the_first_occurrence_is_the_first(origin, mark);
    assert(origin.subrange(scheme.len() as int, scheme.len() as int + 3) =~= mark);
    assert(occurs_at(origin, mark, scheme.len() as int));
    match first_occurrence(origin, mark) {
        Some(at) => {
            if at < scheme.len() {
                assert(origin.subrange(at, at + 3)[0] == origin[at]);
                assert(origin[at] == scheme[at]);
                assert(scheme.contains(':'));
            }
            if at > scheme.len() {
                assert(!occurs_at(origin, mark, scheme.len() as int));
            }
        },
        None => {},
    }
    assert(origin.take(scheme.len() as int) =~= scheme);
    assert(origin.skip(scheme.len() as int + 3) =~= authority);
}

proof fn lemma_web_words()
    ensures
        ascii_lower_all("http"@) == "http"@,
        ascii_lower_all("https"@) == "https"@,
{
    reveal_strlit("http");
    reveal_strlit("https");
    assert(ascii_lower_all("http"@) =~= "http"@);
    assert(ascii_lower_all("https"@) =~= "https"@);
}

/// An origin of a scheme and a host is this machine's exactly when the scheme is of the web and
/// the host is this machine.
pub proof fn origins_are_told_by_their_host(scheme: Seq<char>, host: Seq<char>)
    requires
        !scheme.contains(':'),
        is_bare_host(host),
    ensures
        loopback_origin(scheme + "://"@ + host) <==> is_web(scheme) && loopback_host(host),
{
    lemma_origin_scheme(scheme, host);
    lemma_web_words();
    assert(!host.contains(':')) by {
        if host.contains(':') {
            let k = choose|k: int| 0 <= k < host.len() && host[k] == ':';
            assert(host[k] == ':');
        }
    }
    lemma_first_index_behind(host, Seq::empty(), ':');
    assert(host + Seq::<char>::empty() =~= host);
    assert(host_and_port(host) == Some((host, None::<Seq<char>>)));
    assert forall|i: int| 0 <= i < host.len() implies !crate::mcp::transport::http::foreign_to_authority(
        #[trigger] host[i],
    ) by {}
}

/// The same of an origin with a port, which must be one: digits that denote at most 65535.
pub proof fn origins_may_have_a_port(scheme: Seq<char>, host: Seq<char>, port: Seq<char>)
    requires
        !scheme.contains(':'),
        is_bare_host(host),
        is_bare_host(port),
    ensures
        loopback_origin(scheme + "://"@ + host + seq![':'] + port) <==> is_web(scheme)
            && loopback_host(host) && all_digits(port) && decimal_value(port) <= 65_535,
{
    let authority = host + seq![':'] + port;
    lemma_origin_scheme(scheme, authority);
    assert(scheme + "://"@ + host + seq![':'] + port =~= scheme + "://"@ + authority);
    lemma_web_words();
    assert(!host.contains(':')) by {
        if host.contains(':') {
            let k = choose|k: int| 0 <= k < host.len() && host[k] == ':';
            assert(host[k] == ':');
        }
    }
    assert(authority =~= host + (seq![':'] + port));
    lemma_first_index_behind(host, seq![':'] + port, ':');
    assert(authority.take(host.len() as int) =~= host);
    assert(authority.skip(host.len() as int + 1) =~= port);
    assert(authority[0] != '[') by {
        if host.len() > 0 {
            assert(authority[0] == host[0]);
        }
    }
    assert(host_and_port(authority) == Some((host, Some(port))));
    assert forall|i: int| 0 <= i < authority.len() implies !crate::mcp::transport::http::foreign_to_authority(
        #[trigger] authority[i],
    ) by {
        if i < host.len() {
            assert(authority[i] == host[i]);
        } else if i > host.len() {
            assert(authority[i] == port[i - host.len() - 1]);
        }
    }
}

/// The same of a host in brackets, where only an IPv6 address can stand.
pub proof fn origins_may_be_in_brackets(scheme: Seq<char>, inner: Seq<char>)
    requires
        !scheme.contains(':'),
        forall|i: int|
            0 <= i < inner.len() ==> {
                let c = #[trigger] inner[i];
                !is_space(c) && c != '/' && c != '@' && c != '?' && c != '#' && c != ']'
            },
    ensures
        loopback_origin(scheme + "://"@ + seq!['['] + inner + seq![']']) <==> is_web(scheme)
            && loopback_host(seq!['['] + inner + seq![']']),
{
    let authority = seq!['['] + inner + seq![']'];
    lemma_origin_scheme(scheme, authority);
    assert(scheme + "://"@ + seq!['['] + inner + seq![']'] =~= scheme + "://"@ + authority);
    lemma_web_words();
    let bracketed = authority.skip(1);
    assert(bracketed =~= inner + seq![']']);
    assert(!inner.contains(']')) by {
        if inner.contains(']') {
            let k = choose|k: int| 0 <= k < inner.len() && inner[k] == ']';
            assert(inner[k] == ']');
        }
    }
    lemma_first_index_behind(inner, seq![']'], ']');
    assert(bracketed.skip(inner.len() as int + 1).len() == 0);
    assert(authority.take(inner.len() as int + 2) =~= authority);
    assert(host_and_port(authority) == Some((authority, None::<Seq<char>>)));
    assert forall|i: int| 0 <= i < authority.len() implies !crate::mcp::transport::http::foreign_to_authority(
        #[trigger] authority[i],
    ) by {
        if 0 < i < authority.len() - 1 {
            assert(authority[i] == inner[i - 1]);
        }
    }
}

// ---------------------------------------------------------------------------
// Requests
// ---------------------------------------------------------------------------

/// Whether a request is accepted by its origin and by the revision in its header.
pub open spec fn passes_the_door<H>(config: Config<H>, head: RequestHead) -> bool {
    &&& origin_allowed(
        match head.origin {
            Header::Absent => None,
            Header::Unreadable => Some(Seq::empty()),
            Header::Text(text) => Some(text@),
        },
        config.origins,
    )
    &&& head.protocol_version matches Header::Text(version) ==> exists|i: int|
        0 <= i < config.versions.len() && #[trigger] config.versions[i] == version@
}

/// A posted request goes on to authentication exactly when its origin is accepted, its body is
/// a request, and its header names no revision that the server does not speak. It then is what
/// the body says, but for the credential, which is the header's, and the revision, which is
/// noted.
pub proof fn accepted_requests_are_what_their_body_says<H>(
    config: Config<H>,
    head: RequestHead,
    body: Seq<char>,
    key: Seq<char>,
)
    ensures
        admission(config, head, body) is Ok <==> passes_the_door(config, head) && posted_body(
            body,
        ) is Ok,
        admission(config, head, body) matches Ok(admitted) ==> {
            let sent = posted_body(body)->Ok_0;
            &&& admitted.jsonrpc == sent.jsonrpc
            &&& admitted.method == sent.method
            &&& admitted.params == sent.params
            &&& admitted.id == sent.id
            &&& admitted.headers == sent.headers
            &&& admitted.auth_token == match head.authorization {
                Header::Text(text) => credential_of(text@),
                _ => None,
            }
            &&& distinct_keys(sent.metadata) && key != "mcp-protocol-version"@ ==> lookup(
                admitted.metadata,
                key,
            ) == lookup(sent.metadata, key)
            &&& distinct_keys(sent.metadata) ==> (head.protocol_version matches Header::Text(version)
                ==> lookup(admitted.metadata, "mcp-protocol-version"@) == Some(version@))
            &&& !(head.protocol_version is Text) ==> admitted.metadata == sent.metadata
        },
{
    match head.protocol_version {
        Header::Text(version) => {
            assert(config.versions.contains(version@) <==> exists|i: int|
                0 <= i < config.versions.len() && #[trigger] config.versions[i] == version@);
            match posted_body(body) {
                Ok(sent) => {
                    if distinct_keys(sent.metadata) {
                        lookup_after_insert(
                            sent.metadata,
                            "mcp-protocol-version"@,
                            version@,
                            key,
                        );
                    }
                },
                Err(_) => {},
            }
        },
        _ => {},
    }
}

/// A request that is turned away is told why by its status: 403 for its origin, whatever else
/// is wrong, and 400 for its body or its revision.
pub proof fn refusals_tell_their_reason<H>(config: Config<H>, head: RequestHead, body: Seq<char>)
    ensures
        admission(config, head, body) matches Err(reply) ==> {
            let foreign = !origin_allowed(head.origin.as_origin(), config.origins);
            &&& reply.status == if foreign {
                403int
            } else {
                400
            }
            &&& reply.www_authenticate is None
            &&& reply.retry_after is None
            &&& !foreign ==> (posted_body(body) matches Err(refusal) ==> reply.body
                == BodyView::Json(response_json(refusal)))
        },
{
}

// ---------------------------------------------------------------------------
// Answers
// ---------------------------------------------------------------------------

/// An answer is the response as it is, as an event where the client accepts events and as a
/// document otherwise; nothing is answered to a notification.
pub proof fn responses_are_rendered_as_accepted(
    response: ResponseView,
    before: Seq<char>,
    after: Seq<char>,
)
    ensures
        rendered(None, None).status == 202,
        rendered(None, None).body is Empty,
        rendered(Some(response), None).status == 200,
        rendered(Some(response), None).body == BodyView::Json(response_json(response)),
        rendered(Some(response), Some(before + "text/event-stream"@ + after)).status == 200,
        rendered(Some(response), Some(before + "text/event-stream"@ + after)).body
            == BodyView::Event(response_json(response)),
{
    let accept = before + "text/event-stream"@ + after;
    let word = "text/event-stream"@;
    assert(accept.subrange(before.len() as int, before.len() as int + word.len()) =~= word);
    assert(occurs_at(accept, word, before.len() as int));
}

/// A client that does not ask for events gets none.
pub proof fn events_are_for_those_who_accept_them(response: ResponseView, accept: Seq<char>)
    requires
        forall|at: int| !#[trigger] occurs_at(accept, "text/event-stream"@, at),
    ensures
        rendered(Some(response), Some(accept)).body == BodyView::Json(response_json(response)),
{
}

/// A response is written with its version, its id, and its result or its error.
pub proof fn responses_are_written_whole(response: ResponseView)
    ensures
        ({
            let json = response_json(response);
            &&& json.member("jsonrpc"@) == Some(JsonView::Text(response.jsonrpc))
            &&& json.member("result"@) == response.result
            &&& json.member("id"@) == Some(
                match response.id {
                    Some(id) => id,
                    None => JsonView::Null,
                },
            )
            &&& response.error is None ==> json.member("error"@) is None
            &&& response.error matches Some(error) ==> (json.member("error"@) matches Some(told)
                && told.member("message"@) == Some(JsonView::Text(error.message)) && told.member(
                "data"@,
            ) == error.data && told.member("code"@) == Some(
                JsonView::Number(
                    if error.code < 0 {
                        NumberView::Negative(error.code as i64)
                    } else {
                        NumberView::Unsigned(error.code as u64)
                    },
                ),
            ))
        }),
{
    broadcast use group_find_member;

    lemma_response_names();
}

/// The names of a response's members are distinct.
proof fn lemma_response_names()
    ensures
        "jsonrpc"@ != "result"@,
        "jsonrpc"@ != "error"@,
        "jsonrpc"@ != "id"@,
        "jsonrpc"@ != "code"@,
        "jsonrpc"@ != "message"@,
        "jsonrpc"@ != "data"@,
        "result"@ != "error"@,
        "result"@ != "id"@,
        "result"@ != "code"@,
        "result"@ != "message"@,
        "result"@ != "data"@,
        "error"@ != "id"@,
        "error"@ != "code"@,
        "error"@ != "message"@,
        "error"@ != "data"@,
        "id"@ != "code"@,
        "id"@ != "message"@,
        "id"@ != "data"@,
        "code"@ != "message"@,
        "code"@ != "data"@,
        "message"@ != "data"@,
{
    reveal_strlit("jsonrpc");
    reveal_strlit("result");
    reveal_strlit("error");
    reveal_strlit("id");
    reveal_strlit("code");
    reveal_strlit("message");
    reveal_strlit("data");
    assert("jsonrpc"@.len() == 7);
    assert("result"@.len() == 6);
    assert("error"@.len() == 5);
    assert("id"@.len() == 2);
    assert("code"@.len() == 4);
    assert("message"@.len() == 7);
    assert("data"@.len() == 4);
    assert("jsonrpc"@[0] != "message"@[0]);
    assert("code"@[0] != "data"@[0]);
}

/// Each failure of authentication has its status, and is told with its reason: who is not known
/// gets 401 and a challenge, who may not gets 403, who asks too often gets 429 and a time to
/// wait, and a failure of the server's own is 500.
pub proof fn rejections_have_their_status(
    challenge: String,
    reason: String,
    wait: u64,
)
    ensures
        ({
            let reply = rejection(AuthError::Unauthorized { www_authenticate: challenge });
            reply.status == 401 && reply.www_authenticate == Some(challenge@) && reply.retry_after is None
                && tells(reply.body, -32_001, "Unauthorized"@)
        }),
        ({
            let reply = rejection(AuthError::Forbidden { reason });
            reply.status == 403 && reply.www_authenticate is None && reply.retry_after is None
                && tells(reply.body, -32_001, reason@)
        }),
        ({
            let reply = rejection(
                AuthError::InsufficientScope { www_authenticate: challenge, reason },
            );
            reply.status == 403 && reply.www_authenticate == Some(challenge@) && reply.retry_after is None
                && tells(reply.body, -32_001, reason@)
        }),
        ({
            let reply = rejection(AuthError::RateLimited { retry_after_secs: wait, reason });
            reply.status == 429 && reply.www_authenticate is None && reply.retry_after == Some(
                if wait == 0 {
                    1u64
                } else {
                    wait
                },
            ) && tells(reply.body, -32_002, reason@)
        }),
        ({
            let reply = rejection(AuthError::Internal { reason });
            reply.status == 500 && reply.www_authenticate is None && reply.retry_after is None
                && tells(reply.body, -32_603, reason@)
        }),
{
    broadcast use group_find_member;

    lemma_response_names();
}

/// Whether a body is an error of a code and a message, without an id.
pub open spec fn tells(body: BodyView, code: int, message: Seq<char>) -> bool {
    body matches BodyView::Json(json) && json.member("jsonrpc"@) == Some(JsonView::Text("2.0"@))
        && json.member("id"@) == Some(JsonView::Null) && json.member("result"@) is None && (
    json.member("error"@) matches Some(error) && error.member("message"@) == Some(
        JsonView::Text(message),
    ) && error.member("code"@) == Some(JsonView::Number(NumberView::Negative(code as i64))))
}

/// A server that nobody authenticates to serves this machine only, under every address that its
/// host has; one that authenticates callers serves any.
pub proof fn ungated_servers_serve_this_machine(host: Seq<char>, addresses: Seq<Seq<char>>, i: int)
    ensures
        may_serve(true, host, addresses),
        may_serve(false, host, addresses) ==> loopback_host(host) && (0 <= i < addresses.len()
            ==> loopback_host(addresses[i])),
        loopback_host(host) && (forall|k: int|
            0 <= k < addresses.len() ==> loopback_host(#[trigger] addresses[k])) ==> may_serve(
            false,
            host,
            addresses,
        ),
{
}

} // verus!
