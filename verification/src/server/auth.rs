//! Bearer credentials, and whether a server may start without a gate.

use vstd::prelude::*;

use crate::error::ErrorResponse;
use crate::json::text_view;
use crate::server::address::{
    is_ipv6_loopback, is_ipv6_loopback_literal, is_loopback_literal, names_loopback,
};
use crate::text::{
    ascii_lower_all, chars_of, find_char, first_index, lemma_first_index, same_ignoring_ascii_case,
    trim, trimmed,
};

verus! {

// ---------------------------------------------------------------------------
// Credentials
// ---------------------------------------------------------------------------

/// `s` without the spaces it begins with.
pub open spec fn without_leading_blanks(s: Seq<char>) -> Seq<char>
    decreases s.len(),
{
    if s.len() > 0 && s[0] == ' ' {
        without_leading_blanks(s.skip(1))
    } else {
        s
    }
}

/// The credential of an `Authorization` header: what follows the word `Bearer`,
/// in any case, and the blanks behind it.
pub open spec fn credential_of(header: Seq<char>) -> Option<Seq<char>> {
    let at = first_index(header, ' ');
    if !(0 <= at < header.len()) {
        None
    } else if ascii_lower_all(header.take(at)) != ascii_lower_all("Bearer"@) {
        None
    } else {
        let credential = without_leading_blanks(header.skip(at + 1));
        if credential.len() == 0 {
            None
        } else {
            Some(credential)
        }
    }
}

proof fn lemma_without_leading_blanks(s: Seq<char>, n: int)
    requires
        0 <= n <= s.len(),
        forall|k: int| 0 <= k < n ==> s[k] == ' ',
        n < s.len() ==> s[n] != ' ',
    ensures
        without_leading_blanks(s) == s.skip(n),
    decreases n,
{
    if n > 0 {
        assert forall|k: int| 0 <= k < n - 1 implies s.skip(1)[k] == ' ' by {
            assert(s.skip(1)[k] == s[k + 1]);
        }
        lemma_without_leading_blanks(s.skip(1), n - 1);
        assert(s.skip(1).skip(n - 1) =~= s.skip(n));
    } else {
        assert(s.skip(0) =~= s);
    }
}

/// The credential of an `Authorization` header that uses the `Bearer` scheme.
pub fn bearer_credential<'a>(header_value: &'a str) -> (credential: Option<&'a str>)
    ensures
        match credential {
            Some(credential) => credential_of(header_value@) == Some(credential@),
            None => credential_of(header_value@) is None,
        },
{
    let at: usize = match find_char(header_value, ' ') {
        Some(at) => at,
        None => {
            return None;
        },
    };
    let scheme = header_value.substring_char(0, at);
    assert(scheme@ =~= header_value@.take(at as int));
    if !same_ignoring_ascii_case(scheme, "Bearer") {
        return None;
    }
    let text = chars_of(header_value);
    assert(at < text.len());
    let mut from: usize = at + 1;
    let ghost rest = header_value@.skip(at + 1);
    while from < text.len() && text[from] == ' '
        invariant
            at + 1 <= from <= text.len(),
            text@ == header_value@,
            rest == header_value@.skip(at + 1),
            forall|k: int| 0 <= k < from - (at + 1) ==> rest[k] == ' ',
        decreases text.len() - from,
    {
        assert(rest[from - (at + 1)] == ' ');
        from += 1;
    }
    proof {
        lemma_without_leading_blanks(rest, from - (at + 1));
    }
    if from == text.len() {
        return None;
    }
    let credential = header_value.substring_char(from, text.len());
    assert(credential@ =~= rest.skip(from - (at + 1)));
    Some(credential)
}

/// The case of the letters of the scheme does not matter: two headers that agree
/// in it but for that, and behind it wholly, carry the same credential.
pub proof fn scheme_case_is_ignored(a: Seq<char>, b: Seq<char>, rest: Seq<char>)
    requires
        ascii_lower_all(a) == ascii_lower_all(b),
        !a.contains(' '),
        !b.contains(' '),
    ensures
        credential_of(a.push(' ') + rest) == credential_of(b.push(' ') + rest),
{
    lemma_first_blank(a, rest);
    lemma_first_blank(b, rest);
    assert(ascii_lower_all(a).len() == ascii_lower_all(b).len());
    let x = a.push(' ') + rest;
    let y = b.push(' ') + rest;
    assert(x.take(a.len() as int) =~= a);
    assert(y.take(b.len() as int) =~= b);
    assert(x.skip(a.len() as int + 1) =~= rest);
    assert(y.skip(b.len() as int + 1) =~= rest);
}

proof fn lemma_first_blank(a: Seq<char>, rest: Seq<char>)
    requires
        !a.contains(' '),
    ensures
        first_index(a.push(' ') + rest, ' ') == a.len(),
{
    let whole = a.push(' ') + rest;
    lemma_first_index(whole, ' ');
    let at = first_index(whole, ' ');
    assert(whole[a.len() as int] == ' ');
    if at < a.len() {
        assert(whole[at] == a[at]);
        assert(a.contains(a[at]));
    }
}

// ---------------------------------------------------------------------------
// The guard on requests
// ---------------------------------------------------------------------------

/// `subtle::ConstantTimeEq::ct_eq` on byte slices: whether they are equal, in time
/// that does not depend on where they differ.
#[verifier::external_body]
pub(crate) fn constant_time_eq(a: &[u8], b: &[u8]) -> (equal: bool)
    ensures
        equal == (a@ == b@),
{
    subtle::ConstantTimeEq::ct_eq(a, b).into()
}

/// Whether two texts are equal, in time that does not depend on where they differ.
pub fn same_secret(a: &str, b: &str) -> (equal: bool)
    ensures
        equal == (a@ == b@),
{
    proof {
        vstd::utf8::encode_utf8_decode_utf8(a@);
        vstd::utf8::encode_utf8_decode_utf8(b@);
    }
    constant_time_eq(a.as_bytes(), b.as_bytes())
}

/// What the guard does with a request.
#[derive(Debug)]
pub enum Admission {
    /// Hand the request on.
    Pass,
    /// Answer 401 with this body.
    Refuse(ErrorResponse),
}

/// Status of the reply to a request without the credential it needs.
pub const STATUS_UNAUTHORIZED: u16 = 401;

impl Admission {
    /// Status of the reply to a request that is refused.
    pub fn status(&self) -> (status: Option<u16>)
        ensures
            match status {
                Some(status) => self is Refuse && status == 401,
                None => self is Pass,
            },
    {
        match self {
            Admission::Pass => None,
            Admission::Refuse(_) => Some(STATUS_UNAUTHORIZED),
        }
    }
}

/// Whether a value read from the environment is a usable key: set, and not empty.
pub open spec fn usable_key(key: Option<Seq<char>>) -> bool {
    key matches Some(key) && key.len() > 0
}

/// What the guard does: the message it refuses with, or nothing when it lets the
/// request pass. Without a usable key everything passes; otherwise the credential
/// of the header must be the key.
pub open spec fn gate_refusal(key: Option<Seq<char>>, header: Option<Seq<char>>) -> Option<
    Seq<char>,
> {
    if !usable_key(key) {
        None
    } else {
        match header {
            None => Some("Missing Authorization header"@),
            Some(header) => match credential_of(header) {
                None => Some("Authorization header must use Bearer scheme"@),
                Some(token) => if token == key->0 {
                    None
                } else {
                    Some("Invalid API key"@)
                },
            },
        }
    }
}

/// A 401 reply.
fn auth_error(message: &str) -> (refusal: Admission)
    ensures
        refusal matches Admission::Refuse(body) && body.error.error_type@ == "authentication_error"@
            && body.error.message@ == message@,
{
    Admission::Refuse(ErrorResponse::new("authentication_error", message))
}

/// Decides on a request, from the key that is configured and the request's
/// `Authorization` header, as far as it is readable text.
pub fn require_auth(expected_key: Option<&str>, auth_header: Option<&str>) -> (admission: Admission)
    ensures
        match gate_refusal(str_view(expected_key), str_view(auth_header)) {
            None => admission is Pass,
            Some(message) => admission matches Admission::Refuse(body) && body.error.error_type@
                == "authentication_error"@ && body.error.message@ == message,
        },
{
    let key = match expected_key {
        Some(key) => if key.is_empty() {
            return Admission::Pass;
        } else {
            key
        },
        None => {
            return Admission::Pass;
        },
    };
    match auth_header {
        None => auth_error("Missing Authorization header"),
        Some(header) => match bearer_credential(header) {
            None => auth_error("Authorization header must use Bearer scheme"),
            Some(token) => if same_secret(token, key) {
                Admission::Pass
            } else {
                auth_error("Invalid API key")
            },
        },
    }
}

/// What a borrowed optional text is.
pub open spec fn str_view(text: Option<&str>) -> Option<Seq<char>> {
    match text {
        Some(text) => Some(text@),
        None => None,
    }
}

/// Whether a value read from the environment is a usable API key. The guard on
/// requests applies the same rule.
pub fn api_key_configured(key: Option<&str>) -> (configured: bool)
    ensures
        configured == usable_key(str_view(key)),
{
    match key {
        Some(key) => !key.is_empty(),
        None => false,
    }
}

// ---------------------------------------------------------------------------
// Startup posture
// ---------------------------------------------------------------------------

/// The authentication posture a server resolved at startup.
#[derive(Debug, Clone, Copy, PartialEq, Eq, Structural)]
pub enum AuthMode {
    /// Something authenticates every request.
    Enforced,
    /// Nothing does, and only this machine can reach the server.
    LoopbackDev,
}

/// A server was asked to serve a reachable interface with nothing gating it.
#[derive(Debug, Clone, PartialEq, Eq)]
pub struct InsecureBindError {
    /// The host the server was asked to bind.
    pub host: String,
    /// The environment variable that arms the guard, when there is one.
    pub gate: Option<String>,
}

/// What the refusal says.
pub open spec fn refusal_text(host: Seq<char>, gate: Option<Seq<char>>) -> Seq<char> {
    "refusing to start: nothing authenticates requests while binding non-loopback host '"@ + host
        + "'. "@ + match gate {
        Some(var) => "Set "@ + var
            + " (every request must then carry it as a bearer token), or bind 127.0.0.1 for local development."@,
        None => "Arm this service's gate, or bind 127.0.0.1 for local development."@,
    }
}

impl InsecureBindError {
    /// A refusal of `host` for a service whose gate is not a single variable.
    pub fn new(host: &str) -> (error: Self)
        ensures
            error.host@ == host@,
            error.gate is None,
    {
        InsecureBindError { host: host.to_owned(), gate: None }
    }

    /// What the refusal says.
    pub fn message(&self) -> (text: String)
        ensures
            text@ == refusal_text(self.host@, text_view(self.gate)),
    {
        let start =
            "refusing to start: nothing authenticates requests while binding non-loopback host '".to_owned().concat(
        self.host.as_str()).concat("'. ");
        let end = match &self.gate {
            Some(var) => "Set ".to_owned().concat(var.as_str()).concat(
                " (every request must then carry it as a bearer token), or bind 127.0.0.1 for local development.",
            ),
            None => "Arm this service's gate, or bind 127.0.0.1 for local development.".to_owned(),
        };
        start.concat(end.as_str())
    }
}

/// Whether `s` stands in square brackets.
pub open spec fn in_brackets(s: Seq<char>) -> bool {
    s.len() >= 2 && s[0] == '[' && s.last() == ']'
}

/// Whether `host` names a loopback interface: the name `localhost`, or the literal
/// of a loopback address. Brackets may stand around an IPv6 literal and around nothing
/// else. No other name does.
pub open spec fn loopback_host(host: Seq<char>) -> bool {
    let name = trimmed(host);
    if in_brackets(name) {
        is_ipv6_loopback_literal(name.subrange(1, name.len() - 1))
    } else {
        ||| ascii_lower_all(name) == ascii_lower_all("localhost"@)
        ||| is_loopback_literal(name)
    }
}

/// Whether `host` names a loopback interface.
pub fn is_loopback_host(host: &str) -> (loopback: bool)
    ensures
        loopback == loopback_host(host@),
{
    let name = trim(host);
    let length: usize = name.unicode_len();
    if length >= 2 && name.get_char(0) == '[' && name.get_char(length - 1) == ']' {
        return is_ipv6_loopback(&chars_of(name.substring_char(1, length - 1)));
    }
    same_ignoring_ascii_case(name, "localhost") || names_loopback(&chars_of(name))
}

/// The posture of a bind, or its refusal.
pub open spec fn posture(host: Seq<char>, gated: bool) -> Option<AuthMode> {
    if gated {
        Some(AuthMode::Enforced)
    } else if loopback_host(host) {
        Some(AuthMode::LoopbackDev)
    } else {
        None
    }
}

/// Resolves the startup posture for a bind, or refuses it. `gated` is whether
/// anything at all will authenticate requests on this bind.
pub fn resolve_startup_auth(host: &str, gated: bool) -> (mode: Result<AuthMode, InsecureBindError>)
    ensures
        match mode {
            Ok(mode) => posture(host@, gated) == Some(mode),
            Err(refusal) => posture(host@, gated) is None && refusal.host@ == host@
                && refusal.gate is None,
        },
{
    if gated {
        Ok(AuthMode::Enforced)
    } else if is_loopback_host(host) {
        Ok(AuthMode::LoopbackDev)
    } else {
        Err(InsecureBindError::new(host))
    }
}

/// Resolves the startup posture of a service gated by the key that `env_var` holds.
pub fn startup_auth(env_var: &str, key: Option<&str>, host: &str) -> (mode: Result<
    AuthMode,
    InsecureBindError,
>)
    ensures
        match mode {
            Ok(mode) => posture(host@, usable_key(str_view(key))) == Some(mode),
            Err(refusal) => posture(host@, usable_key(str_view(key))) is None && refusal.host@
                == host@ && text_view(refusal.gate) == Some(env_var@),
        },
{
    match resolve_startup_auth(host, api_key_configured(key)) {
        Ok(mode) => Ok(mode),
        Err(refused) => Err(
            InsecureBindError { host: refused.host, gate: Some(env_var.to_owned()) },
        ),
    }
}

/// What is said of a posture at startup.
#[derive(Debug)]
pub struct PostureNotice {
    /// Whether it is a warning.
    pub warning: bool,
    /// What is said.
    pub text: String,
}

/// What is said at startup of the posture of a service gated by the key that `env_var`
/// holds: a warning when nothing gates it. The key itself is never told.
pub fn posture_notice(env_var: &str, mode: AuthMode) -> (notice: PostureNotice)
    ensures
        notice.warning == (mode == AuthMode::LoopbackDev),
        notice.text@ == env_var@ + match mode {
            AuthMode::Enforced => " set — every request must carry it as a bearer token"@,
            AuthMode::LoopbackDev =>
                " unset — serving UNAUTHENTICATED on loopback for local development"@,
        },
{
    match mode {
        AuthMode::Enforced => PostureNotice {
            warning: false,
            text: env_var.to_owned().concat(
                " set — every request must carry it as a bearer token",
            ),
        },
        AuthMode::LoopbackDev => PostureNotice {
            warning: true,
            text: env_var.to_owned().concat(
                " unset — serving UNAUTHENTICATED on loopback for local development",
            ),
        },
    }
}

/// A gated server enforces on every host, and one that nothing gates is refused on
/// every host but a loopback one.
pub proof fn nothing_reachable_starts_ungated(host: Seq<char>)
    ensures
        posture(host, true) == Some(AuthMode::Enforced),
        posture(host, false) is Some <==> loopback_host(host),
        posture(host, false) != Some(AuthMode::Enforced),
{
}

/// The startup check and the guard on requests agree on what a key is: a service
/// whose posture is `Enforced` refuses every request without a credential.
pub proof fn enforced_posture_refuses_requests_without_credentials(
    host: Seq<char>,
    key: Option<Seq<char>>,
)
    ensures
        posture(host, usable_key(key)) == Some(AuthMode::Enforced) <==> gate_refusal(key, None) is Some,
{
}

} // verus!
