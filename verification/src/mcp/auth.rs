//! Why a request is turned away, and the guard that asks for a shared key.

use vstd::prelude::*;

use crate::json::dup_option;
use crate::mcp::protocol::JsonRpcRequest;
use crate::mcp::tool::{anonymous, ContextView, ToolContext};
use crate::server::auth::{same_secret, str_view, usable_key};
use crate::text::chars_of;

verus! {

/// How a caller that presented the shared key is said to have authenticated.
pub const API_KEY_AUTH_METHOD: &'static str = "api_key";

/// Why a request was turned away.
#[allow(inconsistent_fields)]
#[derive(Debug, Clone)]
pub enum AuthError {
    /// No valid credential. Answered 401.
    Unauthorized {
        /// The challenge to return.
        www_authenticate: String,
    },
    /// Authenticated, but not permitted. Answered 403.
    Forbidden {
        /// Why, for the caller to read.
        reason: String,
    },
    /// Authenticated, but the credential does not grant this. Answered 403 with a
    /// challenge that says what would.
    InsufficientScope {
        /// The challenge to return.
        www_authenticate: String,
        /// Why, for the caller to read.
        reason: String,
    },
    /// Authenticated, but too often. Answered 429.
    RateLimited {
        /// Seconds until the request can succeed.
        retry_after_secs: u64,
        /// Why, for the caller to read.
        reason: String,
    },
    /// The host failed before it could decide. Answered 500.
    Internal {
        /// Why, for the caller to read.
        reason: String,
    },
}

/// Whether a character has a meaning of its own inside a quoted string.
pub open spec fn needs_escape(c: char) -> bool {
    c == '\\' || c == '"'
}

/// `s` as it stands inside a quoted string: a backslash before each backslash and
/// quotation mark.
pub open spec fn escaped(s: Seq<char>) -> Seq<char>
    decreases s.len(),
{
    if s.len() == 0 {
        Seq::empty()
    } else if needs_escape(s.last()) {
        escaped(s.drop_last()).push('\\').push(s.last())
    } else {
        escaped(s.drop_last()).push(s.last())
    }
}

/// `value` as it stands inside a quoted string.
pub fn quote_escape(value: &str) -> (quoted: String)
    ensures
        quoted@ == escaped(value@),
{
    let text = chars_of(value);
    let mut quoted = String::new();
    let mut i: usize = 0;
    while i < text.len()
        invariant
            i <= text.len(),
            text@ == value@,
            quoted@ == escaped(value@.take(i as int)),
        decreases text.len() - i,
    {
        let c = text[i];
        proof {
            assert(value@.take(i + 1).drop_last() =~= value@.take(i as int));
            assert(value@.take(i + 1).last() == c);
        }
        if c == '\\' || c == '"' {
            quoted.push('\\');
        }
        quoted.push(c);
        i += 1;
    }
    assert(value@.take(i as int) =~= value@);
    quoted
}

/// What a reader of a quoted string makes of its content: a backslash stands for the
/// character behind it.
pub open spec fn unescaped(s: Seq<char>) -> Seq<char>
    decreases s.len(),
{
    if s.len() == 0 {
        Seq::empty()
    } else if s[0] == '\\' && s.len() >= 2 {
        seq![s[1]] + unescaped(s.skip(2))
    } else {
        seq![s[0]] + unescaped(s.skip(1))
    }
}

proof fn lemma_escaped_concat(a: Seq<char>, b: Seq<char>)
    ensures
        escaped(a + b) == escaped(a) + escaped(b),
    decreases b.len(),
{
    if b.len() == 0 {
        assert(a + b =~= a);
        assert(escaped(a) + escaped(b) =~= escaped(a));
    } else {
        assert((a + b).drop_last() =~= a + b.drop_last());
        assert((a + b).last() == b.last());
        lemma_escaped_concat(a, b.drop_last());
        assert(escaped(a + b) =~= escaped(a) + escaped(b));
    }
}

/// Escaping loses nothing: a reader of the quoted string gets the text back.
pub proof fn escaping_is_undone_by_reading(s: Seq<char>)
    ensures
        unescaped(escaped(s)) == s,
    decreases s.len(),
{
    if s.len() > 0 {
        let first = seq![s[0]];
        let rest = s.skip(1);
        assert(s =~= first + rest);
        lemma_escaped_concat(first, rest);
        escaping_is_undone_by_reading(rest);
        assert(first.drop_last() =~= Seq::empty());
        assert(first.last() == s[0]);
        assert(escaped(Seq::<char>::empty()) =~= Seq::empty());
        if needs_escape(s[0]) {
            assert(escaped(first) =~= seq!['\\', s[0]]);
            assert(escaped(s).skip(2) =~= escaped(rest));
        } else {
            assert(escaped(first) =~= seq![s[0]]);
            assert(escaped(s).skip(1) =~= escaped(rest));
        }
        assert(unescaped(escaped(s)) =~= s);
    } else {
        assert(unescaped(escaped(s)) =~= s);
    }
}

/// Asks every request for the key that an environment variable holds. Without a key
/// it admits nobody.
#[derive(Debug, Clone)]
pub struct ApiKeyAuthHook {
    env_var: String,
    challenge: String,
}

impl ApiKeyAuthHook {
    /// The variable that holds the key.
    pub closed spec fn variable(&self) -> Seq<char> {
        self.env_var@
    }

    /// The challenge that every refusal carries.
    pub closed spec fn refusal(&self) -> Seq<char> {
        self.challenge@
    }

    /// A gate that asks for the key in `env_var`, and names `realm` when it refuses.
    pub fn new(env_var: &str, realm: &str) -> (hook: Self)
        ensures
            hook.variable() == env_var@,
            hook.refusal() == "Bearer realm=\""@ + escaped(realm@) + "\""@,
    {
        ApiKeyAuthHook {
            env_var: env_var.to_owned(),
            challenge: "Bearer realm=\"".to_owned().concat(quote_escape(realm).as_str()).concat(
                "\"",
            ),
        }
    }

    /// The variable that holds the key.
    pub fn env_var(&self) -> (name: &str)
        ensures
            name@ == self.variable(),
    {
        self.env_var.as_str()
    }

    /// The challenge that every refusal carries.
    pub fn challenge(&self) -> (challenge: &str)
        ensures
            challenge@ == self.refusal(),
    {
        self.challenge.as_str()
    }

    /// Decides on a request, from the key that the variable holds now. Whoever holds
    /// the key is admitted, as nobody in particular.
    pub fn authenticate(&self, key: Option<&str>, request: &JsonRpcRequest) -> (admitted: Result<
        ToolContext,
        AuthError,
    >)
        ensures
            match admitted {
                Ok(ctx) => usable_key(str_view(key)) && request@.auth_token == str_view(key) && ctx@
                    == (ContextView {
                    auth_method: Some(API_KEY_AUTH_METHOD@),
                    request_id: request@.id,
                    ..anonymous()
                }),
                Err(error) => !(usable_key(str_view(key)) && request@.auth_token == str_view(key))
                    && (error matches AuthError::Unauthorized { www_authenticate }
                    && www_authenticate@ == self.refusal()),
            },
    {
        let admitted = match (key, &request.auth_token) {
            (Some(expected), Some(presented)) => !expected.is_empty() && same_secret(
                expected,
                presented.as_str(),
            ),
            _ => false,
        };
        if admitted {
            let ctx = ToolContext::new().with_auth_method(API_KEY_AUTH_METHOD);
            let ctx = ToolContext { request_id: dup_option(&request.id), ..ctx };
            Ok(ctx)
        } else {
            Err(AuthError::Unauthorized { www_authenticate: self.challenge.clone() })
        }
    }
}

} // verus!
