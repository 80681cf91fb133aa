//! Checking the identity tokens of callers.

use vstd::prelude::*;
use vstd::utf8::encode_utf8;

use crate::clock::{seconds, Duration};
use crate::decode::{
    excess_refusal, field, field_view, read_string, record_refusal, refuse_excess, refuse_record,
    string_field, wrong_type, wrong_type_words,
};
use crate::error::ErrorResponse;
use crate::iam::error::{IamError, IamErrorView};
use crate::iam::key_set::{
    key_named, key_views, no_such_key, GoogleKeySet, GoogleSigningKey, KeySetView,
    GOOGLE_OIDC_JWKS_URL, MIN_REFETCH_INTERVAL_SECS,
};
use crate::json::{text_view, value_tree, Json, JsonView};
use crate::located::{
    located, refuse_text, rule_views, text_record_fault, FaultView, Kind, Rule, RuleView,
};
use crate::mcp::protocol::{optional, optional_string};
use crate::server::auth::{bearer_credential, credential_of, str_view};
use crate::text::{is_among, views};

verus! {

/// An issuer that Google signs as.
pub const GOOGLE_ISSUER_URL: &'static str = "https://accounts.google.com";

/// The other issuer that Google signs as.
pub const GOOGLE_ISSUER: &'static str = "accounts.google.com";

// ---------------------------------------------------------------------------
// Tokens
// ---------------------------------------------------------------------------

/// The key id in the header of a token, as far as there is one; or why the header
/// cannot be read.
pub uninterp spec fn header_key_id(token: Seq<char>) -> Result<Option<Seq<char>>, Seq<char>>;

/// What becomes of a token that is decoded with a key, for an audience and from issuers, when
/// the clock reads `now`: its claims, or the words of a refusal.
pub uninterp spec fn decoded_at(
    token: Seq<char>,
    n: Seq<char>,
    e: Seq<char>,
    audience: Seq<char>,
    issuers: Seq<Seq<char>>,
    now: int,
) -> Result<JsonView, Seq<char>>;

/// The text of the claims of a token that a key signed; or why the token is refused.
pub uninterp spec fn signed_payload(token: Seq<char>, n: Seq<char>, e: Seq<char>) -> Result<
    Seq<char>,
    Seq<char>,
>;

/// What came of reading the text of the claims.
pub open spec fn payload_view(payload: Result<String, String>) -> Result<Seq<char>, Seq<char>> {
    match payload {
        Ok(text) => Ok(text@),
        Err(words) => Err(words@),
    }
}

/// What came of decoding a token.
pub open spec fn decoded_view(claims: Result<serde_json::Value, String>) -> Result<
    JsonView,
    Seq<char>,
> {
    match claims {
        Ok(value) => Ok(value_tree(value)),
        Err(words) => Err(words@),
    }
}

/// What the texts of a list are.
pub open spec fn str_views(texts: Seq<&str>) -> Seq<Seq<char>> {
    Seq::new(texts.len(), |i: int| texts[i]@)
}

/// Whether claims name no audience but the given one, and no issuer but the given ones.
pub open spec fn names_no_other(claims: JsonView, audience: Seq<char>, issuers: Seq<Seq<char>>) -> bool {
    &&& claims.member("aud"@) matches Some(JsonView::Text(aud)) ==> aud == audience
    &&& claims.member("iss"@) matches Some(JsonView::Text(iss)) ==> issuers.contains(iss)
}

/// `jsonwebtoken::decode_header`: the key id in the header of a token. Nothing of the
/// token is checked.
#[verifier::external_body]
fn read_key_id(token: &str) -> (kid: Result<Option<String>, String>)
    ensures
        match kid {
            Ok(kid) => header_key_id(token@) == Ok::<Option<Seq<char>>, Seq<char>>(text_view(kid)),
            Err(words) => header_key_id(token@) == Err::<Option<Seq<char>>, Seq<char>>(words@),
        },
{
    jsonwebtoken::decode_header(token).map(|header| header.kid).map_err(|e| e.to_string())
}

/// `jsonwebtoken::decode` with an RSA key (`DecodingKey::from_rsa_components`) and a
/// `Validation` for RS256 that asks nothing of the claims, into the text that they are: what a
/// key signed. Nothing here depends on the clock.
#[verifier::external_body]
fn read_payload(token: &str, n: &str, e: &str) -> (payload: Result<String, String>)
    ensures
        payload_view(payload) == signed_payload(token@, n@, e@),
{
    let key = jsonwebtoken::DecodingKey::from_rsa_components(n, e).map_err(|e| e.to_string())?;
    let mut validation = jsonwebtoken::Validation::new(jsonwebtoken::Algorithm::RS256);
    validation.validate_exp = false;
    validation.validate_aud = false;
    validation.required_spec_claims.clear();
    jsonwebtoken::decode(token, &key, &validation)
        .map(|data: jsonwebtoken::TokenData<Box<serde_json::value::RawValue>>| {
            data.claims.get().to_owned()
        })
        .map_err(|e| e.to_string())
}

/// `jsonwebtoken::decode` with an RSA key (`DecodingKey::from_rsa_components`) and a
/// `Validation` for RS256, an audience and issuers: the claims of a token. A token gets
/// through only when the key signed it, it names no other audience and no other issuer,
/// and its time is not up. Whether its time is up depends on the clock, which is read
/// once: what comes out is what was due at that reading.
#[verifier::external_body]
fn decode_token(token: &str, n: &str, e: &str, audience: &str, issuers: &[&str]) -> (claims: Result<
    serde_json::Value,
    String,
>)
    ensures
        exists|now: int|
            decoded_view(claims) == #[trigger] decoded_at(
                token@,
                n@,
                e@,
                audience@,
                str_views(issuers@),
                now,
            ),
        claims matches Ok(value) ==> names_no_other(
            value_tree(value),
            audience@,
            str_views(issuers@),
        ),
{
    let key = jsonwebtoken::DecodingKey::from_rsa_components(n, e).map_err(|e| e.to_string())?;
    let mut validation = jsonwebtoken::Validation::new(jsonwebtoken::Algorithm::RS256);
    validation.set_audience(&[audience]);
    validation.set_issuer(issuers);
    jsonwebtoken::decode(token, &key, &validation).map(|data| data.claims).map_err(|e| e.to_string())
}

// ---------------------------------------------------------------------------
// Claims
// ---------------------------------------------------------------------------

/// The claims that matter here.
#[derive(Debug)]
pub struct IdTokenClaims {
    /// The service account's id.
    pub sub: String,
    /// The audience that the token was minted for.
    pub aud: String,
    /// The service account's email.
    pub email: Option<String>,
    /// Whether Google vouches for the email.
    pub email_verified: Option<bool>,
}

/// The claims that matter here.
pub struct ClaimsView {
    /// The service account's id.
    pub sub: Seq<char>,
    /// The audience that the token was minted for.
    pub aud: Seq<char>,
    /// The service account's email.
    pub email: Option<Seq<char>>,
    /// Whether Google vouches for the email.
    pub email_verified: Option<bool>,
}

impl View for IdTokenClaims {
    type V = ClaimsView;

    open spec fn view(&self) -> ClaimsView {
        ClaimsView {
            sub: self.sub@,
            aud: self.aud@,
            email: text_view(self.email),
            email_verified: self.email_verified,
        }
    }
}

/// An optional member that is a truth value.
pub open spec fn optional_flag(member: Option<JsonView>) -> Result<Option<bool>, Seq<char>> {
    match optional(member) {
        None => Ok(None),
        Some(JsonView::Bool(b)) => Ok(Some(b)),
        Some(other) => Err(wrong_type_words(other, "a boolean"@)),
    }
}

/// The claims that a document denotes, or why it denotes none.
pub open spec fn claims_of(json: JsonView) -> Result<ClaimsView, Seq<char>> {
    match record_refusal(json, "IdTokenClaims"@, 2, 4) {
        Some(words) => Err(words),
        None => match string_field(field_view(json, "sub"@, 0), "sub"@) {
            Err(words) => Err(words),
            Ok(sub) => match string_field(field_view(json, "aud"@, 1), "aud"@) {
                Err(words) => Err(words),
                Ok(aud) => match optional_string(field_view(json, "email"@, 2)) {
                    Err(words) => Err(words),
                    Ok(email) => match optional_flag(field_view(json, "email_verified"@, 3)) {
                        Err(words) => Err(words),
                        Ok(email_verified) => match excess_refusal(json, 4) {
                            Some(words) => Err(words),
                            None => Ok(ClaimsView { sub, aud, email, email_verified }),
                        },
                    },
                },
            },
        },
    }
}

impl IdTokenClaims {
    /// Reads the claims out of a document.
    pub fn from_json(json: &Json) -> (claims: Result<Self, String>)
        ensures
            match claims {
                Ok(claims) => claims_of(json@) == Ok::<ClaimsView, Seq<char>>(claims@),
                Err(words) => claims_of(json@) == Err::<ClaimsView, Seq<char>>(words@),
            },
    {
        match refuse_record(json, "IdTokenClaims", 2, 4) {
            Some(words) => {
                return Err(words);
            },
            None => {},
        }
        let sub = match read_string(field(json, "sub", 0), "sub") {
            Ok(sub) => sub,
            Err(words) => {
                return Err(words);
            },
        };
        let aud = match read_string(field(json, "aud", 1), "aud") {
            Ok(aud) => aud,
            Err(words) => {
                return Err(words);
            },
        };
        let email = match field(json, "email", 2) {
            None => None,
            Some(member) => match member {
                Json::Null => None,
                Json::Text(email) => Some(email.clone()),
                other => {
                    return Err(wrong_type(other, "a string"));
                },
            },
        };
        let email_verified = match field(json, "email_verified", 3) {
            None => None,
            Some(member) => match member {
                Json::Null => None,
                Json::Bool(b) => Some(*b),
                other => {
                    return Err(wrong_type(other, "a boolean"));
                },
            },
        };
        match refuse_excess(json, 4) {
            Some(words) => {
                return Err(words);
            },
            None => {},
        }
        Ok(IdTokenClaims { sub, aud, email, email_verified })
    }
}

// ---------------------------------------------------------------------------
// The verifier
// ---------------------------------------------------------------------------

/// Checks tokens for one audience.
#[derive(Debug)]
pub struct GoogleIdTokenVerifier {
    audience: String,
    allowed_emails: Vec<String>,
    keys: GoogleKeySet,
}

/// What a verifier asks for.
pub struct VerifierView {
    /// The audience.
    pub audience: Seq<char>,
    /// The callers that are expected; anybody when there is none.
    pub allowed: Seq<Seq<char>>,
    /// The signing keys.
    pub keys: KeySetView,
}

impl View for GoogleIdTokenVerifier {
    type V = VerifierView;

    closed spec fn view(&self) -> VerifierView {
        VerifierView {
            audience: self.audience@,
            allowed: views(self.allowed_emails@),
            keys: self.keys@,
        }
    }
}

/// The email of a caller, as it is compared.
pub open spec fn caller_email(claims: ClaimsView) -> Seq<char> {
    match claims.email {
        Some(email) => email,
        None => Seq::empty(),
    }
}

/// Why a caller is refused, or nothing when the caller is expected: a list of callers
/// that is not empty must name the caller, and Google must vouch for the email.
pub open spec fn caller_refusal(allowed: Seq<Seq<char>>, claims: ClaimsView) -> Option<Seq<char>> {
    if allowed.len() == 0 {
        None
    } else if !allowed.contains(caller_email(claims)) {
        Some("caller "@ + caller_email(claims) + " is not in this service's allowlist"@)
    } else if claims.email_verified != Some(true) {
        Some("caller "@ + caller_email(claims) + " is not a verified address"@)
    } else {
        None
    }
}

/// What is made of the claims of a token that got through.
pub open spec fn judged(allowed: Seq<Seq<char>>, claims: JsonView) -> Result<
    ClaimsView,
    IamErrorView,
> {
    match claims_of(claims) {
        Err(words) => Err(IamErrorView::Rejected("JSON error: "@ + words)),
        Ok(claims) => match caller_refusal(allowed, claims) {
            Some(words) => Err(IamErrorView::Rejected(words)),
            None => Ok(claims),
        },
    }
}

/// The fields of the claims, in their order.
pub open spec fn claims_fields() -> Seq<RuleView> {
    seq![
        RuleView { name: "sub"@, kind: Kind::Text, needed: true },
        RuleView { name: "aud"@, kind: Kind::Text, needed: true },
        RuleView { name: "email"@, kind: Kind::OptionalText, needed: false },
        RuleView { name: "email_verified"@, kind: Kind::OptionalBool, needed: false },
    ]
}

/// What is wrong with the text of claims: the first fault that a reader meets who goes through
/// it from front to back.
pub open spec fn claims_fault(text: Seq<char>) -> Option<FaultView> {
    text_record_fault(encode_utf8(text), "IdTokenClaims"@, claims_fields(), 2)
}

fn refuse_claims(text: &str) -> (refusal: Option<String>)
    ensures
        match claims_fault(text@) {
            Some(fault) => refusal matches Some(words) && words@ == located(
                encode_utf8(text@),
                fault,
            ),
            None => refusal is None,
        },
{
    let rules = vec![
        Rule { name: "sub", kind: Kind::Text, needed: true },
        Rule { name: "aud", kind: Kind::Text, needed: true },
        Rule { name: "email", kind: Kind::OptionalText, needed: false },
        Rule { name: "email_verified", kind: Kind::OptionalBool, needed: false },
    ];
    assert(rule_views(rules@) =~= claims_fields());
    refuse_text(text.as_bytes(), "IdTokenClaims", rules.as_slice(), 2)
}

/// What is made of a token, from the text that a key signed and from what the decoder says of
/// the token for an audience and at a time. The shape of the claims comes first.
pub open spec fn verified(
    allowed: Seq<Seq<char>>,
    payload: Result<Seq<char>, Seq<char>>,
    decoded: Result<JsonView, Seq<char>>,
) -> Result<ClaimsView, IamErrorView> {
    match payload {
        Err(words) => Err(IamErrorView::Rejected(words)),
        Ok(text) => match claims_fault(text) {
            Some(fault) => Err(
                IamErrorView::Rejected("JSON error: "@ + located(encode_utf8(text), fault)),
            ),
            None => match decoded {
                Ok(claims) => judged(allowed, claims),
                Err(words) => Err(IamErrorView::Rejected(words)),
            },
        },
    }
}

/// What came of a check.
pub open spec fn claims_outcome(caller: Result<IdTokenClaims, IamError>) -> Result<
    ClaimsView,
    IamErrorView,
> {
    match caller {
        Ok(caller) => Ok(caller@),
        Err(error) => Err(error@),
    }
}

/// The issuers that Google signs as.
pub open spec fn google_issuers() -> Seq<Seq<char>> {
    Seq::empty().push(GOOGLE_ISSUER_URL@).push(GOOGLE_ISSUER@)
}

/// The key id of a token, or why the token is refused at once.
pub open spec fn key_id_due(token: Seq<char>) -> Result<Seq<char>, IamErrorView> {
    match header_key_id(token) {
        Err(words) => Err(IamErrorView::Rejected(words)),
        Ok(None) => Err(IamErrorView::Rejected("token header carries no kid"@)),
        Ok(Some(kid)) => Ok(kid),
    }
}

impl GoogleIdTokenVerifier {
    /// Checks tokens for an audience against Google's keys, from any caller.
    pub fn new(audience: &str) -> (verifier: Self)
        ensures
            verifier@ == (VerifierView {
                audience: audience@,
                allowed: Seq::empty(),
                keys: KeySetView {
                    url: GOOGLE_OIDC_JWKS_URL@,
                    interval: seconds(MIN_REFETCH_INTERVAL_SECS),
                    fetched: None,
                    last_attempt: None,
                },
            }),
    {
        GoogleIdTokenVerifier::with_key_set(audience, GoogleKeySet::new(GOOGLE_OIDC_JWKS_URL))
    }

    /// Checks tokens for an audience against the given keys, from any caller.
    pub fn with_key_set(audience: &str, keys: GoogleKeySet) -> (verifier: Self)
        ensures
            verifier@ == (VerifierView {
                audience: audience@,
                allowed: Seq::empty(),
                keys: keys@,
            }),
    {
        let verifier = GoogleIdTokenVerifier {
            audience: audience.to_owned(),
            allowed_emails: Vec::new(),
            keys,
        };
        assert(verifier@.allowed =~= Seq::<Seq<char>>::empty());
        verifier
    }

    /// The same, from the given callers only.
    pub fn allowing(self, emails: Vec<String>) -> (verifier: Self)
        ensures
            verifier@ == (VerifierView { allowed: views(emails@), ..self@ }),
    {
        GoogleIdTokenVerifier {
            audience: self.audience,
            allowed_emails: emails,
            keys: self.keys,
        }
    }

    /// The signing keys.
    pub fn keys(&self) -> (keys: &GoogleKeySet)
        ensures
            keys@ == self@.keys,
    {
        &self.keys
    }

    /// Keeps what a fetch of the signing keys brought, and looks a key up in it.
    pub fn fetched(
        &mut self,
        kid: &str,
        downloaded: Result<Vec<GoogleSigningKey>, String>,
        finished: Duration,
    ) -> (found: Result<GoogleSigningKey, IamError>)
        ensures
            final(self)@ == (VerifierView {
                keys: old(self)@.keys.after(
                    match downloaded {
                        Ok(keys) => Some(key_views(keys@)),
                        Err(_) => None,
                    },
                    finished@,
                ),
                ..old(self)@
            }),
            match downloaded {
                Ok(keys) => match key_named(key_views(keys@), kid@) {
                    Some(key) => found matches Ok(found) && found@ == key,
                    None => found matches Err(error) && error@ == no_such_key(kid@),
                },
                Err(words) => found matches Err(error) && error@ == IamErrorView::JwksUnavailable(
                    words@,
                ),
            },
    {
        self.keys.fetched(kid, downloaded, finished)
    }

    /// The id of the key that a token says it is signed with.
    pub fn key_id(token: &str) -> (kid: Result<String, IamError>)
        ensures
            match kid {
                Ok(kid) => key_id_due(token@) == Ok::<Seq<char>, IamErrorView>(kid@),
                Err(error) => key_id_due(token@) == Err::<Seq<char>, IamErrorView>(error@),
            },
    {
        GoogleIdTokenVerifier::require_key_id(read_key_id(token))
    }

    /// The id of a key, from what the header of a token says.
    pub fn require_key_id(header: Result<Option<String>, String>) -> (kid: Result<String, IamError>)
        ensures
            match header {
                Ok(Some(named)) => kid matches Ok(kid) && kid@ == named@,
                Ok(None) => kid matches Err(error) && error@ == IamErrorView::Rejected(
                    "token header carries no kid"@,
                ),
                Err(words) => kid matches Err(error) && error@ == IamErrorView::Rejected(words@),
            },
    {
        match header {
            Ok(Some(kid)) => Ok(kid),
            Ok(None) => Err(IamError::Rejected("token header carries no kid".to_owned())),
            Err(words) => Err(IamError::Rejected(words)),
        }
    }

    /// What is made of the claims of a token that got through.
    pub fn judge(&self, claims: &Json) -> (caller: Result<IdTokenClaims, IamError>)
        ensures
            match caller {
                Ok(caller) => judged(self@.allowed, claims@) == Ok::<ClaimsView, IamErrorView>(
                    caller@,
                ),
                Err(error) => judged(self@.allowed, claims@) == Err::<ClaimsView, IamErrorView>(
                    error@,
                ),
            },
    {
        let claims = match IdTokenClaims::from_json(claims) {
            Ok(claims) => claims,
            Err(words) => {
                return Err(IamError::Rejected("JSON error: ".to_owned().concat(words.as_str())));
            },
        };
        if self.allowed_emails.len() > 0 {
            let nobody = String::new();
            let email = match &claims.email {
                Some(email) => email.as_str(),
                None => nobody.as_str(),
            };
            if !is_among(email, self.allowed_emails.as_slice()) {
                return Err(
                    IamError::Rejected(
                        "caller ".to_owned().concat(email).concat(
                            " is not in this service's allowlist",
                        ),
                    ),
                );
            }
            let verified = match claims.email_verified {
                Some(verified) => verified,
                None => false,
            };
            if !verified {
                return Err(
                    IamError::Rejected(
                        "caller ".to_owned().concat(email).concat(" is not a verified address"),
                    ),
                );
            }
        }
        Ok(claims)
    }

    /// What is made of a token, from the text that a key signed and from what the decoder says
    /// of the token.
    pub fn conclude(&self, payload: Result<String, String>, decoded: Result<Json, String>) -> (caller:
        Result<IdTokenClaims, IamError>)
        ensures
            claims_outcome(caller) == verified(
                self@.allowed,
                payload_view(payload),
                match decoded {
                    Ok(claims) => Ok(claims@),
                    Err(words) => Err(words@),
                },
            ),
            caller matches Ok(caller) ==> caller_refusal(self@.allowed, caller@) is None,
    {
        let text = match payload {
            Ok(text) => text,
            Err(words) => {
                return Err(IamError::Rejected(words));
            },
        };
        match refuse_claims(text.as_str()) {
            Some(words) => {
                return Err(IamError::Rejected("JSON error: ".to_owned().concat(words.as_str())));
            },
            None => {},
        }
        match decoded {
            Ok(claims) => self.judge(&claims),
            Err(words) => Err(IamError::Rejected(words)),
        }
    }

    /// Checks a token with the key that it says it is signed with: what the key signed must
    /// have the shape of claims; then comes what the decoder says of the token at some reading
    /// of the clock, for this audience and from either of Google's issuers, and then what is
    /// made of its claims. Whoever gets through presented claims
    /// for this audience and from Google, and is expected.
    pub fn verify(&self, token: &str, key: &GoogleSigningKey) -> (caller: Result<
        IdTokenClaims,
        IamError,
    >)
        ensures
            exists|now: int|
                claims_outcome(caller) == verified(
                    self@.allowed,
                    signed_payload(token@, key@.n, key@.e),
                    #[trigger] decoded_at(
                        token@,
                        key@.n,
                        key@.e,
                        self@.audience,
                        google_issuers(),
                        now,
                    ),
                ) && (decoded_at(
                    token@,
                    key@.n,
                    key@.e,
                    self@.audience,
                    google_issuers(),
                    now,
                ) matches Ok(claims) ==> names_no_other(
                    claims,
                    self@.audience,
                    google_issuers(),
                )),
            caller matches Ok(caller) ==> caller_refusal(self@.allowed, caller@) is None,
    {
        let payload = read_payload(token, key.modulus(), key.exponent());
        let issuers = [GOOGLE_ISSUER_URL, GOOGLE_ISSUER];
        let decoded = decode_token(
            token,
            key.modulus(),
            key.exponent(),
            self.audience.as_str(),
            issuers.as_slice(),
        );
        assert(str_views(issuers@) =~= google_issuers());
        let ghost now = choose|now: int|
            decoded_view(decoded) == #[trigger] decoded_at(
                token@,
                key@.n,
                key@.e,
                self@.audience,
                google_issuers(),
                now,
            );
        assert(decoded_view(decoded) == decoded_at(
            token@,
            key@.n,
            key@.e,
            self@.audience,
            google_issuers(),
            now,
        ));
        let decoded = match decoded {
            Ok(value) => Ok(Json::from_value(value)),
            Err(words) => Err(words),
        };
        self.conclude(payload, decoded)
    }
}

// ---------------------------------------------------------------------------
// The guard on requests
// ---------------------------------------------------------------------------

/// The credential that a request presents, from its `Authorization` header as far as it
/// is readable text; or the refusal of a request without one.
pub fn presented_token<'a>(auth_header: Option<&'a str>) -> (token: Result<&'a str, ErrorResponse>)
    ensures
        match token {
            Ok(token) => str_view(auth_header) matches Some(header) && credential_of(header) == Some(
                token@,
            ),
            Err(refusal) => (str_view(auth_header) matches Some(header) ==> credential_of(
                header,
            ) is None) && refusal.error.error_type@ == "unauthorized"@ && refusal.error.message@
                == "Missing bearer identity token"@,
        },
{
    let presented = match auth_header {
        Some(header) => bearer_credential(header),
        None => None,
    };
    match presented {
        Some(token) => Ok(token),
        None => Err(ErrorResponse::new("unauthorized", "Missing bearer identity token")),
    }
}

/// The refusal of a request whose token did not get through. It never says why.
pub fn refuse_token(why: &IamError) -> (refusal: ErrorResponse)
    ensures
        refusal.error.error_type@ == "unauthorized"@,
        refusal.error.message@ == "Invalid identity token"@,
{
    ErrorResponse::new("unauthorized", "Invalid identity token")
}

/// Nobody outside the list gets through a list that names callers, and nobody whose
/// email Google does not vouch for.
pub proof fn only_expected_callers_get_through(allowed: Seq<Seq<char>>, claims: JsonView)
    requires
        allowed.len() > 0,
    ensures
        judged(allowed, claims) matches Ok(caller) ==> allowed.contains(caller_email(caller))
            && caller.email_verified == Some(true),
{
}

/// Whoever gets through with claims that name no other audience named this one.
pub proof fn callers_name_the_audience(
    allowed: Seq<Seq<char>>,
    claims: JsonView,
    audience: Seq<char>,
    issuers: Seq<Seq<char>>,
)
    requires
        claims is Object,
        names_no_other(claims, audience, issuers),
    ensures
        judged(allowed, claims) matches Ok(caller) ==> caller.aud == audience,
{
}

} // verus!
