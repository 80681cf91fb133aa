use dravr_tronc::clock::Duration;
use dravr_tronc::iam::token_source::MetadataReply;
use dravr_tronc::iam::verify::{presented_token, refuse_token};
use dravr_tronc::iam::{
    GoogleIdTokenVerifier, GoogleKeySet, GoogleSigningKey, IamError, IdTokenClaims, IdTokenSource,
};
use dravr_tronc::http_client::{Cause, RequestFailure};
use dravr_tronc::iam::key_set::{read_download, read_key_set, read_key_set_text};
use dravr_tronc::json::Json;
use dravr_tronc::server::auth::STATUS_UNAUTHORIZED;

const AUDIENCE: &str = "https://example-service-abc123-nn.a.run.app";

fn json(text: &str) -> Json {
    Json::parse(text).expect("json")
}

fn secs(secs: u64) -> Duration {
    Duration::from_secs(secs)
}

fn key(kid: &str) -> GoogleSigningKey {
    GoogleSigningKey::new(kid, "n", "AQAB")
}

// What a request presents

#[test]
fn rejects_a_request_with_no_authorization_header() {
    let refusal = presented_token(None).expect_err("refused");
    assert_eq!(refusal.error.error_type, "unauthorized");
}

#[test]
fn rejects_a_non_bearer_scheme() {
    assert!(presented_token(Some("Basic dXNlcjpwYXNz")).is_err());
    assert_eq!(presented_token(Some("bearer abc")).expect("a token"), "abc");
}

#[test]
fn rejects_a_bearer_token_that_is_not_a_jwt() {
    let token = presented_token(Some("Bearer not-a-jwt")).expect("a token");
    match GoogleIdTokenVerifier::key_id(token) {
        Err(why) => {
            assert!(matches!(why, IamError::Rejected(_)));
            let refusal = refuse_token(&why);
            assert_eq!(refusal.error.error_type, "unauthorized");
            assert_eq!(refusal.error.message, "Invalid identity token");
            assert_eq!(STATUS_UNAUTHORIZED, 401);
        }
        Ok(kid) => panic!("read {kid} from what is no token"),
    }
}

#[test]
fn refusal_does_not_disclose_which_check_failed() {
    let missing = presented_token(None).expect_err("refused");
    let malformed = match GoogleIdTokenVerifier::key_id("eyJhbGciOiJSUzI1NiJ9.e30.sig") {
        Err(why) => refuse_token(&why),
        Ok(kid) => panic!("no kid was given, {kid} was read"),
    };
    for refusal in [&missing, &malformed] {
        let body = format!("{:?}", refusal.to_json());
        assert!(!body.contains("kid"), "leaked a claim name: {body}");
        assert!(!body.contains("audience"), "leaked the expected audience: {body}");
        assert!(!body.contains(AUDIENCE), "leaked the audience value: {body}");
    }
}

#[test]
fn verifier_rejects_a_token_with_no_kid_without_network() {
    match GoogleIdTokenVerifier::key_id("eyJhbGciOiJSUzI1NiJ9.e30.c2ln") {
        Err(IamError::Rejected(why)) => {
            assert!(why.contains("kid"), "expected the cause to name the missing kid, got: {why}");
        }
        Err(other) => panic!("expected Rejected, got {}", other.message()),
        Ok(_) => panic!("a token with no kid must not verify"),
    }
}

#[test]
fn the_key_id_is_read_from_the_header() {
    // {"alg":"RS256","kid":"abc"}
    let token = "eyJhbGciOiJSUzI1NiIsImtpZCI6ImFiYyJ9.e30.c2ln";
    assert_eq!(GoogleIdTokenVerifier::key_id(token).expect("a kid"), "abc");
}

#[test]
fn a_forged_signature_is_rejected() {
    let verifier = GoogleIdTokenVerifier::new(AUDIENCE);
    let token = "eyJhbGciOiJSUzI1NiIsImtpZCI6ImFiYyJ9.e30.c2ln";
    let n = "AQAB".repeat(86);
    let forged = GoogleSigningKey::new("abc", &n, "AQAB");
    assert!(matches!(verifier.verify(token, &forged), Err(IamError::Rejected(_))));
    let unreadable = GoogleSigningKey::new("abc", "!", "!");
    assert!(matches!(verifier.verify(token, &unreadable), Err(IamError::Rejected(_))));
}

#[test]
fn only_listed_callers_with_a_verified_address_get_through() {
    let verifier =
        GoogleIdTokenVerifier::new(AUDIENCE).allowing(vec!["a@x.iam".to_owned()]);
    let claims = |email: &str| {
        json(&format!(r#"{{"sub":"1","aud":"{AUDIENCE}"{email}}}"#))
    };
    let caller = verifier
        .judge(&claims(r#","email":"a@x.iam","email_verified":true"#))
        .expect("allowed");
    assert_eq!(caller.sub, "1");
    assert_eq!(caller.email.as_deref(), Some("a@x.iam"));
    for email in [
        "",
        r#","email":"a@x.iam""#,
        r#","email":"a@x.iam","email_verified":false"#,
        r#","email":"b@x.iam","email_verified":true"#,
    ] {
        assert!(
            matches!(verifier.judge(&claims(email)), Err(IamError::Rejected(_))),
            "{email}"
        );
    }
    let open = GoogleIdTokenVerifier::new(AUDIENCE);
    assert!(open.judge(&claims("")).is_ok());
}

#[test]
fn claims_must_say_who_and_for_whom() {
    assert!(IdTokenClaims::from_json(&json(r#"{"aud":"x"}"#)).is_err());
    let claims = IdTokenClaims::from_json(&json(r#"{"sub":"1","aud":"x"}"#)).expect("claims");
    assert_eq!(claims.aud, "x");
    assert_eq!(claims.email_verified, None);
}

// Keys

#[test]
fn a_key_set_is_read_key_by_key() {
    let set = json(
        r#"{"keys":[{"kid":"a","n":"1","e":"AQAB","kty":"RSA"},{"kid":"b","n":"2","e":"AQAB"}]}"#,
    );
    let keys = read_key_set(&set).expect("keys");
    assert_eq!(keys.len(), 2);
    assert_eq!(keys[1].kid(), "b");
    assert_eq!(keys[1].modulus(), "2");
    assert_eq!(keys[1].exponent(), "AQAB");
    assert_eq!(
        read_key_set(&json(r#"{"keys":[{"kid":"a","n":"1"}]}"#)).expect_err("no exponent"),
        "missing field `e`"
    );
    assert!(read_key_set(&json("{}")).is_err());
    assert_eq!(read_key_set_text(br#"{"keys":[]}"#).expect("none").len(), 0);
    assert!(read_key_set_text(b"<html>").is_err());
    let lost = RequestFailure { failure: "timed out".to_owned(), causes: Vec::new() };
    assert_eq!(read_download(Err(lost)).expect_err("lost"), "timed out");
    assert!(read_download(Ok(br#"{"keys":[]}"#.to_vec())).is_ok());
}

#[test]
fn a_key_set_is_fetched_once_in_a_while() {
    let mut set = GoogleKeySet::new("https://keys.test").with_min_refetch_interval(secs(60));
    assert_eq!(set.url(), "https://keys.test");
    assert!(set.answer_from_memory("a", secs(0)).is_none());
    let found = set.fetched("a", Ok(vec![key("a")]), secs(0));
    assert_eq!(found.expect("found").kid(), "a");
    assert!(matches!(set.answer_from_memory("a", secs(10)), Some(Ok(_))));
    assert!(matches!(set.answer_from_memory("b", secs(10)), Some(Err(IamError::Rejected(_)))));
    assert!(set.answer_from_memory("b", secs(60)).is_none());
}

#[test]
fn a_failed_fetch_is_not_tried_again_at_once() {
    let mut set = GoogleKeySet::new("https://keys.test").with_min_refetch_interval(secs(60));
    let failed = set.fetched("a", Err("down".to_owned()), secs(0));
    assert!(matches!(failed, Err(IamError::JwksUnavailable(_))));
    assert!(matches!(
        set.answer_from_memory("a", secs(59)),
        Some(Err(IamError::JwksUnavailable(_)))
    ));
    assert!(set.answer_from_memory("a", secs(60)).is_none());
}

// Tokens for others

#[test]
fn token_source_reports_metadata_absence_distinctly() {
    let source = IdTokenSource::new(AUDIENCE);
    assert_eq!(source.audience(), AUDIENCE);
    let reply = MetadataReply::Failed(RequestFailure {
        failure: "error sending request".to_owned(),
        causes: vec![
            Cause { text: "for url (http://metadata)".to_owned(), is_request_error: true },
            Cause { text: "dns error".to_owned(), is_request_error: false },
        ],
    });
    match IdTokenSource::read_reply(reply) {
        Err(IamError::MetadataUnavailable(why)) => {
            assert_eq!(why, "error sending request: dns error");
        }
        other => panic!("expected MetadataUnavailable, got {other:?}"),
    }
}

#[test]
fn a_token_is_asked_for_and_kept() {
    let mut source = IdTokenSource::new(AUDIENCE);
    let request = source.fetch_request(None);
    assert_eq!(
        request.url,
        "http://metadata.google.internal/computeMetadata/v1/instance/service-accounts/default/identity"
    );
    assert_eq!(request.query[0], ("audience", AUDIENCE.to_owned()));
    assert_eq!(request.header, ("Metadata-Flavor", "Google"));
    assert!(source.fetch_request(Some("localhost:1")).url.starts_with("http://localhost:1/"));

    let answered = |status: u16, body: &str| MetadataReply::Answered {
        status,
        status_text: format!("{status}"),
        body: Ok(body.to_owned()),
    };
    let token = IdTokenSource::read_reply(answered(200, "a.b.c")).expect("a token");
    assert_eq!(token, "a.b.c");
    assert!(matches!(
        IdTokenSource::read_reply(answered(404, "a.b.c")),
        Err(IamError::MetadataUnavailable(_))
    ));
    assert!(matches!(
        IdTokenSource::read_reply(answered(200, "nonsense")),
        Err(IamError::MalformedToken(_))
    ));

    assert_eq!(source.cached_token(secs(0)), None);
    assert_eq!(source.keep(token, secs(0)), "a.b.c");
    assert_eq!(source.cached_token(secs(10)).as_deref(), Some("a.b.c"));
    assert_eq!(source.keep("d.e.f".to_owned(), secs(10)), "a.b.c");
    assert_eq!(source.cached_token(secs(100_000)), None);
}

#[test]
fn failures_are_told_in_words() {
    for (error, words) in [
        (IamError::MetadataUnavailable("w".to_owned()), "w"),
        (IamError::MalformedToken("x".to_owned()), "x"),
        (IamError::JwksUnavailable("y".to_owned()), "y"),
        (IamError::Rejected("z".to_owned()), "z"),
    ] {
        assert!(error.message().ends_with(words), "{}", error.message());
    }
}
