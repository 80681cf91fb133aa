use dravr_tronc::iam::{GoogleIdTokenVerifier, GoogleSigningKey, IamError};
use dravr_tronc::iam::key_set::{read_download, read_key_set_text};
use dravr_tronc::located::{refuse_list_text, refuse_text, Kind, Rule};
use dravr_tronc::mcp::protocol::JsonRpcRequest;

const AUDIENCE: &str = "https://example-service-abc123-nn.a.run.app";

// Tokens that one key signed: for the audience until 2100; for another; for the audience, and
// long expired; expired, and without a subject; with two subjects.

const N: &str = "q128G_8_G0Nfw36-56zePzMw-cB1m_8MKSYUxhGbaTqLyAABxzZD3MP3kWmAtSRbAGXDkACKsULqoN6eK-VDWEkiM4\
    QumBv-6SBVN4qf3VsggLvdZo0DmwqYbtThvHfxqdv8Qux8dJiCxyFsTHHiV5NwxE4iA0r2swrMuFbuB3Et0tO4HJaW\
    pT5TCw3ouyTqso6AEaWoEbI7bYGhEaongbpIz-IPpUksma5CHMV7UreIJxXnEbIT5EZvl0ASCaZK9GRPK_KLTHRo6H\
    h1ZIqKSau6CRNXOFoQC7mQIYm1-aVoV3aKx5XTCB7faeRlvSUalthaSl1cZGeDYrcuF0SPCQ";

const GOOD: &str = "eyJhbGciOiJSUzI1NiIsImtpZCI6ImsifQ.eyJpc3MiOiJodHRwczovL2FjY291bnRzLmdvb2dsZS5jb20iLCJzdWI\
    iOiIxIiwiYXVkIjoiaHR0cHM6Ly9leGFtcGxlLXNlcnZpY2UtYWJjMTIzLW5uLmEucnVuLmFwcCIsImV4cCI6NDEwM\
    jQ0NDgwMCwiZW1haWwiOiJhQHguaWFtIiwiZW1haWxfdmVyaWZpZWQiOnRydWV9.i3fsaeO_zn-jII23J_ELNNZ8Zk\
    n_D84LMlwL38tqagS2XM1XrjQwX4mO7GBN8EIO1OMXKZbhUF5odBu4lkmqv6DAj-vKKqf_WNiFtwK4sMlmmo8c9vdK\
    BiBSihQymcyNjreN_4Eo_ZxAzWalY9vh60dGKAuMZZWUnmK-wBkN_Zbkz7rkLGAYGwh09_fyaXjEMxlLfue78xBExI\
    iBRk6uqyKxTi0AbR9VAuzJ0oHOVmgzXIDAELZJA0yu9GjSwQNwb6Oi5SqNnsrjEBrt4MN3XZ21pn31yYz6dWg_lnFY\
    LoRygRSpR8GtgQAq2jDc2qPEByldApgcEluJ4qzRw8FGhg";

const ELSEWHERE: &str = "eyJhbGciOiJSUzI1NiIsImtpZCI6ImsifQ.eyJpc3MiOiJodHRwczovL2FjY291bnRzLmdvb2dsZS5jb20iLCJzdWI\
    iOiIxIiwiYXVkIjoiaHR0cHM6Ly9vdGhlciIsImV4cCI6NDEwMjQ0NDgwMH0.mJRevuogDvbLX_tw9hjV8o7lh7bde\
    IhZ87DvCzXx6t-v-MEfyRCX_S-WcBXjt2ZZSYnYjw0EZOWw8dBzP1zqpQlpcbeQDBhwnwl0WTUAzhWipD06JdJsjEG\
    cKnrg5NnmuSrUSPaUirARvNSyh-O_-_pCLDvqCqCDH6SztThpqmAogL4yWRJoXQ8oo1d6c8-SPnIFT0CQyTe_e-ndZ\
    Wlod9uWwFZOUPUPFEFcU2Ltr0jFUC4cJgsL3ehnCfqOqzuKrykg7OZeG-jBAL58CaMjMzgbhAIfIk0F-vEvZIweoK3\
    _e7mqTE_S7DiWuWRPCxFj2Am4Rsedvnhp_I3HiABtjw";

const EXPIRED: &str = "eyJhbGciOiJSUzI1NiIsImtpZCI6ImsifQ.eyJpc3MiOiJhY2NvdW50cy5nb29nbGUuY29tIiwic3ViIjoiMSIsImF\
    1ZCI6Imh0dHBzOi8vZXhhbXBsZS1zZXJ2aWNlLWFiYzEyMy1ubi5hLnJ1bi5hcHAiLCJleHAiOjF9.eO8OanmUfTWR\
    oWwf0n4QpAOvfHekSbdmXy6sXWqc2TK_zQ7HoJMOQbslH_Eeq3Bsggfu8gW2kkeeVIlbYsiusvvI6fwjGMSEJNnJK_\
    j85ne-W7yiFAJr6msUjfT7myAWCUvGCuTa9rNWL4Aj2ohYFcSAlFWr4M7ibMSOWZUqHaSFacg2zkcj_iNelAKM3EHd\
    wUb4aYcWp1qSDISq8Sea7qm3UJ9F6tS5-3Y4VCob7q0yOrOQYAnvh3endUZxWxHGzHoQIEomscoFeIqmu2Fgca5VbN\
    ab1X4rU3HU5CBe7Hdwgc-T13c7CTKjBZhnP7WBelSUtYfYU8Qhy0e2m-o0qg";

const SHAPELESS: &str = "eyJhbGciOiJSUzI1NiIsImtpZCI6ImsifQ.eyJpc3MiOiJhY2NvdW50cy5nb29nbGUuY29tIiwiYXVkIjoiaHR0cHM\
    6Ly9leGFtcGxlLXNlcnZpY2UtYWJjMTIzLW5uLmEucnVuLmFwcCIsImV4cCI6MX0.k2aYAlZxpwj4k2zxgNG0LkiZy\
    kPuHbd3J67wJAOqe-XcHLVv4tamrJfXzrLycgBsbyYxInL1WZMo-KY9lAg0xbHenmRwJdL9BeS8RDRnuLbU435mDJV\
    UdRHfyT2kq7Uit2SBcKZfIjW7mTX0cLyGX2PS88T3iHIoLTxYbElWSSOougTY1yURChlnV_zjghln2y6HsuBLnp3ip\
    bZMvGgQTVc1pj8oTWeLNvwiRiqwNAK2PL0s-9jUvAJl5NGCvksq4M1VXPZ8G_3N5lehcpczt7BhLec9Cq7UzHK5v7i\
    CrZ4LeaUY2eFd5K8v697VUfcXcJVjf9BEHe44G6U1cluQRw";

const TWICE: &str = "eyJhbGciOiJSUzI1NiIsImtpZCI6ImsifQ.eyJzdWIiOiIxIiwic3ViIjoiMiIsImF1ZCI6Imh0dHBzOi8vZXhhbXB\
    sZS1zZXJ2aWNlLWFiYzEyMy1ubi5hLnJ1bi5hcHAiLCJleHAiOjQxMDI0NDQ4MDB9.XHlXTNLitaZD09mHvm1Uad1L\
    BLhp_jszCP4TJtHKARK2Y7gQbhqmB7BnARiw9QPTEGZZw7rZlmNnkBdlgZzM-19xyZcP2P1UOuAsL5U8UeVuac4-M3\
    xGZfdc2JnRD9Hj-MW_sx9UqghybkL3jROHKf0ZxbCJmlBe_khlSCcC-nyD-rjh75-c73Uv8gaJzhJyZjymMx8juUrE\
    wXgUmF79Oc98agc8ndpdzWEp0gAfIqM0FNDCptUwQgIeLNe4mTppvayV0xHVYjNWyFbu76-0IBy-5DTZuh89thA7wf\
    5x9VUJmjHxd-29siV3jJYllP6vLXceIFl9M__z3mOpa3huBg";

fn verify(token: &str) -> Result<String, String> {
    let key = GoogleSigningKey::new("k", N, "AQAB");
    match GoogleIdTokenVerifier::new(AUDIENCE).verify(token, &key) {
        Ok(caller) => Ok(caller.sub),
        Err(IamError::Rejected(why)) => Err(why),
        Err(other) => panic!("{}", other.message()),
    }
}

#[test]
fn a_signed_token_is_judged_by_its_shape_and_then_by_its_claims() {
    assert_eq!(verify(GOOD).expect("accepted"), "1");
    assert_eq!(verify(ELSEWHERE), Err("InvalidAudience".to_owned()));
    assert_eq!(verify(EXPIRED), Err("ExpiredSignature".to_owned()));
    assert_eq!(
        verify(SHAPELESS),
        Err("JSON error: missing field `sub` at line 1 column 89".to_owned())
    );
    assert_eq!(
        verify(TWICE),
        Err("JSON error: duplicate field `sub` at line 1 column 16".to_owned())
    );
    let key = GoogleSigningKey::new("k", N, "AQAB");
    let listed = GoogleIdTokenVerifier::new(AUDIENCE).allowing(vec!["b@x.iam".to_owned()]);
    assert!(matches!(listed.verify(GOOD, &key), Err(IamError::Rejected(_))));
}

#[test]
fn what_was_signed_and_what_was_decoded_decide() {
    let verifier = GoogleIdTokenVerifier::new(AUDIENCE);
    let claims = || dravr_tronc::json::Json::parse(r#"{"sub":"1","aud":"a"}"#).expect("json");
    let text = || Ok(r#"{"sub":"1","aud":"a"}"#.to_owned());
    assert!(verifier.conclude(text(), Ok(claims())).is_ok());
    let refused = |outcome: Result<_, IamError>| match outcome {
        Err(IamError::Rejected(why)) => why,
        Err(other) => panic!("{}", other.message()),
        Ok(_) => panic!("accepted"),
    };
    assert_eq!(refused(verifier.conclude(Err("bad".into()), Ok(claims()))), "bad");
    assert_eq!(refused(verifier.conclude(text(), Err("late".into()))), "late");
    assert_eq!(
        refused(verifier.conclude(Ok(r#"{"aud":["a"]}"#.into()), Err("late".into()))),
        "JSON error: invalid type: sequence, expected a string at line 1 column 7"
    );
}

fn rule(name: &'static str, kind: Kind, needed: bool) -> Rule {
    Rule { name, kind, needed }
}

/// The faults of texts that should be the header of a token, against those that `serde_json`
/// finds in them.
#[test]
fn faults_are_those_of_a_typed_reader() {
    let rules = [
        rule("typ", Kind::OptionalText, false),
        rule("alg", Kind::Anything, true),
        rule("cty", Kind::OptionalText, false),
        rule("jku", Kind::OptionalText, false),
        rule("jwk", Kind::Anything, false),
        rule("kid", Kind::OptionalText, false),
        rule("x5u", Kind::OptionalText, false),
        rule("x5c", Kind::Anything, false),
        rule("x5t", Kind::OptionalText, false),
        rule("x5t#S256", Kind::OptionalText, false),
    ];
    for text in [
        r#"{"alg":"RS256"}"#,
        " \n{\t\"alg\" : \"RS256\" , \"kid\":null }\r\n",
        r#"{"typ":5,"alg":"RS256"}"#,
        r#"{"typ":-5,"alg":"RS256"}"#,
        r#"{"typ":1.5e3,"alg":"RS256"}"#,
        r#"{"typ": true ,"alg":"RS256"}"#,
        r#"{"typ": [1, "}"],"alg":"RS256"}"#,
        r#"{"alg":"RS256", "cty":{"a":"]"}}"#,
        r#"{"kid":"a"}"#,
        "{}",
        "  { }",
        "{\n  \"kid\": \"a\",\n  \"other\": [{\"alg\": 1}]\n}\n",
        r#"{"alg":"RS256","alg":"RS256"}"#,
        r#"{"alg":"RS256","kid":"a","kid" : 5}"#,
        "{\"alg\":\"RS256\",\n\"a\\u006cg\"  :\"RS256\"}",
        r#"{"alg":"RS256","kid":1,"kid":"a"}"#,
        r#"{"kid":"é","cty":"\\\"","typ":0,"alg":"RS256"}"#,
        r#"{"x":"\\","y":"{","typ":{},"alg":"RS256"}"#,
        "5",
        " \"text\" ",
        "null",
        "[]",
        r#"["JWT"]"#,
        r#"["JWT","RS256",null,null,null,null,null,null,null,null]"#,
        r#"["JWT","RS256",null,null,null,null,null,null,null,null , 7]"#,
        r#"["JWT","RS256",null, 3]"#,
        r#"["JWT","RS256",null,null,null]"#,
        "",
        "{",
        r#"{"typ":5,"#,
        r#"{"typ":5"#,
        r#"{"typ":5}, 1"#,
        r#"{"kid":"a"} x"#,
        r#"{"alg":"RS256"} x"#,
        r#"{"alg":"RS256",}"#,
        r#"{,"typ":5}"#,
        r#"{"kid":"a" "typ":5}"#,
        r#"{"kid":"a","typ"=5}"#,
        r#"{"x":tru,"typ":5}"#,
        r#"{"x":[1,,2],"typ":5}"#,
        r#"{"kid":"a,"typ":5}"#,
        r#"{"alg":"RS256","kid":"a","kid":}"#,
        r#"{"alg":"RS256","kid":"a","kid" }"#,
        r#"{"alg":"RS256","kid" }"#,
        r#"{"alg":"RS256",5:6}"#,
        r#"[5,"#,
        r#"["a" 5]"#,
        r#"["a",,5]"#,
        "tru",
        "-",
    ] {
        let expected = serde_json::from_str::<jsonwebtoken::Header>(text).err();
        let found = refuse_text(text.as_bytes(), "Header", &rules, 10)
            .or(dravr_tronc::json::Json::parse(text).err());
        assert_eq!(found, expected.map(|e| e.to_string()), "{text}");
    }
}

/// Maps of texts, against `serde_json` on one.
#[test]
fn faults_inside_a_map_are_those_of_a_typed_reader() {
    for map in [
        r#"{"a":"b"}"#,
        r#"{"a":"b","a":1}"#,
        r#"{"a":"b", "c" : null }"#,
        r#"{"a":[]}"#,
        "null",
        "[]",
        "7",
        r#""text""#,
    ] {
        let expected = serde_json::from_str::<Vec<std::collections::HashMap<String, String>>>(
            &format!("[{map}]"),
        )
        .err();
        let rules = [rule("m", Kind::TextMap, true)];
        let found = refuse_text(format!("[{map}]").as_bytes(), "X", &rules, 1);
        assert_eq!(found, expected.map(|e| e.to_string()), "{map}");
    }
}

fn refused(text: &str) -> String {
    JsonRpcRequest::from_text(text).map(|_| ()).expect_err("refused")
}

#[test]
fn a_request_is_refused_at_its_first_fault() {
    assert!(JsonRpcRequest::from_text(r#"{"method":"m","jsonrpc":"2.0","x":1,"x":2}"#).is_ok());
    for (text, words) in [
        (
            r#"{"jsonrpc":"2.0","method":"a","method":"b"}"#,
            "duplicate field `method` at line 1 column 38",
        ),
        (
            r#"{"method":5,"jsonrpc":6}"#,
            "invalid type: integer `5`, expected a string at line 1 column 11",
        ),
        (
            "{\n\"method\": \"m\"\n}",
            "missing field `jsonrpc` at line 3 column 1",
        ),
        (
            r#"{"jsonrpc":"2.0","method":"m","metadata":{"a":"b","c":1}}"#,
            "invalid type: integer `1`, expected a string at line 1 column 55",
        ),
        (
            r#"{"jsonrpc":"2.0","method":"m","headers":[]}"#,
            "invalid type: sequence, expected a map at line 1 column 40",
        ),
        (
            r#"["2.0","m"]"#,
            "invalid length 2, expected struct JsonRpcRequest with 7 elements at line 1 column 11",
        ),
        (
            r#"["2.0","m",null,1,null,null,{},8]"#,
            "trailing characters at line 1 column 32",
        ),
        ("7", "invalid type: integer `7`, expected struct JsonRpcRequest at line 1 column 1"),
    ] {
        assert_eq!(refused(text), words, "{text}");
    }
    assert!(refused("{").starts_with("EOF while parsing an object"));
    let refusal = JsonRpcRequest::parse(r#"{"jsonrpc":"2.0","id":1,"id":2,"method":"m"}"#);
    let refusal = refusal.err().expect("refused").error.expect("an error");
    assert_eq!(refusal.message, "Invalid request: duplicate field `id` at line 1 column 28");
}

#[test]
fn a_key_set_is_refused_at_its_first_fault() {
    for (text, words) in [
        (r#"{"keys":[{"kid":"a","n":"1"}]}"#, "missing field `e` at line 1 column 28"),
        (
            r#"{"keys":[{"kid":"a","kid":"b","n":"1","e":"2"}],"keys":[]}"#,
            "duplicate field `kid` at line 1 column 25",
        ),
        (r#"{"keys":[],"keys":[]}"#, "duplicate field `keys` at line 1 column 17"),
        (r#"{"keys":{}}"#, "invalid type: map, expected a sequence at line 1 column 8"),
        ("{}", "missing field `keys` at line 1 column 2"),
        (
            "[]",
            "invalid length 0, expected struct KeySetDocument with 1 element at line 1 column 2",
        ),
        (r#"[[["a","1"]]]"#,
            "invalid length 2, expected struct GoogleSigningKey with 3 elements at line 1 column 11"),
    ] {
        assert_eq!(read_key_set_text(text.as_bytes()).expect_err("refused"), words, "{text}");
    }
    assert_eq!(
        read_download(Ok(b"{}".to_vec())).expect_err("refused"),
        "error decoding response body: missing field `keys` at line 1 column 2"
    );
    assert_eq!(read_key_set_text(br#"[[["a","1","2"]]]"#).expect("keys")[0].kid(), "a");
    let rules = [rule("kid", Kind::Text, true)];
    assert_eq!(refuse_list_text(br#"{"keys":[]}"#, "Set", "keys", "Key", &rules, 1), None);
    assert!(read_download(Ok(b"{\"keys\":[{\"kid\":\"\xff\"}]}".to_vec())).is_err());
}
