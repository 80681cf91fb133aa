//! Identity tokens for calls to another service.

use vstd::prelude::*;

use crate::clock::{seconds, Duration};
use crate::http_client::RequestFailure;
use crate::iam::error::{IamError, IamErrorView};
use crate::iam::key_set::elapsed;
use crate::server::auth::str_view;
use crate::text::{chars_of, runs, split, split_chars};

verus! {

/// The metadata server of the platform.
pub const DEFAULT_METADATA_HOST: &'static str = "metadata.google.internal";

/// The environment variable that names another metadata server.
pub const METADATA_HOST_ENV: &'static str = "GCE_METADATA_HOST";

/// Where the metadata server serves identity tokens.
pub const IDENTITY_PATH: &'static str =
    "/computeMetadata/v1/instance/service-accounts/default/identity";

/// How long a token is used, in seconds: three quarters of an hour.
pub const REFRESH_AFTER_SECS: u64 = 2_700;

/// A token and when it was obtained.
#[derive(Debug)]
pub struct Cached {
    token: String,
    fetched_at: Duration,
}

/// Tokens for one audience. Times are readings of a clock that only goes forward.
#[derive(Debug)]
pub struct IdTokenSource {
    audience: String,
    cached: Option<Cached>,
}

/// What a source remembers.
pub struct SourceView {
    /// The audience.
    pub audience: Seq<char>,
    /// The last token, and when it was obtained.
    pub cached: Option<(Seq<char>, nat)>,
}

impl View for IdTokenSource {
    type V = SourceView;

    closed spec fn view(&self) -> SourceView {
        SourceView {
            audience: self.audience@,
            cached: match self.cached {
                Some(cached) => Some((cached.token@, cached.fetched_at@)),
                None => None,
            },
        }
    }
}

impl SourceView {
    /// The token that is still used.
    pub open spec fn fresh(self, now: nat) -> Option<Seq<char>> {
        match self.cached {
            Some((token, at)) => if elapsed(at, now) < seconds(REFRESH_AFTER_SECS) {
                Some(token)
            } else {
                None
            },
            None => None,
        }
    }
}

/// A request to the metadata server.
#[derive(Debug)]
pub struct MetadataRequest {
    /// The address.
    pub url: String,
    /// The query.
    pub query: Vec<(&'static str, String)>,
    /// The header that the server asks for.
    pub header: (&'static str, &'static str),
}

/// The metadata server that is asked: the one that the environment names, if it names
/// one.
pub open spec fn metadata_host(host: Option<Seq<char>>) -> Seq<char> {
    match host {
        Some(host) => if host.len() > 0 {
            host
        } else {
            DEFAULT_METADATA_HOST@
        },
        None => DEFAULT_METADATA_HOST@,
    }
}

/// What came of a request to the metadata server.
#[derive(Debug)]
pub enum MetadataReply {
    /// None: the request failed.
    Failed(RequestFailure),
    /// An answer.
    Answered {
        /// Its status.
        status: u16,
        /// Its status in words.
        status_text: String,
        /// Its body, or why it could not be read.
        body: Result<String, RequestFailure>,
    },
}

/// Whether a status says that a request succeeded.
pub open spec fn success_status(status: u16) -> bool {
    200 <= status < 300
}

/// Whether a text has the shape of a token: three runs of characters with dots between.
pub open spec fn token_shaped(token: Seq<char>) -> bool {
    split(token, '.').len() == 3
}

/// The token that an answer of the metadata server holds, or what is wrong with it.
pub open spec fn minted_token(reply: MetadataReply) -> Result<Seq<char>, IamErrorView> {
    match reply {
        MetadataReply::Failed(why) => Err(IamErrorView::MetadataUnavailable(why.described())),
        MetadataReply::Answered { status, status_text, body } => if !success_status(status) {
            Err(
                IamErrorView::MetadataUnavailable("metadata server answered "@ + status_text@),
            )
        } else {
            match body {
                Err(why) => Err(IamErrorView::MalformedToken(why.described())),
                Ok(token) => if token_shaped(token@) {
                    Ok(token@)
                } else {
                    Err(IamErrorView::MalformedToken("response was not a three-segment JWT"@))
                },
            }
        },
    }
}

impl IdTokenSource {
    /// Tokens for one audience, none of them obtained yet.
    pub fn new(audience: &str) -> (source: Self)
        ensures
            source@ == (SourceView { audience: audience@, cached: None }),
    {
        IdTokenSource { audience: audience.to_owned(), cached: None }
    }

    /// The audience.
    pub fn audience(&self) -> (audience: &str)
        ensures
            audience@ == self@.audience,
    {
        self.audience.as_str()
    }

    /// The token that is still used; none when one must be fetched.
    pub fn cached_token(&self, now: Duration) -> (token: Option<String>)
        ensures
            match token {
                Some(token) => self@.fresh(now@) == Some(token@),
                None => self@.fresh(now@) is None,
            },
    {
        match &self.cached {
            Some(cached) => if now.less(cached.fetched_at).shorter_than(
                Duration::from_secs(REFRESH_AFTER_SECS),
            ) {
                Some(cached.token.clone())
            } else {
                None
            },
            None => None,
        }
    }

    /// The request that brings a token, given the metadata server that the environment
    /// names.
    pub fn fetch_request(&self, host: Option<&str>) -> (request: MetadataRequest)
        ensures
            request.url@ == "http://"@ + metadata_host(str_view(host)) + IDENTITY_PATH@,
            request.query@.len() == 2,
            request.query@[0].0@ == "audience"@,
            request.query@[0].1@ == self@.audience,
            request.query@[1].0@ == "format"@,
            request.query@[1].1@ == "full"@,
            request.header.0@ == "Metadata-Flavor"@,
            request.header.1@ == "Google"@,
    {
        let host = match host {
            Some(host) => if host.is_empty() {
                DEFAULT_METADATA_HOST
            } else {
                host
            },
            None => DEFAULT_METADATA_HOST,
        };
        let mut query: Vec<(&'static str, String)> = Vec::new();
        query.push(("audience", self.audience.clone()));
        query.push(("format", "full".to_owned()));
        MetadataRequest {
            url: "http://".to_owned().concat(host).concat(IDENTITY_PATH),
            query,
            header: ("Metadata-Flavor", "Google"),
        }
    }

    /// The token that an answer of the metadata server holds.
    pub fn read_reply(reply: MetadataReply) -> (token: Result<String, IamError>)
        ensures
            match token {
                Ok(token) => minted_token(reply) == Ok::<Seq<char>, IamErrorView>(token@),
                Err(error) => minted_token(reply) == Err::<Seq<char>, IamErrorView>(error@),
            },
    {
        match reply {
            MetadataReply::Failed(why) => Err(IamError::MetadataUnavailable(why.describe())),
            MetadataReply::Answered { status, status_text, body } => {
                if !(200 <= status && status < 300) {
                    return Err(
                        IamError::MetadataUnavailable(
                            "metadata server answered ".to_owned().concat(status_text.as_str()),
                        ),
                    );
                }
                match body {
                    Err(why) => Err(IamError::MalformedToken(why.describe())),
                    Ok(token) => {
                        let segments = split_chars(&chars_of(token.as_str()), '.');
                        assert(segments@.len() == split(token@, '.').len()) by {
                            assert(runs(segments@).len() == segments@.len());
                        }
                        if segments.len() != 3 {
                            return Err(
                                IamError::MalformedToken(
                                    "response was not a three-segment JWT".to_owned(),
                                ),
                            );
                        }
                        Ok(token)
                    },
                }
            },
        }
    }

    /// Keeps a token that was fetched, unless another that is still used was kept
    /// meanwhile; the token to use.
    pub fn keep(&mut self, token: String, now: Duration) -> (chosen: String)
        ensures
            match old(self)@.fresh(now@) {
                Some(existing) => chosen@ == existing && final(self)@ == old(self)@,
                None => chosen@ == token@ && final(self)@ == (SourceView {
                    cached: Some((token@, now@)),
                    ..old(self)@
                }),
            },
    {
        match self.cached_token(now) {
            Some(existing) => existing,
            None => {
                self.cached = Some(Cached { token: token.clone(), fetched_at: now });
                token
            },
        }
    }
}

/// A token that was kept is used for three quarters of an hour from then on, and no
/// longer; nothing is fetched meanwhile.
pub proof fn kept_tokens_are_used(source: SourceView, token: Seq<char>, kept: nat, now: nat)
    requires
        kept <= now,
    ensures
        ({
            let after = SourceView { cached: Some((token, kept)), ..source };
            &&& now - kept < seconds(REFRESH_AFTER_SECS) ==> after.fresh(now) == Some(token)
            &&& now - kept >= seconds(REFRESH_AFTER_SECS) ==> after.fresh(now) is None
        }),
{
}

} // verus!
