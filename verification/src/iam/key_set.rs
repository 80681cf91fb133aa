//! Google's signing keys, kept in memory and fetched no oftener than they may be.

use vstd::prelude::*;

use crate::clock::{seconds, span_text, Duration};
use crate::decode::{
    excess_refusal, field, field_view, missing, missing_words, read_string, record_refusal,
    refuse_excess, refuse_record, string_field, wrong_type, wrong_type_words,
};
use crate::http_client::{describe_undecodable, undecodable, RequestFailure};
use crate::iam::error::{IamError, IamErrorView};
use crate::json::{item_views, parsed_bytes, Json, JsonView};
use crate::located::{
    located, refuse_list_text, rule_views, text_list_fault, FaultView, Kind, Rule, RuleView,
};
use crate::text::same;

verus! {

/// Where Google publishes the keys that sign identity tokens.
pub const GOOGLE_OIDC_JWKS_URL: &'static str = "https://www.googleapis.com/oauth2/v3/certs";

/// How long a key set is used, in seconds: an hour.
pub const KEY_SET_TTL_SECS: u64 = 3_600;

/// The least time between two fetches of a key set, in seconds.
pub const MIN_REFETCH_INTERVAL_SECS: u64 = 30;

/// One RSA public key.
#[derive(Debug, Clone)]
pub struct GoogleSigningKey {
    kid: String,
    n: String,
    e: String,
}

/// One RSA public key.
pub struct KeyView {
    /// The id that tokens signed with the key carry.
    pub kid: Seq<char>,
    /// The modulus, in base64url.
    pub n: Seq<char>,
    /// The exponent, in base64url.
    pub e: Seq<char>,
}

impl View for GoogleSigningKey {
    type V = KeyView;

    closed spec fn view(&self) -> KeyView {
        KeyView { kid: self.kid@, n: self.n@, e: self.e@ }
    }
}

impl GoogleSigningKey {
    /// A key made of its parts.
    pub fn new(kid: &str, n: &str, e: &str) -> (key: Self)
        ensures
            key@ == (KeyView { kid: kid@, n: n@, e: e@ }),
    {
        GoogleSigningKey { kid: kid.to_owned(), n: n.to_owned(), e: e.to_owned() }
    }

    /// The id that tokens signed with the key carry.
    pub fn kid(&self) -> (kid: &str)
        ensures
            kid@ == self@.kid,
    {
        self.kid.as_str()
    }

    /// The modulus, in base64url.
    pub fn modulus(&self) -> (n: &str)
        ensures
            n@ == self@.n,
    {
        self.n.as_str()
    }

    /// The exponent, in base64url.
    pub fn exponent(&self) -> (e: &str)
        ensures
            e@ == self@.e,
    {
        self.e.as_str()
    }

    /// A copy of the key.
    pub fn dup(&self) -> (copy: Self)
        ensures
            copy@ == self@,
    {
        GoogleSigningKey { kid: self.kid.clone(), n: self.n.clone(), e: self.e.clone() }
    }
}

/// What a list of keys is.
pub open spec fn key_views(keys: Seq<GoogleSigningKey>) -> Seq<KeyView> {
    Seq::new(keys.len(), |i: int| keys[i]@)
}

// ---------------------------------------------------------------------------
// The published document
// ---------------------------------------------------------------------------

/// The key that a document denotes, or why it denotes none.
pub open spec fn key_of(json: JsonView) -> Result<KeyView, Seq<char>> {
    match record_refusal(json, "GoogleSigningKey"@, 3, 3) {
        Some(words) => Err(words),
        None => match string_field(field_view(json, "kid"@, 0), "kid"@) {
            Err(words) => Err(words),
            Ok(kid) => match string_field(field_view(json, "n"@, 1), "n"@) {
                Err(words) => Err(words),
                Ok(n) => match string_field(field_view(json, "e"@, 2), "e"@) {
                    Err(words) => Err(words),
                    Ok(e) => match excess_refusal(json, 3) {
                        Some(words) => Err(words),
                        None => Ok(KeyView { kid, n, e }),
                    },
                },
            },
        },
    }
}

/// The keys that a list of documents denotes: all of them, or why the first that
/// denotes none does not.
pub open spec fn keys_of(items: Seq<JsonView>) -> Result<Seq<KeyView>, Seq<char>>
    decreases items.len(),
{
    if items.len() == 0 {
        Ok(Seq::empty())
    } else {
        match keys_of(items.drop_last()) {
            Err(words) => Err(words),
            Ok(keys) => match key_of(items.last()) {
                Err(words) => Err(words),
                Ok(key) => Ok(keys.push(key)),
            },
        }
    }
}

/// The keys that a published key set denotes, or why it denotes none.
pub open spec fn key_set_of(json: JsonView) -> Result<Seq<KeyView>, Seq<char>> {
    match record_refusal(json, "KeySetDocument"@, 1, 1) {
        Some(words) => Err(words),
        None => match field_view(json, "keys"@, 0) {
            None => Err(missing_words("keys"@)),
            Some(JsonView::Array(items)) => match keys_of(items) {
                Err(words) => Err(words),
                Ok(keys) => match excess_refusal(json, 1) {
                    Some(words) => Err(words),
                    None => Ok(keys),
                },
            },
            Some(other) => Err(wrong_type_words(other, "a sequence"@)),
        },
    }
}

impl GoogleSigningKey {
    /// Reads a key out of a document.
    pub fn from_json(json: &Json) -> (key: Result<Self, String>)
        ensures
            match key {
                Ok(key) => key_of(json@) == Ok::<KeyView, Seq<char>>(key@),
                Err(words) => key_of(json@) == Err::<KeyView, Seq<char>>(words@),
            },
    {
        match refuse_record(json, "GoogleSigningKey", 3, 3) {
            Some(words) => {
                return Err(words);
            },
            None => {},
        }
        let kid = match read_string(field(json, "kid", 0), "kid") {
            Ok(kid) => kid,
            Err(words) => {
                return Err(words);
            },
        };
        let n = match read_string(field(json, "n", 1), "n") {
            Ok(n) => n,
            Err(words) => {
                return Err(words);
            },
        };
        let e = match read_string(field(json, "e", 2), "e") {
            Ok(e) => e,
            Err(words) => {
                return Err(words);
            },
        };
        match refuse_excess(json, 3) {
            Some(words) => {
                return Err(words);
            },
            None => {},
        }
        Ok(GoogleSigningKey { kid, n, e })
    }
}

proof fn lemma_refused_key(items: Seq<JsonView>, n: int)
    requires
        0 <= n <= items.len(),
        keys_of(items.take(n)) is Err,
    ensures
        keys_of(items) == keys_of(items.take(n)),
    decreases items.len() - n,
{
    if n < items.len() {
        assert(items.take(n + 1).drop_last() =~= items.take(n));
        lemma_refused_key(items, n + 1);
    } else {
        assert(items.take(n) =~= items);
    }
}

fn read_keys(items: &Vec<Json>) -> (keys: Result<Vec<GoogleSigningKey>, String>)
    ensures
        match keys {
            Ok(keys) => keys_of(item_views(items@)) == Ok::<Seq<KeyView>, Seq<char>>(
                key_views(keys@),
            ),
            Err(words) => keys_of(item_views(items@)) == Err::<Seq<KeyView>, Seq<char>>(words@),
        },
{
    let ghost views = item_views(items@);
    let mut keys: Vec<GoogleSigningKey> = Vec::new();
    let mut i: usize = 0;
    assert(key_views(keys@) =~= Seq::<KeyView>::empty());
    while i < items.len()
        invariant
            i <= items.len(),
            views == item_views(items@),
            keys_of(views.take(i as int)) == Ok::<Seq<KeyView>, Seq<char>>(key_views(keys@)),
        decreases items.len() - i,
    {
        let ghost before = key_views(keys@);
        proof {
            assert(views.take(i + 1).drop_last() =~= views.take(i as int));
            assert(views.take(i + 1).last() == items@[i as int]@);
        }
        match GoogleSigningKey::from_json(&items[i]) {
            Ok(key) => {
                keys.push(key);
                assert(key_views(keys@) =~= before.push(key@));
            },
            Err(words) => {
                proof {
                    lemma_refused_key(views, i + 1);
                }
                return Err(words);
            },
        }
        i += 1;
    }
    assert(views.take(i as int) =~= views);
    Ok(keys)
}

/// Reads the keys out of a published key set.
pub fn read_key_set(json: &Json) -> (keys: Result<Vec<GoogleSigningKey>, String>)
    ensures
        match keys {
            Ok(keys) => key_set_of(json@) == Ok::<Seq<KeyView>, Seq<char>>(key_views(keys@)),
            Err(words) => key_set_of(json@) == Err::<Seq<KeyView>, Seq<char>>(words@),
        },
{
    match refuse_record(json, "KeySetDocument", 1, 1) {
        Some(words) => {
            return Err(words);
        },
        None => {},
    }
    let member = match field(json, "keys", 0) {
        Some(member) => member,
        None => {
            return Err(missing("keys"));
        },
    };
    match member {
        Json::Array(items) => {
            assert(member@->Array_0 =~= item_views(items@));
            match read_keys(items) {
                Ok(keys) => match refuse_excess(json, 1) {
                    Some(words) => Err(words),
                    None => Ok(keys),
                },
                Err(words) => Err(words),
            }
        },
        other => Err(wrong_type(other, "a sequence")),
    }
}

/// The fields of a key, in their order.
pub open spec fn key_fields() -> Seq<RuleView> {
    seq![
        RuleView { name: "kid"@, kind: Kind::Text, needed: true },
        RuleView { name: "n"@, kind: Kind::Text, needed: true },
        RuleView { name: "e"@, kind: Kind::Text, needed: true },
    ]
}

/// What is wrong with the text of a published key set: the first fault that a reader meets
/// who goes through it from front to back.
pub open spec fn key_set_fault(text: Seq<u8>) -> Option<FaultView> {
    text_list_fault(text, "KeySetDocument"@, "keys"@, "GoogleSigningKey"@, key_fields(), 3)
}

/// The keys in the text of a published key set, or why there are none.
pub open spec fn key_set_in(text: Seq<u8>) -> Result<Seq<KeyView>, Seq<char>> {
    match key_set_fault(text) {
        Some(fault) => Err(located(text, fault)),
        None => match parsed_bytes(text) {
            Err(words) => Err(words),
            Ok(json) => key_set_of(json),
        },
    }
}

/// Reads the keys out of the text of a published key set.
pub fn read_key_set_text(text: &[u8]) -> (keys: Result<Vec<GoogleSigningKey>, String>)
    ensures
        match keys {
            Ok(keys) => key_set_in(text@) == Ok::<Seq<KeyView>, Seq<char>>(key_views(keys@)),
            Err(words) => key_set_in(text@) == Err::<Seq<KeyView>, Seq<char>>(words@),
        },
{
    let rules = vec![
        Rule { name: "kid", kind: Kind::Text, needed: true },
        Rule { name: "n", kind: Kind::Text, needed: true },
        Rule { name: "e", kind: Kind::Text, needed: true },
    ];
    assert(rule_views(rules@) =~= key_fields());
    match refuse_list_text(text, "KeySetDocument", "keys", "GoogleSigningKey", rules.as_slice(), 3) {
        Some(words) => Err(words),
        None => match Json::parse_bytes(text) {
            Ok(json) => read_key_set(&json),
            Err(words) => Err(words),
        },
    }
}

/// What a download of a key set brought: the keys in its text, or the description of the
/// request that failed or of the answer that is no key set.
pub open spec fn key_set_brought(download: Result<Vec<u8>, RequestFailure>) -> Result<
    Seq<KeyView>,
    Seq<char>,
> {
    match download {
        Ok(text) => match key_set_in(text@) {
            Ok(keys) => Ok(keys),
            Err(words) => Err(undecodable(words)),
        },
        Err(failure) => Err(failure.described()),
    }
}

/// What a download of a key set brought.
pub fn read_download(download: Result<Vec<u8>, RequestFailure>) -> (keys: Result<
    Vec<GoogleSigningKey>,
    String,
>)
    ensures
        match keys {
            Ok(keys) => key_set_brought(download) == Ok::<Seq<KeyView>, Seq<char>>(
                key_views(keys@),
            ),
            Err(words) => key_set_brought(download) == Err::<Seq<KeyView>, Seq<char>>(words@),
        },
{
    match download {
        Ok(text) => match read_key_set_text(text.as_slice()) {
            Ok(keys) => Ok(keys),
            Err(words) => Err(describe_undecodable(words.as_str())),
        },
        Err(failure) => Err(failure.describe()),
    }
}

// ---------------------------------------------------------------------------
// The cache
// ---------------------------------------------------------------------------

/// A key set and when its fetch ended.
#[derive(Debug)]
pub struct FetchedKeys {
    keys: Vec<GoogleSigningKey>,
    fetched_at: Duration,
}

/// The keys behind one address. Times are readings of a clock that only goes forward.
#[derive(Debug)]
pub struct GoogleKeySet {
    url: String,
    min_refetch_interval: Duration,
    fetched: Option<FetchedKeys>,
    last_attempt: Option<Duration>,
}

/// What a cache remembers.
pub struct KeySetView {
    /// The address.
    pub url: Seq<char>,
    /// The least time between two fetches, in nanoseconds.
    pub interval: nat,
    /// The last keys that were fetched, and when the fetch ended.
    pub fetched: Option<(Seq<KeyView>, nat)>,
    /// When the last fetch ended, whether or not it succeeded.
    pub last_attempt: Option<nat>,
}

impl View for GoogleKeySet {
    type V = KeySetView;

    closed spec fn view(&self) -> KeySetView {
        KeySetView {
            url: self.url@,
            interval: self.min_refetch_interval@,
            fetched: match self.fetched {
                Some(set) => Some((key_views(set.keys@), set.fetched_at@)),
                None => None,
            },
            last_attempt: match self.last_attempt {
                Some(at) => Some(at@),
                None => None,
            },
        }
    }
}

/// The time from one reading of the clock to another.
pub open spec fn elapsed(from: nat, to: nat) -> nat {
    if to >= from {
        (to - from) as nat
    } else {
        0
    }
}

/// The first position of a key id, or the number of keys.
pub open spec fn key_index(keys: Seq<KeyView>, kid: Seq<char>) -> int
    decreases keys.len(),
{
    if keys.len() == 0 {
        0
    } else if keys[0].kid == kid {
        0
    } else {
        1 + key_index(keys.skip(1), kid)
    }
}

/// The key of an id.
pub open spec fn key_named(keys: Seq<KeyView>, kid: Seq<char>) -> Option<KeyView> {
    let at = key_index(keys, kid);
    if 0 <= at < keys.len() {
        Some(keys[at])
    } else {
        None
    }
}

/// The refusal of a key id that no key has.
pub open spec fn no_such_key(kid: Seq<char>) -> IamErrorView {
    IamErrorView::Rejected("no Google signing key for kid "@ + kid)
}

/// The failure to have a key set while none may be fetched.
pub open spec fn no_key_set(interval: nat) -> IamErrorView {
    IamErrorView::JwksUnavailable(
        "the last fetch failed less than "@ + span_text(
            (interval / 1_000_000_000) as u64,
            (interval % 1_000_000_000) as u32,
        ) + " ago"@,
    )
}

impl KeySetView {
    /// No fetch may start yet.
    pub open spec fn cooling_down(self, now: nat) -> bool {
        self.last_attempt matches Some(at) && elapsed(at, now) < self.interval
    }

    /// The keys that are still used.
    pub open spec fn current(self, now: nat) -> Option<Seq<KeyView>> {
        match self.fetched {
            Some((keys, at)) => if elapsed(at, now) < seconds(KEY_SET_TTL_SECS) {
                Some(keys)
            } else {
                None
            },
            None => None,
        }
    }

    /// The answer that needs no fetch; none when a fetch is both needed and allowed.
    pub open spec fn answer(self, kid: Seq<char>, now: nat) -> Option<
        Result<KeyView, IamErrorView>,
    > {
        match self.current(now) {
            Some(keys) => match key_named(keys, kid) {
                Some(key) => Some(Ok(key)),
                None => if self.cooling_down(now) {
                    Some(Err(no_such_key(kid)))
                } else {
                    None
                },
            },
            None => if self.cooling_down(now) {
                Some(Err(no_key_set(self.interval)))
            } else {
                None
            },
        }
    }

    /// What the cache remembers after a fetch.
    pub open spec fn after(self, downloaded: Option<Seq<KeyView>>, finished: nat) -> KeySetView {
        KeySetView {
            fetched: match downloaded {
                Some(keys) => Some((keys, finished)),
                None => self.fetched,
            },
            last_attempt: Some(finished),
            ..self
        }
    }

    /// A set is used for at least as long as no fetch may start.
    pub open spec fn well_formed(self) -> bool {
        self.interval <= seconds(KEY_SET_TTL_SECS)
    }
}

fn find_key<'a>(keys: &'a Vec<GoogleSigningKey>, kid: &str) -> (found: Option<&'a GoogleSigningKey>)
    ensures
        match found {
            Some(key) => key_named(key_views(keys@), kid@) == Some(key@),
            None => key_named(key_views(keys@), kid@) is None,
        },
{
    let ghost views = key_views(keys@);
    let mut i: usize = 0;
    assert(views.skip(0) =~= views);
    while i < keys.len()
        invariant
            i <= keys.len(),
            views == key_views(keys@),
            key_index(views, kid@) == i + key_index(views.skip(i as int), kid@),
        decreases keys.len() - i,
    {
        assert(views.skip(i as int)[0] == keys@[i as int]@);
        assert(views.skip(i as int).skip(1) =~= views.skip(i + 1));
        if same(keys[i].kid.as_str(), kid) {
            return Some(&keys[i]);
        }
        i += 1;
    }
    None
}

/// The refusal of a key id that no key has.
pub fn unknown_kid(kid: &str) -> (error: IamError)
    ensures
        error@ == no_such_key(kid@),
{
    IamError::Rejected("no Google signing key for kid ".to_owned().concat(kid))
}

/// A key that was looked up.
pub open spec fn found_view(found: Result<GoogleSigningKey, IamError>) -> Result<
    KeyView,
    IamErrorView,
> {
    match found {
        Ok(key) => Ok(key@),
        Err(error) => Err(error@),
    }
}

impl GoogleKeySet {
    #[verifier::type_invariant]
    spec fn interval_is_short(self) -> bool {
        self.min_refetch_interval@ <= seconds(KEY_SET_TTL_SECS)
    }

    /// The keys behind an address, none of them fetched yet.
    pub fn new(url: &str) -> (set: Self)
        ensures
            set@ == (KeySetView {
                url: url@,
                interval: seconds(MIN_REFETCH_INTERVAL_SECS),
                fetched: None,
                last_attempt: None,
            }),
    {
        GoogleKeySet {
            url: url.to_owned(),
            min_refetch_interval: Duration::from_secs(MIN_REFETCH_INTERVAL_SECS),
            fetched: None,
            last_attempt: None,
        }
    }

    /// The same keys with another least time between two fetches, at most the time for
    /// which a set is used.
    pub fn with_min_refetch_interval(self, interval: Duration) -> (set: Self)
        ensures
            set@ == (KeySetView {
                interval: if interval@ > seconds(KEY_SET_TTL_SECS) {
                    seconds(KEY_SET_TTL_SECS)
                } else {
                    interval@
                },
                ..self@
            }),
    {
        let limit = Duration::from_secs(KEY_SET_TTL_SECS);
        GoogleKeySet {
            url: self.url,
            min_refetch_interval: interval.at_most(limit),
            fetched: self.fetched,
            last_attempt: self.last_attempt,
        }
    }

    /// The address of the keys.
    pub fn url(&self) -> (url: &str)
        ensures
            url@ == self@.url,
    {
        self.url.as_str()
    }

    /// The key of an id, as far as memory answers; nothing when a fetch is both needed
    /// and allowed.
    pub fn answer_from_memory(&self, kid: &str, now: Duration) -> (answer: Option<
        Result<GoogleSigningKey, IamError>,
    >)
        ensures
            match answer {
                Some(found) => self@.answer(kid@, now@) == Some(found_view(found)),
                None => self@.answer(kid@, now@) is None,
            },
    {
        let cooling_down = match self.last_attempt {
            Some(at) => now.less(at).shorter_than(self.min_refetch_interval),
            None => false,
        };
        let current = match &self.fetched {
            Some(set) => if now.less(set.fetched_at).shorter_than(
                Duration::from_secs(KEY_SET_TTL_SECS),
            ) {
                Some(&set.keys)
            } else {
                None
            },
            None => None,
        };
        match current {
            Some(keys) => match find_key(keys, kid) {
                Some(key) => Some(Ok(key.dup())),
                None => if cooling_down {
                    Some(Err(unknown_kid(kid)))
                } else {
                    None
                },
            },
            None => if cooling_down {
                let words = "the last fetch failed less than ".to_owned().concat(
                    self.min_refetch_interval.describe().as_str(),
                ).concat(" ago");
                Some(Err(IamError::JwksUnavailable(words)))
            } else {
                None
            },
        }
    }

    /// Keeps what a fetch brought, and looks a key up in it.
    pub fn fetched(
        &mut self,
        kid: &str,
        downloaded: Result<Vec<GoogleSigningKey>, String>,
        finished: Duration,
    ) -> (found: Result<GoogleSigningKey, IamError>)
        ensures
            final(self)@ == old(self)@.after(
                match downloaded {
                    Ok(keys) => Some(key_views(keys@)),
                    Err(_) => None,
                },
                finished@,
            ),
            match downloaded {
                Ok(keys) => match key_named(key_views(keys@), kid@) {
                    Some(key) => found matches Ok(found) && found@ == key,
                    None => found matches Err(error) && error@ == no_such_key(kid@),
                },
                Err(words) => found matches Err(error) && error@ == IamErrorView::JwksUnavailable(
                    words@,
                ),
            },
    {
        proof {
            use_type_invariant(&*self);
        }
        self.last_attempt = Some(finished);
        let keys = match downloaded {
            Ok(keys) => keys,
            Err(words) => {
                return Err(IamError::JwksUnavailable(words));
            },
        };
        let found = match find_key(&keys, kid) {
            Some(key) => Ok(key.dup()),
            None => Err(unknown_kid(kid)),
        };
        self.fetched = Some(FetchedKeys { keys, fetched_at: finished });
        found
    }
}

// ---------------------------------------------------------------------------
// Laws
// ---------------------------------------------------------------------------

/// No fetch starts before the least time since the last one has passed, whatever key is
/// asked for.
pub proof fn fetches_keep_their_distance(set: KeySetView, kid: Seq<char>, now: nat)
    requires
        set.answer(kid, now) is None,
    ensures
        set.last_attempt matches Some(at) ==> elapsed(at, now) >= set.interval,
{
}

/// A key that was fetched is found without another fetch for as long as the set is used.
pub proof fn fetched_keys_are_found(
    set: KeySetView,
    keys: Seq<KeyView>,
    kid: Seq<char>,
    finished: nat,
    now: nat,
)
    requires
        key_named(keys, kid) is Some,
        elapsed(finished, now) < seconds(KEY_SET_TTL_SECS),
    ensures
        set.after(Some(keys), finished).answer(kid, now) == Some(
            Ok::<KeyView, IamErrorView>(key_named(keys, kid)->0),
        ),
{
}

/// A key id that a fetch did not bring is refused from memory, without another fetch,
/// until the next one is allowed.
pub proof fn unknown_keys_cost_nothing(
    set: KeySetView,
    keys: Seq<KeyView>,
    kid: Seq<char>,
    finished: nat,
    now: nat,
)
    requires
        set.well_formed(),
        key_named(keys, kid) is None,
        elapsed(finished, now) < set.interval,
    ensures
        set.after(Some(keys), finished).answer(kid, now) == Some(
            Err::<KeyView, IamErrorView>(no_such_key(kid)),
        ),
{
}

/// An address that fails is not asked again until the next fetch is allowed.
pub proof fn failures_are_not_retried_at_once(
    set: KeySetView,
    kid: Seq<char>,
    finished: nat,
    now: nat,
)
    requires
        elapsed(finished, now) < set.interval,
    ensures
        set.after(None, finished).answer(kid, now) is Some,
{
}

} // verus!
