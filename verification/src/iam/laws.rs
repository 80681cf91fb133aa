//! What holds of every identity token, and of the keys and tokens that are kept.

use vstd::prelude::*;

use crate::clock::span_text;
use crate::http_client::RequestFailure;
use crate::iam::error::{iam_error_text, IamErrorView};
use crate::iam::key_set::{
    elapsed, key_index, key_named, key_set_brought, key_set_in, key_set_of, keys_of, KeySetView,
    KeyView,
};
use crate::iam::token_source::{metadata_host, minted_token, MetadataReply, SourceView};
use crate::iam::verify::{
    claims_fault, claims_of, google_issuers, header_key_id, judged, key_id_due, names_no_other,
    verified, ClaimsView,
};
use crate::json::JsonView;
use crate::text_laws::{between, holds, parts_make_up_the_text};

verus! {

// ---------------------------------------------------------------------------
// Callers
// ---------------------------------------------------------------------------

/// Whether a list names a text, anywhere in it.
pub open spec fn names(list: Seq<Seq<char>>, text: Seq<char>) -> bool {
    exists|i: int| 0 <= i < list.len() && #[trigger] list[i] == text
}

/// Whether claims have the shape of claims: a subject and an audience that are texts, an email
/// that is a text and a vouching that is a truth value where they are there.
pub open spec fn claims_shaped(claims: JsonView) -> bool {
    &&& claims is Object
    &&& claims.member("sub"@) matches Some(JsonView::Text(_))
    &&& claims.member("aud"@) matches Some(JsonView::Text(_))
    &&& claims.member("email"@) matches Some(email) ==> email is Null || email is Text
    &&& claims.member("email_verified"@) matches Some(vouched) ==> vouched is Null
        || vouched is Bool
}

/// Claims are read member by member, and only from documents that have their shape.
pub proof fn claims_are_read_as_they_stand(claims: JsonView)
    requires
        claims is Object,
    ensures
        claims_of(claims) is Ok <==> claims_shaped(claims),
        claims_of(claims) matches Ok(read) ==> {
            &&& claims.member("sub"@) == Some(JsonView::Text(read.sub))
            &&& claims.member("aud"@) == Some(JsonView::Text(read.aud))
            &&& read.email == match claims.member("email"@) {
                Some(JsonView::Text(email)) => Some(email),
                _ => None,
            }
            &&& read.email_verified == match claims.member("email_verified"@) {
                Some(JsonView::Bool(vouched)) => Some(vouched),
                _ => None,
            }
        },
{
}

/// Everybody gets through a list that names nobody, with claims that have their shape.
pub proof fn anybody_gets_through_an_empty_list(claims: JsonView)
    requires
        claims_shaped(claims),
    ensures
        judged(Seq::empty(), claims) matches Ok(caller) && claims.member("sub"@) == Some(
            JsonView::Text(caller.sub),
        ) && claims.member("aud"@) == Some(JsonView::Text(caller.aud)),
{
}

/// Whoever a list names gets through it, wherever in the list the name stands, when Google
/// vouches for the email; and nobody else does.
pub proof fn listed_callers_get_through(allowed: Seq<Seq<char>>, claims: JsonView)
    requires
        allowed.len() > 0,
        claims_shaped(claims),
    ensures
        judged(allowed, claims) is Ok <==> claims.member("email_verified"@) == Some(
            JsonView::Bool(true),
        ) && names(
            allowed,
            match claims.member("email"@) {
                Some(JsonView::Text(email)) => email,
                _ => Seq::empty(),
            },
        ),
        judged(allowed, claims) matches Ok(caller) ==> claims.member("sub"@) == Some(
            JsonView::Text(caller.sub),
        ) && claims.member("aud"@) == Some(JsonView::Text(caller.aud)),
        judged(allowed, claims) matches Err(error) ==> error is Rejected,
{
    let email = match claims.member("email"@) {
        Some(JsonView::Text(email)) => email,
        _ => Seq::empty(),
    };
    assert(names(allowed, email) <==> allowed.contains(email));
}

/// What is made of a caller depends on whom a list names, not on the order or on how often.
pub proof fn the_order_of_a_list_does_not_matter(
    allowed: Seq<Seq<char>>,
    other: Seq<Seq<char>>,
    claims: JsonView,
)
    requires
        forall|text: Seq<char>| #[trigger] names(allowed, text) <==> names(other, text),
    ensures
        judged(allowed, claims) == judged(other, claims),
{
    assert forall|text: Seq<char>| #[trigger] allowed.contains(text) <==> other.contains(text) by {
        assert(names(allowed, text) <==> names(other, text));
        assert(names(allowed, text) <==> allowed.contains(text));
        assert(names(other, text) <==> other.contains(text));
    }
    if allowed.len() > 0 {
        assert(names(allowed, allowed[0]));
        assert(names(other, allowed[0]));
    }
    if other.len() > 0 {
        assert(names(other, other[0]));
        assert(names(allowed, other[0]));
    }
}

/// A longer list lets nobody out: whoever gets through a list that names somebody gets through
/// it with more names.
pub proof fn more_names_refuse_nobody(
    allowed: Seq<Seq<char>>,
    more: Seq<Seq<char>>,
    claims: JsonView,
)
    requires
        allowed.len() > 0,
        judged(allowed, claims) is Ok,
    ensures
        judged(allowed + more, claims) == judged(allowed, claims),
        judged(more + allowed, claims) == judged(allowed, claims),
{
    let caller = judged(allowed, claims)->Ok_0;
    let email = crate::iam::verify::caller_email(caller);
    let at = choose|i: int| 0 <= i < allowed.len() && allowed[i] == email;
    assert((allowed + more)[at] == email);
    assert((more + allowed)[more.len() + at] == email);
}

/// What the decoder lets through, and whose claims have their shape in the text that was
/// signed, is judged by its claims; what the decoder refuses, or what no key signed, is
/// refused.
pub proof fn tokens_are_judged_when_they_decode(
    allowed: Seq<Seq<char>>,
    text: Seq<char>,
    claims: JsonView,
    words: Seq<char>,
)
    ensures
        claims_fault(text) is None ==> verified(allowed, Ok(text), Ok(claims)) == judged(
            allowed,
            claims,
        ),
        claims_fault(text) is None ==> verified(allowed, Ok(text), Err(words)) == Err::<
            ClaimsView,
            IamErrorView,
        >(IamErrorView::Rejected(words)),
        claims_fault(text) is Some ==> (verified(allowed, Ok(text), Ok(claims)) matches Err(error)
            && error is Rejected),
        verified(allowed, Err(words), Ok(claims)) == Err::<ClaimsView, IamErrorView>(
            IamErrorView::Rejected(words),
        ),
{
}

/// Google signs as two issuers, and no others.
pub proof fn issuers_are_googles()
    ensures
        google_issuers().len() == 2,
        google_issuers()[0] == "https://accounts.google.com"@,
        google_issuers()[1] == "accounts.google.com"@,
{
}

/// Claims that name another audience or another issuer are told apart.
pub proof fn foreign_claims_are_told_apart(
    claims: JsonView,
    audience: Seq<char>,
    issuers: Seq<Seq<char>>,
    named: Seq<char>,
)
    requires
        names_no_other(claims, audience, issuers),
    ensures
        claims.member("aud"@) == Some(JsonView::Text(named)) ==> named == audience,
        claims.member("iss"@) == Some(JsonView::Text(named)) ==> names(issuers, named),
{
}

/// A token that names a key gives its id, and one that names none is refused at once.
pub proof fn key_ids_come_from_the_header(token: Seq<char>, kid: Seq<char>)
    ensures
        header_key_id(token) == Ok::<Option<Seq<char>>, Seq<char>>(Some(kid)) ==> key_id_due(token)
            == Ok::<Seq<char>, IamErrorView>(kid),
        !(header_key_id(token) matches Ok(Some(_))) ==> (key_id_due(token) matches Err(error)
            && error is Rejected),
{
}

// ---------------------------------------------------------------------------
// Keys
// ---------------------------------------------------------------------------

/// Whether a document is a key: an object with an id, a modulus and an exponent.
pub open spec fn is_key(json: JsonView, key: KeyView) -> bool {
    &&& json is Object
    &&& json.member("kid"@) == Some(JsonView::Text(key.kid))
    &&& json.member("n"@) == Some(JsonView::Text(key.n))
    &&& json.member("e"@) == Some(JsonView::Text(key.e))
}

/// A key set whose items are keys gives every one of them, in order.
pub proof fn key_sets_give_every_key(json: JsonView, items: Seq<JsonView>, keys: Seq<KeyView>)
    requires
        json is Object,
        json.member("keys"@) == Some(JsonView::Array(items)),
        items.len() == keys.len(),
        forall|i: int| 0 <= i < items.len() ==> is_key(#[trigger] items[i], keys[i]),
    ensures
        key_set_of(json) == Ok::<Seq<KeyView>, Seq<char>>(keys),
{
    lemma_keys_of(items, keys);
}

proof fn lemma_keys_of(items: Seq<JsonView>, keys: Seq<KeyView>)
    requires
        items.len() == keys.len(),
        forall|i: int| 0 <= i < items.len() ==> is_key(#[trigger] items[i], keys[i]),
    ensures
        keys_of(items) == Ok::<Seq<KeyView>, Seq<char>>(keys),
    decreases items.len(),
{
    if items.len() > 0 {
        let before = items.drop_last();
        assert forall|i: int| 0 <= i < before.len() implies is_key(
            #[trigger] before[i],
            keys.drop_last()[i],
        ) by {
            assert(before[i] == items[i]);
        }
        lemma_keys_of(before, keys.drop_last());
        assert(is_key(items[items.len() - 1], keys[keys.len() - 1]));
        assert(keys.drop_last().push(keys.last()) =~= keys);
    } else {
        assert(keys =~= Seq::<KeyView>::empty());
    }
}

/// The key of an id is the first that has it, and there is one when any has it.
pub proof fn keys_are_found_by_their_id(keys: Seq<KeyView>, kid: Seq<char>, at: int)
    ensures
        0 <= at < keys.len() && keys[at].kid == kid && (forall|k: int|
            0 <= k < at ==> (#[trigger] keys[k]).kid != kid) ==> key_named(keys, kid) == Some(
            keys[at],
        ),
        key_named(keys, kid) is None <==> forall|k: int|
            0 <= k < keys.len() ==> (#[trigger] keys[k]).kid != kid,
    decreases keys.len(),
{
    lemma_key_index(keys, kid);
}

proof fn lemma_key_index(keys: Seq<KeyView>, kid: Seq<char>)
    ensures
        0 <= key_index(keys, kid) <= keys.len(),
        key_index(keys, kid) < keys.len() ==> keys[key_index(keys, kid)].kid == kid,
        forall|k: int| 0 <= k < key_index(keys, kid) ==> (#[trigger] keys[k]).kid != kid,
    decreases keys.len(),
{
    if keys.len() > 0 && keys[0].kid != kid {
        lemma_key_index(keys.skip(1), kid);
        assert forall|k: int| 0 <= k < key_index(keys, kid) implies (#[trigger] keys[k]).kid
            != kid by {
            if k > 0 {
                assert(keys.skip(1)[k - 1] == keys[k]);
            }
        }
    }
}

/// A set that was fetched is used for an hour and no longer, and a key in it is then given;
/// where it has none, or there is no set, the answer is an error while no fetch may start, and
/// a fetch otherwise.
pub proof fn memory_answers_for_an_hour(
    set: KeySetView,
    keys: Seq<KeyView>,
    fetched: nat,
    kid: Seq<char>,
    now: nat,
)
    requires
        set.fetched == Some((keys, fetched)),
        fetched <= now,
    ensures
        ({
            let cooling = match set.last_attempt {
                Some(at) => (at <= now && now - at < set.interval) || (at > now && set.interval > 0),
                None => false,
            };
            let used = now - fetched < 3_600_000_000_000;
            &&& used && key_named(keys, kid) is Some ==> set.answer(kid, now) == Some(
                Ok::<KeyView, IamErrorView>(key_named(keys, kid)->0),
            )
            &&& used && key_named(keys, kid) is None && cooling ==> (set.answer(kid, now) matches Some(
                Err(error),
            ) && error is Rejected)
            &&& !used && cooling ==> (set.answer(kid, now) matches Some(Err(error))
                && error is JwksUnavailable)
            &&& !(used && key_named(keys, kid) is Some) && !cooling ==> set.answer(kid, now) is None
        }),
{
}

/// Before any fetch, one is made; a fetch that failed keeps the keys that were there, and one
/// that succeeded replaces them, and either counts as the last.
pub proof fn fetches_are_remembered(set: KeySetView, keys: Seq<KeyView>, kid: Seq<char>, now: nat)
    ensures
        set.fetched is None && set.last_attempt is None ==> set.answer(kid, now) is None,
        set.after(None, now).fetched == set.fetched,
        set.after(Some(keys), now).fetched == Some((keys, now)),
        set.after(None, now).last_attempt == Some(now),
        set.after(Some(keys), now).last_attempt == Some(now),
        set.after(Some(keys), now).url == set.url,
        set.after(Some(keys), now).interval == set.interval,
        set.after(None, now).interval == set.interval,
{
}

/// The time that passed is the difference of two readings, and none where the clock went back.
pub proof fn time_passes_forward(from: nat, to: nat)
    ensures
        from <= to ==> elapsed(from, to) + from == to,
        to <= from ==> elapsed(from, to) == 0,
{
}

/// A download gives the keys in its text; a body that is no key set, or a request that failed,
/// gives none.
pub proof fn downloads_give_the_keys_in_their_text(
    download: Result<Vec<u8>, RequestFailure>,
)
    ensures
        key_set_brought(download) is Ok <==> (download matches Ok(text) && key_set_in(text@) is Ok),
        key_set_brought(download) matches Ok(keys) ==> (download matches Ok(text) && key_set_in(
            text@,
        ) == Ok::<Seq<KeyView>, Seq<char>>(keys)),
        download matches Err(failure) ==> key_set_brought(download) == Err::<
            Seq<KeyView>,
            Seq<char>,
        >(failure.described()),
{
}

// ---------------------------------------------------------------------------
// Tokens of one's own
// ---------------------------------------------------------------------------

/// A token is taken from an answer whose status is a success and whose body holds exactly two
/// dots, as it is; from no other.
pub proof fn tokens_have_three_segments(status: u16, status_text: String, token: String)
    ensures
        ({
            let reply = MetadataReply::Answered { status, status_text, body: Ok(token) };
            &&& minted_token(reply) is Ok <==> 200 <= status <= 299 && token@.filter(
                |c: char| c == '.',
            ).len() == 2
            &&& minted_token(reply) matches Ok(minted) ==> minted == token@
            &&& !(200 <= status <= 299) ==> (minted_token(reply) matches Err(error)
                && error is MetadataUnavailable)
            &&& 200 <= status <= 299 ==> (minted_token(reply) matches Err(error)
                ==> error is MalformedToken)
        }),
{
    parts_make_up_the_text(token@, '.');
}

/// A request that failed gives no token, and is told as such.
pub proof fn failed_requests_give_no_token(why: RequestFailure, status: u16, status_text: String)
    ensures
        minted_token(MetadataReply::Failed(why)) == Err::<Seq<char>, IamErrorView>(
            IamErrorView::MetadataUnavailable(why.described()),
        ),
        200 <= status <= 299 ==> (minted_token(
            MetadataReply::Answered { status, status_text, body: Err(why) },
        ) matches Err(error) && error is MalformedToken),
{
}

/// The metadata server is the one that the environment names, where it names one.
pub proof fn the_environment_names_the_metadata_server(host: Seq<char>)
    ensures
        host.len() > 0 ==> metadata_host(Some(host)) == host,
        host.len() == 0 ==> metadata_host(Some(host)) == metadata_host(None),
        metadata_host(None) == "metadata.google.internal"@,
{
}

/// A token is used for three quarters of an hour after it was kept.
pub proof fn tokens_are_used_for_a_while(source: SourceView, token: Seq<char>, kept: nat, now: nat)
    requires
        source.cached == Some((token, kept)),
        kept <= now,
    ensures
        now - kept < 2_700_000_000_000 ==> source.fresh(now) == Some(token),
        now - kept >= 2_700_000_000_000 ==> source.fresh(now) is None,
{
}

/// An error is told by its kind, and then by its cause.
pub proof fn errors_tell_their_kind(why: Seq<char>)
    ensures
        iam_error_text(IamErrorView::Rejected(why)) == "identity token rejected: "@ + why,
        iam_error_text(IamErrorView::JwksUnavailable(why))
            == "could not fetch Google signing keys: "@ + why,
        iam_error_text(IamErrorView::MalformedToken(why))
            == "metadata server returned an unusable token: "@ + why,
        iam_error_text(IamErrorView::MetadataUnavailable(why))
            == "identity token unavailable from the metadata server: "@ + why,
{
}

/// While fetches keep their distance and no keys are known, the caller is told for how long.
pub proof fn waits_for_keys_are_told(set: KeySetView, kid: Seq<char>, now: nat, at: nat)
    requires
        set.fetched is None,
        set.last_attempt == Some(at),
        at <= now,
    ensures
        now - at < set.interval ==> (set.answer(kid, now) matches Some(Err(
            IamErrorView::JwksUnavailable(words),
        )) && holds(
            words,
            span_text(
                (set.interval / 1_000_000_000) as u64,
                (set.interval % 1_000_000_000) as u32,
            ),
        )),
        now - at >= set.interval ==> set.answer(kid, now) is None,
{
    let span = span_text(
        (set.interval / 1_000_000_000) as u64,
        (set.interval % 1_000_000_000) as u32,
    );
    let words = "the last fetch failed less than "@ + span + " ago"@;
    assert(words =~= between("the last fetch failed less than "@, span, " ago"@));
}

} // verus!
