//! The words of a notification.

use vstd::prelude::*;

use crate::digits::{
    decimal, decimal_reads_back, is_decimal_digit, pad_with_zeros, padded_decimal_reads_back,
    read_unsigned, render_decimal, unsigned_reading, zero_padded,
};
use crate::json::{fields, item_views, no_members, put, put_text, Json, JsonView};
use crate::notifications::error_layer::{context_block, context_json, mrkdwn, mrkdwn_json};
use crate::notify::state::BatchedLine;
use crate::string_map::{distinct_keys, entry_views, lookup, Pair, StringMap};
use crate::text::{
    ends_with, join, joined, lemma_lex_total, lemma_lex_transitive, lex_less, same, text_before, views,
};

verus! {

// ---------------------------------------------------------------------------
// Which fields, and in which order
// ---------------------------------------------------------------------------

/// Whether a field belongs to the plumbing of a request, and is not shown.
pub open spec fn is_plumbing(key: Seq<char>) -> bool {
    ||| key == "uri"@
    ||| key == "method"@
    ||| key == "version"@
    ||| key == "host"@
    ||| key == "grant_type"@
    ||| key == "username"@
    ||| key == "route"@
    ||| key == "id"@
    ||| key == "x-request-id"@
}

/// Whether a field belongs to the plumbing of a request.
pub fn is_denied(key: &str) -> (denied: bool)
    ensures
        denied == is_plumbing(key@),
{
    same(key, "uri") || same(key, "method") || same(key, "version") || same(key, "host") || same(
        key,
        "grant_type",
    ) || same(key, "username") || same(key, "route") || same(key, "id") || same(
        key,
        "x-request-id",
    )
}

/// Whether a field is shown in the headline.
pub open spec fn in_headline(key: Seq<char>) -> bool {
    key == "message"@ || key == "emoji"@
}

/// Whether a field is shown in the headline.
pub fn is_lifted(key: &str) -> (lifted: bool)
    ensures
        lifted == in_headline(key@),
{
    same(key, "message") || same(key, "emoji")
}

/// Whether a field is an identifier.
pub open spec fn names_id(key: Seq<char>) -> bool {
    "_id"@.is_suffix_of(key)
}

/// Whether a field is an identifier.
pub fn is_id_field(key: &str) -> (id: bool)
    ensures
        id == names_id(key@),
{
    ends_with(key, "_id")
}

/// Where a field stands: who it is about first, identifiers last.
pub open spec fn priority(key: Seq<char>) -> int {
    if key == "user_email"@ {
        10
    } else if names_id(key) {
        90
    } else {
        50
    }
}

/// Where a field stands.
pub fn field_priority(key: &str) -> (rank: u8)
    ensures
        rank == priority(key@),
{
    if same(key, "user_email") {
        10
    } else if is_id_field(key) {
        90
    } else {
        50
    }
}

/// Whether a field is shown before another: by where it stands, then by its name.
pub open spec fn shown_before(a: Seq<char>, b: Seq<char>) -> bool {
    priority(a) < priority(b) || (priority(a) == priority(b) && lex_less(a, b))
}

fn goes_before(a: &str, b: &str) -> (before: bool)
    ensures
        before == shown_before(a@, b@),
{
    let left: u8 = field_priority(a);
    let right: u8 = field_priority(b);
    left < right || (left == right && text_before(a, b))
}

/// The place of a field among fields that are in order: before the first that is shown
/// after it.
pub open spec fn place_of(sorted: Seq<Pair>, key: Seq<char>) -> int
    decreases sorted.len(),
{
    if sorted.len() == 0 {
        0
    } else if shown_before(key, sorted[0].0) {
        0
    } else {
        1 + place_of(sorted.skip(1), key)
    }
}

/// Fields in the order in which they are shown.
pub open spec fn in_order(pairs: Seq<Pair>) -> Seq<Pair>
    decreases pairs.len(),
{
    if pairs.len() == 0 {
        Seq::empty()
    } else {
        let rest = in_order(pairs.drop_last());
        rest.insert(place_of(rest, pairs.last().0), pairs.last())
    }
}

proof fn lemma_place(sorted: Seq<Pair>, key: Seq<char>)
    ensures
        0 <= place_of(sorted, key) <= sorted.len(),
        place_of(sorted, key) < sorted.len() ==> shown_before(
            key,
            sorted[place_of(sorted, key)].0,
        ),
        forall|k: int| 0 <= k < place_of(sorted, key) ==> !shown_before(key, sorted[k].0),
    decreases sorted.len(),
{
    if sorted.len() > 0 && !shown_before(key, sorted[0].0) {
        lemma_place(sorted.skip(1), key);
        let at = place_of(sorted, key);
        if at < sorted.len() {
            assert(sorted[at] == sorted.skip(1)[at - 1]);
        }
        assert forall|k: int| 0 <= k < at implies !shown_before(key, sorted[k].0) by {
            if k > 0 {
                assert(sorted[k] == sorted.skip(1)[k - 1]);
            }
        }
    }
}

/// Fields are in the order in which they are shown.
pub open spec fn is_in_order(pairs: Seq<Pair>) -> bool {
    forall|i: int, j: int| 0 <= i < j < pairs.len() ==> shown_before(pairs[i].0, pairs[j].0)
}

/// Putting fields in order keeps them, all and none besides, and puts them in order.
pub proof fn ordering_keeps_the_fields(pairs: Seq<Pair>)
    requires
        distinct_keys(pairs),
    ensures
        is_in_order(in_order(pairs)),
        in_order(pairs).to_multiset() == pairs.to_multiset(),
        in_order(pairs).len() == pairs.len(),
    decreases pairs.len(),
{
    broadcast use vstd::seq_lib::group_to_multiset_ensures;

    if pairs.len() == 0 {
        assert(in_order(pairs) =~= pairs);
    } else {
        let front = pairs.drop_last();
        let last = pairs.last();
        assert(distinct_keys(front)) by {
            assert forall|i: int, j: int| 0 <= i < j < front.len() implies front[i].0
                != front[j].0 by {
                assert(front[i] == pairs[i] && front[j] == pairs[j]);
            }
        }
        ordering_keeps_the_fields(front);
        let sorted = in_order(front);
        let at = place_of(sorted, last.0);
        lemma_place(sorted, last.0);
        let after = sorted.insert(at, last);
        assert forall|k: int| 0 <= k < sorted.len() implies (#[trigger] sorted[k]).0 != last.0 by {
            assert(sorted.to_multiset().contains(sorted[k]));
            assert(front.to_multiset().contains(sorted[k]));
            assert(front.contains(sorted[k]));
            let j = choose|j: int| 0 <= j < front.len() && front[j] == sorted[k];
            assert(pairs[j] == front[j]);
            assert(pairs[pairs.len() - 1] == last);
        }
        assert forall|i: int, j: int| 0 <= i < j < after.len() implies shown_before(
            after[i].0,
            after[j].0,
        ) by {
            if i < at && j == at {
                lemma_lex_total(last.0, sorted[i].0);
                assert(!shown_before(last.0, sorted[i].0));
            } else if i == at {
                if j - 1 > at {
                    assert(shown_before(sorted[at].0, sorted[j - 1].0));
                    lemma_shown_transitive(last.0, sorted[at].0, sorted[j - 1].0);
                }
            }
        }
        assert(pairs =~= front.push(last));
        assert(after.to_multiset() =~= sorted.to_multiset().insert(last));
        assert(pairs.to_multiset() =~= front.to_multiset().insert(last));
    }
}

proof fn lemma_shown_transitive(a: Seq<char>, b: Seq<char>, c: Seq<char>)
    requires
        shown_before(a, b),
        shown_before(b, c),
    ensures
        shown_before(a, c),
{
    if priority(a) == priority(b) && priority(b) == priority(c) {
        lemma_lex_transitive(a, b, c);
    }
}

/// Which fields are meant.
#[derive(Debug, Clone, Copy, PartialEq, Eq, Structural)]
pub enum Pick {
    /// All that are shown below the headline.
    All,
    /// Those among them that are no identifiers.
    Signal,
    /// Those among them that are identifiers.
    Ids,
}

/// Whether a field is meant.
pub open spec fn is_picked(pick: Pick, key: Seq<char>) -> bool {
    &&& !in_headline(key)
    &&& !is_plumbing(key)
    &&& match pick {
        Pick::All => true,
        Pick::Signal => !names_id(key),
        Pick::Ids => names_id(key),
    }
}

/// The fields that are meant.
pub open spec fn picked(pick: Pick, pairs: Seq<Pair>) -> Seq<Pair>
    decreases pairs.len(),
{
    if pairs.len() == 0 {
        Seq::empty()
    } else if is_picked(pick, pairs.last().0) {
        picked(pick, pairs.drop_last()).push(pairs.last())
    } else {
        picked(pick, pairs.drop_last())
    }
}

fn picks(pick: Pick, key: &str) -> (meant: bool)
    ensures
        meant == is_picked(pick, key@),
{
    if is_lifted(key) || is_denied(key) {
        return false;
    }
    match pick {
        Pick::All => true,
        Pick::Signal => !is_id_field(key),
        Pick::Ids => is_id_field(key),
    }
}

fn find_place(sorted: &Vec<(String, String)>, key: &str) -> (at: usize)
    ensures
        at == place_of(entry_views(sorted@), key@),
        at <= sorted.len(),
{
    let ghost list = entry_views(sorted@);
    let mut i: usize = 0;
    assert(list.skip(0) =~= list);
    while i < sorted.len()
        invariant
            i <= sorted.len(),
            list == entry_views(sorted@),
            place_of(list, key@) == i + place_of(list.skip(i as int), key@),
        decreases sorted.len() - i,
    {
        assert(list.skip(i as int)[0] == (sorted@[i as int].0@, sorted@[i as int].1@));
        assert(list.skip(i as int).skip(1) =~= list.skip(i + 1));
        if goes_before(key, sorted[i].0.as_str()) {
            return i;
        }
        i += 1;
    }
    i
}

/// The fields that are meant, in the order in which they are shown.
fn pick_in_order(pick: Pick, fields: &StringMap) -> (sorted: Vec<(String, String)>)
    ensures
        entry_views(sorted@) == in_order(picked(pick, fields@)),
{
    let mut sorted: Vec<(String, String)> = Vec::new();
    let mut i: usize = 0;
    assert(entry_views(sorted@) =~= Seq::<Pair>::empty());
    assert(fields@.take(0) =~= Seq::<Pair>::empty());
    while i < fields.len()
        invariant
            i <= fields@.len(),
            entry_views(sorted@) == in_order(picked(pick, fields@.take(i as int))),
        decreases fields@.len() - i,
    {
        let ghost before = entry_views(sorted@);
        let ghost so_far = picked(pick, fields@.take(i as int));
        proof {
            assert(fields@.take(i + 1).drop_last() =~= fields@.take(i as int));
            assert(fields@.take(i + 1).last() == fields@[i as int]);
        }
        let key = fields.key_at(i);
        if picks(pick, key) {
            let at: usize = find_place(&sorted, key);
            let value = fields.value_at(i);
            sorted.insert(at, (key.to_owned(), value.to_owned()));
            proof {
                let pair = (key@, value@);
                assert(entry_views(sorted@) =~= before.insert(at as int, pair));
                assert(so_far.push(pair).drop_last() =~= so_far);
            }
        }
        i += 1;
    }
    assert(fields@.take(i as int) =~= fields@);
    sorted
}

// ---------------------------------------------------------------------------
// Values
// ---------------------------------------------------------------------------

/// A span of milliseconds in the units that suit it.
pub open spec fn duration_text(ms: nat) -> Seq<char> {
    let secs = ms / 1000;
    let rest = ms % 1000;
    if ms < 1000 {
        decimal(ms) + "ms"@
    } else if secs < 60 {
        if rest == 0 {
            decimal(secs) + "s"@
        } else {
            decimal(secs) + "."@ + zero_padded(decimal(rest), 3) + "s"@
        }
    } else if secs < 3600 {
        if secs % 60 == 0 {
            decimal(secs / 60) + "m"@
        } else {
            decimal(secs / 60) + "m "@ + decimal(secs % 60) + "s"@
        }
    } else {
        if (secs % 3600) / 60 == 0 {
            decimal(secs / 3600) + "h"@
        } else {
            decimal(secs / 3600) + "h "@ + decimal((secs % 3600) / 60) + "m"@
        }
    }
}

/// A span of milliseconds in the units that suit it.
pub fn format_duration_ms(ms: u64) -> (text: String)
    ensures
        text@ == duration_text(ms as nat),
{
    if ms < 1000 {
        return render_decimal(ms).concat("ms");
    }
    let secs: u64 = ms / 1000;
    let rest: u64 = ms % 1000;
    if secs < 60 {
        if rest == 0 {
            render_decimal(secs).concat("s")
        } else {
            let padded = pad_with_zeros(render_decimal(rest).as_str(), 3);
            render_decimal(secs).concat(".").concat(padded.as_str()).concat("s")
        }
    } else if secs < 3600 {
        let m: u64 = secs / 60;
        let s: u64 = secs % 60;
        if s == 0 {
            render_decimal(m).concat("m")
        } else {
            render_decimal(m).concat("m ").concat(render_decimal(s).as_str()).concat("s")
        }
    } else {
        let h: u64 = secs / 3600;
        let m: u64 = (secs % 3600) / 60;
        if m == 0 {
            render_decimal(h).concat("h")
        } else {
            render_decimal(h).concat("h ").concat(render_decimal(m).as_str()).concat("m")
        }
    }
}

/// A span of less than a second, or of whole seconds, ends as no other does.
proof fn lemma_short_duration(ms: nat)
    requires
        ms < 60_000,
    ensures
        ms < 1000 ==> ({
            let text = duration_text(ms);
            &&& text.len() >= 3
            &&& text[text.len() - 2] == 'm'
            &&& text.take(text.len() - 2) == decimal(ms)
        }),
        ms >= 1000 ==> ({
            let text = duration_text(ms);
            &&& text.len() >= 2
            &&& text[text.len() - 2] != 'm'
            &&& ms % 1000 == 0 ==> text.len() <= 3 && text.take(text.len() - 1) == decimal(ms / 1000)
            &&& ms % 1000 != 0 ==> text.len() >= 6 && text.take(text.len() - 5) == decimal(
                ms / 1000,
            ) && text.subrange(text.len() - 4, text.len() - 1) == zero_padded(
                decimal(ms % 1000),
                3,
            )
        }),
{
    reveal_strlit("ms");
    reveal_strlit("s");
    reveal_strlit(".");
    let text = duration_text(ms);
    let secs = ms / 1000;
    let rest = ms % 1000;
    decimal_reads_back(ms);
    decimal_reads_back(secs);
    decimal_reads_back(rest);
    if ms < 1000 {
        assert("ms"@.len() == 2 && "ms"@[0] == 'm');
        assert(text.take(text.len() - 2) =~= decimal(ms));
    } else if rest == 0 {
        assert("s"@.len() == 1);
        let digits = decimal(secs);
        assert(text[text.len() - 2] == digits[digits.len() - 1]);
        assert(is_decimal_digit(digits[digits.len() - 1]));
        assert(text.take(text.len() - 1) =~= digits);
    } else {
        let head = decimal(secs);
        let digits = decimal(rest);
        let tail = zero_padded(digits, 3);
        assert("s"@.len() == 1 && "."@.len() == 1);
        assert(tail.len() == 3);
        assert(tail[2] == digits[digits.len() - 1]);
        assert(is_decimal_digit(digits[digits.len() - 1]));
        assert(text[text.len() - 2] == tail[2]);
        assert(text.take(text.len() - 5) =~= head);
        assert(text.subrange(text.len() - 4, text.len() - 1) =~= tail);
    }
}

/// Below a minute, spans that differ read differently.
pub proof fn short_durations_read_differently(a: u64, b: u64)
    requires
        a < 60_000,
        b < 60_000,
        a != b,
    ensures
        duration_text(a as nat) != duration_text(b as nat),
{
    lemma_short_duration(a as nat);
    lemma_short_duration(b as nat);
    decimal_reads_back(a as nat);
    decimal_reads_back(b as nat);
    decimal_reads_back(a as nat / 1000);
    decimal_reads_back(b as nat / 1000);
    padded_decimal_reads_back(a as nat % 1000, 3);
    padded_decimal_reads_back(b as nat % 1000, 3);
}

/// From a minute on, what is finer than a second is not shown; from an hour on, what is finer
/// than a minute.
pub proof fn long_durations_leave_out_what_is_finer(ms: u64)
    ensures
        ms >= 60_000 ==> duration_text(ms as nat) == duration_text((ms - ms % 1_000) as nat),
        ms >= 3_600_000 ==> duration_text(ms as nat) == duration_text((ms - ms % 60_000) as nat),
{
    let cut = (ms - ms % 1_000) as nat;
    assert(cut / 1000 == ms as nat / 1000);
    if ms >= 3_600_000 {
        let rough = (ms - ms % 60_000) as nat;
        assert(rough / 1000 / 3600 == ms as nat / 1000 / 3600);
        assert((rough / 1000 % 3600) / 60 == (ms as nat / 1000 % 3600) / 60);
    }
}

/// A value as it is shown: a number of milliseconds as a span, anything else as it is.
pub open spec fn value_text(key: Seq<char>, value: Seq<char>) -> Seq<char> {
    if "_ms"@.is_suffix_of(key) {
        match unsigned_reading(value, u64::MAX as nat) {
            Some(ms) => duration_text(ms),
            None => value,
        }
    } else {
        value
    }
}

/// A value as it is shown.
pub fn format_value(key: &str, value: &str) -> (text: String)
    ensures
        text@ == value_text(key@, value@),
{
    if ends_with(key, "_ms") {
        match read_unsigned(value, u64::MAX) {
            Some(ms) => {
                return format_duration_ms(ms);
            },
            None => {},
        }
    }
    value.to_owned()
}

/// Fields as they are shown below the headline.
pub open spec fn pair_texts(pairs: Seq<Pair>) -> Seq<Seq<char>> {
    Seq::new(pairs.len(), |i: int| pairs[i].0 + "="@ + value_text(pairs[i].0, pairs[i].1))
}

/// Identifiers as they are shown aside.
pub open spec fn id_texts(pairs: Seq<Pair>) -> Seq<Seq<char>> {
    Seq::new(pairs.len(), |i: int| pairs[i].0 + "="@ + pairs[i].1)
}

fn render_pairs(pairs: &Vec<(String, String)>) -> (texts: Vec<String>)
    ensures
        views(texts@) == pair_texts(entry_views(pairs@)),
{
    let mut texts: Vec<String> = Vec::new();
    let mut i: usize = 0;
    while i < pairs.len()
        invariant
            i <= pairs.len(),
            texts.len() == i,
            forall|k: int| 0 <= k < i ==> (#[trigger] texts@[k])@ == pair_texts(entry_views(pairs@))[k],
        decreases pairs.len() - i,
    {
        let value = format_value(pairs[i].0.as_str(), pairs[i].1.as_str());
        texts.push(pairs[i].0.clone().concat("=").concat(value.as_str()));
        i += 1;
    }
    assert(views(texts@) =~= pair_texts(entry_views(pairs@)));
    texts
}

fn render_ids(pairs: &Vec<(String, String)>) -> (texts: Vec<String>)
    ensures
        views(texts@) == id_texts(entry_views(pairs@)),
{
    let mut texts: Vec<String> = Vec::new();
    let mut i: usize = 0;
    while i < pairs.len()
        invariant
            i <= pairs.len(),
            texts.len() == i,
            forall|k: int| 0 <= k < i ==> (#[trigger] texts@[k])@ == id_texts(entry_views(pairs@))[k],
        decreases pairs.len() - i,
    {
        texts.push(pairs[i].0.clone().concat("=").concat(pairs[i].1.as_str()));
        i += 1;
    }
    assert(views(texts@) =~= id_texts(entry_views(pairs@)));
    texts
}

// ---------------------------------------------------------------------------
// Messages
// ---------------------------------------------------------------------------

/// A field, unless it is empty.
pub open spec fn filled_field(fields: Seq<Pair>, key: Seq<char>) -> Option<Seq<char>> {
    match lookup(fields, key) {
        Some(value) => if value.len() > 0 {
            Some(value)
        } else {
            None
        },
        None => None,
    }
}

/// The headline of an event: an emoji, its name, and its message, as far as there are any.
pub open spec fn headline_text(event: Seq<char>, fields: Seq<Pair>) -> Seq<char> {
    match (filled_field(fields, "emoji"@), filled_field(fields, "message"@)) {
        (Some(emoji), Some(message)) => emoji + " *"@ + event + "* — "@ + message,
        (Some(emoji), None) => emoji + " *"@ + event + "*"@,
        (None, Some(message)) => "*"@ + event + "* — "@ + message,
        (None, None) => "*"@ + event + "*"@,
    }
}

fn get_filled<'a>(fields: &'a StringMap, key: &str) -> (value: Option<&'a str>)
    ensures
        match value {
            Some(value) => filled_field(fields@, key@) == Some(value@),
            None => filled_field(fields@, key@) is None,
        },
{
    match fields.get(key) {
        Some(value) => if value.is_empty() {
            None
        } else {
            Some(value)
        },
        None => None,
    }
}

/// The headline of an event.
pub fn headline(event_name: &str, fields: &StringMap) -> (text: String)
    ensures
        text@ == headline_text(event_name@, fields@),
{
    match (get_filled(fields, "emoji"), get_filled(fields, "message")) {
        (Some(emoji), Some(message)) => emoji.to_owned().concat(" *").concat(event_name).concat(
            "* — ",
        ).concat(message),
        (Some(emoji), None) => emoji.to_owned().concat(" *").concat(event_name).concat("*"),
        (None, Some(message)) => "*".to_owned().concat(event_name).concat("* — ").concat(message),
        (None, None) => "*".to_owned().concat(event_name).concat("*"),
    }
}

/// A headline, and below it the fields that are meant.
pub open spec fn message_text(pick: Pick, event: Seq<char>, fields: Seq<Pair>) -> Seq<char> {
    let shown = in_order(picked(pick, fields));
    if shown.len() == 0 {
        headline_text(event, fields)
    } else {
        headline_text(event, fields) + "\n"@ + joined(pair_texts(shown), ", "@)
    }
}

fn render_message(pick: Pick, event_name: &str, fields: &StringMap) -> (text: String)
    ensures
        text@ == message_text(pick, event_name@, fields@),
{
    let head = headline(event_name, fields);
    let shown = pick_in_order(pick, fields);
    assert(entry_views(shown@).len() == shown@.len());
    if shown.len() == 0 {
        head
    } else {
        let texts = render_pairs(&shown);
        head.concat("\n").concat(join(&texts, ", ").as_str())
    }
}

/// An event as one line of a batch.
pub open spec fn line_text(event: Seq<char>, fields: Seq<Pair>) -> Seq<char> {
    message_text(Pick::All, event, fields)
}

/// An event as one line of a batch.
pub fn format_line(event_name: &str, fields: &StringMap) -> (text: String)
    ensures
        text@ == line_text(event_name@, fields@),
{
    render_message(Pick::All, event_name, fields)
}

/// A block that shows a text, named after an event.
pub open spec fn named_block(event: Seq<char>, text: Seq<char>) -> JsonView {
    JsonView::Object(
        fields().push(("type"@, JsonView::Text("section"@))).push(("text"@, mrkdwn(text))).push(
            ("block_id"@, JsonView::Text("notify-"@ + event)),
        ),
    )
}

fn named_json(event_name: &str, text: &str) -> (json: Json)
    ensures
        json@ == named_block(event_name@, text@),
{
    let mut members = no_members();
    put_text(&mut members, "type", "section");
    put(&mut members, "text", mrkdwn_json(text));
    put_text(&mut members, "block_id", "notify-".to_owned().concat(event_name).as_str());
    Json::object(members)
}

/// The blocks of an event that goes out by itself: its headline with the fields that matter,
/// and aside, if there are any, its identifiers.
pub open spec fn event_json(event: Seq<char>, fields: Seq<Pair>) -> JsonView {
    let section = Seq::empty().push(
        named_block(event, message_text(Pick::Signal, event, fields)),
    );
    let ids = in_order(picked(Pick::Ids, fields));
    JsonView::Array(
        if ids.len() == 0 {
            section
        } else {
            section.push(context_block(joined(id_texts(ids), "  ·  "@)))
        },
    )
}

/// The blocks of an event that goes out by itself.
pub fn event_blocks(event_name: &str, fields: &StringMap) -> (blocks: Json)
    ensures
        blocks@ == event_json(event_name@, fields@),
{
    let text = render_message(Pick::Signal, event_name, fields);
    let mut blocks: Vec<Json> = Vec::new();
    blocks.push(named_json(event_name, text.as_str()));
    let ids = pick_in_order(Pick::Ids, fields);
    assert(entry_views(ids@).len() == ids@.len());
    let ghost section = Seq::empty().push(
        named_block(event_name@, message_text(Pick::Signal, event_name@, fields@)),
    );
    assert(item_views(blocks@) =~= section);
    if ids.len() > 0 {
        let texts = render_ids(&ids);
        let aside = join(&texts, "  ·  ");
        blocks.push(context_json(aside.as_str()));
        assert(item_views(blocks@) =~= section.push(context_block(aside@)));
    }
    Json::array(blocks)
}

/// The blocks of a batch.
pub open spec fn line_json(event: Seq<char>, line: Seq<char>) -> JsonView {
    JsonView::Array(Seq::empty().push(named_block(event, line)))
}

/// The blocks of a batch.
pub fn single_line_blocks(event_name: &str, line: &str) -> (blocks: Json)
    ensures
        blocks@ == line_json(event_name@, line@),
{
    let mut blocks: Vec<Json> = Vec::new();
    blocks.push(named_json(event_name, line));
    assert(item_views(blocks@) =~= Seq::empty().push(named_block(event_name@, line@)));
    Json::array(blocks)
}

/// The texts of the lines of a batch.
pub open spec fn line_texts(lines: Seq<BatchedLine>) -> Seq<Seq<char>> {
    Seq::new(lines.len(), |i: int| lines[i].text@)
}

/// The lines of a batch, each with a bullet.
pub open spec fn bulleted(lines: Seq<Seq<char>>) -> Seq<Seq<char>> {
    Seq::new(lines.len(), |i: int| "• "@ + lines[i])
}

/// A batch: how many events there are, and a line for each.
pub open spec fn batch_text(event: Seq<char>, lines: Seq<Seq<char>>) -> Seq<char> {
    "*"@ + event + "* — batched x"@ + decimal(lines.len()) + "\n"@ + joined(bulleted(lines), "\n"@)
}

/// A batch: how many events there are, and a line for each.
pub fn format_batch(event_name: &str, lines: &[BatchedLine]) -> (text: String)
    ensures
        text@ == batch_text(event_name@, line_texts(lines@)),
{
    let mut texts: Vec<String> = Vec::new();
    let mut i: usize = 0;
    while i < lines.len()
        invariant
            i <= lines.len(),
            texts.len() == i,
            forall|k: int| 0 <= k < i ==> (#[trigger] texts@[k])@ == bulleted(line_texts(lines@))[k],
        decreases lines.len() - i,
    {
        texts.push("• ".to_owned().concat(lines[i].text.as_str()));
        i += 1;
    }
    assert(views(texts@) =~= bulleted(line_texts(lines@)));
    "*".to_owned().concat(event_name).concat("* — batched x").concat(
        render_decimal(lines.len() as u64).as_str(),
    ).concat("\n").concat(join(&texts, "\n").as_str())
}

// ---------------------------------------------------------------------------
// Laws
// ---------------------------------------------------------------------------

/// What is picked is meant, and was there.
proof fn lemma_picked(pick: Pick, pairs: Seq<Pair>)
    ensures
        forall|i: int|
            0 <= i < picked(pick, pairs).len() ==> is_picked(
                pick,
                (#[trigger] picked(pick, pairs)[i]).0,
            ) && pairs.contains(picked(pick, pairs)[i]),
    decreases pairs.len(),
{
    if pairs.len() > 0 {
        lemma_picked(pick, pairs.drop_last());
        let front = picked(pick, pairs.drop_last());
        let all = picked(pick, pairs);
        assert forall|i: int| 0 <= i < all.len() implies is_picked(pick, (#[trigger] all[i]).0)
            && pairs.contains(all[i]) by {
            if i < front.len() {
                assert(all[i] == front[i]);
                let j = choose|j: int|
                    0 <= j < pairs.drop_last().len() && pairs.drop_last()[j] == front[i];
                assert(pairs[j] == all[i]);
            } else {
                assert(pairs[pairs.len() - 1] == all[i]);
            }
        }
    }
}

pub(crate) proof fn lemma_picked_distinct(pick: Pick, pairs: Seq<Pair>)
    requires
        distinct_keys(pairs),
    ensures
        distinct_keys(picked(pick, pairs)),
    decreases pairs.len(),
{
    if pairs.len() > 0 {
        let rest = pairs.drop_last();
        assert(distinct_keys(rest)) by {
            assert forall|i: int, j: int| 0 <= i < j < rest.len() implies rest[i].0
                != rest[j].0 by {
                assert(rest[i] == pairs[i] && rest[j] == pairs[j]);
            }
        }
        lemma_picked_distinct(pick, rest);
        lemma_picked(pick, rest);
        let front = picked(pick, rest);
        let all = picked(pick, pairs);
        assert forall|i: int, j: int| 0 <= i < j < all.len() implies all[i].0 != all[j].0 by {
            if j == front.len() {
                assert(rest.contains(front[i]));
                let k = choose|k: int| 0 <= k < rest.len() && rest[k] == front[i];
                assert(pairs[k] == front[i] && pairs[pairs.len() - 1] == all[j]);
            }
        }
    }
}

/// What is shown below a headline is in order, and never the plumbing of a request nor what
/// the headline shows already.
pub proof fn shown_fields_are_in_order_and_no_plumbing(pick: Pick, fields: Seq<Pair>)
    requires
        distinct_keys(fields),
    ensures
        is_in_order(in_order(picked(pick, fields))),
        forall|i: int|
            0 <= i < in_order(picked(pick, fields)).len() ==> is_picked(
                pick,
                (#[trigger] in_order(picked(pick, fields))[i]).0,
            ),
{
    broadcast use vstd::seq_lib::group_to_multiset_ensures;

    let meant = picked(pick, fields);
    lemma_picked_distinct(pick, fields);
    lemma_picked(pick, fields);
    ordering_keeps_the_fields(meant);
    let shown = in_order(meant);
    assert forall|i: int| 0 <= i < shown.len() implies is_picked(pick, (#[trigger] shown[i]).0) by {
        assert(shown.to_multiset().contains(shown[i]));
        assert(meant.contains(shown[i]));
        let j = choose|j: int| 0 <= j < meant.len() && meant[j] == shown[i];
        assert(is_picked(pick, meant[j].0));
    }
}

/// Whom an event is about is shown first, and identifiers after everything else.
pub proof fn identity_leads_and_identifiers_trail(fields: Seq<Pair>, i: int, j: int)
    requires
        distinct_keys(fields),
        0 <= i < j < in_order(picked(Pick::All, fields)).len(),
    ensures
        ({
            let shown = in_order(picked(Pick::All, fields));
            &&& shown[j].0 != "user_email"@
            &&& names_id(shown[i].0) && shown[i].0 != "user_email"@ ==> names_id(shown[j].0)
        }),
{
    shown_fields_are_in_order_and_no_plumbing(Pick::All, fields);
    let shown = in_order(picked(Pick::All, fields));
    assert(shown_before(shown[i].0, shown[j].0));
    if shown[j].0 == "user_email"@ {
        lemma_lex_total(shown[i].0, shown[j].0);
    }
}

} // verus!
