//! What is remembered between events.

use vstd::prelude::*;

use crate::clock::Duration;
use crate::iam::key_set::elapsed;
use crate::notify::visit::{NotifyVisitor, VisitView, EVENT_FIELD};
use crate::string_map::{
    distinct_keys, inserted, lemma_index_unique, lemma_inserted_distinct, lemma_pair_index, lookup,
    lookup_after_insert, pair_index, Pair, StringMap,
};
use crate::text::{same, views};

verus! {

// ---------------------------------------------------------------------------
// Spans
// ---------------------------------------------------------------------------

/// The fields of a span, which the events inside it inherit.
#[derive(Debug)]
pub struct SpanFields {
    /// The fields.
    pub fields: StringMap,
}

/// The fields that a visit adds to those of a span: each in its place, and the event's name
/// as a field like the others.
pub open spec fn span_with(fields: Seq<Pair>, visit: VisitView) -> Seq<Pair> {
    let merged = overlaid(fields, visit.fields);
    match visit.event_name {
        Some(name) => inserted(merged, EVENT_FIELD@, name),
        None => merged,
    }
}

/// `below` with the pairs of `above` on top: a key of both has the value of `above`.
pub open spec fn overlaid(below: Seq<Pair>, above: Seq<Pair>) -> Seq<Pair>
    decreases above.len(),
{
    if above.len() == 0 {
        below
    } else {
        inserted(overlaid(below, above.drop_last()), above.last().0, above.last().1)
    }
}

/// `below` with the pairs of `above` on top.
pub fn overlay(below: StringMap, above: &StringMap) -> (merged: StringMap)
    ensures
        merged@ == overlaid(below@, above@),
{
    let ghost base = below@;
    let mut merged = below;
    let mut i: usize = 0;
    assert(above@.take(0) =~= Seq::<Pair>::empty());
    while i < above.len()
        invariant
            i <= above@.len(),
            merged@ == overlaid(base, above@.take(i as int)),
        decreases above@.len() - i,
    {
        proof {
            assert(above@.take(i + 1).drop_last() =~= above@.take(i as int));
            assert(above@.take(i + 1).last() == above@[i as int]);
        }
        merged = merged.with(above.key_at(i), above.value_at(i));
        i += 1;
    }
    assert(above@.take(i as int) =~= above@);
    merged
}

impl SpanFields {
    /// A span without fields.
    pub fn new() -> (span: Self)
        ensures
            span.fields@ == Seq::<Pair>::empty(),
    {
        SpanFields { fields: StringMap::new() }
    }

    /// The span after some of its fields were recorded, at its start or later.
    pub fn with_visit(self, visit: NotifyVisitor) -> (span: Self)
        ensures
            span.fields@ == span_with(self.fields@, visit@),
    {
        let merged = overlay(self.fields, &visit.fields);
        match visit.event_name {
            Some(name) => SpanFields { fields: merged.with(EVENT_FIELD, name.as_str()) },
            None => SpanFields { fields: merged },
        }
    }
}

/// The fields of an event inside spans, the outermost first: an inner field goes on top of
/// an outer one, and the event's own on top of all.
pub open spec fn inherited(spans: Seq<Seq<Pair>>, own: Seq<Pair>) -> Seq<Pair> {
    overlaid(stacked(spans), own)
}

/// The fields of spans, one on top of the other.
pub open spec fn stacked(spans: Seq<Seq<Pair>>) -> Seq<Pair>
    decreases spans.len(),
{
    if spans.len() == 0 {
        Seq::empty()
    } else {
        overlaid(stacked(spans.drop_last()), spans.last())
    }
}

/// What a list of spans is.
pub open spec fn span_views(spans: Seq<SpanFields>) -> Seq<Seq<Pair>> {
    Seq::new(spans.len(), |i: int| spans[i].fields@)
}

/// The fields of an event inside spans, the outermost first.
pub fn merge_fields(spans: &Vec<SpanFields>, own: &StringMap) -> (merged: StringMap)
    ensures
        merged@ == inherited(span_views(spans@), own@),
{
    let ghost all = span_views(spans@);
    let mut merged = StringMap::new();
    let mut i: usize = 0;
    assert(all.take(0) =~= Seq::<Seq<Pair>>::empty());
    while i < spans.len()
        invariant
            i <= spans.len(),
            all == span_views(spans@),
            merged@ == stacked(all.take(i as int)),
        decreases spans.len() - i,
    {
        proof {
            assert(all.take(i + 1).drop_last() =~= all.take(i as int));
            assert(all.take(i + 1).last() == spans@[i as int].fields@);
        }
        merged = overlay(merged, &spans[i].fields);
        i += 1;
    }
    assert(all.take(i as int) =~= all);
    overlay(merged, own)
}

pub(crate) proof fn lemma_overlaid_distinct(below: Seq<Pair>, above: Seq<Pair>)
    requires
        distinct_keys(below),
    ensures
        distinct_keys(overlaid(below, above)),
    decreases above.len(),
{
    if above.len() > 0 {
        lemma_overlaid_distinct(below, above.drop_last());
        lemma_inserted_distinct(
            overlaid(below, above.drop_last()),
            above.last().0,
            above.last().1,
        );
    }
}

/// A field of what lies on top hides the one of its name below, and every other field below
/// is seen.
pub proof fn the_top_wins(below: Seq<Pair>, above: Seq<Pair>, key: Seq<char>)
    requires
        distinct_keys(below),
        distinct_keys(above),
    ensures
        lookup(overlaid(below, above), key) == match lookup(above, key) {
            Some(value) => Some(value),
            None => lookup(below, key),
        },
    decreases above.len(),
{
    if above.len() > 0 {
        let front = above.drop_last();
        let last = above.last();
        assert(distinct_keys(front)) by {
            assert forall|i: int, j: int| 0 <= i < j < front.len() implies front[i].0
                != front[j].0 by {
                assert(front[i] == above[i] && front[j] == above[j]);
            }
        }
        the_top_wins(below, front, key);
        lemma_overlaid_distinct(below, front);
        lookup_after_insert(overlaid(below, front), last.0, last.1, key);
        lemma_pair_index(front, key);
        lemma_pair_index(above, key);
        let at = pair_index(above, key);
        let was = pair_index(front, key);
        if key == last.0 {
            lemma_index_unique(above, above.len() - 1);
        } else if at < above.len() {
            assert(above[at].0 == key);
            assert(front[at] == above[at]);
            lemma_index_unique(front, at);
        } else if was < front.len() {
            assert(above[was] == front[was]);
        }
    }
}

// ---------------------------------------------------------------------------
// Repeats
// ---------------------------------------------------------------------------

/// The value of a field, or nothing when it is missing.
pub open spec fn field_or_empty(fields: Seq<Pair>, key: Seq<char>) -> Seq<char> {
    match lookup(fields, key) {
        Some(value) => value,
        None => Seq::empty(),
    }
}

/// The values of some fields, with a NUL between.
pub open spec fn key_values(keys: Seq<Seq<char>>, fields: Seq<Pair>) -> Seq<char>
    decreases keys.len(),
{
    if keys.len() == 0 {
        Seq::empty()
    } else if keys.len() == 1 {
        field_or_empty(fields, keys[0])
    } else {
        key_values(keys.drop_last(), fields).push('\0') + field_or_empty(fields, keys.last())
    }
}

/// By what an event is the repeat of another: its name, and the values of some fields.
pub fn build_dedup_key(event_name: &str, keys: &[String], fields: &StringMap) -> (key: (
    String,
    String,
))
    ensures
        key.0@ == event_name@,
        key.1@ == key_values(views(keys@), fields@),
{
    let mut values = String::new();
    let ghost all = views(keys@);
    let mut i: usize = 0;
    while i < keys.len()
        invariant
            i <= keys.len(),
            all == views(keys@),
            values@ == key_values(all.take(i as int), fields@),
        decreases keys.len() - i,
    {
        let ghost before = values@;
        if i > 0 {
            values.push('\0');
        }
        match fields.get(keys[i].as_str()) {
            Some(value) => values.append(value),
            None => {},
        }
        proof {
            assert(all.take(i + 1).drop_last() =~= all.take(i as int));
            assert(all.take(i + 1).last() == keys@[i as int]@);
            if i == 0 {
                assert(values@ =~= field_or_empty(fields@, keys@[0]@));
            } else {
                assert(values@ =~= before.push('\0') + field_or_empty(
                    fields@,
                    keys@[i as int]@,
                ));
            }
        }
        i += 1;
    }
    assert(all.take(i as int) =~= all);
    (event_name.to_owned(), values)
}

proof fn lemma_last_nul(a: Seq<char>, x: Seq<char>, b: Seq<char>, y: Seq<char>)
    requires
        a.push('\0') + x == b.push('\0') + y,
        !x.contains('\0'),
        !y.contains('\0'),
    ensures
        a == b,
        x == y,
{
    let whole = a.push('\0') + x;
    assert(whole.len() == a.len() + 1 + x.len());
    assert((b.push('\0') + y).len() == b.len() + 1 + y.len());
    if a.len() < b.len() {
        assert(whole[b.len() as int] == '\0');
        assert(whole[b.len() as int] == x[b.len() - a.len() - 1]);
        assert(x.contains(x[b.len() - a.len() - 1]));
    } else if b.len() < a.len() {
        assert((b.push('\0') + y)[a.len() as int] == '\0');
        assert((b.push('\0') + y)[a.len() as int] == y[a.len() - b.len() - 1]);
        assert(y.contains(y[a.len() - b.len() - 1]));
    }
    assert(a =~= b) by {
        assert forall|i: int| 0 <= i < a.len() implies a[i] == b[i] by {
            assert(whole[i] == a[i]);
            assert((b.push('\0') + y)[i] == b[i]);
        }
    }
    assert(x =~= y) by {
        assert forall|i: int| 0 <= i < x.len() implies x[i] == y[i] by {
            assert(whole[a.len() + 1 + i] == x[i]);
            assert((b.push('\0') + y)[b.len() + 1 + i] == y[i]);
        }
    }
}

/// Two events have the same key only when they agree in each of the fields: where one value
/// ends and the next begins is never in doubt, as long as no value holds a NUL itself.
pub proof fn different_fields_have_different_keys(
    keys: Seq<Seq<char>>,
    a: Seq<Pair>,
    b: Seq<Pair>,
    i: int,
)
    requires
        forall|k: int|
            0 <= k < keys.len() ==> !field_or_empty(a, #[trigger] keys[k]).contains('\0')
                && !field_or_empty(b, keys[k]).contains('\0'),
        key_values(keys, a) == key_values(keys, b),
        0 <= i < keys.len(),
    ensures
        field_or_empty(a, keys[i]) == field_or_empty(b, keys[i]),
    decreases keys.len(),
{
    if keys.len() > 1 {
        assert(!field_or_empty(a, keys[keys.len() - 1]).contains('\0'));
        lemma_last_nul(
            key_values(keys.drop_last(), a),
            field_or_empty(a, keys.last()),
            key_values(keys.drop_last(), b),
            field_or_empty(b, keys.last()),
        );
        if i < keys.len() - 1 {
            assert forall|k: int| 0 <= k < keys.drop_last().len() implies !field_or_empty(
                a,
                #[trigger] keys.drop_last()[k],
            ).contains('\0') && !field_or_empty(b, keys.drop_last()[k]).contains('\0') by {
                assert(keys.drop_last()[k] == keys[k]);
            }
            different_fields_have_different_keys(keys.drop_last(), a, b, i);
            assert(keys.drop_last()[i] == keys[i]);
        }
    }
}

/// A key by which an event is the repeat of another.
pub type DedupKey = (Seq<char>, Seq<char>);

/// When the events of a key last went out.
#[derive(Debug)]
pub struct Sighting {
    name: String,
    values: String,
    at: Duration,
}

/// When keys last went out.
#[derive(Debug)]
pub struct DedupTable {
    entries: Vec<Sighting>,
}

/// The first position of a key, or the number of entries.
pub open spec fn sighting_index(entries: Seq<(DedupKey, nat)>, key: DedupKey) -> int
    decreases entries.len(),
{
    if entries.len() == 0 {
        0
    } else if entries[0].0 == key {
        0
    } else {
        1 + sighting_index(entries.skip(1), key)
    }
}

/// When a key last went out.
pub open spec fn last_sighting(entries: Seq<(DedupKey, nat)>, key: DedupKey) -> Option<nat> {
    let at = sighting_index(entries, key);
    if 0 <= at < entries.len() {
        Some(entries[at].1)
    } else {
        None
    }
}

/// When keys last went out, after one did now.
pub open spec fn sighted(entries: Seq<(DedupKey, nat)>, key: DedupKey, now: nat) -> Seq<
    (DedupKey, nat),
> {
    let at = sighting_index(entries, key);
    if 0 <= at < entries.len() {
        entries.update(at, (key, now))
    } else {
        entries.push((key, now))
    }
}

/// Whether an event is a repeat: its key went out less than the window ago.
pub open spec fn is_repeat(
    entries: Seq<(DedupKey, nat)>,
    key: DedupKey,
    window: nat,
    now: nat,
) -> bool {
    last_sighting(entries, key) matches Some(at) && elapsed(at, now) < window
}

proof fn lemma_sighting_index(entries: Seq<(DedupKey, nat)>, key: DedupKey)
    ensures
        0 <= sighting_index(entries, key) <= entries.len(),
        sighting_index(entries, key) < entries.len() ==> entries[sighting_index(entries, key)].0
            == key,
        forall|k: int| 0 <= k < sighting_index(entries, key) ==> entries[k].0 != key,
    decreases entries.len(),
{
    if entries.len() > 0 && entries[0].0 != key {
        lemma_sighting_index(entries.skip(1), key);
        assert forall|k: int| 0 <= k < sighting_index(entries, key) implies entries[k].0
            != key by {
            if k > 0 {
                assert(entries.skip(1)[k - 1] == entries[k]);
            }
        }
    }
}

/// An event that went out makes every event of its key a repeat until the window is over,
/// and no event of another key.
pub proof fn repeats_are_told_by_their_key(
    entries: Seq<(DedupKey, nat)>,
    key: DedupKey,
    other: DedupKey,
    at: nat,
    window: nat,
    now: nat,
)
    ensures
        is_repeat(sighted(entries, key, at), key, window, now) == (elapsed(at, now) < window),
        other != key ==> is_repeat(sighted(entries, key, at), other, window, now) == is_repeat(
            entries,
            other,
            window,
            now,
        ),
{
    let after = sighted(entries, key, at);
    lemma_sighting_index(entries, key);
    lemma_sighting_index(after, key);
    let spot = sighting_index(entries, key);
    let found = sighting_index(after, key);
    assert(after[spot] == (key, at));
    if found < spot {
        assert(after[found] == entries[found]);
    }
    if other != key {
        lemma_sighting_index(entries, other);
        lemma_sighting_index(after, other);
        let was = sighting_index(entries, other);
        let is = sighting_index(after, other);
        if was < entries.len() {
            assert(after[was] == entries[was]);
            if is < was {
                assert(is != spot);
                assert(after[is] == entries[is]);
            }
        } else if is < after.len() {
            assert(is != spot);
            assert(after[is] == entries[is]);
        }
    }
}

impl View for DedupTable {
    type V = Seq<(DedupKey, nat)>;

    closed spec fn view(&self) -> Seq<(DedupKey, nat)> {
        Seq::new(
            self.entries@.len(),
            |i: int| ((self.entries@[i].name@, self.entries@[i].values@), self.entries@[i].at@),
        )
    }
}

impl DedupTable {
    /// Nothing went out yet.
    pub fn new() -> (table: Self)
        ensures
            table@ == Seq::<(DedupKey, nat)>::empty(),
    {
        let table = DedupTable { entries: Vec::new() };
        assert(table@ =~= Seq::<(DedupKey, nat)>::empty());
        table
    }

    fn position(&self, name: &str, values: &str) -> (at: usize)
        ensures
            at == sighting_index(self@, (name@, values@)),
            at <= self.entries.len(),
    {
        let ghost key = (name@, values@);
        proof {
            lemma_sighting_index(self@, key);
        }
        let mut i: usize = 0;
        while i < self.entries.len()
            invariant
                i <= self.entries.len(),
                key == (name@, values@),
                self@.len() == self.entries.len(),
                0 <= sighting_index(self@, key) <= self@.len(),
                sighting_index(self@, key) < self@.len() ==> self@[sighting_index(self@, key)].0
                    == key,
                forall|k: int| 0 <= k < sighting_index(self@, key) ==> self@[k].0 != key,
                forall|k: int| 0 <= k < i ==> self@[k].0 != key,
            decreases self.entries.len() - i,
        {
            if same(self.entries[i].name.as_str(), name) && same(
                self.entries[i].values.as_str(),
                values,
            ) {
                assert(self@[i as int].0 == key);
                return i;
            }
            assert(self@[i as int].0 != key);
            i += 1;
        }
        i
    }

    /// Whether an event goes out: it does unless it is a repeat, and is noted when it does.
    pub fn let_through(&mut self, name: &str, values: &str, window: Duration, now: Duration) -> (admitted:
        bool)
        ensures
            admitted == !is_repeat(old(self)@, (name@, values@), window@, now@),
            final(self)@ == if admitted {
                sighted(old(self)@, (name@, values@), now@)
            } else {
                old(self)@
            },
    {
        let at: usize = self.position(name, values);
        let ghost before = self@;
        let ghost key = (name@, values@);
        if at < self.entries.len() {
            assert(before[at as int].1 == self.entries@[at as int].at@);
            if now.less(self.entries[at].at).shorter_than(window) {
                return false;
            }
            let entry = Sighting { name: name.to_owned(), values: values.to_owned(), at: now };
            self.entries.set(at, entry);
            assert(self@ =~= before.update(at as int, (key, now@)));
        } else {
            let entry = Sighting { name: name.to_owned(), values: values.to_owned(), at: now };
            self.entries.push(entry);
            assert(self@ =~= before.push((key, now@)));
        }
        true
    }
}

// ---------------------------------------------------------------------------
// Batches
// ---------------------------------------------------------------------------

/// A line that waits for the next message.
#[derive(Debug)]
pub struct BatchedLine {
    /// Since when it waits.
    pub queued_at: Duration,
    /// The line.
    pub text: String,
}

/// The lines that wait for the next message of one kind of event.
#[derive(Debug)]
pub struct BatchBuffer {
    /// Where the message goes.
    pub channel: String,
    /// For how long lines are gathered.
    pub interval: Duration,
    /// The lines.
    pub lines: Vec<BatchedLine>,
}

impl BatchBuffer {
    /// No lines yet.
    pub fn new(channel: &str, interval: Duration) -> (buffer: Self)
        ensures
            buffer.channel@ == channel@,
            buffer.interval@ == interval@,
            buffer.lines@ == Seq::<BatchedLine>::empty(),
    {
        BatchBuffer { channel: channel.to_owned(), interval, lines: Vec::new() }
    }
}

} // verus!
