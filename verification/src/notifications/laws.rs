//! What holds of every alert: which errors are alerted, how often, and in which words.

use vstd::prelude::*;

use crate::clock::Duration;
use crate::digits::decimal;
use crate::json::{group_find_member, JsonView};
use crate::keyed::{lemma_key_position, value_after_put, value_of};
use crate::notifications::error_layer::{
    all_alerted, all_lines, byte_length, context_line, digest_blocks, digest_intro, due_entries,
    entry_lines, entry_list, entry_position, entry_text, error_key, field_lines, first_chars,
    fitting, goes_by_email, goes_to_slack, grouped, is_due, last_minute, shown_pairs, times_sent,
    truncated, ChannelsView, Decision, Dispatcher, EntryView, EventView, LastAlerts,
};
use crate::string_map::Pair;
use crate::text_laws::{between, holds};

verus! {

// ---------------------------------------------------------------------------
// When errors are due
// ---------------------------------------------------------------------------

/// An error that was alerted is due again exactly when its window is over, however long ago
/// that is; one that was not alerted with the others is due as it was before.
pub proof fn errors_are_due_again_after_their_window(
    last: LastAlerts,
    entries: Seq<EntryView>,
    key: Seq<char>,
    at: Duration,
    window: nat,
    now: nat,
)
    requires
        at@ <= now,
    ensures
        (exists|i: int| 0 <= i < entries.len() && (#[trigger] entries[i]).key == key) ==> (is_due(
            all_alerted(last, entries, at),
            key,
            window,
            now,
        ) <==> now - at@ >= window),
        (forall|i: int| 0 <= i < entries.len() ==> (#[trigger] entries[i]).key != key) ==> is_due(
            all_alerted(last, entries, at),
            key,
            window,
            now,
        ) == is_due(last, key, window, now),
    decreases entries.len(),
{
    lemma_alerted(last, entries, key, at);
}

proof fn lemma_alerted(last: LastAlerts, entries: Seq<EntryView>, key: Seq<char>, at: Duration)
    ensures
        (exists|i: int| 0 <= i < entries.len() && (#[trigger] entries[i]).key == key) ==> value_of(
            all_alerted(last, entries, at),
            key,
        ) == Some(at),
        (forall|i: int| 0 <= i < entries.len() ==> (#[trigger] entries[i]).key != key) ==> value_of(
            all_alerted(last, entries, at),
            key,
        ) == value_of(last, key),
    decreases entries.len(),
{
    if entries.len() > 0 {
        let before = entries.drop_last();
        lemma_alerted(last, before, key, at);
        value_after_put(all_alerted(last, before, at), entries.last().key, at, key);
        assert(entries.last() == entries[entries.len() - 1]);
        if exists|i: int| 0 <= i < entries.len() && (#[trigger] entries[i]).key == key {
            let i = choose|i: int| 0 <= i < entries.len() && (#[trigger] entries[i]).key == key;
            if i < before.len() {
                assert(before[i].key == key);
            }
        }
    }
}

/// Once due, an error stays due until it is alerted.
pub proof fn due_errors_stay_due(
    last: LastAlerts,
    key: Seq<char>,
    window: nat,
    now: nat,
    later: nat,
)
    requires
        now <= later,
        is_due(last, key, window, now),
    ensures
        is_due(last, key, window, later),
{
}

/// When an error is due depends on when it was last alerted, which is the time that stands
/// first beside its key.
pub proof fn alerts_are_remembered_by_key(
    last: LastAlerts,
    key: Seq<char>,
    at: int,
    window: nat,
    now: nat,
)
    ensures
        0 <= at < last.len() && last[at].0 == key && (forall|k: int|
            0 <= k < at ==> (#[trigger] last[k]).0 != key) && last[at].1@ <= now ==> (is_due(
            last,
            key,
            window,
            now,
        ) <==> now - last[at].1@ >= window),
        (forall|k: int| 0 <= k < last.len() ==> (#[trigger] last[k]).0 != key) ==> is_due(
            last,
            key,
            window,
            now,
        ),
{
    lemma_key_position(last, key);
}

/// The errors that are alerted are those that are due, in their order, and no others.
pub proof fn due_errors_are_alerted(
    entries: Seq<EntryView>,
    last: LastAlerts,
    window: nat,
    now: nat,
)
    ensures
        due_entries(entries, last, window, now) == entries.filter(
            |entry: EntryView| is_due(last, entry.key, window, now),
        ),
    decreases entries.len(),
{
    reveal(Seq::filter);
    if entries.len() > 0 {
        due_errors_are_alerted(entries.drop_last(), last, window, now);
    }
    assert(due_entries(entries, last, window, now) =~= entries.filter(
        |entry: EntryView| is_due(last, entry.key, window, now),
    ));
}

/// The messages that count are those of the last sixty seconds, in their order.
pub proof fn messages_count_for_a_minute(sends: Seq<Duration>, now: nat)
    ensures
        last_minute(sends, now) == sends.filter(
            |at: Duration| at@ > now || now - at@ < 60_000_000_000,
        ),
    decreases sends.len(),
{
    reveal(Seq::filter);
    if sends.len() > 0 {
        messages_count_for_a_minute(sends.drop_last(), now);
    }
    assert(last_minute(sends, now) =~= sends.filter(
        |at: Duration| at@ > now || now - at@ < 60_000_000_000,
    ));
}

/// A digest goes out on every channel that there is, while the limit leaves room: to Slack
/// first, and by email when there is room for that too. Each counts as one message, sent now.
pub proof fn digests_go_out_while_there_is_room(channels: ChannelsView, room: int, now: Duration)
    requires
        room >= 1,
    ensures
        goes_to_slack(channels, room) <==> channels.slack,
        room >= 2 ==> (goes_by_email(channels, room) <==> channels.email),
        room == 1 ==> (goes_by_email(channels, room) <==> channels.email && !channels.slack),
        !goes_to_slack(channels, 0),
        !goes_by_email(channels, 0),
        ({
            let sent = times_sent(
                goes_to_slack(channels, room),
                goes_by_email(channels, room),
                now,
            );
            &&& sent.len() <= room
            &&& sent.len() == (if goes_to_slack(channels, room) { 1int } else { 0 }) + (
            if goes_by_email(channels, room) { 1int } else { 0 })
            &&& forall|i: int| 0 <= i < sent.len() ==> #[trigger] sent[i] == now
        }),
{
}

// ---------------------------------------------------------------------------
// Which errors count as one
// ---------------------------------------------------------------------------

/// Errors of one target count as one exactly when their messages agree in the first eighty
/// characters.
pub proof fn errors_are_told_apart_by_their_beginning(a: EventView, b: EventView)
    requires
        a.target == b.target,
    ensures
        error_key(a) == error_key(b) <==> (if a.message.len() <= 80 {
            a.message
        } else {
            a.message.take(80)
        }) == (if b.message.len() <= 80 {
            b.message
        } else {
            b.message.take(80)
        }),
{
    let head = a.target + "::"@;
    let x = first_chars(a.message, 80);
    let y = first_chars(b.message, 80);
    if head + x == head + y {
        assert((head + x).skip(head.len() as int) =~= x);
        assert((head + y).skip(head.len() as int) =~= y);
    }
}

/// A key begins with the target.
pub proof fn keys_begin_with_the_target(event: EventView)
    ensures
        event.target.is_prefix_of(error_key(event)),
        error_key(event).len() == event.target.len() + 2 + (if event.message.len() <= 80 {
            event.message.len() as int
        } else {
            80
        }),
{
    reveal_strlit("::");
    assert("::"@.len() == 2);
    assert(error_key(event).take(event.target.len() as int) =~= event.target);
}

/// How many events of a batch have a key.
pub open spec fn with_key(batch: Seq<EventView>, key: Seq<char>) -> Seq<EventView> {
    batch.filter(|event: EventView| error_key(event) == key)
}

/// Grouping makes one entry of the errors that count as one: each key that an error has stands
/// in exactly one entry, which counts the errors of that key and shows the first of them.
pub proof fn each_key_is_one_entry(batch: Seq<EventView>)
    ensures
        forall|i: int, j: int|
            0 <= i < j < grouped(batch).len() ==> grouped(batch)[i].key != grouped(batch)[j].key,
        forall|i: int|
            0 <= i < grouped(batch).len() ==> {
                let entry = #[trigger] grouped(batch)[i];
                let same = with_key(batch, entry.key);
                &&& same.len() > 0
                &&& entry.count == same.len()
                &&& entry.event == same[0]
                &&& error_key(entry.event) == entry.key
            },
        forall|k: int|
            0 <= k < batch.len() ==> exists|i: int|
                0 <= i < grouped(batch).len() && (#[trigger] grouped(batch)[i]).key == error_key(
                    #[trigger] batch[k],
                ),
    decreases batch.len(),
{
    reveal(Seq::filter);
    if batch.len() > 0 {
        let before = batch.drop_last();
        let event = batch.last();
        let key = error_key(event);
        each_key_is_one_entry(before);
        let old_entries = grouped(before);
        let entries = grouped(batch);
        lemma_position(old_entries, key);
        let at = entry_position(old_entries, key);
        assert forall|other: Seq<char>| #[trigger] with_key(batch, other) == if other == key {
            with_key(before, other).push(event)
        } else {
            with_key(before, other)
        } by {
            assert(with_key(batch, other) =~= if other == key {
                with_key(before, other).push(event)
            } else {
                with_key(before, other)
            });
        }
        if at < old_entries.len() {
            assert forall|i: int| 0 <= i < entries.len() implies ({
                let entry = #[trigger] entries[i];
                let same = with_key(batch, entry.key);
                &&& same.len() > 0
                &&& entry.count == same.len()
                &&& entry.event == same[0]
                &&& error_key(entry.event) == entry.key
            }) by {
                assert(old_entries[i].key == entries[i].key);
                assert(with_key(batch, entries[i].key).len() > 0);
                if i != at {
                    assert(old_entries[i].key != key);
                }
            }
            assert(entries[at].key == key);
        } else {
            lemma_no_such_event(before, key);
            assert(with_key(batch, key) =~= Seq::<EventView>::empty().push(event));
            assert forall|i: int| 0 <= i < entries.len() implies ({
                let entry = #[trigger] entries[i];
                let same = with_key(batch, entry.key);
                &&& same.len() > 0
                &&& entry.count == same.len()
                &&& entry.event == same[0]
                &&& error_key(entry.event) == entry.key
            }) by {
                if i < old_entries.len() {
                    assert(old_entries[i] == entries[i]);
                    assert(old_entries[i].key != key);
                    assert(with_key(batch, entries[i].key) == with_key(before, entries[i].key));
                }
            }
            assert(entries[old_entries.len() as int].key == key);
        }
        assert forall|k: int| 0 <= k < batch.len() implies exists|i: int|
            0 <= i < entries.len() && (#[trigger] entries[i]).key == error_key(
                #[trigger] batch[k],
            ) by {
            if k < before.len() {
                assert(before[k] == batch[k]);
                let i = choose|i: int|
                    0 <= i < old_entries.len() && (#[trigger] old_entries[i]).key == error_key(
                        before[k],
                    );
                assert(entries[i].key == old_entries[i].key);
            } else if at < old_entries.len() {
                assert(entries[at].key == error_key(batch[k]));
            } else {
                assert(entries[old_entries.len() as int].key == error_key(batch[k]));
            }
        }
    }
}

proof fn lemma_position(entries: Seq<EntryView>, key: Seq<char>)
    ensures
        0 <= entry_position(entries, key) <= entries.len(),
        entry_position(entries, key) < entries.len() ==> entries[entry_position(entries, key)].key
            == key,
        forall|k: int| 0 <= k < entry_position(entries, key) ==> (#[trigger] entries[k]).key != key,
    decreases entries.len(),
{
    if entries.len() > 0 && entries[0].key != key {
        lemma_position(entries.skip(1), key);
        assert forall|k: int| 0 <= k < entry_position(entries, key) implies (
        #[trigger] entries[k]).key != key by {
            if k > 0 {
                assert(entries.skip(1)[k - 1] == entries[k]);
            }
        }
    }
}

/// A key that no entry has is the key of no event.
proof fn lemma_no_such_event(batch: Seq<EventView>, key: Seq<char>)
    requires
        forall|i: int| 0 <= i < grouped(batch).len() ==> (#[trigger] grouped(batch)[i]).key != key,
    ensures
        with_key(batch, key) == Seq::<EventView>::empty(),
    decreases batch.len(),
{
    reveal(Seq::filter);
    if batch.len() > 0 {
        let before = batch.drop_last();
        let entries = grouped(batch);
        let old_entries = grouped(before);
        lemma_position(old_entries, error_key(batch.last()));
        assert forall|i: int| 0 <= i < old_entries.len() implies (#[trigger] old_entries[i]).key
            != key by {
            assert(entries[i].key == old_entries[i].key);
        }
        lemma_no_such_event(before, key);
        let at = entry_position(old_entries, error_key(batch.last()));
        assert(entries[at].key == error_key(batch.last()));
    }
    assert(with_key(batch, key) =~= Seq::<EventView>::empty());
}

// ---------------------------------------------------------------------------
// Words
// ---------------------------------------------------------------------------

/// A message that fits is shown as it is. One that does not is cut, and three dots stand for
/// what was cut; as much is kept as fits with them.
pub proof fn messages_are_cut_where_they_must_be(msg: Seq<char>, max_len: nat)
    ensures
        byte_length(msg) <= max_len ==> truncated(msg, max_len) == msg,
        byte_length(msg) > max_len && max_len >= 3 ==> exists|n: int|
            0 <= n < msg.len() && truncated(msg, max_len) == #[trigger] msg.take(n) + "..."@
                && byte_length(msg.take(n)) <= max_len - 3 && byte_length(msg.take(n + 1)) > max_len
                - 3,
{
    if byte_length(msg) > max_len && max_len >= 3 {
        let room = (max_len - 3) as nat;
        lemma_fitting_is_the_longest(msg, room);
        let n = fitting(msg, room).len() as int;
        assert(truncated(msg, max_len) == msg.take(n) + "..."@);
    }
}

proof fn lemma_fitting_is_the_longest(s: Seq<char>, room: nat)
    requires
        byte_length(s) > room,
    ensures
        fitting(s, room).len() < s.len(),
        fitting(s, room) == s.take(fitting(s, room).len() as int),
        byte_length(fitting(s, room)) <= room,
        byte_length(s.take(fitting(s, room).len() as int + 1)) > room,
    decreases s.len(),
{
    if s.len() == 0 {
        reveal_with_fuel(vstd::utf8::encode_utf8, 2);
        assert(byte_length(s) == 0);
    } else {
        let rest = s.drop_last();
        if byte_length(rest) <= room {
            assert(fitting(rest, room) == rest);
            assert(rest =~= s.take(rest.len() as int));
            assert(s.take(rest.len() as int + 1) =~= s);
        } else {
            lemma_fitting_is_the_longest(rest, room);
            let n = fitting(s, room).len() as int;
            assert(fitting(s, room) == fitting(rest, room));
            assert(rest.take(n) =~= s.take(n));
            assert(rest.take(n + 1) =~= s.take(n + 1));
        }
    }
}

/// The text of a block, where it has one.
pub open spec fn block_text(block: JsonView) -> Option<JsonView> {
    match block.member("text"@) {
        Some(text) => text.member("text"@),
        None => None,
    }
}

/// A digest shows its service, and then the first eight errors, each in a block of its own and
/// in their order; where there are more, a last block says how many.
pub proof fn digests_show_the_first_eight(
    service: Seq<char>,
    environment: Seq<char>,
    host: Option<Seq<char>>,
    entries: Seq<EntryView>,
)
    ensures
        ({
            let blocks = digest_blocks(service, environment, host, entries);
            let shown: int = if entries.len() <= 8 {
                entries.len() as int
            } else {
                8
            };
            &&& blocks.len() == 3 + shown + if entries.len() > 8 {
                1int
            } else {
                0
            }
            &&& block_text(blocks[0]) == Some(JsonView::Text("Error Alert — "@ + service))
            &&& forall|i: int|
                0 <= i < shown ==> block_text(#[trigger] blocks[3 + i]) == Some(
                    JsonView::Text(entry_text(entries[i])),
                )
            &&& entries.len() > 8 ==> (blocks.last().member("elements"@) matches Some(
                JsonView::Array(items),
            ) && items.len() == 1 && items[0].member("text"@) == Some(
                JsonView::Text(
                    "...and "@ + decimal((entries.len() - 8) as nat) + " more errors"@,
                ),
            ))
        }),
{
    broadcast use group_find_member;

    reveal_strlit("text");
    reveal_strlit("type");
    reveal_strlit("elements");
    assert("text"@.len() == 4 && "type"@.len() == 4 && "elements"@.len() == 8);
    assert("text"@[1] != "type"@[1]);
    let blocks = digest_blocks(service, environment, host, entries);
    let shown: int = if entries.len() <= 8 {
        entries.len() as int
    } else {
        8
    };
    assert forall|i: int| 0 <= i < shown implies block_text(#[trigger] blocks[3 + i]) == Some(
        JsonView::Text(entry_text(entries[i])),
    ) by {}
}

/// What an error is shown with: its target in front, its message as far as it fits, and how
/// often it came where it came more than once.
pub proof fn errors_are_shown_with_their_message(entry: EntryView)
    ensures
        ("*"@ + entry.event.target + "*"@).is_prefix_of(entry_text(entry)),
        holds(entry_text(entry), "\n```"@ + truncated(entry.event.message, 500) + "```"@),
        entry.count > 1 ==> holds(entry_text(entry), " (x"@ + decimal(entry.count) + ")"@),
{
    let text = entry_text(entry);
    let head = "*"@ + entry.event.target + "*"@;
    let suffix = crate::notifications::error_layer::count_suffix(entry.count);
    let body = "\n```"@ + truncated(entry.event.message, 500) + "```"@;
    let fields = crate::notifications::error_layer::shown_fields(entry.event.fields);
    assert(text =~= head + suffix + body + fields);
    assert(text.take(head.len() as int) =~= head);
    assert(text =~= between(head + suffix, body, fields));
    assert(text =~= between(head, suffix, body + fields));
}

/// An email tells every error, with its target, its whole message and all its fields.
pub proof fn emails_tell_every_error(entries: Seq<EntryView>, i: int, k: int)
    requires
        0 <= i < entries.len(),
    ensures
        holds(all_lines(entries), entry_lines(entries[i])),
        holds(entry_lines(entries[i]), "--- "@ + entries[i].event.target + " ---"@),
        holds(entry_lines(entries[i]), "\n"@ + entries[i].event.message + "\n"@),
        holds(entry_lines(entries[i]), field_lines(entries[i].event.fields)),
        0 <= k < entries[i].event.fields.len() ==> holds(
            field_lines(entries[i].event.fields),
            "  "@ + entries[i].event.fields[k].0 + ": "@ + entries[i].event.fields[k].1 + "\n"@,
        ),
    decreases entries.len(),
{
    let entry = entries[i];
    let lines = entry_lines(entry);
    let first = "--- "@ + entry.event.target + " ---"@;
    let suffix = crate::notifications::error_layer::count_suffix(entry.count);
    let message = "\n"@ + entry.event.message + "\n"@;
    let fields = field_lines(entry.event.fields);
    assert(lines =~= between(Seq::empty(), first, suffix + message + fields + "\n"@));
    assert(lines =~= between(first + suffix, message, fields + "\n"@));
    assert(lines =~= between(first + suffix + message, fields, "\n"@));
    lemma_lines_hold(entries, i);
    if 0 <= k < entry.event.fields.len() {
        lemma_fields_hold(entry.event.fields, k);
    }
}

proof fn lemma_lines_hold(entries: Seq<EntryView>, i: int)
    requires
        0 <= i < entries.len(),
    ensures
        holds(all_lines(entries), entry_lines(entries[i])),
    decreases entries.len(),
{
    let before = entries.drop_last();
    let own = entry_lines(entries[i]);
    if i == entries.len() - 1 {
        assert(all_lines(entries) =~= between(all_lines(before), own, Seq::empty()));
    } else {
        lemma_lines_hold(before, i);
        assert(before[i] == entries[i]);
        let (a, b) = choose|a: Seq<char>, b: Seq<char>|
            all_lines(before) == #[trigger] between(a, own, b);
        assert(all_lines(entries) =~= between(a, own, b + entry_lines(entries.last())));
    }
}

proof fn lemma_fields_hold(fields: Seq<Pair>, k: int)
    requires
        0 <= k < fields.len(),
    ensures
        holds(field_lines(fields), "  "@ + fields[k].0 + ": "@ + fields[k].1 + "\n"@),
    decreases fields.len(),
{
    let before = fields.drop_last();
    let own = "  "@ + fields[k].0 + ": "@ + fields[k].1 + "\n"@;
    let last = "  "@ + fields.last().0 + ": "@ + fields.last().1 + "\n"@;
    assert(field_lines(fields) =~= field_lines(before) + last);
    if k == fields.len() - 1 {
        assert(field_lines(fields) =~= between(field_lines(before), own, Seq::empty()));
    } else {
        lemma_fields_hold(before, k);
        assert(before[k] == fields[k]);
        let (a, b) = choose|a: Seq<char>, b: Seq<char>|
            field_lines(before) == #[trigger] between(a, own, b);
        assert(field_lines(fields) =~= between(a, own, b + last));
    }
}

/// The first four fields of an error are shown with their names, in their order.
pub proof fn four_fields_are_shown(fields: Seq<Pair>, i: int)
    ensures
        shown_pairs(fields).len() == if fields.len() <= 4 {
            fields.len() as int
        } else {
            4
        },
        0 <= i < fields.len() && i < 4 ==> shown_pairs(fields)[i] == "`"@ + fields[i].0 + "`: "@
            + fields[i].1,
{
}

/// What a digest says of where the errors come from: the environment, the host where it is
/// known, and how many errors there are.
pub proof fn digests_say_where_errors_come_from(
    service: Seq<char>,
    environment: Seq<char>,
    host: Seq<char>,
    errors: nat,
)
    ensures
        holds(context_line(environment, None, errors), environment),
        holds(context_line(environment, Some(host), errors), environment),
        holds(context_line(environment, Some(host), errors), host),
        decimal(errors).is_suffix_of(context_line(environment, None, errors)),
        decimal(errors).is_suffix_of(context_line(environment, Some(host), errors)),
        holds(digest_intro(service, environment, None), service),
        holds(digest_intro(service, environment, None), environment),
        holds(digest_intro(service, environment, Some(host)), service),
        holds(digest_intro(service, environment, Some(host)), environment),
        holds(digest_intro(service, environment, Some(host)), host),
{
    let plain = context_line(environment, None, errors);
    let named = context_line(environment, Some(host), errors);
    assert(plain =~= between("*Environment:* "@, environment, " | *Errors:* "@ + decimal(errors)));
    assert(named =~= between(
        "*Environment:* "@,
        environment,
        " | *Host:* "@ + host + " | *Errors:* "@ + decimal(errors),
    ));
    assert(named =~= between(
        "*Environment:* "@ + environment + " | *Host:* "@,
        host,
        " | *Errors:* "@ + decimal(errors),
    ));
    assert(plain.skip(plain.len() - decimal(errors).len()) =~= decimal(errors));
    assert(named.skip(named.len() - decimal(errors).len()) =~= decimal(errors));
    let intro = digest_intro(service, environment, None);
    assert(intro =~= between("Error digest for "@, service, " ("@ + environment + ")\n\n"@));
    assert(intro =~= between("Error digest for "@ + service + " ("@, environment, ")\n\n"@));
    let on = digest_intro(service, environment, Some(host));
    assert(on =~= between(
        "Error digest for "@,
        service,
        " ("@ + environment + ") on "@ + host + "\n\n"@,
    ));
    assert(on =~= between(
        "Error digest for "@ + service + " ("@,
        environment,
        ") on "@ + host + "\n\n"@,
    ));
    assert(on =~= between(
        "Error digest for "@ + service + " ("@ + environment + ") on "@,
        host,
        "\n\n"@,
    ));
}

/// Whether an alert shows the errors of a key: once, with how many there are and the first.
pub open spec fn shows(entries: Seq<EntryView>, batch: Seq<EventView>, key: Seq<char>) -> bool {
    exists|i: int|
        0 <= i < entries.len() && (#[trigger] entries[i]).key == key && entries[i].count
            == with_key(batch, key).len() && entries[i].event == with_key(batch, key)[0]
}

/// Each error of a batch that is due is alerted while the limit leaves room, on the channels that
/// there are, and then counts as alerted now; it is dropped at the limit, and then stays due. An
/// error that is not due is not alerted, and when it last was is not touched.
pub proof fn batches_are_alerted_when_due(
    before: Dispatcher,
    after: Dispatcher,
    batch: Seq<EventView>,
    now: Duration,
    decision: Decision,
    k: int,
)
    requires
        before.decides(batch, now, decision, after),
        0 <= k < batch.len(),
    ensures
        ({
            let key = error_key(batch[k]);
            let due = is_due(before.last(), key, before.settings().dedup_window@, now@);
            let sent = last_minute(before.recent(), now@).len();
            let limit = before.settings().max_messages_per_minute;
            &&& due && sent < limit ==> {
                &&& decision matches Decision::Alert { entries, slack, email } && shows(
                    entry_list(entries@),
                    batch,
                    key,
                ) && (slack <==> before.channels().slack) && (email <==> before.channels().email
                    && (!slack || sent + 2 <= limit))
                &&& value_of(after.last(), key) == Some(now)
            }
            &&& due && sent >= limit ==> decision is Limited && after.last() == before.last()
            &&& !due ==> {
                &&& decision matches Decision::Alert { entries, slack, email } ==> (forall|i: int|
                    0 <= i < entries@.len() ==> (#[trigger] entry_list(entries@)[i]).key != key)
                &&& value_of(after.last(), key) == value_of(before.last(), key)
            }
        }),
{
    let key = error_key(batch[k]);
    let window = before.settings().dedup_window@;
    let all = grouped(batch);
    let due = due_entries(all, before.last(), window, now@);
    each_key_is_one_entry(batch);
    let at = choose|i: int| 0 <= i < all.len() && (#[trigger] all[i]).key == key;
    lemma_due_entry(all, before.last(), window, now@, at);
    lemma_alerted(before.last(), due, key, now);
    assert forall|i: int| 0 <= i < due.len() implies is_due(
        before.last(),
        (#[trigger] due[i]).key,
        window,
        now@,
    ) by {
        lemma_entries_are_due(all, before.last(), window, now@, i);
    }
    if is_due(before.last(), key, window, now@) {
        let i = choose|i: int| 0 <= i < due.len() && #[trigger] due[i] == all[at];
        assert(due[i].key == key);
        assert(shows(due, batch, key));
    }
}

proof fn lemma_due_entry(
    entries: Seq<EntryView>,
    last: LastAlerts,
    window: nat,
    now: nat,
    at: int,
)
    requires
        0 <= at < entries.len(),
    ensures
        is_due(last, entries[at].key, window, now) ==> exists|i: int|
            0 <= i < due_entries(entries, last, window, now).len() && #[trigger] due_entries(
                entries,
                last,
                window,
                now,
            )[i] == entries[at],
    decreases entries.len(),
{
    let front = entries.drop_last();
    let due = due_entries(entries, last, window, now);
    if is_due(last, entries[at].key, window, now) {
        if at < front.len() {
            lemma_due_entry(front, last, window, now, at);
            let before = due_entries(front, last, window, now);
            let i = choose|i: int| 0 <= i < before.len() && #[trigger] before[i] == front[at];
            assert(due[i] == entries[at]);
        } else {
            assert(due[due.len() - 1] == entries[at]);
        }
    }
}

proof fn lemma_entries_are_due(
    entries: Seq<EntryView>,
    last: LastAlerts,
    window: nat,
    now: nat,
    i: int,
)
    requires
        0 <= i < due_entries(entries, last, window, now).len(),
    ensures
        is_due(last, due_entries(entries, last, window, now)[i].key, window, now),
    decreases entries.len(),
{
    let front = entries.drop_last();
    let before = due_entries(front, last, window, now);
    if i < before.len() {
        lemma_entries_are_due(front, last, window, now, i);
    }
}

} // verus!
