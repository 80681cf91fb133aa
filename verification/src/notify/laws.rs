//! What holds of every event that is routed: whether it goes out, where, and in which words.

use vstd::prelude::*;

use crate::digits::{decimal, decimal_reads_back, unsigned_reading, zero_padded};
use crate::json::{group_find_member, JsonView};
use crate::notifications::laws::block_text;
use crate::notify::format::{
    batch_text, bulleted, duration_text, event_json, headline_text, id_texts, in_order, is_picked,
    line_json, line_text, message_text, ordering_keeps_the_fields, pair_texts, picked, priority,
    value_text, Pick,
};
use crate::notify::layer::{
    after_flush, buffer_of, delivered, draw, due_posts, is_ripe, lines_wait_for_their_own_channel,
    queued, rule_applied, sampled, waiting_texts, BufferView, DeliveryView, LayerState, Waiting,
};
use crate::notify::rule::{RuleView, SampleRate};
use crate::notify::state::{
    inherited, is_repeat, key_values, lemma_overlaid_distinct, overlaid,
    repeats_are_told_by_their_key, sighted, span_with, stacked, the_top_wins, DedupKey,
};
use crate::notify::visit::{unquoted, visited, VisitView};
use crate::string_map::{distinct_keys, lookup, lookup_after_insert, Pair};
use crate::text::joined;
use crate::text_laws::{between, holds, joined_texts_hold_each};

verus! {

// ---------------------------------------------------------------------------
// Which rule applies
// ---------------------------------------------------------------------------

/// What an event becomes, given the provider's rule for it and the default rule.
pub open spec fn outcome(
    state: LayerState,
    own: Option<RuleView>,
    fallback: Option<RuleView>,
    environment: Seq<char>,
    event: Seq<char>,
    fields: Seq<Pair>,
    now: nat,
) -> (DeliveryView, LayerState) {
    delivered(state, rule_applied(own, fallback), environment, event, fields, now)
}

/// The rule that a provider has for an event decides on it, whatever the default rule is: a
/// message goes to the channel of that rule, and so does a line that waits.
pub proof fn an_events_own_rule_wins(
    state: LayerState,
    own: RuleView,
    fallback: Option<RuleView>,
    other: Option<RuleView>,
    environment: Seq<char>,
    event: Seq<char>,
    fields: Seq<Pair>,
    now: nat,
)
    ensures
        outcome(state, Some(own), fallback, environment, event, fields, now) == outcome(
            state,
            Some(own),
            other,
            environment,
            event,
            fields,
            now,
        ),
        outcome(state, Some(own), fallback, environment, event, fields, now).0 matches DeliveryView::Posted(
            post,
        ) ==> post.0 == own.channel,
        outcome(state, Some(own), fallback, environment, event, fields, now).0 is Queued ==> (
        buffer_of(
            outcome(state, Some(own), fallback, environment, event, fields, now).1.waiting,
            event,
            own.channel,
        ) matches Some(buffer) && buffer.channel == own.channel && buffer.lines.len() > 0
            && buffer.lines.last() == (now, line_text(event, fields))),
{
    match own.batch {
        Some(interval) => {
            lines_wait_for_their_own_channel(
                state.waiting,
                event,
                own.channel,
                interval,
                line_text(event, fields),
                now,
                event,
                own.channel,
            );
        },
        None => {},
    }
}

/// The default rule decides on the events that have none of their own, and as if it were
/// theirs; without either, an event is dropped and nothing changes.
pub proof fn the_default_rule_is_for_the_others(
    state: LayerState,
    fallback: RuleView,
    other: Option<RuleView>,
    environment: Seq<char>,
    event: Seq<char>,
    fields: Seq<Pair>,
    now: nat,
)
    ensures
        outcome(state, None, Some(fallback), environment, event, fields, now) == outcome(
            state,
            Some(fallback),
            other,
            environment,
            event,
            fields,
            now,
        ),
        outcome(state, None, None, environment, event, fields, now) == (
            DeliveryView::Dropped,
            state,
        ),
{
}

// ---------------------------------------------------------------------------
// Whether an event goes out
// ---------------------------------------------------------------------------

/// Whether a rule routes events in an environment.
pub open spec fn routes_in(rule: RuleView, environment: Seq<char>) -> bool {
    &&& rule.enabled
    &&& rule.envs matches Some(envs) ==> exists|i: int|
        0 <= i < envs.len() && #[trigger] envs[i] == environment
}

/// Whether an event is one of those that are sampled.
pub open spec fn is_drawn(rate: SampleRate, counter: u64) -> bool {
    match rate {
        SampleRate::Every => true,
        SampleRate::Never => false,
        SampleRate::Below(limit) => draw(counter) < limit,
    }
}

/// An event goes out exactly when its rule routes it in this environment, it is among those
/// that are sampled, and it is no repeat. It then waits when its rule gathers events, and goes
/// out by itself otherwise.
pub proof fn events_go_out_when_nothing_holds_them_back(
    state: LayerState,
    rule: RuleView,
    environment: Seq<char>,
    event: Seq<char>,
    fields: Seq<Pair>,
    now: nat,
)
    ensures
        ({
            let (delivery, after) = delivered(state, Some(rule), environment, event, fields, now);
            let repeat = rule.dedup matches Some((keys, window)) && is_repeat(
                state.dedup,
                (event, key_values(keys, fields)),
                window,
                now,
            );
            let out = routes_in(rule, environment) && is_drawn(rule.sample_rate, state.counter)
                && !repeat;
            &&& delivery is Dropped <==> !out
            &&& delivery is Queued <==> out && rule.batch is Some
            &&& delivery is Posted <==> out && rule.batch is None
            &&& delivery matches DeliveryView::Posted(post) ==> post == (
                rule.channel,
                event_json(event, fields),
            )
            &&& !(delivery is Queued) ==> after.waiting == state.waiting
            &&& delivery is Dropped ==> after.dedup == state.dedup
            &&& rule.dedup is None ==> after.dedup == state.dedup
        }),
{
    match rule.envs {
        Some(envs) => {
            assert(envs.contains(environment) <==> exists|i: int|
                0 <= i < envs.len() && #[trigger] envs[i] == environment);
        },
        None => {},
    }
}

/// Events are numbered as they are sampled: one by one where a share of them goes out, and not
/// at all otherwise.
pub proof fn sampled_events_are_numbered(
    state: LayerState,
    rule: RuleView,
    environment: Seq<char>,
    event: Seq<char>,
    fields: Seq<Pair>,
    now: nat,
)
    ensures
        ({
            let after = delivered(state, Some(rule), environment, event, fields, now).1;
            let counts = rule.sample_rate is Below && routes_in(rule, environment);
            &&& !counts ==> after.counter == state.counter
            &&& counts && state.counter < u64::MAX ==> after.counter == state.counter + 1
            &&& counts && state.counter == u64::MAX ==> after.counter == 0
        }),
{
    match rule.envs {
        Some(envs) => {
            assert(envs.contains(environment) <==> exists|i: int|
                0 <= i < envs.len() && #[trigger] envs[i] == environment);
        },
        None => {},
    }
}

/// A higher share lets through all that a lower one does, and the draws of events in a row lie
/// apart by the golden section of all draws, so that any share is met evenly.
pub proof fn draws_are_spread_evenly(counter: u64, low: u64, high: u64)
    requires
        low <= high,
    ensures
        sampled(SampleRate::Below(low), counter) ==> sampled(SampleRate::Below(high), counter),
        draw(0) == 0,
        counter < u64::MAX ==> ({
            let apart = (draw((counter + 1) as u64) - draw(counter)) % 0x1_0000_0000;
            apart == 0x9E37_79B9 || apart == 0x9E37_79BA
        }),
{
    if counter < u64::MAX {
        let step: int = 0x9E37_79B9_7F4A_7C15;
        let all: int = 0x1_0000_0000_0000_0000;
        let mixed = (counter as int * step) % all;
        let next = ((counter as int + 1) * step) % all;
        assert((counter as int + 1) * step == counter as int * step + step) by (nonlinear_arith);
        vstd::arithmetic::div_mod::lemma_add_mod_noop(counter as int * step, step, all);
        assert(next == (mixed + step % all) % all);
        assert(0 <= mixed < all);
        assert(next == mixed + step || next == mixed + step - all);
    }
}

/// An event is a repeat only of events of its own name: what becomes of one leaves the others
/// as they were.
pub proof fn repeats_are_of_one_event(
    state: LayerState,
    rule: RuleView,
    environment: Seq<char>,
    event: Seq<char>,
    fields: Seq<Pair>,
    at: nat,
    other: DedupKey,
    window: nat,
    now: nat,
)
    requires
        other.0 != event,
    ensures
        is_repeat(
            delivered(state, Some(rule), environment, event, fields, at).1.dedup,
            other,
            window,
            now,
        ) == is_repeat(state.dedup, other, window, now),
{
    match rule.dedup {
        Some((keys, span)) => {
            repeats_are_told_by_their_key(
                state.dedup,
                (event, key_values(keys, fields)),
                other,
                at,
                window,
                now,
            );
        },
        None => {},
    }
}

/// After an event went out, the same is a repeat for its window and no longer, however long
/// ago that is.
pub proof fn repeats_are_told_for_their_window(
    entries: Seq<(DedupKey, nat)>,
    key: DedupKey,
    at: nat,
    window: nat,
    now: nat,
)
    requires
        at <= now,
    ensures
        is_repeat(sighted(entries, key, at), key, window, now) <==> now - at < window,
{
    repeats_are_told_by_their_key(entries, key, key, at, window, now);
}

// ---------------------------------------------------------------------------
// What waits
// ---------------------------------------------------------------------------

/// What waits is due once its oldest line has waited for its interval; nothing is due where
/// nothing waits.
pub proof fn lines_wait_for_their_interval(buffer: BufferView, now: nat)
    ensures
        buffer.lines.len() == 0 ==> !is_ripe(buffer, now),
        buffer.lines.len() > 0 && buffer.lines[0].0 <= now ==> (is_ripe(buffer, now) <==> now
            - buffer.lines[0].0 >= buffer.interval),
        is_ripe(buffer, now) ==> after_flush(buffer, now).lines.len() == 0,
        !is_ripe(buffer, now) ==> after_flush(buffer, now) == buffer,
        after_flush(buffer, now).channel == buffer.channel,
        after_flush(buffer, now).interval == buffer.interval,
{
}

/// The first line for a channel decides for how long lines are gathered there.
pub proof fn the_first_line_sets_the_interval(
    waiting: Waiting,
    event: Seq<char>,
    channel: Seq<char>,
    interval: nat,
    line: Seq<char>,
    now: nat,
)
    ensures
        buffer_of(queued(waiting, event, channel, interval, line, now), event, channel) matches Some(
            buffer,
        ) && buffer.interval == match buffer_of(waiting, event, channel) {
            Some(before) => before.interval,
            None => interval,
        },
{
    lines_wait_for_their_own_channel(
        waiting,
        event,
        channel,
        interval,
        line,
        now,
        event,
        channel,
    );
    let after = queued(waiting, event, channel, interval, line, now);
    let at = crate::notify::layer::buffer_index(waiting, event, channel);
    lemma_buffer(waiting, event, channel);
    lemma_buffer(after, event, channel);
    let found = crate::notify::layer::buffer_index(after, event, channel);
    assert(after[at].0 == event && after[at].1.channel == channel);
    if found < at {
        assert(after[found] == waiting[found]);
    }
}

proof fn lemma_buffer(waiting: Waiting, event: Seq<char>, channel: Seq<char>)
    ensures
        ({
            let at = crate::notify::layer::buffer_index(waiting, event, channel);
            &&& 0 <= at <= waiting.len()
            &&& at < waiting.len() ==> waiting[at].0 == event && waiting[at].1.channel == channel
            &&& forall|k: int|
                0 <= k < at ==> !((#[trigger] waiting[k]).0 == event && waiting[k].1.channel
                    == channel)
        }),
    decreases waiting.len(),
{
    if waiting.len() > 0 && !(waiting[0].0 == event && waiting[0].1.channel == channel) {
        let rest = waiting.skip(1);
        lemma_buffer(rest, event, channel);
        let at = crate::notify::layer::buffer_index(waiting, event, channel);
        assert forall|k: int| 0 <= k < at implies !((#[trigger] waiting[k]).0 == event
            && waiting[k].1.channel == channel) by {
            if k > 0 {
                assert(rest[k - 1] == waiting[k]);
            }
        }
    }
}

/// Each message that goes out is of lines that were due, to their channel, and tells all of
/// them; there is one for each place where lines were due.
pub proof fn messages_are_of_what_is_due(waiting: Waiting, now: nat, k: int)
    ensures
        due_posts(waiting, now).len() == waiting.filter(
            |place: (Seq<char>, BufferView)| is_ripe(place.1, now),
        ).len(),
        0 <= k < due_posts(waiting, now).len() ==> exists|i: int|
            0 <= i < waiting.len() && is_ripe((#[trigger] waiting[i]).1, now) && due_posts(
                waiting,
                now,
            )[k].0 == waiting[i].1.channel && due_posts(waiting, now)[k].1 == line_json(
                waiting[i].0,
                batch_text(waiting[i].0, waiting_texts(waiting[i].1.lines)),
            ),
    decreases waiting.len(),
{
    reveal(Seq::filter);
    if waiting.len() > 0 {
        let front = waiting.drop_last();
        messages_are_of_what_is_due(front, now, k);
        if 0 <= k < due_posts(front, now).len() {
            let i = choose|i: int|
                0 <= i < front.len() && is_ripe((#[trigger] front[i]).1, now) && due_posts(
                    front,
                    now,
                )[k].0 == front[i].1.channel && due_posts(front, now)[k].1 == line_json(
                    front[i].0,
                    batch_text(front[i].0, waiting_texts(front[i].1.lines)),
                );
            assert(waiting[i] == front[i]);
        } else if 0 <= k < due_posts(waiting, now).len() {
            assert(waiting[waiting.len() - 1] == waiting.last());
        }
    }
}

/// A message of gathered lines names the event and how many there are, and tells each of them.
pub proof fn messages_tell_every_line(event: Seq<char>, lines: Seq<Seq<char>>, i: int)
    ensures
        ("*"@ + event + "* — batched x"@ + decimal(lines.len()) + "\n"@).is_prefix_of(
            batch_text(event, lines),
        ),
        0 <= i < lines.len() ==> holds(batch_text(event, lines), "• "@ + lines[i]),
{
    let head = "*"@ + event + "* — batched x"@ + decimal(lines.len()) + "\n"@;
    let text = batch_text(event, lines);
    let body = joined(bulleted(lines), "\n"@);
    assert(text =~= head + body);
    assert(text.take(head.len() as int) =~= head);
    joined_texts_hold_each(bulleted(lines), "\n"@, i);
    if 0 <= i < lines.len() {
        assert(bulleted(lines)[i] == "• "@ + lines[i]);
        let own = bulleted(lines)[i];
        let (a, b) = choose|a: Seq<char>, b: Seq<char>| body == #[trigger] between(a, own, b);
        assert(text =~= between(head + a, own, b));
    }
}

// ---------------------------------------------------------------------------
// Words
// ---------------------------------------------------------------------------

/// A line names its event, after its emoji where it has one, and then says its message where it
/// has one.
pub proof fn headlines_name_their_event(event: Seq<char>, fields: Seq<Pair>)
    ensures
        ({
            let text = headline_text(event, fields);
            let emoji = lookup(fields, "emoji"@) matches Some(emoji) && emoji.len() > 0;
            let message = lookup(fields, "message"@) matches Some(message) && message.len() > 0;
            &&& holds(text, "*"@ + event + "*"@)
            &&& !emoji ==> ("*"@ + event + "*"@).is_prefix_of(text)
            &&& emoji ==> (lookup(fields, "emoji"@)->0 + " *"@ + event + "*"@).is_prefix_of(text)
            &&& message ==> (" — "@ + lookup(fields, "message"@)->0).is_suffix_of(text)
            &&& !message ==> ("*"@ + event + "*"@).is_suffix_of(text)
        }),
{
    let text = headline_text(event, fields);
    let name = "*"@ + event + "*"@;
    reveal_strlit(" *");
    reveal_strlit("*");
    reveal_strlit("* — ");
    reveal_strlit(" — ");
    assert(" *"@ =~= seq![' '] + "*"@);
    assert("* — "@ =~= "*"@ + " — "@);
    let emoji = lookup(fields, "emoji"@) matches Some(emoji) && emoji.len() > 0;
    let message = lookup(fields, "message"@) matches Some(message) && message.len() > 0;
    let front = if emoji {
        lookup(fields, "emoji"@)->0 + seq![' ']
    } else {
        Seq::<char>::empty()
    };
    let back = if message {
        " — "@ + lookup(fields, "message"@)->0
    } else {
        Seq::<char>::empty()
    };
    assert(text =~= front + name + back);
    assert(text =~= between(front, name, back));
    if emoji {
        let led = lookup(fields, "emoji"@)->0 + " *"@ + event + "*"@;
        assert(led =~= front + name);
        assert(text.take(led.len() as int) =~= led);
    } else {
        assert(text.take(name.len() as int) =~= name);
    }
    if message {
        assert(text.skip(text.len() - back.len()) =~= back);
    } else {
        assert(text.skip(text.len() - name.len()) =~= name);
    }
}

/// The fields that are shown are all those that a message is for, in their order: a line shows
/// all, a section those that are no identifiers, and the line under it those that are. Fields
/// of the headline and of the request's own plumbing are never shown.
pub proof fn fields_are_shown_unless_they_are_plumbing(pick: Pick, fields: Seq<Pair>, key: Seq<char>)
    ensures
        picked(pick, fields) == fields.filter(|field: Pair| is_picked(pick, field.0)),
        distinct_keys(fields) ==> in_order(picked(pick, fields)).to_multiset() == fields.filter(
            |field: Pair| is_picked(pick, field.0),
        ).to_multiset(),
        is_picked(pick, key) <==> !(key == "message"@ || key == "emoji"@ || key == "uri"@ || key
            == "method"@ || key == "version"@ || key == "host"@ || key == "grant_type"@ || key
            == "username"@ || key == "route"@ || key == "id"@ || key == "x-request-id"@) && (
        pick is Signal ==> !("_id"@.is_suffix_of(key))) && (pick is Ids ==> "_id"@.is_suffix_of(
            key,
        )),
        is_picked(Pick::All, key) <==> is_picked(Pick::Signal, key) || is_picked(Pick::Ids, key),
        !(is_picked(Pick::Signal, key) && is_picked(Pick::Ids, key)),
{
    lemma_picked_is_filter(pick, fields);
    if distinct_keys(fields) {
        crate::notify::format::lemma_picked_distinct(pick, fields);
        ordering_keeps_the_fields(picked(pick, fields));
    }
}

proof fn lemma_picked_is_filter(pick: Pick, fields: Seq<Pair>)
    ensures
        picked(pick, fields) == fields.filter(|field: Pair| is_picked(pick, field.0)),
    decreases fields.len(),
{
    reveal(Seq::filter);
    if fields.len() > 0 {
        lemma_picked_is_filter(pick, fields.drop_last());
    }
    assert(picked(pick, fields) =~= fields.filter(|field: Pair| is_picked(pick, field.0)));
}

/// A message is its headline, and below it every field that is shown, with its name.
pub proof fn messages_tell_every_field(pick: Pick, event: Seq<char>, fields: Seq<Pair>, i: int)
    ensures
        headline_text(event, fields).is_prefix_of(message_text(pick, event, fields)),
        in_order(picked(pick, fields)).len() == 0 ==> message_text(pick, event, fields)
            == headline_text(event, fields),
        0 <= i < in_order(picked(pick, fields)).len() ==> ({
            let field = in_order(picked(pick, fields))[i];
            holds(
                message_text(pick, event, fields),
                field.0 + "="@ + value_text(field.0, field.1),
            )
        }),
{
    let shown = in_order(picked(pick, fields));
    let head = headline_text(event, fields);
    let text = message_text(pick, event, fields);
    assert(text.take(head.len() as int) =~= head);
    if 0 <= i < shown.len() {
        let body = joined(pair_texts(shown), ", "@);
        joined_texts_hold_each(pair_texts(shown), ", "@, i);
        let own = pair_texts(shown)[i];
        let (a, b) = choose|a: Seq<char>, b: Seq<char>| body == #[trigger] between(a, own, b);
        assert(text =~= between(head + "\n"@ + a, own, b));
    }
}

/// A value is shown as it is, but for a number of milliseconds under a name that says so.
pub proof fn values_are_shown_as_they_are(key: Seq<char>, value: Seq<char>)
    ensures
        !("_ms"@.is_suffix_of(key)) ==> value_text(key, value) == value,
        unsigned_reading(value, u64::MAX as nat) is None ==> value_text(key, value) == value,
        "_ms"@.is_suffix_of(key) ==> (unsigned_reading(value, u64::MAX as nat) matches Some(ms)
            ==> value_text(key, value) == duration_text(ms)),
{
}

/// A span reads in its own units: milliseconds below a second, seconds below a minute, minutes
/// and seconds below an hour, and hours and minutes from there on; what is nought is left out.
pub proof fn spans_read_in_their_units(ms: nat, hours: nat, minutes: nat, secs: nat, rest: nat)
    requires
        ms == ((hours * 60 + minutes) * 60 + secs) * 1000 + rest,
        minutes < 60,
        secs < 60,
        rest < 1000,
    ensures
        hours == 0 && minutes == 0 && secs == 0 ==> duration_text(ms) == decimal(rest) + "ms"@,
        hours == 0 && minutes == 0 && secs > 0 && rest == 0 ==> duration_text(ms) == decimal(secs)
            + "s"@,
        hours == 0 && minutes == 0 && secs > 0 && rest >= 100 ==> duration_text(ms) == decimal(secs)
            + "."@ + decimal(rest) + "s"@,
        hours == 0 && minutes == 0 && secs > 0 && 10 <= rest < 100 ==> duration_text(ms) == decimal(
            secs,
        ) + "."@ + (seq!['0'] + decimal(rest)) + "s"@,
        hours == 0 && minutes == 0 && secs > 0 && 0 < rest < 10 ==> duration_text(ms) == decimal(
            secs,
        ) + "."@ + (seq!['0', '0'] + decimal(rest)) + "s"@,
        hours == 0 && minutes > 0 && secs == 0 ==> duration_text(ms) == decimal(minutes) + "m"@,
        hours == 0 && minutes > 0 && secs > 0 ==> duration_text(ms) == decimal(minutes) + "m "@
            + decimal(secs) + "s"@,
        hours > 0 && minutes == 0 ==> duration_text(ms) == decimal(hours) + "h"@,
        hours > 0 && minutes > 0 ==> duration_text(ms) == decimal(hours) + "h "@ + decimal(minutes)
            + "m"@,
{
    let whole = ms / 1000;
    assert(whole == (hours * 60 + minutes) * 60 + secs);
    assert(whole % 60 == secs && whole / 60 == hours * 60 + minutes);
    assert(whole / 3600 == hours && whole % 3600 == minutes * 60 + secs);
    assert((whole % 3600) / 60 == minutes);
    decimal_reads_back(rest);
    if 10 <= rest < 100 {
        assert(zero_padded(decimal(rest), 3) =~= seq!['0'] + decimal(rest));
    } else if rest < 10 {
        assert(zero_padded(decimal(rest), 3) =~= seq!['0', '0'] + decimal(rest));
    }
}

/// Whom an event is about comes first among the fields, identifiers come last, and fields of
/// one rank by their name.
pub proof fn fields_have_their_rank(key: Seq<char>)
    ensures
        key == "user_email"@ ==> priority(key) == 10,
        key != "user_email"@ && "_id"@.is_suffix_of(key) ==> priority(key) == 90,
        key != "user_email"@ && !("_id"@.is_suffix_of(key)) ==> priority(key) == 50,
{
}

/// An event that goes out by itself is a section that says what is worth reading, under the
/// event's name; where there are identifiers, they stand in a block below it.
pub proof fn posts_are_a_section_and_its_identifiers(event: Seq<char>, fields: Seq<Pair>)
    ensures
        event_json(event, fields) matches JsonView::Array(blocks) && {
            &&& blocks.len() == if in_order(picked(Pick::Ids, fields)).len() == 0 {
                1int
            } else {
                2
            }
            &&& blocks[0].member("type"@) == Some(JsonView::Text("section"@))
            &&& blocks[0].member("block_id"@) == Some(JsonView::Text("notify-"@ + event))
            &&& block_text(blocks[0]) == Some(
                JsonView::Text(message_text(Pick::Signal, event, fields)),
            )
            &&& blocks.len() == 2 ==> blocks[1].member("type"@) == Some(JsonView::Text("context"@))
        },
{
    broadcast use group_find_member;

    lemma_block_names_differ();
}

/// The text of the one element of a block.
pub open spec fn element_text(block: JsonView) -> Option<JsonView> {
    match block.member("elements"@) {
        Some(JsonView::Array(items)) => if items.len() == 1 {
            items[0].member("text"@)
        } else {
            None
        },
        _ => None,
    }
}

/// The line of identifiers tells each of them, with its name.
pub proof fn identifiers_are_told(event: Seq<char>, fields: Seq<Pair>, i: int)
    requires
        0 <= i < in_order(picked(Pick::Ids, fields)).len(),
    ensures
        ({
            let field = in_order(picked(Pick::Ids, fields))[i];
            let blocks = event_json(event, fields)->Array_0;
            &&& event_json(event, fields) is Array
            &&& blocks.len() == 2
            &&& element_text(blocks[1]) matches Some(JsonView::Text(text)) && holds(
                text,
                field.0 + "="@ + field.1,
            )
        }),
{
    broadcast use group_find_member;

    lemma_block_names_differ();
    let ids = in_order(picked(Pick::Ids, fields));
    joined_texts_hold_each(id_texts(ids), "  ·  "@, i);
}

/// A line that goes out as a message says what it says, under its event's name.
pub proof fn lines_are_one_section(event: Seq<char>, line: Seq<char>)
    ensures
        line_json(event, line) matches JsonView::Array(blocks) && blocks.len() == 1
            && blocks[0].member("block_id"@) == Some(JsonView::Text("notify-"@ + event))
            && block_text(blocks[0]) == Some(JsonView::Text(line)),
{
    broadcast use group_find_member;

    lemma_block_names_differ();
}

proof fn lemma_block_names_differ()
    ensures
        "type"@ != "text"@,
        "type"@ != "block_id"@,
        "type"@ != "elements"@,
        "text"@ != "block_id"@,
        "text"@ != "elements"@,
        "block_id"@ != "elements"@,
{
    reveal_strlit("type");
    reveal_strlit("text");
    reveal_strlit("block_id");
    reveal_strlit("elements");
    assert("type"@.len() == 4 && "text"@.len() == 4);
    assert("block_id"@.len() == 8 && "elements"@.len() == 8);
    assert("type"@[1] != "text"@[1]);
    assert("block_id"@[0] != "elements"@[0]);
}

// ---------------------------------------------------------------------------
// Fields
// ---------------------------------------------------------------------------

/// An event's own fields win over those of the spans that it lies in, and an inner span's over
/// an outer one's.
pub proof fn the_innermost_field_wins(spans: Seq<Seq<Pair>>, own: Seq<Pair>, key: Seq<char>)
    requires
        distinct_keys(own),
        forall|i: int| 0 <= i < spans.len() ==> distinct_keys(#[trigger] spans[i]),
    ensures
        lookup(own, key) is Some ==> lookup(inherited(spans, own), key) == lookup(own, key),
        lookup(own, key) is None && spans.len() == 0 ==> lookup(inherited(spans, own), key) is None,
        lookup(own, key) is None && spans.len() > 0 && lookup(spans.last(), key) is Some ==> lookup(
            inherited(spans, own),
            key,
        ) == lookup(spans.last(), key),
        lookup(own, key) is None && spans.len() > 0 && lookup(spans.last(), key) is None ==> lookup(
            inherited(spans, own),
            key,
        ) == lookup(inherited(spans.drop_last(), own), key),
{
    lemma_stacked(spans);
    the_top_wins(stacked(spans), own, key);
    if spans.len() > 0 {
        let outer = spans.drop_last();
        assert forall|i: int| 0 <= i < outer.len() implies distinct_keys(#[trigger] outer[i]) by {
            assert(outer[i] == spans[i]);
        }
        lemma_stacked(outer);
        assert(spans.last() == spans[spans.len() - 1]);
        the_top_wins(stacked(outer), spans.last(), key);
        the_top_wins(stacked(outer), own, key);
    }
}

proof fn lemma_stacked(spans: Seq<Seq<Pair>>)
    requires
        forall|i: int| 0 <= i < spans.len() ==> distinct_keys(#[trigger] spans[i]),
    ensures
        distinct_keys(stacked(spans)),
    decreases spans.len(),
{
    if spans.len() > 0 {
        let outer = spans.drop_last();
        assert forall|i: int| 0 <= i < outer.len() implies distinct_keys(#[trigger] outer[i]) by {
            assert(outer[i] == spans[i]);
        }
        lemma_stacked(outer);
        lemma_overlaid_distinct(stacked(outer), spans.last());
    }
}

/// What is recorded of an event is found under its name: the event's own name apart, every
/// other value as a field, the last where there are several.
pub proof fn records_are_found_under_their_name(
    before: VisitView,
    name: Seq<char>,
    value: Seq<char>,
    other: Seq<char>,
)
    requires
        distinct_keys(before.fields),
    ensures
        name == "event"@ ==> visited(before, name, value).event_name == Some(value) && visited(
            before,
            name,
            value,
        ).fields == before.fields,
        name != "event"@ ==> visited(before, name, value).event_name == before.event_name && lookup(
            visited(before, name, value).fields,
            name,
        ) == Some(value) && (other != name ==> lookup(visited(before, name, value).fields, other)
            == lookup(before.fields, other)),
{
    lookup_after_insert(before.fields, name, value, other);
}

/// A text in quotes loses them, and any other stays as it is.
pub proof fn quotes_are_taken_off(s: Seq<char>)
    ensures
        unquoted(seq!['"'] + s + seq!['"']) == s,
        !(s.len() >= 2 && s[0] == '"' && s[s.len() - 1] == '"') ==> unquoted(s) == s,
{
    let quoted = seq!['"'] + s + seq!['"'];
    assert(quoted.subrange(1, quoted.len() - 1) =~= s);
}

/// A span holds what is recorded in it, over what it held before, and the event that is named
/// last.
pub proof fn spans_hold_what_is_recorded(fields: Seq<Pair>, visit: VisitView, key: Seq<char>)
    requires
        distinct_keys(fields),
        distinct_keys(visit.fields),
    ensures
        visit.event_name matches Some(name) ==> lookup(span_with(fields, visit), "event"@) == Some(
            name,
        ),
        visit.event_name is None || key != "event"@ ==> lookup(span_with(fields, visit), key)
            == match lookup(visit.fields, key) {
            Some(value) => Some(value),
            None => lookup(fields, key),
        },
{
    the_top_wins(fields, visit.fields, key);
    lemma_overlaid_distinct(fields, visit.fields);
    match visit.event_name {
        Some(name) => {
            lookup_after_insert(overlaid(fields, visit.fields), "event"@, name, key);
        },
        None => {},
    }
}

} // verus!
