//! What holds of every number that is written or read, of every span of time, of what is kept
//! under a key, and of every failure that is described.

use vstd::prelude::*;

use crate::clock::{millis, nanos_between, seconds, to_the_millisecond, Timestamp};
use crate::digits::{
    all_digits, decimal, decimal_reads_back, decimal_value, digit_char, hexadecimal,
    is_decimal_digit, signed_decimal, unsigned_reading, zero_padded,
};
use crate::error::error_body;
use crate::http_client::{description, told, undecodable, Cause};
use crate::json::{group_find_member, signed_view, JsonView, NumberView};
use crate::keyed::{key_position, lemma_key_position, value_of, with_value};
use crate::string_map::{inserted, lemma_pair_index, lookup, pair_index, text_members, Pair};
use crate::text::views;
use crate::text_laws::{holds, joined_texts_hold_each};

verus! {

// ---------------------------------------------------------------------------
// Numbers
// ---------------------------------------------------------------------------

/// What a decimal number says digit by digit: each stands for ten times the ones behind it.
pub proof fn decimals_are_read_digit_by_digit(s: Seq<char>, c: char)
    requires
        '0' <= c <= '9',
    ensures
        decimal_value(s.push(c)) == 10 * decimal_value(s) + (c as u32 - 48) as nat,
        decimal_value(Seq::empty()) == 0,
{
    assert(s.push(c).drop_last() =~= s);
}

/// A number that fits reads back from its digits, with a plus sign in front or without.
pub proof fn written_numbers_are_read(n: nat, max: nat)
    requires
        n <= max,
    ensures
        unsigned_reading(decimal(n), max) == Some(n),
        unsigned_reading(seq!['+'] + decimal(n), max) == Some(n),
{
    decimal_reads_back(n);
    let digits = decimal(n);
    assert(digits[0] != '+') by {
        assert(is_decimal_digit(digits[0]));
    }
    assert((seq!['+'] + digits).skip(1) =~= digits);
}

/// What is read is made of digits, behind a plus sign or not, and is no more than allowed; and
/// all such texts are read.
pub proof fn numbers_are_read_from_digits(digits: Seq<char>, max: nat)
    requires
        digits.len() > 0 ==> digits[0] != '+',
    ensures
        unsigned_reading(digits, max) is Some <==> {
            &&& digits.len() > 0
            &&& (forall|i: int| 0 <= i < digits.len() ==> '0' <= #[trigger] digits[i] <= '9')
            &&& decimal_value(digits) <= max
        },
        unsigned_reading(digits, max) matches Some(n) ==> n <= max,
        unsigned_reading(seq!['+'] + digits, max) == unsigned_reading(digits, max),
{
    let signed = seq!['+'] + digits;
    assert(signed.skip(1) =~= digits);
    if all_digits(digits) {
        assert forall|i: int| 0 <= i < digits.len() implies '0' <= #[trigger] digits[i] <= '9' by {
            assert(is_decimal_digit(digits[i]));
        }
    }
    if digits.len() > 0 && forall|i: int|
        0 <= i < digits.len() ==> '0' <= #[trigger] digits[i] <= '9' {
        assert forall|i: int| 0 <= i < digits.len() implies is_decimal_digit(#[trigger] digits[i]) by {}
        assert(all_digits(digits));
    }
}

/// A number less than nought is written with a minus sign in front of what it would be above.
pub proof fn numbers_below_nought_have_a_sign(n: nat)
    requires
        n > 0,
    ensures
        signed_decimal(-n) == seq!['-'] + decimal(n),
        signed_decimal(n as int) == decimal(n),
{
}

/// No two numbers have the same hexadecimal digits, and the digits are those of the base.
pub proof fn hexadecimals_tell_numbers_apart(a: nat, b: nat)
    ensures
        hexadecimal(a) == hexadecimal(b) ==> a == b,
        hexadecimal(a).len() > 0,
        forall|i: int|
            0 <= i < hexadecimal(a).len() ==> {
                let c = #[trigger] hexadecimal(a)[i];
                '0' <= c <= '9' || 'a' <= c <= 'f'
            },
    decreases a,
{
    let x = hexadecimal(a);
    let y = hexadecimal(b);
    if a >= 16 {
        hexadecimals_tell_numbers_apart(a / 16, b / 16);
        assert(x.drop_last() =~= hexadecimal(a / 16));
        assert forall|i: int| 0 <= i < x.len() implies {
            let c = #[trigger] x[i];
            '0' <= c <= '9' || 'a' <= c <= 'f'
        } by {
            if i < x.len() - 1 {
                assert(x[i] == hexadecimal(a / 16)[i]);
            }
        }
        if x == y {
            if b >= 16 {
                assert(y.drop_last() =~= hexadecimal(b / 16));
                lemma_digits_differ(a % 16, b % 16);
                assert(x.last() == digit_char(a % 16));
                assert(y.last() == digit_char(b % 16));
            } else {
                lemma_some_digit(a / 16);
                assert(x.len() == hexadecimal(a / 16).len() + 1);
            }
        }
    } else if x == y {
        if b >= 16 {
            lemma_some_digit(b / 16);
            assert(y.len() == hexadecimal(b / 16).len() + 1);
        } else {
            lemma_digits_differ(a, b);
            assert(x[0] == y[0]);
        }
    }
}

proof fn lemma_some_digit(n: nat)
    ensures
        hexadecimal(n).len() > 0,
{
}

proof fn lemma_digits_differ(a: nat, b: nat)
    requires
        a < 16,
        b < 16,
    ensures
        digit_char(a) == digit_char(b) ==> a == b,
{
}

/// Padding fills up with noughts from the left, and cuts nothing.
pub proof fn padding_fills_up_from_the_left(s: Seq<char>, width: nat)
    ensures
        zero_padded(s, width).len() == if s.len() < width {
            width
        } else {
            s.len()
        },
        zero_padded(s, width).skip(zero_padded(s, width).len() - s.len()) == s,
        forall|i: int|
            0 <= i < zero_padded(s, width).len() - s.len() ==> #[trigger] zero_padded(s, width)[i]
                == '0',
{
    let padded = zero_padded(s, width);
    assert(padded.skip(padded.len() - s.len()) =~= s);
}

/// A whole number is written as what it is, whatever its sign.
pub proof fn whole_numbers_keep_their_sign(n: int)
    requires
        i64::MIN <= n <= u64::MAX,
    ensures
        n >= 0 ==> signed_view(n) == JsonView::Number(NumberView::Unsigned(n as u64)),
        n < 0 ==> signed_view(n) == JsonView::Number(NumberView::Negative(n as i64)),
{
}

// ---------------------------------------------------------------------------
// Times
// ---------------------------------------------------------------------------

/// Outside leap seconds, a point in time that lies a span behind another is that span away, and
/// the way back is as long.
pub proof fn times_are_as_far_apart_as_they_lie(earlier: Timestamp, later: Timestamp, between: Timestamp)
    requires
        earlier.nanos < 1_000_000_000,
        later.nanos < 1_000_000_000,
        between.nanos < 1_000_000_000,
    ensures
        nanos_between(earlier, later) == -nanos_between(later, earlier),
        nanos_between(earlier, between) + nanos_between(between, later) == nanos_between(
            earlier,
            later,
        ),
        earlier.nanos == later.nanos ==> nanos_between(earlier, later) == 1_000_000_000 * (
        later.secs - earlier.secs),
        earlier.secs == later.secs ==> nanos_between(earlier, later) == later.nanos - earlier.nanos,
        nanos_between(earlier, earlier) == 0,
{
}

/// A second is a thousand milliseconds, and spans add up.
pub proof fn spans_add_up(a: u64, b: u64)
    requires
        a + b <= u64::MAX,
        a * 1_000 <= u64::MAX,
    ensures
        seconds((a + b) as u64) == seconds(a) + seconds(b),
        millis((a + b) as u64) == millis(a) + millis(b),
        seconds(a) == millis((a * 1_000) as u64),
        millis(1) == 1_000_000,
{
}

/// Cutting a time to the millisecond takes less than a millisecond off, and cutting it again
/// nothing.
pub proof fn cutting_takes_less_than_a_millisecond(at: Timestamp)
    ensures
        to_the_millisecond(at).secs == at.secs,
        to_the_millisecond(at).nanos <= at.nanos < to_the_millisecond(at).nanos + 1_000_000,
        to_the_millisecond(at).nanos % 1_000_000 == 0,
        to_the_millisecond(to_the_millisecond(at)) == to_the_millisecond(at),
{
}

// ---------------------------------------------------------------------------
// Keys
// ---------------------------------------------------------------------------

/// What is kept under a key is found there, and where several are the first.
pub proof fn what_is_kept_is_found<V>(entries: Seq<(Seq<char>, V)>, key: Seq<char>, at: int)
    ensures
        0 <= at < entries.len() && entries[at].0 == key && (forall|k: int|
            0 <= k < at ==> (#[trigger] entries[k]).0 != key) ==> value_of(entries, key) == Some(
            entries[at].1,
        ),
        value_of(entries, key) is None <==> forall|k: int|
            0 <= k < entries.len() ==> (#[trigger] entries[k]).0 != key,
{
    lemma_key_position(entries, key);
    let found = key_position(entries, key);
    if found < entries.len() {
        assert(entries[found].0 == key);
    }
}

/// What is put under a key that is new comes last, and what is put in place of another keeps its
/// place; all others stay.
pub proof fn what_is_put_has_its_place<V>(
    entries: Seq<(Seq<char>, V)>,
    key: Seq<char>,
    value: V,
)
    ensures
        value_of(entries, key) is None ==> with_value(entries, key, value) == entries.push(
            (key, value),
        ),
        value_of(entries, key) is Some ==> with_value(entries, key, value).len() == entries.len(),
        forall|i: int|
            0 <= i < entries.len() && (#[trigger] entries[i]).0 != key ==> with_value(
                entries,
                key,
                value,
            )[i] == entries[i],
{
    lemma_key_position(entries, key);
}

/// What a text map holds is found under its name, and where several have it the first.
pub proof fn texts_are_found_by_name(pairs: Seq<Pair>, key: Seq<char>, at: int)
    ensures
        0 <= at < pairs.len() && pairs[at].0 == key && (forall|k: int|
            0 <= k < at ==> (#[trigger] pairs[k]).0 != key) ==> lookup(pairs, key) == Some(
            pairs[at].1,
        ),
        lookup(pairs, key) is None <==> forall|k: int|
            0 <= k < pairs.len() ==> (#[trigger] pairs[k]).0 != key,
{
    lemma_pair_index(pairs, key);
    let found = pair_index(pairs, key);
    if found < pairs.len() {
        assert(pairs[found].0 == key);
    }
}

/// A new name comes last in a text map, and one that is there keeps its place; all others stay.
pub proof fn names_keep_their_place(pairs: Seq<Pair>, key: Seq<char>, value: Seq<char>)
    ensures
        lookup(pairs, key) is None ==> inserted(pairs, key, value) == pairs.push((key, value)),
        lookup(pairs, key) is Some ==> inserted(pairs, key, value).len() == pairs.len(),
        forall|i: int|
            0 <= i < pairs.len() && (#[trigger] pairs[i]).0 != key ==> inserted(pairs, key, value)[i]
                == pairs[i],
{
    lemma_pair_index(pairs, key);
}

/// A text map is written with each text under its name, in its place.
pub proof fn text_maps_are_written_whole(pairs: Seq<Pair>)
    ensures
        text_members(pairs).len() == pairs.len(),
        forall|i: int|
            0 <= i < pairs.len() ==> (#[trigger] text_members(pairs)[i]).0 == pairs[i].0
                && text_members(pairs)[i].1 == JsonView::Text(pairs[i].1),
{
}

/// What several texts say is what each says, in its place.
pub proof fn texts_say_what_each_says(texts: Seq<String>)
    ensures
        views(texts).len() == texts.len(),
        forall|i: int| 0 <= i < texts.len() ==> #[trigger] views(texts)[i] == texts[i]@,
{
}

// ---------------------------------------------------------------------------
// Failures
// ---------------------------------------------------------------------------

/// A description of a failed request tells the failure first, and every cause that is no failed
/// request itself.
pub proof fn descriptions_tell_the_causes(failure: Seq<char>, causes: Seq<Cause>, at: int)
    requires
        0 <= at < causes.len(),
        !causes[at].is_request_error,
    ensures
        holds(description(failure, causes), causes[at].text@),
        failure.is_prefix_of(description(failure, causes)),
        description(failure, Seq::empty()) == failure,
{
    let parts = Seq::empty().push(failure) + told(causes);
    lemma_told(causes, at);
    let place = choose|k: int| 0 <= k < told(causes).len() && #[trigger] told(causes)[k]
        == causes[at].text@;
    assert(parts[place + 1] == causes[at].text@);
    joined_texts_hold_each(parts, ": "@, place + 1);
    assert(parts[0] == failure);
    joined_texts_hold_each(parts, ": "@, 0);
    let alone = Seq::empty().push(failure) + told(Seq::empty());
    assert(alone =~= seq![failure]);
    assert(description(failure, Seq::empty()) =~= failure);
}

proof fn lemma_told(causes: Seq<Cause>, at: int)
    requires
        0 <= at < causes.len(),
        !causes[at].is_request_error,
    ensures
        exists|k: int| 0 <= k < told(causes).len() && #[trigger] told(causes)[k] == causes[at].text@,
    decreases causes.len(),
{
    let front = causes.drop_last();
    if at < causes.len() - 1 {
        assert(front[at] == causes[at]);
        lemma_told(front, at);
        let k = choose|k: int| 0 <= k < told(front).len() && #[trigger] told(front)[k]
            == causes[at].text@;
        assert(told(causes)[k] == causes[at].text@);
    } else {
        assert(told(causes)[told(causes).len() - 1] == causes[at].text@);
    }
}

/// An answer that cannot be read is described with why not.
pub proof fn unreadable_answers_say_why(words: Seq<char>)
    ensures
        words.is_suffix_of(undecodable(words)),
        "error decoding response body: "@.is_prefix_of(undecodable(words)),
{
    let text = undecodable(words);
    assert(text.skip(text.len() - words.len()) =~= words);
    assert(text.take("error decoding response body: "@.len() as int)
        =~= "error decoding response body: "@);
}

/// An error tells its type and its message, under the name for errors.
pub proof fn errors_tell_their_type_and_message(error_type: Seq<char>, message: Seq<char>)
    ensures
        error_body(error_type, message).member("error"@) matches Some(detail) && detail.member(
            "type"@,
        ) == Some(JsonView::Text(error_type)) && detail.member("message"@) == Some(
            JsonView::Text(message),
        ),
{
    broadcast use group_find_member;

    reveal_strlit("type");
    reveal_strlit("message");
    assert("type"@[0] != "message"@[0]);
}

} // verus!
