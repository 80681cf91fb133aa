//! What holds of every document: how its members are found, what a reader makes of what stands
//! in it, and where a reader says that something is wrong.

use vstd::prelude::*;

use crate::decode::{
    debug_text, excess_refusal, field_view, found_words, missing_words, record_refusal,
    string_field, wrong_type_words,
};
use crate::digits::{decimal, signed_decimal};
use crate::json::{lemma_member_index, member_index, parsed_bytes, text_list, JsonView, NumberView};
use crate::located::{
    bracket_end, column_of, first_named, has_member, item_at, items_from, items_walk, left_out,
    lemma_rule_index, line_of, located, member_at, member_walk, members_from, members_walk, piece,
    record_fault, rule_index, skip_gap, string_end, text_record_fault, texts_fault, value_end,
    value_fault, value_walk, word_end, FaultView, Kind, PlacedView, RuleView, Walk,
};
use crate::text_laws::{between, holds};

verus! {

// ---------------------------------------------------------------------------
// Members
// ---------------------------------------------------------------------------

/// A member is found under its name: the first that has it, and none where no member has it.
pub proof fn members_are_found_by_name(members: Seq<(Seq<char>, JsonView)>, key: Seq<char>, at: int)
    ensures
        0 <= at < members.len() && members[at].0 == key && (forall|k: int|
            0 <= k < at ==> (#[trigger] members[k]).0 != key) ==> JsonView::Object(members).member(
            key,
        ) == Some(members[at].1),
        JsonView::Object(members).member(key) is None <==> forall|k: int|
            0 <= k < members.len() ==> (#[trigger] members[k]).0 != key,
{
    lemma_member_index(members, key);
    let found = member_index(members, key);
    if found < members.len() {
        assert(members[found].0 == key);
    }
}

/// Only an object has members.
pub proof fn only_objects_have_members(json: JsonView, key: Seq<char>)
    requires
        !(json is Object),
    ensures
        json.member(key) is None,
{
}

/// A field of a record is the member of that name in an object, and the item at that place in a
/// list.
pub proof fn fields_stand_by_name_or_place(json: JsonView, name: Seq<char>, place: int)
    ensures
        json is Object ==> field_view(json, name, place) == json.member(name),
        json matches JsonView::Array(items) ==> {
            &&& 0 <= place < items.len() ==> field_view(json, name, place) == Some(items[place])
            &&& place >= items.len() ==> field_view(json, name, place) is None
        },
        !(json is Object) && !(json is Array) ==> field_view(json, name, place) is None,
{
}

/// A list of texts holds each of them, in its place.
pub proof fn lists_hold_their_texts(texts: Seq<Seq<char>>)
    ensures
        text_list(texts) matches JsonView::Array(items) && items.len() == texts.len() && (forall|
            i: int,
        |
            0 <= i < texts.len() ==> #[trigger] items[i] == JsonView::Text(texts[i])),
{
}

/// A text is read when it is there and is one; otherwise the words say what is missing, or what
/// stands in its place.
pub proof fn texts_are_read_when_there(field: Option<JsonView>, name: Seq<char>)
    ensures
        string_field(field, name) is Ok <==> (field matches Some(value) && value is Text),
        string_field(field, name) matches Ok(text) ==> field == Some(JsonView::Text(text)),
        field is None ==> (string_field(field, name) matches Err(words) && holds(words, name)),
        field matches Some(found) ==> (string_field(field, name) matches Err(words) ==> holds(
            words,
            found_words(found),
        ) && "a string"@.is_suffix_of(words)),
{
    let missing = missing_words(name);
    assert(missing =~= between("missing field `"@, name, "`"@));
    match field {
        Some(found) => {
            lemma_words_hold(found, "a string"@);
        },
        None => {},
    }
}

/// Words on a value of the wrong kind say what was found, and what was expected.
pub proof fn lemma_words_hold(found: JsonView, expected: Seq<char>)
    ensures
        holds(wrong_type_words(found, expected), found_words(found)),
        expected.is_suffix_of(wrong_type_words(found, expected)),
{
    let words = wrong_type_words(found, expected);
    assert(words =~= between(
        "invalid type: "@,
        found_words(found),
        ", expected "@ + expected,
    ));
    assert(words.skip(words.len() - expected.len()) =~= expected);
}

/// Whatever is no object and no list is refused as a record, a list with too few items is
/// refused, and nothing else; a list with too many is refused apart.
pub proof fn records_are_objects_or_lists(
    json: JsonView,
    what: Seq<char>,
    needed: nat,
    size: nat,
)
    ensures
        record_refusal(json, what, needed, size) is None <==> (json is Object || (
        json matches JsonView::Array(items) && items.len() >= needed)),
        excess_refusal(json, size) is None <==> (json matches JsonView::Array(items) ==> items.len()
            <= size),
        !(json is Object) && !(json is Array) ==> (record_refusal(
            json,
            what,
            needed,
            size,
        ) matches Some(words) && what.is_suffix_of(words)),
{
    let words = wrong_type_words(json, "struct "@ + what);
    assert(words.skip(words.len() - what.len()) =~= what);
}

// ---------------------------------------------------------------------------
// Where the parts of a text stand
// ---------------------------------------------------------------------------

/// Whether a byte is a space, a tab, a line feed or a carriage return.
pub open spec fn is_blank(byte: u8) -> bool {
    byte == 0x20 || byte == 0x09 || byte == 0x0a || byte == 0x0d
}

/// A gap ends at the first byte that is not blank.
pub proof fn gaps_end_at_the_first_byte_that_is_not_blank(b: Seq<u8>, from: int)
    requires
        0 <= from <= b.len(),
    ensures
        from <= skip_gap(b, from) <= b.len(),
        forall|k: int| from <= k < skip_gap(b, from) ==> is_blank(#[trigger] b[k]),
        skip_gap(b, from) < b.len() ==> !is_blank(b[skip_gap(b, from)]),
    decreases b.len() - from,
{
    if from < b.len() && is_blank(b[from]) {
        gaps_end_at_the_first_byte_that_is_not_blank(b, from + 1);
    }
}

/// Whether a byte ends a number or a word: a blank, a comma, a colon or a closing bracket.
pub open spec fn is_separator(byte: u8) -> bool {
    is_blank(byte) || byte == 0x2c || byte == 0x3a || byte == 0x5d || byte == 0x7d
}

/// A word ends at the first separator.
pub proof fn words_end_at_the_first_separator(b: Seq<u8>, from: int)
    requires
        0 <= from <= b.len(),
    ensures
        from <= word_end(b, from) <= b.len(),
        forall|k: int| from <= k < word_end(b, from) ==> !is_separator(#[trigger] b[k]),
        word_end(b, from) < b.len() ==> is_separator(b[word_end(b, from)]),
    decreases b.len() - from,
{
    if from < b.len() && !is_separator(b[from]) {
        words_end_at_the_first_separator(b, from + 1);
    }
}

/// A string ends behind the first quote that no backslash stands before; a backslash takes the
/// byte behind it along.
pub proof fn strings_end_behind_their_quote(b: Seq<u8>, from: int, to: int)
    requires
        0 <= from <= to < b.len(),
        forall|k: int| from <= k < to ==> #[trigger] b[k] != 0x22 && b[k] != 0x5c,
    ensures
        b[to] == 0x22 ==> string_end(b, from) == to + 1,
        b[to] == 0x5c && to + 1 < b.len() ==> string_end(b, from) == string_end(b, to + 2),
    decreases to - from,
{
    if from < to {
        assert(b[from] != 0x22 && b[from] != 0x5c);
        strings_end_behind_their_quote(b, from + 1, to);
    }
}

/// A value that is a string ends where the string does, one that is a number or a word where
/// the word does, and one in brackets behind the bracket that closes it.
pub proof fn values_end_by_how_they_begin(b: Seq<u8>, from: int)
    requires
        0 <= from < b.len(),
    ensures
        b[from] == 0x22 ==> value_end(b, from) == string_end(b, from + 1),
        b[from] == 0x5b || b[from] == 0x7b ==> value_end(b, from) == bracket_end(b, from + 1, 1),
        b[from] != 0x22 && b[from] != 0x5b && b[from] != 0x7b ==> value_end(b, from) == word_end(
            b,
            from,
        ),
{
}

/// Inside brackets, what is no bracket and no quote is passed over, and the closing bracket ends
/// the innermost one that is open.
pub proof fn brackets_end_behind_the_one_that_closes(b: Seq<u8>, from: int, to: int, depth: nat)
    requires
        0 <= from <= to < b.len(),
        depth > 0,
        forall|k: int|
            from <= k < to ==> #[trigger] b[k] != 0x22 && b[k] != 0x5b && b[k] != 0x7b && b[k]
                != 0x5d && b[k] != 0x7d,
    ensures
        (b[to] == 0x5d || b[to] == 0x7d) && depth == 1 ==> bracket_end(b, from, depth) == to + 1,
        b[to] == 0x5b || b[to] == 0x7b ==> bracket_end(b, from, depth) == bracket_end(
            b,
            to + 1,
            depth + 1,
        ),
        b[to] == 0x22 && to < string_end(b, to + 1) <= b.len() ==> bracket_end(b, from, depth)
            == bracket_end(b, string_end(b, to + 1), depth),
    decreases to - from,
{
    if from < to {
        assert(b[from] != 0x22 && b[from] != 0x5b && b[from] != 0x7b && b[from] != 0x5d && b[from]
            != 0x7d);
        brackets_end_behind_the_one_that_closes(b, from + 1, to, depth);
    } else if b[to] == 0x5d || b[to] == 0x7d {
        assert(bracket_end(b, to + 1, 0) == to + 1);
    }
}

/// What stands in nested brackets ends where the outer ones do, once the inner ones are closed.
pub proof fn nested_brackets_close_one_by_one(b: Seq<u8>, from: int, inner: nat, outer: nat)
    requires
        0 <= from,
        inner > 0,
        outer > 0,
        b.len() > bracket_end(b, from, inner),
    ensures
        bracket_end(b, from, inner + outer) == bracket_end(b, bracket_end(b, from, inner), outer),
    decreases b.len() - from,
{
    if from < b.len() {
        if b[from] == 0x22 {
            let next = string_end(b, from + 1);
            if from < next <= b.len() {
                nested_brackets_close_one_by_one(b, next, inner, outer);
            } else {
                assert(bracket_end(b, from, outer) == from);
            }
        } else if b[from] == 0x5b || b[from] == 0x7b {
            nested_brackets_close_one_by_one(b, from + 1, inner + 1, outer);
        } else if b[from] == 0x5d || b[from] == 0x7d {
            if inner > 1 {
                nested_brackets_close_one_by_one(b, from + 1, (inner - 1) as nat, outer);
            } else {
                assert((inner + outer - 1) as nat == outer);
                assert(bracket_end(b, from + 1, 0) == from + 1);
            }
        } else {
            nested_brackets_close_one_by_one(b, from + 1, inner, outer);
        }
    }
}

/// The line of a place is one more than the line feeds before it.
pub proof fn lines_are_counted_by_line_feeds(b: Seq<u8>, at: int)
    requires
        0 <= at <= b.len(),
    ensures
        line_of(b, at) == 1 + b.take(at).filter(|byte: u8| byte == 0x0a).len(),
    decreases at,
{
    reveal(Seq::filter);
    let feeds = |byte: u8| byte == 0x0a;
    if at > 0 {
        lines_are_counted_by_line_feeds(b, at - 1);
        assert(b.take(at).drop_last() =~= b.take(at - 1));
        assert(b.take(at).last() == b[at - 1]);
    }
}

/// The column of a place is how far it stands behind the last line feed, or behind the start.
pub proof fn columns_are_counted_from_the_last_line_feed(b: Seq<u8>, start: int, at: int)
    requires
        0 <= start <= at <= b.len(),
        start == 0 || b[start - 1] == 0x0a,
        forall|k: int| start <= k < at ==> #[trigger] b[k] != 0x0a,
    ensures
        column_of(b, at) == at - start,
    decreases at - start,
{
    if start < at {
        assert(b[at - 1] != 0x0a);
        columns_are_counted_from_the_last_line_feed(b, start, at - 1);
    }
}

/// A fault is told with its words, its line and its column.
pub proof fn faults_are_told_with_their_place(b: Seq<u8>, fault: FaultView)
    ensures
        fault.words.is_prefix_of(located(b, fault)),
        holds(located(b, fault), " at line "@ + decimal(line_of(b, fault.at)) + " column "@),
        decimal(column_of(b, fault.at)).is_suffix_of(located(b, fault)),
{
    let told = located(b, fault);
    let line = decimal(line_of(b, fault.at));
    let column = decimal(column_of(b, fault.at));
    assert(told.take(fault.words.len() as int) =~= fault.words);
    assert(told.skip(told.len() - column.len()) =~= column);
    assert(told =~= between(fault.words, " at line "@ + line + " column "@, column));
}

// ---------------------------------------------------------------------------
// What a field may be
// ---------------------------------------------------------------------------

/// Whether each of these members is a text.
pub open spec fn are_texts(b: Seq<u8>, members: Seq<PlacedView>) -> bool {
    forall|i: int|
        0 <= i < members.len() ==> (parsed_bytes(
            piece(b, (#[trigger] members[i]).start, members[i].end),
        ) matches Ok(json) ==> json is Text)
}

/// Nothing is wrong with a value when it is of its kind, and only then.
pub proof fn values_of_their_kind_have_no_fault(
    b: Seq<u8>,
    kind: Kind,
    start: int,
    end: int,
    json: JsonView,
)
    requires
        parsed_bytes(piece(b, start, end)) == Ok::<JsonView, Seq<char>>(json),
    ensures
        kind is Anything ==> value_fault(b, kind, start, end) is None,
        kind is Text ==> (value_fault(b, kind, start, end) is None <==> json is Text),
        kind is OptionalText ==> (value_fault(b, kind, start, end) is None <==> json is Text
            || json is Null),
        kind is OptionalBool ==> (value_fault(b, kind, start, end) is None <==> json is Bool
            || json is Null),
        kind is OptionalMap ==> (value_fault(b, kind, start, end) is None <==> json is Object
            || json is Null),
        kind is TextMap ==> (value_fault(b, kind, start, end) is None <==> json is Object
            && are_texts(b, members_from(b, start + 1))),
        kind is List ==> (value_fault(b, kind, start, end) is None <==> json is Array),
        value_walk(b, kind, start, end) is Through <==> value_fault(b, kind, start, end) is None,
        !(value_walk(b, kind, start, end) is Broken),
        !(kind is TextMap) ==> (value_fault(b, kind, start, end) matches Some(fault) ==> {
            &&& holds(fault.words, found_words(json))
            &&& fault.at == if json is Array || json is Object {
                start
            } else {
                end
            }
        }),
{
    lemma_are_texts(b, members_from(b, start + 1));
    lemma_words_hold(json, "a string"@);
    lemma_words_hold(json, "a boolean"@);
    lemma_words_hold(json, "a map"@);
    lemma_words_hold(json, "a sequence"@);
}

proof fn lemma_are_texts(b: Seq<u8>, members: Seq<PlacedView>)
    ensures
        texts_fault(b, members) is None <==> are_texts(b, members),
    decreases members.len(),
{
    if members.len() > 0 {
        let before = members.drop_last();
        lemma_are_texts(b, before);
        let last = members.len() - 1;
        assert(members.last() == members[last]);
        if are_texts(b, before) {
            if texts_fault(b, members) is None {
                assert forall|i: int| 0 <= i < members.len() implies (parsed_bytes(
                    piece(b, (#[trigger] members[i]).start, members[i].end),
                ) matches Ok(json) ==> json is Text) by {
                    if i < last {
                        assert(before[i] == members[i]);
                    }
                }
            }
        } else {
            let i = choose|i: int|
                0 <= i < before.len() && !(parsed_bytes(
                    piece(b, (#[trigger] before[i]).start, before[i].end),
                ) matches Ok(json) ==> json is Text);
            assert(before[i] == members[i]);
        }
    }
}

/// Whether some member has this name.
pub open spec fn is_there(members: Seq<PlacedView>, name: Seq<char>) -> bool {
    exists|k: int| 0 <= k < members.len() && (#[trigger] members[k]).key == name
}

/// Whether a field is the first that has a name.
pub open spec fn goes_by(rules: Seq<RuleView>, r: int, name: Seq<char>) -> bool {
    &&& 0 <= r < rules.len()
    &&& rules[r].name == name
    &&& forall|q: int| 0 <= q < r ==> (#[trigger] rules[q]).name != name
}

/// Whether a member is what the fields of a record allow behind these members: of its kind, and
/// the first of its name; or no field of the record at all.
pub open spec fn is_allowed(
    b: Seq<u8>,
    rules: Seq<RuleView>,
    before: Seq<PlacedView>,
    member: PlacedView,
) -> bool {
    &&& parsed_bytes(piece(b, member.start, member.end)) is Ok
    &&& forall|r: int| #[trigger]
        goes_by(rules, r, member.key) ==> value_fault(b, rules[r].kind, member.start, member.end)
            is None && !is_there(before, member.key)
}

/// A reader comes through the members of a record when each is allowed, and only then.
pub proof fn readers_come_through_allowed_members(
    b: Seq<u8>,
    rules: Seq<RuleView>,
    members: Seq<PlacedView>,
)
    ensures
        members_walk(b, rules, members) is Through <==> forall|i: int|
            0 <= i < members.len() ==> #[trigger] is_allowed(
                b,
                rules,
                members.take(i),
                members[i],
            ),
    decreases members.len(),
{
    if members.len() > 0 {
        let before = members.drop_last();
        let last = members.len() - 1;
        let own = members[last];
        readers_come_through_allowed_members(b, rules, before);
        assert(members.take(last) =~= before);
        lemma_allowed(b, rules, before, own);
        assert forall|i: int| 0 <= i < last implies members.take(i) == #[trigger] before.take(i) by {
            assert(members.take(i) =~= before.take(i));
        }
        if members_walk(b, rules, members) is Through {
            assert forall|i: int| 0 <= i < members.len() implies #[trigger] is_allowed(
                b,
                rules,
                members.take(i),
                members[i],
            ) by {
                if i < last {
                    assert(is_allowed(b, rules, before.take(i), before[i]));
                }
            }
        }
        if forall|i: int|
            0 <= i < members.len() ==> #[trigger] is_allowed(
                b,
                rules,
                members.take(i),
                members[i],
            ) {
            assert forall|i: int| 0 <= i < before.len() implies #[trigger] is_allowed(
                b,
                rules,
                before.take(i),
                before[i],
            ) by {
                assert(is_allowed(b, rules, members.take(i), members[i]));
            }
            assert(is_allowed(b, rules, members.take(last), members[last]));
        }
    }
}

proof fn lemma_allowed(
    b: Seq<u8>,
    rules: Seq<RuleView>,
    before: Seq<PlacedView>,
    member: PlacedView,
)
    ensures
        member_walk(b, rules, before, member) is Through <==> is_allowed(b, rules, before, member),
{
    let key = member.key;
    lemma_rule_index(rules, key);
    let at = rule_index(rules, key);
    assert(has_member(before, key) == is_there(before, key));
    if at < rules.len() {
        assert(goes_by(rules, at, key));
        assert forall|r: int| #[trigger] goes_by(rules, r, key) implies r == at by {
            if r < at {
                assert(rules[r].name != key);
            } else if at < r {
                assert(rules[at].name != key);
            }
        }
    } else {
        assert forall|r: int| !(#[trigger] goes_by(rules, r, key)) by {
            if goes_by(rules, r, key) {
                assert(rules[r].name != key);
            }
        }
    }
}

/// A field is missing when it is needed and no member has its name; the first such is told.
pub proof fn the_first_missing_field_is_told(rules: Seq<RuleView>, members: Seq<PlacedView>)
    ensures
        left_out(rules, members) is None <==> forall|r: int|
            0 <= r < rules.len() && (#[trigger] rules[r]).needed ==> is_there(
                members,
                rules[r].name,
            ),
        forall|r: int|
            0 <= r < rules.len() && (#[trigger] rules[r]).needed && !is_there(
                members,
                rules[r].name,
            ) && (forall|q: int|
                0 <= q < r && (#[trigger] rules[q]).needed ==> is_there(members, rules[q].name))
                ==> left_out(rules, members) == Some(rules[r].name),
    decreases rules.len(),
{
    if rules.len() > 0 {
        let rest = rules.skip(1);
        the_first_missing_field_is_told(rest, members);
        assert(has_member(members, rules[0].name) == is_there(members, rules[0].name));
        if !(rules[0].needed && !is_there(members, rules[0].name)) {
            assert forall|r: int| 0 <= r < rest.len() implies #[trigger] rest[r] == rules[r + 1] by {}
            if left_out(rest, members) is None {
                assert forall|r: int|
                    0 <= r < rules.len() && (#[trigger] rules[r]).needed implies is_there(
                    members,
                    rules[r].name,
                ) by {
                    if r > 0 {
                        assert(rest[r - 1] == rules[r]);
                    }
                }
            } else {
                let r = choose|r: int|
                    0 <= r < rest.len() && (#[trigger] rest[r]).needed && !is_there(
                        members,
                        rest[r].name,
                    );
                assert(rules[r + 1].needed && !is_there(members, rules[r + 1].name));
            }
            assert forall|r: int|
                0 <= r < rules.len() && (#[trigger] rules[r]).needed && !is_there(
                    members,
                    rules[r].name,
                ) && (forall|q: int|
                    0 <= q < r && (#[trigger] rules[q]).needed ==> is_there(
                        members,
                        rules[q].name,
                    )) implies left_out(rules, members) == Some(rules[r].name) by {
                assert(r > 0);
                assert(rest[r - 1] == rules[r]);
                assert forall|q: int| 0 <= q < r - 1 && (#[trigger] rest[q]).needed implies is_there(
                    members,
                    rest[q].name,
                ) by {
                    assert(rest[q] == rules[q + 1]);
                }
            }
        } else {
            assert(rules[0].needed && !is_there(members, rules[0].name));
        }
    }
}

/// An object has no fault when a reader comes through its members and no field that is needed
/// is missing; and where a reader comes through, what is missing is told at its end.
pub proof fn objects_without_a_fault_have_what_is_needed(
    b: Seq<u8>,
    what: Seq<char>,
    rules: Seq<RuleView>,
    least: nat,
    start: int,
    end: int,
)
    requires
        0 <= start < b.len(),
        b[start] == 0x7b,
        parsed_bytes(piece(b, start, end)) is Ok,
    ensures
        ({
            let members = members_from(b, start + 1);
            let fault = record_fault(b, what, rules, least, start, end);
            &&& members_walk(b, rules, members) is Through ==> (fault is None <==> forall|r: int|
                0 <= r < rules.len() && (#[trigger] rules[r]).needed ==> is_there(
                    members,
                    rules[r].name,
                ))
            &&& members_walk(b, rules, members) is Through ==> (fault matches Some(fault)
                ==> fault.at == end)
            &&& members_walk(b, rules, members) matches Walk::Fault(first) ==> fault == Some(first)
        }),
{
    the_first_missing_field_is_told(rules, members_from(b, start + 1));
}

/// The first member of a name is the one that is taken.
pub proof fn the_first_of_a_name_is_taken(members: Seq<PlacedView>, name: Seq<char>, at: int)
    ensures
        0 <= at < members.len() && members[at].key == name && (forall|k: int|
            0 <= k < at ==> (#[trigger] members[k]).key != name) ==> first_named(members, name)
            == Some((members[at].start, members[at].end)),
        first_named(members, name) is None <==> !is_there(members, name),
    decreases members.len(),
{
    if members.len() > 0 {
        let rest = members.skip(1);
        if members[0].key == name {
            assert(is_there(members, name));
        } else {
            the_first_of_a_name_is_taken(rest, name, at - 1);
            if 0 <= at < members.len() && members[at].key == name && (forall|k: int|
                0 <= k < at ==> (#[trigger] members[k]).key != name) {
                assert(at > 0);
                assert(rest[at - 1] == members[at]);
                assert forall|k: int| 0 <= k < at - 1 implies (#[trigger] rest[k]).key != name by {
                    assert(rest[k] == members[k + 1]);
                }
            }
            if is_there(members, name) {
                let k = choose|k: int| 0 <= k < members.len() && (#[trigger] members[k]).key == name;
                assert(rest[k - 1].key == name);
            }
            if is_there(rest, name) {
                let k = choose|k: int| 0 <= k < rest.len() && (#[trigger] rest[k]).key == name;
                assert(members[k + 1].key == name);
            }
        }
    }
}

/// A reader comes through the items of a record when each that stands in the place of a field is
/// of its kind; what stands behind the last field is not looked at.
pub proof fn readers_come_through_items_of_their_kind(
    b: Seq<u8>,
    rules: Seq<RuleView>,
    items: Seq<(int, int)>,
)
    ensures
        items_walk(b, rules, items) is Through <==> forall|i: int|
            0 <= i < items.len() && i < rules.len() ==> value_walk(
                b,
                rules[i].kind,
                (#[trigger] items[i]).0,
                items[i].1,
            ) is Through,
    decreases items.len(),
{
    if items.len() > 0 {
        let before = items.drop_last();
        let last = items.len() - 1;
        readers_come_through_items_of_their_kind(b, rules, before);
        assert forall|i: int| 0 <= i < last implies #[trigger] before[i] == items[i] by {}
        assert(items.last() == items[last]);
        if items_walk(b, rules, items) is Through {
            assert forall|i: int| 0 <= i < items.len() && i < rules.len() implies value_walk(
                b,
                rules[i].kind,
                (#[trigger] items[i]).0,
                items[i].1,
            ) is Through by {
                if i < last {
                    assert(before[i] == items[i]);
                }
            }
        } else if forall|i: int|
            0 <= i < items.len() && i < rules.len() ==> value_walk(
                b,
                rules[i].kind,
                (#[trigger] items[i]).0,
                items[i].1,
            ) is Through {
            assert forall|i: int| 0 <= i < before.len() && i < rules.len() implies value_walk(
                b,
                rules[i].kind,
                (#[trigger] before[i]).0,
                before[i].1,
            ) is Through by {
                assert(before[i] == items[i]);
            }
            assert(last < rules.len() ==> value_walk(
                b,
                rules[last].kind,
                items[last].0,
                items[last].1,
            ) is Through);
        }
    }
}

/// A list with too few items for a record is refused at its end, one with too many behind the
/// first that is too much.
pub proof fn lists_have_as_many_items_as_fields(
    b: Seq<u8>,
    what: Seq<char>,
    rules: Seq<RuleView>,
    least: nat,
    start: int,
    end: int,
)
    requires
        0 <= start < b.len(),
        b[start] == 0x5b,
        parsed_bytes(piece(b, start, end)) is Ok,
        items_walk(b, rules, items_from(b, start + 1)) is Through,
    ensures
        ({
            let items = items_from(b, start + 1);
            let fault = record_fault(b, what, rules, least, start, end);
            &&& fault is None <==> least <= items.len() <= rules.len()
            &&& items.len() > rules.len() ==> (fault matches Some(fault) && fault.at
                == items[rules.len() as int].0 + 1)
            &&& items.len() < least && items.len() <= rules.len() ==> (fault matches Some(fault)
                && fault.at == end)
        }),
{
}

/// Whatever is neither an object nor a list is refused as a record, with what was found.
pub proof fn records_begin_with_a_bracket(
    b: Seq<u8>,
    what: Seq<char>,
    rules: Seq<RuleView>,
    least: nat,
    json: JsonView,
    start: int,
    end: int,
)
    requires
        0 <= start < b.len(),
        b[start] != 0x7b,
        b[start] != 0x5b,
        parsed_bytes(piece(b, start, end)) == Ok::<JsonView, Seq<char>>(json),
    ensures
        record_fault(b, what, rules, least, start, end) matches Some(fault) && holds(
            fault.words,
            found_words(json),
        ) && what.is_suffix_of(fault.words),
{
    lemma_words_hold(json, "struct "@ + what);
    let words = wrong_type_words(json, "struct "@ + what);
    assert(words.skip(words.len() - what.len()) =~= what);
}

/// A member that has a value has its name in front of a colon, and the value behind it, up to
/// where a value that begins there ends; the name follows the opening bracket or a comma.
pub proof fn members_stand_behind_their_name(b: Seq<u8>, from: int)
    requires
        0 < from <= b.len(),
    ensures
        member_at(b, from) matches Some(member) ==> (member.start > member.colon ==> {
            let name = if b[from - 1] == 0x7b {
                skip_gap(b, from)
            } else {
                skip_gap(b, skip_gap(b, from) + 1)
            };
            &&& b[from - 1] != 0x7b ==> b[skip_gap(b, from)] == 0x2c
            &&& b[member.colon] == 0x3a
            &&& member.start == skip_gap(b, member.colon + 1)
            &&& member.end == value_end(b, member.start)
            &&& b[name] == 0x22 ==> parsed_bytes(piece(b, name, string_end(b, name + 1))) == Ok::<
                JsonView,
                Seq<char>,
            >(JsonView::Text(member.key))
            &&& b[name] == 0x22 ==> member.colon == skip_gap(b, string_end(b, name + 1))
        }),
{
    gaps_end_at_the_first_byte_that_is_not_blank(b, from);
    let first = skip_gap(b, from);
    assert(skip_gap(b, b.len() as int) == b.len());
    if first < b.len() {
        gaps_end_at_the_first_byte_that_is_not_blank(b, first + 1);
    }
}

/// The first item of a list stands behind the opening bracket and each other one behind a comma,
/// up to where a value that begins there ends.
pub proof fn items_stand_behind_a_comma(b: Seq<u8>, from: int)
    requires
        0 < from <= b.len(),
    ensures
        item_at(b, from) matches Some((start, end)) ==> {
            &&& b[from - 1] == 0x5b ==> start == skip_gap(b, from)
            &&& b[from - 1] != 0x5b ==> b[skip_gap(b, from)] == 0x2c && start == skip_gap(
                b,
                skip_gap(b, from) + 1,
            )
            &&& end == value_end(b, start)
        },
{
    assert(value_end(b, b.len() as int) == b.len());
    gaps_end_at_the_first_byte_that_is_not_blank(b, from);
}

/// The members of an object come one behind the other.
pub proof fn members_come_one_behind_the_other(b: Seq<u8>, from: int)
    ensures
        member_at(b, from) is None ==> members_from(b, from).len() == 0,
        member_at(b, from) matches Some(member) ==> {
            &&& members_from(b, from).len() > 0
            &&& members_from(b, from)[0] == member
            &&& members_from(b, from).skip(1) == members_from(b, member.end)
        },
        item_at(b, from) is None ==> items_from(b, from).len() == 0,
        item_at(b, from) matches Some((start, end)) ==> {
            &&& items_from(b, from).len() > 0
            &&& items_from(b, from)[0] == (start, end)
            &&& items_from(b, from).skip(1) == items_from(b, end)
        },
{
    match member_at(b, from) {
        Some(member) => {
            assert(members_from(b, from).skip(1) =~= members_from(b, member.end));
        },
        None => {},
    }
    match item_at(b, from) {
        Some((start, end)) => {
            assert(items_from(b, from).skip(1) =~= items_from(b, end));
        },
        None => {},
    }
}

/// A record that makes up a text begins behind the gap at the start, and ends where the value
/// there does.
pub proof fn texts_hold_one_record(b: Seq<u8>, what: Seq<char>, rules: Seq<RuleView>, least: nat, at: int)
    requires
        0 <= at < b.len(),
        !is_blank(b[at]),
        forall|k: int| 0 <= k < at ==> is_blank(#[trigger] b[k]),
    ensures
        text_record_fault(b, what, rules, least) == record_fault(
            b,
            what,
            rules,
            least,
            at,
            value_end(b, at),
        ),
{
    gaps_end_at_the_first_byte_that_is_not_blank(b, 0);
    let first = skip_gap(b, 0);
    if first < at {
        assert(is_blank(b[first]));
    } else if at < first {
        assert(is_blank(b[at]));
    }
}

/// What was found is told by its kind, and a number or a text with what it says.
pub proof fn what_was_found_is_told(n: u64, m: i64, text: Seq<char>)
    ensures
        holds(found_words(JsonView::Number(NumberView::Unsigned(n))), decimal(n as nat)),
        m < 0 ==> holds(
            found_words(JsonView::Number(NumberView::Negative(m))),
            seq!['-'] + decimal((-m) as nat),
        ),
        holds(found_words(JsonView::Number(NumberView::Float(text))), text),
        debug_text(text).is_suffix_of(found_words(JsonView::Text(text))),
        found_words(JsonView::Bool(true)) != found_words(JsonView::Bool(false)),
        found_words(JsonView::Null) == "null"@,
        forall|items: Seq<JsonView>| #[trigger] found_words(JsonView::Array(items)) == "sequence"@,
        forall|members: Seq<(Seq<char>, JsonView)>| #[trigger]
            found_words(JsonView::Object(members)) == "map"@,
{
    let unsigned = found_words(JsonView::Number(NumberView::Unsigned(n)));
    assert(unsigned =~= between("integer `"@, decimal(n as nat), "`"@));
    let negative = found_words(JsonView::Number(NumberView::Negative(m)));
    assert(negative =~= between("integer `"@, signed_decimal(m as int), "`"@));
    let float = found_words(JsonView::Number(NumberView::Float(text)));
    assert(float =~= between("floating point `"@, text, "`"@));
    let quoted = found_words(JsonView::Text(text));
    assert(quoted.skip(quoted.len() - debug_text(text).len()) =~= debug_text(text));
    reveal_strlit("boolean `true`");
    reveal_strlit("boolean `false`");
    assert("boolean `true`"@[9] != "boolean `false`"@[9]);
}

} // verus!
