//! What holds of every text.

use vstd::prelude::*;

use crate::text::{
    ascii_lower_all, first_index, first_occurrence, is_space, joined, lemma_first_index, lex_less,
    occurs_at, occurs_in, split, trimmed, trimmed_end, trimmed_start,
};

verus! {

/// A text with another before it and another behind it.
pub open spec fn between(before: Seq<char>, part: Seq<char>, after: Seq<char>) -> Seq<char> {
    before + part + after
}

/// Whether a text holds another.
pub open spec fn holds(text: Seq<char>, part: Seq<char>) -> bool {
    exists|before: Seq<char>, after: Seq<char>| text == #[trigger] between(before, part, after)
}

/// Joined texts hold each of them; one alone stands for itself, and none for nothing.
pub proof fn joined_texts_hold_each(parts: Seq<Seq<char>>, separator: Seq<char>, i: int)
    ensures
        0 <= i < parts.len() ==> holds(joined(parts, separator), parts[i]),
        parts.len() == 0 ==> joined(parts, separator).len() == 0,
        parts.len() == 1 ==> joined(parts, separator) == parts[0],
        parts.len() > 0 ==> parts[0].is_prefix_of(joined(parts, separator)) && parts.last().is_suffix_of(
            joined(parts, separator),
        ),
        parts.len() >= 2 ==> joined(parts, separator) == joined(parts.drop_last(), separator)
            + separator + parts.last(),
    decreases parts.len(),
{
    let all = joined(parts, separator);
    if parts.len() == 1 {
        assert(all =~= between(Seq::empty(), parts[0], Seq::empty()));
        assert(all.take(all.len() as int) =~= all);
        assert(all.skip(0) =~= all);
    } else if parts.len() > 1 {
        let front = parts.drop_last();
        joined_texts_hold_each(front, separator, i);
        assert(front[0] == parts[0]);
        assert(all.take(parts[0].len() as int) =~= joined(front, separator).take(
            parts[0].len() as int,
        ));
        assert(all.skip(all.len() - parts.last().len()) =~= parts.last());
        if i == parts.len() - 1 {
            assert(all =~= between(joined(front, separator) + separator, parts[i], Seq::empty()));
        } else if 0 <= i < parts.len() {
            assert(front[i] == parts[i]);
            let (a, b) = choose|a: Seq<char>, b: Seq<char>|
                joined(front, separator) == #[trigger] between(a, parts[i], b);
            assert(all =~= between(a, parts[i], b + separator + parts.last()));
        }
    }
}

/// The parts of a text hold no separator, and the text is its parts with the separators between
/// them: there is one part more than there are separators.
pub proof fn parts_make_up_the_text(s: Seq<char>, separator: char)
    ensures
        split(s, separator).len() > 0,
        forall|i: int|
            0 <= i < split(s, separator).len() ==> !(#[trigger] split(s, separator)[i]).contains(
                separator,
            ),
        joined(split(s, separator), seq![separator]) == s,
        split(s, separator).len() == s.filter(|c: char| c == separator).len() + 1,
    decreases s.len(),
{
    let at = first_index(s, separator);
    let is = |c: char| c == separator;
    lemma_first_index(s, separator);
    if at < s.len() {
        let rest = s.skip(at + 1);
        let head = s.take(at);
        let parts = split(rest, separator);
        parts_make_up_the_text(rest, separator);
        let all = split(s, separator);
        assert(all =~= seq![head] + parts);
        assert forall|i: int| 0 <= i < all.len() implies !(#[trigger] all[i]).contains(separator) by {
            if i > 0 {
                assert(all[i] == parts[i - 1]);
            } else {
                assert(all[i] == head);
                assert forall|k: int| 0 <= k < head.len() implies head[k] != separator by {}
            }
        }
        lemma_joined_front(head, parts, seq![separator]);
        assert(s =~= head + seq![separator] + rest);
        lemma_filter_adds(head, seq![separator] + rest, is);
        lemma_filter_adds(seq![separator], rest, is);
        assert(head + (seq![separator] + rest) =~= s);
        lemma_filter_none(head, is);
        reveal(Seq::filter);
        assert(seq![separator].drop_last() =~= Seq::<char>::empty());
        assert(seq![separator].filter(is).len() == 1) by {
            assert(Seq::<char>::empty().filter(is).len() == 0);
        }
    } else {
        assert(split(s, separator) =~= seq![s]);
        assert forall|k: int| 0 <= k < s.len() implies s[k] != separator by {}
        lemma_filter_none(s, is);
    }
}

/// Joining with one part more in front.
proof fn lemma_joined_front(head: Seq<char>, parts: Seq<Seq<char>>, separator: Seq<char>)
    requires
        parts.len() > 0,
    ensures
        joined(seq![head] + parts, separator) == head + separator + joined(parts, separator),
    decreases parts.len(),
{
    let all = seq![head] + parts;
    if parts.len() == 1 {
        assert(all.drop_last() =~= seq![head]);
        assert(all.last() == parts[0]);
        assert(joined(seq![head], separator) == head);
    } else {
        assert(all.drop_last() =~= seq![head] + parts.drop_last());
        assert(all.last() == parts.last());
        lemma_joined_front(head, parts.drop_last(), separator);
        assert(joined(all, separator) =~= head + separator + joined(parts, separator));
    }
}

/// What is kept of two texts in a row.
proof fn lemma_filter_adds(a: Seq<char>, b: Seq<char>, keep: spec_fn(char) -> bool)
    ensures
        (a + b).filter(keep).len() == a.filter(keep).len() + b.filter(keep).len(),
    decreases b.len(),
{
    reveal(Seq::filter);
    if b.len() == 0 {
        assert(a + b =~= a);
    } else {
        assert((a + b).drop_last() =~= a + b.drop_last());
        assert((a + b).last() == b.last());
        lemma_filter_adds(a, b.drop_last(), keep);
    }
}

/// Nothing is kept of a text in which nothing is to be kept.
proof fn lemma_filter_none(s: Seq<char>, keep: spec_fn(char) -> bool)
    requires
        forall|i: int| 0 <= i < s.len() ==> !keep(#[trigger] s[i]),
    ensures
        s.filter(keep).len() == 0,
    decreases s.len(),
{
    reveal(Seq::filter);
    if s.len() > 0 {
        let before = s.drop_last();
        assert forall|i: int| 0 <= i < before.len() implies !keep(#[trigger] before[i]) by {
            assert(before[i] == s[i]);
        }
        lemma_filter_none(before, keep);
    }
}

/// Trimming takes white space from the ends, all of it and nothing else.
pub proof fn trimming_takes_white_space_from_the_ends(s: Seq<char>)
    ensures
        trimmed(s).len() > 0 ==> !is_space(trimmed(s)[0]) && !is_space(trimmed(s).last()),
        exists|a: int, b: int|
            0 <= a <= b <= s.len() && trimmed(s) == #[trigger] s.subrange(a, b) && (forall|i: int|
                0 <= i < a || b <= i < s.len() ==> is_space(#[trigger] s[i])),
{
    let start = trimmed_start(s);
    lemma_trimmed_start(s);
    lemma_trimmed_end(start);
    let a = s.len() - start.len();
    let b = a + trimmed(s).len();
    assert(trimmed(s) =~= s.subrange(a, b));
    assert forall|i: int| 0 <= i < a || b <= i < s.len() implies is_space(#[trigger] s[i]) by {
        if i >= b {
            assert(start[i - a] == s[i]);
        }
    }
    if trimmed(s).len() > 0 {
        assert(trimmed(s)[0] == start[0]);
    }
}

proof fn lemma_trimmed_start(s: Seq<char>)
    ensures
        trimmed_start(s).len() <= s.len(),
        trimmed_start(s) == s.skip(s.len() - trimmed_start(s).len()),
        forall|i: int| 0 <= i < s.len() - trimmed_start(s).len() ==> is_space(#[trigger] s[i]),
        trimmed_start(s).len() > 0 ==> !is_space(trimmed_start(s)[0]),
    decreases s.len(),
{
    if s.len() > 0 && is_space(s[0]) {
        let rest = s.skip(1);
        lemma_trimmed_start(rest);
        assert(trimmed_start(s) =~= s.skip(s.len() - trimmed_start(s).len()));
        assert forall|i: int| 0 <= i < s.len() - trimmed_start(s).len() implies is_space(
            #[trigger] s[i],
        ) by {
            if i > 0 {
                assert(rest[i - 1] == s[i]);
            }
        }
    } else {
        assert(s.skip(0) =~= s);
    }
}

proof fn lemma_trimmed_end(s: Seq<char>)
    ensures
        trimmed_end(s).len() <= s.len(),
        trimmed_end(s) == s.take(trimmed_end(s).len() as int),
        forall|i: int| trimmed_end(s).len() <= i < s.len() ==> is_space(#[trigger] s[i]),
        trimmed_end(s).len() > 0 ==> !is_space(trimmed_end(s).last()),
    decreases s.len(),
{
    if s.len() > 0 && is_space(s.last()) {
        let rest = s.drop_last();
        lemma_trimmed_end(rest);
        assert(trimmed_end(s) =~= s.take(trimmed_end(s).len() as int));
        assert forall|i: int| trimmed_end(s).len() <= i < s.len() implies is_space(
            #[trigger] s[i],
        ) by {
            if i < rest.len() {
                assert(rest[i] == s[i]);
            }
        }
    } else {
        assert(s.take(s.len() as int) =~= s);
    }
}

/// The first place at which a text occurs in another is one at which it does, and there is none
/// before it; where there is none, it does not occur.
pub proof fn the_first_occurrence_is_the_first(s: Seq<char>, needle: Seq<char>)
    ensures
        match first_occurrence(s, needle) {
            Some(at) => occurs_at(s, needle, at) && forall|k: int|
                0 <= k < at ==> !#[trigger] occurs_at(s, needle, k),
            None => !occurs_in(s, needle),
        },
    decreases s.len(),
{
    assert(needle.is_prefix_of(s) <==> occurs_at(s, needle, 0)) by {
        if needle.is_prefix_of(s) {
            assert(s.subrange(0, needle.len() as int) =~= needle);
        }
        if occurs_at(s, needle, 0) {
            assert(s.subrange(0, needle.len() as int) =~= s.take(needle.len() as int));
        }
    }
    if !needle.is_prefix_of(s) {
        if s.len() == 0 {
            assert forall|k: int| !#[trigger] occurs_at(s, needle, k) by {
                if occurs_at(s, needle, k) {
                    assert(needle.len() == 0);
                    assert(needle =~= Seq::<char>::empty());
                    assert(k == 0);
                }
            }
        } else {
            let rest = s.skip(1);
            the_first_occurrence_is_the_first(rest, needle);
            assert forall|k: int| k > 0 implies (#[trigger] occurs_at(s, needle, k) <==> occurs_at(
                rest,
                needle,
                k - 1,
            )) by {
                if k + needle.len() <= s.len() {
                    assert(s.subrange(k, k + needle.len()) =~= rest.subrange(
                        k - 1,
                        k - 1 + needle.len(),
                    ));
                }
            }
            match first_occurrence(rest, needle) {
                Some(at) => {
                    assert(occurs_at(s, needle, at + 1));
                },
                None => {
                    assert forall|k: int| !#[trigger] occurs_at(s, needle, k) by {
                        if k > 0 {
                            assert(!occurs_at(rest, needle, k - 1));
                        }
                    }
                },
            }
        }
    }
}

/// Small letters are those of the English alphabet; every other character stays, and so does
/// the length.
pub proof fn lower_case_changes_capitals_only(s: Seq<char>, i: int)
    requires
        0 <= i < s.len(),
    ensures
        ascii_lower_all(s).len() == s.len(),
        'A' <= s[i] <= 'Z' ==> ascii_lower_all(s)[i] as u32 == s[i] as u32 + 32,
        !('A' <= s[i] <= 'Z') ==> ascii_lower_all(s)[i] == s[i],
        ascii_lower_all(ascii_lower_all(s)) == ascii_lower_all(s),
{
    assert(ascii_lower_all(ascii_lower_all(s)) =~= ascii_lower_all(s));
}

/// One text stands before another when they agree up to a place, where it ends or has the
/// smaller character.
pub proof fn texts_are_ordered_by_their_first_difference(a: Seq<char>, b: Seq<char>, at: int)
    requires
        0 <= at <= a.len(),
        at < b.len(),
        a.take(at) == b.take(at),
        at < a.len() ==> a[at] != b[at],
    ensures
        lex_less(a, b) <==> at == a.len() || a[at] < b[at],
    decreases at,
{
    if at > 0 {
        assert(a[0] == a.take(at)[0]);
        assert(b[0] == b.take(at)[0]);
        assert(a.skip(1).take(at - 1) =~= a.take(at).skip(1));
        assert(b.skip(1).take(at - 1) =~= b.take(at).skip(1));
        texts_are_ordered_by_their_first_difference(a.skip(1), b.skip(1), at - 1);
    }
}

/// Splitting gives back what was joined, when no part holds the separator.
pub proof fn splitting_undoes_joining(parts: Seq<Seq<char>>, separator: char)
    requires
        parts.len() > 0,
        forall|i: int| 0 <= i < parts.len() ==> !(#[trigger] parts[i]).contains(separator),
    ensures
        split(joined(parts, seq![separator]), separator) == parts,
    decreases parts.len(),
{
    let all = joined(parts, seq![separator]);
    let head = parts[0];
    if parts.len() == 1 {
        lemma_first_index_behind(head, Seq::empty(), separator);
        assert(head + Seq::<char>::empty() =~= head);
        assert(split(all, separator) =~= parts);
    } else {
        let rest = parts.skip(1);
        assert forall|i: int| 0 <= i < rest.len() implies !(#[trigger] rest[i]).contains(
            separator,
        ) by {
            assert(rest[i] == parts[i + 1]);
        }
        splitting_undoes_joining(rest, separator);
        assert(parts =~= seq![head] + rest);
        lemma_joined_front(head, rest, seq![separator]);
        let tail = joined(rest, seq![separator]);
        assert(all =~= head + (seq![separator] + tail));
        lemma_first_index_behind(head, seq![separator] + tail, separator);
        assert(all.take(head.len() as int) =~= head);
        assert(all.skip(head.len() as int + 1) =~= tail);
        assert(split(all, separator) =~= parts);
    }
}

/// The first place of a character behind a text that does not hold it.
pub proof fn lemma_first_index_behind(head: Seq<char>, tail: Seq<char>, c: char)
    requires
        !head.contains(c),
        tail.len() > 0 ==> tail[0] == c,
    ensures
        first_index(head + tail, c) == head.len(),
{
    let all = head + tail;
    lemma_first_index(all, c);
    let at = first_index(all, c);
    if at < head.len() {
        assert(head[at] == all[at]);
        assert(head.contains(c));
    }
    if tail.len() > 0 && at > head.len() {
        assert(all[head.len() as int] == c);
    }
}

/// White space around a text is trimmed away, and a text without any at its ends stays.
pub proof fn white_space_around_is_trimmed(before: Seq<char>, s: Seq<char>, after: Seq<char>)
    requires
        forall|i: int| 0 <= i < before.len() ==> is_space(#[trigger] before[i]),
        forall|i: int| 0 <= i < after.len() ==> is_space(#[trigger] after[i]),
        s.len() > 0,
        !is_space(s[0]),
        !is_space(s.last()),
    ensures
        trimmed(before + s + after) == s,
    decreases before.len() + after.len(),
{
    let all = before + s + after;
    if before.len() > 0 {
        let rest = before.skip(1);
        assert forall|i: int| 0 <= i < rest.len() implies is_space(#[trigger] rest[i]) by {
            assert(rest[i] == before[i + 1]);
        }
        white_space_around_is_trimmed(rest, s, after);
        assert(all.skip(1) =~= rest + s + after);
        assert(all[0] == before[0]);
    } else if after.len() > 0 {
        assert(all =~= s + after);
        assert(trimmed_start(all) == all);
        lemma_end_trimmed(s, after);
    } else {
        assert(all =~= s);
    }
}

proof fn lemma_end_trimmed(s: Seq<char>, after: Seq<char>)
    requires
        forall|i: int| 0 <= i < after.len() ==> is_space(#[trigger] after[i]),
        s.len() > 0,
        !is_space(s.last()),
    ensures
        trimmed_end(s + after) == s,
    decreases after.len(),
{
    if after.len() > 0 {
        let rest = after.drop_last();
        assert forall|i: int| 0 <= i < rest.len() implies is_space(#[trigger] rest[i]) by {
            assert(rest[i] == after[i]);
        }
        assert((s + after).drop_last() =~= s + rest);
        assert((s + after).last() == after[after.len() - 1]);
        lemma_end_trimmed(s, rest);
    } else {
        assert(s + after =~= s);
    }
}

/// White space is the blank, the controls from the tab to the carriage return, the next line and
/// the blanks of other widths, and the separators of lines and paragraphs; no other character of
/// ASCII is.
pub proof fn white_space_is_blank(c: char)
    ensures
        c as u32 <= 0x7f ==> (is_space(c) <==> c == ' ' || c == '\t' || c == '\n' || c == '\r'
            || c as u32 == 0x0b || c as u32 == 0x0c),
        c as u32 > 0x7f ==> (is_space(c) <==> c == '\u{85}' || c == '\u{a0}' || c == '\u{1680}'
            || '\u{2000}' <= c <= '\u{200a}' || c == '\u{2028}' || c == '\u{2029}' || c
            == '\u{202f}' || c == '\u{205f}' || c == '\u{3000}'),
{
}

} // verus!
