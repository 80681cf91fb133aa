//! IP address literals, read as text.
//!
//! An IPv4 literal is four decimal octets without leading zeros. An IPv6 literal
//! is eight groups of one to four hexadecimal digits, of which one `::` may stand
//! for one zero group or more, and of which the last two may be written as an
//! IPv4 literal.

use vstd::prelude::*;

use crate::digits::{all_digits, char_is_digit, decimal_value, is_decimal_digit};
use crate::text::{copy_range, runs, split, split_chars};

verus! {

// ---------------------------------------------------------------------------
// IPv4
// ---------------------------------------------------------------------------

/// Whether `s` is a decimal octet without leading zeros.
pub open spec fn is_octet(s: Seq<char>) -> bool {
    all_digits(s) && s.len() <= 3 && decimal_value(s) <= 255 && (s.len() > 1 ==> s[0] != '0')
}

/// Whether `s` is an IPv4 literal.
pub open spec fn is_ipv4(s: Seq<char>) -> bool {
    let parts = split(s, '.');
    parts.len() == 4 && forall|i: int| 0 <= i < 4 ==> is_octet(#[trigger] parts[i])
}

/// The octets of an IPv4 literal.
pub open spec fn octets(s: Seq<char>) -> Seq<nat> {
    split(s, '.').map_values(|part: Seq<char>| decimal_value(part))
}

fn read_octet(s: &Vec<char>) -> (octet: Option<u64>)
    ensures
        match octet {
            Some(octet) => is_octet(s@) && octet == decimal_value(s@),
            None => !is_octet(s@),
        },
{
    if s.len() == 0 || s.len() > 3 || (s.len() > 1 && s[0] == '0') {
        return None;
    }
    let mut value: u64 = 0;
    let mut i: usize = 0;
    while i < s.len()
        invariant
            i <= s.len() <= 3,
            forall|k: int| 0 <= k < i ==> is_decimal_digit(#[trigger] s@[k]),
            value == decimal_value(s@.take(i as int)),
            i == 0 ==> value == 0,
            i == 1 ==> value <= 9,
            i == 2 ==> value <= 99,
            i == 3 ==> value <= 999,
        decreases s.len() - i,
    {
        if !char_is_digit(s[i]) {
            return None;
        }
        proof {
            assert(s@.take(i + 1).drop_last() =~= s@.take(i as int));
            assert(s@.take(i + 1).last() == s@[i as int]);
        }
        let digit: u64 = s[i] as u64 - '0' as u64;
        value = value * 10 + digit;
        i += 1;
    }
    assert(s@.take(i as int) =~= s@);
    if value <= 255 { Some(value) } else { None }
}

/// The octets of an IPv4 literal.
pub fn read_ipv4(s: &Vec<char>) -> (values: Option<Vec<u64>>)
    ensures
        match values {
            Some(values) => is_ipv4(s@) && values.len() == 4 && forall|i: int|
                0 <= i < 4 ==> #[trigger] values@[i] == octets(s@)[i] && values@[i] <= 255,
            None => !is_ipv4(s@),
        },
{
    let parts = split_chars(s, '.');
    let ghost views = split(s@, '.');
    assert(runs(parts@) == views);
    if parts.len() != 4 {
        return None;
    }
    let mut values: Vec<u64> = Vec::new();
    let mut i: usize = 0;
    while i < 4
        invariant
            i <= 4,
            parts.len() == 4,
            views == split(s@, '.'),
            runs(parts@) == views,
            values.len() == i,
            forall|k: int| 0 <= k < i ==> is_octet(#[trigger] views[k]),
            forall|k: int| 0 <= k < i ==> #[trigger] values@[k] == decimal_value(views[k]),
        decreases 4 - i,
    {
        assert(views[i as int] == parts@[i as int]@);
        match read_octet(&parts[i]) {
            Some(value) => {
                values.push(value);
            },
            None => {
                return None;
            },
        }
        i += 1;
    }
    assert forall|k: int| 0 <= k < 4 implies #[trigger] values@[k] == octets(s@)[k] && values@[k]
        <= 255 by {
        assert(is_octet(views[k]));
    }
    Some(values)
}

// ---------------------------------------------------------------------------
// IPv6
// ---------------------------------------------------------------------------

/// Whether `c` is a hexadecimal digit, of either case.
pub open spec fn is_hex_digit(c: char) -> bool {
    ('0' <= c <= '9') || ('a' <= c <= 'f') || ('A' <= c <= 'F')
}

/// What a hexadecimal digit counts.
pub open spec fn hex_digit_value(c: char) -> nat {
    if '0' <= c <= '9' {
        (c as u32 - '0' as u32) as nat
    } else if 'a' <= c <= 'f' {
        (c as u32 - 'a' as u32 + 10) as nat
    } else {
        (c as u32 - 'A' as u32 + 10) as nat
    }
}

/// What a run of hexadecimal digits denotes.
pub open spec fn hex_value(s: Seq<char>) -> nat
    decreases s.len(),
{
    if s.len() == 0 {
        0
    } else {
        hex_value(s.drop_last()) * 16 + hex_digit_value(s.last())
    }
}

/// Whether `s` is one group of an IPv6 literal.
pub open spec fn is_group(s: Seq<char>) -> bool {
    1 <= s.len() <= 4 && forall|i: int| 0 <= i < s.len() ==> is_hex_digit(#[trigger] s[i])
}

/// The two groups that an IPv4 literal stands for.
pub open spec fn ipv4_groups(s: Seq<char>) -> Seq<nat> {
    let o = octets(s);
    Seq::<nat>::empty().push((o[0] * 256 + o[1]) as nat).push((o[2] * 256 + o[3]) as nat)
}

/// The groups that a list of parts denotes; the last may be an IPv4 literal where
/// `mixed` allows it.
pub open spec fn group_values(parts: Seq<Seq<char>>, mixed: bool) -> Option<Seq<nat>>
    decreases parts.len(),
{
    if parts.len() == 0 {
        Some(Seq::empty())
    } else {
        match group_values(parts.drop_last(), false) {
            None => None,
            Some(front) => if is_group(parts.last()) {
                Some(front.push(hex_value(parts.last())))
            } else if mixed && is_ipv4(parts.last()) {
                Some(front + ipv4_groups(parts.last()))
            } else {
                None
            },
        }
    }
}

/// The groups that one side of a `::`, or a literal without one, denotes.
pub open spec fn side_groups(s: Seq<char>, mixed: bool) -> Option<Seq<nat>> {
    if s.len() == 0 {
        Some(Seq::empty())
    } else {
        group_values(split(s, ':'), mixed)
    }
}

/// Whether `::` stands at position `k`.
pub open spec fn gap_at(s: Seq<char>, k: int) -> bool {
    0 <= k && k + 1 < s.len() && s[k] == ':' && s[k + 1] == ':'
}

/// The first position of `::`, or the length when there is none.
pub open spec fn gap_index(s: Seq<char>) -> int
    decreases s.len(),
{
    if s.len() < 2 {
        s.len() as int
    } else if s[0] == ':' && s[1] == ':' {
        0
    } else {
        1 + gap_index(s.skip(1))
    }
}

/// The eight groups of an IPv6 literal.
pub open spec fn ipv6_groups(s: Seq<char>) -> Option<Seq<nat>> {
    let at = gap_index(s);
    if 0 <= at < s.len() {
        match (side_groups(s.take(at), false), side_groups(s.skip(at + 2), true)) {
            (Some(head), Some(tail)) => if head.len() + tail.len() <= 7 {
                Some(head + Seq::new((8 - head.len() - tail.len()) as nat, |i: int| 0nat) + tail)
            } else {
                None
            },
            _ => None,
        }
    } else {
        match side_groups(s, true) {
            Some(groups) if groups.len() == 8 => Some(groups),
            _ => None,
        }
    }
}

/// The groups of the IPv6 loopback address.
pub open spec fn loopback_groups() -> Seq<nat> {
    Seq::new(8, |i: int| if i == 7 { 1nat } else { 0nat })
}

/// Whether `s` is IPv6's `::1`, however it is written.
pub open spec fn is_ipv6_loopback_literal(s: Seq<char>) -> bool {
    ipv6_groups(s) == Some(loopback_groups())
}

/// Whether `s` is the literal of a loopback address: IPv4's `127.0.0.0/8`, or
/// IPv6's `::1` however it is written.
pub open spec fn is_loopback_literal(s: Seq<char>) -> bool {
    ||| is_ipv4(s) && octets(s)[0] == 127
    ||| is_ipv6_loopback_literal(s)
}

/// What a list of group values is.
pub open spec fn values_view(values: Seq<u64>) -> Seq<nat> {
    Seq::new(values.len(), |i: int| values[i] as nat)
}

fn read_hex_digit(c: char) -> (digit: Option<u64>)
    ensures
        match digit {
            Some(digit) => is_hex_digit(c) && digit == hex_digit_value(c) && digit < 16,
            None => !is_hex_digit(c),
        },
{
    if '0' <= c && c <= '9' {
        Some(c as u64 - '0' as u64)
    } else if 'a' <= c && c <= 'f' {
        Some(c as u64 - 'a' as u64 + 10)
    } else if 'A' <= c && c <= 'F' {
        Some(c as u64 - 'A' as u64 + 10)
    } else {
        None
    }
}

fn read_group(s: &Vec<char>) -> (group: Option<u64>)
    ensures
        match group {
            Some(group) => is_group(s@) && group == hex_value(s@),
            None => !is_group(s@),
        },
{
    if s.len() == 0 || s.len() > 4 {
        return None;
    }
    let mut value: u64 = 0;
    let mut i: usize = 0;
    while i < s.len()
        invariant
            i <= s.len() <= 4,
            forall|k: int| 0 <= k < i ==> is_hex_digit(#[trigger] s@[k]),
            value == hex_value(s@.take(i as int)),
            i == 0 ==> value == 0,
            i == 1 ==> value <= 0xf,
            i == 2 ==> value <= 0xff,
            i == 3 ==> value <= 0xfff,
            i == 4 ==> value <= 0xffff,
        decreases s.len() - i,
    {
        let digit: u64 = match read_hex_digit(s[i]) {
            Some(digit) => digit,
            None => {
                return None;
            },
        };
        proof {
            assert(s@.take(i + 1).drop_last() =~= s@.take(i as int));
            assert(s@.take(i + 1).last() == s@[i as int]);
        }
        value = value * 16 + digit;
        i += 1;
    }
    assert(s@.take(i as int) =~= s@);
    Some(value)
}

pub(crate) proof fn lemma_refused_part(parts: Seq<Seq<char>>, n: int, mixed: bool)
    requires
        0 <= n <= parts.len(),
        group_values(parts.take(n), n == parts.len() && mixed) is None,
    ensures
        group_values(parts, mixed) is None,
    decreases parts.len() - n,
{
    if n < parts.len() {
        assert(parts.take(n + 1).drop_last() =~= parts.take(n));
        lemma_refused_part(parts, n + 1, mixed);
    } else {
        assert(parts.take(n) =~= parts);
    }
}

fn read_groups(parts: &Vec<Vec<char>>, mixed: bool) -> (values: Option<Vec<u64>>)
    ensures
        match values {
            Some(values) => group_values(runs(parts@), mixed) == Some(values_view(values@)),
            None => group_values(runs(parts@), mixed) is None,
        },
{
    let ghost views = runs(parts@);
    let mut values: Vec<u64> = Vec::new();
    let mut i: usize = 0;
    assert(values_view(values@) =~= Seq::<nat>::empty());
    assert(views.take(0) =~= Seq::<Seq<char>>::empty());
    while i < parts.len()
        invariant
            i <= parts.len(),
            views == runs(parts@),
            group_values(views.take(i as int), i == parts.len() && mixed) == Some(
                values_view(values@),
            ),
        decreases parts.len() - i,
    {
        let ghost before = values_view(values@);
        proof {
            assert(views.take(i + 1).drop_last() =~= views.take(i as int));
            assert(views.take(i + 1).last() == parts@[i as int]@);
        }
        match read_group(&parts[i]) {
            Some(value) => {
                values.push(value);
                assert(values_view(values@) =~= before.push(value as nat));
            },
            None => {
                let last: bool = i + 1 == parts.len();
                if !(mixed && last) {
                    proof {
                        lemma_refused_part(views, i + 1, mixed);
                    }
                    return None;
                }
                match read_ipv4(&parts[i]) {
                    Some(o) => {
                        let ghost literal = parts@[i as int]@;
                        assert(octets(literal)[0] == o@[0] && octets(literal)[1] == o@[1]
                            && octets(literal)[2] == o@[2] && octets(literal)[3] == o@[3]);
                        values.push(o[0] * 256 + o[1]);
                        values.push(o[2] * 256 + o[3]);
                        assert(values_view(values@) =~= before + ipv4_groups(literal));
                    },
                    None => {
                        proof {
                            lemma_refused_part(views, i + 1, mixed);
                        }
                        return None;
                    },
                }
            },
        }
        i += 1;
    }
    assert(views.take(i as int) =~= views);
    Some(values)
}

fn read_side(s: &Vec<char>, mixed: bool) -> (values: Option<Vec<u64>>)
    ensures
        match values {
            Some(values) => side_groups(s@, mixed) == Some(values_view(values@)),
            None => side_groups(s@, mixed) is None,
        },
{
    if s.len() == 0 {
        let values: Vec<u64> = Vec::new();
        assert(values_view(values@) =~= Seq::<nat>::empty());
        Some(values)
    } else {
        read_groups(&split_chars(s, ':'), mixed)
    }
}

pub(crate) proof fn lemma_gap_index(s: Seq<char>, n: int)
    requires
        0 <= n <= s.len(),
        forall|k: int| 0 <= k < n ==> !#[trigger] gap_at(s, k),
        n < s.len() ==> gap_at(s, n),
    ensures
        gap_index(s) == n,
    decreases n,
{
    if n > 0 && s.len() >= 2 {
        let rest = s.skip(1);
        assert(!gap_at(s, 0));
        assert forall|k: int| 0 <= k < n - 1 implies !#[trigger] gap_at(rest, k) by {
            assert(!gap_at(s, k + 1));
        }
        if n < s.len() {
            assert(gap_at(rest, n - 1));
        }
        lemma_gap_index(rest, n - 1);
    }
}

fn find_gap(s: &Vec<char>) -> (at: usize)
    ensures
        at == gap_index(s@),
        at < s.len() ==> at + 2 <= s.len(),
        at <= s.len(),
{
    let mut i: usize = 0;
    while s.len() - i >= 2
        invariant
            i <= s.len(),
            forall|k: int| 0 <= k < i ==> !#[trigger] gap_at(s@, k),
        decreases s.len() - i,
    {
        if s[i] == ':' && s[i + 1] == ':' {
            proof {
                lemma_gap_index(s@, i as int);
            }
            return i;
        }
        i += 1;
    }
    proof {
        lemma_gap_index(s@, s@.len() as int);
    }
    s.len()
}

fn all_zero_but_last_one(values: &Vec<u64>) -> (found: bool)
    ensures
        found == (forall|i: int|
            0 <= i < values.len() ==> #[trigger] values@[i] == if i == values.len() - 1 {
                1u64
            } else {
                0u64
            }),
{
    let mut i: usize = 0;
    while i < values.len()
        invariant
            i <= values.len(),
            forall|k: int|
                0 <= k < i ==> #[trigger] values@[k] == if k == values.len() - 1 {
                    1u64
                } else {
                    0u64
                },
        decreases values.len() - i,
    {
        let wanted: u64 = if i == values.len() - 1 { 1 } else { 0 };
        if values[i] != wanted {
            return false;
        }
        i += 1;
    }
    true
}

fn all_zero(values: &Vec<u64>) -> (found: bool)
    ensures
        found == (forall|i: int| 0 <= i < values.len() ==> #[trigger] values@[i] == 0),
{
    let mut i: usize = 0;
    while i < values.len()
        invariant
            i <= values.len(),
            forall|k: int| 0 <= k < i ==> #[trigger] values@[k] == 0,
        decreases values.len() - i,
    {
        if values[i] != 0 {
            return false;
        }
        i += 1;
    }
    true
}

/// Whether `s` is IPv6's `::1`, however it is written.
pub fn is_ipv6_loopback(s: &Vec<char>) -> (found: bool)
    ensures
        found == is_ipv6_loopback_literal(s@),
{
    let at: usize = find_gap(s);
    if at < s.len() {
        let head_text = copy_range(s, 0, at);
        let tail_text = copy_range(s, at + 2, s.len());
        assert(head_text@ =~= s@.take(at as int));
        assert(tail_text@ =~= s@.skip(at + 2));
        match (read_side(&head_text, false), read_side(&tail_text, true)) {
            (Some(head), Some(tail)) => {
                if head.len() > 7 || tail.len() > 7 || head.len() + tail.len() > 7 {
                    return false;
                }
                let found = tail.len() > 0 && all_zero(&head) && all_zero_but_last_one(&tail);
                proof {
                    let h = values_view(head@);
                    let t = values_view(tail@);
                    let whole = h + Seq::new((8 - h.len() - t.len()) as nat, |i: int| 0nat) + t;
                    assert(ipv6_groups(s@) == Some(whole));
                    if found {
                        assert forall|i: int| 0 <= i < 8 implies whole[i] == loopback_groups()[i] by {
                            if i < h.len() {
                                assert(whole[i] == head@[i] as nat);
                            } else if i >= 8 - t.len() {
                                assert(whole[i] == tail@[i - (8 - t.len())] as nat);
                            }
                        }
                        assert(whole =~= loopback_groups());
                    } else if whole == loopback_groups() {
                        assert(whole[7] == 1);
                        if tail.len() == 0 {
                            if h.len() > 7 {
                                assert(false);
                            }
                            assert(whole[7] == 0);
                        }
                        assert forall|i: int| 0 <= i < head.len() implies #[trigger] head@[i] == 0 by {
                            assert(whole[i] == head@[i] as nat);
                        }
                        assert forall|i: int| 0 <= i < tail.len() implies #[trigger] tail@[i] == if i
                            == tail.len() - 1 { 1u64 } else { 0u64 } by {
                            assert(whole[8 - t.len() + i] == tail@[i] as nat);
                        }
                    }
                }
                found
            },
            _ => false,
        }
    } else {
        match read_side(s, true) {
            Some(values) => {
                if values.len() != 8 {
                    return false;
                }
                let found = all_zero_but_last_one(&values);
                proof {
                    let v = values_view(values@);
                    if found {
                        assert(v =~= loopback_groups());
                    } else if v == loopback_groups() {
                        assert forall|i: int| 0 <= i < 8 implies #[trigger] values@[i] == if i == 7 {
                            1u64
                        } else {
                            0u64
                        } by {
                            assert(v[i] == loopback_groups()[i]);
                        }
                    }
                }
                found
            },
            None => false,
        }
    }
}

/// Whether `s` is the literal of a loopback address.
pub fn names_loopback(s: &Vec<char>) -> (found: bool)
    ensures
        found == is_loopback_literal(s@),
{
    match read_ipv4(s) {
        Some(values) => {
            assert(values@[0] == octets(s@)[0]);
            if values[0] == 127 {
                return true;
            }
        },
        None => {},
    }
    is_ipv6_loopback(s)
}

} // verus!
