//! What holds of every IPv6 address that leaves groups out, that ends in dotted numbers or that
//! stands in brackets.

use vstd::prelude::*;

use crate::digits::{digit_char, hexadecimal, is_decimal_digit, zero_padded};
use crate::server::address::{
    gap_at, gap_index, group_values, hex_value, ipv4_groups, ipv6_groups, is_group, is_hex_digit,
    is_ipv4, is_ipv6_loopback_literal, is_octet, lemma_gap_index, lemma_refused_part,
    loopback_groups, octets, side_groups,
};
use crate::server::auth::loopback_host;
use crate::server::laws::{lemma_group_values, lemma_no_two_colons};
use crate::text::{ascii_lower_all, first_index, is_space, joined, lemma_first_index, split};
use crate::text_laws::{
    lemma_first_index_behind, splitting_undoes_joining, white_space_around_is_trimmed,
};

verus! {

/// Every number of two bytes is read back from its hexadecimal digits, padded or not.
pub proof fn groups_are_read_as_written(n: nat, width: nat)
    requires
        n < 0x1_0000,
        width <= 4,
    ensures
        is_group(zero_padded(hexadecimal(n), width)),
        hex_value(zero_padded(hexadecimal(n), width)) == n,
{
    lemma_hexadecimal(n);
    lemma_short(n);
    let digits = hexadecimal(n);
    let padded = zero_padded(digits, width);
    if digits.len() < width {
        lemma_noughts((width - digits.len()) as nat, digits);
        assert forall|i: int| 0 <= i < padded.len() implies is_hex_digit(#[trigger] padded[i]) by {
            if i >= width - digits.len() {
                assert(padded[i] == digits[i - (width - digits.len())]);
            }
        }
    }
}

proof fn lemma_hexadecimal(n: nat)
    ensures
        hexadecimal(n).len() > 0,
        hex_value(hexadecimal(n)) == n,
        forall|i: int| 0 <= i < hexadecimal(n).len() ==> is_hex_digit(#[trigger] hexadecimal(n)[i]),
    decreases n,
{
    let digits = hexadecimal(n);
    if n < 16 {
        assert(digits.drop_last() =~= Seq::<char>::empty());
        assert(hex_value(digits.drop_last()) == 0);
        assert(digits.last() == digit_char(n));
    } else {
        lemma_hexadecimal(n / 16);
        assert(digits.drop_last() =~= hexadecimal(n / 16));
        assert(digits.last() == digit_char(n % 16));
        assert forall|i: int| 0 <= i < digits.len() implies is_hex_digit(#[trigger] digits[i]) by {
            if i < digits.len() - 1 {
                assert(digits[i] == hexadecimal(n / 16)[i]);
            }
        }
    }
}

proof fn lemma_short(n: nat)
    requires
        n < 0x1_0000,
    ensures
        hexadecimal(n).len() <= 4,
{
    reveal_with_fuel(hexadecimal, 5);
}

proof fn lemma_noughts(k: nat, s: Seq<char>)
    ensures
        hex_value(Seq::new(k, |i: int| '0') + s) == hex_value(s),
    decreases k + s.len(),
{
    let noughts = Seq::new(k, |i: int| '0');
    let all = noughts + s;
    if s.len() > 0 {
        assert(all.drop_last() =~= noughts + s.drop_last());
        assert(all.last() == s.last());
        lemma_noughts(k, s.drop_last());
    } else if k > 0 {
        let fewer = Seq::new((k - 1) as nat, |i: int| '0');
        assert(all.drop_last() =~= fewer + s);
        assert(all.last() == '0');
        lemma_noughts((k - 1) as nat, s);
    } else {
        assert(all =~= s);
    }
}

/// The values of groups.
pub open spec fn values_of(groups: Seq<Seq<char>>) -> Seq<nat> {
    Seq::new(groups.len(), |i: int| hex_value(groups[i]))
}

/// Two colons stand for the groups that are left out, one or more: all of them are nought.
pub proof fn a_gap_stands_for_noughts(head: Seq<Seq<char>>, tail: Seq<Seq<char>>)
    requires
        head.len() + tail.len() <= 7,
        forall|i: int| 0 <= i < head.len() ==> is_group(#[trigger] head[i]),
        forall|i: int| 0 <= i < tail.len() ==> is_group(#[trigger] tail[i]),
    ensures
        ({
            let s = joined(head, seq![':']) + seq![':', ':'] + joined(tail, seq![':']);
            let noughts = Seq::new((8 - head.len() - tail.len()) as nat, |i: int| 0nat);
            ipv6_groups(s) == Some(values_of(head) + noughts + values_of(tail))
        }),
{
    let front = joined(head, seq![':']);
    let back = joined(tail, seq![':']);
    let s = front + seq![':', ':'] + back;
    let n = front.len() as int;
    if head.len() > 0 {
        lemma_no_two_colons(head);
    }
    assert forall|k: int| 0 <= k < n implies !#[trigger] gap_at(s, k) by {
        assert(s[k] == front[k]);
        if k + 1 < n {
            assert(s[k + 1] == front[k + 1]);
            assert(!gap_at(front, k));
        }
    }
    assert(s[n] == ':' && s[n + 1] == ':');
    assert(gap_at(s, n));
    lemma_gap_index(s, n);
    assert(s.take(n) =~= front);
    assert(s.skip(n + 2) =~= back);
    lemma_side(head, false);
    lemma_side(tail, true);
}

proof fn lemma_side(groups: Seq<Seq<char>>, mixed: bool)
    requires
        forall|i: int| 0 <= i < groups.len() ==> is_group(#[trigger] groups[i]),
    ensures
        side_groups(joined(groups, seq![':']), mixed) == Some(
            values_of(groups),
        ),
{
    if groups.len() > 0 {
        lemma_no_two_colons(groups);
        assert forall|i: int| 0 <= i < groups.len() implies !(#[trigger] groups[i]).contains(':') by {
            if groups[i].contains(':') {
                let k = choose|k: int| 0 <= k < groups[i].len() && groups[i][k] == ':';
                assert(is_hex_digit(groups[i][k]));
            }
        }
        splitting_undoes_joining(groups, ':');
        lemma_group_values(groups, mixed);
        assert(group_values(groups, mixed)->0 =~= values_of(groups));
    } else {
        assert(values_of(groups) =~= Seq::empty());
    }
}

/// With a gap, an address is this machine's exactly when it ends in a group that is one and all
/// other groups are nought.
pub proof fn short_addresses_of_this_machine_end_in_one(
    head: Seq<Seq<char>>,
    tail: Seq<Seq<char>>,
)
    requires
        head.len() + tail.len() <= 7,
        forall|i: int| 0 <= i < head.len() ==> is_group(#[trigger] head[i]),
        forall|i: int| 0 <= i < tail.len() ==> is_group(#[trigger] tail[i]),
    ensures
        is_ipv6_loopback_literal(joined(head, seq![':']) + seq![':', ':'] + joined(tail, seq![':']))
            <==> {
            &&& tail.len() > 0
            &&& hex_value(tail.last()) == 1
            &&& (forall|i: int| 0 <= i < head.len() ==> hex_value(#[trigger] head[i]) == 0)
            &&& (forall|i: int| 0 <= i < tail.len() - 1 ==> hex_value(#[trigger] tail[i]) == 0)
        },
{
    a_gap_stands_for_noughts(head, tail);
    let noughts = Seq::new((8 - head.len() - tail.len()) as nat, |i: int| 0nat);
    let all = values_of(head) + noughts + values_of(tail);
    let own = loopback_groups();
    let before = 8 - tail.len();
    assert forall|i: int| 0 <= i < head.len() implies all[i] == hex_value(#[trigger] head[i]) by {}
    assert forall|i: int| 0 <= i < tail.len() implies all[before + i] == hex_value(
        #[trigger] tail[i],
    ) by {}
    if all == own {
        assert(own[7] == 1);
        if tail.len() == 0 {
            assert(all[7] == 0);
        }
        assert(tail.last() == tail[tail.len() - 1]);
        assert forall|i: int| 0 <= i < head.len() implies hex_value(#[trigger] head[i]) == 0 by {
            assert(own[i] == 0);
        }
        assert forall|i: int| 0 <= i < tail.len() - 1 implies hex_value(#[trigger] tail[i]) == 0 by {
            assert(own[before + i] == 0);
        }
    }
    if tail.len() > 0 && hex_value(tail.last()) == 1 && (forall|i: int|
        0 <= i < head.len() ==> hex_value(#[trigger] head[i]) == 0) && (forall|i: int|
        0 <= i < tail.len() - 1 ==> hex_value(#[trigger] tail[i]) == 0) {
        assert forall|i: int| 0 <= i < 8 implies #[trigger] all[i] == own[i] by {
            if i < head.len() {
                assert(hex_value(head[i]) == 0);
            } else if i >= before {
                let k = i - before;
                assert(all[before + k] == hex_value(tail[k]));
                if k < tail.len() - 1 {
                    assert(hex_value(tail[k]) == 0);
                } else {
                    assert(tail.last() == tail[k]);
                }
            }
        }
        assert(all =~= own);
    }
}

/// The last two groups of an address may be written as dotted numbers, two to a group.
pub proof fn addresses_may_end_in_dotted_numbers(groups: Seq<Seq<char>>, dotted: Seq<char>)
    requires
        forall|i: int| 0 <= i < groups.len() ==> is_group(#[trigger] groups[i]),
        is_ipv4(dotted),
    ensures
        group_values(groups.push(dotted), true) == Some(
            values_of(groups) + seq![
                (256 * octets(dotted)[0] + octets(dotted)[1]) as nat,
                (256 * octets(dotted)[2] + octets(dotted)[3]) as nat,
            ],
        ),
        group_values(groups.push(dotted), false) is None,
{
    let parts = groups.push(dotted);
    assert(parts.drop_last() =~= groups);
    lemma_group_values(groups, false);
    assert(group_values(groups, false)->0 =~= values_of(groups));
    if is_group(dotted) {
        if dotted.contains('.') {
            let k = choose|k: int| 0 <= k < dotted.len() && dotted[k] == '.';
            assert(is_hex_digit(dotted[k]));
        }
        lemma_first_index_behind(dotted, Seq::empty(), '.');
        assert(dotted + Seq::<char>::empty() =~= dotted);
        assert(split(dotted, '.') =~= seq![dotted]);
    }
    let o = octets(dotted);
    assert(ipv4_groups(dotted) =~= seq![
        (256 * o[0] + o[1]) as nat,
        (256 * o[2] + o[3]) as nat,
    ]);
}

/// A bracket that is opened must be closed: nothing else that begins with one is this machine.
pub proof fn brackets_must_be_closed(s: Seq<char>)
    requires
        s.len() > 0,
        s[0] == '[',
        s.last() != ']',
        !is_space(s.last()),
    ensures
        !loopback_host(s),
{
    white_space_around_is_trimmed(Seq::empty(), s, Seq::empty());
    assert(Seq::<char>::empty() + s + Seq::<char>::empty() =~= s);
    reveal_strlit("localhost");
    let lower = ascii_lower_all(s);
    assert(lower[0] == '[');
    assert(ascii_lower_all("localhost"@)[0] == 'l');
    lemma_first_part(s, '.');
    if is_ipv4(s) {
        assert(is_octet(split(s, '.')[0]));
        assert(is_decimal_digit(split(s, '.')[0][0]));
    }
    let at = gap_index(s);
    lemma_gap_in_reach(s);
    assert(s.take(at).len() > 0 && s.take(at)[0] == '[');
    lemma_no_groups(s.take(at), false);
    lemma_no_groups(s, true);
}

proof fn lemma_first_part(s: Seq<char>, separator: char)
    requires
        s.len() > 0,
        s[0] == '[',
        separator != '[',
    ensures
        split(s, separator).len() > 0,
        split(s, separator)[0].len() > 0,
        split(s, separator)[0][0] == '[',
{
    let at = first_index(s, separator);
    lemma_first_index(s, separator);
    assert(at > 0);
    if at < s.len() {
        assert(s.take(at)[0] == '[');
    }
}

proof fn lemma_gap_in_reach(s: Seq<char>)
    requires
        s.len() > 0,
        s[0] == '[',
    ensures
        0 < gap_index(s) <= s.len(),
{
    lemma_gap_bounds(s.skip(1));
}

proof fn lemma_gap_bounds(s: Seq<char>)
    ensures
        0 <= gap_index(s) <= s.len(),
    decreases s.len(),
{
    if s.len() >= 2 {
        lemma_gap_bounds(s.skip(1));
    }
}

proof fn lemma_no_groups(s: Seq<char>, mixed: bool)
    requires
        s.len() > 0,
        s[0] == '[',
    ensures
        side_groups(s, mixed) is None,
{
    let parts = split(s, ':');
    lemma_first_part(s, ':');
    let first = parts[0];
    lemma_first_part(first, '.');
    if is_group(first) {
        assert(is_hex_digit(first[0]));
    }
    if is_ipv4(first) {
        assert(is_octet(split(first, '.')[0]));
        assert(is_decimal_digit(split(first, '.')[0][0]));
    }
    let alone = parts.take(1);
    assert(alone.last() == first);
    assert(alone.drop_last() =~= Seq::<Seq<char>>::empty());
    assert(group_values(alone, parts.len() == 1 && mixed) is None);
    lemma_refused_part(parts, 1, mixed);
}

} // verus!
