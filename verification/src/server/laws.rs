//! What holds of every request that arrives: who is let in, and under which id.

use vstd::prelude::*;

use crate::digits::{decimal, decimal_reads_back, decimal_value, is_decimal_digit};
use crate::server::address::{
    gap_at, gap_index, group_values, hex_value, ipv6_groups, is_group, is_hex_digit, is_ipv4,
    is_ipv6_loopback_literal, is_octet, loopback_groups, octets,
};
use crate::server::auth::{
    credential_of, gate_refusal, loopback_host, posture, refusal_text, usable_key,
    without_leading_blanks, AuthMode,
};
use crate::server::request_guard::{minted, panic_answer, panic_text, request_id, PanicPayload};
use crate::text::{ascii_lower_all, is_space, joined, split};
use crate::text_laws::{
    between, holds, lemma_first_index_behind, splitting_undoes_joining,
    white_space_around_is_trimmed,
};

verus! {

// ---------------------------------------------------------------------------
// Credentials
// ---------------------------------------------------------------------------

/// Whether a word is the bearer scheme, in whatever case.
pub open spec fn is_bearer(scheme: Seq<char>) -> bool {
    &&& scheme.len() == 6
    &&& scheme[0] == 'b' || scheme[0] == 'B'
    &&& scheme[1] == 'e' || scheme[1] == 'E'
    &&& scheme[2] == 'a' || scheme[2] == 'A'
    &&& scheme[3] == 'r' || scheme[3] == 'R'
    &&& scheme[4] == 'e' || scheme[4] == 'E'
    &&& scheme[5] == 'r' || scheme[5] == 'R'
}

proof fn lemma_bearer(scheme: Seq<char>)
    ensures
        is_bearer(scheme) <==> ascii_lower_all(scheme) == ascii_lower_all("Bearer"@),
        is_bearer(scheme) ==> !scheme.contains(' '),
{
    reveal_strlit("Bearer");
    let word = ascii_lower_all("Bearer"@);
    assert(word =~= seq!['b', 'e', 'a', 'r', 'e', 'r']);
    if is_bearer(scheme) {
        assert(ascii_lower_all(scheme) =~= word);
    }
    if ascii_lower_all(scheme) == word {
        assert(scheme.len() == 6);
        assert forall|i: int| 0 <= i < 6 implies crate::text::ascii_lower(#[trigger] scheme[i])
            == word[i] by {
            assert(ascii_lower_all(scheme)[i] == word[i]);
        }
        assert(crate::text::ascii_lower(scheme[0]) == 'b');
        assert(crate::text::ascii_lower(scheme[1]) == 'e');
        assert(crate::text::ascii_lower(scheme[2]) == 'a');
        assert(crate::text::ascii_lower(scheme[3]) == 'r');
        assert(crate::text::ascii_lower(scheme[4]) == 'e');
        assert(crate::text::ascii_lower(scheme[5]) == 'r');
    }
}

proof fn lemma_blanks(blanks: Seq<char>, s: Seq<char>)
    requires
        forall|i: int| 0 <= i < blanks.len() ==> #[trigger] blanks[i] == ' ',
        s.len() > 0 ==> s[0] != ' ',
    ensures
        without_leading_blanks(blanks + s) == s,
    decreases blanks.len(),
{
    if blanks.len() > 0 {
        let rest = blanks.skip(1);
        assert forall|i: int| 0 <= i < rest.len() implies #[trigger] rest[i] == ' ' by {
            assert(rest[i] == blanks[i + 1]);
        }
        assert((blanks + s).skip(1) =~= rest + s);
        lemma_blanks(rest, s);
    } else {
        assert(blanks + s =~= s);
    }
}

/// A header of the bearer scheme, a blank or more and a credential gives that very credential;
/// one of another scheme, or without a credential, gives none.
pub proof fn bearer_headers_give_their_credential(
    scheme: Seq<char>,
    blanks: Seq<char>,
    credential: Seq<char>,
)
    requires
        !scheme.contains(' '),
        blanks.len() > 0,
        forall|i: int| 0 <= i < blanks.len() ==> #[trigger] blanks[i] == ' ',
        credential.len() > 0 ==> credential[0] != ' ',
    ensures
        credential_of(scheme + blanks + credential) == if is_bearer(scheme) && credential.len() > 0 {
            Some(credential)
        } else {
            None
        },
        credential_of(scheme) is None,
{
    let header = scheme + blanks + credential;
    lemma_bearer(scheme);
    assert(header =~= scheme + (blanks + credential));
    lemma_first_index_behind(scheme, blanks + credential, ' ');
    let at = scheme.len() as int;
    assert(header.take(at) =~= scheme);
    let rest = blanks.skip(1);
    assert forall|i: int| 0 <= i < rest.len() implies #[trigger] rest[i] == ' ' by {
        assert(rest[i] == blanks[i + 1]);
    }
    assert(header.skip(at + 1) =~= rest + credential);
    lemma_blanks(rest, credential);
    lemma_first_index_behind(scheme, Seq::empty(), ' ');
    assert(scheme + Seq::<char>::empty() =~= scheme);
}

/// Where a key is set, a request is let through exactly when it presents that key; where none
/// is, every request is. A key that is empty is none.
pub proof fn the_key_lets_through(key: Option<Seq<char>>, header: Option<Seq<char>>)
    ensures
        key is None || key->0.len() == 0 ==> gate_refusal(key, header) is None,
        key is Some && key->0.len() > 0 ==> (gate_refusal(key, header) is None <==> (
        header matches Some(text) && credential_of(text) == Some(key->0))),
        usable_key(key) <==> key is Some && key->0.len() > 0,
{
}

/// A request that is refused is told whether it lacks the header, the scheme or the key.
pub proof fn refusals_tell_what_is_missing(key: Seq<char>, header: Seq<char>)
    requires
        key.len() > 0,
    ensures
        gate_refusal(Some(key), None) == Some("Missing Authorization header"@),
        credential_of(header) is None ==> gate_refusal(Some(key), Some(header)) == Some(
            "Authorization header must use Bearer scheme"@,
        ),
        credential_of(header) matches Some(other) ==> other != key ==> gate_refusal(
            Some(key),
            Some(header),
        ) == Some("Invalid API key"@),
{
}

/// A server with a key enforces it anywhere; without one it starts for this machine only, and
/// not at all for others.
pub proof fn nobody_else_is_served_without_a_key(host: Seq<char>)
    ensures
        posture(host, true) == Some(AuthMode::Enforced),
        loopback_host(host) ==> posture(host, false) == Some(AuthMode::LoopbackDev),
        !loopback_host(host) ==> posture(host, false) is None,
{
}

// ---------------------------------------------------------------------------
// Hosts
// ---------------------------------------------------------------------------

/// White space around a host does not matter.
pub proof fn hosts_are_trimmed(before: Seq<char>, host: Seq<char>, after: Seq<char>)
    requires
        forall|i: int| 0 <= i < before.len() ==> is_space(#[trigger] before[i]),
        forall|i: int| 0 <= i < after.len() ==> is_space(#[trigger] after[i]),
        host.len() > 0,
        !is_space(host[0]),
        !is_space(host.last()),
    ensures
        loopback_host(before + host + after) == loopback_host(host),
{
    white_space_around_is_trimmed(before, host, after);
    white_space_around_is_trimmed(Seq::empty(), host, Seq::empty());
    assert(Seq::<char>::empty() + host + Seq::<char>::empty() =~= host);
}

/// The name of this machine is `localhost`, in whatever case.
pub proof fn localhost_is_this_machine(name: Seq<char>)
    requires
        ascii_lower_all(name) == "localhost"@,
    ensures
        loopback_host(name),
{
    reveal_strlit("localhost");
    assert("localhost"@.len() == 9);
    let word = "localhost"@;
    assert(ascii_lower_all(word) =~= word);
    assert forall|i: int| 0 <= i < 9 implies crate::text::ascii_lower(#[trigger] name[i])
        == word[i] by {
        assert(ascii_lower_all(name)[i] == word[i]);
    }
    assert(crate::text::ascii_lower(name[0]) == 'l');
    assert(crate::text::ascii_lower(name[8]) == 't');
    white_space_around_is_trimmed(Seq::empty(), name, Seq::empty());
    assert(Seq::<char>::empty() + name + Seq::<char>::empty() =~= name);
}

/// An IPv4 address, as it is written.
pub open spec fn dotted(a: nat, b: nat, c: nat, d: nat) -> Seq<char> {
    joined(
        Seq::empty().push(decimal(a)).push(decimal(b)).push(decimal(c)).push(decimal(d)),
        seq!['.'],
    )
}

proof fn lemma_decimal_leads(n: nat)
    ensures
        n > 0 ==> decimal(n)[0] != '0',
    decreases n,
{
    decimal_reads_back(n);
    if n >= 10 {
        lemma_decimal_leads(n / 10);
        decimal_reads_back(n / 10);
        assert(decimal(n)[0] == decimal(n / 10)[0]);
    }
}

proof fn lemma_octet(n: nat)
    requires
        n <= 255,
    ensures
        is_octet(decimal(n)),
        decimal_value(decimal(n)) == n,
        !decimal(n).contains('.'),
        !decimal(n).contains(':'),
        decimal(n).len() > 0,
        forall|i: int| 0 <= i < decimal(n).len() ==> is_decimal_digit(#[trigger] decimal(n)[i]),
{
    decimal_reads_back(n);
    lemma_decimal_leads(n);
    let s = decimal(n);
    assert forall|i: int| 0 <= i < s.len() implies s[i] != '.' && s[i] != ':' by {
        assert(is_decimal_digit(s[i]));
    }
}

/// Every address that begins with 127 is this machine's, and no other dotted address is.
pub proof fn addresses_of_this_machine_begin_with_127(a: nat, b: nat, c: nat, d: nat)
    requires
        a <= 255,
        b <= 255,
        c <= 255,
        d <= 255,
    ensures
        loopback_host(dotted(a, b, c, d)) <==> a == 127,
{
    let parts = Seq::empty().push(decimal(a)).push(decimal(b)).push(decimal(c)).push(decimal(d));
    lemma_octet(a);
    lemma_octet(b);
    lemma_octet(c);
    lemma_octet(d);
    assert forall|i: int| 0 <= i < parts.len() implies !(#[trigger] parts[i]).contains('.')
        && is_octet(parts[i]) by {}
    splitting_undoes_joining(parts, '.');
    let s = dotted(a, b, c, d);
    assert(split(s, '.') == parts);
    assert(is_ipv4(s));
    assert(octets(s)[0] == a);
    let three = Seq::empty().push(decimal(a)).push(decimal(b)).push(decimal(c));
    let two = Seq::empty().push(decimal(a)).push(decimal(b));
    let one = Seq::empty().push(decimal(a));
    assert(parts.drop_last() =~= three);
    assert(three.drop_last() =~= two);
    assert(two.drop_last() =~= one);
    reveal_with_fuel(joined, 5);
    let dot = seq!['.'];
    assert(s =~= decimal(a) + dot + decimal(b) + dot + decimal(c) + dot + decimal(d));
    assert forall|i: int| 0 <= i < s.len() implies is_decimal_digit(#[trigger] s[i]) || s[i]
        == '.' by {
        let la = decimal(a).len();
        let lb = decimal(b).len();
        let lc = decimal(c).len();
        if i < la {
            assert(s[i] == decimal(a)[i]);
        } else if i == la {
        } else if i < la + 1 + lb {
            assert(s[i] == decimal(b)[i - la - 1]);
        } else if i == la + 1 + lb {
        } else if i < la + 2 + lb + lc {
            assert(s[i] == decimal(c)[i - la - lb - 2]);
        } else if i == la + 2 + lb + lc {
        } else {
            assert(s[i] == decimal(d)[i - la - lb - lc - 3]);
        }
    }
    assert(s[0] == decimal(a)[0]);
    assert(s.last() == decimal(d).last());
    assert(is_decimal_digit(decimal(d)[decimal(d).len() - 1]));
    white_space_around_is_trimmed(Seq::empty(), s, Seq::empty());
    assert(Seq::<char>::empty() + s + Seq::<char>::empty() =~= s);
    reveal_strlit("localhost");
    assert(ascii_lower_all(s)[0] == s[0]);
    assert(ascii_lower_all("localhost"@)[0] == 'l');
    lemma_no_gap(s);
    lemma_first_index_behind(s, Seq::empty(), ':');
    assert(s + Seq::<char>::empty() =~= s);
    let whole = seq![s];
    assert(split(s, ':') =~= whole);
    assert(whole.drop_last() =~= Seq::<Seq<char>>::empty());
    assert(s[decimal(a).len() as int] == '.');
    assert(!is_group(s)) by {
        if is_group(s) {
            assert(is_hex_digit(s[decimal(a).len() as int]));
        }
    }
    reveal_with_fuel(group_values, 2);
    assert(ipv6_groups(s) is None);
}

/// Where no character is a colon, there is no gap.
proof fn lemma_no_gap(s: Seq<char>)
    requires
        forall|i: int| 0 <= i < s.len() ==> #[trigger] s[i] != ':',
    ensures
        gap_index(s) == s.len(),
    decreases s.len(),
{
    if s.len() >= 2 {
        let rest = s.skip(1);
        assert forall|i: int| 0 <= i < rest.len() implies #[trigger] rest[i] != ':' by {
            assert(rest[i] == s[i + 1]);
        }
        lemma_no_gap(rest);
    }
}

/// The groups of an IPv6 address that is written out are those that stand there: it is this
/// machine's exactly when the last is one and the others are nought.
pub proof fn written_out_addresses_are_read_group_by_group(groups: Seq<Seq<char>>)
    requires
        groups.len() == 8,
        forall|i: int| 0 <= i < 8 ==> is_group(#[trigger] groups[i]),
    ensures
        ({
            let s = joined(groups, seq![':']);
            &&& ipv6_groups(s) matches Some(values) && values.len() == 8 && forall|i: int|
                0 <= i < 8 ==> #[trigger] values[i] == hex_value(groups[i])
            &&& is_ipv6_loopback_literal(s) <==> forall|i: int|
                0 <= i < 8 ==> hex_value(#[trigger] groups[i]) == if i == 7 {
                    1nat
                } else {
                    0nat
                }
        }),
{
    let s = joined(groups, seq![':']);
    assert forall|i: int| 0 <= i < groups.len() implies !(#[trigger] groups[i]).contains(':') by {
        if groups[i].contains(':') {
            let k = choose|k: int| 0 <= k < groups[i].len() && groups[i][k] == ':';
            assert(is_hex_digit(groups[i][k]));
        }
    }
    splitting_undoes_joining(groups, ':');
    lemma_groups_have_no_gap(groups);
    lemma_group_values(groups, true);
    assert(groups[0].len() > 0);
    crate::text_laws::joined_texts_hold_each(groups, seq![':'], 0);
    assert(s.len() > 0);
    let values = ipv6_groups(s)->0;
    if is_ipv6_loopback_literal(s) {
        assert forall|i: int| 0 <= i < 8 implies hex_value(
            #[trigger] groups[i],
        ) == if i == 7 {
            1nat
        } else {
            0nat
        } by {
            assert(values[i] == hex_value(groups[i]));
            assert(loopback_groups()[i] == if i == 7 {
                1nat
            } else {
                0nat
            });
        }
    }
    if forall|i: int|
        0 <= i < 8 ==> hex_value(#[trigger] groups[i]) == if i == 7 {
            1nat
        } else {
            0nat
        } {
        assert(values =~= loopback_groups());
    }
}

pub(crate) proof fn lemma_group_values(groups: Seq<Seq<char>>, mixed: bool)
    requires
        forall|i: int| 0 <= i < groups.len() ==> is_group(#[trigger] groups[i]),
    ensures
        group_values(groups, mixed) matches Some(values) && values.len() == groups.len()
            && forall|i: int|
            0 <= i < values.len() ==> #[trigger] values[i] == hex_value(
                groups[i],
            ),
    decreases groups.len(),
{
    if groups.len() > 0 {
        let front = groups.drop_last();
        assert forall|i: int| 0 <= i < front.len() implies is_group(#[trigger] front[i]) by {
            assert(front[i] == groups[i]);
        }
        lemma_group_values(front, false);
        assert(is_group(groups[groups.len() - 1]));
    }
}

/// Groups that are joined leave no gap between them.
proof fn lemma_groups_have_no_gap(groups: Seq<Seq<char>>)
    requires
        groups.len() > 0,
        forall|i: int| 0 <= i < groups.len() ==> is_group(#[trigger] groups[i]),
    ensures
        gap_index(joined(groups, seq![':'])) == joined(groups, seq![':']).len(),
{
    let s = joined(groups, seq![':']);
    lemma_no_two_colons(groups);
    lemma_gapless(s);
}

proof fn lemma_gapless(s: Seq<char>)
    requires
        forall|k: int| !#[trigger] gap_at(s, k),
    ensures
        gap_index(s) == s.len(),
    decreases s.len(),
{
    if s.len() >= 2 {
        assert(!gap_at(s, 0));
        let rest = s.skip(1);
        assert forall|k: int| !#[trigger] gap_at(rest, k) by {
            assert(!gap_at(s, k + 1));
        }
        lemma_gapless(rest);
    }
}

pub(crate) proof fn lemma_no_two_colons(groups: Seq<Seq<char>>)
    requires
        groups.len() > 0,
        forall|i: int| 0 <= i < groups.len() ==> is_group(#[trigger] groups[i]),
    ensures
        forall|k: int| !#[trigger] gap_at(joined(groups, seq![':']), k),
        joined(groups, seq![':']).len() > 0,
        joined(groups, seq![':']).last() != ':',
    decreases groups.len(),
{
    let s = joined(groups, seq![':']);
    let last = groups.last();
    assert(is_group(groups[groups.len() - 1]));
    assert forall|i: int| 0 <= i < last.len() implies last[i] != ':' by {
        assert(is_hex_digit(last[i]));
    }
    if groups.len() > 1 {
        let front = groups.drop_last();
        assert forall|i: int| 0 <= i < front.len() implies is_group(#[trigger] front[i]) by {
            assert(front[i] == groups[i]);
        }
        lemma_no_two_colons(front);
        let head = joined(front, seq![':']);
        assert(s =~= head + seq![':'] + last);
        assert forall|k: int| !#[trigger] gap_at(s, k) by {
            if gap_at(s, k) {
                if k + 1 < head.len() {
                    assert(gap_at(head, k));
                } else if k + 1 == head.len() {
                    assert(s[k] == head.last());
                } else if k == head.len() {
                    assert(s[k + 1] == last[0]);
                } else {
                    assert(s[k] == last[k - head.len() - 1]);
                }
            }
        }
        assert(s.last() == last[last.len() - 1]);
    } else {
        assert(s == last);
        assert forall|k: int| !#[trigger] gap_at(s, k) by {
            if gap_at(s, k) {
                assert(s[k] == last[k]);
            }
        }
    }
}

/// Brackets stand around an IPv6 address only: what stands in them is this machine's exactly
/// when it is such an address of this machine.
pub proof fn brackets_hold_ipv6_addresses(s: Seq<char>)
    ensures
        loopback_host(seq!['['] + s + seq![']']) <==> is_ipv6_loopback_literal(s),
{
    let host = seq!['['] + s + seq![']'];
    white_space_around_is_trimmed(Seq::empty(), host, Seq::empty());
    assert(Seq::<char>::empty() + host + Seq::<char>::empty() =~= host);
    assert(host.subrange(1, host.len() - 1) =~= s);
}

/// The short form of this machine's IPv6 address is one, bare and in brackets.
pub proof fn the_short_address_is_this_machine()
    ensures
        is_ipv6_loopback_literal("::1"@),
        loopback_host("::1"@),
{
    reveal_strlit("::1");
    let s = "::1"@;
    assert(s =~= seq![':', ':', '1']);
    assert(gap_index(s) == 0);
    assert(s.take(0) =~= Seq::<char>::empty());
    let tail = s.skip(2);
    assert(tail =~= seq!['1']);
    lemma_first_index_behind(tail, Seq::empty(), ':');
    assert(tail + Seq::<char>::empty() =~= tail);
    assert(split(tail, ':') =~= seq![tail]);
    assert(seq![tail].drop_last() =~= Seq::<Seq<char>>::empty());
    assert(is_group(tail));
    reveal_with_fuel(group_values, 2);
    reveal_with_fuel(hex_value, 2);
    assert(tail.drop_last() =~= Seq::<char>::empty());
    assert(ipv6_groups(s)->0 =~= loopback_groups());
    white_space_around_is_trimmed(Seq::empty(), s, Seq::empty());
    assert(Seq::<char>::empty() + s + Seq::<char>::empty() =~= s);
}

// ---------------------------------------------------------------------------
// Ids
// ---------------------------------------------------------------------------

/// Whether a character may stand in an id of a request.
pub open spec fn stands_in_ids(c: char) -> bool {
    ||| 'a' <= c <= 'z'
    ||| 'A' <= c <= 'Z'
    ||| '0' <= c <= '9'
    ||| c == '-' || c == '_' || c == '.' || c == ':'
}

/// A caller's id is kept exactly when it has from 1 to 128 characters, each a letter, a digit
/// or one of a few signs; otherwise a fresh one is made, as it is when none was sent.
pub proof fn usable_ids_are_kept(id: Seq<char>, instance: u64, sequence: u64)
    ensures
        (1 <= id.len() <= 128 && forall|i: int| 0 <= i < id.len() ==> stands_in_ids(#[trigger] id[i]))
            ==> request_id(Some(id), instance, sequence) == id,
        !(1 <= id.len() <= 128 && forall|i: int|
            0 <= i < id.len() ==> stands_in_ids(#[trigger] id[i])) ==> request_id(
            Some(id),
            instance,
            sequence,
        ) == minted(instance, sequence),
        request_id(None, instance, sequence) == minted(instance, sequence),
{
    assert forall|i: int| 0 <= i < id.len() implies stands_in_ids(#[trigger] id[i])
        == crate::server::request_guard::id_char(id[i]) by {}
    if forall|i: int| 0 <= i < id.len() ==> stands_in_ids(#[trigger] id[i]) {
        assert forall|i: int| 0 <= i < id.len() implies crate::server::request_guard::id_char(
            #[trigger] id[i],
        ) by {
            assert(stands_in_ids(id[i]));
        }
    }
    if crate::server::request_guard::usable_id(id) {
        assert forall|i: int| 0 <= i < id.len() implies stands_in_ids(#[trigger] id[i]) by {
            assert(crate::server::request_guard::id_char(id[i]));
        }
    }
}

/// What a handler said when it panicked is what is logged, and the caller is told the id under
/// which it is.
pub proof fn panics_are_told(text: String, id: Seq<char>)
    ensures
        panic_text(PanicPayload::Text(text)) == text@,
        panic_text(PanicPayload::Other).len() > 0,
        holds(panic_answer(id), id),
{
    reveal_strlit("panic payload is not a string");
    assert("panic payload is not a string"@.len() > 0);
    assert(panic_answer(id) =~= between(
        "The request handler failed. The service logged the failure under request id "@,
        id,
        "."@,
    ));
}

/// A service that may not start says which host it would have been reachable at, and which
/// variable would arm its gate.
pub proof fn refusals_to_start_say_what_would_do(host: Seq<char>, variable: Seq<char>)
    ensures
        holds(refusal_text(host, None), host),
        holds(refusal_text(host, Some(variable)), host),
        holds(refusal_text(host, Some(variable)), variable),
{
    let opening =
        "refusing to start: nothing authenticates requests while binding non-loopback host '"@;
    let bare = "Arm this service's gate, or bind 127.0.0.1 for local development."@;
    let rest =
        " (every request must then carry it as a bearer token), or bind 127.0.0.1 for local development."@;
    assert(refusal_text(host, None) =~= between(opening, host, "'. "@ + bare));
    let named = refusal_text(host, Some(variable));
    assert(named =~= between(opening, host, "'. "@ + ("Set "@ + variable + rest)));
    assert(named =~= between(opening + host + "'. "@ + "Set "@, variable, rest));
}

} // verus!
