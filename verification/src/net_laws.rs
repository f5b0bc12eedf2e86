//! What is written of an address is read back as that address.
use vstd::prelude::*;

use crate::net::{
    address_of, behind_mark, digit_run, dotted, groups_at_start, groups_text, holds_dotted,
    ip_text, ipv6_at_start, ipv6_text, last_octets, lemma_digit_run, longest_zero_run,
    number_at_start, octet_at_start, octets_at_start, pair_value, port_at_end, scope_at_start,
    shortened, zero_groups, zero_run, AddressView,
};
use crate::number::{
    all_digits, decimal, digit_of, lemma_numeral_len, numeral, numeral_reads_back,
    numeral_value,
};

verus! {

/// Whether the parts are those of an address: four octets, or eight groups.
pub open spec fn are_parts(v6: bool, parts: Seq<nat>) -> bool {
    if v6 {
        parts.len() == 8 && forall|i: int| 0 <= i < 8 ==> #[trigger] parts[i] <= 65535
    } else {
        parts.len() == 4 && forall|i: int| 0 <= i < 4 ==> #[trigger] parts[i] <= 255
    }
}

/// The text of an address with its port, an IPv6 address in brackets.
pub open spec fn address_text(v6: bool, parts: Seq<nat>, port: nat) -> Seq<char> {
    if v6 {
        seq!['['] + ip_text(v6, parts) + seq![']', ':'] + decimal(port)
    } else {
        ip_text(v6, parts) + seq![':'] + decimal(port)
    }
}

/// Whether no digit of base `radix` stands at the start of `rest`.
spec fn no_digit(rest: Seq<char>, radix: nat) -> bool {
    rest.len() == 0 || digit_of(rest[0]) >= radix
}

proof fn lemma_run_of_digits(digits: Seq<char>, rest: Seq<char>, radix: nat)
    requires
        all_digits(digits, radix),
        no_digit(rest, radix),
    ensures
        digit_run(digits + rest, radix) == digits.len(),
    decreases digits.len(),
{
    if digits.len() == 0 {
        assert(digits + rest =~= rest);
    } else {
        assert forall|i: int| 0 <= i < digits.skip(1).len() implies digit_of(
            #[trigger] digits.skip(1)[i],
        ) < radix by {
            assert(digits.skip(1)[i] == digits[i + 1]);
        }
        lemma_run_of_digits(digits.skip(1), rest, radix);
        assert((digits + rest).skip(1) =~= digits.skip(1) + rest);
        assert((digits + rest)[0] == digits[0]);
    }
}

proof fn lemma_reads_number(
    number: nat,
    rest: Seq<char>,
    radix: nat,
    most: Option<nat>,
    zeros: bool,
    limit: nat,
)
    requires
        radix == 10 || radix == 16,
        number <= limit,
        no_digit(rest, radix),
        most is Some ==> numeral(number, radix).len() <= most->0,
    ensures
        number_at_start(numeral(number, radix) + rest, radix, most, zeros, limit) == Some(
            (number, rest),
        ),
{
    let digits = numeral(number, radix);
    numeral_reads_back(number, radix);
    lemma_run_of_digits(digits, rest, radix);
    assert((digits + rest).take(digits.len() as int) =~= digits);
    assert((digits + rest).skip(digits.len() as int) =~= rest);
    if digits[0] == '0' {
        assert(numeral(0, radix).len() == 1);
    }
}

proof fn lemma_short_numerals(number: nat)
    ensures
        number <= 255 ==> decimal(number).len() <= 3,
        number <= 65535 ==> numeral(number, 16).len() <= 4,
{
    if number <= 255 {
        assert(vstd::arithmetic::power::pow(10, 3) == 1000) by {
            reveal_with_fuel(vstd::arithmetic::power::pow, 4);
        }
        lemma_numeral_len(number, 10, 1000, 3);
    }
    if number <= 65535 {
        assert(vstd::arithmetic::power::pow(16, 4) == 65536) by {
            reveal_with_fuel(vstd::arithmetic::power::pow, 5);
        }
        lemma_numeral_len(number, 16, 65536, 4);
    }
}

/// One octet behind its dot.
proof fn lemma_reads_octet(octet: nat, rest: Seq<char>, part: nat)
    requires
        octet <= 255,
        no_digit(rest, 10),
    ensures
        part == 0 ==> octet_at_start(decimal(octet) + rest, part) == Some((octet, rest)),
        part > 0 ==> octet_at_start(seq!['.'] + decimal(octet) + rest, part) == Some(
            (octet, rest),
        ),
{
    lemma_short_numerals(octet);
    lemma_reads_number(octet, rest, 10, Some(3), false, 255);
    let text = seq!['.'] + decimal(octet) + rest;
    assert(text.skip(1) =~= decimal(octet) + rest);
}

/// The octets from `part` on are one octet and the octets behind it.
proof fn lemma_octets_step(
    text: Seq<char>,
    part: nat,
    octet: nat,
    rest: Seq<char>,
    tail: Seq<nat>,
    end: Seq<char>,
)
    requires
        part < 4,
        octet_at_start(text, part) == Some((octet, rest)),
        octets_at_start(rest, part + 1) == Some((tail, end)),
    ensures
        octets_at_start(text, part) == Some((seq![octet] + tail, end)),
{
}

proof fn lemma_reads_dotted(octets: Seq<nat>, rest: Seq<char>)
    requires
        are_parts(false, octets),
        no_digit(rest, 10),
    ensures
        octets_at_start(dotted(octets) + rest, 0) == Some((octets, rest)),
{
    let r3 = seq!['.'] + decimal(octets[3]) + rest;
    let r2 = seq!['.'] + decimal(octets[2]) + r3;
    let r1 = seq!['.'] + decimal(octets[1]) + r2;
    let r0 = decimal(octets[0]) + r1;
    assert(dotted(octets) + rest =~= r0);
    assert(digit_of('.') == 16);
    assert(r3[0] == '.' && r2[0] == '.' && r1[0] == '.');
    let t3 = seq![octets[3]] + Seq::<nat>::empty();
    let t2 = seq![octets[2]] + t3;
    let t1 = seq![octets[1]] + t2;
    lemma_reads_octet(octets[3], rest, 3);
    lemma_octets_step(r3, 3, octets[3], rest, Seq::empty(), rest);
    lemma_reads_octet(octets[2], r3, 2);
    lemma_octets_step(r2, 2, octets[2], r3, t3, rest);
    lemma_reads_octet(octets[1], r2, 1);
    lemma_octets_step(r1, 1, octets[1], r2, t2, rest);
    lemma_reads_octet(octets[0], r1, 0);
    lemma_octets_step(r0, 0, octets[0], r1, t1, rest);
    assert(seq![octets[0]] + t1 =~= octets);
}

/// A group is not taken for a dotted address where no dot follows it.
proof fn lemma_group_not_dotted(group: nat, rest: Seq<char>)
    requires
        rest.len() > 0 ==> rest[0] != '.' && digit_of(rest[0]) >= 16,
    ensures
        octets_at_start(numeral(group, 16) + rest, 0) is None,
{
    let digits = numeral(group, 16);
    let text = digits + rest;
    numeral_reads_back(group, 16);
    lemma_digit_run(text, 10);
    let run = digit_run(text, 10) as int;
    assert(octet_at_start(text, 0) is Some ==> (octet_at_start(text, 0)->0).1 == text.skip(run));
    let behind = text.skip(run);
    if behind.len() > 0 {
        assert(behind[0] == text[run]);
        if run < digits.len() {
            assert(text[run] == digits[run]);
            assert(digit_of('.') == 16);
        } else {
            assert(text[run] == rest[run - digits.len()]);
            if run > digits.len() {
                assert(text.take(run)[digits.len() as int] == rest[0]);
            }
        }
    }
    assert(octets_at_start(behind, 1) is None);
}

/// Whether the groups cannot go on at the start of `rest`.
spec fn groups_end(rest: Seq<char>) -> bool {
    ||| rest.len() == 0
    ||| rest[0] == ']'
    ||| rest.len() >= 2 && rest[0] == ':' && rest[1] == ':'
}

proof fn lemma_no_number(text: Seq<char>)
    requires
        no_digit(text, 16),
    ensures
        number_at_start(text, 16, Some(4), true, 65535) is None,
        octets_at_start(text, 0) is None,
{
    assert(no_digit(text, 10));
    assert(digit_run(text, 10) == 0);
    assert(octet_at_start(text, 0) is None);
}

proof fn lemma_groups_end(rest: Seq<char>, most: nat, part: nat)
    requires
        groups_end(rest),
    ensures
        groups_at_start(rest, most, part) == (Seq::<nat>::empty(), false, rest),
{
    assert(digit_of(':') == 16 && digit_of(']') == 16);
    if part < most {
        match behind_mark(rest, ':', part) {
            Some(behind) => {
                if part > 0 {
                    assert(behind == rest.skip(1));
                    assert(behind[0] == ':');
                }
                lemma_no_number(behind);
            },
            None => {},
        }
    }
}

/// The groups that `groups_text` writes are read back.
proof fn lemma_reads_groups(groups: Seq<nat>, rest: Seq<char>, most: nat, part: nat)
    requires
        groups.len() > 0,
        part + groups.len() <= most,
        forall|i: int| 0 <= i < groups.len() ==> #[trigger] groups[i] <= 65535,
        groups_end(rest),
    ensures
        part == 0 ==> groups_at_start(groups_text(groups) + rest, most, part) == (
            groups,
            false,
            rest,
        ),
        part > 0 ==> groups_at_start(seq![':'] + groups_text(groups) + rest, most, part) == (
            groups,
            false,
            rest,
        ),
    decreases groups.len(),
{
    let body = groups_text(groups) + rest;
    let marked = seq![':'] + groups_text(groups) + rest;
    let text = if part == 0 {
        body
    } else {
        marked
    };
    assert(marked.skip(1) =~= body);
    assert(digit_of(':') == 16 && digit_of(']') == 16);
    assert(behind_mark(text, ':', part) == Some(body));
    lemma_short_numerals(groups[0]);
    if groups.len() == 1 {
        lemma_group_not_dotted(groups[0], rest);
        lemma_reads_number(groups[0], rest, 16, Some(4), true, 65535);
        lemma_groups_end(rest, most, part + 1);
        assert(seq![groups[0]] + Seq::<nat>::empty() =~= groups);
    } else {
        let tail = groups.skip(1);
        let after = seq![':'] + groups_text(tail) + rest;
        assert(body =~= numeral(groups[0], 16) + after);
        assert forall|i: int| 0 <= i < tail.len() implies #[trigger] tail[i] <= 65535 by {
            assert(tail[i] == groups[i + 1]);
        }
        lemma_group_not_dotted(groups[0], after);
        lemma_reads_number(groups[0], after, 16, Some(4), true, 65535);
        lemma_reads_groups(tail, rest, most, part + 1);
        assert(seq![groups[0]] + tail =~= groups);
    }
}

proof fn lemma_reads_shortened(groups: Seq<nat>, start: int, count: int, rest: Seq<char>)
    requires
        are_parts(true, groups),
        zero_run(groups, start, count),
        rest.len() == 0 || rest[0] == ']',
    ensures
        ipv6_at_start(shortened(groups, start, count) + rest) == Some((groups, rest)),
{
    if count > 1 {
        let head = groups.take(start);
        let tail = groups.skip(start + count);
        let after = groups_text(tail) + rest;
        let middle = seq![':', ':'] + after;
        let text = shortened(groups, start, count) + rest;
        assert(text =~= groups_text(head) + middle);
        assert(middle.skip(2) =~= after);
        assert forall|i: int| 0 <= i < tail.len() implies #[trigger] tail[i] <= 65535 by {
            assert(tail[i] == groups[i + start + count]);
        }
        if start == 0 {
            assert(text =~= middle);
            lemma_groups_end(middle, 8, 0);
            assert(Seq::<nat>::empty() =~= head);
        } else {
            lemma_reads_groups(head, middle, 8, 0);
        }
        assert(groups_at_start(text, 8, 0) == (head, false, middle));
        if tail.len() == 0 {
            assert(after =~= rest);
            lemma_groups_end(rest, (7 - start) as nat, 0);
            assert(Seq::<nat>::empty() =~= tail);
        } else {
            lemma_reads_groups(tail, rest, (7 - start) as nat, 0);
        }
        assert(groups_at_start(after, (7 - start) as nat, 0) == (tail, false, rest));
        assert(head + zero_groups((8 - head.len() - tail.len()) as nat) + tail =~= groups);
    } else {
        lemma_reads_groups(groups, rest, 8, 0);
    }
}

/// Whether a run of zero groups is the first of the longest ones that end
/// before `n`.
spec fn best_run(groups: Seq<nat>, n: int, start: int, count: int) -> bool {
    &&& zero_run(groups, start, count)
    &&& start + count <= n
    &&& count == 0 ==> start == 0
    &&& forall|s: int, m: int| #[trigger]
        zero_run(groups, s, m) && m > 0 && s + m <= n ==> m < count || (m == count && start <= s)
}

/// A run whose last group is the one before `n`, and which cannot start earlier.
spec fn last_run(groups: Seq<nat>, n: int, last: int) -> bool {
    0 <= last <= n && zero_run(groups, n - last, last) && (last < n ==> groups[n - last - 1] != 0)
}

/// There is always a first longest run of zero groups.
proof fn lemma_some_longest_run(groups: Seq<nat>, n: int) -> (run: (int, int))
    requires
        0 <= n <= groups.len(),
    ensures
        best_run(groups, n, run.0, run.1),
    decreases n,
{
    if n == 0 {
        (0, 0)
    } else {
        let (start, count) = lemma_some_longest_run(groups, n - 1);
        let last = lemma_run_up_to(groups, n);
        assert forall|s: int, m: int| #[trigger] zero_run(groups, s, m) && s + m == n implies m
            <= last by {
            if m > last {
                assert(groups[n - last - 1] == 0);
            }
        }
        if last > count {
            (n - last, last)
        } else {
            (start, count)
        }
    }
}

/// The run of zero groups that ends before `n`.
proof fn lemma_run_up_to(groups: Seq<nat>, n: int) -> (last: int)
    requires
        0 <= n <= groups.len(),
    ensures
        last_run(groups, n, last),
    decreases n,
{
    if n == 0 || groups[n - 1] != 0 {
        0
    } else {
        lemma_run_up_to(groups, n - 1) + 1
    }
}

proof fn lemma_reads_mapped(groups: Seq<nat>, rest: Seq<char>)
    requires
        are_parts(true, groups),
        holds_dotted(groups),
        rest.len() == 0 || rest[0] == ']',
    ensures
        ipv6_at_start(ipv6_text(groups) + rest) == Some((groups, rest)),
{
    let octets = last_octets(groups);
    assert(groups[6] <= 65535 && groups[7] <= 65535);
    assert(are_parts(false, octets));
    let end = dotted(octets) + rest;
    let after = seq![':'] + end;
    let tail_text = numeral(0xffff, 16) + after;
    let text = ipv6_text(groups) + rest;
    assert(numeral(0xffff, 16) =~= seq!['f', 'f', 'f', 'f']) by {
        reveal_with_fuel(numeral, 5);
    }
    assert(text =~= seq![':', ':'] + tail_text);
    assert(digit_of(':') == 16 && digit_of(']') == 16 && digit_of('.') == 16);
    lemma_groups_end(text, 8, 0);
    assert(text.skip(2) =~= tail_text);
    let pairs = seq![pair_value(octets[0], octets[1]), pair_value(octets[2], octets[3])];
    assert(groups_at_start(after, 7, 1) == (pairs, true, rest)) by {
        lemma_reads_dotted(octets, rest);
        assert(after.skip(1) =~= end);
    }
    assert(groups_at_start(tail_text, 7, 0) == (seq![0xffffnat] + pairs, true, rest)) by {
        lemma_group_not_dotted(0xffff, after);
        lemma_short_numerals(0xffff);
        lemma_reads_number(0xffff, after, 16, Some(4), true, 65535);
    }
    assert(groups[0] == 0 && groups[1] == 0 && groups[2] == 0 && groups[3] == 0 && groups[4] == 0);
    assert(Seq::<nat>::empty() + zero_groups(5) + (seq![0xffffnat] + pairs) =~= groups);
}

proof fn lemma_reads_ipv6(groups: Seq<nat>, rest: Seq<char>)
    requires
        are_parts(true, groups),
        rest.len() == 0 || rest[0] == ']',
    ensures
        ipv6_at_start(ipv6_text(groups) + rest) == Some((groups, rest)),
{
    if holds_dotted(groups) {
        lemma_reads_mapped(groups, rest);
    } else {
        let (found, length) = lemma_some_longest_run(groups, 8);
        assert(longest_zero_run(groups, found, length));
        let (start, count) = choose|start: int, count: int| longest_zero_run(groups, start, count);
        lemma_reads_shortened(groups, start, count, rest);
    }
}

proof fn lemma_reads_port(port: nat)
    requires
        port <= 65535,
    ensures
        port_at_end(seq![':'] + decimal(port)) == Some(port),
{
    let text = seq![':'] + decimal(port);
    assert(text.skip(1) =~= decimal(port) + Seq::<char>::empty());
    lemma_reads_number(port, Seq::empty(), 10, None, true, 65535);
}

/// Every address that is written with its port is read back: the same kind,
/// the same octets or groups, the same port.
pub proof fn address_reads_back(v6: bool, parts: Seq<nat>, port: nat)
    requires
        are_parts(v6, parts),
        port <= 65535,
    ensures
        address_of(address_text(v6, parts, port)) == Some(
            (AddressView { v6, parts, scope: 0, port }),
        ),
{
    let text = address_text(v6, parts, port);
    let end = seq![':'] + decimal(port);
    assert(digit_of(':') == 16 && digit_of('[') == 16);
    lemma_reads_port(port);
    if v6 {
        let rest = seq![']'] + end;
        assert(text =~= seq!['['] + (ipv6_text(parts) + rest));
        assert(digit_run(text, 10) == 0);
        assert(octet_at_start(text, 0) is None);
        assert(octets_at_start(text, 0) is None);
        assert(text.skip(1) =~= ipv6_text(parts) + rest);
        lemma_reads_ipv6(parts, rest);
        assert(scope_at_start(rest) == (0nat, rest));
        assert(rest.skip(1) =~= end);
    } else {
        assert(text =~= dotted(parts) + end);
        lemma_reads_dotted(parts, end);
    }
}

/// The text of an IPv6 address has a colon in it, that of four octets has none.
pub proof fn colon_tells_kind(v6: bool, parts: Seq<nat>)
    requires
        are_parts(v6, parts),
    ensures
        ip_text(v6, parts).contains(':') == v6,
{
    let text = ip_text(v6, parts);
    if v6 {
        if holds_dotted(parts) {
            assert(text[0] == ':');
        } else {
            let (start, count) = choose|start: int, count: int|
                longest_zero_run(parts, start, count);
            if count > 1 {
                let head = groups_text(parts.take(start));
                assert(text[head.len() as int] == ':');
            } else {
                let head = numeral(parts[0], 16);
                assert(text[head.len() as int] == ':');
            }
        }
    } else {
        assert forall|i: int| 0 <= i < text.len() implies text[i] != ':' by {
            assert(digit_of(':') == 16);
            numeral_reads_back(parts[0], 10);
            numeral_reads_back(parts[1], 10);
            numeral_reads_back(parts[2], 10);
            numeral_reads_back(parts[3], 10);
            let a = decimal(parts[0]);
            let b = decimal(parts[1]);
            let c = decimal(parts[2]);
            let d = decimal(parts[3]);
            let la = a.len();
            let lb = la + 1 + b.len();
            let lc = lb + 1 + c.len();
            if i < la {
                assert(text[i] == a[i]);
            } else if i == la {
                assert(text[i] == '.');
            } else if i < lb {
                assert(text[i] == b[i - la - 1]);
            } else if i == lb {
                assert(text[i] == '.');
            } else if i < lc {
                assert(text[i] == c[i - lb - 1]);
            } else if i == lc {
                assert(text[i] == '.');
            } else {
                assert(text[i] == d[i - lc - 1]);
            }
        }
    }
}

// ---------------------------------------------------------------------------
// What is read is an address
// ---------------------------------------------------------------------------
proof fn lemma_octets_bounded(text: Seq<char>, part: nat)
    requires
        part <= 4,
    ensures
        octets_at_start(text, part) matches Some((octets, _)) ==> octets.len() == 4 - part
            && forall|i: int| 0 <= i < octets.len() ==> #[trigger] octets[i] <= 255,
    decreases 4 - part,
{
    if part < 4 {
        match octet_at_start(text, part) {
            Some((_, rest)) => {
                lemma_octets_bounded(rest, part + 1);
            },
            None => {},
        }
    }
}

proof fn lemma_groups_bounded(text: Seq<char>, most: nat, part: nat)
    requires
        part <= most,
    ensures
        ({
            let groups = groups_at_start(text, most, part).0;
            part + groups.len() <= most && forall|i: int|
                0 <= i < groups.len() ==> #[trigger] groups[i] <= 65535
        }),
    decreases most - part,
{
    if part < most {
        match behind_mark(text, ':', part) {
            Some(rest) => {
                lemma_octets_bounded(rest, 0);
                match number_at_start(rest, 16, Some(4), true, 65535) {
                    Some((_, next)) => {
                        lemma_groups_bounded(next, most, part + 1);
                    },
                    None => {},
                }
            },
            None => {},
        }
    }
}

/// What `address_of` reads is an address: four octets or eight groups, with a
/// port.
pub proof fn read_address_is_well_formed(text: Seq<char>)
    ensures
        address_of(text) matches Some(address) ==> are_parts(address.v6, address.parts)
            && address.port <= 65535,
{
    lemma_octets_bounded(text, 0);
    if text.len() > 0 {
        let inner = text.skip(1);
        lemma_groups_bounded(inner, 8, 0);
        let (head, _, rest) = groups_at_start(inner, 8, 0);
        if head.len() < 8 {
            lemma_groups_bounded(rest.skip(2), (7 - head.len()) as nat, 0);
        }
    }
}

/// A number is made of all the digits that stand there. It is read if and only
/// if there are not too many of them, no needless zero stands before them where
/// none may, and the number is not too large.
pub proof fn number_is_read_with_all_its_digits(
    digits: Seq<char>,
    rest: Seq<char>,
    radix: nat,
    most: Option<nat>,
    zeros: bool,
    limit: nat,
)
    requires
        all_digits(digits, radix),
        rest.len() > 0 ==> digit_of(rest[0]) >= radix,
    ensures
        ({
            let read = number_at_start(digits + rest, radix, most, zeros, limit);
            let fine = digits.len() > 0 && (most is Some ==> digits.len() <= most->0) && (zeros
                || digits.len() == 1 || digits[0] != '0') && numeral_value(digits, radix) <= limit;
            &&& fine ==> read == Some((numeral_value(digits, radix), rest))
            &&& !fine ==> read is None
        }),
{
    lemma_run_of_digits(digits, rest, radix);
    assert((digits + rest).take(digits.len() as int) =~= digits);
    assert((digits + rest).skip(digits.len() as int) =~= rest);
    if digits.len() > 0 {
        assert((digits + rest)[0] == digits[0]);
    }
}

/// Whether digits write an octet as it stands in an address.
pub open spec fn writes_octet(digits: Seq<char>) -> bool {
    &&& 1 <= digits.len() <= 3
    &&& digits.len() > 1 ==> digits[0] != '0'
    &&& numeral_value(digits, 10) <= 255
}

proof fn lemma_octet_digits(digits: Seq<char>, rest: Seq<char>, part: nat)
    requires
        all_digits(digits, 10),
        rest.len() > 0 ==> digit_of(rest[0]) >= 10,
    ensures
        ({
            let text = if part == 0 {
                digits + rest
            } else {
                seq!['.'] + digits + rest
            };
            &&& writes_octet(digits) ==> octet_at_start(text, part) == Some(
                (numeral_value(digits, 10), rest),
            )
            &&& !writes_octet(digits) ==> octet_at_start(text, part) is None
        }),
{
    number_is_read_with_all_its_digits(digits, rest, 10, Some(3), false, 255);
    let marked = seq!['.'] + digits + rest;
    assert(marked.skip(1) =~= digits + rest);
}

proof fn lemma_octets_refused(text: Seq<char>, part: nat, rest: Seq<char>)
    requires
        part < 4,
        octet_at_start(text, part) matches Some((_, behind)) ==> behind == rest
            && octets_at_start(rest, part + 1) is None,
    ensures
        octets_at_start(text, part) is None,
{
}

/// One run of digits more before octets.
proof fn lemma_octet_before(
    digits: Seq<char>,
    rest: Seq<char>,
    part: nat,
    fine: bool,
    octets: Seq<nat>,
    end: Seq<char>,
)
    requires
        part < 4,
        all_digits(digits, 10),
        rest.len() > 0 ==> digit_of(rest[0]) >= 10,
        fine ==> octets_at_start(rest, part + 1) == Some((octets, end)),
        !fine ==> octets_at_start(rest, part + 1) is None,
    ensures
        ({
            let text = if part == 0 {
                digits + rest
            } else {
                seq!['.'] + digits + rest
            };
            &&& writes_octet(digits) && fine ==> octets_at_start(text, part) == Some(
                (seq![numeral_value(digits, 10)] + octets, end),
            )
            &&& !(writes_octet(digits) && fine) ==> octets_at_start(text, part) is None
        }),
{
    let text = if part == 0 {
        digits + rest
    } else {
        seq!['.'] + digits + rest
    };
    lemma_octet_digits(digits, rest, part);
    if writes_octet(digits) && fine {
        lemma_octets_step(text, part, numeral_value(digits, 10), rest, octets, end);
    } else {
        lemma_octets_refused(text, part, rest);
    }
}

proof fn lemma_port_digits(port: Seq<char>)
    requires
        all_digits(port, 10),
        port.len() > 0,
    ensures
        numeral_value(port, 10) <= 65535 ==> port_at_end(seq![':'] + port) == Some(
            numeral_value(port, 10),
        ),
        numeral_value(port, 10) > 65535 ==> port_at_end(seq![':'] + port) is None,
{
    let none = Seq::<char>::empty();
    number_is_read_with_all_its_digits(port, none, 10, None, true, 65535);
    assert(port + none =~= port);
    assert((seq![':'] + port).skip(1) =~= port);
}

/// Four runs of digits with dots between them and a port behind a colon are an
/// address if and only if each of the four writes an octet, without a needless
/// zero, and the port has 16 bits. The address is the one that they write.
pub proof fn dotted_address_is_read(
    a: Seq<char>,
    b: Seq<char>,
    c: Seq<char>,
    d: Seq<char>,
    port: Seq<char>,
)
    requires
        all_digits(a, 10),
        all_digits(b, 10),
        all_digits(c, 10),
        all_digits(d, 10),
        all_digits(port, 10),
        a.len() > 0,
        port.len() > 0,
    ensures
        ({
            let text = a + seq!['.'] + b + seq!['.'] + c + seq!['.'] + d + seq![':'] + port;
            let fine = writes_octet(a) && writes_octet(b) && writes_octet(c) && writes_octet(d)
                && numeral_value(port, 10) <= 65535;
            &&& fine ==> address_of(text) == Some(
                AddressView {
                    v6: false,
                    parts: seq![
                        numeral_value(a, 10),
                        numeral_value(b, 10),
                        numeral_value(c, 10),
                        numeral_value(d, 10),
                    ],
                    scope: 0,
                    port: numeral_value(port, 10),
                },
            )
            &&& !fine ==> address_of(text) is None
        }),
{
    let text = a + seq!['.'] + b + seq!['.'] + c + seq!['.'] + d + seq![':'] + port;
    assert(digit_of('.') == 16 && digit_of(':') == 16);
    let r4 = seq![':'] + port;
    let r3 = seq!['.'] + d + r4;
    let r2 = seq!['.'] + c + r3;
    let r1 = seq!['.'] + b + r2;
    assert(text =~= a + r1);
    assert(text[0] == a[0]);
    assert(digit_of(a[0]) < 10);
    lemma_port_digits(port);
    let none = Seq::<nat>::empty();
    let t3 = seq![numeral_value(d, 10)] + none;
    let t2 = seq![numeral_value(c, 10)] + t3;
    let t1 = seq![numeral_value(b, 10)] + t2;
    lemma_octet_before(d, r4, 3, true, none, r4);
    lemma_octet_before(c, r3, 2, writes_octet(d), t3, r4);
    lemma_octet_before(b, r2, 1, writes_octet(c) && writes_octet(d), t2, r4);
    let rest_fine = writes_octet(b) && writes_octet(c) && writes_octet(d);
    lemma_octet_before(a, r1, 0, rest_fine, t1, r4);
    assert(seq![numeral_value(a, 10)] + t1 =~= seq![
        numeral_value(a, 10),
        numeral_value(b, 10),
        numeral_value(c, 10),
        numeral_value(d, 10),
    ]);
}

/// The scope of an IPv6 address is the number behind the percent sign, and zero
/// where there is no such sign.
pub proof fn scope_is_read(digits: Seq<char>, rest: Seq<char>)
    requires
        all_digits(digits, 10),
        digits.len() > 0,
        rest.len() > 0 ==> digit_of(rest[0]) >= 10,
    ensures
        numeral_value(digits, 10) <= 0xffff_ffff ==> scope_at_start(seq!['%'] + digits + rest) == (
            numeral_value(digits, 10),
            rest,
        ),
        rest.len() == 0 || rest[0] != '%' ==> scope_at_start(rest) == (0nat, rest),
{
    number_is_read_with_all_its_digits(digits, rest, 10, None, true, 0xffff_ffff);
    assert((seq!['%'] + digits + rest).skip(1) =~= digits + rest);
}

} // verus!
