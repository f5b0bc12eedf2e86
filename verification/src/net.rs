//! Socket addresses: their text form and how it is read.
//!
//! An address is `a.b.c.d:port` or `[groups]:port`, the groups in one of the
//! usual notations of an IPv6 address, with a scope number or not.
use vstd::prelude::*;

use crate::number::{
    all_digits, decimal, decimal_text, digit_of, digit_value_of, hex_text, numeral, numeral_value,
};
use crate::text::chars_of;

verus! {

// ---------------------------------------------------------------------------
// The grammar
// ---------------------------------------------------------------------------
/// How many digits of base `radix` stand at the start of `text`.
pub open spec fn digit_run(text: Seq<char>, radix: nat) -> nat
    decreases text.len(),
{
    if text.len() > 0 && digit_of(text[0]) < radix {
        1 + digit_run(text.skip(1), radix)
    } else {
        0
    }
}

/// The number at the start of `text` with what stands behind it. All digits
/// there belong to it: it must have one, not more than `most` where that is
/// given, no needless zero in front unless `zeros` are allowed there, and be
/// at most `limit`.
pub open spec fn number_at_start(
    text: Seq<char>,
    radix: nat,
    most: Option<nat>,
    zeros: bool,
    limit: nat,
) -> Option<(nat, Seq<char>)> {
    let run = digit_run(text, radix);
    let value = numeral_value(text.take(run as int), radix);
    if run == 0 || (most is Some && run > most->0) || (!zeros && text[0] == '0' && run > 1)
        || value > limit {
        None
    } else {
        Some((value, text.skip(run as int)))
    }
}

/// What stands behind the separator `mark`, which is due before every part
/// but the first.
pub open spec fn behind_mark(text: Seq<char>, mark: char, part: nat) -> Option<Seq<char>> {
    if part == 0 {
        Some(text)
    } else if text.len() > 0 && text[0] == mark {
        Some(text.skip(1))
    } else {
        None
    }
}

/// One part of a dotted address: a number up to 255 without needless zeros.
pub open spec fn octet_at_start(text: Seq<char>, part: nat) -> Option<(nat, Seq<char>)> {
    match behind_mark(text, '.', part) {
        Some(rest) => number_at_start(rest, 10, Some(3), false, 255),
        None => None,
    }
}

/// The octets from the one numbered `part` on, four in all.
pub open spec fn octets_at_start(text: Seq<char>, part: nat) -> Option<(Seq<nat>, Seq<char>)>
    decreases 4 - part,
{
    if part >= 4 {
        Some((Seq::empty(), text))
    } else {
        match octet_at_start(text, part) {
            Some((octet, rest)) => match octets_at_start(rest, part + 1) {
                Some((octets, end)) => Some((seq![octet] + octets, end)),
                None => None,
            },
            None => None,
        }
    }
}

/// Two octets as one group.
pub open spec fn pair_value(high: nat, low: nat) -> nat {
    high * 256 + low
}

/// The groups of an IPv6 address from the one numbered `part` on, as many as
/// there are but no more than `most` in all. A dotted address may stand in
/// the place of the last two; whether one did is the second result.
pub open spec fn groups_at_start(text: Seq<char>, most: nat, part: nat) -> (
    Seq<nat>,
    bool,
    Seq<char>,
)
    decreases most - part,
{
    if part >= most {
        (Seq::empty(), false, text)
    } else {
        match behind_mark(text, ':', part) {
            None => (Seq::empty(), false, text),
            Some(rest) => {
                let dotted = octets_at_start(rest, 0);
                if part + 1 < most && dotted is Some {
                    let (octets, end) = dotted->0;
                    (
                        seq![pair_value(octets[0], octets[1]), pair_value(octets[2], octets[3])],
                        true,
                        end,
                    )
                } else {
                    match number_at_start(rest, 16, Some(4), true, 65535) {
                        Some((group, next)) => {
                            let (groups, with_dots, end) = groups_at_start(next, most, part + 1);
                            (seq![group] + groups, with_dots, end)
                        },
                        None => (Seq::empty(), false, text),
                    }
                }
            },
        }
    }
}

/// `count` groups that are zero.
pub open spec fn zero_groups(count: nat) -> Seq<nat> {
    Seq::new(count, |i: int| 0nat)
}

/// The eight groups of the IPv6 address at the start of `text`: all of them
/// written, or with `::` for one zero group or more.
pub open spec fn ipv6_at_start(text: Seq<char>) -> Option<(Seq<nat>, Seq<char>)> {
    let (head, with_dots, rest) = groups_at_start(text, 8, 0);
    if head.len() == 8 {
        Some((head, rest))
    } else if with_dots || rest.len() < 2 || rest[0] != ':' || rest[1] != ':' {
        None
    } else {
        let (tail, _, end) = groups_at_start(rest.skip(2), (7 - head.len()) as nat, 0);
        Some((head + zero_groups((8 - head.len() - tail.len()) as nat) + tail, end))
    }
}

/// The scope number that may stand behind an IPv6 address, zero where none
/// does.
pub open spec fn scope_at_start(text: Seq<char>) -> (nat, Seq<char>) {
    if text.len() > 0 && text[0] == '%' {
        match number_at_start(text.skip(1), 10, None, true, 0xffff_ffff) {
            Some((scope, rest)) => (scope, rest),
            None => (0, text),
        }
    } else {
        (0, text)
    }
}

/// What a socket address is: the octets or groups, the scope, the port.
pub struct AddressView {
    pub v6: bool,
    pub parts: Seq<nat>,
    pub scope: nat,
    pub port: nat,
}

/// The port behind a colon, which ends the text.
pub open spec fn port_at_end(text: Seq<char>) -> Option<nat> {
    match behind_mark(text, ':', 1) {
        Some(digits) => match number_at_start(digits, 10, None, true, 65535) {
            Some((port, rest)) => if rest.len() == 0 {
                Some(port)
            } else {
                None
            },
            None => None,
        },
        None => None,
    }
}

/// The socket address that `text` writes, where it writes one.
pub open spec fn address_of(text: Seq<char>) -> Option<AddressView> {
    match octets_at_start(text, 0) {
        Some((octets, rest)) => match port_at_end(rest) {
            Some(port) => Some(AddressView { v6: false, parts: octets, scope: 0, port }),
            None => None,
        },
        None => if text.len() == 0 || text[0] != '[' {
            None
        } else {
            match ipv6_at_start(text.skip(1)) {
                Some((groups, rest)) => {
                    let (scope, close) = scope_at_start(rest);
                    if close.len() == 0 || close[0] != ']' {
                        None
                    } else {
                        match port_at_end(close.skip(1)) {
                            Some(port) => Some(
                                AddressView { v6: true, parts: groups, scope, port },
                            ),
                            None => None,
                        }
                    }
                },
                None => None,
            }
        },
    }
}

// ---------------------------------------------------------------------------
// Reading
// ---------------------------------------------------------------------------
/// An address with its port.
#[derive(Debug, PartialEq, Eq)]
pub struct SocketAddress {
    pub ip: IpAddress,
    pub port: u16,
}

/// The address of a machine: four octets, or eight groups with a scope.
#[derive(Debug, PartialEq, Eq)]
pub enum IpAddress {
    V4(u8, u8, u8, u8),
    V6(Vec<u16>, u32),
}

/// The values of a list of groups.
pub open spec fn group_values(groups: Seq<u16>) -> Seq<nat> {
    Seq::new(groups.len(), |i: int| groups[i] as nat)
}

impl IpAddress {
    pub open spec fn v6(&self) -> bool {
        self is V6
    }

    pub open spec fn parts(&self) -> Seq<nat> {
        match self {
            IpAddress::V4(a, b, c, d) => seq![*a as nat, *b as nat, *c as nat, *d as nat],
            IpAddress::V6(groups, _) => group_values(groups@),
        }
    }

    pub open spec fn scope(&self) -> nat {
        match self {
            IpAddress::V4(_, _, _, _) => 0,
            IpAddress::V6(_, scope) => *scope as nat,
        }
    }

    /// A V6 address has eight groups.
    pub open spec fn well_formed(&self) -> bool {
        self is V6 ==> self.parts().len() == 8
    }
}

impl SocketAddress {
    pub open spec fn view(&self) -> AddressView {
        AddressView {
            v6: self.ip.v6(),
            parts: self.ip.parts(),
            scope: self.ip.scope(),
            port: self.port as nat,
        }
    }
}

pub proof fn lemma_digit_run(text: Seq<char>, radix: nat)
    ensures
        digit_run(text, radix) <= text.len(),
        all_digits(text.take(digit_run(text, radix) as int), radix),
        digit_run(text, radix) < text.len() ==> digit_of(text[digit_run(text, radix) as int])
            >= radix,
    decreases text.len(),
{
    if text.len() > 0 && digit_of(text[0]) < radix {
        lemma_digit_run(text.skip(1), radix);
        let n = digit_run(text, radix) as int;
        assert forall|i: int| 0 <= i < n implies digit_of(#[trigger] text.take(n)[i]) < radix by {
            if i > 0 {
                assert(text.skip(1).take(n - 1)[i - 1] == text.take(n)[i]);
            }
        }
    }
}

/// The values of the prefixes of a numeral grow.
proof fn lemma_prefix_value(text: Seq<char>, radix: nat, n: int)
    requires
        0 <= n <= text.len(),
        radix >= 1,
    ensures
        numeral_value(text.take(n), radix) <= numeral_value(text, radix),
    decreases text.len() - n,
{
    if n < text.len() {
        lemma_prefix_value(text, radix, n + 1);
        assert(text.take(n + 1).drop_last() =~= text.take(n));
        let low = numeral_value(text.take(n), radix);
        assert(low <= low * radix) by (nonlinear_arith)
            requires
                radix >= 1,
                low >= 0,
        ;
    } else {
        assert(text.take(n) =~= text);
    }
}

/// Reads the number that starts at `at`.
fn read_number(
    chars: &Vec<char>,
    at: usize,
    radix: u64,
    most: Option<usize>,
    zeros: bool,
    limit: u64,
) -> (found: Option<(u64, usize)>)
    requires
        at <= chars.len(),
        radix == 10 || radix == 16,
        limit <= 0xffff_ffff,
    ensures
        match found {
            Some((value, next)) => {
                &&& at < next <= chars.len()
                &&& value <= limit
                &&& number_at_start(
                    chars@.skip(at as int),
                    radix as nat,
                    most_digits(most),
                    zeros,
                    limit as nat,
                ) == Some((value as nat, chars@.skip(next as int)))
            },
            None => number_at_start(
                chars@.skip(at as int),
                radix as nat,
                most_digits(most),
                zeros,
                limit as nat,
            ) is None,
        },
{
    let ghost text = chars@.skip(at as int);
    let ghost run = digit_run(text, radix as nat);
    let ghost digits = text.take(run as int);
    let mut next: usize = at;
    let mut value: u64 = 0;
    let mut over: bool = false;
    proof {
        lemma_digit_run(text, radix as nat);
        assert(digits.take(0) =~= Seq::<char>::empty());
        assert(chars@.skip(at as int) =~= text);
    }
    while next < chars.len() && (digit_value_of(chars[next]) as u64) < radix
        invariant
            at <= next <= chars.len(),
            radix == 10 || radix == 16,
            limit <= 0xffff_ffff,
            text == chars@.skip(at as int),
            run == digit_run(text, radix as nat),
            digits == text.take(run as int),
            run <= text.len(),
            run == (next - at) + digit_run(chars@.skip(next as int), radix as nat),
            value <= limit,
            !over ==> value == numeral_value(digits.take(next - at), radix as nat),
            over ==> numeral_value(digits, radix as nat) > limit,
        decreases chars.len() - next,
    {
        let digit: u64 = digit_value_of(chars[next]) as u64;
        let ghost n = next - at;
        proof {
            assert(chars@.skip(next as int).skip(1) =~= chars@.skip(next + 1));
            assert(digits[n] == chars@[next as int]);
            assert(digits.take(n + 1).drop_last() =~= digits.take(n));
            lemma_prefix_value(digits, radix as nat, n + 1);
            assert(value * radix <= 0xffff_ffff * 16) by (nonlinear_arith)
                requires
                    0 <= value <= 0xffff_ffff,
                    0 <= radix <= 16,
            ;
        }
        if !over {
            let sum: u64 = value * radix + digit;
            if sum > limit {
                over = true;
            } else {
                value = sum;
            }
        }
        next += 1;
    }
    assert(digits.take(next - at) =~= digits);
    assert(text.skip(run as int) =~= chars@.skip(next as int));
    let count: usize = next - at;
    if count == 0 || over {
        return None;
    }
    if !zeros && chars[at] == '0' && count > 1 {
        return None;
    }
    match most {
        Some(bound) => if count > bound {
            None
        } else {
            Some((value, next))
        },
        None => Some((value, next)),
    }
}

/// The bound on the number of digits as a number.
pub open spec fn most_digits(most: Option<usize>) -> Option<nat> {
    match most {
        Some(bound) => Some(bound as nat),
        None => None,
    }
}

/// Steps over the separator that is due before every part but the first.
fn read_mark(chars: &Vec<char>, at: usize, mark: char, first: bool) -> (found: Option<usize>)
    requires
        at <= chars.len(),
    ensures
        match found {
            Some(next) => at <= next <= chars.len() && behind_mark(
                chars@.skip(at as int),
                mark,
                if first { 0 } else { 1 },
            ) == Some(chars@.skip(next as int)),
            None => behind_mark(chars@.skip(at as int), mark, if first { 0 } else { 1 }) is None,
        },
{
    if first {
        Some(at)
    } else if at < chars.len() && chars[at] == mark {
        assert(chars@.skip(at as int).skip(1) =~= chars@.skip(at + 1));
        Some(at + 1)
    } else {
        None
    }
}

/// Reads a dotted address.
fn read_octets(chars: &Vec<char>, at: usize) -> (found: Option<(Vec<u8>, usize)>)
    requires
        at <= chars.len(),
    ensures
        match found {
            Some((octets, next)) => {
                &&& at <= next <= chars.len()
                &&& octets.len() == 4
                &&& octets_at_start(chars@.skip(at as int), 0) == Some(
                    (octet_values(octets@), chars@.skip(next as int)),
                )
            },
            None => octets_at_start(chars@.skip(at as int), 0) is None,
        },
{
    let mut octets: Vec<u8> = Vec::new();
    let mut next: usize = at;
    let mut part: usize = 0;
    let ghost whole = octets_at_start(chars@.skip(at as int), 0);
    proof {
        if whole is Some {
            assert(octet_values(octets@) + (whole->0).0 =~= (whole->0).0);
        }
    }
    while part < 4
        invariant
            at <= next <= chars.len(),
            part <= 4,
            octets.len() == part,
            whole == octets_at_start(chars@.skip(at as int), 0),
            match octets_at_start(chars@.skip(next as int), part as nat) {
                Some((rest, end)) => whole == Some((octet_values(octets@) + rest, end)),
                None => whole is None,
            },
        decreases 4 - part,
    {
        let ghost here = octets_at_start(chars@.skip(next as int), part as nat);
        let behind: usize = match read_mark(chars, next, '.', part == 0) {
            Some(behind) => behind,
            None => {
                return None;
            },
        };
        match read_number(chars, behind, 10, Some(3), false, 255) {
            Some((value, after)) => {
                let ghost before = octet_values(octets@);
                octets.push(value as u8);
                proof {
                    assert(octet_values(octets@) =~= before.push(value as nat));
                    let later = octets_at_start(chars@.skip(after as int), (part + 1) as nat);
                    if later is Some {
                        let (rest, end) = later->0;
                        assert(before + (seq![value as nat] + rest) =~= octet_values(octets@)
                            + rest);
                    }
                }
                next = after;
            },
            None => {
                return None;
            },
        }
        part += 1;
    }
    assert(octet_values(octets@) + Seq::<nat>::empty() =~= octet_values(octets@));
    Some((octets, next))
}

/// The values of a list of octets.
pub open spec fn octet_values(octets: Seq<u8>) -> Seq<nat> {
    Seq::new(octets.len(), |i: int| octets[i] as nat)
}

/// Reads the groups of an IPv6 address, at most `most`.
fn read_groups(chars: &Vec<char>, at: usize, most: usize) -> (found: (Vec<u16>, bool, usize))
    requires
        at <= chars.len(),
        most <= 8,
    ensures
        at <= found.2 <= chars.len(),
        found.0.len() <= most,
        groups_at_start(chars@.skip(at as int), most as nat, 0) == (
            group_values(found.0@),
            found.1,
            chars@.skip(found.2 as int),
        ),
{
    let mut groups: Vec<u16> = Vec::new();
    let mut next: usize = at;
    let mut part: usize = 0;
    let ghost whole = groups_at_start(chars@.skip(at as int), most as nat, 0);
    assert(group_values(groups@) + whole.0 =~= whole.0);
    while part < most
        invariant
            at <= next <= chars.len(),
            part <= most <= 8,
            groups.len() == part,
            whole == groups_at_start(chars@.skip(at as int), most as nat, 0),
            whole == ({
                let here = groups_at_start(chars@.skip(next as int), most as nat, part as nat);
                (group_values(groups@) + here.0, here.1, here.2)
            }),
        decreases most - part,
    {
        let ghost before = group_values(groups@);
        assert(before + Seq::<nat>::empty() =~= before);
        let behind: usize = match read_mark(chars, next, ':', part == 0) {
            Some(behind) => behind,
            None => {
                return (groups, false, next);
            },
        };
        if part + 1 < most {
            if let Some((octets, after)) = read_octets(chars, behind) {
                let high: u16 = octets[0] as u16 * 256 + octets[1] as u16;
                let low: u16 = octets[2] as u16 * 256 + octets[3] as u16;
                groups.push(high);
                groups.push(low);
                proof {
                    let o = octet_values(octets@);
                    assert(o[0] == octets@[0] && o[1] == octets@[1] && o[2] == octets@[2] && o[3]
                        == octets@[3]);
                    assert(group_values(groups@) =~= before + seq![
                        pair_value(o[0], o[1]),
                        pair_value(o[2], o[3]),
                    ]);
                }
                return (groups, true, after);
            }
        }
        match read_number(chars, behind, 16, Some(4), true, 65535) {
            Some((value, after)) => {
                groups.push(value as u16);
                proof {
                    assert(group_values(groups@) =~= before.push(value as nat));
                    let here = groups_at_start(
                        chars@.skip(after as int),
                        most as nat,
                        (part + 1) as nat,
                    );
                    assert(before + (seq![value as nat] + here.0) =~= group_values(groups@)
                        + here.0);
                }
                next = after;
            },
            None => {
                return (groups, false, next);
            },
        }
        part += 1;
    }
    assert(group_values(groups@) + Seq::<nat>::empty() =~= group_values(groups@));
    (groups, false, next)
}

/// Reads an IPv6 address.
fn read_ipv6(chars: &Vec<char>, at: usize) -> (found: Option<(Vec<u16>, usize)>)
    requires
        at <= chars.len(),
    ensures
        match found {
            Some((groups, next)) => {
                &&& at <= next <= chars.len()
                &&& groups.len() == 8
                &&& ipv6_at_start(chars@.skip(at as int)) == Some(
                    (group_values(groups@), chars@.skip(next as int)),
                )
            },
            None => ipv6_at_start(chars@.skip(at as int)) is None,
        },
{
    let (mut groups, with_dots, next): (Vec<u16>, bool, usize) = read_groups(chars, at, 8);
    if groups.len() == 8 {
        return Some((groups, next));
    }
    if with_dots || chars.len() - next < 2 || chars[next] != ':' || chars[next + 1] != ':' {
        return None;
    }
    assert(chars@.skip(next as int).skip(2) =~= chars@.skip(next + 2));
    let (tail, _, end): (Vec<u16>, bool, usize) = read_groups(chars, next + 2, 7 - groups.len());
    let ghost head = group_values(groups@);
    let missing: usize = 8 - groups.len() - tail.len();
    let mut i: usize = 0;
    while i < missing
        invariant
            i <= missing,
            group_values(groups@) =~= head + zero_groups(i as nat),
        decreases missing - i,
    {
        let ghost before = groups@;
        groups.push(0);
        i += 1;
        proof {
            assert(group_values(groups@) =~= group_values(before).push(0));
            assert(zero_groups(i as nat) =~= zero_groups((i - 1) as nat).push(0));
        }
    }
    let mut j: usize = 0;
    while j < tail.len()
        invariant
            j <= tail.len(),
            group_values(groups@) =~= head + zero_groups(missing as nat) + group_values(
                tail@,
            ).take(j as int),
        decreases tail.len() - j,
    {
        let ghost before = groups@;
        groups.push(tail[j]);
        j += 1;
        proof {
            assert(group_values(groups@) =~= group_values(before).push(tail@[j - 1] as nat));
            assert(group_values(tail@).take(j as int) =~= group_values(tail@).take(j - 1).push(
                tail@[j - 1] as nat,
            ));
        }
    }
    assert(group_values(tail@).take(j as int) =~= group_values(tail@));
    assert(group_values(groups@).len() == 8);
    Some((groups, end))
}

/// Reads the port behind a colon, up to the end.
fn read_port(chars: &Vec<char>, at: usize) -> (found: Option<u16>)
    requires
        at <= chars.len(),
    ensures
        match found {
            Some(port) => port_at_end(chars@.skip(at as int)) == Some(port as nat),
            None => port_at_end(chars@.skip(at as int)) is None,
        },
{
    match read_mark(chars, at, ':', false) {
        Some(behind) => match read_number(chars, behind, 10, None, true, 65535) {
            Some((port, next)) => if next == chars.len() {
                Some(port as u16)
            } else {
                None
            },
            None => None,
        },
        None => None,
    }
}

/// Reads the scope number that may stand behind an IPv6 address.
fn read_scope(chars: &Vec<char>, at: usize) -> (found: (u32, usize))
    requires
        at <= chars.len(),
    ensures
        at <= found.1 <= chars.len(),
        scope_at_start(chars@.skip(at as int)) == (found.0 as nat, chars@.skip(found.1 as int)),
{
    if at < chars.len() && chars[at] == '%' {
        assert(chars@.skip(at as int).skip(1) =~= chars@.skip(at + 1));
        match read_number(chars, at + 1, 10, None, true, 0xffff_ffff) {
            Some((scope, next)) => (scope as u32, next),
            None => (0, at),
        }
    } else {
        (0, at)
    }
}

/// Reads a socket address: `None` where `text` writes none.
pub fn read_address(text: &str) -> (found: Option<SocketAddress>)
    ensures
        match found {
            Some(address) => address.ip.well_formed() && address_of(text@) == Some(address@),
            None => address_of(text@) is None,
        },
{
    let chars: Vec<char> = chars_of(text);
    assert(chars@.skip(0) =~= text@);
    if let Some((octets, next)) = read_octets(&chars, 0) {
        return match read_port(&chars, next) {
            Some(port) => {
                let ip: IpAddress = IpAddress::V4(octets[0], octets[1], octets[2], octets[3]);
                assert(ip.parts() =~= octet_values(octets@));
                Some(SocketAddress { ip, port })
            },
            None => None,
        };
    }
    if chars.len() == 0 || chars[0] != '[' {
        return None;
    }
    assert(text@.skip(1) =~= chars@.skip(1));
    let (groups, next): (Vec<u16>, usize) = match read_ipv6(&chars, 1) {
        Some(found) => found,
        None => {
            return None;
        },
    };
    let (scope, close): (u32, usize) = read_scope(&chars, next);
    if close == chars.len() || chars[close] != ']' {
        return None;
    }
    assert(chars@.skip(close as int).skip(1) =~= chars@.skip(close + 1));
    match read_port(&chars, close + 1) {
        Some(port) => Some(SocketAddress { ip: IpAddress::V6(groups, scope), port }),
        None => None,
    }
}

// ---------------------------------------------------------------------------
// Writing
// ---------------------------------------------------------------------------
/// The dotted form of four octets.
pub open spec fn dotted(octets: Seq<nat>) -> Seq<char> {
    decimal(octets[0]) + seq!['.'] + decimal(octets[1]) + seq!['.'] + decimal(octets[2]) + seq![
        '.',
    ] + decimal(octets[3])
}

/// Groups in base sixteen with colons between them.
pub open spec fn groups_text(groups: Seq<nat>) -> Seq<char>
    decreases groups.len(),
{
    if groups.len() == 0 {
        Seq::empty()
    } else if groups.len() == 1 {
        numeral(groups[0], 16)
    } else {
        numeral(groups[0], 16) + seq![':'] + groups_text(groups.skip(1))
    }
}

/// Whether `count` groups from `start` on are zero.
pub open spec fn zero_run(groups: Seq<nat>, start: int, count: int) -> bool {
    &&& 0 <= start
    &&& 0 <= count
    &&& start + count <= groups.len()
    &&& forall|i: int| start <= i < start + count ==> #[trigger] groups[i] == 0
}

/// Whether this is the longest run of zero groups, the first of them where
/// there are several; at the start and empty where no group is zero.
pub open spec fn longest_zero_run(groups: Seq<nat>, start: int, count: int) -> bool {
    &&& zero_run(groups, start, count)
    &&& count == 0 ==> start == 0
    &&& forall|s: int, n: int| #[trigger]
        zero_run(groups, s, n) && n > 0 ==> n < count || (n == count && start <= s)
}

/// Whether the groups hold a dotted address behind five zero groups and `ffff`.
pub open spec fn holds_dotted(groups: Seq<nat>) -> bool {
    &&& forall|i: int| 0 <= i < 5 ==> #[trigger] groups[i] == 0
    &&& groups[5] == 0xffff
}

/// The octets of the last two groups.
pub open spec fn last_octets(groups: Seq<nat>) -> Seq<nat> {
    seq![groups[6] / 256, groups[6] % 256, groups[7] / 256, groups[7] % 256]
}

/// Eight groups with `::` for the given run of zeros where it has two groups
/// or more.
pub open spec fn shortened(groups: Seq<nat>, start: int, count: int) -> Seq<char> {
    if count > 1 {
        groups_text(groups.take(start)) + seq![':', ':'] + groups_text(groups.skip(start + count))
    } else {
        groups_text(groups)
    }
}

/// The text of eight groups: the longest run of zeros, if it has two groups
/// or more, is written `::`, and a dotted address behind `::ffff:` with dots.
pub open spec fn ipv6_text(groups: Seq<nat>) -> Seq<char> {
    if holds_dotted(groups) {
        seq![':', ':', 'f', 'f', 'f', 'f', ':'] + dotted(last_octets(groups))
    } else {
        let (start, count) = choose|start: int, count: int| longest_zero_run(groups, start, count);
        shortened(groups, start, count)
    }
}

/// The text of an address without its port.
pub open spec fn ip_text(v6: bool, parts: Seq<nat>) -> Seq<char> {
    if v6 {
        ipv6_text(parts)
    } else {
        dotted(parts)
    }
}

proof fn lemma_longest_run_unique(groups: Seq<nat>, s: int, n: int, start: int, count: int)
    requires
        longest_zero_run(groups, s, n),
        longest_zero_run(groups, start, count),
    ensures
        s == start && n == count,
{
    assert(zero_run(groups, s, n));
    assert(zero_run(groups, start, count));
}

/// Finds the longest run of zero groups.
fn find_zero_run(groups: &Vec<u16>) -> (run: (usize, usize))
    ensures
        longest_zero_run(group_values(groups@), run.0 as int, run.1 as int),
{
    let mut start: usize = 0;
    let mut count: usize = 0;
    let mut from: usize = 0;
    let mut length: usize = 0;
    let mut i: usize = 0;
    let ghost g = group_values(groups@);
    while i < groups.len()
        invariant
            i <= groups.len(),
            g == group_values(groups@),
            length <= i,
            length > 0 ==> from + length == i,
            zero_run(g, i - length, length as int),
            length < i ==> g[i - length - 1] != 0,
            zero_run(g, start as int, count as int),
            count == 0 ==> start == 0,
            start + count <= i,
            forall|s: int, n: int| #[trigger]
                zero_run(g, s, n) && n > 0 && s + n <= i ==> n < count || (n == count && start
                    <= s),
        decreases groups.len() - i,
    {
        if groups[i] == 0 {
            assert(g[i as int] == 0);
            if length == 0 {
                from = i;
            }
            length += 1;
            assert forall|s: int, n: int| #[trigger]
                zero_run(g, s, n) && n > 0 && s + n <= i + 1 implies (n < count || (n == count
                && start <= s)) || (n < length || (n == length && from <= s)) by {
                if s + n == i + 1 {
                    if s < from {
                        assert(g[from - 1] == 0);
                    }
                }
            }
            assert(zero_run(g, from as int, length as int));
            if length > count {
                start = from;
                count = length;
            }
        } else {
            assert(g[i as int] != 0);
            length = 0;
            assert forall|s: int, n: int| #[trigger]
                zero_run(g, s, n) && n > 0 && s + n <= i + 1 implies n < count || (n == count
                && start <= s) by {
                if s + n == i + 1 {
                    assert(g[i as int] == 0);
                }
            }
        }
        i += 1;
    }
    (start, count)
}

/// The text of `groups[from..to]` with colons between them.
fn write_groups(groups: &Vec<u16>, from: usize, to: usize) -> (text: String)
    requires
        from <= to <= groups.len(),
    ensures
        text@ == groups_text(group_values(groups@).subrange(from as int, to as int)),
    decreases to - from,
{
    let ghost part = group_values(groups@).subrange(from as int, to as int);
    if from == to {
        let text: String = String::new();
        text
    } else {
        let mut text: String = hex_text(groups[from]);
        assert(part[0] == groups@[from as int]);
        if from + 1 < to {
            text.push(':');
            let rest: String = write_groups(groups, from + 1, to);
            text.append(rest.as_str());
            proof {
                assert(part.skip(1) =~= group_values(groups@).subrange(from + 1, to as int));
                assert(text@ =~= numeral(part[0], 16) + seq![':'] + groups_text(part.skip(1)));
            }
        }
        text
    }
}

/// The dotted form of four octets.
fn write_dotted(a: u8, b: u8, c: u8, d: u8) -> (text: String)
    ensures
        text@ == dotted(seq![a as nat, b as nat, c as nat, d as nat]),
{
    let mut text: String = decimal_text(a as u64);
    text.push('.');
    text.append(decimal_text(b as u64).as_str());
    text.push('.');
    text.append(decimal_text(c as u64).as_str());
    text.push('.');
    text.append(decimal_text(d as u64).as_str());
    assert(text@ =~= dotted(seq![a as nat, b as nat, c as nat, d as nat]));
    text
}

impl IpAddress {
    /// The address as text, without its scope.
    pub fn to_text(&self) -> (text: String)
        requires
            self.well_formed(),
        ensures
            text@ == ip_text(self.v6(), self.parts()),
    {
        match self {
            IpAddress::V4(a, b, c, d) => write_dotted(*a, *b, *c, *d),
            IpAddress::V6(groups, _) => {
                let ghost g = group_values(groups@);
                assert(g.len() == 8);
                assert forall|i: int| 0 <= i < 8 implies #[trigger] g[i] == groups@[i] by {}
                if groups[0] == 0 && groups[1] == 0 && groups[2] == 0 && groups[3] == 0
                    && groups[4] == 0 && groups[5] == 0xffff {
                    let mut text: String = "::ffff:".to_owned();
                    let octets: String = write_dotted(
                        (groups[6] / 256) as u8,
                        (groups[6] % 256) as u8,
                        (groups[7] / 256) as u8,
                        (groups[7] % 256) as u8,
                    );
                    text.append(octets.as_str());
                    proof {
                        reveal_strlit("::ffff:");
                        assert("::ffff:"@ =~= seq![':', ':', 'f', 'f', 'f', 'f', ':']);
                        assert(holds_dotted(g));
                        assert(last_octets(g) =~= seq![
                            (groups@[6] / 256) as nat,
                            (groups@[6] % 256) as nat,
                            (groups@[7] / 256) as nat,
                            (groups@[7] % 256) as nat,
                        ]);
                    }
                    return text;
                }
                assert(!holds_dotted(g)) by {
                    if holds_dotted(g) {
                        assert(g[0] == 0 && g[1] == 0 && g[2] == 0 && g[3] == 0 && g[4] == 0);
                    }
                }
                let (start, count): (usize, usize) = find_zero_run(groups);
                proof {
                    let (s, n) = choose|s: int, n: int| longest_zero_run(g, s, n);
                    lemma_longest_run_unique(g, s, n, start as int, count as int);
                }
                if count > 1 {
                    let mut text: String = write_groups(groups, 0, start);
                    text.append("::");
                    let tail: String = write_groups(groups, start + count, groups.len());
                    text.append(tail.as_str());
                    proof {
                        reveal_strlit("::");
                        assert("::"@ =~= seq![':', ':']);
                        assert(g.take(start as int) =~= g.subrange(0, start as int));
                        assert(g.skip(start + count) =~= g.subrange(start + count, 8));
                    }
                    text
                } else {
                    assert(g.subrange(0, 8) =~= g);
                    write_groups(groups, 0, groups.len())
                }
            },
        }
    }
}

} // verus!
