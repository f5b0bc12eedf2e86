//! Numerals: how numbers are written and read in base ten and sixteen.
use vstd::arithmetic::div_mod::{lemma_div_decreases, lemma_fundamental_div_mod};
use vstd::prelude::*;

use crate::text::chars_of;

verus! {

/// The numeral of `digit`, which is below sixteen, in lower case.
pub open spec fn digit_char(digit: nat) -> char {
    if digit < 10 {
        ('0' as nat + digit) as char
    } else {
        ('a' as nat + digit - 10) as char
    }
}

/// What a digit stands for, letters of either case from ten on; sixteen for
/// every other character.
pub open spec fn digit_of(ch: char) -> nat {
    if '0' <= ch <= '9' {
        (ch as int - '0' as int) as nat
    } else if 'a' <= ch <= 'f' {
        (10 + (ch as int - 'a' as int)) as nat
    } else if 'A' <= ch <= 'F' {
        (10 + (ch as int - 'A' as int)) as nat
    } else {
        16
    }
}

/// `number` written in base `radix`, without leading zeros.
pub open spec fn numeral(number: nat, radix: nat) -> Seq<char>
    decreases number,
    when radix >= 2
    via numeral_decreases
{
    if number < radix {
        seq![digit_char(number)]
    } else {
        numeral(number / radix, radix).push(digit_char(number % radix))
    }
}

#[via_fn]
proof fn numeral_decreases(number: nat, radix: nat) {
    if number >= radix {
        lemma_div_decreases(number as int, radix as int);
    }
}

/// `number` written in base ten.
pub open spec fn decimal(number: nat) -> Seq<char> {
    numeral(number, 10)
}

/// Whether every character is a digit in base `radix`.
pub open spec fn all_digits(text: Seq<char>, radix: nat) -> bool {
    forall|i: int| 0 <= i < text.len() ==> digit_of(#[trigger] text[i]) < radix
}

/// The number that the digits of `text` write in base `radix`.
pub open spec fn numeral_value(text: Seq<char>, radix: nat) -> nat
    decreases text.len(),
{
    if text.len() == 0 {
        0
    } else {
        numeral_value(text.drop_last(), radix) * radix + digit_of(text.last())
    }
}

/// A numeral is made of digits, does not start with a zero unless it is that
/// zero alone, and is read back as the number that was written.
pub proof fn numeral_reads_back(number: nat, radix: nat)
    requires
        2 <= radix <= 16,
    ensures
        numeral(number, radix).len() > 0,
        all_digits(numeral(number, radix), radix),
        numeral_value(numeral(number, radix), radix) == number,
        numeral(number, radix)[0] == '0' ==> number == 0,
    decreases number,
{
    lemma_digit_char(number % radix);
    lemma_fundamental_div_mod(number as int, radix as int);
    if number < radix {
        lemma_digit_char(number);
        let text = numeral(number, radix);
        assert(text.drop_last() =~= Seq::<char>::empty());
        assert(numeral_value(text.drop_last(), radix) == 0);
        assert(0 * radix == 0) by (nonlinear_arith);
    } else {
        lemma_div_decreases(number as int, radix as int);
        let high = number / radix;
        numeral_reads_back(high, radix);
        let text = numeral(number, radix);
        assert(text.drop_last() =~= numeral(high, radix));
        assert(high * radix + number % radix == number) by {
            assert(radix * high == high * radix) by (nonlinear_arith);
        }
        assert(high > 0) by (nonlinear_arith)
            requires
                number >= radix,
                radix >= 2,
                high == number / radix,
        ;
        assert(text[0] == numeral(high, radix)[0]);
    }
}

proof fn lemma_digit_char(digit: nat)
    ensures
        digit < 16 ==> digit_of(digit_char(digit)) == digit,
        digit_char(digit) == '0' && digit < 16 ==> digit == 0,
{
}

/// How many digits a numeral has: one more for each time the base goes into
/// the number.
pub proof fn lemma_numeral_len(number: nat, radix: nat, bound: nat, digits: nat)
    requires
        2 <= radix <= 16,
        digits >= 1,
        bound == vstd::arithmetic::power::pow(radix as int, digits),
        number < bound,
    ensures
        numeral(number, radix).len() <= digits,
    decreases digits,
{
    if number >= radix {
        reveal(vstd::arithmetic::power::pow);
        lemma_div_decreases(number as int, radix as int);
        let high = number / radix;
        if digits == 1 {
            assert(bound == radix * 1) by {
                assert(vstd::arithmetic::power::pow(radix as int, 0) == 1);
            }
        } else {
            let below = vstd::arithmetic::power::pow(radix as int, (digits - 1) as nat);
            assert(bound == radix * below);
            assert(high < below) by (nonlinear_arith)
                requires
                    high == number / radix,
                    number < radix * below,
                    radix >= 2,
            ;
            assert(below > 0);
            lemma_numeral_len(high, radix, below as nat, (digits - 1) as nat);
        }
    }
}

/// The digit that stands for a value below sixteen.
fn digit_text(digit: u8) -> (ch: char)
    requires
        digit < 16,
    ensures
        ch == digit_char(digit as nat),
{
    if digit < 10 {
        (48 + digit) as char
    } else {
        (97 + (digit - 10)) as char
    }
}

/// The value of a digit, sixteen for a character that is none.
pub fn digit_value_of(ch: char) -> (value: u32)
    ensures
        value == digit_of(ch),
{
    if '0' <= ch && ch <= '9' {
        ch as u32 - 48
    } else if 'a' <= ch && ch <= 'f' {
        ch as u32 - 97 + 10
    } else if 'A' <= ch && ch <= 'F' {
        ch as u32 - 65 + 10
    } else {
        16
    }
}

/// `number` in base ten.
pub fn decimal_text(number: u64) -> (text: String)
    ensures
        text@ == decimal(number as nat),
    decreases number,
{
    if number < 10 {
        let mut text: String = String::new();
        text.push(digit_text(number as u8));
        assert(text@ =~= seq![digit_char(number as nat)]);
        text
    } else {
        let mut text: String = decimal_text(number / 10);
        text.push(digit_text((number % 10) as u8));
        text
    }
}

/// `number` in base sixteen, lower case.
pub fn hex_text(number: u16) -> (text: String)
    ensures
        text@ == numeral(number as nat, 16),
    decreases number,
{
    if number < 16 {
        let mut text: String = String::new();
        text.push(digit_text(number as u8));
        assert(text@ =~= seq![digit_char(number as nat)]);
        text
    } else {
        let mut text: String = hex_text(number / 16);
        text.push(digit_text((number % 16) as u8));
        text
    }
}

/// What `text` reads as a number of the machine's word size: digits, with a
/// plus sign before them or not. `None` where there is no digit, where
/// another character stands, or where the number does not fit.
pub open spec fn word_value(text: Seq<char>) -> Option<nat> {
    let digits = if text.len() > 0 && text[0] == '+' {
        text.skip(1)
    } else {
        text
    };
    if digits.len() > 0 && all_digits(digits, 10) && numeral_value(digits, 10) <= usize::MAX {
        Some(numeral_value(digits, 10))
    } else {
        None
    }
}

/// The values of the prefixes of a numeral grow.
proof fn lemma_prefix_value(text: Seq<char>, n: int)
    requires
        0 <= n <= text.len(),
    ensures
        numeral_value(text.take(n), 10) <= numeral_value(text, 10),
    decreases text.len() - n,
{
    if n < text.len() {
        lemma_prefix_value(text, n + 1);
        assert(text.take(n + 1).drop_last() =~= text.take(n));
    } else {
        assert(text.take(n) =~= text);
    }
}

/// Reads a number of the machine's word size.
pub fn read_word(text: &str) -> (number: Option<usize>)
    ensures
        match number {
            Some(value) => word_value(text@) == Some(value as nat),
            None => word_value(text@) is None,
        },
{
    let chars: Vec<char> = chars_of(text);
    let from: usize = if chars.len() > 0 && chars[0] == '+' {
        1
    } else {
        0
    };
    let ghost digits = chars@.skip(from as int);
    assert(chars@.skip(0) =~= chars@);
    if from == chars.len() {
        return None;
    }
    let mut value: usize = 0;
    let mut at: usize = from;
    assert(digits.take(0) =~= Seq::<char>::empty());
    while at < chars.len()
        invariant
            from <= at <= chars.len(),
            digits == chars@.skip(from as int),
            digits.len() > 0,
            word_value(text@) == (if all_digits(digits, 10) && numeral_value(digits, 10)
                <= usize::MAX {
                Some(numeral_value(digits, 10))
            } else {
                None
            }),
            value == numeral_value(digits.take(at - from), 10),
            forall|i: int| 0 <= i < at - from ==> digit_of(#[trigger] digits[i]) < 10,
        decreases chars.len() - at,
    {
        let digit: u32 = digit_value_of(chars[at]);
        let ghost n = at - from;
        assert(digits[n] == chars@[at as int]);
        if digit >= 10 {
            return None;
        }
        assert(digits.take(n + 1).drop_last() =~= digits.take(n));
        proof {
            lemma_prefix_value(digits, n + 1);
        }
        match value.checked_mul(10) {
            Some(product) => match product.checked_add(digit as usize) {
                Some(sum) => {
                    value = sum;
                },
                None => {
                    return None;
                },
            },
            None => {
                return None;
            },
        }
        at += 1;
    }
    assert(digits.take(at - from) =~= digits);
    Some(value)
}

} // verus!
