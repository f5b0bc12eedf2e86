//! Lines that begin with a slash: a command with its argument, or a skill.
use vstd::prelude::*;

use crate::json::opt_view;
use crate::text::{
    after_prefix, chars_of, first_white, is_white, lemma_first_white, trim, trimmed, white_space,
};

verus! {

/// The argument of a command in a line: `None` where the line does not begin
/// with the command, or goes on right behind it.
pub open spec fn argument_of(input: Seq<char>, command: Seq<char>) -> Option<Seq<char>> {
    let rest = input.skip(command.len() as int);
    if !command.is_prefix_of(input) {
        None
    } else if rest.len() == 0 {
        Some(Seq::empty())
    } else if is_white(rest[0]) {
        Some(trim(rest))
    } else {
        None
    }
}

/// The argument of `command` in `input`, where the line is that command.
pub fn command_arg<'a>(input: &'a str, command: &str) -> (arg: Option<&'a str>)
    ensures
        opt_view(arg) == argument_of(input@, command@),
{
    match after_prefix(input, command) {
        Some(rest) => {
            if rest.is_empty() {
                proof {
                    reveal_strlit("");
                }
                assert(""@ =~= Seq::<char>::empty());
                Some("")
            } else if white_space(rest.get_char(0)) {
                Some(trimmed(rest))
            } else {
                None
            }
        },
        None => None,
    }
}

/// The skill that a line names, with what it is given: the word behind the
/// slash, and the rest of the line.
pub open spec fn skill_of(input: Seq<char>) -> Option<(Seq<char>, Seq<char>)> {
    let line = trim(input);
    let rest = line.skip(1);
    let end = first_white(rest) as int;
    if line.len() < 2 || line[0] != '/' {
        None
    } else if end == rest.len() {
        Some((rest, Seq::empty()))
    } else {
        Some((rest.take(end), trim(rest.skip(end + 1))))
    }
}

/// The characters of a name and its arguments.
pub open spec fn pair_view(pair: Option<(&str, &str)>) -> Option<(Seq<char>, Seq<char>)> {
    match pair {
        Some((name, args)) => Some((name@, args@)),
        None => None,
    }
}

/// Reads a skill and its arguments out of a line.
pub fn parse_slash_skill(input: &str) -> (skill: Option<(&str, &str)>)
    ensures
        pair_view(skill) == skill_of(input@),
{
    let line: &str = trimmed(input);
    let chars: Vec<char> = chars_of(line);
    if chars.len() < 2 || chars[0] != '/' {
        return None;
    }
    let ghost rest = line@.skip(1);
    let mut end: usize = 1;
    assert(chars@.skip(1) =~= rest);
    while end < chars.len() && !white_space(chars[end])
        invariant
            1 <= end <= chars.len(),
            chars@ == line@,
            rest == line@.skip(1),
            1 + first_white(rest) == end + first_white(chars@.skip(end as int)),
        decreases chars.len() - end,
    {
        assert(chars@.skip(end as int).skip(1) =~= chars@.skip(end + 1));
        end += 1;
    }
    proof {
        lemma_first_white(rest);
    }
    if end == chars.len() {
        proof {
            reveal_strlit("");
        }
        assert(""@ =~= Seq::<char>::empty());
        assert(line@.subrange(1, chars.len() as int) =~= rest);
        Some((line.substring_char(1, chars.len()), ""))
    } else {
        assert(line@.subrange(1, end as int) =~= rest.take(end - 1));
        assert(line@.subrange(end + 1, chars.len() as int) =~= rest.skip(end as int));
        Some(
            (
                line.substring_char(1, end),
                trimmed(line.substring_char(end + 1, chars.len())),
            ),
        )
    }
}

/// A line is at most one command: it cannot be two different ones whose names
/// have no white space in them.
pub proof fn commands_exclude_each_other(input: Seq<char>, one: Seq<char>, other: Seq<char>)
    requires
        argument_of(input, one) is Some,
        argument_of(input, other) is Some,
        forall|i: int| 0 <= i < one.len() ==> !is_white(#[trigger] one[i]),
        forall|i: int| 0 <= i < other.len() ==> !is_white(#[trigger] other[i]),
    ensures
        one == other,
{
    if one.len() < other.len() {
        assert(input[one.len() as int] == input.subrange(0, other.len() as int)[one.len() as int]);
        assert(input.skip(one.len() as int)[0] == other[one.len() as int]);
    } else if other.len() < one.len() {
        assert(input[other.len() as int] == input.subrange(0, one.len() as int)[other.len() as int]);
        assert(input.skip(other.len() as int)[0] == one[other.len() as int]);
    } else {
        assert(one =~= other);
    }
}

} // verus!
