//! Fitting text to the terminal: how wide it is, how it is cut and wrapped,
//! and how a loaded conversation is shown.
use vstd::prelude::*;

use crate::json::{or_empty, values, Json, JsonView};
use crate::number::{decimal, read_word, word_value};
use crate::terminal_style::{styled, Style, StyleExt};
use crate::text::{
    chars_of, control, is_control, joined, lines, repeat_char, repeated, same_text, split_lines,
    split_words, strip_trailing, text_between, texts, without_trailing, words,
};

verus! {

// ---------------------------------------------------------------------------
// Width
// ---------------------------------------------------------------------------
/// Whether the terminal shows the character in two columns.
pub open spec fn is_wide(ch: char) -> bool {
    ||| '\u{1100}' <= ch <= '\u{115F}'
    ||| '\u{2329}' <= ch <= '\u{232A}'
    ||| '\u{2E80}' <= ch <= '\u{A4CF}'
    ||| '\u{AC00}' <= ch <= '\u{D7A3}'
    ||| '\u{F900}' <= ch <= '\u{FAFF}'
    ||| '\u{FE10}' <= ch <= '\u{FE19}'
    ||| '\u{FE30}' <= ch <= '\u{FE6F}'
    ||| '\u{FF00}' <= ch <= '\u{FF60}'
    ||| '\u{FFE0}' <= ch <= '\u{FFE6}'
    ||| '\u{1F300}' <= ch <= '\u{1FAFF}'
    ||| '\u{20000}' <= ch <= '\u{2FFFD}'
    ||| '\u{30000}' <= ch <= '\u{3FFFD}'
}

/// How many columns a character takes: control characters none, wide ones
/// two, all others one.
pub open spec fn char_width(ch: char) -> nat {
    if is_control(ch) {
        0
    } else if is_wide(ch) {
        2
    } else {
        1
    }
}

/// How many columns a text takes.
pub open spec fn text_width(text: Seq<char>) -> nat
    decreases text.len(),
{
    if text.len() == 0 {
        0
    } else {
        text_width(text.drop_last()) + char_width(text.last())
    }
}

/// How many columns a character takes.
pub fn char_display_width(ch: char) -> (width: usize)
    ensures
        width == char_width(ch),
{
    if control(ch) {
        return 0;
    }
    if ('\u{1100}' <= ch && ch <= '\u{115F}') || ('\u{2329}' <= ch && ch <= '\u{232A}') || (
    '\u{2E80}' <= ch && ch <= '\u{A4CF}') || ('\u{AC00}' <= ch && ch <= '\u{D7A3}') || ('\u{F900}'
        <= ch && ch <= '\u{FAFF}') || ('\u{FE10}' <= ch && ch <= '\u{FE19}') || ('\u{FE30}' <= ch
        && ch <= '\u{FE6F}') || ('\u{FF00}' <= ch && ch <= '\u{FF60}') || ('\u{FFE0}' <= ch && ch
        <= '\u{FFE6}') || ('\u{1F300}' <= ch && ch <= '\u{1FAFF}') || ('\u{20000}' <= ch && ch
        <= '\u{2FFFD}') || ('\u{30000}' <= ch && ch <= '\u{3FFFD}') {
        2
    } else {
        1
    }
}

proof fn lemma_prefix_width(text: Seq<char>, n: int)
    requires
        0 <= n <= text.len(),
    ensures
        text_width(text.take(n)) <= text_width(text),
    decreases text.len() - n,
{
    if n < text.len() {
        lemma_prefix_width(text, n + 1);
        assert(text.take(n + 1).drop_last() =~= text.take(n));
    } else {
        assert(text.take(n) =~= text);
    }
}

/// How many columns a text takes, which has to be a number of the machine.
pub fn text_display_width(text: &str) -> (width: usize)
    requires
        text_width(text@) <= usize::MAX,
    ensures
        width == text_width(text@),
{
    let chars: Vec<char> = chars_of(text);
    let mut width: usize = 0;
    let mut i: usize = 0;
    while i < chars.len()
        invariant
            i <= chars.len(),
            chars@ == text@,
            text_width(text@) <= usize::MAX,
            width == text_width(text@.take(i as int)),
        decreases chars.len() - i,
    {
        proof {
            assert(text@.take(i + 1).drop_last() =~= text@.take(i as int));
            lemma_prefix_width(text@, i + 1);
        }
        width += char_display_width(chars[i]);
        i += 1;
    }
    assert(text@.take(i as int) =~= text@);
    width
}

// ---------------------------------------------------------------------------
// Wrapping
// ---------------------------------------------------------------------------
/// A line in pieces that fit: the pieces that are full, and the one that is
/// being filled. A character that does not fit any more starts the next piece,
/// but no piece is left without a visible character for it.
pub open spec fn filled(line: Seq<char>, width: nat) -> (Seq<Seq<char>>, Seq<char>)
    decreases line.len(),
{
    if line.len() == 0 {
        (Seq::empty(), Seq::empty())
    } else {
        let (full, current) = filled(line.drop_last(), width);
        let ch = line.last();
        if text_width(current) > 0 && text_width(current) + char_width(ch) > width {
            (full.push(current), seq![ch])
        } else {
            (full, current.push(ch))
        }
    }
}

/// A line in pieces that fit, one of them at least.
pub open spec fn wrapped_line(line: Seq<char>, width: nat) -> Seq<Seq<char>> {
    let (full, current) = filled(line, width);
    full.push(current)
}

/// Lines in pieces that fit, one after the other.
pub open spec fn wrapped_lines(list: Seq<Seq<char>>, width: nat) -> Seq<Seq<char>>
    decreases list.len(),
{
    if list.len() == 0 {
        Seq::empty()
    } else {
        wrapped_lines(list.drop_last(), width) + wrapped_line(list.last(), width)
    }
}

/// A width, one where it is zero.
pub open spec fn least_one(width: nat) -> nat {
    if width == 0 {
        1
    } else {
        width
    }
}

/// The lines of a text in pieces of at most `width` columns. A width of zero
/// counts as one, and a text without lines gives one empty piece.
pub open spec fn wrapped(content: Seq<char>, width: nat) -> Seq<Seq<char>> {
    let pieces = wrapped_lines(lines(content), least_one(width));
    if pieces.len() == 0 {
        seq![Seq::empty()]
    } else {
        pieces
    }
}

proof fn lemma_filled_fits(line: Seq<char>, width: nat)
    requires
        width >= 1,
    ensures
        ({
            let (full, current) = filled(line, width);
            &&& text_width(current) <= width || text_width(current) <= 2
            &&& forall|i: int|
                0 <= i < full.len() ==> text_width(#[trigger] full[i]) <= width || text_width(
                    full[i],
                ) <= 2
        }),
    decreases line.len(),
{
    if line.len() > 0 {
        lemma_filled_fits(line.drop_last(), width);
        let (full, current) = filled(line.drop_last(), width);
        let ch = line.last();
        assert(seq![ch].drop_last() =~= Seq::<char>::empty());
        assert(current.push(ch).drop_last() =~= current);
        reveal_with_fuel(text_width, 2);
    }
}

/// Adds the pieces of a line to a list.
fn wrap_line(pieces: &mut Vec<String>, line: &str, width: usize)
    requires
        width >= 1,
    ensures
        texts(final(pieces)@) == texts(old(pieces)@) + wrapped_line(line@, width as nat),
{
    let chars: Vec<char> = chars_of(line);
    let ghost before = texts(pieces@);
    let mut current: String = String::new();
    let mut current_width: usize = 0;
    let mut i: usize = 0;
    assert(current@ =~= Seq::<char>::empty());
    assert(before + Seq::<Seq<char>>::empty() =~= before);
    while i < chars.len()
        invariant
            i <= chars.len(),
            width >= 1,
            chars@ == line@,
            texts(pieces@) == before + filled(line@.take(i as int), width as nat).0,
            current@ == filled(line@.take(i as int), width as nat).1,
            current_width == text_width(current@),
            current_width <= width || current_width <= 2,
        decreases chars.len() - i,
    {
        let ch: char = chars[i];
        let ch_width: usize = char_display_width(ch);
        proof {
            assert(line@.take(i + 1).drop_last() =~= line@.take(i as int));
            assert(line@.take(i + 1).last() == ch);
            assert(seq![ch].drop_last() =~= Seq::<char>::empty());
            assert(current@.push(ch).drop_last() =~= current@);
            reveal_with_fuel(text_width, 2);
        }
        if current_width > 0 && (current_width > width || ch_width > width - current_width) {
            let ghost listed = texts(pieces@);
            let ghost full = filled(line@.take(i as int), width as nat).0;
            let ghost piece = current@;
            pieces.push(current);
            proof {
                assert(texts(pieces@) =~= listed.push(piece));
                assert((before + full).push(piece) =~= before + full.push(piece));
            }
            current = String::new();
            current.push(ch);
            assert(current@ =~= seq![ch]);
            current_width = ch_width;
        } else {
            current.push(ch);
            current_width += ch_width;
        }
        i += 1;
    }
    assert(line@.take(i as int) =~= line@);
    let ghost listed = texts(pieces@);
    let ghost piece = current@;
    pieces.push(current);
    assert(texts(pieces@) =~= listed.push(piece));
    assert(texts(pieces@) =~= before + wrapped_line(line@, width as nat));
}

/// The lines of a text in pieces of at most `max_width` columns.
pub fn wrap_message_lines(content: &str, max_width: usize) -> (pieces: Vec<String>)
    ensures
        texts(pieces@) == wrapped(content@, max_width as nat),
{
    let width: usize = if max_width == 0 {
        1
    } else {
        max_width
    };
    let list: Vec<String> = split_lines(content);
    let mut pieces: Vec<String> = Vec::new();
    let mut i: usize = 0;
    assert(texts(pieces@) =~= wrapped_lines(texts(list@).take(0), width as nat));
    while i < list.len()
        invariant
            i <= list.len(),
            width >= 1,
            texts(pieces@) == wrapped_lines(texts(list@).take(i as int), width as nat),
        decreases list.len() - i,
    {
        wrap_line(&mut pieces, list[i].as_str(), width);
        i += 1;
        proof {
            assert(texts(list@).take(i as int).drop_last() =~= texts(list@).take(i - 1));
            assert(texts(list@).take(i as int).last() == list@[i - 1]@);
        }
    }
    assert(texts(list@).take(i as int) =~= texts(list@));
    if pieces.len() == 0 {
        let none: String = String::new();
        assert(none@ =~= Seq::<char>::empty());
        pieces.push(none);
        assert(texts(pieces@) =~= seq![Seq::<char>::empty()]);
    }
    pieces
}

/// The texts of a list in a row.
pub open spec fn in_a_row(list: Seq<Seq<char>>) -> Seq<char>
    decreases list.len(),
{
    if list.len() == 0 {
        Seq::empty()
    } else {
        in_a_row(list.drop_last()) + list.last()
    }
}

proof fn lemma_filled_in_a_row(line: Seq<char>, width: nat)
    ensures
        in_a_row(filled(line, width).0) + filled(line, width).1 == line,
    decreases line.len(),
{
    let (full, current) = filled(line, width);
    if line.len() == 0 {
        assert(in_a_row(full) + current =~= line);
    } else {
        lemma_filled_in_a_row(line.drop_last(), width);
        let (full0, current0) = filled(line.drop_last(), width);
        let ch = line.last();
        assert(full0.push(current0).drop_last() =~= full0);
        assert(line.drop_last().push(ch) =~= line);
        assert(in_a_row(full0) + current0 + seq![ch] =~= (in_a_row(full0) + current0).push(ch));
        assert(in_a_row(full0) + current0.push(ch) =~= (in_a_row(full0) + current0).push(ch));
    }
}

/// Wrapping a line loses and adds nothing: its pieces in a row are the line.
pub proof fn wrapping_keeps_the_line(line: Seq<char>, width: nat)
    ensures
        in_a_row(wrapped_line(line, width)) == line,
{
    lemma_filled_in_a_row(line, width);
    let (full, current) = filled(line, width);
    assert(full.push(current).drop_last() =~= full);
}

proof fn lemma_wrapped_lines_fit(list: Seq<Seq<char>>, width: nat)
    requires
        width >= 1,
    ensures
        forall|i: int|
            0 <= i < wrapped_lines(list, width).len() ==> text_width(
                #[trigger] wrapped_lines(list, width)[i],
            ) <= width || text_width(wrapped_lines(list, width)[i]) <= 2,
    decreases list.len(),
{
    if list.len() > 0 {
        lemma_wrapped_lines_fit(list.drop_last(), width);
        lemma_filled_fits(list.last(), width);
        let before = wrapped_lines(list.drop_last(), width);
        let pieces = wrapped_line(list.last(), width);
        let all = wrapped_lines(list, width);
        assert forall|i: int| 0 <= i < all.len() implies text_width(#[trigger] all[i]) <= width
            || text_width(all[i]) <= 2 by {
            if i < before.len() {
                assert(all[i] == before[i]);
            } else {
                assert(all[i] == pieces[i - before.len()]);
            }
        }
    }
}

/// No piece of a wrapped text is wider than it may be, or than the two columns
/// that a single character can take.
pub proof fn wrapped_text_fits(content: Seq<char>, width: nat)
    requires
        width >= 1,
    ensures
        forall|i: int|
            0 <= i < wrapped(content, width).len() ==> text_width(
                #[trigger] wrapped(content, width)[i],
            ) <= width || text_width(wrapped(content, width)[i]) <= 2,
        wrapped(content, width).len() > 0,
{
    lemma_wrapped_lines_fit(lines(content), width);
}

proof fn lemma_rows_join(one: Seq<Seq<char>>, other: Seq<Seq<char>>)
    ensures
        in_a_row(one + other) == in_a_row(one) + in_a_row(other),
    decreases other.len(),
{
    if other.len() == 0 {
        assert(one + other =~= one);
        assert(in_a_row(one) + in_a_row(other) =~= in_a_row(one));
    } else {
        lemma_rows_join(one, other.drop_last());
        assert((one + other).drop_last() =~= one + other.drop_last());
        assert(in_a_row(one) + in_a_row(other.drop_last()) + other.last() =~= in_a_row(one) + (
        in_a_row(other.drop_last()) + other.last()));
    }
}

proof fn lemma_wrapped_lines_in_a_row(list: Seq<Seq<char>>, width: nat)
    ensures
        in_a_row(wrapped_lines(list, width)) == in_a_row(list),
    decreases list.len(),
{
    if list.len() > 0 {
        lemma_wrapped_lines_in_a_row(list.drop_last(), width);
        wrapping_keeps_the_line(list.last(), width);
        lemma_rows_join(
            wrapped_lines(list.drop_last(), width),
            wrapped_line(list.last(), width),
        );
    }
}

/// Wrapping a text loses and adds nothing: its pieces in a row are its lines in
/// a row.
pub proof fn wrapping_keeps_the_text(content: Seq<char>, width: nat)
    ensures
        in_a_row(wrapped(content, width)) == in_a_row(lines(content)),
{
    lemma_wrapped_lines_in_a_row(lines(content), least_one(width));
    if wrapped_lines(lines(content), least_one(width)).len() == 0 {
        let none = seq![Seq::<char>::empty()];
        assert(none.drop_last() =~= Seq::<Seq<char>>::empty());
        reveal_with_fuel(in_a_row, 2);
        assert(in_a_row(none) =~= Seq::<char>::empty());
    }
}

/// Whether a piece may stand on a line of its own: it fits, or nothing that
/// takes a column stands before its last character.
pub open spec fn may_stand(piece: Seq<char>, width: nat) -> bool {
    text_width(piece) <= width || text_width(piece.drop_last()) == 0
}

/// Whether these are pieces of the line, one of them at least, that may each
/// stand on a line.
pub open spec fn divides(pieces: Seq<Seq<char>>, line: Seq<char>, width: nat) -> bool {
    &&& pieces.len() > 0
    &&& in_a_row(pieces) == line
    &&& forall|i: int| 0 <= i < pieces.len() ==> may_stand(#[trigger] pieces[i], width)
}

proof fn lemma_filled_stands(line: Seq<char>, width: nat)
    ensures
        ({
            let (full, current) = filled(line, width);
            &&& may_stand(current, width)
            &&& forall|i: int| 0 <= i < full.len() ==> may_stand(#[trigger] full[i], width)
        }),
    decreases line.len(),
{
    if line.len() > 0 {
        lemma_filled_stands(line.drop_last(), width);
        let (full, current) = filled(line.drop_last(), width);
        let ch = line.last();
        assert(seq![ch].drop_last() =~= Seq::<char>::empty());
        assert(current.push(ch).drop_last() =~= current);
        reveal_with_fuel(text_width, 2);
    }
}

/// The pieces of a line divide it.
pub proof fn wrapping_divides_the_line(line: Seq<char>, width: nat)
    ensures
        divides(wrapped_line(line, width), line, width),
{
    wrapping_keeps_the_line(line, width);
    lemma_filled_stands(line, width);
}

proof fn lemma_widths_add(one: Seq<char>, other: Seq<char>)
    ensures
        text_width(one + other) == text_width(one) + text_width(other),
    decreases other.len(),
{
    if other.len() == 0 {
        assert(one + other =~= one);
    } else {
        lemma_widths_add(one, other.drop_last());
        assert((one + other).drop_last() =~= one + other.drop_last());
    }
}

/// No division has fewer pieces than wrapping gives, and where one has as many
/// its last piece is no shorter.
proof fn lemma_fewest(line: Seq<char>, width: nat, pieces: Seq<Seq<char>>)
    requires
        divides(pieces, line, width),
    ensures
        ({
            let (full, current) = filled(line, width);
            &&& full.len() + 1 <= pieces.len()
            &&& full.len() + 1 == pieces.len() ==> current.len() <= pieces.last().len()
        }),
    decreases line.len(), pieces.len(),
{
    let last = pieces.last();
    let others = pieces.drop_last();
    assert(in_a_row(others) + last == line);
    if line.len() > 0 {
        if last.len() == 0 {
            assert(in_a_row(others) =~= line);
            if others.len() == 0 {
                assert(false);
            }
            assert forall|i: int| 0 <= i < others.len() implies may_stand(
                #[trigger] others[i],
                width,
            ) by {
                assert(others[i] == pieces[i]);
            }
            lemma_fewest(line, width, others);
        } else {
            let ch = line.last();
            let shorter = line.drop_last();
            let rest = last.drop_last();
            let (full, current) = filled(shorter, width);
            assert(last.last() == ch);
            assert(in_a_row(others) + rest =~= shorter);
            let left = others.push(rest);
            assert(left.drop_last() =~= others);
            assert(may_stand(pieces[pieces.len() - 1], width));
            assert forall|i: int| 0 <= i < left.len() implies may_stand(
                #[trigger] left[i],
                width,
            ) by {
                if i < others.len() {
                    assert(left[i] == pieces[i]);
                } else {
                    assert(text_width(rest) <= text_width(last));
                }
            }
            lemma_fewest(shorter, width, left);
            if text_width(current) > 0 && text_width(current) + char_width(ch) > width && full.len()
                + 1 == pieces.len() {
                lemma_filled_in_a_row(shorter, width);
                let more = rest.len() - current.len();
                assert(rest.skip(more) =~= current) by {
                    assert forall|i: int| 0 <= i < current.len() implies rest[more + i]
                        == current[i] by {
                        assert(shorter[shorter.len() - current.len() + i] == current[i]);
                        assert(shorter[shorter.len() - rest.len() + more + i] == rest[more + i]);
                    }
                }
                assert(rest.take(more) + rest.skip(more) =~= rest);
                lemma_widths_add(rest.take(more), rest.skip(more));
                assert(false);
            }
        }
    }
}

/// A line cannot be divided into fewer pieces than wrapping gives.
pub proof fn wrapping_uses_the_fewest_pieces(
    line: Seq<char>,
    width: nat,
    pieces: Seq<Seq<char>>,
)
    requires
        divides(pieces, line, width),
    ensures
        wrapped_line(line, width).len() <= pieces.len(),
{
    lemma_fewest(line, width, pieces);
}

/// The pieces of all lines, one after the other.
pub open spec fn all_pieces(divisions: Seq<Seq<Seq<char>>>) -> Seq<Seq<char>>
    decreases divisions.len(),
{
    if divisions.len() == 0 {
        Seq::empty()
    } else {
        all_pieces(divisions.drop_last()) + divisions.last()
    }
}

/// Whether each line is divided.
pub open spec fn divides_all(
    divisions: Seq<Seq<Seq<char>>>,
    list: Seq<Seq<char>>,
    width: nat,
) -> bool {
    &&& divisions.len() == list.len()
    &&& forall|i: int| 0 <= i < list.len() ==> divides(#[trigger] divisions[i], list[i], width)
}

proof fn lemma_fewest_of_all(
    list: Seq<Seq<char>>,
    width: nat,
    divisions: Seq<Seq<Seq<char>>>,
)
    requires
        divides_all(divisions, list, width),
    ensures
        wrapped_lines(list, width).len() <= all_pieces(divisions).len(),
    decreases list.len(),
{
    if list.len() > 0 {
        assert forall|i: int| 0 <= i < list.len() - 1 implies divides(
            #[trigger] divisions.drop_last()[i],
            list.drop_last()[i],
            width,
        ) by {
            assert(divides(divisions[i], list[i], width));
        }
        lemma_fewest_of_all(list.drop_last(), width, divisions.drop_last());
        assert(divides(divisions[list.len() - 1], list[list.len() - 1], width));
        lemma_fewest(list.last(), width, divisions.last());
    }
}

/// The lines of a text cannot be divided into fewer pieces than wrapping gives;
/// a text without lines gives the one piece that there is at least.
pub proof fn wrapped_text_has_the_fewest_pieces(
    content: Seq<char>,
    width: nat,
    divisions: Seq<Seq<Seq<char>>>,
)
    requires
        divides_all(divisions, lines(content), least_one(width)),
    ensures
        if lines(content).len() == 0 {
            wrapped(content, width).len() == 1
        } else {
            wrapped(content, width).len() <= all_pieces(divisions).len()
        },
{
    let list = lines(content);
    lemma_fewest_of_all(list, least_one(width), divisions);
    if list.len() > 0 {
        assert(wrapped_line(list.last(), least_one(width)).len() > 0);
    }
}

// ---------------------------------------------------------------------------
// Cutting
// ---------------------------------------------------------------------------
/// A text cut to at most `most` characters: dots stand for what is left out,
/// right behind a character that is no space.
pub open spec fn cut_to(text: Seq<char>, most: nat) -> Seq<char> {
    if most == 0 {
        Seq::empty()
    } else if text.len() <= most {
        text
    } else if most <= 3 {
        repeated('.', most)
    } else {
        without_trailing(text.take(most - 3), ' ') + "..."@
    }
}

/// A text cut to at most `max_chars` characters.
pub fn truncate_for_width(text: &str, max_chars: usize) -> (cut: String)
    ensures
        cut@ == cut_to(text@, max_chars as nat),
{
    if max_chars == 0 {
        let none: String = String::new();
        assert(none@ =~= Seq::<char>::empty());
        return none;
    }
    let chars: Vec<char> = chars_of(text);
    if chars.len() <= max_chars {
        return text.to_owned();
    }
    if max_chars <= 3 {
        return repeat_char('.', max_chars);
    }
    let head: String = text_between(&chars, 0, max_chars - 3);
    assert(head@ =~= text@.take(max_chars - 3));
    joined(strip_trailing(head.as_str(), ' '), "...")
}

proof fn lemma_without_trailing_len(text: Seq<char>, ch: char)
    ensures
        without_trailing(text, ch).len() <= text.len(),
    decreases text.len(),
{
    if text.len() > 0 && text.last() == ch {
        lemma_without_trailing_len(text.drop_last(), ch);
    }
}

/// What was cut is never longer than it may be.
pub proof fn cut_text_fits(text: Seq<char>, most: nat)
    ensures
        cut_to(text, most).len() <= most,
{
    reveal_strlit("...");
    if most > 3 {
        lemma_without_trailing_len(text.take(most - 3), ' ');
    }
}

/// The beginning of a text, with dots where it goes on, and a word where there
/// is nothing.
pub open spec fn preview_of(text: Seq<char>, most: nat) -> Seq<char> {
    if text.len() == 0 {
        "(empty)"@
    } else if text.len() > most {
        text.take(most as int) + "..."@
    } else {
        text
    }
}

/// The first `max_chars` characters of a text.
pub fn truncate_preview(text: &str, max_chars: usize) -> (preview: String)
    ensures
        preview@ == preview_of(text@, max_chars as nat),
{
    let chars: Vec<char> = chars_of(text);
    if chars.len() == 0 {
        "(empty)".to_owned()
    } else if chars.len() > max_chars {
        let head: String = text_between(&chars, 0, max_chars);
        assert(head@ =~= text@.take(max_chars as int));
        joined(head.as_str(), "...")
    } else {
        text.to_owned()
    }
}

/// The number of columns in a line with the numbers of rows and columns.
pub open spec fn columns_of(output: Seq<char>) -> Option<nat> {
    let list = words(output);
    if list.len() < 2 || word_value(list[0]) is None {
        None
    } else {
        match word_value(list[1]) {
            Some(columns) => Some(
                if columns == 0 {
                    1
                } else {
                    columns
                },
            ),
            None => None,
        }
    }
}

/// Reads the number of columns out of a line with the numbers of rows and
/// columns. There is always one column.
pub fn parse_terminal_columns(output: &str) -> (columns: Option<usize>)
    ensures
        match columns {
            Some(columns) => columns_of(output@) == Some(columns as nat),
            None => columns_of(output@) is None,
        },
{
    let list: Vec<String> = split_words(output);
    let ghost parts = words(output@);
    assert(parts == texts(list@));
    if list.len() < 2 {
        return None;
    }
    assert(parts[0] == list@[0]@ && parts[1] == list@[1]@);
    if read_word(list[0].as_str()).is_none() {
        return None;
    }
    match read_word(list[1].as_str()) {
        Some(columns) => {
            if columns == 0 {
                Some(1)
            } else {
                Some(columns)
            }
        },
        None => None,
    }
}

/// The number of columns, eighty where it cannot be found out.
pub fn terminal_columns(output: Option<&str>) -> (columns: usize)
    ensures
        columns == match output {
            Some(output) => match columns_of(output@) {
                Some(columns) => columns,
                None => 80,
            },
            None => 80,
        },
{
    match output {
        Some(output) => match parse_terminal_columns(output) {
            Some(columns) => columns,
            None => 80,
        },
        None => 80,
    }
}

// ---------------------------------------------------------------------------
// A loaded conversation
// ---------------------------------------------------------------------------
/// The escape sequence that sets the text colour.
pub open spec fn text_colour(code: nat) -> Seq<char> {
    "\x1B[38;5;"@ + decimal(code) + "m"@
}

/// The escape sequence that sets the background colour.
pub open spec fn background_colour(code: nat) -> Seq<char> {
    "\x1B[48;5;"@ + decimal(code) + "m"@
}

/// `ColorStyles::ansi256` of `oxink::styles::ANSI_STYLES`: the escape sequence
/// that sets the text colour.
#[verifier::external_body]
fn text_colour_escape(code: u8) -> (text: String)
    ensures
        text@ == text_colour(code as nat),
{
    oxink::styles::ANSI_STYLES.color.ansi256(code)
}

/// `BgColorStyles::ansi256` of `oxink::styles::ANSI_STYLES`: the escape
/// sequence that sets the background colour.
#[verifier::external_body]
fn background_escape(code: u8) -> (text: String)
    ensures
        text@ == background_colour(code as nat),
{
    oxink::styles::ANSI_STYLES.bg_color.ansi256(code)
}

/// The `close` of `oxink::styles::ANSI_STYLES.color`: the escape sequence for
/// the usual text colour.
#[verifier::external_body]
fn text_colour_close() -> (text: &'static str)
    ensures
        text@ == "\x1B[39m"@,
{
    oxink::styles::ANSI_STYLES.color.close
}

/// The `close` of `oxink::styles::ANSI_STYLES.bg_color`: the escape sequence
/// for the usual background colour.
#[verifier::external_body]
fn background_close() -> (text: &'static str)
    ensures
        text@ == "\x1B[49m"@,
{
    oxink::styles::ANSI_STYLES.bg_color.close
}

/// A text on a grey background.
pub open spec fn on_grey(content: Seq<char>) -> Seq<char> {
    background_colour(236) + text_colour(255) + content + "\x1B[39m"@ + "\x1B[49m"@
}

/// A text on a grey background.
pub fn gray_message_surface(content: &str) -> (text: String)
    ensures
        text@ == on_grey(content@),
{
    let mut text: String = background_escape(236);
    text.append(text_colour_escape(255).as_str());
    text.append(content);
    text.append(text_colour_close());
    text.append(background_close());
    text
}

/// The width of the card that a user message is shown on.
pub open spec fn card_width(columns: nat) -> nat {
    if columns < 21 {
        20
    } else {
        (columns - 1) as nat
    }
}

/// A line of a user message on its card: filled up to the width of the card.
pub open spec fn card_line(line: Seq<char>, content_width: nat) -> Seq<char> {
    let padding = if text_width(line) < content_width {
        (content_width - text_width(line)) as nat
    } else {
        0
    };
    on_grey("  "@ + line + repeated(' ', padding) + "  "@)
}

/// A user message on its card, with an empty line behind it.
pub open spec fn user_card(content: Seq<char>, width: nat) -> Seq<Seq<char>> {
    let rim = on_grey(repeated(' ', width));
    let list = wrapped(content, (width - 4) as nat);
    seq![rim] + Seq::new(list.len(), |i: int| card_line(list[i], (width - 4) as nat)) + seq![
        rim,
        Seq::empty(),
    ]
}

/// What is shown of one message of a loaded conversation.
pub open spec fn loaded_message(message: JsonView, columns: nat) -> Seq<Seq<char>> {
    let role = message.text_at("role"@);
    let content = or_empty(message.text_at("content"@));
    let width = card_width(columns);
    if role == Some("user"@) {
        user_card(content, width)
    } else if role == Some("assistant"@) {
        wrapped(content, (width - 4) as nat).push(Seq::empty())
    } else if role == Some("tool"@) {
        seq![
            styled(Style::Dimmed, "[tool]"@) + " "@ + match message.text_at("tool_name"@) {
                Some(name) => name,
                None => "unknown"@,
            },
        ]
    } else {
        Seq::empty()
    }
}

/// What is shown of the messages of a loaded conversation.
pub open spec fn loaded_messages(messages: Seq<JsonView>, columns: nat) -> Seq<Seq<char>>
    decreases messages.len(),
{
    if messages.len() == 0 {
        Seq::empty()
    } else {
        loaded_messages(messages.drop_last(), columns) + loaded_message(messages.last(), columns)
    }
}

/// What is shown when a conversation has been loaded, line by line.
pub open spec fn loaded_history(messages: Seq<JsonView>, columns: nat) -> Seq<Seq<char>> {
    seq![
        "\n"@ + styled(Style::Bold, styled(Style::White, "Loaded conversation history"@)),
        Seq::empty(),
    ] + if messages.len() == 0 {
        seq![styled(Style::Dimmed, "(empty)"@)]
    } else {
        loaded_messages(messages, columns)
    }
}

/// Adds a line to a list of lines.
pub fn add_line(list: &mut Vec<String>, line: String)
    ensures
        texts(final(list)@) == texts(old(list)@).push(line@),
{
    let ghost before = texts(list@);
    let ghost added = line@;
    list.push(line);
    assert(texts(list@) =~= before.push(added));
}

/// Adds an empty line to a list of lines.
pub fn add_empty_line(list: &mut Vec<String>)
    ensures
        texts(final(list)@) == texts(old(list)@).push(Seq::empty()),
{
    let none: String = String::new();
    assert(none@ =~= Seq::<char>::empty());
    add_line(list, none);
}

/// Adds a user message on its card.
fn print_loaded_user_message(list: &mut Vec<String>, content: &str, width: usize)
    requires
        width >= 20,
    ensures
        texts(final(list)@) == texts(old(list)@) + user_card(content@, width as nat),
{
    let ghost before = texts(list@);
    let content_width: usize = width - 4;
    let pieces: Vec<String> = wrap_message_lines(content, content_width);
    let rim: String = gray_message_surface(repeat_char(' ', width).as_str());
    add_line(list, rim.clone());
    let ghost start = texts(list@);
    let ghost shown = Seq::new(
        pieces@.len(),
        |i: int| card_line(texts(pieces@)[i], content_width as nat),
    );
    assert(start + shown.take(0) =~= start);
    let mut i: usize = 0;
    while i < pieces.len()
        invariant
            i <= pieces.len(),
            content_width >= 16,
            texts(pieces@) == wrapped(content@, content_width as nat),
            shown == Seq::new(
                pieces@.len(),
                |i: int| card_line(texts(pieces@)[i], content_width as nat),
            ),
            texts(list@) == start + shown.take(i as int),
        decreases pieces.len() - i,
    {
        proof {
            wrapped_text_fits(content@, content_width as nat);
            assert(texts(pieces@)[i as int] == pieces@[i as int]@);
        }
        let taken: usize = text_display_width(pieces[i].as_str());
        let padding: usize = if taken < content_width {
            content_width - taken
        } else {
            0
        };
        let mut padded: String = joined("  ", pieces[i].as_str());
        padded.append(repeat_char(' ', padding).as_str());
        padded.append("  ");
        let ghost listed = texts(list@);
        add_line(list, gray_message_surface(padded.as_str()));
        i += 1;
        proof {
            assert(shown.take(i as int) =~= shown.take(i - 1).push(shown[i - 1]));
            assert((start + shown.take(i - 1)).push(shown[i - 1]) =~= start + shown.take(i as int));
        }
    }
    assert(shown.take(i as int) =~= shown);
    add_line(list, rim);
    add_empty_line(list);
    assert(texts(list@) =~= before + user_card(content@, width as nat));
}

/// Adds the lines of one list behind those of another.
pub fn add_lines(list: &mut Vec<String>, more: Vec<String>)
    ensures
        texts(final(list)@) == texts(old(list)@) + texts(more@),
{
    let ghost before = texts(list@);
    let ghost added = texts(more@);
    let mut more: Vec<String> = more;
    list.append(&mut more);
    assert(texts(list@) =~= before + added);
}

/// What is shown when a conversation has been loaded, line by line.
pub fn print_loaded_history(messages: &Vec<Json>, columns: usize) -> (list: Vec<String>)
    ensures
        texts(list@) == loaded_history(values(messages@), columns as nat),
{
    let mut list: Vec<String> = Vec::new();
    assert(texts(list@) =~= Seq::<Seq<char>>::empty());
    add_line(
        &mut list,
        joined("\n", "Loaded conversation history".white().bold().to_text().as_str()),
    );
    add_empty_line(&mut list);
    let ghost head = texts(list@);
    let ghost all = values(messages@);
    if messages.len() == 0 {
        add_line(&mut list, "(empty)".dimmed().to_text());
        assert(texts(list@) =~= loaded_history(all, columns as nat));
        return list;
    }
    let width: usize = if columns < 21 {
        20
    } else {
        columns - 1
    };
    let mut i: usize = 0;
    assert(head + loaded_messages(all.take(0), columns as nat) =~= head);
    while i < messages.len()
        invariant
            i <= messages.len(),
            width == card_width(columns as nat),
            width >= 20,
            all == values(messages@),
            texts(list@) == head + loaded_messages(all.take(i as int), columns as nat),
        decreases messages.len() - i,
    {
        let ghost before = texts(list@);
        let ghost message = messages@[i as int]@;
        let content: &str = messages[i].str_or_empty("content");
        let role: Option<&str> = messages[i].str_at("role");
        match role {
            Some(role) => {
                if same_text(role, "user") {
                    print_loaded_user_message(&mut list, content, width);
                } else if same_text(role, "assistant") {
                    add_lines(&mut list, wrap_message_lines(content, width - 4));
                    let ghost listed = texts(list@);
                    add_empty_line(&mut list);
                    assert(texts(list@) =~= before + loaded_message(message, columns as nat));
                } else if same_text(role, "tool") {
                    let mut line: String = "[tool]".dimmed().to_text();
                    line.append(" ");
                    line.append(
                        match messages[i].str_at("tool_name") {
                            Some(name) => name,
                            None => "unknown",
                        },
                    );
                    add_line(&mut list, line);
                    assert(texts(list@) =~= before + loaded_message(message, columns as nat));
                } else {
                    assert(texts(list@) =~= before + loaded_message(message, columns as nat));
                }
            },
            None => {
                assert(texts(list@) =~= before + loaded_message(message, columns as nat));
            },
        }
        i += 1;
        proof {
            assert(all.take(i as int).drop_last() =~= all.take(i - 1));
            assert(all.take(i as int).last() == message);
            let earlier = loaded_messages(all.take(i - 1), columns as nat);
            assert(head + earlier + loaded_message(message, columns as nat) =~= head + (earlier
                + loaded_message(message, columns as nat)));
        }
    }
    assert(all.take(i as int) =~= all);
    list
}

/// What the last message of the user was, in short.
pub open spec fn last_user_text(messages: Seq<JsonView>) -> Seq<char>
    decreases messages.len(),
{
    if messages.len() == 0 {
        "(no user message)"@
    } else if messages.last().text_at("role"@) == Some("user"@) {
        match messages.last().text_at("content"@) {
            Some(content) => content,
            None => "(no user message)"@,
        }
    } else {
        last_user_text(messages.drop_last())
    }
}

/// What the last message of the user in a session was, in short.
pub fn session_last_user_preview(messages: &Vec<Json>) -> (preview: String)
    ensures
        preview@ == preview_of(last_user_text(values(messages@)), 48),
{
    let ghost all = values(messages@);
    let mut i: usize = messages.len();
    assert(all.take(i as int) =~= all);
    while i > 0
        invariant
            i <= messages.len(),
            all == values(messages@),
            last_user_text(all) == last_user_text(all.take(i as int)),
        decreases i,
    {
        proof {
            assert(all.take(i as int).drop_last() =~= all.take(i - 1));
            assert(all.take(i as int).last() == messages@[i - 1]@);
        }
        if let Some(role) = messages[i - 1].str_at("role") {
            if same_text(role, "user") {
                return match messages[i - 1].str_at("content") {
                    Some(content) => truncate_preview(content, 48),
                    None => truncate_preview("(no user message)", 48),
                };
            }
        }
        i -= 1;
    }
    truncate_preview("(no user message)", 48)
}

} // verus!
