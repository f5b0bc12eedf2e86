//! Which texts can be laid out, whatever stands in them.
use vstd::prelude::*;

use crate::layout::{
    cells_fit, column_count, is_fence, next_numbers, no_numbers, numbers_fit, ordered_item,
    table_fits, text_numbers_fit, without_digits, Extent, Shape,
};
use crate::number::numeral_value;
use crate::text::{lines, repeated, without_leading};

verus! {

// ---------------------------------------------------------------------------
// Items
// ---------------------------------------------------------------------------
proof fn lemma_leading(count: nat, rest: Seq<char>)
    requires
        rest.len() > 0 ==> rest[0] != ' ',
    ensures
        without_leading(repeated(' ', count) + rest, ' ') == rest,
    decreases count,
{
    let text = repeated(' ', count) + rest;
    if count == 0 {
        assert(text =~= rest);
    } else {
        assert(text[0] == ' ');
        assert(text.skip(1) =~= repeated(' ', (count - 1) as nat) + rest);
        lemma_leading((count - 1) as nat, rest);
    }
}

proof fn lemma_digits(digits: Seq<char>, rest: Seq<char>)
    requires
        forall|i: int| 0 <= i < digits.len() ==> '0' <= #[trigger] digits[i] <= '9',
        rest.len() > 0 ==> !('0' <= rest[0] <= '9'),
    ensures
        without_digits(digits + rest) == rest,
    decreases digits.len(),
{
    let text = digits + rest;
    if digits.len() == 0 {
        assert(text =~= rest);
    } else {
        assert(text[0] == digits[0]);
        assert(text.skip(1) =~= digits.skip(1) + rest);
        assert forall|i: int| 0 <= i < digits.skip(1).len() implies '0'
            <= #[trigger] digits.skip(1)[i] <= '9' by {
            assert(digits.skip(1)[i] == digits[i + 1]);
        }
        lemma_digits(digits.skip(1), rest);
    }
}

/// A line begins an item of an ordered list if and only if behind fewer than
/// four spaces stand digits, then a dot or a bracket, and then a space or the
/// end. It stands as deep as there are spaces and has the number of the digits,
/// or one where that has more than 32 bits.
pub proof fn item_is_told_by_its_number(
    spaces: nat,
    digits: Seq<char>,
    mark: char,
    rest: Seq<char>,
)
    requires
        forall|i: int| 0 <= i < digits.len() ==> '0' <= #[trigger] digits[i] <= '9',
        mark != ' ',
        !('0' <= mark <= '9'),
    ensures
        ({
            let item = ordered_item(repeated(' ', spaces) + digits + seq![mark] + rest);
            let is_item = spaces < 4 && digits.len() > 0 && (mark == '.' || mark == ')') && (
            rest.len() == 0 || rest[0] == ' ');
            &&& item is Some <==> is_item
            &&& is_item && numeral_value(digits, 10) <= u32::MAX ==> item == Some(
                (spaces as int, numeral_value(digits, 10)),
            )
            &&& is_item && numeral_value(digits, 10) > u32::MAX ==> item == Some(
                (spaces as int, 1nat),
            )
        }),
{
    let line = repeated(' ', spaces) + digits + seq![mark] + rest;
    let behind = seq![mark] + rest;
    let tail = digits + behind;
    assert(line =~= repeated(' ', spaces) + tail);
    if digits.len() > 0 {
        assert(tail[0] == digits[0]);
    } else {
        assert(tail[0] == mark);
    }
    lemma_leading(spaces, tail);
    lemma_digits(digits, behind);
    assert(tail.take(digits.len() as int) =~= digits);
    if rest.len() > 0 {
        assert(behind[1] == rest[0]);
    }
}

// ---------------------------------------------------------------------------
// Lists
// ---------------------------------------------------------------------------
proof fn lemma_no_items(list: Seq<Seq<char>>, next: Seq<Option<nat>>, in_code: bool)
    requires
        forall|i: int| 0 <= i < list.len() ==> ordered_item(#[trigger] list[i]) is None,
    ensures
        numbers_fit(list, next, in_code),
    decreases list.len(),
{
    if list.len() > 0 {
        let rest = list.skip(1);
        assert(ordered_item(list[0]) is None);
        assert forall|i: int| 0 <= i < rest.len() implies ordered_item(
            #[trigger] rest[i],
        ) is None by {
            assert(rest[i] == list[i + 1]);
        }
        lemma_no_items(rest, next, !in_code);
        lemma_no_items(rest, no_numbers(), in_code);
    }
}

/// A text without ordered lists has no numbers that could be too large.
pub proof fn text_without_items_can_be_numbered(text: Seq<char>)
    requires
        forall|i: int| 0 <= i < lines(text).len() ==> ordered_item(#[trigger] lines(text)[i])
            is None,
    ensures
        text_numbers_fit(text),
{
    lemma_no_items(lines(text), no_numbers(), false);
}

/// In a block of code nothing is numbered.
pub proof fn code_is_not_numbered(list: Seq<Seq<char>>, next: Seq<Option<nat>>)
    requires
        forall|i: int| 0 <= i < list.len() ==> !is_fence(#[trigger] list[i]),
    ensures
        numbers_fit(list, next, true),
    decreases list.len(),
{
    if list.len() > 0 {
        let rest = list.skip(1);
        assert(!is_fence(list[0]));
        assert forall|i: int| 0 <= i < rest.len() implies !is_fence(#[trigger] rest[i]) by {
            assert(rest[i] == list[i + 1]);
        }
        code_is_not_numbered(rest, no_numbers());
    }
}

proof fn lemma_list_goes_on(
    list: Seq<Seq<char>>,
    next: Seq<Option<nat>>,
    depth: int,
    number: nat,
)
    requires
        0 <= depth < 4,
        next.len() == 4,
        next[depth] == Some(number),
        forall|i: int|
            0 <= i < list.len() ==> !is_fence(#[trigger] list[i]) && (ordered_item(list[i]) is Some
                && (ordered_item(list[i])->0).0 == depth),
    ensures
        numbers_fit(list, next, false) <==> list.len() == 0 || number + list.len() - 1 < u32::MAX,
    decreases list.len(),
{
    if list.len() > 0 {
        let rest = list.skip(1);
        assert(!is_fence(list[0]));
        let item = ordered_item(list[0])->0;
        assert forall|i: int| 0 <= i < rest.len() implies !is_fence(#[trigger] rest[i]) && (
        ordered_item(rest[i]) is Some && (ordered_item(rest[i])->0).0 == depth) by {
            assert(rest[i] == list[i + 1]);
        }
        lemma_list_goes_on(rest, next_numbers(next, item), depth, number + 1);
    }
}

/// The items of a list are numbered in a row from the number of the first one,
/// whatever numbers the others are written with: the list can be numbered if
/// and only if the number of the last one is below the largest of 32 bits.
pub proof fn items_are_numbered_in_a_row(list: Seq<Seq<char>>, depth: int, number: nat)
    requires
        0 <= depth < 4,
        list.len() > 0,
        ordered_item(list[0]) == Some((depth, number)),
        forall|i: int|
            0 <= i < list.len() ==> !is_fence(#[trigger] list[i]) && (ordered_item(list[i]) is Some
                && (ordered_item(list[i])->0).0 == depth),
    ensures
        numbers_fit(list, no_numbers(), false) <==> number + list.len() - 1 < u32::MAX,
{
    let rest = list.skip(1);
    assert(!is_fence(list[0]));
    let next = next_numbers(no_numbers(), (depth, number));
    assert forall|i: int| 0 <= i < rest.len() implies !is_fence(#[trigger] rest[i]) && (
    ordered_item(rest[i]) is Some && (ordered_item(rest[i])->0).0 == depth) by {
        assert(rest[i] == list[i + 1]);
    }
    lemma_list_goes_on(rest, next, depth, number + 1);
}

// ---------------------------------------------------------------------------
// Tables
// ---------------------------------------------------------------------------
/// A table has as many columns as the longest of its lines has cells.
pub proof fn table_has_the_columns_of_its_longest_line(table: Seq<Shape<Seq<Extent>>>)
    ensures
        forall|i: int|
            0 <= i < table.len() ==> ((#[trigger] table[i]) matches Shape::Row(cells)
                ==> cells.len() <= column_count(table)) && (table[i] matches Shape::Rule(count)
                ==> count <= column_count(table)),
        column_count(table) > 0 ==> exists|i: int|
            0 <= i < table.len() && (((#[trigger] table[i]) matches Shape::Row(cells)
                && cells.len() == column_count(table)) || (table[i] matches Shape::Rule(count)
                && count == column_count(table))),
    decreases table.len(),
{
    if table.len() > 0 {
        let before = table.drop_last();
        table_has_the_columns_of_its_longest_line(before);
        let last = table.len() - 1;
        assert forall|i: int| 0 <= i < table.len() implies ((
        #[trigger] table[i]) matches Shape::Row(cells) ==> cells.len() <= column_count(table)) && (
        table[i] matches Shape::Rule(count) ==> count <= column_count(table)) by {
            if i < last {
                assert(before[i] == table[i]);
            }
        }
        if column_count(table) > 0 {
            if crate::layout::cell_count(table.last()) > column_count(before) {
                assert(table[last] == table.last());
            } else {
                let i = choose|i: int|
                    0 <= i < before.len() && (((#[trigger] before[i]) matches Shape::Row(cells)
                        && cells.len() == column_count(before)) || (
                    before[i] matches Shape::Rule(count) && count == column_count(before)));
                assert(table[i] == before[i]);
            }
        }
    }
}

/// Cells without marks can be wrapped to any width, and so a table of such cells
/// that has no room for all its columns can be laid out, as can one on a
/// terminal without columns.
pub proof fn plain_cells_can_be_wrapped(
    table: Seq<Shape<Seq<Extent>>>,
    widths: Seq<usize>,
    columns: u16,
)
    requires
        forall|i: int, k: int|
            #![trigger table[i]->Row_0[k]]
            0 <= i < table.len() && table[i] is Row && 0 <= k < table[i]->Row_0.len()
                ==> table[i]->Row_0[k].mark == 0,
    ensures
        cells_fit(table, widths),
        4 * column_count(table) + 1 > columns ==> table_fits(table, columns),
        columns == 0 ==> table_fits(table, columns),
{
    assert(cells_fit(table, Seq::new(((columns - 1) / 4) as nat, |i: int| 3usize)));
}

} // verus!
