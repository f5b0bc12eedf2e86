//! What markdown can be laid out on a terminal of so many columns.
//!
//! `termimad` takes the width of an item's mark from the width that the item
//! has, and adds up the numbers of ordered lists. Where one of these would go
//! out of bounds the text is not given to it.
use vstd::prelude::*;

use crate::number::{digit_of, numeral_value};
use crate::text::{chars_of, lines, split_lines, strip_leading, texts, without_leading};

verus! {

/// `termimad::MadSkin`: how markdown is to look.
#[verifier::external_type_specification]
#[verifier::external_body]
pub struct ExMadSkin(termimad::MadSkin);

/// Whether `termimad::MadSkin::default` gives this look.
pub uninterp spec fn is_usual_look(skin: termimad::MadSkin) -> bool;

// ---------------------------------------------------------------------------
// Numbers of ordered lists
// ---------------------------------------------------------------------------
/// `text` without the digits at its start.
pub open spec fn without_digits(text: Seq<char>) -> Seq<char>
    decreases text.len(),
{
    if text.len() > 0 && '0' <= text[0] <= '9' {
        without_digits(text.skip(1))
    } else {
        text
    }
}

/// The number that digits write, one where it has more than 32 bits.
pub open spec fn item_number(digits: Seq<char>) -> nat {
    if numeral_value(digits, 10) <= u32::MAX {
        numeral_value(digits, 10)
    } else {
        1
    }
}

/// How deep an item of an ordered list stands that the line begins with, and
/// its number: behind fewer than four spaces digits, a dot or a bracket, and
/// then a space or the end.
pub open spec fn ordered_item(line: Seq<char>) -> Option<(int, nat)> {
    let rest = without_leading(line, ' ');
    let behind = without_digits(rest);
    let level = line.len() - rest.len();
    let count = rest.len() - behind.len();
    if level < 4 && count > 0 && behind.len() > 0 && (behind[0] == '.' || behind[0] == ')') && (
    behind.len() == 1 || behind[1] == ' ') {
        Some((level, item_number(rest.take(count))))
    } else {
        None
    }
}

/// Whether a line opens or closes a block of code.
pub open spec fn is_fence(line: Seq<char>) -> bool {
    line.len() >= 3 && line[0] == '`' && line[1] == '`' && line[2] == '`'
}

/// No list is being numbered at any depth.
pub open spec fn no_numbers() -> Seq<Option<nat>> {
    seq![None, None, None, None]
}

/// The number that an item gets: the next one of its list, its own where it
/// begins a list.
pub open spec fn given_number(next: Seq<Option<nat>>, item: (int, nat)) -> nat {
    match next[item.0] {
        Some(number) => number,
        None => item.1,
    }
}

/// The next numbers behind an item. An item that begins a list ends the lists
/// that stand deeper.
pub open spec fn next_numbers(next: Seq<Option<nat>>, item: (int, nat)) -> Seq<Option<nat>> {
    Seq::new(
        4,
        |depth: int|
            if depth == item.0 {
                Some(given_number(next, item) + 1)
            } else if next[item.0] is None && depth > item.0 {
                None
            } else {
                next[depth]
            },
    )
}

/// Whether the numbers of the ordered lists in the lines have 32 bits, the one
/// behind each item included, where `next` are the next numbers at each depth
/// and the lines begin inside a block of code or not. A line that is no item
/// ends the lists; one that opens or closes a block of code is passed over.
pub open spec fn numbers_fit(
    list: Seq<Seq<char>>,
    next: Seq<Option<nat>>,
    in_code: bool,
) -> bool
    decreases list.len(),
{
    if list.len() == 0 {
        true
    } else if is_fence(list[0]) {
        numbers_fit(list.skip(1), next, !in_code)
    } else {
        match ordered_item(list[0]) {
            Some(item) if !in_code => given_number(next, item) < u32::MAX && numbers_fit(
                list.skip(1),
                next_numbers(next, item),
                in_code,
            ),
            _ => numbers_fit(list.skip(1), no_numbers(), in_code),
        }
    }
}

/// Whether the numbers of the ordered lists in a text have 32 bits.
pub open spec fn text_numbers_fit(text: Seq<char>) -> bool {
    numbers_fit(lines(text), no_numbers(), false)
}

fn count_digits(chars: &Vec<char>) -> (count: usize)
    ensures
        count <= chars.len(),
        without_digits(chars@) == chars@.skip(count as int),
        without_digits(chars@).len() == chars.len() - count,
        forall|k: int| 0 <= k < count ==> '0' <= #[trigger] chars@[k] <= '9',
{
    let mut i: usize = 0;
    assert(chars@.skip(0) =~= chars@);
    while i < chars.len() && '0' <= chars[i] && chars[i] <= '9'
        invariant
            i <= chars.len(),
            without_digits(chars@) == without_digits(chars@.skip(i as int)),
            forall|k: int| 0 <= k < i ==> '0' <= #[trigger] chars@[k] <= '9',
        decreases chars.len() - i,
    {
        assert(chars@.skip(i as int).skip(1) =~= chars@.skip(i + 1));
        i += 1;
    }
    i
}

/// Reads the number that the first `count` characters, digits, write.
fn read_number(chars: &Vec<char>, count: usize) -> (number: u32)
    requires
        count <= chars.len(),
        forall|k: int| 0 <= k < count ==> '0' <= #[trigger] chars@[k] <= '9',
    ensures
        number == item_number(chars@.take(count as int)),
{
    let mut value: u64 = 0;
    let mut i: usize = 0;
    assert(chars@.take(0) =~= Seq::<char>::empty());
    while i < count
        invariant
            i <= count <= chars.len(),
            forall|k: int| 0 <= k < count ==> '0' <= #[trigger] chars@[k] <= '9',
            value <= u32::MAX,
            value == numeral_value(chars@.take(i as int), 10),
        decreases count - i,
    {
        let digit: u64 = chars[i] as u64 - '0' as u64;
        proof {
            let more = chars@.take(i + 1);
            assert(more.drop_last() =~= chars@.take(i as int));
            assert(more.last() == chars@[i as int]);
            assert(digit_of(chars@[i as int]) == digit);
        }
        value = value * 10 + digit;
        i += 1;
        if value > 0xFFFF_FFFF {
            proof {
                lemma_longer_is_greater(chars@.take(count as int), i as int);
                assert(chars@.take(count as int).take(i as int) =~= chars@.take(i as int));
            }
            return 1;
        }
    }
    value as u32
}

proof fn lemma_longer_is_greater(digits: Seq<char>, from: int)
    requires
        0 <= from <= digits.len(),
    ensures
        numeral_value(digits.take(from), 10) <= numeral_value(digits, 10),
    decreases digits.len() - from,
{
    if from == digits.len() {
        assert(digits.take(from) =~= digits);
    } else {
        let more = digits.take(from + 1);
        assert(more.drop_last() =~= digits.take(from));
        lemma_longer_is_greater(digits, from + 1);
    }
}

fn find_item(line: &str) -> (item: Option<(usize, u32)>)
    ensures
        match item {
            Some(item) => ordered_item(line@) == Some((item.0 as int, item.1 as nat)) && item.0 < 4,
            None => ordered_item(line@) is None,
        },
{
    let rest: &str = strip_leading(line, ' ');
    let all: Vec<char> = chars_of(line);
    let chars: Vec<char> = chars_of(rest);
    proof {
        lemma_without_leading(line@);
    }
    let level: usize = all.len() - chars.len();
    let count: usize = count_digits(&chars);
    if level >= 4 || count == 0 || count == chars.len() {
        return None;
    }
    if (chars[count] == '.' || chars[count] == ')') && (count + 1 == chars.len() || chars[count + 1]
        == ' ') {
        Some((level, read_number(&chars, count)))
    } else {
        None
    }
}

proof fn lemma_without_leading(text: Seq<char>)
    ensures
        without_leading(text, ' ').len() <= text.len(),
    decreases text.len(),
{
    if text.len() > 0 && text[0] == ' ' {
        lemma_without_leading(text.skip(1));
    }
}

fn fence(line: &str) -> (found: bool)
    ensures
        found == is_fence(line@),
{
    let chars: Vec<char> = chars_of(line);
    chars.len() >= 3 && chars[0] == '`' && chars[1] == '`' && chars[2] == '`'
}

/// The next numbers, as they are counted.
spec fn counted(next: Seq<Option<u32>>) -> Seq<Option<nat>> {
    Seq::new(
        next.len(),
        |i: int|
            match next[i] {
                Some(number) => Some(number as nat),
                None => None,
            },
    )
}

fn start_numbers() -> (next: Vec<Option<u32>>)
    ensures
        next.len() == 4,
        counted(next@) == no_numbers(),
{
    let next: Vec<Option<u32>> = vec![None, None, None, None];
    assert(counted(next@) =~= no_numbers());
    next
}

/// Whether the numbers of the ordered lists in a text have 32 bits.
pub fn can_number(text: &str) -> (fits: bool)
    ensures
        fits == text_numbers_fit(text@),
{
    let list: Vec<String> = split_lines(text);
    let mut next: Vec<Option<u32>> = start_numbers();
    let mut in_code: bool = false;
    let mut i: usize = 0;
    assert(lines(text@).skip(0) =~= lines(text@));
    while i < list.len()
        invariant
            i <= list.len(),
            texts(list@) == lines(text@),
            next.len() == 4,
            text_numbers_fit(text@) == numbers_fit(
                lines(text@).skip(i as int),
                counted(next@),
                in_code,
            ),
        decreases list.len() - i,
    {
        let ghost left = lines(text@).skip(i as int);
        let ghost before = counted(next@);
        assert(left[0] == list@[i as int]@);
        assert(left.skip(1) =~= lines(text@).skip(i + 1));
        if fence(list[i].as_str()) {
            in_code = !in_code;
        } else {
            match find_item(list[i].as_str()) {
                Some((level, number)) if !in_code => {
                    let fresh: bool = next[level].is_none();
                    let given: u32 = match next[level] {
                        Some(given) => given,
                        None => number,
                    };
                    if given == 0xFFFF_FFFF {
                        return false;
                    }
                    next.set(level, Some(given + 1));
                    let mut deeper: usize = level + 1;
                    while fresh && deeper < 4
                        invariant
                            level < deeper <= 4,
                            next.len() == 4,
                            before.len() == 4,
                            forall|k: int|
                                0 <= k < 4 ==> #[trigger] counted(next@)[k] == (if k == level {
                                    Some((given + 1) as nat)
                                } else if fresh && level < k < deeper {
                                    None
                                } else {
                                    before[k]
                                }),
                        decreases 4 - deeper,
                    {
                        let ghost earlier = next@;
                        next.set(deeper, None);
                        assert forall|k: int| 0 <= k < 4 implies #[trigger] counted(next@)[k] == (
                        if k == deeper {
                            None
                        } else {
                            counted(earlier)[k]
                        }) by {}
                        deeper += 1;
                    }
                    assert(counted(next@) =~= next_numbers(before, (level as int, number as nat)));
                },
                _ => {
                    next = start_numbers();
                },
            }
        }
        i += 1;
    }
    true
}

// ---------------------------------------------------------------------------
// Widths
// ---------------------------------------------------------------------------
/// How many columns a piece of markdown takes: those of the mark before it, and
/// all of them.
#[derive(Clone, Copy)]
pub struct Extent {
    pub mark: usize,
    pub all: usize,
}

/// A line of markdown as it is to be laid out, over a type of lists of cells.
pub enum Shape<C> {
    /// A line that is wrapped.
    Plain(Extent),
    /// A row of a table.
    Row(C),
    /// A rule of a table, with so many columns.
    Rule(usize),
    /// A line that fills the terminal.
    Filling,
}

/// The shape with its cells.
pub open spec fn shape_view(shape: Shape<Vec<Extent>>) -> Shape<Seq<Extent>> {
    match shape {
        Shape::Plain(extent) => Shape::Plain(extent),
        Shape::Row(cells) => Shape::Row(cells@),
        Shape::Rule(count) => Shape::Rule(count),
        Shape::Filling => Shape::Filling,
    }
}

/// The shapes with their cells.
pub open spec fn shape_views(shapes: Seq<Shape<Vec<Extent>>>) -> Seq<Shape<Seq<Extent>>> {
    Seq::new(shapes.len(), |i: int| shape_view(shapes[i]))
}

/// The lines that `termimad::FmtText::from` makes of markdown in a look before
/// they are fitted to a width.
pub uninterp spec fn shapes_in(skin: termimad::MadSkin, text: Seq<char>) -> Seq<
    Shape<Seq<Extent>>,
>;

/// `termimad::FmtText::from` for no columns at all, which leaves the lines and
/// the tables as they are, with the widths of the marks that
/// `termimad::wrap::composite_kind_widths` gives. What it makes of which text is
/// not said. Left out are texts whose lists it could not number.
#[verifier::external_body]
fn measure(skin: &termimad::MadSkin, text: &str) -> (shapes: Vec<Shape<Vec<Extent>>>)
    requires
        is_usual_look(*skin),
        text_numbers_fit(text@),
    ensures
        shape_views(shapes@) == shapes_in(*skin, text@),
{
    let extent = |part: &termimad::FmtComposite| Extent {
        mark: termimad::wrap::composite_kind_widths(part.kind, skin).0,
        all: part.visible_length,
    };
    let shape = |line: &termimad::FmtLine| match line {
        termimad::FmtLine::Normal(part) => Shape::Plain(extent(part)),
        termimad::FmtLine::TableRow(row) => Shape::Row(row.cells.iter().map(extent).collect()),
        termimad::FmtLine::TableRule(rule) => Shape::Rule(rule.aligns.len()),
        termimad::FmtLine::HorizontalRule => Shape::Filling,
    };
    termimad::FmtText::from(skin, text, Some(0)).lines.iter().map(shape).collect()
}

/// Whether a piece can be wrapped to so many columns: where it has to be, its
/// mark has room.
pub open spec fn can_wrap(extent: Extent, columns: int) -> bool {
    extent.all <= columns || extent.mark <= columns
}

// ---------------------------------------------------------------------------
// Tables
// ---------------------------------------------------------------------------
/// `termimad::TblFit`: the widths of the cells of a table, from which it
/// chooses the widths of the columns.
#[verifier::external_type_specification]
#[verifier::external_body]
pub struct ExTblFit(termimad::TblFit);

/// The cells that a `termimad::TblFit` has seen, each with its column and its
/// width.
pub uninterp spec fn cells_seen(fit: termimad::TblFit) -> Seq<(usize, usize)>;

/// For how many columns of a table, and how many of the terminal, a
/// `termimad::TblFit` was made.
pub uninterp spec fn made_for(fit: termimad::TblFit) -> (usize, usize);

/// The widths that `termimad::TblFit::fit` chooses for so many columns of a
/// table, on so many of the terminal, from the cells that it has seen.
pub uninterp spec fn chosen_widths(
    count: usize,
    columns: usize,
    cells: Seq<(usize, usize)>,
) -> Seq<usize>;

/// The sum of the widths of cells.
pub open spec fn sum_widths(cells: Seq<(usize, usize)>) -> nat
    decreases cells.len(),
{
    if cells.len() == 0 {
        0
    } else {
        sum_widths(cells.drop_last()) + cells.last().1 as nat
    }
}

/// Whether the products of widths that are formed for the columns of a table
/// are within what the machine can count.
pub open spec fn can_count(count: nat, cells: Seq<(usize, usize)>) -> bool {
    (sum_widths(cells) + 3 * count) * (sum_widths(cells) + 3 * count) <= usize::MAX
}

/// `termimad::TblFit::new`: it succeeds where each column of the table has
/// room for three characters and its border.
#[verifier::external_body]
fn new_fit(count: usize, columns: usize) -> (fit: Option<termimad::TblFit>)
    requires
        4 * count + 1 <= usize::MAX,
    ensures
        fit is Some <==> 4 * count + 1 <= columns,
        fit is Some ==> cells_seen(fit->0) == Seq::<(usize, usize)>::empty(),
        fit is Some ==> made_for(fit->0) == (count, columns),
{
    termimad::TblFit::new(count, columns).ok()
}

/// `termimad::TblFit::see_cell`: a cell more has been seen.
#[verifier::external_body]
fn see_cell(fit: &mut termimad::TblFit, column: usize, width: usize)
    requires
        sum_widths(cells_seen(*old(fit))) + width <= usize::MAX,
    ensures
        cells_seen(*final(fit)) == cells_seen(*old(fit)).push((column, width)),
        made_for(*final(fit)) == made_for(*old(fit)),
{
    fit.see_cell(column, width)
}

/// `termimad::TblFit::fit`: a width for each column of the table. Which widths
/// it chooses is not said. Left out are widths whose products the machine
/// cannot count.
#[verifier::external_body]
fn fit_widths(fit: &termimad::TblFit) -> (widths: Vec<usize>)
    requires
        can_count(made_for(*fit).0 as nat, cells_seen(*fit)),
    ensures
        widths@ == chosen_widths(made_for(*fit).0, made_for(*fit).1, cells_seen(*fit)),
        widths@.len() == made_for(*fit).0,
{
    fit.fit().col_widths
}

/// Whether a line belongs to a table.
pub open spec fn in_table(shape: Shape<Seq<Extent>>) -> bool {
    shape is Row || shape is Rule
}

/// How many columns a line of a table has.
pub open spec fn cell_count(shape: Shape<Seq<Extent>>) -> nat {
    match shape {
        Shape::Row(cells) => cells.len(),
        Shape::Rule(count) => count as nat,
        _ => 0,
    }
}

/// How many columns a table has.
pub open spec fn column_count(table: Seq<Shape<Seq<Extent>>>) -> nat
    decreases table.len(),
{
    if table.len() == 0 {
        0
    } else {
        let before = column_count(table.drop_last());
        if cell_count(table.last()) > before {
            cell_count(table.last())
        } else {
            before
        }
    }
}

/// The first `count` cells of a row, each with its column and its width.
pub open spec fn row_cells(cells: Seq<Extent>, count: int) -> Seq<(usize, usize)> {
    Seq::new(count as nat, |i: int| (i as usize, cells[i].all))
}

/// The cells of a table, row by row, each with its column and its width.
pub open spec fn table_cells(table: Seq<Shape<Seq<Extent>>>) -> Seq<(usize, usize)>
    decreases table.len(),
{
    if table.len() == 0 {
        Seq::empty()
    } else {
        table_cells(table.drop_last()) + match table.last() {
            Shape::Row(cells) => row_cells(cells, cells.len() as int),
            _ => Seq::empty(),
        }
    }
}

/// Whether every cell of a table can be wrapped to the width of its column.
/// Cells beyond these widths are not shown.
pub open spec fn cells_fit(table: Seq<Shape<Seq<Extent>>>, widths: Seq<usize>) -> bool {
    forall|i: int, k: int|
        #![trigger table[i]->Row_0[k]]
        0 <= i < table.len() && table[i] is Row && 0 <= k < table[i]->Row_0.len() && k
            < widths.len() ==> can_wrap(table[i]->Row_0[k], widths[k] as int)
}

/// Whether a table can be laid out on a terminal of so many columns. Where
/// there is no room for all its columns, those that have room get three
/// characters each.
pub open spec fn table_fits(table: Seq<Shape<Seq<Extent>>>, columns: u16) -> bool {
    let count = column_count(table);
    if count == 0 || columns == 0 {
        true
    } else if 4 * count + 1 > columns {
        cells_fit(table, Seq::new(((columns - 1) / 4) as nat, |i: int| 3usize))
    } else {
        &&& can_count(count, table_cells(table))
        &&& cells_fit(table, chosen_widths(count as usize, columns as usize, table_cells(table)))
    }
}

/// Whether the lines from `from` up to `to` are a whole table.
pub open spec fn is_table(shapes: Seq<Shape<Seq<Extent>>>, from: int, to: int) -> bool {
    &&& 0 <= from < to <= shapes.len()
    &&& forall|i: int| from <= i < to ==> in_table(#[trigger] shapes[i])
    &&& from > 0 ==> !in_table(shapes[from - 1])
    &&& to < shapes.len() ==> !in_table(shapes[to])
}

/// Whether lines can be laid out on a terminal of so many columns. With fewer
/// than three columns no line is wrapped.
pub open spec fn shapes_fit(shapes: Seq<Shape<Seq<Extent>>>, columns: u16) -> bool {
    &&& forall|i: int|
        #![trigger shapes[i]]
        0 <= i < shapes.len() && shapes[i] is Plain && columns >= 3 ==> can_wrap(
            shapes[i]->Plain_0,
            columns as int,
        )
    &&& forall|from: int, to: int| #[trigger]
        is_table(shapes, from, to) ==> table_fits(shapes.subrange(from, to), columns)
}

/// Whether a text in a look can be laid out on a terminal of so many columns.
pub open spec fn fits_columns(skin: termimad::MadSkin, text: Seq<char>, columns: u16) -> bool {
    text_numbers_fit(text) && shapes_fit(shapes_in(skin, text), columns)
}

fn wraps(extent: Extent, columns: usize) -> (fits: bool)
    ensures
        fits == can_wrap(extent, columns as int),
{
    extent.all <= columns || extent.mark <= columns
}

fn belongs(shape: &Shape<Vec<Extent>>) -> (found: bool)
    ensures
        found == in_table(shape_view(*shape)),
{
    match shape {
        Shape::Row(_) => true,
        Shape::Rule(_) => true,
        _ => false,
    }
}

/// How many columns the table in the lines from `from` up to `to` has.
fn count_columns(shapes: &Vec<Shape<Vec<Extent>>>, from: usize, to: usize) -> (count: usize)
    requires
        from <= to <= shapes.len(),
    ensures
        count == column_count(shape_views(shapes@).subrange(from as int, to as int)),
{
    let ghost views = shape_views(shapes@);
    let mut count: usize = 0;
    let mut i: usize = from;
    while i < to
        invariant
            from <= i <= to <= shapes.len(),
            views == shape_views(shapes@),
            count == column_count(views.subrange(from as int, i as int)),
        decreases to - i,
    {
        let own: usize = match &shapes[i] {
            Shape::Row(cells) => cells.len(),
            Shape::Rule(count) => *count,
            _ => 0,
        };
        proof {
            let more = views.subrange(from as int, i + 1);
            assert(more.drop_last() =~= views.subrange(from as int, i as int));
            assert(more.last() == shape_view(shapes@[i as int]));
        }
        if own > count {
            count = own;
        }
        i += 1;
    }
    count
}

/// Whether the cells of the table in the lines from `from` up to `to` can be
/// wrapped to the widths of their columns.
fn wrap_cells(
    shapes: &Vec<Shape<Vec<Extent>>>,
    from: usize,
    to: usize,
    widths: &Vec<usize>,
) -> (fits: bool)
    requires
        from <= to <= shapes.len(),
    ensures
        fits == cells_fit(shape_views(shapes@).subrange(from as int, to as int), widths@),
{
    let ghost table = shape_views(shapes@).subrange(from as int, to as int);
    let mut i: usize = from;
    while i < to
        invariant
            from <= i <= to <= shapes.len(),
            table == shape_views(shapes@).subrange(from as int, to as int),
            forall|x: int, k: int|
                #![trigger table[x]->Row_0[k]]
                0 <= x < i - from && table[x] is Row && 0 <= k < table[x]->Row_0.len() && k
                    < widths.len() ==> can_wrap(table[x]->Row_0[k], widths[k] as int),
        decreases to - i,
    {
        let ghost at = i - from;
        assert(table[at] == shape_view(shapes@[i as int]));
        if let Shape::Row(cells) = &shapes[i] {
            let mut k: usize = 0;
            while k < cells.len() && k < widths.len()
                invariant
                    k <= cells.len(),
                    0 <= at < table.len(),
                    table == shape_views(shapes@).subrange(from as int, to as int),
                    table[at] == Shape::Row(cells@),
                    forall|y: int|
                        0 <= y < k && y < widths.len() ==> can_wrap(
                            #[trigger] cells@[y],
                            widths[y] as int,
                        ),
                decreases cells.len() - k,
            {
                if !wraps(cells[k], widths[k]) {
                    assert(!can_wrap(table[at]->Row_0[k as int], widths[k as int] as int));
                    return false;
                }
                k += 1;
            }
        }
        i += 1;
    }
    true
}

proof fn lemma_row_cells(before: Seq<(usize, usize)>, cells: Seq<Extent>, k: int)
    requires
        0 <= k < cells.len(),
        cells.len() <= usize::MAX,
    ensures
        before + row_cells(cells, k + 1) == (before + row_cells(cells, k)).push(
            (k as usize, cells[k].all),
        ),
        sum_widths(before + row_cells(cells, k + 1)) == sum_widths(before + row_cells(cells, k))
            + cells[k].all,
{
    let more = before + row_cells(cells, k + 1);
    assert(more =~= (before + row_cells(cells, k)).push((k as usize, cells[k].all)));
    assert(more.drop_last() =~= before + row_cells(cells, k));
}

proof fn lemma_sum_grows(cells: Seq<(usize, usize)>, from: int)
    requires
        0 <= from <= cells.len(),
    ensures
        sum_widths(cells.take(from)) <= sum_widths(cells),
    decreases cells.len() - from,
{
    if from == cells.len() {
        assert(cells.take(from) =~= cells);
    } else {
        assert(cells.take(from + 1).drop_last() =~= cells.take(from));
        lemma_sum_grows(cells, from + 1);
    }
}

/// The cells of the first lines of a table are the first ones of the table.
proof fn lemma_cells_grow(table: Seq<Shape<Seq<Extent>>>, to: int)
    requires
        0 <= to <= table.len(),
    ensures
        table_cells(table.take(to)).len() <= table_cells(table).len(),
        table_cells(table.take(to)) == table_cells(table).take(
            table_cells(table.take(to)).len() as int,
        ),
    decreases table.len() - to,
{
    if to == table.len() {
        assert(table.take(to) =~= table);
        assert(table_cells(table).take(table_cells(table).len() as int) =~= table_cells(table));
    } else {
        let more = table.take(to + 1);
        assert(more.drop_last() =~= table.take(to));
        lemma_cells_grow(table, to + 1);
        let len = table_cells(table.take(to)).len() as int;
        assert(table_cells(more).take(len) =~= table_cells(table.take(to)));
        assert(table_cells(table).take(table_cells(more).len() as int).take(len)
            =~= table_cells(table).take(len));
    }
}

/// Adds up the widths of the cells of the table in the lines from `from` up to
/// `to`: `None` where the machine cannot count so far.
fn sum_cells(shapes: &Vec<Shape<Vec<Extent>>>, from: usize, to: usize) -> (sum: Option<usize>)
    requires
        from <= to <= shapes.len(),
    ensures
        ({
            let all = sum_widths(
                table_cells(shape_views(shapes@).subrange(from as int, to as int)),
            );
            match sum {
                Some(sum) => sum == all,
                None => all > usize::MAX,
            }
        }),
{
    let ghost table = shape_views(shapes@).subrange(from as int, to as int);
    let mut sum: usize = 0;
    let mut i: usize = from;
    assert(table.take(0) =~= Seq::<Shape<Seq<Extent>>>::empty());
    while i < to
        invariant
            from <= i <= to <= shapes.len(),
            table == shape_views(shapes@).subrange(from as int, to as int),
            sum == sum_widths(table_cells(table.take(i - from))),
        decreases to - i,
    {
        let ghost at = i - from;
        let ghost before = table_cells(table.take(at));
        assert(table[at] == shape_view(shapes@[i as int]));
        proof {
            let more = table.take(at + 1);
            assert(more.drop_last() =~= table.take(at));
            assert(more.last() == table[at]);
            assert(table_cells(table.take(at)) + Seq::<(usize, usize)>::empty() =~= before);
        }
        if let Shape::Row(cells) = &shapes[i] {
            let mut k: usize = 0;
            assert(before + row_cells(cells@, 0) =~= before);
            while k < cells.len()
                invariant
                    k <= cells.len(),
                    0 <= at < table.len(),
                    table[at] == Shape::Row(cells@),
                    table_cells(table.take(at + 1)) == before + row_cells(
                        cells@,
                        cells@.len() as int,
                    ),
                    table == shape_views(shapes@).subrange(from as int, to as int),
                    sum == sum_widths(before + row_cells(cells@, k as int)),
                decreases cells.len() - k,
            {
                proof {
                    lemma_row_cells(before, cells@, k as int);
                }
                match sum.checked_add(cells[k].all) {
                    Some(more) => {
                        sum = more;
                    },
                    None => {
                        proof {
                            let part = before + row_cells(cells@, k + 1);
                            let row = before + row_cells(cells@, cells@.len() as int);
                            assert(row.take(part.len() as int) =~= part);
                            lemma_sum_grows(row, part.len() as int);
                            lemma_cells_grow(table, at + 1);
                            lemma_sum_grows(table_cells(table), row.len() as int);
                        }
                        return None;
                    },
                }
                k += 1;
            }
        }
        i += 1;
    }
    assert(table.take(to - from) =~= table);
    Some(sum)
}

/// Whether the products of widths for the columns of the table in the lines
/// from `from` up to `to` are within what the machine can count.
fn countable(
    shapes: &Vec<Shape<Vec<Extent>>>,
    from: usize,
    to: usize,
    count: usize,
) -> (fits: bool)
    requires
        from <= to <= shapes.len(),
        3 * count <= usize::MAX,
    ensures
        fits == can_count(
            count as nat,
            table_cells(shape_views(shapes@).subrange(from as int, to as int)),
        ),
{
    let ghost cells = table_cells(shape_views(shapes@).subrange(from as int, to as int));
    let ghost all: int = sum_widths(cells) + 3 * count;
    proof {
        if all > usize::MAX {
            assert(all * all >= all) by (nonlinear_arith)
                requires
                    all >= 1,
            ;
        }
    }
    match sum_cells(shapes, from, to) {
        Some(sum) => match sum.checked_add(3 * count) {
            Some(sum) => sum.checked_mul(sum).is_some(),
            None => false,
        },
        None => false,
    }
}

/// The widths that `termimad` chooses for the columns of the table in the lines
/// from `from` up to `to`.
fn choose_widths(
    shapes: &Vec<Shape<Vec<Extent>>>,
    from: usize,
    to: usize,
    count: usize,
    columns: usize,
) -> (widths: Vec<usize>)
    requires
        from <= to <= shapes.len(),
        4 * count + 1 <= columns,
        can_count(
            count as nat,
            table_cells(shape_views(shapes@).subrange(from as int, to as int)),
        ),
    ensures
        widths@ == chosen_widths(
            count,
            columns,
            table_cells(shape_views(shapes@).subrange(from as int, to as int)),
        ),
{
    let ghost table = shape_views(shapes@).subrange(from as int, to as int);
    let ghost total = sum_widths(table_cells(table));
    proof {
        let all: int = total + 3 * count;
        if all >= 1 {
            assert(all * all >= all) by (nonlinear_arith)
                requires
                    all >= 1,
            ;
        }
    }
    let mut fit: termimad::TblFit = match new_fit(count, columns) {
        Some(fit) => fit,
        None => {
            return Vec::new();
        },
    };
    let mut i: usize = from;
    assert(table.take(0) =~= Seq::<Shape<Seq<Extent>>>::empty());
    while i < to
        invariant
            from <= i <= to <= shapes.len(),
            table == shape_views(shapes@).subrange(from as int, to as int),
            cells_seen(fit) == table_cells(table.take(i - from)),
            made_for(fit) == (count, columns),
            total == sum_widths(table_cells(table)),
            total <= usize::MAX,
        decreases to - i,
    {
        let ghost at = i - from;
        let ghost before = table_cells(table.take(at));
        assert(table[at] == shape_view(shapes@[i as int]));
        proof {
            let more = table.take(at + 1);
            assert(more.drop_last() =~= table.take(at));
            assert(more.last() == table[at]);
            assert(before + Seq::<(usize, usize)>::empty() =~= before);
            lemma_cells_grow(table, at + 1);
        }
        if let Shape::Row(cells) = &shapes[i] {
            let mut k: usize = 0;
            assert(before + row_cells(cells@, 0) =~= before);
            while k < cells.len()
                invariant
                    k <= cells.len(),
                    0 <= at < table.len(),
                    table_cells(table.take(at + 1)) == before + row_cells(
                        cells@,
                        cells@.len() as int,
                    ),
                    table_cells(table.take(at + 1)).len() <= table_cells(table).len(),
                    table_cells(table.take(at + 1)) == table_cells(table).take(
                        table_cells(table.take(at + 1)).len() as int,
                    ),
                    cells_seen(fit) == before + row_cells(cells@, k as int),
                    made_for(fit) == (count, columns),
                    total == sum_widths(table_cells(table)),
                    total <= usize::MAX,
                decreases cells.len() - k,
            {
                proof {
                    lemma_row_cells(before, cells@, k as int);
                    let part = before + row_cells(cells@, k + 1);
                    let row = before + row_cells(cells@, cells@.len() as int);
                    assert(row.take(part.len() as int) =~= part);
                    lemma_sum_grows(row, part.len() as int);
                    lemma_sum_grows(table_cells(table), row.len() as int);
                }
                see_cell(&mut fit, k, cells[k].all);
                k += 1;
            }
        }
        i += 1;
    }
    assert(table.take(to - from) =~= table);
    fit_widths(&fit)
}

/// Whether the table in the lines from `from` up to `to` can be laid out.
fn lay_out_table(
    shapes: &Vec<Shape<Vec<Extent>>>,
    from: usize,
    to: usize,
    columns: u16,
) -> (fits: bool)
    requires
        from <= to <= shapes.len(),
    ensures
        fits == table_fits(shape_views(shapes@).subrange(from as int, to as int), columns),
{
    let count: usize = count_columns(shapes, from, to);
    if count == 0 || columns == 0 {
        return true;
    }
    let most: usize = (columns as usize - 1) / 4;
    if count > most {
        let mut widths: Vec<usize> = Vec::new();
        while widths.len() < most
            invariant
                widths.len() <= most,
                forall|k: int| 0 <= k < widths.len() ==> widths@[k] == 3,
            decreases most - widths.len(),
        {
            widths.push(3);
        }
        assert(widths@ =~= Seq::new(((columns - 1) / 4) as nat, |i: int| 3usize));
        return wrap_cells(shapes, from, to, &widths);
    }
    if !countable(shapes, from, to, count) {
        return false;
    }
    let widths: Vec<usize> = choose_widths(shapes, from, to, count, columns as usize);
    wrap_cells(shapes, from, to, &widths)
}

/// Whether lines, as `termimad` measured them, can be laid out on a terminal of
/// so many columns.
pub fn can_lay_out_shapes(shapes: &Vec<Shape<Vec<Extent>>>, columns: u16) -> (fits: bool)
    ensures
        fits == shapes_fit(shape_views(shapes@), columns),
{
    let ghost views = shape_views(shapes@);
    let mut i: usize = 0;
    while i < shapes.len()
        invariant
            i <= shapes.len(),
            views == shape_views(shapes@),
            0 < i < shapes.len() && in_table(views[i as int]) ==> !in_table(views[i - 1]),
            forall|k: int|
                #![trigger views[k]]
                0 <= k < i && views[k] is Plain && columns >= 3 ==> can_wrap(
                    views[k]->Plain_0,
                    columns as int,
                ),
            forall|from: int, to: int| #[trigger]
                is_table(views, from, to) && from < i ==> table_fits(
                    views.subrange(from, to),
                    columns,
                ),
        decreases shapes.len() - i,
    {
        let ghost start = i as int;
        assert(views[start] == shape_view(shapes@[start]));
        if belongs(&shapes[i]) {
            let from: usize = i;
            while i < shapes.len() && belongs(&shapes[i])
                invariant
                    from <= i <= shapes.len(),
                    views == shape_views(shapes@),
                    forall|k: int| from <= k < i ==> in_table(#[trigger] views[k]),
                decreases shapes.len() - i,
            {
                assert(views[i as int] == shape_view(shapes@[i as int]));
                i += 1;
            }
            assert(i < shapes.len() ==> views[i as int] == shape_view(shapes@[i as int]));
            assert(from < i);
            assert(is_table(views, from as int, i as int));
            if !lay_out_table(shapes, from, i, columns) {
                return false;
            }
            assert forall|a: int, b: int| #[trigger] is_table(views, a, b) && a < i implies
                table_fits(views.subrange(a, b), columns) by {
                if a > from {
                    assert(in_table(views[a - 1]));
                } else if a == from {
                    if b < i {
                        assert(in_table(views[b]));
                    } else if b > i {
                        assert(in_table(views[i as int]));
                    }
                }
            }
        } else {
            if let Shape::Plain(extent) = &shapes[i] {
                if columns >= 3 && !wraps(*extent, columns as usize) {
                    assert(views[start] is Plain);
                    return false;
                }
            }
            i += 1;
            assert forall|a: int, b: int| #[trigger] is_table(views, a, b) && a < i implies
                table_fits(views.subrange(a, b), columns) by {
                assert(in_table(views[a]));
            }
        }
    }
    true
}

/// Whether a text in the usual look can be laid out on a terminal of so many
/// columns.
pub(crate) fn can_lay_out(skin: &termimad::MadSkin, text: &str, columns: u16) -> (fits: bool)
    requires
        is_usual_look(*skin),
    ensures
        fits == fits_columns(*skin, text@, columns),
{
    can_number(text) && can_lay_out_shapes(&measure(skin, text), columns)
}

} // verus!
