//! What trimming a text, cutting it into lines and words and comparing it come
//! to, whatever the text.
use vstd::prelude::*;

use crate::order::text_lt;
use crate::text::{
    ascii_lower, first_line_feed, first_white, is_blank, is_control, is_white, join,
    lemma_first_line_feed, lemma_first_white, lemma_trim_start_head, lines, trim, trim_end,
    trim_start, words,
};

verus! {

/// Whether every character of a text is white space.
pub open spec fn all_white(text: Seq<char>) -> bool {
    forall|i: int| 0 <= i < text.len() ==> is_white(#[trigger] text[i])
}

/// Whether a text neither begins nor ends with white space.
pub open spec fn has_no_margin(text: Seq<char>) -> bool {
    text.len() > 0 ==> !is_white(text[0]) && !is_white(text.last())
}

proof fn lemma_start(lead: Seq<char>, rest: Seq<char>)
    requires
        all_white(lead),
        rest.len() > 0 ==> !is_white(rest[0]),
    ensures
        trim_start(lead + rest) == rest,
    decreases lead.len(),
{
    if lead.len() == 0 {
        assert(lead + rest =~= rest);
    } else {
        assert(is_white(lead[0]));
        assert((lead + rest)[0] == lead[0]);
        assert((lead + rest).skip(1) =~= lead.skip(1) + rest);
        assert forall|i: int| 0 <= i < lead.skip(1).len() implies is_white(
            #[trigger] lead.skip(1)[i],
        ) by {
            assert(is_white(lead[i + 1]));
        }
        lemma_start(lead.skip(1), rest);
    }
}

proof fn lemma_end(rest: Seq<char>, trail: Seq<char>)
    requires
        all_white(trail),
        rest.len() > 0 ==> !is_white(rest.last()),
    ensures
        trim_end(rest + trail) == rest,
    decreases trail.len(),
{
    if trail.len() == 0 {
        assert(rest + trail =~= rest);
    } else {
        assert(is_white(trail[trail.len() - 1]));
        assert((rest + trail).last() == trail.last());
        assert((rest + trail).drop_last() =~= rest + trail.drop_last());
        assert forall|i: int| 0 <= i < trail.drop_last().len() implies is_white(
            #[trigger] trail.drop_last()[i],
        ) by {
            assert(is_white(trail[i]));
        }
        lemma_end(rest, trail.drop_last());
    }
}

/// Trimming takes off the white space around a text and nothing else: what has
/// no white space at its ends comes out whole, whatever white space stands
/// around it.
pub proof fn trim_takes_off_white_space(lead: Seq<char>, core: Seq<char>, trail: Seq<char>)
    requires
        all_white(lead),
        all_white(trail),
        has_no_margin(core),
    ensures
        trim(lead + core + trail) == core,
{
    if core.len() == 0 {
        let all = lead + core + trail;
        assert forall|i: int| 0 <= i < all.len() implies is_white(#[trigger] all[i]) by {
            if i < lead.len() {
                assert(is_white(lead[i]));
            } else {
                assert(is_white(trail[i - lead.len()]));
            }
        }
        lemma_start(all, Seq::empty());
        assert(all + Seq::<char>::empty() =~= all);
        assert(core =~= Seq::<char>::empty());
    } else {
        assert(lead + core + trail =~= lead + (core + trail));
        assert((core + trail)[0] == core[0]);
        lemma_start(lead, core + trail);
        lemma_end(core, trail);
    }
}

proof fn lemma_start_parts(text: Seq<char>)
    ensures
        trim_start(text).len() <= text.len(),
        trim_start(text) == text.skip(text.len() - trim_start(text).len()),
        all_white(text.take(text.len() - trim_start(text).len())),
    decreases text.len(),
{
    if text.len() > 0 && is_white(text[0]) {
        lemma_start_parts(text.skip(1));
        let k = text.len() - trim_start(text).len();
        assert(text.skip(1).skip(k - 1) =~= text.skip(k));
        assert forall|i: int| 0 <= i < k implies is_white(#[trigger] text.take(k)[i]) by {
            if i > 0 {
                assert(text.skip(1).take(k - 1)[i - 1] == text[i]);
            }
        }
    } else {
        assert(text.skip(0) =~= text);
    }
}

proof fn lemma_end_parts(text: Seq<char>)
    ensures
        trim_end(text).len() <= text.len(),
        trim_end(text) == text.take(trim_end(text).len() as int),
        all_white(text.skip(trim_end(text).len() as int)),
        trim_end(text).len() > 0 ==> !is_white(trim_end(text).last()),
    decreases text.len(),
{
    if text.len() > 0 && is_white(text.last()) {
        lemma_end_parts(text.drop_last());
        let k = trim_end(text).len() as int;
        assert(text.drop_last().take(k) =~= text.take(k));
        assert forall|i: int| 0 <= i < text.skip(k).len() implies is_white(
            #[trigger] text.skip(k)[i],
        ) by {
            if i < text.len() - 1 - k {
                assert(text.drop_last().skip(k)[i] == text[k + i]);
            }
        }
    } else {
        assert(text.take(text.len() as int) =~= text);
    }
}

/// Every text is white space, what is left of it when it is trimmed, which
/// neither begins nor ends with white space, and white space again.
pub proof fn trimmed_text_stands_inside(text: Seq<char>) -> (parts: (Seq<char>, Seq<char>))
    ensures
        all_white(parts.0),
        all_white(parts.1),
        has_no_margin(trim(text)),
        text == parts.0 + trim(text) + parts.1,
{
    lemma_start_parts(text);
    lemma_trim_start_head(text);
    let rest = trim_start(text);
    lemma_end_parts(rest);
    let lead = text.take(text.len() - rest.len());
    let trail = rest.skip(trim(text).len() as int);
    assert(text =~= lead + trim(text) + trail);
    if trim(text).len() > 0 {
        assert(trim(text)[0] == rest[0]);
    }
    (lead, trail)
}

/// A text is blank if and only if it is nothing but white space.
pub proof fn blank_text_is_white_space(text: Seq<char>)
    ensures
        is_blank(text) <==> all_white(text),
{
    let (lead, trail) = trimmed_text_stands_inside(text);
    if is_blank(text) {
        assert forall|i: int| 0 <= i < text.len() implies is_white(#[trigger] text[i]) by {
            if i < lead.len() {
                assert(is_white(lead[i]));
            } else {
                assert(is_white(trail[i - lead.len()]));
            }
        }
    } else {
        let core = trim(text);
        assert(text[lead.len() as int] == core[0]);
    }
}

/// White space more or less around a text makes no difference to what is left
/// of it when it is trimmed.
pub proof fn margin_makes_no_difference(lead: Seq<char>, text: Seq<char>, trail: Seq<char>)
    requires
        all_white(lead),
        all_white(trail),
    ensures
        trim(lead + text + trail) == trim(text),
{
    let (before, behind) = trimmed_text_stands_inside(text);
    assert forall|i: int| 0 <= i < (lead + before).len() implies is_white(
        #[trigger] (lead + before)[i],
    ) by {
        if i < lead.len() {
            assert(is_white(lead[i]));
        } else {
            assert(is_white(before[i - lead.len()]));
        }
    }
    assert forall|i: int| 0 <= i < (behind + trail).len() implies is_white(
        #[trigger] (behind + trail)[i],
    ) by {
        if i < behind.len() {
            assert(is_white(behind[i]));
        } else {
            assert(is_white(trail[i - behind.len()]));
        }
    }
    trim_takes_off_white_space(lead + before, trim(text), behind + trail);
    assert(lead + text + trail =~= (lead + before) + trim(text) + (behind + trail));
}

proof fn lemma_feed_at(line: Seq<char>, rest: Seq<char>)
    requires
        forall|i: int| 0 <= i < line.len() ==> #[trigger] line[i] != '\n',
    ensures
        first_line_feed(line + seq!['\n'] + rest) == line.len(),
        first_line_feed(line) == line.len(),
{
    let all = line + seq!['\n'] + rest;
    lemma_first_line_feed(all);
    lemma_first_line_feed(line);
    let at = first_line_feed(all) as int;
    assert(all[line.len() as int] == '\n');
    if at < line.len() {
        assert(all[at] == line[at]);
    }
}

/// A text is cut into lines at its line feeds: a line that ends there comes
/// first, without the return at its end if it has one, and the lines of what
/// stands behind it follow. What has no line feed is one line as it is, and
/// nothing is no line.
pub proof fn lines_end_at_line_feeds(line: Seq<char>, rest: Seq<char>)
    requires
        forall|i: int| 0 <= i < line.len() ==> #[trigger] line[i] != '\n',
    ensures
        lines(line + seq!['\n'] + rest).len() == 1 + lines(rest).len(),
        line.len() > 0 && line.last() == '\r' ==> lines(line + seq!['\n'] + rest)[0]
            == line.drop_last(),
        !(line.len() > 0 && line.last() == '\r') ==> lines(line + seq!['\n'] + rest)[0] == line,
        lines(line + seq!['\n'] + rest).skip(1) == lines(rest),
        line.len() > 0 ==> lines(line) == seq![line],
        lines(Seq::empty()) == Seq::<Seq<char>>::empty(),
{
    let all = line + seq!['\n'] + rest;
    lemma_feed_at(line, rest);
    assert(all.take(line.len() as int) =~= line);
    assert(all.skip((line.len() + 1) as int) =~= rest);
    assert(lines(all).skip(1) =~= lines(rest));
}

/// The first line of a text says, when it is trimmed, what stands before the
/// first line feed.
pub proof fn first_line_says_the_beginning(line: Seq<char>, rest: Seq<char>)
    requires
        forall|i: int| 0 <= i < line.len() ==> #[trigger] line[i] != '\n',
    ensures
        lines(line + seq!['\n'] + rest).len() > 0,
        trim(lines(line + seq!['\n'] + rest)[0]) == trim(line),
        line.len() > 0 ==> lines(line).len() > 0 && trim(lines(line)[0]) == trim(line),
{
    lines_end_at_line_feeds(line, rest);
    if line.len() > 0 && line.last() == '\r' {
        let none = Seq::<char>::empty();
        margin_makes_no_difference(none, line.drop_last(), seq!['\r']);
        assert(none + line.drop_last() + seq!['\r'] =~= line);
    }
}

/// A text is cut into words at its white space: a word comes whole, and the
/// words of what stands behind it follow; white space alone has no words.
pub proof fn words_end_at_white_space(
    lead: Seq<char>,
    word: Seq<char>,
    rest: Seq<char>,
)
    requires
        all_white(lead),
        word.len() > 0,
        forall|i: int| 0 <= i < word.len() ==> !is_white(#[trigger] word[i]),
        rest.len() > 0 ==> is_white(rest[0]),
    ensures
        words(lead + word + rest) == seq![word] + words(rest),
        words(lead) == Seq::<Seq<char>>::empty(),
{
    let all = lead + word + rest;
    let tail = word + rest;
    assert(all =~= lead + tail);
    assert(tail[0] == word[0]);
    lemma_start(lead, tail);
    lemma_first_white(tail);
    let end = first_white(tail) as int;
    if end < word.len() {
        assert(tail[end] == word[end]);
    } else if end > word.len() {
        assert(tail[word.len() as int] == rest[0]);
    }
    assert(tail.take(end) =~= word);
    assert(tail.skip(end) =~= rest);
    lemma_start(lead, Seq::empty());
    assert(lead + Seq::<char>::empty() =~= lead);
}

/// Texts in a row keep their characters: one more text adds what stands between
/// and itself, and nothing stands before the first or behind the last.
pub proof fn joined_texts_stand_in_a_row(
    list: Seq<Seq<char>>,
    text: Seq<char>,
    between: Seq<char>,
)
    ensures
        join(Seq::empty(), between) == Seq::<char>::empty(),
        join(seq![text], between) == text,
        list.len() > 0 ==> join(list.push(text), between) == join(list, between) + between + text,
{
    assert(list.push(text).drop_last() =~= list);
}

// ---------------------------------------------------------------------------
// Characters and order
// ---------------------------------------------------------------------------
/// White space is what Unicode calls so, control characters are those of ASCII
/// and of Latin-1, and the lower case of ASCII changes its capital letters and
/// nothing else.
pub proof fn characters_are_told_apart(ch: char)
    ensures
        ({
            let code = ch as u32;
            &&& is_white(ch) <==> (9 <= code <= 13 || code == 0x20 || code == 0x85 || code == 0xa0
                || code == 0x1680 || 0x2000 <= code <= 0x200a || code == 0x2028 || code == 0x2029
                || code == 0x202f || code == 0x205f || code == 0x3000)
            &&& is_control(ch) <==> code < 0x20 || 0x7f <= code < 0xa0
            &&& 0x41 <= code <= 0x5a ==> ascii_lower(ch) as u32 == code + 0x20
            &&& !(0x41 <= code <= 0x5a) ==> ascii_lower(ch) == ch
        }),
{
}

/// Texts stand in the order of the first characters in which they differ, and a
/// text stands before one that goes on behind it.
pub proof fn first_difference_decides(
    common: Seq<char>,
    one: char,
    other: char,
    a: Seq<char>,
    b: Seq<char>,
)
    ensures
        one < other ==> text_lt(common + seq![one] + a, common + seq![other] + b),
        other < one ==> !text_lt(common + seq![one] + a, common + seq![other] + b),
        text_lt(common, common + seq![one] + a),
        !text_lt(common + seq![one] + a, common),
        !text_lt(common, common),
    decreases common.len(),
{
    let x = common + seq![one] + a;
    let y = common + seq![other] + b;
    if common.len() > 0 {
        assert(x[0] == common[0] && y[0] == common[0]);
        assert(x.skip(1) =~= common.skip(1) + seq![one] + a);
        assert(y.skip(1) =~= common.skip(1) + seq![other] + b);
        first_difference_decides(common.skip(1), one, other, a, b);
    } else {
        assert(x[0] == one && y[0] == other);
    }
}

} // verus!
