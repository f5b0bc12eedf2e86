//! Text at the level of characters.
//!
//! The view of a string is the sequence of its `char`s. The spec functions of
//! this module say what trimming, splitting, lining up and comparing mean on
//! such sequences; the executable functions are stated over them.
use vstd::prelude::*;

verus! {

// ---------------------------------------------------------------------------
// Characters
// ---------------------------------------------------------------------------
/// The characters with the Unicode property `White_Space`.
pub open spec fn is_white(ch: char) -> bool {
    ||| '\u{9}' <= ch <= '\u{D}'
    ||| ch == ' '
    ||| ch == '\u{85}'
    ||| ch == '\u{A0}'
    ||| ch == '\u{1680}'
    ||| '\u{2000}' <= ch <= '\u{200A}'
    ||| ch == '\u{2028}'
    ||| ch == '\u{2029}'
    ||| ch == '\u{202F}'
    ||| ch == '\u{205F}'
    ||| ch == '\u{3000}'
}

/// The control characters: Unicode's general category `Cc`.
pub open spec fn is_control(ch: char) -> bool {
    ch <= '\u{1F}' || '\u{7F}' <= ch <= '\u{9F}'
}

/// The ASCII letters in lower case; every other character stays.
pub open spec fn ascii_lower(ch: char) -> char {
    if 'A' <= ch <= 'Z' {
        (ch as u8 + 32) as char
    } else {
        ch
    }
}

pub fn white_space(ch: char) -> (found: bool)
    ensures
        found == is_white(ch),
{
    ('\u{9}' <= ch && ch <= '\u{D}') || ch == ' ' || ch == '\u{85}' || ch == '\u{A0}' || ch
        == '\u{1680}' || ('\u{2000}' <= ch && ch <= '\u{200A}') || ch == '\u{2028}' || ch
        == '\u{2029}' || ch == '\u{202F}' || ch == '\u{205F}' || ch == '\u{3000}'
}

pub fn control(ch: char) -> (found: bool)
    ensures
        found == is_control(ch),
{
    ch <= '\u{1F}' || ('\u{7F}' <= ch && ch <= '\u{9F}')
}

fn lower_char(ch: char) -> (lower: char)
    ensures
        lower == ascii_lower(ch),
{
    if 'A' <= ch && ch <= 'Z' {
        (ch as u8 + 32) as char
    } else {
        ch
    }
}

// ---------------------------------------------------------------------------
// Building and taking apart
// ---------------------------------------------------------------------------
/// `String::push` of std appends the given character at the end.
pub assume_specification[ String::push ](text: &mut String, ch: char)
    ensures
        final(text)@ == old(text)@.push(ch),
;

/// The characters of each string of a list.
pub open spec fn texts(list: Seq<String>) -> Seq<Seq<char>> {
    Seq::new(list.len(), |i: int| list[i]@)
}

/// The characters of a string slice, in order.
pub fn chars_of(text: &str) -> (chars: Vec<char>)
    ensures
        chars@ == text@,
{
    let mut chars: Vec<char> = Vec::new();
    for ch in iter: text.chars()
        invariant
            chars@ == text@.take(iter.index() as int),
            iter.seq() == text@,
    {
        chars.push(ch);
    }
    chars
}

/// The string made of `chars[from..to]`.
pub fn text_between(chars: &Vec<char>, from: usize, to: usize) -> (text: String)
    requires
        from <= to <= chars.len(),
    ensures
        text@ == chars@.subrange(from as int, to as int),
{
    let mut text: String = String::new();
    let mut i: usize = from;
    while i < to
        invariant
            from <= i <= to <= chars.len(),
            text@ == chars@.subrange(from as int, i as int),
        decreases to - i,
    {
        text.push(chars[i]);
        i += 1;
    }
    text
}

/// `left` followed by `right`.
pub fn joined(left: &str, right: &str) -> (text: String)
    ensures
        text@ == left@ + right@,
{
    let mut text: String = left.to_owned();
    text.append(right);
    text
}

/// Whether two string slices hold the same characters.
pub fn same_text(left: &str, right: &str) -> (same: bool)
    ensures
        same == (left@ == right@),
{
    let a: Vec<char> = chars_of(left);
    let b: Vec<char> = chars_of(right);
    same_chars(&a, &b)
}

/// Whether two vectors hold the same characters.
pub fn same_chars(a: &Vec<char>, b: &Vec<char>) -> (same: bool)
    ensures
        same == (a@ == b@),
{
    if a.len() != b.len() {
        return false;
    }
    let mut i: usize = 0;
    while i < a.len()
        invariant
            i <= a.len(),
            a.len() == b.len(),
            forall|k: int| 0 <= k < i ==> a@[k] == b@[k],
        decreases a.len() - i,
    {
        if a[i] != b[i] {
            return false;
        }
        i += 1;
    }
    assert(a@ =~= b@);
    true
}

/// A copy of a list of strings.
pub fn copy_texts(list: &Vec<String>) -> (copy: Vec<String>)
    ensures
        texts(copy@) == texts(list@),
{
    let mut copy: Vec<String> = Vec::new();
    let mut i: usize = 0;
    while i < list.len()
        invariant
            i <= list.len(),
            copy@.len() == i,
            forall|k: int| 0 <= k < i ==> #[trigger] copy@[k]@ == list@[k]@,
        decreases list.len() - i,
    {
        copy.push(list[i].clone());
        i += 1;
    }
    assert(texts(copy@) =~= texts(list@));
    copy
}

// ---------------------------------------------------------------------------
// Trimming
// ---------------------------------------------------------------------------
/// `text` without the white space at its start.
pub open spec fn trim_start(text: Seq<char>) -> Seq<char>
    decreases text.len(),
{
    if text.len() > 0 && is_white(text[0]) {
        trim_start(text.skip(1))
    } else {
        text
    }
}

/// `text` without the white space at its end.
pub open spec fn trim_end(text: Seq<char>) -> Seq<char>
    decreases text.len(),
{
    if text.len() > 0 && is_white(text.last()) {
        trim_end(text.drop_last())
    } else {
        text
    }
}

/// `text` without the white space at both ends.
pub open spec fn trim(text: Seq<char>) -> Seq<char> {
    trim_end(trim_start(text))
}

/// Whether nothing but white space stands in `text`.
pub open spec fn is_blank(text: Seq<char>) -> bool {
    trim(text).len() == 0
}

/// `text` without any `ch` at its start.
pub open spec fn without_leading(text: Seq<char>, ch: char) -> Seq<char>
    decreases text.len(),
{
    if text.len() > 0 && text[0] == ch {
        without_leading(text.skip(1), ch)
    } else {
        text
    }
}

/// `text` without any `ch` at its end.
pub open spec fn without_trailing(text: Seq<char>, ch: char) -> Seq<char>
    decreases text.len(),
{
    if text.len() > 0 && text.last() == ch {
        without_trailing(text.drop_last(), ch)
    } else {
        text
    }
}

/// `text` without the line feeds and carriage returns at its end.
pub open spec fn without_line_ends(text: Seq<char>) -> Seq<char>
    decreases text.len(),
{
    if text.len() > 0 && (text.last() == '\n' || text.last() == '\r') {
        without_line_ends(text.drop_last())
    } else {
        text
    }
}

proof fn lemma_trim_end(text: Seq<char>)
    ensures
        trim_end(text).len() <= text.len(),
        trim_end(text) == text.take(trim_end(text).len() as int),
        trim_end(trim_end(text)) == trim_end(text),
    decreases text.len(),
{
    if text.len() > 0 && is_white(text.last()) {
        lemma_trim_end(text.drop_last());
        let end = trim_end(text).len() as int;
        assert(text.drop_last().take(end) =~= text.take(end));
    } else {
        assert(text.take(text.len() as int) =~= text);
    }
}

/// What has been trimmed stays as it is when it is trimmed again.
pub proof fn trim_is_idempotent(text: Seq<char>)
    ensures
        trim(trim(text)) == trim(text),
{
    let start = trim_start(text);
    lemma_trim_start_head(text);
    lemma_trim_end(start);
    let part = trim_end(start);
    if part.len() > 0 {
        assert(part[0] == start[0]);
    }
    assert(trim_start(part) == part);
}

/// The index behind the white space that starts at `from`.
fn behind_white(chars: &Vec<char>, from: usize) -> (at: usize)
    requires
        from <= chars.len(),
    ensures
        from <= at <= chars.len(),
        trim_start(chars@.skip(from as int)) == chars@.skip(at as int),
{
    let mut at: usize = from;
    while at < chars.len() && white_space(chars[at])
        invariant
            from <= at <= chars.len(),
            trim_start(chars@.skip(from as int)) == trim_start(chars@.skip(at as int)),
        decreases chars.len() - at,
    {
        assert(chars@.skip(at as int).skip(1) =~= chars@.skip(at + 1));
        at += 1;
    }
    at
}

/// The end of `chars[from..]` without its white space at the end.
fn before_white(chars: &Vec<char>, from: usize) -> (end: usize)
    requires
        from <= chars.len(),
    ensures
        from <= end <= chars.len(),
        trim_end(chars@.skip(from as int)) == chars@.subrange(from as int, end as int),
{
    let mut end: usize = chars.len();
    assert(chars@.skip(from as int) =~= chars@.subrange(from as int, end as int));
    while end > from && white_space(chars[end - 1])
        invariant
            from <= end <= chars.len(),
            trim_end(chars@.skip(from as int)) == trim_end(
                chars@.subrange(from as int, end as int),
            ),
        decreases end,
    {
        assert(chars@.subrange(from as int, end as int).drop_last() =~= chars@.subrange(
            from as int,
            end - 1,
        ));
        end -= 1;
    }
    end
}

/// The part of `text` between the white space at its ends.
pub fn trimmed<'a>(text: &'a str) -> (part: &'a str)
    ensures
        part@ == trim(text@),
{
    let chars: Vec<char> = chars_of(text);
    let from: usize = behind_white(&chars, 0);
    let to: usize = before_white(&chars, from);
    assert(chars@.skip(0) =~= chars@);
    text.substring_char(from, to)
}

/// The part of `text` before the white space at its end.
pub fn trimmed_end<'a>(text: &'a str) -> (part: &'a str)
    ensures
        part@ == trim_end(text@),
{
    let chars: Vec<char> = chars_of(text);
    let to: usize = before_white(&chars, 0);
    assert(chars@.skip(0) =~= chars@);
    text.substring_char(0, to)
}

/// Whether nothing but white space stands in `text`.
pub fn blank(text: &str) -> (found: bool)
    ensures
        found == is_blank(text@),
{
    trimmed(text).is_empty()
}

/// `text` without any `ch` at its start.
pub fn strip_leading<'a>(text: &'a str, ch: char) -> (part: &'a str)
    ensures
        part@ == without_leading(text@, ch),
{
    let chars: Vec<char> = chars_of(text);
    let mut at: usize = 0;
    assert(chars@.skip(0) =~= chars@);
    while at < chars.len() && chars[at] == ch
        invariant
            at <= chars.len(),
            chars@ == text@,
            without_leading(chars@, ch) == without_leading(chars@.skip(at as int), ch),
        decreases chars.len() - at,
    {
        assert(chars@.skip(at as int).skip(1) =~= chars@.skip(at + 1));
        at += 1;
    }
    assert(chars@.skip(at as int) =~= chars@.subrange(at as int, chars@.len() as int));
    text.substring_char(at, chars.len())
}

/// `text` without any `ch` at its end.
pub fn strip_trailing<'a>(text: &'a str, ch: char) -> (part: &'a str)
    ensures
        part@ == without_trailing(text@, ch),
{
    let chars: Vec<char> = chars_of(text);
    let mut end: usize = chars.len();
    assert(chars@.take(end as int) =~= chars@);
    while end > 0 && chars[end - 1] == ch
        invariant
            end <= chars.len(),
            chars@ == text@,
            without_trailing(chars@, ch) == without_trailing(chars@.take(end as int), ch),
        decreases end,
    {
        assert(chars@.take(end as int).drop_last() =~= chars@.take(end - 1));
        end -= 1;
    }
    assert(chars@.take(end as int) =~= chars@.subrange(0, end as int));
    text.substring_char(0, end)
}

/// `text` without the line feeds and carriage returns at its end.
pub fn strip_line_ends<'a>(text: &'a str) -> (part: &'a str)
    ensures
        part@ == without_line_ends(text@),
{
    let chars: Vec<char> = chars_of(text);
    let mut end: usize = chars.len();
    assert(chars@.take(end as int) =~= chars@);
    while end > 0 && (chars[end - 1] == '\n' || chars[end - 1] == '\r')
        invariant
            end <= chars.len(),
            chars@ == text@,
            without_line_ends(chars@) == without_line_ends(chars@.take(end as int)),
        decreases end,
    {
        assert(chars@.take(end as int).drop_last() =~= chars@.take(end - 1));
        end -= 1;
    }
    assert(chars@.take(end as int) =~= chars@.subrange(0, end as int));
    text.substring_char(0, end)
}

/// The prefix at which `text` begins, with the rest: `None` where `text` does
/// not begin with `prefix`.
pub fn after_prefix<'a>(text: &'a str, prefix: &str) -> (rest: Option<&'a str>)
    ensures
        rest is Some <==> prefix@.is_prefix_of(text@),
        rest is Some ==> rest->0@ == text@.skip(prefix@.len() as int),
{
    let chars: Vec<char> = chars_of(text);
    let head: Vec<char> = chars_of(prefix);
    if head.len() > chars.len() {
        return None;
    }
    let mut i: usize = 0;
    while i < head.len()
        invariant
            i <= head.len() <= chars.len(),
            chars@ == text@,
            head@ == prefix@,
            forall|k: int| 0 <= k < i ==> chars@[k] == head@[k],
        decreases head.len() - i,
    {
        if chars[i] != head[i] {
            assert(!prefix@.is_prefix_of(text@)) by {
                if prefix@.is_prefix_of(text@) {
                    assert(text@.subrange(0, prefix@.len() as int)[i as int] == prefix@[i as int]);
                }
            }
            return None;
        }
        i += 1;
    }
    assert(prefix@ =~= text@.subrange(0, prefix@.len() as int));
    assert(text@.skip(prefix@.len() as int) =~= text@.subrange(
        prefix@.len() as int,
        text@.len() as int,
    ));
    Some(text.substring_char(head.len(), chars.len()))
}

// ---------------------------------------------------------------------------
// Words and lines
// ---------------------------------------------------------------------------
/// The index of the first white space of `text`, or its length.
pub open spec fn first_white(text: Seq<char>) -> nat
    decreases text.len(),
{
    if text.len() == 0 || is_white(text[0]) {
        0
    } else {
        1 + first_white(text.skip(1))
    }
}

/// The parts of `text` between white space, none of them empty.
pub open spec fn words(text: Seq<char>) -> Seq<Seq<char>>
    decreases text.len(),
    via words_decreases
{
    let rest = trim_start(text);
    if rest.len() == 0 {
        Seq::empty()
    } else {
        let end = first_white(rest) as int;
        seq![rest.take(end)] + words(rest.skip(end))
    }
}

#[via_fn]
proof fn words_decreases(text: Seq<char>) {
    lemma_trim_start_len(text);
    let rest = trim_start(text);
    if rest.len() > 0 {
        lemma_trim_start_head(text);
        lemma_first_white(rest);
    }
}

pub proof fn lemma_trim_start_len(text: Seq<char>)
    ensures
        trim_start(text).len() <= text.len(),
    decreases text.len(),
{
    if text.len() > 0 && is_white(text[0]) {
        lemma_trim_start_len(text.skip(1));
    }
}

pub proof fn lemma_trim_start_head(text: Seq<char>)
    ensures
        trim_start(text).len() > 0 ==> !is_white(trim_start(text)[0]),
    decreases text.len(),
{
    if text.len() > 0 && is_white(text[0]) {
        lemma_trim_start_head(text.skip(1));
    }
}

pub proof fn lemma_first_white(text: Seq<char>)
    ensures
        first_white(text) <= text.len(),
        forall|i: int| 0 <= i < first_white(text) ==> !is_white(#[trigger] text[i]),
        first_white(text) < text.len() ==> is_white(text[first_white(text) as int]),
        text.len() > 0 && !is_white(text[0]) ==> first_white(text) > 0,
    decreases text.len(),
{
    if text.len() > 0 && !is_white(text[0]) {
        lemma_first_white(text.skip(1));
        assert forall|i: int| 0 <= i < first_white(text) implies !is_white(#[trigger] text[i]) by {
            if i > 0 {
                assert(text.skip(1)[i - 1] == text[i]);
            }
        }
    }
}

/// The end of the run without white space that starts at `from`.
fn word_end(chars: &Vec<char>, from: usize) -> (end: usize)
    requires
        from <= chars.len(),
    ensures
        from <= end <= chars.len(),
        end == from + first_white(chars@.skip(from as int)),
{
    let mut end: usize = from;
    while end < chars.len() && !white_space(chars[end])
        invariant
            from <= end <= chars.len(),
            from + first_white(chars@.skip(from as int)) == end + first_white(
                chars@.skip(end as int),
            ),
        decreases chars.len() - end,
    {
        assert(chars@.skip(end as int).skip(1) =~= chars@.skip(end + 1));
        end += 1;
    }
    end
}

/// The words of `text`.
pub fn split_words(text: &str) -> (list: Vec<String>)
    ensures
        texts(list@) == words(text@),
{
    let chars: Vec<char> = chars_of(text);
    let mut list: Vec<String> = Vec::new();
    let mut at: usize = 0;
    assert(chars@.skip(0) =~= chars@);
    assert(texts(list@) + words(chars@) =~= words(chars@));
    loop
        invariant
            at <= chars.len(),
            words(chars@) == texts(list@) + words(chars@.skip(at as int)),
        ensures
            words(chars@) == texts(list@),
        decreases chars.len() - at,
    {
        let from: usize = behind_white(&chars, at);
        proof {
            lemma_trim_start_head(chars@.skip(at as int));
            lemma_first_white(chars@.skip(from as int));
        }
        if from == chars.len() {
            assert(words(chars@.skip(at as int)) =~= Seq::<Seq<char>>::empty());
            assert(texts(list@) + Seq::<Seq<char>>::empty() =~= texts(list@));
            break;
        }
        let end: usize = word_end(&chars, from);
        let ghost before = texts(list@);
        let word: String = text_between(&chars, from, end);
        list.push(word);
        proof {
            let rest = chars@.skip(from as int);
            let n = first_white(rest) as int;
            assert(rest.take(n) =~= chars@.subrange(from as int, end as int));
            assert(rest.skip(n) =~= chars@.skip(end as int));
            assert(texts(list@) =~= before.push(rest.take(n)));
            assert(before + (seq![rest.take(n)] + words(rest.skip(n))) =~= before.push(
                rest.take(n),
            ) + words(chars@.skip(end as int)));
        }
        at = end;
    }
    list
}

/// The index of the first line feed of `text`, or its length.
pub open spec fn first_line_feed(text: Seq<char>) -> nat
    decreases text.len(),
{
    if text.len() == 0 || text[0] == '\n' {
        0
    } else {
        1 + first_line_feed(text.skip(1))
    }
}

pub proof fn lemma_first_line_feed(text: Seq<char>)
    ensures
        first_line_feed(text) <= text.len(),
        forall|i: int| 0 <= i < first_line_feed(text) ==> #[trigger] text[i] != '\n',
        first_line_feed(text) < text.len() ==> text[first_line_feed(text) as int] == '\n',
    decreases text.len(),
{
    if text.len() > 0 && text[0] != '\n' {
        lemma_first_line_feed(text.skip(1));
        assert forall|i: int| 0 <= i < first_line_feed(text) implies #[trigger] text[i]
            != '\n' by {
            if i > 0 {
                assert(text.skip(1)[i - 1] == text[i]);
            }
        }
    }
}

/// `line` without one carriage return at its end.
pub open spec fn without_return(line: Seq<char>) -> Seq<char> {
    if line.len() > 0 && line.last() == '\r' {
        line.drop_last()
    } else {
        line
    }
}

/// The lines of `text`: each ends at a line feed, which may have a carriage
/// return before it, or at the end of `text`. Nothing stands for the empty
/// rest behind a last line feed.
pub open spec fn lines(text: Seq<char>) -> Seq<Seq<char>>
    decreases text.len(),
    via lines_decreases
{
    let end = first_line_feed(text) as int;
    if text.len() == 0 {
        Seq::empty()
    } else if end == text.len() {
        seq![text]
    } else {
        seq![without_return(text.take(end))] + lines(text.skip(end + 1))
    }
}

#[via_fn]
proof fn lines_decreases(text: Seq<char>) {
    lemma_first_line_feed(text);
}

/// The lines of `text`.
pub fn split_lines(text: &str) -> (list: Vec<String>)
    ensures
        texts(list@) == lines(text@),
{
    let chars: Vec<char> = chars_of(text);
    let mut list: Vec<String> = Vec::new();
    let mut at: usize = 0;
    assert(chars@.skip(0) =~= chars@);
    assert(texts(list@) + lines(chars@) =~= lines(chars@));
    while at < chars.len()
        invariant
            at <= chars.len(),
            lines(chars@) == texts(list@) + lines(chars@.skip(at as int)),
        decreases chars.len() - at,
    {
        let mut end: usize = at;
        while end < chars.len() && chars[end] != '\n'
            invariant
                at <= end <= chars.len(),
                at + first_line_feed(chars@.skip(at as int)) == end + first_line_feed(
                    chars@.skip(end as int),
                ),
            decreases chars.len() - end,
        {
            assert(chars@.skip(end as int).skip(1) =~= chars@.skip(end + 1));
            end += 1;
        }
        let ghost before = texts(list@);
        let ghost rest = chars@.skip(at as int);
        let ghost n = first_line_feed(rest) as int;
        if end == chars.len() {
            let line: String = text_between(&chars, at, end);
            list.push(line);
            proof {
                assert(rest =~= chars@.subrange(at as int, end as int));
                assert(texts(list@) =~= before.push(rest));
                assert(before + seq![rest] =~= before.push(rest));
                assert(lines(chars@.skip(end as int)) =~= Seq::<Seq<char>>::empty());
                assert(texts(list@) + Seq::<Seq<char>>::empty() =~= texts(list@));
            }
            at = end;
        } else {
            let cut: usize = if end > at && chars[end - 1] == '\r' {
                end - 1
            } else {
                end
            };
            let line: String = text_between(&chars, at, cut);
            list.push(line);
            proof {
                assert(rest.take(n) =~= chars@.subrange(at as int, end as int));
                assert(without_return(rest.take(n)) =~= chars@.subrange(at as int, cut as int));
                assert(rest.skip(n + 1) =~= chars@.skip(end + 1));
                let line = without_return(rest.take(n));
                assert(texts(list@) =~= before.push(line));
                assert(before + (seq![line] + lines(rest.skip(n + 1))) =~= before.push(line)
                    + lines(chars@.skip(end + 1)));
            }
            at = end + 1;
        }
    }
    proof {
        assert(lines(chars@.skip(at as int)) =~= Seq::<Seq<char>>::empty());
        assert(texts(list@) + Seq::<Seq<char>>::empty() =~= texts(list@));
    }
    list
}

// ---------------------------------------------------------------------------
// Joining, repeating, lower case
// ---------------------------------------------------------------------------
/// The texts of `list` in a row, `between` standing between each two.
pub open spec fn join(list: Seq<Seq<char>>, between: Seq<char>) -> Seq<char>
    decreases list.len(),
{
    if list.len() == 0 {
        Seq::empty()
    } else if list.len() == 1 {
        list[0]
    } else {
        join(list.drop_last(), between) + between + list.last()
    }
}

/// The strings of `list` in a row, `between` standing between each two.
pub fn join_texts(list: &Vec<String>, between: &str) -> (text: String)
    ensures
        text@ == join(texts(list@), between@),
{
    let mut text: String = String::new();
    let mut i: usize = 0;
    while i < list.len()
        invariant
            i <= list.len(),
            text@ == join(texts(list@).take(i as int), between@),
        decreases list.len() - i,
    {
        if i > 0 {
            text.append(between);
        }
        text.append(list[i].as_str());
        i += 1;
        proof {
            let all = texts(list@);
            assert(all.take(i as int).drop_last() =~= all.take(i - 1));
            assert(all.take(i as int).last() == list@[i - 1]@);
            if i == 1 {
                assert(text@ =~= all[0]);
            }
        }
    }
    assert(texts(list@).take(i as int) =~= texts(list@));
    text
}

/// `count` times the character `ch`.
pub open spec fn repeated(ch: char, count: nat) -> Seq<char> {
    Seq::new(count, |i: int| ch)
}

/// `count` times the character `ch`.
pub fn repeat_char(ch: char, count: usize) -> (text: String)
    ensures
        text@ == repeated(ch, count as nat),
{
    let mut text: String = String::new();
    let mut i: usize = 0;
    while i < count
        invariant
            i <= count,
            text@ =~= repeated(ch, i as nat),
        decreases count - i,
    {
        text.push(ch);
        i += 1;
    }
    text
}

/// `text` with its ASCII letters in lower case.
pub open spec fn ascii_lower_text(text: Seq<char>) -> Seq<char> {
    Seq::new(text.len(), |i: int| ascii_lower(text[i]))
}

/// `text` with its ASCII letters in lower case.
pub fn lower_ascii(text: &str) -> (lower: String)
    ensures
        lower@ == ascii_lower_text(text@),
{
    let chars: Vec<char> = chars_of(text);
    let mut lower: String = String::new();
    let mut i: usize = 0;
    while i < chars.len()
        invariant
            i <= chars.len(),
            lower@ =~= ascii_lower_text(chars@.take(i as int)),
        decreases chars.len() - i,
    {
        lower.push(lower_char(chars[i]));
        i += 1;
    }
    assert(chars@.take(i as int) =~= chars@);
    lower
}

/// Whether the two texts agree but for the case of ASCII letters.
pub fn same_ignoring_ascii_case(left: &str, right: &str) -> (same: bool)
    ensures
        same == (ascii_lower_text(left@) == ascii_lower_text(right@)),
{
    let a: String = lower_ascii(left);
    let b: String = lower_ascii(right);
    same_text(a.as_str(), b.as_str())
}

/// Whether every character of a text is ASCII.
pub open spec fn is_ascii_text(text: Seq<char>) -> bool {
    forall|i: int| 0 <= i < text.len() ==> #[trigger] text[i] <= '\u{7F}'
}

/// What std's `str::to_lowercase` makes of a text: Unicode's lower case,
/// which may have more characters than the text.
pub uninterp spec fn unicode_lower(text: Seq<char>) -> Seq<char>;

/// Calls `str::to_lowercase` of std: the text in Unicode's lower case. An
/// ASCII text comes out with its letters in lower case and nothing else
/// changed; what becomes of other characters is not said.
#[verifier::external_body]
pub(crate) fn lower_unicode(text: &str) -> (lower: String)
    ensures
        lower@ == unicode_lower(text@),
        is_ascii_text(text@) ==> lower@ == ascii_lower_text(text@),
{
    text.to_lowercase()
}

} // verus!
