//! Markdown that comes in pieces and is rendered line by line.
//!
//! `termimad` renders, for a terminal of so many columns. A text that it could
//! not lay out there is shown as it is.
use std::fmt::Write;
use vstd::prelude::*;

use crate::layout::{can_lay_out, fits_columns, is_usual_look};
use crate::text::{chars_of, text_between};
use crate::types::opt_text;

verus! {

/// Whether the text that `termimad::MadSkin::text` makes of markdown in a look,
/// for so many columns, may come out like this: `None` stands for a failure.
/// Colours can be switched off from outside, so there may be more than one
/// answer.
pub uninterp spec fn may_render(
    skin: termimad::MadSkin,
    text: Seq<char>,
    columns: u16,
    rendering: Option<Seq<char>>,
) -> bool;

/// `termimad::MadSkin::default`: the usual look. What it looks like is not
/// said.
#[verifier::external_body]
fn default_skin() -> (skin: termimad::MadSkin)
    ensures
        is_usual_look(skin),
{
    termimad::MadSkin::default()
}

/// `termimad::terminal_size`: how many columns the terminal has. That depends
/// on the machine, so nothing is said of the number.
#[verifier::external_body]
fn terminal_width() -> (columns: u16) {
    termimad::terminal_size().0
}

/// `termimad::MadSkin::text`: the text as a terminal of so many columns shows
/// it in the usual look, `None` where rendering fails. Colours can be switched
/// off from outside, so it is not said which of the possible renderings comes
/// out, nor what they hold. Left out is what `termimad` cannot lay out.
#[verifier::external_body]
fn render_with(skin: &termimad::MadSkin, text: &str, columns: u16) -> (rendering: Option<String>)
    requires
        is_usual_look(*skin),
        fits_columns(*skin, text@, columns),
    ensures
        may_render(*skin, text@, columns, opt_text(rendering)),
{
    let mut output = String::new();
    match write!(output, "{}", skin.text(text, Some(columns as usize))) {
        Ok(_) => Some(output),
        Err(_) => None,
    }
}

// ---------------------------------------------------------------------------
// Complete lines
// ---------------------------------------------------------------------------
/// The index behind the last line feed of `text`, zero where it has none.
pub open spec fn lines_end(text: Seq<char>) -> nat
    decreases text.len(),
{
    if text.len() == 0 || text.last() == '\n' {
        text.len()
    } else {
        lines_end(text.drop_last())
    }
}

pub(crate) proof fn lemma_lines_end(text: Seq<char>)
    ensures
        lines_end(text) <= text.len(),
        lines_end(text) > 0 ==> text[lines_end(text) - 1] == '\n',
        forall|i: int| lines_end(text) <= i < text.len() ==> #[trigger] text[i] != '\n',
    decreases text.len(),
{
    if text.len() > 0 && text.last() != '\n' {
        lemma_lines_end(text.drop_last());
        assert forall|i: int| lines_end(text) <= i < text.len() implies #[trigger] text[i]
            != '\n' by {
            if i < text.len() - 1 {
                assert(text.drop_last()[i] == text[i]);
            }
        }
    }
}

/// Whether this may be shown of a text in a look on a terminal of so many
/// columns: a rendering of the text, or the text itself where it cannot be
/// laid out or rendering it fails.
pub open spec fn may_show_at(
    skin: termimad::MadSkin,
    text: Seq<char>,
    columns: u16,
    shown: Seq<char>,
) -> bool {
    if fits_columns(skin, text, columns) {
        may_render(skin, text, columns, Some(shown)) || (may_render(skin, text, columns, None)
            && shown == text)
    } else {
        shown == text
    }
}

/// Whether this may be shown of a text in a look on some terminal.
pub open spec fn may_show(skin: termimad::MadSkin, text: Seq<char>, shown: Seq<char>) -> bool {
    exists|columns: u16| #[trigger] may_show_at(skin, text, columns, shown)
}

/// The text that a rendering stands for: the text itself where there is no
/// rendering.
pub fn rendered_or_raw(text: &str, rendered: Option<String>) -> (shown: String)
    ensures
        shown@ == match rendered {
            Some(rendered) => rendered@,
            None => text@,
        },
{
    match rendered {
        Some(rendered) => rendered,
        None => text.to_owned(),
    }
}

/// A renderer that keeps the line that is not complete yet.
pub struct MarkdownRenderer {
    skin: termimad::MadSkin,
    buffer: String,
}

impl MarkdownRenderer {
    /// The line that is not complete yet.
    pub closed spec fn pending(&self) -> Seq<char> {
        self.buffer@
    }

    /// How the markdown is to look.
    pub closed spec fn look(&self) -> termimad::MadSkin {
        self.skin
    }

    /// The look is the usual one.
    pub open spec fn well_formed(&self) -> bool {
        is_usual_look(self.look())
    }

    /// A renderer in the usual look that has got nothing yet.
    pub fn new() -> (renderer: MarkdownRenderer)
        ensures
            renderer.pending() == Seq::<char>::empty(),
            renderer.well_formed(),
    {
        let renderer: MarkdownRenderer = MarkdownRenderer {
            skin: default_skin(),
            buffer: String::new(),
        };
        assert(renderer.buffer@ =~= Seq::<char>::empty());
        renderer
    }

    /// Adds a piece and takes out the lines that are complete now, if there
    /// are any. Nothing is lost: what is taken out and what is kept are what
    /// was kept before and the piece.
    pub fn take_complete(&mut self, chunk: &str) -> (complete: Option<String>)
        ensures
            ({
                let all = old(self).pending() + chunk@;
                let end = lines_end(all) as int;
                &&& opt_text(complete) == (if end == 0 {
                    None
                } else {
                    Some(all.take(end))
                })
                &&& final(self).pending() == all.skip(end)
                &&& complete matches Some(text) ==> text@ + final(self).pending() == all
                &&& !final(self).pending().contains('\n')
            }),
            final(self).look() == old(self).look(),
    {
        self.buffer.append(chunk);
        let ghost all = self.buffer@;
        let chars: Vec<char> = chars_of(self.buffer.as_str());
        let mut end: usize = chars.len();
        assert(chars@.take(end as int) =~= chars@);
        while end > 0 && chars[end - 1] != '\n'
            invariant
                end <= chars.len(),
                chars@ == all,
                lines_end(all) == lines_end(chars@.take(end as int)),
            decreases end,
        {
            assert(chars@.take(end as int).drop_last() =~= chars@.take(end - 1));
            end -= 1;
        }
        proof {
            lemma_lines_end(all);
            assert(all.take(end as int) + all.skip(end as int) =~= all);
            assert(chars@.subrange(0, end as int) =~= all.take(end as int));
            assert(chars@.subrange(end as int, chars.len() as int) =~= all.skip(end as int));
        }
        if end == 0 {
            assert(all.skip(0) =~= all);
            None
        } else {
            self.buffer = text_between(&chars, end, chars.len());
            Some(text_between(&chars, 0, end))
        }
    }

    /// Takes out the line that is not complete, if there is one.
    pub fn take_rest(&mut self) -> (rest: Option<String>)
        ensures
            opt_text(rest) == (if old(self).pending().len() == 0 {
                None
            } else {
                Some(old(self).pending())
            }),
            final(self).pending() == Seq::<char>::empty(),
            final(self).look() == old(self).look(),
    {
        let text: String = self.buffer.clone();
        self.buffer = String::new();
        assert(self.buffer@ =~= Seq::<char>::empty());
        if text.as_str().is_empty() {
            None
        } else {
            Some(text)
        }
    }

    /// Whether a text can be laid out in the renderer's look on a terminal of
    /// so many columns.
    pub fn fits(&self, text: &str, columns: u16) -> (fits: bool)
        requires
            self.well_formed(),
        ensures
            fits == fits_columns(self.look(), text@, columns),
    {
        can_lay_out(&self.skin, text, columns)
    }

    /// Renders a text in the renderer's look for a terminal of so many columns.
    /// A text that cannot be laid out or rendered is shown as it is.
    pub fn render_at(&self, text: &str, columns: u16) -> (shown: String)
        requires
            self.well_formed(),
        ensures
            may_show_at(self.look(), text@, columns, shown@),
    {
        if self.fits(text, columns) {
            rendered_or_raw(text, render_with(&self.skin, text, columns))
        } else {
            text.to_owned()
        }
    }

    /// Renders a text in the renderer's look for the terminal.
    fn render_text(&self, text: &str) -> (shown: String)
        requires
            self.well_formed(),
        ensures
            may_show(self.look(), text@, shown@),
    {
        let columns: u16 = terminal_width();
        let shown: String = self.render_at(text, columns);
        assert(may_show_at(self.look(), text@, columns, shown@));
        shown
    }

    /// Adds a piece and renders the lines that are complete now, together.
    /// Without a complete line there is nothing to show.
    pub fn process_chunk(&mut self, chunk: &str) -> (shown: String)
        requires
            old(self).well_formed(),
        ensures
            ({
                let all = old(self).pending() + chunk@;
                let end = lines_end(all) as int;
                &&& final(self).pending() == all.skip(end)
                &&& if end == 0 {
                    shown@ == Seq::<char>::empty()
                } else {
                    may_show(old(self).look(), all.take(end), shown@)
                }
            }),
            final(self).look() == old(self).look(),
    {
        match self.take_complete(chunk) {
            Some(text) => self.render_text(text.as_str()),
            None => {
                let none: String = String::new();
                assert(none@ =~= Seq::<char>::empty());
                none
            },
        }
    }

    /// Renders the line that is not complete.
    pub fn flush(&mut self) -> (shown: String)
        requires
            old(self).well_formed(),
        ensures
            final(self).pending() == Seq::<char>::empty(),
            if old(self).pending().len() == 0 {
                shown@ == Seq::<char>::empty()
            } else {
                may_show(old(self).look(), old(self).pending(), shown@)
            },
            final(self).look() == old(self).look(),
    {
        match self.take_rest() {
            Some(text) => self.render_text(text.as_str()),
            None => {
                let none: String = String::new();
                assert(none@ =~= Seq::<char>::empty());
                none
            },
        }
    }
}

impl Default for MarkdownRenderer {
    fn default() -> (renderer: MarkdownRenderer)
        ensures
            renderer.pending() == Seq::<char>::empty(),
            renderer.well_formed(),
    {
        MarkdownRenderer::new()
    }
}

/// Of a text that comes in two pieces the same lines are complete in the end
/// as if it had come in one.
pub proof fn pieces_make_no_difference(one: Seq<char>, other: Seq<char>)
    ensures
        ({
            let first = lines_end(one) as int;
            let pending = one.skip(first) + other;
            let second = lines_end(pending) as int;
            let end = lines_end(one + other) as int;
            &&& one.take(first) + pending.take(second) == (one + other).take(end)
            &&& pending.skip(second) == (one + other).skip(end)
        }),
{
    let all = one + other;
    let first = lines_end(one) as int;
    let pending = one.skip(first) + other;
    let second = lines_end(pending) as int;
    let end = lines_end(all) as int;
    lemma_lines_end(one);
    lemma_lines_end(pending);
    lemma_lines_end(all);
    assert(all.skip(first) =~= pending);
    assert forall|i: int| 0 <= i < pending.len() implies pending[i] == all[first + i] by {}
    if first + second < end {
        assert(pending[end - 1 - first] == '\n');
    } else if end < first + second {
        if second > 0 {
            assert(all[first + second - 1] == '\n');
        } else {
            assert(all[first - 1] == '\n');
        }
    }
    assert(one.take(first) + pending.take(second) =~= all.take(end));
    assert(pending.skip(second) =~= all.skip(end));
}

/// The complete lines of a text are all of it up to its last line feed, that one
/// included, and none of it where it has none.
pub proof fn complete_lines_end_at_the_last_line_feed(before: Seq<char>, behind: Seq<char>)
    requires
        !behind.contains('\n'),
    ensures
        lines_end(before.push('\n') + behind) == before.len() + 1,
        lines_end(behind) == 0,
{
    let all = before.push('\n') + behind;
    lemma_lines_end(all);
    lemma_lines_end(behind);
    assert(all[before.len() as int] == '\n');
    let end = lines_end(all) as int;
    if end > before.len() + 1 {
        assert(behind[end - 1 - (before.len() + 1)] == '\n');
    }
    if lines_end(behind) > 0 {
        assert(behind[lines_end(behind) - 1] == '\n');
    }
}

} // verus!
