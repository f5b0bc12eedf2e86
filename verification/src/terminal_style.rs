//! Colours and weights for terminal text.
use vstd::prelude::*;

use crate::number::{decimal, decimal_text};

verus! {

/// The styles that text can be shown in.
#[derive(Debug, Clone, Copy, PartialEq, Eq, Structural)]
pub enum Style {
    Bold,
    Blue,
    Cyan,
    Dimmed,
    Green,
    Red,
    White,
    Yellow,
}

impl Style {
    /// The code that turns the style on.
    pub open spec fn open_code(self) -> nat {
        match self {
            Style::Bold => 1,
            Style::Dimmed => 2,
            Style::Red => 31,
            Style::Green => 32,
            Style::Yellow => 33,
            Style::Blue => 34,
            Style::Cyan => 36,
            Style::White => 37,
        }
    }

    /// The code that turns the style off again.
    pub open spec fn close_code(self) -> nat {
        match self {
            Style::Bold | Style::Dimmed => 22,
            _ => 39,
        }
    }
}

/// The escape sequence of a style code.
pub open spec fn escape(code: nat) -> Seq<char> {
    seq!['\u{1b}', '['] + decimal(code) + seq!['m']
}

/// `text` in a style: the style is turned on before it and off behind it.
pub open spec fn styled(style: Style, text: Seq<char>) -> Seq<char> {
    escape(style.open_code()) + text + escape(style.close_code())
}

/// The two codes of `oxink`'s constant for the style (`BOLD`, `BLUE`, `CYAN`,
/// `DIM`, `GREEN`, `RED`, `WHITE`, `YELLOW`): the one that turns it on and the
/// one that turns it off.
#[verifier::external_body]
fn style_codes(style: Style) -> (codes: (u8, u8))
    ensures
        codes.0 == style.open_code(),
        codes.1 == style.close_code(),
{
    let code = match style {
        Style::Bold => oxink::styles::BOLD,
        Style::Blue => oxink::styles::BLUE,
        Style::Cyan => oxink::styles::CYAN,
        Style::Dimmed => oxink::styles::DIM,
        Style::Green => oxink::styles::GREEN,
        Style::Red => oxink::styles::RED,
        Style::White => oxink::styles::WHITE,
        Style::Yellow => oxink::styles::YELLOW,
    };
    (code.open, code.close)
}

/// The escape sequence of a style code.
fn escape_text(code: u8) -> (text: String)
    ensures
        text@ == escape(code as nat),
{
    let mut text: String = String::new();
    text.push('\u{1b}');
    text.push('[');
    text.append(decimal_text(code as u64).as_str());
    text.push('m');
    assert(text@ =~= escape(code as nat));
    text
}

/// Text that can be shown in a style.
pub trait StyleExt {
    /// The text as the terminal gets it.
    spec fn shown(&self) -> Seq<char>;

    /// The text as the terminal gets it.
    fn to_text(&self) -> (text: String)
        ensures
            text@ == self.shown(),
    ;

    /// The text in the given style.
    fn with_style(&self, style: Style) -> (text: Styled)
        ensures
            text@ == styled(style, self.shown()),
    {
        Styled { value: self.to_text(), style }
    }

    fn bold(&self) -> (text: Styled)
        ensures
            text@ == styled(Style::Bold, self.shown()),
    {
        self.with_style(Style::Bold)
    }

    fn blue(&self) -> (text: Styled)
        ensures
            text@ == styled(Style::Blue, self.shown()),
    {
        self.with_style(Style::Blue)
    }

    fn cyan(&self) -> (text: Styled)
        ensures
            text@ == styled(Style::Cyan, self.shown()),
    {
        self.with_style(Style::Cyan)
    }

    fn dimmed(&self) -> (text: Styled)
        ensures
            text@ == styled(Style::Dimmed, self.shown()),
    {
        self.with_style(Style::Dimmed)
    }

    fn green(&self) -> (text: Styled)
        ensures
            text@ == styled(Style::Green, self.shown()),
    {
        self.with_style(Style::Green)
    }

    fn red(&self) -> (text: Styled)
        ensures
            text@ == styled(Style::Red, self.shown()),
    {
        self.with_style(Style::Red)
    }

    fn white(&self) -> (text: Styled)
        ensures
            text@ == styled(Style::White, self.shown()),
    {
        self.with_style(Style::White)
    }

    fn yellow(&self) -> (text: Styled)
        ensures
            text@ == styled(Style::Yellow, self.shown()),
    {
        self.with_style(Style::Yellow)
    }
}

/// A text with the style that it is shown in.
pub struct Styled {
    value: String,
    style: Style,
}

impl Styled {
    /// The text as the terminal gets it.
    pub closed spec fn view(&self) -> Seq<char> {
        styled(self.style, self.value@)
    }
}

impl StyleExt for Styled {
    open spec fn shown(&self) -> Seq<char> {
        self@
    }

    fn to_text(&self) -> (text: String) {
        let codes: (u8, u8) = style_codes(self.style);
        let mut text: String = escape_text(codes.0);
        text.append(self.value.as_str());
        text.append(escape_text(codes.1).as_str());
        text
    }
}

impl StyleExt for str {
    open spec fn shown(&self) -> Seq<char> {
        self@
    }

    fn to_text(&self) -> (text: String) {
        self.to_owned()
    }
}

impl StyleExt for String {
    open spec fn shown(&self) -> Seq<char> {
        self@
    }

    fn to_text(&self) -> (text: String) {
        self.clone()
    }
}

} // verus!
