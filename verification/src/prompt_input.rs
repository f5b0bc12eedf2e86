//! The input line of the prompt: what can be chosen in it, and what its keys
//! come to.
//!
//! `oxink` edits the line and draws it. It is used behind the trusted
//! functions at the start.
use oxink::input::{
    InputAction, InputOption, InputTheme, KeyCode, KeyEvent, SlashInput, TerminalColor,
};
use vstd::prelude::*;

use crate::keys::{AppEvent, Key};
use crate::repl_completion::{command_views, CommandView, ReplCommandSpec};
use crate::screen::{cut_to, truncate_for_width};
use crate::text::{
    chars_of, copy_texts, joined, same_text, strip_leading, strip_line_ends, texts, trim, trim_end, trimmed,
    trimmed_end, without_leading, without_line_ends,
};
use crate::types::opt_text;

verus! {

// ---------------------------------------------------------------------------
// oxink
// ---------------------------------------------------------------------------
/// `oxink::input::SlashInput`: a line that is being edited, with the choices
/// that it offers.
#[verifier::external_type_specification]
#[verifier::external_body]
pub struct ExSlashInput(oxink::input::SlashInput);

/// `oxink::input::KeyEvent`: a key as `oxink` takes it.
#[verifier::external_type_specification]
#[verifier::external_body]
pub struct ExKeyEvent(oxink::input::KeyEvent);

/// Something that can be chosen: the command without its slash, and what is
/// shown beside it.
#[derive(Debug, PartialEq, Eq)]
pub struct InputChoice {
    pub command: String,
    pub description: String,
}

impl InputChoice {
    /// The command and the description.
    pub open spec fn view(&self) -> (Seq<char>, Seq<char>) {
        (self.command@, self.description@)
    }
}

/// The command and the description of each choice.
pub open spec fn choice_views(choices: Seq<InputChoice>) -> Seq<(Seq<char>, Seq<char>)> {
    Seq::new(choices.len(), |i: int| choices[i]@)
}

/// A command and a description as a choice: without the white space around
/// them, the command without slashes at its start.
pub open spec fn choice_of(command: Seq<char>, description: Seq<char>) -> (Seq<char>, Seq<char>) {
    (without_leading(trim(command), '/'), trim(description))
}

/// `oxink::input::InputOption::new`: the command loses the white space around
/// it and then the slashes at its start, the description the white space
/// around it.
#[verifier::external_body]
pub(crate) fn input_choice(command: &str, description: &str) -> (choice: InputChoice)
    ensures
        choice@ == choice_of(command@, description@),
{
    let option = InputOption::new(command, description);
    InputChoice { command: option.command, description: option.description }
}

/// What a key came to in the line that is being edited, over a type of text.
pub enum KeyReply<T> {
    Nothing,
    /// The line is to be copied.
    Copy(T),
    /// The clipboard is to be inserted.
    Paste,
    /// The choice was taken over into the line.
    Suggested(T),
    /// The line was entered.
    Submitted(T),
}

impl KeyReply<String> {
    /// The reply with its characters.
    pub open spec fn view(&self) -> KeyReply<Seq<char>> {
        match self {
            KeyReply::Nothing => KeyReply::Nothing,
            KeyReply::Copy(text) => KeyReply::Copy(text@),
            KeyReply::Paste => KeyReply::Paste,
            KeyReply::Suggested(text) => KeyReply::Suggested(text@),
            KeyReply::Submitted(text) => KeyReply::Submitted(text@),
        }
    }
}

/// The empty line that `SlashInput::new` makes for some choices.
pub uninterp spec fn bare_input(choices: Seq<(Seq<char>, Seq<char>)>) -> SlashInput;

/// A line that `SlashInput::with_header_lines` puts below some lines.
pub uninterp spec fn headed(input: SlashInput, headers: Seq<Seq<char>>) -> SlashInput;

/// A line that `SlashInput::with_theme` draws in the colours of border, text
/// and background.
pub uninterp spec fn themed(input: SlashInput, colours: (u8, u8, u8)) -> SlashInput;

/// The event that `KeyEvent::plain` makes of a key.
pub uninterp spec fn plain_event(key: Key) -> KeyEvent;

/// The event that `KeyEvent::ctrl` makes of a character.
pub uninterp spec fn ctrl_event(ch: char) -> KeyEvent;

/// The empty line for some choices, below some lines and in some colours.
pub open spec fn empty_input(
    choices: Seq<(Seq<char>, Seq<char>)>,
    headers: Seq<Seq<char>>,
    colours: (u8, u8, u8),
) -> SlashInput {
    themed(headed(bare_input(choices), headers), colours)
}

/// The event of a key.
pub open spec fn event_of(key: Key) -> KeyEvent {
    match key {
        Key::Ctrl(ch) => ctrl_event(ch),
        _ => plain_event(key),
    }
}

/// What `SlashInput::handle_paste` makes of a line.
pub uninterp spec fn pasted(
    input: SlashInput,
    text: Seq<char>,
) -> SlashInput;

/// What `SlashInput::handle_key` makes of a line, and what it replies.
pub uninterp spec fn pressed(
    input: SlashInput,
    event: KeyEvent,
) -> (SlashInput, KeyReply<Seq<char>>);

/// Whether `SlashInput::is_dropdown_visible` says that choices are shown.
pub uninterp spec fn choices_shown(input: SlashInput) -> bool;

/// What `SlashInput::render_with_terminal_width` draws: the lines, and the row
/// and column of the cursor.
pub uninterp spec fn drawn(
    input: SlashInput,
    columns: usize,
) -> (Seq<Seq<char>>, usize, usize);

/// `SlashInput::new`: an empty line with the choices.
#[verifier::external_body]
fn new_input(choices: &Vec<InputChoice>) -> (input: SlashInput)
    ensures
        input == bare_input(choice_views(choices@)),
{
    SlashInput::new(choices.iter().map(|choice| InputOption {
        command: choice.command.clone(),
        description: choice.description.clone(),
    }))
}

/// `SlashInput::with_header_lines`: the line below other lines.
#[verifier::external_body]
fn with_headers(input: SlashInput, headers: &Vec<String>) -> (made: SlashInput)
    ensures
        made == headed(input, texts(headers@)),
{
    input.with_header_lines(headers.iter().cloned())
}

/// `SlashInput::with_theme`: the line in the colours of border, text and
/// background, numbers of the 256 colours of a terminal.
#[verifier::external_body]
fn with_colours(input: SlashInput, colours: (u8, u8, u8)) -> (made: SlashInput)
    ensures
        made == themed(input, colours),
{
    input.with_theme(InputTheme::new()
        .with_border_color(TerminalColor::Ansi256(colours.0))
        .with_text_color(TerminalColor::Ansi256(colours.1))
        .with_background_color(TerminalColor::Ansi256(colours.2)))
}

/// `KeyEvent::plain`: the event of a key that is pressed alone.
#[verifier::external_body]
fn plain_key(key: Key) -> (event: KeyEvent)
    ensures
        event == plain_event(key),
{
    KeyEvent::plain(match key {
        Key::Backspace => KeyCode::Backspace, Key::Delete => KeyCode::Delete,
        Key::Enter => KeyCode::Enter, Key::Esc => KeyCode::Esc,
        Key::Home => KeyCode::Home, Key::End => KeyCode::End,
        Key::Left => KeyCode::Left, Key::Right => KeyCode::Right,
        Key::Up => KeyCode::Up, Key::Down => KeyCode::Down,
        Key::Tab => KeyCode::Tab, Key::Char(ch) | Key::Ctrl(ch) => KeyCode::Char(ch),
    })
}

/// `KeyEvent::ctrl`: the event of a character that is typed with the control
/// key.
#[verifier::external_body]
fn ctrl_key(ch: char) -> (event: KeyEvent)
    ensures
        event == ctrl_event(ch),
{
    KeyEvent::ctrl(KeyCode::Char(ch))
}

/// The event of a key.
fn key_event(key: Key) -> (event: KeyEvent)
    ensures
        event == event_of(key),
{
    match key {
        Key::Ctrl(ch) => ctrl_key(ch),
        _ => plain_key(key),
    }
}

/// `SlashInput::handle_paste`: inserts a text at the cursor.
#[verifier::external_body]
fn paste(input: &mut SlashInput, text: &str)
    ensures
        *final(input) == pasted(*old(input), text@),
{
    input.handle_paste(text)
}

/// `SlashInput::handle_key`: changes the line as the key says and tells what
/// it came to.
#[verifier::external_body]
fn press(input: &mut SlashInput, event: KeyEvent) -> (reply: KeyReply<String>)
    ensures
        (*final(input), reply@) == pressed(*old(input), event),
{
    match input.handle_key(event) {
        InputAction::None => KeyReply::Nothing,
        InputAction::CopyRequested(text) => KeyReply::Copy(text),
        InputAction::PasteRequested => KeyReply::Paste,
        InputAction::SuggestionApplied(text) => KeyReply::Suggested(text),
        InputAction::Submitted(text) => KeyReply::Submitted(text),
    }
}

/// `SlashInput::is_dropdown_visible`: whether choices are shown.
#[verifier::external_body]
fn shows_choices(input: &SlashInput) -> (shown: bool)
    ensures
        shown == choices_shown(*input),
{
    input.is_dropdown_visible()
}

/// The lines to be drawn, and the row and column of the cursor in them.
#[derive(Debug)]
pub struct Drawing {
    pub lines: Vec<String>,
    pub cursor_row: usize,
    pub cursor_column: usize,
}

impl Drawing {
    /// The lines, the row and the column.
    pub open spec fn view(&self) -> (Seq<Seq<char>>, usize, usize) {
        (texts(self.lines@), self.cursor_row, self.cursor_column)
    }
}

/// `SlashInput::render_with_terminal_width`: the lines to be drawn. It makes
/// texts as wide as the terminal, so the width has to leave room for them in
/// memory.
#[verifier::external_body]
fn draw(input: &SlashInput, columns: usize) -> (drawing: Drawing)
    requires
        columns <= MOST_COLUMNS,
    ensures
        drawing@ == drawn(*input, columns),
{
    let view = input.render_with_terminal_width(columns);
    Drawing {
        lines: view.lines,
        cursor_row: view.cursor_row,
        cursor_column: view.cursor_column,
    }
}

/// The widest terminal that lines are drawn for.
pub const MOST_COLUMNS: usize = 0x3fff_ffff;

// ---------------------------------------------------------------------------
// Choices
// ---------------------------------------------------------------------------
/// The choice of a command: its usage stands before its summary where it takes
/// arguments.
pub open spec fn command_choice(command: CommandView) -> (Seq<char>, Seq<char>) {
    choice_of(
        command.name,
        if command.takes_args {
            command.usage + "  "@ + command.summary
        } else {
            command.summary
        },
    )
}

/// The choices of the main input: the commands.
pub fn command_choices(commands: &Vec<ReplCommandSpec>) -> (choices: Vec<InputChoice>)
    ensures
        choice_views(choices@) == Seq::new(
            commands@.len(),
            |i: int| command_choice(command_views(commands@)[i]),
        ),
{
    let mut choices: Vec<InputChoice> = Vec::new();
    let mut i: usize = 0;
    while i < commands.len()
        invariant
            i <= commands.len(),
            choices.len() == i,
            forall|k: int|
                0 <= k < i ==> (#[trigger] choices@[k]).view() == command_choice(commands@[k]@),
        decreases commands.len() - i,
    {
        let command: &ReplCommandSpec = &commands[i];
        let description: String = if command.takes_args {
            let mut text: String = joined(command.usage.as_str(), "  ");
            text.append(command.summary.as_str());
            text
        } else {
            command.summary.clone()
        };
        choices.push(input_choice(command.name.as_str(), description.as_str()));
        i += 1;
    }
    assert(choice_views(choices@) =~= Seq::new(
        commands@.len(),
        |i: int| command_choice(command_views(commands@)[i]),
    ));
    choices
}

/// What a command that was picked puts into the line: its name, and a space
/// behind it where it takes arguments.
pub open spec fn completed(command: CommandView) -> Seq<char> {
    command.name + if command.takes_args {
        " "@
    } else {
        Seq::empty()
    }
}

/// Whether the command at `place` is the first of those that are chosen so.
pub open spec fn is_picked(commands: Seq<CommandView>, chosen: Seq<char>, place: int) -> bool {
    &&& 0 <= place < commands.len()
    &&& command_choice(commands[place]).0 == chosen
    &&& forall|k: int| 0 <= k < place ==> command_choice(#[trigger] commands[k]).0 != chosen
}

/// What is put into the line for what was chosen in the menu of commands:
/// nothing where the menu was left or there is no such command. The command
/// is not carried out.
pub fn picked_line(commands: &Vec<ReplCommandSpec>, chosen: Option<&str>) -> (line: Option<String>)
    ensures
        match chosen {
            Some(chosen) => match line {
                Some(line) => exists|place: int| #[trigger]
                    is_picked(command_views(commands@), chosen@, place) && line@ == completed(
                        command_views(commands@)[place],
                    ),
                None => forall|k: int|
                    0 <= k < commands.len() ==> command_choice(
                        #[trigger] command_views(commands@)[k],
                    ).0 != chosen@,
            },
            None => line is None,
        },
{
    let wanted: &str = match chosen {
        Some(wanted) => wanted,
        None => {
            return None;
        },
    };
    let ghost views = command_views(commands@);
    let mut i: usize = 0;
    while i < commands.len()
        invariant
            i <= commands.len(),
            views == command_views(commands@),
            chosen == Some(wanted),
            forall|k: int| 0 <= k < i ==> command_choice(#[trigger] views[k]).0 != wanted@,
        decreases commands.len() - i,
    {
        let command: &ReplCommandSpec = &commands[i];
        assert(views[i as int] == command@);
        let choice: &str = strip_leading(trimmed(command.name.as_str()), '/');
        if same_text(choice, wanted) {
            let mut line: String = command.name.clone();
            if command.takes_args {
                line.append(" ");
            }
            proof {
                assert(line@ =~= completed(views[i as int]));
                assert(is_picked(command_views(commands@), chosen->0@, i as int));
            }
            return Some(line);
        }
        i += 1;
    }
    None
}

/// The length of the longest command.
pub open spec fn longest_command(choices: Seq<(Seq<char>, Seq<char>)>) -> nat
    decreases choices.len(),
{
    if choices.len() == 0 {
        0
    } else {
        let longest = longest_command(choices.drop_last());
        let length = choices.last().0.len();
        if length > longest {
            length
        } else {
            longest
        }
    }
}

/// The columns that are left for descriptions beside the commands.
pub open spec fn description_room(choices: Seq<(Seq<char>, Seq<char>)>, columns: nat) -> nat {
    let taken = longest_command(choices) + 5;
    if columns > taken {
        (columns - taken) as nat
    } else {
        0
    }
}

/// The choices with descriptions that fit beside the longest command.
pub open spec fn fitted(choices: Seq<(Seq<char>, Seq<char>)>, columns: nat) -> Seq<
    (Seq<char>, Seq<char>),
> {
    Seq::new(
        choices.len(),
        |i: int|
            choice_of(choices[i].0, cut_to(choices[i].1, description_room(choices, columns))),
    )
}

/// Cuts the descriptions so that they fit beside the longest command.
pub fn fit_options_to_terminal(options: &Vec<InputChoice>, terminal_columns: usize) -> (choices:
    Vec<InputChoice>)
    ensures
        choice_views(choices@) == fitted(choice_views(options@), terminal_columns as nat),
{
    let ghost all = choice_views(options@);
    let mut longest: usize = 0;
    let mut i: usize = 0;
    while i < options.len()
        invariant
            i <= options.len(),
            all == choice_views(options@),
            longest == longest_command(all.take(i as int)),
        decreases options.len() - i,
    {
        let length: usize = chars_of(options[i].command.as_str()).len();
        if length > longest {
            longest = length;
        }
        i += 1;
        proof {
            assert(all.take(i as int).drop_last() =~= all.take(i - 1));
            assert(all.take(i as int).last() == options@[i - 1]@);
        }
    }
    assert(all.take(i as int) =~= all);
    let room: usize = if terminal_columns >= longest && terminal_columns - longest > 5 {
        terminal_columns - longest - 5
    } else {
        0
    };
    let mut choices: Vec<InputChoice> = Vec::new();
    let mut k: usize = 0;
    while k < options.len()
        invariant
            k <= options.len(),
            all == choice_views(options@),
            room == description_room(all, terminal_columns as nat),
            choices.len() == k,
            forall|x: int|
                0 <= x < k ==> (#[trigger] choices@[x]).view() == choice_of(
                    all[x].0,
                    cut_to(all[x].1, room as nat),
                ),
        decreases options.len() - k,
    {
        let description: String = truncate_for_width(options[k].description.as_str(), room);
        choices.push(input_choice(options[k].command.as_str(), description.as_str()));
        k += 1;
    }
    assert(choice_views(choices@) =~= fitted(all, terminal_columns as nat));
    choices
}

/// A chosen value: without the white space around it and the slashes before
/// it.
pub open spec fn selection_of(value: Seq<char>) -> Seq<char> {
    trim_end(without_leading(trim(value), '/'))
}

/// A chosen value, as it is meant.
pub fn trim_selection_value(value: &str) -> (selection: String)
    ensures
        selection@ == selection_of(value@),
{
    trimmed_end(strip_leading(trimmed(value), '/')).to_owned()
}

// ---------------------------------------------------------------------------
// The clipboard
// ---------------------------------------------------------------------------
/// The programs that may give the contents of the clipboard, with their
/// arguments, in the order in which they are tried.
pub open spec fn clipboard_programs() -> Seq<(Seq<char>, Seq<Seq<char>>)> {
    seq![
        ("pbpaste"@, Seq::empty()),
        ("wl-paste"@, seq!["-n"@]),
        ("xclip"@, seq!["-o"@, "-selection"@, "clipboard"@]),
    ]
}

/// The programs and arguments of a list.
pub open spec fn program_views(list: Seq<(String, Vec<String>)>) -> Seq<
    (Seq<char>, Seq<Seq<char>>),
> {
    Seq::new(list.len(), |i: int| (list[i].0@, texts(list[i].1@)))
}

/// The programs that may give the contents of the clipboard.
pub fn clipboard_command_candidates() -> (list: Vec<(String, Vec<String>)>)
    ensures
        program_views(list@) == clipboard_programs(),
{
    let none: Vec<String> = Vec::new();
    let mut newline: Vec<String> = Vec::new();
    newline.push("-n".to_owned());
    let mut selection: Vec<String> = Vec::new();
    selection.push("-o".to_owned());
    selection.push("-selection".to_owned());
    selection.push("clipboard".to_owned());
    assert(texts(none@) =~= Seq::<Seq<char>>::empty());
    assert(texts(newline@) =~= seq!["-n"@]);
    assert(texts(selection@) =~= seq!["-o"@, "-selection"@, "clipboard"@]);
    let mut list: Vec<(String, Vec<String>)> = Vec::new();
    list.push(("pbpaste".to_owned(), none));
    list.push(("wl-paste".to_owned(), newline));
    list.push(("xclip".to_owned(), selection));
    assert(program_views(list@) =~= clipboard_programs());
    list
}

/// The text to insert from what a clipboard program wrote: without the ends of
/// lines behind it, and nothing where nothing is left.
pub fn clipboard_text(output: &str) -> (text: Option<String>)
    ensures
        opt_text(text) == (if without_line_ends(output@).len() == 0 {
            None
        } else {
            Some(without_line_ends(output@))
        }),
{
    let text: &str = strip_line_ends(output);
    if text.is_empty() {
        None
    } else {
        Some(text.to_owned())
    }
}

// ---------------------------------------------------------------------------
// A session at the input line
// ---------------------------------------------------------------------------
/// How a session at the input line ends, over a type of text.
pub enum PromptSignal<T> {
    Submitted(T),
    Interrupted,
    Eof,
}

/// What a choice that is taken over does.
#[derive(Debug, Clone, Copy, PartialEq, Eq, Structural)]
pub enum SuggestionBehavior {
    /// The line can be edited further.
    KeepEditing,
    /// It ends the session.
    ReturnImmediately,
}

/// What is to be done next in a session, over a type of text.
pub enum SessionStep<T> {
    /// Draw the line again.
    Redraw,
    /// Read the clipboard, hand it over and draw the line again.
    ReadClipboard,
    /// The session ends.
    Done(PromptSignal<T>),
}

/// The characters of a step.
pub open spec fn step_view(step: SessionStep<String>) -> SessionStep<Seq<char>> {
    match step {
        SessionStep::Redraw => SessionStep::Redraw,
        SessionStep::ReadClipboard => SessionStep::ReadClipboard,
        SessionStep::Done(PromptSignal::Submitted(text)) => SessionStep::Done(
            PromptSignal::Submitted(text@),
        ),
        SessionStep::Done(PromptSignal::Interrupted) => SessionStep::Done(
            PromptSignal::Interrupted,
        ),
        SessionStep::Done(PromptSignal::Eof) => SessionStep::Done(PromptSignal::Eof),
    }
}

/// Where a session stands.
pub struct SessionView {
    pub input: SlashInput,
    pub footer: Seq<Seq<char>>,
    pub columns: usize,
    pub behavior: SuggestionBehavior,
}

/// The line at the start of a session: it holds the initial text, where there
/// is one.
pub open spec fn first_input(
    choices: Seq<(Seq<char>, Seq<char>)>,
    headers: Seq<Seq<char>>,
    initial: Option<Seq<char>>,
    columns: nat,
) -> SlashInput {
    let empty = empty_input(fitted(choices, columns), headers, (240, 255, 236));
    match initial {
        Some(text) => if text.len() == 0 {
            empty
        } else {
            pasted(empty, text)
        },
        None => empty,
    }
}

/// The line and what is to be done after an event.
pub open spec fn after_event(state: SessionView, event: AppEvent) -> (
    SlashInput,
    SessionStep<Seq<char>>,
) {
    match event {
        AppEvent::Interrupted => (state.input, SessionStep::Done(PromptSignal::Interrupted)),
        AppEvent::Eof => (state.input, SessionStep::Done(PromptSignal::Eof)),
        AppEvent::Key(key) => {
            let (input, reply) = pressed(state.input, event_of(key));
            (
                input,
                match reply {
                    KeyReply::Nothing | KeyReply::Copy(_) => SessionStep::Redraw,
                    KeyReply::Paste => SessionStep::ReadClipboard,
                    KeyReply::Suggested(text) => if state.behavior
                        == SuggestionBehavior::ReturnImmediately {
                        SessionStep::Done(PromptSignal::Submitted(text))
                    } else {
                        SessionStep::Redraw
                    },
                    KeyReply::Submitted(text) => SessionStep::Done(PromptSignal::Submitted(text)),
                },
            )
        },
    }
}

/// What is drawn: the line, and the lines below it unless choices are shown
/// there.
pub open spec fn frame_of(state: SessionView) -> (Seq<Seq<char>>, usize, usize) {
    let drawing = drawn(state.input, state.columns);
    if choices_shown(state.input) {
        drawing
    } else {
        (drawing.0 + state.footer, drawing.1, drawing.2)
    }
}

/// A session at the input line.
pub struct InputSession {
    input: SlashInput,
    footer: Vec<String>,
    columns: usize,
    behavior: SuggestionBehavior,
}

impl InputSession {
    /// Where the session stands.
    pub closed spec fn view(&self) -> SessionView {
        SessionView {
            input: self.input,
            footer: texts(self.footer@),
            columns: self.columns,
            behavior: self.behavior,
        }
    }

    /// Starts a session on a terminal of `columns` columns.
    pub fn new(
        header_lines: &Vec<String>,
        footer_lines: &Vec<String>,
        initial: Option<&str>,
        options: &Vec<InputChoice>,
        behavior: SuggestionBehavior,
        columns: usize,
    ) -> (session: InputSession)
        ensures
            session@ == (SessionView {
                input: first_input(
                    choice_views(options@),
                    texts(header_lines@),
                    crate::json::opt_view(initial),
                    columns as nat,
                ),
                footer: texts(footer_lines@),
                columns,
                behavior,
            }),
    {
        let choices: Vec<InputChoice> = fit_options_to_terminal(options, columns);
        let bare: SlashInput = with_headers(new_input(&choices), header_lines);
        let mut input: SlashInput = with_colours(bare, (240, 255, 236));
        if let Some(text) = initial {
            if !text.is_empty() {
                paste(&mut input, text);
            }
        }
        InputSession { input, footer: copy_texts(footer_lines), columns, behavior }
    }

    /// Takes what the user does and says what is to be done next.
    pub fn on_event(&mut self, event: AppEvent) -> (step: SessionStep<String>)
        ensures
            final(self)@ == (SessionView { input: after_event(old(self)@, event).0, ..old(self)@ }),
            step_view(step) == after_event(old(self)@, event).1,
    {
        match event {
            AppEvent::Interrupted => SessionStep::Done(PromptSignal::Interrupted),
            AppEvent::Eof => SessionStep::Done(PromptSignal::Eof),
            AppEvent::Key(key) => match press(&mut self.input, key_event(key)) {
                KeyReply::Nothing => SessionStep::Redraw,
                KeyReply::Copy(_) => SessionStep::Redraw,
                KeyReply::Paste => SessionStep::ReadClipboard,
                KeyReply::Suggested(text) => {
                    if self.behavior == SuggestionBehavior::ReturnImmediately {
                        SessionStep::Done(PromptSignal::Submitted(text))
                    } else {
                        SessionStep::Redraw
                    }
                },
                KeyReply::Submitted(text) => SessionStep::Done(PromptSignal::Submitted(text)),
            },
        }
    }

    /// Takes the contents of the clipboard, where there are any.
    pub fn on_clipboard(&mut self, text: Option<&str>)
        ensures
            final(self)@ == (SessionView {
                input: match text {
                    Some(text) => pasted(old(self)@.input, text@),
                    None => old(self)@.input,
                },
                ..old(self)@
            }),
    {
        if let Some(text) = text {
            paste(&mut self.input, text);
        }
    }

    /// What is to be drawn.
    pub fn render_input_frame(&self) -> (drawing: Drawing)
        requires
            self@.columns <= MOST_COLUMNS,
        ensures
            drawing@ == frame_of(self@),
    {
        let mut drawing: Drawing = draw(&self.input, self.columns);
        if !shows_choices(&self.input) {
            let ghost before = texts(drawing.lines@);
            let mut footer: Vec<String> = copy_texts(&self.footer);
            let ghost added = texts(footer@);
            drawing.lines.append(&mut footer);
            assert(texts(drawing.lines@) =~= before + added);
        }
        drawing
    }
}

/// What was chosen in a session that ended: nothing where it was broken off.
pub fn select_option(signal: PromptSignal<String>) -> (selection: Option<String>)
    ensures
        match signal {
            PromptSignal::Submitted(value) => opt_text(selection) == Some(selection_of(value@)),
            _ => selection is None,
        },
{
    match signal {
        PromptSignal::Submitted(value) => Some(trim_selection_value(value.as_str())),
        _ => None,
    }
}

/// What was typed in a session that ended: nothing where it was broken off.
pub fn read_line_with_initial(signal: PromptSignal<String>) -> (line: String)
    ensures
        match signal {
            PromptSignal::Submitted(value) => line@ == value@,
            _ => line@ == Seq::<char>::empty(),
        },
{
    match signal {
        PromptSignal::Submitted(value) => value,
        _ => {
            let none: String = String::new();
            assert(none@ =~= Seq::<char>::empty());
            none
        },
    }
}

} // verus!
