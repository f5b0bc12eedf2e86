use localcoder::keys::{utf8_width, AppEvent, Key, KeyError, KeyReader, KeyStep};
use localcoder::prompt_input::{
    clipboard_command_candidates, clipboard_text, command_choices, fit_options_to_terminal,
    read_line_with_initial, select_option, trim_selection_value, InputChoice, InputSession,
    PromptSignal, SessionStep, SuggestionBehavior,
};
use localcoder::repl_commands::config_options;
use localcoder::repl_completion::builtin_commands;

fn choice(command: &str, description: &str) -> InputChoice {
    InputChoice {
        command: command.to_string(),
        description: description.to_string(),
    }
}

fn feed(bytes: &[u8]) -> KeyStep {
    let mut reader = KeyReader::new();
    let mut step = KeyStep::More;
    for byte in bytes {
        assert_eq!(step, KeyStep::More);
        step = reader.read_event(Some(*byte));
    }
    if step == KeyStep::More {
        step = reader.read_event(None);
    }
    step
}

fn key(key: Key) -> KeyStep {
    KeyStep::Event(AppEvent::Key(key))
}

#[test]
fn fit_options_to_terminal_truncates_long_descriptions() {
    let options = vec![choice(
        "commit",
        "/commit [title]  Generate and run git commit",
    )];
    let fitted = fit_options_to_terminal(&options, 30);
    assert_eq!(fitted[0].command, "commit");
    assert_eq!(fitted[0].description, "/commit [title]...");
}

#[test]
fn narrow_terminals_get_no_descriptions() {
    let options = vec![choice("commit", "long"), choice("a", "b")];
    let fitted = fit_options_to_terminal(&options, 11);
    assert_eq!(fitted[0].description, "");
    assert_eq!(fitted[1].description, "");
    assert!(fit_options_to_terminal(&vec![], 80).is_empty());
}

#[test]
fn control_bytes_are_keys() {
    assert_eq!(feed(&[0x04]), KeyStep::Event(AppEvent::Eof));
    assert_eq!(feed(&[0x03]), KeyStep::Event(AppEvent::Interrupted));
    assert_eq!(feed(&[0x16]), key(Key::Ctrl('v')));
    assert_eq!(feed(b"\r"), key(Key::Enter));
    assert_eq!(feed(b"\n"), key(Key::Enter));
    assert_eq!(feed(b"\t"), key(Key::Tab));
    assert_eq!(feed(&[0x7f]), key(Key::Backspace));
    assert_eq!(feed(&[0x08]), key(Key::Backspace));
    assert_eq!(feed(&[0x01]), KeyStep::Nothing);
    assert_eq!(feed(&[]), KeyStep::Nothing);
    assert_eq!(feed(b"a"), key(Key::Char('a')));
}

#[test]
fn escape_sequences_are_keys() {
    assert_eq!(feed(b"\x1b"), key(Key::Esc));
    assert_eq!(feed(b"\x1bx"), key(Key::Esc));
    assert_eq!(feed(b"\x1b[A"), key(Key::Up));
    assert_eq!(feed(b"\x1b[B"), key(Key::Down));
    assert_eq!(feed(b"\x1b[C"), key(Key::Right));
    assert_eq!(feed(b"\x1b[D"), key(Key::Left));
    assert_eq!(feed(b"\x1b[H"), key(Key::Home));
    assert_eq!(feed(b"\x1b[F"), key(Key::End));
    assert_eq!(feed(b"\x1b[1~"), key(Key::Home));
    assert_eq!(feed(b"\x1b[3~"), key(Key::Delete));
    assert_eq!(feed(b"\x1b[4~"), key(Key::End));
    assert_eq!(feed(b"\x1b[7~"), key(Key::Home));
    assert_eq!(feed(b"\x1b[8~"), key(Key::End));
    assert_eq!(feed(b"\x1b[3x"), key(Key::Esc));
    assert_eq!(feed(b"\x1b[3"), key(Key::Esc));
    assert_eq!(feed(b"\x1b[Z"), key(Key::Esc));
    assert_eq!(feed(b"\x1bOH"), key(Key::Home));
    assert_eq!(feed(b"\x1bOF"), key(Key::End));
    assert_eq!(feed(b"\x1bOP"), key(Key::Esc));
}

#[test]
fn typed_characters_are_read() {
    for ch in ['é', '世', '🤖', '\u{80}', '\u{7ff}', '\u{800}', '\u{ffff}', '\u{10ffff}'] {
        let text = ch.to_string();
        assert_eq!(feed(text.as_bytes()), key(Key::Char(ch)));
    }
}

#[test]
fn broken_characters_fail() {
    assert_eq!(feed(&[0x80]), KeyStep::Fail(KeyError::LeadByte));
    assert_eq!(feed(&[0xc3]), KeyStep::Fail(KeyError::UnexpectedEnd));
    assert_eq!(feed(&[0xc3, 0x28]), KeyStep::Fail(KeyError::Malformed));
    assert_eq!(feed(&[0xed, 0xa0, 0x80]), KeyStep::Fail(KeyError::Malformed));
    assert_eq!(feed(&[0xf4, 0x90, 0x80, 0x80]), KeyStep::Fail(KeyError::Malformed));
    assert_eq!(utf8_width(0xc1), None);
    assert_eq!(utf8_width(0xf5), None);
    assert_eq!(utf8_width(0x41), Some(1));
    assert_eq!(utf8_width(0xf4), Some(4));
}

#[test]
fn selections_lose_slash_and_space() {
    assert_eq!(trim_selection_value(" /theme "), "theme");
    assert_eq!(trim_selection_value("//x /"), "x /");
    assert_eq!(
        select_option(PromptSignal::Submitted("/on ".to_string())),
        Some("on".to_string())
    );
    assert_eq!(select_option(PromptSignal::Interrupted), None);
    assert_eq!(
        read_line_with_initial(PromptSignal::Submitted(" x ".to_string())),
        " x "
    );
    assert_eq!(read_line_with_initial(PromptSignal::Eof), "");
}

#[test]
fn commands_become_choices() {
    let choices = command_choices(&builtin_commands());
    assert_eq!(choices[0], choice("clear", "Clear conversation history"));
    assert_eq!(
        choices[1],
        choice("commit", "/commit [title]  Generate and run git commit")
    );
}

#[test]
fn clipboard_is_tried_and_trimmed() {
    let programs = clipboard_command_candidates();
    assert_eq!(programs[0], ("pbpaste".to_string(), vec![]));
    assert_eq!(programs[2].0, "xclip");
    assert_eq!(programs[2].1, vec!["-o", "-selection", "clipboard"]);
    assert_eq!(clipboard_text("a\r\n\n"), Some("a".to_string()));
    assert_eq!(clipboard_text("\n"), None);
}

fn session(
    initial: Option<&str>,
    options: &Vec<InputChoice>,
    behavior: SuggestionBehavior,
) -> InputSession {
    InputSession::new(
        &vec!["Title".to_string()],
        &vec!["footer".to_string()],
        initial,
        options,
        behavior,
        40,
    )
}

fn submitted(step: SessionStep<String>) -> String {
    match step {
        SessionStep::Done(PromptSignal::Submitted(text)) => text,
        _ => panic!("expected the line"),
    }
}

#[test]
fn typed_line_is_submitted() {
    let mut input = session(None, &vec![], SuggestionBehavior::KeepEditing);
    for ch in ['h', 'i', '!'] {
        assert!(matches!(
            input.on_event(AppEvent::Key(Key::Char(ch))),
            SessionStep::Redraw
        ));
    }
    input.on_event(AppEvent::Key(Key::Backspace));
    input.on_event(AppEvent::Key(Key::Home));
    input.on_event(AppEvent::Key(Key::Delete));
    assert_eq!(submitted(input.on_event(AppEvent::Key(Key::Enter))), "i");
}

#[test]
fn initial_text_and_clipboard_are_inserted() {
    let mut input = session(Some("abc"), &vec![], SuggestionBehavior::KeepEditing);
    assert!(matches!(
        input.on_event(AppEvent::Key(Key::Ctrl('v'))),
        SessionStep::ReadClipboard
    ));
    input.on_clipboard(Some("def"));
    input.on_clipboard(None);
    assert_eq!(submitted(input.on_event(AppEvent::Key(Key::Enter))), "abcdef");
}

#[test]
fn session_can_be_broken_off() {
    let mut input = session(None, &vec![], SuggestionBehavior::KeepEditing);
    assert!(matches!(
        input.on_event(AppEvent::Interrupted),
        SessionStep::Done(PromptSignal::Interrupted)
    ));
    assert!(matches!(
        input.on_event(AppEvent::Eof),
        SessionStep::Done(PromptSignal::Eof)
    ));
}

#[test]
fn choice_is_returned_or_edited_further() {
    let options = config_options();
    let mut menu = session(Some("/"), &options, SuggestionBehavior::ReturnImmediately);
    menu.on_event(AppEvent::Key(Key::Down));
    let line = submitted(menu.on_event(AppEvent::Key(Key::Enter)));
    assert_eq!(line, "/tips ");
    assert_eq!(
        select_option(PromptSignal::Submitted(line)),
        Some("tips".to_string())
    );
    let mut prompt = session(Some("/th"), &options, SuggestionBehavior::KeepEditing);
    assert!(matches!(
        prompt.on_event(AppEvent::Key(Key::Tab)),
        SessionStep::Redraw
    ));
    prompt.on_event(AppEvent::Key(Key::Char('x')));
    assert_eq!(submitted(prompt.on_event(AppEvent::Key(Key::Enter))), "/theme x");
}

#[test]
fn footer_is_hidden_by_choices() {
    let options = config_options();
    let plain = session(None, &options, SuggestionBehavior::KeepEditing).render_input_frame();
    assert_eq!(plain.lines[0], "Title");
    assert_eq!(plain.lines.last().unwrap(), "footer");
    assert_eq!(plain.cursor_row, 2);
    let open = session(Some("/"), &options, SuggestionBehavior::KeepEditing).render_input_frame();
    assert!(open.lines.iter().all(|line| line != "footer"));
    assert!(open.lines.iter().any(|line| line.contains("/theme")));
    assert_eq!(open.cursor_column, 2);
}
