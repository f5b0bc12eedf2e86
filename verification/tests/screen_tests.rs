use localcoder::json::Json;
use localcoder::screen::{
    char_display_width, gray_message_surface, parse_terminal_columns, print_loaded_history,
    session_last_user_preview, terminal_columns, text_display_width, truncate_for_width,
    truncate_preview, wrap_message_lines,
};

fn json(text: &str) -> Json {
    Json::parse(text).unwrap()
}

#[test]
fn parse_terminal_columns_reads_stty_size_output() {
    assert_eq!(parse_terminal_columns("24 120\n"), Some(120));
}

#[test]
fn terminal_columns_have_a_default() {
    assert_eq!(parse_terminal_columns("24"), None);
    assert_eq!(parse_terminal_columns("x 80"), None);
    assert_eq!(parse_terminal_columns("24 0"), Some(1));
    assert_eq!(terminal_columns(Some("24 x")), 80);
    assert_eq!(terminal_columns(None), 80);
    assert_eq!(terminal_columns(Some("1 7 9")), 7);
}

#[test]
fn widths_of_characters() {
    assert_eq!(char_display_width('a'), 1);
    assert_eq!(char_display_width('\n'), 0);
    assert_eq!(char_display_width('\u{85}'), 0);
    assert_eq!(char_display_width('世'), 2);
    assert_eq!(char_display_width('🤖'), 2);
    assert_eq!(char_display_width('\u{A4CF}'), 2);
    assert_eq!(char_display_width('\u{A4D0}'), 1);
    assert_eq!(text_display_width("a世\tb"), 4);
}

#[test]
fn lines_are_wrapped_by_width() {
    assert_eq!(wrap_message_lines("abcdef", 4), vec!["abcd", "ef"]);
    assert_eq!(wrap_message_lines("a\n\nb", 10), vec!["a", "", "b"]);
    assert_eq!(wrap_message_lines("", 10), vec![""]);
    assert_eq!(wrap_message_lines("世界", 3), vec!["世", "界"]);
    assert_eq!(wrap_message_lines("世a", 1), vec!["世", "a"]);
    assert_eq!(wrap_message_lines("ab", 0), vec!["a", "b"]);
}

#[test]
fn texts_are_cut_with_dots() {
    assert_eq!(truncate_for_width("abcdef", 0), "");
    assert_eq!(truncate_for_width("abcdef", 6), "abcdef");
    assert_eq!(truncate_for_width("abcdef", 3), "...");
    assert_eq!(truncate_for_width("abcdef", 5), "ab...");
    assert_eq!(truncate_for_width("ab cdef", 6), "ab...");
    assert_eq!(truncate_preview("", 3), "(empty)");
    assert_eq!(truncate_preview("abc", 3), "abc");
    assert_eq!(truncate_preview("abcd", 3), "abc...");
    assert_eq!(truncate_preview("abcd", 0), "...");
}

#[test]
fn grey_surface_sets_and_resets_colours() {
    assert_eq!(
        gray_message_surface("x"),
        "\x1B[48;5;236m\x1B[38;5;255mx\x1B[39m\x1B[49m"
    );
}

#[test]
fn loaded_history_is_shown_by_role() {
    let messages = vec![
        json("{\"role\":\"user\",\"content\":\"hi\"}"),
        json("{\"role\":\"assistant\",\"content\":\"a\\nb\"}"),
        json("{\"role\":\"tool\",\"content\":\"x\",\"tool_name\":\"read\"}"),
        json("{\"role\":\"system\",\"content\":\"s\"}"),
        json("{\"role\":\"tool\"}"),
    ];
    let lines = print_loaded_history(&messages, 24);
    let rim = gray_message_surface(&" ".repeat(23));
    assert_eq!(lines.len(), 11);
    assert!(lines[0].starts_with("\n"));
    assert_eq!(lines[1], "");
    assert_eq!(lines[2], rim);
    assert_eq!(lines[3], gray_message_surface(&format!("  hi{}  ", " ".repeat(17))));
    assert_eq!(lines[4], rim);
    assert_eq!(lines[5], "");
    assert_eq!(&lines[6..9], ["a", "b", ""]);
    assert_eq!(lines[9], "\x1B[2m[tool]\x1B[22m read");
    assert_eq!(lines[10], "\x1B[2m[tool]\x1B[22m unknown");
}

#[test]
fn empty_loaded_history_is_said_to_be_empty() {
    let lines = print_loaded_history(&vec![], 80);
    assert_eq!(lines[2], "\x1B[2m(empty)\x1B[22m");
    assert_eq!(lines.len(), 3);
}

#[test]
fn preview_is_the_last_user_message() {
    let messages = vec![
        json("{\"role\":\"user\",\"content\":\"first\"}"),
        json("{\"role\":\"user\",\"content\":\"second\"}"),
        json("{\"role\":\"assistant\",\"content\":\"third\"}"),
    ];
    assert_eq!(session_last_user_preview(&messages), "second");
    assert_eq!(session_last_user_preview(&vec![]), "(no user message)");
    let long = vec![json(&format!(
        "{{\"role\":\"user\",\"content\":\"{}\"}}",
        "x".repeat(60)
    ))];
    assert_eq!(
        session_last_user_preview(&long),
        format!("{}...", "x".repeat(48))
    );
}

#[test]
fn wrapped_text_keeps_all_and_wastes_nothing() {
    let content = "one 世界 two\n\n\u{7}🤖🤖🤖\nend";
    for width in 1..12 {
        let pieces = wrap_message_lines(content, width);
        assert_eq!(pieces.concat(), content.replace('\n', ""));
    }
    assert_eq!(wrap_message_lines("abcabcab", 3).len(), 3);
    assert_eq!(wrap_message_lines("世界世", 4), vec!["世界", "世"]);
    assert_eq!(wrap_message_lines("\u{7}世\u{7}a", 1), vec!["\u{7}世", "\u{7}a"]);
}
