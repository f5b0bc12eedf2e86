use localcoder::history::{rebuild_display_history, visible_message_count};
use localcoder::json::Json;
use localcoder::layout::{can_lay_out_shapes, can_number, Extent, Shape};
use localcoder::markdown::{rendered_or_raw, MarkdownRenderer};
use localcoder::number::{decimal_text, hex_text, read_word};
use localcoder::order::{sorted_unique, stable_order, text_before};
use localcoder::runtime::build_base_system_prompt;
use localcoder::text::{
    blank, join_texts, lower_ascii, same_ignoring_ascii_case, split_lines, split_words,
    strip_leading, strip_line_ends, strip_trailing, trimmed, trimmed_end, white_space,
};

const TEXTS: [&str; 9] = [
    "",
    " a b ",
    "\t\r\n",
    "a\r\nb\n\nc\r",
    "\u{3000}x\u{a0}",
    "//a//",
    "é Ü ß",
    "one  two\u{2003}three",
    "\n",
];

#[test]
fn text_functions_agree_with_std() {
    for text in TEXTS {
        assert_eq!(trimmed(text), text.trim());
        assert_eq!(trimmed_end(text), text.trim_end());
        assert_eq!(blank(text), text.trim().is_empty());
        assert_eq!(strip_leading(text, '/'), text.trim_start_matches('/'));
        assert_eq!(strip_trailing(text, '/'), text.trim_end_matches('/'));
        assert_eq!(strip_line_ends(text), text.trim_end_matches(['\n', '\r']));
        assert_eq!(lower_ascii(text), text.to_ascii_lowercase());
        assert_eq!(
            split_words(text),
            text.split_whitespace().collect::<Vec<_>>()
        );
        assert_eq!(split_lines(text), text.lines().collect::<Vec<_>>());
    }
    for code in 0..0x3100u32 {
        if let Some(ch) = char::from_u32(code) {
            assert_eq!(white_space(ch), ch.is_whitespace(), "{code:x}");
        }
    }
}

#[test]
fn case_of_ascii_letters_is_ignored() {
    assert!(same_ignoring_ascii_case("StOp", "stop"));
    assert!(!same_ignoring_ascii_case("É", "é"));
}

#[test]
fn texts_are_joined() {
    let list = vec!["a".to_string(), "".to_string(), "b".to_string()];
    assert_eq!(join_texts(&list, ", "), "a, , b");
    assert_eq!(join_texts(&vec![], ", "), "");
}

#[test]
fn numbers_are_written_and_read() {
    for number in [0u64, 7, 10, 255, 65535, u64::MAX] {
        assert_eq!(decimal_text(number), number.to_string());
    }
    for number in [0u16, 9, 10, 0xff, 0xabcd, 0xffff] {
        assert_eq!(hex_text(number), format!("{number:x}"));
    }
    for text in ["", "+", "+7", "-1", "007", "18446744073709551616", "1 ", "12a"] {
        assert_eq!(read_word(text), text.parse::<usize>().ok(), "{text}");
    }
}

#[test]
fn order_is_that_of_std() {
    let words = ["b", "a", "aa", "", "é", "z", "Z", "a"];
    for left in words {
        for right in words {
            assert_eq!(text_before(left, right), left < right);
        }
    }
    let list: Vec<String> = words.iter().map(|s| s.to_string()).collect();
    let mut sorted = list.clone();
    sorted.sort();
    sorted.dedup();
    assert_eq!(sorted_unique(&list), sorted);
}

#[test]
fn stable_order_goes_by_rank_then_name_then_place() {
    let names: Vec<String> = ["b", "a", "b", "a"].iter().map(|s| s.to_string()).collect();
    assert_eq!(stable_order(&vec![1, 1, 0, 1], &names), vec![2, 1, 3, 0]);
}

#[test]
fn system_prompt_joins_what_says_something() {
    assert_eq!(build_base_system_prompt(None, None), None);
    assert_eq!(build_base_system_prompt(Some("  "), Some("\n")), None);
    assert_eq!(
        build_base_system_prompt(Some("m"), None),
        Some("m".to_string())
    );
    assert_eq!(
        build_base_system_prompt(Some(" "), Some("s")),
        Some("s".to_string())
    );
    assert_eq!(
        build_base_system_prompt(Some("m"), Some("s")),
        Some("m\n\ns".to_string())
    );
}

#[test]
fn markdown_waits_for_complete_lines() {
    let mut renderer = MarkdownRenderer::new();
    assert_eq!(renderer.process_chunk("# Ti"), "");
    let shown = renderer.process_chunk("tle\nrest");
    assert!(shown.contains("Title"));
    assert!(shown != "# Title\n");
    assert!(!shown.contains("rest"));
    assert!(renderer.flush().contains("rest"));
    assert_eq!(renderer.flush(), "");
}

#[test]
fn markdown_is_wrapped_to_the_columns() {
    let renderer = MarkdownRenderer::new();
    assert_eq!(renderer.render_at("aaaa bbbb cccc", 40).lines().count(), 1);
    assert_eq!(renderer.render_at("aaaa bbbb cccc", 6).lines().count(), 3);
    assert!(renderer.render_at("- an item", 40).contains('•'));
    assert!(renderer.render_at("- an item", 4).contains('•'));
    assert_eq!(renderer.render_at("   - an item", 4), "   - an item");
}

#[test]
fn items_in_tables_and_long_numbers_are_rendered() {
    let renderer = MarkdownRenderer::new();
    assert!(renderer.render_at("| - a |", 80).contains('•'));
    assert!(renderer.render_at("| 1. a | b |\n|---|---|", 80).contains('│'));
    let number = renderer.render_at("1234567890 *a*", 80);
    assert!(number.contains("1234567890") && !number.contains("*a*"));
    assert!(renderer.render_at("1. a\n1. b", 8).contains('2'));
}

#[test]
fn what_cannot_be_laid_out_is_told() {
    let renderer = MarkdownRenderer::new();
    assert!(renderer.fits("", 0));
    assert!(renderer.fits("# t\n\n> q\n| 12 | 1.5 |\n|---|:-:|", 5));
    assert!(renderer.fits("1. a", 3));
    assert!(!renderer.fits("10. a", 3));
    assert!(renderer.fits("10. a", 2));
    assert!(!renderer.fits("9. a\n9. b", 3));
    assert!(renderer.fits("9. a\n\n9. b", 3));
    assert!(!renderer.fits("| 123. a |", 5));
    assert!(renderer.fits("| 123. a |", 4));
    assert!(renderer.fits("| 123. a |", 80));
    assert!(!renderer.fits("| 123. a | b |", 9));
    assert_eq!(renderer.render_at("| 123. a |", 5), "| 123. a |");
}

#[test]
fn numbers_of_lists_are_counted() {
    assert!(can_number("4294967294. a"));
    assert!(!can_number("4294967295. a"));
    assert!(!can_number(" 4294967295) a"));
    assert!(can_number("4294967296. a"));
    assert!(can_number("4294967295.a\n    4294967295. b\n4294967295"));
    assert!(!can_number("4294967294. a\n1. b"));
    assert!(can_number("4294967294. a\n\n1. b"));
    assert!(can_number("4294967294. a\n 1. b\n 1. c"));
    assert!(!can_number("4294967293. a\n 1. b\n1. c\n1. d"));
    assert!(can_number("```\n4294967295. a\n```"));
    assert!(!can_number("4294967294. a\n```\n```\n1. b"));
}

#[test]
fn shapes_are_fitted_to_the_columns() {
    let extent = |mark: usize, all: usize| Extent { mark, all };
    let fits = |shape: Shape<Vec<Extent>>, columns: u16| can_lay_out_shapes(&vec![shape], columns);
    assert!(fits(Shape::Plain(extent(2, 50)), 3));
    assert!(!fits(Shape::Plain(extent(5, 50)), 4));
    assert!(fits(Shape::Plain(extent(5, 50)), 2));
    assert!(fits(Shape::Filling, 0));
    assert!(fits(Shape::Rule(3), 80));
    assert!(!fits(Shape::Row(vec![extent(5, 9), extent(0, 9)]), 9));
    assert!(fits(Shape::Row(vec![extent(5, 9), extent(0, 9)]), 40));
    assert!(!fits(Shape::Row(vec![extent(4, 9), extent(0, 9)]), 6));
    assert!(fits(Shape::Row(vec![extent(0, 9), extent(4, 9)]), 6));
    assert!(!fits(Shape::Row(vec![extent(0, usize::MAX), extent(0, 9)]), 80));
}

#[test]
fn markdown_pieces_lose_nothing() {
    let mut renderer = MarkdownRenderer::default();
    assert_eq!(renderer.take_complete("a"), None);
    assert_eq!(renderer.take_complete("b\nc\nd"), Some("ab\nc\n".to_string()));
    assert_eq!(renderer.take_rest(), Some("d".to_string()));
    assert_eq!(renderer.take_rest(), None);
    assert_eq!(rendered_or_raw("raw", None), "raw");
    assert_eq!(rendered_or_raw("raw", Some("shown".to_string())), "shown");
}

#[test]
fn rebuild_display_history_only_user_assistant() {
    let messages = vec![
        Json::parse("{\"role\":\"user\",\"content\":\"u\"}").unwrap(),
        Json::parse("{\"role\":\"assistant\",\"content\":\"a\"}").unwrap(),
        Json::parse("{\"role\":\"tool\",\"content\":\"t\"}").unwrap(),
    ];
    let h = rebuild_display_history(&messages);
    assert_eq!(h.len(), 2);
    assert_eq!(visible_message_count(&messages), 2);
}

#[test]
fn content_that_is_no_text_is_shown_empty() {
    let messages = vec![
        Json::parse("{\"role\":\"assistant\",\"content\":null}").unwrap(),
        Json::parse("{\"content\":\"x\"}").unwrap(),
        Json::Null,
    ];
    let h = rebuild_display_history(&messages);
    assert_eq!(h.len(), 1);
    assert_eq!(h.get_messages()[0].content, "");
    assert_eq!(visible_message_count(&messages), 1);
}
