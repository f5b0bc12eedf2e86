use localcoder::terminal_style::{Style, StyleExt};

#[test]
fn green_wraps_text_with_foreground_codes() {
    assert_eq!("ok".green().to_text(), "\x1B[32mok\x1B[39m");
}

#[test]
fn chained_styles_nest_in_call_order() {
    assert_eq!(
        "ok".green().bold().to_text(),
        "\x1B[1m\x1B[32mok\x1B[39m\x1B[22m"
    );
}

#[test]
fn every_style_has_its_codes() {
    let cases = [
        (Style::Bold, 1, 22),
        (Style::Dimmed, 2, 22),
        (Style::Red, 31, 39),
        (Style::Green, 32, 39),
        (Style::Yellow, 33, 39),
        (Style::Blue, 34, 39),
        (Style::Cyan, 36, 39),
        (Style::White, 37, 39),
    ];
    for (style, open, close) in cases {
        assert_eq!(
            "x".to_string().with_style(style).to_text(),
            format!("\x1B[{open}mx\x1B[{close}m")
        );
    }
    assert_eq!("x".blue().to_text(), "\x1B[34mx\x1B[39m");
    assert_eq!("x".dimmed().to_text(), "\x1B[2mx\x1B[22m");
    assert_eq!("x".white().to_text(), "\x1B[37mx\x1B[39m");
    assert_eq!("x".yellow().to_text(), "\x1B[33mx\x1B[39m");
    assert_eq!("x".cyan().to_text(), "\x1B[36mx\x1B[39m");
    assert_eq!("x".red().to_text(), "\x1B[31mx\x1B[39m");
}
