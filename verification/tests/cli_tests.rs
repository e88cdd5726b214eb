use mdink::cli::{exceeds_file_limit, sanitize_filename, Cli, MAX_FILE_BYTES};
use mdink::highlight::{
    build_styled_line, h, plain_lines, resolve_comment_color, syntect_style_to_span,
    trim_line_end, Rgba, Token, TokenLine, TokenStyle, DEFAULT_THEME, MAX_HIGHLIGHT_BYTES,
};
use mdink::modifier;
use mdink::style::{Color, Style};
use mdink::text::{chars_of, has_char, make_code_line, slice_string, Line, Span};

#[test]
fn cli_holds_the_file() {
    let cli = Cli { file: "notes.md".to_string() };
    assert_eq!(cli.file, "notes.md");
}

#[test]
fn file_limit_is_a_hundred_mebibytes() {
    assert_eq!(MAX_FILE_BYTES, 104_857_600);
    assert!(!exceeds_file_limit(0));
    assert!(!exceeds_file_limit(104_857_600));
    assert!(exceeds_file_limit(104_857_601));
}

#[test]
fn filename_loses_its_control_characters() {
    assert_eq!(sanitize_filename("plain.md"), "plain.md");
    assert_eq!(sanitize_filename("a\u{1b}[31mb\n\t.md"), "a[31mb.md");
    assert_eq!(sanitize_filename("\u{7f}\u{80}\u{9f}é日本"), "é日本");
    assert_eq!(sanitize_filename(""), "");
}

#[test]
fn text_helpers() {
    assert_eq!(chars_of("aé日"), vec!['a', 'é', '日']);
    assert_eq!(slice_string("aé日本", 1, 3), "é日");
    assert_eq!(slice_string("abc", 2, 2), "");
    assert!(has_char("a\nb", '\n'));
    assert!(!has_char("ab", '\n'));
    assert!(!has_char("", 'a'));
    assert_eq!(
        make_code_line("x"),
        Line { spans: vec![Span { content: "x".to_string(), style: Style::default() }] }
    );
}

#[test]
fn line_endings_are_trimmed() {
    assert_eq!(trim_line_end("abc\r\n"), "abc");
    assert_eq!(trim_line_end("abc\n\n\r"), "abc");
    assert_eq!(trim_line_end("a\nb"), "a\nb");
    assert_eq!(trim_line_end("\n"), "");
    assert_eq!(trim_line_end(""), "");
    assert_eq!(trim_line_end("é \n"), "é ");
}

#[test]
fn plain_lines_split_at_line_feeds() {
    let texts = |code: &str| -> Vec<String> {
        plain_lines(code)
            .iter()
            .map(|line| {
                assert_eq!(line.spans.len(), 1);
                assert_eq!(line.spans[0].style, Style::default());
                line.spans[0].content.clone()
            })
            .collect()
    };
    assert_eq!(texts("a\nb\n"), vec!["a", "b"]);
    assert_eq!(texts("a\r\nb"), vec!["a", "b"]);
    assert_eq!(texts("a\n\nb"), vec!["a", "", "b"]);
    assert_eq!(texts("a\r"), vec!["a\r"]);
    assert_eq!(texts("\n"), vec![""]);
    assert!(texts("").is_empty());
    for code in ["x\r\r\ny", "one\ntwo\r\n\r\nthree", "\n\n", "tail\r\n"] {
        let expected: Vec<String> = code.lines().map(|l| l.to_string()).collect();
        assert_eq!(texts(code), expected, "{code:?}");
    }
}

#[test]
fn comment_colour_is_what_differs_from_the_text_colour() {
    let grey = Rgba(101, 115, 126, 255);
    let black = Rgba(0, 0, 0, 255);
    assert_eq!(resolve_comment_color(Some(grey), Some(black)), Some(grey));
    assert_eq!(resolve_comment_color(Some(grey), Some(grey)), None);
    assert_eq!(resolve_comment_color(Some(black), None), None);
    assert_eq!(resolve_comment_color(Some(grey), None), Some(grey));
    assert_eq!(resolve_comment_color(None, Some(grey)), None);
    assert_eq!(
        resolve_comment_color(Some(Rgba(0, 0, 0, 0)), None),
        Some(Rgba(0, 0, 0, 0))
    );
}

fn token_style(font_style: u8) -> TokenStyle {
    TokenStyle {
        foreground: Rgba(1, 2, 3, 255),
        background: Rgba(4, 5, 6, 255),
        font_style,
    }
}

#[test]
fn token_style_becomes_a_display_style() {
    let cases = [
        (0u8, false, 0u16),
        (1, false, modifier::BOLD),
        (2, false, modifier::UNDERLINED),
        (4, false, modifier::ITALIC),
        (7, false, modifier::BOLD | modifier::ITALIC | modifier::UNDERLINED),
        (0, true, modifier::ITALIC),
        (3, true, modifier::BOLD | modifier::ITALIC | modifier::UNDERLINED),
    ];
    for (font_style, is_comment, modifiers) in cases {
        assert_eq!(
            syntect_style_to_span("t", token_style(font_style), is_comment),
            Span {
                content: "t".to_string(),
                style: Style {
                    fg: Some(Color::Rgb(1, 2, 3)),
                    bg: Some(Color::Rgb(4, 5, 6)),
                    add_modifier: modifiers,
                    sub_modifier: 0,
                },
            },
            "font style {font_style}, comment {is_comment}"
        );
    }
}

#[test]
fn tokens_become_runs_without_line_endings() {
    let line = TokenLine::new(
        "ab cd\r\n",
        Some(vec![
            Token::new(token_style(1).foreground, token_style(1).background, 1, "ab"),
            Token::new(Rgba(9, 9, 9, 255), token_style(0).background, 0, " cd"),
            Token::new(token_style(0).foreground, token_style(0).background, 0, "\r\n"),
        ]),
    );
    let styled = build_styled_line(&line, Some(Rgba(9, 9, 9, 255)));
    assert_eq!(styled.spans.len(), 2);
    assert_eq!(styled.spans[0], syntect_style_to_span("ab", token_style(1), false));
    assert_eq!(styled.spans[1].content, " cd");
    assert_eq!(styled.spans[1].style.add_modifier, modifier::ITALIC);
    let unmarked = build_styled_line(&line, None);
    assert_eq!(unmarked.spans[1].style.add_modifier, 0);
}

#[test]
fn line_without_tokens_is_unstyled() {
    let line = TokenLine::new("raw text\r\n", None);
    assert_eq!(build_styled_line(&line, None), make_code_line("raw text"));
    assert_eq!(build_styled_line(&TokenLine::new("\n", None), None), make_code_line(""));
}

#[test]
fn oversized_code_is_not_tokenized() {
    assert_eq!(MAX_HIGHLIGHT_BYTES, 524_288);
    let line = "let x = 1; // note\n";
    let code = line.repeat(MAX_HIGHLIGHT_BYTES / line.len() + 1);
    assert!(code.len() > MAX_HIGHLIGHT_BYTES);
    let lines = h().highlight_code(&code, "rust", DEFAULT_THEME);
    assert_eq!(lines.len(), MAX_HIGHLIGHT_BYTES / line.len() + 1);
    assert_eq!(lines[0], make_code_line("let x = 1; // note"));
    assert_eq!(lines, plain_lines(&code));
}

#[test]
fn unknown_language_is_read_as_plain_text() {
    let highlighter = h();
    let code = "fn main() {}\nsecond\n";
    assert_eq!(
        highlighter.highlight_code(code, "nosuchlanguage", DEFAULT_THEME),
        highlighter.highlight_code(code, "", DEFAULT_THEME)
    );
    let lines = highlighter.highlight_code(code, "", DEFAULT_THEME);
    assert_eq!(lines.len(), 2);
    assert_eq!(lines[0].spans.len(), 1);
    assert_eq!(lines[0].spans[0].content, "fn main() {}");
    assert!(matches!(lines[0].spans[0].style.fg, Some(Color::Rgb(_, _, _))));
}

#[test]
fn unknown_theme_gives_way_to_the_default_theme() {
    let highlighter = h();
    let code = "fn main() { let x = 1; }\n";
    assert_eq!(
        highlighter.highlight_code(code, "rust", "nonexistent-theme"),
        highlighter.highlight_code(code, "rust", DEFAULT_THEME)
    );
    assert_ne!(
        highlighter.highlight_code(code, "rust", "InspiredGitHub"),
        highlighter.highlight_code(code, "rust", DEFAULT_THEME)
    );
    assert_eq!(highlighter.comment_color("nonexistent-theme"), None);
}

#[test]
fn language_is_found_by_extension_or_name() {
    let highlighter = h();
    let code = "def f():\n    return 1\n";
    let by_name = highlighter.highlight_code(code, "python", DEFAULT_THEME);
    assert_eq!(highlighter.highlight_code(code, "py", DEFAULT_THEME), by_name);
    assert_eq!(highlighter.highlight_code(code, "Python", DEFAULT_THEME), by_name);
    assert_ne!(highlighter.highlight_code(code, "", DEFAULT_THEME), by_name);
    let text: Vec<String> = by_name
        .iter()
        .map(|line| line.spans.iter().map(|s| s.content.as_str()).collect())
        .collect();
    assert_eq!(text, vec!["def f():", "    return 1"]);
}
