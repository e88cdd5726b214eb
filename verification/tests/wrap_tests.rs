use mdink::layout::{
    build_spans_for_range, flatten, lay_out_lines, split_at_char, split_groups, wrap_group,
    wrap_styled_spans, wrap_with_hard_breaks, DocumentLine,
};
use mdink::modifier;
use mdink::parser::{RenderedBlock, StyledSpan};
use mdink::style::{Color, Style};
use mdink::text::{make_code_line, Line, Span};

fn span(text: &str, style: Style) -> StyledSpan {
    StyledSpan { text: text.to_string(), style }
}

fn plain(text: &str) -> StyledSpan {
    span(text, Style::default())
}

fn bold() -> Style {
    Style::default().add_modifier(modifier::BOLD)
}

fn italic() -> Style {
    Style::default().add_modifier(modifier::ITALIC)
}

fn texts(line: &Line) -> Vec<String> {
    line.spans.iter().map(|s| s.content.clone()).collect()
}

fn line_text(line: &Line) -> String {
    line.spans.iter().map(|s| s.content.as_str()).collect()
}

fn paragraph(spans: Vec<StyledSpan>) -> Vec<RenderedBlock> {
    vec![RenderedBlock::Paragraph { content: spans }]
}

fn text_of(doc_line: &DocumentLine) -> String {
    match doc_line {
        DocumentLine::Text(line) => line_text(line),
        DocumentLine::Code(line) => line_text(line),
        DocumentLine::Empty => String::new(),
        DocumentLine::Rule => String::new(),
    }
}

#[test]
fn wrap_breaks_at_word_boundaries() {
    let lines = wrap_styled_spans(&vec![plain("Memory safety without garbage collection.")], 15);
    let got: Vec<String> = lines.iter().map(line_text).collect();
    assert_eq!(got, vec!["Memory safety", "without garbage", "collection."]);
}

#[test]
fn wrap_keeps_each_word_once_in_order() {
    let source = "word ".repeat(20);
    let doc = flatten(&paragraph(vec![plain(source.trim())]), 40);
    assert!(doc.total_height > 1);
    let joined: Vec<String> = doc.lines.iter().map(text_of).collect();
    let rebuilt = joined.join(" ");
    let words: Vec<&str> = rebuilt.split(' ').collect();
    assert_eq!(words.len(), 20);
    assert!(words.iter().all(|w| *w == "word"));
    assert_eq!(rebuilt, source.trim());
}

#[test]
fn wrap_keeps_words_of_many_spans() {
    let spans = vec![
        span("The quick ", bold()),
        span("brown fox jumps ", italic()),
        plain("over the lazy dog"),
    ];
    for width in 1..30u16 {
        let doc = flatten(&paragraph(spans.clone()), width);
        let joined: Vec<String> = doc.lines.iter().map(text_of).collect();
        let rebuilt: String = joined.join("");
        let squeezed: String = rebuilt.chars().filter(|c| *c != ' ').collect();
        assert_eq!(squeezed, "Thequickbrownfoxjumpsoverthelazydog", "width {width}");
    }
}

#[test]
fn wrap_single_style_on_every_run() {
    let style = Style::default().fg(Color::Red).add_modifier(modifier::BOLD);
    let source = "alpha beta gamma delta epsilon zeta eta theta";
    for width in 1..50usize {
        let lines = wrap_styled_spans(&vec![span(source, style)], width);
        assert!(!lines.is_empty());
        for line in &lines {
            for run in &line.spans {
                assert_eq!(run.style, style, "width {width}");
            }
        }
    }
}

#[test]
fn wrap_keeps_the_style_of_each_character() {
    let lines = wrap_styled_spans(&vec![span("hello ", bold()), span("world this", italic())], 11);
    assert_eq!(lines.len(), 2);
    assert_eq!(
        lines[0].spans,
        vec![
            Span { content: "hello ".to_string(), style: bold() },
            Span { content: "world".to_string(), style: italic() },
        ]
    );
    assert_eq!(lines[1].spans, vec![Span { content: "this".to_string(), style: italic() }]);
}

#[test]
fn wrap_joins_neighbours_of_one_style() {
    let lines = wrap_styled_spans(&vec![span("ab", bold()), span("cd", bold()), plain("ef")], 80);
    assert_eq!(lines.len(), 1);
    assert_eq!(texts(&lines[0]), vec!["abcd", "ef"]);
    assert_eq!(lines[0].spans[0].style, bold());
    assert_eq!(lines[0].spans[1].style, Style::default());
}

#[test]
fn wrap_no_spans_gives_no_lines() {
    assert!(wrap_styled_spans(&vec![], 10).is_empty());
    assert!(wrap_group(&vec![], 10).is_empty());
}

#[test]
fn wrap_empty_text_gives_no_lines() {
    assert!(wrap_styled_spans(&vec![plain(""), span("", bold())], 10).is_empty());
}

#[test]
fn wrap_breaks_a_word_longer_than_the_width() {
    let lines = wrap_styled_spans(&vec![plain("abcdefghijklmnopqrstuvwxyz")], 10);
    let got: Vec<String> = lines.iter().map(line_text).collect();
    assert_eq!(got, vec!["abcdefghij", "klmnopqrst", "uvwxyz"]);
}

#[test]
fn wrap_repeated_text_is_matched_in_order() {
    let lines = wrap_styled_spans(
        &vec![span("aaa bbb ", bold()), span("aaa bbb ", italic()), plain("aaa bbb")],
        8,
    );
    assert_eq!(lines.len(), 3);
    assert_eq!(texts(&lines[0]), vec!["aaa bbb"]);
    assert_eq!(lines[0].spans[0].style, bold());
    assert_eq!(lines[1].spans[0].style, italic());
    assert_eq!(lines[2].spans[0].style, Style::default());
}

#[test]
fn wrap_multibyte_text_is_cut_between_characters() {
    let source = "日本語のテキスト処理テスト";
    let lines = wrap_styled_spans(&vec![span(source, bold())], 10);
    assert!(lines.len() >= 2);
    let rebuilt: String = lines.iter().map(line_text).collect();
    assert_eq!(rebuilt, source);
}

#[test]
fn hard_break_parts_the_lines() {
    let spans = vec![plain("first"), plain("\n"), plain("second")];
    let lines = wrap_styled_spans(&spans, 80);
    let got: Vec<String> = lines.iter().map(line_text).collect();
    assert_eq!(got, vec!["first", "second"]);
}

#[test]
fn hard_break_inside_a_span() {
    let lines = wrap_with_hard_breaks(&vec![span("one\ntwo", bold()), plain(" three")], 80);
    assert_eq!(lines.len(), 2);
    assert_eq!(lines[0].spans, vec![Span { content: "one".to_string(), style: bold() }]);
    assert_eq!(
        lines[1].spans,
        vec![
            Span { content: "two".to_string(), style: bold() },
            Span { content: " three".to_string(), style: Style::default() },
        ]
    );
}

#[test]
fn hard_break_twice_leaves_an_empty_line() {
    let lines = wrap_styled_spans(&vec![plain("a\n\nb")], 80);
    assert_eq!(lines.len(), 3);
    assert_eq!(line_text(&lines[0]), "a");
    assert!(lines[1].spans.is_empty());
    assert_eq!(line_text(&lines[2]), "b");
}

#[test]
fn hard_break_at_the_end_adds_no_line() {
    let lines = wrap_styled_spans(&vec![plain("a\n")], 80);
    assert_eq!(lines.len(), 1);
    assert_eq!(line_text(&lines[0]), "a");
}

#[test]
fn hard_break_is_never_crossed_by_a_wrap() {
    let lines = wrap_styled_spans(&vec![plain("aa bb\ncc dd")], 8);
    let got: Vec<String> = lines.iter().map(line_text).collect();
    assert_eq!(got, vec!["aa bb", "cc dd"]);
}

#[test]
fn groups_split_at_breaks() {
    let groups = split_groups(&vec![plain("a\nb"), span("c", bold()), plain("\n"), plain("")]);
    assert_eq!(groups.len(), 3);
    assert_eq!(groups[0], vec![plain("a")]);
    assert_eq!(groups[1], vec![plain("b"), span("c", bold())]);
    assert_eq!(groups[2], vec![plain("")]);
}

#[test]
fn pieces_of_a_text() {
    assert_eq!(split_at_char("a,b,,c", ','), vec!["a", "b", "", "c"]);
    assert_eq!(split_at_char("", ','), vec![""]);
    assert_eq!(split_at_char(",", ','), vec!["", ""]);
    assert_eq!(split_at_char("é,ü", ','), vec!["é", "ü"]);
}

#[test]
fn spans_for_a_range() {
    let styles = vec![bold(), bold(), italic(), italic(), bold()];
    let spans = build_spans_for_range("abcde", &styles, 1, 5);
    assert_eq!(
        spans,
        vec![
            Span { content: "b".to_string(), style: bold() },
            Span { content: "cd".to_string(), style: italic() },
            Span { content: "e".to_string(), style: bold() },
        ]
    );
    assert!(build_spans_for_range("abcde", &styles, 3, 3).is_empty());
    assert!(build_spans_for_range("abcde", &styles, 4, 2).is_empty());
}

#[test]
fn spans_for_a_range_of_multibyte_text() {
    let styles = vec![bold(), italic(), italic()];
    let spans = build_spans_for_range("日本語", &styles, 0, 3);
    assert_eq!(
        spans,
        vec![
            Span { content: "日".to_string(), style: bold() },
            Span { content: "本語".to_string(), style: italic() },
        ]
    );
}

#[test]
fn lines_found_by_a_forward_cursor() {
    let styles = vec![bold(), bold(), bold(), bold(), italic(), italic(), italic()];
    let wrapped = vec!["abc".to_string(), "abc".to_string()];
    let lines = lay_out_lines("abc abc", &styles, &wrapped);
    assert_eq!(lines.len(), 2);
    assert_eq!(lines[0].spans, vec![Span { content: "abc".to_string(), style: bold() }]);
    assert_eq!(lines[1].spans, vec![Span { content: "abc".to_string(), style: italic() }]);
}

#[test]
fn line_not_in_the_text_is_laid_out_unstyled() {
    let wrapped = vec!["hyphen-".to_string(), "ated".to_string()];
    let lines = lay_out_lines("hyphenated", &vec![bold(); 10], &wrapped);
    assert_eq!(lines.len(), 2);
    assert_eq!(
        lines[0].spans,
        vec![Span { content: "hyphen-".to_string(), style: Style::default() }]
    );
    assert_eq!(lines[1].spans, vec![Span { content: "ated".to_string(), style: bold() }]);
}

#[test]
fn empty_line_of_the_breaker_has_no_runs() {
    let lines = lay_out_lines("  foo", &vec![bold(); 5], &vec!["".to_string(), "foo".to_string()]);
    assert_eq!(lines.len(), 2);
    assert!(lines[0].spans.is_empty());
    assert_eq!(lines[1].spans, vec![Span { content: "foo".to_string(), style: bold() }]);
}

#[test]
fn flatten_height_is_line_count() {
    let blocks = vec![
        RenderedBlock::Heading { level: 2, content: vec![span("Title", bold())] },
        RenderedBlock::Paragraph { content: vec![plain("one two three four five six seven")] },
        RenderedBlock::ThematicBreak,
        RenderedBlock::Spacer { lines: 2 },
        RenderedBlock::CodeBlock {
            language: "rust".to_string(),
            highlighted_lines: vec![make_code_line("fn f() {}")],
        },
    ];
    for width in [0u16, 1, 5, 12, 80] {
        let doc = flatten(&blocks, width);
        assert_eq!(doc.total_height, doc.lines.len(), "width {width}");
    }
}

#[test]
fn flatten_one_blank_line_between_blocks() {
    let blocks = vec![
        RenderedBlock::ThematicBreak,
        RenderedBlock::Paragraph { content: vec![plain("text")] },
        RenderedBlock::ThematicBreak,
    ];
    let doc = flatten(&blocks, 80);
    assert_eq!(
        doc.lines,
        vec![
            DocumentLine::Rule,
            DocumentLine::Empty,
            DocumentLine::Text(make_code_line("text")),
            DocumentLine::Empty,
            DocumentLine::Rule,
        ]
    );
    assert_eq!(doc.total_height, 5);
}

#[test]
fn flatten_width_zero_is_width_one() {
    let blocks = paragraph(vec![span("ab cd", bold())]);
    let zero = flatten(&blocks, 0);
    let one = flatten(&blocks, 1);
    assert_eq!(zero, one);
    let got: Vec<String> = zero.lines.iter().map(text_of).collect();
    assert_eq!(got, vec!["a", "b", "c", "d"]);
}

#[test]
fn flatten_code_block_is_the_same_at_every_width() {
    let long_line = "x".repeat(200);
    let blocks = vec![RenderedBlock::CodeBlock {
        language: "rust".to_string(),
        highlighted_lines: vec![make_code_line(&long_line), make_code_line("y")],
    }];
    let narrow = flatten(&blocks, 1);
    let wide = flatten(&blocks, 500);
    assert_eq!(narrow, wide);
    assert_eq!(narrow.total_height, 3);
    assert_eq!(
        narrow.lines[0],
        DocumentLine::Code(Line {
            spans: vec![Span {
                content: "rust".to_string(),
                style: Style::default().fg(Color::DarkGray),
            }],
        })
    );
    assert_eq!(narrow.lines[1], DocumentLine::Code(make_code_line(&long_line)));
    assert_eq!(narrow.lines[2], DocumentLine::Code(make_code_line("y")));
}

#[test]
fn flatten_code_block_without_language_has_no_label() {
    let blocks = vec![RenderedBlock::CodeBlock {
        language: String::new(),
        highlighted_lines: vec![make_code_line("a"), make_code_line("b")],
    }];
    let doc = flatten(&blocks, 10);
    assert_eq!(
        doc.lines,
        vec![DocumentLine::Code(make_code_line("a")), DocumentLine::Code(make_code_line("b"))]
    );
}

#[test]
fn flatten_empty_code_block_with_language_is_its_label() {
    let blocks =
        vec![RenderedBlock::CodeBlock { language: "sh".to_string(), highlighted_lines: vec![] }];
    let doc = flatten(&blocks, 10);
    assert_eq!(doc.total_height, 1);
    assert!(matches!(&doc.lines[0], DocumentLine::Code(_)));
}

#[test]
fn flatten_empty_heading_takes_one_blank_line() {
    let blocks = vec![RenderedBlock::Heading { level: 1, content: vec![] }];
    let doc = flatten(&blocks, 10);
    assert_eq!(doc.lines, vec![DocumentLine::Empty]);
}

#[test]
fn flatten_spacer_of_zero_lines() {
    let blocks = vec![
        RenderedBlock::ThematicBreak,
        RenderedBlock::Spacer { lines: 0 },
        RenderedBlock::ThematicBreak,
    ];
    let doc = flatten(&blocks, 10);
    assert_eq!(
        doc.lines,
        vec![DocumentLine::Rule, DocumentLine::Empty, DocumentLine::Empty, DocumentLine::Rule]
    );
}
