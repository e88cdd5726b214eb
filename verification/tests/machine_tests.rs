use mdink::highlight::{h, DEFAULT_THEME};
use mdink::modifier;
use mdink::parser::{
    build_blocks, heading_level_to_u8, normalize_language, parse, HeadingLevel, MdEvent, MdTag,
    MdTagEnd, RenderedBlock, StyledSpan,
};
use mdink::style::{default_code_style, default_heading_style, Style};
use mdink::tokenizer::{heading_level, read_events};

fn text(s: &str) -> MdEvent {
    MdEvent::Text(s.to_string())
}

fn plain(s: &str) -> StyledSpan {
    StyledSpan { text: s.to_string(), style: Style::default() }
}

fn with(modifiers: u16) -> Style {
    Style { fg: None, bg: None, add_modifier: modifiers, sub_modifier: 0 }
}

fn paragraph_of(mut inner: Vec<MdEvent>) -> Vec<MdEvent> {
    let mut events = vec![MdEvent::Start(MdTag::Paragraph)];
    events.append(&mut inner);
    events.push(MdEvent::End(MdTagEnd::Paragraph));
    events
}

#[test]
fn events_of_a_heading() {
    assert_eq!(
        read_events("# Hello"),
        vec![
            MdEvent::Start(MdTag::Heading(HeadingLevel::H1)),
            text("Hello"),
            MdEvent::End(MdTagEnd::Heading),
        ]
    );
}

#[test]
fn events_of_inline_formats() {
    assert_eq!(
        read_events("a *b* **c** ~~d~~ `e`"),
        vec![
            MdEvent::Start(MdTag::Paragraph),
            text("a "),
            MdEvent::Start(MdTag::Emphasis),
            text("b"),
            MdEvent::End(MdTagEnd::Emphasis),
            text(" "),
            MdEvent::Start(MdTag::Strong),
            text("c"),
            MdEvent::End(MdTagEnd::Strong),
            text(" "),
            MdEvent::Start(MdTag::Strikethrough),
            text("d"),
            MdEvent::End(MdTagEnd::Strikethrough),
            text(" "),
            MdEvent::Code("e".to_string()),
            MdEvent::End(MdTagEnd::Paragraph),
        ]
    );
}

#[test]
fn events_of_code_blocks_rules_and_breaks() {
    assert_eq!(
        read_events("```rust,no_run\ncode\n```\n\n---\n\na\\\nb\nc"),
        vec![
            MdEvent::Start(MdTag::FencedCode("rust,no_run".to_string())),
            text("code\n"),
            MdEvent::End(MdTagEnd::CodeBlock),
            MdEvent::Rule,
            MdEvent::Start(MdTag::Paragraph),
            text("a"),
            MdEvent::HardBreak,
            text("b"),
            MdEvent::SoftBreak,
            text("c"),
            MdEvent::End(MdTagEnd::Paragraph),
        ]
    );
    assert_eq!(
        read_events("    indented\n"),
        vec![
            MdEvent::Start(MdTag::IndentedCode),
            text("indented\n"),
            MdEvent::End(MdTagEnd::CodeBlock),
        ]
    );
}

#[test]
fn events_of_links_images_and_other_constructs() {
    assert_eq!(
        read_events("[t](u) ![a](i)"),
        vec![
            MdEvent::Start(MdTag::Paragraph),
            MdEvent::Start(MdTag::Link),
            text("t"),
            MdEvent::End(MdTagEnd::Link),
            text(" "),
            MdEvent::Start(MdTag::Image),
            text("a"),
            MdEvent::End(MdTagEnd::Image),
            MdEvent::End(MdTagEnd::Paragraph),
        ]
    );
    assert_eq!(
        read_events("- x"),
        vec![
            MdEvent::Start(MdTag::Other),
            MdEvent::Start(MdTag::Other),
            text("x"),
            MdEvent::End(MdTagEnd::Other),
            MdEvent::End(MdTagEnd::Other),
        ]
    );
    assert_eq!(
        read_events("- [x] done"),
        vec![
            MdEvent::Start(MdTag::Other),
            MdEvent::Start(MdTag::Other),
            MdEvent::Other,
            text("done"),
            MdEvent::End(MdTagEnd::Other),
            MdEvent::End(MdTagEnd::Other),
        ]
    );
}

#[test]
fn heading_levels_and_numbers() {
    let levels = [
        HeadingLevel::H1,
        HeadingLevel::H2,
        HeadingLevel::H3,
        HeadingLevel::H4,
        HeadingLevel::H5,
        HeadingLevel::H6,
    ];
    for (i, level) in levels.iter().enumerate() {
        assert_eq!(heading_level_to_u8(*level), i as u8 + 1);
        assert_eq!(heading_level(i as u8 + 1), *level);
    }
    assert_eq!(heading_level(0), HeadingLevel::H1);
    assert_eq!(heading_level(7), HeadingLevel::H6);
    assert_eq!(heading_level(255), HeadingLevel::H6);
}

#[test]
fn machine_no_events_no_blocks() {
    assert!(build_blocks(&vec![], &h()).is_empty());
}

#[test]
fn machine_heading_takes_its_style() {
    let events = vec![
        MdEvent::Start(MdTag::Heading(HeadingLevel::H2)),
        text("Title"),
        MdEvent::End(MdTagEnd::Heading),
    ];
    assert_eq!(
        build_blocks(&events, &h()),
        vec![RenderedBlock::Heading {
            level: 2,
            content: vec![StyledSpan { text: "Title".to_string(), style: default_heading_style(2) }],
        }]
    );
}

#[test]
fn machine_heading_style_ends_with_the_heading() {
    let mut events = vec![
        MdEvent::Start(MdTag::Heading(HeadingLevel::H1)),
        text("T"),
        MdEvent::End(MdTagEnd::Heading),
    ];
    events.append(&mut paragraph_of(vec![text("body")]));
    let blocks = build_blocks(&events, &h());
    assert_eq!(blocks.len(), 2);
    assert_eq!(blocks[1], RenderedBlock::Paragraph { content: vec![plain("body")] });
}

#[test]
fn machine_styles_merge_from_the_bottom_up() {
    let events = paragraph_of(vec![
        MdEvent::Start(MdTag::Strong),
        text("b"),
        MdEvent::Start(MdTag::Emphasis),
        text("bi"),
        MdEvent::End(MdTagEnd::Emphasis),
        text("b2"),
        MdEvent::End(MdTagEnd::Strong),
        text("p"),
    ]);
    assert_eq!(
        build_blocks(&events, &h()),
        vec![RenderedBlock::Paragraph {
            content: vec![
                StyledSpan { text: "b".to_string(), style: with(modifier::BOLD) },
                StyledSpan { text: "bi".to_string(), style: with(modifier::BOLD | modifier::ITALIC) },
                StyledSpan { text: "b2".to_string(), style: with(modifier::BOLD) },
                plain("p"),
            ],
        }]
    );
}

#[test]
fn machine_emphasis_inside_a_heading_keeps_its_colour() {
    let events = vec![
        MdEvent::Start(MdTag::Heading(HeadingLevel::H1)),
        MdEvent::Start(MdTag::Strikethrough),
        text("x"),
        MdEvent::End(MdTagEnd::Strikethrough),
        MdEvent::End(MdTagEnd::Heading),
    ];
    let blocks = build_blocks(&events, &h());
    let expected = Style {
        add_modifier: modifier::BOLD | modifier::CROSSED_OUT,
        ..default_heading_style(1)
    };
    assert_eq!(
        blocks,
        vec![RenderedBlock::Heading {
            level: 1,
            content: vec![StyledSpan { text: "x".to_string(), style: expected }],
        }]
    );
}

#[test]
fn machine_inline_code_ignores_the_style_stack() {
    let events = paragraph_of(vec![
        MdEvent::Start(MdTag::Strikethrough),
        MdEvent::Code("c".to_string()),
        MdEvent::End(MdTagEnd::Strikethrough),
    ]);
    assert_eq!(
        build_blocks(&events, &h()),
        vec![RenderedBlock::Paragraph {
            content: vec![StyledSpan { text: "c".to_string(), style: default_code_style() }],
        }]
    );
}

#[test]
fn machine_breaks_become_spans() {
    let events = paragraph_of(vec![
        MdEvent::Start(MdTag::Emphasis),
        text("a"),
        MdEvent::SoftBreak,
        MdEvent::HardBreak,
        MdEvent::End(MdTagEnd::Emphasis),
    ]);
    assert_eq!(
        build_blocks(&events, &h()),
        vec![RenderedBlock::Paragraph {
            content: vec![
                StyledSpan { text: "a".to_string(), style: with(modifier::ITALIC) },
                StyledSpan { text: " ".to_string(), style: with(modifier::ITALIC) },
                StyledSpan { text: "\n".to_string(), style: with(modifier::ITALIC) },
            ],
        }]
    );
}

#[test]
fn machine_link_is_italic_and_image_is_plain() {
    let events = paragraph_of(vec![
        MdEvent::Start(MdTag::Link),
        text("link"),
        MdEvent::End(MdTagEnd::Link),
        MdEvent::Start(MdTag::Image),
        text("alt"),
        MdEvent::End(MdTagEnd::Image),
    ]);
    assert_eq!(
        build_blocks(&events, &h()),
        vec![RenderedBlock::Paragraph {
            content: vec![
                StyledSpan { text: "link".to_string(), style: with(modifier::ITALIC) },
                plain("alt"),
            ],
        }]
    );
}

#[test]
fn machine_rule_makes_a_thematic_break() {
    assert_eq!(build_blocks(&vec![MdEvent::Rule], &h()), vec![RenderedBlock::ThematicBreak]);
}

#[test]
fn machine_skips_nested_constructs_whole() {
    let mut events = vec![
        MdEvent::Start(MdTag::Other),
        MdEvent::Start(MdTag::Other),
        MdEvent::Start(MdTag::Paragraph),
        text("inside"),
        MdEvent::Rule,
        MdEvent::End(MdTagEnd::Paragraph),
        MdEvent::End(MdTagEnd::Other),
        MdEvent::Start(MdTag::Heading(HeadingLevel::H1)),
        MdEvent::End(MdTagEnd::Heading),
        MdEvent::End(MdTagEnd::Other),
    ];
    events.append(&mut paragraph_of(vec![text("after")]));
    assert_eq!(
        build_blocks(&events, &h()),
        vec![RenderedBlock::Paragraph { content: vec![plain("after")] }]
    );
}

#[test]
fn machine_code_block_collects_text_only() {
    let events = vec![
        MdEvent::Start(MdTag::FencedCode("nosuchlanguage title".to_string())),
        text("one\n"),
        MdEvent::SoftBreak,
        MdEvent::Start(MdTag::Paragraph),
        MdEvent::Rule,
        text("two\n"),
        MdEvent::End(MdTagEnd::Paragraph),
        MdEvent::End(MdTagEnd::CodeBlock),
    ];
    let highlighter = h();
    let blocks = build_blocks(&events, &highlighter);
    assert_eq!(
        blocks,
        vec![RenderedBlock::CodeBlock {
            language: "nosuchlanguage".to_string(),
            highlighted_lines: highlighter.highlight_code("one\ntwo\n", "nosuchlanguage", DEFAULT_THEME),
        }]
    );
    match &blocks[0] {
        RenderedBlock::CodeBlock { highlighted_lines, .. } => {
            assert_eq!(highlighted_lines.len(), 2);
        }
        _ => panic!("expected a code block"),
    }
}

#[test]
fn machine_indented_code_has_no_language() {
    let events = vec![
        MdEvent::Start(MdTag::IndentedCode),
        text("x\n"),
        MdEvent::End(MdTagEnd::CodeBlock),
    ];
    match &build_blocks(&events, &h())[0] {
        RenderedBlock::CodeBlock { language, highlighted_lines } => {
            assert_eq!(language, "");
            assert_eq!(highlighted_lines.len(), 1);
        }
        _ => panic!("expected a code block"),
    }
}

#[test]
fn machine_heading_end_without_heading_is_level_one() {
    let events = vec![
        MdEvent::Start(MdTag::Paragraph),
        MdEvent::Start(MdTag::Strong),
        text("x"),
        MdEvent::End(MdTagEnd::Heading),
        MdEvent::Start(MdTag::Paragraph),
        text("y"),
        MdEvent::End(MdTagEnd::Paragraph),
    ];
    assert_eq!(
        build_blocks(&events, &h()),
        vec![
            RenderedBlock::Heading {
                level: 1,
                content: vec![StyledSpan { text: "x".to_string(), style: with(modifier::BOLD) }],
            },
            RenderedBlock::Paragraph {
                content: vec![StyledSpan { text: "y".to_string(), style: with(modifier::BOLD) }],
            },
        ]
    );
}

#[test]
fn machine_stops_when_the_state_stack_is_empty() {
    let mut events = vec![MdEvent::End(MdTagEnd::Paragraph)];
    events.append(&mut paragraph_of(vec![text("lost")]));
    events.push(MdEvent::Rule);
    assert_eq!(
        build_blocks(&events, &h()),
        vec![RenderedBlock::Paragraph { content: vec![] }]
    );
}

#[test]
fn machine_end_of_format_on_an_empty_style_stack_is_ignored() {
    let events = paragraph_of(vec![
        MdEvent::End(MdTagEnd::Strong),
        MdEvent::End(MdTagEnd::Link),
        text("x"),
    ]);
    assert_eq!(
        build_blocks(&events, &h()),
        vec![RenderedBlock::Paragraph { content: vec![plain("x")] }]
    );
}

#[test]
fn machine_paragraph_start_clears_collected_spans() {
    let events = vec![
        text("stray"),
        MdEvent::Start(MdTag::Paragraph),
        text("kept"),
        MdEvent::End(MdTagEnd::Paragraph),
    ];
    assert_eq!(
        build_blocks(&events, &h()),
        vec![RenderedBlock::Paragraph { content: vec![plain("kept")] }]
    );
}

#[test]
fn language_is_the_first_word_up_to_a_comma() {
    assert_eq!(normalize_language("rust,no_run"), "rust");
    assert_eq!(normalize_language("python title=\"x.py\""), "python");
    assert_eq!(normalize_language("   rust   "), "rust");
    assert_eq!(normalize_language("\t\u{a0}js\u{2003}x"), "js");
    assert_eq!(normalize_language(""), "");
    assert_eq!(normalize_language("   "), "");
    assert_eq!(normalize_language(",rust"), "");
    assert_eq!(normalize_language("c++"), "c++");
    assert_eq!(normalize_language("日本語,x"), "日本語");
}

#[test]
fn parse_list_then_paragraph_gives_one_paragraph() {
    let blocks = parse("- a\n  - b\n\n    c\n\n- d\n\nAfter", &h());
    assert_eq!(blocks, vec![RenderedBlock::Paragraph { content: vec![plain("After")] }]);
}

#[test]
fn parse_is_build_blocks_of_the_events() {
    let source = "# T\n\ntext *em*\n\n```py\nx = 1\n```\n\n---\n";
    let highlighter = h();
    assert_eq!(parse(source, &highlighter), build_blocks(&read_events(source), &highlighter));
}
