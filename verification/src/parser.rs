//! The block parser: a state machine from markdown events to rendered blocks.

use vstd::prelude::*;
use vstd::string::StringExecFns;
use crate::highlight::{DEFAULT_THEME, Highlighter, highlighted};
use crate::modifier::{BOLD, CROSSED_OUT, ITALIC};
use crate::style::{
    Style, code_style, default_code_style, default_heading_style, effective_style, heading_style,
    merged,
};
use crate::text::{Line, Run, chars_of, line_views, string_of};
use crate::tokenizer::{event_stream, read_events};

verus! {

/// A run of text in one style, as the parser collects it.
#[derive(Clone, Debug, PartialEq, Eq)]
pub struct StyledSpan {
    pub text: String,
    pub style: Style,
}

impl View for StyledSpan {
    type V = Run;

    open spec fn view(&self) -> Run {
        Run { text: self.text@, style: self.style }
    }
}

/// The models of `spans`, in order.
pub open spec fn styled_views(spans: Seq<StyledSpan>) -> Seq<Run> {
    Seq::new(spans.len(), |i: int| spans[i]@)
}

/// A block of the document, ready for layout.
#[derive(Clone, Debug, PartialEq, Eq)]
pub enum RenderedBlock {
    /// A heading of `level` 1 to 6.
    Heading { level: u8, content: Vec<StyledSpan> },
    /// A paragraph of styled text.
    Paragraph { content: Vec<StyledSpan> },
    /// A code block: its language (empty when it names none) and its
    /// lines, already styled and never wrapped.
    CodeBlock { language: String, highlighted_lines: Vec<Line> },
    /// A horizontal rule.
    ThematicBreak,
    /// `lines` blank lines.
    Spacer { lines: u16 },
}

/// The mathematical model of a [`RenderedBlock`].
pub enum Block {
    Heading { level: u8, content: Seq<Run> },
    Paragraph { content: Seq<Run> },
    CodeBlock { language: Seq<char>, lines: Seq<Seq<Run>> },
    ThematicBreak,
    Spacer { count: u16 },
}

impl View for RenderedBlock {
    type V = Block;

    open spec fn view(&self) -> Block {
        match *self {
            RenderedBlock::Heading { level, content } => Block::Heading {
                level,
                content: styled_views(content@),
            },
            RenderedBlock::Paragraph { content } => Block::Paragraph {
                content: styled_views(content@),
            },
            RenderedBlock::CodeBlock { language, highlighted_lines } => Block::CodeBlock {
                language: language@,
                lines: line_views(highlighted_lines@),
            },
            RenderedBlock::ThematicBreak => Block::ThematicBreak,
            RenderedBlock::Spacer { lines } => Block::Spacer { count: lines },
        }
    }
}

/// The models of `blocks`, in order.
pub open spec fn block_views(blocks: Seq<RenderedBlock>) -> Seq<Block> {
    Seq::new(blocks.len(), |i: int| blocks[i]@)
}

impl StyledSpan {
    /// A span with the same text and style.
    pub fn duplicate(&self) -> (span: StyledSpan)
        ensures
            span@ == self@,
    {
        StyledSpan { text: self.text.clone(), style: self.style }
    }
}

/// The level of a heading.
#[derive(Clone, Copy, Debug, PartialEq, Eq, Structural)]
pub enum HeadingLevel {
    H1,
    H2,
    H3,
    H4,
    H5,
    H6,
}

/// The number of `level`, from 1 to 6.
pub open spec fn level_number(level: HeadingLevel) -> u8 {
    match level {
        HeadingLevel::H1 => 1,
        HeadingLevel::H2 => 2,
        HeadingLevel::H3 => 3,
        HeadingLevel::H4 => 4,
        HeadingLevel::H5 => 5,
        HeadingLevel::H6 => 6,
    }
}

/// Returns the number of `level`, from 1 to 6.
pub fn heading_level_to_u8(level: HeadingLevel) -> (number: u8)
    ensures
        number == level_number(level),
        1 <= number <= 6,
{
    match level {
        HeadingLevel::H1 => 1,
        HeadingLevel::H2 => 2,
        HeadingLevel::H3 => 3,
        HeadingLevel::H4 => 4,
        HeadingLevel::H5 => 5,
        HeadingLevel::H6 => 6,
    }
}

/// What a start event opens.
#[derive(Clone, Debug, PartialEq, Eq)]
pub enum MdTag {
    Heading(HeadingLevel),
    Paragraph,
    Link,
    Image,
    Emphasis,
    Strong,
    Strikethrough,
    /// A fenced code block with its info string.
    FencedCode(String),
    /// An indented code block.
    IndentedCode,
    /// Any other construct: a list, a table, a quote and the like.
    Other,
}

/// The mathematical model of an [`MdTag`].
pub enum TagModel {
    Heading(HeadingLevel),
    Paragraph,
    Link,
    Image,
    Emphasis,
    Strong,
    Strikethrough,
    FencedCode(Seq<char>),
    IndentedCode,
    Other,
}

impl View for MdTag {
    type V = TagModel;

    open spec fn view(&self) -> TagModel {
        match *self {
            MdTag::Heading(level) => TagModel::Heading(level),
            MdTag::Paragraph => TagModel::Paragraph,
            MdTag::Link => TagModel::Link,
            MdTag::Image => TagModel::Image,
            MdTag::Emphasis => TagModel::Emphasis,
            MdTag::Strong => TagModel::Strong,
            MdTag::Strikethrough => TagModel::Strikethrough,
            MdTag::FencedCode(info) => TagModel::FencedCode(info@),
            MdTag::IndentedCode => TagModel::IndentedCode,
            MdTag::Other => TagModel::Other,
        }
    }
}

/// What an end event closes.
#[derive(Clone, Copy, Debug, PartialEq, Eq, Structural)]
pub enum MdTagEnd {
    Heading,
    Paragraph,
    Link,
    Image,
    Emphasis,
    Strong,
    Strikethrough,
    CodeBlock,
    /// The end of any other construct.
    Other,
}

/// One event of the stream that describes a markdown document.
#[derive(Clone, Debug, PartialEq, Eq)]
pub enum MdEvent {
    Start(MdTag),
    End(MdTagEnd),
    Text(String),
    /// Inline code.
    Code(String),
    SoftBreak,
    HardBreak,
    /// A horizontal rule.
    Rule,
    /// Any other event: inline HTML, a footnote reference, a task marker
    /// and the like.
    Other,
}

/// The mathematical model of an [`MdEvent`].
pub enum EventModel {
    Start(TagModel),
    End(MdTagEnd),
    Text(Seq<char>),
    Code(Seq<char>),
    SoftBreak,
    HardBreak,
    Rule,
    Other,
}

impl View for MdEvent {
    type V = EventModel;

    open spec fn view(&self) -> EventModel {
        match *self {
            MdEvent::Start(tag) => EventModel::Start(tag@),
            MdEvent::End(end) => EventModel::End(end),
            MdEvent::Text(text) => EventModel::Text(text@),
            MdEvent::Code(text) => EventModel::Code(text@),
            MdEvent::SoftBreak => EventModel::SoftBreak,
            MdEvent::HardBreak => EventModel::HardBreak,
            MdEvent::Rule => EventModel::Rule,
            MdEvent::Other => EventModel::Other,
        }
    }
}

/// The models of `events`, in order.
pub open spec fn event_views(events: Seq<MdEvent>) -> Seq<EventModel> {
    Seq::new(events.len(), |i: int| events[i]@)
}

/// Where the parser is: the block it is inside of.
#[derive(Clone, Debug, PartialEq, Eq)]
pub enum ParserState {
    /// Inside no block.
    TopLevel,
    /// Inside a heading of `level` 1 to 6.
    InHeading { level: u8 },
    /// Inside a paragraph.
    InParagraph,
    /// Inside a code block, collecting its text.
    InCodeBlock { language: String, buffer: String },
    /// Inside a construct that is not rendered; `depth` counts the
    /// constructs opened inside it and not yet closed.
    Skipping { depth: usize },
}

/// The mathematical model of a [`ParserState`].
pub enum State {
    TopLevel,
    InHeading { level: u8 },
    InParagraph,
    InCodeBlock { language: Seq<char>, buffer: Seq<char> },
    Skipping { depth: nat },
}

impl View for ParserState {
    type V = State;

    open spec fn view(&self) -> State {
        match *self {
            ParserState::TopLevel => State::TopLevel,
            ParserState::InHeading { level } => State::InHeading { level },
            ParserState::InParagraph => State::InParagraph,
            ParserState::InCodeBlock { language, buffer } => State::InCodeBlock {
                language: language@,
                buffer: buffer@,
            },
            ParserState::Skipping { depth } => State::Skipping { depth: depth as nat },
        }
    }
}

/// The models of `states`, in order.
pub open spec fn state_views(states: Seq<ParserState>) -> Seq<State> {
    Seq::new(states.len(), |i: int| states[i]@)
}

/// The parser between two events: the blocks made so far, the stack of
/// states with the current one last, the stack of styles in force, and the
/// spans collected for the block that is open.
pub struct Machine {
    pub blocks: Seq<Block>,
    pub states: Seq<State>,
    pub styles: Seq<Style>,
    pub spans: Seq<Run>,
}

/// The parser before the first event.
pub open spec fn initial() -> Machine {
    Machine {
        blocks: Seq::empty(),
        states: seq![State::TopLevel],
        styles: Seq::empty(),
        spans: Seq::empty(),
    }
}

/// The style that a modifier alone makes.
pub open spec fn modifier_style(modifier: u16) -> Style {
    Style { fg: None, bg: None, add_modifier: modifier, sub_modifier: 0 }
}

/// `styles` without its last entry; an empty stack stays empty.
pub open spec fn popped(styles: Seq<Style>) -> Seq<Style> {
    if styles.len() > 0 {
        styles.drop_last()
    } else {
        styles
    }
}

/// Whether `c` is white space: what `char::is_whitespace` returns for it.
pub uninterp spec fn white_space(c: char) -> bool;

/// `char::is_whitespace` of std: whether a character has the Unicode
/// property White_Space. It depends on the character alone, so its result
/// is named.
pub assume_specification[ char::is_whitespace ](c: char) -> (b: bool)
    ensures
        b == white_space(c),
;

/// The first position from `from` on that holds no white space, or the
/// length of `text`.
pub open spec fn word_start(text: Seq<char>, from: int) -> int
    decreases text.len() - from,
{
    if 0 <= from < text.len() && white_space(text[from]) {
        word_start(text, from + 1)
    } else {
        from
    }
}

/// The first position from `from` on that holds white space or a comma, or
/// the length of `text`.
pub open spec fn token_end(text: Seq<char>, from: int) -> int
    decreases text.len() - from,
{
    if 0 <= from < text.len() && !white_space(text[from]) && text[from] != ',' {
        token_end(text, from + 1)
    } else {
        from
    }
}

/// The language that the info string `info` of a fenced code block names:
/// its first word, up to the first comma in it.
pub open spec fn language_token(info: Seq<char>) -> Seq<char> {
    let start = word_start(info, 0);
    info.subrange(start, token_end(info, start))
}

/// Returns the language that the info string `info` names: its first
/// word, up to the first comma in it.
pub fn normalize_language(info: &str) -> (language: String)
    ensures
        language@ == language_token(info@),
{
    let chars = chars_of(info);
    let mut start: usize = 0;
    while start < chars.len() && chars[start].is_whitespace()
        invariant
            chars@ == info@,
            start <= chars@.len(),
            word_start(info@, 0) == word_start(info@, start as int),
        decreases chars.len() - start,
    {
        start = start + 1;
    }
    let mut end: usize = start;
    while end < chars.len() && !chars[end].is_whitespace() && chars[end] != ','
        invariant
            chars@ == info@,
            start <= end <= chars@.len(),
            token_end(info@, start as int) == token_end(info@, end as int),
        decreases chars.len() - end,
    {
        end = end + 1;
    }
    string_of(&chars, start, end)
}

/// The parser after an event inside a code block of `language` with
/// `buffer` collected: text joins the buffer, the end of the code block
/// makes the block from the highlighted buffer, and all else is ignored.
pub open spec fn step_in_code(
    m: Machine,
    language: Seq<char>,
    buffer: Seq<char>,
    event: EventModel,
    highlighter: Highlighter,
) -> Machine {
    match event {
        EventModel::Text(text) => Machine {
            states: m.states.drop_last().push(
                State::InCodeBlock { language, buffer: buffer + text },
            ),
            ..m
        },
        EventModel::End(MdTagEnd::CodeBlock) => Machine {
            states: m.states.drop_last(),
            blocks: m.blocks.push(
                Block::CodeBlock {
                    language,
                    lines: highlighted(highlighter, buffer, language, DEFAULT_THEME@),
                },
            ),
            ..m
        },
        _ => m,
    }
}

/// The parser after an event inside a skipped construct at `depth`: a
/// start goes one deeper, an end comes one back or leaves the construct,
/// and all else is ignored.
pub open spec fn step_in_skip(m: Machine, depth: nat, event: EventModel) -> Machine {
    match event {
        EventModel::Start(_) => Machine {
            states: m.states.drop_last().push(State::Skipping { depth: depth + 1 }),
            ..m
        },
        EventModel::End(_) => if depth == 0 {
            Machine { states: m.states.drop_last(), ..m }
        } else {
            Machine {
                states: m.states.drop_last().push(State::Skipping { depth: (depth - 1) as nat }),
                ..m
            }
        },
        _ => m,
    }
}

/// The parser with one more span: `text` in `style`.
pub open spec fn with_span(m: Machine, text: Seq<char>, style: Style) -> Machine {
    Machine { spans: m.spans.push(Run { text, style }), ..m }
}

/// The parser after a start event outside code and skipped constructs.
pub open spec fn step_start(m: Machine, tag: TagModel) -> Machine {
    match tag {
        TagModel::Heading(level) => Machine {
            styles: m.styles.push(heading_style(level_number(level))),
            spans: Seq::empty(),
            states: m.states.push(State::InHeading { level: level_number(level) }),
            ..m
        },
        TagModel::Paragraph => Machine {
            spans: Seq::empty(),
            states: m.states.push(State::InParagraph),
            ..m
        },
        TagModel::Link => Machine { styles: m.styles.push(modifier_style(ITALIC)), ..m },
        TagModel::Image => m,
        TagModel::Emphasis => Machine { styles: m.styles.push(modifier_style(ITALIC)), ..m },
        TagModel::Strong => Machine { styles: m.styles.push(modifier_style(BOLD)), ..m },
        TagModel::Strikethrough => Machine { styles: m.styles.push(modifier_style(CROSSED_OUT)), ..m },
        TagModel::FencedCode(info) => Machine {
            states: m.states.push(
                State::InCodeBlock { language: language_token(info), buffer: Seq::empty() },
            ),
            ..m
        },
        TagModel::IndentedCode => Machine {
            states: m.states.push(
                State::InCodeBlock { language: Seq::empty(), buffer: Seq::empty() },
            ),
            ..m
        },
        TagModel::Other => Machine { states: m.states.push(State::Skipping { depth: 0 }), ..m },
    }
}

/// The parser after an end event outside code and skipped constructs.
///
/// The end of a heading pops the state. Where that state is a heading, it
/// pops one style too and makes the heading at its level; where it is
/// not, the style stack is left alone and the heading is made at level 1.
/// The end of a paragraph pops the state and makes the paragraph. The end
/// of a link or of an inline format pops one style.
pub open spec fn step_end(m: Machine, end: MdTagEnd) -> Machine {
    match end {
        MdTagEnd::Heading => match m.states.last() {
            State::InHeading { level } => Machine {
                states: m.states.drop_last(),
                styles: popped(m.styles),
                blocks: m.blocks.push(Block::Heading { level, content: m.spans }),
                spans: Seq::empty(),
            },
            _ => Machine {
                states: m.states.drop_last(),
                styles: m.styles,
                blocks: m.blocks.push(Block::Heading { level: 1, content: m.spans }),
                spans: Seq::empty(),
            },
        },
        MdTagEnd::Paragraph => Machine {
            states: m.states.drop_last(),
            styles: m.styles,
            blocks: m.blocks.push(Block::Paragraph { content: m.spans }),
            spans: Seq::empty(),
        },
        MdTagEnd::Link | MdTagEnd::Emphasis | MdTagEnd::Strong | MdTagEnd::Strikethrough => Machine {
            styles: popped(m.styles),
            ..m
        },
        MdTagEnd::Image | MdTagEnd::CodeBlock | MdTagEnd::Other => m,
    }
}

/// The parser after an event outside code and skipped constructs.
///
/// Text takes the style merged from the whole style stack; inline code
/// takes the code style whatever the stack holds; a soft break is a space
/// and a hard break a line feed, both in the merged style; a rule makes a
/// thematic break.
pub open spec fn step_normal(m: Machine, event: EventModel) -> Machine {
    match event {
        EventModel::Start(tag) => step_start(m, tag),
        EventModel::End(end) => step_end(m, end),
        EventModel::Text(text) => with_span(m, text, merged(m.styles)),
        EventModel::Code(text) => with_span(m, text, code_style()),
        EventModel::SoftBreak => with_span(m, seq![' '], merged(m.styles)),
        EventModel::HardBreak => with_span(m, seq!['\n'], merged(m.styles)),
        EventModel::Rule => Machine { blocks: m.blocks.push(Block::ThematicBreak), ..m },
        EventModel::Other => m,
    }
}

/// The parser after `event`, which is read against the state on top of
/// the stack. A parser whose state stack is empty has stopped: it ignores
/// every event.
pub open spec fn step(m: Machine, event: EventModel, highlighter: Highlighter) -> Machine {
    if m.states.len() == 0 {
        m
    } else {
        match m.states.last() {
            State::InCodeBlock { language, buffer } => step_in_code(
                m,
                language,
                buffer,
                event,
                highlighter,
            ),
            State::Skipping { depth } => step_in_skip(m, depth, event),
            _ => step_normal(m, event),
        }
    }
}

/// The parser after `events`.
pub open spec fn run(events: Seq<EventModel>, highlighter: Highlighter) -> Machine
    decreases events.len(),
{
    if events.len() == 0 {
        initial()
    } else {
        step(run(events.drop_last(), highlighter), events.last(), highlighter)
    }
}

/// The blocks that `events` make.
pub open spec fn parsed_blocks(events: Seq<EventModel>, highlighter: Highlighter) -> Seq<Block> {
    run(events, highlighter).blocks
}

/// The block parser at work: the blocks made so far, the stack of states
/// with the current one last, the stack of styles in force, and the spans
/// collected for the block that is open.
struct BlockParser {
    blocks: Vec<RenderedBlock>,
    state_stack: Vec<ParserState>,
    style_stack: Vec<Style>,
    current_spans: Vec<StyledSpan>,
}

/// Whether every skip depth in `states` is below `bound`.
spec fn depths_below(states: Seq<State>, bound: int) -> bool {
    forall|i: int|
        0 <= i < states.len() ==> match #[trigger] states[i] {
            State::Skipping { depth } => depth < bound,
            _ => true,
        }
}

/// One event deepens the skipping by one level at most.
proof fn lemma_step_depths(m: Machine, event: EventModel, highlighter: Highlighter, bound: int)
    requires
        bound >= 0,
        depths_below(m.states, bound),
    ensures
        depths_below(step(m, event, highlighter).states, bound + 1),
{
    let after = step(m, event, highlighter).states;
    if m.states.len() > 0 {
        assert forall|i: int| 0 <= i < after.len() implies match #[trigger] after[i] {
            State::Skipping { depth } => depth < bound + 1,
            _ => true,
        } by {}
    }
}

impl BlockParser {
    spec fn model(&self) -> Machine {
        Machine {
            blocks: block_views(self.blocks@),
            states: state_views(self.state_stack@),
            styles: self.style_stack@,
            spans: styled_views(self.current_spans@),
        }
    }

    fn new() -> (parser: BlockParser)
        ensures
            parser.model() == initial(),
    {
        let mut state_stack: Vec<ParserState> = Vec::new();
        state_stack.push(ParserState::TopLevel);
        let parser = BlockParser {
            blocks: Vec::new(),
            state_stack,
            style_stack: Vec::new(),
            current_spans: Vec::new(),
        };
        proof {
            assert(parser.model().blocks =~= initial().blocks);
            assert(parser.model().states =~= initial().states);
            assert(parser.model().spans =~= initial().spans);
        }
        parser
    }

    fn push_state(&mut self, state: ParserState)
        ensures
            final(self).model() == (Machine {
                states: old(self).model().states.push(state@),
                ..old(self).model()
            }),
    {
        self.state_stack.push(state);
        proof {
            assert(self.model().states =~= old(self).model().states.push(state@));
        }
    }

    fn pop_state(&mut self) -> (top: Option<ParserState>)
        ensures
            match top {
                Some(state) => old(self).model().states.len() > 0 && state@ == old(
                    self,
                ).model().states.last() && final(self).model() == (Machine {
                    states: old(self).model().states.drop_last(),
                    ..old(self).model()
                }),
                None => old(self).model().states.len() == 0 && final(self).model() == old(
                    self,
                ).model(),
            },
    {
        let top = self.state_stack.pop();
        proof {
            if top is Some {
                assert(self.model().states =~= old(self).model().states.drop_last());
            }
        }
        top
    }

    fn push_style(&mut self, style: Style)
        ensures
            final(self).model() == (Machine {
                styles: old(self).model().styles.push(style),
                ..old(self).model()
            }),
    {
        self.style_stack.push(style);
    }

    fn pop_style(&mut self)
        ensures
            final(self).model() == (Machine {
                styles: popped(old(self).model().styles),
                ..old(self).model()
            }),
    {
        let _ = self.style_stack.pop();
    }

    fn push_span(&mut self, text: String, style: Style)
        ensures
            final(self).model() == with_span(old(self).model(), text@, style),
    {
        self.current_spans.push(StyledSpan { text, style });
        proof {
            assert(self.model().spans =~= old(self).model().spans.push(Run { text: text@, style }));
        }
    }

    fn clear_spans(&mut self)
        ensures
            final(self).model() == (Machine { spans: Seq::empty(), ..old(self).model() }),
    {
        self.current_spans = Vec::new();
        proof {
            assert(self.model().spans =~= Seq::<Run>::empty());
        }
    }

    fn take_spans(&mut self) -> (content: Vec<StyledSpan>)
        ensures
            styled_views(content@) == old(self).model().spans,
            final(self).model() == (Machine { spans: Seq::empty(), ..old(self).model() }),
    {
        let mut content: Vec<StyledSpan> = Vec::new();
        std::mem::swap(&mut content, &mut self.current_spans);
        proof {
            assert(self.model().spans =~= Seq::<Run>::empty());
        }
        content
    }

    fn push_block(&mut self, block: RenderedBlock)
        ensures
            final(self).model() == (Machine {
                blocks: old(self).model().blocks.push(block@),
                ..old(self).model()
            }),
    {
        self.blocks.push(block);
        proof {
            assert(self.model().blocks =~= old(self).model().blocks.push(block@));
        }
    }

    /// Reads a start event outside code and skipped constructs.
    fn feed_start(&mut self, tag: &MdTag)
        ensures
            final(self).model() == step_start(old(self).model(), tag@),
    {
        match tag {
            MdTag::Heading(level) => {
                let number = heading_level_to_u8(*level);
                self.push_style(default_heading_style(number));
                self.clear_spans();
                self.push_state(ParserState::InHeading { level: number });
            },
            MdTag::Paragraph => {
                self.clear_spans();
                self.push_state(ParserState::InParagraph);
            },
            MdTag::Link => {
                self.push_style(
                    Style { fg: None, bg: None, add_modifier: ITALIC, sub_modifier: 0 },
                );
            },
            MdTag::Image => {},
            MdTag::Emphasis => {
                self.push_style(
                    Style { fg: None, bg: None, add_modifier: ITALIC, sub_modifier: 0 },
                );
            },
            MdTag::Strong => {
                self.push_style(Style { fg: None, bg: None, add_modifier: BOLD, sub_modifier: 0 });
            },
            MdTag::Strikethrough => {
                self.push_style(
                    Style { fg: None, bg: None, add_modifier: CROSSED_OUT, sub_modifier: 0 },
                );
            },
            MdTag::FencedCode(info) => {
                let language = normalize_language(info.as_str());
                self.push_state(ParserState::InCodeBlock { language, buffer: String::new() });
            },
            MdTag::IndentedCode => {
                self.push_state(
                    ParserState::InCodeBlock { language: String::new(), buffer: String::new() },
                );
            },
            MdTag::Other => {
                self.push_state(ParserState::Skipping { depth: 0 });
            },
        }
    }

    /// Reads an end event outside code and skipped constructs.
    fn feed_end(&mut self, end: MdTagEnd)
        requires
            old(self).model().states.len() > 0,
        ensures
            final(self).model() == step_end(old(self).model(), end),
    {
        match end {
            MdTagEnd::Heading => {
                let level = match self.pop_state() {
                    Some(ParserState::InHeading { level }) => {
                        self.pop_style();
                        level
                    },
                    _ => 1,
                };
                let content = self.take_spans();
                self.push_block(RenderedBlock::Heading { level, content });
            },
            MdTagEnd::Paragraph => {
                let _ = self.pop_state();
                let content = self.take_spans();
                self.push_block(RenderedBlock::Paragraph { content });
            },
            MdTagEnd::Link | MdTagEnd::Emphasis | MdTagEnd::Strong | MdTagEnd::Strikethrough => {
                self.pop_style();
            },
            MdTagEnd::Image | MdTagEnd::CodeBlock | MdTagEnd::Other => {},
        }
    }

    /// Reads an event outside code and skipped constructs.
    fn feed_normal(&mut self, event: &MdEvent)
        requires
            old(self).model().states.len() > 0,
        ensures
            final(self).model() == step_normal(old(self).model(), event@),
    {
        match event {
            MdEvent::Start(tag) => {
                self.feed_start(tag);
            },
            MdEvent::End(end) => {
                self.feed_end(*end);
            },
            MdEvent::Text(text) => {
                let style = effective_style(&self.style_stack);
                self.push_span(text.clone(), style);
            },
            MdEvent::Code(text) => {
                self.push_span(text.clone(), default_code_style());
            },
            MdEvent::SoftBreak => {
                let style = effective_style(&self.style_stack);
                proof {
                    reveal_strlit(" ");
                    assert(" "@ =~= seq![' ']);
                }
                self.push_span(String::from_str(" "), style);
            },
            MdEvent::HardBreak => {
                let style = effective_style(&self.style_stack);
                proof {
                    reveal_strlit("\n");
                    assert("\n"@ =~= seq!['\n']);
                }
                self.push_span(String::from_str("\n"), style);
            },
            MdEvent::Rule => {
                self.push_block(RenderedBlock::ThematicBreak);
            },
            MdEvent::Other => {},
        }
    }

    /// Reads `event` against the state on top of the stack.
    fn feed(&mut self, event: &MdEvent, highlighter: &Highlighter)
        requires
            depths_below(old(self).model().states, usize::MAX as int),
        ensures
            final(self).model() == step(old(self).model(), event@, *highlighter),
            forall|bound: int|
                bound >= 0 && depths_below(old(self).model().states, bound) ==> depths_below(
                    final(self).model().states,
                    bound + 1,
                ),
    {
        let ghost before = self.model();
        match self.pop_state() {
            None => {},
            Some(ParserState::InCodeBlock { language, buffer }) => {
                match event {
                    MdEvent::Text(text) => {
                        let mut buffer = buffer;
                        buffer.append(text.as_str());
                        self.push_state(ParserState::InCodeBlock { language, buffer });
                    },
                    MdEvent::End(MdTagEnd::CodeBlock) => {
                        let highlighted_lines = highlighter.highlight_code(
                            buffer.as_str(),
                            language.as_str(),
                            DEFAULT_THEME,
                        );
                        self.push_block(RenderedBlock::CodeBlock { language, highlighted_lines });
                    },
                    _ => {
                        self.push_state(ParserState::InCodeBlock { language, buffer });
                        proof {
                            assert(self.model().states =~= before.states);
                        }
                    },
                }
            },
            Some(ParserState::Skipping { depth }) => {
                match event {
                    MdEvent::Start(_) => {
                        self.push_state(ParserState::Skipping { depth: depth + 1 });
                    },
                    MdEvent::End(_) => {
                        if depth > 0 {
                            self.push_state(ParserState::Skipping { depth: depth - 1 });
                        }
                    },
                    _ => {
                        self.push_state(ParserState::Skipping { depth });
                        proof {
                            assert(self.model().states =~= before.states);
                        }
                    },
                }
            },
            Some(state) => {
                self.push_state(state);
                proof {
                    assert(self.model().states =~= before.states);
                }
                self.feed_normal(event);
            },
        }
        proof {
            assert forall|bound: int|
                bound >= 0 && depths_below(before.states, bound) implies depths_below(
                self.model().states,
                bound + 1,
            ) by {
                lemma_step_depths(before, event@, *highlighter, bound);
            }
        }
    }
}

/// Builds the blocks of a document from the events that describe it.
///
/// The events are read in order, each against the state on top of the
/// state stack. Constructs that are not rendered are skipped whole, with
/// all that is nested in them. An end event without its start does not
/// fail: it is read as the rules for its kind say.
pub fn build_blocks(events: &Vec<MdEvent>, highlighter: &Highlighter) -> (blocks: Vec<
    RenderedBlock,
>)
    ensures
        block_views(blocks@) == parsed_blocks(event_views(events@), *highlighter),
{
    let ghost models = event_views(events@);
    let mut parser = BlockParser::new();
    let mut i: usize = 0;
    while i < events.len()
        invariant
            models == event_views(events@),
            i <= events@.len(),
            parser.model() == run(models.take(i as int), *highlighter),
            depths_below(parser.model().states, i as int + 1),
        decreases events.len() - i,
    {
        proof {
            let next = models.take(i + 1);
            assert(next.drop_last() =~= models.take(i as int));
        }
        parser.feed(&events[i], highlighter);
        i = i + 1;
    }
    proof {
        assert(models.take(i as int) =~= models);
    }
    parser.blocks
}

/// Parses the markdown `source` into the blocks of the document.
///
/// The source is read with strikethrough, tables and task lists enabled,
/// so that documents which use them are read as they were meant, though
/// lists and tables are skipped. Code blocks are highlighted by
/// `highlighter` in the default theme.
pub fn parse(source: &str, highlighter: &Highlighter) -> (blocks: Vec<RenderedBlock>)
    ensures
        block_views(blocks@) == parsed_blocks(event_stream(source@), *highlighter),
{
    let events = read_events(source);
    build_blocks(&events, highlighter)
}

/// Whether every heading among `blocks` has a level from 1 to 6.
pub open spec fn heading_levels_hold(blocks: Seq<Block>) -> bool {
    forall|i: int|
        0 <= i < blocks.len() ==> match #[trigger] blocks[i] {
            Block::Heading { level, content } => 1 <= level <= 6,
            _ => true,
        }
}

/// Whether every heading state among `states` has a level from 1 to 6.
pub open spec fn heading_states_hold(states: Seq<State>) -> bool {
    forall|i: int|
        0 <= i < states.len() ==> match #[trigger] states[i] {
            State::InHeading { level } => 1 <= level <= 6,
            _ => true,
        }
}

/// One event keeps the heading levels within 1 to 6.
pub proof fn lemma_step_heading_levels(m: Machine, event: EventModel, highlighter: Highlighter)
    requires
        heading_levels_hold(m.blocks),
        heading_states_hold(m.states),
    ensures
        heading_levels_hold(step(m, event, highlighter).blocks),
        heading_states_hold(step(m, event, highlighter).states),
{
    let after = step(m, event, highlighter);
    if m.states.len() > 0 {
        assert forall|i: int| 0 <= i < after.states.len() implies match #[trigger] after.states[i] {
            State::InHeading { level } => 1 <= level <= 6,
            _ => true,
        } by {}
        assert forall|i: int| 0 <= i < after.blocks.len() implies match #[trigger] after.blocks[i] {
            Block::Heading { level, content } => 1 <= level <= 6,
            _ => true,
        } by {}
    }
}

/// Whatever the events are, every heading that they make has a level
/// from 1 to 6.
pub proof fn lemma_heading_levels(events: Seq<EventModel>, highlighter: Highlighter)
    ensures
        heading_levels_hold(parsed_blocks(events, highlighter)),
        heading_states_hold(run(events, highlighter).states),
    decreases events.len(),
{
    if events.len() > 0 {
        lemma_heading_levels(events.drop_last(), highlighter);
        lemma_step_heading_levels(
            run(events.drop_last(), highlighter),
            events.last(),
            highlighter,
        );
    }
}

/// Events are read one after the other: the parser after `events` and one
/// more event is the parser after `events`, stepped once.
pub proof fn lemma_run_push(events: Seq<EventModel>, event: EventModel, highlighter: Highlighter)
    ensures
        run(events.push(event), highlighter) == step(run(events, highlighter), event, highlighter),
{
    assert(events.push(event).drop_last() =~= events);
}

/// A construct that is not rendered is skipped whole: from a parser
/// outside code and skipped constructs, its start, any events that
/// neither start nor end a construct, and its end leave the blocks, the
/// styles and the collected spans as they were, and the state stack too.
pub proof fn lemma_skip_leaves_no_trace(m: Machine, inner: EventModel, highlighter: Highlighter)
    requires
        m.states.len() > 0,
        !(m.states.last() is InCodeBlock),
        !(m.states.last() is Skipping),
        !(inner is Start),
        !(inner is End),
    ensures
        step(
            step(step(m, EventModel::Start(TagModel::Other), highlighter), inner, highlighter),
            EventModel::End(MdTagEnd::Other),
            highlighter,
        ) == m,
{
    let opened = step(m, EventModel::Start(TagModel::Other), highlighter);
    let inside = step(opened, inner, highlighter);
    let closed = step(inside, EventModel::End(MdTagEnd::Other), highlighter);
    assert(closed.states =~= m.states);
}

} // verus!
