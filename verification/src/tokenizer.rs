//! Reading markdown: pulldown-cmark tokenizes the source, and each of its
//! events is brought over to the parser's own event type.

use vstd::prelude::*;
use pulldown_cmark::{CodeBlockKind, Event, Options, Parser, Tag, TagEnd};
use crate::parser::{EventModel, HeadingLevel, MdEvent, MdTag, MdTagEnd, TagModel, event_views};

verus! {

/// pulldown-cmark's `Event`: one event of a markdown document, opaque
/// here.
#[verifier::external_type_specification]
#[verifier::external_body]
pub struct ExEvent<'a>(pulldown_cmark::Event<'a>);

/// The events of one markdown source, as pulldown-cmark produced them.
pub struct EventList {
    events: Vec<Event<'static>>,
}

/// The events that pulldown-cmark's `Parser` yields for `source` with
/// strikethrough, tables and task lists enabled, each taken for what the
/// block parser tells apart: the constructs it renders, with the heading
/// level or the info string of a fenced code block; text, inline code,
/// breaks and rules; and `Other` for all else.
pub uninterp spec fn event_stream(source: Seq<char>) -> Seq<EventModel>;

/// The events that `list` holds, taken as `event_stream` takes them.
pub uninterp spec fn listed_events(list: EventList) -> Seq<EventModel>;

/// What a start event opens, with the level of a heading as the number
/// that the tokenizer gives it.
enum RawTag {
    Heading(u8),
    Paragraph,
    Link,
    Image,
    Emphasis,
    Strong,
    Strikethrough,
    FencedCode(String),
    IndentedCode,
    Other,
}

/// The heading level of `number`; a number out of 1 to 6 counts as the
/// nearest level.
pub open spec fn level_of(number: u8) -> HeadingLevel {
    if number <= 1 {
        HeadingLevel::H1
    } else if number == 2 {
        HeadingLevel::H2
    } else if number == 3 {
        HeadingLevel::H3
    } else if number == 4 {
        HeadingLevel::H4
    } else if number == 5 {
        HeadingLevel::H5
    } else {
        HeadingLevel::H6
    }
}

/// Returns the heading level of `number`; a number out of 1 to 6 counts
/// as the nearest level.
pub fn heading_level(number: u8) -> (level: HeadingLevel)
    ensures
        level == level_of(number),
{
    if number <= 1 {
        HeadingLevel::H1
    } else if number == 2 {
        HeadingLevel::H2
    } else if number == 3 {
        HeadingLevel::H3
    } else if number == 4 {
        HeadingLevel::H4
    } else if number == 5 {
        HeadingLevel::H5
    } else {
        HeadingLevel::H6
    }
}

/// The tag that `raw` stands for.
spec fn raw_model(raw: RawTag) -> TagModel {
    match raw {
        RawTag::Heading(number) => TagModel::Heading(level_of(number)),
        RawTag::Paragraph => TagModel::Paragraph,
        RawTag::Link => TagModel::Link,
        RawTag::Image => TagModel::Image,
        RawTag::Emphasis => TagModel::Emphasis,
        RawTag::Strong => TagModel::Strong,
        RawTag::Strikethrough => TagModel::Strikethrough,
        RawTag::FencedCode(info) => TagModel::FencedCode(info@),
        RawTag::IndentedCode => TagModel::IndentedCode,
        RawTag::Other => TagModel::Other,
    }
}

/// Returns the tag that `raw` stands for.
fn tag_of(raw: RawTag) -> (tag: MdTag)
    ensures
        tag@ == raw_model(raw),
{
    match raw {
        RawTag::Heading(number) => MdTag::Heading(heading_level(number)),
        RawTag::Paragraph => MdTag::Paragraph,
        RawTag::Link => MdTag::Link,
        RawTag::Image => MdTag::Image,
        RawTag::Emphasis => MdTag::Emphasis,
        RawTag::Strong => MdTag::Strong,
        RawTag::Strikethrough => MdTag::Strikethrough,
        RawTag::FencedCode(info) => MdTag::FencedCode(info),
        RawTag::IndentedCode => MdTag::IndentedCode,
        RawTag::Other => MdTag::Other,
    }
}

/// Runs pulldown-cmark's `Parser::new_ext` over `source` with
/// strikethrough, tables and task lists enabled, and keeps every event.
/// Trusted: the events kept are those of the named stream, one for one.
#[verifier::external_body]
fn tokenize(source: &str) -> (list: EventList)
    ensures
        listed_events(list) == event_stream(source@),
        list.events@.len() == listed_events(list).len(),
{
    let options =
        Options::ENABLE_STRIKETHROUGH | Options::ENABLE_TABLES | Options::ENABLE_TASKLISTS;
    let parser = Parser::new_ext(source, options);
    EventList { events: parser.map(|event| event.into_static()).collect() }
}

/// Tells the variants of pulldown-cmark's `Tag` apart for the start event
/// at `index`. Trusted: a start event gives its tag, with the number of
/// the heading level or the info string of a fenced code block; any other
/// event gives `None`.
#[verifier::external_body]
fn start_at(list: &EventList, index: usize) -> (tag: Option<RawTag>)
    requires
        index < list.events@.len(),
    ensures
        match tag {
            Some(found) => listed_events(*list)[index as int] == EventModel::Start(
                raw_model(found),
            ),
            None => !(listed_events(*list)[index as int] is Start),
        },
{
    match &list.events[index] {
        Event::Start(tag) => Some(match tag {
            Tag::Heading { level, .. } => RawTag::Heading(*level as u8),
            Tag::Paragraph => RawTag::Paragraph,
            Tag::Link { .. } => RawTag::Link,
            Tag::Image { .. } => RawTag::Image,
            Tag::Emphasis => RawTag::Emphasis,
            Tag::Strong => RawTag::Strong,
            Tag::Strikethrough => RawTag::Strikethrough,
            Tag::CodeBlock(CodeBlockKind::Fenced(info)) => RawTag::FencedCode(info.to_string()),
            Tag::CodeBlock(CodeBlockKind::Indented) => RawTag::IndentedCode,
            _ => RawTag::Other,
        }),
        _ => None,
    }
}

/// Tells the variants of pulldown-cmark's `TagEnd` apart for the end event
/// at `index`. Trusted: an end event gives what it closes; any other event
/// gives `None`.
#[verifier::external_body]
fn end_at(list: &EventList, index: usize) -> (end: Option<MdTagEnd>)
    requires
        index < list.events@.len(),
    ensures
        match end {
            Some(found) => listed_events(*list)[index as int] == EventModel::End(found),
            None => !(listed_events(*list)[index as int] is End),
        },
{
    match &list.events[index] {
        Event::End(end) => Some(match end {
            TagEnd::Heading(_) => MdTagEnd::Heading,
            TagEnd::Paragraph => MdTagEnd::Paragraph,
            TagEnd::Link => MdTagEnd::Link,
            TagEnd::Image => MdTagEnd::Image,
            TagEnd::Emphasis => MdTagEnd::Emphasis,
            TagEnd::Strong => MdTagEnd::Strong,
            TagEnd::Strikethrough => MdTagEnd::Strikethrough,
            TagEnd::CodeBlock => MdTagEnd::CodeBlock,
            _ => MdTagEnd::Other,
        }),
        _ => None,
    }
}

/// Tells the variants of pulldown-cmark's `Event` apart for the event at
/// `index`. Trusted: an event that neither starts nor ends a construct
/// gives itself, with its text where it is text or inline code; a start
/// or an end event gives `None`.
#[verifier::external_body]
fn leaf_at(list: &EventList, index: usize) -> (leaf: Option<MdEvent>)
    requires
        index < list.events@.len(),
    ensures
        match leaf {
            Some(found) => listed_events(*list)[index as int] == found@ && !(found is Start) && !(
            found is End),
            None => listed_events(*list)[index as int] is Start || listed_events(
                *list,
            )[index as int] is End,
        },
{
    match &list.events[index] {
        Event::Start(_) => None,
        Event::End(_) => None,
        Event::Text(text) => Some(MdEvent::Text(text.to_string())),
        Event::Code(text) => Some(MdEvent::Code(text.to_string())),
        Event::SoftBreak => Some(MdEvent::SoftBreak),
        Event::HardBreak => Some(MdEvent::HardBreak),
        Event::Rule => Some(MdEvent::Rule),
        _ => Some(MdEvent::Other),
    }
}

/// Reads the markdown `source` into the events that describe it.
pub fn read_events(source: &str) -> (events: Vec<MdEvent>)
    ensures
        event_views(events@) == event_stream(source@),
{
    let list = tokenize(source);
    let ghost listed = listed_events(list);
    let mut events: Vec<MdEvent> = Vec::new();
    let mut i: usize = 0;
    while i < list.events.len()
        invariant
            listed == listed_events(list),
            list.events@.len() == listed.len(),
            i <= list.events@.len(),
            events@.len() == i,
            forall|j: int| 0 <= j < i ==> events@[j]@ == listed[j],
        decreases list.events.len() - i,
    {
        let event = match start_at(&list, i) {
            Some(raw) => MdEvent::Start(tag_of(raw)),
            None => match end_at(&list, i) {
                Some(end) => MdEvent::End(end),
                None => match leaf_at(&list, i) {
                    Some(leaf) => leaf,
                    None => MdEvent::Other,
                },
            },
        };
        events.push(event);
        i = i + 1;
    }
    events
}

} // verus!
