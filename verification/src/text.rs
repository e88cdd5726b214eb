//! Styled text: spans, display lines, and the character-level helpers the
//! parser and the layout engine share.

use vstd::prelude::*;
use vstd::string::StringExecFns;
use crate::style::Style;

verus! {

/// The mathematical model of a run of text in one style.
pub struct Run {
    pub text: Seq<char>,
    pub style: Style,
}

/// A run of text in one style, as it is displayed.
#[derive(Clone, Debug, PartialEq, Eq)]
pub struct Span {
    pub content: String,
    pub style: Style,
}

impl View for Span {
    type V = Run;

    open spec fn view(&self) -> Run {
        Run { text: self.content@, style: self.style }
    }
}

/// One display line: its runs from left to right.
#[derive(Clone, Debug, PartialEq, Eq)]
pub struct Line {
    pub spans: Vec<Span>,
}

impl View for Line {
    type V = Seq<Run>;

    open spec fn view(&self) -> Seq<Run> {
        span_views(self.spans@)
    }
}

/// The models of `spans`, in order.
pub open spec fn span_views(spans: Seq<Span>) -> Seq<Run> {
    Seq::new(spans.len(), |i: int| spans[i]@)
}

/// The models of `lines`, in order.
pub open spec fn line_views(lines: Seq<Line>) -> Seq<Seq<Run>> {
    Seq::new(lines.len(), |i: int| lines[i]@)
}

/// The texts of `runs` joined from left to right.
pub open spec fn joined_text(runs: Seq<Run>) -> Seq<char>
    decreases runs.len(),
{
    if runs.len() == 0 {
        Seq::empty()
    } else {
        joined_text(runs.drop_last()) + runs.last().text
    }
}

impl Span {
    /// A span of `text` in the plain style.
    pub fn raw(text: &str) -> (span: Span)
        ensures
            span@ == (Run { text: text@, style: Style::plain() }),
    {
        Span { content: String::from_str(text), style: Style::new() }
    }

    /// A span of `text` in `style`.
    pub fn styled(text: &str, style: Style) -> (span: Span)
        ensures
            span@ == (Run { text: text@, style }),
    {
        Span { content: String::from_str(text), style }
    }

    /// A span with the same text and style.
    pub fn duplicate(&self) -> (span: Span)
        ensures
            span@ == self@,
    {
        Span { content: self.content.clone(), style: self.style }
    }
}

impl Line {
    /// The line without any run.
    pub fn empty() -> (line: Line)
        ensures
            line@ == Seq::<Run>::empty(),
    {
        let line = Line { spans: Vec::new() };
        line
    }

    /// The line of the one run `span`.
    pub fn single(span: Span) -> (line: Line)
        ensures
            line@ == seq![span@],
    {
        let mut spans: Vec<Span> = Vec::new();
        spans.push(span);
        let line = Line { spans };
        line
    }

    /// A line with the same runs.
    pub fn duplicate(&self) -> (line: Line)
        ensures
            line@ == self@,
    {
        let mut spans: Vec<Span> = Vec::new();
        let mut i: usize = 0;
        while i < self.spans.len()
            invariant
                i <= self.spans.len(),
                spans@.len() == i,
                forall|j: int| 0 <= j < i ==> spans@[j]@ == self.spans@[j]@,
            decreases self.spans.len() - i,
        {
            spans.push(self.spans[i].duplicate());
            i = i + 1;
        }
        let line = Line { spans };
        line
    }
}

/// Returns a line of one run: `text` in the plain style.
pub fn make_code_line(text: &str) -> (line: Line)
    ensures
        line@ == seq![Run { text: text@, style: Style::plain() }],
{
    Line::single(Span::raw(text))
}

/// Returns the characters of `text`, in order.
pub fn chars_of(text: &str) -> (chars: Vec<char>)
    ensures
        chars@ == text@,
{
    let mut chars: Vec<char> = Vec::new();
    for c in it: text.chars()
        invariant
            chars@ == it.seq().take(it.index() as int),
            it.seq() == text@,
    {
        chars.push(c);
    }
    chars
}

/// `String::push` of std: appends one character to the end of a string.
pub assume_specification[ String::push ](text: &mut String, c: char)
    ensures
        final(text)@ == old(text)@.push(c),
;

/// Returns the characters `from..to` of `chars` as a string.
pub fn string_of(chars: &Vec<char>, from: usize, to: usize) -> (part: String)
    requires
        from <= to <= chars@.len(),
    ensures
        part@ == chars@.subrange(from as int, to as int),
{
    let mut part = String::new();
    let mut i: usize = from;
    while i < to
        invariant
            from <= i <= to <= chars@.len(),
            part@ == chars@.subrange(from as int, i as int),
        decreases to - i,
    {
        part.push(chars[i]);
        i = i + 1;
    }
    part
}

/// Returns the characters of `text` from position `from` up to `to`.
pub fn slice_string(text: &str, from: usize, to: usize) -> (part: String)
    requires
        from <= to <= text@.len(),
    ensures
        part@ == text@.subrange(from as int, to as int),
{
    let chars = chars_of(text);
    string_of(&chars, from, to)
}

/// Whether `c` occurs in `text`.
pub fn has_char(text: &str, c: char) -> (found: bool)
    ensures
        found == text@.contains(c),
{
    let mut found = false;
    let ghost mut seen: int = 0;
    for x in it: text.chars()
        invariant
            it.seq() == text@,
            seen == it.index(),
            0 <= seen <= text@.len(),
            found == text@.take(seen).contains(c),
    {
        proof {
            let after = text@.take(seen + 1);
            if x == c {
                assert(after[after.len() - 1] == c);
            }
            seen = seen + 1;
        }
        if x == c {
            found = true;
        }
    }
    proof {
        assert(text@.take(seen) =~= text@);
    }
    found
}

} // verus!
