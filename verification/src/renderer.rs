//! What is drawn: the rows that the visible lines of a document take on
//! the screen, ready to be put there.

use unicode_width::UnicodeWidthStr;
use vstd::prelude::*;
use vstd::string::{StrSliceExecFns, StringExecFns};
use crate::app::{App, furthest, smaller};
use crate::layout::{DocumentLine, LineModel};
use crate::modifier::{BOLD, DIM};
use crate::style::{Color, Style};
use crate::text::{Line, Run, Span, span_views};

verus! {

/// The columns that `text` takes on a terminal: what
/// `UnicodeWidthStr::width` returns for it.
pub uninterp spec fn display_width(text: Seq<char>) -> usize;

/// Calls `UnicodeWidthStr::width` on `text`.
#[verifier::external_body]
fn text_width(text: &str) -> (columns: usize)
    ensures
        columns == display_width(text@),
{
    text.width()
}

/// `text` written `count` times over.
pub open spec fn repeated(text: Seq<char>, count: nat) -> Seq<char>
    decreases count,
{
    if count == 0 {
        Seq::empty()
    } else {
        repeated(text, (count - 1) as nat) + text
    }
}

/// Returns `text` written `count` times over.
pub fn repeat_text(text: &str, count: usize) -> (out: String)
    ensures
        out@ == repeated(text@, count as nat),
{
    let mut out = String::new();
    let mut i: usize = 0;
    while i < count
        invariant
            i <= count,
            out@ == repeated(text@, i as nat),
        decreases count - i,
    {
        out.append(text);
        i = i + 1;
    }
    out
}

/// The style of the padding of a code line: the code background alone.
pub open spec fn pad_style() -> Style {
    Style { fg: None, bg: Some(Color::Indexed(235)), add_modifier: 0, sub_modifier: 0 }
}

/// `runs`, each on the code background.
pub open spec fn on_code_background(runs: Seq<Run>) -> Seq<Run> {
    Seq::new(
        runs.len(),
        |i: int|
            Run {
                text: runs[i].text,
                style: Style { bg: Some(Color::Indexed(235)), ..runs[i].style },
            },
    )
}

/// The columns that `runs` take together.
pub open spec fn total_width(runs: Seq<Run>) -> int
    decreases runs.len(),
{
    if runs.len() == 0 {
        0
    } else {
        total_width(runs.drop_last()) + display_width(runs.last().text)
    }
}

/// The row of a code line of `runs` in `width` columns: one space of
/// padding, the runs on the code background, and spaces that fill what is
/// left of the width.
pub open spec fn code_row(runs: Seq<Run>, width: u16) -> Seq<Run> {
    let body = seq![Run { text: " "@, style: pad_style() }] + on_code_background(runs);
    let left = width - total_width(body);
    if left > 0 {
        body.push(Run { text: repeated(" "@, left as nat), style: pad_style() })
    } else {
        body
    }
}

/// The row of a rule in `width` columns: the rule glyph across the whole
/// width, dimmed.
pub open spec fn rule_row(width: u16) -> Seq<Run> {
    seq![
        Run {
            text: repeated("─"@, width as nat),
            style: Style { fg: None, bg: None, add_modifier: DIM, sub_modifier: 0 },
        },
    ]
}

/// What is drawn for `line` in `width` columns; nothing for a blank line.
pub open spec fn row_of(line: LineModel, width: u16) -> Option<Seq<Run>> {
    match line {
        LineModel::Text(runs) => Some(runs),
        LineModel::Code(runs) => Some(code_row(runs, width)),
        LineModel::Empty => None,
        LineModel::Rule => Some(rule_row(width)),
    }
}

/// Builds the row of a code line in `width` columns.
pub fn build_code_row(line: &Line, width: u16) -> (row: Line)
    ensures
        row@ == code_row(line@, width),
{
    let pad = Style { fg: None, bg: Some(Color::Indexed(235)), add_modifier: 0, sub_modifier: 0 };
    let mut spans: Vec<Span> = Vec::new();
    spans.push(Span::styled(" ", pad));
    let mut used: usize = text_width(" ");
    let ghost first = Run { text: " "@, style: pad_style() };
    let ghost runs = line@;
    proof {
        assert(span_views(spans@) =~= seq![first] + on_code_background(runs).take(0));
        assert(total_width(seq![first].drop_last()) == 0);
    }
    let mut i: usize = 0;
    while i < line.spans.len()
        invariant
            runs == line@,
            i <= line.spans@.len(),
            span_views(spans@) == seq![first] + on_code_background(runs).take(i as int),
            used == smaller(total_width(span_views(spans@)), usize::MAX as int),
        decreases line.spans.len() - i,
    {
        let span = &line.spans[i];
        let ghost before = span_views(spans@);
        let style = Style { bg: Some(Color::Indexed(235)), ..span.style };
        let moved = Span::styled(span.content.as_str(), style);
        used = used.saturating_add(text_width(span.content.as_str()));
        spans.push(moved);
        proof {
            assert(span_views(spans@) =~= before.push(moved@));
            assert(span_views(spans@).drop_last() =~= before);
        }
        i = i + 1;
    }
    proof {
        assert(on_code_background(runs).take(i as int) =~= on_code_background(runs));
    }
    if (width as usize) > used {
        let fill = repeat_text(" ", width as usize - used);
        spans.push(Span::styled(fill.as_str(), pad));
    }
    Line { spans }
}

/// Builds the row of a rule in `width` columns.
pub fn build_rule_row(width: u16) -> (row: Line)
    ensures
        row@ == rule_row(width),
{
    let glyphs = repeat_text("─", width as usize);
    Line::single(
        Span::styled(
            glyphs.as_str(),
            Style { fg: None, bg: None, add_modifier: DIM, sub_modifier: 0 },
        ),
    )
}

/// Builds what is drawn for `line` in `width` columns: text as it is, code
/// on its background across the whole width, a rule as glyphs across the
/// whole width, and nothing for a blank line.
pub fn render_line(line: &DocumentLine, width: u16) -> (row: Option<Line>)
    ensures
        match row {
            Some(drawn) => row_of(line@, width) == Some(drawn@),
            None => row_of(line@, width) is None,
        },
{
    match line {
        DocumentLine::Text(text) => Some(text.duplicate()),
        DocumentLine::Code(code) => Some(build_code_row(code, width)),
        DocumentLine::Empty => None,
        DocumentLine::Rule => Some(build_rule_row(width)),
    }
}

/// The number of lines drawn in a terminal of `height` rows: the visible
/// lines that the document holds, and no more than the rows above the
/// status bar.
pub open spec fn drawn_count(app: App, height: u16) -> int {
    let end = smaller(
        smaller(app.scroll_offset + app.viewport_height, app.document.total_height as int),
        app.document.lines@.len() as int,
    );
    smaller(furthest(end, app.scroll_offset as int), furthest(height as int, 1))
}

/// Builds the rows of the content area of a terminal of `width` columns
/// and `height` rows, from the top down: one for each visible line of the
/// document, as far as the rows above the status bar reach.
pub fn visible_rows(app: &App, width: u16, height: u16) -> (rows: Vec<Option<Line>>)
    ensures
        rows@.len() == drawn_count(*app, height),
        forall|i: int|
            0 <= i < rows@.len() ==> match #[trigger] rows@[i] {
                Some(drawn) => row_of(app.document@[app.scroll_offset + i], width) == Some(drawn@),
                None => row_of(app.document@[app.scroll_offset + i], width) is None,
            },
{
    let content_height: usize = height.saturating_sub(1) as usize;
    let range = app.visible_range();
    let mut rows: Vec<Option<Line>> = Vec::new();
    let mut index: usize = range.start;
    let end: usize = if range.end <= app.document.lines.len() {
        range.end
    } else {
        app.document.lines.len()
    };
    while index < end && rows.len() < content_height
        invariant
            end <= app.document.lines@.len(),
            range.start == app.scroll_offset,
            index == app.scroll_offset + rows@.len(),
            rows@.len() <= content_height,
            index <= end || rows@.len() == 0,
            forall|i: int|
                0 <= i < rows@.len() ==> match #[trigger] rows@[i] {
                    Some(drawn) => row_of(app.document@[app.scroll_offset + i], width) == Some(
                        drawn@,
                    ),
                    None => row_of(app.document@[app.scroll_offset + i], width) is None,
                },
        decreases end - index,
    {
        let row = render_line(&app.document.lines[index], width);
        rows.push(row);
        index = index + 1;
    }
    rows
}

/// The character of the decimal digit `d`.
pub open spec fn digit(d: int) -> char {
    if d == 0 {
        '0'
    } else if d == 1 {
        '1'
    } else if d == 2 {
        '2'
    } else if d == 3 {
        '3'
    } else if d == 4 {
        '4'
    } else if d == 5 {
        '5'
    } else if d == 6 {
        '6'
    } else if d == 7 {
        '7'
    } else if d == 8 {
        '8'
    } else {
        '9'
    }
}

/// The digits of `n` in base ten, the most significant first.
pub open spec fn decimal(n: nat) -> Seq<char>
    decreases n,
{
    if n < 10 {
        seq![digit(n as int)]
    } else {
        decimal(n / 10).push(digit((n % 10) as int))
    }
}

/// Returns the text of the decimal digit `d`.
fn digit_text(d: u128) -> (text: &'static str)
    requires
        d < 10,
    ensures
        text@ == seq![digit(d as int)],
{
    proof {
        reveal_strlit("0");
        reveal_strlit("1");
        reveal_strlit("2");
        reveal_strlit("3");
        reveal_strlit("4");
        reveal_strlit("5");
        reveal_strlit("6");
        reveal_strlit("7");
        reveal_strlit("8");
        reveal_strlit("9");
    }
    let text = if d == 0 {
        "0"
    } else if d == 1 {
        "1"
    } else if d == 2 {
        "2"
    } else if d == 3 {
        "3"
    } else if d == 4 {
        "4"
    } else if d == 5 {
        "5"
    } else if d == 6 {
        "6"
    } else if d == 7 {
        "7"
    } else if d == 8 {
        "8"
    } else {
        "9"
    };
    text
}

/// Returns `n` written in base ten.
pub fn decimal_text(n: u128) -> (text: String)
    ensures
        text@ == decimal(n as nat),
    decreases n,
{
    if n < 10 {
        String::from_str(digit_text(n))
    } else {
        let mut text = decimal_text(n / 10);
        text.append(digit_text(n % 10));
        text
    }
}

/// The number shown for the line at the top of the viewport: the offset
/// counted from 1, and 0 for a document without lines.
pub open spec fn current_line(scroll_offset: usize, total_height: usize) -> nat {
    if total_height == 0 {
        0
    } else {
        (scroll_offset + 1) as nat
    }
}

/// The text of the status bar: the file name, how far the document is
/// scrolled in percent, and the current line out of the number of lines.
pub open spec fn status_text(
    filename: Seq<char>,
    percent: u16,
    scroll_offset: usize,
    total_height: usize,
) -> Seq<char> {
    " "@ + filename + " | "@ + decimal(percent as nat) + "% | "@ + decimal(
        current_line(scroll_offset, total_height),
    ) + "/"@ + decimal(total_height as nat) + " "@
}

/// `text` with spaces after it up to `width` characters; a longer text
/// stays as it is.
pub open spec fn padded(text: Seq<char>, width: u16) -> Seq<char> {
    if text.len() >= width {
        text
    } else {
        text + repeated(" "@, (width - text.len()) as nat)
    }
}

/// The style of the status bar: bold black on white.
pub open spec fn status_style() -> Style {
    Style { fg: Some(Color::Black), bg: Some(Color::White), add_modifier: BOLD, sub_modifier: 0 }
}

/// Builds the status bar for a terminal of `width` columns, where
/// `percent` says how far the document is scrolled.
pub fn status_line(app: &App, percent: u16, width: u16) -> (row: Line)
    ensures
        row@ == seq![
            Run {
                text: padded(
                    status_text(
                        app.filename@,
                        percent,
                        app.scroll_offset,
                        app.document.total_height,
                    ),
                    width,
                ),
                style: status_style(),
            },
        ],
{
    let total = app.document.total_height;
    let current: u128 = if total == 0 {
        0
    } else {
        app.scroll_offset as u128 + 1
    };
    let mut text = String::from_str(" ");
    text.append(app.filename.as_str());
    text.append(" | ");
    text.append(decimal_text(percent as u128).as_str());
    text.append("% | ");
    text.append(decimal_text(current).as_str());
    text.append("/");
    text.append(decimal_text(total as u128).as_str());
    text.append(" ");
    let size = text.as_str().unicode_len();
    if size < width as usize {
        let fill = repeat_text(" ", width as usize - size);
        text.append(fill.as_str());
    }
    Line::single(
        Span::styled(
            text.as_str(),
            Style {
                fg: Some(Color::Black),
                bg: Some(Color::White),
                add_modifier: BOLD,
                sub_modifier: 0,
            },
        ),
    )
}

} // verus!
