//! The layout engine: wraps rendered blocks to a column width, keeping each
//! character's style, and flattens them into display lines.

use vstd::prelude::*;
use vstd::string::StringExecFns;
use vstd::string::StrSliceExecFns;
use crate::parser::{Block, RenderedBlock, StyledSpan, block_views, styled_views};
use crate::style::{Color, Style};
use crate::text::{
    Line, Run, Span, chars_of, has_char, joined_text, line_views, span_views, string_of,
};

verus! {

/// The runs of the characters `start..end` of `plain`, whose character at
/// `i` has the style `styles[i]`: read left to right, a character joins the
/// run before it when their styles are equal, and starts a run otherwise.
pub open spec fn runs_in(plain: Seq<char>, styles: Seq<Style>, start: int, end: int) -> Seq<Run>
    decreases end - start,
{
    if start >= end {
        Seq::empty()
    } else {
        let before = runs_in(plain, styles, start, end - 1);
        let c = plain[end - 1];
        let style = styles[end - 1];
        if before.len() > 0 && before.last().style == style {
            before.drop_last().push(Run { text: before.last().text.push(c), style })
        } else {
            before.push(Run { text: seq![c], style })
        }
    }
}

/// Builds the runs of the characters `start..end` of `plain`: consecutive
/// characters of one style form one run, and a change of style starts the
/// next. `styles` holds the style of each character of `plain`.
pub fn build_spans_for_range(plain: &str, styles: &Vec<Style>, start: usize, end: usize) -> (spans:
    Vec<Span>)
    requires
        styles@.len() == plain@.len(),
        end <= plain@.len(),
    ensures
        span_views(spans@) == runs_in(plain@, styles@, start as int, end as int),
{
    let chars = chars_of(plain);
    spans_of_range(&chars, styles, start, end)
}

/// Builds the runs of the characters `start..end` of `plain`, given as
/// characters.
fn spans_of_range(plain: &Vec<char>, styles: &Vec<Style>, start: usize, end: usize) -> (spans: Vec<
    Span,
>)
    requires
        styles@.len() == plain@.len(),
        end <= plain@.len(),
    ensures
        span_views(spans@) == runs_in(plain@, styles@, start as int, end as int),
{
    let mut spans: Vec<Span> = Vec::new();
    if start >= end {
        return spans;
    }
    let mut run_start: usize = start;
    let mut run_style: Style = styles[start];
    let mut i: usize = start + 1;
    proof {
        assert(runs_in(plain@, styles@, start as int, start as int) =~= Seq::<Run>::empty());
        assert(plain@.subrange(start as int, start + 1) =~= seq![plain@[start as int]]);
    }
    while i < end
        invariant
            styles@.len() == plain@.len(),
            end <= plain@.len(),
            start <= run_start < i <= end,
            run_style == styles@[run_start as int],
            span_views(spans@).push(
                Run { text: plain@.subrange(run_start as int, i as int), style: run_style },
            ) == runs_in(plain@, styles@, start as int, i as int),
        decreases end - i,
    {
        proof {
            assert(plain@.subrange(run_start as int, i as int).push(plain@[i as int])
                =~= plain@.subrange(run_start as int, i + 1));
            assert(plain@.subrange(i as int, i + 1) =~= seq![plain@[i as int]]);
        }
        if styles[i] != run_style {
            let content = string_of(plain, run_start, i);
            spans.push(Span { content, style: run_style });
            run_start = i;
            run_style = styles[i];
        }
        i = i + 1;
    }
    let content = string_of(plain, run_start, end);
    spans.push(Span { content, style: run_style });
    spans
}

/// The texts of `lines`, in order.
pub open spec fn string_views(lines: Seq<String>) -> Seq<Seq<char>> {
    Seq::new(lines.len(), |i: int| lines[i]@)
}

/// The lines into which `textwrap::wrap` breaks `text` at `width` columns,
/// with Unicode line-break opportunities as word separators and the
/// library's other defaults.
pub uninterp spec fn wrapped_lines(text: Seq<char>, width: usize) -> Seq<Seq<char>>;

/// Calls `textwrap::wrap` on `text` with `Options::new(width)` and
/// `WordSeparator::UnicodeBreakProperties`. Trusted: the lines returned are
/// those the call yields, in order, each as an owned string; nothing else
/// is claimed of them.
#[verifier::external_body]
fn wrap_text(text: &str, width: usize) -> (lines: Vec<String>)
    requires
        width >= 1,
    ensures
        string_views(lines@) == wrapped_lines(text@, width),
{
    let options = textwrap::Options::new(width)
        .word_separator(textwrap::WordSeparator::UnicodeBreakProperties);
    textwrap::wrap(text, &options).into_iter().map(|line| line.into_owned()).collect()
}

/// Whether `piece` stands in `plain` at position `at`.
pub open spec fn matches_at(plain: Seq<char>, piece: Seq<char>, at: int) -> bool {
    &&& 0 <= at
    &&& at + piece.len() <= plain.len()
    &&& plain.subrange(at, at + piece.len()) == piece
}

/// The first position from `from` on at which `piece` stands in `plain`,
/// or -1 where it stands at none.
pub open spec fn locate(plain: Seq<char>, piece: Seq<char>, from: int) -> int
    decreases plain.len() - from + 1,
{
    if from < 0 || from + piece.len() > plain.len() {
        -1
    } else if matches_at(plain, piece, from) {
        from
    } else {
        locate(plain, piece, from + 1)
    }
}

/// A position that `locate` finds is not before `from`, and `piece` stands
/// there.
pub proof fn lemma_locate_found(plain: Seq<char>, piece: Seq<char>, from: int)
    ensures
        locate(plain, piece, from) >= -1,
        locate(plain, piece, from) >= 0 ==> from <= locate(plain, piece, from) && matches_at(
            plain,
            piece,
            locate(plain, piece, from),
        ),
    decreases plain.len() - from + 1,
{
    if 0 <= from && from + piece.len() <= plain.len() && !matches_at(plain, piece, from) {
        lemma_locate_found(plain, piece, from + 1);
    }
}

/// Whether `piece` stands in `chars` at position `at`.
fn stands_at(chars: &Vec<char>, piece: &Vec<char>, at: usize) -> (found: bool)
    requires
        at + piece@.len() <= chars@.len(),
    ensures
        found == matches_at(chars@, piece@, at as int),
{
    let total: usize = chars.len();
    let mut j: usize = 0;
    while j < piece.len()
        invariant
            total == chars@.len(),
            at + piece@.len() <= chars@.len(),
            j <= piece@.len(),
            forall|k: int| 0 <= k < j ==> chars@[at + k] == piece@[k],
        decreases piece.len() - j,
    {
        if chars[at + j] != piece[j] {
            return false;
        }
        j = j + 1;
    }
    proof {
        assert(chars@.subrange(at as int, at + piece@.len()) =~= piece@);
    }
    true
}

/// Searches `chars` forward from `from` for the first position at which
/// `piece` stands.
fn find_from(chars: &Vec<char>, piece: &Vec<char>, from: usize) -> (found: Option<usize>)
    ensures
        match found {
            Some(at) => locate(chars@, piece@, from as int) == at,
            None => locate(chars@, piece@, from as int) == -1,
        },
{
    if piece.len() > chars.len() {
        return None;
    }
    let last: usize = chars.len() - piece.len();
    let mut at: usize = from;
    while at <= last
        invariant
            last == chars@.len() - piece@.len(),
            from <= at,
            locate(chars@, piece@, from as int) == locate(chars@, piece@, at as int),
        decreases last + 1 - at,
    {
        if stands_at(chars, piece, at) {
            return Some(at);
        }
        if at == last {
            assert(locate(chars@, piece@, at + 1) == -1);
            return None;
        }
        at = at + 1;
    }
    None
}

/// Where the search for line `k` of `wrapped` starts: after the last of the
/// lines before it that stands in `plain`, or at 0. The position never
/// moves backward, and a line that does not stand in `plain` leaves it
/// where it was.
pub open spec fn cursor_after(plain: Seq<char>, wrapped: Seq<Seq<char>>, k: int) -> int
    decreases k,
{
    if k <= 0 {
        0
    } else {
        let before = cursor_after(plain, wrapped, k - 1);
        let at = locate(plain, wrapped[k - 1], before);
        if at >= 0 {
            at + wrapped[k - 1].len()
        } else {
            before
        }
    }
}

/// The runs of line `k` of `wrapped`. Where the line stands in `plain` at
/// or after the cursor, they are the runs of the characters it covers at
/// the first such place; otherwise the line's own text, unstyled.
pub open spec fn laid_line(plain: Seq<char>, styles: Seq<Style>, wrapped: Seq<Seq<char>>, k: int)
    -> Seq<Run> {
    let piece = wrapped[k];
    let at = locate(plain, piece, cursor_after(plain, wrapped, k));
    if at >= 0 {
        runs_in(plain, styles, at, at + piece.len())
    } else {
        seq![Run { text: piece, style: Style::plain() }]
    }
}

/// The styled lines for the lines `wrapped` that a line breaker made of
/// `plain`.
pub open spec fn laid_lines(plain: Seq<char>, styles: Seq<Style>, wrapped: Seq<Seq<char>>) -> Seq<
    Seq<Run>,
> {
    Seq::new(wrapped.len(), |k: int| laid_line(plain, styles, wrapped, k))
}

/// The cursor stays within `plain`.
pub proof fn lemma_cursor_bounds(plain: Seq<char>, wrapped: Seq<Seq<char>>, k: int)
    ensures
        0 <= cursor_after(plain, wrapped, k) <= plain.len(),
    decreases k,
{
    if k > 0 {
        lemma_cursor_bounds(plain, wrapped, k - 1);
        lemma_locate_found(plain, wrapped[k - 1], cursor_after(plain, wrapped, k - 1));
    }
}

/// Gives each line of `wrapped` the styles of the characters of `plain`
/// that it covers. `styles` holds the style of each character of `plain`.
/// The lines are found one after the other by a cursor that only moves
/// forward, so a line that repeats earlier text is never matched to it.
pub fn lay_out_lines(plain: &str, styles: &Vec<Style>, wrapped: &Vec<String>) -> (lines: Vec<Line>)
    requires
        styles@.len() == plain@.len(),
    ensures
        line_views(lines@) == laid_lines(plain@, styles@, string_views(wrapped@)),
{
    let chars = chars_of(plain);
    let total: usize = chars.len();
    let ghost pieces = string_views(wrapped@);
    let mut lines: Vec<Line> = Vec::new();
    let mut cursor: usize = 0;
    let mut k: usize = 0;
    while k < wrapped.len()
        invariant
            chars@ == plain@,
            total == plain@.len(),
            styles@.len() == plain@.len(),
            pieces == string_views(wrapped@),
            k <= wrapped@.len(),
            lines@.len() == k,
            cursor == cursor_after(plain@, pieces, k as int),
            cursor <= plain@.len(),
            forall|j: int| 0 <= j < k ==> lines@[j]@ == laid_line(plain@, styles@, pieces, j),
        decreases wrapped.len() - k,
    {
        let piece = chars_of(wrapped[k].as_str());
        proof {
            lemma_locate_found(plain@, piece@, cursor as int);
            lemma_cursor_bounds(plain@, pieces, k + 1);
        }
        match find_from(&chars, &piece, cursor) {
            Some(at) => {
                let spans = spans_of_range(&chars, styles, at, at + piece.len());
                lines.push(Line { spans });
                cursor = at + piece.len();
            },
            None => {
                lines.push(Line::single(Span::raw(wrapped[k].as_str())));
            },
        }
        k = k + 1;
    }
    lines
}

/// The style of each character of the joined text of `spans`.
pub open spec fn char_styles(spans: Seq<Run>) -> Seq<Style>
    decreases spans.len(),
{
    if spans.len() == 0 {
        Seq::empty()
    } else {
        char_styles(spans.drop_last()) + Seq::new(
            spans.last().text.len(),
            |i: int| spans.last().style,
        )
    }
}

/// Each character of the joined text has a style.
pub proof fn lemma_char_styles_len(spans: Seq<Run>)
    ensures
        char_styles(spans).len() == joined_text(spans).len(),
    decreases spans.len(),
{
    if spans.len() > 0 {
        lemma_char_styles_len(spans.drop_last());
    }
}

/// The lines of `spans`, none of which holds a line break, wrapped to
/// `width` columns: none where their joined text is empty.
pub open spec fn group_lines(spans: Seq<Run>, width: usize) -> Seq<Seq<Run>> {
    let plain = joined_text(spans);
    if plain.len() == 0 {
        Seq::empty()
    } else {
        laid_lines(plain, char_styles(spans), wrapped_lines(plain, width))
    }
}

/// Wraps `spans`, taken as one run of text without line breaks, to `width`
/// columns.
pub fn wrap_group(spans: &Vec<StyledSpan>, width: usize) -> (lines: Vec<Line>)
    requires
        width >= 1,
    ensures
        line_views(lines@) == group_lines(styled_views(spans@), width),
{
    let ghost runs = styled_views(spans@);
    let mut plain = String::new();
    let mut styles: Vec<Style> = Vec::new();
    let mut i: usize = 0;
    while i < spans.len()
        invariant
            runs == styled_views(spans@),
            i <= spans@.len(),
            plain@ == joined_text(runs.take(i as int)),
            styles@ == char_styles(runs.take(i as int)),
        decreases spans.len() - i,
    {
        let span = &spans[i];
        let count = span.text.as_str().unicode_len();
        let ghost before = styles@;
        plain.append(span.text.as_str());
        let mut j: usize = 0;
        while j < count
            invariant
                j <= count,
                styles@ == before + Seq::new(j as nat, |n: int| span.style),
            decreases count - j,
        {
            styles.push(span.style);
            j = j + 1;
        }
        proof {
            let next = runs.take(i + 1);
            assert(next.drop_last() =~= runs.take(i as int));
        }
        i = i + 1;
    }
    proof {
        assert(runs.take(i as int) =~= runs);
        lemma_char_styles_len(runs);
    }
    if plain.as_str().is_empty() {
        let lines: Vec<Line> = Vec::new();
        return lines;
    }
    let wrapped = wrap_text(plain.as_str(), width);
    lay_out_lines(plain.as_str(), &styles, &wrapped)
}

/// The pieces of `text` between its occurrences of `sep`: one more than
/// there are occurrences, empty pieces included.
pub open spec fn pieces(text: Seq<char>, sep: char) -> Seq<Seq<char>>
    decreases text.len(),
{
    if text.len() == 0 {
        seq![Seq::empty()]
    } else {
        let before = pieces(text.drop_last(), sep);
        if text.last() == sep {
            before.push(Seq::empty())
        } else {
            before.drop_last().push(before.last().push(text.last()))
        }
    }
}

/// A text has at least one piece.
pub proof fn lemma_pieces_len(text: Seq<char>, sep: char)
    ensures
        pieces(text, sep).len() >= 1,
    decreases text.len(),
{
    if text.len() > 0 {
        lemma_pieces_len(text.drop_last(), sep);
    }
}

/// Splits `text` at each occurrence of `sep`.
pub fn split_at_char(text: &str, sep: char) -> (parts: Vec<String>)
    ensures
        string_views(parts@) == pieces(text@, sep),
{
    let chars = chars_of(text);
    let mut parts: Vec<String> = Vec::new();
    let mut piece_start: usize = 0;
    let mut i: usize = 0;
    proof {
        assert(text@.take(0) =~= Seq::<char>::empty());
    }
    while i < chars.len()
        invariant
            chars@ == text@,
            piece_start <= i <= chars@.len(),
            string_views(parts@).push(text@.subrange(piece_start as int, i as int)) == pieces(
                text@.take(i as int),
                sep,
            ),
        decreases chars.len() - i,
    {
        let ghost open = text@.subrange(piece_start as int, i as int);
        proof {
            let next = text@.take(i + 1);
            assert(next.drop_last() =~= text@.take(i as int));
            assert(open.push(text@[i as int]) =~= text@.subrange(piece_start as int, i + 1));
            assert(text@.subrange(i + 1, i + 1) =~= Seq::<char>::empty());
        }
        if chars[i] == sep {
            parts.push(string_of(&chars, piece_start, i));
            piece_start = i + 1;
        }
        i = i + 1;
    }
    parts.push(string_of(&chars, piece_start, chars.len()));
    proof {
        assert(text@.take(i as int) =~= text@);
    }
    parts
}

/// Spans on their way into groups: the groups that a line break has
/// closed, and the spans since the last break.
pub struct Grouping {
    pub closed: Seq<Seq<Run>>,
    pub open: Seq<Run>,
}

/// `state` after the first `upto` of the `parts` of a span in `style`: a
/// part that is not empty joins the open group, and each part but the
/// span's last closes it.
pub open spec fn feed_parts(
    state: Grouping,
    parts: Seq<Seq<char>>,
    style: Style,
    upto: int,
) -> Grouping
    decreases upto,
{
    if upto <= 0 {
        state
    } else {
        let before = feed_parts(state, parts, style, upto - 1);
        let part = parts[upto - 1];
        let open = if part.len() > 0 {
            before.open.push(Run { text: part, style })
        } else {
            before.open
        };
        if upto < parts.len() {
            Grouping { closed: before.closed.push(open), open: Seq::empty() }
        } else {
            Grouping { closed: before.closed, open }
        }
    }
}

/// `state` after `span`: a span without a line break joins the open group
/// whole; one with line breaks is split at them.
pub open spec fn feed_span(state: Grouping, span: Run) -> Grouping {
    if span.text.contains('\n') {
        let parts = pieces(span.text, '\n');
        feed_parts(state, parts, span.style, parts.len() as int)
    } else {
        Grouping { closed: state.closed, open: state.open.push(span) }
    }
}

/// The grouping after the first `upto` of `spans`.
pub open spec fn fed(spans: Seq<Run>, upto: int) -> Grouping
    decreases upto,
{
    if upto <= 0 {
        Grouping { closed: Seq::empty(), open: Seq::empty() }
    } else {
        feed_span(fed(spans, upto - 1), spans[upto - 1])
    }
}

/// The groups into which line breaks part `spans`. No group holds a line
/// break; a last group without spans is left out.
pub open spec fn break_groups(spans: Seq<Run>) -> Seq<Seq<Run>> {
    let all = fed(spans, spans.len() as int);
    if all.open.len() > 0 {
        all.closed.push(all.open)
    } else {
        all.closed
    }
}

/// The lines of `groups`, each wrapped by itself: a group without lines
/// gives one line without runs.
pub open spec fn broken_lines(groups: Seq<Seq<Run>>, width: usize) -> Seq<Seq<Run>>
    decreases groups.len(),
{
    if groups.len() == 0 {
        Seq::empty()
    } else {
        let lines = group_lines(groups.last(), width);
        broken_lines(groups.drop_last(), width) + if lines.len() == 0 {
            seq![Seq::<Run>::empty()]
        } else {
            lines
        }
    }
}

/// The models of `groups`, in order.
pub open spec fn group_views(groups: Seq<Vec<StyledSpan>>) -> Seq<Seq<Run>> {
    Seq::new(groups.len(), |i: int| styled_views(groups[i]@))
}

/// Parts `spans` into groups at their line breaks.
pub fn split_groups(spans: &Vec<StyledSpan>) -> (groups: Vec<Vec<StyledSpan>>)
    ensures
        group_views(groups@) == break_groups(styled_views(spans@)),
{
    let ghost runs = styled_views(spans@);
    let mut groups: Vec<Vec<StyledSpan>> = Vec::new();
    let mut current: Vec<StyledSpan> = Vec::new();
    let mut i: usize = 0;
    proof {
        assert(group_views(groups@) =~= Seq::<Seq<Run>>::empty());
        assert(styled_views(current@) =~= Seq::<Run>::empty());
    }
    while i < spans.len()
        invariant
            runs == styled_views(spans@),
            i <= spans@.len(),
            fed(runs, i as int) == (Grouping {
                closed: group_views(groups@),
                open: styled_views(current@),
            }),
        decreases spans.len() - i,
    {
        let span = &spans[i];
        let ghost start = fed(runs, i as int);
        if has_char(span.text.as_str(), '\n') {
            let parts = split_at_char(span.text.as_str(), '\n');
            let ghost texts = string_views(parts@);
            proof {
                lemma_pieces_len(span.text@, '\n');
            }
            let mut j: usize = 0;
            while j < parts.len()
                invariant
                    texts == string_views(parts@),
                    j <= parts@.len(),
                    feed_parts(start, texts, span.style, j as int) == (Grouping {
                        closed: group_views(groups@),
                        open: styled_views(current@),
                    }),
                decreases parts.len() - j,
            {
                let ghost closed = group_views(groups@);
                let ghost open = styled_views(current@);
                if !parts[j].as_str().is_empty() {
                    current.push(StyledSpan { text: parts[j].clone(), style: span.style });
                    proof {
                        assert(styled_views(current@) =~= open.push(
                            Run { text: texts[j as int], style: span.style },
                        ));
                    }
                }
                if j + 1 < parts.len() {
                    let ghost full = styled_views(current@);
                    groups.push(current);
                    current = Vec::new();
                    proof {
                        assert(group_views(groups@) =~= closed.push(full));
                        assert(styled_views(current@) =~= Seq::<Run>::empty());
                    }
                }
                j = j + 1;
            }
        } else {
            let ghost open = styled_views(current@);
            current.push(span.duplicate());
            proof {
                assert(styled_views(current@) =~= open.push(span@));
            }
        }
        i = i + 1;
    }
    if current.len() > 0 {
        groups.push(current);
    }
    groups
}

/// Wraps `spans`, which hold line breaks, to `width` columns: they are
/// parted into groups at the breaks and each group is wrapped by itself, so
/// no line runs across a break.
pub fn wrap_with_hard_breaks(spans: &Vec<StyledSpan>, width: usize) -> (lines: Vec<Line>)
    requires
        width >= 1,
    ensures
        line_views(lines@) == broken_lines(break_groups(styled_views(spans@)), width),
{
    let groups = split_groups(spans);
    let ghost models = group_views(groups@);
    let mut lines: Vec<Line> = Vec::new();
    let mut i: usize = 0;
    while i < groups.len()
        invariant
            width >= 1,
            models == group_views(groups@),
            i <= groups@.len(),
            line_views(lines@) == broken_lines(models.take(i as int), width),
        decreases groups.len() - i,
    {
        let mut wrapped = wrap_group(&groups[i], width);
        proof {
            let next = models.take(i + 1);
            assert(next.drop_last() =~= models.take(i as int));
        }
        if wrapped.len() == 0 {
            lines.push(Line::empty());
        } else {
            lines.append(&mut wrapped);
        }
        i = i + 1;
    }
    proof {
        assert(models.take(i as int) =~= models);
    }
    lines
}

/// Whether a span of `spans` holds a line break.
pub open spec fn has_break(spans: Seq<Run>) -> bool {
    exists|i: int| 0 <= i < spans.len() && (#[trigger] spans[i]).text.contains('\n')
}

/// The lines of `spans` wrapped to `width` columns: none for no spans;
/// where a span holds a line break, the lines of each group between the
/// breaks; otherwise the lines of the spans as one group.
pub open spec fn wrapped_spans(spans: Seq<Run>, width: usize) -> Seq<Seq<Run>> {
    if spans.len() == 0 {
        Seq::empty()
    } else if has_break(spans) {
        broken_lines(break_groups(spans), width)
    } else {
        group_lines(spans, width)
    }
}

/// Wraps `spans` to `width` columns, each character keeping its style.
pub fn wrap_styled_spans(spans: &Vec<StyledSpan>, width: usize) -> (lines: Vec<Line>)
    requires
        width >= 1,
    ensures
        line_views(lines@) == wrapped_spans(styled_views(spans@), width),
{
    let ghost runs = styled_views(spans@);
    if spans.len() == 0 {
        let lines: Vec<Line> = Vec::new();
        return lines;
    }
    let mut i: usize = 0;
    while i < spans.len()
        invariant
            width >= 1,
            runs == styled_views(spans@),
            i <= spans@.len(),
            forall|j: int| 0 <= j < i ==> !(#[trigger] runs[j]).text.contains('\n'),
        decreases spans.len() - i,
    {
        if has_char(spans[i].text.as_str(), '\n') {
            assert(runs[i as int].text.contains('\n'));
            return wrap_with_hard_breaks(spans, width);
        }
        i = i + 1;
    }
    wrap_group(spans, width)
}

/// One line of a laid-out document.
#[derive(Clone, Debug, PartialEq, Eq)]
pub enum DocumentLine {
    /// A line of wrapped text.
    Text(Line),
    /// A line of a code block, which is never wrapped.
    Code(Line),
    /// A blank line.
    Empty,
    /// A horizontal rule across the whole width.
    Rule,
}

/// The mathematical model of a [`DocumentLine`].
pub enum LineModel {
    Text(Seq<Run>),
    Code(Seq<Run>),
    Empty,
    Rule,
}

impl View for DocumentLine {
    type V = LineModel;

    open spec fn view(&self) -> LineModel {
        match *self {
            DocumentLine::Text(line) => LineModel::Text(line@),
            DocumentLine::Code(line) => LineModel::Code(line@),
            DocumentLine::Empty => LineModel::Empty,
            DocumentLine::Rule => LineModel::Rule,
        }
    }
}

/// The models of `lines`, in order.
pub open spec fn document_views(lines: Seq<DocumentLine>) -> Seq<LineModel> {
    Seq::new(lines.len(), |i: int| lines[i]@)
}

/// A document laid out for one width: its lines from top to bottom.
#[derive(Clone, Debug, PartialEq, Eq)]
pub struct PreRenderedDocument {
    /// The lines, in display order.
    pub lines: Vec<DocumentLine>,
    /// The number of lines.
    pub total_height: usize,
}

impl View for PreRenderedDocument {
    type V = Seq<LineModel>;

    open spec fn view(&self) -> Seq<LineModel> {
        document_views(self.lines@)
    }
}

impl PreRenderedDocument {
    /// The height is the number of lines.
    pub open spec fn well_formed(&self) -> bool {
        self.total_height == self.lines@.len()
    }
}

/// The width that wrapping uses for a viewport of `width` columns: at
/// least 1.
pub open spec fn clamp_width(width: u16) -> usize {
    if width == 0 {
        1
    } else {
        width as usize
    }
}

/// The style of the line that names a code block's language.
pub open spec fn label_style() -> Style {
    Style { fg: Some(Color::DarkGray), bg: None, add_modifier: 0, sub_modifier: 0 }
}

/// `lines` as lines of wrapped text.
pub open spec fn as_text(lines: Seq<Seq<Run>>) -> Seq<LineModel> {
    Seq::new(lines.len(), |i: int| LineModel::Text(lines[i]))
}

/// `lines` as lines of code.
pub open spec fn as_code(lines: Seq<Seq<Run>>) -> Seq<LineModel> {
    Seq::new(lines.len(), |i: int| LineModel::Code(lines[i]))
}

/// The lines of a heading or paragraph of `content`: its wrapped lines, or
/// one blank line where it has none.
pub open spec fn text_lines(content: Seq<Run>, width: usize) -> Seq<LineModel> {
    let wrapped = wrapped_spans(content, width);
    if wrapped.len() == 0 {
        seq![LineModel::Empty]
    } else {
        as_text(wrapped)
    }
}

/// The lines of a code block: a label that names `language` where it is
/// not empty, then `lines` as they are.
pub open spec fn code_lines(language: Seq<char>, lines: Seq<Seq<Run>>) -> Seq<LineModel> {
    if language.len() > 0 {
        seq![LineModel::Code(seq![Run { text: language, style: label_style() }])] + as_code(lines)
    } else {
        as_code(lines)
    }
}

/// The lines of `block` at `width` columns.
pub open spec fn block_lines(block: Block, width: usize) -> Seq<LineModel> {
    match block {
        Block::Heading { level, content } => text_lines(content, width),
        Block::Paragraph { content } => text_lines(content, width),
        Block::CodeBlock { language, lines } => code_lines(language, lines),
        Block::ThematicBreak => seq![LineModel::Rule],
        Block::Spacer { count } => Seq::new(count as nat, |i: int| LineModel::Empty),
    }
}

/// The lines of `blocks` at `width` columns: the lines of each block, with
/// one blank line before every block but the first.
pub open spec fn flattened(blocks: Seq<Block>, width: usize) -> Seq<LineModel>
    decreases blocks.len(),
{
    if blocks.len() == 0 {
        Seq::empty()
    } else if blocks.len() == 1 {
        block_lines(blocks.last(), width)
    } else {
        flattened(blocks.drop_last(), width) + seq![LineModel::Empty] + block_lines(
            blocks.last(),
            width,
        )
    }
}

/// Appends to `lines` the lines of a heading or paragraph of `content`.
fn push_text_lines(lines: &mut Vec<DocumentLine>, content: &Vec<StyledSpan>, width: usize)
    requires
        width >= 1,
    ensures
        document_views(final(lines)@) == document_views(old(lines)@) + text_lines(
            styled_views(content@),
            width,
        ),
{
    let ghost before = document_views(lines@);
    let wrapped = wrap_styled_spans(content, width);
    let ghost models = line_views(wrapped@);
    if wrapped.len() == 0 {
        lines.push(DocumentLine::Empty);
        return ;
    }
    let mut i: usize = 0;
    while i < wrapped.len()
        invariant
            models == line_views(wrapped@),
            i <= wrapped@.len(),
            document_views(lines@) == before + as_text(models).take(i as int),
        decreases wrapped.len() - i,
    {
        let ghost done = document_views(lines@);
        lines.push(DocumentLine::Text(wrapped[i].duplicate()));
        proof {
            assert(document_views(lines@) =~= done.push(LineModel::Text(models[i as int])));
        }
        i = i + 1;
    }
}

/// Appends to `lines` the lines of a code block.
fn push_code_lines(lines: &mut Vec<DocumentLine>, language: &String, code: &Vec<Line>)
    ensures
        document_views(final(lines)@) == document_views(old(lines)@) + code_lines(
            language@,
            line_views(code@),
        ),
{
    let ghost before = document_views(lines@);
    let ghost models = line_views(code@);
    let ghost label = if language@.len() > 0 {
        seq![LineModel::Code(seq![Run { text: language@, style: label_style() }])]
    } else {
        Seq::<LineModel>::empty()
    };
    if !language.as_str().is_empty() {
        let style = Style { fg: Some(Color::DarkGray), bg: None, add_modifier: 0, sub_modifier: 0 };
        lines.push(DocumentLine::Code(Line::single(Span::styled(language.as_str(), style))));
    }
    let mut i: usize = 0;
    while i < code.len()
        invariant
            models == line_views(code@),
            i <= code@.len(),
            document_views(lines@) == before + label + as_code(models).take(i as int),
        decreases code.len() - i,
    {
        let ghost done = document_views(lines@);
        lines.push(DocumentLine::Code(code[i].duplicate()));
        proof {
            assert(document_views(lines@) =~= done.push(LineModel::Code(models[i as int])));
        }
        i = i + 1;
    }
}

/// Appends `count` blank lines to `lines`.
fn push_blank_lines(lines: &mut Vec<DocumentLine>, count: u16)
    ensures
        document_views(final(lines)@) == document_views(old(lines)@) + Seq::new(
            count as nat,
            |i: int| LineModel::Empty,
        ),
{
    let ghost before = document_views(lines@);
    let mut i: u16 = 0;
    while i < count
        invariant
            i <= count,
            document_views(lines@) == before + Seq::new(i as nat, |n: int| LineModel::Empty),
        decreases count - i,
    {
        let ghost done = document_views(lines@);
        lines.push(DocumentLine::Empty);
        proof {
            assert(document_views(lines@) =~= done.push(LineModel::Empty));
        }
        i = i + 1;
    }
}

/// Lays `blocks` out at `width` columns; a width of 0 counts as 1.
///
/// Headings and paragraphs are wrapped, and an empty one still takes one
/// blank line. A code block is never wrapped, and a line that names its
/// language goes before it where it has one. A thematic break is one rule,
/// a spacer its number of blank lines. One blank line parts each block from
/// the block before it.
pub fn flatten(blocks: &[RenderedBlock], width: u16) -> (document: PreRenderedDocument)
    ensures
        document@ == flattened(block_views(blocks@), clamp_width(width)),
        document.well_formed(),
        blocks@.len() == 0 ==> document.total_height == 0,
{
    let columns: usize = if width == 0 { 1 } else { width as usize };
    let ghost models = block_views(blocks@);
    let mut lines: Vec<DocumentLine> = Vec::new();
    let mut i: usize = 0;
    while i < blocks.len()
        invariant
            columns == clamp_width(width),
            models == block_views(blocks@),
            i <= blocks@.len(),
            document_views(lines@) == flattened(models.take(i as int), columns),
        decreases blocks.len() - i,
    {
        proof {
            let next = models.take(i + 1);
            assert(next.drop_last() =~= models.take(i as int));
        }
        if i > 0 {
            lines.push(DocumentLine::Empty);
        }
        match &blocks[i] {
            RenderedBlock::Heading { content, .. } => {
                push_text_lines(&mut lines, content, columns);
            },
            RenderedBlock::Paragraph { content } => {
                push_text_lines(&mut lines, content, columns);
            },
            RenderedBlock::CodeBlock { language, highlighted_lines } => {
                push_code_lines(&mut lines, language, highlighted_lines);
            },
            RenderedBlock::ThematicBreak => {
                lines.push(DocumentLine::Rule);
            },
            RenderedBlock::Spacer { lines: count } => {
                push_blank_lines(&mut lines, *count);
            },
        }
        i = i + 1;
    }
    proof {
        assert(models.take(i as int) =~= models);
    }
    let total_height = lines.len();
    PreRenderedDocument { lines, total_height }
}

} // verus!
