//! What holds of every layout: the text and styles of wrapped lines, and
//! the shape of a flattened document.

use vstd::prelude::*;
use crate::layout::{
    LineModel, as_code, block_lines, break_groups, broken_lines, char_styles, clamp_width,
    code_lines, cursor_after, fed, feed_parts, flattened, group_lines, has_break, label_style,
    laid_line, laid_lines, locate, pieces, runs_in, wrapped_lines, wrapped_spans, Grouping,
    lemma_char_styles_len, lemma_cursor_bounds, lemma_locate_found,
};
use crate::parser::Block;
use crate::style::Style;
use crate::text::{Run, joined_text};

verus! {

/// Joining the texts of runs and of one more run joins the run's text on.
pub proof fn lemma_joined_text_push(runs: Seq<Run>, run: Run)
    ensures
        joined_text(runs.push(run)) == joined_text(runs) + run.text,
{
    assert(runs.push(run).drop_last() =~= runs);
}

/// The runs of a range of characters hold exactly those characters, in
/// order: their texts joined are the range.
pub proof fn lemma_runs_text(plain: Seq<char>, styles: Seq<Style>, start: int, end: int)
    requires
        0 <= start <= end <= plain.len(),
    ensures
        joined_text(runs_in(plain, styles, start, end)) == plain.subrange(start, end),
    decreases end - start,
{
    if start < end {
        lemma_runs_text(plain, styles, start, end - 1);
        let before = runs_in(plain, styles, start, end - 1);
        let c = plain[end - 1];
        let style = styles[end - 1];
        assert(plain.subrange(start, end) =~= plain.subrange(start, end - 1).push(c));
        if before.len() > 0 && before.last().style == style {
            let joined = Run { text: before.last().text.push(c), style };
            lemma_joined_text_push(before.drop_last(), joined);
            lemma_joined_text_push(before.drop_last(), before.last());
        } else {
            lemma_joined_text_push(before, Run { text: seq![c], style });
        }
    }
}

/// The styles of the characters of runs and of one more run are those of
/// the runs, then the run's style for each of its characters.
pub proof fn lemma_char_styles_push(runs: Seq<Run>, run: Run)
    ensures
        char_styles(runs.push(run)) == char_styles(runs) + Seq::new(
            run.text.len(),
            |i: int| run.style,
        ),
{
    assert(runs.push(run).drop_last() =~= runs);
}

/// Each character keeps its style: the runs of a range give every
/// character of the range the style that it had.
pub proof fn lemma_runs_styles(plain: Seq<char>, styles: Seq<Style>, start: int, end: int)
    requires
        0 <= start <= end <= styles.len(),
    ensures
        char_styles(runs_in(plain, styles, start, end)) == styles.subrange(start, end),
    decreases end - start,
{
    if start >= end {
        assert(styles.subrange(start, end) =~= Seq::<Style>::empty());
    } else {
        lemma_runs_styles(plain, styles, start, end - 1);
        let before = runs_in(plain, styles, start, end - 1);
        let c = plain[end - 1];
        let style = styles[end - 1];
        if before.len() > 0 && before.last().style == style {
            let last = before.last();
            let joined = Run { text: last.text.push(c), style };
            lemma_char_styles_push(before.drop_last(), joined);
            lemma_char_styles_push(before.drop_last(), last);
            assert(before.drop_last().push(last) =~= before);
            assert(char_styles(before.drop_last()) + Seq::new(
                joined.text.len(),
                |i: int| style,
            ) =~= (char_styles(before.drop_last()) + Seq::new(
                last.text.len(),
                |i: int| last.style,
            )).push(style));
        } else {
            let run = Run { text: seq![c], style };
            lemma_char_styles_push(before, run);
            assert(char_styles(before) + Seq::new(run.text.len(), |i: int| style)
                =~= char_styles(before).push(style));
        }
        assert(styles.subrange(start, end) =~= styles.subrange(start, end - 1).push(style));
    }
}

/// The runs of a range are as few as can be: none is empty, and two
/// neighbours never share a style.
pub proof fn lemma_runs_minimal(plain: Seq<char>, styles: Seq<Style>, start: int, end: int)
    ensures
        forall|j: int|
            0 <= j < runs_in(plain, styles, start, end).len() ==> (#[trigger] runs_in(
                plain,
                styles,
                start,
                end,
            )[j]).text.len() > 0,
        forall|j: int|
            0 <= j < runs_in(plain, styles, start, end).len() - 1 ==> (#[trigger] runs_in(
                plain,
                styles,
                start,
                end,
            )[j]).style != runs_in(plain, styles, start, end)[j + 1].style,
        start < end ==> runs_in(plain, styles, start, end).len() > 0 && runs_in(
            plain,
            styles,
            start,
            end,
        ).last().style == styles[end - 1],
    decreases end - start,
{
    if start < end {
        lemma_runs_minimal(plain, styles, start, end - 1);
    }
}

/// Where every character of a range has the style `style`, so has every
/// run of the range.
pub proof fn lemma_runs_single_style(
    plain: Seq<char>,
    styles: Seq<Style>,
    start: int,
    end: int,
    style: Style,
)
    requires
        forall|i: int| start <= i < end ==> styles[i] == style,
    ensures
        forall|j: int|
            0 <= j < runs_in(plain, styles, start, end).len() ==> (#[trigger] runs_in(
                plain,
                styles,
                start,
                end,
            )[j]).style == style,
    decreases end - start,
{
    if start < end {
        lemma_runs_single_style(plain, styles, start, end - 1, style);
    }
}

/// The text of every laid-out line is the text of the line that the line
/// breaker returned for it: the layout loses no character of it, repeats
/// none and keeps their order, whether the line was found in the text or
/// not.
pub proof fn lemma_laid_line_text(
    plain: Seq<char>,
    styles: Seq<Style>,
    wrapped: Seq<Seq<char>>,
    k: int,
)
    requires
        0 <= k < wrapped.len(),
    ensures
        joined_text(laid_line(plain, styles, wrapped, k)) == wrapped[k],
{
    let piece = wrapped[k];
    let cursor = cursor_after(plain, wrapped, k);
    let at = locate(plain, piece, cursor);
    lemma_locate_found(plain, piece, cursor);
    lemma_cursor_bounds(plain, wrapped, k);
    if at >= 0 {
        lemma_runs_text(plain, styles, at, at + piece.len());
    } else {
        let run = Run { text: piece, style: Style::plain() };
        lemma_joined_text_push(Seq::<Run>::empty(), run);
    }
}

/// A line that is found in the text keeps the style of each character:
/// its runs give its characters the styles that they have in the text, at
/// the place where the line was found.
pub proof fn lemma_laid_line_styles(
    plain: Seq<char>,
    styles: Seq<Style>,
    wrapped: Seq<Seq<char>>,
    k: int,
)
    requires
        styles.len() == plain.len(),
        0 <= k < wrapped.len(),
        locate(plain, wrapped[k], cursor_after(plain, wrapped, k)) >= 0,
    ensures
        char_styles(laid_line(plain, styles, wrapped, k)) == styles.subrange(
            locate(plain, wrapped[k], cursor_after(plain, wrapped, k)),
            locate(plain, wrapped[k], cursor_after(plain, wrapped, k)) + wrapped[k].len(),
        ),
{
    let cursor = cursor_after(plain, wrapped, k);
    let at = locate(plain, wrapped[k], cursor);
    lemma_locate_found(plain, wrapped[k], cursor);
    lemma_cursor_bounds(plain, wrapped, k);
    lemma_runs_styles(plain, styles, at, at + wrapped[k].len());
}

/// The search for a line never starts before the search for an earlier
/// line did.
pub proof fn lemma_cursor_forward(plain: Seq<char>, wrapped: Seq<Seq<char>>, j: int, k: int)
    requires
        0 <= j <= k,
    ensures
        cursor_after(plain, wrapped, j) <= cursor_after(plain, wrapped, k),
    decreases k - j,
{
    if j < k {
        lemma_cursor_forward(plain, wrapped, j, k - 1);
        lemma_cursor_bounds(plain, wrapped, k - 1);
        lemma_locate_found(plain, wrapped[k - 1], cursor_after(plain, wrapped, k - 1));
    }
}

/// Two lines that are found in the text lie one after the other there:
/// the later line starts where the earlier one ends or further on, so no
/// character is laid out twice and repeated text is never matched to an
/// earlier occurrence.
pub proof fn lemma_lines_in_order(plain: Seq<char>, wrapped: Seq<Seq<char>>, j: int, k: int)
    requires
        0 <= j < k < wrapped.len(),
        locate(plain, wrapped[j], cursor_after(plain, wrapped, j)) >= 0,
        locate(plain, wrapped[k], cursor_after(plain, wrapped, k)) >= 0,
    ensures
        locate(plain, wrapped[j], cursor_after(plain, wrapped, j)) + wrapped[j].len() <= locate(
            plain,
            wrapped[k],
            cursor_after(plain, wrapped, k),
        ),
{
    lemma_cursor_forward(plain, wrapped, j + 1, k);
    lemma_locate_found(plain, wrapped[k], cursor_after(plain, wrapped, k));
}

/// Whether every line of `wrapped` is found in `plain` as it stands, at or
/// after the place where the line before it ended.
pub open spec fn stands_verbatim(plain: Seq<char>, wrapped: Seq<Seq<char>>) -> bool {
    forall|k: int|
        0 <= k < wrapped.len() ==> locate(plain, #[trigger] wrapped[k], cursor_after(
            plain,
            wrapped,
            k,
        )) >= 0
}

/// Where every character has the style `style` and every line is found in
/// the text, every run of every laid-out line has that style.
pub proof fn lemma_laid_lines_single_style(
    plain: Seq<char>,
    styles: Seq<Style>,
    wrapped: Seq<Seq<char>>,
    style: Style,
)
    requires
        styles.len() == plain.len(),
        forall|i: int| 0 <= i < styles.len() ==> styles[i] == style,
        stands_verbatim(plain, wrapped) || style == Style::plain(),
    ensures
        forall|k: int, j: int|
            0 <= k < laid_lines(plain, styles, wrapped).len() && 0 <= j < laid_lines(
                plain,
                styles,
                wrapped,
            )[k].len() ==> (#[trigger] laid_lines(plain, styles, wrapped)[k][j]).style == style,
{
    let lines = laid_lines(plain, styles, wrapped);
    assert forall|k: int, j: int| 0 <= k < lines.len() && 0 <= j < lines[k].len() implies (
    #[trigger] lines[k][j]).style == style by {
        let piece = wrapped[k];
        let cursor = cursor_after(plain, wrapped, k);
        let at = locate(plain, piece, cursor);
        lemma_locate_found(plain, piece, cursor);
        lemma_cursor_bounds(plain, wrapped, k);
        if at >= 0 {
            lemma_runs_single_style(plain, styles, at, at + piece.len(), style);
        }
    }
}

/// The lines that the line breaker returns for the joined text of `group`:
/// none for an empty text.
pub open spec fn breaker_lines(group: Seq<Run>, width: usize) -> Seq<Seq<char>> {
    let plain = joined_text(group);
    if plain.len() == 0 {
        Seq::empty()
    } else {
        wrapped_lines(plain, width)
    }
}

/// The texts of `lines`, in order.
pub open spec fn line_texts(lines: Seq<Seq<Run>>) -> Seq<Seq<char>> {
    Seq::new(lines.len(), |k: int| joined_text(lines[k]))
}

/// The texts of the lines of a group without line breaks are the lines
/// that the line breaker returned for its joined text, one for one.
pub proof fn lemma_group_lines_text(group: Seq<Run>, width: usize)
    ensures
        line_texts(group_lines(group, width)) == breaker_lines(group, width),
{
    let plain = joined_text(group);
    let lines = group_lines(group, width);
    if plain.len() > 0 {
        let wrapped = wrapped_lines(plain, width);
        assert forall|k: int| 0 <= k < wrapped.len() implies joined_text(lines[k])
            == wrapped[k] by {
            lemma_laid_line_text(plain, char_styles(group), wrapped, k);
        }
    }
}

/// The texts that the line breaker returns for `groups`, each broken by
/// itself: a group for which it returns no line counts as one empty line.
pub open spec fn broken_texts(groups: Seq<Seq<Run>>, width: usize) -> Seq<Seq<char>>
    decreases groups.len(),
{
    if groups.len() == 0 {
        Seq::empty()
    } else {
        let lines = breaker_lines(groups.last(), width);
        broken_texts(groups.drop_last(), width) + if lines.len() == 0 {
            seq![Seq::<char>::empty()]
        } else {
            lines
        }
    }
}

/// The texts of the lines of groups are the lines that the line breaker
/// returned for each group, in the order of the groups.
pub proof fn lemma_broken_lines_text(groups: Seq<Seq<Run>>, width: usize)
    ensures
        line_texts(broken_lines(groups, width)) == broken_texts(groups, width),
    decreases groups.len(),
{
    if groups.len() > 0 {
        lemma_broken_lines_text(groups.drop_last(), width);
        lemma_group_lines_text(groups.last(), width);
        let lines = group_lines(groups.last(), width);
        let tail = if lines.len() == 0 {
            seq![Seq::<Run>::empty()]
        } else {
            lines
        };
        let texts = breaker_lines(groups.last(), width);
        let tail_texts = if texts.len() == 0 {
            seq![Seq::<char>::empty()]
        } else {
            texts
        };
        assert(line_texts(tail) =~= tail_texts);
    }
}

/// The texts that the line breaker returns for `spans`: for their groups
/// where a span holds a line break, else for the spans as one group.
pub open spec fn wrapped_texts(spans: Seq<Run>, width: usize) -> Seq<Seq<char>> {
    if spans.len() == 0 {
        Seq::empty()
    } else if has_break(spans) {
        broken_texts(break_groups(spans), width)
    } else {
        breaker_lines(spans, width)
    }
}

/// Wrapping keeps the line breaker's text: the texts of the wrapped lines
/// of `spans` are the lines that the line breaker returned, one for one
/// and in order. No character of them is lost, repeated or moved, whatever
/// the styles of the spans are.
pub proof fn lemma_wrapped_spans_text(spans: Seq<Run>, width: usize)
    ensures
        line_texts(wrapped_spans(spans, width)) == wrapped_texts(spans, width),
{
    if spans.len() > 0 {
        if has_break(spans) {
            lemma_broken_lines_text(break_groups(spans), width);
        } else {
            lemma_group_lines_text(spans, width);
        }
    }
}

/// No piece of a text holds the separator.
pub proof fn lemma_pieces_hold_no_separator(text: Seq<char>, sep: char)
    ensures
        forall|i: int|
            0 <= i < pieces(text, sep).len() ==> !(#[trigger] pieces(text, sep)[i]).contains(sep),
    decreases text.len(),
{
    if text.len() > 0 {
        lemma_pieces_hold_no_separator(text.drop_last(), sep);
        let before = pieces(text.drop_last(), sep);
        let after = pieces(text, sep);
        assert forall|i: int| 0 <= i < after.len() implies !(#[trigger] after[i]).contains(
            sep,
        ) by {
            if i < before.len() - 1 {
                assert(after[i] == before[i]);
            } else if text.last() != sep {
                let grown = before.last().push(text.last());
                assert(after[i] == grown);
                if grown.contains(sep) {
                    let at = choose|at: int| 0 <= at < grown.len() && grown[at] == sep;
                    assert(before.last()[at] == sep);
                    assert(before.last().contains(sep));
                    assert(before[before.len() - 1].contains(sep));
                }
            } else if i == before.len() - 1 {
                assert(after[i] == before[i]);
            }
        }
    } else {
        assert(pieces(text, sep)[0] =~= Seq::<char>::empty());
    }
}

/// Whether no run of `runs` holds a line break.
pub open spec fn unbroken(runs: Seq<Run>) -> bool {
    forall|i: int| 0 <= i < runs.len() ==> !(#[trigger] runs[i]).text.contains('\n')
}

/// Whether no run of any group of `state` holds a line break.
pub open spec fn unbroken_grouping(state: Grouping) -> bool {
    &&& unbroken(state.open)
    &&& forall|i: int| 0 <= i < state.closed.len() ==> unbroken(#[trigger] state.closed[i])
}

/// Feeding parts that hold no line break keeps a grouping free of them.
pub proof fn lemma_feed_parts_unbroken(
    state: Grouping,
    parts: Seq<Seq<char>>,
    style: Style,
    upto: int,
)
    requires
        unbroken_grouping(state),
        upto <= parts.len(),
        forall|i: int| 0 <= i < parts.len() ==> !(#[trigger] parts[i]).contains('\n'),
    ensures
        unbroken_grouping(feed_parts(state, parts, style, upto)),
    decreases upto,
{
    if upto > 0 {
        lemma_feed_parts_unbroken(state, parts, style, upto - 1);
    }
}

/// Line breaks part the spans and stay in none of them: no run of any
/// group holds a line break, so no wrapped line runs across one.
pub proof fn lemma_groups_unbroken(spans: Seq<Run>, upto: int)
    requires
        upto <= spans.len(),
    ensures
        unbroken_grouping(fed(spans, upto)),
        upto == spans.len() ==> forall|i: int|
            0 <= i < break_groups(spans).len() ==> unbroken(#[trigger] break_groups(spans)[i]),
    decreases upto,
{
    if upto > 0 {
        lemma_groups_unbroken(spans, upto - 1);
        let before = fed(spans, upto - 1);
        let span = spans[upto - 1];
        if span.text.contains('\n') {
            let parts = pieces(span.text, '\n');
            lemma_pieces_hold_no_separator(span.text, '\n');
            lemma_feed_parts_unbroken(before, parts, span.style, parts.len() as int);
        }
    }
    if upto == spans.len() {
        let all = fed(spans, upto);
        let groups = break_groups(spans);
        assert forall|i: int| 0 <= i < groups.len() implies unbroken(#[trigger] groups[i]) by {
            if i < all.closed.len() {
                assert(groups[i] == all.closed[i]);
            }
        }
    }
}

/// Whether every run of `runs` has the style `style`.
pub open spec fn uniform(runs: Seq<Run>, style: Style) -> bool {
    forall|i: int| 0 <= i < runs.len() ==> (#[trigger] runs[i]).style == style
}

/// Whether every run of every group of `state` has the style `style`.
pub open spec fn uniform_grouping(state: Grouping, style: Style) -> bool {
    &&& uniform(state.open, style)
    &&& forall|i: int| 0 <= i < state.closed.len() ==> uniform(#[trigger] state.closed[i], style)
}

/// Feeding parts in one style keeps a grouping in that style.
pub proof fn lemma_feed_parts_uniform(
    state: Grouping,
    parts: Seq<Seq<char>>,
    style: Style,
    upto: int,
)
    requires
        uniform_grouping(state, style),
    ensures
        uniform_grouping(feed_parts(state, parts, style, upto), style),
    decreases upto,
{
    if upto > 0 {
        lemma_feed_parts_uniform(state, parts, style, upto - 1);
    }
}

/// The groups of spans in one style are in that style.
pub proof fn lemma_fed_uniform(spans: Seq<Run>, style: Style, upto: int)
    requires
        uniform(spans, style),
        upto <= spans.len(),
    ensures
        uniform_grouping(fed(spans, upto), style),
    decreases upto,
{
    if upto > 0 {
        lemma_fed_uniform(spans, style, upto - 1);
        let before = fed(spans, upto - 1);
        let span = spans[upto - 1];
        if span.text.contains('\n') {
            let parts = pieces(span.text, '\n');
            lemma_feed_parts_uniform(before, parts, span.style, parts.len() as int);
        }
    }
}

/// Each character of the joined text of runs in one style has that style.
pub proof fn lemma_char_styles_uniform(runs: Seq<Run>, style: Style)
    requires
        uniform(runs, style),
    ensures
        forall|i: int| 0 <= i < char_styles(runs).len() ==> char_styles(runs)[i] == style,
    decreases runs.len(),
{
    if runs.len() > 0 {
        assert(uniform(runs.drop_last(), style));
        lemma_char_styles_uniform(runs.drop_last(), style);
    }
}

/// Whether the line breaker returned only lines that stand in the joined
/// text of `group`.
pub open spec fn group_verbatim(group: Seq<Run>, width: usize) -> bool {
    stands_verbatim(joined_text(group), breaker_lines(group, width))
}

/// Whether the line breaker returned, for `spans` or for each of their
/// groups, only lines that stand in the text it was given.
pub open spec fn all_verbatim(spans: Seq<Run>, width: usize) -> bool {
    if has_break(spans) {
        forall|i: int|
            0 <= i < break_groups(spans).len() ==> group_verbatim(
                #[trigger] break_groups(spans)[i],
                width,
            )
    } else {
        group_verbatim(spans, width)
    }
}

/// Whether every run of every line of `lines` has the style `style`.
pub open spec fn lines_uniform(lines: Seq<Seq<Run>>, style: Style) -> bool {
    forall|k: int, j: int|
        0 <= k < lines.len() && 0 <= j < lines[k].len() ==> (#[trigger] lines[k][j]).style
            == style
}

/// The lines of a group in one style are in that style, where the line
/// breaker returned only lines that stand in the group's text.
pub proof fn lemma_group_lines_uniform(group: Seq<Run>, width: usize, style: Style)
    requires
        uniform(group, style),
        group_verbatim(group, width) || style == Style::plain(),
    ensures
        lines_uniform(group_lines(group, width), style),
{
    let plain = joined_text(group);
    if plain.len() > 0 {
        lemma_char_styles_len(group);
        lemma_char_styles_uniform(group, style);
        lemma_laid_lines_single_style(
            plain,
            char_styles(group),
            wrapped_lines(plain, width),
            style,
        );
    }
}

/// The lines of groups in one style are in that style, where the line
/// breaker returned only lines that stand in each group's text.
pub proof fn lemma_broken_lines_uniform(groups: Seq<Seq<Run>>, width: usize, style: Style)
    requires
        forall|i: int| 0 <= i < groups.len() ==> uniform(#[trigger] groups[i], style),
        style == Style::plain() || forall|i: int|
            0 <= i < groups.len() ==> group_verbatim(#[trigger] groups[i], width),
    ensures
        lines_uniform(broken_lines(groups, width), style),
    decreases groups.len(),
{
    if groups.len() > 0 {
        let rest = groups.drop_last();
        assert forall|i: int| 0 <= i < rest.len() implies uniform(#[trigger] rest[i], style) by {}
        if style != Style::plain() {
            assert forall|i: int| 0 <= i < rest.len() implies group_verbatim(
                #[trigger] rest[i],
                width,
            ) by {}
        }
        lemma_broken_lines_uniform(rest, width, style);
        lemma_group_lines_uniform(groups.last(), width, style);
        let head = broken_lines(rest, width);
        let lines = group_lines(groups.last(), width);
        let tail = if lines.len() == 0 {
            seq![Seq::<Run>::empty()]
        } else {
            lines
        };
        let all = head + tail;
        assert forall|k: int, j: int| 0 <= k < all.len() && 0 <= j < all[k].len() implies (
        #[trigger] all[k][j]).style == style by {}
    }
}

/// Wrapping keeps a single style: where every span of a paragraph has the
/// style `style`, every run of every wrapped line has it too. This is
/// stated for the paragraphs for which the line breaker returned only
/// lines that stand in the text it was given, and for every paragraph in
/// the plain style: a line that does not stand in the text is laid out
/// unstyled.
pub proof fn lemma_wrapped_spans_single_style(spans: Seq<Run>, width: usize, style: Style)
    requires
        uniform(spans, style),
    ensures
        all_verbatim(spans, width) || style == Style::plain() ==> lines_uniform(
            wrapped_spans(spans, width),
            style,
        ),
{
    if (all_verbatim(spans, width) || style == Style::plain()) && spans.len() > 0 {
        if has_break(spans) {
            lemma_fed_uniform(spans, style, spans.len() as int);
            let groups = break_groups(spans);
            assert forall|i: int| 0 <= i < groups.len() implies uniform(
                #[trigger] groups[i],
                style,
            ) by {}
            lemma_broken_lines_uniform(groups, width, style);
        } else {
            lemma_group_lines_uniform(spans, width, style);
        }
    }
}

/// A code block is laid out the same at every width: a line that names
/// its language if and only if the language is not empty, then each of
/// its lines once, whole and in order.
pub proof fn lemma_code_block_lines(
    language: Seq<char>,
    lines: Seq<Seq<Run>>,
    width: usize,
    other_width: usize,
)
    ensures
        block_lines(Block::CodeBlock { language, lines }, width) == block_lines(
            Block::CodeBlock { language, lines },
            other_width,
        ),
        block_lines(Block::CodeBlock { language, lines }, width) == code_lines(language, lines),
        language.len() == 0 ==> code_lines(language, lines) == as_code(lines),
        language.len() > 0 ==> code_lines(language, lines).len() == lines.len() + 1
            && code_lines(language, lines)[0] == LineModel::Code(
            seq![Run { text: language, style: label_style() }],
        ) && code_lines(language, lines).subrange(1, lines.len() as int + 1) == as_code(lines),
        as_code(lines).len() == lines.len(),
        forall|i: int| 0 <= i < lines.len() ==> as_code(lines)[i] == LineModel::Code(lines[i]),
{
}

/// No block, no line.
pub proof fn lemma_flattened_empty(width: usize)
    ensures
        flattened(Seq::<Block>::empty(), width).len() == 0,
{
}

/// A width of 0 lays out as a width of 1 does.
pub proof fn lemma_width_zero_is_one(blocks: Seq<Block>)
    ensures
        clamp_width(0) == 1,
        flattened(blocks, clamp_width(0)) == flattened(blocks, clamp_width(1)),
{
}

/// The index of the first line of block `i` in the lines of `blocks`.
pub open spec fn block_start(blocks: Seq<Block>, width: usize, i: int) -> int {
    if i <= 0 {
        0
    } else {
        flattened(blocks.take(i), width).len() as int + 1
    }
}

/// The lines of the first `n` blocks open the lines of all blocks.
pub proof fn lemma_flattened_prefix(blocks: Seq<Block>, width: usize, n: int)
    requires
        0 <= n <= blocks.len(),
    ensures
        flattened(blocks.take(n), width).len() <= flattened(blocks, width).len(),
        flattened(blocks, width).take(flattened(blocks.take(n), width).len() as int) == flattened(
            blocks.take(n),
            width,
        ),
    decreases blocks.len() - n,
{
    if n == blocks.len() {
        assert(blocks.take(n) =~= blocks);
    } else {
        lemma_flattened_prefix(blocks, width, n + 1);
        let longer = blocks.take(n + 1);
        assert(longer.drop_last() =~= blocks.take(n));
        let shorter = flattened(blocks.take(n), width);
        assert(flattened(longer, width).take(shorter.len() as int) =~= shorter);
    }
}

/// The lines of block `i` stand together in the document, from the
/// block's start on, and exactly one blank line stands between them and
/// the lines of the block before it.
pub proof fn lemma_block_position(blocks: Seq<Block>, width: usize, i: int)
    requires
        0 <= i < blocks.len(),
    ensures
        block_start(blocks, width, i) + block_lines(blocks[i], width).len() <= flattened(
            blocks,
            width,
        ).len(),
        flattened(blocks, width).subrange(
            block_start(blocks, width, i),
            block_start(blocks, width, i) + block_lines(blocks[i], width).len(),
        ) == block_lines(blocks[i], width),
        i > 0 ==> block_start(blocks, width, i) == block_start(blocks, width, i - 1) + block_lines(
            blocks[i - 1],
            width,
        ).len() + 1,
        i > 0 ==> flattened(blocks, width)[block_start(blocks, width, i) - 1] == LineModel::Empty,
{
    let all = flattened(blocks, width);
    let upto = blocks.take(i + 1);
    let through = flattened(upto, width);
    lemma_flattened_prefix(blocks, width, i + 1);
    assert(upto.drop_last() =~= blocks.take(i));
    let start = block_start(blocks, width, i);
    let own = block_lines(blocks[i], width);
    assert(through.subrange(start, start + own.len()) =~= own);
    if i > 0 {
        assert(all[start - 1] == all.take(through.len() as int)[start - 1]);
        let before = blocks.take(i);
        assert(before.drop_last() =~= blocks.take(i - 1));
    }
}

} // verus!
