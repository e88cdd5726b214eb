//! Wrapping keeps the words: where the line breaker breaks a text at its
//! spaces only, the laid-out lines hold each word of the text once and in
//! order.

use vstd::prelude::*;
use crate::layout::{
    cursor_after, laid_lines, lemma_cursor_bounds, lemma_locate_found, lemma_pieces_len, locate,
    matches_at, pieces,
};
use crate::layout::group_lines;
use crate::layout_proofs::{
    breaker_lines, lemma_group_lines_text, lemma_laid_line_text, line_texts,
};
use crate::text::{Run, joined_text};
use crate::style::Style;

verus! {

/// The parts of `parts` that are not empty, in order.
pub open spec fn non_empty(parts: Seq<Seq<char>>) -> Seq<Seq<char>>
    decreases parts.len(),
{
    if parts.len() == 0 {
        Seq::empty()
    } else if parts.last().len() == 0 {
        non_empty(parts.drop_last())
    } else {
        non_empty(parts.drop_last()).push(parts.last())
    }
}

/// The words of `text`: its longest stretches without a space, in order.
pub open spec fn words(text: Seq<char>) -> Seq<Seq<char>> {
    non_empty(pieces(text, ' '))
}

/// Whether `text` holds nothing but spaces.
pub open spec fn all_spaces(text: Seq<char>) -> bool {
    forall|i: int| 0 <= i < text.len() ==> text[i] == ' '
}

/// `lines` joined with one space between each two.
pub open spec fn joined_lines(lines: Seq<Seq<char>>) -> Seq<char>
    decreases lines.len(),
{
    if lines.len() == 0 {
        Seq::empty()
    } else if lines.len() == 1 {
        lines[0]
    } else {
        joined_lines(lines.drop_last()) + seq![' '] + lines.last()
    }
}

/// Whether the lines `wrapped` break `plain` at its spaces only: each
/// line stands in the text after spaces alone, at least one space lies
/// between a line and the line before it, and spaces alone follow the
/// last line.
pub open spec fn breaks_at_spaces(plain: Seq<char>, wrapped: Seq<Seq<char>>) -> bool {
    &&& forall|k: int|
        0 <= k < wrapped.len() ==> {
            let cursor = cursor_after(plain, wrapped, k);
            let at = locate(plain, #[trigger] wrapped[k], cursor);
            &&& at >= 0
            &&& all_spaces(plain.subrange(cursor, at))
            &&& k > 0 ==> at > cursor
        }
    &&& all_spaces(
        plain.subrange(cursor_after(plain, wrapped, wrapped.len() as int), plain.len() as int),
    )
}

/// The parts that are not empty of two sequences joined are those of the
/// one, then those of the other.
pub proof fn lemma_non_empty_add(a: Seq<Seq<char>>, b: Seq<Seq<char>>)
    ensures
        non_empty(a + b) == non_empty(a) + non_empty(b),
    decreases b.len(),
{
    if b.len() == 0 {
        assert(a + b =~= a);
    } else {
        lemma_non_empty_add(a, b.drop_last());
        assert((a + b).drop_last() =~= a + b.drop_last());
    }
}

/// The pieces of two texts with the separator between them are the
/// pieces of the one, then the pieces of the other.
pub proof fn lemma_pieces_join(a: Seq<char>, b: Seq<char>, sep: char)
    ensures
        pieces(a + seq![sep] + b, sep) == pieces(a, sep) + pieces(b, sep),
    decreases b.len(),
{
    let text = a + seq![sep] + b;
    if b.len() == 0 {
        assert(text.drop_last() =~= a);
    } else {
        let shorter = b.drop_last();
        lemma_pieces_join(a, shorter, sep);
        lemma_pieces_len(shorter, sep);
        assert(text.drop_last() =~= a + seq![sep] + shorter);
    }
}

/// The words of two texts with a space between them are the words of the
/// one, then the words of the other.
pub proof fn lemma_words_join(a: Seq<char>, b: Seq<char>)
    ensures
        words(a + seq![' '] + b) == words(a) + words(b),
{
    lemma_pieces_join(a, b, ' ');
    lemma_non_empty_add(pieces(a, ' '), pieces(b, ' '));
}

/// A text without characters has no word.
pub proof fn lemma_words_of_nothing()
    ensures
        words(Seq::<char>::empty()) == Seq::<Seq<char>>::empty(),
{
    let one = seq![Seq::<char>::empty()];
    assert(non_empty(one) == non_empty(one.drop_last()));
}

/// Spaces without their last character are spaces, and that character is
/// a space.
pub proof fn lemma_drop_last_spaces(gap: Seq<char>)
    requires
        all_spaces(gap),
        gap.len() > 0,
    ensures
        all_spaces(gap.drop_last()),
        gap == gap.drop_last().push(' '),
{
    assert(gap =~= gap.drop_last().push(' '));
}

/// Spaces after a text add no word.
pub proof fn lemma_words_before_spaces(a: Seq<char>, gap: Seq<char>)
    requires
        all_spaces(gap),
    ensures
        words(a + gap) == words(a),
    decreases gap.len(),
{
    if gap.len() > 0 {
        let shorter = gap.drop_last();
        lemma_drop_last_spaces(gap);
        lemma_words_before_spaces(a, shorter);
        assert(a + gap =~= (a + shorter) + seq![' '] + Seq::<char>::empty());
        lemma_words_join(a + shorter, Seq::<char>::empty());
        lemma_words_of_nothing();
    }
}

/// Spaces hold no word.
pub proof fn lemma_words_of_spaces(gap: Seq<char>)
    requires
        all_spaces(gap),
    ensures
        words(gap) == Seq::<Seq<char>>::empty(),
{
    lemma_words_before_spaces(Seq::<char>::empty(), gap);
    lemma_words_of_nothing();
}

/// Spaces before a text add no word.
pub proof fn lemma_words_after_spaces(gap: Seq<char>, b: Seq<char>)
    requires
        all_spaces(gap),
    ensures
        words(gap + b) == words(b),
{
    if gap.len() > 0 {
        let shorter = gap.drop_last();
        lemma_drop_last_spaces(gap);
        assert(gap + b =~= shorter + seq![' '] + b);
        lemma_words_join(shorter, b);
        lemma_words_of_spaces(shorter);
    }
}

/// One space or more between two texts part their words, and add none.
pub proof fn lemma_words_across_gap(a: Seq<char>, gap: Seq<char>, b: Seq<char>)
    requires
        all_spaces(gap),
        gap.len() >= 1,
    ensures
        words(a + gap + b) == words(a) + words(b),
{
    let shorter = gap.drop_last();
    lemma_drop_last_spaces(gap);
    assert(a + gap + b =~= (a + shorter) + seq![' '] + b);
    lemma_words_join(a + shorter, b);
    lemma_words_before_spaces(a, shorter);
}

/// The words of the text up to the cursor are the words of the lines
/// found so far, joined with single spaces.
proof fn lemma_words_up_to(plain: Seq<char>, wrapped: Seq<Seq<char>>, k: int)
    requires
        breaks_at_spaces(plain, wrapped),
        0 <= k <= wrapped.len(),
    ensures
        words(plain.take(cursor_after(plain, wrapped, k))) == words(
            joined_lines(wrapped.take(k)),
        ),
    decreases k,
{
    if k > 0 {
        lemma_words_up_to(plain, wrapped, k - 1);
        let line = wrapped[k - 1];
        let cursor = cursor_after(plain, wrapped, k - 1);
        let at = locate(plain, line, cursor);
        lemma_cursor_bounds(plain, wrapped, k - 1);
        lemma_locate_found(plain, line, cursor);
        let head = plain.take(cursor);
        let gap = plain.subrange(cursor, at);
        assert(plain.take(at + line.len()) =~= head + gap + plain.subrange(at, at + line.len()));
        let lines = wrapped.take(k);
        assert(lines.drop_last() =~= wrapped.take(k - 1));
        if k == 1 {
            lemma_words_after_spaces(gap, line);
        } else {
            lemma_words_across_gap(head, gap, line);
            lemma_words_join(joined_lines(wrapped.take(k - 1)), line);
        }
    }
}

/// Where the lines break a text at its spaces only, the lines joined
/// with single spaces hold the words of the text: each word once, in
/// order, none lost and none added.
pub proof fn lemma_lines_keep_words(plain: Seq<char>, wrapped: Seq<Seq<char>>)
    requires
        breaks_at_spaces(plain, wrapped),
    ensures
        words(joined_lines(wrapped)) == words(plain),
{
    let end = cursor_after(plain, wrapped, wrapped.len() as int);
    lemma_words_up_to(plain, wrapped, wrapped.len() as int);
    lemma_cursor_bounds(plain, wrapped, wrapped.len() as int);
    assert(wrapped.take(wrapped.len() as int) =~= wrapped);
    assert(plain =~= plain.take(end) + plain.subrange(end, plain.len() as int));
    lemma_words_before_spaces(plain.take(end), plain.subrange(end, plain.len() as int));
}

/// Wrapping keeps the words. Where the line breaker breaks a text at its
/// spaces only, the texts of the laid-out lines, joined with single
/// spaces, hold each word of the text once and in order, whatever the
/// styles are. (A word that is longer than the width is broken inside,
/// and so is text without spaces: there the lines hold the characters of
/// the text, not its words.)
pub proof fn lemma_layout_keeps_words(
    plain: Seq<char>,
    styles: Seq<Style>,
    wrapped: Seq<Seq<char>>,
)
    requires
        breaks_at_spaces(plain, wrapped),
    ensures
        words(joined_lines(line_texts(laid_lines(plain, styles, wrapped)))) == words(plain),
{
    assert forall|k: int| 0 <= k < wrapped.len() implies line_texts(
        laid_lines(plain, styles, wrapped),
    )[k] == wrapped[k] by {
        lemma_laid_line_text(plain, styles, wrapped, k);
    }
    assert(line_texts(laid_lines(plain, styles, wrapped)) =~= wrapped);
    lemma_lines_keep_words(plain, wrapped);
}

/// Wrapping a paragraph keeps its words: the wrapped lines of spans
/// without line breaks, joined with single spaces, hold each word of the
/// spans' text once and in order. This is stated for the paragraphs that
/// the line breaker breaks at their spaces only.
pub proof fn lemma_group_keeps_words(group: Seq<Run>, width: usize)
    ensures
        breaks_at_spaces(joined_text(group), breaker_lines(group, width)) ==> words(
            joined_lines(line_texts(group_lines(group, width))),
        ) == words(joined_text(group)),
{
    if breaks_at_spaces(joined_text(group), breaker_lines(group, width)) {
        lemma_group_lines_text(group, width);
        lemma_lines_keep_words(joined_text(group), breaker_lines(group, width));
    }
}

} // verus!
