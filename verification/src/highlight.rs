//! Syntax highlighting: turns the text of a code block into styled lines,
//! with syntect doing the tokenizing behind a handful of trusted calls.

use syntect::easy::HighlightLines;
use syntect::util::LinesWithEndings;
use vstd::prelude::*;
use vstd::string::{StrSliceExecFns, StringExecFns};
use vstd::utf8::encode_utf8;
use crate::layout::{pieces, split_at_char, string_views};
use crate::modifier::{BOLD, ITALIC, UNDERLINED};
use crate::style::{Color, Style};
use crate::text::{
    Line, Run, Span, chars_of, line_views, slice_string, span_views, string_of,
};

verus! {

/// syntect's `SyntaxSet`: a set of syntax definitions, opaque here.
#[verifier::external_type_specification]
#[verifier::external_body]
pub struct ExSyntaxSet(syntect::parsing::SyntaxSet);

/// syntect's `ThemeSet`: a map from names to themes, opaque here.
#[verifier::external_type_specification]
#[verifier::external_body]
pub struct ExThemeSet(syntect::highlighting::ThemeSet);

/// The theme used where the one asked for is unknown.
pub const DEFAULT_THEME: &'static str = "base16-ocean.dark";

/// The largest code, in bytes, that is tokenized; longer code is laid out
/// unstyled.
pub const MAX_HIGHLIGHT_BYTES: usize = 512 * 1024;

/// A colour of a highlighting theme: red, green, blue and alpha, in this
/// order.
#[derive(Clone, Copy, Debug, PartialEq, Eq, Structural)]
pub struct Rgba(pub u8, pub u8, pub u8, pub u8);

/// The style that a theme gives a token: its colours, and its font style
/// as a set of bits (1 bold, 2 underline, 4 italic).
#[derive(Clone, Copy, Debug, PartialEq, Eq, Structural)]
pub struct TokenStyle {
    pub foreground: Rgba,
    pub background: Rgba,
    pub font_style: u8,
}

/// A piece of a line of code with the style that a theme gives it: its
/// colours, and its font style as a set of bits (1 bold, 2 underline,
/// 4 italic).
#[derive(Clone, Debug, PartialEq, Eq)]
pub struct Token {
    pub foreground: Rgba,
    pub background: Rgba,
    pub font_style: u8,
    pub text: String,
}

/// The mathematical model of a [`Token`].
pub struct TokenModel {
    pub style: TokenStyle,
    pub text: Seq<char>,
}

impl View for Token {
    type V = TokenModel;

    open spec fn view(&self) -> TokenModel {
        TokenModel {
            style: TokenStyle {
                foreground: self.foreground,
                background: self.background,
                font_style: self.font_style,
            },
            text: self.text@,
        }
    }
}

/// One line of code, line ending included, and its tokens; `None` where
/// the tokenizer failed on the line.
#[derive(Clone, Debug, PartialEq, Eq)]
pub struct TokenLine {
    pub text: String,
    pub tokens: Option<Vec<Token>>,
}

/// The mathematical model of a [`TokenLine`].
pub struct TokenLineModel {
    pub text: Seq<char>,
    pub tokens: Option<Seq<TokenModel>>,
}

/// The models of `tokens`, in order.
pub open spec fn token_views(tokens: Seq<Token>) -> Seq<TokenModel> {
    Seq::new(tokens.len(), |i: int| tokens[i]@)
}

impl View for TokenLine {
    type V = TokenLineModel;

    open spec fn view(&self) -> TokenLineModel {
        TokenLineModel {
            text: self.text@,
            tokens: match self.tokens {
                Some(tokens) => Some(token_views(tokens@)),
                None => None,
            },
        }
    }
}

/// The models of `lines`, in order.
pub open spec fn token_line_views(lines: Seq<TokenLine>) -> Seq<TokenLineModel> {
    Seq::new(lines.len(), |i: int| lines[i]@)
}

impl Token {
    /// The token of `text` with the given colours and font style.
    pub fn new(foreground: Rgba, background: Rgba, font_style: u8, text: &str) -> (token: Token)
        ensures
            token@ == (TokenModel {
                style: TokenStyle { foreground, background, font_style },
                text: text@,
            }),
    {
        Token { foreground, background, font_style, text: String::from_str(text) }
    }
}

impl TokenLine {
    /// The line `text` with `tokens`.
    pub fn new(text: &str, tokens: Option<Vec<Token>>) -> (line: TokenLine)
        ensures
            line.text@ == text@,
            line.tokens == tokens,
    {
        TokenLine { text: String::from_str(text), tokens }
    }
}

/// The syntaxes and themes that code is highlighted with, loaded once and
/// used for every code block.
pub struct Highlighter {
    syntax_set: syntect::parsing::SyntaxSet,
    theme_set: syntect::highlighting::ThemeSet,
}

/// The names of the syntaxes that `highlighter` holds.
pub uninterp spec fn syntax_names(highlighter: Highlighter) -> Set<Seq<char>>;

/// The names of the themes that `highlighter` holds.
pub uninterp spec fn theme_names(highlighter: Highlighter) -> Set<Seq<char>>;

/// The name of the syntax that `SyntaxSet::find_syntax_by_token` finds for
/// `token` among the syntaxes of `highlighter`: by file extension first,
/// then by name, letter case ignored.
pub uninterp spec fn syntax_for_token(highlighter: Highlighter, token: Seq<char>) -> Option<
    Seq<char>,
>;

/// The foreground that the settings of the theme `theme` give to text.
pub uninterp spec fn theme_foreground(highlighter: Highlighter, theme: Seq<char>) -> Option<Rgba>;

/// The foreground that the theme `theme` resolves for text of the one
/// scope `scope`; `None` where `scope` is no scope.
pub uninterp spec fn scope_foreground(
    highlighter: Highlighter,
    theme: Seq<char>,
    scope: Seq<char>,
) -> Option<Rgba>;

/// The lines of `code`, each with the tokens that syntect's
/// `HighlightLines` gives it when it reads the lines in order with the
/// syntax `syntax` and the theme `theme`.
pub uninterp spec fn token_lines(
    highlighter: Highlighter,
    code: Seq<char>,
    syntax: Seq<char>,
    theme: Seq<char>,
) -> Seq<TokenLineModel>;

/// The name of the syntax without highlighting rules.
pub open spec fn plain_text_name() -> Seq<char> {
    "Plain Text"@
}

impl Highlighter {
    #[verifier::type_invariant]
    spec fn holds_plain_text(self) -> bool {
        syntax_names(self).contains(plain_text_name())
    }

    /// Loads syntect's default syntaxes (`SyntaxSet::load_defaults_newlines`)
    /// and default themes (`ThemeSet::load_defaults`). Trusted: the syntaxes
    /// include the one named "Plain Text", as the documentation of
    /// `find_syntax_plain_text` expects of every syntax set.
    #[verifier::external_body]
    pub fn new() -> (highlighter: Highlighter)
        ensures
            syntax_names(highlighter).contains(plain_text_name()),
    {
        Highlighter {
            syntax_set: syntect::parsing::SyntaxSet::load_defaults_newlines(),
            theme_set: syntect::highlighting::ThemeSet::load_defaults(),
        }
    }

    /// Calls `SyntaxSet::find_syntax_by_token` and hands back the name of
    /// the syntax found. Trusted: the result is the named one, and a
    /// syntax that is found is one of the set.
    #[verifier::external_body]
    fn find_syntax_by_token(&self, token: &str) -> (name: Option<String>)
        ensures
            match name {
                Some(found) => syntax_for_token(*self, token@) == Some(found@) && syntax_names(
                    *self,
                ).contains(found@),
                None => syntax_for_token(*self, token@) is None,
            },
    {
        self.syntax_set.find_syntax_by_token(token).map(|syntax| syntax.name.clone())
    }

    /// Calls `SyntaxSet::find_syntax_plain_text`, which panics on a set
    /// without a syntax named "Plain Text", and hands back the name of the
    /// syntax found. Trusted: that name is "Plain Text".
    #[verifier::external_body]
    fn find_syntax_plain_text(&self) -> (name: String)
        requires
            syntax_names(*self).contains(plain_text_name()),
        ensures
            name@ == plain_text_name(),
    {
        self.syntax_set.find_syntax_plain_text().name.clone()
    }

    /// Asks the theme map of `ThemeSet` whether it has the key `name`.
    #[verifier::external_body]
    fn has_theme(&self, name: &str) -> (found: bool)
        ensures
            found == theme_names(*self).contains(name@),
    {
        self.theme_set.themes.contains_key(name)
    }

    /// Reads the field `settings.foreground` of the theme `theme`.
    #[verifier::external_body]
    fn default_foreground(&self, theme: &str) -> (color: Option<Rgba>)
        requires
            theme_names(*self).contains(theme@),
        ensures
            color == theme_foreground(*self, theme@),
    {
        let color = self.theme_set.themes[theme].settings.foreground;
        color.map(|c| Rgba(c.r, c.g, c.b, c.a))
    }

    /// Parses `scope` with `Scope::new` and resolves its style in the theme
    /// `theme` with `Highlighter::style_for_stack` on that one scope.
    /// Trusted: the foreground of that style is the named one, `None` where
    /// `scope` does not parse.
    #[verifier::external_body]
    fn scope_color(&self, theme: &str, scope: &str) -> (color: Option<Rgba>)
        requires
            theme_names(*self).contains(theme@),
        ensures
            color == scope_foreground(*self, theme@, scope@),
    {
        let scope = syntect::parsing::Scope::new(scope).ok()?;
        let resolver = syntect::highlighting::Highlighter::new(&self.theme_set.themes[theme]);
        let c = resolver.style_for_stack(&[scope]).foreground;
        Some(Rgba(c.r, c.g, c.b, c.a))
    }

    /// Runs syntect's `HighlightLines::highlight_line` over the lines that
    /// `LinesWithEndings` parts `code` into, with the syntax named `syntax`
    /// and the theme `theme`. Trusted: the lines and tokens handed back
    /// are those the calls yield, a line on which the call fails having no
    /// tokens.
    #[verifier::external_body]
    fn tokenize(&self, code: &str, syntax: &str, theme: &str) -> (lines: Vec<TokenLine>)
        requires
            syntax_names(*self).contains(syntax@),
            theme_names(*self).contains(theme@),
        ensures
            token_line_views(lines@) == token_lines(*self, code@, syntax@, theme@),
    {
        let syntax = self.syntax_set.find_syntax_by_name(syntax).unwrap();
        let mut state = HighlightLines::new(syntax, &self.theme_set.themes[theme]);
        LinesWithEndings::from(code).map(|line| TokenLine {
            text: line.to_string(),
            tokens: state.highlight_line(line, &self.syntax_set).ok().map(|ranges| {
                ranges.iter().map(|(s, t)| Token {
                    foreground: Rgba(s.foreground.r, s.foreground.g, s.foreground.b, s.foreground.a),
                    background: Rgba(s.background.r, s.background.g, s.background.b, s.background.a),
                    font_style: s.font_style.bits(),
                    text: t.to_string(),
                }).collect()
            }),
        }).collect()
    }
}

/// `line` without a carriage return at its end.
pub open spec fn without_cr(line: Seq<char>) -> Seq<char> {
    if line.len() > 0 && line.last() == '\r' {
        line.drop_last()
    } else {
        line
    }
}

/// The lines of `text`: it is split at each line feed, a carriage return
/// just before a line feed goes with it, and what follows the last line
/// feed is a line only where it is not empty.
pub open spec fn source_lines(text: Seq<char>) -> Seq<Seq<char>> {
    let parts = pieces(text, '\n');
    let ended = parts.len() - 1;
    Seq::new(
        if parts.last().len() > 0 {
            parts.len()
        } else {
            ended as nat
        },
        |i: int|
            if i < ended {
                without_cr(parts[i])
            } else {
                parts[i]
            },
    )
}

/// The lines of `code`, each as one unstyled run.
pub open spec fn unstyled_lines(code: Seq<char>) -> Seq<Seq<Run>> {
    Seq::new(
        source_lines(code).len(),
        |i: int| seq![Run { text: source_lines(code)[i], style: Style::plain() }],
    )
}

/// `text` without the carriage returns and line feeds at its end.
pub open spec fn trimmed(text: Seq<char>) -> Seq<char>
    decreases text.len(),
{
    if text.len() > 0 && (text.last() == '\r' || text.last() == '\n') {
        trimmed(text.drop_last())
    } else {
        text
    }
}

/// The colour that marks comments: the foreground `comment` that a theme
/// gives to comments, unless it is the theme's foreground for all text
/// (`default_foreground`, or opaque black where the theme names none).
pub open spec fn resolved_comment(comment: Option<Rgba>, default_foreground: Option<Rgba>)
    -> Option<Rgba> {
    match comment {
        None => None,
        Some(color) => {
            let usual = match default_foreground {
                Some(named) => named,
                None => Rgba(0, 0, 0, 255),
            };
            if color == usual {
                None
            } else {
                Some(color)
            }
        },
    }
}

/// The modifiers for a font style of a theme; italic is forced for a
/// comment.
pub open spec fn font_modifiers(font_style: u8, is_comment: bool) -> u16 {
    (if font_style & 1 == 1 {
        BOLD
    } else {
        0
    }) | (if font_style & 4 == 4 || is_comment {
        ITALIC
    } else {
        0
    }) | (if font_style & 2 == 2 {
        UNDERLINED
    } else {
        0
    })
}

/// The display style for a token style of a theme.
pub open spec fn span_style(style: TokenStyle, is_comment: bool) -> Style {
    Style {
        fg: Some(Color::Rgb(style.foreground.0, style.foreground.1, style.foreground.2)),
        bg: Some(Color::Rgb(style.background.0, style.background.1, style.background.2)),
        add_modifier: font_modifiers(style.font_style, is_comment),
        sub_modifier: 0,
    }
}

/// The run of `token`: its text without line endings, in its display
/// style; a token in the colour `comment` counts as a comment.
pub open spec fn token_run(token: TokenModel, comment: Option<Rgba>) -> Run {
    Run {
        text: trimmed(token.text),
        style: span_style(token.style, comment == Some(token.style.foreground)),
    }
}

/// The runs of `tokens` that are not empty.
pub open spec fn token_runs(tokens: Seq<TokenModel>, comment: Option<Rgba>) -> Seq<Run>
    decreases tokens.len(),
{
    if tokens.len() == 0 {
        Seq::empty()
    } else {
        let before = token_runs(tokens.drop_last(), comment);
        let run = token_run(tokens.last(), comment);
        if run.text.len() > 0 {
            before.push(run)
        } else {
            before
        }
    }
}

/// The display line of a tokenized line: the runs of its tokens, or the
/// whole line unstyled, without its line ending, where it has no tokens.
pub open spec fn styled_line(line: TokenLineModel, comment: Option<Rgba>) -> Seq<Run> {
    match line.tokens {
        Some(tokens) => token_runs(tokens, comment),
        None => seq![Run { text: trimmed(line.text), style: Style::plain() }],
    }
}

/// The display lines of tokenized lines.
pub open spec fn styled_lines(lines: Seq<TokenLineModel>, comment: Option<Rgba>) -> Seq<Seq<Run>> {
    Seq::new(lines.len(), |i: int| styled_line(lines[i], comment))
}

/// Whether `code` is too long to be tokenized: its UTF-8 encoding has
/// more than `MAX_HIGHLIGHT_BYTES` bytes.
pub open spec fn oversized(code: Seq<char>) -> bool {
    encode_utf8(code).len() as usize > MAX_HIGHLIGHT_BYTES
}

/// The syntax for the language token `language`: the one found for it,
/// else plain text.
pub open spec fn chosen_syntax(highlighter: Highlighter, language: Seq<char>) -> Seq<char> {
    if language.len() == 0 {
        plain_text_name()
    } else {
        match syntax_for_token(highlighter, language) {
            Some(name) => name,
            None => plain_text_name(),
        }
    }
}

/// The theme for the name `theme`: that theme where it is known, else the
/// default theme where that is known.
pub open spec fn chosen_theme(highlighter: Highlighter, theme: Seq<char>) -> Option<Seq<char>> {
    if theme_names(highlighter).contains(theme) {
        Some(theme)
    } else if theme_names(highlighter).contains(DEFAULT_THEME@) {
        Some(DEFAULT_THEME@)
    } else {
        None
    }
}

/// The colour by which the theme `theme` marks comments, if it marks them.
pub open spec fn theme_comment_color(highlighter: Highlighter, theme: Seq<char>) -> Option<
    Rgba,
> {
    resolved_comment(
        scope_foreground(highlighter, theme, "comment"@),
        theme_foreground(highlighter, theme),
    )
}

/// The display lines of `code` in the language `language` and the theme
/// `theme`. Code that is oversized, and code for which no theme is
/// known, is laid out unstyled; an unknown or empty language is read as
/// plain text.
pub open spec fn highlighted(
    highlighter: Highlighter,
    code: Seq<char>,
    language: Seq<char>,
    theme: Seq<char>,
) -> Seq<Seq<Run>> {
    if oversized(code) {
        unstyled_lines(code)
    } else {
        match chosen_theme(highlighter, theme) {
            None => unstyled_lines(code),
            Some(known) => styled_lines(
                token_lines(highlighter, code, chosen_syntax(highlighter, language), known),
                theme_comment_color(highlighter, known),
            ),
        }
    }
}

/// Returns `text` without the carriage returns and line feeds at its end.
pub fn trim_line_end(text: &str) -> (kept: String)
    ensures
        kept@ == trimmed(text@),
{
    let chars = chars_of(text);
    let mut end: usize = chars.len();
    proof {
        assert(text@.take(end as int) =~= text@);
    }
    while end > 0 && (chars[end - 1] == '\r' || chars[end - 1] == '\n')
        invariant
            chars@ == text@,
            end <= chars@.len(),
            trimmed(text@) == trimmed(text@.take(end as int)),
        decreases end,
    {
        proof {
            assert(text@.take(end as int).drop_last() =~= text@.take(end - 1));
        }
        end = end - 1;
    }
    string_of(&chars, 0, end)
}

/// Returns the lines of `code`, each as one unstyled run.
pub fn plain_lines(code: &str) -> (lines: Vec<Line>)
    ensures
        line_views(lines@) == unstyled_lines(code@),
{
    let parts = split_at_char(code, '\n');
    let ghost texts = pieces(code@, '\n');
    proof {
        crate::layout::lemma_pieces_len(code@, '\n');
    }
    let count = parts.len();
    let mut lines: Vec<Line> = Vec::new();
    let mut i: usize = 0;
    while i + 1 < count
        invariant
            count == parts@.len(),
            count >= 1,
            texts == string_views(parts@),
            i + 1 <= count,
            lines@.len() == i,
            forall|j: int|
                0 <= j < i ==> lines@[j]@ == seq![
                    Run { text: without_cr(texts[j]), style: Style::plain() },
                ],
        decreases count - i,
    {
        let part = parts[i].as_str();
        let size = part.unicode_len();
        if size > 0 && part.get_char(size - 1) == '\r' {
            let kept = slice_string(part, 0, size - 1);
            lines.push(Line::single(Span::raw(kept.as_str())));
        } else {
            lines.push(Line::single(Span::raw(part)));
        }
        i = i + 1;
    }
    let last = parts[count - 1].as_str();
    if !last.is_empty() {
        lines.push(Line::single(Span::raw(last)));
    }
    lines
}

/// Returns the colour that marks comments, given the foreground that a
/// theme resolves for comments and the foreground of its settings.
pub fn resolve_comment_color(comment: Option<Rgba>, default_foreground: Option<Rgba>) -> (marked:
    Option<Rgba>)
    ensures
        marked == resolved_comment(comment, default_foreground),
{
    match comment {
        None => None,
        Some(color) => {
            let usual = match default_foreground {
                Some(named) => named,
                None => Rgba(0, 0, 0, 255),
            };
            if color == usual {
                None
            } else {
                Some(color)
            }
        },
    }
}

/// Returns the span of `text` in the display style for `style`.
pub fn syntect_style_to_span(text: &str, style: TokenStyle, is_comment: bool) -> (span: Span)
    ensures
        span@ == (Run { text: text@, style: span_style(style, is_comment) }),
{
    let fg = Color::Rgb(style.foreground.0, style.foreground.1, style.foreground.2);
    let bg = Color::Rgb(style.background.0, style.background.1, style.background.2);
    let mut modifier: u16 = 0;
    if style.font_style & 1 == 1 {
        modifier = modifier | BOLD;
    }
    if style.font_style & 4 == 4 || is_comment {
        modifier = modifier | ITALIC;
    }
    if style.font_style & 2 == 2 {
        modifier = modifier | UNDERLINED;
    }
    proof {
        let bold: u16 = if style.font_style & 1 == 1 { BOLD } else { 0 };
        let italic: u16 = if style.font_style & 4 == 4 || is_comment { ITALIC } else { 0 };
        let underlined: u16 = if style.font_style & 2 == 2 { UNDERLINED } else { 0 };
        assert(((0u16 | bold) | italic) | underlined == (bold | italic) | underlined)
            by (bit_vector);
        assert(0u16 | bold == bold) by (bit_vector);
        assert(bold | 0u16 == bold) by (bit_vector);
        assert((bold | italic) | 0u16 == bold | italic) by (bit_vector);
    }
    Span::styled(text, Style { fg: Some(fg), bg: Some(bg), add_modifier: modifier, sub_modifier: 0 })
}

/// Builds the display line of the tokenized line `line`, where `comment`
/// is the colour that marks comments.
pub fn build_styled_line(line: &TokenLine, comment: Option<Rgba>) -> (styled: Line)
    ensures
        styled@ == styled_line(line@, comment),
{
    match &line.tokens {
        None => {
            let kept = trim_line_end(line.text.as_str());
            Line::single(Span::raw(kept.as_str()))
        },
        Some(tokens) => {
            let ghost models = token_views(tokens@);
            let mut spans: Vec<Span> = Vec::new();
            let mut i: usize = 0;
            while i < tokens.len()
                invariant
                    models == token_views(tokens@),
                    i <= tokens@.len(),
                    span_views(spans@) == token_runs(models.take(i as int), comment),
                decreases tokens.len() - i,
            {
                let token = &tokens[i];
                proof {
                    let next = models.take(i + 1);
                    assert(next.drop_last() =~= models.take(i as int));
                }
                let kept = trim_line_end(token.text.as_str());
                let style = TokenStyle {
                    foreground: token.foreground,
                    background: token.background,
                    font_style: token.font_style,
                };
                let is_comment = match comment {
                    Some(color) => token.foreground == color,
                    None => false,
                };
                if !kept.as_str().is_empty() {
                    spans.push(syntect_style_to_span(kept.as_str(), style, is_comment));
                }
                i = i + 1;
            }
            proof {
                assert(models.take(i as int) =~= models);
            }
            Line { spans }
        },
    }
}

impl Highlighter {
    /// Returns the colour by which the theme `theme_name` marks comments:
    /// `None` where the theme is unknown or gives comments the colour of
    /// all text.
    pub fn comment_color(&self, theme_name: &str) -> (marked: Option<Rgba>)
        ensures
            marked == if theme_names(*self).contains(theme_name@) {
                theme_comment_color(*self, theme_name@)
            } else {
                None
            },
    {
        if self.has_theme(theme_name) {
            resolve_comment_color(
                self.scope_color(theme_name, "comment"),
                self.default_foreground(theme_name),
            )
        } else {
            None
        }
    }

    /// Highlights `code`, one display line for each line of it.
    ///
    /// `language` is a language token such as "rust" or "py"; an empty or
    /// unknown one is read as plain text. `theme_name` names a theme; an
    /// unknown one gives way to the default theme. Code of more than
    /// `MAX_HIGHLIGHT_BYTES` bytes is not tokenized, and neither is any
    /// code where no theme is known: its lines come back unstyled. No
    /// text that comes back from tokenizing ends in a line ending.
    pub fn highlight_code(&self, code: &str, language: &str, theme_name: &str) -> (lines: Vec<
        Line,
    >)
        ensures
            line_views(lines@) == highlighted(*self, code@, language@, theme_name@),
    {
        proof {
            use_type_invariant(self);
        }
        if code.len() > MAX_HIGHLIGHT_BYTES {
            return plain_lines(code);
        }
        let syntax = if language.is_empty() {
            self.find_syntax_plain_text()
        } else {
            match self.find_syntax_by_token(language) {
                Some(name) => name,
                None => self.find_syntax_plain_text(),
            }
        };
        let theme = if self.has_theme(theme_name) {
            theme_name
        } else if self.has_theme(DEFAULT_THEME) {
            DEFAULT_THEME
        } else {
            return plain_lines(code);
        };
        let comment = self.comment_color(theme);
        let tokenized = self.tokenize(code, syntax.as_str(), theme);
        let ghost models = token_line_views(tokenized@);
        let mut lines: Vec<Line> = Vec::new();
        let mut i: usize = 0;
        while i < tokenized.len()
            invariant
                models == token_line_views(tokenized@),
                i <= tokenized@.len(),
                lines@.len() == i,
                forall|j: int| 0 <= j < i ==> lines@[j]@ == styled_line(models[j], comment),
            decreases tokenized.len() - i,
        {
            lines.push(build_styled_line(&tokenized[i], comment));
            i = i + 1;
        }
        lines
    }
}

/// Whether `text` ends in a carriage return or a line feed.
pub open spec fn ends_in_line_end(text: Seq<char>) -> bool {
    text.len() > 0 && (text.last() == '\r' || text.last() == '\n')
}

/// Trimming takes line endings off the end and nothing else: what is
/// kept opens the text, and it does not end in a line ending.
pub proof fn lemma_trimmed(text: Seq<char>)
    ensures
        trimmed(text).len() <= text.len(),
        trimmed(text) == text.take(trimmed(text).len() as int),
        !ends_in_line_end(trimmed(text)),
    decreases text.len(),
{
    if text.len() > 0 && (text.last() == '\r' || text.last() == '\n') {
        lemma_trimmed(text.drop_last());
    }
}

/// No run made of tokens is empty, and none ends in a line ending.
pub proof fn lemma_token_runs_clean(tokens: Seq<TokenModel>, comment: Option<Rgba>)
    ensures
        forall|j: int|
            0 <= j < token_runs(tokens, comment).len() ==> (#[trigger] token_runs(
                tokens,
                comment,
            )[j]).text.len() > 0 && !ends_in_line_end(token_runs(tokens, comment)[j].text),
    decreases tokens.len(),
{
    if tokens.len() > 0 {
        lemma_token_runs_clean(tokens.drop_last(), comment);
        lemma_trimmed(tokens.last().text);
    }
}

/// No text that comes back from tokenizing ends in a line ending: every
/// run of every styled line is free of them at its end.
pub proof fn lemma_styled_lines_clean(lines: Seq<TokenLineModel>, comment: Option<Rgba>)
    ensures
        styled_lines(lines, comment).len() == lines.len(),
        forall|i: int, j: int|
            0 <= i < lines.len() && 0 <= j < styled_lines(lines, comment)[i].len()
                ==> !ends_in_line_end((#[trigger] styled_lines(lines, comment)[i][j]).text),
{
    assert forall|i: int, j: int|
        0 <= i < lines.len() && 0 <= j < styled_lines(lines, comment)[i].len()
        implies !ends_in_line_end((#[trigger] styled_lines(lines, comment)[i][j]).text) by {
        match lines[i].tokens {
            Some(tokens) => {
                lemma_token_runs_clean(tokens, comment);
            },
            None => {
                lemma_trimmed(lines[i].text);
            },
        }
    }
}

/// Returns a highlighter with the default syntaxes and themes.
pub fn h() -> (highlighter: Highlighter)
    ensures
        syntax_names(highlighter).contains(plain_text_name()),
{
    Highlighter::new()
}

} // verus!
