//! Display styles: colours, modifier sets, and the rules that resolve a
//! formatting context (heading level, emphasis, inline code) to one style.

use vstd::prelude::*;
use crate::modifier::{BOLD, ITALIC};

verus! {

/// A terminal colour.
#[derive(Clone, Copy, Debug, PartialEq, Eq, Structural)]
pub enum Color {
    Reset,
    Black,
    Red,
    Green,
    Yellow,
    Blue,
    Magenta,
    Cyan,
    Gray,
    DarkGray,
    LightRed,
    LightGreen,
    LightYellow,
    LightBlue,
    LightMagenta,
    LightCyan,
    White,
    Rgb(u8, u8, u8),
    Indexed(u8),
}

/// What a run of text looks like: an optional foreground and background, the
/// modifiers it switches on and the modifiers it switches off. An absent
/// colour and an untouched modifier are inherited when styles are merged.
#[derive(Clone, Copy, Debug, PartialEq, Eq, Structural)]
pub struct Style {
    pub fg: Option<Color>,
    pub bg: Option<Color>,
    pub add_modifier: u16,
    pub sub_modifier: u16,
}

impl Style {
    /// The style that changes nothing.
    pub open spec fn plain() -> Style {
        Style { fg: None, bg: None, add_modifier: 0, sub_modifier: 0 }
    }

    /// `self` overridden by `other`: a colour of `other` wins where it has
    /// one, and what `other` switches on or off wins over what `self` does.
    pub open spec fn patched(self, other: Style) -> Style {
        Style {
            fg: if other.fg is Some { other.fg } else { self.fg },
            bg: if other.bg is Some { other.bg } else { self.bg },
            add_modifier: (self.add_modifier & !other.sub_modifier) | other.add_modifier,
            sub_modifier: (self.sub_modifier & !other.add_modifier) | other.sub_modifier,
        }
    }

    /// The style that changes nothing.
    pub fn new() -> (style: Style)
        ensures
            style == Style::plain(),
    {
        Style { fg: None, bg: None, add_modifier: 0, sub_modifier: 0 }
    }

    /// The same style with foreground `color`.
    pub fn fg(self, color: Color) -> (style: Style)
        ensures
            style == (Style { fg: Some(color), ..self }),
    {
        Style { fg: Some(color), ..self }
    }

    /// The same style with background `color`.
    pub fn bg(self, color: Color) -> (style: Style)
        ensures
            style == (Style { bg: Some(color), ..self }),
    {
        Style { bg: Some(color), ..self }
    }

    /// The same style with the modifiers of `modifier` switched on.
    pub fn add_modifier(self, modifier: u16) -> (style: Style)
        ensures
            style == (Style {
                add_modifier: self.add_modifier | modifier,
                sub_modifier: self.sub_modifier & !modifier,
                ..self
            }),
    {
        Style {
            add_modifier: self.add_modifier | modifier,
            sub_modifier: self.sub_modifier & !modifier,
            ..self
        }
    }

    /// Merges `other` over `self`.
    pub fn patch(self, other: Style) -> (style: Style)
        ensures
            style == self.patched(other),
    {
        Style {
            fg: if other.fg.is_some() { other.fg } else { self.fg },
            bg: if other.bg.is_some() { other.bg } else { self.bg },
            add_modifier: (self.add_modifier & !other.sub_modifier) | other.add_modifier,
            sub_modifier: (self.sub_modifier & !other.add_modifier) | other.sub_modifier,
        }
    }
}

impl Default for Style {
    fn default() -> (style: Style)
        ensures
            style == Style::plain(),
    {
        Style::new()
    }
}

/// The colour of a heading of `level`.
pub open spec fn heading_color(level: u8) -> Color {
    if level == 1 {
        Color::LightCyan
    } else if level == 2 {
        Color::Green
    } else if level == 3 {
        Color::Yellow
    } else {
        Color::White
    }
}

/// The style of a heading of `level`: bold in its level's colour, and
/// italic too from level 4 on (and for any level outside 1 to 3).
pub open spec fn heading_style(level: u8) -> Style {
    Style {
        fg: Some(heading_color(level)),
        bg: None,
        add_modifier: if 1 <= level <= 3 { BOLD } else { BOLD | ITALIC },
        sub_modifier: 0,
    }
}

/// The style of inline code: light grey on dark grey, bold and italic.
pub open spec fn code_style() -> Style {
    Style {
        fg: Some(Color::Indexed(252)),
        bg: Some(Color::Indexed(236)),
        add_modifier: BOLD | ITALIC,
        sub_modifier: 0,
    }
}

/// The styles of `stack` merged from the bottom up over the plain style.
pub open spec fn merged(stack: Seq<Style>) -> Style
    decreases stack.len(),
{
    if stack.len() == 0 {
        Style::plain()
    } else {
        merged(stack.drop_last()).patched(stack.last())
    }
}

/// Returns the style of a heading of `level`.
pub fn default_heading_style(level: u8) -> (style: Style)
    ensures
        style == heading_style(level),
{
    let color = if level == 1 {
        Color::LightCyan
    } else if level == 2 {
        Color::Green
    } else if level == 3 {
        Color::Yellow
    } else {
        Color::White
    };
    let modifier: u16 = if 1 <= level && level <= 3 { BOLD } else { BOLD | ITALIC };
    Style { fg: Some(color), bg: None, add_modifier: modifier, sub_modifier: 0 }
}

/// Returns the style of inline code.
pub fn default_code_style() -> (style: Style)
    ensures
        style == code_style(),
{
    Style {
        fg: Some(Color::Indexed(252)),
        bg: Some(Color::Indexed(236)),
        add_modifier: BOLD | ITALIC,
        sub_modifier: 0,
    }
}

/// Returns the style in force under `style_stack`: its entries merged from
/// the first to the last over the plain style.
pub fn effective_style(style_stack: &Vec<Style>) -> (style: Style)
    ensures
        style == merged(style_stack@),
{
    let mut acc = Style::new();
    let mut i: usize = 0;
    while i < style_stack.len()
        invariant
            i <= style_stack.len(),
            acc == merged(style_stack@.take(i as int)),
        decreases style_stack.len() - i,
    {
        proof {
            let next = style_stack@.take(i + 1);
            assert(next.drop_last() =~= style_stack@.take(i as int));
        }
        acc = acc.patch(style_stack[i]);
        i = i + 1;
    }
    proof {
        assert(style_stack@.take(i as int) =~= style_stack@);
    }
    acc
}

} // verus!
