//! The viewer's state: the laid-out document, the scroll position, the
//! viewport, and how keys and resizes change them.

use std::ops::Range;
use vstd::prelude::*;
use crate::layout::{PreRenderedDocument, clamp_width, flatten, flattened};
use crate::parser::{RenderedBlock, block_views};

verus! {

/// The key that was pressed.
#[derive(Clone, Copy, Debug, PartialEq, Eq, Structural)]
pub enum KeyCode {
    Char(char),
    Down,
    Up,
    PageDown,
    PageUp,
    Home,
    End,
    Esc,
    /// Any other key.
    Other,
}

/// A key press: the key, and whether Control was held with it.
#[derive(Clone, Copy, Debug, PartialEq, Eq, Structural)]
pub struct KeyEvent {
    pub code: KeyCode,
    pub control: bool,
}

impl KeyEvent {
    /// The press of `code`, with Control held or not.
    pub fn new(code: KeyCode, control: bool) -> (key: KeyEvent)
        ensures
            key == (KeyEvent { code, control }),
    {
        KeyEvent { code, control }
    }
}

/// What a key press asks for.
#[derive(Clone, Copy, Debug, PartialEq, Eq, Structural)]
pub enum KeyAction {
    LineDown,
    LineUp,
    HalfPageDown,
    HalfPageUp,
    Top,
    Bottom,
    Quit,
    Nothing,
}

/// What `key` asks for.
pub open spec fn key_action(key: KeyEvent) -> KeyAction {
    match key.code {
        KeyCode::Char(c) => if c == 'j' {
            KeyAction::LineDown
        } else if c == 'k' {
            KeyAction::LineUp
        } else if c == 'd' {
            KeyAction::HalfPageDown
        } else if c == 'u' {
            KeyAction::HalfPageUp
        } else if c == 'g' {
            KeyAction::Top
        } else if c == 'G' {
            KeyAction::Bottom
        } else if c == 'q' {
            KeyAction::Quit
        } else if c == 'c' && key.control {
            KeyAction::Quit
        } else {
            KeyAction::Nothing
        },
        KeyCode::Down => KeyAction::LineDown,
        KeyCode::Up => KeyAction::LineUp,
        KeyCode::PageDown => KeyAction::HalfPageDown,
        KeyCode::PageUp => KeyAction::HalfPageUp,
        KeyCode::Home => KeyAction::Top,
        KeyCode::End => KeyAction::Bottom,
        KeyCode::Esc => KeyAction::Quit,
        KeyCode::Other => KeyAction::Nothing,
    }
}

/// Returns what `key` asks for.
pub fn action_for_key(key: KeyEvent) -> (action: KeyAction)
    ensures
        action == key_action(key),
{
    match key.code {
        KeyCode::Char(c) => if c == 'j' {
            KeyAction::LineDown
        } else if c == 'k' {
            KeyAction::LineUp
        } else if c == 'd' {
            KeyAction::HalfPageDown
        } else if c == 'u' {
            KeyAction::HalfPageUp
        } else if c == 'g' {
            KeyAction::Top
        } else if c == 'G' {
            KeyAction::Bottom
        } else if c == 'q' {
            KeyAction::Quit
        } else if c == 'c' && key.control {
            KeyAction::Quit
        } else {
            KeyAction::Nothing
        },
        KeyCode::Down => KeyAction::LineDown,
        KeyCode::Up => KeyAction::LineUp,
        KeyCode::PageDown => KeyAction::HalfPageDown,
        KeyCode::PageUp => KeyAction::HalfPageUp,
        KeyCode::Home => KeyAction::Top,
        KeyCode::End => KeyAction::Bottom,
        KeyCode::Esc => KeyAction::Quit,
        KeyCode::Other => KeyAction::Nothing,
    }
}

/// What the host hands to the viewer.
#[derive(Clone, Copy, Debug, PartialEq, Eq, Structural)]
pub enum HostEvent {
    /// A key was pressed.
    Key(KeyEvent),
    /// The terminal now has `columns` columns.
    Resize { columns: u16 },
    /// Anything else: the mouse, focus, a paste.
    Other,
}

/// The viewer's state.
#[derive(Clone, Debug, PartialEq, Eq)]
pub struct App {
    /// The document, laid out for the current width.
    pub document: PreRenderedDocument,
    /// The index of the first line shown.
    pub scroll_offset: usize,
    /// The number of lines that the content area shows.
    pub viewport_height: usize,
    /// The name of the file shown.
    pub filename: String,
    /// Whether the viewer is to exit.
    pub quit: bool,
}

/// The furthest that a document of `total_height` lines scrolls in a
/// viewport of `viewport_height` lines.
pub open spec fn furthest(total_height: int, viewport_height: int) -> int {
    if total_height > viewport_height {
        total_height - viewport_height
    } else {
        0
    }
}

/// The smaller of `a` and `b`.
pub open spec fn smaller(a: int, b: int) -> int {
    if a <= b {
        a
    } else {
        b
    }
}

/// Half of a viewport of `viewport_height` lines, and 1 at least.
pub open spec fn half_page(viewport_height: int) -> int {
    if viewport_height / 2 >= 1 {
        viewport_height / 2
    } else {
        1
    }
}

impl App {
    /// The furthest that the document scrolls.
    pub open spec fn spec_max_scroll(&self) -> int {
        furthest(self.document.total_height as int, self.viewport_height as int)
    }

    /// The scroll offset after `action`.
    pub open spec fn offset_after(&self, action: KeyAction) -> int {
        match action {
            KeyAction::LineDown => smaller(self.scroll_offset + 1, self.spec_max_scroll()),
            KeyAction::LineUp => furthest(self.scroll_offset as int, 1),
            KeyAction::HalfPageDown => smaller(
                self.scroll_offset + half_page(self.viewport_height as int),
                self.spec_max_scroll(),
            ),
            KeyAction::HalfPageUp => furthest(
                self.scroll_offset as int,
                half_page(self.viewport_height as int),
            ),
            KeyAction::Top => 0,
            KeyAction::Bottom => self.spec_max_scroll(),
            KeyAction::Quit => self.scroll_offset as int,
            KeyAction::Nothing => self.scroll_offset as int,
        }
    }

    /// Creates the state for `document` under `filename`: at the top, with
    /// a viewport of no lines yet.
    pub fn new(document: PreRenderedDocument, filename: String) -> (app: App)
        ensures
            app.document == document,
            app.filename == filename,
            app.scroll_offset == 0,
            app.viewport_height == 0,
            !app.quit,
    {
        App { document, scroll_offset: 0, viewport_height: 0, filename, quit: false }
    }

    /// Does what `key` asks for: scrolls by a line (`j`, `k`, the arrows)
    /// or by half a page (`d`, `u`, the page keys), jumps to the top (`g`,
    /// Home) or the bottom (`G`, End), or marks the viewer to exit (`q`,
    /// Esc, Control with `c`). Any other key changes nothing.
    pub fn handle_key(&mut self, key: KeyEvent)
        ensures
            final(self).scroll_offset == old(self).offset_after(key_action(key)),
            final(self).quit == (old(self).quit || key_action(key) == KeyAction::Quit),
            final(self).document == old(self).document,
            final(self).viewport_height == old(self).viewport_height,
            final(self).filename == old(self).filename,
    {
        match action_for_key(key) {
            KeyAction::LineDown => self.scroll_down(1),
            KeyAction::LineUp => self.scroll_up(1),
            KeyAction::HalfPageDown => {
                let half = self.viewport_height / 2;
                self.scroll_down(if half >= 1 { half } else { 1 });
            },
            KeyAction::HalfPageUp => {
                let half = self.viewport_height / 2;
                self.scroll_up(if half >= 1 { half } else { 1 });
            },
            KeyAction::Top => self.scroll_to_top(),
            KeyAction::Bottom => self.scroll_to_bottom(),
            KeyAction::Quit => {
                self.quit = true;
            },
            KeyAction::Nothing => {},
        }
    }

    /// Returns the indices of the lines shown: from the scroll offset on,
    /// as many as the viewport has lines, and none past the document's
    /// end.
    pub fn visible_range(&self) -> (range: Range<usize>)
        ensures
            range.start == self.scroll_offset,
            range.end == smaller(
                self.scroll_offset + self.viewport_height,
                self.document.total_height as int,
            ),
    {
        let reach = self.scroll_offset.saturating_add(self.viewport_height);
        let end = if reach <= self.document.total_height {
            reach
        } else {
            self.document.total_height
        };
        self.scroll_offset..end
    }

    /// Scrolls down by `n` lines, and not past the furthest position.
    pub fn scroll_down(&mut self, n: usize)
        ensures
            final(self).scroll_offset == smaller(
                old(self).scroll_offset + n,
                old(self).spec_max_scroll(),
            ),
            final(self).quit == old(self).quit,
            final(self).document == old(self).document,
            final(self).viewport_height == old(self).viewport_height,
            final(self).filename == old(self).filename,
    {
        let max = self.max_scroll();
        let reach = self.scroll_offset.saturating_add(n);
        self.scroll_offset = if reach <= max { reach } else { max };
    }

    /// Scrolls up by `n` lines, and not past the top.
    pub fn scroll_up(&mut self, n: usize)
        ensures
            final(self).scroll_offset == furthest(old(self).scroll_offset as int, n as int),
            final(self).quit == old(self).quit,
            final(self).document == old(self).document,
            final(self).viewport_height == old(self).viewport_height,
            final(self).filename == old(self).filename,
    {
        self.scroll_offset = self.scroll_offset.saturating_sub(n);
    }

    /// Scrolls to the top.
    pub fn scroll_to_top(&mut self)
        ensures
            final(self).scroll_offset == 0,
            final(self).quit == old(self).quit,
            final(self).document == old(self).document,
            final(self).viewport_height == old(self).viewport_height,
            final(self).filename == old(self).filename,
    {
        self.scroll_offset = 0;
    }

    /// Scrolls to the furthest position.
    pub fn scroll_to_bottom(&mut self)
        ensures
            final(self).scroll_offset == old(self).spec_max_scroll(),
            final(self).quit == old(self).quit,
            final(self).document == old(self).document,
            final(self).viewport_height == old(self).viewport_height,
            final(self).filename == old(self).filename,
    {
        self.scroll_offset = self.max_scroll();
    }

    /// Returns the furthest scroll position: the lines of the document
    /// that do not fit the viewport, 0 where all fit.
    pub fn max_scroll(&self) -> (max: usize)
        ensures
            max == self.spec_max_scroll(),
    {
        self.document.total_height.saturating_sub(self.viewport_height)
    }

    /// Takes the height of the terminal: all rows but the last, which
    /// holds the status bar, show the document.
    pub fn set_terminal_height(&mut self, rows: u16)
        ensures
            final(self).viewport_height == furthest(rows as int, 1),
            final(self).scroll_offset == old(self).scroll_offset,
            final(self).quit == old(self).quit,
            final(self).document == old(self).document,
            final(self).filename == old(self).filename,
    {
        self.viewport_height = rows.saturating_sub(1) as usize;
    }

    /// Lays `blocks` out again for a terminal of `columns` columns, and
    /// brings the scroll offset back within the new document.
    pub fn resize(&mut self, blocks: &[RenderedBlock], columns: u16)
        ensures
            final(self).document@ == flattened(block_views(blocks@), clamp_width(columns)),
            final(self).document.well_formed(),
            final(self).scroll_offset == smaller(
                old(self).scroll_offset as int,
                final(self).spec_max_scroll(),
            ),
            final(self).viewport_height == old(self).viewport_height,
            final(self).quit == old(self).quit,
            final(self).filename == old(self).filename,
    {
        self.document = flatten(blocks, columns);
        let max = self.max_scroll();
        if self.scroll_offset > max {
            self.scroll_offset = max;
        }
    }

    /// Takes one event from the host and says whether the viewer goes on:
    /// a key is handled, a resize lays the document out again, and
    /// anything else is ignored.
    pub fn handle_event(&mut self, event: HostEvent, blocks: &[RenderedBlock]) -> (running: bool)
        ensures
            running == !final(self).quit,
            final(self).viewport_height == old(self).viewport_height,
            final(self).filename == old(self).filename,
            match event {
                HostEvent::Key(key) => {
                    &&& final(self).scroll_offset == old(self).offset_after(key_action(key))
                    &&& final(self).quit == (old(self).quit || key_action(key) == KeyAction::Quit)
                    &&& final(self).document == old(self).document
                },
                HostEvent::Resize { columns } => {
                    &&& final(self).document@ == flattened(
                        block_views(blocks@),
                        clamp_width(columns),
                    )
                    &&& final(self).document.well_formed()
                    &&& final(self).scroll_offset == smaller(
                        old(self).scroll_offset as int,
                        final(self).spec_max_scroll(),
                    )
                    &&& final(self).quit == old(self).quit
                },
                HostEvent::Other => {
                    &&& final(self).scroll_offset == old(self).scroll_offset
                    &&& final(self).quit == old(self).quit
                    &&& final(self).document == old(self).document
                },
            },
    {
        match event {
            HostEvent::Key(key) => self.handle_key(key),
            HostEvent::Resize { columns } => self.resize(blocks, columns),
            HostEvent::Other => {},
        }
        !self.quit
    }
}

/// However the viewer scrolls, the offset stays within the document: a
/// key never moves it past the furthest position that it was within.
pub proof fn lemma_offset_stays_within(app: App, action: KeyAction)
    requires
        app.scroll_offset <= app.spec_max_scroll(),
    ensures
        0 <= app.offset_after(action) <= app.spec_max_scroll(),
{
}

/// The lines shown lie within the document, where the offset does.
pub proof fn lemma_visible_within(app: App)
    requires
        app.scroll_offset <= app.document.total_height,
    ensures
        app.scroll_offset <= smaller(
            app.scroll_offset + app.viewport_height,
            app.document.total_height as int,
        ) <= app.document.total_height,
{
}

} // verus!
