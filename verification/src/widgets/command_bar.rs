//! Vim-style command bar: a single-line overlay at the bottom of the screen.
//!
//! Activated by pressing `:` from any pane except the query bar. It shows a
//! `:` prefix followed by the typed command. `Enter` parses the command and
//! hands the resulting event to the application; `Escape` cancels.
//!
//! | Command | Action |
//! |---------|--------|
//! | `q`, `quit` | Quit (or close current tab) |
//! | `q!`, `quit!` | Quit whichever tab is open |
//! | `?`, `help` | Toggle the help popup |
//! | `theme <name>` | Switch theme (`default`, `gruvbox`) |
//! | `ts`, `timestamps` | Toggle timestamp display in the log stream |
//! | `tail` | Jump to the live tail |
//! | `greed <0-10>` | Set the search greed level |

use crate::event::{parse_str_spec, AppEvent, Direction, EventView};
use crate::layout::{min_of, spans_view, Rect, Span, SpanView};
use crate::theme::{Color, Modifier, Style, Theme};
use crate::types::opt_view;
use crate::widgets::line_edit::{
    chars_before, cursor_index, erase_char, lemma_cursor_index, line_of, step_left, step_right,
    type_char, well_placed, Line,
};
use vstd::prelude::*;
use vstd::string::StringExecFns;

verus! {

// ---------------------------------------------------------------------------
// State
// ---------------------------------------------------------------------------

/// Persistent state of the command bar.
#[derive(Debug)]
pub struct CommandBarState {
    /// The text typed after the `:` prefix.
    pub input: String,
    /// Byte offset of the cursor within `input`.
    pub cursor: usize,
    /// Error message from the last failed command, cleared on the next key.
    pub error: Option<String>,
}

/// The model of the command bar: the edited line and the error on display.
pub struct BarModel {
    pub line: Line,
    pub error: Option<Seq<char>>,
}

impl BarModel {
    /// The blank bar: no text, no error.
    pub open spec fn blank() -> BarModel {
        BarModel { line: Line::blank(), error: None }
    }

    /// The bar as it is once a displayed error has been dismissed: any key
    /// pressed while an error shows first resets the bar.
    pub open spec fn dismissed(self) -> BarModel {
        if self.error is Some {
            BarModel::blank()
        } else {
            self
        }
    }

    /// The bar after one event, and what it hands to the application:
    /// `Some(event)` when the bar is done with the line, `None` while the
    /// user is still editing.
    pub open spec fn step(self, ev: EventView) -> (BarModel, Option<EventView>) {
        let s = self.dismissed();
        match ev {
            EventView::Escape => (BarModel::blank(), Some(EventView::NoOp)),
            EventView::Enter => match parse_str_spec(s.line.text) {
                Ok(parsed) => (BarModel::blank(), Some(parsed)),
                Err(msg) => if msg.len() == 0 {
                    (BarModel::blank(), Some(EventView::NoOp))
                } else {
                    (BarModel { error: Some(msg), ..s }, Some(EventView::NoOp))
                },
            },
            EventView::Char(c) => (BarModel { line: s.line.typed(c), ..s }, None),
            EventView::Backspace => (BarModel { line: s.line.erased(), ..s }, None),
            EventView::TreeNav(Direction::Left) => (
                BarModel { line: s.line.moved_left(), ..s },
                None,
            ),
            EventView::TreeNav(Direction::Right) => (
                BarModel { line: s.line.moved_right(), ..s },
                None,
            ),
            _ => (s, None),
        }
    }
}

impl CommandBarState {
    /// The cursor falls on a character boundary of the input.
    pub open spec fn wf(&self) -> bool {
        well_placed(self.input@, self.cursor as int)
    }

    /// The model of this state.
    pub open spec fn model(&self) -> BarModel {
        BarModel { line: line_of(self.input@, self.cursor as int), error: opt_view(self.error) }
    }

    /// A blank bar.
    pub fn new() -> (r: CommandBarState)
        ensures
            r.wf(),
            r.model() == BarModel::blank(),
            r.input@.len() == 0,
            r.cursor == 0,
            r.error is None,
    {
        let r = CommandBarState { input: String::new(), cursor: 0, error: None };
        proof {
            assert(r.input@.take(0) =~= Seq::<char>::empty());
            lemma_cursor_index(r.input@, 0, 0);
        }
        r
    }

    /// Resets to a blank, error-free state. Call when opening the bar.
    pub fn clear(&mut self)
        ensures
            final(self).wf(),
            final(self).model() == BarModel::blank(),
            final(self).input@.len() == 0,
            final(self).cursor == 0,
            final(self).error is None,
    {
        *self = CommandBarState::new();
    }

    /// Handles an event while the command bar has the focus.
    ///
    /// Returns `Some(event)` when the bar is done and hands an event to the
    /// application (`Some(Quit)` after `:q`, `Some(NoOp)` on Escape, on an
    /// empty line and on a line that does not parse, which leaves its error
    /// on display). Returns `None` while the user is typing or moving the
    /// cursor.
    pub fn handle(&mut self, event: &AppEvent) -> (r: Option<AppEvent>)
        requires
            old(self).wf(),
        ensures
            final(self).wf(),
            (final(self).model(), crate::event::opt_event_view(r)) == old(self).model().step(
                event@,
            ),
    {
        if self.error.is_some() {
            self.clear();
        }
        self.error = None;
        match event {
            AppEvent::Escape => {
                self.clear();
                Some(AppEvent::NoOp)
            },
            AppEvent::Enter => {
                proof {
                    lemma_text_of_line(self.input@, self.cursor as int);
                }
                match AppEvent::parse_str(self.input.as_str()) {
                    Ok(parsed) => {
                        self.clear();
                        Some(parsed)
                    },
                    Err(msg) => {
                        if msg.as_str().unicode_len() == 0 {
                            self.clear();
                            Some(AppEvent::NoOp)
                        } else {
                            self.error = Some(msg);
                            Some(AppEvent::NoOp)
                        }
                    },
                }
            },
            AppEvent::Char(c) => {
                type_char(&mut self.input, &mut self.cursor, *c);
                None
            },
            AppEvent::Backspace => {
                erase_char(&mut self.input, &mut self.cursor);
                None
            },
            AppEvent::TreeNav(Direction::Left) => {
                step_left(&self.input, &mut self.cursor);
                None
            },
            AppEvent::TreeNav(Direction::Right) => {
                step_right(&self.input, &mut self.cursor);
                None
            },
            _ => None,
        }
    }

    /// The terminal column of the text cursor within `area`.
    ///
    /// The border takes column 0 and the `:` glyph column 1, so the text
    /// starts at column 2. The cursor never leaves the area.
    pub fn cursor_col(&self, area: Rect) -> (r: u16)
        requires
            self.wf(),
            area.x + 2 + cursor_index(self.input@, self.cursor as int) <= u16::MAX,
        ensures
            r as int == min_of(
                area.x + 2 + cursor_index(self.input@, self.cursor as int),
                area.last_column(),
            ),
    {
        let k: usize = chars_before(&self.input, self.cursor);
        let col: u16 = 2 + k as u16;
        let limit: u16 = area.right().saturating_sub(1);
        let at: u16 = area.x + col;
        if at <= limit {
            at
        } else {
            limit
        }
    }
}

impl Default for CommandBarState {
    fn default() -> (r: CommandBarState)
        ensures
            r.wf(),
            r.model() == BarModel::blank(),
    {
        CommandBarState::new()
    }
}

/// The text of the line that a well-placed state stands for is its input.
pub proof fn lemma_text_of_line(input: Seq<char>, cursor: int)
    ensures
        line_of(input, cursor).text == input,
{
}

// ---------------------------------------------------------------------------
// Widget
// ---------------------------------------------------------------------------

/// Single-row command-bar overlay.
///
/// The caller passes a one-row area at the bottom of the terminal, clears it
/// and draws either the `:<input>` prompt or an error message.
pub struct CommandBar<'a> {
    pub state: &'a CommandBarState,
    pub theme: &'a Theme,
}

/// The style of an error message: bold red.
pub open spec fn error_style() -> Style {
    Style { fg: Some(Color::Red), bold: true, ..Style::plain() }
}

/// The spans of the bar's single row: the error, if one shows, else the
/// prompt and the input.
pub open spec fn prompt_spans(input: Seq<char>, error: Option<Seq<char>>) -> Seq<SpanView> {
    match error {
        Some(err) => seq![SpanView { content: "E  "@ + err, style: error_style() }],
        None => seq![
            SpanView { content: ":"@, style: Style { bold: true, ..Style::plain() } },
            SpanView { content: input, style: Style::plain() },
        ],
    }
}

impl<'a> CommandBar<'a> {
    /// The widget for a state and a theme.
    pub fn new(state: &'a CommandBarState, theme: &'a Theme) -> (r: Self)
        ensures
            r.state == state,
            r.theme == theme,
    {
        Self { state, theme }
    }

    /// The title of the bar's block.
    pub fn title(&self) -> (r: String)
        ensures
            r@ == "Command"@,
    {
        "Command".to_owned()
    }

    /// The style of the bar's border.
    pub fn border_style(&self) -> (r: Style)
        ensures
            r == self.theme.border_command_bar,
    {
        self.theme.border_command_bar
    }

    /// The spans of the bar's single row.
    pub fn line(&self) -> (r: Vec<Span>)
        ensures
            spans_view(r@) == prompt_spans(self.state.input@, opt_view(self.state.error)),
    {
        let mut r: Vec<Span> = Vec::new();
        match &self.state.error {
            Some(err) => {
                let text = "E  ".to_owned().concat(err.as_str());
                r.push(
                    Span::styled(text, Style::new().fg(Color::Red).add_modifier(Modifier::Bold)),
                );
            },
            None => {
                r.push(Span::styled(":".to_owned(), Style::new().add_modifier(Modifier::Bold)));
                r.push(Span::styled(self.state.input.clone(), Style::new()));
            },
        }
        assert(spans_view(r@) =~= prompt_spans(self.state.input@, opt_view(self.state.error)));
        r
    }
}

} // verus!
