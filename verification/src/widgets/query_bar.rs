//! Query bar: text input and greed slider at the bottom of the screen.
//!
//! - `Char(c)` inserts at the cursor.
//! - `Backspace` deletes the character before the cursor.
//! - `TreeNav(Left)` / `TreeNav(Right)` move the cursor.
//! - `[` / `]` adjust the greed level (0 to 10).

use crate::event::{AppEvent, Direction, EventView};
use crate::layout::{min_of, Rect, Span, SpanView};
use crate::text::{decimal_text, push_decimal, push_repeated, push_str, repeated, string_of};
use crate::theme::{Modifier, Style, Theme};
use crate::widgets::line_edit::{
    chars_before, cursor_index, erase_char, lemma_cursor_index, line_of, step_left, step_right,
    type_char, well_placed, Line,
};
use vstd::prelude::*;

verus! {

/// The highest greed level.
pub const GREED_MAX: u8 = 10;

// ---------------------------------------------------------------------------
// State
// ---------------------------------------------------------------------------

/// Persistent state of the query bar.
#[derive(Debug)]
pub struct QueryBarState {
    /// The search expression typed by the user.
    pub query: String,
    /// Byte offset of the cursor within `query`.
    pub cursor: usize,
    /// Current greed level (0 = exact match only, 10 = maximum expansion).
    pub greed: u8,
}

/// The model of the query bar: the edited line and the greed level.
pub struct QueryModel {
    pub line: Line,
    pub greed: u8,
}

impl QueryModel {
    /// The bar after one event. Editing events change the line, `GreedUp`
    /// and `GreedDown` move the level by one within 0 to 10, and every other
    /// event changes nothing.
    pub open spec fn step(self, ev: EventView) -> QueryModel {
        match ev {
            EventView::Char(c) => QueryModel { line: self.line.typed(c), ..self },
            EventView::Backspace => QueryModel { line: self.line.erased(), ..self },
            EventView::TreeNav(Direction::Left) => QueryModel {
                line: self.line.moved_left(),
                ..self
            },
            EventView::TreeNav(Direction::Right) => QueryModel {
                line: self.line.moved_right(),
                ..self
            },
            EventView::GreedUp => if self.greed < GREED_MAX {
                QueryModel { greed: (self.greed + 1) as u8, ..self }
            } else {
                self
            },
            EventView::GreedDown => if self.greed > 0 {
                QueryModel { greed: (self.greed - 1) as u8, ..self }
            } else {
                self
            },
            _ => self,
        }
    }
}

impl QueryBarState {
    /// The cursor falls on a character boundary of the query.
    pub open spec fn wf(&self) -> bool {
        well_placed(self.query@, self.cursor as int)
    }

    /// The model of this state.
    pub open spec fn model(&self) -> QueryModel {
        QueryModel { line: line_of(self.query@, self.cursor as int), greed: self.greed }
    }

    /// An empty query at greed 0.
    pub fn new() -> (r: QueryBarState)
        ensures
            r.wf(),
            r.model() == (QueryModel { line: Line::blank(), greed: 0 }),
            r.query@.len() == 0,
            r.cursor == 0,
            r.greed == 0,
    {
        let r = QueryBarState { query: String::new(), cursor: 0, greed: 0 };
        proof {
            assert(r.query@.take(0) =~= Seq::<char>::empty());
            lemma_cursor_index(r.query@, 0, 0);
        }
        r
    }

    /// Handles an event from the application shell.
    ///
    /// Text-editing events (`Char`, `Backspace`, arrow keys) update the query
    /// string. `GreedUp` / `GreedDown` adjust the greed slider; all other
    /// events are ignored.
    pub fn handle(&mut self, event: &AppEvent)
        requires
            old(self).wf(),
        ensures
            final(self).wf(),
            final(self).model() == old(self).model().step(event@),
            old(self).greed <= GREED_MAX ==> final(self).greed <= GREED_MAX,
    {
        match event {
            AppEvent::Char(c) => {
                type_char(&mut self.query, &mut self.cursor, *c);
            },
            AppEvent::Backspace => {
                erase_char(&mut self.query, &mut self.cursor);
            },
            AppEvent::TreeNav(Direction::Left) => {
                step_left(&self.query, &mut self.cursor);
            },
            AppEvent::TreeNav(Direction::Right) => {
                step_right(&self.query, &mut self.cursor);
            },
            AppEvent::GreedUp => {
                if self.greed < GREED_MAX {
                    self.greed += 1;
                }
            },
            AppEvent::GreedDown => {
                if self.greed > 0 {
                    self.greed -= 1;
                }
            },
            _ => {},
        }
    }
}

impl Default for QueryBarState {
    fn default() -> (r: QueryBarState)
        ensures
            r.wf(),
            r.model() == (QueryModel { line: Line::blank(), greed: 0 }),
    {
        QueryBarState::new()
    }
}

// ---------------------------------------------------------------------------
// Widget
// ---------------------------------------------------------------------------

/// The query bar as it is drawn.
pub struct QueryBar<'a> {
    pub state: &'a QueryBarState,
    pub focused: bool,
    pub theme: &'a Theme,
}

/// The text of the greed slider at level `greed`: as many `=` as the level,
/// `-` up to ten, and the level in figures.
pub open spec fn slider_text(greed: u8) -> Seq<char> {
    "greed:["@ + repeated('=', greed as nat) + repeated('-', (GREED_MAX - greed) as nat) + "]"@
        + decimal_text(greed as nat)
}

/// The span of the query text: a dim hint while the query is empty and the
/// bar has no focus, else the query itself.
pub open spec fn query_span(query: Seq<char>, focused: bool) -> SpanView {
    if query.len() == 0 && !focused {
        SpanView { content: "press / to search"@, style: Style { dim: true, ..Style::plain() } }
    } else {
        SpanView { content: query, style: Style::plain() }
    }
}

impl<'a> QueryBar<'a> {
    /// The widget for a state, a focus flag and a theme.
    pub fn new(state: &'a QueryBarState, focused: bool, theme: &'a Theme) -> (r: Self)
        ensures
            r.state == state,
            r.focused == focused,
            r.theme == theme,
    {
        Self { state, focused, theme }
    }

    /// The terminal position of the text cursor within the area of the
    /// widget: one cell in from the border, never outside the area.
    pub fn cursor_position(&self, area: Rect) -> (r: (u16, u16))
        requires
            self.state.wf(),
            area.x + 1 + cursor_index(self.state.query@, self.state.cursor as int) <= u16::MAX,
            area.y < u16::MAX,
        ensures
            r.0 as int == min_of(
                area.x + 1 + cursor_index(self.state.query@, self.state.cursor as int),
                area.last_column(),
            ),
            r.1 == area.y + 1,
    {
        let k: usize = chars_before(&self.state.query, self.state.cursor);
        let col: u16 = k as u16;
        let limit: u16 = area.right().saturating_sub(1);
        let at: u16 = area.x + 1 + col;
        let x: u16 = if at <= limit {
            at
        } else {
            limit
        };
        (x, area.y + 1)
    }

    /// The title of the bar's block.
    pub fn title(&self) -> (r: String)
        ensures
            r@ == "Query"@,
    {
        "Query".to_owned()
    }

    /// The style of the bar's border: the focused or the unfocused one.
    pub fn border_style(&self) -> (r: Style)
        ensures
            r == if self.focused {
                self.theme.border_focused
            } else {
                self.theme.border_unfocused
            },
    {
        if self.focused {
            self.theme.border_focused
        } else {
            self.theme.border_unfocused
        }
    }

    /// The span of the query text.
    pub fn query_line(&self) -> (r: Span)
        ensures
            r@ == query_span(self.state.query@, self.focused),
    {
        if self.state.query.as_str().unicode_len() == 0 && !self.focused {
            Span::styled("press / to search".to_owned(), Style::new().add_modifier(Modifier::Dim))
        } else {
            Span::styled(self.state.query.clone(), Style::new())
        }
    }

    /// The text of the greed slider, such as `greed:[===-------]3`.
    pub fn slider(&self) -> (r: String)
        requires
            self.state.greed <= GREED_MAX,
        ensures
            r@ == slider_text(self.state.greed),
    {
        let filled: usize = self.state.greed as usize;
        let empty: usize = GREED_MAX as usize - filled;
        let mut out: Vec<char> = Vec::new();
        push_str(&mut out, "greed:[");
        push_repeated(&mut out, '=', filled);
        push_repeated(&mut out, '-', empty);
        push_str(&mut out, "]");
        push_decimal(&mut out, self.state.greed as u64);
        assert(out@ =~= slider_text(self.state.greed));
        string_of(&out)
    }
}

} // verus!
