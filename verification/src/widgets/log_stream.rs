//! Log stream: the scrollable live-tail pane on the right.
//!
//! | Key | Action |
//! |-----|--------|
//! | `Up` / `k` | Move cursor up one line (scrolls the view if needed) |
//! | `Down` / `j` | Move cursor down one line |
//! | `PageUp` / `Ctrl+u` | Scroll up one page |
//! | `PageDown` / `Ctrl+d` | Scroll down one page |
//! | `G` | Jump to tail and resume live tail |
//!
//! `scroll_offset` is the number of entries hidden at the bottom (0 is the
//! live tail). `cursor` is an index into the entries (0 is the oldest).
//! Scrolling up pauses the stream; coming back to the tail resumes it.

use crate::event::{AppEvent, Direction, EventView};
use crate::layout::{lines_view, max_of, min_of, spans_view, Line, LineView, Rect, Span, SpanView};
use crate::text::{
    chars_of, decimal_text, push_decimal, push_repeated, push_str, repeated, string_of,
};
use crate::theme::{Color, Modifier, Style, Theme};
use crate::time::{clock_of, format_clock};
use crate::types::{entries_view, EntryView, LogEntry};
use vstd::prelude::*;

verus! {

/// The number of entries that one page key scrolls by.
pub const PAGE_STEP: usize = 10;

/// The width to which producer names are padded.
pub const PRODUCER_WIDTH: usize = 12;

// ---------------------------------------------------------------------------
// State
// ---------------------------------------------------------------------------

/// Persistent state of the log stream.
#[derive(Debug)]
pub struct LogStreamState {
    pub entries: Vec<LogEntry>,
    /// Number of entries hidden at the bottom (0 = live tail).
    pub scroll_offset: usize,
    /// Index into `entries` of the highlighted line.
    pub cursor: usize,
    /// While true, new entries are counted in `buffered_new` and the view
    /// stays where it is.
    pub paused: bool,
    /// Count of entries that arrived while paused and are not yet visible.
    pub buffered_new: usize,
    /// Whether timestamps are shown on each log line.
    pub show_timestamps: bool,
    /// Height of the pane when it was last drawn, by which scrolling keeps
    /// the cursor in view.
    pub last_height: usize,
}

/// The part of the stream state that scrolling reads and changes, in
/// unbounded numbers.
pub struct StreamModel {
    /// Number of entries.
    pub total: int,
    pub scroll_offset: int,
    pub cursor: int,
    pub paused: bool,
    pub buffered_new: usize,
    /// Height of the view, at least 1.
    pub height: int,
}

/// The entries `[start, end)` that a view of `height` lines shows when
/// `offset` entries are hidden at the bottom.
pub open spec fn window(total: int, offset: int, height: int) -> (int, int) {
    let end = max_of(total - offset, 0);
    (max_of(end - height, 0), end)
}

impl StreamModel {
    /// The stream back at the live tail: nothing hidden, the cursor on the
    /// newest entry, not paused.
    pub open spec fn at_tail(self) -> StreamModel {
        StreamModel {
            scroll_offset: 0,
            cursor: max_of(self.total - 1, 0),
            paused: false,
            buffered_new: 0,
            ..self
        }
    }

    /// The stream after the cursor moved one line up.
    pub open spec fn line_up(self) -> StreamModel {
        let cursor = max_of(self.cursor - 1, 0);
        let start = window(self.total, self.scroll_offset, self.height).0;
        StreamModel {
            cursor,
            paused: true,
            scroll_offset: if cursor < start {
                max_of(self.total - (cursor + self.height), 0)
            } else {
                self.scroll_offset
            },
            ..self
        }
    }

    /// The stream after the cursor moved one line down.
    pub open spec fn line_down(self) -> StreamModel {
        let cursor = if self.cursor + 1 < self.total {
            self.cursor + 1
        } else {
            self.cursor
        };
        let end = window(self.total, self.scroll_offset, self.height).1;
        if cursor >= end {
            let offset = max_of(self.scroll_offset - 1, 0);
            if offset == 0 {
                StreamModel { cursor, scroll_offset: 0, paused: false, buffered_new: 0, ..self }
            } else {
                StreamModel { cursor, scroll_offset: offset, ..self }
            }
        } else {
            StreamModel { cursor, ..self }
        }
    }

    /// The stream after one page up.
    pub open spec fn page_up(self) -> StreamModel {
        let offset = min_of(self.scroll_offset + PAGE_STEP, self.total);
        let end = window(self.total, offset, self.height).1;
        StreamModel { paused: true, scroll_offset: offset, cursor: max_of(end - 1, 0), ..self }
    }

    /// The stream after one page down.
    pub open spec fn page_down(self) -> StreamModel {
        let offset = max_of(self.scroll_offset - PAGE_STEP, 0);
        let end = window(self.total, offset, self.height).1;
        if offset == 0 {
            self.at_tail()
        } else {
            StreamModel { scroll_offset: offset, cursor: max_of(end - 1, 0), ..self }
        }
    }

    /// The stream after one event. An empty stream ignores every event.
    pub open spec fn step(self, ev: EventView) -> StreamModel {
        if self.total == 0 {
            self
        } else {
            match ev {
                EventView::TreeNav(Direction::Up) => self.line_up(),
                EventView::TreeNav(Direction::Down) => self.line_down(),
                EventView::ScrollUp => self.page_up(),
                EventView::ScrollDown => self.page_down(),
                EventView::ScrollToTail => self.at_tail(),
                _ => self,
            }
        }
    }
}

impl LogStreamState {
    /// The model of this state.
    pub open spec fn model(&self) -> StreamModel {
        StreamModel {
            total: self.entries@.len() as int,
            scroll_offset: self.scroll_offset as int,
            cursor: self.cursor as int,
            paused: self.paused,
            buffered_new: self.buffered_new,
            height: max_of(self.last_height as int, 1),
        }
    }

    /// A stream over `entries`, at the live tail, with timestamps shown and
    /// a view of 40 lines until the pane is first drawn.
    pub fn new(entries: Vec<LogEntry>) -> (r: LogStreamState)
        ensures
            r.entries == entries,
            r.scroll_offset == 0,
            r.cursor as int == max_of(entries@.len() - 1, 0),
            !r.paused,
            r.buffered_new == 0,
            r.show_timestamps,
            r.last_height == 40,
    {
        let cursor: usize = entries.len().saturating_sub(1);
        LogStreamState {
            entries,
            scroll_offset: 0,
            cursor,
            paused: false,
            buffered_new: 0,
            show_timestamps: true,
            last_height: 40,
        }
    }

    /// Records the height at which the pane was drawn.
    pub fn set_height(&mut self, height: usize)
        ensures
            *final(self) == (LogStreamState { last_height: height, ..*old(self) }),
    {
        self.last_height = height;
    }

    /// The height of the view, at least 1.
    pub fn height(&self) -> (r: usize)
        ensures
            r as int == self.model().height,
    {
        if self.last_height >= 1 {
            self.last_height
        } else {
            1
        }
    }

    /// The range `(start, end)` of entries now in view, `end` excluded.
    pub fn visible_range(&self) -> (r: (usize, usize))
        ensures
            (r.0 as int, r.1 as int) == window(
                self.model().total,
                self.model().scroll_offset,
                self.model().height,
            ),
    {
        let total: usize = self.entries.len();
        let end: usize = total.saturating_sub(self.scroll_offset);
        let start: usize = end.saturating_sub(self.height());
        (start, end)
    }

    /// Handles a navigation event.
    ///
    /// Scrolling up pauses the stream; `ScrollToTail` or scrolling back to
    /// the tail resumes it and forgets the count of buffered entries.
    pub fn handle(&mut self, event: &AppEvent)
        ensures
            final(self).model() == old(self).model().step(event@),
            final(self).entries == old(self).entries,
            final(self).show_timestamps == old(self).show_timestamps,
            final(self).last_height == old(self).last_height,
    {
        let total: usize = self.entries.len();
        if total == 0 {
            return ;
        }
        match event {
            AppEvent::TreeNav(Direction::Up) => {
                if self.cursor > 0 {
                    self.cursor -= 1;
                }
                self.paused = true;
                let (start, _) = self.visible_range();
                if self.cursor < start {
                    self.scroll_offset = total.saturating_sub(
                        self.cursor.saturating_add(self.height()),
                    );
                }
            },
            AppEvent::TreeNav(Direction::Down) => {
                if self.cursor < total - 1 {
                    self.cursor += 1;
                }
                let (_, end) = self.visible_range();
                if self.cursor >= end {
                    self.scroll_offset = self.scroll_offset.saturating_sub(1);
                    if self.scroll_offset == 0 {
                        self.paused = false;
                        self.buffered_new = 0;
                    }
                }
            },
            AppEvent::ScrollUp => {
                self.paused = true;
                let raised: usize = self.scroll_offset.saturating_add(PAGE_STEP);
                self.scroll_offset = if raised <= total {
                    raised
                } else {
                    total
                };
                let (_, end) = self.visible_range();
                self.cursor = end.saturating_sub(1);
            },
            AppEvent::ScrollDown => {
                self.scroll_offset = self.scroll_offset.saturating_sub(PAGE_STEP);
                let (_, end) = self.visible_range();
                self.cursor = end.saturating_sub(1);
                if self.scroll_offset == 0 {
                    self.paused = false;
                    self.buffered_new = 0;
                    self.cursor = total.saturating_sub(1);
                }
            },
            AppEvent::ScrollToTail => {
                self.scroll_offset = 0;
                self.cursor = total.saturating_sub(1);
                self.paused = false;
                self.buffered_new = 0;
            },
            _ => {},
        }
    }
}

// ---------------------------------------------------------------------------
// Entry rendering
// ---------------------------------------------------------------------------

/// The dim style, in which timestamps and separators are drawn.
pub open spec fn dim_style() -> Style {
    Style { dim: true, ..Style::plain() }
}

/// `s` followed by blanks up to `width` characters; `s` itself if it is
/// that long already.
pub open spec fn padded(s: Seq<char>, width: nat) -> Seq<char> {
    if s.len() >= width {
        s
    } else {
        s + repeated(' ', (width - s.len()) as nat)
    }
}

/// The clock text of an instant; empty where the calendar has no such
/// instant.
pub open spec fn clock_text(millis: i64) -> Seq<char> {
    match clock_of(millis) {
        Some(s) => s,
        None => Seq::empty(),
    }
}

/// The spans of one entry: the time if timestamps are shown, the padded
/// producer in its colour, a separator, and the message (the raw line where
/// there is none) in the colour of its level.
pub open spec fn entry_spans(e: EntryView, show_ts: bool, theme: Theme) -> Seq<SpanView> {
    let stamp = SpanView { content: clock_text(e.ts.millis) + seq![' '], style: dim_style() };
    let rest = seq![
        SpanView {
            content: padded(e.producer, PRODUCER_WIDTH as nat) + seq![' '],
            style: theme.producer_style_spec(vstd::utf8::encode_utf8(e.producer)),
        },
        SpanView { content: seq!['\u{2502}', ' '], style: dim_style() },
        SpanView {
            content: match e.message {
                Some(m) => m,
                None => e.raw,
            },
            style: theme.level_style_spec(e.level),
        },
    ];
    if show_ts {
        seq![stamp] + rest
    } else {
        rest
    }
}

/// Builds the line of one entry.
pub fn render_entry(entry: &LogEntry, show_ts: bool, theme: &Theme) -> (r: Line)
    ensures
        r@ == (LineView { spans: entry_spans(entry@, show_ts, *theme), style: Style::plain() }),
{
    let mut spans: Vec<Span> = Vec::new();
    let dim = Style::new().add_modifier(Modifier::Dim);
    if show_ts {
        let mut text: Vec<char> = Vec::new();
        match format_clock(entry.ts.millis) {
            Some(clock) => push_str(&mut text, clock.as_str()),
            None => {},
        }
        text.push(' ');
        assert(text@ =~= clock_text(entry.ts.millis) + seq![' ']);
        spans.push(Span::styled(string_of(&text), dim));
    }
    let mut name: Vec<char> = chars_of(entry.producer.as_str());
    if name.len() < PRODUCER_WIDTH {
        let missing: usize = PRODUCER_WIDTH - name.len();
        push_repeated(&mut name, ' ', missing);
    }
    name.push(' ');
    assert(name@ =~= padded(entry.producer@, PRODUCER_WIDTH as nat) + seq![' ']);
    spans.push(Span::styled(string_of(&name), theme.producer_style(entry.producer.as_str())));
    let mut bar: Vec<char> = Vec::new();
    bar.push('\u{2502}');
    bar.push(' ');
    assert(bar@ =~= seq!['\u{2502}', ' ']);
    spans.push(Span::styled(string_of(&bar), dim));
    let msg = match &entry.message {
        Some(m) => m.clone(),
        None => entry.raw.clone(),
    };
    spans.push(Span::styled(msg, theme.level_style(entry.level)));
    assert(spans_view(spans@) =~= entry_spans(entry@, show_ts, *theme));
    Line { spans, style: Style::new() }
}

// ---------------------------------------------------------------------------
// Widget
// ---------------------------------------------------------------------------

/// The log stream as it is drawn.
pub struct LogStream<'a> {
    pub state: &'a LogStreamState,
    pub focused: bool,
    pub theme: &'a Theme,
}

/// The style of the pause banner: bold white on dark grey.
pub open spec fn banner_style() -> Style {
    Style { fg: Some(Color::White), bg: Some(Color::DarkGray), bold: true, ..Style::plain() }
}

/// The text of the pause banner, with the count of new lines if there are
/// any.
pub open spec fn banner_text(buffered_new: usize) -> Seq<char> {
    if buffered_new > 0 {
        " \u{23F8}  paused \u{2014} "@ + decimal_text(buffered_new as nat)
            + " new lines (G to resume) "@
    } else {
        " \u{23F8}  paused  (G to resume) "@
    }
}

/// The pause banner.
pub open spec fn banner(buffered_new: usize) -> LineView {
    LineView {
        spans: seq![SpanView { content: banner_text(buffered_new), style: banner_style() }],
        style: Style::plain(),
    }
}

/// The style laid over the line of entry `index`: reversed on the cursor
/// line of a focused pane, plain elsewhere.
pub open spec fn row_style(focused: bool, cursor: int, index: int) -> Style {
    if focused && cursor == index {
        Style { reversed: true, ..Style::plain() }
    } else {
        Style::plain()
    }
}

/// The lines of the entries in view, before the banner is laid over them.
pub open spec fn body_lines(
    entries: Seq<EntryView>,
    start: int,
    end: int,
    show_ts: bool,
    focused: bool,
    cursor: int,
    theme: Theme,
) -> Seq<LineView> {
    Seq::new(
        (end - start) as nat,
        |r: int|
            LineView {
                spans: entry_spans(entries[start + r], show_ts, theme),
                style: row_style(focused, cursor, start + r),
            },
    )
}

/// The lines with the pause banner in place of the first of them, or alone
/// if there is none, while the stream is paused.
pub open spec fn with_banner(body: Seq<LineView>, paused: bool, buffered_new: usize) -> Seq<
    LineView,
> {
    if !paused {
        body
    } else if body.len() == 0 {
        seq![banner(buffered_new)]
    } else {
        body.update(0, banner(buffered_new))
    }
}

impl<'a> LogStream<'a> {
    /// The widget for a state, a focus flag and a theme.
    pub fn new(state: &'a LogStreamState, focused: bool, theme: &'a Theme) -> (r: Self)
        ensures
            r.state == state,
            r.focused == focused,
            r.theme == theme,
    {
        Self { state, focused, theme }
    }

    /// The title of the pane's block.
    pub fn title(&self) -> (r: String)
        ensures
            r@ == "Logs"@,
    {
        "Logs".to_owned()
    }

    /// The style of the pane's border: the focused or the unfocused one.
    pub fn border_style(&self) -> (r: Style)
        ensures
            r == if self.focused {
                self.theme.border_focused
            } else {
                self.theme.border_unfocused
            },
    {
        if self.focused {
            self.theme.border_focused
        } else {
            self.theme.border_unfocused
        }
    }

    /// The range `(start, end)` of entries that a pane of `height` lines
    /// shows, `end` excluded.
    pub fn range(&self, height: usize) -> (r: (usize, usize))
        ensures
            (r.0 as int, r.1 as int) == window(
                self.state.entries@.len() as int,
                self.state.scroll_offset as int,
                height as int,
            ),
            r.0 <= r.1 <= self.state.entries@.len(),
    {
        let total: usize = self.state.entries.len();
        let end: usize = total.saturating_sub(self.state.scroll_offset);
        let start: usize = end.saturating_sub(height);
        (start, end)
    }

    /// The row of the pane on which the cursor lies, if the pane has the
    /// focus and the cursor is in view.
    pub fn cursor_row(&self, height: usize) -> (r: Option<usize>)
        ensures
            r == {
                let w = window(
                    self.state.entries@.len() as int,
                    self.state.scroll_offset as int,
                    height as int,
                );
                if self.focused && w.0 <= self.state.cursor < w.1 {
                    Some((self.state.cursor - w.0) as usize)
                } else {
                    None
                }
            },
    {
        let (start, end) = self.range(height);
        if self.focused && self.state.cursor >= start && self.state.cursor < end {
            Some(self.state.cursor - start)
        } else {
            None
        }
    }

    /// The pause banner.
    pub fn pause_banner(&self) -> (r: Line)
        ensures
            r@ == banner(self.state.buffered_new),
    {
        let mut text: Vec<char> = Vec::new();
        if self.state.buffered_new > 0 {
            push_str(&mut text, " \u{23F8}  paused \u{2014} ");
            push_decimal(&mut text, self.state.buffered_new as u64);
            push_str(&mut text, " new lines (G to resume) ");
        } else {
            push_str(&mut text, " \u{23F8}  paused  (G to resume) ");
        }
        assert(text@ =~= banner_text(self.state.buffered_new));
        let style = Style::new().bg(Color::DarkGray).fg(Color::White).add_modifier(Modifier::Bold);
        let mut spans: Vec<Span> = Vec::new();
        spans.push(Span::styled(string_of(&text), style));
        assert(spans_view(spans@) =~= banner(self.state.buffered_new).spans);
        Line { spans, style: Style::new() }
    }

    /// The lines that a pane of `height` lines shows, top to bottom: the
    /// entries in view, the cursor line reversed, and the pause banner over
    /// the first line while the stream is paused.
    pub fn lines(&self, height: usize) -> (r: Vec<Line>)
        ensures
            lines_view(r@) == with_banner(
                body_lines(
                    entries_view(self.state.entries@),
                    window(
                        self.state.entries@.len() as int,
                        self.state.scroll_offset as int,
                        height as int,
                    ).0,
                    window(
                        self.state.entries@.len() as int,
                        self.state.scroll_offset as int,
                        height as int,
                    ).1,
                    self.state.show_timestamps,
                    self.focused,
                    self.state.cursor as int,
                    *self.theme,
                ),
                self.state.paused,
                self.state.buffered_new,
            ),
    {
        let (start, end) = self.range(height);
        let ghost body = body_lines(
            entries_view(self.state.entries@),
            start as int,
            end as int,
            self.state.show_timestamps,
            self.focused,
            self.state.cursor as int,
            *self.theme,
        );
        let mut lines: Vec<Line> = Vec::new();
        let mut i: usize = start;
        while i < end
            invariant
                start <= i <= end <= self.state.entries@.len(),
                lines@.len() == i - start,
                forall|r: int| 0 <= r < i - start ==> (#[trigger] lines@[r])@ == body[r],
                body == body_lines(
                    entries_view(self.state.entries@),
                    start as int,
                    end as int,
                    self.state.show_timestamps,
                    self.focused,
                    self.state.cursor as int,
                    *self.theme,
                ),
            decreases end - i,
        {
            let mut line = render_entry(
                &self.state.entries[i],
                self.state.show_timestamps,
                self.theme,
            );
            if self.focused && self.state.cursor == i {
                line.style = Style::new().add_modifier(Modifier::Reversed);
            }
            lines.push(line);
            i += 1;
        }
        assert(lines_view(lines@) =~= body);
        if self.state.paused {
            let top = self.pause_banner();
            if lines.len() == 0 {
                lines.push(top);
                assert(lines_view(lines@) =~= seq![banner(self.state.buffered_new)]);
            } else {
                lines[0] = top;
                assert(lines_view(lines@) =~= body.update(0, banner(self.state.buffered_new)));
            }
        }
        lines
    }

    /// The part of the pane's inside that holds the text: all but the last
    /// column.
    pub fn text_area(&self, inner: Rect) -> (r: Rect)
        ensures
            r == (Rect { width: max_of(inner.width - 1, 0) as u16, ..inner }),
    {
        Rect { width: inner.width.saturating_sub(1), ..inner }
    }

    /// The part of the pane's inside that holds the scrollbar: its last
    /// column.
    pub fn scrollbar_area(&self, inner: Rect) -> (r: Rect)
        ensures
            r == (Rect { x: max_of(inner.right_edge() - 1, 0) as u16, width: 1, ..inner }),
    {
        Rect { x: inner.right().saturating_sub(1), width: 1, ..inner }
    }

    /// What the scrollbar shows in a pane of `height` lines: the number of
    /// entries, the first entry in view and the height. `None` for an empty
    /// stream, which has no scrollbar.
    pub fn scrollbar(&self, height: usize) -> (r: Option<(usize, usize, usize)>)
        ensures
            r == if self.state.entries@.len() > 0 {
                Some(
                    (
                        self.state.entries@.len() as usize,
                        window(
                            self.state.entries@.len() as int,
                            self.state.scroll_offset as int,
                            height as int,
                        ).0 as usize,
                        height,
                    ),
                )
            } else {
                None
            },
    {
        let total: usize = self.state.entries.len();
        if total > 0 {
            let (start, _) = self.range(height);
            Some((total, start, height))
        } else {
            None
        }
    }
}

} // verus!
