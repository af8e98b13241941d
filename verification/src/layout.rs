//! Screen geometry and styled text, the plain values that widgets hand to
//! whatever draws them.

use crate::theme::Style;
use vstd::prelude::*;

verus! {

/// A rectangle of terminal cells.
#[derive(Debug, Clone, Copy, PartialEq, Eq, Structural, Hash)]
pub struct Rect {
    pub x: u16,
    pub y: u16,
    pub width: u16,
    pub height: u16,
}

/// The smaller of two numbers.
pub open spec fn min_of(a: int, b: int) -> int {
    if a <= b {
        a
    } else {
        b
    }
}

/// The larger of two numbers.
pub open spec fn max_of(a: int, b: int) -> int {
    if a >= b {
        a
    } else {
        b
    }
}

impl Rect {
    /// The column just right of the rectangle, held to the largest column.
    pub open spec fn right_edge(self) -> int {
        min_of(self.x + self.width, u16::MAX as int)
    }

    /// The row just below the rectangle, held to the largest row.
    pub open spec fn bottom_edge(self) -> int {
        min_of(self.y + self.height, u16::MAX as int)
    }

    /// The last column on which a cursor may stand inside the rectangle.
    pub open spec fn last_column(self) -> int {
        max_of(self.right_edge() - 1, 0)
    }

    /// A rectangle from its corner and size.
    pub fn new(x: u16, y: u16, width: u16, height: u16) -> (r: Rect)
        ensures
            r == (Rect { x, y, width, height }),
    {
        Rect { x, y, width, height }
    }

    /// The column just right of the rectangle.
    pub fn right(&self) -> (r: u16)
        ensures
            r as int == self.right_edge(),
    {
        self.x.saturating_add(self.width)
    }

    /// The row just below the rectangle.
    pub fn bottom(&self) -> (r: u16)
        ensures
            r as int == self.bottom_edge(),
    {
        self.y.saturating_add(self.height)
    }
}

/// The rectangle of at most `width` by `height` cells that lies centred in
/// `area`.
pub open spec fn centered(width: u16, height: u16, area: Rect) -> Rect {
    Rect {
        x: (area.x + max_of(area.width - width, 0) / 2) as u16,
        y: (area.y + max_of(area.height - height, 0) / 2) as u16,
        width: min_of(width as int, area.width as int) as u16,
        height: min_of(height as int, area.height as int) as u16,
    }
}

/// Centres a rectangle of at most `width` by `height` cells in `area`.
pub fn centered_rect(width: u16, height: u16, area: Rect) -> (r: Rect)
    requires
        area.x + area.width <= u16::MAX,
        area.y + area.height <= u16::MAX,
    ensures
        r == centered(width, height, area),
        area.x <= r.x,
        area.y <= r.y,
        r.x + r.width <= area.x + area.width,
        r.y + r.height <= area.y + area.height,
{
    let dx: u16 = area.width.saturating_sub(width) / 2;
    let dy: u16 = area.height.saturating_sub(height) / 2;
    Rect {
        x: area.x + dx,
        y: area.y + dy,
        width: if width <= area.width {
            width
        } else {
            area.width
        },
        height: if height <= area.height {
            height
        } else {
            area.height
        },
    }
}

/// A run of text drawn in one style.
#[derive(Debug, Clone, PartialEq, Eq)]
pub struct Span {
    pub content: String,
    pub style: Style,
}

/// The mathematical content of a [`Span`].
pub struct SpanView {
    pub content: Seq<char>,
    pub style: Style,
}

impl View for Span {
    type V = SpanView;

    open spec fn view(&self) -> SpanView {
        SpanView { content: self.content@, style: self.style }
    }
}

impl Span {
    /// A span of the given text and style.
    pub fn styled(content: String, style: Style) -> (r: Span)
        ensures
            r@ == (SpanView { content: content@, style }),
    {
        Span { content, style }
    }
}

/// A line of text: its spans, and a style laid over the whole line.
#[derive(Debug, Clone, PartialEq, Eq)]
pub struct Line {
    pub spans: Vec<Span>,
    pub style: Style,
}

/// The mathematical content of a [`Line`].
pub struct LineView {
    pub spans: Seq<SpanView>,
    pub style: Style,
}

impl View for Line {
    type V = LineView;

    open spec fn view(&self) -> LineView {
        LineView { spans: spans_view(self.spans@), style: self.style }
    }
}

/// The contents of a list of lines, in order.
pub open spec fn lines_view(lines: Seq<Line>) -> Seq<LineView> {
    Seq::new(lines.len(), |i: int| lines[i]@)
}

/// The contents of a line of spans, in order.
pub open spec fn spans_view(spans: Seq<Span>) -> Seq<SpanView> {
    Seq::new(spans.len(), |i: int| spans[i]@)
}

/// The contents of a list of strings, in order.
pub open spec fn strings_view(strings: Seq<String>) -> Seq<Seq<char>> {
    Seq::new(strings.len(), |i: int| strings[i]@)
}

} // verus!
