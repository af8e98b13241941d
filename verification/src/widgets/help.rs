//! Help popup: a floating overlay in the middle of the screen that lists
//! the key bindings. `?` opens it; `?` or `Escape` closes it.

use crate::layout::{centered, centered_rect, lines_view, spans_view, Line, LineView, Rect, Span, SpanView};
use crate::text::{chars_of, push_repeated, push_str, string_of};
use crate::theme::{Modifier, Style, Theme};
use crate::widgets::log_stream::padded;
use vstd::prelude::*;

verus! {

/// The width of the popup.
pub const HELP_WIDTH: u16 = 80;

/// The height of the popup.
pub const HELP_HEIGHT: u16 = 20;

/// The width to which the keys are padded.
pub const KEY_WIDTH: usize = 22;

/// The help popup as it is drawn.
pub struct HelpPopup<'a> {
    pub theme: &'a Theme,
}

/// The key bindings that the popup lists: the keys and what they do.
pub open spec fn bindings() -> Seq<(Seq<char>, Seq<char>)> {
    seq![
        ("q  /  Ctrl+c"@, "Quit / close tab"@),
        ("Tab"@, "Cycle focus: tree \u{2192} stream \u{2192} query"@),
        ("/"@, "Focus query bar"@),
        ("Escape"@, "Return focus from query bar"@),
        ("\u{2191} k  /  \u{2193} j"@, "Navigate tree or scroll list"@),
        ("\u{2190} h  /  \u{2192} l"@, "Collapse / expand tree node"@),
        ("Space"@, "Toggle producer selection"@),
        ("Enter"@, "Expand/collapse tree node"@),
        ("PageUp  /  Ctrl+u"@, "Scroll log stream up"@),
        ("PageDown / Ctrl+d"@, "Scroll log stream down"@),
        ("G"@, "Jump to log tail and resume"@),
        ("]"@, "Increase search greed level"@),
        ("["@, "Decrease search greed level"@),
        ("?"@, "Toggle this help popup"@),
    ]
}

/// The line of one binding: the keys in bold, behind two blanks and padded
/// to 22 characters, and what they do.
pub open spec fn binding_line(keys: Seq<char>, what: Seq<char>) -> LineView {
    LineView {
        spans: seq![
            SpanView {
                content: seq![' ', ' '] + padded(keys, KEY_WIDTH as nat),
                style: Style { bold: true, ..Style::plain() },
            },
            SpanView { content: what, style: Style::plain() },
        ],
        style: Style::plain(),
    }
}

/// The lines of the popup, one for each binding.
pub open spec fn help_lines() -> Seq<LineView> {
    Seq::new(bindings().len(), |i: int| binding_line(bindings()[i].0, bindings()[i].1))
}

/// Builds the line of one binding.
fn make_line(keys: &str, what: &str) -> (r: Line)
    ensures
        r@ == binding_line(keys@, what@),
{
    let mut out: Vec<char> = Vec::new();
    out.push(' ');
    out.push(' ');
    let k = chars_of(keys);
    push_str(&mut out, keys);
    if k.len() < KEY_WIDTH {
        let missing: usize = KEY_WIDTH - k.len();
        push_repeated(&mut out, ' ', missing);
    }
    assert(out@ =~= seq![' ', ' '] + padded(keys@, KEY_WIDTH as nat));
    let mut spans: Vec<Span> = Vec::new();
    spans.push(Span::styled(string_of(&out), Style::new().add_modifier(Modifier::Bold)));
    spans.push(Span::styled(what.to_owned(), Style::new()));
    assert(spans_view(spans@) =~= binding_line(keys@, what@).spans);
    Line { spans, style: Style::new() }
}

impl<'a> HelpPopup<'a> {
    /// The widget for a theme.
    pub fn new(theme: &'a Theme) -> (r: Self)
        ensures
            r.theme == theme,
    {
        Self { theme }
    }

    /// The area of the popup: 80 by 20 cells, or as much of that as the
    /// screen has, in the middle of the screen.
    pub fn area(&self, screen: Rect) -> (r: Rect)
        requires
            screen.x + screen.width <= u16::MAX,
            screen.y + screen.height <= u16::MAX,
        ensures
            r == centered(HELP_WIDTH, HELP_HEIGHT, screen),
    {
        centered_rect(HELP_WIDTH, HELP_HEIGHT, screen)
    }

    /// The title of the popup's block.
    pub fn title(&self) -> (r: String)
        ensures
            r@ == " fml \u{2014} keybindings (? to close) "@,
    {
        " fml \u{2014} keybindings (? to close) ".to_owned()
    }

    /// The style of the popup's border: bold.
    pub fn border_style(&self) -> (r: Style)
        ensures
            r == (Style { bold: true, ..Style::plain() }),
    {
        Style::new().add_modifier(Modifier::Bold)
    }

    /// The lines of the popup, one for each binding.
    pub fn lines(&self) -> (r: Vec<Line>)
        ensures
            lines_view(r@) == help_lines(),
    {
        let mut r: Vec<Line> = Vec::new();
        r.push(make_line("q  /  Ctrl+c", "Quit / close tab"));
        r.push(make_line("Tab", "Cycle focus: tree \u{2192} stream \u{2192} query"));
        r.push(make_line("/", "Focus query bar"));
        r.push(make_line("Escape", "Return focus from query bar"));
        r.push(make_line("\u{2191} k  /  \u{2193} j", "Navigate tree or scroll list"));
        r.push(make_line("\u{2190} h  /  \u{2192} l", "Collapse / expand tree node"));
        r.push(make_line("Space", "Toggle producer selection"));
        r.push(make_line("Enter", "Expand/collapse tree node"));
        r.push(make_line("PageUp  /  Ctrl+u", "Scroll log stream up"));
        r.push(make_line("PageDown / Ctrl+d", "Scroll log stream down"));
        r.push(make_line("G", "Jump to log tail and resume"));
        r.push(make_line("]", "Increase search greed level"));
        r.push(make_line("[", "Decrease search greed level"));
        r.push(make_line("?", "Toggle this help popup"));
        assert(lines_view(r@) =~= help_lines());
        r
    }
}

} // verus!
