//! Tab bar: the strip of open tabs at the top of the screen.
//!
//! The active tab is highlighted, a dot marks tabs with unsaved state, and
//! key hints stand at the right edge of the same row.

use crate::app::TabState;
use crate::layout::{max_of, strings_view, Rect};
use crate::text::{push_str, string_of};
use crate::theme::{Color, Modifier, Style, Theme};
use vstd::prelude::*;

verus! {

/// The strip of open tabs as it is drawn.
pub struct TabBar<'a> {
    pub tabs: &'a Vec<TabState>,
    pub active: usize,
    pub theme: &'a Theme,
}

/// The number of characters of the key hints.
pub const HINT_LEN: u16 = 16;

/// The text of a tab: its label between blanks, followed by a dot if the
/// tab holds unsaved state.
pub open spec fn tab_text(label: Seq<char>, dirty: bool) -> Seq<char> {
    if dirty {
        seq![' '] + label + seq![' ', '\u{25CF}', ' ']
    } else {
        seq![' '] + label + seq![' ']
    }
}

/// The texts of the tabs, in order.
pub open spec fn tab_texts(tabs: Seq<TabState>) -> Seq<Seq<char>> {
    Seq::new(tabs.len(), |i: int| tab_text(tabs[i].label@, tabs[i].dirty))
}

impl<'a> TabBar<'a> {
    /// The widget for the tabs, the index of the active one, and a theme.
    pub fn new(tabs: &'a Vec<TabState>, active: usize, theme: &'a Theme) -> (r: Self)
        ensures
            r.tabs == tabs,
            r.active == active,
            r.theme == theme,
    {
        Self { tabs, active, theme }
    }

    /// The texts of the tabs, in order.
    pub fn labels(&self) -> (r: Vec<String>)
        ensures
            strings_view(r@) == tab_texts(self.tabs@),
    {
        let mut r: Vec<String> = Vec::new();
        let mut i: usize = 0;
        while i < self.tabs.len()
            invariant
                i <= self.tabs.len(),
                r@.len() == i,
                forall|k: int|
                    0 <= k < i ==> (#[trigger] r@[k])@ == tab_text(
                        self.tabs@[k].label@,
                        self.tabs@[k].dirty,
                    ),
            decreases self.tabs.len() - i,
        {
            let tab = &self.tabs[i];
            let mut out: Vec<char> = Vec::new();
            out.push(' ');
            push_str(&mut out, tab.label.as_str());
            out.push(' ');
            if tab.dirty {
                out.push('\u{25CF}');
                out.push(' ');
            }
            assert(out@ =~= tab_text(tab.label@, tab.dirty));
            r.push(string_of(&out));
            i += 1;
        }
        assert(strings_view(r@) =~= tab_texts(self.tabs@));
        r
    }

    /// The style of the active tab: bold on dark grey.
    pub fn highlight_style(&self) -> (r: Style)
        ensures
            r == (Style { bg: Some(Color::DarkGray), bold: true, ..Style::plain() }),
    {
        Style::new().bg(Color::DarkGray).add_modifier(Modifier::Bold)
    }

    /// The key hints at the right edge.
    pub fn hint(&self) -> (r: String)
        ensures
            r@ == " q:quit  ?:help "@,
    {
        " q:quit  ?:help ".to_owned()
    }

    /// The style of the key hints: dim.
    pub fn hint_style(&self) -> (r: Style)
        ensures
            r == (Style { dim: true, ..Style::plain() }),
    {
        Style::new().add_modifier(Modifier::Dim)
    }

    /// The column at which the key hints start: as far left of the right
    /// edge as they are long, but not left of column 0.
    pub fn hint_x(&self, area: Rect) -> (r: u16)
        ensures
            r as int == max_of(area.right_edge() - HINT_LEN, 0),
    {
        area.right().saturating_sub(HINT_LEN)
    }
}

} // verus!
