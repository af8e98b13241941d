//! Semantic application events.
//!
//! Terminal input is mapped to a widget-agnostic vocabulary, so that widgets
//! never look at raw key codes. Two mappings exist: the normal one, in which
//! letters such as `q` or `j` are shortcuts, and the insert one, used while a
//! text input has the focus, in which they are typed characters.
//!
//! | Key(s)                  | Event                      |
//! |-------------------------|----------------------------|
//! | `q`, `Ctrl+c`           | `Quit`                     |
//! | `Tab`                   | `FocusNext`                |
//! | `/`                     | `QueryFocus`               |
//! | `PageUp`, `Ctrl+u`      | `ScrollUp`                 |
//! | `PageDown`, `Ctrl+d`    | `ScrollDown`               |
//! | `G`                     | `ScrollToTail`             |
//! | `]`                     | `GreedUp`                  |
//! | `[`                     | `GreedDown`                |
//! | arrows, `h` `j` `k` `l` | `TreeNav(..)`              |
//! | printable char          | `Char(c)`                  |
//! | `Backspace`             | `Backspace`                |
//! | `Enter`                 | `Enter`                    |
//! | terminal resize         | `Resize(w, h)`             |

use crate::text::{
    chars_of, command_rest, command_split, command_word, parse_unsigned, range_is,
    read_unsigned, string_of_range, trim,
};
use vstd::prelude::*;
use vstd::string::StringExecFns;

verus! {

// ---------------------------------------------------------------------------
// Terminal input
// ---------------------------------------------------------------------------

/// The key of a key event, as far as the bindings tell keys apart.
#[derive(Debug, Clone, Copy, PartialEq, Eq, Structural)]
pub enum KeyCode {
    Backspace,
    Enter,
    Left,
    Right,
    Up,
    Down,
    PageUp,
    PageDown,
    Tab,
    Esc,
    /// A function key, by its number.
    F(u8),
    /// A character key.
    Char(char),
    /// Any key that has no binding of its own.
    Other,
}

/// The modifier keys held during a key event, one bit each.
#[derive(Debug, Clone, Copy, PartialEq, Eq, Structural)]
pub struct KeyModifiers {
    pub bits: u8,
}

impl KeyModifiers {
    /// No modifier is held.
    pub open spec fn is_none(self) -> bool {
        self.bits == 0
    }

    /// Shift alone is held.
    pub open spec fn is_shift(self) -> bool {
        self.bits == 1
    }

    /// Control alone is held.
    pub open spec fn is_control(self) -> bool {
        self.bits == 2
    }

    /// No modifier.
    pub fn none() -> (r: KeyModifiers)
        ensures
            r.is_none(),
    {
        KeyModifiers { bits: 0 }
    }

    /// Shift alone.
    pub fn shift() -> (r: KeyModifiers)
        ensures
            r.is_shift(),
    {
        KeyModifiers { bits: 1 }
    }

    /// Control alone.
    pub fn control() -> (r: KeyModifiers)
        ensures
            r.is_control(),
    {
        KeyModifiers { bits: 2 }
    }

    /// The modifiers with the given bits: 1 for shift, 2 for control, 4 for
    /// alt, higher bits for the rarer ones.
    pub fn from_bits(bits: u8) -> (r: KeyModifiers)
        ensures
            r.bits == bits,
    {
        KeyModifiers { bits }
    }
}

/// Whether a key was pressed, is repeating, or was released.
#[derive(Debug, Clone, Copy, PartialEq, Eq, Structural)]
pub enum KeyEventKind {
    Press,
    Repeat,
    Release,
}

/// One key event.
#[derive(Debug, Clone, Copy, PartialEq, Eq, Structural)]
pub struct KeyEvent {
    pub code: KeyCode,
    pub modifiers: KeyModifiers,
    pub kind: KeyEventKind,
}

impl KeyEvent {
    /// A key press with the given modifiers.
    pub fn new(code: KeyCode, modifiers: KeyModifiers) -> (r: KeyEvent)
        ensures
            r == (KeyEvent { code, modifiers, kind: KeyEventKind::Press }),
    {
        KeyEvent { code, modifiers, kind: KeyEventKind::Press }
    }
}

/// One terminal event.
#[derive(Debug, Clone, Copy, PartialEq, Eq, Structural)]
pub enum Event {
    /// A key event.
    Key(KeyEvent),
    /// The terminal was resized to the given width and height.
    Resize(u16, u16),
    /// Any other event: focus changes, mouse input, pasted text.
    Other,
}

// ---------------------------------------------------------------------------
// Application events
// ---------------------------------------------------------------------------

/// Cardinal direction for producer tree and log-stream navigation.
#[derive(Debug, Clone, Copy, PartialEq, Eq, Structural)]
pub enum Direction {
    Up,
    Down,
    Left,
    Right,
}

/// A semantic application event.
///
/// Widgets receive `AppEvent` values and never inspect terminal events. The
/// application shell routes each event to the widget that has the focus.
#[derive(Debug, Clone, PartialEq, Eq)]
pub enum AppEvent {
    /// Exit the application (or close the focused non-main tab).
    Quit,
    /// Move keyboard focus to the next pane.
    FocusNext,
    /// Transfer focus to the query bar.
    QueryFocus,
    /// Scroll the log stream up.
    ScrollUp,
    /// Scroll the log stream down.
    ScrollDown,
    /// Jump to the tail (newest line) of the log stream.
    ScrollToTail,
    /// Increase the search greed level by one step.
    GreedUp,
    /// Decrease the search greed level by one step.
    GreedDown,
    /// Navigate within the producer tree, the log pane or a text input.
    TreeNav(Direction),
    /// A printable character forwarded to the active text input.
    Char(char),
    /// Delete the character before the cursor in the active text input.
    Backspace,
    /// Confirm the active input or expand a tree node.
    Enter,
    /// The terminal was resized to the given (width, height).
    Resize(u16, u16),
    /// Dismiss the active modal (query bar focus, help popup).
    Escape,
    /// Close the application whichever tab has the focus.
    Exit,
    /// Display help.
    Help,
    /// Change theme.
    Theme(String),
    /// Toggle display of timestamps.
    Timestamps,
    /// Set the greed value directly.
    Greed(u8),
    /// Nothing is to be done.
    NoOp,
}

/// The mathematical content of an [`AppEvent`].
pub enum EventView {
    Quit,
    FocusNext,
    QueryFocus,
    ScrollUp,
    ScrollDown,
    ScrollToTail,
    GreedUp,
    GreedDown,
    TreeNav(Direction),
    Char(char),
    Backspace,
    Enter,
    Resize(u16, u16),
    Escape,
    Exit,
    Help,
    Theme(Seq<char>),
    Timestamps,
    Greed(u8),
    NoOp,
}

impl View for AppEvent {
    type V = EventView;

    open spec fn view(&self) -> EventView {
        match self {
            AppEvent::Quit => EventView::Quit,
            AppEvent::FocusNext => EventView::FocusNext,
            AppEvent::QueryFocus => EventView::QueryFocus,
            AppEvent::ScrollUp => EventView::ScrollUp,
            AppEvent::ScrollDown => EventView::ScrollDown,
            AppEvent::ScrollToTail => EventView::ScrollToTail,
            AppEvent::GreedUp => EventView::GreedUp,
            AppEvent::GreedDown => EventView::GreedDown,
            AppEvent::TreeNav(d) => EventView::TreeNav(*d),
            AppEvent::Char(c) => EventView::Char(*c),
            AppEvent::Backspace => EventView::Backspace,
            AppEvent::Enter => EventView::Enter,
            AppEvent::Resize(w, h) => EventView::Resize(*w, *h),
            AppEvent::Escape => EventView::Escape,
            AppEvent::Exit => EventView::Exit,
            AppEvent::Help => EventView::Help,
            AppEvent::Theme(name) => EventView::Theme(name@),
            AppEvent::Timestamps => EventView::Timestamps,
            AppEvent::Greed(n) => EventView::Greed(*n),
            AppEvent::NoOp => EventView::NoOp,
        }
    }
}

/// The content of an optional event.
pub open spec fn opt_event_view(e: Option<AppEvent>) -> Option<EventView> {
    match e {
        Some(ev) => Some(ev@),
        None => None,
    }
}

/// The content of a parse result: the event's content, or the message's.
pub open spec fn parsed_view(r: Result<AppEvent, String>) -> Result<EventView, Seq<char>> {
    match r {
        Ok(ev) => Ok(ev@),
        Err(msg) => Err(msg@),
    }
}

// ---------------------------------------------------------------------------
// Command grammar
// ---------------------------------------------------------------------------

/// What a command-bar line means as an event.
///
/// Blank input gives the empty message, the sign to close the bar silently.
/// Any other error carries the text to show to the user.
pub open spec fn parse_str_spec(input: Seq<char>) -> Result<EventView, Seq<char>> {
    let word = command_word(input);
    let rest = command_rest(input);
    if trim(input).len() == 0 {
        Err(Seq::empty())
    } else if word == "q"@ || word == "quit"@ {
        Ok(EventView::Quit)
    } else if word == "q!"@ || word == "quit!"@ {
        Ok(EventView::Exit)
    } else if word == "?"@ || word == "help"@ {
        Ok(EventView::Help)
    } else if word == "ts"@ || word == "timestamps"@ {
        Ok(EventView::Timestamps)
    } else if word == "tail"@ {
        Ok(EventView::ScrollToTail)
    } else if word == "theme"@ {
        if rest.len() == 0 {
            Err("usage: theme <default|gruvbox>"@)
        } else {
            Ok(EventView::Theme(rest))
        }
    } else if word == "greed"@ {
        match parse_unsigned(rest, 255) {
            Some(n) => if n <= 10 {
                Ok(EventView::Greed(n as u8))
            } else {
                Err("greed must be 0-10"@)
            },
            None => Err("usage: greed <0-10>"@),
        }
    } else {
        Err("unknown command: "@ + word)
    }
}

// ---------------------------------------------------------------------------
// Key bindings
// ---------------------------------------------------------------------------

/// The binding of a key in normal mode, if it has one.
pub open spec fn normal_binding(input: KeyEvent) -> Option<AppEvent> {
    let m = input.modifiers;
    match input.code {
        KeyCode::PageUp => Some(AppEvent::ScrollUp),
        KeyCode::PageDown => Some(AppEvent::ScrollDown),
        KeyCode::Esc => Some(AppEvent::Escape),
        KeyCode::Tab => if m.is_none() {
            Some(AppEvent::FocusNext)
        } else {
            None
        },
        KeyCode::Up => if m.is_none() {
            Some(AppEvent::TreeNav(Direction::Up))
        } else {
            None
        },
        KeyCode::Down => if m.is_none() {
            Some(AppEvent::TreeNav(Direction::Down))
        } else {
            None
        },
        KeyCode::Left => if m.is_none() {
            Some(AppEvent::TreeNav(Direction::Left))
        } else {
            None
        },
        KeyCode::Right => if m.is_none() {
            Some(AppEvent::TreeNav(Direction::Right))
        } else {
            None
        },
        KeyCode::Backspace => if m.is_none() {
            Some(AppEvent::Backspace)
        } else {
            None
        },
        KeyCode::Enter => if m.is_none() {
            Some(AppEvent::Enter)
        } else {
            None
        },
        KeyCode::Char(c) => if m.is_control() && c == 'c' {
            Some(AppEvent::Quit)
        } else if m.is_control() && c == 'u' {
            Some(AppEvent::ScrollUp)
        } else if m.is_control() && c == 'd' {
            Some(AppEvent::ScrollDown)
        } else if c == 'G' {
            Some(AppEvent::ScrollToTail)
        } else if m.is_shift() {
            Some(AppEvent::Char(c))
        } else if !m.is_none() {
            None
        } else if c == 'q' {
            Some(AppEvent::Quit)
        } else if c == '/' {
            Some(AppEvent::QueryFocus)
        } else if c == ']' {
            Some(AppEvent::GreedUp)
        } else if c == '[' {
            Some(AppEvent::GreedDown)
        } else if c == 'k' {
            Some(AppEvent::TreeNav(Direction::Up))
        } else if c == 'j' {
            Some(AppEvent::TreeNav(Direction::Down))
        } else if c == 'h' {
            Some(AppEvent::TreeNav(Direction::Left))
        } else if c == 'l' {
            Some(AppEvent::TreeNav(Direction::Right))
        } else {
            Some(AppEvent::Char(c))
        },
        KeyCode::F(_) => None,
        KeyCode::Other => None,
    }
}

/// The binding of a key while a text input has the focus, if it has one.
///
/// Letters that are shortcuts in normal mode are typed characters here; the
/// arrow keys keep moving the cursor whatever modifiers are held.
pub open spec fn insert_binding(input: KeyEvent) -> Option<AppEvent> {
    let m = input.modifiers;
    match input.code {
        KeyCode::Up => Some(AppEvent::TreeNav(Direction::Up)),
        KeyCode::Down => Some(AppEvent::TreeNav(Direction::Down)),
        KeyCode::Left => Some(AppEvent::TreeNav(Direction::Left)),
        KeyCode::Right => Some(AppEvent::TreeNav(Direction::Right)),
        KeyCode::Esc => Some(AppEvent::Escape),
        KeyCode::Tab => if m.is_none() {
            Some(AppEvent::FocusNext)
        } else {
            None
        },
        KeyCode::Backspace => if m.is_none() {
            Some(AppEvent::Backspace)
        } else {
            None
        },
        KeyCode::Enter => if m.is_none() {
            Some(AppEvent::Enter)
        } else {
            None
        },
        KeyCode::Char(c) => if m.is_control() && c == 'c' {
            Some(AppEvent::Quit)
        } else if m.is_none() || m.is_shift() {
            Some(AppEvent::Char(c))
        } else {
            None
        },
        KeyCode::PageUp => None,
        KeyCode::PageDown => None,
        KeyCode::F(_) => None,
        KeyCode::Other => None,
    }
}

/// What a terminal event means in normal mode.
pub open spec fn normal_event(input: Event) -> Option<AppEvent> {
    match input {
        Event::Resize(w, h) => Some(AppEvent::Resize(w, h)),
        Event::Key(key) => normal_binding(key),
        Event::Other => None,
    }
}

/// What a terminal event means in insert mode.
pub open spec fn insert_event(input: Event) -> Option<AppEvent> {
    match input {
        Event::Resize(w, h) => Some(AppEvent::Resize(w, h)),
        Event::Key(key) => insert_binding(key),
        Event::Other => None,
    }
}

impl AppEvent {
    /// A copy with the same content.
    pub fn duplicate(&self) -> (r: AppEvent)
        ensures
            r@ == self@,
    {
        match self {
            AppEvent::Quit => AppEvent::Quit,
            AppEvent::FocusNext => AppEvent::FocusNext,
            AppEvent::QueryFocus => AppEvent::QueryFocus,
            AppEvent::ScrollUp => AppEvent::ScrollUp,
            AppEvent::ScrollDown => AppEvent::ScrollDown,
            AppEvent::ScrollToTail => AppEvent::ScrollToTail,
            AppEvent::GreedUp => AppEvent::GreedUp,
            AppEvent::GreedDown => AppEvent::GreedDown,
            AppEvent::TreeNav(d) => AppEvent::TreeNav(*d),
            AppEvent::Char(c) => AppEvent::Char(*c),
            AppEvent::Backspace => AppEvent::Backspace,
            AppEvent::Enter => AppEvent::Enter,
            AppEvent::Resize(w, h) => AppEvent::Resize(*w, *h),
            AppEvent::Escape => AppEvent::Escape,
            AppEvent::Exit => AppEvent::Exit,
            AppEvent::Help => AppEvent::Help,
            AppEvent::Theme(name) => AppEvent::Theme(name.clone()),
            AppEvent::Timestamps => AppEvent::Timestamps,
            AppEvent::Greed(n) => AppEvent::Greed(*n),
            AppEvent::NoOp => AppEvent::NoOp,
        }
    }

    /// Parses a command-bar input line into an [`AppEvent`].
    ///
    /// Returns `Err` with an empty message for blank input (close the bar
    /// silently), or `Err` with a message to display for an unknown or
    /// invalid command.
    pub fn parse_str(input: &str) -> (r: Result<AppEvent, String>)
        ensures
            parsed_view(r) == parse_str_spec(input@),
    {
        let v = chars_of(input);
        let parts = command_split(&v);
        if parts.blank {
            return Err(String::new());
        }
        let (lo, hi) = (parts.word_lo, parts.word_hi);
        if range_is(&v, lo, hi, "q") || range_is(&v, lo, hi, "quit") {
            Ok(AppEvent::Quit)
        } else if range_is(&v, lo, hi, "q!") || range_is(&v, lo, hi, "quit!") {
            Ok(AppEvent::Exit)
        } else if range_is(&v, lo, hi, "?") || range_is(&v, lo, hi, "help") {
            Ok(AppEvent::Help)
        } else if range_is(&v, lo, hi, "ts") || range_is(&v, lo, hi, "timestamps") {
            Ok(AppEvent::Timestamps)
        } else if range_is(&v, lo, hi, "tail") {
            Ok(AppEvent::ScrollToTail)
        } else if range_is(&v, lo, hi, "theme") {
            if parts.rest_lo == parts.rest_hi {
                Err("usage: theme <default|gruvbox>".to_owned())
            } else {
                Ok(AppEvent::Theme(string_of_range(&v, parts.rest_lo, parts.rest_hi)))
            }
        } else if range_is(&v, lo, hi, "greed") {
            match read_unsigned(&v, parts.rest_lo, parts.rest_hi, 255) {
                Some(n) => if n <= 10 {
                    Ok(AppEvent::Greed(n as u8))
                } else {
                    Err("greed must be 0-10".to_owned())
                },
                None => Err("usage: greed <0-10>".to_owned()),
            }
        } else {
            let word = string_of_range(&v, lo, hi);
            Err("unknown command: ".to_owned().concat(word.as_str()))
        }
    }

    /// Maps a key event to an [`AppEvent`] in normal mode.
    pub fn parse_key_event(input: KeyEvent) -> (r: Option<AppEvent>)
        ensures
            r == normal_binding(input),
    {
        let none: bool = input.modifiers.bits == 0;
        let shift: bool = input.modifiers.bits == 1;
        let control: bool = input.modifiers.bits == 2;
        match input.code {
            KeyCode::Char(c) => {
                if c == 'q' && none {
                    Some(AppEvent::Quit)
                } else if c == 'c' && control {
                    Some(AppEvent::Quit)
                } else if c == '/' && none {
                    Some(AppEvent::QueryFocus)
                } else if c == 'u' && control {
                    Some(AppEvent::ScrollUp)
                } else if c == 'd' && control {
                    Some(AppEvent::ScrollDown)
                } else if c == 'G' {
                    Some(AppEvent::ScrollToTail)
                } else if c == ']' && none {
                    Some(AppEvent::GreedUp)
                } else if c == '[' && none {
                    Some(AppEvent::GreedDown)
                } else if c == 'k' && none {
                    Some(AppEvent::TreeNav(Direction::Up))
                } else if c == 'j' && none {
                    Some(AppEvent::TreeNav(Direction::Down))
                } else if c == 'h' && none {
                    Some(AppEvent::TreeNav(Direction::Left))
                } else if c == 'l' && none {
                    Some(AppEvent::TreeNav(Direction::Right))
                } else if none || shift {
                    Some(AppEvent::Char(c))
                } else {
                    None
                }
            },
            KeyCode::Tab => if none {
                Some(AppEvent::FocusNext)
            } else {
                None
            },
            KeyCode::PageUp => Some(AppEvent::ScrollUp),
            KeyCode::PageDown => Some(AppEvent::ScrollDown),
            KeyCode::Up => if none {
                Some(AppEvent::TreeNav(Direction::Up))
            } else {
                None
            },
            KeyCode::Down => if none {
                Some(AppEvent::TreeNav(Direction::Down))
            } else {
                None
            },
            KeyCode::Left => if none {
                Some(AppEvent::TreeNav(Direction::Left))
            } else {
                None
            },
            KeyCode::Right => if none {
                Some(AppEvent::TreeNav(Direction::Right))
            } else {
                None
            },
            KeyCode::Backspace => if none {
                Some(AppEvent::Backspace)
            } else {
                None
            },
            KeyCode::Enter => if none {
                Some(AppEvent::Enter)
            } else {
                None
            },
            KeyCode::Esc => Some(AppEvent::Escape),
            KeyCode::F(_) => None,
            KeyCode::Other => None,
        }
    }

    /// Maps a key event to an [`AppEvent`] in insert mode.
    pub fn parse_insert_key_event(input: KeyEvent) -> (r: Option<AppEvent>)
        ensures
            r == insert_binding(input),
    {
        let none: bool = input.modifiers.bits == 0;
        let shift: bool = input.modifiers.bits == 1;
        let control: bool = input.modifiers.bits == 2;
        match input.code {
            KeyCode::Char(c) => {
                if c == 'c' && control {
                    Some(AppEvent::Quit)
                } else if none || shift {
                    Some(AppEvent::Char(c))
                } else {
                    None
                }
            },
            KeyCode::Up => Some(AppEvent::TreeNav(Direction::Up)),
            KeyCode::Down => Some(AppEvent::TreeNav(Direction::Down)),
            KeyCode::Left => Some(AppEvent::TreeNav(Direction::Left)),
            KeyCode::Right => Some(AppEvent::TreeNav(Direction::Right)),
            KeyCode::Tab => if none {
                Some(AppEvent::FocusNext)
            } else {
                None
            },
            KeyCode::Backspace => if none {
                Some(AppEvent::Backspace)
            } else {
                None
            },
            KeyCode::Enter => if none {
                Some(AppEvent::Enter)
            } else {
                None
            },
            KeyCode::Esc => Some(AppEvent::Escape),
            KeyCode::PageUp => None,
            KeyCode::PageDown => None,
            KeyCode::F(_) => None,
            KeyCode::Other => None,
        }
    }

    /// Maps a terminal event to an [`AppEvent`] for normal (non-insert) mode.
    ///
    /// Returns `None` for events that have no binding, such as function keys.
    pub fn parse_event(input: Event) -> (r: Option<AppEvent>)
        ensures
            r == normal_event(input),
    {
        match input {
            Event::Resize(w, h) => Some(AppEvent::Resize(w, h)),
            Event::Key(key) => AppEvent::parse_key_event(key),
            Event::Other => None,
        }
    }

    /// Maps a terminal event to an [`AppEvent`] for text-input ("insert") mode.
    ///
    /// Call this variant whenever a text-input widget (query bar, command
    /// bar) has the focus.
    pub fn parse_insert_event(input: Event) -> (r: Option<AppEvent>)
        ensures
            r == insert_event(input),
    {
        match input {
            Event::Resize(w, h) => Some(AppEvent::Resize(w, h)),
            Event::Key(key) => AppEvent::parse_insert_key_event(key),
            Event::Other => None,
        }
    }
}

} // verus!
