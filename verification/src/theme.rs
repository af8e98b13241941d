//! Colour theme.
//!
//! A theme is described by colour names and flags, the shape in which theme
//! files hold it, and resolved once into [`Style`] values. Producer names are
//! hashed to a stable index into the palette, so the same pod, container or
//! file always gets the same colour, whatever the order in which producers
//! appear.

use crate::text::{
    chars_are, chars_of, has_prefix, lower, parse_unsigned, read_unsigned, starts_with, to_lower,
};
use crate::types::LogLevel;
use vstd::prelude::*;
use vstd::string::StringSliceAdditionalSpecFns;

verus! {

// ---------------------------------------------------------------------------
// Colours and styles
// ---------------------------------------------------------------------------

/// A terminal colour.
#[derive(Debug, Clone, Copy, PartialEq, Eq, Structural, Hash)]
pub enum Color {
    Black,
    Red,
    Green,
    Yellow,
    Blue,
    Magenta,
    Cyan,
    Gray,
    DarkGray,
    LightRed,
    LightGreen,
    LightYellow,
    LightBlue,
    LightMagenta,
    LightCyan,
    White,
    /// A 24-bit colour.
    Rgb(u8, u8, u8),
    /// One of the 256 indexed colours.
    Indexed(u8),
}

/// A text attribute.
#[derive(Debug, Clone, Copy, PartialEq, Eq, Structural, Hash)]
pub enum Modifier {
    Bold,
    Dim,
    Italic,
    Underlined,
    Reversed,
}

/// How a span of text is drawn: its colours and attributes.
#[derive(Debug, Clone, Copy, PartialEq, Eq, Hash)]
pub struct Style {
    pub fg: Option<Color>,
    pub bg: Option<Color>,
    pub bold: bool,
    pub dim: bool,
    pub italic: bool,
    pub underlined: bool,
    pub reversed: bool,
}

impl Style {
    /// The style that changes nothing: no colour, no attribute.
    pub open spec fn plain() -> Style {
        Style {
            fg: None,
            bg: None,
            bold: false,
            dim: false,
            italic: false,
            underlined: false,
            reversed: false,
        }
    }

    /// This style with `m` switched on.
    pub open spec fn with(self, m: Modifier) -> Style {
        match m {
            Modifier::Bold => Style { bold: true, ..self },
            Modifier::Dim => Style { dim: true, ..self },
            Modifier::Italic => Style { italic: true, ..self },
            Modifier::Underlined => Style { underlined: true, ..self },
            Modifier::Reversed => Style { reversed: true, ..self },
        }
    }

    /// The style that changes nothing.
    pub fn new() -> (r: Style)
        ensures
            r == Style::plain(),
    {
        Style {
            fg: None,
            bg: None,
            bold: false,
            dim: false,
            italic: false,
            underlined: false,
            reversed: false,
        }
    }

    /// This style with the foreground colour `c`.
    pub fn fg(self, c: Color) -> (r: Style)
        ensures
            r == (Style { fg: Some(c), ..self }),
    {
        Style { fg: Some(c), ..self }
    }

    /// This style with the background colour `c`.
    pub fn bg(self, c: Color) -> (r: Style)
        ensures
            r == (Style { bg: Some(c), ..self }),
    {
        Style { bg: Some(c), ..self }
    }

    /// This style with the attribute `m` switched on.
    pub fn add_modifier(self, m: Modifier) -> (r: Style)
        ensures
            r == self.with(m),
    {
        match m {
            Modifier::Bold => Style { bold: true, ..self },
            Modifier::Dim => Style { dim: true, ..self },
            Modifier::Italic => Style { italic: true, ..self },
            Modifier::Underlined => Style { underlined: true, ..self },
            Modifier::Reversed => Style { reversed: true, ..self },
        }
    }
}

impl Default for Style {
    fn default() -> (r: Style)
        ensures
            r == Style::plain(),
    {
        Style::new()
    }
}

// ---------------------------------------------------------------------------
// Colour names
// ---------------------------------------------------------------------------

/// `c` is a hexadecimal digit in lower case.
pub open spec fn is_hex(c: char) -> bool {
    ('0' <= c <= '9') || ('a' <= c <= 'f')
}

/// The value of a hexadecimal digit.
pub open spec fn hex_value(c: char) -> nat {
    if '0' <= c <= '9' {
        (c as u32 - '0' as u32) as nat
    } else {
        (c as u32 - 'a' as u32 + 10) as nat
    }
}

/// The byte that two characters denote in base sixteen, as
/// `u8::from_str_radix` reads them: two digits, or `+` and one digit.
pub open spec fn hex_pair(a: char, b: char) -> Option<u8> {
    if a == '+' && is_hex(b) {
        Some(hex_value(b) as u8)
    } else if is_hex(a) && is_hex(b) {
        Some((hex_value(a) * 16 + hex_value(b)) as u8)
    } else {
        None
    }
}

/// The colour that a name in lower case denotes.
pub open spec fn named_color(l: Seq<char>) -> Option<Color> {
    if l == "black"@ {
        Some(Color::Black)
    } else if l == "red"@ {
        Some(Color::Red)
    } else if l == "green"@ {
        Some(Color::Green)
    } else if l == "yellow"@ {
        Some(Color::Yellow)
    } else if l == "blue"@ {
        Some(Color::Blue)
    } else if l == "magenta"@ {
        Some(Color::Magenta)
    } else if l == "cyan"@ {
        Some(Color::Cyan)
    } else if l == "gray"@ || l == "grey"@ {
        Some(Color::Gray)
    } else if l == "dark_gray"@ || l == "darkgray"@ || l == "dark_grey"@ || l == "darkgrey"@ {
        Some(Color::DarkGray)
    } else if l == "light_red"@ {
        Some(Color::LightRed)
    } else if l == "light_green"@ {
        Some(Color::LightGreen)
    } else if l == "light_yellow"@ {
        Some(Color::LightYellow)
    } else if l == "light_blue"@ {
        Some(Color::LightBlue)
    } else if l == "light_magenta"@ {
        Some(Color::LightMagenta)
    } else if l == "light_cyan"@ {
        Some(Color::LightCyan)
    } else if l == "white"@ {
        Some(Color::White)
    } else {
        None
    }
}

/// The colour that `#rrggbb` denotes, given in lower case.
pub open spec fn rgb_color(l: Seq<char>) -> Option<Color> {
    if l.len() == 7 && l[0] == '#' {
        match (hex_pair(l[1], l[2]), hex_pair(l[3], l[4]), hex_pair(l[5], l[6])) {
            (Some(r), Some(g), Some(b)) => Some(Color::Rgb(r, g, b)),
            _ => None,
        }
    } else {
        None
    }
}

/// The colour that `indexed:N` denotes, given in lower case.
pub open spec fn indexed_color(l: Seq<char>) -> Option<Color> {
    if has_prefix(l, "indexed:"@) {
        match parse_unsigned(l.skip("indexed:"@.len() as int), 255) {
            Some(n) => Some(Color::Indexed(n as u8)),
            None => None,
        }
    } else {
        None
    }
}

/// The colour that a colour name denotes, if any.
///
/// Accepted, in any letter case: the sixteen terminal colour names,
/// `#rrggbb`, and `indexed:N` with `N` from 0 to 255.
pub open spec fn color_of(s: Seq<char>) -> Option<Color> {
    let l = lower(s);
    if named_color(l) is Some {
        named_color(l)
    } else if l.len() > 0 && l[0] == '#' {
        rgb_color(l)
    } else {
        indexed_color(l)
    }
}

/// Reads two characters as a byte in base sixteen.
fn read_hex_pair(a: char, b: char) -> (r: Option<u8>)
    ensures
        r == hex_pair(a, b),
{
    let lo: Option<u8> = read_hex(b);
    match lo {
        None => None,
        Some(y) => {
            if a == '+' {
                Some(y)
            } else {
                match read_hex(a) {
                    Some(x) => Some(x * 16 + y),
                    None => None,
                }
            }
        },
    }
}

/// Reads one hexadecimal digit in lower case.
fn read_hex(c: char) -> (r: Option<u8>)
    ensures
        r is Some == is_hex(c),
        r is Some ==> r->0 as nat == hex_value(c) && r->0 < 16,
{
    if '0' <= c && c <= '9' {
        Some((c as u32 - '0' as u32) as u8)
    } else if 'a' <= c && c <= 'f' {
        Some((c as u32 - 'a' as u32 + 10) as u8)
    } else {
        None
    }
}

/// Looks a lower-case name up among the sixteen terminal colours.
fn read_named(l: &Vec<char>) -> (r: Option<Color>)
    ensures
        r == named_color(l@),
{
    if chars_are(l, "black") {
        Some(Color::Black)
    } else if chars_are(l, "red") {
        Some(Color::Red)
    } else if chars_are(l, "green") {
        Some(Color::Green)
    } else if chars_are(l, "yellow") {
        Some(Color::Yellow)
    } else if chars_are(l, "blue") {
        Some(Color::Blue)
    } else if chars_are(l, "magenta") {
        Some(Color::Magenta)
    } else if chars_are(l, "cyan") {
        Some(Color::Cyan)
    } else if chars_are(l, "gray") || chars_are(l, "grey") {
        Some(Color::Gray)
    } else if chars_are(l, "dark_gray") || chars_are(l, "darkgray") || chars_are(l, "dark_grey")
        || chars_are(l, "darkgrey") {
        Some(Color::DarkGray)
    } else if chars_are(l, "light_red") {
        Some(Color::LightRed)
    } else if chars_are(l, "light_green") {
        Some(Color::LightGreen)
    } else if chars_are(l, "light_yellow") {
        Some(Color::LightYellow)
    } else if chars_are(l, "light_blue") {
        Some(Color::LightBlue)
    } else if chars_are(l, "light_magenta") {
        Some(Color::LightMagenta)
    } else if chars_are(l, "light_cyan") {
        Some(Color::LightCyan)
    } else if chars_are(l, "white") {
        Some(Color::White)
    } else {
        None
    }
}

/// Parses a colour name.
///
/// Accepts, in any letter case, the sixteen terminal colour names, hex RGB
/// (`#rrggbb`) and 256-colour indexed (`indexed:N`). Anything else is no
/// colour.
pub fn parse_color(s: &str) -> (r: Option<Color>)
    ensures
        r == color_of(s@),
{
    let l = to_lower(&chars_of(s));
    let named = read_named(&l);
    if named.is_some() {
        return named;
    }
    if l.len() > 0 && l[0] == '#' {
        if l.len() != 7 {
            return None;
        }
        let r = read_hex_pair(l[1], l[2]);
        let g = read_hex_pair(l[3], l[4]);
        let b = read_hex_pair(l[5], l[6]);
        return match (r, g, b) {
            (Some(r), Some(g), Some(b)) => Some(Color::Rgb(r, g, b)),
            _ => None,
        };
    }
    let prefix = chars_of("indexed:");
    if starts_with(&l, &prefix) {
        assert(l@.subrange(prefix@.len() as int, l@.len() as int) =~= l@.skip(
            "indexed:"@.len() as int,
        ));
        match read_unsigned(&l, prefix.len(), l.len(), 255) {
            Some(n) => Some(Color::Indexed(n as u8)),
            None => None,
        }
    } else {
        None
    }
}

// ---------------------------------------------------------------------------
// Stable hashing
// ---------------------------------------------------------------------------

/// The hash of a byte string: starting from 5381, each byte multiplies the
/// hash by 31 and is added to it, wrapping at the machine word.
pub open spec fn hash_bytes(bytes: Seq<u8>) -> usize
    decreases bytes.len(),
{
    if bytes.len() == 0 {
        5381
    } else {
        hash_bytes(bytes.drop_last()).wrapping_mul(31).wrapping_add(bytes.last() as usize)
    }
}

/// A hash of the UTF-8 bytes of `s` that never changes between runs, which
/// makes producer colours deterministic.
pub fn stable_hash(s: &str) -> (r: usize)
    ensures
        r == hash_bytes(s.spec_bytes()),
{
    let bytes = s.as_bytes();
    let mut acc: usize = 5381;
    let mut i: usize = 0;
    assert(bytes@.take(0) =~= Seq::<u8>::empty());
    while i < bytes.len()
        invariant
            i <= bytes.len(),
            acc == hash_bytes(bytes@.take(i as int)),
        decreases bytes.len() - i,
    {
        assert(bytes@.take(i + 1).drop_last() =~= bytes@.take(i as int));
        acc = acc.wrapping_mul(31).wrapping_add(bytes[i] as usize);
        i += 1;
    }
    assert(bytes@.take(bytes@.len() as int) =~= bytes@);
    acc
}

// ---------------------------------------------------------------------------
// Theme descriptions
// ---------------------------------------------------------------------------

/// A style as theme files describe it: colour names and attribute flags.
#[derive(Debug, Clone)]
pub struct RawStyle {
    pub fg: Option<String>,
    pub bg: Option<String>,
    pub bold: bool,
    pub dim: bool,
    pub italic: bool,
    pub underlined: bool,
}

/// The styles of the six severities, as described.
#[derive(Debug, Clone)]
pub struct RawLevels {
    pub trace: RawStyle,
    pub debug: RawStyle,
    pub info: RawStyle,
    pub warn: RawStyle,
    pub error: RawStyle,
    pub fatal: RawStyle,
}

/// The border styles, as described.
#[derive(Debug, Clone)]
pub struct RawBorders {
    pub focused: RawStyle,
    pub command_bar: RawStyle,
    pub unfocused: RawStyle,
}

/// The search styles, as described.
#[derive(Debug, Clone)]
pub struct RawSearch {
    pub highlight: RawStyle,
}

/// The producer palette, as described.
#[derive(Debug, Clone)]
pub struct RawProducers {
    pub palette: Vec<String>,
}

/// A whole theme, as described.
#[derive(Debug, Clone)]
pub struct RawTheme {
    pub levels: RawLevels,
    pub borders: RawBorders,
    pub search: RawSearch,
    pub producers: RawProducers,
}

/// The colour that an optional colour name denotes.
pub open spec fn opt_color(name: Option<String>) -> Option<Color> {
    match name {
        Some(s) => color_of(s@),
        None => None,
    }
}

impl RawStyle {
    /// The style that this description resolves to. A colour name that
    /// denotes no colour leaves that colour unset.
    pub open spec fn resolved(self) -> Style {
        Style {
            fg: opt_color(self.fg),
            bg: opt_color(self.bg),
            bold: self.bold,
            dim: self.dim,
            italic: self.italic,
            underlined: self.underlined,
            reversed: false,
        }
    }

    /// Resolves the description into a style.
    pub fn into_style(self) -> (r: Style)
        ensures
            r == self.resolved(),
    {
        let mut style = Style::new();
        if let Some(s) = &self.fg {
            if let Some(c) = parse_color(s.as_str()) {
                style = style.fg(c);
            }
        }
        if let Some(s) = &self.bg {
            if let Some(c) = parse_color(s.as_str()) {
                style = style.bg(c);
            }
        }
        if self.bold {
            style = style.add_modifier(Modifier::Bold);
        }
        if self.dim {
            style = style.add_modifier(Modifier::Dim);
        }
        if self.italic {
            style = style.add_modifier(Modifier::Italic);
        }
        if self.underlined {
            style = style.add_modifier(Modifier::Underlined);
        }
        style
    }
}

/// The colours that a list of names denotes, in order; names that denote no
/// colour are left out.
pub open spec fn colors_of(names: Seq<String>) -> Seq<Color>
    decreases names.len(),
{
    if names.len() == 0 {
        Seq::empty()
    } else {
        match color_of(names.last()@) {
            Some(c) => colors_of(names.drop_last()).push(c),
            None => colors_of(names.drop_last()),
        }
    }
}

// ---------------------------------------------------------------------------
// Theme
// ---------------------------------------------------------------------------

/// Application colour theme, with every style resolved.
#[derive(Debug, Clone)]
pub struct Theme {
    pub level_trace: Style,
    pub level_debug: Style,
    pub level_info: Style,
    pub level_warn: Style,
    pub level_error: Style,
    pub level_fatal: Style,
    /// Border style for the pane that has the focus.
    pub border_focused: Style,
    /// Border style for the command bar.
    pub border_command_bar: Style,
    /// Border style for panes without the focus.
    pub border_unfocused: Style,
    /// Inline highlight applied to matched search spans.
    pub search_highlight: Style,
    /// Ordered colour palette used for producer colours.
    pub producer_palette: Vec<Color>,
}

impl Theme {
    /// The style of a severity; the plain style when the severity is unknown.
    pub open spec fn level_style_spec(self, level: Option<LogLevel>) -> Style {
        match level {
            Some(LogLevel::Trace) => self.level_trace,
            Some(LogLevel::Debug) => self.level_debug,
            Some(LogLevel::Info) => self.level_info,
            Some(LogLevel::Warn) => self.level_warn,
            Some(LogLevel::Error) => self.level_error,
            Some(LogLevel::Fatal) => self.level_fatal,
            None => Style::plain(),
        }
    }

    /// The style of a producer: the palette colour at the name's hash modulo
    /// the palette's length; the plain style when the palette is empty.
    pub open spec fn producer_style_spec(self, producer: Seq<u8>) -> Style {
        if self.producer_palette@.len() == 0 {
            Style::plain()
        } else {
            Style {
                fg: Some(
                    self.producer_palette@[hash_bytes(producer) as int
                        % self.producer_palette@.len() as int],
                ),
                ..Style::plain()
            }
        }
    }

    /// Resolves a described theme.
    pub fn from_raw(raw: RawTheme) -> (r: Theme)
        ensures
            r.level_trace == raw.levels.trace.resolved(),
            r.level_debug == raw.levels.debug.resolved(),
            r.level_info == raw.levels.info.resolved(),
            r.level_warn == raw.levels.warn.resolved(),
            r.level_error == raw.levels.error.resolved(),
            r.level_fatal == raw.levels.fatal.resolved(),
            r.border_focused == raw.borders.focused.resolved(),
            r.border_command_bar == raw.borders.command_bar.resolved(),
            r.border_unfocused == raw.borders.unfocused.resolved(),
            r.search_highlight == raw.search.highlight.resolved(),
            r.producer_palette@ == colors_of(raw.producers.palette@),
    {
        let mut palette: Vec<Color> = Vec::new();
        let names = &raw.producers.palette;
        let mut i: usize = 0;
        assert(names@.take(0) =~= Seq::<String>::empty());
        while i < names.len()
            invariant
                i <= names.len(),
                palette@ == colors_of(names@.take(i as int)),
            decreases names.len() - i,
        {
            assert(names@.take(i + 1).drop_last() =~= names@.take(i as int));
            if let Some(c) = parse_color(names[i].as_str()) {
                palette.push(c);
            }
            i += 1;
        }
        assert(names@.take(names@.len() as int) =~= names@);
        Theme {
            level_trace: raw.levels.trace.into_style(),
            level_debug: raw.levels.debug.into_style(),
            level_info: raw.levels.info.into_style(),
            level_warn: raw.levels.warn.into_style(),
            level_error: raw.levels.error.into_style(),
            level_fatal: raw.levels.fatal.into_style(),
            border_focused: raw.borders.focused.into_style(),
            border_command_bar: raw.borders.command_bar.into_style(),
            border_unfocused: raw.borders.unfocused.into_style(),
            search_highlight: raw.search.highlight.into_style(),
            producer_palette: palette,
        }
    }

    /// The style for a severity, or the plain style when the severity is
    /// unknown.
    pub fn level_style(&self, level: Option<LogLevel>) -> (r: Style)
        ensures
            r == self.level_style_spec(level),
    {
        match level {
            Some(LogLevel::Trace) => self.level_trace,
            Some(LogLevel::Debug) => self.level_debug,
            Some(LogLevel::Info) => self.level_info,
            Some(LogLevel::Warn) => self.level_warn,
            Some(LogLevel::Error) => self.level_error,
            Some(LogLevel::Fatal) => self.level_fatal,
            None => Style::new(),
        }
    }

    /// A stable style for a producer name.
    ///
    /// The same name always maps to the same colour, whatever the order in
    /// which producers appear.
    pub fn producer_style(&self, producer: &str) -> (r: Style)
        ensures
            r == self.producer_style_spec(producer.spec_bytes()),
    {
        if self.producer_palette.len() == 0 {
            return Style::new();
        }
        let idx: usize = stable_hash(producer) % self.producer_palette.len();
        Style::new().fg(self.producer_palette[idx])
    }

    /// The number of colours in the producer palette.
    pub fn palette_len(&self) -> (r: usize)
        ensures
            r == self.producer_palette@.len(),
    {
        self.producer_palette.len()
    }

    /// The built-in default theme.
    pub fn load_default() -> (r: Theme)
        ensures
            r@ == default_theme(),
    {
        let mut palette: Vec<Color> = Vec::new();
        palette.push(Color::Cyan);
        palette.push(Color::Green);
        palette.push(Color::Magenta);
        palette.push(Color::Blue);
        palette.push(Color::Yellow);
        palette.push(Color::LightRed);
        assert(palette@ =~= default_theme().palette);
        Theme {
            level_trace: Style::new().fg(Color::DarkGray).add_modifier(Modifier::Dim),
            level_debug: Style::new().fg(Color::Cyan),
            level_info: Style::new().fg(Color::Green),
            level_warn: Style::new().fg(Color::Yellow),
            level_error: Style::new().fg(Color::Red).add_modifier(Modifier::Bold),
            level_fatal: Style::new().fg(Color::White).bg(Color::Red).add_modifier(
                Modifier::Bold,
            ),
            border_focused: Style::new().fg(Color::Cyan).add_modifier(Modifier::Bold),
            border_command_bar: Style::new().fg(Color::Yellow),
            border_unfocused: Style::new().fg(Color::DarkGray),
            search_highlight: Style::new().fg(Color::Black).bg(Color::Yellow).add_modifier(
                Modifier::Bold,
            ),
            producer_palette: palette,
        }
    }

    /// The built-in Gruvbox Dark theme.
    pub fn load_gruvbox_dark() -> (r: Theme)
        ensures
            r@ == gruvbox_dark_theme(),
    {
        let mut palette: Vec<Color> = Vec::new();
        palette.push(Color::Rgb(0x8e, 0xc0, 0x7c));
        palette.push(Color::Rgb(0xb8, 0xbb, 0x26));
        palette.push(Color::Rgb(0xd3, 0x86, 0x9b));
        palette.push(Color::Rgb(0x83, 0xa5, 0x98));
        palette.push(Color::Rgb(0xfa, 0xbd, 0x2f));
        palette.push(Color::Rgb(0xfe, 0x80, 0x19));
        assert(palette@ =~= gruvbox_dark_theme().palette);
        Theme {
            level_trace: Style::new().fg(Color::Rgb(0x92, 0x83, 0x74)),
            level_debug: Style::new().fg(Color::Rgb(0x83, 0xa5, 0x98)),
            level_info: Style::new().fg(Color::Rgb(0xb8, 0xbb, 0x26)),
            level_warn: Style::new().fg(Color::Rgb(0xfa, 0xbd, 0x2f)),
            level_error: Style::new().fg(Color::Rgb(0xfb, 0x49, 0x34)).add_modifier(
                Modifier::Bold,
            ),
            level_fatal: Style::new().fg(Color::Rgb(0x28, 0x28, 0x28)).bg(
                Color::Rgb(0xfb, 0x49, 0x34),
            ).add_modifier(Modifier::Bold),
            border_focused: Style::new().fg(Color::Rgb(0xfe, 0x80, 0x19)).add_modifier(
                Modifier::Bold,
            ),
            border_command_bar: Style::new().fg(Color::Rgb(0xfa, 0xbd, 0x2f)),
            border_unfocused: Style::new().fg(Color::Rgb(0x92, 0x83, 0x74)),
            search_highlight: Style::new().fg(Color::Rgb(0x28, 0x28, 0x28)).bg(
                Color::Rgb(0xfa, 0xbd, 0x2f),
            ).add_modifier(Modifier::Bold),
            producer_palette: palette,
        }
    }

    /// The built-in theme of a name, in any letter case: Gruvbox Dark for
    /// `gruvbox`, `gruvbox_dark` and `gruvbox-dark`, the default theme for
    /// every other name.
    pub fn named(name: &str) -> (r: Theme)
        ensures
            r@ == theme_named(name@),
    {
        let l = to_lower(&chars_of(name));
        if chars_are(&l, "gruvbox") || chars_are(&l, "gruvbox_dark") || chars_are(
            &l,
            "gruvbox-dark",
        ) {
            Theme::load_gruvbox_dark()
        } else {
            Theme::load_default()
        }
    }
}

/// The mathematical content of a [`Theme`].
pub struct ThemeView {
    pub level_trace: Style,
    pub level_debug: Style,
    pub level_info: Style,
    pub level_warn: Style,
    pub level_error: Style,
    pub level_fatal: Style,
    pub border_focused: Style,
    pub border_command_bar: Style,
    pub border_unfocused: Style,
    pub search_highlight: Style,
    pub palette: Seq<Color>,
}

impl View for Theme {
    type V = ThemeView;

    open spec fn view(&self) -> ThemeView {
        ThemeView {
            level_trace: self.level_trace,
            level_debug: self.level_debug,
            level_info: self.level_info,
            level_warn: self.level_warn,
            level_error: self.level_error,
            level_fatal: self.level_fatal,
            border_focused: self.border_focused,
            border_command_bar: self.border_command_bar,
            border_unfocused: self.border_unfocused,
            search_highlight: self.search_highlight,
            palette: self.producer_palette@,
        }
    }
}

/// A style with a foreground colour and nothing else.
pub open spec fn colored(c: Color) -> Style {
    Style { fg: Some(c), ..Style::plain() }
}

/// The default theme.
pub open spec fn default_theme() -> ThemeView {
    ThemeView {
        level_trace: Style { dim: true, ..colored(Color::DarkGray) },
        level_debug: colored(Color::Cyan),
        level_info: colored(Color::Green),
        level_warn: colored(Color::Yellow),
        level_error: Style { bold: true, ..colored(Color::Red) },
        level_fatal: Style { bg: Some(Color::Red), bold: true, ..colored(Color::White) },
        border_focused: Style { bold: true, ..colored(Color::Cyan) },
        border_command_bar: colored(Color::Yellow),
        border_unfocused: colored(Color::DarkGray),
        search_highlight: Style { bg: Some(Color::Yellow), bold: true, ..colored(Color::Black) },
        palette: seq![
            Color::Cyan,
            Color::Green,
            Color::Magenta,
            Color::Blue,
            Color::Yellow,
            Color::LightRed,
        ],
    }
}

/// The Gruvbox Dark theme.
pub open spec fn gruvbox_dark_theme() -> ThemeView {
    ThemeView {
        level_trace: colored(Color::Rgb(0x92, 0x83, 0x74)),
        level_debug: colored(Color::Rgb(0x83, 0xa5, 0x98)),
        level_info: colored(Color::Rgb(0xb8, 0xbb, 0x26)),
        level_warn: colored(Color::Rgb(0xfa, 0xbd, 0x2f)),
        level_error: Style { bold: true, ..colored(Color::Rgb(0xfb, 0x49, 0x34)) },
        level_fatal: Style {
            bg: Some(Color::Rgb(0xfb, 0x49, 0x34)),
            bold: true,
            ..colored(Color::Rgb(0x28, 0x28, 0x28))
        },
        border_focused: Style { bold: true, ..colored(Color::Rgb(0xfe, 0x80, 0x19)) },
        border_command_bar: colored(Color::Rgb(0xfa, 0xbd, 0x2f)),
        border_unfocused: colored(Color::Rgb(0x92, 0x83, 0x74)),
        search_highlight: Style {
            bg: Some(Color::Rgb(0xfa, 0xbd, 0x2f)),
            bold: true,
            ..colored(Color::Rgb(0x28, 0x28, 0x28))
        },
        palette: seq![
            Color::Rgb(0x8e, 0xc0, 0x7c),
            Color::Rgb(0xb8, 0xbb, 0x26),
            Color::Rgb(0xd3, 0x86, 0x9b),
            Color::Rgb(0x83, 0xa5, 0x98),
            Color::Rgb(0xfa, 0xbd, 0x2f),
            Color::Rgb(0xfe, 0x80, 0x19),
        ],
    }
}

/// The built-in theme that a name denotes.
pub open spec fn theme_named(name: Seq<char>) -> ThemeView {
    let l = lower(name);
    if l == "gruvbox"@ || l == "gruvbox_dark"@ || l == "gruvbox-dark"@ {
        gruvbox_dark_theme()
    } else {
        default_theme()
    }
}

} // verus!
