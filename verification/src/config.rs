//! Configuration: user-interface preferences and key bindings.
//!
//! [`Config::defaults`] gives the built-in values. Reading a configuration
//! file is left to the program around the library, which lays what it read
//! over these defaults.

use vstd::prelude::*;

verus! {

/// User-interface preferences.
#[derive(Debug, Clone)]
pub struct UiConfig {
    pub show_timestamps: bool,
    pub timestamp_format: String,
    pub producer_pane_width_pct: u16,
}

/// Key bindings, each the name of a key.
#[derive(Debug, Clone)]
pub struct KeybindingsConfig {
    pub toggle_focus: String,
    pub query_focus: String,
    pub greed_up: String,
    pub greed_down: String,
    pub yank_producer: String,
    pub correlate: String,
    pub export: String,
    pub scroll_to_tail: String,
}

/// Top-level application configuration.
#[derive(Debug, Clone)]
pub struct Config {
    pub ui: UiConfig,
    pub keybindings: KeybindingsConfig,
}

/// Timestamps are shown unless the user says otherwise.
pub fn default_show_timestamps() -> (r: bool)
    ensures
        r,
{
    true
}

/// The default pattern for timestamps: hours, minutes, seconds, milliseconds.
pub fn default_timestamp_format() -> (r: String)
    ensures
        r@ == "%H:%M:%S%.3f"@,
{
    "%H:%M:%S%.3f".to_owned()
}

/// The producer pane takes a quarter of the width by default.
pub fn default_producer_pane_width_pct() -> (r: u16)
    ensures
        r == 25,
{
    25
}

/// `Tab` moves the focus to the next pane.
pub fn default_toggle_focus() -> (r: String)
    ensures
        r@ == "Tab"@,
{
    "Tab".to_owned()
}

/// `/` moves the focus to the query bar.
pub fn default_query_focus() -> (r: String)
    ensures
        r@ == "/"@,
{
    "/".to_owned()
}

/// `]` raises the greed level.
pub fn default_greed_up() -> (r: String)
    ensures
        r@ == "]"@,
{
    "]".to_owned()
}

/// `[` lowers the greed level.
pub fn default_greed_down() -> (r: String)
    ensures
        r@ == "["@,
{
    "[".to_owned()
}

/// `y` copies the producer name.
pub fn default_yank_producer() -> (r: String)
    ensures
        r@ == "y"@,
{
    "y".to_owned()
}

/// `c` opens a correlation tab.
pub fn default_correlate() -> (r: String)
    ensures
        r@ == "c"@,
{
    "c".to_owned()
}

/// `e` exports.
pub fn default_export() -> (r: String)
    ensures
        r@ == "e"@,
{
    "e".to_owned()
}

/// `G` jumps to the tail.
pub fn default_scroll_to_tail() -> (r: String)
    ensures
        r@ == "G"@,
{
    "G".to_owned()
}

impl UiConfig {
    /// Every preference has its default value.
    pub open spec fn is_default(&self) -> bool {
        &&& self.show_timestamps
        &&& self.timestamp_format@ == "%H:%M:%S%.3f"@
        &&& self.producer_pane_width_pct == 25
    }
}

impl KeybindingsConfig {
    /// Every binding has its default key.
    pub open spec fn is_default(&self) -> bool {
        &&& self.toggle_focus@ == "Tab"@
        &&& self.query_focus@ == "/"@
        &&& self.greed_up@ == "]"@
        &&& self.greed_down@ == "["@
        &&& self.yank_producer@ == "y"@
        &&& self.correlate@ == "c"@
        &&& self.export@ == "e"@
        &&& self.scroll_to_tail@ == "G"@
    }
}

impl Default for UiConfig {
    fn default() -> (r: UiConfig)
        ensures
            r.is_default(),
    {
        UiConfig {
            show_timestamps: default_show_timestamps(),
            timestamp_format: default_timestamp_format(),
            producer_pane_width_pct: default_producer_pane_width_pct(),
        }
    }
}

impl Default for KeybindingsConfig {
    fn default() -> (r: KeybindingsConfig)
        ensures
            r.is_default(),
    {
        KeybindingsConfig {
            toggle_focus: default_toggle_focus(),
            query_focus: default_query_focus(),
            greed_up: default_greed_up(),
            greed_down: default_greed_down(),
            yank_producer: default_yank_producer(),
            correlate: default_correlate(),
            export: default_export(),
            scroll_to_tail: default_scroll_to_tail(),
        }
    }
}

impl Config {
    /// Both sections have their default values.
    pub open spec fn is_default(&self) -> bool {
        self.ui.is_default() && self.keybindings.is_default()
    }

    /// The built-in defaults.
    pub fn defaults() -> (r: Config)
        ensures
            r.is_default(),
    {
        Config {
            ui: UiConfig {
                show_timestamps: default_show_timestamps(),
                timestamp_format: default_timestamp_format(),
                producer_pane_width_pct: default_producer_pane_width_pct(),
            },
            keybindings: KeybindingsConfig {
                toggle_focus: default_toggle_focus(),
                query_focus: default_query_focus(),
                greed_up: default_greed_up(),
                greed_down: default_greed_down(),
                yank_producer: default_yank_producer(),
                correlate: default_correlate(),
                export: default_export(),
                scroll_to_tail: default_scroll_to_tail(),
            },
        }
    }
}

impl Default for Config {
    fn default() -> (r: Config)
        ensures
            r.is_default(),
    {
        Config::defaults()
    }
}

} // verus!
