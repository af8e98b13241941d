//! Tests of the built-in configuration.

use fml::config::{Config, KeybindingsConfig, UiConfig};

#[test]
fn defaults_load() {
    let cfg = Config::defaults();
    assert!(cfg.ui.show_timestamps);
    assert_eq!(cfg.ui.producer_pane_width_pct, 25);
    assert_eq!(cfg.keybindings.query_focus, "/");
    assert_eq!(cfg.keybindings.greed_up, "]");
}

#[test]
fn defaults_cover_every_field() {
    let ui = UiConfig::default();
    assert!(ui.show_timestamps);
    assert_eq!(ui.timestamp_format, "%H:%M:%S%.3f");
    assert_eq!(ui.producer_pane_width_pct, 25);
    let keys = KeybindingsConfig::default();
    assert_eq!(keys.toggle_focus, "Tab");
    assert_eq!(keys.query_focus, "/");
    assert_eq!(keys.greed_up, "]");
    assert_eq!(keys.greed_down, "[");
    assert_eq!(keys.yank_producer, "y");
    assert_eq!(keys.correlate, "c");
    assert_eq!(keys.export, "e");
    assert_eq!(keys.scroll_to_tail, "G");
}
