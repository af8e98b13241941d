//! Tests of colour names, themes and producer colours.

use fml::theme::{parse_color, stable_hash, Color, RawStyle, Style, Theme};
use fml::types::LogLevel;

#[test]
fn default_theme_loads() {
    let theme = Theme::load_default();
    // Spot-check a few resolved styles.
    assert_ne!(theme.level_error, Style::default());
    assert_ne!(theme.border_focused, Style::default());
    assert_ne!(theme.search_highlight, Style::default());
    assert!(!theme.producer_palette.is_empty());
}

#[test]
fn gruvbox_dark_theme_loads() {
    let theme = Theme::load_gruvbox_dark();
    assert_ne!(theme.level_error, Style::default());
    assert_ne!(theme.border_focused, Style::default());
    assert_ne!(theme.search_highlight, Style::default());
    assert!(!theme.producer_palette.is_empty());
}

#[test]
fn producer_style_is_stable() {
    let theme = Theme::load_default();
    let a = theme.producer_style("api-7f9b4d");
    let b = theme.producer_style("api-7f9b4d");
    assert_eq!(a, b);
}

#[test]
fn different_producers_can_differ() {
    let theme = Theme::load_default();
    let styles: Vec<_> = ["alpha", "beta", "gamma", "delta", "epsilon", "zeta"]
        .iter()
        .map(|n| theme.producer_style(n))
        .collect();
    let unique: std::collections::HashSet<_> = styles.iter().collect();
    assert!(unique.len() > 1, "all producers mapped to the same colour");
}

#[test]
fn parse_hex_color() {
    assert_eq!(parse_color("#ff0080"), Some(Color::Rgb(255, 0, 128)));
}

#[test]
fn parse_indexed_color() {
    assert_eq!(parse_color("indexed:42"), Some(Color::Indexed(42)));
}

#[test]
fn parse_unknown_color_returns_none() {
    assert_eq!(parse_color("chartreuse"), None);
}

#[test]
fn parse_color_names_in_any_case() {
    assert_eq!(parse_color("red"), Some(Color::Red));
    assert_eq!(parse_color("Dark_Gray"), Some(Color::DarkGray));
    assert_eq!(parse_color("darkgrey"), Some(Color::DarkGray));
    assert_eq!(parse_color("GREY"), Some(Color::Gray));
    assert_eq!(parse_color("light_magenta"), Some(Color::LightMagenta));
    assert_eq!(parse_color("#FF0080"), Some(Color::Rgb(255, 0, 128)));
    assert_eq!(parse_color("INDEXED:7"), Some(Color::Indexed(7)));
}

#[test]
fn parse_color_rejects_malformed_forms() {
    assert_eq!(parse_color(""), None);
    assert_eq!(parse_color("#ff008"), None);
    assert_eq!(parse_color("#ff00800"), None);
    assert_eq!(parse_color("#gg0080"), None);
    assert_eq!(parse_color("indexed:256"), None);
    assert_eq!(parse_color("indexed:"), None);
    assert_eq!(parse_color("indexed:-1"), None);
    assert_eq!(parse_color("#+f+f+f"), Some(Color::Rgb(15, 15, 15)));
}

#[test]
fn stable_hash_is_the_documented_fold() {
    assert_eq!(stable_hash(""), 5381);
    assert_eq!(stable_hash("a"), 5381usize.wrapping_mul(31).wrapping_add(97));
    let expected = "api".bytes().fold(5381usize, |acc, b| {
        acc.wrapping_mul(31).wrapping_add(b as usize)
    });
    assert_eq!(stable_hash("api"), expected);
}

#[test]
fn producer_style_picks_palette_by_hash() {
    let theme = Theme::load_default();
    let idx = stable_hash("worker-4c2a") % theme.palette_len();
    assert_eq!(
        theme.producer_style("worker-4c2a"),
        Style::default().fg(theme.producer_palette[idx])
    );
    let mut bare = Theme::load_default();
    bare.producer_palette.clear();
    assert_eq!(bare.producer_style("worker-4c2a"), Style::default());
}

#[test]
fn level_style_follows_the_level() {
    let theme = Theme::load_default();
    assert_eq!(theme.level_style(Some(LogLevel::Error)), theme.level_error);
    assert_eq!(theme.level_style(Some(LogLevel::Trace)), theme.level_trace);
    assert_eq!(theme.level_style(None), Style::default());
}

#[test]
fn raw_style_resolves_names_and_flags() {
    let raw = RawStyle {
        fg: Some("red".to_string()),
        bg: Some("no such colour".to_string()),
        bold: true,
        dim: false,
        italic: true,
        underlined: false,
    };
    let style = raw.into_style();
    assert_eq!(style.fg, Some(Color::Red));
    assert_eq!(style.bg, None);
    assert!(style.bold && style.italic && !style.dim && !style.underlined && !style.reversed);
}

#[test]
fn theme_by_name() {
    assert_eq!(Theme::named("Gruvbox").level_error, Theme::load_gruvbox_dark().level_error);
    assert_eq!(Theme::named("gruvbox-dark").level_info, Theme::load_gruvbox_dark().level_info);
    assert_eq!(Theme::named("anything").level_error, Theme::load_default().level_error);
}
