//! Tests of the key bindings and of the command grammar.

use fml::event::{AppEvent, Direction, Event, KeyCode, KeyEvent, KeyEventKind, KeyModifiers};

fn key(code: KeyCode, modifiers: KeyModifiers) -> Event {
    Event::Key(KeyEvent { code, modifiers, kind: KeyEventKind::Press })
}

fn press(code: KeyCode) -> Event {
    key(code, KeyModifiers::none())
}

fn ctrl(code: KeyCode) -> Event {
    key(code, KeyModifiers::control())
}

#[test]
fn quit_keys() {
    assert_eq!(AppEvent::parse_event(press(KeyCode::Char('q'))), Some(AppEvent::Quit));
    assert_eq!(AppEvent::parse_event(ctrl(KeyCode::Char('c'))), Some(AppEvent::Quit));
}

#[test]
fn focus_next() {
    assert_eq!(AppEvent::parse_event(press(KeyCode::Tab)), Some(AppEvent::FocusNext));
}

#[test]
fn query_focus() {
    assert_eq!(AppEvent::parse_event(press(KeyCode::Char('/'))), Some(AppEvent::QueryFocus));
}

#[test]
fn scroll_to_tail() {
    // Uppercase G: a terminal may or may not report SHIFT with it.
    assert_eq!(AppEvent::parse_event(press(KeyCode::Char('G'))), Some(AppEvent::ScrollToTail));
    assert_eq!(
        AppEvent::parse_event(key(KeyCode::Char('G'), KeyModifiers::shift())),
        Some(AppEvent::ScrollToTail)
    );
}

#[test]
fn greed_keys() {
    assert_eq!(AppEvent::parse_event(press(KeyCode::Char(']'))), Some(AppEvent::GreedUp));
    assert_eq!(AppEvent::parse_event(press(KeyCode::Char('['))), Some(AppEvent::GreedDown));
}

#[test]
fn tree_nav_arrows() {
    assert_eq!(AppEvent::parse_event(press(KeyCode::Up)), Some(AppEvent::TreeNav(Direction::Up)));
    assert_eq!(
        AppEvent::parse_event(press(KeyCode::Down)),
        Some(AppEvent::TreeNav(Direction::Down))
    );
    assert_eq!(
        AppEvent::parse_event(press(KeyCode::Left)),
        Some(AppEvent::TreeNav(Direction::Left))
    );
    assert_eq!(
        AppEvent::parse_event(press(KeyCode::Right)),
        Some(AppEvent::TreeNav(Direction::Right))
    );
}

#[test]
fn tree_nav_hjkl() {
    assert_eq!(
        AppEvent::parse_event(press(KeyCode::Char('k'))),
        Some(AppEvent::TreeNav(Direction::Up))
    );
    assert_eq!(
        AppEvent::parse_event(press(KeyCode::Char('j'))),
        Some(AppEvent::TreeNav(Direction::Down))
    );
    assert_eq!(
        AppEvent::parse_event(press(KeyCode::Char('h'))),
        Some(AppEvent::TreeNav(Direction::Left))
    );
    assert_eq!(
        AppEvent::parse_event(press(KeyCode::Char('l'))),
        Some(AppEvent::TreeNav(Direction::Right))
    );
}

#[test]
fn scroll_page_keys() {
    assert_eq!(AppEvent::parse_event(press(KeyCode::PageUp)), Some(AppEvent::ScrollUp));
    assert_eq!(AppEvent::parse_event(press(KeyCode::PageDown)), Some(AppEvent::ScrollDown));
}

#[test]
fn scroll_ctrl_ud() {
    assert_eq!(AppEvent::parse_event(ctrl(KeyCode::Char('u'))), Some(AppEvent::ScrollUp));
    assert_eq!(AppEvent::parse_event(ctrl(KeyCode::Char('d'))), Some(AppEvent::ScrollDown));
}

#[test]
fn char_forwarding() {
    assert_eq!(AppEvent::parse_event(press(KeyCode::Char('a'))), Some(AppEvent::Char('a')));
    // Uppercase (SHIFT held)
    assert_eq!(
        AppEvent::parse_event(key(KeyCode::Char('A'), KeyModifiers::shift())),
        Some(AppEvent::Char('A'))
    );
}

#[test]
fn backspace_and_enter() {
    assert_eq!(AppEvent::parse_event(press(KeyCode::Backspace)), Some(AppEvent::Backspace));
    assert_eq!(AppEvent::parse_event(press(KeyCode::Enter)), Some(AppEvent::Enter));
}

#[test]
fn resize_event() {
    assert_eq!(AppEvent::parse_event(Event::Resize(120, 40)), Some(AppEvent::Resize(120, 40)));
}

#[test]
fn unbound_key_returns_none() {
    assert_eq!(AppEvent::parse_event(press(KeyCode::F(5))), None);
}

#[test]
fn insert_mode_nav_letters_are_chars() {
    // hjkl and q must type their literal characters in insert mode
    for ch in ['h', 'j', 'k', 'l', 'q', 'G', '[', ']'] {
        let ev = press(KeyCode::Char(ch));
        assert_eq!(
            AppEvent::parse_insert_event(ev),
            Some(AppEvent::Char(ch)),
            "insert mode: '{ch}' should produce Char, not a nav event"
        );
    }
}

#[test]
fn insert_mode_arrow_keys_are_treenav() {
    assert_eq!(
        AppEvent::parse_insert_event(press(KeyCode::Left)),
        Some(AppEvent::TreeNav(Direction::Left))
    );
    assert_eq!(
        AppEvent::parse_insert_event(press(KeyCode::Right)),
        Some(AppEvent::TreeNav(Direction::Right))
    );
}

#[test]
fn insert_mode_ctrl_c_still_quits() {
    assert_eq!(AppEvent::parse_insert_event(ctrl(KeyCode::Char('c'))), Some(AppEvent::Quit));
}

#[test]
fn parse_str_quit_short_and_long() {
    assert_eq!(AppEvent::parse_str("q"), Ok(AppEvent::Quit));
    assert_eq!(AppEvent::parse_str("quit"), Ok(AppEvent::Quit));
    assert_eq!(AppEvent::parse_str("  quit  "), Ok(AppEvent::Quit));
}

#[test]
fn parse_str_force_quit() {
    assert_eq!(AppEvent::parse_str("q!"), Ok(AppEvent::Exit));
    assert_eq!(AppEvent::parse_str("quit!"), Ok(AppEvent::Exit));
}

#[test]
fn parse_str_help() {
    assert_eq!(AppEvent::parse_str("help"), Ok(AppEvent::Help));
    assert_eq!(AppEvent::parse_str("?"), Ok(AppEvent::Help));
}

#[test]
fn parse_str_timestamps() {
    assert_eq!(AppEvent::parse_str("ts"), Ok(AppEvent::Timestamps));
    assert_eq!(AppEvent::parse_str("timestamps"), Ok(AppEvent::Timestamps));
}

#[test]
fn parse_str_tail() {
    assert_eq!(AppEvent::parse_str("tail"), Ok(AppEvent::ScrollToTail));
}

#[test]
fn parse_str_theme_with_arg() {
    assert_eq!(AppEvent::parse_str("theme gruvbox"), Ok(AppEvent::Theme("gruvbox".to_string())));
    assert_eq!(AppEvent::parse_str("theme default"), Ok(AppEvent::Theme("default".to_string())));
}

#[test]
fn parse_str_theme_without_arg_is_err() {
    assert!(AppEvent::parse_str("theme").is_err());
    let err = AppEvent::parse_str("theme").unwrap_err();
    assert!(err.contains("usage"));
}

#[test]
fn parse_str_greed_valid_range() {
    assert_eq!(AppEvent::parse_str("greed 0"), Ok(AppEvent::Greed(0)));
    assert_eq!(AppEvent::parse_str("greed 5"), Ok(AppEvent::Greed(5)));
    assert_eq!(AppEvent::parse_str("greed 10"), Ok(AppEvent::Greed(10)));
}

#[test]
fn parse_str_greed_out_of_range_is_err() {
    assert!(AppEvent::parse_str("greed 11").is_err());
}

#[test]
fn parse_str_greed_non_numeric_is_err() {
    assert!(AppEvent::parse_str("greed abc").is_err());
}

#[test]
fn parse_str_empty_returns_sentinel_err() {
    assert_eq!(AppEvent::parse_str(""), Err(String::new()));
    assert_eq!(AppEvent::parse_str("   "), Err(String::new()));
}

#[test]
fn parse_str_unknown_command_is_err() {
    let err = AppEvent::parse_str("frobnicate").unwrap_err();
    assert!(err.contains("frobnicate"));
}

#[test]
fn parse_str_error_messages_are_exact() {
    assert_eq!(AppEvent::parse_str("greed 11"), Err("greed must be 0-10".to_string()));
    assert_eq!(AppEvent::parse_str("greed 256"), Err("usage: greed <0-10>".to_string()));
    assert_eq!(AppEvent::parse_str("greed"), Err("usage: greed <0-10>".to_string()));
    assert_eq!(AppEvent::parse_str("greed +7"), Ok(AppEvent::Greed(7)));
    assert_eq!(AppEvent::parse_str("greed 007"), Ok(AppEvent::Greed(7)));
    assert_eq!(AppEvent::parse_str("theme"), Err("usage: theme <default|gruvbox>".to_string()));
    assert_eq!(AppEvent::parse_str("nope arg"), Err("unknown command: nope".to_string()));
    assert_eq!(
        AppEvent::parse_str("theme   solarized light  "),
        Ok(AppEvent::Theme("solarized light".to_string()))
    );
}

#[test]
fn modified_keys_without_binding_are_dropped() {
    let alt = KeyModifiers::from_bits(4);
    assert_eq!(AppEvent::parse_event(key(KeyCode::Char('a'), alt)), None);
    assert_eq!(AppEvent::parse_event(key(KeyCode::Tab, KeyModifiers::shift())), None);
    assert_eq!(AppEvent::parse_event(key(KeyCode::Esc, alt)), Some(AppEvent::Escape));
    assert_eq!(AppEvent::parse_event(ctrl(KeyCode::Char('G'))), Some(AppEvent::ScrollToTail));
    assert_eq!(AppEvent::parse_insert_event(key(KeyCode::Char('a'), alt)), None);
    assert_eq!(AppEvent::parse_insert_event(press(KeyCode::PageUp)), None);
    assert_eq!(AppEvent::parse_event(Event::Other), None);
}
