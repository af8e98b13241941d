//! Tests of the application state machine, the commands, and the widgets
//! that have no test file of their own.

use fml::app::{producers_of, App, Focus};
use fml::commands::{execute_command, Command};
use fml::config::Config;
use fml::event::{AppEvent, Direction, Event, KeyCode, KeyEvent, KeyModifiers};
use fml::layout::{centered_rect, Rect};
use fml::mock::{mock_entries, pick_template, MOCK_TOTAL};
use fml::theme::{Color, Style, Theme};
use fml::types::{FeedKind, LogEntry, LogLevel, Timestamp};
use fml::widgets::help::HelpPopup;
use fml::widgets::log_stream::{render_entry, LogStream, LogStreamState};
use fml::widgets::query_bar::{QueryBar, QueryBarState};
use fml::widgets::tab_bar::TabBar;

fn entry(seq: u64, producer: &str, text: &str) -> LogEntry {
    LogEntry {
        seq,
        raw: text.to_string(),
        ts: Timestamp::from_millis(1_705_312_800_000 + seq as i64),
        level: Some(LogLevel::Info),
        source: FeedKind::Docker,
        producer: producer.to_string(),
        fields: Vec::new(),
        message: Some(text.to_string()),
    }
}

fn entries(n: u64) -> Vec<LogEntry> {
    (0..n).map(|i| entry(i + 1, if i % 2 == 0 { "api" } else { "worker" }, "line")).collect()
}

fn app(n: u64) -> App {
    App::new(entries(n), Config::defaults(), Theme::load_default())
}

fn type_text(app: &mut App, text: &str) {
    for c in text.chars() {
        app.handle(AppEvent::Char(c));
    }
}

fn run_command(app: &mut App, text: &str) {
    app.handle(AppEvent::Char(':'));
    type_text(app, text);
    app.handle(AppEvent::Enter);
}

#[test]
fn a_new_app_has_one_main_tab() {
    let app = app(5);
    assert_eq!(app.state.tabs.len(), 1);
    assert_eq!(app.state.tabs[0].label, "1:main");
    assert_eq!(app.state.focus, Focus::Tree);
    assert!(!app.should_quit());
    assert!(!app.state.show_help);
    let tree = &app.state.tabs[0].tree;
    assert_eq!(tree.nodes.len(), 1);
    assert_eq!(tree.nodes[0].label, "fml-demo");
    let leaves: Vec<&str> = tree.nodes[0].children.iter().map(|n| n.id.as_str()).collect();
    assert_eq!(leaves, vec!["api", "worker"]);
    assert_eq!(app.state.tabs[0].stream.cursor, 4);
    assert_eq!(app.state.tabs[0].query.greed, 0);
}

#[test]
fn producers_are_listed_once_in_order() {
    let list = vec![entry(1, "b", "x"), entry(2, "a", "x"), entry(3, "b", "x"), entry(4, "c", "x")];
    assert_eq!(producers_of(&list), vec!["b", "a", "c"]);
    assert!(producers_of(&Vec::new()).is_empty());
}

#[test]
fn focus_cycles_through_the_panes() {
    let mut app = app(3);
    app.handle(AppEvent::FocusNext);
    assert_eq!(app.state.focus, Focus::Stream);
    app.handle(AppEvent::FocusNext);
    assert_eq!(app.state.focus, Focus::QueryBar);
    app.handle(AppEvent::FocusNext);
    assert_eq!(app.state.focus, Focus::Tree);
    app.handle(AppEvent::QueryFocus);
    assert_eq!(app.state.focus, Focus::QueryBar);
    app.handle(AppEvent::Escape);
    assert_eq!(app.state.focus, Focus::Tree);
}

#[test]
fn help_popup_swallows_events() {
    let mut app = app(3);
    app.handle(AppEvent::Char('?'));
    assert!(app.state.show_help);
    app.handle(AppEvent::FocusNext);
    assert_eq!(app.state.focus, Focus::Tree);
    app.handle(AppEvent::Quit);
    assert!(!app.state.show_help);
    assert!(!app.should_quit());
    app.handle(AppEvent::Char('?'));
    app.handle(AppEvent::Escape);
    assert!(!app.state.show_help);
    app.handle(AppEvent::Quit);
    assert!(app.should_quit());
}

#[test]
fn question_mark_is_text_in_the_query_bar() {
    let mut app = app(3);
    app.handle(AppEvent::QueryFocus);
    type_text(&mut app, "a?:b");
    assert!(!app.state.show_help);
    assert_eq!(app.state.focus, Focus::QueryBar);
    assert_eq!(app.state.tabs[0].query.query, "a?:b");
    app.handle(AppEvent::Backspace);
    app.handle(AppEvent::TreeNav(Direction::Left));
    app.handle(AppEvent::Char('é'));
    assert_eq!(app.state.tabs[0].query.query, "a?é:");
    assert_eq!(app.state.tabs[0].query.cursor, 4);
}

#[test]
fn greed_keys_move_the_level_within_bounds() {
    let mut app = app(3);
    app.handle(AppEvent::GreedDown);
    assert_eq!(app.state.tabs[0].query.greed, 0);
    for _ in 0..12 {
        app.handle(AppEvent::GreedUp);
    }
    assert_eq!(app.state.tabs[0].query.greed, 10);
    app.handle(AppEvent::GreedDown);
    assert_eq!(app.state.tabs[0].query.greed, 9);
}

#[test]
fn command_line_runs_commands() {
    let mut app = app(3);
    app.handle(AppEvent::FocusNext);
    app.handle(AppEvent::Char(':'));
    assert_eq!(app.state.focus, Focus::Command);
    assert_eq!(app.state.prev_focus, Focus::Stream);
    type_text(&mut app, "greed 7");
    assert_eq!(app.state.command_bar.input, "greed 7");
    app.handle(AppEvent::Enter);
    assert_eq!(app.state.focus, Focus::Stream);
    assert_eq!(app.state.command_bar.input, "");
    assert_eq!(app.state.tabs[0].query.greed, 7);

    run_command(&mut app, "ts");
    assert!(!app.state.tabs[0].stream.show_timestamps);
    run_command(&mut app, "timestamps");
    assert!(app.state.tabs[0].stream.show_timestamps);
    run_command(&mut app, "help");
    assert!(app.state.show_help);
    app.handle(AppEvent::Escape);
    run_command(&mut app, "theme gruvbox");
    assert_eq!(format!("{:?}", app.state.theme), format!("{:?}", Theme::load_gruvbox_dark()));
    run_command(&mut app, "theme default");
    assert_eq!(format!("{:?}", app.state.theme), format!("{:?}", Theme::load_default()));
    assert_ne!(format!("{:?}", Theme::load_default()), format!("{:?}", Theme::load_gruvbox_dark()));
    run_command(&mut app, "q!");
    assert!(app.should_quit());
}

#[test]
fn command_errors_stay_on_display() {
    let mut app = app(3);
    run_command(&mut app, "greed 11");
    assert_eq!(app.state.focus, Focus::Command);
    assert_eq!(app.state.command_bar.error.as_deref(), Some("greed must be 0\u{2013}10"));
    assert_eq!(app.state.command_bar.input, "greed 11");
    // The next key dismisses the error and resets the line.
    app.handle(AppEvent::Backspace);
    assert_eq!(app.state.command_bar.error, None);
    assert_eq!(app.state.command_bar.input, "");
    app.handle(AppEvent::Enter);
    assert_eq!(app.state.focus, Focus::Tree);
    assert_eq!(app.state.tabs[0].query.greed, 0);

    run_command(&mut app, "frobnicate now");
    assert_eq!(app.state.command_bar.error.as_deref(), Some("unknown command: frobnicate"));
    app.handle(AppEvent::Escape);
    assert_eq!(app.state.focus, Focus::Tree);
    assert_eq!(app.state.command_bar.input, "");
    assert_eq!(app.state.command_bar.error, None);

    // A blank line closes the command line without a message.
    run_command(&mut app, "   ");
    assert_eq!(app.state.focus, Focus::Tree);
    assert_eq!(app.state.command_bar.error, None);
}

#[test]
fn commands_parse() {
    assert_eq!(Command::parse("q"), Ok(Command::Quit));
    assert_eq!(Command::parse("  quit  "), Ok(Command::Quit));
    assert_eq!(Command::parse("quit!"), Ok(Command::Exit));
    assert_eq!(Command::parse("tail"), Ok(Command::Tail));
    assert_eq!(Command::parse("theme  gruvbox dark "), Ok(Command::Theme("gruvbox dark".to_string())));
    assert_eq!(Command::parse("theme"), Err("usage: theme <default|gruvbox>".to_string()));
    assert_eq!(Command::parse("greed 0"), Ok(Command::Greed(0)));
    assert_eq!(Command::parse("greed 10"), Ok(Command::Greed(10)));
    assert_eq!(Command::parse("greed 255"), Err("greed must be 0\u{2013}10".to_string()));
    assert_eq!(Command::parse("greed 256"), Err("usage: greed <0-10>".to_string()));
    assert_eq!(Command::parse("greed"), Err("usage: greed <0-10>".to_string()));
    assert_eq!(Command::parse("greed -1"), Err("usage: greed <0-10>".to_string()));
    assert_eq!(Command::parse(""), Err(String::new()));
    assert_eq!(Command::parse("Quit"), Err("unknown command: Quit".to_string()));
}

#[test]
fn quit_command_closes_a_second_tab_first() {
    let mut app = app(3);
    let extra = App::new(entries(2), Config::defaults(), Theme::load_default());
    let mut tab = extra.state.tabs.into_iter().next().unwrap();
    tab.label = "2:copy".to_string();
    app.state.tabs.push(tab);
    app.state.active_tab = 1;
    execute_command(&mut app.state, Command::Quit);
    assert_eq!(app.state.tabs.len(), 1);
    assert_eq!(app.state.active_tab, 0);
    assert_eq!(app.state.tabs[0].label, "1:main");
    assert!(!app.should_quit());
    execute_command(&mut app.state, Command::Quit);
    assert!(app.should_quit());
}

#[test]
fn terminal_events_are_translated_by_mode() {
    let mut app = app(3);
    let key = |c: char| Event::Key(KeyEvent::new(KeyCode::Char(c), KeyModifiers::none()));
    assert_eq!(app.translate(key('q')), Some(AppEvent::Quit));
    assert_eq!(app.translate(key('j')), Some(AppEvent::TreeNav(Direction::Down)));
    assert_eq!(app.translate(Event::Resize(80, 24)), Some(AppEvent::Resize(80, 24)));
    app.on_terminal_event(key('/'));
    assert_eq!(app.state.focus, Focus::QueryBar);
    assert_eq!(app.translate(key('q')), Some(AppEvent::Char('q')));
    app.on_terminal_event(key('q'));
    app.on_terminal_event(key('j'));
    assert_eq!(app.state.tabs[0].query.query, "qj");
    assert!(!app.should_quit());
    app.on_terminal_event(Event::Key(KeyEvent::new(KeyCode::Esc, KeyModifiers::none())));
    assert_eq!(app.state.focus, Focus::Tree);
    app.on_terminal_event(Event::Key(KeyEvent::new(KeyCode::Char('c'), KeyModifiers::control())));
    assert!(app.should_quit());
}

#[test]
fn stream_scrolls_and_pauses() {
    let mut s = LogStreamState::new(entries(100));
    s.set_height(20);
    assert_eq!(s.visible_range(), (80, 100));
    assert_eq!(s.cursor, 99);
    s.handle(&AppEvent::ScrollUp);
    assert!(s.paused);
    assert_eq!(s.scroll_offset, 10);
    assert_eq!(s.visible_range(), (70, 90));
    assert_eq!(s.cursor, 89);
    s.handle(&AppEvent::TreeNav(Direction::Down));
    assert_eq!(s.scroll_offset, 9);
    assert_eq!(s.cursor, 90);
    s.handle(&AppEvent::ScrollDown);
    assert_eq!(s.scroll_offset, 0);
    assert!(!s.paused);
    assert_eq!(s.cursor, 99);
    for _ in 0..25 {
        s.handle(&AppEvent::TreeNav(Direction::Up));
    }
    assert_eq!(s.cursor, 74);
    assert!(s.paused);
    assert_eq!(s.visible_range(), (74, 94));
    for _ in 0..20 {
        s.handle(&AppEvent::ScrollUp);
    }
    assert_eq!(s.scroll_offset, 100);
    assert_eq!(s.visible_range(), (0, 0));
    assert_eq!(s.cursor, 0);
    s.handle(&AppEvent::ScrollToTail);
    assert_eq!((s.scroll_offset, s.cursor, s.paused), (0, 99, false));
}

#[test]
fn empty_stream_ignores_events() {
    let mut s = LogStreamState::new(Vec::new());
    for ev in [AppEvent::ScrollUp, AppEvent::TreeNav(Direction::Up), AppEvent::ScrollToTail] {
        s.handle(&ev);
    }
    assert_eq!((s.scroll_offset, s.cursor, s.paused), (0, 0, false));
    assert_eq!(s.visible_range(), (0, 0));
    s.set_height(0);
    assert_eq!(s.height(), 1);
}

fn text_of(line: &fml::layout::Line) -> String {
    line.spans.iter().map(|s| s.content.as_str()).collect()
}

#[test]
fn an_entry_is_drawn_with_clock_producer_and_message() {
    let theme = Theme::load_default();
    let mut e = entry(1, "api", "hello");
    e.ts = Timestamp::from_millis(1_705_312_802_123);
    e.level = Some(LogLevel::Error);
    let line = render_entry(&e, true, &theme);
    assert_eq!(text_of(&line), "10:00:02.123 api          \u{2502} hello");
    assert_eq!(line.spans.len(), 4);
    assert_eq!(line.spans[3].style, theme.level_style(Some(LogLevel::Error)));
    assert_eq!(line.spans[1].style, theme.producer_style("api"));
    let line = render_entry(&e, false, &theme);
    assert_eq!(text_of(&line), "api          \u{2502} hello");
    e.producer = "a-very-long-producer".to_string();
    e.message = None;
    e.raw = "raw text".to_string();
    assert_eq!(text_of(&render_entry(&e, false, &theme)), "a-very-long-producer \u{2502} raw text");
}

#[test]
fn stream_lines_carry_cursor_and_banner() {
    let theme = Theme::load_default();
    let mut s = LogStreamState::new(entries(30));
    s.show_timestamps = false;
    let w = LogStream::new(&s, true, &theme);
    let lines = w.lines(5);
    assert_eq!(lines.len(), 5);
    assert_eq!(w.range(5), (25, 30));
    assert_eq!(w.cursor_row(5), Some(4));
    assert!(lines[4].style.reversed);
    assert!(!lines[3].style.reversed);
    assert_eq!(text_of(&lines[0]), "worker       \u{2502} line");
    assert_eq!(w.title(), "Logs");

    s.handle(&AppEvent::ScrollUp);
    s.buffered_new = 12;
    let w = LogStream::new(&s, false, &theme);
    let lines = w.lines(5);
    assert_eq!(text_of(&lines[0]), " \u{23F8}  paused \u{2014} 12 new lines (G to resume) ");
    assert_eq!(w.cursor_row(5), None);
    assert!(lines.iter().all(|l| !l.style.reversed));
    s.buffered_new = 0;
    let w = LogStream::new(&s, false, &theme);
    assert_eq!(text_of(&w.pause_banner()), " \u{23F8}  paused  (G to resume) ");
    assert_eq!(w.scrollbar(5), Some((30, 15, 5)));
    assert_eq!(LogStream::new(&LogStreamState::new(Vec::new()), true, &theme).scrollbar(5), None);
}

#[test]
fn slider_shows_the_level() {
    let theme = Theme::load_default();
    let mut q = QueryBarState::new();
    assert_eq!(QueryBar::new(&q, false, &theme).slider(), "greed:[----------]0");
    q.greed = 3;
    assert_eq!(QueryBar::new(&q, false, &theme).slider(), "greed:[===-------]3");
    q.greed = 10;
    assert_eq!(QueryBar::new(&q, false, &theme).slider(), "greed:[==========]10");
    assert_eq!(QueryBar::new(&q, false, &theme).query_line().content, "press / to search");
    assert_eq!(QueryBar::new(&q, true, &theme).query_line().content, "");
    for c in "wörld".chars() {
        q.handle(&AppEvent::Char(c));
    }
    assert_eq!(QueryBar::new(&q, false, &theme).query_line().content, "wörld");
    let bar = QueryBar::new(&q, true, &theme);
    assert_eq!(bar.cursor_position(Rect::new(2, 3, 40, 3)), (8, 4));
    assert_eq!(bar.cursor_position(Rect::new(2, 3, 5, 3)), (6, 4));
    assert_eq!(bar.border_style(), theme.border_focused);
}

#[test]
fn tab_bar_labels_mark_dirty_tabs() {
    let theme = Theme::load_default();
    let mut app = app(2);
    let extra = App::new(Vec::new(), Config::defaults(), Theme::load_default());
    let mut tab = extra.state.tabs.into_iter().next().unwrap();
    tab.label = "2:frozen".to_string();
    tab.dirty = true;
    app.state.tabs.push(tab);
    let bar = TabBar::new(&app.state.tabs, 0, &theme);
    assert_eq!(bar.labels(), vec![" 1:main ", " 2:frozen \u{25CF} "]);
    assert_eq!(bar.hint(), " q:quit  ?:help ");
    assert_eq!(bar.hint_x(Rect::new(0, 0, 80, 1)), 64);
    assert_eq!(bar.hint_x(Rect::new(0, 0, 10, 1)), 0);
    assert_eq!(bar.highlight_style().bg, Some(Color::DarkGray));
}

#[test]
fn help_popup_lists_the_bindings() {
    let theme = Theme::load_default();
    let help = HelpPopup::new(&theme);
    let lines = help.lines();
    assert_eq!(lines.len(), 14);
    assert_eq!(text_of(&lines[0]), "  q  /  Ctrl+c          Quit / close tab");
    assert_eq!(text_of(&lines[13]), "  ?                     Toggle this help popup");
    assert!(lines.iter().all(|l| l.spans[0].content.chars().count() == 24));
    assert!(lines[0].spans[0].style.bold);
    assert_eq!(lines[0].spans[1].style, Style::new());
    assert_eq!(help.area(Rect::new(0, 0, 200, 60)), Rect::new(60, 20, 80, 20));
    assert_eq!(help.area(Rect::new(0, 0, 40, 10)), Rect::new(0, 0, 40, 10));
    assert_eq!(centered_rect(10, 4, Rect::new(5, 5, 21, 9)), Rect::new(10, 7, 10, 4));
    assert_eq!(help.title(), " fml \u{2014} keybindings (? to close) ");
}

#[test]
fn demonstration_data_covers_the_last_hour() {
    let now = Timestamp::from_millis(1_705_312_800_000);
    let list = mock_entries(now);
    assert_eq!(list.len() as u64, MOCK_TOTAL);
    assert_eq!(list[0].seq, 1);
    assert_eq!(list[1199].seq, 1200);
    assert_eq!(list[0].ts, Timestamp::from_millis(1_705_312_800_000 - 3_600_000));
    assert_eq!(list[1199].ts, Timestamp::from_millis(1_705_312_800_000 - 3_000));
    assert_eq!(list[0].raw, "GET /healthz 200 OK (1ms) [req=0]");
    assert_eq!(list[25].raw, "GET /healthz 200 OK (1ms) [req=97984]");
    assert_eq!(list[1].raw, "GET /api/v1/users 200 OK (12ms)");
    assert_eq!(list[1].message.as_deref(), Some("GET /api/v1/users 200 OK (12ms)"));
    assert_eq!(list[99].level, Some(LogLevel::Fatal));
    assert_eq!(list[99].producer, "worker-9e1b");
    assert_eq!(list[85].level, Some(LogLevel::Warn));
    assert_eq!(list[94].level, Some(LogLevel::Error));
    assert!(list.iter().all(|e| e.source == FeedKind::Docker && e.fields.is_empty()));
    assert!(list.windows(2).all(|w| w[0].ts.millis < w[1].ts.millis && w[0].seq + 1 == w[1].seq));
    assert_eq!(producers_of(&list), vec!["api-7f9b4d", "worker-4c2a", "worker-9e1b"]);
    assert_eq!(pick_template(35).1, LogLevel::Fatal);
    assert_eq!(pick_template(400).1, LogLevel::Fatal);
}
