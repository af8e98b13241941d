//! Commands of the `:` command line, parsed and ready to be executed.

use crate::app::{tabs_differ_at, AppState};
use crate::event::{AppEvent, EventView};
use crate::text::{
    chars_of, command_rest, command_split, command_word, parse_unsigned, range_is,
    read_unsigned, string_of_range, trim,
};
use crate::theme::{theme_named, Theme};
use crate::widgets::log_stream::LogStreamState;
use vstd::prelude::*;
use vstd::string::StringExecFns;

verus! {

/// A parsed, validated command.
#[derive(Debug, Clone, PartialEq, Eq)]
pub enum Command {
    /// Close the focused tab; on the main tab, close the application.
    Quit,
    /// Close the application whichever tab has the focus.
    Exit,
    /// Toggle the help popup.
    Help,
    /// Change theme.
    Theme(String),
    /// Toggle display of timestamps.
    Timestamps,
    /// Jump to the end of the log stream and resume.
    Tail,
    /// Set the greed value directly.
    Greed(u8),
}

/// The mathematical content of a [`Command`].
pub enum CommandView {
    Quit,
    Exit,
    Help,
    Theme(Seq<char>),
    Timestamps,
    Tail,
    Greed(u8),
}

impl View for Command {
    type V = CommandView;

    open spec fn view(&self) -> CommandView {
        match self {
            Command::Quit => CommandView::Quit,
            Command::Exit => CommandView::Exit,
            Command::Help => CommandView::Help,
            Command::Theme(name) => CommandView::Theme(name@),
            Command::Timestamps => CommandView::Timestamps,
            Command::Tail => CommandView::Tail,
            Command::Greed(n) => CommandView::Greed(*n),
        }
    }
}

/// The content of a parse result: the command's content, or the message's.
pub open spec fn parsed_command_view(r: Result<Command, String>) -> Result<
    CommandView,
    Seq<char>,
> {
    match r {
        Ok(c) => Ok(c@),
        Err(msg) => Err(msg@),
    }
}

/// What a command line means as a command.
///
/// Blank input gives the empty message, the sign to close the command line
/// without acting. Any other error carries the text to show to the user.
pub open spec fn parse_command_spec(input: Seq<char>) -> Result<CommandView, Seq<char>> {
    let word = command_word(input);
    let rest = command_rest(input);
    if trim(input).len() == 0 {
        Err(Seq::empty())
    } else if word == "q"@ || word == "quit"@ {
        Ok(CommandView::Quit)
    } else if word == "q!"@ || word == "quit!"@ {
        Ok(CommandView::Exit)
    } else if word == "help"@ {
        Ok(CommandView::Help)
    } else if word == "ts"@ || word == "timestamps"@ {
        Ok(CommandView::Timestamps)
    } else if word == "tail"@ {
        Ok(CommandView::Tail)
    } else if word == "theme"@ {
        if rest.len() == 0 {
            Err("usage: theme <default|gruvbox>"@)
        } else {
            Ok(CommandView::Theme(rest))
        }
    } else if word == "greed"@ {
        match parse_unsigned(rest, 255) {
            Some(n) => if n <= 10 {
                Ok(CommandView::Greed(n as u8))
            } else {
                Err("greed must be 0\u{2013}10"@)
            },
            None => Err("usage: greed <0-10>"@),
        }
    } else {
        Err("unknown command: "@ + word)
    }
}

impl Command {
    /// Parses a raw command string (the text after the `:` prefix).
    ///
    /// Returns `Ok(cmd)` on success and `Err(message)` on failure. A blank
    /// string gives `Err` with an empty message, which means "close without
    /// acting".
    pub fn parse(input: &str) -> (r: Result<Command, String>)
        ensures
            parsed_command_view(r) == parse_command_spec(input@),
    {
        let v = chars_of(input);
        let parts = command_split(&v);
        if parts.blank {
            return Err(String::new());
        }
        let (lo, hi) = (parts.word_lo, parts.word_hi);
        if range_is(&v, lo, hi, "q") || range_is(&v, lo, hi, "quit") {
            Ok(Command::Quit)
        } else if range_is(&v, lo, hi, "q!") || range_is(&v, lo, hi, "quit!") {
            Ok(Command::Exit)
        } else if range_is(&v, lo, hi, "help") {
            Ok(Command::Help)
        } else if range_is(&v, lo, hi, "ts") || range_is(&v, lo, hi, "timestamps") {
            Ok(Command::Timestamps)
        } else if range_is(&v, lo, hi, "tail") {
            Ok(Command::Tail)
        } else if range_is(&v, lo, hi, "theme") {
            if parts.rest_lo == parts.rest_hi {
                Err("usage: theme <default|gruvbox>".to_owned())
            } else {
                Ok(Command::Theme(string_of_range(&v, parts.rest_lo, parts.rest_hi)))
            }
        } else if range_is(&v, lo, hi, "greed") {
            match read_unsigned(&v, parts.rest_lo, parts.rest_hi, 255) {
                Some(n) => if n <= 10 {
                    Ok(Command::Greed(n as u8))
                } else {
                    Err("greed must be 0\u{2013}10".to_owned())
                },
                None => Err("usage: greed <0-10>".to_owned()),
            }
        } else {
            let word = string_of_range(&v, lo, hi);
            Err("unknown command: ".to_owned().concat(word.as_str()))
        }
    }
}

/// What executing a command makes of the application state.
///
/// - `Quit` closes the active tab and steps back to the tab before it; on
///   the main tab it ends the application.
/// - `Exit` ends the application.
/// - `Help` toggles the help popup.
/// - `Theme` loads the built-in theme of that name.
/// - `Timestamps` toggles the timestamps of the active tab's stream.
/// - `Tail` takes the active tab's stream back to the live tail.
/// - `Greed` sets the greed level of the active tab's query.
pub open spec fn executed(pre: AppState, cmd: CommandView, post: AppState) -> bool {
    let a = pre.active_tab as int;
    match cmd {
        CommandView::Quit => if pre.active_tab == 0 {
            post == (AppState { quit: true, ..pre })
        } else {
            &&& post == (AppState {
                tabs: post.tabs,
                active_tab: (pre.active_tab - 1) as usize,
                ..pre
            })
            &&& post.tabs@ == pre.tabs@.remove(a)
        },
        CommandView::Exit => post == (AppState { quit: true, ..pre }),
        CommandView::Help => post == (AppState { show_help: !pre.show_help, ..pre }),
        CommandView::Theme(name) => {
            &&& post == (AppState { theme: post.theme, ..pre })
            &&& post.theme@ == theme_named(name)
        },
        CommandView::Timestamps => {
            &&& tabs_differ_at(pre, post, a)
            &&& post.tabs@[a] == (crate::app::TabState {
                stream: LogStreamState {
                    show_timestamps: !pre.tabs@[a].stream.show_timestamps,
                    ..pre.tabs@[a].stream
                },
                ..pre.tabs@[a]
            })
        },
        CommandView::Tail => {
            &&& tabs_differ_at(pre, post, a)
            &&& post.tabs@[a] == (crate::app::TabState {
                stream: post.tabs@[a].stream,
                ..pre.tabs@[a]
            })
            &&& crate::app::stream_stepped(
                pre.tabs@[a].stream,
                EventView::ScrollToTail,
                post.tabs@[a].stream,
            )
        },
        CommandView::Greed(n) => {
            &&& tabs_differ_at(pre, post, a)
            &&& post.tabs@[a] == (crate::app::TabState {
                query: crate::widgets::query_bar::QueryBarState {
                    greed: n,
                    ..pre.tabs@[a].query
                },
                ..pre.tabs@[a]
            })
        },
    }
}

/// Executes a parsed [`Command`] against the application state.
pub fn execute_command(s: &mut AppState, cmd: Command)
    requires
        old(s).wf(),
    ensures
        final(s).wf(),
        executed(*old(s), cmd@, *final(s)),
{
    let ghost before = s.tabs@;
    match cmd {
        Command::Quit => {
            if s.active_tab == 0 {
                s.quit = true;
            } else {
                s.tabs.remove(s.active_tab);
                s.active_tab = s.active_tab - 1;
            }
        },
        Command::Exit => {
            s.quit = true;
        },
        Command::Help => {
            s.show_help = !s.show_help;
        },
        Command::Theme(name) => {
            s.theme = Theme::named(name.as_str());
        },
        Command::Timestamps => {
            let flag: bool = !s.tabs[s.active_tab].stream.show_timestamps;
            s.tabs[s.active_tab].stream.show_timestamps = flag;
            assert(s.tabs@ =~= before.update(s.active_tab as int, s.tabs@[s.active_tab as int]));
        },
        Command::Tail => {
            s.tabs[s.active_tab].stream.handle(&AppEvent::ScrollToTail);
            assert(s.tabs@ =~= before.update(s.active_tab as int, s.tabs@[s.active_tab as int]));
        },
        Command::Greed(n) => {
            s.tabs[s.active_tab].query.greed = n;
            assert(s.tabs@ =~= before.update(s.active_tab as int, s.tabs@[s.active_tab as int]));
        },
    }
}

} // verus!
