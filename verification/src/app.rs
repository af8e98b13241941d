//! Top-level application state and the rules by which events change it.
//!
//! The program around the library reads terminal events and draws; what an
//! event does to the state is decided here. The help popup, while open,
//! takes every event. The command line, while open, takes every event that
//! is left. All other events go by the table in [`normal_mode`].

use crate::commands::{execute_command, executed, parse_command_spec, Command, CommandView};
use crate::config::Config;
use crate::event::{
    insert_event, normal_event, AppEvent, Event, EventView, KeyEventKind,
};
use crate::theme::Theme;
use crate::types::{entries_view, opt_view, EntryView, LogEntry};
use crate::widgets::command_bar::{BarModel, CommandBarState};
use crate::widgets::log_stream::LogStreamState;
use crate::widgets::producer_tree::{
    lemma_nodes_view, node_view, nodes_view, NodeSelection, NodeView, ProducerTreeState,
    TreeModel, TreeNode,
};
use crate::widgets::query_bar::{QueryBarState, QueryModel};
use crate::widgets::line_edit::Line;
use vstd::prelude::*;

verus! {

// ---------------------------------------------------------------------------
// Focus and tabs
// ---------------------------------------------------------------------------

/// The pane that has the keyboard focus.
#[derive(Debug, Clone, Copy, PartialEq, Eq, Structural)]
pub enum Focus {
    Tree,
    Stream,
    QueryBar,
    /// The `:` command line is open.
    Command,
}

/// What a tab shows.
#[derive(Debug)]
pub enum TabKind {
    /// The live view.
    Main,
    /// A frozen copy of a view, with its title.
    Freeze(String),
    /// The entries that share a value of a field.
    Correlate { field: String, value: String },
}

/// One tab with the state of its widgets.
#[derive(Debug)]
pub struct TabState {
    pub label: String,
    pub kind: TabKind,
    pub tree: ProducerTreeState,
    pub stream: LogStreamState,
    pub query: QueryBarState,
    pub dirty: bool,
}

// ---------------------------------------------------------------------------
// Application state
// ---------------------------------------------------------------------------

/// The whole state of the application.
#[derive(Debug)]
pub struct AppState {
    pub tabs: Vec<TabState>,
    pub active_tab: usize,
    pub focus: Focus,
    /// Focus before the command line was opened, restored when it closes.
    pub prev_focus: Focus,
    pub theme: Theme,
    pub config: Config,
    pub show_help: bool,
    pub command_bar: CommandBarState,
    pub quit: bool,
}

impl AppState {
    /// There is a tab, the active tab exists, and every text input has its
    /// cursor on a character boundary.
    pub open spec fn wf(&self) -> bool {
        &&& self.tabs@.len() > 0
        &&& self.active_tab < self.tabs@.len()
        &&& self.command_bar.wf()
        &&& forall|i: int| 0 <= i < self.tabs@.len() ==> (#[trigger] self.tabs@[i]).query.wf()
    }
}

/// `post` is `pre` but for the tab at `a`.
pub open spec fn tabs_differ_at(pre: AppState, post: AppState, a: int) -> bool {
    &&& post == (AppState { tabs: post.tabs, ..pre })
    &&& post.tabs@.len() == pre.tabs@.len()
    &&& forall|j: int| 0 <= j < pre.tabs@.len() && j != a ==> post.tabs@[j] == pre.tabs@[j]
}

/// `post` is the stream `pre` after the event: scrolled as its model says,
/// with the same entries and settings.
pub open spec fn stream_stepped(pre: LogStreamState, ev: EventView, post: LogStreamState) -> bool {
    &&& post.model() == pre.model().step(ev)
    &&& post.entries == pre.entries
    &&& post.show_timestamps == pre.show_timestamps
    &&& post.last_height == pre.last_height
}

/// The event was handed to the widget that has the focus, in the active
/// tab. With the focus on the command line nothing changes.
pub open spec fn dispatched(pre: AppState, ev: EventView, post: AppState) -> bool {
    let a = pre.active_tab as int;
    match pre.focus {
        Focus::Tree => {
            &&& tabs_differ_at(pre, post, a)
            &&& post.tabs@[a] == (TabState { tree: post.tabs@[a].tree, ..pre.tabs@[a] })
            &&& post.tabs@[a].tree.model() == pre.tabs@[a].tree.model().step(ev)
        },
        Focus::Stream => {
            &&& tabs_differ_at(pre, post, a)
            &&& post.tabs@[a] == (TabState { stream: post.tabs@[a].stream, ..pre.tabs@[a] })
            &&& stream_stepped(pre.tabs@[a].stream, ev, post.tabs@[a].stream)
        },
        Focus::QueryBar => query_stepped(pre, ev, post),
        Focus::Command => post == pre,
    }
}

/// The event was handed to the query bar of the active tab.
pub open spec fn query_stepped(pre: AppState, ev: EventView, post: AppState) -> bool {
    let a = pre.active_tab as int;
    &&& tabs_differ_at(pre, post, a)
    &&& post.tabs@[a] == (TabState { query: post.tabs@[a].query, ..pre.tabs@[a] })
    &&& post.tabs@[a].query.model() == pre.tabs@[a].query.model().step(ev)
}

/// The focus that follows `focus` in the cycle tree, stream, query bar.
pub open spec fn next_focus(focus: Focus) -> Focus {
    match focus {
        Focus::Tree => Focus::Stream,
        Focus::Stream => Focus::QueryBar,
        Focus::QueryBar => Focus::Tree,
        Focus::Command => Focus::Tree,
    }
}

/// The command line was closed: it is blank, and the focus is back where it
/// was before the command line was opened.
pub open spec fn bar_closed(pre: AppState, post: AppState) -> bool {
    &&& post == (AppState { command_bar: post.command_bar, focus: pre.prev_focus, ..pre })
    &&& post.command_bar.model() == BarModel::blank()
}

/// What an event does while the command line is open.
///
/// `Escape` closes the command line. `Enter` parses the line: a command is
/// executed after the command line was closed, a blank line just closes it,
/// and an error stays on display with the line as it is. Every other event
/// edits the line.
pub open spec fn command_mode(pre: AppState, ev: EventView, post: AppState) -> bool {
    match ev {
        EventView::Escape => bar_closed(pre, post),
        EventView::Enter => match parse_command_spec(pre.command_bar.input@) {
            Ok(cmd) => {
                &&& post.command_bar.model() == BarModel::blank()
                &&& executed(
                    AppState { command_bar: post.command_bar, focus: pre.prev_focus, ..pre },
                    cmd,
                    post,
                )
            },
            Err(msg) => if msg.len() == 0 {
                bar_closed(pre, post)
            } else {
                &&& post == (AppState { command_bar: post.command_bar, ..pre })
                &&& post.command_bar == (CommandBarState {
                    error: post.command_bar.error,
                    ..pre.command_bar
                })
                &&& opt_view(post.command_bar.error) == Some(msg)
            },
        },
        _ => {
            &&& post == (AppState { command_bar: post.command_bar, ..pre })
            &&& post.command_bar.model() == pre.command_bar.model().step(ev).0
        },
    }
}

/// What an event does while neither the help popup nor the command line is
/// open.
///
/// | Event | Effect |
/// |-------|--------|
/// | `?` outside the query bar | open the help popup |
/// | `:` outside the query bar | open the command line |
/// | `Quit` | close the tab, or the application on the main tab |
/// | `Escape` | leave the query bar for the tree |
/// | `FocusNext` | tree, stream, query bar, tree |
/// | `QueryFocus` | focus the query bar |
/// | `GreedUp`, `GreedDown` | change the greed of the active tab |
/// | `Resize` | nothing |
/// | anything else | goes to the widget that has the focus |
pub open spec fn normal_mode(pre: AppState, ev: EventView, post: AppState) -> bool {
    if ev == EventView::Char('?') && pre.focus != Focus::QueryBar {
        post == (AppState { show_help: true, ..pre })
    } else if ev == EventView::Char(':') && pre.focus != Focus::QueryBar {
        &&& post == (AppState {
            prev_focus: pre.focus,
            focus: Focus::Command,
            command_bar: post.command_bar,
            ..pre
        })
        &&& post.command_bar.model() == BarModel::blank()
    } else {
        match ev {
            EventView::Quit => executed(pre, CommandView::Quit, post),
            EventView::Escape => if pre.focus == Focus::QueryBar {
                post == (AppState { focus: Focus::Tree, ..pre })
            } else {
                post == pre
            },
            EventView::FocusNext => post == (AppState { focus: next_focus(pre.focus), ..pre }),
            EventView::QueryFocus => post == (AppState { focus: Focus::QueryBar, ..pre }),
            EventView::GreedUp => query_stepped(pre, ev, post),
            EventView::GreedDown => query_stepped(pre, ev, post),
            EventView::Resize(_, _) => post == pre,
            _ => dispatched(pre, ev, post),
        }
    }
}

/// What an event does to the application.
///
/// While the help popup is open, `?`, `Escape` and `Quit` close it and
/// every other event is dropped. While the command line is open,
/// [`command_mode`] holds; otherwise [`normal_mode`] does.
pub open spec fn handled(pre: AppState, ev: EventView, post: AppState) -> bool {
    if pre.show_help {
        if ev == EventView::Char('?') || ev == EventView::Escape || ev == EventView::Quit {
            post == (AppState { show_help: false, ..pre })
        } else {
            post == pre
        }
    } else if pre.focus == Focus::Command {
        command_mode(pre, ev, post)
    } else {
        normal_mode(pre, ev, post)
    }
}

/// The producers of a list of entries, each once, in the order in which
/// they first occur.
pub open spec fn distinct_producers(entries: Seq<EntryView>) -> Seq<Seq<char>>
    decreases entries.len(),
{
    if entries.len() == 0 {
        Seq::empty()
    } else {
        let before = distinct_producers(entries.drop_last());
        if before.contains(entries.last().producer) {
            before
        } else {
            before.push(entries.last().producer)
        }
    }
}

/// A leaf of the producer tree, with the producer's name as id and label.
pub open spec fn producer_leaf(name: Seq<char>) -> NodeView {
    NodeView {
        id: name,
        label: name,
        expanded: true,
        selection: NodeSelection::Unselected,
        children: Seq::empty(),
    }
}

/// The producer tree of a list of producers: one root with a leaf for each.
pub open spec fn producer_forest(names: Seq<Seq<char>>) -> Seq<NodeView> {
    seq![
        NodeView {
            id: "__root__"@,
            label: "fml-demo"@,
            expanded: true,
            selection: NodeSelection::Unselected,
            children: Seq::new(names.len(), |i: int| producer_leaf(names[i])),
        },
    ]
}

/// The views of a list of strings.
pub open spec fn names_view(names: Seq<String>) -> Seq<Seq<char>> {
    Seq::new(names.len(), |i: int| names[i]@)
}

/// Collects the producers of the entries, each once, in order of first
/// occurrence.
pub fn producers_of(entries: &Vec<LogEntry>) -> (names: Vec<String>)
    ensures
        names_view(names@) == distinct_producers(entries_view(entries@)),
{
    let mut names: Vec<String> = Vec::new();
    let mut i: usize = 0;
    let ghost ev = entries_view(entries@);
    assert(ev.take(0) =~= Seq::<EntryView>::empty());
    assert(names_view(names@) =~= Seq::<Seq<char>>::empty());
    while i < entries.len()
        invariant
            i <= entries.len(),
            ev == entries_view(entries@),
            names_view(names@) == distinct_producers(ev.take(i as int)),
        decreases entries.len() - i,
    {
        let name = &entries[i].producer;
        let mut seen: bool = false;
        let mut j: usize = 0;
        while j < names.len()
            invariant
                j <= names.len(),
                seen == (exists|k: int| 0 <= k < j && names@[k]@ == name@),
            decreases names.len() - j,
        {
            if names[j] == *name {
                seen = true;
            }
            j += 1;
        }
        proof {
            let before = distinct_producers(ev.take(i as int));
            assert(ev.take(i + 1).drop_last() =~= ev.take(i as int));
            assert(ev.take(i + 1).last().producer == name@);
            if seen {
                let k = choose|k: int| 0 <= k < names@.len() && names@[k]@ == name@;
                assert(before[k] == name@);
            } else {
                if before.contains(name@) {
                    let k = choose|k: int| 0 <= k < before.len() && before[k] == name@;
                    assert(names@[k]@ == name@);
                }
            }
        }
        if !seen {
            let ghost prior = names_view(names@);
            names.push(name.clone());
            assert(names_view(names@) =~= prior.push(name@));
        }
        i += 1;
    }
    assert(ev.take(ev.len() as int) =~= ev);
    names
}

// ---------------------------------------------------------------------------
// App
// ---------------------------------------------------------------------------

/// The application: its state and the rules that change it.
#[derive(Debug)]
pub struct App {
    pub state: AppState,
}

/// Tells whether the focus is on a text input, where letter keys type
/// characters and do not trigger shortcuts.
pub fn is_insert_mode(focus: Focus) -> (r: bool)
    ensures
        r == (focus == Focus::QueryBar || focus == Focus::Command),
{
    match focus {
        Focus::QueryBar => true,
        Focus::Command => true,
        _ => false,
    }
}

/// Routes an event to the widget that owns the current focus.
pub fn dispatch_to_focused(s: &mut AppState, event: AppEvent)
    requires
        old(s).wf(),
    ensures
        final(s).wf(),
        dispatched(*old(s), event@, *final(s)),
{
    let ghost before = s.tabs@;
    let a: usize = s.active_tab;
    match s.focus {
        Focus::Tree => {
            s.tabs[a].tree.handle(&event);
            assert(s.tabs@ =~= before.update(a as int, s.tabs@[a as int]));
        },
        Focus::Stream => {
            s.tabs[a].stream.handle(&event);
            assert(s.tabs@ =~= before.update(a as int, s.tabs@[a as int]));
        },
        Focus::QueryBar => {
            s.tabs[a].query.handle(&event);
            assert(s.tabs@ =~= before.update(a as int, s.tabs@[a as int]));
        },
        Focus::Command => {},
    }
}

/// Handles an event while the command line is open.
fn command_mode_step(s: &mut AppState, event: AppEvent)
    requires
        old(s).wf(),
        old(s).focus == Focus::Command,
    ensures
        final(s).wf(),
        command_mode(*old(s), event@, *final(s)),
{
    match event {
        AppEvent::Escape => {
            s.command_bar.clear();
            s.focus = s.prev_focus;
        },
        AppEvent::Enter => {
            match Command::parse(s.command_bar.input.as_str()) {
                Ok(cmd) => {
                    s.command_bar.clear();
                    s.focus = s.prev_focus;
                    execute_command(s, cmd);
                },
                Err(msg) => {
                    if msg.as_str().unicode_len() == 0 {
                        s.command_bar.clear();
                        s.focus = s.prev_focus;
                    } else {
                        s.command_bar.error = Some(msg);
                    }
                },
            }
        },
        other => {
            let _ = s.command_bar.handle(&other);
        },
    }
}

/// Handles an event while neither the help popup nor the command line is
/// open.
fn normal_mode_step(s: &mut AppState, event: AppEvent)
    requires
        old(s).wf(),
    ensures
        final(s).wf(),
        normal_mode(*old(s), event@, *final(s)),
{
    let outside_query: bool = s.focus != Focus::QueryBar;
    let ghost before = s.tabs@;
    match event {
        AppEvent::Char(c) => {
            if c == '?' && outside_query {
                s.show_help = true;
            } else if c == ':' && outside_query {
                s.prev_focus = s.focus;
                s.command_bar.clear();
                s.focus = Focus::Command;
            } else {
                dispatch_to_focused(s, AppEvent::Char(c));
            }
        },
        AppEvent::Quit => {
            execute_command(s, Command::Quit);
        },
        AppEvent::Escape => {
            if s.focus == Focus::QueryBar {
                s.focus = Focus::Tree;
            }
        },
        AppEvent::FocusNext => {
            s.focus = match s.focus {
                Focus::Tree => Focus::Stream,
                Focus::Stream => Focus::QueryBar,
                Focus::QueryBar => Focus::Tree,
                Focus::Command => Focus::Tree,
            };
        },
        AppEvent::QueryFocus => {
            s.focus = Focus::QueryBar;
        },
        AppEvent::GreedUp => {
            let a: usize = s.active_tab;
            s.tabs[a].query.handle(&AppEvent::GreedUp);
            assert(s.tabs@ =~= before.update(a as int, s.tabs@[a as int]));
        },
        AppEvent::GreedDown => {
            let a: usize = s.active_tab;
            s.tabs[a].query.handle(&AppEvent::GreedDown);
            assert(s.tabs@ =~= before.update(a as int, s.tabs@[a as int]));
        },
        AppEvent::Resize(_, _) => {},
        other => {
            dispatch_to_focused(s, other);
        },
    }
}

impl App {
    /// The application over a list of entries: one main tab whose tree has
    /// a root with one leaf for each producer, focus on the tree.
    pub fn new(entries: Vec<LogEntry>, config: Config, theme: Theme) -> (r: App)
        ensures
            r.state.wf(),
            r.state.tabs@.len() == 1,
            r.state.active_tab == 0,
            r.state.focus == Focus::Tree,
            r.state.prev_focus == Focus::Tree,
            r.state.theme == theme,
            r.state.config == config,
            !r.state.show_help,
            !r.state.quit,
            r.state.command_bar.model() == BarModel::blank(),
            r.state.tabs@[0].label@ == "1:main"@,
            r.state.tabs@[0].kind == TabKind::Main,
            !r.state.tabs@[0].dirty,
            r.state.tabs@[0].tree.model() == (TreeModel {
                nodes: producer_forest(distinct_producers(entries_view(entries@))),
                cursor: 0,
            }),
            r.state.tabs@[0].query.model() == (QueryModel { line: Line::blank(), greed: 0 }),
            r.state.tabs@[0].stream == (LogStreamState {
                entries,
                scroll_offset: 0,
                cursor: r.state.tabs@[0].stream.cursor,
                paused: false,
                buffered_new: 0,
                show_timestamps: config.ui.show_timestamps,
                last_height: 40,
            }),
            r.state.tabs@[0].stream.cursor as int == if entries@.len() > 0 {
                entries@.len() - 1
            } else {
                0
            },
    {
        let producers = producers_of(&entries);
        let mut children: Vec<TreeNode> = Vec::new();
        let mut i: usize = 0;
        while i < producers.len()
            invariant
                i <= producers.len(),
                children@.len() == i,
                forall|j: int|
                    0 <= j < i ==> node_view(#[trigger] children@[j]) == producer_leaf(
                        producers@[j]@,
                    ),
            decreases producers.len() - i,
        {
            let name = producers[i].as_str();
            children.push(TreeNode::new(name, name));
            i += 1;
        }
        let ghost names = distinct_producers(entries_view(entries@));
        proof {
            lemma_nodes_view(children@);
            assert(nodes_view(children@) =~= Seq::new(
                names.len(),
                |i: int| producer_leaf(names[i]),
            ));
        }
        let root = TreeNode::new("__root__", "fml-demo").with_children(children);
        let mut nodes: Vec<TreeNode> = Vec::new();
        nodes.push(root);
        proof {
            lemma_nodes_view(nodes@);
            assert(nodes_view(nodes@) =~= producer_forest(names));
        }
        let tree = ProducerTreeState { nodes, cursor: 0 };
        let show_timestamps: bool = config.ui.show_timestamps;
        let mut stream = LogStreamState::new(entries);
        stream.show_timestamps = show_timestamps;
        let main_tab = TabState {
            label: "1:main".to_owned(),
            kind: TabKind::Main,
            tree,
            stream,
            query: QueryBarState::new(),
            dirty: false,
        };
        let mut tabs: Vec<TabState> = Vec::new();
        tabs.push(main_tab);
        let state = AppState {
            tabs,
            active_tab: 0,
            focus: Focus::Tree,
            prev_focus: Focus::Tree,
            theme,
            config,
            show_help: false,
            command_bar: CommandBarState::new(),
            quit: false,
        };
        App { state }
    }

    /// Handles one application event.
    pub fn handle(&mut self, event: AppEvent)
        requires
            old(self).state.wf(),
        ensures
            final(self).state.wf(),
            handled(old(self).state, event@, final(self).state),
    {
        if self.state.show_help {
            let closes: bool = match event {
                AppEvent::Char(c) => c == '?',
                AppEvent::Escape => true,
                AppEvent::Quit => true,
                _ => false,
            };
            if closes {
                self.state.show_help = false;
            }
            return ;
        }
        if self.state.focus == Focus::Command {
            command_mode_step(&mut self.state, event);
        } else {
            normal_mode_step(&mut self.state, event);
        }
    }

    /// The application event that a terminal event stands for, if any.
    ///
    /// A key press is read by the insert bindings while a text input has
    /// the focus and by the normal bindings otherwise; every other terminal
    /// event is read by the normal bindings.
    pub fn translate(&self, raw: Event) -> (r: Option<AppEvent>)
        ensures
            r == translated(self.state.focus, raw),
    {
        match raw {
            Event::Key(key) => {
                if matches!(key.kind, KeyEventKind::Press) && is_insert_mode(self.state.focus) {
                    AppEvent::parse_insert_event(raw)
                } else {
                    AppEvent::parse_event(raw)
                }
            },
            _ => AppEvent::parse_event(raw),
        }
    }

    /// Handles one terminal event: translates it and, if it stands for an
    /// application event, handles that.
    pub fn on_terminal_event(&mut self, raw: Event)
        requires
            old(self).state.wf(),
        ensures
            final(self).state.wf(),
            match translated(old(self).state.focus, raw) {
                Some(ev) => handled(old(self).state, ev@, final(self).state),
                None => final(self).state == old(self).state,
            },
    {
        match self.translate(raw) {
            Some(ev) => self.handle(ev),
            None => {},
        }
    }

    /// Tells whether the application is to end.
    pub fn should_quit(&self) -> (r: bool)
        ensures
            r == self.state.quit,
    {
        self.state.quit
    }
}

/// The application event that a terminal event stands for under a focus.
pub open spec fn translated(focus: Focus, raw: Event) -> Option<AppEvent> {
    match raw {
        Event::Key(key) => if key.kind == KeyEventKind::Press && (focus == Focus::QueryBar
            || focus == Focus::Command) {
            insert_event(raw)
        } else {
            normal_event(raw)
        },
        _ => normal_event(raw),
    }
}

} // verus!
