//! The ingestion orchestrator: the state that the control loop owns, and
//! its transitions.
//!
//! Every transition is a plain function of the state and of what the
//! outside world handed back (a discovery result, a parse outcome). Where a
//! transition needs the outside world again it returns a `Step` saying what
//! to fetch; the control loop performs it and calls the matching transition.

use vstd::prelude::*;
use std::collections::VecDeque;
use crate::buffer::{append_batch, bump, evict, evicted_count, load_batch, MAX_CONVERSATION_ENTRIES};
use crate::json::str_eq;
use crate::merge::{continuation, merge};
use crate::paths::abbreviated_project_path;
use crate::project::{session_label_of, Agent, Project, Session};
use crate::text::with_time;
use crate::reader::ParseResult;
use crate::text::concat;
use crate::types::{views, DisplayEntry};
use crate::ui_state::{AgentListState, ConversationState, ProjectListState, SessionListState};

verus! {

/// The pane that has the keyboard.
#[derive(Clone, Copy, Debug, PartialEq, Eq, Structural)]
pub enum FocusPane {
    Projects,
    Sessions,
    Agents,
    Conversation,
}

/// A background parse that finished.
pub enum ParseMessage {
    Complete { path: String, result: Result<ParseResult, String> },
}

/// A background discovery that finished.
pub enum DiscoveryMessage {
    ProjectsDiscovered(Result<Vec<Project>, String>),
    SessionsDiscovered { project_path: String, result: Result<Vec<Session>, String> },
}

/// What the file watcher reports.
pub enum WatcherEvent {
    FileModified(String),
    Error(String),
}

/// The watcher's bookkeeping: which file it watches and how far that file
/// has been read. The watch itself is armed by the caller.
pub struct SessionWatcher {
    pub current_path: Option<String>,
    pub file_position: u64,
}

impl SessionWatcher {
    pub fn new() -> (r: Self)
        ensures
            r.current_path is None && r.file_position == 0,
    {
        SessionWatcher { current_path: None, file_position: 0 }
    }

    /// Watches `path` from its start.
    pub fn watch(&mut self, path: String)
        ensures
            final(self).current_path == Some(path),
            final(self).file_position == 0,
    {
        self.file_position = 0;
        self.current_path = Some(path);
    }

    pub fn stop(&mut self)
        ensures
            final(self).current_path is None && final(self).file_position == 0,
    {
        self.current_path = None;
        self.file_position = 0;
    }

    pub fn file_position(&self) -> (r: u64)
        ensures
            r == self.file_position,
    {
        self.file_position
    }

    pub fn set_file_position(&mut self, pos: u64)
        ensures
            final(self).file_position == pos,
            final(self).current_path == old(self).current_path,
    {
        self.file_position = pos;
    }

    pub fn current_path(&self) -> (r: Option<&String>)
        ensures
            match r {
                Some(p) => self.current_path == Some(*p),
                None => self.current_path is None,
            },
    {
        match &self.current_path {
            Some(p) => Some(p),
            None => None,
        }
    }
}

/// What the control loop has to fetch next.
pub enum Step {
    /// Nothing more.
    Done,
    /// Read the sessions of the selected project, then call `sessions_loaded`.
    LoadSessions,
    /// Read the agents of the selected session, then call `agents_loaded`.
    LoadAgents { then_conversation: bool },
    /// Read the agents of the selected session again, then call
    /// `agents_refreshed`.
    RefreshAgents,
    /// Parse the whole of `path` in the background and hand the outcome to
    /// `handle_parse_complete`.
    Parse { path: String },
}

/// Items identified by a path that survives re-scans.
pub trait Keyed {
    spec fn key_spec(&self) -> Seq<char>;

    fn key(&self) -> (r: &String)
        ensures
            r@ == self.key_spec(),
    ;
}

impl Keyed for Project {
    open spec fn key_spec(&self) -> Seq<char> {
        self.path@
    }

    fn key(&self) -> (r: &String) {
        &self.path
    }
}

impl Keyed for Session {
    open spec fn key_spec(&self) -> Seq<char> {
        self.log_path@
    }

    fn key(&self) -> (r: &String) {
        &self.log_path
    }
}

impl Keyed for Agent {
    open spec fn key_spec(&self) -> Seq<char> {
        self.log_path@
    }

    fn key(&self) -> (r: &String) {
        &self.log_path
    }
}

/// The key of the selected item, if the selection points at one.
pub open spec fn selected_key<T: Keyed>(items: Seq<T>, sel: Option<usize>) -> Option<Seq<char>> {
    match sel {
        Some(i) => if i < items.len() {
            Some(items[i as int].key_spec())
        } else {
            None
        },
        None => None,
    }
}

/// The first index of an item with key `k`.
pub open spec fn first_with_key<T: Keyed>(items: Seq<T>, k: Seq<char>) -> Option<usize>
    decreases items.len(),
{
    if items.len() == 0 {
        None
    } else {
        match first_with_key(items.drop_last(), k) {
            Some(i) => Some(i),
            None => if items.last().key_spec() == k {
                Some((items.len() - 1) as usize)
            } else {
                None
            },
        }
    }
}

/// The selection kept across a re-scan: the same item by key, else the
/// first item, else the old selection.
pub open spec fn reselect<T: Keyed>(old_items: Seq<T>, sel: Option<usize>, new_items: Seq<T>) -> Option<usize> {
    match selected_key(old_items, sel) {
        Some(k) => match first_with_key(new_items, k) {
            Some(i) => Some(i),
            None => if new_items.len() > 0 {
                Some(0usize)
            } else {
                sel
            },
        },
        None => if new_items.len() > 0 {
            Some(0usize)
        } else {
            sel
        },
    }
}

/// The re-scan fell back to the first item.
pub open spec fn fell_back<T: Keyed>(old_items: Seq<T>, sel: Option<usize>, new_items: Seq<T>) -> bool {
    new_items.len() > 0 && match selected_key(old_items, sel) {
        Some(k) => first_with_key(new_items, k) is None,
        None => true,
    }
}

fn find_key<T: Keyed>(items: &Vec<T>, k: &str) -> (r: Option<usize>)
    ensures
        r == first_with_key(items@, k@),
{
    let mut i: usize = 0;
    while i < items.len()
        invariant
            i <= items@.len(),
            first_with_key(items@.subrange(0, i as int), k@) is None,
        decreases items@.len() - i,
    {
        assert(items@.subrange(0, i + 1).drop_last() =~= items@.subrange(0, i as int));
        if str_eq(items[i].key().as_str(), k) {
            proof {
                lemma_first_with_key_extend(items@, i as int + 1, k@);
            }
            return Some(i);
        }
        i += 1;
    }
    assert(items@.subrange(0, i as int) =~= items@);
    None
}

proof fn lemma_first_with_key_extend<T: Keyed>(s: Seq<T>, n: int, k: Seq<char>)
    requires
        0 < n <= s.len(),
        first_with_key(s.subrange(0, n), k) matches Some(i) && i < n,
    ensures
        first_with_key(s, k) == first_with_key(s.subrange(0, n), k),
    decreases s.len() - n,
{
    if n < s.len() {
        assert(s.subrange(0, n + 1).drop_last() =~= s.subrange(0, n));
        lemma_first_with_key_extend(s, n + 1, k);
    } else {
        assert(s.subrange(0, n) =~= s);
    }
}

fn key_of_selected<T: Keyed>(items: &Vec<T>, sel: Option<usize>) -> (r: Option<String>)
    ensures
        crate::raw::opt_str_view(r) == selected_key(items@, sel),
{
    match sel {
        Some(i) => if i < items.len() {
            Some(items[i].key().clone())
        } else {
            None
        },
        None => None,
    }
}

/// The new selection after a re-scan, and whether it fell back to the top.
fn reconcile<T: Keyed>(old_items: &Vec<T>, sel: Option<usize>, new_items: &Vec<T>) -> (r: (Option<usize>, bool))
    ensures
        r.0 == reselect(old_items@, sel, new_items@),
        r.1 == fell_back(old_items@, sel, new_items@),
{
    let key = key_of_selected(old_items, sel);
    let found = match &key {
        Some(k) => find_key(new_items, k.as_str()),
        None => None,
    };
    match found {
        Some(i) => (Some(i), false),
        None => if new_items.len() > 0 {
            (Some(0), true)
        } else {
            (sel, false)
        },
    }
}

/// The log path of the agent that a selection points at.
pub open spec fn selected_log(agents: Seq<Agent>, sel: Option<usize>) -> Option<Seq<char>> {
    selected_key(agents, sel)
}

fn same_path(a: &Option<String>, b: &String) -> (r: bool)
    ensures
        r == (a matches Some(x) && x@ == b@),
{
    match a {
        Some(x) => str_eq(x.as_str(), b.as_str()),
        None => false,
    }
}

/// The state the control loop owns.
pub struct App {
    pub focus: FocusPane,
    pub projects: Vec<Project>,
    pub sessions: Vec<Session>,
    pub agents: Vec<Agent>,
    /// The transcript buffer, at most `MAX_CONVERSATION_ENTRIES` long.
    pub conversation: VecDeque<DisplayEntry>,
    pub project_state: ProjectListState,
    pub session_state: SessionListState,
    pub agent_state: AgentListState,
    pub conversation_state: ConversationState,
    pub watcher: SessionWatcher,
    pub show_thinking: bool,
    pub expand_tools: bool,
    pub show_help: bool,
    pub viewport_height: Option<usize>,
    pub error_message: Option<String>,
    /// Entries evicted from the front since the last selection.
    pub entries_truncated: usize,
    /// Per-line diagnostics of the current transcript.
    pub parse_errors: Vec<String>,
    /// A full parse is in flight for `parsing_path`.
    pub is_parsing: bool,
    pub parsing_path: Option<String>,
    /// An incremental parse is in flight for the watched file.
    pub is_refreshing: bool,
    /// Follow the most recently active project, session and agent.
    pub super_follow_enabled: bool,
}

/// The agent that auto-follow selects: the newest sub-agent (index 1)
/// when there is one, else the main agent.
pub open spec fn follow_target(len: nat) -> usize {
    if len > 1 {
        1
    } else {
        0
    }
}

/// `o` holds the path `p`.
pub open spec fn holds_path(o: Option<String>, p: Seq<char>) -> bool {
    match o {
        Some(x) => x@ == p,
        None => false,
    }
}

/// The error text `<what>: <detail>`.
pub open spec fn failure(what: Seq<char>, detail: Seq<char>) -> Seq<char> {
    what + detail
}

impl App {
    /// A fresh state over the given projects and the first project's
    /// sessions; nothing is loaded or watched yet.
    pub fn new(projects: Vec<Project>, sessions: Vec<Session>, super_follow_enabled: bool) -> (r: App)
        ensures
            r.projects@ == projects@,
            r.sessions@ == sessions@,
            r.agents@.len() == 0,
            r.conversation@.len() == 0,
            !r.is_parsing && !r.is_refreshing,
            r.super_follow_enabled == super_follow_enabled,
            r.focus == FocusPane::Projects,
    {
        App {
            focus: FocusPane::Projects,
            projects,
            sessions,
            agents: Vec::new(),
            conversation: VecDeque::new(),
            project_state: ProjectListState::new(),
            session_state: SessionListState::new(),
            agent_state: AgentListState::new(),
            conversation_state: ConversationState::new(),
            watcher: SessionWatcher::new(),
            show_thinking: false,
            expand_tools: true,
            show_help: false,
            viewport_height: None,
            error_message: None,
            entries_truncated: 0,
            parse_errors: Vec::new(),
            is_parsing: false,
            parsing_path: None,
            is_refreshing: false,
            super_follow_enabled,
        }
    }

    pub fn cycle_focus(&mut self)
        ensures
            final(self).focus == match old(self).focus {
                FocusPane::Projects => FocusPane::Sessions,
                FocusPane::Sessions => FocusPane::Agents,
                FocusPane::Agents => FocusPane::Conversation,
                FocusPane::Conversation => FocusPane::Projects,
            },
    {
        self.focus = match self.focus {
            FocusPane::Projects => FocusPane::Sessions,
            FocusPane::Sessions => FocusPane::Agents,
            FocusPane::Agents => FocusPane::Conversation,
            FocusPane::Conversation => FocusPane::Projects,
        };
    }

    pub fn cycle_focus_reverse(&mut self)
        ensures
            final(self).focus == match old(self).focus {
                FocusPane::Projects => FocusPane::Conversation,
                FocusPane::Sessions => FocusPane::Projects,
                FocusPane::Agents => FocusPane::Sessions,
                FocusPane::Conversation => FocusPane::Agents,
            },
    {
        self.focus = match self.focus {
            FocusPane::Projects => FocusPane::Conversation,
            FocusPane::Sessions => FocusPane::Projects,
            FocusPane::Agents => FocusPane::Sessions,
            FocusPane::Conversation => FocusPane::Agents,
        };
    }

    pub fn toggle_thinking(&mut self)
        ensures
            final(self).show_thinking == !old(self).show_thinking,
    {
        self.show_thinking = !self.show_thinking;
    }

    pub fn toggle_tool_expansion(&mut self)
        ensures
            final(self).expand_tools == !old(self).expand_tools,
    {
        self.expand_tools = !self.expand_tools;
    }

    /// Selecting an agent: disarms the watcher, resets the buffer, its
    /// eviction counter and diagnostics, and asks for a full parse of the
    /// selected agent's log. Ignored while a full parse is in flight. A tail
    /// refresh still in flight is forgotten: its result no longer matches
    /// the watched file and is dropped, so loading and tailing are never in
    /// flight together.
    pub fn load_conversation_for_selected_agent(&mut self) -> (r: Step)
        ensures
            old(self).is_parsing ==> *final(self) == *old(self) && r is Done,
            !old(self).is_parsing ==> {
                &&& final(self).watcher.current_path is None
                &&& final(self).watcher.file_position == 0
                &&& final(self).entries_truncated == 0
                &&& final(self).parse_errors@.len() == 0
                &&& final(self).conversation@.len() == 0
                &&& final(self).agents == old(self).agents
                &&& final(self).agent_state == old(self).agent_state
                &&& final(self).sessions == old(self).sessions
                &&& final(self).session_state == old(self).session_state
                &&& final(self).projects == old(self).projects
                &&& final(self).project_state == old(self).project_state
                &&& !final(self).is_refreshing
                &&& match selected_log(old(self).agents@, old(self).agent_state.selected) {
                    Some(p) => {
                        &&& final(self).is_parsing
                        &&& final(self).parsing_path matches Some(x) && x@ == p
                        &&& final(self).error_message is None
                        &&& r matches Step::Parse { path } && path@ == p
                    },
                    None => {
                        &&& !final(self).is_parsing
                        &&& final(self).parsing_path is None
                        &&& final(self).error_message == old(self).error_message
                        &&& r is Done
                    },
                }
            },
    {
        if self.is_parsing {
            return Step::Done;
        }
        self.watcher.stop();
        self.is_refreshing = false;
        self.entries_truncated = 0;
        self.parse_errors = Vec::new();
        self.conversation = VecDeque::new();
        match key_of_selected(&self.agents, self.agent_state.selected) {
            Some(path) => {
                self.is_parsing = true;
                self.parsing_path = Some(path.clone());
                self.error_message = None;
                Step::Parse { path }
            },
            None => {
                self.is_parsing = false;
                self.parsing_path = None;
                Step::Done
            },
        }
    }

    /// A tail refresh: asks for an incremental parse of the watched file
    /// from its watermark. Ignored while one is in flight or when nothing is
    /// watched.
    pub fn refresh_conversation(&mut self) -> (r: Option<(String, u64)>)
        ensures
            (old(self).is_refreshing || old(self).watcher.current_path is None) ==> *final(self) == *old(
                self,
            ) && r is None,
            (!old(self).is_refreshing && old(self).watcher.current_path is Some) ==> {
                &&& *final(self) == (App { is_refreshing: true, ..*old(self) })
                &&& r matches Some((path, pos)) && holds_path(old(self).watcher.current_path, path@) && pos
                    == old(self).watcher.file_position
            },
    {
        if self.is_refreshing {
            return None;
        }
        match &self.watcher.current_path {
            Some(p) => {
                let path = p.clone();
                let position = self.watcher.file_position;
                self.is_refreshing = true;
                Some((path, position))
            },
            None => None,
        }
    }

    /// Applies a finished parse. A result for neither the loading file nor
    /// the watched file (the selection moved on) is dropped. A full parse
    /// replaces the buffer and asks to watch the file from the returned
    /// watermark; an incremental one is stitched onto the buffer's tail.
    /// A failed tail refresh leaves the buffer as it was.
    pub fn handle_parse_complete(&mut self, path: String, result: Result<ParseResult, String>) -> (r: Option<
        (String, u64),
    >)
        ensures
            ({
                let initial = old(self).is_parsing && holds_path(old(self).parsing_path, path@);
                let refresh = old(self).is_refreshing && holds_path(old(self).watcher.current_path, path@);
                &&& (!initial && !refresh) ==> *final(self) == *old(self) && r is None
                &&& initial ==> !final(self).is_parsing && final(self).parsing_path is None
                &&& refresh ==> !final(self).is_refreshing
                &&& initial ==> match result {
                    Ok(res) => {
                        &&& views(final(self).conversation@) == evict(
                            merge(views(res.entries@)),
                            MAX_CONVERSATION_ENTRIES as nat,
                        )
                        &&& final(self).entries_truncated == bump(
                            old(self).entries_truncated,
                            evicted_count(merge(views(res.entries@)).len(), MAX_CONVERSATION_ENTRIES as nat),
                        )
                        &&& final(self).parse_errors@ == res.errors@
                        &&& final(self).conversation_state.scroll_offset == 0
                        &&& final(self).conversation_state.total_lines == 0
                        &&& final(self).conversation_state.follow_mode
                        &&& final(self).error_message is None
                        &&& r matches Some((p, pos)) && p@ == path@ && pos == res.bytes_read
                    },
                    Err(e) => {
                        &&& final(self).conversation@.len() == 0
                        &&& final(self).watcher == old(self).watcher
                        &&& final(self).error_message matches Some(m) && m@ == failure(
                            "Failed to load conversation: "@,
                            e@,
                        )
                        &&& r is None
                    },
                }
                &&& (refresh && !initial) ==> match result {
                    Ok(res) => {
                        &&& views(final(self).conversation@) == evict(
                            continuation(views(old(self).conversation@), merge(views(res.entries@))),
                            MAX_CONVERSATION_ENTRIES as nat,
                        )
                        &&& final(self).entries_truncated == bump(
                            old(self).entries_truncated,
                            evicted_count(
                                continuation(views(old(self).conversation@), merge(views(res.entries@))).len(),
                                MAX_CONVERSATION_ENTRIES as nat,
                            ),
                        )
                        &&& final(self).watcher.file_position == res.bytes_read
                        &&& final(self).watcher.current_path == old(self).watcher.current_path
                        &&& final(self).parse_errors@ == old(self).parse_errors@ + res.errors@
                        &&& r is None
                    },
                    Err(e) => {
                        &&& final(self).conversation == old(self).conversation
                        &&& final(self).entries_truncated == old(self).entries_truncated
                        &&& final(self).parse_errors == old(self).parse_errors
                        &&& final(self).watcher == old(self).watcher
                        &&& final(self).error_message matches Some(m) && m@ == failure(
                            "Failed to refresh: "@,
                            e@,
                        )
                        &&& r is None
                    },
                }
            }),
    {
        let is_initial = self.is_parsing && same_path(&self.parsing_path, &path);
        let is_refresh = self.is_refreshing && same_path(&self.watcher.current_path, &path);
        if !is_initial && !is_refresh {
            return None;
        }
        if is_initial {
            self.is_parsing = false;
            self.parsing_path = None;
        }
        if is_refresh {
            self.is_refreshing = false;
        }
        match result {
            Ok(res) => {
                let ParseResult { entries, errors, bytes_read } = res;
                if is_initial {
                    load_batch(&mut self.conversation, &mut self.entries_truncated, entries, MAX_CONVERSATION_ENTRIES);
                    self.parse_errors = errors;
                    self.conversation_state = ConversationState::new();
                    self.error_message = None;
                    Some((path, bytes_read))
                } else {
                    self.watcher.set_file_position(bytes_read);
                    let mut errors = errors;
                    self.parse_errors.append(&mut errors);
                    append_batch(&mut self.conversation, &mut self.entries_truncated, entries, MAX_CONVERSATION_ENTRIES);
                    None
                }
            },
            Err(e) => {
                if is_initial {
                    self.error_message = Some(concat("Failed to load conversation: ", e.as_str()));
                    self.conversation = VecDeque::new();
                } else {
                    self.error_message = Some(concat("Failed to refresh: ", e.as_str()));
                }
                None
            },
        }
    }

    /// The watch on a freshly loaded file is armed: tail it from `position`.
    pub fn watch_armed(&mut self, path: String, position: u64)
        ensures
            final(self).watcher.current_path == Some(path),
            final(self).watcher.file_position == position,
    {
        self.watcher.watch(path);
        self.watcher.set_file_position(position);
    }

    /// Arming the watch failed: what is loaded stays, tailing does not start.
    pub fn watch_failed(&mut self, detail: &str)
        ensures
            final(self).error_message matches Some(m) && m@ == failure("Failed to watch file: "@, detail@),
            final(self).conversation == old(self).conversation,
    {
        self.error_message = Some(concat("Failed to watch file: ", detail));
    }

    /// The selected project, if the selection points at one.
    pub fn selected_project(&self) -> (r: Option<&Project>)
        ensures
            match r {
                Some(p) => self.project_state.selected matches Some(i) && i < self.projects@.len()
                    && *p == self.projects@[i as int],
                None => !(self.project_state.selected matches Some(i) && i < self.projects@.len()),
            },
    {
        match self.project_state.selected {
            Some(i) => if i < self.projects.len() {
                Some(&self.projects[i])
            } else {
                None
            },
            None => None,
        }
    }

    /// The selected session, if the selection points at one.
    pub fn selected_session(&self) -> (r: Option<&Session>)
        ensures
            match r {
                Some(x) => self.session_state.selected matches Some(i) && i < self.sessions@.len()
                    && *x == self.sessions@[i as int],
                None => !(self.session_state.selected matches Some(i) && i < self.sessions@.len()),
            },
    {
        match self.session_state.selected {
            Some(i) => if i < self.sessions.len() {
                Some(&self.sessions[i])
            } else {
                None
            },
            None => None,
        }
    }

    /// The name of the selected project.
    pub fn selected_project_name(&self) -> (r: Option<&String>)
        ensures
            match r {
                Some(n) => self.project_state.selected matches Some(i) && i < self.projects@.len()
                    && n@ == self.projects@[i as int].name@,
                None => !(self.project_state.selected matches Some(i) && i < self.projects@.len()),
            },
    {
        match self.selected_project() {
            Some(p) => Some(&p.name),
            None => None,
        }
    }

    /// The selected project's original path, shortened for display.
    pub fn selected_project_abbreviated_path(&self) -> (r: Option<String>)
        ensures
            match r {
                Some(a) => self.project_state.selected matches Some(i) && i < self.projects@.len() && exists|
                    home: Seq<char>,
                | a@ == abbreviated_project_path(self.projects@[i as int].original_path@, home),
                None => !(self.project_state.selected matches Some(i) && i < self.projects@.len()),
            },
    {
        match self.selected_project() {
            Some(p) => Some(p.abbreviated_path()),
            None => None,
        }
    }

    /// The selected session's label with its time of day.
    pub fn selected_session_name(&self) -> (r: Option<String>)
        ensures
            match r {
                Some(n) => self.session_state.selected matches Some(i) && i < self.sessions@.len() && exists|
                    t: Seq<char>,
                | n@ == with_time(
                    session_label_of(
                        crate::raw::opt_str_view(self.sessions@[i as int].summary),
                        self.sessions@[i as int].id@,
                    ),
                    t,
                ),
                None => !(self.session_state.selected matches Some(i) && i < self.sessions@.len()),
            },
    {
        match self.selected_session() {
            Some(s) => Some(s.display_name()),
            None => None,
        }
    }

    /// The display name of the selected agent.
    pub fn selected_agent_name(&self) -> (r: Option<&String>)
        ensures
            match r {
                Some(n) => self.agent_state.selected matches Some(i) && i < self.agents@.len()
                    && n@ == self.agents@[i as int].display_name@,
                None => !(self.agent_state.selected matches Some(i) && i < self.agents@.len()),
            },
    {
        match self.agent_state.selected {
            Some(i) => if i < self.agents.len() {
                Some(&self.agents[i].display_name)
            } else {
                None
            },
            None => None,
        }
    }

    /// Selecting a project: its sessions are to be read.
    pub fn load_sessions_for_selected_project(&mut self) -> (r: Step)
        ensures
            *final(self) == *old(self),
            (old(self).project_state.selected matches Some(i) && i < old(self).projects@.len()) ==> r is LoadSessions,
            !(old(self).project_state.selected matches Some(i) && i < old(self).projects@.len()) ==> r is Done,
    {
        match self.selected_project() {
            Some(_) => Step::LoadSessions,
            None => Step::Done,
        }
    }

    /// The selected project's sessions were read: on success the first is
    /// selected and its agents are to be read, then its transcript loaded;
    /// on failure the lists below the project and the buffer are emptied.
    pub fn sessions_loaded(&mut self, result: Result<Vec<Session>, String>) -> (r: Step)
        ensures
            match result {
                Ok(v) => {
                    &&& final(self).sessions@ == v@
                    &&& final(self).session_state.selected == Some(0usize)
                    &&& (v@.len() > 0 ==> r == (Step::LoadAgents { then_conversation: true }))
                    &&& (v@.len() == 0 ==> final(self).agents@.len() == 0 && r is Done)
                },
                Err(e) => {
                    &&& final(self).error_message matches Some(m) && m@ == failure(
                        "Failed to load sessions: "@,
                        e@,
                    )
                    &&& final(self).sessions@.len() == 0
                    &&& final(self).agents@.len() == 0
                    &&& final(self).conversation@.len() == 0
                    &&& r is Done
                },
            },
    {
        match result {
            Ok(sessions) => {
                self.sessions = sessions;
                self.session_state = SessionListState::new();
                self.load_agents_for_selected_session(true)
            },
            Err(e) => {
                self.error_message = Some(concat("Failed to load sessions: ", e.as_str()));
                self.sessions = Vec::new();
                self.agents = Vec::new();
                self.conversation = VecDeque::new();
                Step::Done
            },
        }
    }

    /// Selecting a session: its agents are to be read. With no session
    /// selected the agent list is emptied (and, if asked, the transcript
    /// reloaded for the now empty selection).
    pub fn load_agents_for_selected_session(&mut self, then_conversation: bool) -> (r: Step)
        ensures
            (old(self).session_state.selected matches Some(i) && i < old(self).sessions@.len()) ==> {
                &&& *final(self) == *old(self)
                &&& r == (Step::LoadAgents { then_conversation })
            },
            !(old(self).session_state.selected matches Some(i) && i < old(self).sessions@.len()) ==> {
                &&& final(self).sessions == old(self).sessions
                &&& final(self).session_state == old(self).session_state
                &&& final(self).projects == old(self).projects
                &&& final(self).project_state == old(self).project_state
                &&& final(self).agents@.len() == 0
                &&& final(self).agent_state.selected == Some(0usize)
                &&& r is Done
            },
    {
        match self.selected_session() {
            Some(_) => Step::LoadAgents { then_conversation },
            None => {
                self.agents = Vec::new();
                self.agent_state = AgentListState::new();
                if then_conversation {
                    self.load_conversation_for_selected_agent()
                } else {
                    Step::Done
                }
            },
        }
    }

    /// The selected session's agents were read: the first is selected; on
    /// failure the agent list is emptied. Then, if asked, its transcript is
    /// loaded.
    pub fn agents_loaded(&mut self, result: Result<Vec<Agent>, String>, then_conversation: bool) -> (r: Step)
        ensures
            match result {
                Ok(v) => final(self).agents@ == v@ && final(self).agent_state.selected == Some(0usize),
                Err(e) => {
                    &&& final(self).agents@.len() == 0
                    &&& final(self).error_message matches Some(m) && m@ == failure("Failed to load agents: "@, e@)
                },
            },
            !then_conversation ==> r is Done,
            then_conversation && old(self).is_parsing ==> r is Done,
            then_conversation && !old(self).is_parsing ==> match selected_log(
                final(self).agents@,
                final(self).agent_state.selected,
            ) {
                Some(p) => {
                    &&& r matches Step::Parse { path } && path@ == p
                    &&& final(self).is_parsing
                    &&& holds_path(final(self).parsing_path, p)
                },
                None => r is Done && !final(self).is_parsing,
            },
    {
        match result {
            Ok(agents) => {
                self.agents = agents;
                self.agent_state = AgentListState::new();
            },
            Err(e) => {
                self.error_message = Some(concat("Failed to load agents: ", e.as_str()));
                self.agents = Vec::new();
            },
        }
        if then_conversation {
            self.load_conversation_for_selected_agent()
        } else {
            Step::Done
        }
    }

    /// A periodic project re-scan finished: the selection follows the same
    /// project by path, else falls back to the first; a list that was empty
    /// and is not any more has its first project's sessions read. On
    /// failure the list stays as it was.
    pub fn handle_projects_discovered(&mut self, result: Result<Vec<Project>, String>) -> (r: Step)
        ensures
            match result {
                Ok(v) => {
                    &&& final(self).projects@ == v@
                    &&& final(self).project_state.selected == reselect(
                        old(self).projects@,
                        old(self).project_state.selected,
                        v@,
                    )
                    &&& r == if fell_back(old(self).projects@, old(self).project_state.selected, v@)
                        && old(self).projects@.len() == 0 {
                        Step::LoadSessions
                    } else {
                        Step::Done
                    }
                },
                Err(e) => {
                    &&& final(self).projects == old(self).projects
                    &&& final(self).error_message matches Some(m) && m@ == failure(
                        "Failed to refresh projects: "@,
                        e@,
                    )
                    &&& r is Done
                },
            },
    {
        match result {
            Ok(projects) => {
                let was_empty = self.projects.len() == 0;
                let (sel, fallback) = reconcile(&self.projects, self.project_state.selected, &projects);
                self.projects = projects;
                self.project_state.select(sel);
                if fallback && was_empty {
                    Step::LoadSessions
                } else {
                    Step::Done
                }
            },
            Err(e) => {
                self.error_message = Some(concat("Failed to refresh projects: ", e.as_str()));
                Step::Done
            },
        }
    }

    /// A session re-scan finished. A result for a project other than the
    /// selected one is dropped. Otherwise the selection follows the same
    /// session by log path, else falls back to the first; then the selected
    /// session's agents are to be re-read.
    pub fn handle_sessions_discovered(&mut self, project_path: &str, result: Result<Vec<Session>, String>) -> (r: Step)
        ensures
            selected_key(old(self).projects@, old(self).project_state.selected) != Some(project_path@) ==> {
                &&& *final(self) == *old(self)
                &&& r is Done
            },
            selected_key(old(self).projects@, old(self).project_state.selected) == Some(project_path@) ==> {
                &&& final(self).projects == old(self).projects
                &&& match result {
                    Ok(v) => {
                        &&& final(self).sessions@ == v@
                        &&& final(self).session_state.selected == reselect(
                            old(self).sessions@,
                            old(self).session_state.selected,
                            v@,
                        )
                    },
                    Err(e) => {
                        &&& final(self).sessions == old(self).sessions
                        &&& final(self).session_state == old(self).session_state
                        &&& final(self).error_message matches Some(m) && m@ == failure(
                            "Failed to refresh sessions: "@,
                            e@,
                        )
                    },
                }
                &&& r == if final(self).session_state.selected matches Some(i) && i
                    < final(self).sessions@.len() {
                    Step::RefreshAgents
                } else {
                    Step::Done
                }
            },
    {
        let current = key_of_selected(&self.projects, self.project_state.selected);
        let same = match &current {
            Some(c) => str_eq(c.as_str(), project_path),
            None => false,
        };
        if !same {
            return Step::Done;
        }
        match result {
            Ok(sessions) => {
                let (sel, _) = reconcile(&self.sessions, self.session_state.selected, &sessions);
                self.sessions = sessions;
                self.session_state.select(sel);
            },
            Err(e) => {
                self.error_message = Some(concat("Failed to refresh sessions: ", e.as_str()));
            },
        }
        match self.selected_session() {
            Some(_) => Step::RefreshAgents,
            None => Step::Done,
        }
    }

    /// An agent re-scan finished: the selection follows the same agent by
    /// log path, else falls back to the first; a list that was empty and is
    /// not any more has its transcript loaded. On failure the list stays.
    pub fn agents_refreshed(&mut self, result: Result<Vec<Agent>, String>) -> (r: Step)
        ensures
            match result {
                Ok(v) => {
                    &&& final(self).agents@ == v@
                    &&& final(self).agent_state.selected == reselect(
                        old(self).agents@,
                        old(self).agent_state.selected,
                        v@,
                    )
                    &&& !(fell_back(old(self).agents@, old(self).agent_state.selected, v@)
                        && old(self).agents@.len() == 0) ==> r is Done
                },
                Err(e) => {
                    &&& final(self).agents == old(self).agents
                    &&& final(self).error_message matches Some(m) && m@ == failure(
                        "Failed to refresh agents: "@,
                        e@,
                    )
                    &&& r is Done
                },
            },
    {
        match result {
            Ok(agents) => {
                let was_empty = self.agents.len() == 0;
                let (sel, fallback) = reconcile(&self.agents, self.agent_state.selected, &agents);
                self.agents = agents;
                self.agent_state.select(sel);
                if fallback && was_empty {
                    self.load_conversation_for_selected_agent()
                } else {
                    Step::Done
                }
            },
            Err(e) => {
                self.error_message = Some(concat("Failed to refresh agents: ", e.as_str()));
                Step::Done
            },
        }
    }

    /// Auto-follow: moves the first selection that is not on the most
    /// recent item there (project 0, session 0, then agent 1 when sub-agents
    /// exist, else agent 0) and says what to fetch for it. Call again after
    /// that work until it returns `Done`.
    pub fn auto_switch_to_most_recent(&mut self) -> (r: Step)
        ensures
            !old(self).super_follow_enabled ==> *final(self) == *old(self) && r is Done,
            old(self).super_follow_enabled && old(self).projects@.len() > 0
                && old(self).project_state.selected != Some(0usize) ==> {
                &&& *final(self) == (App {
                    project_state: ProjectListState { selected: Some(0usize) },
                    ..*old(self)
                })
                &&& r is LoadSessions
            },
            old(self).super_follow_enabled && !(old(self).projects@.len() > 0
                && old(self).project_state.selected != Some(0usize)) && old(self).sessions@.len() > 0
                && old(self).session_state.selected != Some(0usize) ==> {
                &&& *final(self) == (App {
                    session_state: SessionListState { selected: Some(0usize) },
                    ..*old(self)
                })
                &&& r == (Step::LoadAgents { then_conversation: false })
            },
            old(self).super_follow_enabled && !(old(self).projects@.len() > 0
                && old(self).project_state.selected != Some(0usize)) && !(old(self).sessions@.len() > 0
                && old(self).session_state.selected != Some(0usize)) ==> {
                let target = follow_target(old(self).agents@.len());
                if old(self).agents@.len() > 0 && old(self).agent_state.selected != Some(target) {
                    &&& final(self).agent_state.selected == Some(target)
                    &&& final(self).agents == old(self).agents
                    &&& (!old(self).is_parsing ==> {
                        &&& r matches Step::Parse { path } && path@ == old(self).agents@[target as int].log_path@
                        &&& final(self).is_parsing
                        &&& holds_path(final(self).parsing_path, old(self).agents@[target as int].log_path@)
                    })
                    &&& (old(self).is_parsing ==> r is Done)
                } else {
                    *final(self) == *old(self) && r is Done
                }
            },
    {
        if !self.super_follow_enabled {
            return Step::Done;
        }
        if self.projects.len() > 0 && self.project_state.selected != Some(0) {
            self.project_state.select(Some(0));
            return Step::LoadSessions;
        }
        if self.sessions.len() > 0 && self.session_state.selected != Some(0) {
            self.session_state.select(Some(0));
            return self.load_agents_for_selected_session(false);
        }
        if self.agents.len() > 0 {
            let target: usize = if self.agents.len() > 1 {
                1
            } else {
                0
            };
            if self.agent_state.selected != Some(target) {
                self.agent_state.select(Some(target));
                return self.load_conversation_for_selected_agent();
            }
        }
        Step::Done
    }
}

} // verus!
