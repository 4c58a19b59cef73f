use claude_tail::app::{App, FocusPane, Step};
use claude_tail::project::{Agent, Project, Session};
use claude_tail::reader::ParseResult;
use claude_tail::themes::{bundled_themes, parse_hex, Base16Scheme, Rgb};
use claude_tail::time::Timestamp;
use claude_tail::types::DisplayEntry;
use claude_tail::ui_state::{ConversationState, ProjectListState};

fn ts(seconds: i64) -> Timestamp {
    Timestamp { seconds, nanos: 0 }
}

fn agent(id: &str) -> Agent {
    Agent {
        id: id.to_string(),
        display_name: id.to_string(),
        log_path: format!("/p/{}.jsonl", id),
        last_modified: ts(0),
        is_main: id == "main",
    }
}

fn project(name: &str) -> Project {
    Project {
        name: name.to_string(),
        path: format!("/root/{}", name),
        encoded_path: name.to_string(),
        original_path: format!("/{}", name),
        last_modified: ts(0),
    }
}

fn session(id: &str) -> Session {
    Session {
        id: id.to_string(),
        project_path: "/root/p".to_string(),
        log_path: format!("/root/p/{}.jsonl", id),
        summary: None,
        last_modified: ts(0),
    }
}

fn user(text: &str) -> DisplayEntry {
    DisplayEntry::UserMessage { text: text.to_string(), timestamp: None }
}

fn ok(entries: Vec<DisplayEntry>, bytes_read: u64) -> Result<ParseResult, String> {
    Ok(ParseResult { entries, errors: vec![], bytes_read })
}

fn loaded_app() -> App {
    let mut app = App::new(vec![project("p")], vec![session("s")], false);
    assert!(matches!(app.agents_loaded(Ok(vec![agent("main"), agent("sub")]), false), Step::Done));
    app
}

#[test]
fn selecting_an_agent_asks_for_a_full_parse_and_clears_the_buffer() {
    let mut app = loaded_app();
    app.conversation.push_back(user("old"));
    app.entries_truncated = 3;
    match app.load_conversation_for_selected_agent() {
        Step::Parse { path } => assert_eq!(path, "/p/main.jsonl"),
        _ => panic!("expected a parse"),
    }
    assert!(app.is_parsing);
    assert!(app.conversation.is_empty());
    assert_eq!(app.entries_truncated, 0);
    assert!(matches!(app.load_conversation_for_selected_agent(), Step::Done));
}

#[test]
fn full_parse_fills_the_buffer_and_arms_the_watch() {
    let mut app = loaded_app();
    let _ = app.load_conversation_for_selected_agent();
    let watch = app.handle_parse_complete("/p/main.jsonl".to_string(), ok(vec![user("a")], 42));
    assert_eq!(watch, Some(("/p/main.jsonl".to_string(), 42)));
    assert!(!app.is_parsing);
    assert_eq!(app.conversation.len(), 1);
    app.watch_armed("/p/main.jsonl".to_string(), 42);
    assert_eq!(app.refresh_conversation(), Some(("/p/main.jsonl".to_string(), 42)));
    assert_eq!(app.refresh_conversation(), None);
    let none = app.handle_parse_complete("/p/main.jsonl".to_string(), ok(vec![user("b")], 50));
    assert_eq!(none, None);
    assert_eq!(app.conversation.len(), 2);
    assert_eq!(app.watcher.file_position(), 50);
}

#[test]
fn stale_parse_results_are_dropped() {
    let mut app = loaded_app();
    let _ = app.load_conversation_for_selected_agent();
    let r = app.handle_parse_complete("/p/other.jsonl".to_string(), ok(vec![user("x")], 9));
    assert_eq!(r, None);
    assert!(app.is_parsing);
    assert!(app.conversation.is_empty());
}

#[test]
fn failed_tail_refresh_keeps_the_buffer() {
    let mut app = loaded_app();
    let _ = app.load_conversation_for_selected_agent();
    let _ = app.handle_parse_complete("/p/main.jsonl".to_string(), ok(vec![user("a")], 5));
    app.watch_armed("/p/main.jsonl".to_string(), 5);
    let _ = app.refresh_conversation();
    let r = app.handle_parse_complete("/p/main.jsonl".to_string(), Err("gone".to_string()));
    assert_eq!(r, None);
    assert_eq!(app.conversation.len(), 1);
    assert_eq!(app.error_message.as_deref(), Some("Failed to refresh: gone"));
    assert!(!app.is_refreshing);
}

#[test]
fn failed_full_parse_clears_the_buffer() {
    let mut app = loaded_app();
    let _ = app.load_conversation_for_selected_agent();
    let r = app.handle_parse_complete("/p/main.jsonl".to_string(), Err("denied".to_string()));
    assert_eq!(r, None);
    assert!(app.conversation.is_empty());
    assert_eq!(app.error_message.as_deref(), Some("Failed to load conversation: denied"));
}

#[test]
fn rescans_keep_the_selection_by_path() {
    let mut app = App::new(vec![project("a"), project("b")], vec![], false);
    app.project_state.select(Some(1));
    let step = app.handle_projects_discovered(Ok(vec![project("c"), project("b"), project("a")]));
    assert!(matches!(step, Step::Done));
    assert_eq!(app.project_state.selected(), Some(1));
    let step = app.handle_projects_discovered(Ok(vec![project("z")]));
    assert!(matches!(step, Step::Done));
    assert_eq!(app.project_state.selected(), Some(0));
    let step = app.handle_projects_discovered(Err("io".to_string()));
    assert!(matches!(step, Step::Done));
    assert_eq!(app.projects.len(), 1);
    assert_eq!(app.error_message.as_deref(), Some("Failed to refresh projects: io"));
}

#[test]
fn first_projects_after_an_empty_list_load_their_sessions() {
    let mut app = App::new(vec![], vec![], false);
    assert!(matches!(app.handle_projects_discovered(Ok(vec![project("a")])), Step::LoadSessions));
}

#[test]
fn session_rescan_for_another_project_is_dropped() {
    let mut app = App::new(vec![project("a")], vec![session("s")], false);
    let step = app.handle_sessions_discovered("/root/other", Ok(vec![]));
    assert!(matches!(step, Step::Done));
    assert_eq!(app.sessions.len(), 1);
    let step = app.handle_sessions_discovered("/root/a", Ok(vec![session("t"), session("s")]));
    assert!(matches!(step, Step::RefreshAgents));
    assert_eq!(app.session_state.selected(), Some(1));
}

#[test]
fn auto_follow_prefers_the_newest_sub_agent() {
    let mut app = App::new(vec![project("p")], vec![session("s")], true);
    let _ = app.agents_loaded(Ok(vec![agent("main"), agent("sub")]), false);
    match app.auto_switch_to_most_recent() {
        Step::Parse { path } => assert_eq!(path, "/p/sub.jsonl"),
        _ => panic!("expected a parse of the sub-agent"),
    }
    assert_eq!(app.agent_state.selected(), Some(1));
    assert!(matches!(app.auto_switch_to_most_recent(), Step::Done));
    let mut off = App::new(vec![project("p"), project("q")], vec![], false);
    off.project_state.select(Some(1));
    assert!(matches!(off.auto_switch_to_most_recent(), Step::Done));
    assert_eq!(off.project_state.selected(), Some(1));
}

#[test]
fn sessions_loaded_selects_the_first_and_reads_its_agents() {
    let mut app = App::new(vec![project("p")], vec![], false);
    assert!(matches!(app.load_sessions_for_selected_project(), Step::LoadSessions));
    let step = app.sessions_loaded(Ok(vec![session("s")]));
    assert!(matches!(step, Step::LoadAgents { then_conversation: true }));
    let step = app.sessions_loaded(Err("nope".to_string()));
    assert!(matches!(step, Step::Done));
    assert!(app.sessions.is_empty());
    assert_eq!(app.error_message.as_deref(), Some("Failed to load sessions: nope"));
}

#[test]
fn focus_cycles_through_the_panes() {
    let mut app = App::new(vec![], vec![], false);
    app.cycle_focus();
    assert_eq!(app.focus, FocusPane::Sessions);
    app.cycle_focus_reverse();
    app.cycle_focus_reverse();
    assert_eq!(app.focus, FocusPane::Conversation);
    app.toggle_thinking();
    assert!(app.show_thinking);
    app.toggle_tool_expansion();
    assert!(!app.expand_tools);
}

#[test]
fn list_selection_wraps_around() {
    let mut s = ProjectListState::new();
    s.previous(3);
    assert_eq!(s.selected(), Some(2));
    s.next(3);
    assert_eq!(s.selected(), Some(0));
    s.next(0);
    assert_eq!(s.selected(), Some(0));
    s.last(4);
    assert_eq!(s.selected(), Some(3));
    s.select(None);
    s.next(2);
    assert_eq!(s.selected(), Some(0));
    s.first();
    assert_eq!(s.selected(), Some(0));
}

#[test]
fn conversation_scrolling_is_clamped() {
    let mut c = ConversationState::new();
    assert!(c.follow_mode);
    c.total_lines = 30;
    c.scroll_down(25, 10);
    assert_eq!(c.scroll_offset, 20);
    assert!(!c.follow_mode);
    c.scroll_up(50);
    assert_eq!(c.scroll_offset, 0);
    c.scroll_to_bottom(10);
    assert_eq!(c.scroll_offset, 20);
    assert!(c.follow_mode);
    c.toggle_follow();
    assert!(!c.follow_mode);
    c.scroll_down(usize::MAX, 10);
    assert_eq!(c.scroll_offset, 20);
    c.scroll_to_top();
    assert_eq!(c.scroll_offset, 0);
}

#[test]
fn hex_colours() {
    assert_eq!(parse_hex("#1a2B3c"), Ok(Rgb { r: 0x1a, g: 0x2b, b: 0x3c }));
    assert_eq!(parse_hex("ffffff"), Ok(Rgb { r: 255, g: 255, b: 255 }));
    assert_eq!(parse_hex("##000000"), Ok(Rgb { r: 0, g: 0, b: 0 }));
    assert!(parse_hex("12345").is_err());
    assert!(parse_hex("12345g").is_err());
    assert_eq!(parse_hex("+f+f+f"), Ok(Rgb { r: 15, g: 15, b: 15 }));
}

#[test]
fn scheme_palette() {
    let c = |s: &str| s.to_string();
    let mut scheme = Base16Scheme {
        scheme: c("t"),
        author: c(""),
        base00: c("000000"),
        base01: c("010101"),
        base02: c("020202"),
        base03: c("030303"),
        base04: c("040404"),
        base05: c("050505"),
        base06: c("060606"),
        base07: c("zz"),
        base08: c("080808"),
        base09: c("090909"),
        base0a: c("0a0a0a"),
        base0b: c("0b0b0b"),
        base0c: c("0c0c0c"),
        base0d: c("0d0d0d"),
        base0e: c("0e0e0e"),
        base0f: c("zz"),
    };
    let p = scheme.palette().ok().expect("palette");
    assert_eq!(p.cyan, Rgb { r: 12, g: 12, b: 12 });
    assert_eq!(p.purple, Rgb { r: 14, g: 14, b: 14 });
    scheme.base09 = c("nope");
    assert!(scheme.palette().is_err());
}

#[test]
fn bundled_theme_names() {
    assert_eq!(
        bundled_themes(),
        vec!["tokyonight-storm", "catppuccin-mocha", "dracula", "nord", "gruvbox-dark", "solarized-dark"]
    );
}

#[test]
fn agent_and_watch_failures_are_reported() {
    let mut app = App::new(vec![project("p")], vec![session("s")], false);
    let step = app.agents_loaded(Err("no dir".to_string()), false);
    assert!(matches!(step, Step::Done));
    assert!(app.agents.is_empty());
    assert_eq!(app.error_message.as_deref(), Some("Failed to load agents: no dir"));

    let _ = app.agents_loaded(Ok(vec![agent("main")]), false);
    let step = app.agents_refreshed(Err("busy".to_string()));
    assert!(matches!(step, Step::Done));
    assert_eq!(app.agents.len(), 1);
    assert_eq!(app.error_message.as_deref(), Some("Failed to refresh agents: busy"));

    app.conversation.push_back(user("kept"));
    app.watch_failed("too many watches");
    assert_eq!(app.error_message.as_deref(), Some("Failed to watch file: too many watches"));
    assert_eq!(app.conversation.len(), 1);

    let step = app.handle_sessions_discovered("/root/p", Err("gone".to_string()));
    assert!(matches!(step, Step::RefreshAgents));
    assert_eq!(app.error_message.as_deref(), Some("Failed to refresh sessions: gone"));
}

#[test]
fn agents_appearing_in_an_empty_list_load_the_first_transcript() {
    let mut app = App::new(vec![project("p")], vec![session("s")], false);
    match app.agents_refreshed(Ok(vec![agent("main")])) {
        Step::Parse { path } => assert_eq!(path, "/p/main.jsonl"),
        _ => panic!("expected a parse"),
    }
}

#[test]
fn selecting_forgets_an_in_flight_tail_refresh() {
    let mut app = loaded_app();
    let _ = app.load_conversation_for_selected_agent();
    let _ = app.handle_parse_complete("/p/main.jsonl".to_string(), ok(vec![user("a")], 5));
    app.watch_armed("/p/main.jsonl".to_string(), 5);
    assert!(app.refresh_conversation().is_some());
    app.agent_state.select(Some(1));
    let _ = app.load_conversation_for_selected_agent();
    assert!(app.is_parsing && !app.is_refreshing);
    let late = app.handle_parse_complete("/p/main.jsonl".to_string(), ok(vec![user("late")], 9));
    assert_eq!(late, None);
    assert!(app.conversation.is_empty());
}

#[test]
fn auto_follow_moves_sessions_back_to_the_newest() {
    let mut app = App::new(vec![project("p")], vec![session("s"), session("t")], true);
    app.session_state.select(Some(1));
    assert!(matches!(app.auto_switch_to_most_recent(), Step::LoadAgents { then_conversation: false }));
    assert_eq!(app.session_state.selected(), Some(0));
    let _ = app.agents_loaded(Ok(vec![agent("main")]), false);
    assert!(matches!(app.auto_switch_to_most_recent(), Step::Done));
    assert_eq!(app.agent_state.selected(), Some(0));
}
