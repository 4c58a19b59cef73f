use claude_tail::paths::{abbreviate_path, abbreviate_project_path, truncate_line};
use claude_tail::project::{
    decode_project_path, last_entry_timestamp, parse_agent_filename, project_name, project_recency,
    rank_agents, rank_projects, recency_of, summary_for, Agent, Project, Session,
};
use claude_tail::time::Timestamp;
use claude_tail::wrap::wrap_text;

fn ts(seconds: i64) -> Timestamp {
    Timestamp { seconds, nanos: 0 }
}

fn agent(id: &str, seconds: i64, is_main: bool) -> Agent {
    Agent {
        id: id.to_string(),
        display_name: id.to_string(),
        log_path: format!("/p/{}.jsonl", id),
        last_modified: ts(seconds),
        is_main,
    }
}

#[test]
fn agents_rank_main_first_then_newest_sub_agent() {
    let main = agent("main", 1, true);
    let subs = vec![agent("a", 20, false), agent("b", 50, false), agent("c", 35, false)];
    let ranked = rank_agents(main, subs);
    let ids: Vec<&str> = ranked.iter().map(|a| a.id.as_str()).collect();
    assert_eq!(ids, vec!["main", "b", "c", "a"]);
    assert!(ranked[0].is_main);
}

#[test]
fn projects_rank_newest_first_keeping_ties_in_order() {
    let p = |name: &str, s: i64| Project {
        name: name.to_string(),
        path: format!("/r/{}", name),
        encoded_path: name.to_string(),
        original_path: format!("/{}", name),
        last_modified: ts(s),
    };
    let ranked = rank_projects(vec![p("x", 5), p("y", 9), p("z", 5)]);
    let names: Vec<&str> = ranked.iter().map(|p| p.name.as_str()).collect();
    assert_eq!(names, vec!["y", "x", "z"]);
}

#[test]
fn agent_file_names() {
    let typed = parse_agent_filename("agent-Explore-a356e17").unwrap();
    assert_eq!((typed.id.as_str(), typed.display_name.as_str()), ("a356e17", "Explore"));
    let plain = parse_agent_filename("agent-a356e17").unwrap();
    assert_eq!((plain.id.as_str(), plain.display_name.as_str()), ("a356e17", "a356e17"));
    let numeric = parse_agent_filename("agent-123-456").unwrap();
    assert_eq!((numeric.id.as_str(), numeric.display_name.as_str()), ("123-456", "123-456"));
    let trailing = parse_agent_filename("agent-Plan-").unwrap();
    assert_eq!(trailing.id, "Plan-");
    assert!(parse_agent_filename("session-1").is_none());
    assert!(parse_agent_filename("agent").is_none());
}

#[test]
fn encoded_project_names_decode_dashes_as_slashes() {
    let (name, path) = decode_project_path("-Users-me-src-project");
    assert_eq!(path, "/Users/me/src/project");
    assert_eq!(name, "project");
    let (name, path) = decode_project_path("..");
    assert_eq!(path, "..");
    assert_eq!(name, "..");
    assert_eq!(project_name("/a/b/", "enc"), "b");
    assert_eq!(project_name("/a/b/.", "enc"), "b");
    assert_eq!(project_name("/", "enc"), "enc");
}

#[test]
fn recency_comes_from_the_last_non_blank_line() {
    let content = b"{\"timestamp\":\"2024-01-01T00:00:00Z\"}\n{\"timestamp\":\"2024-01-02T00:00:00Z\",\"type\":\"user\"}\n\n  \n";
    assert_eq!(last_entry_timestamp(content), Some(ts(1704153600)));
    assert_eq!(recency_of(content, ts(3)), ts(1704153600));
    assert_eq!(recency_of(b"{\"type\":\"user\"}\n", ts(3)), ts(3));
    assert_eq!(recency_of(b"{\"timestamp\":\"1969-12-31T00:00:00Z\"}", ts(3)), ts(3));
    assert_eq!(recency_of(b"not json", ts(4)), ts(4));
    assert_eq!(recency_of(b"", ts(5)), ts(5));
}

#[test]
fn project_recency_is_the_latest_session_or_the_directory_time() {
    assert_eq!(project_recency(&vec![ts(3), ts(9), ts(4)], Some(ts(1))), ts(9));
    assert_eq!(project_recency(&vec![], Some(ts(7))), ts(7));
    assert_eq!(project_recency(&vec![ts(0)], None), ts(0));
}

#[test]
fn the_last_index_entry_for_a_session_wins() {
    let index = vec![
        ("s1".to_string(), Some("first".to_string())),
        ("s2".to_string(), None),
        ("s1".to_string(), Some("second".to_string())),
    ];
    assert_eq!(summary_for(&index, "s1"), Some("second".to_string()));
    assert_eq!(summary_for(&index, "s2"), None);
    assert_eq!(summary_for(&index, "s3"), None);
}

#[test]
fn session_labels() {
    let s = |id: &str, summary: Option<&str>| Session {
        id: id.to_string(),
        project_path: "/p".to_string(),
        log_path: format!("/p/{}.jsonl", id),
        summary: summary.map(|x| x.to_string()),
        last_modified: ts(0),
    };
    assert_eq!(s("0123456789", None).short_id(), "01234567...");
    assert_eq!(s("short", None).short_id(), "short");
    assert_eq!(s("0123456789", None).label(), "01234567...");
    let long = "a".repeat(41);
    assert_eq!(s("x", Some(&long)).label(), format!("{}...", "a".repeat(37)));
    assert_eq!(s("x", Some("fix bug")).label(), "fix bug");
    let shown = s("x", Some("fix bug")).display_name();
    assert!(shown.starts_with("fix bug ("), "{}", shown);
    assert!(shown.ends_with(')'));
}

#[test]
fn agent_label_with_time() {
    let shown = agent("Explore", 0, false).display_with_timestamp();
    assert!(shown.starts_with("Explore ("), "{}", shown);
    assert!(shown.ends_with(')'));
}

#[test]
fn project_paths_are_shortened_relative_to_home() {
    assert_eq!(abbreviate_project_path("/Users/me/src/co/proj", "/Users/me"), "~/s/c/proj");
    assert_eq!(abbreviate_project_path("/Users/jeffery/utter/src/proj", "/Users/jeffery.utter"), "~/s/proj");
    assert_eq!(abbreviate_project_path("/Users/jeffery/utter", "/Users/jeffery.utter"), "~");
    assert_eq!(abbreviate_project_path("/opt/x/y/z", "/home/me"), "/o/x/y/z");
    assert_eq!(abbreviate_project_path("/opt/x", ""), "/o/x");
    assert_eq!(abbreviate_project_path("opt/x", ""), "opt/x");
    assert_eq!(abbreviate_project_path("/Users/me", "/Users/me"), "~");
}

#[test]
fn file_paths_keep_their_last_two_pieces() {
    assert_eq!(abbreviate_path("/home/me/src/proj/src/main.rs", "/home/me"), "~/s/p/src/main.rs");
    assert_eq!(abbreviate_path("/a/b", "/home/me"), "/a/b");
    assert_eq!(abbreviate_path("/usr/local/lib/x/y", ""), "/u/l/l/x/y");
}

#[test]
fn long_lines_are_cut_with_an_ellipsis() {
    assert_eq!(truncate_line("abcdef", 10), "abcdef");
    assert_eq!(truncate_line("abcdef", 4), "abc\u{2026}");
    assert_eq!(truncate_line("abcdef", 1), "\u{2026}");
    assert_eq!(truncate_line("h\u{e9}llo w\u{f6}rld", 5), "h\u{e9}ll\u{2026}");
}

#[test]
fn text_wraps_word_by_word_to_the_width() {
    assert_eq!(wrap_text("", 10), vec![""]);
    assert_eq!(wrap_text("short\nline two", 20), vec!["short", "line two"]);
    assert_eq!(wrap_text("aaa bbb ccc", 7), vec!["aaa bbb", "ccc"]);
    assert_eq!(wrap_text("x\r\ny\n", 5), vec!["x", "y"]);
    assert_eq!(wrap_text("a\n\nb", 5), vec!["a", "", "b"]);
    assert_eq!(wrap_text("\u{65e5}\u{672c} \u{8a9e}", 5), vec!["\u{65e5}\u{672c}", "\u{8a9e}"]);
    assert_eq!(wrap_text("   ", 1), vec![""]);
}

#[test]
fn session_ids_and_summaries_are_cut_by_bytes() {
    let s = |id: &str, summary: Option<&str>| Session {
        id: id.to_string(),
        project_path: "/p".to_string(),
        log_path: "/p/x.jsonl".to_string(),
        summary: summary.map(|x| x.to_string()),
        last_modified: ts(0),
    };
    assert_eq!(s("0123456789ab", None).short_id(), "01234567...");
    assert_eq!(s("\u{e9}\u{e9}\u{e9}\u{e9}\u{e9}", None).short_id(), "\u{e9}\u{e9}\u{e9}\u{e9}...");
    assert_eq!(s("0123456\u{e9}xyz", None).short_id(), "0123456...");
    assert_eq!(s("\u{e9}\u{e9}\u{e9}\u{e9}", None).short_id(), "\u{e9}\u{e9}\u{e9}\u{e9}");
    let wide = "\u{e9}".repeat(30);
    assert_eq!(s("x", Some(&wide)).label(), format!("{}...", "\u{e9}".repeat(19)));
    let exact = "a".repeat(40);
    assert_eq!(s("x", Some(&exact)).label(), exact);
    let mixed = format!("{}\u{20ac}{}", "a".repeat(35), "b".repeat(10));
    assert_eq!(s("x", Some(&mixed)).label(), format!("{}\u{20ac}...", "a".repeat(35)));
}

#[test]
fn recency_comes_from_the_last_line_that_names_an_instant() {
    let content = b"{\"timestamp\":\"2024-01-01T00:00:00Z\"}\n{\"type\":\"summary\"}\n{\"timest";
    assert_eq!(last_entry_timestamp(content), Some(ts(1704067200)));
    assert_eq!(recency_of(content, ts(3)), ts(1704067200));
}
