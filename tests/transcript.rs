use std::collections::VecDeque;

use claude_tail::buffer::{append_batch, apply_limit, load_batch, MAX_CONVERSATION_ENTRIES};
use claude_tail::merge::{continuation_merge, merge_tool_results};
use claude_tail::reader::{decimal_string, parse_jsonl_file, parse_jsonl_from_position};
use claude_tail::time::Timestamp;
use claude_tail::types::{DisplayEntry, ToolCallResult};

const TOOL_USE_LINE: &str = r#"{"type":"assistant","message":{"role":"assistant","content":[{"type":"tool_use","id":"t1","name":"Bash","input":{"command":"ls"}}]}}"#;
const TOOL_RESULT_LINE: &str = r#"{"type":"user","message":{"role":"user","content":[{"type":"tool_result","tool_use_id":"t1","content":"file.txt"}]}}"#;

fn line(s: &str) -> Vec<u8> {
    let mut v = s.as_bytes().to_vec();
    v.push(b'\n');
    v
}

fn user(text: &str) -> DisplayEntry {
    DisplayEntry::UserMessage { text: text.to_string(), timestamp: None }
}

fn call(id: &str) -> DisplayEntry {
    DisplayEntry::ToolCall {
        name: "Bash".to_string(),
        input: "{}".to_string(),
        id: id.to_string(),
        timestamp: None,
        result: None,
    }
}

fn result(id: &str, content: &str) -> DisplayEntry {
    DisplayEntry::ToolResult {
        tool_use_id: id.to_string(),
        content: content.to_string(),
        is_error: false,
        timestamp: None,
    }
}

fn describe(e: &DisplayEntry) -> String {
    match e {
        DisplayEntry::UserMessage { text, .. } => format!("user:{}", text),
        DisplayEntry::AssistantText { text, .. } => format!("assistant:{}", text),
        DisplayEntry::ToolCall { name, id, result, input, .. } => match result {
            Some(r) => format!("call:{}:{}:{}=>{}:{}", name, id, input, r.content, r.is_error),
            None => format!("call:{}:{}:{}", name, id, input),
        },
        DisplayEntry::ToolResult { tool_use_id, content, is_error, .. } => {
            format!("result:{}:{}:{}", tool_use_id, content, is_error)
        }
        DisplayEntry::Thinking { text, collapsed, .. } => format!("thinking:{}:{}", text, collapsed),
        DisplayEntry::HookEvent { event, hook_name, command, .. } => {
            format!("hook:{}:{:?}:{:?}", event, hook_name, command)
        }
        DisplayEntry::AgentSpawn { agent_type, description, .. } => {
            format!("spawn:{}:{}", agent_type, description)
        }
    }
}

fn describe_all<'a>(es: impl IntoIterator<Item = &'a DisplayEntry>) -> Vec<String> {
    es.into_iter().map(describe).collect()
}

#[test]
fn tool_call_and_result_in_two_writes_merge_into_one_entry() {
    let first = line(TOOL_USE_LINE);
    let parsed = parse_jsonl_file(&first);
    assert_eq!(parsed.bytes_read, first.len() as u64);
    assert!(parsed.errors.is_empty());
    let mut buf = VecDeque::new();
    let mut evicted = 0usize;
    load_batch(&mut buf, &mut evicted, parsed.entries, MAX_CONVERSATION_ENTRIES);

    let second = line(TOOL_RESULT_LINE);
    let tail = parse_jsonl_from_position(&second, first.len() as u64);
    assert_eq!(tail.bytes_read, (first.len() + second.len()) as u64);
    append_batch(&mut buf, &mut evicted, tail.entries, MAX_CONVERSATION_ENTRIES);

    assert_eq!(buf.len(), 1);
    match &buf[0] {
        DisplayEntry::ToolCall { name, input, id, result: Some(r), .. } => {
            assert_eq!(name, "Bash");
            assert_eq!(id, "t1");
            assert_eq!(input, "{\n  \"command\": \"ls\"\n}");
            assert_eq!(r.content, "file.txt");
            assert!(!r.is_error);
        }
        other => panic!("unexpected entry {:?}", other),
    }
}

#[test]
fn blank_invalid_and_valid_line_give_one_entry_and_one_diagnostic() {
    let mut content = Vec::new();
    content.extend(line("   "));
    content.extend(line("{not json"));
    content.extend(line(r#"{"type":"user","message":{"role":"user","content":"hello"}}"#));
    let parsed = parse_jsonl_file(&content);
    assert_eq!(describe_all(&parsed.entries), vec!["user:hello"]);
    assert_eq!(parsed.errors.len(), 1);
    assert!(parsed.errors[0].starts_with("Line 2: "), "{}", parsed.errors[0]);
    assert_eq!(parsed.bytes_read, content.len() as u64);
}

#[test]
fn incremental_diagnostics_are_labelled_and_numbered_within_the_read() {
    let mut content = Vec::new();
    content.extend(line(r#"{"type":"user"}"#));
    content.extend(line("[1, 2"));
    let parsed = parse_jsonl_from_position(&content, 100);
    assert!(parsed.entries.is_empty());
    assert_eq!(parsed.errors.len(), 1);
    assert!(parsed.errors[0].starts_with("Incremental line 2: "), "{}", parsed.errors[0]);
    assert_eq!(parsed.bytes_read, 100 + content.len() as u64);
}

#[test]
fn schema_mismatch_is_a_diagnostic_naming_the_field() {
    let mut content = Vec::new();
    content.extend(line(r#"{"type":"user","message":{"role":"user","content":[{"type":"text"}]}}"#));
    content.extend(line(r#"{"message":{}}"#));
    content.extend(line(r#"{"type":"user","timestamp":"yesterday"}"#));
    content.extend(line(r#"{"type":"user","session_id":7}"#));
    let parsed = parse_jsonl_file(&content);
    assert!(parsed.entries.is_empty());
    assert_eq!(
        parsed.errors,
        vec![
            "Line 1: invalid or missing field message",
            "Line 2: invalid or missing field type",
            "Line 3: invalid or missing field timestamp",
            "Line 4: invalid or missing field session_id",
        ]
    );
}

#[test]
fn unterminated_line_is_held_back_then_read_once_completed() {
    let mut content = line(r#"{"type":"user","message":{"role":"user","content":"one"}}"#);
    let complete = content.len();
    content.extend_from_slice(br#"{"type":"user","message":{"role":"user","con"#);
    let parsed = parse_jsonl_file(&content);
    assert_eq!(describe_all(&parsed.entries), vec!["user:one"]);
    assert!(parsed.errors.is_empty());
    assert_eq!(parsed.bytes_read, complete as u64);

    let rest = line(r#"{"type":"user","message":{"role":"user","content":"two"}}"#);
    let again = parse_jsonl_from_position(&rest, parsed.bytes_read);
    assert_eq!(describe_all(&again.entries), vec!["user:two"]);
    assert_eq!(again.bytes_read, (complete + rest.len()) as u64);
}

#[test]
fn trailing_blank_fragment_is_consumed() {
    let mut content = line(r#"{"type":"user","message":{"role":"user","content":"x"}}"#);
    content.extend_from_slice(b"  \t");
    let parsed = parse_jsonl_file(&content);
    assert_eq!(parsed.bytes_read, content.len() as u64);
}

#[test]
fn reading_in_two_parts_matches_reading_at_once() {
    let mut whole = Vec::new();
    whole.extend(line(r#"{"type":"user","message":{"role":"user","content":"start"}}"#));
    whole.extend(line(TOOL_USE_LINE));
    whole.extend(line(""));
    whole.extend(line(TOOL_RESULT_LINE));
    whole.extend(line(r#"{"type":"assistant","message":{"content":"done"}}"#));
    let at_once = merge_tool_results(parse_jsonl_file(&whole).entries);
    let expected = describe_all(&at_once);
    assert_eq!(expected.len(), 3);
    for k in 0..=whole.len() {
        let first = parse_jsonl_file(&whole[..k]);
        let pos = first.bytes_read as usize;
        let second = parse_jsonl_from_position(&whole[pos..], first.bytes_read);
        let mut buf: VecDeque<DisplayEntry> = merge_tool_results(first.entries).into_iter().collect();
        continuation_merge(&mut buf, merge_tool_results(second.entries));
        assert_eq!(describe_all(&buf), expected, "split at {}", k);
    }
}

#[test]
fn merging_twice_equals_merging_once() {
    let entries = vec![call("a"), result("a", "x"), result("a", "y"), call("b"), user("u"), result("b", "z")];
    let once = merge_tool_results(entries);
    let once_text = describe_all(&once);
    assert_eq!(
        once_text,
        vec!["call:Bash:a:{}=>x:false", "result:a:y:false", "call:Bash:b:{}", "user:u", "result:b:z:false"]
    );
    let twice = merge_tool_results(once);
    assert_eq!(describe_all(&twice), once_text);
}

#[test]
fn already_resolved_call_does_not_absorb_another_result() {
    let resolved = DisplayEntry::ToolCall {
        name: "Read".to_string(),
        input: String::new(),
        id: "r".to_string(),
        timestamp: None,
        result: Some(ToolCallResult { content: "first".to_string(), is_error: true }),
    };
    let merged = merge_tool_results(vec![resolved, result("r", "second")]);
    assert_eq!(describe_all(&merged), vec!["call:Read:r:=>first:true", "result:r:second:false"]);
}

#[test]
fn mismatched_result_id_stays_separate() {
    let merged = merge_tool_results(vec![call("a"), result("b", "x")]);
    assert_eq!(describe_all(&merged), vec!["call:Bash:a:{}", "result:b:x:false"]);
}

#[test]
fn continuation_folds_leading_result_into_trailing_call() {
    let mut buf: VecDeque<DisplayEntry> = vec![user("u"), call("c")].into_iter().collect();
    continuation_merge(&mut buf, vec![result("c", "out"), user("v")]);
    assert_eq!(describe_all(&buf), vec!["user:u", "call:Bash:c:{}=>out:false", "user:v"]);

    let mut other: VecDeque<DisplayEntry> = vec![call("c")].into_iter().collect();
    continuation_merge(&mut other, vec![result("d", "out")]);
    assert_eq!(describe_all(&other), vec!["call:Bash:c:{}", "result:d:out:false"]);
}

#[test]
fn eviction_keeps_the_newest_entries_and_counts_the_rest() {
    let entries: Vec<DisplayEntry> = (0..5).map(|i| user(&i.to_string())).collect();
    let mut buf = VecDeque::new();
    let mut evicted = 0usize;
    append_batch(&mut buf, &mut evicted, entries, 3);
    assert_eq!(describe_all(&buf), vec!["user:2", "user:3", "user:4"]);
    assert_eq!(evicted, 2);
}

#[test]
fn eviction_over_the_default_capacity() {
    let n = MAX_CONVERSATION_ENTRIES + 7;
    let entries: Vec<DisplayEntry> = (0..n).map(|i| user(&i.to_string())).collect();
    let mut buf = VecDeque::new();
    let mut evicted = 0usize;
    load_batch(&mut buf, &mut evicted, entries, MAX_CONVERSATION_ENTRIES);
    assert_eq!(buf.len(), MAX_CONVERSATION_ENTRIES);
    assert_eq!(evicted, 7);
    assert_eq!(describe(&buf[0]), "user:7");
}

#[test]
fn limit_leaves_a_small_buffer_alone() {
    let mut buf: VecDeque<DisplayEntry> = vec![user("a")].into_iter().collect();
    let mut evicted = 4usize;
    apply_limit(&mut buf, &mut evicted, 10);
    assert_eq!(buf.len(), 1);
    assert_eq!(evicted, 4);
}

#[test]
fn decimal_text_of_line_numbers() {
    assert_eq!(decimal_string(0), "0");
    assert_eq!(decimal_string(7), "7");
    assert_eq!(decimal_string(1042), "1042");
}

#[test]
fn entry_timestamp_comes_from_its_line() {
    let content = line(r#"{"type":"user","timestamp":"2024-01-01T00:00:01.5Z","message":{"content":"hi"}}"#);
    let parsed = parse_jsonl_file(&content);
    assert_eq!(parsed.entries.len(), 1);
    assert_eq!(parsed.entries[0].timestamp(), Some(Timestamp { seconds: 1704067201, nanos: 500_000_000 }));
}
