use claude_tail::json::{get_field, get_str, JsonValue};
use claude_tail::reader::{decode_line, parse_jsonl_file};
use claude_tail::types::DisplayEntry;

fn entries_of(json: &str) -> Vec<DisplayEntry> {
    decode_line(json.as_bytes()).expect("a decodable line")
}

fn texts(es: &[DisplayEntry]) -> Vec<String> {
    es.iter()
        .map(|e| match e {
            DisplayEntry::UserMessage { text, .. } => format!("user:{}", text),
            DisplayEntry::AssistantText { text, .. } => format!("assistant:{}", text),
            DisplayEntry::ToolCall { name, id, input, .. } => format!("call:{}:{}:{}", name, id, input),
            DisplayEntry::ToolResult { tool_use_id, content, is_error, .. } => {
                format!("result:{}:{}:{}", tool_use_id, content, is_error)
            }
            DisplayEntry::Thinking { text, collapsed, .. } => format!("thinking:{}:{}", text, collapsed),
            DisplayEntry::HookEvent { event, hook_name, command, .. } => {
                format!("hook:{}:{:?}:{:?}", event, hook_name, command)
            }
            DisplayEntry::AgentSpawn { agent_type, description, .. } => format!("spawn:{}:{}", agent_type, description),
        })
        .collect()
}

#[test]
fn user_text_blocks_are_joined_and_flushed_before_results() {
    let es = entries_of(
        r#"{"type":"user","message":{"content":[{"type":"text","text":"a"},{"type":"text","text":"b"},{"type":"tool_result","tool_use_id":"t","content":[{"type":"text","text":"x"},{"type":"image"},{"type":"text","text":"y"}],"is_error":true},{"type":"text","text":"c"}]}}"#,
    );
    assert_eq!(texts(&es), vec!["user:a\nb", "result:t:x\ny:true", "user:c"]);
}

#[test]
fn empty_user_text_gives_no_entry() {
    assert!(entries_of(r#"{"type":"user","message":{"content":""}}"#).is_empty());
}

#[test]
fn assistant_blocks_keep_their_order_and_drop_unknown_ones() {
    let es = entries_of(
        r#"{"type":"assistant","message":{"content":[{"type":"thinking","thinking":"hmm","signature":"s"},{"type":"image"},{"type":"text","text":"hi"},{"type":"tool_use","id":"1","name":"Read","input":[1]}]}}"#,
    );
    assert_eq!(texts(&es), vec!["thinking:hmm:true", "assistant:hi", "call:Read:1:[\n  1\n]"]);
}

#[test]
fn empty_assistant_text_still_gives_an_entry() {
    assert_eq!(texts(&entries_of(r#"{"type":"assistant","message":{"content":""}}"#)), vec!["assistant:"]);
}

#[test]
fn progress_payload_yields_message_hook_and_spawn_entries() {
    let es = entries_of(
        r#"{"type":"progress","data":{"message":{"role":"user","content":[{"type":"tool_result","tool_use_id":"q","content":"ok"},{"type":"tool_use"}]},"hookEvent":"PostToolUse","hookName":"PostToolUse:Read","command":"callback","agentType":"Explore"}}"#,
    );
    assert_eq!(
        texts(&es),
        vec![
            "result:q:ok:false",
            "call:unknown::",
            "hook:PostToolUse:Some(\"PostToolUse:Read\"):Some(\"callback\")",
            "spawn:Explore:",
        ]
    );
}

#[test]
fn progress_message_with_other_role_is_ignored() {
    let es = entries_of(
        r#"{"type":"progress","data":{"message":{"role":"system","content":[{"type":"text","text":"x"}]},"agentType":"Plan","description":"d"}}"#,
    );
    assert_eq!(texts(&es), vec!["spawn:Plan:d"]);
}

#[test]
fn progress_tool_result_reads_only_text_items() {
    let es = entries_of(
        r#"{"type":"progress","data":{"message":{"role":"assistant","content":[{"type":"tool_result","tool_use_id":"z","is_error":true,"content":[{"type":"text","text":"a"},{"text":"b"},{"type":"text","text":"c"}]},{"type":"text","text":"t"},{"type":"thinking"}]}}}"#,
    );
    assert_eq!(texts(&es), vec!["result:z:a\nc:true", "assistant:t"]);
}

#[test]
fn other_tags_yield_nothing_and_no_diagnostic() {
    let content = b"{\"type\":\"summary\",\"summary\":\"x\"}\n";
    let parsed = parse_jsonl_file(content);
    assert!(parsed.entries.is_empty());
    assert!(parsed.errors.is_empty());
}

#[test]
fn json_members_are_looked_up_by_key() {
    let v = JsonValue::Object(vec![
        ("a".to_string(), JsonValue::Str("x".to_string())),
        ("b".to_string(), JsonValue::Bool(true)),
        ("a".to_string(), JsonValue::Str("later".to_string())),
    ]);
    assert_eq!(get_str(&v, "a").map(|s| s.as_str()), Some("x"));
    assert!(get_str(&v, "b").is_none());
    assert!(matches!(get_field(&v, "b"), Some(JsonValue::Bool(true))));
    assert!(get_field(&v, "missing").is_none());
    assert!(get_field(&JsonValue::Null, "a").is_none());
}

#[test]
fn json_syntax_errors_carry_serde_json_text() {
    let e = decode_line(b"{\"a\":").unwrap_err();
    assert!(e.contains("EOF"), "{}", e);
}

#[test]
fn schema_errors_name_the_field() {
    let e = decode_line(br#"{"type":"assistant","message":{"content":[{"type":"tool_use","id":"1","name":"x"}]}}"#).unwrap_err();
    assert_eq!(e, "invalid or missing field message");
}

#[test]
fn tool_inputs_are_pretty_printed() {
    let es = entries_of(r#"{"type":"assistant","message":{"content":[{"type":"tool_use","id":"1","name":"Edit","input":{"b":[1,true],"a":"s"}}]}}"#);
    assert_eq!(texts(&es), vec!["call:Edit:1:{\n  \"a\": \"s\",\n  \"b\": [\n    1,\n    true\n  ]\n}"]);
}
