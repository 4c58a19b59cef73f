//! Turns one decoded transcript line into display entries.
//!
//! `user` and `assistant` lines go through their typed message; `progress`
//! lines are read from their free-form payload, which may embed a message,
//! a hook event and an agent spawn at once. Every entry carries the line's
//! own timestamp.

use vstd::prelude::*;
use crate::json::{JsonValue, field, get_field, get_str, pretty_json, str_eq, str_of, json_pretty};
use crate::raw::{
    block_views, opt_result_content_view, result_block_views, BlockView, ContentBlock, ContentValue,
    ContentView, LogEntry, LogEntryView, MessageContent, MessageView, ResultBlockView,
    ResultContentView, ToolResultContent,
};
use crate::time::Timestamp;
use crate::types::{entry_timestamp, lemma_views_push, views, DisplayEntry, EntryView};

verus! {

/// Lines joined by `\n`.
pub open spec fn join_lines(parts: Seq<Seq<char>>) -> Seq<char>
    decreases parts.len(),
{
    if parts.len() == 0 {
        Seq::empty()
    } else if parts.len() == 1 {
        parts[0]
    } else {
        join_lines(parts.drop_last()) + "\n"@ + parts.last()
    }
}

proof fn lemma_join_push(parts: Seq<Seq<char>>, x: Seq<char>)
    ensures
        join_lines(parts.push(x)) == if parts.len() == 0 {
            x
        } else {
            join_lines(parts) + "\n"@ + x
        },
{
    assert(parts.push(x).drop_last() =~= parts);
}

/// Adds `part` as the next line of `acc` (`any`: `acc` already holds one).
fn push_line(acc: &mut String, any: bool, part: &str)
    ensures
        final(acc)@ == if any {
            old(acc)@ + "\n"@ + part@
        } else {
            part@
        },
{
    if any {
        acc.append("\n");
        acc.append(part);
    } else {
        *acc = String::from_str(part);
    }
}

pub open spec fn or_empty(s: Option<Seq<char>>) -> Seq<char> {
    match s {
        Some(x) => x,
        None => Seq::empty(),
    }
}

// ----- typed blocks -----
/// The texts of tool-result sub-blocks that carry one.
pub open spec fn block_texts(bs: Seq<ResultBlockView>) -> Seq<Seq<char>>
    decreases bs.len(),
{
    if bs.len() == 0 {
        Seq::empty()
    } else {
        let p = block_texts(bs.drop_last());
        match bs.last().text {
            Some(t) => p.push(t),
            None => p,
        }
    }
}

/// A typed tool result flattened to text.
pub open spec fn result_text(c: Option<ResultContentView>) -> Seq<char> {
    match c {
        Some(ResultContentView::Text(t)) => t,
        Some(ResultContentView::Blocks(bs)) => join_lines(block_texts(bs)),
        None => Seq::empty(),
    }
}

pub open spec fn typed_block_entries(b: BlockView, ts: Option<Timestamp>) -> Seq<EntryView> {
    match b {
        BlockView::Text { text } => seq![EntryView::AssistantText { text, timestamp: ts }],
        BlockView::ToolUse { id, name, input } => seq![
            EntryView::ToolCall { name, input: json_pretty(input), id, timestamp: ts, result: None },
        ],
        BlockView::ToolResult { tool_use_id, content, is_error } => seq![
            EntryView::ToolResult {
                tool_use_id,
                content: result_text(content),
                is_error: is_error == Some(true),
                timestamp: ts,
            },
        ],
        BlockView::Thinking { thinking, .. } => seq![
            EntryView::Thinking { text: thinking, collapsed: true, timestamp: ts },
        ],
        BlockView::Unknown => Seq::empty(),
    }
}

pub open spec fn typed_blocks_entries(bs: Seq<BlockView>, ts: Option<Timestamp>) -> Seq<EntryView>
    decreases bs.len(),
{
    if bs.len() == 0 {
        Seq::empty()
    } else {
        typed_blocks_entries(bs.drop_last(), ts) + typed_block_entries(bs.last(), ts)
    }
}

pub open spec fn assistant_entries(m: MessageView, ts: Option<Timestamp>) -> Seq<EntryView> {
    match m.content {
        Some(ContentView::Text(t)) => seq![EntryView::AssistantText { text: t, timestamp: ts }],
        Some(ContentView::Blocks(bs)) => typed_blocks_entries(bs, ts),
        None => Seq::empty(),
    }
}

/// Emits the pending user text, if any, as one message.
pub open spec fn flush_text(out: Seq<EntryView>, pending: Seq<Seq<char>>, ts: Option<Timestamp>) -> Seq<EntryView> {
    if pending.len() > 0 {
        out.push(EntryView::UserMessage { text: join_lines(pending), timestamp: ts })
    } else {
        out
    }
}

/// The entries emitted so far and the text blocks not yet emitted.
pub open spec fn user_fold(bs: Seq<BlockView>, ts: Option<Timestamp>) -> (Seq<EntryView>, Seq<Seq<char>>)
    decreases bs.len(),
{
    if bs.len() == 0 {
        (Seq::empty(), Seq::empty())
    } else {
        let (out, pending) = user_fold(bs.drop_last(), ts);
        match bs.last() {
            BlockView::Text { text } => (out, pending.push(text)),
            BlockView::ToolResult { tool_use_id, content, is_error } => (
                flush_text(out, pending, ts).push(
                    EntryView::ToolResult {
                        tool_use_id,
                        content: result_text(content),
                        is_error: is_error == Some(true),
                        timestamp: ts,
                    },
                ),
                Seq::empty(),
            ),
            _ => (out, pending),
        }
    }
}

pub open spec fn user_entries(m: MessageView, ts: Option<Timestamp>) -> Seq<EntryView> {
    match m.content {
        Some(ContentView::Text(t)) => if t.len() > 0 {
            seq![EntryView::UserMessage { text: t, timestamp: ts }]
        } else {
            Seq::empty()
        },
        Some(ContentView::Blocks(bs)) => {
            let (out, pending) = user_fold(bs, ts);
            flush_text(out, pending, ts)
        },
        None => Seq::empty(),
    }
}

// ----- free-form progress payloads -----
pub open spec fn bool_of(v: Option<JsonValue>) -> Option<bool> {
    match v {
        Some(JsonValue::Bool(b)) => Some(b),
        _ => None,
    }
}

/// The texts of `{"type": "text", "text": ...}` items.
pub open spec fn dyn_result_texts(items: Seq<JsonValue>) -> Seq<Seq<char>>
    decreases items.len(),
{
    if items.len() == 0 {
        Seq::empty()
    } else {
        let p = dyn_result_texts(items.drop_last());
        let x = items.last();
        if str_of(field(x, "type"@)) == Some("text"@) && str_of(field(x, "text"@)) is Some {
            p.push(str_of(field(x, "text"@))->0)
        } else {
            p
        }
    }
}

pub open spec fn dyn_result_text(c: Option<JsonValue>) -> Seq<char> {
    match c {
        Some(JsonValue::Str(s)) => s@,
        Some(JsonValue::Array(items)) => join_lines(dyn_result_texts(items@)),
        _ => Seq::empty(),
    }
}

pub open spec fn dyn_block_entries(b: JsonValue, ts: Option<Timestamp>) -> Seq<EntryView> {
    match str_of(field(b, "type"@)) {
        None => Seq::empty(),
        Some(tag) => if tag == "text"@ {
            match str_of(field(b, "text"@)) {
                Some(t) => seq![EntryView::AssistantText { text: t, timestamp: ts }],
                None => Seq::empty(),
            }
        } else if tag == "tool_use"@ {
            seq![
                EntryView::ToolCall {
                    name: match str_of(field(b, "name"@)) {
                        Some(n) => n,
                        None => "unknown"@,
                    },
                    input: match field(b, "input"@) {
                        Some(i) => json_pretty(i),
                        None => Seq::empty(),
                    },
                    id: or_empty(str_of(field(b, "id"@))),
                    timestamp: ts,
                    result: None,
                },
            ]
        } else if tag == "tool_result"@ {
            seq![
                EntryView::ToolResult {
                    tool_use_id: or_empty(str_of(field(b, "tool_use_id"@))),
                    content: dyn_result_text(field(b, "content"@)),
                    is_error: bool_of(field(b, "is_error"@)) == Some(true),
                    timestamp: ts,
                },
            ]
        } else if tag == "thinking"@ {
            match str_of(field(b, "thinking"@)) {
                Some(t) => seq![EntryView::Thinking { text: t, collapsed: true, timestamp: ts }],
                None => Seq::empty(),
            }
        } else {
            Seq::empty()
        },
    }
}

pub open spec fn dyn_blocks_entries(items: Seq<JsonValue>, ts: Option<Timestamp>) -> Seq<EntryView>
    decreases items.len(),
{
    if items.len() == 0 {
        Seq::empty()
    } else {
        dyn_blocks_entries(items.drop_last(), ts) + dyn_block_entries(items.last(), ts)
    }
}

/// Entries from a progress payload's embedded message (either role).
pub open spec fn progress_message_entries(data: JsonValue, ts: Option<Timestamp>) -> Seq<EntryView> {
    match field(data, "message"@) {
        Some(m) => match (str_of(field(m, "role"@)), field(m, "content"@)) {
            (Some(role), Some(content)) => if role == "assistant"@ || role == "user"@ {
                match content {
                    JsonValue::Array(items) => dyn_blocks_entries(items@, ts),
                    _ => Seq::empty(),
                }
            } else {
                Seq::empty()
            },
            _ => Seq::empty(),
        },
        None => Seq::empty(),
    }
}

pub open spec fn progress_entries(data: JsonValue, ts: Option<Timestamp>) -> Seq<EntryView> {
    let hook = match str_of(field(data, "hookEvent"@)) {
        Some(ev) => seq![
            EntryView::HookEvent {
                event: ev,
                hook_name: str_of(field(data, "hookName"@)),
                command: str_of(field(data, "command"@)),
                timestamp: ts,
            },
        ],
        None => Seq::empty(),
    };
    let spawn = match str_of(field(data, "agentType"@)) {
        Some(t) => seq![
            EntryView::AgentSpawn {
                agent_type: t,
                description: or_empty(str_of(field(data, "description"@))),
                timestamp: ts,
            },
        ],
        None => Seq::empty(),
    };
    progress_message_entries(data, ts) + hook + spawn
}

/// The display entries of one decoded line.
pub open spec fn entries_of(e: LogEntryView) -> Seq<EntryView> {
    if e.entry_type == "user"@ {
        match e.message {
            Some(m) => user_entries(m, e.timestamp),
            None => Seq::empty(),
        }
    } else if e.entry_type == "progress"@ {
        match e.data {
            Some(d) => progress_entries(d, e.timestamp),
            None => Seq::empty(),
        }
    } else if e.entry_type == "assistant"@ {
        match e.message {
            Some(m) => assistant_entries(m, e.timestamp),
            None => Seq::empty(),
        }
    } else {
        Seq::empty()
    }
}

// ----- executable decoding -----
fn typed_result_text(c: &Option<ToolResultContent>) -> (r: String)
    ensures
        r@ == result_text(opt_result_content_view(*c)),
{
    match c {
        Some(ToolResultContent::Text(t)) => t.clone(),
        Some(ToolResultContent::Blocks(bs)) => {
            let mut acc = String::new();
            let mut any = false;
            let mut i: usize = 0;
            while i < bs.len()
                invariant
                    0 <= i <= bs.len(),
                    acc@ == join_lines(block_texts(result_block_views(bs@).subrange(0, i as int))),
                    any == (block_texts(result_block_views(bs@).subrange(0, i as int)).len() > 0),
                decreases bs.len() - i,
            {
                let ghost prev = block_texts(result_block_views(bs@).subrange(0, i as int));
                proof {
                    assert(result_block_views(bs@).subrange(0, i + 1).drop_last() =~= result_block_views(
                        bs@,
                    ).subrange(0, i as int));
                }
                match &bs[i].text {
                    Some(t) => {
                        proof {
                            lemma_join_push(prev, t@);
                        }
                        push_line(&mut acc, any, t.as_str());
                        any = true;
                    },
                    None => {},
                }
                i += 1;
            }
            proof {
                assert(result_block_views(bs@).subrange(0, i as int) =~= result_block_views(bs@));
            }
            acc
        },
        None => String::new(),
    }
}

fn typed_block_entry(b: &ContentBlock, ts: Option<Timestamp>) -> (r: Option<DisplayEntry>)
    ensures
        typed_block_entries(b@, ts) == match r {
            Some(e) => seq![e@],
            None => Seq::empty(),
        },
{
    match b {
        ContentBlock::Text { text } => Some(DisplayEntry::AssistantText { text: text.clone(), timestamp: ts }),
        ContentBlock::ToolUse { id, name, input } => Some(
            DisplayEntry::ToolCall {
                name: name.clone(),
                input: pretty_json(input),
                id: id.clone(),
                timestamp: ts,
                result: None,
            },
        ),
        ContentBlock::ToolResult { tool_use_id, content, is_error } => Some(
            DisplayEntry::ToolResult {
                tool_use_id: tool_use_id.clone(),
                content: typed_result_text(content),
                is_error: match is_error {
                    Some(e) => *e,
                    None => false,
                },
                timestamp: ts,
            },
        ),
        ContentBlock::Thinking { thinking, .. } => Some(
            DisplayEntry::Thinking { text: thinking.clone(), collapsed: true, timestamp: ts },
        ),
        ContentBlock::Unknown => None,
    }
}

/// Entries of an assistant message's blocks, in order; unknown blocks are
/// dropped.
pub fn parse_content_blocks_vec(blocks: &Vec<ContentBlock>, ts: Option<Timestamp>) -> (r: Vec<DisplayEntry>)
    ensures
        views(r@) == typed_blocks_entries(block_views(blocks@), ts),
{
    let mut entries: Vec<DisplayEntry> = Vec::new();
    let mut i: usize = 0;
    while i < blocks.len()
        invariant
            0 <= i <= blocks.len(),
            views(entries@) == typed_blocks_entries(block_views(blocks@).subrange(0, i as int), ts),
        decreases blocks.len() - i,
    {
        proof {
            assert(block_views(blocks@).subrange(0, i + 1).drop_last() =~= block_views(blocks@).subrange(0, i as int));
        }
        match typed_block_entry(&blocks[i], ts) {
            Some(e) => {
                proof {
                    lemma_views_push(entries@, e);
                }
                entries.push(e);
            },
            None => {
                assert(views(entries@) + Seq::<EntryView>::empty() =~= views(entries@));
            },
        }
        i += 1;
    }
    proof {
        assert(block_views(blocks@).subrange(0, i as int) =~= block_views(blocks@));
    }
    entries
}

/// Entries of an assistant message.
pub fn parse_assistant_message(message: &MessageContent, ts: Option<Timestamp>) -> (r: Vec<DisplayEntry>)
    ensures
        views(r@) == assistant_entries(message@, ts),
{
    match &message.content {
        Some(ContentValue::Text(text)) => {
            let mut v = Vec::new();
            v.push(DisplayEntry::AssistantText { text: text.clone(), timestamp: ts });
            proof {
                lemma_views_push(Seq::empty(), v@[0]);
                assert(v@ =~= Seq::<DisplayEntry>::empty().push(v@[0]));
            }
            v
        },
        Some(ContentValue::Blocks(blocks)) => parse_content_blocks_vec(blocks, ts),
        None => {
            let v = Vec::new();
            assert(views(v@) =~= Seq::empty());
            v
        },
    }
}

/// Entries of a user message: contiguous text blocks become one message,
/// emitted before each tool result and at the end.
pub fn parse_user_message(message: &MessageContent, ts: Option<Timestamp>) -> (r: Vec<DisplayEntry>)
    ensures
        views(r@) == user_entries(message@, ts),
{
    let mut entries: Vec<DisplayEntry> = Vec::new();
    match &message.content {
        Some(ContentValue::Text(text)) => {
            if text.as_str().unicode_len() > 0 {
                entries.push(DisplayEntry::UserMessage { text: text.clone(), timestamp: ts });
                proof {
                    lemma_views_push(Seq::empty(), entries@[0]);
                    assert(entries@ =~= Seq::<DisplayEntry>::empty().push(entries@[0]));
                    assert(text@.len() > 0);
                }
            } else {
                assert(views(entries@) =~= Seq::empty());
                assert(text@.len() == 0);
            }
            entries
        },
        Some(ContentValue::Blocks(blocks)) => {
            let mut pending = String::new();
            let mut has_pending = false;
            let mut i: usize = 0;
            proof {
                assert(block_views(blocks@).subrange(0, 0) =~= Seq::empty());
                assert(views(entries@) =~= Seq::empty());
            }
            while i < blocks.len()
                invariant
                    0 <= i <= blocks.len(),
                    ({
                        let st = user_fold(block_views(blocks@).subrange(0, i as int), ts);
                        &&& views(entries@) == st.0
                        &&& pending@ == join_lines(st.1)
                        &&& has_pending == (st.1.len() > 0)
                    }),
                decreases blocks.len() - i,
            {
                let ghost st = user_fold(block_views(blocks@).subrange(0, i as int), ts);
                proof {
                    assert(block_views(blocks@).subrange(0, i + 1).drop_last() =~= block_views(blocks@).subrange(0, i as int));
                }
                match &blocks[i] {
                    ContentBlock::Text { text } => {
                        proof {
                            lemma_join_push(st.1, text@);
                        }
                        push_line(&mut pending, has_pending, text.as_str());
                        has_pending = true;
                    },
                    ContentBlock::ToolResult { tool_use_id, content, is_error } => {
                        if has_pending {
                            let text = pending;
                            pending = String::new();
                            let e = DisplayEntry::UserMessage { text, timestamp: ts };
                            proof {
                                lemma_views_push(entries@, e);
                            }
                            entries.push(e);
                            has_pending = false;
                        }
                        let e = DisplayEntry::ToolResult {
                            tool_use_id: tool_use_id.clone(),
                            content: typed_result_text(content),
                            is_error: match is_error {
                                Some(e) => *e,
                                None => false,
                            },
                            timestamp: ts,
                        };
                        proof {
                            lemma_views_push(entries@, e);
                        }
                        entries.push(e);
                        proof {
                            assert(join_lines(Seq::<Seq<char>>::empty()) == Seq::<char>::empty());
                            assert(pending@ =~= Seq::<char>::empty());
                        }
                    },
                    _ => {},
                }
                i += 1;
            }
            proof {
                assert(block_views(blocks@).subrange(0, i as int) =~= block_views(blocks@));
            }
            if has_pending {
                let e = DisplayEntry::UserMessage { text: pending, timestamp: ts };
                proof {
                    lemma_views_push(entries@, e);
                }
                entries.push(e);
            }
            entries
        },
        None => {
            assert(views(entries@) =~= Seq::empty());
            entries
        },
    }
}

fn copy_or_empty(s: Option<&String>) -> (r: String)
    ensures
        r@ == match s {
            Some(x) => x@,
            None => Seq::empty(),
        },
{
    match s {
        Some(x) => x.clone(),
        None => String::new(),
    }
}

/// Flattens a free-form tool result body: its text, or the texts of its
/// `text` items joined by newlines.
pub fn extract_tool_result_content(block: &JsonValue) -> (r: String)
    ensures
        r@ == dyn_result_text(field(*block, "content"@)),
{
    match get_field(block, "content") {
        Some(JsonValue::Str(s)) => s.clone(),
        Some(JsonValue::Array(items)) => {
            let mut acc = String::new();
            let mut any = false;
            let mut i: usize = 0;
            while i < items.len()
                invariant
                    0 <= i <= items.len(),
                    acc@ == join_lines(dyn_result_texts(items@.subrange(0, i as int))),
                    any == (dyn_result_texts(items@.subrange(0, i as int)).len() > 0),
                decreases items.len() - i,
            {
                let ghost prev = dyn_result_texts(items@.subrange(0, i as int));
                proof {
                    assert(items@.subrange(0, i + 1).drop_last() =~= items@.subrange(0, i as int));
                }
                let x = &items[i];
                match get_str(x, "type") {
                    Some(t) => {
                        if str_eq(t.as_str(), "text") {
                            match get_str(x, "text") {
                                Some(text) => {
                                    proof {
                                        lemma_join_push(prev, text@);
                                    }
                                    push_line(&mut acc, any, text.as_str());
                                    any = true;
                                },
                                None => {},
                            }
                        }
                    },
                    None => {},
                }
                i += 1;
            }
            proof {
                assert(items@.subrange(0, i as int) =~= items@);
            }
            acc
        },
        _ => String::new(),
    }
}

fn dyn_block_entry(b: &JsonValue, ts: Option<Timestamp>) -> (r: Option<DisplayEntry>)
    ensures
        dyn_block_entries(*b, ts) == match r {
            Some(e) => seq![e@],
            None => Seq::empty(),
        },
{
    let tag = match get_str(b, "type") {
        Some(t) => t,
        None => return None,
    };
    if str_eq(tag.as_str(), "text") {
        match get_str(b, "text") {
            Some(t) => Some(DisplayEntry::AssistantText { text: t.clone(), timestamp: ts }),
            None => None,
        }
    } else if str_eq(tag.as_str(), "tool_use") {
        let name = match get_str(b, "name") {
            Some(n) => n.clone(),
            None => String::from_str("unknown"),
        };
        let id = copy_or_empty(get_str(b, "id"));
        let input = match get_field(b, "input") {
            Some(i) => pretty_json(i),
            None => String::new(),
        };
        Some(DisplayEntry::ToolCall { name, input, id, timestamp: ts, result: None })
    } else if str_eq(tag.as_str(), "tool_result") {
        let tool_use_id = copy_or_empty(get_str(b, "tool_use_id"));
        let is_error = match get_field(b, "is_error") {
            Some(JsonValue::Bool(e)) => *e,
            _ => false,
        };
        let content = extract_tool_result_content(b);
        Some(DisplayEntry::ToolResult { tool_use_id, content, is_error, timestamp: ts })
    } else if str_eq(tag.as_str(), "thinking") {
        match get_str(b, "thinking") {
            Some(t) => Some(DisplayEntry::Thinking { text: t.clone(), collapsed: true, timestamp: ts }),
            None => None,
        }
    } else {
        None
    }
}

/// Entries of a free-form block list, in order; anything that is not an
/// array yields none.
pub fn parse_content_blocks(content: &JsonValue, ts: Option<Timestamp>) -> (r: Vec<DisplayEntry>)
    ensures
        views(r@) == match *content {
            JsonValue::Array(items) => dyn_blocks_entries(items@, ts),
            _ => Seq::empty(),
        },
{
    let mut entries: Vec<DisplayEntry> = Vec::new();
    match content {
        JsonValue::Array(items) => {
            let mut i: usize = 0;
            while i < items.len()
                invariant
                    0 <= i <= items.len(),
                    views(entries@) == dyn_blocks_entries(items@.subrange(0, i as int), ts),
                decreases items.len() - i,
            {
                proof {
                    assert(items@.subrange(0, i + 1).drop_last() =~= items@.subrange(0, i as int));
                }
                match dyn_block_entry(&items[i], ts) {
                    Some(e) => {
                        proof {
                            lemma_views_push(entries@, e);
                        }
                        entries.push(e);
                    },
                    None => {
                        assert(views(entries@) + Seq::<EntryView>::empty() =~= views(entries@));
                    },
                }
                i += 1;
            }
            proof {
                assert(items@.subrange(0, i as int) =~= items@);
            }
            entries
        },
        _ => {
            assert(views(entries@) =~= Seq::empty());
            entries
        },
    }
}

/// Entries of a progress payload: its embedded message's blocks, then a hook
/// event, then an agent spawn, each when present.
pub fn parse_progress_data(data: &JsonValue, ts: Option<Timestamp>) -> (r: Vec<DisplayEntry>)
    ensures
        views(r@) == progress_entries(*data, ts),
{
    let mut entries: Vec<DisplayEntry> = Vec::new();
    match get_field(data, "message") {
        Some(message) => match (get_str(message, "role"), get_field(message, "content")) {
            (Some(role), Some(content)) => {
                if str_eq(role.as_str(), "assistant") || str_eq(role.as_str(), "user") {
                    entries = parse_content_blocks(content, ts);
                }
            },
            _ => {},
        },
        None => {},
    }
    assert(views(entries@) == progress_message_entries(*data, ts));
    let ghost before_hook = entries@;
    match get_str(data, "hookEvent") {
        Some(ev) => {
            let hook_name = match get_str(data, "hookName") {
                Some(h) => Some(h.clone()),
                None => None,
            };
            let command = match get_str(data, "command") {
                Some(c) => Some(c.clone()),
                None => None,
            };
            let e = DisplayEntry::HookEvent { event: ev.clone(), hook_name, command, timestamp: ts };
            proof {
                lemma_views_push(entries@, e);
            }
            entries.push(e);
        },
        None => {},
    }
    let ghost before_spawn = entries@;
    match get_str(data, "agentType") {
        Some(t) => {
            let description = copy_or_empty(get_str(data, "description"));
            let e = DisplayEntry::AgentSpawn { agent_type: t.clone(), description, timestamp: ts };
            proof {
                lemma_views_push(entries@, e);
            }
            entries.push(e);
        },
        None => {},
    }
    proof {
        let hook = match str_of(field(*data, "hookEvent"@)) {
            Some(ev) => seq![
                EntryView::HookEvent {
                    event: ev,
                    hook_name: str_of(field(*data, "hookName"@)),
                    command: str_of(field(*data, "command"@)),
                    timestamp: ts,
                },
            ],
            None => Seq::empty(),
        };
        let spawn = match str_of(field(*data, "agentType"@)) {
            Some(t) => seq![
                EntryView::AgentSpawn {
                    agent_type: t,
                    description: or_empty(str_of(field(*data, "description"@))),
                    timestamp: ts,
                },
            ],
            None => Seq::empty(),
        };
        assert(views(before_spawn) =~= views(before_hook) + hook);
        assert(views(entries@) =~= views(before_spawn) + spawn);
    }
    entries
}

/// The display entries of one decoded line, by its tag: `user`,
/// `assistant` and `progress` lines carry entries, any other tag none.
pub fn convert_log_entry(entry: &LogEntry) -> (r: Vec<DisplayEntry>)
    ensures
        views(r@) == entries_of(entry@),
{
    let ts = entry.timestamp;
    let t = entry.entry_type.as_str();
    if str_eq(t, "user") {
        match &entry.message {
            Some(m) => parse_user_message(m, ts),
            None => {
                let v = Vec::new();
                assert(views(v@) =~= Seq::empty());
                v
            },
        }
    } else if str_eq(t, "progress") {
        match &entry.data {
            Some(d) => parse_progress_data(d, ts),
            None => {
                let v = Vec::new();
                assert(views(v@) =~= Seq::empty());
                v
            },
        }
    } else if str_eq(t, "assistant") {
        match &entry.message {
            Some(m) => parse_assistant_message(m, ts),
            None => {
                let v = Vec::new();
                assert(views(v@) =~= Seq::empty());
                v
            },
        }
    } else {
        let v = Vec::new();
        assert(views(v@) =~= Seq::empty());
        v
    }
}

// ----- what every decoded entry satisfies -----
/// Every entry carries `ts` and no tool call has a result yet.
pub open spec fn stamped_unresolved(s: Seq<EntryView>, ts: Option<Timestamp>) -> bool {
    forall|i: int|
        0 <= i < s.len() ==> entry_timestamp(#[trigger] s[i]) == ts && !(s[i] matches EntryView::ToolCall {
            result: Some(_),
            ..
        })
}

proof fn lemma_stamped_concat(a: Seq<EntryView>, b: Seq<EntryView>, ts: Option<Timestamp>)
    requires
        stamped_unresolved(a, ts),
        stamped_unresolved(b, ts),
    ensures
        stamped_unresolved(a + b, ts),
{
    assert forall|i: int| 0 <= i < (a + b).len() implies entry_timestamp(#[trigger] (a + b)[i]) == ts && !((a
        + b)[i] matches EntryView::ToolCall { result: Some(_), .. }) by {
        if i < a.len() {
            assert((a + b)[i] == a[i]);
        } else {
            assert((a + b)[i] == b[i - a.len()]);
        }
    }
}

proof fn lemma_typed_blocks_stamped(bs: Seq<BlockView>, ts: Option<Timestamp>)
    ensures
        stamped_unresolved(typed_blocks_entries(bs, ts), ts),
    decreases bs.len(),
{
    if bs.len() > 0 {
        lemma_typed_blocks_stamped(bs.drop_last(), ts);
        lemma_stamped_concat(typed_blocks_entries(bs.drop_last(), ts), typed_block_entries(bs.last(), ts), ts);
    }
}

proof fn lemma_user_fold_stamped(bs: Seq<BlockView>, ts: Option<Timestamp>)
    ensures
        stamped_unresolved(user_fold(bs, ts).0, ts),
    decreases bs.len(),
{
    if bs.len() > 0 {
        lemma_user_fold_stamped(bs.drop_last(), ts);
        let (out, pending) = user_fold(bs.drop_last(), ts);
        let flushed = flush_text(out, pending, ts);
        assert(stamped_unresolved(flushed, ts)) by {
            if pending.len() > 0 {
                assert forall|i: int| 0 <= i < flushed.len() implies entry_timestamp(#[trigger] flushed[i]) == ts
                    && !(flushed[i] matches EntryView::ToolCall { result: Some(_), .. }) by {
                    if i < out.len() {
                        assert(flushed[i] == out[i]);
                    }
                }
            }
        }
        match bs.last() {
            BlockView::ToolResult { tool_use_id, content, is_error } => {
                let e = EntryView::ToolResult {
                    tool_use_id,
                    content: result_text(content),
                    is_error: is_error == Some(true),
                    timestamp: ts,
                };
                lemma_stamped_concat(flushed, seq![e], ts);
                assert(flushed.push(e) =~= flushed + seq![e]);
            },
            _ => {},
        }
    }
}

proof fn lemma_dyn_blocks_stamped(items: Seq<JsonValue>, ts: Option<Timestamp>)
    ensures
        stamped_unresolved(dyn_blocks_entries(items, ts), ts),
    decreases items.len(),
{
    if items.len() > 0 {
        lemma_dyn_blocks_stamped(items.drop_last(), ts);
        lemma_stamped_concat(dyn_blocks_entries(items.drop_last(), ts), dyn_block_entries(items.last(), ts), ts);
    }
}

/// Decoding leaves every tool call without a result (only the merge pass
/// fills one in), and every entry carries its line's timestamp, absent
/// when the line had none.
pub proof fn lemma_decoded_entries_stamped_and_unresolved(e: LogEntryView)
    ensures
        stamped_unresolved(entries_of(e), e.timestamp),
{
    let ts = e.timestamp;
    if e.entry_type == "user"@ {
        if let Some(m) = e.message {
            if let Some(ContentView::Blocks(bs)) = m.content {
                lemma_user_fold_stamped(bs, ts);
                let (out, pending) = user_fold(bs, ts);
                let flushed = flush_text(out, pending, ts);
                if pending.len() > 0 {
                    assert forall|i: int| 0 <= i < flushed.len() implies entry_timestamp(#[trigger] flushed[i])
                        == ts && !(flushed[i] matches EntryView::ToolCall { result: Some(_), .. }) by {
                        if i < out.len() {
                            assert(flushed[i] == out[i]);
                        }
                    }
                }
            }
        }
    } else if e.entry_type == "progress"@ {
        if let Some(d) = e.data {
            let msg = progress_message_entries(d, ts);
            match field(d, "message"@) {
                Some(m) => match (str_of(field(m, "role"@)), field(m, "content"@)) {
                    (Some(_), Some(JsonValue::Array(items))) => {
                        lemma_dyn_blocks_stamped(items@, ts);
                    },
                    _ => {},
                },
                None => {},
            }
            assert(stamped_unresolved(msg, ts));
            let hook = match str_of(field(d, "hookEvent"@)) {
                Some(ev) => seq![
                    EntryView::HookEvent {
                        event: ev,
                        hook_name: str_of(field(d, "hookName"@)),
                        command: str_of(field(d, "command"@)),
                        timestamp: ts,
                    },
                ],
                None => Seq::empty(),
            };
            let spawn = match str_of(field(d, "agentType"@)) {
                Some(t) => seq![
                    EntryView::AgentSpawn {
                        agent_type: t,
                        description: or_empty(str_of(field(d, "description"@))),
                        timestamp: ts,
                    },
                ],
                None => Seq::empty(),
            };
            lemma_stamped_concat(msg, hook, ts);
            lemma_stamped_concat(msg + hook, spawn, ts);
        }
    } else if e.entry_type == "assistant"@ {
        if let Some(m) = e.message {
            if let Some(ContentView::Blocks(bs)) = m.content {
                lemma_typed_blocks_stamped(bs, ts);
            }
        }
    }
}

} // verus!
