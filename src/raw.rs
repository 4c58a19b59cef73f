//! The tagged records of one transcript line, read from its JSON document.
//!
//! Each level of nesting is a closed set of variants; an unknown block tag
//! decodes to `Unknown`, and a field of the wrong shape rejects the line.

use vstd::prelude::*;
use crate::json::{JsonValue, field, get_field, member, str_eq, take_member};
use crate::time::{Timestamp, parse_timestamp, rfc3339_of};

verus! {

/// One line of a transcript log.
pub struct LogEntry {
    pub entry_type: String,
    pub message: Option<MessageContent>,
    pub data: Option<JsonValue>,
    pub timestamp: Option<Timestamp>,
    pub session_id: Option<String>,
}

/// The message that a `user` or `assistant` line carries.
pub struct MessageContent {
    pub role: Option<String>,
    pub content: Option<ContentValue>,
    pub model: Option<String>,
}

/// A message body: plain text, or an ordered list of blocks.
pub enum ContentValue {
    Text(String),
    Blocks(Vec<ContentBlock>),
}

/// One block of a message body.
pub enum ContentBlock {
    Text { text: String },
    ToolUse { id: String, name: String, input: JsonValue },
    ToolResult {
        tool_use_id: String,
        content: Option<ToolResultContent>,
        is_error: Option<bool>,
    },
    Thinking { thinking: String, signature: Option<String> },
    Unknown,
}

/// What a tool returned: plain text, or a list of typed sub-blocks.
pub enum ToolResultContent {
    Text(String),
    Blocks(Vec<ToolResultBlock>),
}

/// One sub-block of a tool result.
pub struct ToolResultBlock {
    pub block_type: String,
    pub text: Option<String>,
}

// ----- mathematical models -----
pub ghost struct LogEntryView {
    pub entry_type: Seq<char>,
    pub message: Option<MessageView>,
    pub data: Option<JsonValue>,
    pub timestamp: Option<Timestamp>,
    pub session_id: Option<Seq<char>>,
}

pub ghost struct MessageView {
    pub role: Option<Seq<char>>,
    pub content: Option<ContentView>,
    pub model: Option<Seq<char>>,
}

pub ghost enum ContentView {
    Text(Seq<char>),
    Blocks(Seq<BlockView>),
}

pub ghost enum BlockView {
    Text { text: Seq<char> },
    ToolUse { id: Seq<char>, name: Seq<char>, input: JsonValue },
    ToolResult { tool_use_id: Seq<char>, content: Option<ResultContentView>, is_error: Option<bool> },
    Thinking { thinking: Seq<char>, signature: Option<Seq<char>> },
    Unknown,
}

pub ghost enum ResultContentView {
    Text(Seq<char>),
    Blocks(Seq<ResultBlockView>),
}

pub ghost struct ResultBlockView {
    pub block_type: Seq<char>,
    pub text: Option<Seq<char>>,
}

pub open spec fn opt_str_view(s: Option<String>) -> Option<Seq<char>> {
    match s {
        Some(x) => Some(x@),
        None => None,
    }
}

impl View for ToolResultBlock {
    type V = ResultBlockView;

    open spec fn view(&self) -> ResultBlockView {
        ResultBlockView { block_type: self.block_type@, text: opt_str_view(self.text) }
    }
}

/// The models of a list of tool-result sub-blocks.
pub open spec fn result_block_views(s: Seq<ToolResultBlock>) -> Seq<ResultBlockView> {
    s.map_values(|x: ToolResultBlock| x@)
}

/// The models of a list of message blocks.
pub open spec fn block_views(s: Seq<ContentBlock>) -> Seq<BlockView> {
    s.map_values(|x: ContentBlock| x@)
}

impl View for ToolResultContent {
    type V = ResultContentView;

    open spec fn view(&self) -> ResultContentView {
        match self {
            ToolResultContent::Text(s) => ResultContentView::Text(s@),
            ToolResultContent::Blocks(b) => ResultContentView::Blocks(result_block_views(b@)),
        }
    }
}

pub open spec fn opt_result_content_view(c: Option<ToolResultContent>) -> Option<ResultContentView> {
    match c {
        Some(x) => Some(x@),
        None => None,
    }
}

impl View for ContentBlock {
    type V = BlockView;

    open spec fn view(&self) -> BlockView {
        match self {
            ContentBlock::Text { text } => BlockView::Text { text: text@ },
            ContentBlock::ToolUse { id, name, input } => BlockView::ToolUse { id: id@, name: name@, input: *input },
            ContentBlock::ToolResult { tool_use_id, content, is_error } => BlockView::ToolResult {
                tool_use_id: tool_use_id@,
                content: opt_result_content_view(*content),
                is_error: *is_error,
            },
            ContentBlock::Thinking { thinking, signature } => BlockView::Thinking {
                thinking: thinking@,
                signature: opt_str_view(*signature),
            },
            ContentBlock::Unknown => BlockView::Unknown,
        }
    }
}

impl View for ContentValue {
    type V = ContentView;

    open spec fn view(&self) -> ContentView {
        match self {
            ContentValue::Text(s) => ContentView::Text(s@),
            ContentValue::Blocks(b) => ContentView::Blocks(block_views(b@)),
        }
    }
}

impl View for MessageContent {
    type V = MessageView;

    open spec fn view(&self) -> MessageView {
        MessageView {
            role: opt_str_view(self.role),
            content: match self.content {
                Some(c) => Some(c@),
                None => None,
            },
            model: opt_str_view(self.model),
        }
    }
}

impl View for LogEntry {
    type V = LogEntryView;

    open spec fn view(&self) -> LogEntryView {
        LogEntryView {
            entry_type: self.entry_type@,
            message: match self.message {
                Some(m) => Some(m@),
                None => None,
            },
            data: self.data,
            timestamp: self.timestamp,
            session_id: opt_str_view(self.session_id),
        }
    }
}

// ----- what a document decodes to (None: the shape does not fit) -----
/// A required string field.
pub open spec fn req_str(v: Option<JsonValue>) -> Option<Seq<char>> {
    match v {
        Some(JsonValue::Str(s)) => Some(s@),
        _ => None,
    }
}

/// An optional string field: absent or `null` is `None`.
pub open spec fn opt_str(v: Option<JsonValue>) -> Option<Option<Seq<char>>> {
    match v {
        None => Some(None),
        Some(JsonValue::Null) => Some(None),
        Some(JsonValue::Str(s)) => Some(Some(s@)),
        _ => None,
    }
}

/// An optional boolean field: absent or `null` is `None`.
pub open spec fn opt_bool(v: Option<JsonValue>) -> Option<Option<bool>> {
    match v {
        None => Some(None),
        Some(JsonValue::Null) => Some(None),
        Some(JsonValue::Bool(b)) => Some(Some(b)),
        _ => None,
    }
}

pub open spec fn result_block_of(v: JsonValue) -> Option<ResultBlockView> {
    match v {
        JsonValue::Object(f) => {
            let t = req_str(member(f@, "type"@));
            let x = opt_str(member(f@, "text"@));
            if t is Some && x is Some {
                Some(ResultBlockView { block_type: t->0, text: x->0 })
            } else {
                None
            }
        },
        _ => None,
    }
}

/// Reads tool-result sub-blocks.
pub open spec fn result_block_fn() -> spec_fn(JsonValue) -> Option<ResultBlockView> {
    |x: JsonValue| result_block_of(x)
}

/// Reads message blocks.
pub open spec fn block_fn() -> spec_fn(JsonValue) -> Option<BlockView> {
    |x: JsonValue| block_of(x)
}

/// Decodes every item with `f`; `None` as soon as one item does not fit.
pub open spec fn all_of<A>(items: Seq<JsonValue>, f: spec_fn(JsonValue) -> Option<A>) -> Option<Seq<A>>
    decreases items.len(),
{
    if items.len() == 0 {
        Some(Seq::empty())
    } else {
        match (all_of(items.drop_last(), f), f(items.last())) {
            (Some(done), Some(x)) => Some(done.push(x)),
            _ => None,
        }
    }
}

pub open spec fn result_content_of(v: JsonValue) -> Option<ResultContentView> {
    match v {
        JsonValue::Str(s) => Some(ResultContentView::Text(s@)),
        JsonValue::Array(items) => match all_of(items@, result_block_fn()) {
            Some(bs) => Some(ResultContentView::Blocks(bs)),
            None => None,
        },
        _ => None,
    }
}

/// An optional tool-result body: absent or `null` is `None`.
pub open spec fn opt_result_content(v: Option<JsonValue>) -> Option<Option<ResultContentView>> {
    match v {
        None => Some(None),
        Some(JsonValue::Null) => Some(None),
        Some(x) => match result_content_of(x) {
            Some(c) => Some(Some(c)),
            None => None,
        },
    }
}

pub open spec fn block_of(v: JsonValue) -> Option<BlockView> {
    match v {
        JsonValue::Object(f) => match req_str(member(f@, "type"@)) {
            None => None,
            Some(tag) => if tag == "text"@ {
                match req_str(member(f@, "text"@)) {
                    Some(text) => Some(BlockView::Text { text }),
                    None => None,
                }
            } else if tag == "tool_use"@ {
                let id = req_str(member(f@, "id"@));
                let name = req_str(member(f@, "name"@));
                let input = member(f@, "input"@);
                if id is Some && name is Some && input is Some {
                    Some(BlockView::ToolUse { id: id->0, name: name->0, input: input->0 })
                } else {
                    None
                }
            } else if tag == "tool_result"@ {
                let id = req_str(member(f@, "tool_use_id"@));
                let content = opt_result_content(member(f@, "content"@));
                let is_error = opt_bool(member(f@, "is_error"@));
                if id is Some && content is Some && is_error is Some {
                    Some(
                        BlockView::ToolResult {
                            tool_use_id: id->0,
                            content: content->0,
                            is_error: is_error->0,
                        },
                    )
                } else {
                    None
                }
            } else if tag == "thinking"@ {
                let thinking = req_str(member(f@, "thinking"@));
                let signature = opt_str(member(f@, "signature"@));
                if thinking is Some && signature is Some {
                    Some(BlockView::Thinking { thinking: thinking->0, signature: signature->0 })
                } else {
                    None
                }
            } else {
                Some(BlockView::Unknown)
            },
        },
        _ => None,
    }
}

pub open spec fn content_of(v: JsonValue) -> Option<ContentView> {
    match v {
        JsonValue::Str(s) => Some(ContentView::Text(s@)),
        JsonValue::Array(items) => match all_of(items@, block_fn()) {
            Some(bs) => Some(ContentView::Blocks(bs)),
            None => None,
        },
        _ => None,
    }
}

pub open spec fn message_of(v: JsonValue) -> Option<MessageView> {
    match v {
        JsonValue::Object(f) => {
            let role = opt_str(member(f@, "role"@));
            let model = opt_str(member(f@, "model"@));
            let content = match member(f@, "content"@) {
                None => Some(None),
                Some(JsonValue::Null) => Some(None),
                Some(x) => match content_of(x) {
                    Some(c) => Some(Some(c)),
                    None => None,
                },
            };
            if role is Some && model is Some && content is Some {
                Some(MessageView { role: role->0, content: content->0, model: model->0 })
            } else {
                None
            }
        },
        _ => None,
    }
}

/// An optional timestamp field: absent or `null` is `None`; a string must
/// read as RFC 3339.
pub open spec fn opt_timestamp(v: Option<JsonValue>) -> Option<Option<Timestamp>> {
    match v {
        None => Some(None),
        Some(JsonValue::Null) => Some(None),
        Some(JsonValue::Str(s)) => match rfc3339_of(s@) {
            Some(t) => Some(Some(t)),
            None => None,
        },
        _ => None,
    }
}

/// The name of the first field of a line that does not fit, or the record.
pub open spec fn log_entry_of(v: JsonValue) -> Result<LogEntryView, Seq<char>> {
    match v {
        JsonValue::Object(f) => {
            let t = req_str(member(f@, "type"@));
            let message = match member(f@, "message"@) {
                None => Some(None),
                Some(JsonValue::Null) => Some(None),
                Some(x) => match message_of(x) {
                    Some(m) => Some(Some(m)),
                    None => None,
                },
            };
            let data = match member(f@, "data"@) {
                Some(JsonValue::Null) => None,
                d => d,
            };
            let ts = opt_timestamp(member(f@, "timestamp"@));
            let sid = opt_str(member(f@, "session_id"@));
            if t is None {
                Err("type"@)
            } else if message is None {
                Err("message"@)
            } else if ts is None {
                Err("timestamp"@)
            } else if sid is None {
                Err("session_id"@)
            } else {
                Ok(
                    LogEntryView {
                        entry_type: t->0,
                        message: message->0,
                        data,
                        timestamp: ts->0,
                        session_id: sid->0,
                    },
                )
            }
        },
        _ => Err("type"@),
    }
}

proof fn lemma_all_of_step<A>(items: Seq<JsonValue>, f: spec_fn(JsonValue) -> Option<A>, i: int)
    requires
        0 <= i < items.len(),
    ensures
        all_of(items.subrange(0, i + 1), f) == match (all_of(items.subrange(0, i), f), f(items[i])) {
            (Some(done), Some(x)) => Some(done.push(x)),
            _ => None,
        },
{
    assert(items.subrange(0, i + 1).drop_last() =~= items.subrange(0, i));
}

proof fn lemma_all_of_none<A>(items: Seq<JsonValue>, f: spec_fn(JsonValue) -> Option<A>, i: int)
    requires
        0 <= i <= items.len(),
        all_of(items.subrange(0, i), f) is None,
    ensures
        all_of(items, f) is None,
    decreases items.len() - i,
{
    if i == items.len() {
        assert(items.subrange(0, i) =~= items);
    } else {
        lemma_all_of_step(items, f, i);
        lemma_all_of_none(items, f, i + 1);
    }
}

// ----- decoding -----
/// A required string member, copied out.
pub fn req_str_field(v: &JsonValue, key: &str) -> (r: Option<String>)
    ensures
        opt_str_view(r) == req_str(field(*v, key@)),
{
    match get_field(v, key) {
        Some(JsonValue::Str(s)) => Some(s.clone()),
        _ => None,
    }
}

/// An optional string member, copied out; `None` when its shape is wrong.
pub fn opt_str_field(v: &JsonValue, key: &str) -> (r: Option<Option<String>>)
    ensures
        match r {
            Some(o) => opt_str(field(*v, key@)) == Some(opt_str_view(o)),
            None => opt_str(field(*v, key@)) is None,
        },
{
    match get_field(v, key) {
        None => Some(None),
        Some(JsonValue::Null) => Some(None),
        Some(JsonValue::Str(s)) => Some(Some(s.clone())),
        _ => None,
    }
}

/// An optional boolean member; `None` when its shape is wrong.
pub fn opt_bool_field(v: &JsonValue, key: &str) -> (r: Option<Option<bool>>)
    ensures
        r == opt_bool(field(*v, key@)),
{
    match get_field(v, key) {
        None => Some(None),
        Some(JsonValue::Null) => Some(None),
        Some(JsonValue::Bool(b)) => Some(Some(*b)),
        _ => None,
    }
}

/// Reads one tool-result sub-block.
pub fn decode_result_block(v: &JsonValue) -> (r: Option<ToolResultBlock>)
    ensures
        match r {
            Some(b) => result_block_of(*v) == Some(b@),
            None => result_block_of(*v) is None,
        },
{
    let t = req_str_field(v, "type");
    let x = opt_str_field(v, "text");
    match (t, x) {
        (Some(block_type), Some(text)) => Some(ToolResultBlock { block_type, text }),
        _ => None,
    }
}

/// Reads a tool result's body: text, or a list of sub-blocks.
pub fn decode_result_content(v: &JsonValue) -> (r: Option<ToolResultContent>)
    ensures
        match r {
            Some(c) => result_content_of(*v) == Some(c@),
            None => result_content_of(*v) is None,
        },
{
    match v {
        JsonValue::Str(s) => Some(ToolResultContent::Text(s.clone())),
        JsonValue::Array(items) => {
            let mut out: Vec<ToolResultBlock> = Vec::new();
            let mut i: usize = 0;
            while i < items.len()
                invariant
                    *v == JsonValue::Array(*items),
                    0 <= i <= items.len(),
                    out.len() == i,
                    all_of(items@.subrange(0, i as int), result_block_fn()) matches Some(done) && done
                        == result_block_views(out@),
                decreases items.len() - i,
            {
                let b = decode_result_block(&items[i]);
                proof {
                    lemma_all_of_step(items@, result_block_fn(), i as int);
                }
                match b {
                    Some(b) => {
                        out.push(b);
                        proof {
                            let prev = all_of(items@.subrange(0, i as int), result_block_fn())->0;
                            assert(result_block_views(out@) =~= prev.push(b@));
                        }
                    },
                    None => {
                        proof {
                            lemma_all_of_none(items@, result_block_fn(), i as int + 1);
                        }
                        return None;
                    },
                }
                i += 1;
            }
            proof {
                assert(items@.subrange(0, i as int) =~= items@);
            }
            let r = ToolResultContent::Blocks(out);
            proof {
                assert(r@ == ResultContentView::Blocks(result_block_views(out@)));
            }
            Some(r)
        },
        _ => None,
    }
}

/// Reads one message block, taking ownership of a tool call's input.
pub fn decode_block(v: JsonValue) -> (r: Option<ContentBlock>)
    ensures
        match r {
            Some(b) => block_of(v) == Some(b@),
            None => block_of(v) is None,
        },
{
    let tag = match req_str_field(&v, "type") {
        Some(t) => t,
        None => return None,
    };
    if str_eq(tag.as_str(), "text") {
        match req_str_field(&v, "text") {
            Some(text) => Some(ContentBlock::Text { text }),
            None => None,
        }
    } else if str_eq(tag.as_str(), "tool_use") {
        let id = req_str_field(&v, "id");
        let name = req_str_field(&v, "name");
        match v {
            JsonValue::Object(mut f) => {
                let input = take_member(&mut f, "input");
                match (id, name, input) {
                    (Some(id), Some(name), Some(input)) => Some(ContentBlock::ToolUse { id, name, input }),
                    _ => None,
                }
            },
            _ => None,
        }
    } else if str_eq(tag.as_str(), "tool_result") {
        let id = req_str_field(&v, "tool_use_id");
        let is_error = opt_bool_field(&v, "is_error");
        let content = match get_field(&v, "content") {
            None => Some(None),
            Some(JsonValue::Null) => Some(None),
            Some(x) => match decode_result_content(x) {
                Some(c) => Some(Some(c)),
                None => None,
            },
        };
        match (id, content, is_error) {
            (Some(tool_use_id), Some(content), Some(is_error)) => {
                let r = ContentBlock::ToolResult { tool_use_id, content, is_error };
                Some(r)
            },
            _ => None,
        }
    } else if str_eq(tag.as_str(), "thinking") {
        let thinking = req_str_field(&v, "thinking");
        let signature = opt_str_field(&v, "signature");
        match (thinking, signature) {
            (Some(thinking), Some(signature)) => Some(ContentBlock::Thinking { thinking, signature }),
            _ => None,
        }
    } else {
        Some(ContentBlock::Unknown)
    }
}

/// Reads a message body: text, or a list of blocks.
pub fn decode_content(v: JsonValue) -> (r: Option<ContentValue>)
    ensures
        match r {
            Some(c) => content_of(v) == Some(c@),
            None => content_of(v) is None,
        },
{
    let ghost gv = v;
    match v {
        JsonValue::Str(s) => Some(ContentValue::Text(s)),
        JsonValue::Array(items) => {
            let ghost all = items@;
            let mut out: Vec<ContentBlock> = Vec::new();
            for item in it: items
                invariant
                    it.seq() == all,
                    gv == v,
                    gv matches JsonValue::Array(its) && its@ == all,
                    out.len() == it.index(),
                    all_of(all.subrange(0, it.index() as int), block_fn()) matches Some(done) && done
                        == block_views(out@),
            {
                let ghost i = it.index();
                proof {
                    lemma_all_of_step(all, block_fn(), i as int);
                }
                match decode_block(item) {
                    Some(b) => {
                        out.push(b);
                        proof {
                            let prev = all_of(all.subrange(0, i as int), block_fn())->0;
                            assert(block_views(out@) =~= prev.push(b@));
                        }
                    },
                    None => {
                        proof {
                            lemma_all_of_none(all, block_fn(), i as int + 1);
                        }
                        return None;
                    },
                }
            }
            proof {
                assert(all.subrange(0, all.len() as int) =~= all);
            }
            let r = ContentValue::Blocks(out);
            proof {
                assert(r@ == ContentView::Blocks(block_views(out@)));
            }
            Some(r)
        },
        _ => None,
    }
}

/// Reads the message of a `user` or `assistant` line.
pub fn decode_message(v: JsonValue) -> (r: Option<MessageContent>)
    ensures
        match r {
            Some(m) => message_of(v) == Some(m@),
            None => message_of(v) is None,
        },
{
    let role = opt_str_field(&v, "role");
    let model = opt_str_field(&v, "model");
    match v {
        JsonValue::Object(mut f) => {
            let content = match take_member(&mut f, "content") {
                None => Some(None),
                Some(JsonValue::Null) => Some(None),
                Some(x) => match decode_content(x) {
                    Some(c) => Some(Some(c)),
                    None => None,
                },
            };
            match (role, content, model) {
                (Some(role), Some(content), Some(model)) => Some(MessageContent { role, content, model }),
                _ => None,
            }
        },
        _ => None,
    }
}

/// The text `invalid or missing field <name>`.
pub open spec fn bad_field_text(name: Seq<char>) -> Seq<char> {
    "invalid or missing field "@ + name
}

fn bad_field(name: &str) -> (r: String)
    ensures
        r@ == bad_field_text(name@),
{
    let mut s = String::from_str("invalid or missing field ");
    s.append(name);
    s
}

/// Reads one transcript line's document into its record, or says which
/// field does not fit.
pub fn decode_log_entry(v: JsonValue) -> (r: Result<LogEntry, String>)
    ensures
        match r {
            Ok(e) => log_entry_of(v) == Ok::<LogEntryView, Seq<char>>(e@),
            Err(msg) => log_entry_of(v) matches Err(name) && msg@ == bad_field_text(name),
        },
{
    let t = req_str_field(&v, "type");
    let timestamp = match get_field(&v, "timestamp") {
        None => Some(None),
        Some(JsonValue::Null) => Some(None),
        Some(JsonValue::Str(s)) => match parse_timestamp(s.as_str()) {
            Some(t) => Some(Some(t)),
            None => None,
        },
        _ => None,
    };
    let sid = opt_str_field(&v, "session_id");
    let mut f = match v {
        JsonValue::Object(f) => f,
        _ => return Err(bad_field("type")),
    };
    let message = match take_member(&mut f, "message") {
        None => Some(None),
        Some(JsonValue::Null) => Some(None),
        Some(x) => match decode_message(x) {
            Some(m) => Some(Some(m)),
            None => None,
        },
    };
    proof {
        reveal_strlit("data");
        reveal_strlit("message");
        assert("data"@.len() != "message"@.len());
    }
    let data = match take_member(&mut f, "data") {
        Some(JsonValue::Null) => None,
        d => d,
    };
    match t {
        None => Err(bad_field("type")),
        Some(entry_type) => match message {
            None => Err(bad_field("message")),
            Some(message) => match timestamp {
                None => Err(bad_field("timestamp")),
                Some(timestamp) => match sid {
                    None => Err(bad_field("session_id")),
                    Some(session_id) => Ok(LogEntry { entry_type, message, data, timestamp, session_id }),
                },
            },
        },
    }
}

} // verus!
