//! Display entries: the normalized, UI-ready form of a transcript.

use vstd::prelude::*;
use crate::raw::opt_str_view;
use crate::time::Timestamp;

verus! {

/// A tool's output, folded into the call that produced it.
#[derive(Debug)]
pub struct ToolCallResult {
    pub content: String,
    pub is_error: bool,
}

/// One entry of the transcript as the presentation layer shows it.
#[derive(Debug)]
pub enum DisplayEntry {
    UserMessage { text: String, timestamp: Option<Timestamp> },
    AssistantText { text: String, timestamp: Option<Timestamp> },
    ToolCall {
        name: String,
        input: String,
        id: String,
        timestamp: Option<Timestamp>,
        /// Filled in by the merge pass only, from a following `ToolResult`.
        result: Option<ToolCallResult>,
    },
    ToolResult { tool_use_id: String, content: String, is_error: bool, timestamp: Option<Timestamp> },
    Thinking { text: String, collapsed: bool, timestamp: Option<Timestamp> },
    HookEvent {
        event: String,
        hook_name: Option<String>,
        command: Option<String>,
        timestamp: Option<Timestamp>,
    },
    AgentSpawn { agent_type: String, description: String, timestamp: Option<Timestamp> },
}

pub ghost struct ResultView {
    pub content: Seq<char>,
    pub is_error: bool,
}

pub ghost enum EntryView {
    UserMessage { text: Seq<char>, timestamp: Option<Timestamp> },
    AssistantText { text: Seq<char>, timestamp: Option<Timestamp> },
    ToolCall {
        name: Seq<char>,
        input: Seq<char>,
        id: Seq<char>,
        timestamp: Option<Timestamp>,
        result: Option<ResultView>,
    },
    ToolResult { tool_use_id: Seq<char>, content: Seq<char>, is_error: bool, timestamp: Option<Timestamp> },
    Thinking { text: Seq<char>, collapsed: bool, timestamp: Option<Timestamp> },
    HookEvent {
        event: Seq<char>,
        hook_name: Option<Seq<char>>,
        command: Option<Seq<char>>,
        timestamp: Option<Timestamp>,
    },
    AgentSpawn { agent_type: Seq<char>, description: Seq<char>, timestamp: Option<Timestamp> },
}

impl View for ToolCallResult {
    type V = ResultView;

    open spec fn view(&self) -> ResultView {
        ResultView { content: self.content@, is_error: self.is_error }
    }
}

impl View for DisplayEntry {
    type V = EntryView;

    open spec fn view(&self) -> EntryView {
        match self {
            DisplayEntry::UserMessage { text, timestamp } => EntryView::UserMessage { text: text@, timestamp: *timestamp },
            DisplayEntry::AssistantText { text, timestamp } => EntryView::AssistantText { text: text@, timestamp: *timestamp },
            DisplayEntry::ToolCall { name, input, id, timestamp, result } => EntryView::ToolCall {
                name: name@,
                input: input@,
                id: id@,
                timestamp: *timestamp,
                result: match result {
                    Some(r) => Some(r@),
                    None => None,
                },
            },
            DisplayEntry::ToolResult { tool_use_id, content, is_error, timestamp } => EntryView::ToolResult {
                tool_use_id: tool_use_id@,
                content: content@,
                is_error: *is_error,
                timestamp: *timestamp,
            },
            DisplayEntry::Thinking { text, collapsed, timestamp } => EntryView::Thinking {
                text: text@,
                collapsed: *collapsed,
                timestamp: *timestamp,
            },
            DisplayEntry::HookEvent { event, hook_name, command, timestamp } => EntryView::HookEvent {
                event: event@,
                hook_name: opt_str_view(*hook_name),
                command: opt_str_view(*command),
                timestamp: *timestamp,
            },
            DisplayEntry::AgentSpawn { agent_type, description, timestamp } => EntryView::AgentSpawn {
                agent_type: agent_type@,
                description: description@,
                timestamp: *timestamp,
            },
        }
    }
}

/// The models of a sequence of entries.
pub open spec fn views(s: Seq<DisplayEntry>) -> Seq<EntryView> {
    s.map_values(|e: DisplayEntry| e@)
}

pub proof fn lemma_views_push(s: Seq<DisplayEntry>, e: DisplayEntry)
    ensures
        views(s.push(e)) == views(s).push(e@),
{
    assert(views(s.push(e)) =~= views(s).push(e@));
}

pub proof fn lemma_views_concat(a: Seq<DisplayEntry>, b: Seq<DisplayEntry>)
    ensures
        views(a + b) == views(a) + views(b),
{
    assert(views(a + b) =~= views(a) + views(b));
}

/// The instant of a tool call's or any other entry's originating line.
pub open spec fn entry_timestamp(e: EntryView) -> Option<Timestamp> {
    match e {
        EntryView::UserMessage { timestamp, .. } => timestamp,
        EntryView::AssistantText { timestamp, .. } => timestamp,
        EntryView::ToolCall { timestamp, .. } => timestamp,
        EntryView::ToolResult { timestamp, .. } => timestamp,
        EntryView::Thinking { timestamp, .. } => timestamp,
        EntryView::HookEvent { timestamp, .. } => timestamp,
        EntryView::AgentSpawn { timestamp, .. } => timestamp,
    }
}

fn copy_opt_string(s: &Option<String>) -> (r: Option<String>)
    ensures
        opt_str_view(r) == opt_str_view(*s),
{
    match s {
        Some(x) => Some(x.clone()),
        None => None,
    }
}

impl ToolCallResult {
    /// A copy with the same content.
    pub fn copy(&self) -> (r: ToolCallResult)
        ensures
            r@ == self@,
    {
        ToolCallResult { content: self.content.clone(), is_error: self.is_error }
    }
}

impl DisplayEntry {
    /// The instant of the line the entry came from, if that line had one.
    pub fn timestamp(&self) -> (r: Option<Timestamp>)
        ensures
            r == entry_timestamp(self@),
    {
        match self {
            DisplayEntry::UserMessage { timestamp, .. } => *timestamp,
            DisplayEntry::AssistantText { timestamp, .. } => *timestamp,
            DisplayEntry::ToolCall { timestamp, .. } => *timestamp,
            DisplayEntry::ToolResult { timestamp, .. } => *timestamp,
            DisplayEntry::Thinking { timestamp, .. } => *timestamp,
            DisplayEntry::HookEvent { timestamp, .. } => *timestamp,
            DisplayEntry::AgentSpawn { timestamp, .. } => *timestamp,
        }
    }

    /// A copy with the same content.
    pub fn copy(&self) -> (r: DisplayEntry)
        ensures
            r@ == self@,
    {
        match self {
            DisplayEntry::UserMessage { text, timestamp } => DisplayEntry::UserMessage {
                text: text.clone(),
                timestamp: *timestamp,
            },
            DisplayEntry::AssistantText { text, timestamp } => DisplayEntry::AssistantText {
                text: text.clone(),
                timestamp: *timestamp,
            },
            DisplayEntry::ToolCall { name, input, id, timestamp, result } => DisplayEntry::ToolCall {
                name: name.clone(),
                input: input.clone(),
                id: id.clone(),
                timestamp: *timestamp,
                result: match result {
                    Some(r) => Some(r.copy()),
                    None => None,
                },
            },
            DisplayEntry::ToolResult { tool_use_id, content, is_error, timestamp } => DisplayEntry::ToolResult {
                tool_use_id: tool_use_id.clone(),
                content: content.clone(),
                is_error: *is_error,
                timestamp: *timestamp,
            },
            DisplayEntry::Thinking { text, collapsed, timestamp } => DisplayEntry::Thinking {
                text: text.clone(),
                collapsed: *collapsed,
                timestamp: *timestamp,
            },
            DisplayEntry::HookEvent { event, hook_name, command, timestamp } => DisplayEntry::HookEvent {
                event: event.clone(),
                hook_name: copy_opt_string(hook_name),
                command: copy_opt_string(command),
                timestamp: *timestamp,
            },
            DisplayEntry::AgentSpawn { agent_type, description, timestamp } => DisplayEntry::AgentSpawn {
                agent_type: agent_type.clone(),
                description: description.clone(),
                timestamp: *timestamp,
            },
        }
    }
}

} // verus!
