//! Conversations as the browser keeps them, and the entries of a transcript.

pub mod grouping;
pub mod recency;

use crate::paths::opt_text;
use crate::text::{ascii_lowered, texts, to_ascii_lower};
use crate::time::Timestamp;
use vstd::prelude::*;

verus! {

/// The tool that a conversation was held with.
#[derive(Clone, Copy, Debug, PartialEq, Eq, Structural)]
pub enum ProviderKind {
    Claude,
    Cursor,
    CursorAgent,
}

/// What the tool behind `ProviderKind`'s first kind is called.
#[derive(Debug)]
pub struct ToolName {
    /// The name that is shown.
    pub label: String,
    /// The name of the command. The names of the tool's models begin with it.
    pub command: String,
}

impl ToolName {
    /// The names of a tool whose command is its label with the letters from A to Z in lower case.
    pub fn new(label: String) -> (r: ToolName)
        ensures
            r.label@ == label@,
            r.command@ == ascii_lowered(label@),
    {
        let command: String = to_ascii_lower(label.as_str());
        ToolName { label, command }
    }
}

/// A line of a conversation file that could not be read.
#[derive(Debug)]
pub struct ParseError {
    pub line_number: usize,
    pub line_content: String,
    pub error_message: String,
    pub context_before: Vec<String>,
    pub context_after: Vec<String>,
}

/// What a `ParseError` says.
#[verifier::ext_equal]
pub struct ParseErrorView {
    pub line_number: nat,
    pub line_content: Seq<char>,
    pub error_message: Seq<char>,
    pub context_before: Seq<Seq<char>>,
    pub context_after: Seq<Seq<char>>,
}

impl View for ParseError {
    type V = ParseErrorView;

    open spec fn view(&self) -> ParseErrorView {
        ParseErrorView {
            line_number: self.line_number as nat,
            line_content: self.line_content@,
            error_message: self.error_message@,
            context_before: texts(self.context_before@),
            context_after: texts(self.context_after@),
        }
    }
}

/// What a list of parse errors says.
pub open spec fn errors_view(v: Seq<ParseError>) -> Seq<ParseErrorView> {
    v.map_values(|e: ParseError| e@)
}

/// A conversation of the history.
#[derive(Debug)]
pub struct Conversation {
    /// The file that holds the conversation.
    pub path: String,
    /// The position of the conversation in the list it belongs to.
    pub index: usize,
    pub provider: ProviderKind,
    pub id: String,
    /// When the conversation was last active.
    pub timestamp: Timestamp,
    pub preview: String,
    pub full_text: String,
    pub project_name: Option<String>,
    pub project_path: Option<String>,
    pub cwd: Option<String>,
    pub message_count: usize,
    pub parse_errors: Vec<ParseError>,
    pub summary: Option<String>,
    pub model: Option<String>,
    pub total_tokens: u64,
    pub duration_minutes: Option<u64>,
    pub first_message_time: Option<Timestamp>,
    pub last_message_time: Option<Timestamp>,
    /// The text in the form that searches look through.
    pub search_text_lower: Option<String>,
    /// Where the part of that text that tells the topic ends.
    pub search_topic_end: Option<usize>,
}

/// What a `Conversation` says.
#[verifier::ext_equal]
pub struct ConversationView {
    pub path: Seq<char>,
    pub index: nat,
    pub provider: ProviderKind,
    pub id: Seq<char>,
    pub timestamp: Timestamp,
    pub preview: Seq<char>,
    pub full_text: Seq<char>,
    pub project_name: Option<Seq<char>>,
    pub project_path: Option<Seq<char>>,
    pub cwd: Option<Seq<char>>,
    pub message_count: nat,
    pub parse_errors: Seq<ParseErrorView>,
    pub summary: Option<Seq<char>>,
    pub model: Option<Seq<char>>,
    pub total_tokens: nat,
    pub duration_minutes: Option<u64>,
    pub first_message_time: Option<Timestamp>,
    pub last_message_time: Option<Timestamp>,
    pub search_text_lower: Option<Seq<char>>,
    pub search_topic_end: Option<usize>,
}

impl View for Conversation {
    type V = ConversationView;

    open spec fn view(&self) -> ConversationView {
        ConversationView {
            path: self.path@,
            index: self.index as nat,
            provider: self.provider,
            id: self.id@,
            timestamp: self.timestamp,
            preview: self.preview@,
            full_text: self.full_text@,
            project_name: opt_text(self.project_name),
            project_path: opt_text(self.project_path),
            cwd: opt_text(self.cwd),
            message_count: self.message_count as nat,
            parse_errors: errors_view(self.parse_errors@),
            summary: opt_text(self.summary),
            model: opt_text(self.model),
            total_tokens: self.total_tokens as nat,
            duration_minutes: self.duration_minutes,
            first_message_time: self.first_message_time,
            last_message_time: self.last_message_time,
            search_text_lower: opt_text(self.search_text_lower),
            search_topic_end: self.search_topic_end,
        }
    }
}

impl ConversationView {
    /// Whether the times of the conversation lie in the calendar.
    pub open spec fn wf(self) -> bool {
        &&& self.timestamp.wf()
        &&& self.first_message_time matches Some(t) ==> t.wf()
        &&& self.last_message_time matches Some(t) ==> t.wf()
    }
}

impl Conversation {
    /// Whether the times of the conversation lie in the calendar.
    pub open spec fn wf(&self) -> bool {
        &&& self.timestamp.wf()
        &&& self.first_message_time matches Some(t) ==> t.wf()
        &&& self.last_message_time matches Some(t) ==> t.wf()
    }
}

/// Whether the times of all the conversations lie in the calendar.
pub open spec fn all_wf(v: Seq<Conversation>) -> bool {
    forall|i: int| 0 <= i < v.len() ==> (#[trigger] v[i]).wf()
}

impl Conversation {
    /// Whether the times of the conversation lie in the calendar.
    pub fn has_valid_times(&self) -> (r: bool)
        ensures
            r == self.wf(),
    {
        let first: bool = match self.first_message_time {
            Some(t) => t.is_in_calendar(),
            None => true,
        };
        let last: bool = match self.last_message_time {
            Some(t) => t.is_in_calendar(),
            None => true,
        };
        self.timestamp.is_in_calendar() && first && last
    }
}

/// Whether the times of all the conversations lie in the calendar.
pub fn all_have_valid_times(convs: &[Conversation]) -> (r: bool)
    ensures
        r == all_wf(convs@),
{
    for i in 0..convs.len()
        invariant
            forall|k: int| 0 <= k < i ==> (#[trigger] convs@[k]).wf(),
    {
        if !convs[i].has_valid_times() {
            assert(!convs@[i as int].wf());
            return false;
        }
    }
    true
}

/// A copy of a list of strings.
pub fn clone_texts(v: &Vec<String>) -> (r: Vec<String>)
    ensures
        r@ == v@,
{
    let mut out: Vec<String> = Vec::new();
    for i in 0..v.len()
        invariant
            out@ == v@.take(i as int),
    {
        out.push(v[i].clone());
        assert(v@.take(i + 1) =~= v@.take(i as int).push(v@[i as int]));
    }
    assert(v@.take(v@.len() as int) =~= v@);
    out
}

/// A copy of an optional string.
pub fn clone_opt(o: &Option<String>) -> (r: Option<String>)
    ensures
        r == *o,
{
    match o {
        Some(s) => Some(s.clone()),
        None => None,
    }
}

impl Clone for ParseError {
    fn clone(&self) -> (r: Self)
        ensures
            r@ == self@,
    {
        ParseError {
            line_number: self.line_number,
            line_content: self.line_content.clone(),
            error_message: self.error_message.clone(),
            context_before: clone_texts(&self.context_before),
            context_after: clone_texts(&self.context_after),
        }
    }
}

impl Clone for Conversation {
    fn clone(&self) -> (r: Self)
        ensures
            r@ == self@,
    {
        let mut errors: Vec<ParseError> = Vec::new();
        for i in 0..self.parse_errors.len()
            invariant
                errors@.len() == i,
                forall|k: int|
                    0 <= k < i ==> (#[trigger] errors@[k])@ == self.parse_errors@[k]@,
        {
            errors.push(self.parse_errors[i].clone());
        }
        assert(errors_view(errors@) =~= errors_view(self.parse_errors@));
        Conversation {
            path: self.path.clone(),
            index: self.index,
            provider: self.provider,
            id: self.id.clone(),
            timestamp: self.timestamp,
            preview: self.preview.clone(),
            full_text: self.full_text.clone(),
            project_name: clone_opt(&self.project_name),
            project_path: clone_opt(&self.project_path),
            cwd: clone_opt(&self.cwd),
            message_count: self.message_count,
            parse_errors: errors,
            summary: clone_opt(&self.summary),
            model: clone_opt(&self.model),
            total_tokens: self.total_tokens,
            duration_minutes: self.duration_minutes,
            first_message_time: self.first_message_time,
            last_message_time: self.last_message_time,
            search_text_lower: clone_opt(&self.search_text_lower),
            search_topic_end: self.search_topic_end,
        }
    }
}

/// A piece of a message.
#[derive(Debug)]
pub enum ContentBlock {
    Text { text: String },
    /// A call of a tool; `input` is JSON text.
    ToolUse { id: String, name: String, input: String },
    /// What a tool gave back; `content` is JSON text.
    ToolResult { tool_use_id: String, content: Option<String> },
    Thinking { thinking: String, signature: String },
    /// A picture; `source` is JSON text.
    Image { source: String },
}

/// What a `ContentBlock` says.
pub enum ContentBlockView {
    Text { text: Seq<char> },
    ToolUse { id: Seq<char>, name: Seq<char>, input: Seq<char> },
    ToolResult { tool_use_id: Seq<char>, content: Option<Seq<char>> },
    Thinking { thinking: Seq<char>, signature: Seq<char> },
    Image { source: Seq<char> },
}

impl View for ContentBlock {
    type V = ContentBlockView;

    open spec fn view(&self) -> ContentBlockView {
        match self {
            ContentBlock::Text { text } => ContentBlockView::Text { text: text@ },
            ContentBlock::ToolUse { id, name, input } => ContentBlockView::ToolUse {
                id: id@,
                name: name@,
                input: input@,
            },
            ContentBlock::ToolResult { tool_use_id, content } => ContentBlockView::ToolResult {
                tool_use_id: tool_use_id@,
                content: opt_text(*content),
            },
            ContentBlock::Thinking { thinking, signature } => ContentBlockView::Thinking {
                thinking: thinking@,
                signature: signature@,
            },
            ContentBlock::Image { source } => ContentBlockView::Image { source: source@ },
        }
    }
}

/// What a list of blocks says.
pub open spec fn blocks_view(v: Seq<ContentBlock>) -> Seq<ContentBlockView> {
    v.map_values(|b: ContentBlock| b@)
}

/// What the user said.
#[derive(Debug)]
pub struct UserMessage {
    pub role: String,
    pub content: Vec<ContentBlock>,
}

/// What the assistant said.
#[derive(Debug)]
pub struct AssistantMessage {
    pub role: String,
    pub content: Vec<ContentBlock>,
    pub model: Option<String>,
    pub id: Option<String>,
}

/// One message of a transcript.
#[derive(Debug)]
#[allow(inconsistent_fields)]
pub enum LogEntry {
    User { message: UserMessage, timestamp: String, uuid: Option<String>, cwd: Option<String> },
    Assistant { message: AssistantMessage, timestamp: String, uuid: Option<String> },
}

/// What a `LogEntry` says.
pub enum LogEntryView {
    User {
        role: Seq<char>,
        content: Seq<ContentBlockView>,
        timestamp: Seq<char>,
        uuid: Option<Seq<char>>,
        cwd: Option<Seq<char>>,
    },
    Assistant {
        role: Seq<char>,
        content: Seq<ContentBlockView>,
        model: Option<Seq<char>>,
        id: Option<Seq<char>>,
        timestamp: Seq<char>,
        uuid: Option<Seq<char>>,
    },
}

impl View for LogEntry {
    type V = LogEntryView;

    open spec fn view(&self) -> LogEntryView {
        match self {
            LogEntry::User { message, timestamp, uuid, cwd } => LogEntryView::User {
                role: message.role@,
                content: blocks_view(message.content@),
                timestamp: timestamp@,
                uuid: opt_text(*uuid),
                cwd: opt_text(*cwd),
            },
            LogEntry::Assistant { message, timestamp, uuid } => LogEntryView::Assistant {
                role: message.role@,
                content: blocks_view(message.content@),
                model: opt_text(message.model),
                id: opt_text(message.id),
                timestamp: timestamp@,
                uuid: opt_text(*uuid),
            },
        }
    }
}

} // verus!
