//! Conversations of the Cursor Agent command line tool.

use crate::conversation_index::{cache_wf, lemma_lookup, lookup, ProviderCache, SourceFingerprint};
use crate::error::{AppError, AppErrorView};
use crate::history::recency::{newest_first_numbered, sort_newest_first};
use crate::history::{
    all_wf, blocks_view, clone_opt, errors_view, AssistantMessage, ContentBlock, ContentBlockView,
    Conversation, ConversationView, LogEntry, LogEntryView, ParseError, ParseErrorView,
    ProviderKind, UserMessage,
};
use crate::order::{is_order, lemma_order_is_distinct, order_by_key, rearrange, rearranged};
use crate::paths::{
    extension, file_name, file_stem, join, lemma_parent_is_shorter, opt_text, parent,
    spec_extension, spec_file_name, spec_file_stem, spec_join, spec_parent,
};
use crate::providers::workspace::{resolve_workspace_path, workspace_of, Disk, DiskView};
use crate::providers::{CommandSpec, CommandSpecView};
use crate::text::{
    concat, decimal, decimal_text, is_blank, is_blank_text, join as join_texts, joined, lowercase,
    normalize_whitespace, respaced, same_text, split, split_on, texts, to_lowercase,
};
use crate::time::{
    local_now, minutes_between, nanos_between, parse_rfc3339, rfc3339_reading, to_local,
    whole_minutes, Timestamp,
};
use vstd::prelude::*;

verus! {

/// A block of a transcript line; `input`, `source` and `content` are JSON text.
#[derive(Debug)]
pub struct TranscriptBlock {
    pub block_type: String,
    pub text: Option<String>,
    pub name: Option<String>,
    pub input: Option<String>,
    pub thinking: Option<String>,
    pub signature: Option<String>,
    pub source: Option<String>,
    pub content: Option<String>,
    pub tool_use_id: Option<String>,
    pub id: Option<String>,
}

/// A line of a transcript.
#[derive(Debug)]
pub struct TranscriptRecord {
    pub role: String,
    pub timestamp: Option<String>,
    pub content: Vec<TranscriptBlock>,
}

/// What a line of a transcript comes to.
#[derive(Debug)]
pub struct ParsedTranscriptLine {
    pub entry: LogEntry,
    pub text_for_search: Option<String>,
    pub text_for_preview: Option<String>,
    pub timestamp: Option<Timestamp>,
    pub counts_as_message: bool,
}

/// What a `ParsedTranscriptLine` says.
pub struct ParsedLineView {
    pub entry: LogEntryView,
    pub text_for_search: Option<Seq<char>>,
    pub text_for_preview: Option<Seq<char>>,
    pub timestamp: Option<Timestamp>,
    pub counts_as_message: bool,
}

impl View for ParsedTranscriptLine {
    type V = ParsedLineView;

    open spec fn view(&self) -> ParsedLineView {
        ParsedLineView {
            entry: self.entry@,
            text_for_search: opt_text(self.text_for_search),
            text_for_preview: opt_text(self.text_for_preview),
            timestamp: self.timestamp,
            counts_as_message: self.counts_as_message,
        }
    }
}

// Blocks

/// An optional text, or another one where it is missing.
pub open spec fn or_else(text: Option<Seq<char>>, other: Seq<char>) -> Seq<char> {
    match text {
        Some(t) => t,
        None => other,
    }
}

fn text_or(text: &Option<String>, other: String) -> (r: String)
    ensures
        r@ == or_else(opt_text(*text), other@),
{
    match text {
        Some(t) => t.clone(),
        None => other,
    }
}

/// An id for a block that has none: where it stands.
pub open spec fn place_id(prefix: Seq<char>, line_idx: nat, block_idx: nat) -> Seq<char> {
    prefix + decimal(line_idx) + "-"@ + decimal(block_idx)
}

fn place_id_text(prefix: &str, line_idx: usize, block_idx: usize) -> (r: String)
    ensures
        r@ == place_id(prefix@, line_idx as nat, block_idx as nat),
{
    let mut out: String = concat(prefix, decimal_text(line_idx as u64).as_str());
    out.append("-");
    out.append(decimal_text(block_idx as u64).as_str());
    out
}

/// The block that a block of a transcript stands for, where it is of a known type.
pub open spec fn content_of(block: &TranscriptBlock, line_idx: nat, block_idx: nat) -> Option<
    ContentBlockView,
> {
    let kind = block.block_type@;
    if kind == "text"@ {
        match block.text {
            Some(text) => Some(ContentBlockView::Text { text: text@ }),
            None => None,
        }
    } else if kind == "tool_use"@ {
        Some(
            ContentBlockView::ToolUse {
                id: or_else(opt_text(block.id), place_id("cursor-agent-"@, line_idx, block_idx)),
                name: or_else(opt_text(block.name), "tool"@),
                input: or_else(opt_text(block.input), "null"@),
            },
        )
    } else if kind == "tool_result"@ {
        Some(
            ContentBlockView::ToolResult {
                tool_use_id: or_else(
                    opt_text(block.tool_use_id),
                    place_id("cursor-agent-result-"@, line_idx, block_idx),
                ),
                content: opt_text(block.content),
            },
        )
    } else if kind == "thinking"@ {
        Some(
            ContentBlockView::Thinking {
                thinking: or_else(opt_text(block.thinking), ""@),
                signature: or_else(
                    opt_text(block.signature),
                    place_id("cursor-agent-thinking-"@, line_idx, block_idx),
                ),
            },
        )
    } else if kind == "image"@ {
        match block.source {
            Some(source) => Some(ContentBlockView::Image { source: source@ }),
            None => None,
        }
    } else {
        None
    }
}

/// What a block says, where there is one.
pub open spec fn block_view(block: Option<ContentBlock>) -> Option<ContentBlockView> {
    match block {
        Some(b) => Some(b@),
        None => None,
    }
}

/// The block that a block of a transcript stands for, where it is of a known type.
pub fn block_to_content_block(block: &TranscriptBlock, line_idx: usize, block_idx: usize) -> (r:
    Option<ContentBlock>)
    ensures
        block_view(r) == content_of(block, line_idx as nat, block_idx as nat),
{
    let kind: &str = block.block_type.as_str();
    if same_text(kind, "text") {
        match &block.text {
            Some(text) => Some(ContentBlock::Text { text: text.clone() }),
            None => None,
        }
    } else if same_text(kind, "tool_use") {
        Some(
            ContentBlock::ToolUse {
                id: text_or(&block.id, place_id_text("cursor-agent-", line_idx, block_idx)),
                name: text_or(&block.name, "tool".to_owned()),
                input: text_or(&block.input, "null".to_owned()),
            },
        )
    } else if same_text(kind, "tool_result") {
        Some(
            ContentBlock::ToolResult {
                tool_use_id: text_or(
                    &block.tool_use_id,
                    place_id_text("cursor-agent-result-", line_idx, block_idx),
                ),
                content: clone_opt(&block.content),
            },
        )
    } else if same_text(kind, "thinking") {
        Some(
            ContentBlock::Thinking {
                thinking: text_or(&block.thinking, "".to_owned()),
                signature: text_or(
                    &block.signature,
                    place_id_text("cursor-agent-thinking-", line_idx, block_idx),
                ),
            },
        )
    } else if same_text(kind, "image") {
        match &block.source {
            Some(source) => Some(ContentBlock::Image { source: source.clone() }),
            None => None,
        }
    } else {
        None
    }
}

/// The blocks that the first `n` blocks of a transcript line stand for.
pub open spec fn contents_among(blocks: Seq<TranscriptBlock>, line_idx: nat, n: nat) -> Seq<
    ContentBlockView,
>
    decreases n,
{
    if n == 0 {
        Seq::empty()
    } else {
        let before = contents_among(blocks, line_idx, (n - 1) as nat);
        match content_of(&blocks[n - 1], line_idx, (n - 1) as nat) {
            Some(b) => before.push(b),
            None => before,
        }
    }
}

/// The blocks that the blocks of a transcript line stand for.
pub open spec fn contents_of(record: &TranscriptRecord, line_idx: nat) -> Seq<ContentBlockView> {
    contents_among(record.content@, line_idx, record.content@.len())
}

fn convert_blocks(record: &TranscriptRecord, line_idx: usize) -> (r: Vec<ContentBlock>)
    ensures
        blocks_view(r@) == contents_of(record, line_idx as nat),
{
    let mut out: Vec<ContentBlock> = Vec::new();
    assert(blocks_view(out@) =~= Seq::<ContentBlockView>::empty());
    for i in 0..record.content.len()
        invariant
            blocks_view(out@) == contents_among(record.content@, line_idx as nat, i as nat),
    {
        let ghost was = out@;
        if let Some(b) = block_to_content_block(&record.content[i], line_idx, i) {
            out.push(b);
            assert(blocks_view(out@) =~= blocks_view(was).push(b@));
        }
    }
    out
}

/// The texts among the first `n` blocks.
pub open spec fn texts_among(blocks: Seq<ContentBlockView>, n: nat) -> Seq<Seq<char>>
    decreases n,
{
    if n == 0 {
        Seq::empty()
    } else {
        let before = texts_among(blocks, (n - 1) as nat);
        match blocks[n - 1] {
            ContentBlockView::Text { text } => before.push(text),
            _ => before,
        }
    }
}

/// The text of blocks: that of the text blocks, with spaces between them.
pub open spec fn text_of_blocks(blocks: Seq<ContentBlockView>) -> Seq<char> {
    joined(texts_among(blocks, blocks.len()), " "@)
}

/// The text of blocks: that of the text blocks, with spaces between them.
pub fn extract_text_from_blocks(blocks: &Vec<ContentBlock>) -> (r: String)
    ensures
        r@ == text_of_blocks(blocks_view(blocks@)),
{
    let mut parts: Vec<String> = Vec::new();
    assert(texts(parts@) =~= Seq::<Seq<char>>::empty());
    for i in 0..blocks.len()
        invariant
            texts(parts@) == texts_among(blocks_view(blocks@), i as nat),
    {
        let ghost was = parts@;
        assert(blocks_view(blocks@)[i as int] == blocks@[i as int]@);
        if let ContentBlock::Text { text } = &blocks[i] {
            parts.push(text.clone());
            assert(texts(parts@) =~= texts(was).push(text@));
        }
    }
    join_texts(parts.as_slice(), " ")
}

/// What a block without text is shown as, where it is shown.
pub open spec fn block_summary(block: &TranscriptBlock) -> Option<Seq<char>> {
    if block.block_type@ == "tool_use"@ {
        match block.name {
            Some(name) => Some("Tool: "@ + name@),
            None => None,
        }
    } else if block.block_type@ == "thinking"@ {
        Some("Thinking"@)
    } else {
        None
    }
}

/// What the first `n` blocks are shown as, three at most.
pub open spec fn summaries_among(blocks: Seq<TranscriptBlock>, n: nat) -> Seq<Seq<char>>
    decreases n,
{
    if n == 0 {
        Seq::empty()
    } else {
        let before = summaries_among(blocks, (n - 1) as nat);
        match block_summary(&blocks[n - 1]) {
            Some(s) => if before.len() < 3 {
                before.push(s)
            } else {
                before
            },
            None => before,
        }
    }
}

/// What blocks without text are shown as, where any is.
pub open spec fn summary_of_blocks(blocks: Seq<TranscriptBlock>) -> Option<Seq<char>> {
    let s = joined(summaries_among(blocks, blocks.len()), " ... "@);
    if s.len() == 0 {
        None
    } else {
        Some(s)
    }
}

/// What blocks without text are shown as, where any is.
pub fn summarize_blocks_for_preview(blocks: &Vec<TranscriptBlock>) -> (r: Option<String>)
    ensures
        opt_text(r) == summary_of_blocks(blocks@),
{
    let mut parts: Vec<String> = Vec::new();
    assert(texts(parts@) =~= Seq::<Seq<char>>::empty());
    for i in 0..blocks.len()
        invariant
            texts(parts@) == summaries_among(blocks@, i as nat),
    {
        let ghost was = parts@;
        assert(texts(was).len() == was.len());
        let kind: &str = blocks[i].block_type.as_str();
        let shown: Option<String> = if same_text(kind, "tool_use") {
            match &blocks[i].name {
                Some(name) => Some(concat("Tool: ", name.as_str())),
                None => None,
            }
        } else if same_text(kind, "thinking") {
            Some("Thinking".to_owned())
        } else {
            None
        };
        if let Some(s) = shown {
            if parts.len() < 3 {
                parts.push(s);
                assert(texts(parts@) =~= texts(was).push(s@));
            }
        }
    }
    let summary: String = join_texts(parts.as_slice(), " ... ");
    if summary.as_str().unicode_len() == 0 {
        None
    } else {
        Some(summary)
    }
}

// Lines

/// The message of a line, where its role, in lower case, is that of the user or the assistant.
pub open spec fn entry_of(
    role_lower: Seq<char>,
    blocks: Seq<ContentBlockView>,
    timestamp: Seq<char>,
    workspace: Option<Seq<char>>,
) -> Option<LogEntryView> {
    if role_lower == "user"@ {
        Some(
            LogEntryView::User {
                role: "user"@,
                content: blocks,
                timestamp,
                uuid: None,
                cwd: workspace,
            },
        )
    } else if role_lower == "assistant"@ {
        Some(
            LogEntryView::Assistant {
                role: "assistant"@,
                content: blocks,
                model: None,
                id: None,
                timestamp,
                uuid: None,
            },
        )
    } else {
        None
    }
}

/// What a message says, where there is one.
pub open spec fn entry_view(entry: Option<LogEntry>) -> Option<LogEntryView> {
    match entry {
        Some(e) => Some(e@),
        None => None,
    }
}

/// The message of a line, where its role, in lower case, is that of the user or the assistant.
pub fn entry_for_role(
    role_lower: &str,
    blocks: Vec<ContentBlock>,
    timestamp: String,
    workspace_path: &Option<String>,
) -> (r: Option<LogEntry>)
    ensures
        entry_view(r) == entry_of(
            role_lower@,
            blocks_view(blocks@),
            timestamp@,
            opt_text(*workspace_path),
        ),
{
    if same_text(role_lower, "user") {
        Some(
            LogEntry::User {
                message: UserMessage { role: "user".to_owned(), content: blocks },
                timestamp,
                uuid: None,
                cwd: clone_opt(workspace_path),
            },
        )
    } else if same_text(role_lower, "assistant") {
        Some(
            LogEntry::Assistant {
                message: AssistantMessage {
                    role: "assistant".to_owned(),
                    content: blocks,
                    model: None,
                    id: None,
                },
                timestamp,
                uuid: None,
            },
        )
    } else {
        None
    }
}

/// What is searched for and shown of a line: its text, or what its blocks are shown as where it
/// has none.
pub open spec fn line_summary(record: &TranscriptRecord, line_idx: nat) -> Option<Seq<char>> {
    let text = respaced(text_of_blocks(contents_of(record, line_idx)));
    if text.len() == 0 {
        summary_of_blocks(record.content@)
    } else {
        Some(text)
    }
}

/// The time that an optional text tells.
pub open spec fn opt_reading(text: Option<Seq<char>>) -> Option<Timestamp> {
    match text {
        Some(t) => rfc3339_reading(t),
        None => None,
    }
}

/// What a line comes to, given its role in lower case and the time that it tells: nothing
/// without a block of a known type, or where it is neither the user's nor the assistant's.
pub open spec fn line_with(
    record: &TranscriptRecord,
    line_idx: nat,
    workspace: Option<Seq<char>>,
    role_lower: Seq<char>,
    timestamp: Option<Timestamp>,
) -> Option<ParsedLineView> {
    let blocks = contents_of(record, line_idx);
    let told = or_else(opt_text(record.timestamp), ""@);
    if blocks.len() == 0 {
        None
    } else {
        match entry_of(role_lower, blocks, told, workspace) {
            Some(entry) => Some(
                ParsedLineView {
                    entry,
                    text_for_search: line_summary(record, line_idx),
                    text_for_preview: line_summary(record, line_idx),
                    timestamp,
                    counts_as_message: true,
                },
            ),
            None => None,
        }
    }
}

/// What a line comes to.
pub open spec fn line_of(
    record: &TranscriptRecord,
    line_idx: nat,
    workspace: Option<Seq<char>>,
) -> Option<ParsedLineView> {
    line_with(
        record,
        line_idx,
        workspace,
        lowercase(record.role@),
        opt_reading(opt_text(record.timestamp)),
    )
}

/// What a parsed line says, where there is one.
pub open spec fn parsed_view(line: Option<ParsedTranscriptLine>) -> Option<ParsedLineView> {
    match line {
        Some(l) => Some(l@),
        None => None,
    }
}

/// What a line comes to, given its role in lower case and the time that it tells.
pub fn parse_line_with(
    record: &TranscriptRecord,
    line_idx: usize,
    workspace_path: &Option<String>,
    role_lower: &str,
    timestamp: Option<Timestamp>,
) -> (r: Option<ParsedTranscriptLine>)
    ensures
        parsed_view(r) == line_with(
            record,
            line_idx as nat,
            opt_text(*workspace_path),
            role_lower@,
            timestamp,
        ),
{
    let blocks: Vec<ContentBlock> = convert_blocks(record, line_idx);
    assert(blocks_view(blocks@).len() == blocks@.len());
    if blocks.len() == 0 {
        return None;
    }
    let text: String = normalize_whitespace(extract_text_from_blocks(&blocks).as_str());
    let summary: Option<String> = if text.as_str().unicode_len() == 0 {
        summarize_blocks_for_preview(&record.content)
    } else {
        Some(text)
    };
    let timestamp_str: String = text_or(&record.timestamp, "".to_owned());
    let Some(entry) = entry_for_role(role_lower, blocks, timestamp_str, workspace_path) else {
        return None;
    };
    Some(
        ParsedTranscriptLine {
            entry,
            text_for_search: clone_opt(&summary),
            text_for_preview: summary,
            timestamp,
            counts_as_message: true,
        },
    )
}

/// What a line of a transcript comes to. `line_idx` is its number, counted from one.
pub fn parse_transcript_line(
    record: &TranscriptRecord,
    line_idx: usize,
    workspace_path: &Option<String>,
) -> (r: Option<ParsedTranscriptLine>)
    ensures
        parsed_view(r) == line_of(record, line_idx as nat, opt_text(*workspace_path)),
        r matches Some(l) ==> (l.timestamp matches Some(t) ==> t.wf()),
{
    let timestamp: Option<Timestamp> = match &record.timestamp {
        Some(text) => parse_rfc3339(text.as_str()),
        None => None,
    };
    let role: String = to_lowercase(record.role.as_str());
    parse_line_with(record, line_idx, workspace_path, role.as_str(), timestamp)
}

// Transcripts

/// A line of a transcript file.
#[derive(Debug)]
pub enum TranscriptLine {
    /// A line that could not be read, and why.
    Unreadable(String),
    /// A line, and the record in it or why it holds none. The record of a blank line is not
    /// looked at.
    Text { content: String, record: Result<TranscriptRecord, String> },
}

/// A line that could not be made sense of.
pub open spec fn line_error(number: nat, content: Seq<char>, message: Seq<char>) -> ParseErrorView {
    ParseErrorView {
        line_number: number,
        line_content: content,
        error_message: message,
        context_before: Seq::empty(),
        context_after: Seq::empty(),
    }
}

/// What the lines of a transcript come to.
#[verifier::ext_equal]
pub struct GatheredView {
    pub search: Seq<Seq<char>>,
    pub preview: Seq<Seq<char>>,
    pub messages: nat,
    pub errors: Seq<ParseErrorView>,
    pub first: Option<Timestamp>,
    pub last: Option<Timestamp>,
}

/// One more text, where there is one.
pub open spec fn with_text(parts: Seq<Seq<char>>, text: Option<Seq<char>>) -> Seq<Seq<char>> {
    match text {
        Some(t) => parts.push(t),
        None => parts,
    }
}

impl GatheredView {
    pub open spec fn nothing() -> GatheredView {
        GatheredView {
            search: Seq::empty(),
            preview: Seq::empty(),
            messages: 0,
            errors: Seq::empty(),
            first: None,
            last: None,
        }
    }

    pub open spec fn with_error(self, error: ParseErrorView) -> GatheredView {
        GatheredView { errors: self.errors.push(error), ..self }
    }

    pub open spec fn with_line(self, line: ParsedLineView) -> GatheredView {
        GatheredView {
            search: with_text(self.search, line.text_for_search),
            preview: with_text(self.preview, line.text_for_preview),
            messages: if line.counts_as_message {
                self.messages + 1
            } else {
                self.messages
            },
            errors: self.errors,
            first: if self.first is None {
                line.timestamp
            } else {
                self.first
            },
            last: if line.timestamp is Some {
                line.timestamp
            } else {
                self.last
            },
        }
    }

    /// One more line of the file; `number` is its number, counted from one.
    pub open spec fn with(self, line: TranscriptLine, number: nat, workspace: Option<Seq<char>>)
        -> GatheredView {
        match line {
            TranscriptLine::Unreadable(message) => self.with_error(
                line_error(number, Seq::empty(), message@),
            ),
            TranscriptLine::Text { content, record } => if is_blank(content@) {
                self
            } else {
                match record {
                    Ok(record) => match line_of(&record, number, workspace) {
                        Some(parsed) => self.with_line(parsed),
                        None => self,
                    },
                    Err(message) => self.with_error(line_error(number, content@, message@)),
                }
            },
        }
    }
}

/// What the first `n` lines of a transcript come to.
pub open spec fn gathered(lines: Seq<TranscriptLine>, workspace: Option<Seq<char>>, n: nat)
    -> GatheredView
    decreases n,
{
    if n == 0 {
        GatheredView::nothing()
    } else {
        gathered(lines, workspace, (n - 1) as nat).with(lines[n - 1], n, workspace)
    }
}

/// What the lines of a transcript come to.
#[derive(Debug)]
pub struct Gathered {
    /// What is searched.
    pub search: Vec<String>,
    /// What is shown.
    pub preview: Vec<String>,
    /// How many messages there are.
    pub messages: usize,
    pub errors: Vec<ParseError>,
    /// The first and the last time that a line tells.
    pub first: Option<Timestamp>,
    pub last: Option<Timestamp>,
}

impl View for Gathered {
    type V = GatheredView;

    open spec fn view(&self) -> GatheredView {
        GatheredView {
            search: texts(self.search@),
            preview: texts(self.preview@),
            messages: self.messages as nat,
            errors: errors_view(self.errors@),
            first: self.first,
            last: self.last,
        }
    }
}

impl Gathered {
    /// Whether the times lie in the calendar, and there are both or none.
    pub open spec fn wf(&self) -> bool {
        &&& self.first matches Some(t) ==> t.wf()
        &&& self.last matches Some(t) ==> t.wf()
        &&& self.first is Some <==> self.last is Some
    }

    fn new() -> (r: Gathered)
        ensures
            r@ == GatheredView::nothing(),
            r.wf(),
    {
        let r = Gathered {
            search: Vec::new(),
            preview: Vec::new(),
            messages: 0,
            errors: Vec::new(),
            first: None,
            last: None,
        };
        assert(r@ =~= GatheredView::nothing());
        r
    }

    fn add_error(&mut self, line_number: usize, line_content: String, error_message: String)
        requires
            old(self).wf(),
        ensures
            final(self)@ == old(self)@.with_error(
                line_error(line_number as nat, line_content@, error_message@),
            ),
            final(self).wf(),
    {
        let ghost before = self@;
        let ghost was = self.errors@;
        let error = ParseError {
            line_number,
            line_content,
            error_message,
            context_before: Vec::new(),
            context_after: Vec::new(),
        };
        assert(error@ =~= line_error(line_number as nat, line_content@, error_message@));
        self.errors.push(error);
        assert(errors_view(self.errors@) =~= errors_view(was).push(error@));
    }

    fn add_line(&mut self, parsed: ParsedTranscriptLine)
        requires
            old(self).wf(),
            parsed.timestamp matches Some(t) ==> t.wf(),
            old(self).messages < usize::MAX,
        ensures
            final(self)@ == old(self)@.with_line(parsed@),
            final(self).wf(),
            final(self).messages <= old(self).messages + 1,
    {
        let ghost before = self@;
        if let Some(ts) = parsed.timestamp {
            if self.first.is_none() {
                self.first = Some(ts);
            }
            self.last = Some(ts);
        }
        let ghost searched = self.search@;
        let ghost previewed = self.preview@;
        if let Some(text) = parsed.text_for_search {
            self.search.push(text);
            assert(texts(self.search@) =~= texts(searched).push(text@));
        }
        if let Some(text) = parsed.text_for_preview {
            self.preview.push(text);
            assert(texts(self.preview@) =~= texts(previewed).push(text@));
        }
        if parsed.counts_as_message {
            self.messages = self.messages + 1;
        }
    }
}

/// Read the lines of a transcript.
pub fn gather_lines(lines: Vec<TranscriptLine>, workspace_path: &Option<String>) -> (r: Gathered)
    ensures
        r@ == gathered(lines@, opt_text(*workspace_path), lines@.len()),
        r.wf(),
{
    let ghost all = lines@;
    let count: usize = lines.len();
    let mut out: Gathered = Gathered::new();
    let mut number: usize = 0;
    for line in it: lines
        invariant
            it.seq() == all,
            count == all.len(),
            number == it.index(),
            out@ == gathered(all, opt_text(*workspace_path), number as nat),
            out.wf(),
            out.messages <= number,
    {
        assert(number < count);
        number = number + 1;
        match line {
            TranscriptLine::Unreadable(message) => {
                let empty: String = String::new();
                assert(empty@ =~= Seq::<char>::empty());
                out.add_error(number, empty, message);
            },
            TranscriptLine::Text { content, record } => {
                if !is_blank_text(content.as_str()) {
                    match record {
                        Ok(record) => {
                            if let Some(parsed) = parse_transcript_line(
                                &record,
                                number,
                                workspace_path,
                            ) {
                                out.add_line(parsed);
                            }
                        },
                        Err(message) => {
                            out.add_error(number, content, message);
                        },
                    }
                }
            },
        }
    }
    out
}

/// The parts that a preview shows: the first three, or the last three beginning with the last.
pub open spec fn shown_parts(parts: Seq<Seq<char>>, show_last: bool) -> Seq<Seq<char>> {
    Seq::new(
        if parts.len() < 3 {
            parts.len()
        } else {
            3
        },
        |i: int|
            if show_last {
                parts[parts.len() - 1 - i]
            } else {
                parts[i]
            },
    )
}

pub open spec fn preview_text(parts: Seq<Seq<char>>, show_last: bool) -> Seq<char> {
    respaced(joined(shown_parts(parts, show_last), " ... "@))
}

fn build_preview_text(parts: &Vec<String>, show_last: bool) -> (r: String)
    ensures
        r@ == preview_text(texts(parts@), show_last),
{
    let count: usize = if parts.len() < 3 {
        parts.len()
    } else {
        3
    };
    let mut shown: Vec<String> = Vec::new();
    for i in 0..count
        invariant
            count == (if parts@.len() < 3 {
                parts@.len()
            } else {
                3
            }),
            texts(shown@) == shown_parts(texts(parts@), show_last).take(i as int),
    {
        let ghost was = shown@;
        let k: usize = if show_last {
            parts.len() - 1 - i
        } else {
            i
        };
        shown.push(parts[k].clone());
        assert(texts(shown@) =~= texts(was).push(parts@[k as int]@));
        assert(texts(shown@) =~= shown_parts(texts(parts@), show_last).take(i + 1));
    }
    assert(shown_parts(texts(parts@), show_last).take(count as int) =~= shown_parts(
        texts(parts@),
        show_last,
    ));
    normalize_whitespace(join_texts(shown.as_slice(), " ... ").as_str())
}

/// The name that a project goes by without a workspace: the last segment of its encoded name.
pub open spec fn last_segment(project_dir_name: Seq<char>) -> Option<Seq<char>> {
    let segment = split_on(project_dir_name, '-').last();
    if segment.len() > 0 {
        Some(segment)
    } else {
        None
    }
}

/// The name that a project goes by: that of its workspace, else the last segment of its encoded
/// name.
pub open spec fn project_name_of(
    workspace: Option<Seq<char>>,
    workspace_name: Seq<char>,
    project_dir_name: Seq<char>,
) -> Option<Seq<char>> {
    match workspace {
        Some(_) => Some(workspace_name),
        None => last_segment(project_dir_name),
    }
}

fn choose_project_name(
    workspace_path: &Option<String>,
    workspace_name: String,
    project_dir_name: &str,
) -> (r: Option<String>)
    ensures
        opt_text(r) == project_name_of(
            opt_text(*workspace_path),
            workspace_name@,
            project_dir_name@,
        ),
{
    if workspace_path.is_some() {
        return Some(workspace_name);
    }
    let segments: Vec<String> = split(project_dir_name, '-');
    proof {
        crate::text::law_pieces_join_to_the_text(project_dir_name@, '-');
        assert(texts(segments@).len() == segments@.len());
    }
    let segment: String = segments[segments.len() - 1].clone();
    assert(segment@ == texts(segments@).last());
    if segment.as_str().unicode_len() > 0 {
        Some(segment)
    } else {
        None
    }
}

/// Whether `t` is when a conversation was last active: the time of its last message, else of
/// its file's last change, else the present. It is shown in the machine's time zone, which is
/// left open.
pub open spec fn is_activity_time(
    last: Option<Timestamp>,
    modified: Option<Timestamp>,
    t: Timestamp,
) -> bool {
    &&& t.wf()
    &&& match last {
        Some(l) => t.secs == l.secs && t.nanos == l.nanos,
        None => modified matches Some(m) ==> t.secs == m.secs && t.nanos == m.nanos,
    }
}

/// When a conversation was last active.
pub fn activity_time(last: Option<Timestamp>, modified: Option<Timestamp>) -> (r: Timestamp)
    requires
        last matches Some(t) ==> t.wf(),
        modified matches Some(t) ==> t.wf(),
    ensures
        is_activity_time(last, modified, r),
{
    match last {
        Some(t) => to_local(t),
        None => match modified {
            Some(t) => to_local(t),
            None => local_now(),
        },
    }
}

/// How long a conversation took, in whole minutes, where it took at least one.
pub open spec fn minutes_taken(first: Option<Timestamp>, last: Option<Timestamp>) -> Option<u64> {
    match (first, last) {
        (Some(a), Some(b)) => {
            let minutes = whole_minutes(nanos_between(b, a));
            if minutes > 0 {
                Some(minutes as u64)
            } else {
                None
            }
        },
        _ => None,
    }
}

fn duration_of(first: Option<Timestamp>, last: Option<Timestamp>) -> (r: Option<u64>)
    requires
        first matches Some(t) ==> t.wf(),
        last matches Some(t) ==> t.wf(),
    ensures
        r == minutes_taken(first, last),
{
    match (first, last) {
        (Some(a), Some(b)) => {
            let minutes: i64 = minutes_between(b, a);
            if minutes > 0 {
                Some(minutes as u64)
            } else {
                None
            }
        },
        _ => None,
    }
}

/// The conversation in a transcript, given what its lines come to and when it was last active;
/// nothing where there is nothing to show of it.
pub open spec fn conversation_of(
    path: Seq<char>,
    show_last: bool,
    workspace: Option<Seq<char>>,
    workspace_name: Seq<char>,
    project_dir_name: Seq<char>,
    g: GatheredView,
    timestamp: Timestamp,
) -> Option<ConversationView> {
    if g.preview.len() == 0 {
        None
    } else {
        Some(
            ConversationView {
                path,
                index: 0,
                provider: ProviderKind::CursorAgent,
                id: or_else(spec_file_stem(path), "unknown"@),
                timestamp,
                preview: preview_text(g.preview, show_last),
                full_text: respaced(joined(g.search, " "@)),
                project_name: project_name_of(workspace, workspace_name, project_dir_name),
                project_path: workspace,
                cwd: workspace,
                message_count: g.messages,
                parse_errors: g.errors,
                summary: None,
                model: None,
                total_tokens: 0,
                duration_minutes: minutes_taken(g.first, g.last),
                first_message_time: None,
                last_message_time: None,
                search_text_lower: None,
                search_topic_end: None,
            },
        )
    }
}

/// The conversation in a transcript file; nothing where there is nothing to show of it.
/// `workspace_name` is the short name of the workspace, and `modified` the time of the file's
/// last change, where it is known.
pub fn process_transcript_file(
    path: String,
    show_last: bool,
    workspace_path: Option<String>,
    workspace_name: String,
    project_dir_name: String,
    lines: Vec<TranscriptLine>,
    modified: Option<Timestamp>,
) -> (r: Option<Conversation>)
    requires
        modified matches Some(t) ==> t.wf(),
    ensures
        match r {
            Some(conv) => conv.wf() && conversation_of(
                path@,
                show_last,
                opt_text(workspace_path),
                workspace_name@,
                project_dir_name@,
                gathered(lines@, opt_text(workspace_path), lines@.len()),
                conv.timestamp,
            ) == Some(conv@) && is_activity_time(
                gathered(lines@, opt_text(workspace_path), lines@.len()).last,
                modified,
                conv.timestamp,
            ),
            None => gathered(lines@, opt_text(workspace_path), lines@.len()).preview.len() == 0,
        },
{
    let gathered_lines: Gathered = gather_lines(lines, &workspace_path);
    let timestamp: Timestamp = activity_time(gathered_lines.last, modified);
    conversation_from(
        path,
        show_last,
        workspace_path,
        workspace_name,
        project_dir_name.as_str(),
        gathered_lines,
        timestamp,
    )
}

/// The conversation in a transcript, given what its lines come to and when it was last active;
/// nothing where there is nothing to show of it.
pub fn conversation_from(
    path: String,
    show_last: bool,
    workspace_path: Option<String>,
    workspace_name: String,
    project_dir_name: &str,
    gathered_lines: Gathered,
    timestamp: Timestamp,
) -> (r: Option<Conversation>)
    requires
        gathered_lines.wf(),
        timestamp.wf(),
    ensures
        match r {
            Some(conv) => conv.wf() && conv.timestamp == timestamp && conversation_of(
                path@,
                show_last,
                opt_text(workspace_path),
                workspace_name@,
                project_dir_name@,
                gathered_lines@,
                timestamp,
            ) == Some(conv@),
            None => conversation_of(
                path@,
                show_last,
                opt_text(workspace_path),
                workspace_name@,
                project_dir_name@,
                gathered_lines@,
                timestamp,
            ) is None,
        },
{
    let ghost g = gathered_lines@;
    assert(g.preview.len() == gathered_lines.preview@.len());
    if gathered_lines.preview.len() == 0 {
        return None;
    }
    let preview: String = build_preview_text(&gathered_lines.preview, show_last);
    let full_text: String = normalize_whitespace(
        join_texts(gathered_lines.search.as_slice(), " ").as_str(),
    );
    let duration_minutes: Option<u64> = duration_of(gathered_lines.first, gathered_lines.last);
    let id: String = match file_stem(path.as_str()) {
        Some(stem) => stem,
        None => "unknown".to_owned(),
    };
    let project_name: Option<String> = choose_project_name(
        &workspace_path,
        workspace_name,
        project_dir_name,
    );
    let cwd: Option<String> = clone_opt(&workspace_path);
    let conv = Conversation {
        path,
        index: 0,
        provider: ProviderKind::CursorAgent,
        id,
        timestamp,
        preview,
        full_text,
        project_name,
        project_path: workspace_path,
        cwd,
        message_count: gathered_lines.messages,
        parse_errors: gathered_lines.errors,
        summary: None,
        model: None,
        total_tokens: 0,
        duration_minutes,
        first_message_time: None,
        last_message_time: None,
        search_text_lower: None,
        search_topic_end: None,
    };
    Some(conv)
}

/// The messages in the first `n` lines of a transcript, or why they cannot be read.
pub open spec fn entries_in(
    path: Seq<char>,
    lines: Seq<TranscriptLine>,
    workspace: Option<Seq<char>>,
    n: nat,
) -> Result<Seq<LogEntryView>, AppErrorView>
    decreases n,
{
    if n == 0 {
        Ok(Seq::empty())
    } else {
        match entries_in(path, lines, workspace, (n - 1) as nat) {
            Err(e) => Err(e),
            Ok(before) => match lines[n - 1] {
                TranscriptLine::Unreadable(message) => Err(AppErrorView::Io(message@)),
                TranscriptLine::Text { content, record } => if is_blank(content@) {
                    Ok(before)
                } else {
                    match record {
                        Ok(record) => match line_of(&record, n, workspace) {
                            Some(parsed) => Ok(before.push(parsed.entry)),
                            None => Ok(before),
                        },
                        Err(message) => Err(
                            AppErrorView::ClaudeExecutionError(
                                bad_line_message(path, n, message@),
                            ),
                        ),
                    }
                },
            },
        }
    }
}

/// What is told of a line that holds no record.
pub open spec fn bad_line_message(path: Seq<char>, number: nat, message: Seq<char>) -> Seq<char> {
    "Failed to parse Cursor Agent transcript "@ + path + " line "@ + decimal(number) + ": "@
        + message
}

/// What a list of messages says.
pub open spec fn entries_view(entries: Seq<LogEntry>) -> Seq<LogEntryView> {
    entries.map_values(|e: LogEntry| e@)
}

proof fn lemma_first_failure_stays(
    path: Seq<char>,
    lines: Seq<TranscriptLine>,
    workspace: Option<Seq<char>>,
    n: nat,
    m: nat,
)
    requires
        n <= m,
        entries_in(path, lines, workspace, n) is Err,
    ensures
        entries_in(path, lines, workspace, m) == entries_in(path, lines, workspace, n),
    decreases m,
{
    if n < m {
        lemma_first_failure_stays(path, lines, workspace, n, (m - 1) as nat);
    }
}

/// A transcript is read to its end exactly where the conversation in it has no parse errors, and
/// its messages are then as many as the conversation counts.
pub proof fn law_messages_are_those_counted(
    path: Seq<char>,
    lines: Seq<TranscriptLine>,
    workspace: Option<Seq<char>>,
    shown_in: Option<Seq<char>>,
    n: nat,
)
    ensures
        entries_in(path, lines, shown_in, n) is Ok <==> gathered(lines, workspace, n).errors.len()
            == 0,
        entries_in(path, lines, shown_in, n) matches Ok(entries) ==> entries.len() == gathered(
            lines,
            workspace,
            n,
        ).messages,
    decreases n,
{
    if n > 0 {
        law_messages_are_those_counted(path, lines, workspace, shown_in, (n - 1) as nat);
    }
}

/// The messages of a conversation; the first line that cannot be read or holds no record ends
/// the reading.
pub fn read_entries(conversation: &Conversation, lines: Vec<TranscriptLine>) -> (r: Result<
    Vec<LogEntry>,
    AppError,
>)
    ensures
        match r {
            Ok(entries) => entries_in(
                conversation.path@,
                lines@,
                opt_text(conversation.project_path),
                lines@.len(),
            ) == Ok::<Seq<LogEntryView>, AppErrorView>(entries_view(entries@)),
            Err(e) => entries_in(
                conversation.path@,
                lines@,
                opt_text(conversation.project_path),
                lines@.len(),
            ) == Err::<Seq<LogEntryView>, AppErrorView>(e@),
        },
{
    let ghost all = lines@;
    let ghost path = conversation.path@;
    let ghost workspace = opt_text(conversation.project_path);
    let count: usize = lines.len();
    let mut entries: Vec<LogEntry> = Vec::new();
    assert(entries_view(entries@) =~= Seq::<LogEntryView>::empty());
    let mut number: usize = 0;
    for line in it: lines
        invariant
            it.seq() == all,
            count == all.len(),
            number == it.index(),
            path == conversation.path@,
            workspace == opt_text(conversation.project_path),
            entries_in(path, all, workspace, number as nat) == Ok::<
                Seq<LogEntryView>,
                AppErrorView,
            >(entries_view(entries@)),
    {
        assert(number < count);
        number = number + 1;
        match line {
            TranscriptLine::Unreadable(message) => {
                proof {
                    lemma_first_failure_stays(path, all, workspace, number as nat, all.len());
                }
                return Err(AppError::Io(message));
            },
            TranscriptLine::Text { content, record } => {
                if !is_blank_text(content.as_str()) {
                    match record {
                        Ok(record) => {
                            if let Some(parsed) = parse_transcript_line(
                                &record,
                                number,
                                &conversation.project_path,
                            ) {
                                let ghost was = entries@;
                                let entry: LogEntry = parsed.entry;
                                entries.push(entry);
                                assert(entries_view(entries@) =~= entries_view(was).push(entry@));
                            }
                        },
                        Err(why) => {
                            let mut message: String = concat(
                                "Failed to parse Cursor Agent transcript ",
                                conversation.path.as_str(),
                            );
                            message.append(" line ");
                            message.append(decimal_text(number as u64).as_str());
                            message.append(": ");
                            message.append(why.as_str());
                            proof {
                                lemma_first_failure_stays(
                                    path,
                                    all,
                                    workspace,
                                    number as nat,
                                    all.len(),
                                );
                            }
                            return Err(AppError::ClaudeExecutionError(message));
                        },
                    }
                }
            },
        }
    }
    Ok(entries)
}

// Where transcripts are

/// The name of the directory that holds the transcripts of a project.
pub const TRANSCRIPTS_DIR: &'static str = "agent-transcripts";

/// The encoded name of the project that a transcript belongs to: that of the directory above
/// the innermost directory of transcripts on its path.
pub open spec fn project_dir_of(path: Seq<char>) -> Option<Seq<char>>
    decreases path.len(),
{
    proof {
        lemma_parent_is_shorter(path);
    }
    match spec_parent(path) {
        Some(dir) => if spec_file_name(path) == Some(TRANSCRIPTS_DIR@) {
            spec_file_name(dir)
        } else {
            project_dir_of(dir)
        },
        None => None,
    }
}

/// Extracts the encoded project directory name from a transcript file path.
///
/// Transcript paths look like:
/// `~/.cursor/projects/<encoded_dir>/agent-transcripts/<chatId>/<chatId>.jsonl`
pub fn extract_project_dir_name(transcript_path: &str) -> (r: Option<String>)
    ensures
        opt_text(r) == project_dir_of(transcript_path@),
{
    let mut ancestor: String = transcript_path.to_owned();
    loop
        invariant
            project_dir_of(transcript_path@) == project_dir_of(ancestor@),
        decreases ancestor@.len(),
    {
        proof {
            lemma_parent_is_shorter(ancestor@);
        }
        let Some(dir) = parent(ancestor.as_str()) else { return None };
        if let Some(name) = file_name(ancestor.as_str()) {
            if same_text(name.as_str(), TRANSCRIPTS_DIR) {
                return file_name(dir.as_str());
            }
        }
        ancestor = dir;
    }
}

/// The directory that a transcript has to itself: its parent, where that is named after the
/// conversation and lies in a directory of transcripts.
pub open spec fn own_dir(path: Seq<char>, id: Seq<char>) -> Option<Seq<char>> {
    match spec_parent(path) {
        Some(dir) => match spec_parent(dir) {
            Some(above) => if spec_file_name(dir) == Some(id) && spec_file_name(above) == Some(
                TRANSCRIPTS_DIR@,
            ) {
                Some(dir)
            } else {
                None
            },
            None => None,
        },
        None => None,
    }
}

/// The directory that a transcript has to itself, where it has one.
pub fn transcript_parent_dir(path: &str, conversation_id: &str) -> (r: Option<String>)
    ensures
        opt_text(r) == own_dir(path@, conversation_id@),
{
    let Some(dir) = parent(path) else { return None };
    let Some(dir_name) = file_name(dir.as_str()) else { return None };
    let Some(above) = parent(dir.as_str()) else { return None };
    let Some(above_name) = file_name(above.as_str()) else { return None };
    if same_text(dir_name.as_str(), conversation_id) && same_text(
        above_name.as_str(),
        TRANSCRIPTS_DIR,
    ) {
        Some(dir)
    } else {
        None
    }
}

/// What is deleted of a conversation.
#[derive(Debug)]
pub enum DeletePlan {
    /// A directory and all that is in it.
    Directory(String),
    /// A file.
    File(String),
}

/// What is deleted of a conversation: the directory that its transcript has to itself, where
/// that is there, else the transcript.
pub fn plan_delete(conversation: &Conversation, own_dir_exists: bool) -> (r: DeletePlan)
    ensures
        match r {
            DeletePlan::Directory(dir) => own_dir_exists && own_dir(
                conversation.path@,
                conversation.id@,
            ) == Some(dir@),
            DeletePlan::File(path) => path@ == conversation.path@ && (!own_dir_exists || own_dir(
                conversation.path@,
                conversation.id@,
            ) is None),
        },
{
    if let Some(dir) = transcript_parent_dir(
        conversation.path.as_str(),
        conversation.id.as_str(),
    ) {
        if own_dir_exists {
            return DeletePlan::Directory(dir);
        }
    }
    DeletePlan::File(conversation.path.clone())
}

/// What is on disk in a directory of transcripts.
#[derive(Debug)]
pub struct TranscriptDirEntry {
    pub path: String,
    pub name: String,
    pub is_file: bool,
    pub is_dir: bool,
    /// Whether a directory holds a file named after it.
    pub default_is_file: bool,
    /// What a directory holds, where it can be read: paths, and whether they are files.
    pub nested: Vec<(String, bool)>,
}

/// Whether a path ends in `.jsonl`.
pub open spec fn is_jsonl(path: Seq<char>) -> bool {
    spec_extension(path) == Some("jsonl"@)
}

fn has_jsonl_extension(path: &str) -> (r: bool)
    ensures
        r == is_jsonl(path@),
{
    match extension(path) {
        Some(ext) => same_text(ext.as_str(), "jsonl"),
        None => false,
    }
}

/// The first transcript, from `from` on, among what a directory holds.
pub open spec fn first_nested(nested: Seq<(String, bool)>, from: nat) -> Option<Seq<char>>
    decreases nested.len() - from,
{
    if from >= nested.len() {
        None
    } else if nested[from as int].1 && is_jsonl(nested[from as int].0@) {
        Some(nested[from as int].0@)
    } else {
        first_nested(nested, from + 1)
    }
}

/// The transcript file that a directory named after it holds.
pub open spec fn default_transcript(entry: TranscriptDirEntry) -> Seq<char> {
    spec_join(entry.path@, entry.name@ + ".jsonl"@)
}

/// The transcript that an entry of a directory of transcripts stands for, where it does: the
/// file itself, or in a directory the file named after it, else the first transcript in it.
pub open spec fn transcript_at(entry: TranscriptDirEntry) -> Option<Seq<char>> {
    if entry.is_file && is_jsonl(entry.path@) {
        Some(entry.path@)
    } else if !entry.is_dir {
        None
    } else if entry.default_is_file {
        Some(default_transcript(entry))
    } else {
        first_nested(entry.nested@, 0)
    }
}

fn find_nested(nested: &Vec<(String, bool)>) -> (r: Option<String>)
    ensures
        opt_text(r) == first_nested(nested@, 0),
{
    for i in 0..nested.len()
        invariant
            first_nested(nested@, 0) == first_nested(nested@, i as nat),
    {
        if nested[i].1 && has_jsonl_extension(nested[i].0.as_str()) {
            return Some(nested[i].0.clone());
        }
    }
    None
}

/// The transcript that an entry of a directory of transcripts stands for.
pub fn pick_transcript(entry: &TranscriptDirEntry) -> (r: Option<String>)
    ensures
        opt_text(r) == transcript_at(*entry),
{
    if entry.is_file && has_jsonl_extension(entry.path.as_str()) {
        return Some(entry.path.clone());
    }
    if !entry.is_dir {
        return None;
    }
    if entry.default_is_file {
        let name: String = concat(entry.name.as_str(), ".jsonl");
        return Some(join(entry.path.as_str(), name.as_str()));
    }
    find_nested(&entry.nested)
}

/// The transcripts among the first `n` entries of a directory of transcripts.
pub open spec fn transcripts_among(entries: Seq<TranscriptDirEntry>, n: nat) -> Seq<Seq<char>>
    decreases n,
{
    if n == 0 {
        Seq::empty()
    } else {
        with_text(transcripts_among(entries, (n - 1) as nat), transcript_at(entries[n - 1]))
    }
}

/// The transcripts in a directory of transcripts.
pub fn collect_transcript_files(entries: &Vec<TranscriptDirEntry>) -> (r: Vec<String>)
    ensures
        texts(r@) == transcripts_among(entries@, entries@.len()),
{
    let mut files: Vec<String> = Vec::new();
    assert(texts(files@) =~= Seq::<Seq<char>>::empty());
    for i in 0..entries.len()
        invariant
            texts(files@) == transcripts_among(entries@, i as nat),
    {
        let ghost was = files@;
        if let Some(path) = pick_transcript(&entries[i]) {
            files.push(path);
            assert(texts(files@) =~= texts(was).push(path@));
        }
    }
    files
}

/// Whether `order` lists files by the time of their last change, the latest first; of equally
/// old ones the last comes first.
pub open spec fn is_latest_first(times: Seq<i128>, order: Seq<usize>) -> bool {
    is_order(times, order.reverse())
}

/// Puts files by the time of their last change, the latest first.
pub fn sort_latest_first(files: Vec<String>, times: &[i128]) -> (r: Vec<String>)
    requires
        times@.len() == files@.len(),
    ensures
        exists|order: Seq<usize>| #[trigger]
            is_latest_first(times@, order) && r@ == rearranged(files@, order),
{
    let order: Vec<usize> = order_by_key(times);
    proof {
        lemma_order_is_distinct(times@, order@);
    }
    let mut reversed: Vec<usize> = Vec::new();
    let count: usize = order.len();
    for i in 0..count
        invariant
            count == order@.len(),
            reversed@ == order@.reverse().take(i as int),
    {
        reversed.push(order[count - 1 - i]);
        assert(reversed@ =~= order@.reverse().take(i + 1));
    }
    assert(reversed@ =~= order@.reverse());
    proof {
        assert(reversed@.reverse() =~= order@);
        assert(is_latest_first(times@, reversed@));
        assert forall|i: int| 0 <= i < reversed@.len() implies #[trigger] reversed@[i]
            < files@.len() by {
            assert(reversed@[i] == order@[order@.len() - 1 - i]);
        }
        assert forall|i: int, j: int|
            0 <= i < reversed@.len() && 0 <= j < reversed@.len() && i != j implies reversed@[i]
            != reversed@[j] by {
            assert(order@[order@.len() - 1 - i] != order@[order@.len() - 1 - j]);
        }
    }
    rearrange(files, reversed.as_slice())
}

// Projects

/// A project with transcripts.
#[derive(Debug)]
pub struct AgentProject {
    pub project_dir_name: String,
    pub workspace_path: Option<String>,
    pub transcript_files: Vec<String>,
    /// When the latest transcript was changed, in nanoseconds since 1970.
    pub modified: i128,
}

/// The latest of the times that are known among the first `n`, or that of 1970.
pub open spec fn latest_among(times: Seq<Option<i128>>, n: nat) -> Option<i128>
    decreases n,
{
    if n == 0 {
        None
    } else {
        match (latest_among(times, (n - 1) as nat), times[n - 1]) {
            (Some(a), Some(b)) => if a > b {
                Some(a)
            } else {
                Some(b)
            },
            (Some(a), None) => Some(a),
            (None, b) => b,
        }
    }
}

/// When a project was changed: the latest of the known times of its transcripts, or 1970 where
/// none is known.
pub fn project_modified(times: &[Option<i128>]) -> (r: i128)
    ensures
        r == (match latest_among(times@, times@.len()) {
            Some(t) => t,
            None => 0,
        }),
{
    let mut latest: Option<i128> = None;
    for i in 0..times.len()
        invariant
            latest == latest_among(times@, i as nat),
    {
        if let Some(t) = times[i] {
            latest = match latest {
                Some(a) => if a > t {
                    Some(a)
                } else {
                    Some(t)
                },
                None => Some(t),
            };
        }
    }
    match latest {
        Some(t) => t,
        None => 0,
    }
}

/// The keys by which projects are put latest first.
pub open spec fn project_keys(projects: Seq<AgentProject>) -> Seq<i128> {
    projects.map_values(|p: AgentProject| (-p.modified) as i128)
}

/// Puts projects by the time of their last change, the latest first; equally old ones stay as
/// they stood.
pub fn sort_projects(projects: Vec<AgentProject>) -> (r: Vec<AgentProject>)
    requires
        forall|i: int| 0 <= i < projects@.len() ==> (#[trigger] projects@[i]).modified > i128::MIN,
    ensures
        exists|order: Seq<usize>| #[trigger]
            is_order(project_keys(projects@), order) && r@ == rearranged(projects@, order),
{
    let mut keys: Vec<i128> = Vec::new();
    for i in 0..projects.len()
        invariant
            forall|i: int|
                0 <= i < projects@.len() ==> (#[trigger] projects@[i]).modified > i128::MIN,
            keys@ == project_keys(projects@).take(i as int),
    {
        let key: i128 = -projects[i].modified;
        keys.push(key);
        assert(keys@ =~= project_keys(projects@).take(i + 1));
    }
    assert(keys@ =~= project_keys(projects@));
    let order: Vec<usize> = order_by_key(keys.as_slice());
    proof {
        lemma_order_is_distinct(keys@, order@);
    }
    let r: Vec<AgentProject> = rearrange(projects, order.as_slice());
    assert(is_order(project_keys(projects@), order@) && r@ == rearranged(projects@, order@));
    r
}

/// A conversation that was loaded: from the index, or from its transcript together with the
/// fingerprint to keep it under.
#[derive(Debug)]
pub enum ConversationLoad {
    Cached(Conversation),
    Fresh(Conversation, SourceFingerprint),
}

impl ConversationLoad {
    pub open spec fn conversation(self) -> Conversation {
        match self {
            ConversationLoad::Cached(c) => c,
            ConversationLoad::Fresh(c, _) => c,
        }
    }

    pub fn into_conversation(self) -> (r: Conversation)
        ensures
            r == self.conversation(),
    {
        match self {
            ConversationLoad::Cached(conversation) => conversation,
            ConversationLoad::Fresh(conversation, _) => conversation,
        }
    }
}

/// The conversation that the index has for a transcript, where the transcript has not changed.
/// `fingerprint` is missing where the file could not be looked at.
pub fn load_from_cache(
    cache: &ProviderCache,
    path: &str,
    fingerprint: Option<SourceFingerprint>,
) -> (r: Option<Conversation>)
    requires
        cache_wf(cache@),
    ensures
        r is Some <==> fingerprint is Some && (lookup(cache@, path@) matches Some(c)
            && c.fingerprint == fingerprint->0),
        r matches Some(conv) ==> conv@ == lookup(cache@, path@)->0.conversation && conv.wf(),
{
    let Some(fingerprint) = fingerprint else { return None };
    proof {
        lemma_lookup(cache@, path@);
    }
    let Some(cached) = cache.get(path) else { return None };
    cached.conversation_if_fresh(fingerprint)
}

/// A conversation that was read from its transcript. Without a fingerprint it cannot be kept in
/// the index.
pub fn loaded_fresh(conversation: Conversation, fingerprint: Option<SourceFingerprint>) -> (r:
    ConversationLoad)
    ensures
        r == (match fingerprint {
            Some(f) => ConversationLoad::Fresh(conversation, f),
            None => ConversationLoad::Cached(conversation),
        }),
{
    match fingerprint {
        Some(f) => ConversationLoad::Fresh(conversation, f),
        None => ConversationLoad::Cached(conversation),
    }
}

/// What a transcript is loaded as: the conversation that the index has for it, else the one that
/// was read from it; nothing where there is neither. A conversation of the index needs no
/// reading.
pub fn load_step(
    cached: Option<Conversation>,
    parsed: Option<Conversation>,
    fingerprint: Option<SourceFingerprint>,
) -> (r: Option<ConversationLoad>)
    ensures
        r == (match (cached, parsed, fingerprint) {
            (Some(c), _, _) => Some(ConversationLoad::Cached(c)),
            (None, Some(p), Some(f)) => Some(ConversationLoad::Fresh(p, f)),
            (None, Some(p), None) => Some(ConversationLoad::Cached(p)),
            (None, None, _) => None,
        }),
{
    match cached {
        Some(conversation) => Some(ConversationLoad::Cached(conversation)),
        None => match parsed {
            Some(conversation) => Some(loaded_fresh(conversation, fingerprint)),
            None => None,
        },
    }
}

/// The loads among the first `n` that are to be kept in the index.
pub open spec fn fresh_among(loads: Seq<ConversationLoad>, n: nat) -> Seq<(
    ConversationView,
    SourceFingerprint,
)>
    decreases n,
{
    if n == 0 {
        Seq::empty()
    } else {
        let before = fresh_among(loads, (n - 1) as nat);
        match loads[n - 1] {
            ConversationLoad::Fresh(c, f) => before.push((c@, f)),
            ConversationLoad::Cached(_) => before,
        }
    }
}

/// What a list of conversations with fingerprints says.
pub open spec fn fresh_view(v: Seq<(Conversation, SourceFingerprint)>) -> Seq<(
    ConversationView,
    SourceFingerprint,
)> {
    v.map_values(|e: (Conversation, SourceFingerprint)| (e.0@, e.1))
}

/// Copies of the conversations that are to be kept in the index, with their fingerprints.
pub fn fresh_conversations(loads: &Vec<ConversationLoad>) -> (r: Vec<
    (Conversation, SourceFingerprint),
>)
    ensures
        fresh_view(r@) == fresh_among(loads@, loads@.len()),
{
    let mut out: Vec<(Conversation, SourceFingerprint)> = Vec::new();
    assert(fresh_view(out@) =~= Seq::<(ConversationView, SourceFingerprint)>::empty());
    for i in 0..loads.len()
        invariant
            fresh_view(out@) == fresh_among(loads@, i as nat),
    {
        let ghost was = out@;
        if let ConversationLoad::Fresh(c, f) = &loads[i] {
            let copy: Conversation = c.clone();
            out.push((copy, *f));
            assert(fresh_view(out@) =~= fresh_view(was).push((c@, *f)));
        }
    }
    out
}

/// The conversations that were loaded.
pub open spec fn loaded_conversations(loads: Seq<ConversationLoad>) -> Seq<Conversation> {
    loads.map_values(|l: ConversationLoad| l.conversation())
}

/// The conversations of a project, newest first.
pub fn load_project_conversations(loads: Vec<ConversationLoad>) -> (r: Vec<Conversation>)
    requires
        all_wf(loaded_conversations(loads@)),
    ensures
        r@ == newest_first_numbered(loaded_conversations(loads@)),
        r@.len() == loads@.len(),
        all_wf(r@),
{
    let ghost all = loads@;
    let mut conversations: Vec<Conversation> = Vec::new();
    for load in it: loads
        invariant
            it.seq() == all,
            conversations@ == loaded_conversations(all).take(it.index() as int),
    {
        conversations.push(load.into_conversation());
        assert(conversations@ =~= loaded_conversations(all).take(it.index() + 1));
    }
    assert(conversations@ =~= loaded_conversations(all));
    sort_newest_first(conversations)
}

// The provider

/// The provider of Cursor Agent conversations.
#[derive(Debug)]
pub struct CursorAgentProvider {
    projects_root: String,
}

impl View for CursorAgentProvider {
    type V = Seq<char>;

    closed spec fn view(&self) -> Seq<char> {
        self.projects_root@
    }
}

/// The directory of chats beside a directory of projects.
pub open spec fn chats_beside(projects_root: Seq<char>) -> Option<Seq<char>> {
    match spec_parent(projects_root) {
        Some(cursor_dir) => Some(spec_join(cursor_dir, "chats"@)),
        None => None,
    }
}

/// The path of a conversation's project, else its working directory.
pub open spec fn known_workspace(conv: &Conversation) -> Option<Seq<char>> {
    match conv.project_path {
        Some(p) => Some(p@),
        None => opt_text(conv.cwd),
    }
}

/// The workspace that a conversation is resumed in, or why there is none: the known one where
/// it is a directory, else the one behind the name of the project's directory.
pub open spec fn workspace_to_resume(
    disk: DiskView,
    conv: &Conversation,
    chats: Option<Seq<char>>,
) -> Result<Seq<char>, AppErrorView> {
    if known_workspace(conv) matches Some(p) && (disk.is_dir)(p) {
        Ok(known_workspace(conv)->0)
    } else {
        match project_dir_of(conv.path@) {
            Some(name) => match workspace_of(disk, name, chats) {
                Some(path) => Ok(path),
                None => Err(
                    AppErrorView::ClaudeExecutionError(
                        "Cannot determine workspace path for this Cursor Agent conversation"@,
                    ),
                ),
            },
            None => Err(
                AppErrorView::ClaudeExecutionError(
                    "Cannot determine project directory for this Cursor Agent conversation"@,
                ),
            ),
        }
    }
}

/// What a text or an error says.
pub open spec fn result_view(r: Result<String, AppError>) -> Result<Seq<char>, AppErrorView> {
    match r {
        Ok(s) => Ok(s@),
        Err(e) => Err(e@),
    }
}

impl CursorAgentProvider {
    /// `home` is the home directory; without one, paths are relative.
    pub fn new(home: Option<String>) -> (r: Self)
        ensures
            r@ == spec_join(spec_join(or_else(opt_text(home), ""@), ".cursor"@), "projects"@),
    {
        let home: String = match home {
            Some(h) => h,
            None => "".to_owned(),
        };
        let cursor: String = join(home.as_str(), ".cursor");
        CursorAgentProvider { projects_root: join(cursor.as_str(), "projects") }
    }

    /// A provider for another directory of projects.
    pub fn with_root(projects_root: String) -> (r: Self)
        ensures
            r@ == projects_root@,
    {
        CursorAgentProvider { projects_root }
    }

    pub fn kind(&self) -> (r: ProviderKind)
        ensures
            r == ProviderKind::CursorAgent,
    {
        ProviderKind::CursorAgent
    }

    pub fn name(&self) -> (r: &'static str)
        ensures
            r@ == "Cursor Agent CLI"@,
    {
        "Cursor Agent CLI"
    }

    pub fn projects_root(&self) -> (r: &str)
        ensures
            r@ == self@,
    {
        self.projects_root.as_str()
    }

    /// The directory of chats beside the projects.
    pub fn chats_dir(&self) -> (r: Option<String>)
        ensures
            opt_text(r) == chats_beside(self@),
    {
        match parent(self.projects_root.as_str()) {
            Some(cursor_dir) => Some(join(cursor_dir.as_str(), "chats")),
            None => None,
        }
    }

    /// The workspace that a conversation is resumed in.
    pub fn resume_workspace<
        E: Fn(&str) -> bool,
        D: Fn(&str) -> bool,
        L: Fn(&str) -> Option<Vec<String>>,
    >(&self, disk: &Disk<E, D, L>, conversation: &Conversation) -> (r: Result<String, AppError>)
        requires
            disk.answers(),
        ensures
            forall|view: DiskView| #[trigger]
                disk.tells(view) ==> result_view(r) == workspace_to_resume(
                    view,
                    conversation,
                    chats_beside(self@),
                ),
    {
        let known: Option<&String> = match &conversation.project_path {
            Some(p) => Some(p),
            None => match &conversation.cwd {
                Some(p) => Some(p),
                None => None,
            },
        };
        if let Some(path) = known {
            if (disk.is_dir)(path.as_str()) {
                return Ok(path.clone());
            }
        }
        let Some(encoded) = extract_project_dir_name(conversation.path.as_str()) else {
            return Err(
                AppError::ClaudeExecutionError(
                    "Cannot determine project directory for this Cursor Agent conversation"
                        .to_owned(),
                ),
            );
        };
        let chats: Option<String> = self.chats_dir();
        match resolve_workspace_path(disk, encoded.as_str(), &chats) {
            Some(path) => Ok(path),
            None => Err(
                AppError::ClaudeExecutionError(
                    "Cannot determine workspace path for this Cursor Agent conversation"
                        .to_owned(),
                ),
            ),
        }
    }
}

/// Which executables of the Cursor Agent are there.
#[derive(Clone, Copy, Debug, PartialEq, Eq, Structural)]
pub struct AgentCommands {
    pub cursor_agent: bool,
    pub agent: bool,
    pub cursor: bool,
}

/// The command that resumes a chat, where there is an executable for it.
pub open spec fn agent_command(commands: AgentCommands, workspace: Seq<char>, chat_id: Seq<char>)
    -> Option<CommandSpecView> {
    let args = seq!["--resume"@, chat_id, "--workspace"@, workspace];
    if commands.cursor_agent {
        Some(
            CommandSpecView { program: "cursor-agent"@, args, current_dir: workspace },
        )
    } else if commands.agent {
        Some(CommandSpecView { program: "agent"@, args, current_dir: workspace })
    } else if commands.cursor {
        Some(
            CommandSpecView {
                program: "cursor"@,
                args: seq!["agent"@] + args,
                current_dir: workspace,
            },
        )
    } else {
        None
    }
}

/// The command that resumes a chat, or that there is no executable for it.
pub fn build_resume_command(commands: AgentCommands, workspace_path: &str, chat_id: &str) -> (r:
    Result<CommandSpec, AppError>)
    ensures
        match r {
            Ok(command) => agent_command(commands, workspace_path@, chat_id@) == Some(command@),
            Err(e) => agent_command(commands, workspace_path@, chat_id@) is None && e@
                == AppErrorView::ClaudeExecutionError(
                "Could not find a Cursor Agent CLI executable (`cursor-agent`, `agent`, or `cursor`)"@,
            ),
        },
{
    let mut args: Vec<String> = Vec::new();
    let program: &str = if commands.cursor_agent {
        "cursor-agent"
    } else if commands.agent {
        "agent"
    } else if commands.cursor {
        args.push("agent".to_owned());
        "cursor"
    } else {
        return Err(
            AppError::ClaudeExecutionError(
                "Could not find a Cursor Agent CLI executable (`cursor-agent`, `agent`, or `cursor`)"
                    .to_owned(),
            ),
        );
    };
    args.push("--resume".to_owned());
    args.push(chat_id.to_owned());
    args.push("--workspace".to_owned());
    args.push(workspace_path.to_owned());
    let command = CommandSpec {
        program: program.to_owned(),
        args,
        current_dir: workspace_path.to_owned(),
    };
    assert(agent_command(commands, workspace_path@, chat_id@) =~= Some(command@)) by {
        assert(command@.args =~= agent_command(commands, workspace_path@, chat_id@)->0.args);
    }
    Ok(command)
}

} // verus!
