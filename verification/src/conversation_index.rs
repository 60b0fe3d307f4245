//! Persistent conversation metadata and search-text index.
//!
//! File-backed providers keep a table beside their transcripts, so that unchanged transcripts
//! need not be parsed again and their search text can be used on the next start. This module
//! turns conversations into rows of that table and rows into conversations.

use crate::history::{
    clone_opt, errors_view, Conversation, ConversationView, ParseError, ProviderKind,
    ToolName,
};
use crate::paths::{join, opt_text, path_id, same_path, spec_join};
use crate::time::{
    local_now, parse_rfc3339, rfc3339_exact, rfc3339_reading, rfc3339_text, timestamp_from_millis,
    to_local, to_rfc3339, Timestamp, MAX_SECS, MIN_SECS,
};
use vstd::prelude::*;

verus! {

/// The version of the table's layout; rows of other versions are not read.
pub const SCHEMA_VERSION: i64 = 3;

/// Creates the table.
pub const CREATE_TABLE_SQL: &'static str = "PRAGMA journal_mode=WAL;
CREATE TABLE IF NOT EXISTS file_conversations (
    schema_version        INTEGER NOT NULL,
    provider              TEXT NOT NULL,
    show_last             INTEGER NOT NULL,
    source_path           TEXT NOT NULL,
    source_mtime_millis   INTEGER NOT NULL,
    source_size           INTEGER NOT NULL,
    id                    TEXT NOT NULL,
    timestamp             TEXT NOT NULL,
    preview               TEXT NOT NULL,
    full_text             TEXT NOT NULL,
    search_text_lower     TEXT NOT NULL,
    search_topic_end      INTEGER NOT NULL,
    project_name          TEXT,
    project_path          TEXT,
    cwd                   TEXT,
    message_count         INTEGER NOT NULL,
    parse_errors_json     TEXT NOT NULL,
    summary               TEXT,
    model                 TEXT,
    total_tokens          INTEGER NOT NULL,
    duration_minutes      INTEGER,
    first_message_millis  INTEGER,
    last_message_millis   INTEGER,
    PRIMARY KEY (schema_version, provider, show_last, source_path)
);";

/// Writes one row; the first three values are the schema version, the provider's key and
/// whether previews show the last messages, the others the fields of an `IndexRow` in order.
pub const INSERT_SQL: &'static str = "INSERT OR REPLACE INTO file_conversations (
    schema_version, provider, show_last, source_path, source_mtime_millis,
    source_size, id, timestamp, preview, full_text, search_text_lower,
    search_topic_end, project_name, project_path, cwd, message_count,
    parse_errors_json, summary, model, total_tokens, duration_minutes,
    first_message_millis, last_message_millis
) VALUES (
    ?1, ?2, ?3, ?4, ?5, ?6, ?7, ?8, ?9, ?10, ?11, ?12, ?13, ?14,
    ?15, ?16, ?17, ?18, ?19, ?20, ?21, ?22, ?23
)";

/// Reads the rows of a provider; the columns are the fields of an `IndexRow` in order.
pub const SELECT_SQL: &'static str = "SELECT
    source_path, source_mtime_millis, source_size, id, timestamp, preview,
    full_text, search_text_lower, search_topic_end, project_name, project_path,
    cwd, message_count, parse_errors_json, summary, model, total_tokens,
    duration_minutes, first_message_millis, last_message_millis
FROM file_conversations
WHERE schema_version = ?1 AND provider = ?2 AND show_last = ?3";

/// Deletes the rows of a conversation file.
pub const DELETE_SQL: &'static str =
    "DELETE FROM file_conversations WHERE provider = ?1 AND source_path = ?2";

/// The name of the database file.
pub const INDEX_FILE: &'static str = "conversation_index.db";

/// When a conversation file was changed, and how long it is.
#[derive(Clone, Copy, Debug, PartialEq, Eq, Structural)]
pub struct SourceFingerprint {
    pub modified_millis: i64,
    pub size: i64,
}

/// A number as a signed one, and the largest signed one where it is too large.
pub open spec fn clamp(n: nat) -> int {
    if n <= i64::MAX {
        n as int
    } else {
        i64::MAX as int
    }
}

fn clamped(n: u64) -> (r: i64)
    ensures
        r == clamp(n as nat),
{
    if n <= 0x7fff_ffff_ffff_ffff {
        n as i64
    } else {
        0x7fff_ffff_ffff_ffff
    }
}

/// Milliseconds since 1970; `since_epoch` is missing for a time before that.
pub fn system_time_to_millis(since_epoch: Option<u128>) -> (r: i64)
    ensures
        r == (match since_epoch {
            Some(n) => clamp(n as nat),
            None => 0,
        }),
{
    match since_epoch {
        Some(n) => if n <= 0x7fff_ffff_ffff_ffff {
            n as i64
        } else {
            0x7fff_ffff_ffff_ffff
        },
        None => 0,
    }
}

/// The fingerprint of a file. `modified` is the time of its last change in milliseconds since
/// 1970, missing where it is not known or earlier, and `len` its length.
pub fn fingerprint_from_metadata(modified: Option<u128>, len: u64) -> (r: SourceFingerprint)
    ensures
        r.modified_millis == (match modified {
            Some(n) => clamp(n as nat),
            None => 0,
        }),
        r.size == clamp(len as nat),
{
    SourceFingerprint { modified_millis: system_time_to_millis(modified), size: clamped(len) }
}

/// A conversation as the index keeps it, and the fingerprint of the file it was read from.
#[derive(Debug)]
pub struct CachedFileConversation {
    fingerprint: SourceFingerprint,
    conversation: Conversation,
}

/// What a `CachedFileConversation` says.
pub struct CachedFileConversationView {
    pub fingerprint: SourceFingerprint,
    pub conversation: ConversationView,
}

impl View for CachedFileConversation {
    type V = CachedFileConversationView;

    closed spec fn view(&self) -> CachedFileConversationView {
        CachedFileConversationView {
            fingerprint: self.fingerprint,
            conversation: self.conversation@,
        }
    }
}

impl CachedFileConversation {
    pub fn new(fingerprint: SourceFingerprint, conversation: Conversation) -> (r: Self)
        ensures
            r@.fingerprint == fingerprint,
            r@.conversation == conversation@,
    {
        CachedFileConversation { fingerprint, conversation }
    }

    /// The conversation, where the file has not changed since.
    pub fn conversation_if_fresh(&self, fingerprint: SourceFingerprint) -> (r: Option<Conversation>)
        ensures
            r is Some <==> fingerprint == self@.fingerprint,
            r matches Some(c) ==> c@ == self@.conversation,
    {
        if self.fingerprint == fingerprint {
            Some(self.conversation.clone())
        } else {
            None
        }
    }
}

/// Whether `out` is what `normalize` gives for a text.
pub open spec fn is_normalized<N: Fn(&str) -> String>(
    normalize: N,
    text: Seq<char>,
    out: String,
) -> bool {
    exists|s: &str| s@ == text && #[trigger] call_ensures(normalize, (s,), out)
}

/// Whether `end` is what `topic_end` gives for a text.
pub open spec fn is_topic_end<T: Fn(&str) -> usize>(
    topic_end: T,
    text: Seq<char>,
    end: usize,
) -> bool {
    exists|s: &str| s@ == text && #[trigger] call_ensures(topic_end, (s,), end)
}

/// Whether `after` is `before` with its search text and topic end in place: each is kept where it
/// was there, the search text is made out of the full text, and the topic end is that of the
/// search text as it then stands.
pub open spec fn is_attached<N: Fn(&str) -> String, T: Fn(&str) -> usize>(
    normalize: N,
    topic_end: T,
    before: Conversation,
    after: Conversation,
) -> bool {
    &&& after == (Conversation {
        search_text_lower: after.search_text_lower,
        search_topic_end: after.search_topic_end,
        ..before
    })
    &&& after.search_text_lower is Some
    &&& after.search_topic_end is Some
    &&& match before.search_text_lower {
        Some(t) => after.search_text_lower == Some(t),
        None => is_normalized(normalize, before.full_text@, after.search_text_lower->0),
    }
    &&& match before.search_topic_end {
        Some(e) => after.search_topic_end == Some(e),
        None => is_topic_end(
            topic_end,
            after.search_text_lower->0@,
            after.search_topic_end->0,
        ),
    }
}

/// Put the search text and its topic end in place where they are missing. `normalize` makes the
/// search text out of the full text, and `topic_end` tells where the topic of a search text
/// ends.
pub fn attach_search_cache<N: Fn(&str) -> String, T: Fn(&str) -> usize>(
    conversation: &mut Conversation,
    normalize: N,
    topic_end: T,
)
    requires
        forall|s: &str| #[trigger] call_requires(normalize, (s,)),
        forall|s: &str| #[trigger] call_requires(topic_end, (s,)),
    ensures
        is_attached(normalize, topic_end, *old(conversation), *final(conversation)),
{
    if conversation.search_text_lower.is_none() {
        let normalized: String = normalize(conversation.full_text.as_str());
        assert(is_normalized(normalize, conversation.full_text@, normalized));
        conversation.search_text_lower = Some(normalized);
    }
    if conversation.search_topic_end.is_none() {
        if let Some(text) = &conversation.search_text_lower {
            let end: usize = topic_end(text.as_str());
            assert(is_topic_end(topic_end, text@, end));
            conversation.search_topic_end = Some(end);
        }
    }
}

/// Attaching the search text a second time changes nothing.
pub proof fn law_attaching_twice_changes_nothing<N: Fn(&str) -> String, T: Fn(&str) -> usize>(
    normalize: N,
    topic_end: T,
    before: Conversation,
    once: Conversation,
    twice: Conversation,
)
    requires
        is_attached(normalize, topic_end, before, once),
        is_attached(normalize, topic_end, once, twice),
    ensures
        twice == once,
{
}

/// The key that the rows of a provider are kept under.
pub open spec fn key_of(provider: ProviderKind, tool: &ToolName) -> Seq<char> {
    match provider {
        ProviderKind::Claude => tool.command@,
        ProviderKind::Cursor => "cursor"@,
        ProviderKind::CursorAgent => "cursor-agent"@,
    }
}

/// The key that the rows of a provider are kept under.
pub fn provider_key(provider: ProviderKind, tool: &ToolName) -> (r: &str)
    ensures
        r@ == key_of(provider, tool),
{
    match provider {
        ProviderKind::Claude => tool.command.as_str(),
        ProviderKind::Cursor => "cursor",
        ProviderKind::CursorAgent => "cursor-agent",
    }
}

/// Different providers have different keys, where the command is none of the other keys.
pub proof fn law_provider_keys_differ(a: ProviderKind, b: ProviderKind, tool: &ToolName)
    requires
        tool.command@ != "cursor"@,
        tool.command@ != "cursor-agent"@,
    ensures
        key_of(a, tool) == key_of(b, tool) <==> a == b,
{
    reveal_strlit("cursor");
    reveal_strlit("cursor-agent");
    assert("cursor"@.len() == 6);
    assert("cursor-agent"@.len() == 12);
}

/// A row of the table, apart from the columns that tell the provider.
#[derive(Debug)]
pub struct IndexRow {
    pub source_path: String,
    pub source_mtime_millis: i64,
    pub source_size: i64,
    pub id: String,
    pub timestamp: String,
    pub preview: String,
    pub full_text: String,
    pub search_text_lower: String,
    pub search_topic_end: i64,
    pub project_name: Option<String>,
    pub project_path: Option<String>,
    pub cwd: Option<String>,
    pub message_count: i64,
    pub parse_errors_json: String,
    pub summary: Option<String>,
    pub model: Option<String>,
    pub total_tokens: i64,
    pub duration_minutes: Option<i64>,
    pub first_message_millis: Option<i64>,
    pub last_message_millis: Option<i64>,
}

/// The milliseconds of an optional time.
pub open spec fn opt_millis(t: Option<Timestamp>) -> Option<int> {
    match t {
        Some(t) => Some(t.spec_millis()),
        None => None,
    }
}

/// An optional number without its type.
pub open spec fn opt_int(n: Option<i64>) -> Option<int> {
    match n {
        Some(n) => Some(n as int),
        None => None,
    }
}

/// Whether `row` is the row that a conversation is kept in. `errors_json` is its parse errors
/// as JSON, and `topic_end` the end of the topic of its search text.
pub open spec fn is_row_of(
    conv: &Conversation,
    fingerprint: SourceFingerprint,
    errors_json: Seq<char>,
    topic_end: usize,
    row: IndexRow,
) -> bool {
    let t = conv.timestamp;
    let time = rfc3339_text(t.secs as int, t.nanos as int, t.offset as int);
    &&& is_row_at(conv, fingerprint, errors_json, topic_end, time, row)
    &&& rfc3339_exact(t) ==> rfc3339_reading(row.timestamp@) == Some(t)
}

/// Whether `row` is the row that a conversation is kept in, given its time as text.
pub open spec fn is_row_at(
    conv: &Conversation,
    fingerprint: SourceFingerprint,
    errors_json: Seq<char>,
    topic_end: usize,
    time: Seq<char>,
    row: IndexRow,
) -> bool {
    &&& row.source_path@ == conv.path@
    &&& row.source_mtime_millis == fingerprint.modified_millis
    &&& row.source_size == fingerprint.size
    &&& row.id@ == conv.id@
    &&& row.timestamp@ == time
    &&& row.preview@ == conv.preview@
    &&& row.full_text@ == conv.full_text@
    &&& conv.search_text_lower matches Some(t) && row.search_text_lower@ == t@
    &&& row.search_topic_end == (match conv.search_topic_end {
        Some(e) => e as i64,
        None => topic_end as i64,
    })
    &&& opt_text(row.project_name) == opt_text(conv.project_name)
    &&& opt_text(row.project_path) == opt_text(conv.project_path)
    &&& opt_text(row.cwd) == opt_text(conv.cwd)
    &&& row.message_count == conv.message_count as i64
    &&& row.parse_errors_json@ == errors_json
    &&& opt_text(row.summary) == opt_text(conv.summary)
    &&& opt_text(row.model) == opt_text(conv.model)
    &&& row.total_tokens == clamp(conv.total_tokens as nat)
    &&& opt_int(row.duration_minutes) == (match conv.duration_minutes {
        Some(m) => Some(clamp(m as nat)),
        None => None,
    })
    &&& opt_int(row.first_message_millis) == opt_millis(conv.first_message_time)
    &&& opt_int(row.last_message_millis) == opt_millis(conv.last_message_time)
}

/// The milliseconds of an optional time.
fn millis_of(t: Option<Timestamp>) -> (r: Option<i64>)
    requires
        t matches Some(t) ==> t.wf(),
    ensures
        opt_int(r) == opt_millis(t),
{
    match t {
        Some(t) => Some(t.timestamp_millis()),
        None => None,
    }
}

/// The row that a conversation is kept in; nothing where it has no search text yet.
pub fn row_from_conversation(
    conv: &Conversation,
    fingerprint: SourceFingerprint,
    errors_json: String,
    topic_end: usize,
) -> (r: Option<IndexRow>)
    requires
        conv.wf(),
    ensures
        r is Some <==> conv.search_text_lower is Some,
        r matches Some(row) ==> is_row_of(conv, fingerprint, errors_json@, topic_end, row),
{
    row_with_time(conv, fingerprint, errors_json, topic_end, to_rfc3339(conv.timestamp))
}

/// The row that a conversation is kept in, given its time as text; nothing where it has no
/// search text yet.
pub fn row_with_time(
    conv: &Conversation,
    fingerprint: SourceFingerprint,
    errors_json: String,
    topic_end: usize,
    time: String,
) -> (r: Option<IndexRow>)
    requires
        conv.wf(),
    ensures
        r is Some <==> conv.search_text_lower is Some,
        r matches Some(row) ==> is_row_at(
            conv,
            fingerprint,
            errors_json@,
            topic_end,
            time@,
            row,
        ),
{
    let Some(text_lower) = &conv.search_text_lower else { return None };
    let topic_end: usize = match conv.search_topic_end {
        Some(e) => e,
        None => topic_end,
    };
    let duration_minutes: Option<i64> = match conv.duration_minutes {
        Some(m) => Some(clamped(m)),
        None => None,
    };
    Some(
        IndexRow {
            source_path: conv.path.clone(),
            source_mtime_millis: fingerprint.modified_millis,
            source_size: fingerprint.size,
            id: conv.id.clone(),
            timestamp: time,
            preview: conv.preview.clone(),
            full_text: conv.full_text.clone(),
            search_text_lower: text_lower.clone(),
            search_topic_end: topic_end as i64,
            project_name: clone_opt(&conv.project_name),
            project_path: clone_opt(&conv.project_path),
            cwd: clone_opt(&conv.cwd),
            message_count: conv.message_count as i64,
            parse_errors_json: errors_json,
            summary: clone_opt(&conv.summary),
            model: clone_opt(&conv.model),
            total_tokens: clamped(conv.total_tokens),
            duration_minutes,
            first_message_millis: millis_of(conv.first_message_time),
            last_message_millis: millis_of(conv.last_message_time),
        },
    )
}

/// A signed number as an unsigned one, and zero where it is negative.
pub open spec fn at_least_zero(n: i64) -> nat {
    if n >= 0 {
        n as nat
    } else {
        0
    }
}

/// A path, where there is one that is not empty.
pub open spec fn nonempty(path: Option<Seq<char>>) -> Option<Seq<char>> {
    match path {
        Some(p) => if p.len() > 0 {
            Some(p)
        } else {
            None
        },
        None => None,
    }
}

/// A path, where there is one that is not empty.
pub fn optional_path(path: Option<String>) -> (r: Option<String>)
    ensures
        opt_text(r) == nonempty(opt_text(path)),
{
    match path {
        Some(p) => if p.as_str().unicode_len() > 0 {
            Some(p)
        } else {
            None
        },
        None => None,
    }
}

/// Whether `t` is the point in time at `millis` milliseconds after 1970, or nothing where that
/// is outside the calendar.
pub open spec fn is_time_at(millis: Option<int>, t: Option<Timestamp>) -> bool {
    match millis {
        Some(m) => {
            &&& t is Some <==> MIN_SECS <= m / 1000 <= MAX_SECS
            &&& t matches Some(t) ==> t.wf() && t.secs == m / 1000 && t.nanos == (m % 1000)
                * 1_000_000
        },
        None => t is None,
    }
}

/// The point in time at `millis` milliseconds after 1970, in the machine's time zone.
pub fn millis_to_local(millis: i64) -> (r: Option<Timestamp>)
    ensures
        is_time_at(Some(millis as int), r),
{
    match timestamp_from_millis(millis) {
        Some(t) => Some(to_local(t)),
        None => None,
    }
}

fn opt_millis_to_local(millis: Option<i64>) -> (r: Option<Timestamp>)
    ensures
        is_time_at(opt_int(millis), r),
{
    match millis {
        Some(m) => millis_to_local(m),
        None => None,
    }
}

/// A number from the table as an index or a count.
fn to_usize(n: i64) -> (r: usize)
    requires
        n <= usize::MAX,
    ensures
        r == at_least_zero(n),
{
    if n >= 0 {
        n as usize
    } else {
        0
    }
}

/// Whether the counts of a row fit the machine.
pub open spec fn row_fits_machine(row: IndexRow) -> bool {
    row.search_topic_end <= usize::MAX && row.message_count <= usize::MAX
}

/// Whether `conv` is the conversation that a row keeps, given its time and its parse errors.
pub open spec fn is_conversation_of(
    provider: ProviderKind,
    row: IndexRow,
    errors: Seq<ParseError>,
    timestamp: Timestamp,
    conv: ConversationView,
) -> bool {
    &&& conv.path == row.source_path@
    &&& conv.index == 0
    &&& conv.provider == provider
    &&& conv.id == row.id@
    &&& conv.timestamp == timestamp
    &&& conv.preview == row.preview@
    &&& conv.full_text == row.full_text@
    &&& conv.project_name == opt_text(row.project_name)
    &&& conv.project_path == nonempty(opt_text(row.project_path))
    &&& conv.cwd == nonempty(opt_text(row.cwd))
    &&& conv.message_count == at_least_zero(row.message_count)
    &&& conv.parse_errors == errors_view(errors)
    &&& conv.summary == opt_text(row.summary)
    &&& conv.model == opt_text(row.model)
    &&& conv.total_tokens == at_least_zero(row.total_tokens)
    &&& conv.duration_minutes == (match row.duration_minutes {
        Some(m) => Some(at_least_zero(m) as u64),
        None => None,
    })
    &&& is_time_at(opt_int(row.first_message_millis), conv.first_message_time)
    &&& is_time_at(opt_int(row.last_message_millis), conv.last_message_time)
    &&& conv.search_text_lower == Some(row.search_text_lower@)
    &&& conv.search_topic_end == Some(at_least_zero(row.search_topic_end) as usize)
}

/// The conversation that a row keeps, given its time. `errors` are its parse errors, read from
/// their JSON.
pub fn cached_at(
    provider: ProviderKind,
    row: IndexRow,
    errors: Vec<ParseError>,
    timestamp: Timestamp,
) -> (r: CachedFileConversation)
    requires
        row_fits_machine(row),
    ensures
        r@.fingerprint == (SourceFingerprint {
            modified_millis: row.source_mtime_millis,
            size: row.source_size,
        }),
        is_conversation_of(provider, row, errors@, timestamp, r@.conversation),
{
    let total_tokens: u64 = if row.total_tokens >= 0 {
        row.total_tokens as u64
    } else {
        0
    };
    let duration_minutes: Option<u64> = match row.duration_minutes {
        Some(m) => if m >= 0 {
            Some(m as u64)
        } else {
            Some(0)
        },
        None => None,
    };
    let fingerprint = SourceFingerprint {
        modified_millis: row.source_mtime_millis,
        size: row.source_size,
    };
    let conversation = Conversation {
        path: row.source_path,
        index: 0,
        provider,
        id: row.id,
        timestamp,
        preview: row.preview,
        full_text: row.full_text,
        project_name: row.project_name,
        project_path: optional_path(row.project_path),
        cwd: optional_path(row.cwd),
        message_count: to_usize(row.message_count),
        parse_errors: errors,
        summary: row.summary,
        model: row.model,
        total_tokens,
        duration_minutes,
        first_message_time: opt_millis_to_local(row.first_message_millis),
        last_message_time: opt_millis_to_local(row.last_message_millis),
        search_text_lower: Some(row.search_text_lower),
        search_topic_end: Some(to_usize(row.search_topic_end)),
    };
    CachedFileConversation::new(fingerprint, conversation)
}

/// Whether `t` is the time that a text tells, in some time zone, or any time where it tells
/// none.
pub open spec fn is_time_told(text: Seq<char>, t: Timestamp) -> bool {
    &&& t.wf()
    &&& rfc3339_reading(text) matches Some(told) ==> t.secs == told.secs && t.nanos == told.nanos
}

/// The time that a text tells, in the machine's time zone, or the present time where it tells
/// none.
pub fn time_told(text: &str) -> (r: Timestamp)
    ensures
        is_time_told(text@, r),
{
    match parse_rfc3339(text) {
        Some(t) => to_local(t),
        None => local_now(),
    }
}

/// Whether `cached` is the conversation that a row keeps.
pub open spec fn is_cached(
    provider: ProviderKind,
    row: IndexRow,
    errors: Seq<ParseError>,
    cached: CachedFileConversationView,
) -> bool {
    &&& cached.fingerprint == (SourceFingerprint {
        modified_millis: row.source_mtime_millis,
        size: row.source_size,
    })
    &&& is_time_told(row.timestamp@, cached.conversation.timestamp)
    &&& is_conversation_of(
        provider,
        row,
        errors,
        cached.conversation.timestamp,
        cached.conversation,
    )
}

/// The conversation that a row keeps.
pub fn cached_from_row(provider: ProviderKind, row: IndexRow, errors: Vec<ParseError>) -> (r:
    CachedFileConversation)
    requires
        row_fits_machine(row),
    ensures
        is_cached(provider, row, errors@, r@),
{
    let timestamp: Timestamp = time_told(row.timestamp.as_str());
    cached_at(provider, row, errors, timestamp)
}

proof fn lemma_millis_read_back(millis: Option<int>, t: Option<Timestamp>)
    requires
        is_time_at(millis, t),
        millis matches Some(m) ==> MIN_SECS <= m / 1000 <= MAX_SECS,
    ensures
        opt_millis(t) == millis,
{
    match (millis, t) {
        (Some(m), Some(t)) => {
            assert((m % 1000) * 1_000_000 / 1_000_000 == m % 1000);
            assert(m / 1000 * 1000 + m % 1000 == m);
        },
        _ => {},
    }
}

/// Whether the milliseconds of an optional time lie in the calendar. Those of a leap second at
/// its very end do not.
pub open spec fn millis_in_calendar(t: Option<Timestamp>) -> bool {
    t matches Some(t) ==> t.spec_millis() / 1000 <= MAX_SECS
}

/// What is read from the row of a conversation is that conversation, outside of any list: with
/// the same time, and with the times of its first and last message to the millisecond. This
/// holds of conversations whose time RFC 3339 can write, whose numbers fit the table's signed
/// ones, and whose paths are not empty.
pub proof fn law_index_round_trip(
    conv: &Conversation,
    fingerprint: SourceFingerprint,
    errors_json: Seq<char>,
    topic_end: usize,
    row: IndexRow,
    errors: Seq<ParseError>,
    cached: CachedFileConversationView,
)
    requires
        conv.wf(),
        is_row_of(conv, fingerprint, errors_json, topic_end, row),
        is_cached(conv.provider, row, errors, cached),
        errors_view(errors) == errors_view(conv.parse_errors@),
        rfc3339_exact(conv.timestamp),
        conv.total_tokens <= i64::MAX,
        conv.message_count <= i64::MAX,
        conv.duration_minutes matches Some(m) ==> m <= i64::MAX,
        conv.search_topic_end matches Some(e) && e <= i64::MAX,
        conv.project_path matches Some(p) ==> p@.len() > 0,
        conv.cwd matches Some(p) ==> p@.len() > 0,
        millis_in_calendar(conv.first_message_time),
        millis_in_calendar(conv.last_message_time),
    ensures
        cached.fingerprint == fingerprint,
        cached.conversation.timestamp.instant() == conv.timestamp.instant(),
        opt_millis(cached.conversation.first_message_time) == opt_millis(conv.first_message_time),
        opt_millis(cached.conversation.last_message_time) == opt_millis(conv.last_message_time),
        cached.conversation == (ConversationView {
            index: 0,
            timestamp: cached.conversation.timestamp,
            first_message_time: cached.conversation.first_message_time,
            last_message_time: cached.conversation.last_message_time,
            ..conv@
        }),
{
    lemma_millis_read_back(
        opt_int(row.first_message_millis),
        cached.conversation.first_message_time,
    );
    lemma_millis_read_back(
        opt_int(row.last_message_millis),
        cached.conversation.last_message_time,
    );
}

/// A file that has changed is not answered from the index: a conversation is only given out for
/// the fingerprint it was kept with.
pub proof fn law_index_answers_only_for_the_same_fingerprint(
    conv: &Conversation,
    kept: SourceFingerprint,
    errors_json: Seq<char>,
    topic_end: usize,
    row: IndexRow,
    errors: Seq<ParseError>,
    cached: CachedFileConversationView,
    asked: SourceFingerprint,
)
    requires
        is_row_of(conv, kept, errors_json, topic_end, row),
        is_cached(conv.provider, row, errors, cached),
        asked == cached.fingerprint,
    ensures
        asked == kept,
{
}

/// The conversations of a provider that the index keeps.
#[derive(Debug)]
pub struct ProviderCache {
    entries: Vec<CachedFileConversation>,
}

/// What a list of cached conversations says.
pub open spec fn cached_views(v: Seq<CachedFileConversation>) -> Seq<CachedFileConversationView> {
    v.map_values(|c: CachedFileConversation| c@)
}

impl View for ProviderCache {
    type V = Seq<CachedFileConversationView>;

    closed spec fn view(&self) -> Seq<CachedFileConversationView> {
        cached_views(self.entries@)
    }
}

/// The conversation at a path: of several with that path, the last.
pub open spec fn lookup(cache: Seq<CachedFileConversationView>, path: Seq<char>) -> Option<
    CachedFileConversationView,
>
    decreases cache.len(),
{
    if cache.len() == 0 {
        None
    } else if path_id(cache.last().conversation.path) == path_id(path) {
        Some(cache.last())
    } else {
        lookup(cache.drop_last(), path)
    }
}

impl ProviderCache {
    /// The conversation that the index keeps for a path.
    pub fn get(&self, path: &str) -> (r: Option<&CachedFileConversation>)
        ensures
            match r {
                Some(c) => lookup(self@, path@) == Some(c@),
                None => lookup(self@, path@) is None,
            },
    {
        let mut i: usize = self.entries.len();
        assert(self@.take(self@.len() as int) =~= self@);
        while i > 0
            invariant
                i <= self.entries@.len(),
                self@.len() == self.entries@.len(),
                lookup(self@, path@) == lookup(self@.take(i as int), path@),
            decreases i,
        {
            let ghost front = self@.take(i as int);
            i = i - 1;
            assert(front.drop_last() =~= self@.take(i as int));
            assert(front.last() == self.entries@[i as int]@);
            if same_path(self.entries[i].conversation.path.as_str(), path) {
                return Some(&self.entries[i]);
            }
        }
        None
    }

    pub fn len(&self) -> (r: usize)
        ensures
            r == self@.len(),
    {
        self.entries.len()
    }

    pub fn is_empty(&self) -> (r: bool)
        ensures
            r == (self@.len() == 0),
    {
        self.entries.len() == 0
    }
}

/// Whether the times of all the conversations lie in the calendar.
pub open spec fn cache_wf(cache: Seq<CachedFileConversationView>) -> bool {
    forall|i: int| 0 <= i < cache.len() ==> (#[trigger] cache[i]).conversation.wf()
}

/// A conversation that is looked up is one of the cache.
pub proof fn lemma_lookup(cache: Seq<CachedFileConversationView>, path: Seq<char>)
    ensures
        lookup(cache, path) matches Some(c) ==> cache.contains(c) && path_id(c.conversation.path)
            == path_id(path),
    decreases cache.len(),
{
    if cache.len() > 0 {
        lemma_lookup(cache.drop_last(), path);
        assert(cache[cache.len() - 1] == cache.last());
        match lookup(cache.drop_last(), path) {
            Some(c) => {
                let i = choose|i: int|
                    0 <= i < cache.drop_last().len() && cache.drop_last()[i] == c;
                assert(cache[i] == c);
            },
            None => {},
        }
    }
}

/// The conversations that the rows of a provider keep. Each row comes with its parse errors,
/// read from their JSON.
pub fn load_provider_cache(provider: ProviderKind, rows: Vec<(IndexRow, Vec<ParseError>)>) -> (r:
    ProviderCache)
    requires
        forall|i: int| 0 <= i < rows@.len() ==> row_fits_machine((#[trigger] rows@[i]).0),
    ensures
        r@.len() == rows@.len(),
        forall|i: int|
            0 <= i < rows@.len() ==> is_cached(
                provider,
                (#[trigger] rows@[i]).0,
                rows@[i].1@,
                r@[i],
            ),
        cache_wf(r@),
{
    let ghost all = rows@;
    let mut entries: Vec<CachedFileConversation> = Vec::new();
    for entry in it: rows
        invariant
            it.seq() == all,
            forall|i: int| 0 <= i < all.len() ==> row_fits_machine((#[trigger] all[i]).0),
            entries@.len() == it.index(),
            forall|i: int|
                0 <= i < entries@.len() ==> is_cached(
                    provider,
                    (#[trigger] all[i]).0,
                    all[i].1@,
                    entries@[i]@,
                ),
    {
        assert(row_fits_machine(all[it.index() as int].0));
        let (row, errors) = entry;
        entries.push(cached_from_row(provider, row, errors));
    }
    let r = ProviderCache { entries };
    assert forall|i: int| 0 <= i < all.len() implies is_cached(
        provider,
        (#[trigger] all[i]).0,
        all[i].1@,
        r@[i],
    ) by {
        assert(r@[i] == entries@[i]@);
    }
    assert forall|i: int| 0 <= i < r@.len() implies (#[trigger] r@[i]).conversation.wf() by {
        assert(is_cached(provider, all[i].0, all[i].1@, r@[i]));
    }
    r
}

/// What goes into the index for a conversation: its fingerprint, its parse errors as JSON, and
/// the end of the topic of its search text.
#[derive(Debug)]
pub struct IndexEntry {
    pub conversation: Conversation,
    pub fingerprint: SourceFingerprint,
    pub errors_json: String,
    pub topic_end: usize,
}

/// What is kept of a conversation; `topic_end` tells where the topic of a search text ends, and is
/// asked where the conversation has a search text without a topic end.
pub fn index_entry<T: Fn(&str) -> usize>(
    conversation: Conversation,
    fingerprint: SourceFingerprint,
    errors_json: String,
    topic_end: T,
) -> (r: IndexEntry)
    requires
        forall|s: &str| #[trigger] call_requires(topic_end, (s,)),
    ensures
        r.conversation == conversation,
        r.fingerprint == fingerprint,
        r.errors_json == errors_json,
        match (conversation.search_text_lower, conversation.search_topic_end) {
            (_, Some(e)) => r.topic_end == e,
            (Some(t), None) => is_topic_end(topic_end, t@, r.topic_end),
            (None, None) => r.topic_end == 0,
        },
{
    let end: usize = match (&conversation.search_text_lower, conversation.search_topic_end) {
        (_, Some(e)) => e,
        (Some(text), None) => topic_end(text.as_str()),
        (None, None) => 0,
    };
    proof {
        if conversation.search_text_lower is Some && conversation.search_topic_end is None {
            assert(is_topic_end(topic_end, conversation.search_text_lower->0@, end));
        }
    }
    IndexEntry { conversation, fingerprint, errors_json, topic_end: end }
}

/// The entries among the first `n` that have a search text.
pub open spec fn searchable_among(entries: Seq<IndexEntry>, n: nat) -> Seq<int>
    decreases n,
{
    if n == 0 {
        Seq::empty()
    } else {
        let before = searchable_among(entries, (n - 1) as nat);
        if entries[n - 1].conversation.search_text_lower is Some {
            before.push(n - 1)
        } else {
            before
        }
    }
}

/// The rows that are written for entries: one for each that has a search text, in order.
pub fn rows_to_save(entries: Vec<IndexEntry>) -> (r: Vec<IndexRow>)
    requires
        forall|i: int| 0 <= i < entries@.len() ==> (#[trigger] entries@[i]).conversation.wf(),
    ensures
        ({
            let kept = searchable_among(entries@, entries@.len());
            &&& r@.len() == kept.len()
            &&& forall|k: int|
                0 <= k < kept.len() ==> {
                    let e = entries@[#[trigger] kept[k]];
                    is_row_of(
                        &e.conversation,
                        e.fingerprint,
                        e.errors_json@,
                        e.topic_end,
                        r@[k],
                    )
                }
        }),
{
    let ghost all = entries@;
    let mut rows: Vec<IndexRow> = Vec::new();
    for entry in it: entries
        invariant
            it.seq() == all,
            forall|i: int| 0 <= i < all.len() ==> (#[trigger] all[i]).conversation.wf(),
            rows@.len() == searchable_among(all, it.index() as nat).len(),
            forall|k: int|
                0 <= k < rows@.len() ==> {
                    let e = all[#[trigger] searchable_among(all, it.index() as nat)[k]];
                    is_row_of(
                        &e.conversation,
                        e.fingerprint,
                        e.errors_json@,
                        e.topic_end,
                        rows@[k],
                    )
                },
    {
        let ghost n = it.index() as nat;
        assert(all[n as int].conversation.wf());
        let ghost was = rows@;
        if let Some(row) = row_from_conversation(
            &entry.conversation,
            entry.fingerprint,
            entry.errors_json,
            entry.topic_end,
        ) {
            rows.push(row);
        }
        proof {
            let before = searchable_among(all, n);
            let after = searchable_among(all, n + 1);
            assert forall|k: int| 0 <= k < rows@.len() implies {
                let e = all[#[trigger] after[k]];
                is_row_of(&e.conversation, e.fingerprint, e.errors_json@, e.topic_end, rows@[k])
            } by {
                if k < was.len() {
                    assert(after[k] == before[k]);
                    assert(rows@[k] == was[k]);
                }
            }
        }
    }
    rows
}

/// The directory of the index; `home` is the home directory.
pub fn index_dir(home: &str) -> (r: String)
    ensures
        r@ == spec_join(spec_join(spec_join(home@, ".local"@), "state"@), "mnemonai"@),
{
    let local: String = join(home, ".local");
    let state: String = join(local.as_str(), "state");
    join(state.as_str(), "mnemonai")
}

/// The index answers for a path with the last conversation that it keeps for that path, and has
/// none exactly where it keeps none for it.
pub proof fn law_index_answers_with_the_last(
    cache: Seq<CachedFileConversationView>,
    path: Seq<char>,
)
    ensures
        match lookup(cache, path) {
            Some(c) => exists|k: int|
                0 <= k < cache.len() && #[trigger] cache[k] == c && path_id(c.conversation.path)
                    == path_id(path) && forall|j: int|
                    k < j < cache.len() ==> path_id((#[trigger] cache[j]).conversation.path)
                        != path_id(path),
            None => forall|j: int|
                0 <= j < cache.len() ==> path_id((#[trigger] cache[j]).conversation.path)
                    != path_id(path),
        },
    decreases cache.len(),
{
    if cache.len() > 0 {
        let front = cache.drop_last();
        law_index_answers_with_the_last(front, path);
        assert(cache[cache.len() - 1] == cache.last());
        if path_id(cache.last().conversation.path) != path_id(path) {
            match lookup(front, path) {
                Some(c) => {
                    let k = choose|k: int|
                        0 <= k < front.len() && #[trigger] front[k] == c && path_id(
                            c.conversation.path,
                        ) == path_id(path) && forall|j: int|
                            k < j < front.len() ==> path_id(
                                (#[trigger] front[j]).conversation.path,
                            ) != path_id(path);
                    assert(cache[k] == c);
                    assert forall|j: int| k < j < cache.len() implies path_id(
                        (#[trigger] cache[j]).conversation.path,
                    ) != path_id(path) by {
                        if j < front.len() {
                            assert(front[j] == cache[j]);
                        }
                    }
                },
                None => {
                    assert forall|j: int| 0 <= j < cache.len() implies path_id(
                        (#[trigger] cache[j]).conversation.path,
                    ) != path_id(path) by {
                        if j < front.len() {
                            assert(front[j] == cache[j]);
                        }
                    }
                },
            }
        }
    }
}

/// What is written for entries is a row for each that has a search text, in order, and none for
/// the others.
pub proof fn law_searchable_entries_are_written(entries: Seq<IndexEntry>, n: nat)
    requires
        n < entries.len(),
    ensures
        searchable_among(entries, 0).len() == 0,
        entries[n as int].conversation.search_text_lower is Some ==> searchable_among(
            entries,
            n + 1,
        ) == searchable_among(entries, n).push(n as int),
        entries[n as int].conversation.search_text_lower is None ==> searchable_among(
            entries,
            n + 1,
        ) == searchable_among(entries, n),
{
}

/// Each column of a row holds what the conversation says, under the fingerprint of its file.
pub proof fn law_columns_hold_what_the_conversation_says(
    conv: &Conversation,
    fingerprint: SourceFingerprint,
    errors_json: Seq<char>,
    topic_end: usize,
    row: IndexRow,
)
    requires
        is_row_of(conv, fingerprint, errors_json, topic_end, row),
    ensures
        row.source_path@ == conv.path@,
        row.source_mtime_millis == fingerprint.modified_millis,
        row.source_size == fingerprint.size,
        row.id@ == conv.id@,
        row.preview@ == conv.preview@,
        row.full_text@ == conv.full_text@,
        conv.search_text_lower is Some && row.search_text_lower@ == conv.search_text_lower->0@,
        opt_text(row.project_name) == opt_text(conv.project_name),
        opt_text(row.project_path) == opt_text(conv.project_path),
        opt_text(row.cwd) == opt_text(conv.cwd),
        opt_text(row.summary) == opt_text(conv.summary),
        opt_text(row.model) == opt_text(conv.model),
        conv.message_count <= i64::MAX ==> row.message_count == conv.message_count,
        conv.total_tokens <= i64::MAX ==> row.total_tokens == conv.total_tokens,
        row.parse_errors_json@ == errors_json,
{
}

/// Numbers that a column can hold are kept as they are, and larger ones as the largest.
pub proof fn law_large_numbers_are_clamped(n: nat)
    ensures
        n <= i64::MAX ==> clamp(n) == n,
        n > i64::MAX ==> clamp(n) == i64::MAX,
{
}

/// The search text that is put in place is made out of the full text where there was none, and
/// where there was one it stays; nothing but the search text and its topic end changes.
pub proof fn law_search_text_is_made_of_the_full_text<
    N: Fn(&str) -> String,
    T: Fn(&str) -> usize,
>(normalize: N, topic_end: T, before: Conversation, after: Conversation)
    requires
        is_attached(normalize, topic_end, before, after),
    ensures
        after.search_text_lower is Some,
        after.search_topic_end is Some,
        before.search_text_lower is Some ==> after.search_text_lower == before.search_text_lower,
        before.search_topic_end is Some ==> after.search_topic_end == before.search_topic_end,
        before.search_text_lower is None ==> exists|s: &str|
            s@ == before.full_text@ && #[trigger] call_ensures(
                normalize,
                (s,),
                after.search_text_lower->0,
            ),
        before.search_topic_end is None ==> exists|s: &str|
            s@ == after.search_text_lower->0@ && #[trigger] call_ensures(
                topic_end,
                (s,),
                after.search_topic_end->0,
            ),
        after.path == before.path && after.id == before.id && after.provider == before.provider,
        after.full_text == before.full_text && after.preview == before.preview,
        after.timestamp == before.timestamp && after.project_path == before.project_path,
        after.message_count == before.message_count && after.parse_errors == before.parse_errors,
{
}

/// The conversation of a row says what the columns hold. A count below zero is read as none, an
/// empty path as no path, and a time is that of its milliseconds.
pub proof fn law_conversation_says_what_the_columns_hold(
    provider: ProviderKind,
    row: IndexRow,
    errors: Seq<ParseError>,
    cached: CachedFileConversationView,
)
    requires
        is_cached(provider, row, errors, cached),
    ensures
        ({
            let conv = cached.conversation;
            &&& cached.fingerprint.modified_millis == row.source_mtime_millis
            &&& cached.fingerprint.size == row.source_size
            &&& conv.provider == provider && conv.path == row.source_path@ && conv.id == row.id@
            &&& conv.preview == row.preview@ && conv.full_text == row.full_text@
            &&& row.message_count >= 0 ==> conv.message_count == row.message_count
            &&& row.message_count < 0 ==> conv.message_count == 0
            &&& row.total_tokens >= 0 ==> conv.total_tokens == row.total_tokens
            &&& row.total_tokens < 0 ==> conv.total_tokens == 0
            &&& row.project_path is Some && row.project_path->0@.len() > 0 ==> conv.project_path
                == Some(row.project_path->0@)
            &&& row.project_path is Some && row.project_path->0@.len() == 0 ==> conv.project_path
                is None
            &&& row.project_path is None ==> conv.project_path is None
            &&& row.cwd is Some && row.cwd->0@.len() > 0 ==> conv.cwd == Some(row.cwd->0@)
            &&& row.cwd is None ==> conv.cwd is None
            &&& row.duration_minutes is None <==> conv.duration_minutes is None
            &&& row.duration_minutes is Some && row.duration_minutes->0 >= 0
                ==> conv.duration_minutes->0 == row.duration_minutes->0
            &&& conv.first_message_time is Some ==> row.first_message_millis is Some
                && conv.first_message_time->0.secs * 1000 + conv.first_message_time->0.nanos
                / 1_000_000 == row.first_message_millis->0
            &&& conv.last_message_time is Some ==> row.last_message_millis is Some
                && conv.last_message_time->0.secs * 1000 + conv.last_message_time->0.nanos
                / 1_000_000 == row.last_message_millis->0
            &&& rfc3339_reading(row.timestamp@) is Some ==> conv.timestamp.secs
                == rfc3339_reading(row.timestamp@)->0.secs && conv.timestamp.nanos
                == rfc3339_reading(row.timestamp@)->0.nanos
        }),
{
}

/// The rows of the first tool are kept under its command, and those of the others under theirs.
pub proof fn law_rows_are_kept_under_the_command(tool: &ToolName)
    ensures
        key_of(ProviderKind::Claude, tool) == tool.command@,
        key_of(ProviderKind::Cursor, tool) == "cursor"@,
        key_of(ProviderKind::CursorAgent, tool) == "cursor-agent"@,
{
}

} // verus!
